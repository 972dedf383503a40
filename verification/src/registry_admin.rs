//! Registry management: register authors, rotate and revoke keys, view epoch timelines, export the
//! trusted JSON. Rotation/revocation are authorized by each author's master key. They take effect
//! from `max_policy_version + 1`, so existing signed versions keep verifying and the change
//! applies to future versions onward.
//!
//! The application loads and saves the registry and the keys; the operations here work on the
//! loaded registry.

use vstd::prelude::*;

use aion_context::key_registry::KeyRegistry;

use crate::error::StudioError;
use crate::keystore::{hex_encode, hex_of};
use crate::registry_store::{
    apply_revocation, apply_rotation, epochs_for, epochs_of, generate_seed, has_active_epoch_at,
    has_epoch_at, is_first_active, master_is, public_key_of, register_author, registry_epochs,
    registry_json, registry_master_keys, save, valid_for, sign_revocation, sign_rotation,
    EpochData, EpochStatus, Reason,
};
use crate::text::{decimal, decimal_string, same_text};

verus! {

/// One key epoch, rendered for display.
#[derive(Debug, Clone)]
pub struct EpochView {
    pub epoch: u32,
    pub public_key: String,
    pub created_at_version: u64,
    pub status: String,
    pub detail: String,
}

/// An author and its epoch timeline.
#[derive(Debug, Clone)]
pub struct AuthorView {
    pub author_id: u64,
    pub epochs: Vec<EpochView>,
}

/// The name of a revocation reason.
pub open spec fn reason_name(r: Reason) -> Seq<char> {
    match r {
        Reason::Compromised => "compromised"@,
        Reason::Superseded => "superseded"@,
        Reason::Retired => "retired"@,
        Reason::Unspecified => "unspecified"@,
    }
}

/// The reason a name stands for; any other name is `Unspecified`.
pub open spec fn reason_named(s: Seq<char>) -> Reason {
    if s == "compromised"@ {
        Reason::Compromised
    } else if s == "superseded"@ {
        Reason::Superseded
    } else if s == "retired"@ {
        Reason::Retired
    } else {
        Reason::Unspecified
    }
}

/// The reason a revocation code stands for (codes other than 1, 2, 3 read as unspecified).
pub open spec fn reason_of_code(code: u16) -> Reason {
    if code == 1 {
        Reason::Compromised
    } else if code == 2 {
        Reason::Superseded
    } else if code == 3 {
        Reason::Retired
    } else {
        Reason::Unspecified
    }
}

/// Parse a revocation reason by name.
pub fn parse_reason(s: &str) -> (r: Reason)
    ensures
        r == reason_named(s@),
{
    if same_text(s, "compromised") {
        Reason::Compromised
    } else if same_text(s, "superseded") {
        Reason::Superseded
    } else if same_text(s, "retired") {
        Reason::Retired
    } else {
        Reason::Unspecified
    }
}

/// The name of a revocation reason.
pub fn reason_str(r: Reason) -> (s: &'static str)
    ensures
        s@ == reason_name(r),
{
    match r {
        Reason::Compromised => "compromised",
        Reason::Superseded => "superseded",
        Reason::Retired => "retired",
        Reason::Unspecified => "unspecified",
    }
}

fn reason_from_code(code: u16) -> (r: Reason)
    ensures
        r == reason_of_code(code),
{
    if code == 1 {
        Reason::Compromised
    } else if code == 2 {
        Reason::Superseded
    } else if code == 3 {
        Reason::Retired
    } else {
        Reason::Unspecified
    }
}

/// Naming a reason and parsing the name gives the reason back.
pub proof fn lemma_reason_round_trip(r: Reason)
    ensures
        reason_named(reason_name(r)) == r,
{
    reveal_strlit("compromised");
    reveal_strlit("superseded");
    reveal_strlit("retired");
    reveal_strlit("unspecified");
    // The four names differ in their first letter.
    assert("compromised"@[0] == 'c' && "superseded"@[0] == 's' && "retired"@[0] == 'r'
        && "unspecified"@[0] == 'u');
}

/// The status word of an epoch.
pub open spec fn status_word(s: EpochStatus) -> Seq<char> {
    match s {
        EpochStatus::Active => "active"@,
        EpochStatus::Rotated { .. } => "rotated"@,
        EpochStatus::Revoked { .. } => "revoked"@,
    }
}

/// The detail line of an epoch: the successor and version of a rotation, or the reason and
/// version of a revocation; empty while active.
pub open spec fn status_detail(s: EpochStatus) -> Seq<char> {
    match s {
        EpochStatus::Active => seq![],
        EpochStatus::Rotated { successor_epoch, effective_from_version } => "\u{2192} epoch "@
            + decimal(successor_epoch as nat) + " from v"@ + decimal(effective_from_version as nat),
        EpochStatus::Revoked { reason_code, effective_from_version } => reason_name(
            reason_of_code(reason_code),
        ) + " from v"@ + decimal(effective_from_version as nat),
    }
}

/// `v` renders epoch `e`.
pub open spec fn renders_epoch(v: EpochView, e: EpochData) -> bool {
    &&& v.epoch == e.epoch
    &&& v.public_key@ == hex_of(e.public_key@)
    &&& v.created_at_version == e.created_at_version
    &&& v.status@ == status_word(e.status)
    &&& v.detail@ == status_detail(e.status)
}

/// `v` renders the timeline `epochs` of `author`.
pub open spec fn renders_author(v: AuthorView, author: u64, epochs: Seq<EpochData>) -> bool {
    &&& v.author_id == author
    &&& v.epochs.len() == epochs.len()
    &&& forall|k: int| 0 <= k < epochs.len() ==> renders_epoch(#[trigger] v.epochs@[k], epochs[k])
}

/// Render one epoch.
fn epoch_view(e: &EpochData) -> (v: EpochView)
    ensures
        renders_epoch(v, *e),
{
    let (status, detail) = match e.status {
        EpochStatus::Active => (String::from_str("active"), String::new()),
        EpochStatus::Rotated { successor_epoch, effective_from_version } => {
            let d = String::from_str("\u{2192} epoch ").concat(
                decimal_string(successor_epoch as u64).as_str(),
            ).concat(" from v").concat(decimal_string(effective_from_version).as_str());
            (String::from_str("rotated"), d)
        },
        EpochStatus::Revoked { reason_code, effective_from_version } => {
            let d = String::from_str(reason_str(reason_from_code(reason_code))).concat(
                " from v",
            ).concat(decimal_string(effective_from_version).as_str());
            (String::from_str("revoked"), d)
        },
    };
    EpochView {
        epoch: e.epoch,
        public_key: hex_encode(&e.public_key),
        created_at_version: e.created_at_version,
        status,
        detail,
    }
}

/// An author and its epoch timeline, as the registry holds it.
pub fn author_view(registry: &KeyRegistry, id: u64) -> (v: AuthorView)
    ensures
        renders_author(v, id, epochs_of(registry_epochs(*registry), id)),
{
    let epochs = epochs_for(registry, id);
    let mut out: Vec<EpochView> = Vec::new();
    let mut k: usize = 0;
    while k < epochs.len()
        invariant
            k <= epochs.len(),
            out.len() == k,
            forall|j: int| 0 <= j < k ==> renders_epoch(#[trigger] out@[j], epochs@[j]),
        decreases epochs.len() - k,
    {
        out.push(epoch_view(&epochs[k]));
        k = k + 1;
    }
    AuthorView { author_id: id, epochs: out }
}

/// Every given author with its epoch timeline, in the order given.
pub fn list(registry: &KeyRegistry, ids: &Vec<u64>) -> (r: Vec<AuthorView>)
    ensures
        r.len() == ids.len(),
        forall|k: int|
            0 <= k < ids.len() ==> renders_author(
                #[trigger] r@[k],
                ids@[k],
                epochs_of(registry_epochs(*registry), ids@[k]),
            ),
{
    let mut r: Vec<AuthorView> = Vec::new();
    let mut k: usize = 0;
    while k < ids.len()
        invariant
            k <= ids.len(),
            r.len() == k,
            forall|j: int|
                0 <= j < k ==> renders_author(
                    #[trigger] r@[j],
                    ids@[j],
                    epochs_of(registry_epochs(*registry), ids@[j]),
                ),
        decreases ids.len() - k,
    {
        r.push(author_view(registry, ids[k]));
        k = k + 1;
    }
    r
}

// ---------------------------------------------------------------------------------------------
// Register, rotate, revoke.
// ---------------------------------------------------------------------------------------------

/// The largest of a list of numbers, 0 for none.
pub open spec fn seq_max(s: Seq<u64>) -> nat
    decreases s.len(),
{
    if s.len() == 0 {
        0
    } else {
        let m = seq_max(s.drop_last());
        if s.last() as nat > m {
            s.last() as nat
        } else {
            m
        }
    }
}

/// The largest of a list is at least every element, and is one of them (0 for an empty list).
pub proof fn lemma_seq_max_is_the_largest(s: Seq<u64>)
    ensures
        forall|k: int| 0 <= k < s.len() ==> s[k] <= seq_max(s),
        s.len() > 0 ==> exists|k: int| 0 <= k < s.len() && s[k] == seq_max(s),
        s.len() == 0 ==> seq_max(s) == 0,
    decreases s.len(),
{
    if s.len() > 0 {
        let r = s.drop_last();
        lemma_seq_max_is_the_largest(r);
        assert forall|k: int| 0 <= k < s.len() implies s[k] <= seq_max(s) by {
            if k < s.len() - 1 {
                assert(s[k] == r[k]);
            }
        }
        if s.last() as nat > seq_max(r) {
            assert(s[s.len() - 1] == seq_max(s));
        } else if r.len() > 0 {
            let k = choose|k: int| 0 <= k < r.len() && r[k] == seq_max(r);
            assert(s[k] == r[k]);
        } else {
            assert(s[0] == s.last());
        }
    }
}

proof fn lemma_seq_max_bound(s: Seq<u64>)
    requires
        forall|k: int| 0 <= k < s.len() ==> s[k] < u64::MAX,
    ensures
        seq_max(s) < u64::MAX,
    decreases s.len(),
{
    if s.len() > 0 {
        lemma_seq_max_bound(s.drop_last());
    }
}

fn max_of(v: &Vec<u64>) -> (m: u64)
    ensures
        m == seq_max(v@),
{
    let mut m: u64 = 0;
    let mut k: usize = 0;
    while k < v.len()
        invariant
            k <= v.len(),
            m == seq_max(v@.take(k as int)),
        decreases v.len() - k,
    {
        assert(v@.take(k + 1).drop_last() =~= v@.take(k as int));
        if v[k] > m {
            m = v[k];
        }
        k = k + 1;
    }
    assert(v@.take(v.len() as int) =~= v@);
    m
}

/// `max(versions) + 1`: the first version after every existing one, from the version counts of
/// all policies — rotations and revocations take effect there, so existing versions stay valid.
pub fn effective_from(version_counts: &Vec<u64>) -> (v: u64)
    requires
        forall|k: int| 0 <= k < version_counts.len() ==> version_counts@[k] < u64::MAX,
    ensures
        v == seq_max(version_counts@) + 1,
        forall|k: int| 0 <= k < version_counts.len() ==> version_counts@[k] < v,
        version_counts.len() == 0 ==> v == 1,
        version_counts.len() > 0 ==> exists|k: int|
            0 <= k < version_counts.len() && version_counts@[k] + 1 == v,
{
    proof {
        lemma_seq_max_bound(version_counts@);
        lemma_seq_max_is_the_largest(version_counts@);
    }
    max_of(version_counts) + 1
}

/// The id a registration uses: the requested one, else one past the largest known id.
pub open spec fn chosen_id(requested: Option<u64>, known: Seq<u64>) -> nat {
    match requested {
        Some(i) => i as nat,
        None => seq_max(known) + 1,
    }
}

/// A fresh operational or master key seed.
pub fn new_seed() -> (r: Result<[u8; 32], StudioError>)
    ensures
        r matches Err(e) ==> e is Aion,
{
    match generate_seed() {
        Ok(s) => Ok(s),
        Err(e) => Err(StudioError::Aion(e)),
    }
}

/// A newly registered author: its timeline and the seeds of its master and operational keys.
pub struct Registered {
    pub view: AuthorView,
    pub master_seed: [u8; 32],
    pub op_seed: [u8; 32],
}

/// The message naming an author: `author <id>`.
pub open spec fn author_msg(id: u64) -> Seq<char> {
    "author "@ + decimal(id as nat)
}

fn author_message(id: u64) -> (s: String)
    ensures
        s@ == author_msg(id),
{
    String::from_str("author ").concat(decimal_string(id).as_str())
}

/// `after` is `before` with `id` newly registered: epoch 0, active from version 1, with the
/// public key of `op_seed`, and `master_seed`'s public key as its master key.
pub open spec fn registered_fresh(
    before: Map<u64, Seq<EpochData>>,
    after: Map<u64, Seq<EpochData>>,
    masters_before: Map<u64, Seq<u8>>,
    masters_after: Map<u64, Seq<u8>>,
    id: u64,
    master_seed: Seq<u8>,
    op_seed: Seq<u8>,
) -> bool {
    &&& after == before.insert(
        id,
        seq![EpochData {
            epoch: 0,
            public_key: after[id][0].public_key,
            created_at_version: 1,
            status: EpochStatus::Active,
        }],
    )
    &&& after[id][0].public_key@ == crate::registry_store::ed25519_public_key(op_seed)
    &&& masters_after == masters_before.insert(id, crate::registry_store::ed25519_public_key(master_seed))
}

/// Register `id` with the given master and operational seeds, epoch 0 from version 1, and
/// return its timeline. Refused, with the registry unchanged, exactly when the registry
/// already holds `id`.
pub fn register_with(
    registry: &mut KeyRegistry,
    id: u64,
    master_seed: &[u8; 32],
    op_seed: &[u8; 32],
) -> (r: Result<AuthorView, StudioError>)
    ensures
        !registry_epochs(*old(registry)).dom().contains(id) ==> r is Ok,
        registry_epochs(*old(registry)).dom().contains(id) ==> (r matches Err(e) && e is Aion),
        r is Err ==> registry_epochs(*final(registry)) == registry_epochs(*old(registry))
            && registry_master_keys(*final(registry)) == registry_master_keys(*old(registry)),
        r matches Ok(v) ==> {
            &&& registered_fresh(
                registry_epochs(*old(registry)),
                registry_epochs(*final(registry)),
                registry_master_keys(*old(registry)),
                registry_master_keys(*final(registry)),
                id,
                master_seed@,
                op_seed@,
            )
            &&& renders_author(v, id, registry_epochs(*final(registry))[id])
        },
{
    match register_author(registry, id, master_seed, op_seed, 1) {
        Ok(()) => {},
        Err(e) => return Err(StudioError::Aion(e)),
    }
    Ok(author_view(registry, id))
}

/// Register a new author (fresh master + operational key, epoch 0 from version 1). An author
/// already covered at version 1 is refused.
pub fn register(registry: &mut KeyRegistry, requested: Option<u64>, known: &Vec<u64>) -> (r: Result<
    Registered,
    StudioError,
>)
    requires
        requested is None ==> forall|k: int| 0 <= k < known.len() ==> known@[k] < u64::MAX,
    ensures
        ({
            let id = chosen_id(requested, known@);
            let before = registry_epochs(*old(registry));
            let after = registry_epochs(*final(registry));
            &&& has_epoch_at(before, id as u64, 1) <==> (r matches Err(StudioError::AlreadyExists(m))
                && m@ == author_msg(id as u64))
            &&& r is Err ==> after == before && registry_master_keys(*final(registry))
                == registry_master_keys(*old(registry))
            &&& r matches Err(e) ==> (e is AlreadyExists || e is Aion)
            &&& r matches Ok(reg) ==> {
                &&& !has_epoch_at(before, id as u64, 1)
                &&& registered_fresh(
                    before,
                    after,
                    registry_master_keys(*old(registry)),
                    registry_master_keys(*final(registry)),
                    id as u64,
                    reg.master_seed@,
                    reg.op_seed@,
                )
                &&& renders_author(reg.view, id as u64, after[id as u64])
            }
        }),
{
    let id = match requested {
        Some(i) => i,
        None => {
            proof {
                lemma_seq_max_bound(known@);
            }
            max_of(known) + 1
        },
    };
    if has_active_epoch_at(registry, id, 1) {
        return Err(StudioError::AlreadyExists(author_message(id)));
    }
    let master_seed = new_seed()?;
    let op_seed = new_seed()?;
    let view = register_with(registry, id, &master_seed, &op_seed)?;
    Ok(Registered { view, master_seed, op_seed })
}

/// The message for rotating an author whose current epoch is not active.
pub open spec fn not_active_msg(id: u64) -> Seq<char> {
    "author "@ + decimal(id as nat) + "'s current epoch is not active"@
}

/// Check that `id` can rotate: its current (last) epoch must exist and be active. Returns that
/// epoch's number.
pub fn rotation_start(registry: &KeyRegistry, id: u64) -> (r: Result<u32, StudioError>)
    ensures
        ({
            let e = epochs_of(registry_epochs(*registry), id);
            &&& e.len() == 0 ==> (r matches Err(StudioError::NotFound(m)) && m@ == author_msg(id))
            &&& e.len() > 0 && !(e.last().status is Active) ==> (r matches Err(StudioError::Invalid(m))
                && m@ == not_active_msg(id))
            &&& e.len() > 0 && e.last().status is Active ==> r == Ok::<u32, StudioError>(e.last().epoch)
        }),
{
    let epochs = epochs_for(registry, id);
    if epochs.len() == 0 {
        return Err(StudioError::NotFound(author_message(id)));
    }
    let cur = epochs[epochs.len() - 1];
    match cur.status {
        EpochStatus::Active => Ok(cur.epoch),
        _ => Err(
            StudioError::Invalid(author_message(id).concat("'s current epoch is not active")),
        ),
    }
}

/// Rotate `id` from `from_epoch` to a new operational key, authorized by its master key and
/// effective from version `effective_from`. Returns the updated timeline.
pub fn rotate_apply(
    registry: &mut KeyRegistry,
    id: u64,
    from_epoch: u32,
    master_seed: &[u8; 32],
    new_op_seed: &[u8; 32],
    effective_from: u64,
) -> (r: Result<AuthorView, StudioError>)
    requires
        from_epoch < u32::MAX,
    ensures
        ({
            let before = epochs_of(registry_epochs(*old(registry)), id);
            ((exists|a: int| is_first_active(before, a) && #[trigger] before[a].epoch == from_epoch
                && effective_from >= before[a].created_at_version) && master_is(
                registry_master_keys(*old(registry)),
                id,
                master_seed@,
            )) ==> r is Ok
        }),
        registry_master_keys(*final(registry)) == registry_master_keys(*old(registry)),
        r matches Err(e) ==> e is Aion && registry_epochs(*final(registry)) == registry_epochs(
            *old(registry),
        ),
        r matches Ok(v) ==> ({
            let before = epochs_of(registry_epochs(*old(registry)), id);
            let after = registry_epochs(*final(registry));
            &&& after == registry_epochs(*old(registry)).insert(
                id,
                mark_rotated_to(before, from_epoch, effective_from).push(
                    EpochData {
                        epoch: (from_epoch + 1) as u32,
                        public_key: after[id].last().public_key,
                        created_at_version: effective_from,
                        status: EpochStatus::Active,
                    },
                ),
            )
            &&& after[id].last().public_key@ == crate::registry_store::ed25519_public_key(
                new_op_seed@,
            )
            &&& renders_author(v, id, after[id])
        }),
{
    let pk = match public_key_of(new_op_seed) {
        Ok(pk) => pk,
        Err(e) => return Err(StudioError::Aion(e)),
    };
    let record = match sign_rotation(id, from_epoch, from_epoch + 1, pk, effective_from, master_seed) {
        Ok(rec) => rec,
        Err(e) => return Err(StudioError::Aion(e)),
    };
    match apply_rotation(registry, &record) {
        Ok(()) => {},
        Err(e) => return Err(StudioError::Aion(e)),
    }
    assert(registry_epochs(*registry)[id].last().public_key == pk);
    Ok(author_view(registry, id))
}

/// `s` with epoch `from` marked rotated to `from + 1` from version `eff`.
pub open spec fn mark_rotated_to(s: Seq<EpochData>, from: u32, eff: u64) -> Seq<EpochData> {
    crate::registry_store::mark_rotated(s, from, (from + 1) as u32, eff)
}

/// Rotation leaves every earlier version's signer resolution alone: for a version before the
/// rotation takes effect, each epoch covers it exactly as before, and the new epoch does not.
/// (The rotated epochs are active ones, as `apply_rotation` requires of the epoch it rotates.)
pub proof fn lemma_rotation_keeps_past_versions(
    before: Seq<EpochData>,
    from: u32,
    eff: u64,
    new_epoch: EpochData,
    v: u64,
)
    requires
        v < eff,
        new_epoch.created_at_version == eff,
        forall|k: int| 0 <= k < before.len() && (#[trigger] before[k]).epoch == from ==> before[k].status is Active,
    ensures
        ({
            let after = mark_rotated_to(before, from, eff).push(new_epoch);
            &&& forall|k: int| 0 <= k < before.len() ==> #[trigger] valid_for(after[k], v) == valid_for(before[k], v)
            &&& !valid_for(after[before.len() as int], v)
        }),
{
}

/// Revoking an active epoch from version `eff` leaves every earlier version's signer resolution
/// alone.
pub proof fn lemma_revocation_keeps_past_versions(
    before: Seq<EpochData>,
    i: int,
    code: u16,
    eff: u64,
    v: u64,
)
    requires
        0 <= i < before.len(),
        before[i].status is Active,
        v < eff,
    ensures
        ({
            let after = before.update(
                i,
                EpochData {
                    status: EpochStatus::Revoked { reason_code: code, effective_from_version: eff },
                    ..before[i]
                },
            );
            forall|k: int| 0 <= k < before.len() ==> #[trigger] valid_for(after[k], v) == valid_for(before[k], v)
        }),
{
}

/// Check that `id` has an epoch to revoke; returns its current (last) epoch's number.
pub fn revocation_target(registry: &KeyRegistry, id: u64) -> (r: Result<u32, StudioError>)
    ensures
        ({
            let e = epochs_of(registry_epochs(*registry), id);
            &&& e.len() == 0 ==> (r matches Err(StudioError::NotFound(m)) && m@ == author_msg(id))
            &&& e.len() > 0 ==> r == Ok::<u32, StudioError>(e.last().epoch)
        }),
{
    let epochs = epochs_for(registry, id);
    if epochs.len() == 0 {
        return Err(StudioError::NotFound(author_message(id)));
    }
    Ok(epochs[epochs.len() - 1].epoch)
}

/// Revoke epoch `epoch` of `id` for the named reason, authorized by its master key and effective
/// from version `effective_from`. Returns the updated timeline.
pub fn revoke_apply(
    registry: &mut KeyRegistry,
    id: u64,
    epoch: u32,
    reason: &str,
    master_seed: &[u8; 32],
    effective_from: u64,
) -> (r: Result<AuthorView, StudioError>)
    ensures
        ({
            let before = epochs_of(registry_epochs(*old(registry)), id);
            ((exists|i: int| #[trigger] crate::registry_store::is_first_numbered(before, i, epoch)
                && !(before[i].status is Revoked)) && master_is(
                registry_master_keys(*old(registry)),
                id,
                master_seed@,
            )) ==> r is Ok
        }),
        registry_master_keys(*final(registry)) == registry_master_keys(*old(registry)),
        r matches Err(e) ==> e is Aion && registry_epochs(*final(registry)) == registry_epochs(
            *old(registry),
        ),
        r matches Ok(v) ==> ({
            let before = epochs_of(registry_epochs(*old(registry)), id);
            let after = registry_epochs(*final(registry));
            &&& exists|i: int|
                #[trigger] crate::registry_store::is_first_numbered(before, i, epoch) && after
                    == registry_epochs(*old(registry)).insert(
                    id,
                    before.update(
                        i,
                        EpochData {
                            status: EpochStatus::Revoked {
                                reason_code: crate::registry_store::reason_code(reason_named(reason@)),
                                effective_from_version: effective_from,
                            },
                            ..before[i]
                        },
                    ),
                )
            &&& renders_author(v, id, after[id])
        }),
{
    let why = parse_reason(reason);
    let record = match sign_revocation(id, epoch, why, effective_from, master_seed) {
        Ok(rec) => rec,
        Err(e) => return Err(StudioError::Aion(e)),
    };
    match apply_revocation(registry, &record) {
        Ok(()) => {},
        Err(e) => return Err(StudioError::Aion(e)),
    }
    Ok(author_view(registry, id))
}

/// The trusted-JSON registry (public keys + accreditation) — what an offline verifier pins.
pub fn trusted_json(registry: &KeyRegistry) -> (r: Result<String, StudioError>)
    ensures
        r matches Ok(s) && s@ == registry_json(*registry),
{
    save(registry)
}

} // verus!
