//! K-of-N governance over a policy's current version.
//!
//! aion-context verifies a *set* of attestations over one version (`verify_multisig`). In this
//! local single-operator studio every signer's key is at hand, so an "approval" is recorded as
//! the approver's author id and the attestation is regenerated at verify time. Approvals are
//! scoped to a version number: a new commit resets them (each version needs fresh approval).
//!
//! The application reads and writes the config and approval files and the keys; this module
//! decides what they hold and computes the progress.

use vstd::prelude::*;

use aion_context::key_registry::KeyRegistry;
use aion_context::multisig::{verify_multisig, MultiSigPolicy};
use aion_context::serializer::SignatureEntry;
use aion_context::types::AuthorId;

use crate::artifact::{
    aion_version_count, aion_version_entry, attest, attestation_valid, entry_of, version_count,
    version_entry, Attestation, VersionData,
};
use crate::error::StudioError;
use crate::order::{nondecreasing, sort_ascending};
use crate::registry_store::{
    ed25519_public_key, epochs_of, has_active_epoch_at, has_epoch_at, registry_epochs, valid_for,
    EpochData,
};
use crate::text::{decimal, decimal_string};
use crate::workspace::{join, join_path, PolicyId, Workspace};

verus! {

/// The persisted M-of-N policy for one policy artifact.
#[derive(Debug, Clone)]
pub struct MultiSigConfig {
    pub threshold: u32,
    pub signers: Vec<u64>,
}

impl Default for MultiSigConfig {
    /// 2-of-3 over the seeded signers.
    fn default() -> (c: Self)
        ensures
            c.threshold == 2,
            c.signers@ == seq![1u64, 2u64, 3u64],
    {
        MultiSigConfig { threshold: 2, signers: crate::seed::signer_authors() }
    }
}

/// The approvals recorded for one version of a policy.
#[derive(Debug, Clone)]
pub struct Approvals {
    pub version: u64,
    pub approvers: Vec<u64>,
}

/// Governance progress for a policy's current version.
#[derive(Debug, Clone)]
pub struct MultiSigProgress {
    pub version: u64,
    pub threshold: u32,
    pub signers: Vec<u64>,
    pub approvers: Vec<u64>,
    pub valid_count: u32,
    pub required: u32,
    pub threshold_met: bool,
    pub missing: Vec<u64>,
}

/// `<root>/multisig`, where the governance files live.
pub fn dir(ws: &Workspace) -> (p: String)
    ensures
        p@ == join(ws@, "multisig"@),
{
    join_path(ws.root(), "multisig")
}

/// `<root>/multisig/<id>.policy.json`.
pub fn config_path(ws: &Workspace, id: &PolicyId) -> (p: String)
    ensures
        p@ == join(join(ws@, "multisig"@), id@ + ".policy.json"@),
{
    let d = dir(ws);
    let name = String::from_str(id.as_str()).concat(".policy.json");
    join_path(d.as_str(), name.as_str())
}

/// `<root>/multisig/<id>.approvals.json`.
pub fn approvals_path(ws: &Workspace, id: &PolicyId) -> (p: String)
    ensures
        p@ == join(join(ws@, "multisig"@), id@ + ".approvals.json"@),
{
    let d = dir(ws);
    let name = String::from_str(id.as_str()).concat(".approvals.json");
    join_path(d.as_str(), name.as_str())
}

/// The M-of-N config: the stored one, or the default (2-of-3 over the seeded signers).
pub fn load_config(stored: Option<MultiSigConfig>) -> (c: MultiSigConfig)
    ensures
        stored matches Some(s) ==> c == s,
        stored is None ==> c.threshold == 2 && c.signers@ == seq![1u64, 2u64, 3u64],
{
    match stored {
        Some(c) => c,
        None => MultiSigConfig::default(),
    }
}

/// The message for a rejected threshold.
pub open spec fn bad_threshold_msg(threshold: u32, n: nat) -> Seq<char> {
    "invalid threshold "@ + decimal(threshold as nat) + " for "@ + decimal(n) + " signer(s)"@
}

/// The message for an unregistered signer.
pub open spec fn unregistered_msg(s: u64) -> Seq<char> {
    "signer "@ + decimal(s as nat) + " is not registered"@
}

/// The threshold rule alone: at least one signer and `1 <= threshold <= signers`.
pub fn check_threshold(threshold: u32, n_signers: usize) -> (r: Result<(), StudioError>)
    ensures
        (n_signers == 0 || threshold == 0 || threshold > n_signers) ==> (r matches Err(
            StudioError::Invalid(m),
        ) && m@ == bad_threshold_msg(threshold, n_signers as nat)),
        !(n_signers == 0 || threshold == 0 || threshold > n_signers) ==> r is Ok,
{
    if n_signers == 0 || threshold == 0 || threshold as usize > n_signers {
        let m = String::from_str("invalid threshold ").concat(
            decimal_string(threshold as u64).as_str(),
        ).concat(" for ").concat(decimal_string(n_signers as u64).as_str()).concat(" signer(s)");
        return Err(StudioError::Invalid(m));
    }
    Ok(())
}

/// Validate a new M-of-N config: at least one signer, `1 <= threshold <= signers`, and every
/// signer registered (covered at version 1).
pub fn check_config(threshold: u32, signers: Vec<u64>, registry: &KeyRegistry) -> (r: Result<
    MultiSigConfig,
    StudioError,
>)
    ensures
        (signers.len() == 0 || threshold == 0 || threshold > signers.len()) ==> (r matches Err(
            StudioError::Invalid(m),
        ) && m@ == bad_threshold_msg(threshold, signers.len() as nat)),
        !(signers.len() == 0 || threshold == 0 || threshold > signers.len()) ==> {
            &&& (exists|k: int|
                0 <= k < signers.len() && !has_epoch_at(
                    registry_epochs(*registry),
                    #[trigger] signers@[k],
                    1,
                )) ==> (r matches Err(StudioError::Invalid(m)) && exists|k: int|
                0 <= k < signers.len() && m@ == unregistered_msg(signers@[k]) && !has_epoch_at(
                    registry_epochs(*registry),
                    #[trigger] signers@[k],
                    1,
                ) && forall|j: int|
                    0 <= j < k ==> has_epoch_at(registry_epochs(*registry), #[trigger] signers@[j], 1))
            &&& (forall|k: int|
                0 <= k < signers.len() ==> has_epoch_at(
                    registry_epochs(*registry),
                    #[trigger] signers@[k],
                    1,
                )) ==> (r matches Ok(c) && c.threshold == threshold && c.signers@ == signers@)
        },
{
    check_threshold(threshold, signers.len())?;
    let mut k: usize = 0;
    while k < signers.len()
        invariant
            k <= signers.len(),
            !(signers.len() == 0 || threshold == 0 || threshold > signers.len()),
            forall|j: int|
                0 <= j < k ==> has_epoch_at(registry_epochs(*registry), #[trigger] signers@[j], 1),
        decreases signers.len() - k,
    {
        let s = signers[k];
        if !has_active_epoch_at(registry, s, 1) {
            let m = String::from_str("signer ").concat(decimal_string(s).as_str()).concat(
                " is not registered",
            );
            return Err(StudioError::Invalid(m));
        }
        k = k + 1;
    }
    Ok(MultiSigConfig { threshold, signers })
}

/// The message for an approval by someone who is not a signer.
pub open spec fn unauthorized_msg(author: u64) -> Seq<char> {
    "author "@ + decimal(author as nat) + " is not an authorized signer"@
}

/// Only a configured signer may approve.
pub fn authorize(cfg: &MultiSigConfig, author: u64) -> (r: Result<(), StudioError>)
    ensures
        cfg.signers@.contains(author) ==> r is Ok,
        !cfg.signers@.contains(author) ==> (r matches Err(StudioError::Invalid(m)) && m@
            == unauthorized_msg(author)),
{
    let mut k: usize = 0;
    while k < cfg.signers.len()
        invariant
            k <= cfg.signers.len(),
            forall|j: int| 0 <= j < k ==> cfg.signers@[j] != author,
        decreases cfg.signers.len() - k,
    {
        if cfg.signers[k] == author {
            return Ok(());
        }
        k = k + 1;
    }
    let m = String::from_str("author ").concat(decimal_string(author).as_str()).concat(
        " is not an authorized signer",
    );
    Err(StudioError::Invalid(m))
}

/// The approvals that count for `version`: the stored ones if they were recorded for it, none
/// otherwise (no stored approvals reads as none for version 0).
pub fn fresh_for(stored: Option<Approvals>, version: u64) -> (a: Approvals)
    ensures
        a.version == version,
        (stored matches Some(s) && s.version == version) ==> a.approvers@ == stored->0.approvers@,
        !(stored matches Some(s) && s.version == version) ==> a.approvers@.len() == 0,
{
    let ap = match stored {
        Some(s) => s,
        None => Approvals { version: 0, approvers: Vec::new() },
    };
    if ap.version == version {
        ap
    } else {
        Approvals { version, approvers: Vec::new() }
    }
}

/// Record `author`'s approval (idempotent): a new approver is added and the list re-sorted.
pub fn record_approval(ap: Approvals, author: u64) -> (r: Approvals)
    ensures
        r.version == ap.version,
        ap.approvers@.contains(author) ==> r.approvers@ == ap.approvers@,
        !ap.approvers@.contains(author) ==> nondecreasing(r.approvers@) && r.approvers@.to_multiset()
            == ap.approvers@.push(author).to_multiset(),
{
    let mut k: usize = 0;
    while k < ap.approvers.len()
        invariant
            k <= ap.approvers.len(),
            forall|j: int| 0 <= j < k ==> ap.approvers@[j] != author,
        decreases ap.approvers.len() - k,
    {
        if ap.approvers[k] == author {
            return ap;
        }
        k = k + 1;
    }
    let mut grown = ap.approvers;
    grown.push(author);
    Approvals { version: ap.version, approvers: sort_ascending(&grown) }
}

/// The index of the latest version entry of a chain of `count` versions (0 for none).
pub open spec fn last_index(count: u64) -> int {
    let n = (count as usize) as int;
    if n > 0 {
        n - 1
    } else {
        0
    }
}

/// The latest entry of a chain of `n` versions is its last one, entry `n - 1` (for a count that
/// fits in `usize`); only an empty chain reads entry 0.
pub proof fn lemma_last_index_is_the_last_entry(n: u64)
    ensures
        0 < n <= usize::MAX ==> last_index(n) == n - 1,
        0 < n <= usize::MAX ==> last_index(n) + 1 == n,
        n == 0 ==> last_index(n) == 0,
{
}

/// The latest version number and entry of an artifact, from its bytes: the chain's count, and
/// the entry at the last index. Owed when the bytes parse and hold that entry.
pub fn latest_version(bytes: &[u8]) -> (r: Result<(u64, VersionData), StudioError>)
    ensures
        (aion_version_count(bytes@) matches Some(n) && aion_version_entry(bytes@, last_index(n))
            is Some) ==> r is Ok,
        r matches Ok((n, e)) ==> aion_version_count(bytes@) == Some(n) && aion_version_entry(
            bytes@,
            last_index(n),
        ) == Some(e),
        r matches Ok((n, e)) ==> (0 < n && n <= usize::MAX ==> aion_version_entry(bytes@, n - 1)
            == Some(e)),
        r matches Err(e) ==> e is Aion,
{
    let count = match version_count(bytes) {
        Ok(n) => n,
        Err(e) => return Err(StudioError::Aion(e)),
    };
    let n = count as usize;
    let last: usize = if n > 0 { n - 1 } else { 0 };
    match version_entry(bytes, last) {
        Ok(entry) => Ok((count, entry)),
        Err(e) => Err(StudioError::Aion(e)),
    }
}

// ---------------------------------------------------------------------------------------------
// Which attestations count.
// ---------------------------------------------------------------------------------------------

/// The first epoch of `s` that covers version `v` (the one aion-context resolves a signer to).
pub open spec fn first_valid(s: Seq<EpochData>, v: u64) -> Option<EpochData>
    decreases s.len(),
{
    if s.len() == 0 {
        None
    } else if valid_for(s[0], v) {
        Some(s[0])
    } else {
        first_valid(s.drop_first(), v)
    }
}

/// An attestation is valid for `version` when its signer's epoch covering the version holds
/// the attestation's public key and the signature verifies under it.
pub open spec fn attestation_counts(m: Map<u64, Seq<EpochData>>, version: VersionData, a: Attestation) -> bool {
    match first_valid(epochs_of(m, a.author), version.version_number) {
        Some(e) => e.public_key@ == a.public_key@ && attestation_valid(
            version,
            a.author,
            a.public_key@,
            a.signature@,
        ),
        None => false,
    }
}

/// The signers of a list of attestations, in order.
pub open spec fn authors_of(atts: Seq<Attestation>) -> Seq<u64> {
    Seq::new(atts.len(), |k: int| atts[k].author)
}

/// How many attestations count: each by an authorized signer, the first by that signer, and
/// valid.
pub open spec fn counted_attestations(
    signers: Seq<u64>,
    atts: Seq<Attestation>,
    m: Map<u64, Seq<EpochData>>,
    version: VersionData,
) -> nat
    decreases atts.len(),
{
    if atts.len() == 0 {
        0
    } else {
        let rest = atts.drop_last();
        let a = atts.last();
        counted_attestations(signers, rest, m, version) + if signers.contains(a.author)
            && !authors_of(rest).contains(a.author) && attestation_counts(m, version, a) {
            1nat
        } else {
            0nat
        }
    }
}

/// An approval by `a` whose attestation is made with `key` counts when `a`'s epoch covering
/// the version holds `key`'s public key.
pub open spec fn approval_counts(m: Map<u64, Seq<EpochData>>, version: VersionData, a: u64, key: [u8; 32]) -> bool {
    match first_valid(epochs_of(m, a), version.version_number) {
        Some(e) => e.public_key@ == ed25519_public_key(key@),
        None => false,
    }
}

/// How many approvals count (`keys[k]` is the key of `approvers[k]`): each by a configured
/// signer, the first by that signer, and with the signer's key for that version.
pub open spec fn counted_approvals(
    signers: Seq<u64>,
    approvers: Seq<u64>,
    keys: Seq<[u8; 32]>,
    m: Map<u64, Seq<EpochData>>,
    version: VersionData,
) -> nat
    decreases approvers.len(),
{
    if approvers.len() == 0 {
        0
    } else {
        let rest = approvers.drop_last();
        let a = approvers.last();
        counted_approvals(signers, rest, keys, m, version) + if signers.contains(a) && !rest.contains(a)
            && approval_counts(m, version, a, keys[approvers.len() - 1]) {
            1nat
        } else {
            0nat
        }
    }
}

proof fn lemma_attestations_count_approvals(
    signers: Seq<u64>,
    atts: Seq<Attestation>,
    approvers: Seq<u64>,
    keys: Seq<[u8; 32]>,
    m: Map<u64, Seq<EpochData>>,
    version: VersionData,
)
    requires
        atts.len() == approvers.len(),
        approvers.len() <= keys.len(),
        forall|k: int|
            0 <= k < atts.len() ==> {
                &&& (#[trigger] atts[k]).author == approvers[k]
                &&& atts[k].public_key@ == ed25519_public_key(keys[k]@)
                &&& attestation_valid(version, approvers[k], atts[k].public_key@, atts[k].signature@)
            },
    ensures
        counted_attestations(signers, atts, m, version) == counted_approvals(
            signers,
            approvers,
            keys,
            m,
            version,
        ),
        authors_of(atts) == approvers,
    decreases atts.len(),
{
    assert(authors_of(atts) =~= approvers);
    if atts.len() > 0 {
        let n = atts.len() - 1;
        assert(atts[n] == atts.last());
        lemma_attestations_count_approvals(signers, atts.drop_last(), approvers.drop_last(), keys, m, version);
        assert(authors_of(atts.drop_last()) =~= approvers.drop_last());
    }
}

/// An M-of-N policy as plain values.
#[derive(Debug, Clone)]
pub struct SignerPolicy {
    pub threshold: u32,
    pub signers: Vec<u64>,
}

/// The outcome of verifying a set of attestations against a policy.
#[derive(Debug, Clone)]
pub struct MultiSigVerdict {
    pub threshold_met: bool,
    pub valid_count: u32,
    pub required: u32,
    pub missing: Vec<u64>,
}

/// Whether an M-of-N policy with this threshold over `n` signers is well formed: the threshold is
/// at least 1 and at most the signer count (as a `u32`).
pub open spec fn policy_accepts(threshold: u32, n: nat) -> bool {
    threshold >= 1 && threshold <= n as u32
}

/// `MultiSigPolicy::m_of_n`: refused when the threshold is 0 or exceeds the signer count.
#[verifier::external_body]
fn m_of_n(threshold: u32, signers: &Vec<u64>) -> (r: Result<SignerPolicy, aion_context::AionError>)
    ensures
        r is Ok <==> policy_accepts(threshold, signers@.len()),
        r matches Ok(p) ==> p.threshold == threshold && p.signers@ == signers@,
{
    let p = MultiSigPolicy::m_of_n(threshold, signers.iter().map(|&s| AuthorId::new(s)).collect())?;
    Ok(SignerPolicy { threshold: p.threshold, signers: p.authorized_signers.iter().map(|a| a.0).collect() })
}

/// `verify_multisig`: each authorized signer counts once, by its first attestation, when that
/// attestation is valid (its key is the signer's registered key for the version and its
/// signature verifies); the authorized signers who did not attest are missing. It always
/// answers.
#[verifier::external_body]
fn verify_attestations(
    version: &VersionData,
    sigs: &Vec<Attestation>,
    policy: &SignerPolicy,
    registry: &KeyRegistry,
) -> (r: Result<MultiSigVerdict, aion_context::AionError>)
    ensures
        r is Ok,
        r matches Ok(v) ==> v.required == policy.threshold,
        r matches Ok(v) ==> v.valid_count == counted_attestations(
            policy.signers@,
            sigs@,
            registry_epochs(*registry),
            *version,
        ) as u32,
        r matches Ok(v) ==> v.threshold_met == (v.valid_count >= policy.threshold),
        r matches Ok(v) ==> v.missing@ == policy.signers@.filter(
            |s: u64| !authors_of(sigs@).contains(s),
        ),
{
    let sigs: Vec<SignatureEntry> = sigs.iter().map(|a| SignatureEntry::new(AuthorId::new(a.author), a.public_key, a.signature)).collect();
    let signers = policy.signers.iter().map(|&s| AuthorId::new(s)).collect();
    let p = MultiSigPolicy { threshold: policy.threshold, total_signers: policy.signers.len() as u32, authorized_signers: signers };
    let v = verify_multisig(&entry_of(version), &sigs, &p, registry)?;
    Ok(MultiSigVerdict { threshold_met: v.threshold_met, valid_count: v.valid_count, required: v.required, missing: v.missing_signers.iter().map(|a| a.0).collect() })
}

/// Governance progress: regenerate each approver's attestation with its key (`keys[k]` is the
/// seed of `ap.approvers[k]`) and verify the set against the M-of-N policy. An approval counts
/// when its approver is a configured signer, it is that signer's first approval, and the key is
/// the signer's registered key for the entry's version; the configured signers without an
/// approval are missing.
pub fn progress(
    cfg: &MultiSigConfig,
    version: u64,
    entry: &VersionData,
    ap: &Approvals,
    keys: &Vec<[u8; 32]>,
    registry: &KeyRegistry,
) -> (r: Result<MultiSigProgress, StudioError>)
    requires
        keys.len() == ap.approvers.len(),
    ensures
        r is Err <==> !policy_accepts(cfg.threshold, cfg.signers@.len()),
        r matches Err(e) ==> e is Aion,
        r matches Ok(p) ==> {
            &&& p.version == version
            &&& p.threshold == cfg.threshold
            &&& p.signers@ == cfg.signers@
            &&& p.approvers@ == ap.approvers@
            &&& p.required == cfg.threshold
            &&& p.valid_count == counted_approvals(
                cfg.signers@,
                ap.approvers@,
                keys@,
                registry_epochs(*registry),
                *entry,
            ) as u32
            &&& p.threshold_met == (p.valid_count >= cfg.threshold)
            &&& p.missing@ == cfg.signers@.filter(|s: u64| !ap.approvers@.contains(s))
        },
{
    let mut sigs: Vec<Attestation> = Vec::new();
    let mut k: usize = 0;
    while k < ap.approvers.len()
        invariant
            k <= ap.approvers.len(),
            keys.len() == ap.approvers.len(),
            sigs.len() == k,
            forall|j: int|
                0 <= j < k ==> {
                    &&& (#[trigger] sigs@[j]).author == ap.approvers@[j]
                    &&& sigs@[j].public_key@ == ed25519_public_key(keys@[j]@)
                    &&& attestation_valid(*entry, ap.approvers@[j], sigs@[j].public_key@, sigs@[j].signature@)
                },
        decreases ap.approvers.len() - k,
    {
        match attest(entry, ap.approvers[k], &keys[k]) {
            Ok(sig) => sigs.push(sig),
            Err(e) => return Err(StudioError::Aion(e)),
        }
        k = k + 1;
    }
    proof {
        lemma_attestations_count_approvals(
            cfg.signers@,
            sigs@,
            ap.approvers@,
            keys@,
            registry_epochs(*registry),
            *entry,
        );
    }
    let policy = match m_of_n(cfg.threshold, &cfg.signers) {
        Ok(p) => p,
        Err(e) => return Err(StudioError::Aion(e)),
    };
    let v = match verify_attestations(entry, &sigs, &policy, registry) {
        Ok(v) => v,
        Err(e) => return Err(StudioError::Aion(e)),
    };
    Ok(MultiSigProgress {
        version,
        threshold: cfg.threshold,
        signers: cfg.signers.clone(),
        approvers: ap.approvers.clone(),
        valid_count: v.valid_count,
        required: v.required,
        threshold_met: v.threshold_met,
        missing: v.missing,
    })
}

} // verus!
