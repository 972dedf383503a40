//! The workspace key registry (aion-context's `KeyRegistry`): master keys plus each author's
//! operational-key epochs. It holds only public keys and accreditation — never a secret — so
//! its trusted JSON is safe to persist and ship to offline verifiers.
//!
//! Signing keys are handled as their 32-byte Ed25519 seeds; the registry's contents are seen
//! through [`registry_epochs`]: for each registered author id, the epochs in insertion order.

use vstd::prelude::*;

use aion_context::crypto::SigningKey;
use aion_context::key_registry::{
    sign_revocation_record, sign_rotation_record, KeyRegistry, KeyRotationRecord, KeyStatus,
    RevocationReason, RevocationRecord,
};
use aion_context::types::AuthorId;

use crate::error::StudioError;

verus! {

/// aion-context's registry of master keys and operational-key epochs.
#[verifier::external_type_specification]
#[verifier::external_body]
pub struct ExKeyRegistry(aion_context::key_registry::KeyRegistry);

/// The lifecycle state of a key epoch. A revocation carries its reason code (`1` compromised,
/// `2` superseded, `3` retired, `255` unspecified).
#[derive(Debug, Clone, Copy, PartialEq, Eq, Structural)]
pub enum EpochStatus {
    Active,
    Rotated { successor_epoch: u32, effective_from_version: u64 },
    Revoked { reason_code: u16, effective_from_version: u64 },
}

/// One operational-key epoch of an author.
#[derive(Debug, Clone, Copy)]
pub struct EpochData {
    pub epoch: u32,
    pub public_key: [u8; 32],
    pub created_at_version: u64,
    pub status: EpochStatus,
}

/// The epochs a registry holds: for each registered author id, its epochs in insertion order.
pub uninterp spec fn registry_epochs(r: KeyRegistry) -> Map<u64, Seq<EpochData>>;

/// The trusted JSON a registry renders to.
pub uninterp spec fn registry_json(r: KeyRegistry) -> Seq<char>;

/// The epochs that trusted JSON text describes, when it is a valid registry.
pub uninterp spec fn trusted_json_epochs(text: Seq<char>) -> Option<Map<u64, Seq<EpochData>>>;

/// The Ed25519 public key of a 32-byte seed.
pub uninterp spec fn ed25519_public_key(seed: Seq<u8>) -> Seq<u8>;

/// The master public key a registry holds for each registered author.
pub uninterp spec fn registry_master_keys(r: KeyRegistry) -> Map<u64, Seq<u8>>;

/// The master public keys that trusted JSON text describes.
pub uninterp spec fn trusted_json_master_keys(text: Seq<char>) -> Map<u64, Seq<u8>>;

/// Whether `signature` verifies, under the Ed25519 public key `master`, over the canonical
/// message of a rotation of `author` from epoch `from` to epoch `to`, with new public key
/// `to_public_key`, effective from version `eff`.
pub uninterp spec fn rotation_signature_valid(
    master: Seq<u8>,
    author: u64,
    from: u32,
    to: u32,
    to_public_key: Seq<u8>,
    eff: u64,
    signature: Seq<u8>,
) -> bool;

/// Whether `signature` verifies, under the Ed25519 public key `master`, over the canonical
/// message of a revocation of epoch `epoch` of `author` with reason code `reason`, effective
/// from version `eff`.
pub uninterp spec fn revocation_signature_valid(
    master: Seq<u8>,
    author: u64,
    epoch: u32,
    reason: u16,
    eff: u64,
    signature: Seq<u8>,
) -> bool;

/// `m` holds `author`'s master key, and it is the public key of `master_seed`.
pub open spec fn master_is(m: Map<u64, Seq<u8>>, author: u64, master_seed: Seq<u8>) -> bool {
    m.dom().contains(author) && m[author] == ed25519_public_key(master_seed)
}

/// The epochs recorded for `author`, empty when it is not registered.
pub open spec fn epochs_of(m: Map<u64, Seq<EpochData>>, author: u64) -> Seq<EpochData> {
    if m.dom().contains(author) {
        m[author]
    } else {
        seq![]
    }
}

/// Whether epoch `e` covers version `v`: from its creation, until the version at which a
/// rotation or revocation takes effect.
pub open spec fn valid_for(e: EpochData, v: u64) -> bool {
    &&& v >= e.created_at_version
    &&& match e.status {
        EpochStatus::Active => true,
        EpochStatus::Rotated { effective_from_version, .. } => v < effective_from_version,
        EpochStatus::Revoked { effective_from_version, .. } => v < effective_from_version,
    }
}

/// Whether some epoch of `author` covers version `v`.
pub open spec fn has_epoch_at(m: Map<u64, Seq<EpochData>>, author: u64, v: u64) -> bool {
    exists|k: int| 0 <= k < epochs_of(m, author).len() && valid_for(#[trigger] epochs_of(m, author)[k], v)
}

/// No authors at all.
pub open spec fn no_epochs() -> Map<u64, Seq<EpochData>> {
    Map::empty()
}

/// No master keys at all.
pub open spec fn no_master_keys() -> Map<u64, Seq<u8>> {
    Map::empty()
}

/// `KeyRegistry::new`: an empty registry.
#[verifier::external_body]
pub(crate) fn registry_new() -> (r: KeyRegistry)
    ensures
        registry_epochs(r) == no_epochs(),
        registry_master_keys(r) == no_master_keys(),
{
    KeyRegistry::new()
}

/// `KeyRegistry::from_trusted_json`: the registry the text describes, or the parse error.
#[verifier::external_body]
fn registry_from_json(text: &str) -> (r: Result<KeyRegistry, aion_context::AionError>)
    ensures
        r matches Ok(reg) ==> trusted_json_epochs(text@) == Some(registry_epochs(reg)),
        r matches Ok(reg) ==> registry_master_keys(reg) == trusted_json_master_keys(text@),
        r is Err ==> trusted_json_epochs(text@) is None,
{
    KeyRegistry::from_trusted_json(text)
}

/// `KeyRegistry::to_trusted_json`: public keys and accreditation as JSON. It serializes plain
/// structs with `serde_json::to_string_pretty` (no map keys, no failing `Serialize`), so it does
/// not fail.
#[verifier::external_body]
fn registry_to_json(r: &KeyRegistry) -> (s: Result<String, aion_context::AionError>)
    ensures
        s is Ok,
        s matches Ok(t) ==> t@ == registry_json(*r),
{
    r.to_trusted_json()
}

/// `KeyRegistry::epochs_for`: every recorded epoch of `author`, in insertion order.
#[verifier::external_body]
pub(crate) fn epochs_for(r: &KeyRegistry, author: u64) -> (v: Vec<EpochData>)
    ensures
        v@ == epochs_of(registry_epochs(*r), author),
{
    r.epochs_for(AuthorId::new(author)).iter().map(|e| EpochData {
        epoch: e.epoch,
        public_key: e.public_key,
        created_at_version: e.created_at_version,
        status: match e.status {
            KeyStatus::Active => EpochStatus::Active,
            KeyStatus::Rotated { successor_epoch, effective_from_version } =>
                EpochStatus::Rotated { successor_epoch, effective_from_version },
            KeyStatus::Revoked { reason, effective_from_version } =>
                EpochStatus::Revoked { reason_code: reason as u16, effective_from_version },
        },
    }).collect()
}

/// `KeyRegistry::active_epoch_at(..).is_some()`: whether an epoch of `author` covers version `v`.
#[verifier::external_body]
pub(crate) fn has_active_epoch_at(r: &KeyRegistry, author: u64, v: u64) -> (b: bool)
    ensures
        b == has_epoch_at(registry_epochs(*r), author, v),
{
    r.active_epoch_at(AuthorId::new(author), v).is_some()
}

/// `SigningKey::generate`: a fresh random Ed25519 seed from the OS entropy source.
#[verifier::external_body]
pub(crate) fn generate_seed() -> (r: Result<[u8; 32], aion_context::AionError>) {
    SigningKey::generate().map(|k| *k.to_bytes())
}

/// `SigningKey::verifying_key`: the public key of a seed.
#[verifier::external_body]
pub(crate) fn public_key_of(seed: &[u8; 32]) -> (r: Result<[u8; 32], aion_context::AionError>)
    ensures
        r is Ok,
        r matches Ok(pk) ==> pk@ == ed25519_public_key(seed@),
{
    SigningKey::from_bytes(seed).map(|k| k.verifying_key().to_bytes())
}

/// `SigningKey::from_bytes`: a seed from raw bytes, which must be exactly 32 of them.
#[verifier::external_body]
pub(crate) fn seed_from_bytes(bytes: &[u8]) -> (r: Result<[u8; 32], aion_context::AionError>)
    ensures
        r is Ok <==> bytes@.len() == 32,
        r matches Ok(s) ==> s@ == bytes@,
{
    SigningKey::from_bytes(bytes).map(|k| *k.to_bytes())
}

/// `KeyRegistry::register_author`: add `author` with a master key and an initial operational
/// key (epoch 0, active from `created_at_version`). Refused, with the registry unchanged, when
/// the author is already registered.
#[verifier::external_body]
pub(crate) fn register_author(
    r: &mut KeyRegistry,
    author: u64,
    master_seed: &[u8; 32],
    op_seed: &[u8; 32],
    created_at_version: u64,
) -> (res: Result<(), aion_context::AionError>)
    ensures
        res is Ok <==> !registry_epochs(*old(r)).dom().contains(author),
        res is Ok ==> registry_epochs(*final(r)) == registry_epochs(*old(r)).insert(
            author,
            seq![EpochData {
                epoch: 0,
                public_key: registry_epochs(*final(r))[author][0].public_key,
                created_at_version,
                status: EpochStatus::Active,
            }],
        ),
        res is Ok ==> registry_epochs(*final(r))[author][0].public_key@ == ed25519_public_key(
            op_seed@,
        ),
        res is Ok ==> registry_master_keys(*final(r)) == registry_master_keys(*old(r)).insert(
            author,
            ed25519_public_key(master_seed@),
        ),
        res is Err ==> registry_epochs(*final(r)) == registry_epochs(*old(r)),
        res is Err ==> registry_master_keys(*final(r)) == registry_master_keys(*old(r)),
{
    let master = SigningKey::from_bytes(master_seed)?.verifying_key();
    let op = SigningKey::from_bytes(op_seed)?.verifying_key();
    r.register_author(AuthorId::new(author), master, op, created_at_version)
}

// ---------------------------------------------------------------------------------------------
// Rotation and revocation.
// ---------------------------------------------------------------------------------------------

/// Why an epoch is revoked.
#[derive(Debug, Clone, Copy, PartialEq, Eq, Structural)]
pub enum Reason {
    Compromised,
    Superseded,
    Retired,
    Unspecified,
}

/// The reason code a revocation record carries.
pub open spec fn reason_code(r: Reason) -> u16 {
    match r {
        Reason::Compromised => 1,
        Reason::Superseded => 2,
        Reason::Retired => 3,
        Reason::Unspecified => 255,
    }
}

/// A rotation record signed by the author's master key.
#[derive(Debug, Clone, Copy)]
pub struct SignedRotation {
    pub author: u64,
    pub from_epoch: u32,
    pub to_epoch: u32,
    pub to_public_key: [u8; 32],
    pub effective_from_version: u64,
    pub master_signature: [u8; 64],
}

/// A revocation record signed by the author's master key.
#[derive(Debug, Clone, Copy)]
pub struct SignedRevocation {
    pub author: u64,
    pub revoked_epoch: u32,
    pub reason: Reason,
    pub effective_from_version: u64,
    pub master_signature: [u8; 64],
}

/// `sign_rotation_record`: a rotation record over the given fields, signed with the master seed.
#[verifier::external_body]
pub(crate) fn sign_rotation(
    author: u64,
    from_epoch: u32,
    to_epoch: u32,
    to_public_key: [u8; 32],
    effective_from_version: u64,
    master_seed: &[u8; 32],
) -> (r: Result<SignedRotation, aion_context::AionError>)
    ensures
        r is Ok,
        r matches Ok(rec) ==> rec.author == author && rec.from_epoch == from_epoch && rec.to_epoch
            == to_epoch && rec.to_public_key == to_public_key && rec.effective_from_version
            == effective_from_version,
        r matches Ok(rec) ==> rotation_signature_valid(
            ed25519_public_key(master_seed@),
            author,
            from_epoch,
            to_epoch,
            to_public_key@,
            effective_from_version,
            rec.master_signature@,
        ),
{
    let master = SigningKey::from_bytes(master_seed)?;
    let r = sign_rotation_record(AuthorId::new(author), from_epoch, to_epoch, to_public_key, effective_from_version, &master);
    Ok(SignedRotation { author: r.author_id.0, from_epoch: r.from_epoch, to_epoch: r.to_epoch, to_public_key: r.to_public_key, effective_from_version: r.effective_from_version, master_signature: r.master_signature })
}

/// `sign_revocation_record`: a revocation record over the given fields, signed with the master
/// seed.
#[verifier::external_body]
pub(crate) fn sign_revocation(
    author: u64,
    revoked_epoch: u32,
    reason: Reason,
    effective_from_version: u64,
    master_seed: &[u8; 32],
) -> (r: Result<SignedRevocation, aion_context::AionError>)
    ensures
        r is Ok,
        r matches Ok(rec) ==> rec.author == author && rec.revoked_epoch == revoked_epoch
            && rec.reason == reason && rec.effective_from_version == effective_from_version,
        r matches Ok(rec) ==> revocation_signature_valid(
            ed25519_public_key(master_seed@),
            author,
            revoked_epoch,
            reason_code(reason),
            effective_from_version,
            rec.master_signature@,
        ),
{
    let master = SigningKey::from_bytes(master_seed)?;
    let code = match reason { Reason::Compromised => RevocationReason::Compromised, Reason::Superseded => RevocationReason::Superseded, Reason::Retired => RevocationReason::Retired, Reason::Unspecified => RevocationReason::Unspecified };
    let r = sign_revocation_record(AuthorId::new(author), revoked_epoch, code, effective_from_version, &master);
    Ok(SignedRevocation { author, revoked_epoch: r.revoked_epoch, reason, effective_from_version: r.effective_from_version, master_signature: r.master_signature })
}

/// `a` is the first active epoch of `s`.
pub open spec fn is_first_active(s: Seq<EpochData>, a: int) -> bool {
    &&& 0 <= a < s.len()
    &&& s[a].status is Active
    &&& forall|k: int| 0 <= k < a ==> !(#[trigger] s[k].status is Active)
}

/// `s` with every epoch numbered `from` marked rotated to `to` from version `eff`.
pub open spec fn mark_rotated(s: Seq<EpochData>, from: u32, to: u32, eff: u64) -> Seq<EpochData> {
    Seq::new(
        s.len(),
        |k: int|
            if s[k].epoch == from {
                EpochData {
                    status: EpochStatus::Rotated { successor_epoch: to, effective_from_version: eff },
                    ..s[k]
                }
            } else {
                s[k]
            },
    )
}

/// `i` is the first epoch of `s` numbered `e`.
pub open spec fn is_first_numbered(s: Seq<EpochData>, i: int, e: u32) -> bool {
    &&& 0 <= i < s.len()
    &&& s[i].epoch == e
    &&& forall|k: int| 0 <= k < i ==> (#[trigger] s[k]).epoch != e
}

/// `KeyRegistry::apply_rotation`. It succeeds exactly when the author is registered, its first
/// active epoch is `from_epoch`, `to_epoch` is the next number, the rotation takes effect no
/// earlier than that epoch was created, and the master signature verifies under the author's
/// registered master key. Then that epoch is marked rotated and the new epoch is appended,
/// active. On failure nothing changes; master keys never change.
#[verifier::external_body]
pub(crate) fn apply_rotation(r: &mut KeyRegistry, rec: &SignedRotation) -> (res: Result<(), aion_context::AionError>)
    ensures
        registry_master_keys(*final(r)) == registry_master_keys(*old(r)),
        ({
            let before = epochs_of(registry_epochs(*old(r)), rec.author);
            let masters = registry_master_keys(*old(r));
            (registry_epochs(*old(r)).dom().contains(rec.author) && masters.dom().contains(rec.author)
                && (exists|a: int| is_first_active(before, a) && #[trigger] before[a].epoch == rec.from_epoch
                && rec.effective_from_version >= before[a].created_at_version) && rec.from_epoch
                < u32::MAX && rec.to_epoch == rec.from_epoch + 1 && rotation_signature_valid(
                masters[rec.author],
                rec.author,
                rec.from_epoch,
                rec.to_epoch,
                rec.to_public_key@,
                rec.effective_from_version,
                rec.master_signature@,
            )) ==> res is Ok
        }),
        res is Err ==> registry_epochs(*final(r)) == registry_epochs(*old(r)),
        res is Ok ==> ({
            let before = epochs_of(registry_epochs(*old(r)), rec.author);
            &&& registry_epochs(*old(r)).dom().contains(rec.author)
            &&& exists|a: int| is_first_active(before, a) && #[trigger] before[a].epoch == rec.from_epoch
                && rec.effective_from_version >= before[a].created_at_version
            &&& rec.to_epoch == rec.from_epoch + 1
            &&& registry_epochs(*final(r)) == registry_epochs(*old(r)).insert(
                rec.author,
                mark_rotated(before, rec.from_epoch, rec.to_epoch, rec.effective_from_version).push(
                    EpochData {
                        epoch: rec.to_epoch,
                        public_key: rec.to_public_key,
                        created_at_version: rec.effective_from_version,
                        status: EpochStatus::Active,
                    },
                ),
            )
        }),
{
    r.apply_rotation(&KeyRotationRecord { author_id: AuthorId::new(rec.author), from_epoch: rec.from_epoch, to_epoch: rec.to_epoch, to_public_key: rec.to_public_key, effective_from_version: rec.effective_from_version, master_signature: rec.master_signature })
}

/// `KeyRegistry::apply_revocation`. It succeeds exactly when the author is registered, the
/// master signature verifies under its registered master key, and its first epoch with the
/// revoked number exists and is not already revoked; that epoch is then revoked with the
/// record's reason from its version. On failure nothing changes; master keys never change.
#[verifier::external_body]
pub(crate) fn apply_revocation(r: &mut KeyRegistry, rec: &SignedRevocation) -> (res: Result<(), aion_context::AionError>)
    ensures
        registry_master_keys(*final(r)) == registry_master_keys(*old(r)),
        ({
            let before = epochs_of(registry_epochs(*old(r)), rec.author);
            let masters = registry_master_keys(*old(r));
            (registry_epochs(*old(r)).dom().contains(rec.author) && masters.dom().contains(rec.author)
                && (exists|i: int| #[trigger] is_first_numbered(before, i, rec.revoked_epoch)
                && !(before[i].status is Revoked)) && revocation_signature_valid(
                masters[rec.author],
                rec.author,
                rec.revoked_epoch,
                reason_code(rec.reason),
                rec.effective_from_version,
                rec.master_signature@,
            )) ==> res is Ok
        }),
        res is Err ==> registry_epochs(*final(r)) == registry_epochs(*old(r)),
        res is Ok ==> ({
            let before = epochs_of(registry_epochs(*old(r)), rec.author);
            &&& registry_epochs(*old(r)).dom().contains(rec.author)
            &&& exists|i: int| #[trigger] is_first_numbered(before, i, rec.revoked_epoch)
                && !(before[i].status is Revoked)
                && registry_epochs(*final(r)) == registry_epochs(*old(r)).insert(
                rec.author,
                before.update(i, EpochData {
                    status: EpochStatus::Revoked {
                        reason_code: reason_code(rec.reason),
                        effective_from_version: rec.effective_from_version,
                    },
                    ..before[i]
                }),
            )
        }),
{
    let reason = match rec.reason { Reason::Compromised => RevocationReason::Compromised, Reason::Superseded => RevocationReason::Superseded, Reason::Retired => RevocationReason::Retired, Reason::Unspecified => RevocationReason::Unspecified };
    r.apply_revocation(&RevocationRecord { author_id: AuthorId::new(rec.author), revoked_epoch: rec.revoked_epoch, reason, effective_from_version: rec.effective_from_version, master_signature: rec.master_signature })
}

// ---------------------------------------------------------------------------------------------
// Loading and saving.
// ---------------------------------------------------------------------------------------------

/// The workspace registry from its persisted trusted JSON, or a fresh empty one if none has
/// been persisted yet.
pub fn load(stored: Option<&str>) -> (r: Result<KeyRegistry, StudioError>)
    ensures
        stored is None ==> (r matches Ok(reg) && registry_epochs(reg) == no_epochs()
            && registry_master_keys(reg) == no_master_keys()),
        stored matches Some(t) ==> match trusted_json_epochs(t@) {
            Some(m) => r matches Ok(reg) && registry_epochs(reg) == m && registry_master_keys(reg)
                == trusted_json_master_keys(t@),
            None => r matches Err(StudioError::Aion(_)),
        },
{
    match stored {
        None => Ok(registry_new()),
        Some(text) => match registry_from_json(text) {
            Ok(reg) => Ok(reg),
            Err(e) => Err(StudioError::Aion(e)),
        },
    }
}

/// The trusted JSON to persist for a registry (public keys + accreditation only).
pub fn save(registry: &KeyRegistry) -> (r: Result<String, StudioError>)
    ensures
        r matches Ok(s) && s@ == registry_json(*registry),
{
    match registry_to_json(registry) {
        Ok(s) => Ok(s),
        Err(e) => Err(StudioError::Aion(e)),
    }
}

} // verus!
