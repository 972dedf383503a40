//! Write-side policy operations: create a policy, read its current rules, and commit a new
//! version. All commits are signed by the single operator (author 1). aion-context writes the
//! artifact itself, so the application performs the create and commit calls; this module decides
//! when they may happen, keeps the operator registered, and renders the results.

use vstd::prelude::*;

use aion_context::key_registry::KeyRegistry;

use crate::error::StudioError;
use crate::keystore::{hex_encode, hex_of};
use crate::registry_store::{
    ed25519_public_key, epochs_of, has_active_epoch_at, has_epoch_at, register_author,
    registry_epochs, registry_master_keys, EpochData, EpochStatus,
};
use crate::workspace::{join, PolicyId, Workspace};

verus! {

/// The single operator that signs everything.
pub const OPERATOR: u64 = 1;

/// Result of a create or commit: the new version and its rules hash (hex).
#[derive(Debug, Clone)]
pub struct CommitInfo {
    pub version: u64,
    pub rules_hash: String,
}

/// The text `String::from_utf8_lossy` makes of bytes.
pub uninterp spec fn utf8_lossy(bytes: Seq<u8>) -> Seq<char>;

/// `String::from_utf8_lossy`: the bytes as text, with invalid sequences replaced by U+FFFD; valid
/// UTF-8 comes through unchanged.
#[verifier::external_body]
fn lossy_text(bytes: &[u8]) -> (s: String)
    ensures
        s@ == utf8_lossy(bytes@),
        vstd::utf8::valid_utf8(bytes@) ==> vstd::utf8::encode_utf8(s@) == bytes@,
{
    String::from_utf8_lossy(bytes).into_owned()
}

/// The current (latest) rules text of a policy, from the rules bytes of its artifact.
pub fn rules_text(bytes: &[u8]) -> (s: String)
    ensures
        s@ == utf8_lossy(bytes@),
        vstd::utf8::valid_utf8(bytes@) ==> vstd::utf8::encode_utf8(s@) == bytes@,
{
    lossy_text(bytes)
}

/// A policy to read or commit must exist: its artifact path, or `NotFound`.
pub fn require_policy(ws: &Workspace, id: &PolicyId, exists: bool) -> (r: Result<String, StudioError>)
    ensures
        exists ==> (r matches Ok(p) && p@ == join(join(ws@, "policies"@), id@ + ".aion"@)),
        !exists ==> (r matches Err(StudioError::NotFound(m)) && m@ == id@),
{
    if exists {
        Ok(ws.policy_path(id))
    } else {
        Err(StudioError::NotFound(String::from_str(id.as_str())))
    }
}

/// A policy to create must not exist yet: its artifact path, or `AlreadyExists`.
pub fn require_absent(ws: &Workspace, id: &PolicyId, exists: bool) -> (r: Result<String, StudioError>)
    ensures
        !exists ==> (r matches Ok(p) && p@ == join(join(ws@, "policies"@), id@ + ".aion"@)),
        exists ==> (r matches Err(StudioError::AlreadyExists(m)) && m@ == id@),
{
    if exists {
        Err(StudioError::AlreadyExists(String::from_str(id.as_str())))
    } else {
        Ok(ws.policy_path(id))
    }
}

/// Make sure the operator is registered before it signs a genesis (a seeded workspace already
/// has it; a bare one gets it registered with its key as both master and operational key).
/// Returns whether the registry changed and must be saved.
pub fn ensure_operator(registry: &mut KeyRegistry, op_seed: &[u8; 32]) -> (r: Result<bool, StudioError>)
    ensures
        has_epoch_at(registry_epochs(*old(registry)), OPERATOR, 1) ==> (r matches Ok(false)
            && registry_epochs(*final(registry)) == registry_epochs(*old(registry))),
        r matches Ok(true) ==> ({
            let after = registry_epochs(*final(registry));
            &&& !has_epoch_at(registry_epochs(*old(registry)), OPERATOR, 1)
            &&& after == registry_epochs(*old(registry)).insert(
                OPERATOR,
                seq![EpochData {
                    epoch: 0,
                    public_key: after[OPERATOR][0].public_key,
                    created_at_version: 1,
                    status: EpochStatus::Active,
                }],
            )
            &&& after[OPERATOR][0].public_key@ == ed25519_public_key(op_seed@)
            &&& registry_master_keys(*final(registry)) == registry_master_keys(*old(registry)).insert(
                OPERATOR,
                ed25519_public_key(op_seed@),
            )
        }),
        r matches Err(e) ==> e is Aion && registry_epochs(*final(registry)) == registry_epochs(
            *old(registry),
        ),
        !has_epoch_at(registry_epochs(*old(registry)), OPERATOR, 1) && !registry_epochs(
            *old(registry),
        ).dom().contains(OPERATOR) ==> r matches Ok(true),
        !has_epoch_at(registry_epochs(*old(registry)), OPERATOR, 1) && registry_epochs(
            *old(registry),
        ).dom().contains(OPERATOR) ==> r is Err,
{
    if has_active_epoch_at(registry, OPERATOR, 1) {
        return Ok(false);
    }
    match register_author(registry, OPERATOR, op_seed, op_seed, 1) {
        Ok(()) => Ok(true),
        Err(e) => Err(StudioError::Aion(e)),
    }
}

/// The result of a create or commit: the new version number and its rules hash in hex.
pub fn commit_info(version: u64, rules_hash: &[u8; 32]) -> (c: CommitInfo)
    ensures
        c.version == version,
        c.rules_hash@ == hex_of(rules_hash@),
{
    CommitInfo { version, rules_hash: hex_encode(rules_hash) }
}

} // verus!
