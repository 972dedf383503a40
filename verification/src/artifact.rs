//! Reading a `.aion` artifact's bytes with aion-context's parser: the header counts, the
//! version chain, the audit trail and its string table. Every result is a function of the
//! bytes, and is named as such.

use vstd::prelude::*;

use aion_context::crypto::SigningKey;
use aion_context::parser::AionParser;
use aion_context::serializer::VersionEntry;
use aion_context::signature_chain::sign_attestation;
use aion_context::types::AuthorId;

verus! {

/// aion-context's version entry, handed to its signing and verifying calls.
#[verifier::external_type_specification]
#[verifier::external_body]
pub struct ExVersionEntry(aion_context::serializer::VersionEntry);

/// One version entry of an artifact's chain, as plain values.
#[derive(Debug, Clone, Copy)]
pub struct VersionData {
    pub version_number: u64,
    pub parent_hash: [u8; 32],
    pub rules_hash: [u8; 32],
    pub author_id: u64,
    pub timestamp: u64,
    pub message_offset: u64,
    pub message_length: u32,
    pub reserved: [u8; 52],
}

/// A signer's attestation over a version: who attests, under which Ed25519 public key, and the
/// signature.
#[derive(Debug, Clone, Copy)]
pub struct Attestation {
    pub author: u64,
    pub public_key: [u8; 32],
    pub signature: [u8; 64],
}

/// One audit-trail entry as plain values: when, who, what (the action's description, if its
/// code is known), where its detail string lies in the string table, and the entry's hash.
#[derive(Debug, Clone)]
pub struct AuditRecord {
    pub timestamp: u64,
    pub author_id: u64,
    pub action: Option<String>,
    pub details_offset: u64,
    pub details_length: u32,
    pub hash: [u8; 32],
}

/// The number of versions in an artifact's chain, if the bytes parse as an artifact.
pub uninterp spec fn aion_version_count(bytes: Seq<u8>) -> Option<u64>;

/// The number of audit-trail entries of an artifact, if the bytes parse as an artifact.
pub uninterp spec fn aion_audit_count(bytes: Seq<u8>) -> Option<u64>;

/// An artifact's string table, if the bytes parse as an artifact that has one.
pub uninterp spec fn aion_string_table(bytes: Seq<u8>) -> Option<Seq<u8>>;

/// Audit-trail entry `i` of an artifact, if the bytes parse and hold it.
pub uninterp spec fn aion_audit_entry(bytes: Seq<u8>, i: int) -> Option<AuditRecord>;

/// Version entry `i` of an artifact's chain, if the bytes parse and hold it.
pub uninterp spec fn aion_version_entry(bytes: Seq<u8>, i: int) -> Option<VersionData>;

/// Whether `signature` verifies, under the Ed25519 public key `public_key`, over the canonical
/// attestation message of `version` by `author` (`canonical_attestation_message`).
pub uninterp spec fn attestation_valid(
    version: VersionData,
    author: u64,
    public_key: Seq<u8>,
    signature: Seq<u8>,
) -> bool;

/// `AionParser::new(..).header().version_chain_count`.
#[verifier::external_body]
pub(crate) fn version_count(bytes: &[u8]) -> (r: Result<u64, aion_context::AionError>)
    ensures
        r matches Ok(n) ==> aion_version_count(bytes@) == Some(n),
        r is Err ==> aion_version_count(bytes@) is None,
{
    Ok(AionParser::new(bytes)?.header().version_chain_count)
}

/// `AionParser::new(..).header().audit_trail_count`.
#[verifier::external_body]
pub(crate) fn audit_count(bytes: &[u8]) -> (r: Result<u64, aion_context::AionError>)
    ensures
        r matches Ok(n) ==> aion_audit_count(bytes@) == Some(n),
        r is Err ==> aion_audit_count(bytes@) is None,
{
    Ok(AionParser::new(bytes)?.header().audit_trail_count)
}

/// `AionParser::string_table_bytes`.
#[verifier::external_body]
pub(crate) fn string_table(bytes: &[u8]) -> (r: Result<Vec<u8>, aion_context::AionError>)
    ensures
        r matches Ok(t) ==> aion_string_table(bytes@) == Some(t@),
        r is Err ==> aion_string_table(bytes@) is None,
{
    Ok(AionParser::new(bytes)?.string_table_bytes()?.to_vec())
}

/// `AionParser::get_audit_entry`, read out as plain values.
#[verifier::external_body]
pub(crate) fn audit_entry(bytes: &[u8], i: usize) -> (r: Result<AuditRecord, aion_context::AionError>)
    ensures
        r matches Ok(rec) ==> aion_audit_entry(bytes@, i as int) == Some(rec),
        r is Err ==> aion_audit_entry(bytes@, i as int) is None,
{
    let e = AionParser::new(bytes)?.get_audit_entry(i)?;
    let action = e.action_code().ok().map(|a| a.description().to_string());
    Ok(AuditRecord { timestamp: e.timestamp(), author_id: e.author_id().as_u64(), action, details_offset: e.details_offset(), details_length: e.details_length(), hash: e.compute_hash() })
}

/// `AionParser::get_version_entry`, read out field for field.
#[verifier::external_body]
pub(crate) fn version_entry(bytes: &[u8], i: usize) -> (r: Result<VersionData, aion_context::AionError>)
    ensures
        r matches Ok(v) ==> aion_version_entry(bytes@, i as int) == Some(v),
        r is Err ==> aion_version_entry(bytes@, i as int) is None,
{
    let e = AionParser::new(bytes)?.get_version_entry(i)?;
    Ok(VersionData { version_number: e.version_number, parent_hash: e.parent_hash, rules_hash: e.rules_hash, author_id: e.author_id, timestamp: e.timestamp, message_offset: e.message_offset, message_length: e.message_length, reserved: e.reserved })
}

/// aion-context's `VersionEntry` holding the given fields (a conversion, field for field).
#[verifier::external_body]
pub(crate) fn entry_of(v: &VersionData) -> VersionEntry {
    VersionEntry { version_number: v.version_number, parent_hash: v.parent_hash, rules_hash: v.rules_hash, author_id: v.author_id, timestamp: v.timestamp, message_offset: v.message_offset, message_length: v.message_length, reserved: v.reserved }
}

/// `sign_attestation`: `author`'s attestation over a version, signed with its seed. The
/// attestation carries the seed's public key, and its signature verifies under it.
#[verifier::external_body]
pub(crate) fn attest(version: &VersionData, author: u64, seed: &[u8; 32]) -> (r: Result<
    Attestation,
    aion_context::AionError,
>)
    ensures
        r is Ok,
        r matches Ok(a) ==> a.author == author && a.public_key@
            == crate::registry_store::ed25519_public_key(seed@) && attestation_valid(
            *version,
            author,
            a.public_key@,
            a.signature@,
        ),
{
    let s = sign_attestation(&entry_of(version), AuthorId::new(author), &SigningKey::from_bytes(seed)?);
    Ok(Attestation { author: s.author_id, public_key: s.public_key, signature: s.signature })
}

} // verus!
