//! Read-side policy operations: list every policy with a quick verdict, and fetch full info or a
//! verification report for one. Verification itself is aion-context's `verify_file`, run by the
//! application on the artifact file; this module decides what exists and renders the rows.

use vstd::prelude::*;

use crate::error::StudioError;
use crate::keystore::{hex_u64, hex_width};
use crate::workspace::{join, PolicyId, Workspace};

verus! {

/// One row in the policy list: identity, version counts, and whether it currently verifies.
/// `file_id` is rendered as a 16-digit hex string — a u64 exceeds JavaScript's safe integer
/// range, so a JSON number would lose precision in the SPA.
#[derive(Debug, Clone)]
pub struct PolicySummary {
    pub id: String,
    pub file_id: String,
    pub version_count: u64,
    pub current_version: u64,
    pub valid: bool,
}

/// The list row for a policy, from its file info and verification verdict.
pub fn summary(
    id: &PolicyId,
    file_id: u64,
    version_count: u64,
    current_version: u64,
    valid: bool,
) -> (s: PolicySummary)
    ensures
        s.id@ == id@,
        s.file_id@ == hex_width(file_id as nat, 16),
        s.version_count == version_count,
        s.current_version == current_version,
        s.valid == valid,
{
    PolicySummary {
        id: String::from_str(id.as_str()),
        file_id: hex_u64(file_id),
        version_count,
        current_version,
        valid,
    }
}

/// The artifact path of an existing policy; `exists` is whether its file is there.
pub fn require_existing(ws: &Workspace, id: &PolicyId, exists: bool) -> (r: Result<String, StudioError>)
    ensures
        exists ==> (r matches Ok(p) && p@ == join(join(ws@, "policies"@), id@ + ".aion"@)),
        !exists ==> (r matches Err(StudioError::NotFound(m)) && m@ == id@),
{
    if exists {
        Ok(ws.policy_path(id))
    } else {
        Err(StudioError::NotFound(String::from_str(id.as_str())))
    }
}

} // verus!
