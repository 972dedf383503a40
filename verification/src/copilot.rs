//! Copilot context assembly — pure and offline. Given a policy's verification report,
//! governance progress, audit size and current rules, it writes the prompt the application sends
//! to the model.
//!
//! BOUNDARY: this module never touches signing keys and never performs network or mutating calls.
//! The model advises and drafts; a human applies and signs through the ordinary commit/sign
//! routes.

use vstd::prelude::*;

use crate::multisig_store::MultiSigProgress;
use crate::text::{decimal, decimal_string, is_trim_of, trim_text};
use crate::workspace::PolicyId;

verus! {

/// The system prompt text: the copilot's role and its hard boundary.
pub open spec fn system_prompt_text() -> Seq<char> {
    "You are the aion-context policy copilot, embedded in a studio for signed `.aion` policy artifacts. You help authors read, draft, and edit policy rules; explain diffs and verification results; and summarize governance and audit state.\n\nRules of engagement:\n- You ADVISE and DRAFT only. You never sign, commit, approve, or mutate anything \u{2014} a human does that through the studio. Do not claim to have performed any signed action.\n- When proposing rules, output a single fenced ```json block in the studio's rule format (`{\"rules\":[{\"id\",\"when\":{field:{\"op\",\"value\"}},\"decision\"}]}`, ops eq/ne/lt/le/gt/ge) so the author can apply it in the editor and commit it themselves.\n- Be concise and exact. Prefer the smallest change that meets the request."@
}

/// The system prompt: the copilot's role and its hard boundary.
pub fn system_prompt() -> (s: String)
    ensures
        s@ == system_prompt_text(),
{
    String::from_str(
        "You are the aion-context policy copilot, embedded in a studio for signed `.aion` policy artifacts. You help authors read, draft, and edit policy rules; explain diffs and verification results; and summarize governance and audit state.\n\nRules of engagement:\n- You ADVISE and DRAFT only. You never sign, commit, approve, or mutate anything \u{2014} a human does that through the studio. Do not claim to have performed any signed action.\n- When proposing rules, output a single fenced ```json block in the studio's rule format (`{\"rules\":[{\"id\",\"when\":{field:{\"op\",\"value\"}},\"decision\"}]}`, ops eq/ne/lt/le/gt/ge) so the author can apply it in the editor and commit it themselves.\n- Be concise and exact. Prefer the smallest change that meets the request.",
    )
}

/// The assembled, model-ready context for one request.
#[derive(Debug, Clone)]
pub struct CopilotContext {
    pub system: String,
    pub context: String,
}

/// The verification flags the copilot reports.
#[derive(Debug, Clone, Copy)]
pub struct VerificationSummary {
    pub is_valid: bool,
    pub structure_valid: bool,
    pub integrity_hash_valid: bool,
    pub hash_chain_valid: bool,
    pub signatures_valid: bool,
    pub version_count: u64,
}

/// `true` / `false`, as `Display` writes a `bool`.
pub open spec fn bool_text(b: bool) -> Seq<char> {
    if b {
        "true"@
    } else {
        "false"@
    }
}

fn bool_string(b: bool) -> (s: &'static str)
    ensures
        s@ == bool_text(b),
{
    if b {
        "true"
    } else {
        "false"
    }
}

/// The verification line.
pub open spec fn verification_line(r: VerificationSummary) -> Seq<char> {
    "Verification: "@ + (if r.is_valid { "VALID"@ } else { "INVALID"@ }) + " (structure="@
        + bool_text(r.structure_valid) + ", integrity="@ + bool_text(r.integrity_hash_valid)
        + ", hash_chain="@ + bool_text(r.hash_chain_valid) + ", signatures="@ + bool_text(
        r.signatures_valid,
    ) + "), "@ + decimal(r.version_count as nat) + " version(s).\n"@
}

/// The governance line.
pub open spec fn governance_line(ms: MultiSigProgress) -> Seq<char> {
    "Governance: "@ + decimal(ms.threshold as nat) + "-of-"@ + decimal(ms.signers.len() as nat)
        + " approval, "@ + decimal(ms.valid_count as nat) + " so far"@ + (if ms.threshold_met {
        " (met)"@
    } else {
        seq![]
    }) + ".\n"@
}

/// The whole context text: policy and surface, verification, governance, the audit size when
/// the audit trail could be read, and the current rules (trimmed) in a JSON fence.
pub open spec fn context_text(
    id: Seq<char>,
    surface: Seq<char>,
    r: VerificationSummary,
    ms: MultiSigProgress,
    audit_entries: Option<u64>,
    trimmed_rules: Seq<char>,
) -> Seq<char> {
    "Policy: "@ + id + "\nSurface: "@ + surface + "\n\n"@ + verification_line(r) + governance_line(
        ms,
    ) + (match audit_entries {
        Some(n) => "Audit entries: "@ + decimal(n as nat) + ".\n"@,
        None => seq![],
    }) + "\nCurrent rules:\n```json\n"@ + trimmed_rules + "\n```\n"@
}

fn verification_string(r: &VerificationSummary) -> (s: String)
    ensures
        s@ == verification_line(*r),
{
    let mut c = String::from_str("Verification: ");
    c.append(if r.is_valid { "VALID" } else { "INVALID" });
    c.append(" (structure=");
    c.append(bool_string(r.structure_valid));
    c.append(", integrity=");
    c.append(bool_string(r.integrity_hash_valid));
    c.append(", hash_chain=");
    c.append(bool_string(r.hash_chain_valid));
    c.append(", signatures=");
    c.append(bool_string(r.signatures_valid));
    c.append("), ");
    c.append(decimal_string(r.version_count).as_str());
    c.append(" version(s).\n");
    assert(c@ =~= verification_line(*r));
    c
}

fn governance_string(ms: &MultiSigProgress) -> (s: String)
    ensures
        s@ == governance_line(*ms),
{
    let mut c = String::from_str("Governance: ");
    c.append(decimal_string(ms.threshold as u64).as_str());
    c.append("-of-");
    c.append(decimal_string(ms.signers.len() as u64).as_str());
    c.append(" approval, ");
    c.append(decimal_string(ms.valid_count as u64).as_str());
    c.append(" so far");
    let ghost head = c@;
    if ms.threshold_met {
        c.append(" (met)");
    } else {
        assert(c@ =~= head + Seq::<char>::empty());
    }
    c.append(".\n");
    assert(c@ =~= governance_line(*ms));
    c
}

fn audit_string(audit_entries: Option<u64>) -> (s: String)
    ensures
        s@ == (match audit_entries {
            Some(n) => "Audit entries: "@ + decimal(n as nat) + ".\n"@,
            None => Seq::<char>::empty(),
        }),
{
    match audit_entries {
        Some(n) => String::from_str("Audit entries: ").concat(decimal_string(n).as_str()).concat(".\n"),
        None => String::new(),
    }
}

/// The user turn sent to the model: the assembled context, then the author's request.
pub fn user_message(context: &str, prompt: &str) -> (s: String)
    ensures
        s@ == context@ + "\n\nRequest: "@ + prompt@,
{
    String::from_str(context).concat("\n\nRequest: ").concat(prompt)
}

/// The surface a request is about: the one named, or the editor when none is.
pub fn surface_of(requested: &str) -> (s: String)
    ensures
        requested@.len() == 0 ==> s@ == "editor"@,
        requested@.len() > 0 ==> s@ == requested@,
{
    if requested.unicode_len() == 0 {
        String::from_str("editor")
    } else {
        String::from_str(requested)
    }
}

/// Build the copilot context for a policy and a surface (e.g. "editor", "governance", "audit").
pub fn build_context(
    id: &PolicyId,
    surface: &str,
    report: &VerificationSummary,
    ms: &MultiSigProgress,
    audit_entries: Option<u64>,
    rules: &str,
) -> (c: CopilotContext)
    ensures
        c.system@ == system_prompt_text(),
        exists|t: Seq<char>|
            is_trim_of(t, rules@) && c.context@ == context_text(
                id@,
                surface@,
                *report,
                *ms,
                audit_entries,
                t,
            ),
{
    let mut c = String::from_str("Policy: ");
    c.append(id.as_str());
    c.append("\nSurface: ");
    c.append(surface);
    c.append("\n\n");
    let v = verification_string(report);
    c.append(v.as_str());
    let g = governance_string(ms);
    c.append(g.as_str());
    let a = audit_string(audit_entries);
    c.append(a.as_str());
    c.append("\nCurrent rules:\n```json\n");
    let trimmed = trim_text(rules);
    c.append(trimmed.as_str());
    c.append("\n```\n");
    assert(c@ =~= context_text(id@, surface@, *report, *ms, audit_entries, trimmed@));
    CopilotContext { system: system_prompt(), context: c }
}

} // verus!
