use studio_core::copilot::{build_context, system_prompt, VerificationSummary};
use studio_core::multisig_store::MultiSigProgress;
use studio_core::workspace::PolicyId;

#[test]
fn context_includes_state_and_rules() {
    let id = PolicyId::new("refund-authorization").unwrap();
    let report = VerificationSummary {
        is_valid: true,
        structure_valid: true,
        integrity_hash_valid: true,
        hash_chain_valid: true,
        signatures_valid: true,
        version_count: 1,
    };
    let ms = MultiSigProgress {
        version: 1,
        threshold: 2,
        signers: vec![1, 2, 3],
        approvers: vec![],
        valid_count: 0,
        required: 2,
        threshold_met: false,
        missing: vec![1, 2, 3],
    };
    let rules = "\n  { \"rules\": [ { \"id\": \"auto-approve-small\" } ] }\n";
    let ctx = build_context(&id, "editor", &report, &ms, Some(4), rules);
    assert!(ctx.system.contains("ADVISE and DRAFT only"));
    assert_eq!(ctx.system, system_prompt());
    assert!(ctx.context.contains("refund-authorization"));
    assert!(ctx.context.contains("Surface: editor"));
    assert!(ctx.context.contains("Verification: VALID"));
    assert!(ctx.context.contains("Governance: 2-of-3"));
    assert!(ctx.context.contains("Audit entries: 4."));
    assert!(ctx.context.contains("auto-approve-small"));
    assert_eq!(
        ctx.context,
        "Policy: refund-authorization\nSurface: editor\n\nVerification: VALID (structure=true, integrity=true, hash_chain=true, signatures=true), 1 version(s).\nGovernance: 2-of-3 approval, 0 so far.\nAudit entries: 4.\n\nCurrent rules:\n```json\n{ \"rules\": [ { \"id\": \"auto-approve-small\" } ] }\n```\n"
    );
    let met = MultiSigProgress { valid_count: 2, threshold_met: true, ..ms };
    let ctx2 = build_context(&id, "audit", &VerificationSummary { is_valid: false, ..report }, &met, None, "");
    assert!(ctx2.context.contains("Verification: INVALID"));
    assert!(ctx2.context.contains("2 so far (met).\n"));
    assert!(!ctx2.context.contains("Audit entries"));
}
