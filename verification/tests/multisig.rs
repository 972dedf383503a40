use studio_core::error::StudioError;
use studio_core::multisig_store::{approvals_path, authorize, config_path, dir, fresh_for, load_config, record_approval, Approvals, MultiSigConfig};
use studio_core::workspace::{PolicyId, Workspace};

#[test]
fn multisig_files_live_under_the_workspace() {
    let ws = Workspace::new("/tmp/ws-ms");
    let id = PolicyId::new("p1").unwrap();
    assert_eq!(dir(&ws), "/tmp/ws-ms/multisig");
    assert_eq!(config_path(&ws, &id), "/tmp/ws-ms/multisig/p1.policy.json");
    assert_eq!(approvals_path(&ws, &id), "/tmp/ws-ms/multisig/p1.approvals.json");
}

#[test]
fn default_config_is_two_of_three() {
    let c = load_config(None);
    assert_eq!((c.threshold, c.signers), (2, vec![1, 2, 3]));
    let custom = load_config(Some(MultiSigConfig { threshold: 1, signers: vec![9] }));
    assert_eq!((custom.threshold, custom.signers), (1, vec![9]));
}

#[test]
fn approvals_reset_on_a_new_version_and_are_idempotent() {
    let stored = Approvals { version: 1, approvers: vec![2] };
    let same = fresh_for(Some(stored.clone()), 1);
    assert_eq!(same.approvers, vec![2]);
    let reset = fresh_for(Some(stored), 2);
    assert_eq!((reset.version, reset.approvers.len()), (2, 0));
    assert!(fresh_for(None, 1).approvers.is_empty());

    let a = record_approval(Approvals { version: 3, approvers: vec![3] }, 1);
    assert_eq!(a.approvers, vec![1, 3]);
    let again = record_approval(a, 1);
    assert_eq!(again.approvers, vec![1, 3]);
}

#[test]
fn only_configured_signers_may_approve() {
    let cfg = MultiSigConfig { threshold: 2, signers: vec![1, 2, 3] };
    assert!(authorize(&cfg, 2).is_ok());
    match authorize(&cfg, 99) {
        Err(StudioError::Invalid(m)) => assert_eq!(m, "author 99 is not an authorized signer"),
        other => panic!("unexpected {other:?}"),
    }
}
