use studio_core::artifact::VersionData;

use studio_core::error::StudioError;
use studio_core::multisig_store::{check_config, check_threshold, latest_version, progress, Approvals, MultiSigConfig};
use studio_core::registry_admin::register;
use studio_core::registry_store::load;

fn version_one() -> VersionData {
    VersionData {
        version_number: 1,
        parent_hash: [0u8; 32],
        rules_hash: [7u8; 32],
        author_id: 1,
        timestamp: 0,
        message_offset: 0,
        message_length: 0,
        reserved: [0u8; 52],
    }
}

#[test]
fn threshold_must_fit_the_signer_set() {
    assert!(check_threshold(1, 1).is_ok());
    assert!(check_threshold(3, 3).is_ok());
    for (t, n) in [(0, 3), (4, 3), (1, 0)] {
        match check_threshold(t, n) {
            Err(StudioError::Invalid(m)) => assert_eq!(m, format!("invalid threshold {t} for {n} signer(s)")),
            other => panic!("unexpected {other:?}"),
        }
    }
}

#[test]
fn config_signers_must_be_registered() {
    let mut reg = load(None).unwrap();
    register(&mut reg, Some(1), &vec![]).unwrap();
    register(&mut reg, Some(2), &vec![]).unwrap();
    let ok = check_config(2, vec![1, 2], &reg).unwrap();
    assert_eq!((ok.threshold, ok.signers), (2, vec![1, 2]));
    match check_config(1, vec![1, 5, 6], &reg) {
        Err(StudioError::Invalid(m)) => assert_eq!(m, "signer 5 is not registered"),
        other => panic!("unexpected {other:?}"),
    }
    match check_config(3, vec![1, 2], &reg) {
        Err(StudioError::Invalid(m)) => assert_eq!(m, "invalid threshold 3 for 2 signer(s)"),
        other => panic!("unexpected {other:?}"),
    }
}

#[test]
fn progress_counts_valid_attestations_against_the_threshold() {
    let mut reg = load(None).unwrap();
    let a1 = register(&mut reg, Some(1), &vec![]).unwrap();
    let a2 = register(&mut reg, Some(2), &vec![]).unwrap();
    register(&mut reg, Some(3), &vec![]).unwrap();
    let cfg = MultiSigConfig { threshold: 2, signers: vec![1, 2, 3] };
    let entry = version_one();

    let none = progress(&cfg, 1, &entry, &Approvals { version: 1, approvers: vec![] }, &vec![], &reg).unwrap();
    assert_eq!((none.valid_count, none.required, none.threshold_met), (0, 2, false));
    assert_eq!(none.missing, vec![1, 2, 3]);

    let one = progress(&cfg, 1, &entry, &Approvals { version: 1, approvers: vec![1] }, &vec![a1.op_seed], &reg).unwrap();
    assert_eq!((one.valid_count, one.threshold_met), (1, false));
    assert_eq!(one.missing, vec![2, 3]);

    let two = progress(
        &cfg,
        1,
        &entry,
        &Approvals { version: 1, approvers: vec![1, 2] },
        &vec![a1.op_seed, a2.op_seed],
        &reg,
    )
    .unwrap();
    assert_eq!((two.version, two.valid_count, two.threshold_met), (1, 2, true));
    assert_eq!(two.approvers, vec![1, 2]);
    assert_eq!(two.missing, vec![3]);

    // an attestation made with the wrong key does not count
    let forged = progress(
        &cfg,
        1,
        &entry,
        &Approvals { version: 1, approvers: vec![1, 2] },
        &vec![a1.op_seed, [9u8; 32]],
        &reg,
    )
    .unwrap();
    assert_eq!((forged.valid_count, forged.threshold_met), (1, false));

    // a malformed policy is refused
    let bad = MultiSigConfig { threshold: 0, signers: vec![1] };
    assert!(matches!(progress(&bad, 1, &entry, &Approvals { version: 1, approvers: vec![] }, &vec![], &reg), Err(StudioError::Aion(_))));
}

#[test]
fn latest_version_needs_an_artifact() {
    assert!(matches!(latest_version(b"not an artifact"), Err(StudioError::Aion(_))));
}

#[test]
fn approvals_count_once_per_signer_and_only_for_signers() {
    let mut reg = load(None).unwrap();
    let a1 = register(&mut reg, Some(1), &vec![]).unwrap();
    let a2 = register(&mut reg, Some(2), &vec![]).unwrap();
    let a7 = register(&mut reg, Some(7), &vec![]).unwrap();
    let cfg = MultiSigConfig { threshold: 2, signers: vec![1, 2, 3] };
    let entry = version_one();
    // a repeated approval counts once, and an approver outside the signer set not at all
    let p = progress(
        &cfg,
        1,
        &entry,
        &Approvals { version: 1, approvers: vec![1, 1, 7] },
        &vec![a1.op_seed, a1.op_seed, a7.op_seed],
        &reg,
    )
    .unwrap();
    assert_eq!((p.valid_count, p.threshold_met), (1, false));
    assert_eq!(p.missing, vec![2, 3]);
    let q = progress(
        &cfg,
        1,
        &entry,
        &Approvals { version: 1, approvers: vec![2, 1] },
        &vec![a2.op_seed, a1.op_seed],
        &reg,
    )
    .unwrap();
    assert_eq!((q.valid_count, q.threshold_met), (2, true));
    assert_eq!(q.missing, vec![3]);
}
