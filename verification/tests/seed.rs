use studio_core::error::StudioError;
use studio_core::registry_admin::author_view;
use studio_core::registry_store::load;
use studio_core::seed::{ensure_seeded, register_signers, SAMPLE_ID, SIGNER_AUTHORS};
use studio_core::workspace::PolicyId;

#[test]
fn seeding_registers_the_signer_set_once() {
    let mut reg = load(None).unwrap();
    let signers = ensure_seeded(&Vec::new(), &mut reg).unwrap().expect("an empty workspace is seeded");
    let authors: Vec<u64> = signers.iter().map(|s| s.author).collect();
    assert_eq!(authors, SIGNER_AUTHORS.to_vec());
    for s in &signers {
        let epochs = author_view(&reg, s.author).epochs;
        assert_eq!(epochs.len(), 1);
        assert_eq!(epochs[0].epoch, 0);
        assert_eq!(epochs[0].created_at_version, 1);
        assert_eq!(epochs[0].status, "active");
        assert_ne!(s.master_seed, s.op_seed);
    }
    assert_eq!(PolicyId::new(SAMPLE_ID).unwrap().as_str(), "refund-authorization");

    // a workspace that already holds a policy is left alone
    let ids = vec![PolicyId::new(SAMPLE_ID).unwrap()];
    assert!(ensure_seeded(&ids, &mut reg).unwrap().is_none());

    // seeding over a registry that already has the signers is refused
    assert!(matches!(ensure_seeded(&Vec::new(), &mut reg), Err(StudioError::Aion(_))));
}

#[test]
fn signer_set_registers_with_the_given_seeds() {
    let mut reg = load(None).unwrap();
    let seeds = vec![([1u8; 32], [2u8; 32]), ([3u8; 32], [4u8; 32]), ([5u8; 32], [6u8; 32])];
    let s = register_signers(&mut reg, &seeds).unwrap();
    assert_eq!(s.iter().map(|x| (x.author, x.master_seed[0], x.op_seed[0])).collect::<Vec<_>>(), vec![(1, 1, 2), (2, 3, 4), (3, 5, 6)]);
    assert!(matches!(register_signers(&mut reg, &seeds), Err(StudioError::Aion(_))));
}
