use studio_core::error::StudioError;
use studio_core::registry_admin::{
    effective_from, parse_reason, reason_str, register, revocation_target, revoke_apply,
    rotate_apply, rotation_start, trusted_json, list,
};
use studio_core::registry_admin::{author_view, register_with};
use studio_core::registry_store::{load, save};

#[test]
fn reason_round_trips() {
    for (s, _) in [
        ("compromised", 1),
        ("superseded", 2),
        ("retired", 3),
        ("x", 255),
    ] {
        assert_eq!(
            reason_str(parse_reason(s)),
            if s == "x" { "unspecified" } else { s }
        );
    }
}

#[test]
fn rotations_take_effect_after_every_existing_version() {
    assert_eq!(effective_from(&vec![]), 1);
    assert_eq!(effective_from(&vec![2, 5, 1]), 6);
}

#[test]
fn register_rotate_revoke_update_timeline() {
    let mut reg = load(None).unwrap();
    let a1 = register(&mut reg, Some(1), &vec![]).unwrap();
    assert_eq!(a1.view.author_id, 1);
    assert_eq!(a1.view.epochs.len(), 1);
    assert_eq!(a1.view.epochs[0].status, "active");
    assert_eq!(a1.view.epochs[0].public_key.len(), 64);
    let a4 = register(&mut reg, None, &vec![1, 3]).unwrap();
    assert_eq!(a4.view.author_id, 4);
    match register(&mut reg, Some(1), &vec![]) {
        Err(StudioError::AlreadyExists(m)) => assert_eq!(m, "author 1"),
        _ => panic!("expected AlreadyExists"),
    }

    let from = rotation_start(&reg, 1).unwrap();
    assert_eq!(from, 0);
    let new_op = [7u8; 32];
    let r = rotate_apply(&mut reg, 1, from, &a1.master_seed, &new_op, 3).unwrap();
    assert_eq!(r.epochs.len(), 2);
    assert_eq!(r.epochs[0].status, "rotated");
    assert_eq!(r.epochs[0].detail, "\u{2192} epoch 1 from v3");
    assert_eq!(r.epochs[1].status, "active");
    assert_eq!(r.epochs[1].created_at_version, 3);
    assert!(matches!(rotation_start(&reg, 999), Err(StudioError::NotFound(_))));
    // a rotation signed by the wrong master key is refused and changes nothing
    assert!(matches!(rotate_apply(&mut reg, 4, 0, &[9u8; 32], &new_op, 3), Err(StudioError::Aion(_))));
    assert_eq!(author_view(&reg, 4).epochs.len(), 1);

    let target = revocation_target(&reg, 4).unwrap();
    let v = revoke_apply(&mut reg, 4, target, "compromised", &a4.master_seed, 3).unwrap();
    assert_eq!(v.epochs[0].status, "revoked");
    assert_eq!(v.epochs[0].detail, "compromised from v3");
    assert_eq!(author_view(&reg, 4).epochs[0].detail, "compromised from v3");
    assert!(matches!(revocation_target(&reg, 77), Err(StudioError::NotFound(_))));

    let views = list(&reg, &vec![1, 4, 5]);
    assert_eq!(views.iter().map(|a| a.epochs.len()).collect::<Vec<_>>(), vec![2, 1, 0]);

    // the trusted JSON reloads to the same timelines
    let json = trusted_json(&reg).unwrap();
    assert!(json.contains('"'));
    assert_eq!(save(&reg).unwrap(), json);
    let back = load(Some(&json)).unwrap();
    assert_eq!(author_view(&back, 1).epochs.len(), 2);
    assert!(matches!(load(Some("not json")), Err(StudioError::Aion(_))));
    assert!(author_view(&load(None).unwrap(), 1).epochs.is_empty());
}

#[test]
fn registering_with_given_seeds_succeeds_for_a_new_id_only() {
    let mut reg = load(None).unwrap();
    let v = register_with(&mut reg, 9, &[1u8; 32], &[2u8; 32]).unwrap();
    assert_eq!((v.author_id, v.epochs.len(), v.epochs[0].status.as_str()), (9, 1, "active"));
    assert!(matches!(register_with(&mut reg, 9, &[3u8; 32], &[4u8; 32]), Err(StudioError::Aion(_))));
    // the master seed given here authorizes a rotation; another does not
    assert!(rotate_apply(&mut reg, 9, 0, &[3u8; 32], &[5u8; 32], 2).is_err());
    let r = rotate_apply(&mut reg, 9, 0, &[1u8; 32], &[5u8; 32], 2).unwrap();
    assert_eq!(r.epochs[0].detail, "\u{2192} epoch 1 from v2");
    // rotating from an epoch that is not the active one is refused
    assert!(rotate_apply(&mut reg, 9, 0, &[1u8; 32], &[6u8; 32], 3).is_err());
    // revoking: the epoch must exist and not be revoked yet
    assert!(revoke_apply(&mut reg, 9, 7, "retired", &[1u8; 32], 3).is_err());
    assert!(revoke_apply(&mut reg, 9, 1, "retired", &[1u8; 32], 3).is_ok());
    assert!(revoke_apply(&mut reg, 9, 1, "retired", &[1u8; 32], 4).is_err());
}
