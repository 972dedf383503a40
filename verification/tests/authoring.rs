use studio_core::audit::require;
use studio_core::authoring::{commit_info, ensure_operator, require_absent, require_policy, rules_text, OPERATOR};
use studio_core::custody::{import_item, ImportItem};
use studio_core::error::StudioError;
use studio_core::policies::{require_existing, summary};
use studio_core::registry_admin::{author_view, register, revoke_apply};
use studio_core::registry_store::load;
use studio_core::workspace::{PolicyId, Workspace};

#[test]
fn existence_rules_for_create_read_and_commit() {
    let ws = Workspace::new("/tmp/ws");
    let id = PolicyId::new("p1").unwrap();
    assert_eq!(require_policy(&ws, &id, true).unwrap(), "/tmp/ws/policies/p1.aion");
    assert_eq!(require_existing(&ws, &id, true).unwrap(), "/tmp/ws/policies/p1.aion");
    assert_eq!(require(&ws, &id, true).unwrap(), "/tmp/ws/policies/p1.aion");
    assert_eq!(require_absent(&ws, &id, false).unwrap(), "/tmp/ws/policies/p1.aion");
    for r in [require_policy(&ws, &id, false), require_existing(&ws, &id, false), require(&ws, &id, false)] {
        match r {
            Err(StudioError::NotFound(m)) => assert_eq!(m, "p1"),
            other => panic!("unexpected {other:?}"),
        }
    }
    match require_absent(&ws, &id, true) {
        Err(StudioError::AlreadyExists(m)) => assert_eq!(m, "p1"),
        other => panic!("unexpected {other:?}"),
    }
}

#[test]
fn commit_results_and_rules_text() {
    let c = commit_info(2, &[0xabu8; 32]);
    assert_eq!(c.version, 2);
    assert_eq!(c.rules_hash, "ab".repeat(32));
    assert_eq!(rules_text(b"rule: allow\n"), "rule: allow\n");
    assert_eq!(rules_text(&[b'a', 0xff, b'b']), "a\u{fffd}b");
    let s = summary(&PolicyId::new("p1").unwrap(), 0xbeef, 3, 3, true);
    assert_eq!((s.id.as_str(), s.file_id.as_str(), s.version_count, s.current_version, s.valid), ("p1", "000000000000beef", 3, 3, true));
}

#[test]
fn operator_is_registered_once() {
    let mut reg = load(None).unwrap();
    let seed = [5u8; 32];
    assert_eq!(ensure_operator(&mut reg, &seed).unwrap(), true);
    let epochs = author_view(&reg, OPERATOR).epochs;
    assert_eq!((epochs.len(), epochs[0].epoch, epochs[0].created_at_version), (1, 0, 1));
    assert_eq!(epochs[0].status, "active");
    assert_eq!(ensure_operator(&mut reg, &seed).unwrap(), false);
    assert_eq!(author_view(&reg, OPERATOR).epochs.len(), 1);
}

#[test]
fn import_is_validated_against_the_active_key() {
    let mut reg = load(None).unwrap();
    let a = register(&mut reg, Some(4), &vec![]).unwrap();
    assert_eq!(import_item(&reg, 4, &a.op_seed, true).unwrap(), ImportItem { author: 4, has_master: true });
    match import_item(&reg, 4, &a.master_seed, false) {
        Err(StudioError::BadKey(m)) => {
            assert_eq!(m, "author 4: on-disk key does not match the registry \u{2014} refusing to import")
        }
        other => panic!("unexpected {other:?}"),
    }
    assert!(matches!(import_item(&reg, 5, &a.op_seed, false), Err(StudioError::BadKey(_))));
}

#[test]
fn operator_known_but_not_valid_at_version_one_is_refused() {
    let mut reg = load(None).unwrap();
    let a = register(&mut reg, Some(OPERATOR), &vec![]).unwrap();
    revoke_apply(&mut reg, OPERATOR, 0, "retired", &a.master_seed, 1).unwrap();
    assert!(matches!(ensure_operator(&mut reg, &a.op_seed), Err(StudioError::Aion(_))));
    assert_eq!(author_view(&reg, OPERATOR).epochs[0].status, "revoked");
}
