use studio_core::error::StudioError;
use studio_core::workspace::{ids_from_names, PolicyId, Workspace};

#[test]
fn policy_id_accepts_valid_and_rejects_traversal() {
    assert!(PolicyId::new("refund-policy-2").is_ok());
    let long = "x".repeat(65);
    for bad in ["", "../etc", "a/b", "Upper", "has space", "dot.dot", long.as_str()] {
        assert!(PolicyId::new(bad).is_err(), "should reject {bad:?}");
    }
}

#[test]
fn paths_resolve_under_root() {
    let ws = Workspace::new("/tmp/ws");
    let id = PolicyId::new("p1").unwrap();
    assert_eq!(ws.policy_path(&id), "/tmp/ws/policies/p1.aion");
    assert_eq!(ws.policies_dir(), "/tmp/ws/policies");
    assert_eq!(ws.keys_dir(), "/tmp/ws/keys");
    assert_eq!(ws.registry_path(), "/tmp/ws/registry/registry.json");
}

#[test]
fn rejected_id_is_reported_back() {
    match PolicyId::new("a/b") {
        Err(StudioError::InvalidId(s)) => assert_eq!(s, "a/b"),
        other => panic!("unexpected {other:?}"),
    }
    assert_eq!(PolicyId::new(&"y".repeat(64)).unwrap().as_str().len(), 64);
    assert_eq!(PolicyId::new("abc-123").unwrap().as_str(), "abc-123");
}

#[test]
fn paths_join_without_doubling_slashes() {
    let ws = Workspace::new("/tmp/ws/");
    assert_eq!(ws.keys_dir(), "/tmp/ws/keys");
    assert_eq!(ws.authors_path(), "/tmp/ws/registry/authors.json");
    let rel = Workspace::new("studio-data");
    assert_eq!(rel.policies_dir(), "studio-data/policies");
    assert_eq!(rel.required_dirs(), vec![
        "studio-data/policies".to_string(),
        "studio-data/keys".to_string(),
        "studio-data/registry".to_string(),
    ]);
    assert_eq!(rel.root(), "studio-data");
}

#[test]
fn listing_keeps_valid_aion_stems_sorted() {
    let names: Vec<String> = ["zeta.aion", "alpha.aion", "notes.txt", "Bad.aion", ".aion", "a.b.aion", "mid-1.aion", "alpha.aion.bak"]
        .iter()
        .map(|s| s.to_string())
        .collect();
    let ids = ids_from_names(&names);
    let got: Vec<&str> = ids.iter().map(|i| i.as_str()).collect();
    assert_eq!(got, vec!["alpha", "mid-1", "zeta"]);
    assert!(ids_from_names(&Vec::new()).is_empty());
}

#[test]
fn errors_carry_their_status_and_message() {
    let cases = [
        (StudioError::NotFound("p1".to_string()), 404, "policy not found: p1"),
        (StudioError::AlreadyExists("p1".to_string()), 409, "policy already exists: p1"),
        (StudioError::InvalidId("a/b".to_string()), 400, "invalid policy id: a/b"),
        (StudioError::Invalid("bad".to_string()), 400, "bad"),
        (StudioError::BadKey("missing".to_string()), 500, "signing key: missing"),
    ];
    for (e, status, msg) in cases {
        assert_eq!(e.http_status(), status);
        assert_eq!(e.message(), msg);
    }
    let io = StudioError::Io(std::io::Error::new(std::io::ErrorKind::Other, "disk"));
    assert_eq!((io.http_status(), io.message()), (500, "io: disk".to_string()));
    let json = StudioError::Json(serde_json::from_str::<u64>("x").unwrap_err());
    assert!(json.message().starts_with("json: "));
}

#[test]
fn a_cloned_id_is_the_same_id() {
    let id = PolicyId::new("p-1").unwrap();
    assert_eq!(id.clone(), id);
    assert_eq!(id.clone().as_str(), "p-1");
}
