use studio_core::author_index::{add, list, to_json};
use studio_core::error::StudioError;

#[test]
fn list_normalizes_unsorted_and_duplicated_on_disk() {
    assert_eq!(list(Some("[3,1,2,2,1]")).unwrap(), vec![1, 2, 3]);
}

#[test]
fn absent_index_is_empty_and_add_is_idempotent() {
    assert!(list(None).unwrap().is_empty());
    let once = add(&vec![5], 2);
    assert_eq!(once, vec![5, 2]);
    assert_eq!(list(Some(&to_json(&once).unwrap())).unwrap(), vec![2, 5]);
    let twice = add(&once, 2);
    assert_eq!(twice, once);
    assert_eq!(to_json(&add(&vec![], 7)).unwrap(), "[7]");
    assert!(matches!(list(Some("[1,")), Err(StudioError::Json(_))));
}

#[test]
fn the_index_is_a_compact_json_array() {
    assert_eq!(to_json(&vec![]).unwrap(), "[]");
    assert_eq!(to_json(&vec![0, 12, 18446744073709551615]).unwrap(), "[0,12,18446744073709551615]");
}
