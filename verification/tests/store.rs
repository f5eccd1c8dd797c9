use student_service::proto::Student;
use student_service::store::StudentStore;

fn record(id: &str, name: &str) -> Student {
    Student {
        id: id.to_string(),
        name: name.to_string(),
        email: format!("{}@university.edu", name),
        age: 21,
        major: "History".to_string(),
        gpa_bits: 3.0f64.to_bits(),
    }
}

fn ids(store: &StudentStore) -> Vec<String> {
    let mut out = Vec::new();
    for student in store.snapshot() {
        out.push(student.id);
    }
    out
}

#[test]
fn new_store_is_empty() {
    let store = StudentStore::new();
    assert_eq!(store.len(), 0);
    assert!(store.snapshot().is_empty());
    assert!(store.get("a").is_none());
}

#[test]
fn insert_if_absent_inserts_once() {
    let mut store = StudentStore::new();
    assert!(store.insert_if_absent(record("b", "Bea")));
    assert!(!store.insert_if_absent(record("b", "Bob")));
    assert_eq!(store.len(), 1);
    assert_eq!(store.get("b"), Some(&record("b", "Bea")));
}

#[test]
fn get_finds_each_record_by_its_id() {
    let mut store = StudentStore::new();
    for id in ["m", "c", "x", "a", "q"] {
        assert!(store.insert_if_absent(record(id, id)));
    }
    for id in ["m", "c", "x", "a", "q"] {
        assert_eq!(store.get(id), Some(&record(id, id)));
    }
    for id in ["", "b", "z", "mm", "A"] {
        assert_eq!(store.get(id), None);
    }
}

#[test]
fn replace_overwrites_only_what_is_there() {
    let mut store = StudentStore::new();
    assert!(!store.replace(record("a", "Ann")));
    assert_eq!(store.len(), 0);
    assert!(store.insert_if_absent(record("a", "Ann")));
    assert!(store.insert_if_absent(record("b", "Bea")));
    assert!(store.replace(record("a", "Anna")));
    assert_eq!(store.len(), 2);
    assert_eq!(store.get("a"), Some(&record("a", "Anna")));
    assert_eq!(store.get("b"), Some(&record("b", "Bea")));
    assert!(!store.replace(record("c", "Cy")));
    assert_eq!(store.get("c"), None);
}

#[test]
fn remove_returns_the_record_and_forgets_it() {
    let mut store = StudentStore::new();
    for id in ["a", "b", "c"] {
        assert!(store.insert_if_absent(record(id, id)));
    }
    assert_eq!(store.remove("b"), Some(record("b", "b")));
    assert_eq!(store.remove("b"), None);
    assert_eq!(store.get("b"), None);
    assert_eq!(store.len(), 2);
    assert_eq!(ids(&store), vec!["a".to_string(), "c".to_string()]);
    assert_eq!(store.remove("zz"), None);
    assert_eq!(store.len(), 2);
}

#[test]
fn snapshot_is_in_ascending_id_order() {
    let mut store = StudentStore::new();
    let given = ["delta", "alpha", "", "é", "charlie", "bravo", "z", "10", "9", "Z", "\u{10000}", "ab"];
    for id in given {
        assert!(store.insert_if_absent(record(id, "n")));
    }
    let mut expected: Vec<String> = Vec::new();
    for id in given {
        expected.push(id.to_string());
    }
    expected.sort();
    assert_eq!(ids(&store), expected);
    assert_eq!(store.len(), given.len());
}

#[test]
fn snapshots_without_a_change_between_them_agree() {
    let mut store = StudentStore::new();
    for i in 0..50 {
        assert!(store.insert_if_absent(record(&format!("id-{}", (i * 37) % 50), "n")));
    }
    let first = store.snapshot();
    let second = store.snapshot();
    assert_eq!(first, second);
    assert_eq!(first.len(), 50);
}

#[test]
fn many_inserts_and_removes_keep_the_order() {
    let mut store = StudentStore::new();
    let mut expected: Vec<String> = Vec::new();
    for i in 0..200u32 {
        let id = format!("{:03}", (i * 7919) % 1000);
        let fresh = !expected.contains(&id);
        assert_eq!(store.insert_if_absent(record(&id, "n")), fresh);
        if fresh {
            expected.push(id);
        }
    }
    for i in 0..100u32 {
        let id = format!("{:03}", (i * 7919 * 2) % 1000);
        let held = expected.contains(&id);
        assert_eq!(store.remove(&id).is_some(), held);
        expected.retain(|other| *other != id);
    }
    expected.sort();
    assert_eq!(ids(&store), expected);
}
