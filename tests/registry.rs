use file_registry::hasher::file_key;
use file_registry::registry::{Contract, FileInfo, RegistryError, USER_FILES_LIMIT};
use file_registry::store::FileMap;
use near_sdk::store::IterableMap;

fn registry() -> Contract {
    Contract::new(FileMap { map: IterableMap::new(b"f".to_vec()) }).unwrap()
}

fn s(text: &str) -> String {
    text.to_string()
}

fn names(files: &[FileInfo]) -> Vec<String> {
    files.iter().map(|f| f.name.clone()).collect()
}

#[test]
fn key_is_base64_of_sha256() {
    assert_eq!(file_key("report.pdf"), "ZGbkUKFrd7hlxYKda2xW2fiSlWR1ZC2+uczENA/gGxU=");
    assert_eq!(file_key("notes.txt"), "45U45/J6e/V5zZuFoQPA8LhrYLeIU0KVU40DAanF3OY=");
    assert_eq!(file_key(""), "47DEQpj8HBSa+/TImW+5JCeuQeRkm5NMpJWZG3hSuFU=");
    assert_eq!(file_key("h\u{e9}llo"), "PEhZHY0JikU49eAT389AbpSOrE0yd7EL9hTildYGgXk=");
}

#[test]
fn key_is_deterministic() {
    let a = file_key("report.pdf");
    let b = file_key(&s("report.pdf"));
    assert_eq!(a, b);
    assert_eq!(a.len(), 44);
}

#[test]
fn distinct_names_give_distinct_keys() {
    assert_ne!(file_key("report.pdf"), file_key("report.pdf "));
    assert_ne!(file_key("a"), file_key("b"));
    assert_ne!(file_key("abc"), "abc");
}

#[test]
fn add_then_get_round_trip() {
    let mut c = registry();
    let k = c.add_file(s("notes.txt"), s("https://x/n"), s("alice.near"), 17);
    assert_eq!(k, file_key("notes.txt"));
    let f = c.get_file(k).unwrap();
    assert_eq!(f.name, "notes.txt");
    assert_eq!(f.url, "https://x/n");
    assert_eq!(f.owner, "alice.near");
    assert_eq!(f.timestamp, 17);
}

#[test]
fn get_file_unknown_key_is_absent() {
    let mut c = registry();
    assert!(c.get_file(s("no such key")).is_none());
    c.add_file(s("a"), s("u"), s("alice"), 1);
    assert!(c.get_file(s("a")).is_none());
}

#[test]
fn add_same_name_overwrites() {
    let mut c = registry();
    let k1 = c.add_file(s("notes.txt"), s("https://x/1"), s("alice"), 1);
    let k2 = c.add_file(s("notes.txt"), s("https://x/2"), s("alice"), 2);
    assert_eq!(k1, k2);
    let f = c.get_file(file_key("notes.txt")).unwrap();
    assert_eq!(f.url, "https://x/2");
    assert_eq!(f.timestamp, 2);
    assert_eq!(c.get_user_files(s("alice")).len(), 1);
}

#[test]
fn insert_file_stores_under_given_key() {
    let mut c = registry();
    let info = FileInfo { name: s("n"), url: s("u"), timestamp: 5, owner: s("bob") };
    c.insert_file(s("custom"), info);
    let f = c.get_file(s("custom")).unwrap();
    assert_eq!((f.name, f.url, f.timestamp, f.owner), (s("n"), s("u"), 5, s("bob")));
    assert!(c.get_file(file_key("n")).is_none());
}

#[test]
fn delete_by_other_is_refused() {
    let mut c = registry();
    let k = c.add_file(s("a.txt"), s("https://x/a"), s("alice"), 3);
    assert_eq!(c.delete_file(s("bob"), k.clone()), Err(RegistryError::OwnershipViolation));
    let f = c.get_file(k).unwrap();
    assert_eq!((f.name, f.url, f.timestamp, f.owner), (s("a.txt"), s("https://x/a"), 3, s("alice")));
}

#[test]
fn delete_missing_is_noop() {
    let mut c = registry();
    c.add_file(s("a.txt"), s("u"), s("alice"), 3);
    assert_eq!(c.delete_file(s("bob"), s("missing")), Ok(()));
    assert_eq!(c.delete_file(s("alice"), s("missing")), Ok(()));
    assert_eq!(names(&c.get_user_files(s("alice"))), vec![s("a.txt")]);
}

#[test]
fn delete_by_owner_removes() {
    let mut c = registry();
    let k = c.add_file(s("a.txt"), s("u"), s("alice"), 3);
    assert_eq!(c.delete_file(s("alice"), k.clone()), Ok(()));
    assert!(c.get_file(k.clone()).is_none());
    assert_eq!(c.delete_file(s("alice"), k), Ok(()));
}

#[test]
fn delete_moves_last_entry_into_place() {
    let mut c = registry();
    for n in ["f0", "f1", "f2", "f3"] {
        c.add_file(s(n), s("u"), s("x"), 0);
    }
    assert_eq!(c.delete_file(s("x"), file_key("f1")), Ok(()));
    assert_eq!(names(&c.get_user_files(s("x"))), vec![s("f0"), s("f3"), s("f2")]);
}

#[test]
fn user_files_capped_at_limit() {
    let mut c = registry();
    for i in 0..150 {
        c.add_file(format!("file{}", i), format!("https://x/{}", i), s("x"), i as u64);
    }
    let files = c.get_user_files(s("x"));
    assert_eq!(files.len(), 100);
    assert_eq!(USER_FILES_LIMIT, 100);
    for (i, f) in files.iter().enumerate() {
        assert_eq!(f.name, format!("file{}", i));
        assert_eq!(f.owner, "x");
    }
}

#[test]
fn user_files_filters_by_owner_in_order() {
    let mut c = registry();
    c.add_file(s("a"), s("u"), s("x"), 0);
    c.add_file(s("b"), s("u"), s("y"), 0);
    c.add_file(s("c"), s("u"), s("x"), 0);
    c.add_file(s("b"), s("u"), s("x"), 1);
    assert_eq!(names(&c.get_user_files(s("x"))), vec![s("a"), s("b"), s("c")]);
    assert!(c.get_user_files(s("y")).is_empty());
}

#[test]
fn user_files_empty_for_unknown_account() {
    let mut c = registry();
    assert!(c.get_user_files(s("y")).is_empty());
    c.add_file(s("a"), s("u"), s("x"), 0);
    assert!(c.get_user_files(s("y")).is_empty());
}

#[test]
fn shared_name_scenario() {
    let mut c = registry();
    let k1 = c.add_file(s("report.pdf"), s("https://x/1"), s("alice"), 1);
    let k2 = c.add_file(s("report.pdf"), s("https://x/2"), s("bob"), 2);
    assert_eq!(k1, k2);
    let f = c.get_file(k1.clone()).unwrap();
    assert_eq!(f.owner, "bob");
    assert_eq!(f.url, "https://x/2");
    assert_eq!(c.delete_file(s("alice"), k1.clone()), Err(RegistryError::OwnershipViolation));
    assert_eq!(c.delete_file(s("bob"), k1.clone()), Ok(()));
    assert!(c.get_file(k1).is_none());
}

#[test]
fn new_refuses_map_with_entries() {
    let mut map = IterableMap::new(b"g".to_vec());
    map.insert(s("k"), (s("n"), s("u"), 1, s("alice")));
    assert!(Contract::new(FileMap { map }).is_none());
}

#[test]
fn insert_file_replaces_existing_key() {
    let mut c = registry();
    c.insert_file(s("k"), FileInfo { name: s("a"), url: s("u1"), timestamp: 1, owner: s("x") });
    c.insert_file(s("k"), FileInfo { name: s("b"), url: s("u2"), timestamp: 2, owner: s("y") });
    assert_eq!(c.len(), 1);
    let f = c.get_file(s("k")).unwrap();
    assert_eq!((f.name, f.url, f.timestamp, f.owner), (s("b"), s("u2"), 2, s("y")));
}
