use pinhole::state::{StateMap, StateValue, StorageScope};
use pinhole::storage::{
    hex_text, load_stored, sanitize_origin, storage_file_name, stored_entries, StorageManager,
    StoredValue,
};

fn manager(origin: &str) -> StorageManager {
    StorageManager::new_with_dir(origin.to_string(), "/tmp/pinhole".to_string(), Vec::new())
}

#[test]
fn test_storage_scopes() {
    let mut manager = manager("test");

    manager.store(
        StorageScope::Persistent,
        "p_key".to_string(),
        StateValue::String("p_value".to_string()),
    );
    manager.store(
        StorageScope::Session,
        "s_key".to_string(),
        StateValue::String("s_value".to_string()),
    );
    manager.store(
        StorageScope::Local,
        "l_key".to_string(),
        StateValue::String("l_value".to_string()),
    );

    assert_eq!(
        manager
            .get(StorageScope::Persistent, "p_key")
            .unwrap()
            .string(),
        "p_value"
    );
    assert_eq!(
        manager.get(StorageScope::Session, "s_key").unwrap().string(),
        "s_value"
    );
    assert_eq!(
        manager.get(StorageScope::Local, "l_key").unwrap().string(),
        "l_value"
    );

    manager.navigate_to("route1".to_string());
    manager.store(
        StorageScope::Local,
        "l_key".to_string(),
        StateValue::String("l_value".to_string()),
    );
    assert_eq!(
        manager.get(StorageScope::Local, "l_key").unwrap().string(),
        "l_value"
    );

    manager.navigate_to("route2".to_string());
    assert!(manager.get(StorageScope::Local, "l_key").is_none());
}

#[test]
fn test_origin_sanitisation() {
    let test_cases = vec![
        ("../../../etc/passwd", ".._.._.._etc_passwd"),
        ("test@example.com", "test_example.com"),
        ("test:8080", "test_8080"),
        ("test/path", "test_path"),
        ("test\\path", "test_path"),
        ("normal-origin.com", "normal-origin.com"),
    ];

    for (input, expected) in test_cases {
        let sanitised = sanitize_origin(input);
        assert_eq!(sanitised, expected, "Failed for input: {}", input);
    }
}

#[test]
fn non_ascii_letters_are_replaced() {
    assert_eq!(sanitize_origin("café"), "caf_");
    assert_eq!(sanitize_origin(""), "");
}

#[test]
fn store_reports_when_file_must_be_rewritten() {
    let mut m = manager("o");
    assert!(m.store(StorageScope::Persistent, "k".to_string(), StateValue::Boolean(true)));
    assert!(!m.store(StorageScope::Session, "k".to_string(), StateValue::Boolean(true)));
    assert!(!m.store(StorageScope::Local, "k".to_string(), StateValue::Boolean(true)));
    assert!(m.clear_all_storage());
    assert!(m.get(StorageScope::Persistent, "k").is_none());
    assert!(m.get(StorageScope::Session, "k").is_none());
}

#[test]
fn local_wins_then_session_then_persistent() {
    let mut m = manager("o");
    m.store(StorageScope::Persistent, "a".to_string(), StateValue::String("p".to_string()));
    m.store(StorageScope::Persistent, "b".to_string(), StateValue::String("p".to_string()));
    m.store(StorageScope::Persistent, "c".to_string(), StateValue::String("p".to_string()));
    m.store(StorageScope::Session, "b".to_string(), StateValue::String("s".to_string()));
    m.store(StorageScope::Session, "c".to_string(), StateValue::String("s".to_string()));
    m.store(StorageScope::Local, "c".to_string(), StateValue::String("l".to_string()));
    let all: StateMap = m.get_all_storage();
    assert_eq!(all.len(), 3);
    assert_eq!(all.get("a").unwrap().string(), "p");
    assert_eq!(all.get("b").unwrap().string(), "s");
    assert_eq!(all.get("c").unwrap().string(), "l");
    assert!(all.get("d").is_none());
}

#[test]
fn navigating_to_same_route_keeps_local() {
    let mut m = manager("o");
    m.navigate_to("/a".to_string());
    m.store(StorageScope::Local, "k".to_string(), StateValue::Null);
    m.navigate_to("/a".to_string());
    assert!(m.get(StorageScope::Local, "k").unwrap().is_null());
    m.navigate_to("/b".to_string());
    assert!(m.get(StorageScope::Local, "k").is_none());
    m.store(StorageScope::Session, "s".to_string(), StateValue::Empty);
    m.clear_session_storage();
    assert!(m.get(StorageScope::Session, "s").is_none());
    m.store(StorageScope::Local, "l".to_string(), StateValue::Empty);
    m.clear_local_storage();
    assert!(m.get(StorageScope::Local, "l").is_none());
}

#[test]
fn persistent_store_survives_restart() {
    let mut m = manager("example.com:443");
    m.store(
        StorageScope::Persistent,
        "saved_email".to_string(),
        StateValue::String("x@y".to_string()),
    );
    let written = m.persistent_entries();
    let reopened = StorageManager::new_with_dir(
        "example.com:443".to_string(),
        "/tmp/pinhole".to_string(),
        written,
    );
    assert_eq!(
        reopened
            .get(StorageScope::Persistent, "saved_email")
            .unwrap()
            .as_string(),
        Some("x@y")
    );
    assert_eq!(reopened.storage_dir(), "/tmp/pinhole");
}

#[test]
fn loading_skips_unsupported_values() {
    let entries = vec![
        ("n".to_string(), StoredValue::Null),
        ("b".to_string(), StoredValue::Bool(false)),
        ("t".to_string(), StoredValue::Text("v".to_string())),
        ("x".to_string(), StoredValue::Unsupported),
    ];
    let m = load_stored(&entries);
    assert_eq!(m.len(), 3);
    assert!(m.get("n").unwrap().is_empty());
    assert_eq!(m.get("b").unwrap().as_boolean(), Some(false));
    assert_eq!(m.get("t").unwrap().string(), "v");
    assert!(m.get("x").is_none());
}

#[test]
fn null_is_written_as_json_null() {
    let mut m = StateMap::new();
    m.insert("k".to_string(), StateValue::Null);
    let entries = stored_entries(&m);
    assert_eq!(entries.len(), 1);
    assert!(matches!(entries[0].1, StoredValue::Null));
    let back = load_stored(&entries);
    assert!(back.get("k").unwrap().is_empty());
}

#[test]
fn colliding_sanitised_origins_get_distinct_files() {
    assert_eq!(sanitize_origin("a@b.com"), "a_b.com");
    assert_eq!(sanitize_origin("a:b.com"), "a_b.com");
    let f1 = storage_file_name("a@b.com");
    let f2 = storage_file_name("a:b.com");
    assert_ne!(f1, f2);
    assert!(f1.starts_with("a_b.com-"));
    assert!(f1.ends_with(".json"));
    assert_eq!(f1.len(), "a_b.com-".len() + 64 + ".json".len());
    assert_eq!(manager("a@b.com").persistent_file_name(), f1);
}

#[test]
fn file_name_carries_sha256_of_origin() {
    assert_eq!(
        storage_file_name("abc"),
        "abc-ba7816bf8f01cfea414140de5dae2223b00361a396177a9cb410ff61f20015ad.json"
    );
}

#[test]
fn hex_is_two_lower_case_digits_per_byte() {
    assert_eq!(hex_text(&vec![0x00, 0x0f, 0xa0, 0xff]), "000fa0ff");
    assert_eq!(hex_text(&Vec::new()), "");
}

#[test]
fn test_empty_and_null() {
    let empty = StateValue::Empty;
    let null = StateValue::Null;

    assert!(empty.is_empty());
    assert!(!empty.is_null());
    assert!(!null.is_empty());
    assert!(null.is_null());
}

#[test]
fn test_boolean_accessors() {
    let val = StateValue::Boolean(true);
    assert_eq!(val.boolean(), true);
    assert_eq!(val.as_boolean(), Some(true));

    let val = StateValue::String("test".to_string());
    assert_eq!(val.boolean(), false);
    assert_eq!(val.as_boolean(), None);
}

#[test]
fn test_string_accessors() {
    let val = StateValue::String("hello".to_string());
    assert_eq!(val.string(), "hello");
    assert_eq!(val.as_string(), Some("hello"));

    let val = StateValue::Boolean(true);
    assert_eq!(val.string(), "");
    assert_eq!(val.as_string(), None);
}

#[test]
fn written_entries_hold_exactly_the_persistent_keys() {
    let mut m = manager("o");
    m.store(StorageScope::Persistent, "a".to_string(), StateValue::Empty);
    m.store(StorageScope::Persistent, "b".to_string(), StateValue::Boolean(true));
    m.store(StorageScope::Persistent, "a".to_string(), StateValue::String("x".to_string()));
    m.store(StorageScope::Session, "s".to_string(), StateValue::Null);
    let entries = m.persistent_entries();
    assert_eq!(entries.len(), 2);
    assert!(entries.iter().all(|(_, v)| !matches!(v, StoredValue::Unsupported)));
    let mut keys: Vec<&str> = entries.iter().map(|(k, _)| k.as_str()).collect();
    keys.sort();
    assert_eq!(keys, vec!["a", "b"]);
}
