use persist_cache::NodeState;
use persist_cache::PersistError;
use persist_cache::SqliteStorage;

#[test]
fn test_cached_items() {
    let mut storage = SqliteStorage::new();

    storage
        .update_cached_item("key1".to_string(), "val1".to_string())
        .unwrap();
    let item_value = storage.get_cached_item("key1".to_string()).unwrap();
    assert_eq!(item_value, Some("val1".to_string()));

    storage.delete_cached_item("key1".to_string()).unwrap();
    let item_value = storage.get_cached_item("key1".to_string()).unwrap();
    assert_eq!(item_value, None);
}

#[test]
fn set_then_get_returns_value() {
    let mut storage = SqliteStorage::new();
    storage
        .update_cached_item("a key".to_string(), "a value".to_string())
        .unwrap();
    assert_eq!(
        storage.get_cached_item("a key".to_string()).unwrap(),
        Some("a value".to_string())
    );
}

#[test]
fn delete_absent_key_is_noop() {
    let mut storage = SqliteStorage::new();
    storage.delete_cached_item("never_set".to_string()).unwrap();
    assert_eq!(storage.get_cached_item("never_set".to_string()).unwrap(), None);
}

#[test]
fn upsert_overwrites() {
    let mut storage = SqliteStorage::new();
    storage
        .update_cached_item("k".to_string(), "v1".to_string())
        .unwrap();
    storage
        .update_cached_item("k".to_string(), "v2".to_string())
        .unwrap();
    assert_eq!(
        storage.get_cached_item("k".to_string()).unwrap(),
        Some("v2".to_string())
    );
}

#[test]
fn distinct_keys_do_not_collide() {
    let mut storage = SqliteStorage::new();
    storage
        .update_cached_item("k1".to_string(), "v1".to_string())
        .unwrap();
    storage
        .update_cached_item("k2".to_string(), "v2".to_string())
        .unwrap();
    storage.delete_cached_item("k1".to_string()).unwrap();
    assert_eq!(storage.get_cached_item("k1".to_string()).unwrap(), None);
    assert_eq!(
        storage.get_cached_item("k2".to_string()).unwrap(),
        Some("v2".to_string())
    );
}

#[test]
fn empty_value_round_trips() {
    let mut storage = SqliteStorage::new();
    storage
        .update_cached_item("k".to_string(), String::new())
        .unwrap();
    assert_eq!(
        storage.get_cached_item("k".to_string()).unwrap(),
        Some(String::new())
    );
}

#[test]
fn node_state_round_trips() {
    let mut storage = SqliteStorage::new();
    assert_eq!(storage.get_node_state().unwrap(), None);
    let state = NodeState {
        id: "node-a".to_string(),
        block_height: 10,
        channels_balance_msat: 1234,
    };
    storage.set_node_state(&state).unwrap();
    assert_eq!(storage.get_node_state().unwrap(), Some(state));
}

#[test]
fn node_state_stored_as_json_text() {
    let mut storage = SqliteStorage::new();
    let state = NodeState {
        id: "node-a".to_string(),
        block_height: 10,
        channels_balance_msat: 1234,
    };
    storage.set_node_state(&state).unwrap();
    let raw = storage.get_cached_item("node_state".to_string()).unwrap();
    assert_eq!(
        raw,
        Some(r#"{"block_height":10,"channels_balance_msat":1234,"id":"node-a"}"#.to_string())
    );
}

#[test]
fn malformed_node_state_errs() {
    let mut storage = SqliteStorage::new();
    storage
        .update_cached_item("node_state".to_string(), "not json".to_string())
        .unwrap();
    assert_eq!(storage.get_node_state(), Err(PersistError::Serialization));
}

#[test]
fn backup_time_fresh_store_is_missing() {
    let storage = SqliteStorage::new();
    assert_eq!(storage.get_last_backup_time().unwrap(), None);
}

#[test]
fn backup_time_round_trips() {
    let mut storage = SqliteStorage::new();
    storage.set_last_backup_time(1700000000).unwrap();
    assert_eq!(storage.get_last_backup_time().unwrap(), Some(1700000000));
    let raw = storage
        .get_cached_item("last_backup_time".to_string())
        .unwrap();
    assert_eq!(raw, Some("1700000000".to_string()));
}

#[test]
fn backup_time_extremes_round_trip() {
    let mut storage = SqliteStorage::new();
    storage.set_last_backup_time(0).unwrap();
    assert_eq!(storage.get_last_backup_time().unwrap(), Some(0));
    storage.set_last_backup_time(u64::MAX).unwrap();
    assert_eq!(storage.get_last_backup_time().unwrap(), Some(u64::MAX));
    let raw = storage
        .get_cached_item("last_backup_time".to_string())
        .unwrap();
    assert_eq!(raw, Some("18446744073709551615".to_string()));
}

#[test]
fn malformed_backup_time_is_swallowed() {
    let mut storage = SqliteStorage::new();
    storage
        .update_cached_item("last_backup_time".to_string(), "not a number".to_string())
        .unwrap();
    assert_eq!(storage.get_last_backup_time().unwrap(), None);
}

#[test]
fn overflowing_backup_time_is_swallowed() {
    let mut storage = SqliteStorage::new();
    storage
        .update_cached_item(
            "last_backup_time".to_string(),
            "18446744073709551616".to_string(),
        )
        .unwrap();
    assert_eq!(storage.get_last_backup_time().unwrap(), None);
}

#[test]
fn signed_backup_time_is_swallowed() {
    let mut storage = SqliteStorage::new();
    storage
        .update_cached_item("last_backup_time".to_string(), "+5".to_string())
        .unwrap();
    assert_eq!(storage.get_last_backup_time().unwrap(), None);
}

#[test]
fn credentials_round_trip() {
    let mut storage = SqliteStorage::new();
    assert_eq!(storage.get_gl_credentials().unwrap(), None);
    storage.set_gl_credentials(vec![0xde, 0xad, 0xbe, 0xef]).unwrap();
    assert_eq!(
        storage.get_gl_credentials().unwrap(),
        Some(vec![0xde, 0xad, 0xbe, 0xef])
    );
    let raw = storage
        .get_cached_item("gl_credentials".to_string())
        .unwrap();
    assert_eq!(raw, Some("deadbeef".to_string()));
}

#[test]
fn empty_credentials_round_trip() {
    let mut storage = SqliteStorage::new();
    storage.set_gl_credentials(Vec::new()).unwrap();
    assert_eq!(storage.get_gl_credentials().unwrap(), Some(Vec::new()));
    let raw = storage
        .get_cached_item("gl_credentials".to_string())
        .unwrap();
    assert_eq!(raw, Some(String::new()));
}

#[test]
fn uppercase_credentials_decode() {
    let mut storage = SqliteStorage::new();
    storage
        .update_cached_item("gl_credentials".to_string(), "DEADBEEF".to_string())
        .unwrap();
    assert_eq!(
        storage.get_gl_credentials().unwrap(),
        Some(vec![0xde, 0xad, 0xbe, 0xef])
    );
}

#[test]
fn invalid_hex_credentials_err() {
    let mut storage = SqliteStorage::new();
    storage
        .update_cached_item("gl_credentials".to_string(), "xyz!".to_string())
        .unwrap();
    assert_eq!(storage.get_gl_credentials(), Err(PersistError::Encoding));
}

#[test]
fn odd_length_hex_credentials_err() {
    let mut storage = SqliteStorage::new();
    storage
        .update_cached_item("gl_credentials".to_string(), "abc".to_string())
        .unwrap();
    assert_eq!(storage.get_gl_credentials(), Err(PersistError::Encoding));
}

#[test]
fn static_backup_round_trips_in_order() {
    let mut storage = SqliteStorage::new();
    assert_eq!(storage.get_static_backup().unwrap(), None);
    let items = vec!["z".to_string(), "a".to_string(), "z".to_string()];
    storage.set_static_backup(items.clone()).unwrap();
    assert_eq!(storage.get_static_backup().unwrap(), Some(items));
}

#[test]
fn empty_static_backup_round_trips() {
    let mut storage = SqliteStorage::new();
    storage.set_static_backup(Vec::new()).unwrap();
    assert_eq!(storage.get_static_backup().unwrap(), Some(Vec::new()));
    let raw = storage
        .get_cached_item("static_backup".to_string())
        .unwrap();
    assert_eq!(raw, Some("[]".to_string()));
}

#[test]
fn static_backup_stored_as_json_array() {
    let mut storage = SqliteStorage::new();
    storage
        .set_static_backup(vec!["a".to_string(), "b".to_string()])
        .unwrap();
    let raw = storage
        .get_cached_item("static_backup".to_string())
        .unwrap();
    assert_eq!(raw, Some(r#"["a","b"]"#.to_string()));
}

#[test]
fn malformed_static_backup_errs() {
    let mut storage = SqliteStorage::new();
    storage
        .update_cached_item("static_backup".to_string(), "{broken".to_string())
        .unwrap();
    assert_eq!(storage.get_static_backup(), Err(PersistError::Serialization));
}

#[test]
fn typed_keys_do_not_interfere() {
    let mut storage = SqliteStorage::new();
    storage.set_last_backup_time(7).unwrap();
    storage.set_gl_credentials(vec![0x01]).unwrap();
    storage.set_static_backup(vec!["s".to_string()]).unwrap();
    assert_eq!(storage.get_last_backup_time().unwrap(), Some(7));
    assert_eq!(storage.get_gl_credentials().unwrap(), Some(vec![0x01]));
    assert_eq!(
        storage.get_static_backup().unwrap(),
        Some(vec!["s".to_string()])
    );
}
