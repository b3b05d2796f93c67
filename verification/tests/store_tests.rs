use resp_kv::commands::SetCmd;
use resp_kv::models::value::StoreValue;
use resp_kv::utils::config::Config;
use resp_kv::utils::config::Role;
use resp_kv::utils::context::Context;
use resp_kv::utils::store::create_store;

#[test]
fn store_insert_overwrites() {
    let mut store = create_store();
    store.insert("k".to_string(), StoreValue::from("first"));
    store.insert("k".to_string(), StoreValue::from("second"));
    let got = store.get("k").unwrap();
    assert_eq!(got.data, "second");
}

#[test]
fn store_get_missing_is_none() {
    let store = create_store();
    assert!(store.get("absent").is_none());
}

#[test]
fn store_remove_is_unconditional() {
    let mut store = create_store();
    store.remove("absent");
    store.insert("k".to_string(), StoreValue::from("v"));
    store.remove("k");
    assert!(store.get("k").is_none());
}

#[test]
fn store_keeps_other_keys() {
    let mut store = create_store();
    store.insert("a".to_string(), StoreValue::from("1"));
    store.insert("b".to_string(), StoreValue::from("2"));
    store.remove("a");
    assert!(store.get("a").is_none());
    assert_eq!(store.get("b").unwrap().data, "2");
}

#[test]
fn expiry_is_strictly_after_the_boundary() {
    let sv = StoreValue { data: "v".to_string(), expire_time: Some(100), created_at: 1000 };
    assert!(!sv.is_expired_at(1000));
    assert!(!sv.is_expired_at(1100));
    assert!(sv.is_expired_at(1101));
    // a clock reading before creation never counts as expired
    assert!(!sv.is_expired_at(0));
}

#[test]
fn no_ttl_never_expires() {
    let sv = StoreValue { data: "v".to_string(), expire_time: None, created_at: 0 };
    assert!(!sv.is_expired_at(u64::MAX));
    assert!(!sv.is_expired());
}

#[test]
fn store_value_equality_ignores_creation_time() {
    let a = StoreValue { data: "v".to_string(), expire_time: Some(5), created_at: 1 };
    let b = StoreValue { data: "v".to_string(), expire_time: Some(5), created_at: 99 };
    assert_eq!(a, b);
    let c = StoreValue { data: "v".to_string(), expire_time: None, created_at: 1 };
    assert!(a != c);
}

#[test]
fn store_value_to_string_is_the_payload() {
    let sv = StoreValue::from("payload".to_string());
    assert_eq!(sv.to_string(), "payload");
}

#[test]
fn get_duration_px_is_milliseconds() {
    assert_eq!(SetCmd::get_duration("px".to_string(), Some(&"1000".to_string())), Some(1000));
}

#[test]
fn get_duration_ex_is_seconds() {
    assert_eq!(SetCmd::get_duration("ex".to_string(), Some(&"2".to_string())), Some(2000));
}

#[test]
fn get_duration_is_case_insensitive() {
    assert_eq!(SetCmd::get_duration("EX".to_string(), Some(&"1".to_string())), Some(1000));
    assert_eq!(SetCmd::get_duration("Px".to_string(), Some(&"7".to_string())), Some(7));
}

#[test]
fn get_duration_accepts_plus_signed_count() {
    assert_eq!(SetCmd::get_duration("ex".to_string(), Some(&"+5".to_string())), Some(5000));
    assert_eq!(SetCmd::get_duration("px".to_string(), Some(&"+250".to_string())), Some(250));
}

#[test]
fn get_duration_rejects_bad_input() {
    assert_eq!(SetCmd::get_duration("px".to_string(), None), None);
    assert_eq!(SetCmd::get_duration("px".to_string(), Some(&"+".to_string())), None);
    assert_eq!(SetCmd::get_duration("px".to_string(), Some(&"++5".to_string())), None);
    assert_eq!(SetCmd::get_duration("px".to_string(), Some(&"12a".to_string())), None);
    assert_eq!(SetCmd::get_duration("px".to_string(), Some(&"".to_string())), None);
    assert_eq!(SetCmd::get_duration("nope".to_string(), Some(&"10".to_string())), None);
    // a count too large for the clock's type is malformed, hence dropped
    assert_eq!(
        SetCmd::get_duration("px".to_string(), Some(&"99999999999999999999999".to_string())),
        None
    );
}

#[test]
fn get_duration_ex_saturates() {
    let huge = u64::MAX.to_string();
    assert_eq!(SetCmd::get_duration("ex".to_string(), Some(&huge)), Some(u64::MAX));
}

#[test]
fn default_config_is_master_on_default_port() {
    let config = Config::default();
    assert_eq!(config.port, 6379);
    assert_eq!(config.role, Role::Master);
    assert!(config.replication.is_none());
    assert_eq!(config.master_replid, "8371b4fb1155b71f4a04d3e1bc3e18c4a990aeeb");
    assert_eq!(config.master_repl_offset, 0);
    assert_eq!(config.role.to_string(), "master");
    assert_eq!(Role::Slave.to_string(), "slave");
}

#[test]
fn default_context_has_empty_store() {
    let ctx = Context::default();
    assert!(ctx.store.get("anything").is_none());
}
