use bifrost::resp::RespType;
use bifrost::storage::db::Db;
use bifrost::storage::store::Store;

fn bulk(s: &str) -> RespType {
    RespType::BulkString(s.to_string())
}

fn error(s: &str) -> RespType {
    RespType::Error(s.to_string())
}

#[test]
fn test_basic_operations() {
    let db = Db::new();

    // Test SET and GET
    assert_eq!(
        db.set(
            "key1".to_string(),
            RespType::BulkString("value1".to_string())
        ),
        RespType::SimpleString("OK".to_string())
    );

    assert_eq!(
        db.get("key1"),
        Some(RespType::BulkString("value1".to_string()))
    );

    // Test DEL
    assert_eq!(db.del("key1"), RespType::Integer(1));
    assert_eq!(db.get("key1"), None);

    // Test EXISTS
    assert_eq!(db.exists_key("key1"), RespType::Integer(0));
    db.set(
        "key1".to_string(),
        RespType::BulkString("value1".to_string()),
    );
    assert_eq!(db.exists_key("key1"), RespType::Integer(1));
}

#[test]
fn test_integer_operations() {
    let db = Db::new();

    // Test INCR
    assert_eq!(db.incr("counter"), RespType::Integer(1));
    assert_eq!(db.incr("counter"), RespType::Integer(2));

    // Test DECR
    assert_eq!(db.decr("counter"), RespType::Integer(1));
    assert_eq!(db.decr("counter"), RespType::Integer(0));
}

#[test]
fn set_then_get_returns_the_value() {
    let mut store = Store::new();
    for (key, value) in [
        ("a", bulk("1")),
        ("", RespType::Integer(5)),
        ("a", RespType::Array(vec![bulk("x"), RespType::Null])),
        ("caf\u{e9}", RespType::SimpleString("s".to_string())),
    ] {
        assert_eq!(
            store.set(key.to_string(), value.clone()),
            RespType::SimpleString("OK".to_string())
        );
        assert_eq!(store.get(key), Some(value));
    }
    assert_eq!(store.get("missing"), None);
}

#[test]
fn del_counts_what_it_removed() {
    let mut store = Store::new();
    assert_eq!(store.del("k"), RespType::Integer(0));
    store.set("k".to_string(), bulk("v"));
    store.set("other".to_string(), bulk("w"));
    assert_eq!(store.exists_key("k"), RespType::Integer(1));
    assert_eq!(store.del("k"), RespType::Integer(1));
    assert_eq!(store.exists_key("k"), RespType::Integer(0));
    assert_eq!(store.get("k"), None);
    assert_eq!(store.get("other"), Some(bulk("w")));
    assert_eq!(store.del("k"), RespType::Integer(0));
}

#[test]
fn incr_counts_from_zero() {
    let mut store = Store::new();
    assert_eq!(store.incr("n"), RespType::Integer(1));
    assert_eq!(store.incr("n"), RespType::Integer(2));
    assert_eq!(store.get("n"), Some(RespType::Integer(2)));
}

#[test]
fn decr_counts_from_zero() {
    let mut store = Store::new();
    assert_eq!(store.decr("n"), RespType::Integer(-1));
    assert_eq!(store.decr("n"), RespType::Integer(-2));
    assert_eq!(store.get("n"), Some(RespType::Integer(-2)));
}

#[test]
fn counting_goes_on_from_a_stored_integer() {
    let mut store = Store::new();
    store.set("n".to_string(), RespType::Integer(41));
    assert_eq!(store.incr("n"), RespType::Integer(42));
    store.set("n".to_string(), RespType::Integer(-41));
    assert_eq!(store.decr("n"), RespType::Integer(-42));
}

#[test]
fn counting_on_text_is_an_error_and_changes_nothing() {
    let mut store = Store::new();
    for held in [
        bulk("10"),
        RespType::SimpleString("x".to_string()),
        RespType::Null,
        RespType::Array(vec![RespType::Integer(1)]),
        error("e"),
    ] {
        store.set("k".to_string(), held.clone());
        assert_eq!(store.incr("k"), error("ERR value is not an integer"));
        assert_eq!(store.get("k"), Some(held.clone()));
        assert_eq!(store.decr("k"), error("ERR value is not an integer"));
        assert_eq!(store.get("k"), Some(held));
    }
}

#[test]
fn counting_out_of_range_is_an_error_and_changes_nothing() {
    let mut store = Store::new();
    store.set("top".to_string(), RespType::Integer(i64::MAX));
    assert_eq!(
        store.incr("top"),
        error("ERR increment or decrement would overflow")
    );
    assert_eq!(store.get("top"), Some(RespType::Integer(i64::MAX)));
    assert_eq!(store.decr("top"), RespType::Integer(i64::MAX - 1));

    store.set("bottom".to_string(), RespType::Integer(i64::MIN));
    assert_eq!(
        store.decr("bottom"),
        error("ERR increment or decrement would overflow")
    );
    assert_eq!(store.get("bottom"), Some(RespType::Integer(i64::MIN)));
    assert_eq!(store.incr("bottom"), RespType::Integer(i64::MIN + 1));
}

#[test]
fn many_increments_lose_none() {
    let mut store = Store::new();
    for expected in 1..=1000i64 {
        assert_eq!(store.incr("n"), RespType::Integer(expected));
    }
    assert_eq!(store.get("n"), Some(RespType::Integer(1000)));
}

#[test]
fn shared_store_reports_type_errors() {
    let db = Db::new();
    db.set("k".to_string(), bulk("text"));
    assert_eq!(db.incr("k"), error("ERR value is not an integer"));
    assert_eq!(db.decr("k"), error("ERR value is not an integer"));
    assert_eq!(db.get("k"), Some(bulk("text")));
    assert_eq!(db.decr("fresh"), RespType::Integer(-1));
}

#[test]
fn clones_of_a_handle_share_one_store() {
    let db = Db::new();
    let other = db.clone();
    db.set("k".to_string(), bulk("v"));
    assert_eq!(other.get("k"), Some(bulk("v")));
    assert_eq!(other.del("k"), RespType::Integer(1));
    assert_eq!(db.exists_key("k"), RespType::Integer(0));
    let fresh = Db::default();
    assert_eq!(fresh.get("k"), None);
}

#[test]
fn reads_return_copies() {
    let db = Db::new();
    db.set("k".to_string(), RespType::Integer(1));
    let seen = db.get("k");
    db.incr("k");
    assert_eq!(seen, Some(RespType::Integer(1)));
    assert_eq!(db.get("k"), Some(RespType::Integer(2)));
}
