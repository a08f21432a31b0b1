use kv::error::KvError;
use kv::storage::rocksdb::{get_full_key, get_table_prefix, ivec_to_key, ivec_to_value, pair_from_entry};
use kv::text::push_decimal;
use kv::{Kvpair, MemTable, Storage, Value};

#[test]
fn memtable_set_get_del() {
    let mut store = MemTable::new();
    assert_eq!(store.get("t", "k").unwrap(), None);
    assert_eq!(store.set("t", "k".to_string(), 1.into()).unwrap(), None);
    assert_eq!(store.get("t", "k").unwrap(), Some(1.into()));
    assert_eq!(store.contains("t", "k").unwrap(), true);
    assert_eq!(store.contains("t2", "k").unwrap(), false);
    assert_eq!(store.set("t", "k".to_string(), 2.into()).unwrap(), Some(1.into()));
    assert_eq!(store.del("t", "k").unwrap(), Some(2.into()));
    assert_eq!(store.get("t", "k").unwrap(), None);
    assert_eq!(store.del("t", "k").unwrap(), None);
}

#[test]
fn memtable_get_all_lists_each_key_once() {
    let mut store = MemTable::new();
    store.set("t", "a".to_string(), 1.into()).unwrap();
    store.set("t", "b".to_string(), 2.into()).unwrap();
    store.set("u", "a".to_string(), 3.into()).unwrap();
    store.set("t", "a".to_string(), 4.into()).unwrap();
    let mut all = store.get_all("t").unwrap();
    all.sort_by(|x, y| x.partial_cmp(y).unwrap());
    assert_eq!(all, vec![Kvpair::new("a", 4.into()), Kvpair::new("b", 2.into())]);
}

#[test]
fn error_responses_carry_status_and_message() {
    let r = KvError::NotFound("x".to_string()).into_response();
    assert_eq!((r.status, r.message.as_str()), (404, "Not found: x"));
    let r = KvError::InvalidCommand("bad".to_string()).into_response();
    assert_eq!((r.status, r.message.as_str()), (400, "Cannot parse command: bad"));
    let r = KvError::Internal("oops".to_string()).into_response();
    assert_eq!((r.status, r.message.as_str()), (500, "Internal error: oops"));
    let r = KvError::FrameError.into_response();
    assert_eq!((r.status, r.message.as_str()), (500, "Frame is larger than max size"));
    let r = KvError::CertifcateParseError("ca", "cert").into_response();
    assert_eq!(r.message, "Parse cert failed: ca: ca, cert: cert");
    let r = KvError::ConvertError("v".to_string(), "i64").into_response();
    assert_eq!(r.message, "Cannot convert to i64");
    let r = KvError::StorageError("hget", "t".to_string(), "k".to_string(), "io".to_string())
        .into_response();
    assert_eq!(r.message, "Cannot process command hget with table: t, key: k. Error: io");
    let r = KvError::from(std::io::Error::new(std::io::ErrorKind::Other, "disk")).into_response();
    assert_eq!((r.status, r.message.as_str()), (500, "Failed to io"));
    assert!(r.values.is_empty() && r.pairs.is_empty());
}

#[test]
fn decimal_text() {
    for (n, text) in [(0u32, "0"), (7, "7"), (42, "42"), (1000, "1000"), (u32::MAX, "4294967295")] {
        let mut s = String::from("#");
        push_decimal(&mut s, n);
        assert_eq!(s, format!("#{}", text));
    }
}

#[test]
fn flat_keys() {
    assert_eq!(get_full_key("table", "key"), "table:key");
    assert_eq!(get_table_prefix("table"), "table:");
    assert_eq!(ivec_to_key(b"table:key"), "key");
    assert_eq!(ivec_to_key(b"table:key:rest"), "key");
    assert_eq!(ivec_to_key(b"t:"), "");
    assert_eq!(ivec_to_value(b"\x0a\x05hello"), "hello");
    let stored = get_full_key("score", "u1");
    assert_eq!(ivec_to_key(stored.as_bytes()), "u1");
    assert!(stored.starts_with(&get_table_prefix("score")));
}

#[test]
fn pairs_from_entries() {
    let p = pair_from_entry(Some((b"t:k".as_slice(), b"\x0a\x02hi".as_slice())));
    assert_eq!(p, Kvpair::new("k", Value::text("hi")));
    assert_eq!(pair_from_entry(None), Kvpair::default());
}
