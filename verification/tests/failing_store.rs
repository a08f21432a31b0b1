use kv::storage::Contents;
use kv::{dispatch, CommandRequest, KvError, Kvpair, MemTable, Storage, Value};

/// A store whose writes of the key "broken" fail; everything else goes to a
/// `MemTable`.
struct BrokenKeyStore {
    inner: MemTable,
}

impl Storage for BrokenKeyStore {
    fn contents(&self) -> Contents {
        self.inner.contents()
    }

    fn well_formed(&self) -> bool {
        self.inner.well_formed()
    }

    fn infallible(&self) -> bool {
        false
    }

    fn get(&self, table: &str, key: &str) -> Result<Option<Value>, KvError> {
        self.inner.get(table, key)
    }

    fn set(&mut self, table: &str, key: String, value: Value) -> Result<Option<Value>, KvError> {
        if key == "broken" {
            Err(KvError::Internal("disk full".to_string()))
        } else {
            self.inner.set(table, key, value)
        }
    }

    fn contains(&self, table: &str, key: &str) -> Result<bool, KvError> {
        self.inner.contains(table, key)
    }

    fn del(&mut self, table: &str, key: &str) -> Result<Option<Value>, KvError> {
        self.inner.del(table, key)
    }

    fn get_all(&self, table: &str) -> Result<Vec<Kvpair>, KvError> {
        self.inner.get_all(table)
    }
}

#[test]
fn failed_hmset_keeps_the_writes_before_the_failing_pair() {
    let mut store = BrokenKeyStore { inner: MemTable::new() };
    let cmd = CommandRequest::new_hmset(
        "t",
        vec![
            Kvpair::new("a", 1.into()),
            Kvpair::new("broken", 2.into()),
            Kvpair::new("c", 3.into()),
        ],
    );
    let res = dispatch(cmd, &mut store);
    assert_eq!(res.status, 500);
    assert_eq!(res.message, "Internal error: disk full");
    assert!(res.pairs.is_empty());
    assert_eq!(store.inner.get("t", "a").unwrap(), Some(1.into()));
    assert_eq!(store.inner.get("t", "broken").unwrap(), None);
    assert_eq!(store.inner.get("t", "c").unwrap(), None);
}

#[test]
fn failed_hset_leaves_the_store_as_it_was() {
    let mut store = BrokenKeyStore { inner: MemTable::new() };
    let res = dispatch(CommandRequest::new_hset("t", "broken", 5.into()), &mut store);
    assert_eq!(res.status, 500);
    assert!(store.inner.get_all("t").unwrap().is_empty());
    let res = dispatch(CommandRequest::new_hset("t", "fine", 5.into()), &mut store);
    assert_eq!(res.status, 200);
    assert_eq!(store.inner.get("t", "fine").unwrap(), Some(5.into()));
}
