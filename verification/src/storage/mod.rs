//! What a store of tables promises to the command service.
use vstd::prelude::*;

use crate::error::KvError;
use crate::pb::{pair_views, Kvpair, PairView, Scalar, Value};

pub mod memory;
pub mod rocksdb;


verus! {

/// The contents of a store: the value of each key of each table, keyed by
/// `(table, key)`.
pub type Contents = Map<(Seq<char>, Seq<char>), Option<Scalar>>;

/// The value stored under `key` in `table`, if any.
pub open spec fn lookup(c: Contents, table: Seq<char>, key: Seq<char>) -> Option<Option<Scalar>> {
    if c.contains_key((table, key)) {
        Some(c[(table, key)])
    } else {
        None
    }
}

/// The model of an optional value.
pub open spec fn opt_view(o: Option<Value>) -> Option<Option<Scalar>> {
    match o {
        Some(v) => Some(v@),
        None => None,
    }
}

/// `pairs` lists each key of `table` in `c` exactly once, with its value.
pub open spec fn lists_table(c: Contents, table: Seq<char>, pairs: Seq<PairView>) -> bool {
    &&& forall|i: int, j: int|
        0 <= i < pairs.len() && 0 <= j < pairs.len() && i != j ==> #[trigger] pairs[i].key
            != #[trigger] pairs[j].key
    &&& forall|i: int|
        0 <= i < pairs.len() ==> c.contains_key((table, #[trigger] pairs[i].key))
            && pairs[i].value == Some(c[(table, pairs[i].key)])
    &&& forall|k: Seq<char>|
        c.contains_key((table, k)) ==> exists|i: int|
            0 <= i < pairs.len() && #[trigger] pairs[i].key == k
}

/// A store of tables, each a map from keys to values.
pub trait Storage {
    /// What the store holds.
    spec fn contents(&self) -> Contents;

    /// Whether the store's own invariant holds.
    spec fn well_formed(&self) -> bool;

    /// Whether every operation on this store succeeds.
    spec fn infallible(&self) -> bool;

    /// The value of `key` in `table`, if there is one.
    fn get(&self, table: &str, key: &str) -> (r: Result<Option<Value>, KvError>)
        requires
            self.well_formed(),
        ensures
            self.infallible() ==> r is Ok,
            r matches Ok(o) ==> opt_view(o) == lookup(self.contents(), table@, key@),
    ;

    /// Stores `value` under `key` in `table` and gives back the value it
    /// replaced. A write that fails leaves the store as it was.
    fn set(&mut self, table: &str, key: String, value: Value) -> (r: Result<Option<Value>, KvError>)
        requires
            old(self).well_formed(),
        ensures
            final(self).well_formed(),
            final(self).infallible() == old(self).infallible(),
            old(self).infallible() ==> r is Ok,
            r matches Ok(o) ==> {
                &&& opt_view(o) == lookup(old(self).contents(), table@, key@)
                &&& final(self).contents() == old(self).contents().insert((table@, key@), value@)
            },
            r is Err ==> final(self).contents() == old(self).contents(),
    ;

    /// Whether `table` has `key`.
    fn contains(&self, table: &str, key: &str) -> (r: Result<bool, KvError>)
        requires
            self.well_formed(),
        ensures
            self.infallible() ==> r is Ok,
            r matches Ok(b) ==> b == self.contents().contains_key((table@, key@)),
    ;

    /// Removes `key` from `table` and gives back the value it had. A removal
    /// that fails leaves the store as it was.
    fn del(&mut self, table: &str, key: &str) -> (r: Result<Option<Value>, KvError>)
        requires
            old(self).well_formed(),
        ensures
            final(self).well_formed(),
            final(self).infallible() == old(self).infallible(),
            old(self).infallible() ==> r is Ok,
            r matches Ok(o) ==> {
                &&& opt_view(o) == lookup(old(self).contents(), table@, key@)
                &&& final(self).contents() == old(self).contents().remove((table@, key@))
            },
            r is Err ==> final(self).contents() == old(self).contents(),
    ;

    /// Every pair of `table`.
    fn get_all(&self, table: &str) -> (r: Result<Vec<Kvpair>, KvError>)
        requires
            self.well_formed(),
        ensures
            self.infallible() ==> r is Ok,
            r matches Ok(v) ==> lists_table(self.contents(), table@, pair_views(v@)),
    ;
}

/// What a store's reads give back of its writes: after `set` of `value` under
/// `key` in `table`, reading that key gives `value` and every other key reads
/// as before; after `del`, the key reads as missing and every other key reads
/// as before.
pub proof fn law_read_after_write(
    c: Contents,
    table: Seq<char>,
    key: Seq<char>,
    value: Option<Scalar>,
    other_table: Seq<char>,
    other_key: Seq<char>,
)
    ensures
        lookup(c.insert((table, key), value), table, key) == Some(value),
        lookup(c.remove((table, key)), table, key) == None::<Option<Scalar>>,
        (other_table, other_key) != (table, key) ==> lookup(
            c.insert((table, key), value),
            other_table,
            other_key,
        ) == lookup(c, other_table, other_key),
        (other_table, other_key) != (table, key) ==> lookup(
            c.remove((table, key)),
            other_table,
            other_key,
        ) == lookup(c, other_table, other_key),
{
}

} // verus!
