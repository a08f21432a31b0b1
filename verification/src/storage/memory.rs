//! A store that keeps its tables in memory.
use vstd::prelude::*;

use crate::error::KvError;
use crate::pb::{pair_of, pair_views, Kvpair, Value};
use crate::storage::{Contents, Storage};

verus! {

/// One stored value with the table and key it belongs to.
struct Entry {
    table: String,
    key: String,
    value: Value,
}

spec fn key_of(e: Entry) -> (Seq<char>, Seq<char>) {
    (e.table@, e.key@)
}

/// No `(table, key)` occurs twice in `s`.
spec fn distinct(s: Seq<Entry>) -> bool {
    forall|i: int, j: int|
        0 <= i < s.len() && 0 <= j < s.len() && i != j ==> key_of(#[trigger] s[i]) != key_of(
            #[trigger] s[j],
        )
}

spec fn holds(s: Seq<Entry>, p: (Seq<char>, Seq<char>)) -> bool {
    exists|i: int| 0 <= i < s.len() && key_of(#[trigger] s[i]) == p
}

spec fn position(s: Seq<Entry>, p: (Seq<char>, Seq<char>)) -> int {
    choose|i: int| 0 <= i < s.len() && key_of(#[trigger] s[i]) == p
}

spec fn model(s: Seq<Entry>) -> Contents {
    Map::new(
        |p: (Seq<char>, Seq<char>)| holds(s, p),
        |p: (Seq<char>, Seq<char>)| s[position(s, p)].value@,
    )
}

proof fn lemma_model_at(s: Seq<Entry>, i: int)
    requires
        distinct(s),
        0 <= i < s.len(),
    ensures
        model(s).contains_key(key_of(s[i])),
        model(s)[key_of(s[i])] == s[i].value@,
{
    let p = key_of(s[i]);
    assert(holds(s, p));
    let j = position(s, p);
    assert(key_of(s[j]) == p);
}

proof fn lemma_model_absent(s: Seq<Entry>, p: (Seq<char>, Seq<char>))
    requires
        forall|i: int| 0 <= i < s.len() ==> key_of(#[trigger] s[i]) != p,
    ensures
        !model(s).contains_key(p),
{
}

/// Replacing the value at `i` (same key) updates the model at that key.
proof fn lemma_model_update(s: Seq<Entry>, i: int, e: Entry)
    requires
        distinct(s),
        0 <= i < s.len(),
        key_of(e) == key_of(s[i]),
    ensures
        distinct(s.update(i, e)),
        model(s.update(i, e)) == model(s).insert(key_of(e), e.value@),
{
    let t = s.update(i, e);
    assert(distinct(t)) by {
        assert forall|a: int, b: int|
            0 <= a < t.len() && 0 <= b < t.len() && a != b implies key_of(#[trigger] t[a])
            != key_of(#[trigger] t[b]) by {
            assert(key_of(t[a]) == key_of(s[a]));
            assert(key_of(t[b]) == key_of(s[b]));
        }
    }
    let m = model(s).insert(key_of(e), e.value@);
    assert forall|p: (Seq<char>, Seq<char>)| model(t).contains_key(p) <==> m.contains_key(p) by {
        if model(t).contains_key(p) {
            let j = position(t, p);
            assert(key_of(s[j]) == key_of(t[j]));
            if p != key_of(e) {
                lemma_model_at(s, j);
            }
        }
        if m.contains_key(p) && p != key_of(e) {
            let j = position(s, p);
            assert(key_of(t[j]) == key_of(s[j]));
            lemma_model_at(t, j);
        }
        if p == key_of(e) {
            lemma_model_at(t, i);
        }
    }
    assert forall|p: (Seq<char>, Seq<char>)| #[trigger]
        model(t).contains_key(p) implies model(t)[p] == m[p] by {
        if p == key_of(e) {
            lemma_model_at(t, i);
        } else {
            let j = position(t, p);
            assert(key_of(s[j]) == key_of(t[j]));
            lemma_model_at(t, j);
            lemma_model_at(s, j);
        }
    }
    assert(model(t) =~= m);
}

/// Appending an entry whose key is new adds that key to the model.
proof fn lemma_model_push(s: Seq<Entry>, e: Entry)
    requires
        distinct(s),
        !model(s).contains_key(key_of(e)),
    ensures
        distinct(s.push(e)),
        model(s.push(e)) == model(s).insert(key_of(e), e.value@),
{
    let t = s.push(e);
    let n = s.len() as int;
    assert forall|i: int| 0 <= i < s.len() implies key_of(#[trigger] s[i]) != key_of(e) by {
        if key_of(s[i]) == key_of(e) {
            lemma_model_at(s, i);
        }
    }
    assert(distinct(t)) by {
        assert forall|a: int, b: int|
            0 <= a < t.len() && 0 <= b < t.len() && a != b implies key_of(#[trigger] t[a])
            != key_of(#[trigger] t[b]) by {
            if a < n {
                assert(t[a] == s[a]);
            }
            if b < n {
                assert(t[b] == s[b]);
            }
        }
    }
    let m = model(s).insert(key_of(e), e.value@);
    assert forall|p: (Seq<char>, Seq<char>)| model(t).contains_key(p) <==> m.contains_key(p) by {
        if model(t).contains_key(p) && p != key_of(e) {
            let j = position(t, p);
            if j < n {
                assert(t[j] == s[j]);
                lemma_model_at(s, j);
            }
        }
        if m.contains_key(p) && p != key_of(e) {
            let j = position(s, p);
            assert(t[j] == s[j]);
            lemma_model_at(t, j);
        }
        if p == key_of(e) {
            assert(t[n] == e);
            lemma_model_at(t, n);
        }
    }
    assert forall|p: (Seq<char>, Seq<char>)| #[trigger]
        model(t).contains_key(p) implies model(t)[p] == m[p] by {
        if p == key_of(e) {
            assert(t[n] == e);
            lemma_model_at(t, n);
        } else {
            let j = position(t, p);
            if j < n {
                assert(t[j] == s[j]);
                lemma_model_at(t, j);
                lemma_model_at(s, j);
            }
        }
    }
    assert(model(t) =~= m);
}

/// Removing the entry at `i` removes its key from the model.
proof fn lemma_model_remove(s: Seq<Entry>, i: int)
    requires
        distinct(s),
        0 <= i < s.len(),
    ensures
        distinct(s.remove(i)),
        model(s.remove(i)) == model(s).remove(key_of(s[i])),
{
    let t = s.remove(i);
    let p0 = key_of(s[i]);
    assert forall|a: int| 0 <= a < t.len() implies #[trigger] t[a] == (if a < i {
        s[a]
    } else {
        s[a + 1]
    }) by {}
    assert(distinct(t)) by {
        assert forall|a: int, b: int|
            0 <= a < t.len() && 0 <= b < t.len() && a != b implies key_of(#[trigger] t[a])
            != key_of(#[trigger] t[b]) by {
            let a2 = if a < i { a } else { a + 1 };
            let b2 = if b < i { b } else { b + 1 };
            assert(t[a] == s[a2]);
            assert(t[b] == s[b2]);
        }
    }
    let m = model(s).remove(p0);
    assert forall|p: (Seq<char>, Seq<char>)| model(t).contains_key(p) <==> m.contains_key(p) by {
        if model(t).contains_key(p) {
            let j = position(t, p);
            let j2 = if j < i { j } else { j + 1 };
            assert(t[j] == s[j2]);
            lemma_model_at(s, j2);
        }
        if m.contains_key(p) {
            let j = position(s, p);
            assert(j != i);
            let j2 = if j < i { j } else { j - 1 };
            assert(t[j2] == s[j]);
            lemma_model_at(t, j2);
        }
    }
    assert forall|p: (Seq<char>, Seq<char>)| #[trigger]
        model(t).contains_key(p) implies model(t)[p] == m[p] by {
        let j = position(t, p);
        let j2 = if j < i { j } else { j + 1 };
        assert(t[j] == s[j2]);
        lemma_model_at(t, j);
        lemma_model_at(s, j2);
    }
    assert(model(t) =~= m);
}

/// A store that keeps every table in memory. Its operations never fail.
pub struct MemTable {
    entries: Vec<Entry>,
}

impl MemTable {
    /// An empty store.
    pub fn new() -> (r: Self)
        ensures
            r.well_formed(),
            r.infallible(),
            r.contents() == Contents::empty(),
    {
        let r = MemTable { entries: Vec::new() };
        assert(r.contents() =~= Contents::empty());
        r
    }

    /// The position of `(table, key)`, if stored.
    fn find(&self, table: &String, key: &String) -> (r: Option<usize>)
        requires
            distinct(self.entries@),
        ensures
            r matches Some(i) ==> i < self.entries@.len() && key_of(self.entries@[i as int]) == (
                table@,
                key@,
            ),
            r is None ==> forall|i: int|
                0 <= i < self.entries@.len() ==> key_of(#[trigger] self.entries@[i]) != (
                    table@,
                    key@,
                ),
    {
        let mut i: usize = 0;
        while i < self.entries.len()
            invariant
                i <= self.entries@.len(),
                forall|j: int|
                    0 <= j < i ==> key_of(#[trigger] self.entries@[j]) != (table@, key@),
            decreases self.entries@.len() - i,
        {
            if self.entries[i].table == *table && self.entries[i].key == *key {
                return Some(i);
            }
            i = i + 1;
        }
        None
    }
}

impl Storage for MemTable {
    closed spec fn contents(&self) -> Contents {
        model(self.entries@)
    }

    closed spec fn well_formed(&self) -> bool {
        distinct(self.entries@)
    }

    open spec fn infallible(&self) -> bool {
        true
    }

    fn get(&self, table: &str, key: &str) -> (r: Result<Option<Value>, KvError>) {
        let t = String::from_str(table);
        let k = String::from_str(key);
        match self.find(&t, &k) {
            Some(i) => {
                proof {
                    lemma_model_at(self.entries@, i as int);
                }
                Ok(Some(self.entries[i].value.clone()))
            },
            None => {
                proof {
                    lemma_model_absent(self.entries@, (table@, key@));
                }
                Ok(None)
            },
        }
    }

    fn set(&mut self, table: &str, key: String, value: Value) -> (r: Result<Option<Value>, KvError>) {
        let t = String::from_str(table);
        match self.find(&t, &key) {
            Some(i) => {
                proof {
                    lemma_model_at(self.entries@, i as int);
                }
                let previous = self.entries[i].value.clone();
                let e = Entry { table: t, key, value };
                proof {
                    lemma_model_update(self.entries@, i as int, e);
                }
                self.entries.set(i, e);
                Ok(Some(previous))
            },
            None => {
                proof {
                    lemma_model_absent(self.entries@, (table@, key@));
                }
                let e = Entry { table: t, key, value };
                proof {
                    lemma_model_push(self.entries@, e);
                }
                self.entries.push(e);
                Ok(None)
            },
        }
    }

    fn contains(&self, table: &str, key: &str) -> (r: Result<bool, KvError>) {
        let t = String::from_str(table);
        let k = String::from_str(key);
        match self.find(&t, &k) {
            Some(i) => {
                proof {
                    lemma_model_at(self.entries@, i as int);
                }
                Ok(true)
            },
            None => {
                proof {
                    lemma_model_absent(self.entries@, (table@, key@));
                }
                Ok(false)
            },
        }
    }

    fn del(&mut self, table: &str, key: &str) -> (r: Result<Option<Value>, KvError>) {
        let t = String::from_str(table);
        let k = String::from_str(key);
        match self.find(&t, &k) {
            Some(i) => {
                proof {
                    lemma_model_at(self.entries@, i as int);
                    lemma_model_remove(self.entries@, i as int);
                }
                let e = self.entries.remove(i);
                Ok(Some(e.value))
            },
            None => {
                proof {
                    lemma_model_absent(self.entries@, (table@, key@));
                    assert(model(self.entries@).remove((table@, key@)) =~= model(self.entries@));
                }
                Ok(None)
            },
        }
    }

    fn get_all(&self, table: &str) -> (r: Result<Vec<Kvpair>, KvError>) {
        let t = String::from_str(table);
        let ghost s = self.entries@;
        let mut out: Vec<Kvpair> = Vec::new();
        let mut i: usize = 0;
        while i < self.entries.len()
            invariant
                s == self.entries@,
                distinct(s),
                i <= s.len(),
                t@ == table@,
                forall|a: int|
                    0 <= a < out@.len() ==> exists|b: int|
                        0 <= b < i && key_of(#[trigger] s[b]) == (table@, out@[a]@.key) && (
                        #[trigger] out@[a])@ == pair_of(s[b].key@, s[b].value@),
                forall|b: int|
                    0 <= b < i && (#[trigger] s[b]).table@ == table@ ==> exists|a: int|
                        0 <= a < out@.len() && (#[trigger] out@[a])@.key == s[b].key@,
                forall|a1: int, a2: int|
                    0 <= a1 < out@.len() && 0 <= a2 < out@.len() && a1 != a2 ==> (#[trigger] out@[
                    a1])@.key != (#[trigger] out@[a2])@.key,
            decreases s.len() - i,
        {
            if self.entries[i].table == t {
                let p = Kvpair::from_parts(
                    self.entries[i].key.clone(),
                    self.entries[i].value.clone(),
                );
                let ghost before = out@;
                proof {
                    assert forall|a: int| 0 <= a < before.len() implies (#[trigger] before[a])@.key
                        != s[i as int].key@ by {
                        let b = choose|b: int|
                            0 <= b < i && key_of(#[trigger] s[b]) == (table@, before[a]@.key)
                                && before[a]@ == pair_of(s[b].key@, s[b].value@);
                        assert(key_of(s[b]) != key_of(s[i as int]));
                    }
                }
                out.push(p);
                proof {
                    assert(out@[before.len() as int] == p);
                    assert forall|a: int| 0 <= a < before.len() implies out@[a] == #[trigger] before[a] by {}
                    assert(key_of(s[i as int]) == (table@, out@[before.len() as int]@.key));
                }
            }
            i = i + 1;
        }
        proof {
            let pv = pair_views(out@);
            let c = model(s);
            assert forall|a: int| 0 <= a < pv.len() implies c.contains_key((table@, #[trigger] pv[a].key))
                && pv[a].value == Some(c[(table@, pv[a].key)]) by {
                assert(pv[a] == out@[a]@);
                let b = choose|b: int|
                    0 <= b < s.len() && key_of(#[trigger] s[b]) == (table@, out@[a]@.key) && out@[a]@
                        == pair_of(s[b].key@, s[b].value@);
                lemma_model_at(s, b);
            }
            assert forall|k: Seq<char>| c.contains_key((table@, k)) implies exists|a: int|
                0 <= a < pv.len() && #[trigger] pv[a].key == k by {
                let b = position(s, (table@, k));
                assert(key_of(s[b]) == (table@, k));
                let a = choose|a: int| 0 <= a < out@.len() && (#[trigger] out@[a])@.key == s[b].key@;
                assert(pv[a] == out@[a]@);
            }
            assert forall|a1: int, a2: int|
                0 <= a1 < pv.len() && 0 <= a2 < pv.len() && a1 != a2 implies #[trigger] pv[a1].key
                != #[trigger] pv[a2].key by {
                assert(pv[a1] == out@[a1]@);
                assert(pv[a2] == out@[a2]@);
            }
        }
        Ok(out)
    }
}

} // verus!
