//! How tables are laid out in a flat key space such as RocksDB's: the key of
//! `key` in `table` is `table:key`, and a table's keys share the prefix
//! `table:`.
use vstd::prelude::*;
use vstd::utf8::{decode_utf8, encode_utf8, valid_utf8};

use crate::pb::{pair_of, Kvpair, PairView, Scalar, Value};

verus! {

/// The flat key under which `key` of `table` is stored.
pub open spec fn full_key(table: Seq<char>, key: Seq<char>) -> Seq<char> {
    table + ":"@ + key
}

/// The prefix that every flat key of `table` starts with.
pub open spec fn table_prefix(table: Seq<char>) -> Seq<char> {
    table + ":"@
}

/// The flat key under which `key` of `table` is stored.
pub fn get_full_key(table: &str, key: &str) -> (r: String)
    ensures
        r@ == full_key(table@, key@),
{
    let mut r = String::from_str(table);
    r.append(":");
    r.append(key);
    r
}

/// The prefix that every flat key of `table` starts with.
pub fn get_table_prefix(table: &str) -> (r: String)
    ensures
        r@ == table_prefix(table@),
{
    let mut r = String::from_str(table);
    r.append(":");
    r
}

/// Calls `std::str::from_utf8`: the text the bytes encode, or `None` when
/// they are not valid UTF-8.
#[verifier::external_body]
fn utf8_text(bytes: &[u8]) -> (r: Option<&str>)
    ensures
        r is Some <==> valid_utf8(bytes@),
        r matches Some(s) ==> s@ == decode_utf8(bytes@),
{
    std::str::from_utf8(bytes).ok()
}

/// The position of the first ':' in `s` at or after `from`, or `s.len()`
/// when there is none.
pub open spec fn colon_at_or_after(s: Seq<char>, from: int) -> int
    decreases s.len() - from,
{
    if from >= s.len() {
        s.len() as int
    } else if s[from] == ':' {
        from
    } else {
        colon_at_or_after(s, from + 1)
    }
}

proof fn lemma_colon_at_or_after(s: Seq<char>, from: int)
    requires
        0 <= from <= s.len(),
    ensures
        from <= colon_at_or_after(s, from) <= s.len(),
        colon_at_or_after(s, from) < s.len() ==> s[colon_at_or_after(s, from)] == ':',
        forall|k: int| from <= k < colon_at_or_after(s, from) ==> s[k] != ':',
    decreases s.len() - from,
{
    if from < s.len() && s[from] != ':' {
        lemma_colon_at_or_after(s, from + 1);
    }
}

/// `s` has a ':'.
pub open spec fn has_colon(s: Seq<char>) -> bool {
    colon_at_or_after(s, 0) < s.len()
}

/// The second ':'-separated field of `s`: what lies between its first ':'
/// and the next ':' (or the end).
pub open spec fn second_field(s: Seq<char>) -> Seq<char> {
    let first = colon_at_or_after(s, 0);
    s.subrange(first + 1, colon_at_or_after(s, first + 1))
}

/// The first position at or after `from` in `s` that holds ':', or `s.len()`.
fn find_colon(s: &str, len: usize, from: usize) -> (r: usize)
    requires
        len == s@.len(),
        from <= len,
    ensures
        r == colon_at_or_after(s@, from as int),
{
    let mut i = from;
    while i < len
        invariant
            from <= i <= len,
            len == s@.len(),
            colon_at_or_after(s@, from as int) == colon_at_or_after(s@, i as int),
        decreases len - i,
    {
        if s.get_char(i) == ':' {
            return i;
        }
        i = i + 1;
    }
    i
}

/// The key part of a flat key `table:key` read back from the store: the
/// second ':'-separated field of its text.
pub fn ivec_to_key(ivec: &[u8]) -> (r: &str)
    requires
        valid_utf8(ivec@),
        has_colon(decode_utf8(ivec@)),
    ensures
        r@ == second_field(decode_utf8(ivec@)),
{
    let s = utf8_text(ivec).unwrap();
    let len = s.unicode_len();
    let first = find_colon(s, len, 0);
    let end = find_colon(s, len, first + 1);
    proof {
        lemma_colon_at_or_after(s@, 0);
        lemma_colon_at_or_after(s@, first + 1);
    }
    s.substring_char(first + 1, end)
}

/// A stored value read back from the store: the text of its bytes after the
/// first two.
pub fn ivec_to_value(ivec: &[u8]) -> (r: &str)
    requires
        ivec@.len() >= 2,
        valid_utf8(ivec@.subrange(2, ivec@.len() as int)),
    ensures
        r@ == decode_utf8(ivec@.subrange(2, ivec@.len() as int)),
{
    let rest = vstd::slice::slice_subrange(ivec, 2, ivec.len());
    utf8_text(rest).unwrap()
}

/// The pair that a key-value entry read from the store stands for; the empty
/// pair where the read failed.
pub open spec fn entry_pair(entry: Option<(Seq<u8>, Seq<u8>)>) -> PairView {
    match entry {
        Some((k, v)) => pair_of(
            second_field(decode_utf8(k)),
            Some(Scalar::Text(decode_utf8(v.subrange(2, v.len() as int)))),
        ),
        None => PairView { key: Seq::empty(), value: None },
    }
}

/// The pair of a key-value entry read from the store (`None` where the read
/// failed).
pub fn pair_from_entry(entry: Option<(&[u8], &[u8])>) -> (r: Kvpair)
    requires
        entry matches Some((k, v)) ==> {
            &&& valid_utf8(k@)
            &&& has_colon(decode_utf8(k@))
            &&& v@.len() >= 2
            &&& valid_utf8(v@.subrange(2, v@.len() as int))
        },
    ensures
        r@ == entry_pair(
            match entry {
                Some((k, v)) => Some((k@, v@)),
                None => None,
            },
        ),
{
    match entry {
        Some((k, v)) => Kvpair::new(ivec_to_key(k), Value::text(ivec_to_value(v))),
        None => Kvpair::default(),
    }
}

/// `s` has no ':'.
pub open spec fn colon_free(s: Seq<char>) -> bool {
    forall|i: int| 0 <= i < s.len() ==> s[i] != ':'
}

/// Every flat key of a table starts with the table's prefix, and the key part
/// read back from a flat key's UTF-8 bytes (what `ivec_to_key` is given) is
/// the key it was made from, when neither the table name nor the key holds a
/// ':'.
pub proof fn law_key_round_trip(table: Seq<char>, key: Seq<char>)
    requires
        colon_free(table),
        colon_free(key),
    ensures
        full_key(table, key) == table_prefix(table) + key,
        has_colon(full_key(table, key)),
        second_field(full_key(table, key)) == key,
        valid_utf8(encode_utf8(full_key(table, key))),
        decode_utf8(encode_utf8(full_key(table, key))) == full_key(table, key),
{
    vstd::utf8::encode_utf8_valid_utf8(full_key(table, key));
    vstd::utf8::encode_utf8_decode_utf8(full_key(table, key));
    reveal_strlit(":");
    let s = full_key(table, key);
    let n = table.len() as int;
    assert(s =~= table + seq![':'] + key);
    assert(s[n] == ':');
    assert forall|i: int| 0 <= i < n implies s[i] != ':' by {
        assert(s[i] == table[i]);
    }
    assert forall|from: int| 0 <= from <= n implies colon_at_or_after(s, from) == n by {
        lemma_colon_after_table(s, from, n);
    }
    assert forall|from: int| n + 1 <= from <= s.len() implies colon_at_or_after(s, from) == s.len() by {
        assert forall|i: int| from <= i < s.len() implies s[i] != ':' by {
            assert(s[i] == key[i - n - 1]);
        }
        lemma_no_colon_from(s, from);
    }
    assert(s.subrange(n + 1, s.len() as int) =~= key);
}

/// The pair read back from the entry stored under the flat key of `table`
/// and `key` has `key` as its key, whatever the stored bytes, when neither
/// the table name nor the key holds a ':'.
pub proof fn law_pair_key_round_trip(table: Seq<char>, key: Seq<char>, stored: Seq<u8>)
    requires
        colon_free(table),
        colon_free(key),
    ensures
        entry_pair(Some((encode_utf8(full_key(table, key)), stored))).key == key,
{
    law_key_round_trip(table, key);
}

proof fn lemma_colon_after_table(s: Seq<char>, from: int, n: int)
    requires
        0 <= from <= n < s.len(),
        s[n] == ':',
        forall|i: int| 0 <= i < n ==> s[i] != ':',
    ensures
        colon_at_or_after(s, from) == n,
    decreases n - from,
{
    if from < n {
        lemma_colon_after_table(s, from + 1, n);
    }
}

proof fn lemma_no_colon_from(s: Seq<char>, from: int)
    requires
        0 <= from <= s.len(),
        forall|i: int| from <= i < s.len() ==> s[i] != ':',
    ensures
        colon_at_or_after(s, from) == s.len(),
    decreases s.len() - from,
{
    if from < s.len() {
        lemma_no_colon_from(s, from + 1);
    }
}

} // verus!
