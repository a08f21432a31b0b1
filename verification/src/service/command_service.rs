//! How each command is carried out against a store.
use vstd::prelude::*;

use crate::error::{error_response, KvError};
use crate::pb::{
    pair_of, pair_views, pairs_response, texts, value_views, values_response, CommandResponse,
    Hget, Hgetall, Hmget, Hmset, Hset, Kvpair, PairView, ResponseView, Scalar, Value,
    STATUS_BAD_REQUEST, STATUS_NOT_FOUND, STATUS_OK,
};
use crate::storage::{lists_table, lookup, opt_view, Contents, Storage};
use crate::text::{debug_quoted, debug_text};

verus! {

/// A stored value, or the empty value when there is none.
pub open spec fn or_empty(o: Option<Option<Scalar>>) -> Option<Scalar> {
    match o {
        Some(v) => v,
        None => None,
    }
}

/// `r` answers an error that the store reported.
pub open spec fn failed(r: ResponseView) -> bool {
    exists|e: KvError| r == error_response(e)
}

/// The text after "Not found: " when a key is missing.
pub open spec fn missing_key_text(table: Seq<char>, key: Seq<char>) -> Seq<char> {
    "table: "@ + table + ", key: "@ + key
}

/// The model of the answer to reading a key that `table` lacks.
pub open spec fn not_found_answer(table: Seq<char>, key: Seq<char>) -> ResponseView {
    ResponseView {
        status: STATUS_NOT_FOUND,
        message: "Not found: "@ + missing_key_text(table, key),
        values: Seq::empty(),
        pairs: Seq::empty(),
    }
}

/// The model of the answer to reading `key` of `table`.
pub open spec fn hget_answer(c: Contents, table: Seq<char>, key: Seq<char>) -> ResponseView {
    match lookup(c, table, key) {
        Some(v) => values_response(seq![v]),
        None => not_found_answer(table, key),
    }
}

/// The model of the answer to reading `key` of `table`, given what the store
/// gave back.
pub open spec fn get_answer(table: Seq<char>, key: Seq<char>, res: Result<Option<Value>, KvError>) -> ResponseView {
    match res {
        Ok(Some(v)) => values_response(seq![v@]),
        Ok(None) => not_found_answer(table, key),
        Err(e) => error_response(e),
    }
}

/// The model of the answer to reading all of a table, given what the store
/// gave back.
pub open spec fn get_all_answer(res: Result<Vec<Kvpair>, KvError>) -> ResponseView {
    match res {
        Ok(ps) => pairs_response(pair_views(ps@)),
        Err(e) => error_response(e),
    }
}

/// The model of the answer to writing a pair, given what the store gave back
/// (the value replaced, if any).
pub open spec fn set_answer(res: Result<Option<Value>, KvError>) -> ResponseView {
    match res {
        Ok(o) => values_response(seq![or_empty(opt_view(o))]),
        Err(e) => error_response(e),
    }
}

/// Answers a read of `key` of `table` from what the store gave back: the
/// value, "not found", or the store's error.
pub fn answer_get(table: &str, key: &str, res: Result<Option<Value>, KvError>) -> (r: CommandResponse)
    ensures
        r@ == get_answer(table@, key@, res),
{
    match res {
        Ok(Some(v)) => CommandResponse::from_value(v),
        Ok(None) => {
            let mut text = String::from_str("table: ");
            text.append(table);
            text.append(", key: ");
            text.append(key);
            let r = KvError::NotFound(text).into_response();
            assert(r@.message =~= "Not found: "@ + missing_key_text(table@, key@));
            r
        },
        Err(e) => e.into_response(),
    }
}

/// Answers a read of a whole table from what the store gave back: the pairs,
/// or the store's error.
pub fn answer_get_all(res: Result<Vec<Kvpair>, KvError>) -> (r: CommandResponse)
    ensures
        r@ == get_all_answer(res),
{
    match res {
        Ok(v) => CommandResponse::from_pairs(v),
        Err(e) => e.into_response(),
    }
}

/// Answers a write from what the store gave back: the value replaced (the
/// empty value when there was none), or the store's error.
pub fn answer_set(res: Result<Option<Value>, KvError>) -> (r: CommandResponse)
    ensures
        r@ == set_answer(res),
{
    match res {
        Ok(Some(old)) => CommandResponse::from_value(old),
        Ok(None) => CommandResponse::from_value(Value::default()),
        Err(e) => e.into_response(),
    }
}

/// One read of a multi-key read: a value read is added to `values` (the
/// empty value for a missing key); the store's error ends the command with
/// its response.
pub fn read_step(values: &mut Vec<Value>, res: Result<Option<Value>, KvError>) -> (r: Option<CommandResponse>)
    ensures
        match res {
            Ok(o) => r is None && value_views(final(values)@) == value_views(old(values)@).push(or_empty(opt_view(o))),
            Err(e) => (r matches Some(x) && x@ == error_response(e)) && final(values)@ == old(values)@,
        },
{
    match res {
        Ok(Some(v)) => {
            values.push(v);
            assert(value_views(values@) =~= value_views(old(values)@).push(or_empty(opt_view(res->Ok_0))));
            None
        },
        Ok(None) => {
            values.push(Value::default());
            assert(value_views(values@) =~= value_views(old(values)@).push(None));
            None
        },
        Err(e) => Some(e.into_response()),
    }
}

/// One write of a multi-key write: the pair of `key` with the value it
/// replaced (the empty value when there was none) is added to `answered`; the
/// store's error ends the command with its response.
pub fn write_step(answered: &mut Vec<Kvpair>, key: String, res: Result<Option<Value>, KvError>) -> (r: Option<CommandResponse>)
    ensures
        match res {
            Ok(o) => r is None && pair_views(final(answered)@) == pair_views(old(answered)@).push(pair_of(key@, or_empty(opt_view(o)))),
            Err(e) => (r matches Some(x) && x@ == error_response(e)) && final(answered)@ == old(answered)@,
        },
{
    match res {
        Ok(Some(o)) => {
            answered.push(Kvpair::from_parts(key, o));
            assert(pair_views(answered@) =~= pair_views(old(answered)@).push(pair_of(key@, or_empty(opt_view(res->Ok_0)))));
            None
        },
        Ok(None) => {
            answered.push(Kvpair::from_parts(key, Value::default()));
            assert(pair_views(answered@) =~= pair_views(old(answered)@).push(pair_of(key@, None)));
            None
        },
        Err(e) => Some(e.into_response()),
    }
}

/// A response that answers an error is never a success.
pub proof fn lemma_failed_is_not_ok(r: ResponseView)
    requires
        failed(r),
    ensures
        r.status != STATUS_OK,
{
    let e = choose|e: KvError| r == error_response(e);
    assert(r == error_response(e));
}



/// `r` correctly answers reading all of `table`: every pair, once each, in
/// some order.
pub open spec fn hgetall_answers(c: Contents, table: Seq<char>, r: ResponseView) -> bool {
    &&& r.status == STATUS_OK
    &&& r.message == Seq::<char>::empty()
    &&& r.values == Seq::<Option<Scalar>>::empty()
    &&& lists_table(c, table, r.pairs)
}

/// The values that reading `keys` of `table` gives, in order; a missing key
/// gives the empty value.
pub open spec fn hmget_values(c: Contents, table: Seq<char>, keys: Seq<Seq<char>>) -> Seq<
    Option<Scalar>,
> {
    keys.map_values(|k: Seq<char>| or_empty(lookup(c, table, k)))
}

/// The value that writing `p` stores: the empty value when `p` has none.
pub open spec fn written(p: PairView) -> Option<Scalar> {
    or_empty(p.value)
}

/// The model of writing `p` into `table`: the new contents and the pair
/// answered (the key with the value it had before).
pub open spec fn hset_step(c: Contents, table: Seq<char>, p: PairView) -> (Contents, PairView) {
    (
        c.insert((table, p.key), written(p)),
        pair_of(p.key, or_empty(lookup(c, table, p.key))),
    )
}

/// The model of writing `pairs` into `table` one after another: the final
/// contents and the answered pairs.
pub open spec fn hmset_run(c: Contents, table: Seq<char>, pairs: Seq<PairView>) -> (
    Contents,
    Seq<PairView>,
)
    decreases pairs.len(),
{
    if pairs.len() == 0 {
        (c, Seq::empty())
    } else {
        let (c1, out) = hmset_run(c, table, pairs.drop_last());
        let (c2, answered) = hset_step(c1, table, pairs.last());
        (c2, out.push(answered))
    }
}

/// The message that answers an `Hset` without a pair.
pub open spec fn hset_without_pair_message(table: Seq<char>) -> Seq<char> {
    "Cannot parse command: "@ + "Hset { table: "@ + debug_text(table) + ", pair: None }"@
}

/// A command that the service carries out against a store.
pub trait CommandService: Sized {
    /// Serving this command on a store holding `before` may leave it holding
    /// `after` and answer `r`.
    spec fn serves(&self, before: Contents, after: Contents, r: ResponseView) -> bool;

    /// Serving this command on a store holding `before` may fail with the
    /// store's error answered as `r`, leaving the store holding `after`.
    spec fn fails(&self, before: Contents, after: Contents, r: ResponseView) -> bool;

    /// The command only reads the store.
    spec fn reads_only(&self) -> bool;

    /// The command is answered without calling the store.
    spec fn answered_alone(&self) -> bool;

    /// Carries out the command. Whatever the store gives back, the command is
    /// either served or fails with the store's error; a store that never
    /// fails always gets the served answer.
    fn execute<S: Storage>(self, store: &mut S) -> (r: CommandResponse)
        requires
            old(store).well_formed(),
        ensures
            final(store).well_formed(),
            final(store).infallible() == old(store).infallible(),
            self.serves(old(store).contents(), final(store).contents(), r@) || self.fails(
                old(store).contents(),
                final(store).contents(),
                r@,
            ),
            old(store).infallible() ==> self.serves(old(store).contents(), final(store).contents(), r@),
            self.reads_only() ==> final(store).contents() == old(store).contents(),
            self.answered_alone() ==> self.serves(old(store).contents(), final(store).contents(), r@),
    ;
}

impl CommandService for Hget {
    open spec fn serves(&self, before: Contents, after: Contents, r: ResponseView) -> bool {
        after == before && r == hget_answer(before, self.table@, self.key@)
    }

    open spec fn fails(&self, before: Contents, after: Contents, r: ResponseView) -> bool {
        after == before && failed(r)
    }

    open spec fn reads_only(&self) -> bool {
        true
    }

    open spec fn answered_alone(&self) -> bool {
        false
    }

    fn execute<S: Storage>(self, store: &mut S) -> (r: CommandResponse) {
        let res = store.get(self.table.as_str(), self.key.as_str());
        answer_get(self.table.as_str(), self.key.as_str(), res)
    }
}

impl CommandService for Hgetall {
    open spec fn serves(&self, before: Contents, after: Contents, r: ResponseView) -> bool {
        after == before && hgetall_answers(before, self.table@, r)
    }

    open spec fn fails(&self, before: Contents, after: Contents, r: ResponseView) -> bool {
        after == before && failed(r)
    }

    open spec fn reads_only(&self) -> bool {
        true
    }

    open spec fn answered_alone(&self) -> bool {
        false
    }

    fn execute<S: Storage>(self, store: &mut S) -> (r: CommandResponse) {
        let res = store.get_all(self.table.as_str());
        answer_get_all(res)
    }
}

impl CommandService for Hset {
    open spec fn serves(&self, before: Contents, after: Contents, r: ResponseView) -> bool {
        match self.pair {
            Some(p) => {
                &&& after == hset_step(before, self.table@, p@).0
                &&& r == values_response(seq![or_empty(lookup(before, self.table@, p@.key))])
            },
            None => {
                &&& after == before
                &&& r == (ResponseView {
                    status: STATUS_BAD_REQUEST,
                    message: hset_without_pair_message(self.table@),
                    values: Seq::empty(),
                    pairs: Seq::empty(),
                })
            },
        }
    }

    open spec fn fails(&self, before: Contents, after: Contents, r: ResponseView) -> bool {
        &&& self.pair is Some
        &&& after == before
        &&& failed(r)
    }

    open spec fn reads_only(&self) -> bool {
        self.pair is None
    }

    open spec fn answered_alone(&self) -> bool {
        self.pair is None
    }

    fn execute<S: Storage>(self, store: &mut S) -> (r: CommandResponse) {
        let ghost spec_self = self;
        match self.pair {
            Some(v) => {
                let value = match v.value {
                    Some(x) => x,
                    None => Value::default(),
                };
                let res = store.set(self.table.as_str(), v.key, value);
                answer_set(res)
            },
            None => {
                let mut text = String::from_str("Hset { table: ");
                let quoted = debug_quoted(self.table.as_str());
                text.append(quoted.as_str());
                text.append(", pair: None }");
                let r = KvError::InvalidCommand(text).into_response();
                assert(r@.message =~= hset_without_pair_message(spec_self.table@));
                r
            },
        }
    }
}

impl CommandService for Hmget {
    open spec fn serves(&self, before: Contents, after: Contents, r: ResponseView) -> bool {
        after == before && r == values_response(hmget_values(before, self.table@, texts(self.keys@)))
    }

    open spec fn fails(&self, before: Contents, after: Contents, r: ResponseView) -> bool {
        after == before && failed(r)
    }

    open spec fn reads_only(&self) -> bool {
        true
    }

    open spec fn answered_alone(&self) -> bool {
        false
    }

    fn execute<S: Storage>(self, store: &mut S) -> (r: CommandResponse) {
        let ghost c = store.contents();
        let ghost keys = texts(self.keys@);
        let mut ret: Vec<Value> = Vec::new();
        let mut i: usize = 0;
        while i < self.keys.len()
            invariant
                store.well_formed(),
                store.contents() == c,
                i <= self.keys@.len(),
                keys == texts(self.keys@),
                value_views(ret@) == hmget_values(c, self.table@, keys.take(i as int)),
            decreases self.keys@.len() - i,
        {
            let res = store.get(self.table.as_str(), self.keys[i].as_str());
            let ghost before = value_views(ret@);
            match read_step(&mut ret, res) {
                Some(answer) => return answer,
                None => {},
            }
            assert(hmget_values(c, self.table@, keys.take(i + 1 as int)) =~= before.push(
                or_empty(lookup(c, self.table@, keys[i as int])),
            ));
            i = i + 1;
        }
        assert(keys.take(keys.len() as int) =~= keys);
        CommandResponse::from_values(ret)
    }
}

impl CommandService for Hmset {
    open spec fn serves(&self, before: Contents, after: Contents, r: ResponseView) -> bool {
        let (c, answered) = hmset_run(before, self.table@, pair_views(self.pairs@));
        &&& after == c
        &&& r == crate::pb::pairs_response(answered)
    }

    /// The writes before the failing one stay; none after it is made.
    open spec fn fails(&self, before: Contents, after: Contents, r: ResponseView) -> bool {
        let ps = pair_views(self.pairs@);
        &&& failed(r)
        &&& exists|i: int|
            0 <= i < ps.len() && after == #[trigger] hmset_run(before, self.table@, ps.take(i)).0
    }

    open spec fn reads_only(&self) -> bool {
        false
    }

    open spec fn answered_alone(&self) -> bool {
        false
    }

    fn execute<S: Storage>(self, store: &mut S) -> (r: CommandResponse) {
        let ghost c0 = store.contents();
        let ghost ps = pair_views(self.pairs@);
        let mut ret: Vec<Kvpair> = Vec::new();
        let mut i: usize = 0;
        while i < self.pairs.len()
            invariant
                store.well_formed(),
                store.infallible() == old(store).infallible(),
                c0 == old(store).contents(),
                ps == pair_views(self.pairs@),
                i <= self.pairs@.len(),
                store.contents() == hmset_run(c0, self.table@, ps.take(i as int)).0,
                pair_views(ret@) == hmset_run(c0, self.table@, ps.take(i as int)).1,
            decreases self.pairs@.len() - i,
        {
            let p = &self.pairs[i];
            let value = match &p.value {
                Some(x) => x.clone(),
                None => Value::default(),
            };
            let ghost before = store.contents();
            let res = store.set(self.table.as_str(), p.key.clone(), value);
            match write_step(&mut ret, p.key.clone(), res) {
                Some(answer) => {
                    assert(store.contents() == hmset_run(c0, self.table@, ps.take(i as int)).0);
                    return answer;
                },
                None => {},
            }
            proof {
                assert(ps.take(i + 1 as int).drop_last() =~= ps.take(i as int));
                assert(ps.take(i + 1 as int).last() == self.pairs@[i as int]@);
            }
            i = i + 1;
        }
        proof {
            assert(ps.take(self.pairs@.len() as int) =~= ps);
        }
        CommandResponse::from_pairs(ret)
    }
}

} // verus!
