//! What holds across commands: reads give back writes, reads change nothing,
//! and the batch commands agree with their single-key forms.
use vstd::prelude::*;

use crate::pb::{
    pair_of, pair_views, texts, values_response, Hget, Hgetall, Hmget, Hmset, Hset, PairView,
    ResponseView, Scalar, STATUS_NOT_FOUND, STATUS_OK, CommandRequest,
};
use crate::service::command_service::{
    failed, hget_answer, hmget_values, hmset_run, hset_step, lemma_failed_is_not_ok, or_empty,
    written, CommandService,
};
use crate::service::{fails, serves};
use crate::storage::{lookup, Contents};

verus! {

/// Reading a key right after writing it gives back the written value, and the
/// read leaves the store as the write left it.
pub proof fn law_read_your_write(
    set: Hset,
    get: Hget,
    c0: Contents,
    c1: Contents,
    r1: ResponseView,
    c2: Contents,
    r2: ResponseView,
)
    requires
        set.pair is Some,
        get.table@ == set.table@,
        get.key@ == set.pair->0@.key,
        set.serves(c0, c1, r1),
        get.serves(c1, c2, r2),
    ensures
        c2 == c1,
        r2 == values_response(seq![written(set.pair->0@)]),
{
    let p = set.pair->0@;
    assert(c1.contains_key((set.table@, p.key)));
    assert(lookup(c1, get.table@, get.key@) == Some(written(p)));
}

/// Writing a key answers the value it had; writing it again answers the value
/// the first write stored.
pub proof fn law_write_answers_previous(
    first: Hset,
    second: Hset,
    c0: Contents,
    c1: Contents,
    r1: ResponseView,
    c2: Contents,
    r2: ResponseView,
)
    requires
        first.pair is Some,
        second.pair is Some,
        second.table@ == first.table@,
        second.pair->0@.key == first.pair->0@.key,
        first.serves(c0, c1, r1),
        second.serves(c1, c2, r2),
    ensures
        r1 == values_response(seq![or_empty(lookup(c0, first.table@, first.pair->0@.key))]),
        r2 == values_response(seq![written(first.pair->0@)]),
{
    let p = first.pair->0@;
    assert(c1.contains_key((first.table@, p.key)));
    assert(lookup(c1, first.table@, p.key) == Some(written(p)));
}

/// The value that writing a pair with value `v` stores is `v` itself, and
/// the empty value only when the pair carries no value: after the write, the
/// key holds exactly what the request carried and every other key is as
/// before; reading the key back answers that value. The write itself answers
/// the value the key held before (the empty value when it held none).
pub proof fn law_write_stores_the_request_value(
    set: Hset,
    get: Hget,
    c0: Contents,
    c1: Contents,
    r1: ResponseView,
    c2: Contents,
    r2: ResponseView,
    other_table: Seq<char>,
    other_key: Seq<char>,
)
    requires
        set.pair is Some,
        get.table@ == set.table@,
        get.key@ == set.pair->0.key@,
        set.serves(c0, c1, r1),
        get.serves(c1, c2, r2),
    ensures
        set.pair->0.value matches Some(v) ==> lookup(c1, set.table@, set.pair->0.key@) == Some(v@),
        set.pair->0.value matches Some(v) ==> r2 == values_response(seq![v@]),
        set.pair->0.value is None ==> lookup(c1, set.table@, set.pair->0.key@) == Some(
            None::<Scalar>,
        ),
        set.pair->0.value is None ==> r2 == values_response(seq![None::<Scalar>]),
        (other_table, other_key) != (set.table@, set.pair->0.key@) ==> lookup(
            c1,
            other_table,
            other_key,
        ) == lookup(c0, other_table, other_key),
        c0.contains_key((set.table@, set.pair->0.key@)) ==> r1 == values_response(
            seq![c0[(set.table@, set.pair->0.key@)]],
        ),
        !c0.contains_key((set.table@, set.pair->0.key@)) ==> r1 == values_response(
            seq![None::<Scalar>],
        ),
{
    let p = set.pair->0@;
    assert(c1.contains_key((set.table@, p.key)));
}

/// `ps[j]` is the last pair of `ps` with its key.
pub open spec fn last_with_its_key(ps: Seq<PairView>, j: int) -> bool {
    forall|m: int| j < m < ps.len() ==> #[trigger] ps[m].key != ps[j].key
}

proof fn lemma_hmset_run_any(c: Contents, table: Seq<char>, ps: Seq<PairView>)
    ensures
        hmset_run(c, table, ps).1.len() == ps.len(),
        forall|j: int| 0 <= j < ps.len() ==> (#[trigger] hmset_run(c, table, ps).1[j]).key == ps[j].key,
        forall|j: int|
            0 <= j < ps.len() && last_with_its_key(ps, j) ==> lookup(
                hmset_run(c, table, ps).0,
                table,
                #[trigger] ps[j].key,
            ) == Some(written(ps[j])),
        forall|t: Seq<char>, k: Seq<char>|
            (t != table || (forall|j: int| 0 <= j < ps.len() ==> #[trigger] ps[j].key != k)) ==> lookup(
                #[trigger] hmset_run(c, table, ps).0,
                t,
                k,
            ) == lookup(c, t, k),
    decreases ps.len(),
{
    if ps.len() > 0 {
        let front = ps.drop_last();
        let n = ps.len() - 1;
        lemma_hmset_run_any(c, table, front);
        let (c1, out) = hmset_run(c, table, front);
        let last = ps.last();
        let (c2, answered) = hset_step(c1, table, last);
        assert(forall|j: int| 0 <= j < front.len() ==> #[trigger] front[j] == ps[j]);
        assert forall|j: int| 0 <= j < ps.len() implies (#[trigger] out.push(answered)[j]).key
            == ps[j].key by {
            if j < n {
                assert(front[j] == ps[j]);
            }
        }
        assert forall|j: int| 0 <= j < ps.len() && last_with_its_key(ps, j) implies lookup(
            c2,
            table,
            #[trigger] ps[j].key,
        ) == Some(written(ps[j])) by {
            if j < n {
                assert(ps[n].key != ps[j].key);
                assert(front[j] == ps[j]);
                assert(last_with_its_key(front, j)) by {
                    assert forall|m: int| j < m < front.len() implies #[trigger] front[m].key
                        != front[j].key by {
                        assert(front[m] == ps[m]);
                        assert(ps[m].key != ps[j].key);
                    }
                }
            }
        }
        assert forall|t: Seq<char>, k: Seq<char>|
            (t != table || (forall|j: int| 0 <= j < ps.len() ==> #[trigger] ps[j].key != k)) implies lookup(
            c2,
            t,
            k,
        ) == lookup(c, t, k) by {
            if t == table {
                assert(ps[n].key != k);
                assert forall|j: int| 0 <= j < front.len() implies #[trigger] front[j].key != k by {
                    assert(front[j] == ps[j]);
                }
            }
            assert(lookup(c1, t, k) == lookup(c, t, k));
        }
    }
}

/// Writing several pairs is writing each of them in order, repeated keys
/// included: the answer has one pair per request pair with the same key, each
/// key ends up holding the value of the last pair that names it (the empty
/// value when that pair carries none), and every other key is as before.
pub proof fn law_batch_is_its_writes_in_order(
    mset: Hmset,
    c0: Contents,
    c1: Contents,
    r: ResponseView,
    t: Seq<char>,
    k: Seq<char>,
)
    requires
        mset.serves(c0, c1, r),
    ensures
        r.pairs.len() == mset.pairs@.len(),
        forall|j: int| 0 <= j < mset.pairs@.len() ==> (#[trigger] r.pairs[j]).key == mset.pairs@[j].key@,
        forall|j: int|
            0 <= j < mset.pairs@.len() && (forall|m: int|
                j < m < mset.pairs@.len() ==> #[trigger] mset.pairs@[m].key@ != mset.pairs@[j].key@)
                ==> lookup(c1, mset.table@, #[trigger] mset.pairs@[j].key@) == (match mset.pairs@[j].value {
                Some(v) => Some(v@),
                None => Some(None::<Scalar>),
            }),
        (t != mset.table@ || (forall|j: int| 0 <= j < mset.pairs@.len() ==> #[trigger] mset.pairs@[j].key@ != k))
            ==> lookup(c1, t, k) == lookup(c0, t, k),
{
    let ps = pair_views(mset.pairs@);
    lemma_hmset_run_any(c0, mset.table@, ps);
    assert(forall|j: int| 0 <= j < ps.len() ==> #[trigger] ps[j] == mset.pairs@[j]@);
    assert forall|j: int| 0 <= j < mset.pairs@.len() implies (#[trigger] r.pairs[j]).key == mset.pairs@[j].key@ by {
        assert(ps[j] == mset.pairs@[j]@);
    }
    assert forall|j: int|
        0 <= j < mset.pairs@.len() && (forall|m: int|
            j < m < mset.pairs@.len() ==> #[trigger] mset.pairs@[m].key@ != mset.pairs@[j].key@)
        implies lookup(c1, mset.table@, #[trigger] mset.pairs@[j].key@) == (match mset.pairs@[j].value {
            Some(v) => Some(v@),
            None => Some(None::<Scalar>),
        }) by {
        assert(ps[j] == mset.pairs@[j]@);
        assert(last_with_its_key(ps, j)) by {
            assert forall|m: int| j < m < ps.len() implies #[trigger] ps[m].key != ps[j].key by {
                assert(ps[m] == mset.pairs@[m]@);
                assert(mset.pairs@[m].key@ != mset.pairs@[j].key@);
            }
        }
        assert(lookup(c1, mset.table@, ps[j].key) == Some(written(ps[j])));
    }
    if t == mset.table@ && (forall|j: int| 0 <= j < mset.pairs@.len() ==> #[trigger] mset.pairs@[j].key@ != k) {
        assert forall|j: int| 0 <= j < ps.len() implies #[trigger] ps[j].key != k by {
            assert(ps[j] == mset.pairs@[j]@);
        }
    }
}

/// Writing one more pair after a batch is the batch followed by a single
/// write of that pair: the longer batch leaves the store as the single write
/// leaves it, and answers the batch's pairs followed by the pair's key with
/// the value the single write answered.
pub proof fn law_batch_then_one_more(
    batch: Hmset,
    longer: Hmset,
    set: Hset,
    c0: Contents,
    c1: Contents,
    r1: ResponseView,
    c2: Contents,
    r2: ResponseView,
    c3: Contents,
    r3: ResponseView,
)
    requires
        set.pair is Some,
        longer.table@ == batch.table@,
        set.table@ == batch.table@,
        pair_views(longer.pairs@) == pair_views(batch.pairs@).push(set.pair->0@),
        batch.serves(c0, c1, r1),
        set.serves(c1, c2, r2),
        longer.serves(c0, c3, r3),
    ensures
        c3 == c2,
        r3.pairs == r1.pairs.push(pair_of(set.pair->0.key@, r2.values[0])),
{
    let ps = pair_views(longer.pairs@);
    assert(ps.drop_last() =~= pair_views(batch.pairs@));
}

/// Reading a key that the table lacks is answered with "not found".
pub proof fn law_missing_key_not_found(get: Hget, c: Contents, after: Contents, r: ResponseView)
    requires
        !c.contains_key((get.table@, get.key@)),
        get.serves(c, after, r),
    ensures
        r.status == STATUS_NOT_FOUND,
        after == c,
{
}

/// The read commands leave the store unchanged.
pub proof fn law_reads_change_nothing(
    get: Hget,
    getall: Hgetall,
    mget: Hmget,
    c: Contents,
    a1: Contents,
    r1: ResponseView,
    a2: Contents,
    r2: ResponseView,
    a3: Contents,
    r3: ResponseView,
)
    requires
        get.serves(c, a1, r1),
        getall.serves(c, a2, r2),
        mget.serves(c, a3, r3),
    ensures
        a1 == c,
        a2 == c,
        a3 == c,
{
}

/// Reading several keys at once answers, for each key in order, the value that
/// reading that key alone answers (the empty value where the key is missing).
pub proof fn law_multi_read_is_single_reads(mget: Hmget, c: Contents, after: Contents, r: ResponseView, i: int)
    requires
        mget.serves(c, after, r),
        0 <= i < mget.keys@.len(),
    ensures
        r.values.len() == mget.keys@.len(),
        c.contains_key((mget.table@, mget.keys@[i]@)) ==> hget_answer(c, mget.table@, mget.keys@[i]@)
            == values_response(seq![r.values[i]]),
        !c.contains_key((mget.table@, mget.keys@[i]@)) ==> r.values[i] == None::<Scalar>,
{
    assert(texts(mget.keys@)[i] == mget.keys@[i]@);
}

/// The keys of `ps` are pairwise distinct.
pub open spec fn distinct_keys(ps: Seq<PairView>) -> bool {
    forall|i: int, j: int|
        0 <= i < ps.len() && 0 <= j < ps.len() && i != j ==> #[trigger] ps[i].key != #[trigger] ps[j].key
}

proof fn lemma_hmset_run(c: Contents, table: Seq<char>, ps: Seq<PairView>)
    requires
        distinct_keys(ps),
    ensures
        hmset_run(c, table, ps).1.len() == ps.len(),
        forall|j: int|
            0 <= j < ps.len() ==> lookup(hmset_run(c, table, ps).0, table, #[trigger] ps[j].key)
                == Some(written(ps[j])),
        forall|j: int|
            0 <= j < ps.len() ==> #[trigger] hmset_run(c, table, ps).1[j] == pair_of(
                ps[j].key,
                or_empty(lookup(c, table, ps[j].key)),
            ),
        forall|k: Seq<char>|
            (forall|j: int| 0 <= j < ps.len() ==> #[trigger] ps[j].key != k) ==> lookup(
                hmset_run(c, table, ps).0,
                table,
                k,
            ) == lookup(c, table, k),
    decreases ps.len(),
{
    if ps.len() > 0 {
        let front = ps.drop_last();
        let n = ps.len() - 1;
        assert(distinct_keys(front)) by {
            assert forall|i: int, j: int|
                0 <= i < front.len() && 0 <= j < front.len() && i != j implies #[trigger] front[i].key
                != #[trigger] front[j].key by {
                assert(front[i] == ps[i]);
                assert(front[j] == ps[j]);
            }
        }
        lemma_hmset_run(c, table, front);
        let (c1, out) = hmset_run(c, table, front);
        let last = ps.last();
        assert(forall|j: int| 0 <= j < front.len() ==> #[trigger] front[j] == ps[j]);
        assert(forall|j: int| 0 <= j < front.len() ==> #[trigger] front[j].key != last.key) by {
            assert forall|j: int| 0 <= j < front.len() implies #[trigger] front[j].key != last.key by {
                assert(ps[j].key != ps[n].key);
            }
        }
        assert(lookup(c1, table, last.key) == lookup(c, table, last.key));
        let (c2, answered) = hset_step(c1, table, last);
        assert forall|j: int| 0 <= j < ps.len() implies lookup(c2, table, #[trigger] ps[j].key)
            == Some(written(ps[j])) by {
            if j < n {
                assert(ps[j] == front[j]);
                assert(ps[j].key != last.key);
            }
        }
        assert forall|j: int| 0 <= j < ps.len() implies #[trigger] out.push(answered)[j] == pair_of(
            ps[j].key,
            or_empty(lookup(c, table, ps[j].key)),
        ) by {
            if j < n {
                assert(ps[j] == front[j]);
            }
        }
        assert forall|k: Seq<char>|
            (forall|j: int| 0 <= j < ps.len() ==> #[trigger] ps[j].key != k) implies lookup(
            c2,
            table,
            k,
        ) == lookup(c, table, k) by {
            assert(ps[n].key != k);
            assert forall|j: int| 0 <= j < front.len() implies #[trigger] front[j].key != k by {
                assert(front[j] == ps[j]);
            }
        }
    }
}

/// Writing pairs with distinct keys and then reading those keys gives back the
/// written values in order; the write answers each key's earlier value.
pub proof fn law_multi_write_then_multi_read(
    mset: Hmset,
    mget: Hmget,
    c0: Contents,
    c1: Contents,
    r1: ResponseView,
    c2: Contents,
    r2: ResponseView,
)
    requires
        distinct_keys(pair_views(mset.pairs@)),
        mget.table@ == mset.table@,
        texts(mget.keys@) == pair_views(mset.pairs@).map_values(|p: PairView| p.key),
        mset.serves(c0, c1, r1),
        mget.serves(c1, c2, r2),
    ensures
        c2 == c1,
        r1.pairs.len() == mset.pairs@.len(),
        forall|j: int|
            0 <= j < mset.pairs@.len() ==> #[trigger] r1.pairs[j] == pair_of(
                mset.pairs@[j]@.key,
                or_empty(lookup(c0, mset.table@, mset.pairs@[j]@.key)),
            ),
        r2 == values_response(pair_views(mset.pairs@).map_values(|p: PairView| written(p))),
{
    let ps = pair_views(mset.pairs@);
    lemma_hmset_run(c0, mset.table@, ps);
    let keys = texts(mget.keys@);
    assert(keys.len() == ps.len());
    assert(hmget_values(c1, mget.table@, keys) =~= ps.map_values(|p: PairView| written(p))) by {
        assert forall|j: int| 0 <= j < keys.len() implies #[trigger] hmget_values(c1, mget.table@, keys)[j]
            == ps.map_values(|p: PairView| written(p))[j] by {
            assert(keys[j] == ps[j].key);
            assert(lookup(c1, mset.table@, ps[j].key) == Some(written(ps[j])));
        }
    }
    assert forall|j: int| 0 <= j < mset.pairs@.len() implies #[trigger] r1.pairs[j] == pair_of(
        mset.pairs@[j]@.key,
        or_empty(lookup(c0, mset.table@, mset.pairs@[j]@.key)),
    ) by {
        assert(ps[j] == mset.pairs@[j]@);
    }
}

/// After a write, reading the whole table lists the written pair.
pub proof fn law_write_then_read_all(
    set: Hset,
    getall: Hgetall,
    c0: Contents,
    c1: Contents,
    r1: ResponseView,
    c2: Contents,
    r2: ResponseView,
)
    requires
        set.pair is Some,
        getall.table@ == set.table@,
        set.serves(c0, c1, r1),
        getall.serves(c1, c2, r2),
    ensures
        exists|i: int|
            0 <= i < r2.pairs.len() && #[trigger] r2.pairs[i] == pair_of(
                set.pair->0@.key,
                written(set.pair->0@),
            ),
{
    let p = set.pair->0@;
    assert(c1.contains_key((set.table@, p.key)));
    let i = choose|i: int| 0 <= i < r2.pairs.len() && #[trigger] r2.pairs[i].key == p.key;
    assert(r2.pairs[i] == pair_of(p.key, written(p)));
}

/// On any store, even one that may fail, an answer with the success status is
/// the served answer: store errors are never answered with success.
pub proof fn law_success_is_served(cmd: CommandRequest, before: Contents, after: Contents, r: ResponseView)
    requires
        serves(cmd, before, after, r) || fails(cmd, before, after, r),
        r.status == STATUS_OK,
    ensures
        serves(cmd, before, after, r),
{
    if fails(cmd, before, after, r) {
        assert(failed(r));
        lemma_failed_is_not_ok(r);
    }
}

/// On any store, a single-key write that is not answered with success
/// leaves the store as it was.
pub proof fn law_failed_write_changes_nothing(set: Hset, before: Contents, after: Contents, r: ResponseView)
    requires
        set.serves(before, after, r) || set.fails(before, after, r),
        r.status != STATUS_OK,
    ensures
        after == before,
{
}

/// On any store, a multi-key write that is not answered with success leaves
/// the store holding exactly the writes of the pairs before the one that
/// failed: none is undone and none after it is made.
pub proof fn law_failed_batch_keeps_prefix(mset: Hmset, before: Contents, after: Contents, r: ResponseView)
    requires
        mset.serves(before, after, r) || mset.fails(before, after, r),
        r.status != STATUS_OK,
    ensures
        exists|i: int|
            0 <= i < mset.pairs@.len() && after == #[trigger] hmset_run(
                before,
                mset.table@,
                pair_views(mset.pairs@).take(i),
            ).0,
{
}

/// On any store, even one that may fail: when a write and the read of the
/// same key that follows it both succeed, the read gives back the written
/// value.
pub proof fn law_read_your_write_on_any_store(
    set: Hset,
    get: Hget,
    c0: Contents,
    c1: Contents,
    r1: ResponseView,
    c2: Contents,
    r2: ResponseView,
)
    requires
        set.pair is Some,
        get.table@ == set.table@,
        get.key@ == set.pair->0@.key,
        set.serves(c0, c1, r1) || set.fails(c0, c1, r1),
        get.serves(c1, c2, r2) || get.fails(c1, c2, r2),
        r1.status == STATUS_OK,
        r2.status == STATUS_OK,
    ensures
        r2 == values_response(seq![written(set.pair->0@)]),
{
    if failed(r1) {
        lemma_failed_is_not_ok(r1);
    }
    if failed(r2) {
        lemma_failed_is_not_ok(r2);
    }
    law_read_your_write(set, get, c0, c1, r1, c2, r2);
}

} // verus!
