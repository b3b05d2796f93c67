//! Properties of the store and command engine proved once and for all:
//! how a time-to-live bounds what GET observes, that expiry is
//! idempotent, and that writes under distinct keys never lose each
//! other.

use vstd::prelude::*;

use crate::commands::get::spec_get_execute;
use crate::commands::set_cmd::spec_set_duration;
use crate::commands::set_cmd::spec_set_execute;
use crate::models::value::EntryVal;
use crate::resp::types::RespVal;
use crate::utils::context::CtxVal;

verus! {

/// Time-to-live monotonicity: after a SET that selects a time-to-live,
/// a GET of that key checked at or before the deadline answers the
/// stored value and changes nothing, and one checked strictly after the
/// deadline answers null and removes the entry.
pub proof fn lemma_ttl_monotonicity(args: Seq<Seq<char>>, ctx: CtxVal, now0: u64, now1: u64)
    requires
        2 <= args.len() <= 4,
        spec_set_duration(args) is Some,
    ensures
        now1 as int <= now0 as int + spec_set_duration(args)->0 as int
            ==> spec_get_execute(seq![args[0]], spec_set_execute(args, ctx, now0).1, now1) == (
            RespVal::BulkString { len: args[1].len() as int, value: args[1] },
            spec_set_execute(args, ctx, now0).1,
        ),
        now1 as int > now0 as int + spec_set_duration(args)->0 as int
            ==> spec_get_execute(seq![args[0]], spec_set_execute(args, ctx, now0).1, now1) == (
            RespVal::Null,
            CtxVal {
                store: spec_set_execute(args, ctx, now0).1.store.remove(args[0]),
                config: ctx.config,
            },
        ),
{
    let ctx1 = spec_set_execute(args, ctx, now0).1;
    let entry = EntryVal {
        data: args[1],
        expire_time: spec_set_duration(args),
        created_at: now0,
    };
    assert(ctx1.store == ctx.store.insert(args[0], entry));
    assert(ctx1.store.contains_key(args[0]));
    assert(ctx1.store[args[0]] == entry);
    assert(seq![args[0]][0] == args[0]);
}

/// Idempotent expiry: a GET that observes an expired key answers null
/// and removes the entry, and a second GET of the same key, whenever it
/// is checked, answers null again and changes nothing more.
pub proof fn lemma_expired_get_idempotent(k: Seq<char>, ctx: CtxVal, now0: u64, now1: u64)
    requires
        ctx.store.contains_key(k),
        ctx.store[k].spec_expired_at(now0),
    ensures
        spec_get_execute(seq![k], ctx, now0).0 == RespVal::Null,
        !spec_get_execute(seq![k], ctx, now0).1.store.contains_key(k),
        spec_get_execute(seq![k], spec_get_execute(seq![k], ctx, now0).1, now1) == (
            RespVal::Null,
            spec_get_execute(seq![k], ctx, now0).1,
        ),
{
    assert(seq![k][0] == k);
    let ctx1 = spec_get_execute(seq![k], ctx, now0).1;
    assert(ctx1.store == ctx.store.remove(k));
    assert(!ctx1.store.contains_key(k));
}

/// The store after a run of two-argument SETs, one per key-value pair,
/// applied first to last, all stamped at one clock reading.
pub open spec fn spec_apply_sets(
    pairs: Seq<(Seq<char>, Seq<char>)>,
    ctx: CtxVal,
    now: u64,
) -> CtxVal
    decreases pairs.len(),
{
    if pairs.len() == 0 {
        ctx
    } else {
        spec_apply_sets(
            pairs.subrange(1, pairs.len() as int),
            spec_set_execute(seq![pairs[0].0, pairs[0].1], ctx, now).1,
            now,
        )
    }
}

/// A run of SETs touches no key but its own.
proof fn lemma_apply_sets_frame(
    pairs: Seq<(Seq<char>, Seq<char>)>,
    ctx: CtxVal,
    now: u64,
    k: Seq<char>,
)
    requires
        forall|j: int| 0 <= j < pairs.len() ==> (#[trigger] pairs[j]).0 != k,
    ensures
        spec_apply_sets(pairs, ctx, now).store.contains_key(k) == ctx.store.contains_key(k),
        ctx.store.contains_key(k) ==> spec_apply_sets(pairs, ctx, now).store[k] == ctx.store[k],
        spec_apply_sets(pairs, ctx, now).config == ctx.config,
    decreases pairs.len(),
{
    if pairs.len() > 0 {
        let tail = pairs.subrange(1, pairs.len() as int);
        assert(forall|j: int| 0 <= j < tail.len() ==> tail[j] == #[trigger] pairs[j + 1]);
        let ctx1 = spec_set_execute(seq![pairs[0].0, pairs[0].1], ctx, now).1;
        assert(seq![pairs[0].0, pairs[0].1][0] == pairs[0].0);
        assert(ctx1.store == ctx.store.insert(pairs[0].0, ctx1.store[pairs[0].0]));
        lemma_apply_sets_frame(tail, ctx1, now, k);
    }
}

/// No lost updates: after a run of SETs under pairwise distinct keys, a
/// GET of any one key, checked at any time, observes exactly the value
/// written for it and changes nothing. The shared lock serializes
/// concurrent SETs into such a run.
pub proof fn lemma_distinct_writes_all_observed(
    pairs: Seq<(Seq<char>, Seq<char>)>,
    ctx: CtxVal,
    now: u64,
    now1: u64,
    i: int,
)
    requires
        forall|a: int, b: int|
            0 <= a < b < pairs.len() ==> (#[trigger] pairs[a]).0 != (#[trigger] pairs[b]).0,
        0 <= i < pairs.len(),
    ensures
        spec_get_execute(seq![pairs[i].0], spec_apply_sets(pairs, ctx, now), now1) == (
            RespVal::BulkString { len: pairs[i].1.len() as int, value: pairs[i].1 },
            spec_apply_sets(pairs, ctx, now),
        ),
    decreases pairs.len(),
{
    let ctx2 = spec_apply_sets(pairs, ctx, now);
    let tail = pairs.subrange(1, pairs.len() as int);
    assert(forall|j: int| 0 <= j < tail.len() ==> tail[j] == #[trigger] pairs[j + 1]);
    let ctx1 = spec_set_execute(seq![pairs[0].0, pairs[0].1], ctx, now).1;
    assert(seq![pairs[0].0, pairs[0].1][0] == pairs[0].0);
    assert(seq![pairs[0].0, pairs[0].1][1] == pairs[0].1);
    if i == 0 {
        let entry = EntryVal { data: pairs[0].1, expire_time: None, created_at: now };
        assert(spec_set_duration(seq![pairs[0].0, pairs[0].1]) is None);
        assert(ctx1.store.contains_key(pairs[0].0) && ctx1.store[pairs[0].0] == entry);
        lemma_apply_sets_frame(tail, ctx1, now, pairs[0].0);
        assert(ctx2.store.contains_key(pairs[0].0) && ctx2.store[pairs[0].0] == entry);
        assert(seq![pairs[0].0][0] == pairs[0].0);
        assert(!entry.spec_expired_at(now1));
    } else {
        lemma_distinct_writes_all_observed(tail, ctx1, now, now1, i - 1);
        assert(tail[i - 1] == pairs[i]);
    }
}

} // verus!
