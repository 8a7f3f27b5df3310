use vstd::prelude::*;

use crate::command::{ok_values, RespView, STATUS_NOT_FOUND};
use crate::dispatch::{keys_view, set_each, CommandService};
use crate::command::{Hdel, Hexist, Hget, Hmget, Hset};
use crate::storage::{lists_table, lookup, or_empty, StoreModel};
use crate::service::{passes_through, Hook};
use crate::value::VValue;

verus! {

/// An entry that the store does not hold reads as absent: a get reports
/// not found with no payload, an existence check answers false, and a
/// delete answers the empty value and changes nothing.
pub proof fn absent_entry_reads_absent(
    m: StoreModel,
    table: String,
    key: String,
    res: RespView,
    after: StoreModel,
)
    requires
        !m.contains_key((table@, key@)),
    ensures
        (Hget { table, key }).serves(m, res, after) ==> res.status == STATUS_NOT_FOUND
            && res.values.len() == 0 && res.pairs.len() == 0 && after == m,
        (Hexist { table, key }).serves(m, res, after) ==> res == ok_values(
            seq![VValue::Bool(false)],
        ) && after == m,
        (Hdel { table, key }).serves(m, res, after) ==> res == ok_values(seq![VValue::Empty])
            && after == m,
{
    assert(m.remove((table@, key@)) =~= m);
}

/// Of two writes to one entry the second answers the value of the first,
/// and a get after them answers the value of the second.
pub proof fn last_write_wins(
    first: Hset,
    second: Hset,
    get: Hget,
    m0: StoreModel,
    r1: RespView,
    m1: StoreModel,
    r2: RespView,
    m2: StoreModel,
    r3: RespView,
    m3: StoreModel,
)
    requires
        first.pair is Some,
        second.pair is Some,
        first.table@ == get.table@,
        second.table@ == get.table@,
        first.pair->Some_0.key@ == get.key@,
        second.pair->Some_0.key@ == get.key@,
        first.serves(m0, r1, m1),
        second.serves(m1, r2, m2),
        get.serves(m2, r3, m3),
    ensures
        r2 == ok_values(seq![first.pair->Some_0.value@]),
        r3 == ok_values(seq![second.pair->Some_0.value@]),
{
}

/// A batch get answers one value per requested key, in the order of the
/// keys: the stored value where the key is present, the empty value where
/// it is absent.
pub proof fn batch_get_aligned(req: Hmget, m: StoreModel, res: RespView, after: StoreModel)
    requires
        req.serves(m, res, after),
    ensures
        res.values.len() == req.keys@.len(),
        forall|i: int|
            0 <= i < req.keys@.len() ==> #[trigger] res.values[i] == or_empty(
                lookup(m, req.table@, req.keys@[i]@),
            ),
{
    assert forall|i: int| 0 <= i < req.keys@.len() implies #[trigger] res.values[i] == or_empty(
        lookup(m, req.table@, req.keys@[i]@),
    ) by {
        assert(keys_view(req.keys@)[i] == req.keys@[i]@);
    }
}

/// No write is lost: after setting pairs with distinct keys one after
/// another in a table, each key holds its own value, and every listing of
/// the table holds every pair.
pub proof fn distinct_writes_all_kept(
    m: StoreModel,
    table: Seq<char>,
    pairs: Seq<(Seq<char>, VValue)>,
    listing: Seq<(Seq<char>, VValue)>,
)
    requires
        forall|i: int, j: int| 0 <= i < j < pairs.len() ==> pairs[i].0 != pairs[j].0,
    ensures
        forall|i: int|
            0 <= i < pairs.len() ==> lookup(set_each(m, table, pairs).1, table, #[trigger] pairs[i].0)
                == Some(pairs[i].1),
        lists_table(listing, set_each(m, table, pairs).1, table) ==> forall|i: int|
            0 <= i < pairs.len() ==> listing.contains(#[trigger] pairs[i]),
    decreases pairs.len(),
{
    let after = set_each(m, table, pairs).1;
    if pairs.len() > 0 {
        let init = pairs.drop_last();
        distinct_writes_all_kept(m, table, init, listing);
        assert forall|i: int| 0 <= i < pairs.len() implies lookup(after, table, #[trigger] pairs[i].0)
            == Some(pairs[i].1) by {
            if i < pairs.len() - 1 {
                assert(init[i] == pairs[i]);
                assert(pairs[i].0 != pairs.last().0);
            }
        }
    }
    if lists_table(listing, after, table) {
        assert forall|i: int| 0 <= i < pairs.len() implies listing.contains(#[trigger] pairs[i]) by {
            assert(lookup(after, table, pairs[i].0) == Some(pairs[i].1));
            assert(after.contains_key((table, pairs[i].0)));
            let p = choose|p: int| 0 <= p < listing.len() && #[trigger] listing[p].0 == pairs[i].0;
            assert(lookup(after, table, listing[p].0) == Some(listing[p].1));
            assert(listing[p] == pairs[i]);
        }
    }
}

/// A response rewritten by hooks in turn carries the status that the last
/// hook sets, whatever the earlier hooks did.
pub proof fn last_status_rewrite_reaches_caller<H: Hook>(
    hooks: Seq<H>,
    first: RespView,
    last: RespView,
    status: u32,
)
    requires
        hooks.len() > 0,
        passes_through(hooks, first, last),
        forall|before: RespView, after: RespView|
            #[trigger] hooks.last().rewrites(before, after) ==> after.status == status,
    ensures
        last.status == status,
{
    let chain = choose|chain: Seq<RespView>|
        chain.len() == hooks.len() + 1 && chain[0] == first && chain.last() == last && forall|i: int|
            0 <= i < hooks.len() ==> #[trigger] hooks[i].rewrites(chain[i], chain[i + 1]);
    let n = hooks.len() - 1;
    assert(hooks[n].rewrites(chain[n], chain[n + 1]));
    assert(hooks.last() == hooks[n]);
    assert(hooks.last().rewrites(chain[n], chain[n + 1]));
    assert(chain[n + 1] == last);
}

} // verus!
