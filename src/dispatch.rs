use vstd::prelude::*;
use vstd::string::StringExecFns;

use crate::command::{
    failure, ok_pairs, ok_values, pairs_view, values_view, CommandRequest, CommandResponse, Hdel,
    Hexist, Hget, Hgetall, Hmdel, Hmexist, Hmget, Hmset, Hset, KvError, RequestData, RespView,
    STATUS_BAD_REQUEST, STATUS_OK,
};
use crate::storage::{lists_table, lookup, or_empty, Storage, StoreModel};
use crate::value::{Kvpair, VValue, Value};

verus! {

/// Values returned, and contents left, by setting `pairs` one after another
/// in `table`: each value is the one its key held just before.
pub open spec fn set_each(m: StoreModel, table: Seq<char>, pairs: Seq<(Seq<char>, VValue)>) -> (
    Seq<VValue>,
    StoreModel,
)
    decreases pairs.len(),
{
    if pairs.len() == 0 {
        (Seq::empty(), m)
    } else {
        let (vs, m1) = set_each(m, table, pairs.drop_last());
        let (k, v) = pairs.last();
        (vs.push(or_empty(lookup(m1, table, k))), m1.insert((table, k), v))
    }
}

/// Values returned, and contents left, by removing `keys` one after another
/// from `table`.
pub open spec fn del_each(m: StoreModel, table: Seq<char>, keys: Seq<Seq<char>>) -> (
    Seq<VValue>,
    StoreModel,
)
    decreases keys.len(),
{
    if keys.len() == 0 {
        (Seq::empty(), m)
    } else {
        let (vs, m1) = del_each(m, table, keys.drop_last());
        let k = keys.last();
        (vs.push(or_empty(lookup(m1, table, k))), m1.remove((table, k)))
    }
}

pub open spec fn keys_view(keys: Seq<String>) -> Seq<Seq<char>> {
    keys.map_values(|k: String| k@)
}

/// The message of a request without a command.
pub open spec fn no_data_message() -> Seq<char> {
    "Invalid command: "@ + "Request has no data"@
}

/// A batch answer: success with exactly `n` values.
pub open spec fn batch_of(res: RespView, n: nat) -> bool {
    res == ok_values(res.values) && res.values.len() == n
}

/// The answer to a single get, from what the store returned.
pub open spec fn get_answer(table: String, key: String, r: Result<Option<Value>, KvError>) -> RespView {
    match r {
        Ok(Some(v)) => ok_values(seq![v@]),
        Ok(None) => failure(
            KvError::NotFound(table, key).status(),
            KvError::NotFound(table, key).message(),
        ),
        Err(e) => failure(e.status(), e.message()),
    }
}

/// The answer to a single set or delete, from what the store returned: the
/// value replaced or removed, the empty value where there was none.
pub open spec fn previous_answer(r: Result<Option<Value>, KvError>) -> RespView {
    match r {
        Ok(Some(v)) => ok_values(seq![v@]),
        Ok(None) => ok_values(seq![VValue::Empty]),
        Err(e) => failure(e.status(), e.message()),
    }
}

/// The answer to a single existence check, from what the store returned.
pub open spec fn exist_answer(r: Result<bool, KvError>) -> RespView {
    match r {
        Ok(b) => ok_values(seq![VValue::Bool(b)]),
        Err(e) => failure(e.status(), e.message()),
    }
}

/// The answer to a get-all, from what the store returned.
pub open spec fn pairs_answer(r: Result<Vec<Kvpair>, KvError>) -> RespView {
    match r {
        Ok(ps) => ok_pairs(pairs_view(ps@)),
        Err(e) => failure(e.status(), e.message()),
    }
}

/// One element of a batch get, set or delete: the value found, or the empty
/// value where there is none or the store failed.
pub open spec fn element_value(r: Result<Option<Value>, KvError>) -> VValue {
    match r {
        Ok(Some(v)) => v@,
        _ => VValue::Empty,
    }
}

/// One element of a batch existence check: the answer, or the empty value
/// where the store failed.
pub open spec fn element_exists(r: Result<bool, KvError>) -> VValue {
    match r {
        Ok(b) => VValue::Bool(b),
        Err(_) => VValue::Empty,
    }
}

/// Turns what the store returned for a single get into the response.
pub fn get_response(table: String, key: String, r: Result<Option<Value>, KvError>) -> (res: CommandResponse)
    ensures
        res@ == get_answer(table, key, r),
{
    match r {
        Ok(Some(v)) => CommandResponse::from_value(v),
        Ok(None) => CommandResponse::from_error(KvError::NotFound(table, key)),
        Err(e) => CommandResponse::from_error(e),
    }
}

/// Turns what the store returned for a single set or delete into the
/// response.
pub fn previous_response(r: Result<Option<Value>, KvError>) -> (res: CommandResponse)
    ensures
        res@ == previous_answer(r),
{
    match r {
        Ok(Some(v)) => CommandResponse::from_value(v),
        Ok(None) => CommandResponse::from_value(Value::Empty),
        Err(e) => CommandResponse::from_error(e),
    }
}

/// Turns what the store returned for a single existence check into the
/// response.
pub fn exist_response(r: Result<bool, KvError>) -> (res: CommandResponse)
    ensures
        res@ == exist_answer(r),
{
    match r {
        Ok(b) => CommandResponse::from_value(Value::Bool(b)),
        Err(e) => CommandResponse::from_error(e),
    }
}

/// Turns what the store returned for a get-all into the response.
pub fn pairs_response(r: Result<Vec<Kvpair>, KvError>) -> (res: CommandResponse)
    ensures
        res@ == pairs_answer(r),
{
    match r {
        Ok(pairs) => CommandResponse::from_pairs(pairs),
        Err(e) => CommandResponse::from_error(e),
    }
}

/// One element of a batch get, set or delete; a failure of the store
/// becomes the empty value rather than failing the batch.
pub fn value_or_empty(r: Result<Option<Value>, KvError>) -> (v: Value)
    ensures
        v@ == element_value(r),
{
    match r {
        Ok(Some(v)) => v,
        _ => Value::Empty,
    }
}

/// One element of a batch existence check; a failure of the store becomes
/// the empty value rather than failing the batch.
pub fn exists_or_empty(r: Result<bool, KvError>) -> (v: Value)
    ensures
        v@ == element_exists(r),
{
    match r {
        Ok(b) => Value::Bool(b),
        Err(_) => Value::Empty,
    }
}

/// A store error of the kinds that a storage operation may report.
pub open spec fn store_error<T>(r: Result<T, KvError>) -> bool {
    r is Err ==> (r->Err_0 is BackendError || r->Err_0 is ConvertError)
}

/// One command, run against a store.
pub trait CommandService: Sized {
    /// On a store that holds `before` and reports no error, the command may
    /// answer `res` and leave `after`.
    spec fn serves(&self, before: StoreModel, res: RespView, after: StoreModel) -> bool;

    /// What the answer looks like on any store, whether or not it fails.
    spec fn shaped(&self, res: RespView) -> bool;

    /// The command makes no store call at all.
    open spec fn untouched(&self) -> bool {
        false
    }

    fn execute<S: Storage>(self, store: &mut S) -> (r: CommandResponse)
        requires
            old(store).inv(),
        ensures
            final(store).inv(),
            final(store).exact() == old(store).exact(),
            old(store).exact() ==> self.serves(old(store).model(), r@, final(store).model()),
            self.shaped(r@),
            self.untouched() ==> *final(store) == *old(store),
    ;
}

impl CommandService for Hget {
    open spec fn serves(&self, before: StoreModel, res: RespView, after: StoreModel) -> bool {
        &&& after == before
        &&& res == match lookup(before, self.table@, self.key@) {
            Some(v) => ok_values(seq![v]),
            None => failure(
                KvError::NotFound(self.table, self.key).status(),
                KvError::NotFound(self.table, self.key).message(),
            ),
        }
    }

    open spec fn shaped(&self, res: RespView) -> bool {
        exists|r: Result<Option<Value>, KvError>|
            store_error(r) && res == get_answer(self.table, self.key, r)
    }

    fn execute<S: Storage>(self, store: &mut S) -> (r: CommandResponse) {
        let found = store.get(self.table.as_str(), self.key.as_str());
        let ghost witness = found;
        let res = get_response(self.table, self.key, found);
        assert(store_error(witness) && res@ == get_answer(self.table, self.key, witness));
        res
    }
}

impl CommandService for Hgetall {
    open spec fn serves(&self, before: StoreModel, res: RespView, after: StoreModel) -> bool {
        &&& after == before
        &&& res == ok_pairs(res.pairs)
        &&& lists_table(res.pairs, before, self.table@)
    }

    open spec fn shaped(&self, res: RespView) -> bool {
        exists|r: Result<Vec<Kvpair>, KvError>| store_error(r) && res == pairs_answer(r)
    }

    fn execute<S: Storage>(self, store: &mut S) -> (r: CommandResponse) {
        pairs_response(store.get_all(self.table.as_str()))
    }
}

impl CommandService for Hset {
    open spec fn serves(&self, before: StoreModel, res: RespView, after: StoreModel) -> bool {
        match self.pair {
            Some(kv) => {
                &&& res == ok_values(seq![or_empty(lookup(before, self.table@, kv.key@))])
                &&& after == before.insert((self.table@, kv.key@), kv.value@)
            },
            None => res == ok_values(seq![VValue::Empty]) && after == before,
        }
    }

    open spec fn shaped(&self, res: RespView) -> bool {
        &&& self.pair is None ==> res == ok_values(seq![VValue::Empty])
        &&& self.pair is Some ==> exists|r: Result<Option<Value>, KvError>|
            store_error(r) && res == previous_answer(r)
    }

    open spec fn untouched(&self) -> bool {
        self.pair is None
    }

    fn execute<S: Storage>(self, store: &mut S) -> (r: CommandResponse) {
        match self.pair {
            Some(kv) => previous_response(store.set(self.table.as_str(), kv.key, kv.value)),
            None => CommandResponse::from_value(Value::Empty),
        }
    }
}

impl CommandService for Hmget {
    open spec fn serves(&self, before: StoreModel, res: RespView, after: StoreModel) -> bool {
        &&& after == before
        &&& res == ok_values(
            keys_view(self.keys@).map_values(|k: Seq<char>| or_empty(lookup(before, self.table@, k))),
        )
    }

    open spec fn shaped(&self, res: RespView) -> bool {
        batch_of(res, self.keys@.len())
    }

    fn execute<S: Storage>(self, store: &mut S) -> (r: CommandResponse) {
        let mut values: Vec<Value> = Vec::new();
        let mut i: usize = 0;
        while i < self.keys.len()
            invariant
                store.inv(),
                i <= self.keys@.len(),
                values@.len() == i,
                store.exact() ==> forall|j: int|
                    0 <= j < i ==> (#[trigger] values@[j])@ == or_empty(
                        lookup(store.model(), self.table@, self.keys@[j]@),
                    ),
            decreases self.keys@.len() - i,
        {
            let v = value_or_empty(store.get(self.table.as_str(), self.keys[i].as_str()));
            values.push(v);
            i = i + 1;
        }
        let ghost expected = keys_view(self.keys@).map_values(
            |k: Seq<char>| or_empty(lookup(store.model(), self.table@, k)),
        );
        assert(store.exact() ==> values_view(values@) =~= expected);
        CommandResponse::from_values(values)
    }
}

impl CommandService for Hmset {
    open spec fn serves(&self, before: StoreModel, res: RespView, after: StoreModel) -> bool {
        let (vs, m) = set_each(before, self.table@, pairs_view(self.pairs@));
        res == ok_values(vs) && after == m
    }

    open spec fn shaped(&self, res: RespView) -> bool {
        batch_of(res, self.pairs@.len())
    }

    fn execute<S: Storage>(self, store: &mut S) -> (r: CommandResponse) {
        let ghost m0 = store.model();
        let ghost ps = pairs_view(self.pairs@);
        let mut values: Vec<Value> = Vec::new();
        let mut i: usize = 0;
        while i < self.pairs.len()
            invariant
                store.inv(),
                store.exact() == old(store).exact(),
                m0 == old(store).model(),
                ps == pairs_view(self.pairs@),
                i <= self.pairs@.len(),
                values@.len() == i,
                old(store).exact() ==> (values_view(values@), store.model()) == set_each(
                    m0,
                    self.table@,
                    ps.take(i as int),
                ),
            decreases self.pairs@.len() - i,
        {
            let key = self.pairs[i].key.clone();
            let value = self.pairs[i].value.duplicate();
            let v = value_or_empty(store.set(self.table.as_str(), key, value));
            let ghost vs_old = values@;
            values.push(v);
            proof {
                assert(ps.take(i + 1).drop_last() =~= ps.take(i as int));
                assert(values_view(values@) =~= values_view(vs_old).push(v@));
            }
            i = i + 1;
        }
        assert(ps.take(i as int) =~= ps);
        CommandResponse::from_values(values)
    }
}

impl CommandService for Hdel {
    open spec fn serves(&self, before: StoreModel, res: RespView, after: StoreModel) -> bool {
        &&& res == ok_values(seq![or_empty(lookup(before, self.table@, self.key@))])
        &&& after == before.remove((self.table@, self.key@))
    }

    open spec fn shaped(&self, res: RespView) -> bool {
        exists|r: Result<Option<Value>, KvError>| store_error(r) && res == previous_answer(r)
    }

    fn execute<S: Storage>(self, store: &mut S) -> (r: CommandResponse) {
        previous_response(store.del(self.table.as_str(), self.key.as_str()))
    }
}

impl CommandService for Hmdel {
    open spec fn serves(&self, before: StoreModel, res: RespView, after: StoreModel) -> bool {
        let (vs, m) = del_each(before, self.table@, keys_view(self.keys@));
        res == ok_values(vs) && after == m
    }

    open spec fn shaped(&self, res: RespView) -> bool {
        batch_of(res, self.keys@.len())
    }

    fn execute<S: Storage>(self, store: &mut S) -> (r: CommandResponse) {
        let ghost m0 = store.model();
        let ghost ks = keys_view(self.keys@);
        let mut values: Vec<Value> = Vec::new();
        let mut i: usize = 0;
        while i < self.keys.len()
            invariant
                store.inv(),
                store.exact() == old(store).exact(),
                m0 == old(store).model(),
                ks == keys_view(self.keys@),
                i <= self.keys@.len(),
                values@.len() == i,
                old(store).exact() ==> (values_view(values@), store.model()) == del_each(
                    m0,
                    self.table@,
                    ks.take(i as int),
                ),
            decreases self.keys@.len() - i,
        {
            let v = value_or_empty(store.del(self.table.as_str(), self.keys[i].as_str()));
            let ghost vs_old = values@;
            values.push(v);
            proof {
                assert(ks.take(i + 1).drop_last() =~= ks.take(i as int));
                assert(values_view(values@) =~= values_view(vs_old).push(v@));
            }
            i = i + 1;
        }
        assert(ks.take(i as int) =~= ks);
        CommandResponse::from_values(values)
    }
}

impl CommandService for Hexist {
    open spec fn serves(&self, before: StoreModel, res: RespView, after: StoreModel) -> bool {
        &&& after == before
        &&& res == ok_values(seq![VValue::Bool(before.contains_key((self.table@, self.key@)))])
    }

    open spec fn shaped(&self, res: RespView) -> bool {
        exists|r: Result<bool, KvError>| store_error(r) && res == exist_answer(r)
    }

    fn execute<S: Storage>(self, store: &mut S) -> (r: CommandResponse) {
        exist_response(store.contains(self.table.as_str(), self.key.as_str()))
    }
}

impl CommandService for Hmexist {
    open spec fn serves(&self, before: StoreModel, res: RespView, after: StoreModel) -> bool {
        &&& after == before
        &&& res == ok_values(
            keys_view(self.keys@).map_values(
                |k: Seq<char>| VValue::Bool(before.contains_key((self.table@, k))),
            ),
        )
    }

    open spec fn shaped(&self, res: RespView) -> bool {
        batch_of(res, self.keys@.len())
    }

    fn execute<S: Storage>(self, store: &mut S) -> (r: CommandResponse) {
        let mut values: Vec<Value> = Vec::new();
        let mut i: usize = 0;
        while i < self.keys.len()
            invariant
                store.inv(),
                i <= self.keys@.len(),
                values@.len() == i,
                store.exact() ==> forall|j: int|
                    0 <= j < i ==> (#[trigger] values@[j])@ == VValue::Bool(
                        store.model().contains_key((self.table@, self.keys@[j]@)),
                    ),
            decreases self.keys@.len() - i,
        {
            let v = exists_or_empty(store.contains(self.table.as_str(), self.keys[i].as_str()));
            values.push(v);
            i = i + 1;
        }
        let ghost expected = keys_view(self.keys@).map_values(
            |k: Seq<char>| VValue::Bool(store.model().contains_key((self.table@, k))),
        );
        assert(store.exact() ==> values_view(values@) =~= expected);
        CommandResponse::from_values(values)
    }
}

/// What serving `cmd` may answer, and leave, on a store holding `before`
/// that reports no error.
pub open spec fn dispatch_serves(
    cmd: CommandRequest,
    before: StoreModel,
    res: RespView,
    after: StoreModel,
) -> bool {
    match cmd.request_data {
        Some(RequestData::Hget(p)) => p.serves(before, res, after),
        Some(RequestData::Hgetall(p)) => p.serves(before, res, after),
        Some(RequestData::Hset(p)) => p.serves(before, res, after),
        Some(RequestData::Hmget(p)) => p.serves(before, res, after),
        Some(RequestData::Hmset(p)) => p.serves(before, res, after),
        Some(RequestData::Hdel(p)) => p.serves(before, res, after),
        Some(RequestData::Hmdel(p)) => p.serves(before, res, after),
        Some(RequestData::Hexist(p)) => p.serves(before, res, after),
        Some(RequestData::Hmexist(p)) => p.serves(before, res, after),
        None => res == failure(STATUS_BAD_REQUEST, no_data_message()) && after == before,
    }
}

/// What the answer to `cmd` looks like on any store.
pub open spec fn dispatch_shaped(cmd: CommandRequest, res: RespView) -> bool {
    match cmd.request_data {
        Some(RequestData::Hget(p)) => p.shaped(res),
        Some(RequestData::Hgetall(p)) => p.shaped(res),
        Some(RequestData::Hset(p)) => p.shaped(res),
        Some(RequestData::Hmget(p)) => p.shaped(res),
        Some(RequestData::Hmset(p)) => p.shaped(res),
        Some(RequestData::Hdel(p)) => p.shaped(res),
        Some(RequestData::Hmdel(p)) => p.shaped(res),
        Some(RequestData::Hexist(p)) => p.shaped(res),
        Some(RequestData::Hmexist(p)) => p.shaped(res),
        None => res == failure(STATUS_BAD_REQUEST, no_data_message()),
    }
}

/// Runs the command that `cmd` carries against `store`.
pub fn dispatch<S: Storage>(cmd: CommandRequest, store: &mut S) -> (r: CommandResponse)
    requires
        old(store).inv(),
    ensures
        final(store).inv(),
        final(store).exact() == old(store).exact(),
        old(store).exact() ==> dispatch_serves(cmd, old(store).model(), r@, final(store).model()),
        dispatch_shaped(cmd, r@),
        cmd.request_data matches Some(RequestData::Hset(p)) && p.pair is None ==> *final(store)
            == *old(store),
        cmd.request_data is None ==> r@ == failure(STATUS_BAD_REQUEST, no_data_message())
            && *final(store) == *old(store),
{
    match cmd.request_data {
        Some(RequestData::Hget(p)) => p.execute(store),
        Some(RequestData::Hgetall(p)) => p.execute(store),
        Some(RequestData::Hset(p)) => p.execute(store),
        Some(RequestData::Hmget(p)) => p.execute(store),
        Some(RequestData::Hmset(p)) => p.execute(store),
        Some(RequestData::Hdel(p)) => p.execute(store),
        Some(RequestData::Hmdel(p)) => p.execute(store),
        Some(RequestData::Hexist(p)) => p.execute(store),
        Some(RequestData::Hmexist(p)) => p.execute(store),
        None => {
            let reason = String::from_str("Request has no data");
            CommandResponse::from_error(KvError::InvalidCommand(reason))
        },
    }
}

} // verus!
