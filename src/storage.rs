use vstd::prelude::*;

use crate::command::{pairs_view, KvError};
use crate::value::{Kvpair, VValue, Value};

verus! {

/// The contents of a store: the value of each (table, key) entry.
pub type StoreModel = Map<(Seq<char>, Seq<char>), VValue>;

/// The value of an entry, if present.
pub open spec fn lookup(m: StoreModel, table: Seq<char>, key: Seq<char>) -> Option<VValue> {
    if m.contains_key((table, key)) {
        Some(m[(table, key)])
    } else {
        None
    }
}

pub open spec fn opt_view(o: Option<Value>) -> Option<VValue> {
    match o {
        Some(v) => Some(v@),
        None => None,
    }
}

/// A present value, or the empty default where absent.
pub open spec fn or_empty(o: Option<VValue>) -> VValue {
    match o {
        Some(v) => v,
        None => VValue::Empty,
    }
}

/// `ps` lists every entry of `table` in `m` exactly once, in some order.
pub open spec fn lists_table(ps: Seq<(Seq<char>, VValue)>, m: StoreModel, table: Seq<char>) -> bool {
    &&& forall|i: int, j: int| 0 <= i < j < ps.len() ==> ps[i].0 != ps[j].0
    &&& forall|i: int| 0 <= i < ps.len() ==> lookup(m, table, #[trigger] ps[i].0) == Some(ps[i].1)
    &&& forall|k: Seq<char>|
        m.contains_key((table, k)) ==> exists|i: int| 0 <= i < ps.len() && #[trigger] ps[i].0 == k
}

/// Turns an optional outcome into an outcome that is optional on success:
/// `None` becomes `Ok(None)`, `Some(Ok(x))` becomes `Ok(Some(x))`, and
/// `Some(Err(e))` becomes `Err(e)`.
pub fn flip<T, E>(v: Option<Result<T, E>>) -> (r: Result<Option<T>, E>)
    ensures
        v is None ==> r == Ok::<Option<T>, E>(None),
        v matches Some(Ok(x)) ==> r == Ok::<Option<T>, E>(Some(x)),
        v matches Some(Err(e)) ==> r == Err::<Option<T>, E>(e),
{
    match v {
        None => Ok(None),
        Some(Ok(x)) => Ok(Some(x)),
        Some(Err(e)) => Err(e),
    }
}

/// A named-table key/value backend. Each operation acts on one entry, or
/// reads one table.
pub trait Storage {
    /// What the store holds.
    spec fn model(&self) -> StoreModel;

    /// The store's internal consistency.
    spec fn inv(&self) -> bool;

    /// The backend never reports an error, and each operation acts on
    /// `model` as its contract states. A backend whose contents live outside
    /// the program (on disk) is not exact: its operations promise only their
    /// error kinds.
    spec fn exact(&self) -> bool;

    /// The value stored under `key` in `table`; absence is `Ok(None)`.
    fn get(&self, table: &str, key: &str) -> (r: Result<Option<Value>, KvError>)
        requires
            self.inv(),
        ensures
            self.exact() ==> r is Ok,
            self.exact() ==> opt_view(r->Ok_0) == lookup(self.model(), table@, key@),
            r is Err ==> r->Err_0 is BackendError || r->Err_0 is ConvertError,
    ;

    /// Stores `value` under `key`, returning the value it replaced.
    fn set(&mut self, table: &str, key: String, value: Value) -> (r: Result<Option<Value>, KvError>)
        requires
            old(self).inv(),
        ensures
            final(self).inv(),
            final(self).exact() == old(self).exact(),
            old(self).exact() ==> r is Ok,
            old(self).exact() ==> opt_view(r->Ok_0) == lookup(old(self).model(), table@, key@),
            old(self).exact() ==> final(self).model() == old(self).model().insert((table@, key@), value@),
            r is Err ==> r->Err_0 is BackendError || r->Err_0 is ConvertError,
    ;

    /// Whether `key` is present in `table`.
    fn contains(&self, table: &str, key: &str) -> (r: Result<bool, KvError>)
        requires
            self.inv(),
        ensures
            self.exact() ==> r is Ok,
            self.exact() ==> r->Ok_0 == self.model().contains_key((table@, key@)),
            r is Err ==> r->Err_0 is BackendError || r->Err_0 is ConvertError,
    ;

    /// Removes `key` from `table`, returning the value it held.
    fn del(&mut self, table: &str, key: &str) -> (r: Result<Option<Value>, KvError>)
        requires
            old(self).inv(),
        ensures
            final(self).inv(),
            final(self).exact() == old(self).exact(),
            old(self).exact() ==> r is Ok,
            old(self).exact() ==> opt_view(r->Ok_0) == lookup(old(self).model(), table@, key@),
            old(self).exact() ==> final(self).model() == old(self).model().remove((table@, key@)),
            r is Err ==> r->Err_0 is BackendError || r->Err_0 is ConvertError,
    ;

    /// Every entry of `table`, in an order of the backend's choosing.
    fn get_all(&self, table: &str) -> (r: Result<Vec<Kvpair>, KvError>)
        requires
            self.inv(),
        ensures
            self.exact() ==> r is Ok,
            self.exact() ==> lists_table(pairs_view(r->Ok_0@), self.model(), table@),
            r is Err ==> r->Err_0 is BackendError || r->Err_0 is ConvertError,
    ;
}

} // verus!
