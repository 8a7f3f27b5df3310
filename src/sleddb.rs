use vstd::prelude::*;

use crate::codec::{decode_value, encode_value, encoding, pair_from_entry, pairs_from_entries};
use crate::command::KvError;
use crate::storage::{flip, Storage, StoreModel};
use crate::value::{Kvpair, VValue, Value};

verus! {

#[verifier::external_type_specification]
#[verifier::external_body]
pub struct ExDb(sled::Db);

#[verifier::external_type_specification]
#[verifier::external_body]
pub struct ExTree(sled::Tree);

#[verifier::external_type_specification]
#[verifier::external_body]
pub struct ExIter(sled::Iter);

// `sled::Iter`'s `Iterator` impl names `IVec` and `sled::Error`, so they
// are declared too, though no signature here uses them.
#[verifier::external_type_specification]
#[verifier::external_body]
pub struct ExIVec(sled::IVec);

#[verifier::external_type_specification]
#[verifier::external_body]
pub struct ExError(sled::Error);

/// Relies on `sled::open`: opens or creates the database at `path`. Whether
/// it succeeds depends on the disk.
#[verifier::external_body]
fn open_db(path: &str) -> (r: Result<sled::Db, String>)
{
    match sled::open(path) {
        Ok(db) => Ok(db),
        Err(e) => Err(e.to_string()),
    }
}

/// Relies on `sled::Db::open_tree`: opens or creates the tree named `name`.
#[verifier::external_body]
fn open_tree(db: &sled::Db, name: &str) -> (r: Result<sled::Tree, String>)
{
    match db.open_tree(name) {
        Ok(tree) => Ok(tree),
        Err(e) => Err(e.to_string()),
    }
}

/// Relies on `sled::Tree::get`: the bytes stored under `key`, as the disk
/// holds them.
#[verifier::external_body]
fn tree_get(tree: &sled::Tree, key: &str) -> (r: Result<Option<Vec<u8>>, String>)
{
    match tree.get(key) {
        Ok(v) => Ok(v.map(|v| v.to_vec())),
        Err(e) => Err(e.to_string()),
    }
}

/// Relies on `sled::Tree::insert`: stores `value` under `key`, giving back
/// the bytes it replaced.
#[verifier::external_body]
fn tree_insert(tree: &sled::Tree, key: String, value: Vec<u8>) -> (r: Result<Option<Vec<u8>>, String>)
{
    match tree.insert(key, value) {
        Ok(v) => Ok(v.map(|v| v.to_vec())),
        Err(e) => Err(e.to_string()),
    }
}

/// Relies on `sled::Tree::contains_key`: whether the disk holds `key`.
#[verifier::external_body]
fn tree_contains(tree: &sled::Tree, key: &str) -> (r: Result<bool, String>)
{
    match tree.contains_key(key) {
        Ok(b) => Ok(b),
        Err(e) => Err(e.to_string()),
    }
}

/// Relies on `sled::Tree::remove`: removes `key`, giving back the bytes it
/// held.
#[verifier::external_body]
fn tree_remove(tree: &sled::Tree, key: &str) -> (r: Result<Option<Vec<u8>>, String>)
{
    match tree.remove(key) {
        Ok(v) => Ok(v.map(|v| v.to_vec())),
        Err(e) => Err(e.to_string()),
    }
}

/// Relies on `sled::Tree::iter`: each entry of the tree in key order, as key
/// and value bytes, or `None` for an entry that could not be read.
#[verifier::external_body]
fn tree_entries(tree: &sled::Tree) -> (r: Vec<Option<(Vec<u8>, Vec<u8>)>>)
{
    tree.iter().map(|e| e.ok().map(|(k, v)| (k.to_vec(), v.to_vec()))).collect()
}

/// Relies on `sled::Tree::iter`: a lazy scan of the tree in key order.
#[verifier::external_body]
fn tree_iter(tree: &sled::Tree) -> (r: sled::Iter)
{
    tree.iter()
}

/// Relies on `Iterator::next` of `sled::Iter`: the next entry as key and
/// value bytes, `Some(None)` for an entry that could not be read, and `None`
/// once the scan is over.
#[verifier::external_body]
fn iter_next(it: &mut sled::Iter) -> (r: Option<Option<(Vec<u8>, Vec<u8>)>>)
{
    it.next().map(|e| e.ok().map(|(k, v)| (k.to_vec(), v.to_vec())))
}

/// The stored bytes of an entry, decoded: absent bytes are an absent value,
/// and bytes that are no value's encoding are a conversion error.
fn decode_stored(bytes: Option<Vec<u8>>) -> (r: Result<Option<Value>, KvError>)
    ensures
        bytes is None ==> r is Ok && r->Ok_0 is None,
        bytes is Some && r is Ok ==> r->Ok_0 is Some && encoding(r->Ok_0->Some_0@)
            == bytes->Some_0@,
        bytes is Some && (exists|v: VValue| encoding(v) == bytes->Some_0@) ==> r is Ok,
        forall|v: VValue|
            bytes is Some && #[trigger] encoding(v) == bytes->Some_0@ ==> r is Ok && r->Ok_0 is Some
                && r->Ok_0->Some_0@ == v,
        r is Err ==> r->Err_0 is ConvertError,
{
    flip(
        match bytes {
            Some(b) => Some(decode_value(b.as_slice())),
            None => None,
        },
    )
}

fn backend(e: String) -> (r: KvError)
    ensures
        r == KvError::BackendError(e),
{
    KvError::BackendError(e)
}

/// A store whose tables are sled trees, one per table name, holding values
/// as their byte encoding. Its contents live on disk, so it is not exact:
/// what it answers comes from the disk, decoded by the library.
pub struct SledDB {
    db: sled::Db,
}

impl SledDB {
    /// Opens or creates the database at `path`.
    pub fn new(path: &str) -> (r: Result<SledDB, KvError>)
        ensures
            r is Err ==> r->Err_0 is BackendError,
    {
        match open_db(path) {
            Ok(db) => Ok(SledDB { db }),
            Err(e) => Err(backend(e)),
        }
    }

    /// A lazy, single-pass scan of `table`, for tables too large to gather
    /// whole.
    pub fn get_iter(&self, table: &str) -> (r: Result<SledIter, KvError>)
        ensures
            r is Err ==> r->Err_0 is BackendError,
    {
        match self.tree(table) {
            Ok(tree) => Ok(SledIter { inner: tree_iter(&tree) }),
            Err(e) => Err(e),
        }
    }

    fn tree(&self, table: &str) -> (r: Result<sled::Tree, KvError>)
        ensures
            r is Err ==> r->Err_0 is BackendError,
    {
        match open_tree(&self.db, table) {
            Ok(t) => Ok(t),
            Err(e) => Err(backend(e)),
        }
    }
}

/// A scan over one table of a [`SledDB`]. An entry that cannot be read or
/// decoded comes out as the empty pair rather than ending the scan.
pub struct SledIter {
    inner: sled::Iter,
}

impl SledIter {
    /// The next pair of the scan, or `None` once it is over.
    pub fn next(&mut self) -> (r: Option<Kvpair>) {
        match iter_next(&mut self.inner) {
            Some(entry) => Some(pair_from_entry(entry)),
            None => None,
        }
    }
}

impl Storage for SledDB {
    /// The disk backend keeps no model of its contents, which live on disk:
    /// it is not exact, so no clause of the storage contract speaks of this.
    closed spec fn model(&self) -> StoreModel {
        Map::empty()
    }

    closed spec fn inv(&self) -> bool {
        true
    }

    open spec fn exact(&self) -> bool {
        false
    }

    fn get(&self, table: &str, key: &str) -> (r: Result<Option<Value>, KvError>) {
        let tree = match self.tree(table) {
            Ok(t) => t,
            Err(e) => return Err(e),
        };
        match tree_get(&tree, key) {
            Ok(bytes) => decode_stored(bytes),
            Err(e) => Err(backend(e)),
        }
    }

    fn set(&mut self, table: &str, key: String, value: Value) -> (r: Result<Option<Value>, KvError>) {
        let tree = match self.tree(table) {
            Ok(t) => t,
            Err(e) => return Err(e),
        };
        match tree_insert(&tree, key, encode_value(&value)) {
            Ok(bytes) => decode_stored(bytes),
            Err(e) => Err(backend(e)),
        }
    }

    fn contains(&self, table: &str, key: &str) -> (r: Result<bool, KvError>) {
        let tree = match self.tree(table) {
            Ok(t) => t,
            Err(e) => return Err(e),
        };
        match tree_contains(&tree, key) {
            Ok(b) => Ok(b),
            Err(e) => Err(backend(e)),
        }
    }

    fn del(&mut self, table: &str, key: &str) -> (r: Result<Option<Value>, KvError>) {
        let tree = match self.tree(table) {
            Ok(t) => t,
            Err(e) => return Err(e),
        };
        match tree_remove(&tree, key) {
            Ok(bytes) => decode_stored(bytes),
            Err(e) => Err(backend(e)),
        }
    }

    fn get_all(&self, table: &str) -> (r: Result<Vec<Kvpair>, KvError>) {
        let tree = match self.tree(table) {
            Ok(t) => t,
            Err(e) => return Err(e),
        };
        Ok(pairs_from_entries(tree_entries(&tree)))
    }
}

} // verus!
