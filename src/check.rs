use vstd::multiset::Multiset;
use vstd::prelude::*;
use vstd::seq_lib::{lemma_multiset_commutative, to_multiset_build, to_multiset_contains, to_multiset_len, to_multiset_remove};
use vstd::string::StrSliceExecFns;

use crate::command::{ok_pairs, ok_values, pairs_view, values_view, CommandResponse};
use crate::order::{is_sorted, pairs_sorted};
use crate::value::{Kvpair, VValue, Value};

verus! {

/// Whether two byte sequences are equal.
fn same_bytes(a: &Vec<u8>, b: &Vec<u8>) -> (r: bool)
    ensures
        r == (a@ == b@),
{
    if a.len() != b.len() {
        return false;
    }
    let mut i: usize = 0;
    while i < a.len()
        invariant
            a@.len() == b@.len(),
            i <= a@.len(),
            forall|j: int| 0 <= j < i ==> a@[j] == b@[j],
        decreases a@.len() - i,
    {
        if a[i] != b[i] {
            return false;
        }
        i = i + 1;
    }
    assert(a@ =~= b@);
    true
}

/// Whether two values have the same model.
pub fn same_value(a: &Value, b: &Value) -> (r: bool)
    ensures
        r == (a@ == b@),
{
    match (a, b) {
        (Value::Empty, Value::Empty) => true,
        (Value::Str(x), Value::Str(y)) => *x == *y,
        (Value::Integer(x), Value::Integer(y)) => *x == *y,
        (Value::Bool(x), Value::Bool(y)) => *x == *y,
        (Value::Binary(x), Value::Binary(y)) => same_bytes(x, y),
        _ => false,
    }
}

/// Whether two pairs have the same model.
pub fn same_pair(a: &Kvpair, b: &Kvpair) -> (r: bool)
    ensures
        r == (a@ == b@),
{
    a.key == b.key && same_value(&a.value, &b.value)
}

/// The position of a pair equal to `p` in `ps`, if any.
fn find_pair(ps: &Vec<Kvpair>, p: &Kvpair) -> (r: Option<usize>)
    ensures
        r is Some ==> r->Some_0 < ps@.len() && ps@[r->Some_0 as int]@ == p@,
        r is None ==> forall|q: int| 0 <= q < ps@.len() ==> (#[trigger] ps@[q])@ != p@,
{
    let mut j: usize = 0;
    while j < ps.len()
        invariant
            j <= ps@.len(),
            forall|q: int| 0 <= q < j ==> (#[trigger] ps@[q])@ != p@,
        decreases ps@.len() - j,
    {
        if same_pair(&ps[j], p) {
            return Some(j);
        }
        j = j + 1;
    }
    None
}

fn copy_pair(p: &Kvpair) -> (r: Kvpair)
    ensures
        r@ == p@,
{
    Kvpair { key: p.key.clone(), value: p.value.duplicate() }
}

/// Whether `a` and `b` hold the same pairs, each as often, in any order.
fn same_pairs_any_order(a: &[Kvpair], b: &[Kvpair]) -> (r: bool)
    ensures
        r == (pairs_view(a@).to_multiset() == pairs_view(b@).to_multiset()),
{
    broadcast use to_multiset_build, to_multiset_contains, to_multiset_len, to_multiset_remove;

    let ghost av = pairs_view(a@);
    let ghost bv = pairs_view(b@);
    if a.len() != b.len() {
        assert(av.to_multiset().len() != bv.to_multiset().len());
        return false;
    }
    let mut rest: Vec<Kvpair> = Vec::new();
    let mut k: usize = 0;
    while k < b.len()
        invariant
            k <= b@.len(),
            bv == pairs_view(b@),
            pairs_view(rest@) == bv.take(k as int),
        decreases b@.len() - k,
    {
        let ghost before = rest@;
        rest.push(copy_pair(&b[k]));
        assert(pairs_view(rest@) =~= pairs_view(before).push(b@[k as int]@));
        assert(bv.take(k + 1) =~= bv.take(k as int).push(bv[k as int]));
        k = k + 1;
    }
    assert(bv.take(k as int) =~= bv);
    let mut i: usize = 0;
    while i < a.len()
        invariant
            a@.len() == b@.len(),
            i <= a@.len(),
            av == pairs_view(a@),
            bv == pairs_view(b@),
            rest@.len() == a@.len() - i,
            av.take(i as int).to_multiset().add(pairs_view(rest@).to_multiset()) == bv.to_multiset(),
        decreases a@.len() - i,
    {
        let ghost x = av[i as int];
        assert(a@[i as int]@ == x);
        assert(av.take(i + 1) =~= av.take(i as int).push(x));
        let found = find_pair(&rest, &a[i]);
        if found.is_none() {
            proof {
                let rv = pairs_view(rest@);
                assert forall|q: int| 0 <= q < rv.len() implies rv[q] != x by {
                    assert(rv[q] == rest@[q]@);
                }
                assert(!rv.contains(x));
                to_multiset_contains(rv, x);
                assert(rv.to_multiset().count(x) == 0);
                to_multiset_build(av.take(i as int), x);
                assert(av.take(i + 1).to_multiset().count(x) == av.take(i as int).to_multiset().count(x) + 1);
                assert(bv.to_multiset().count(x) == av.take(i as int).to_multiset().count(x));
                assert(av =~= av.take(i + 1) + av.skip(i + 1));
                lemma_multiset_commutative(av.take(i + 1), av.skip(i + 1));
                assert(av.to_multiset().count(x) >= av.take(i + 1).to_multiset().count(x));
                assert(av.to_multiset().count(x) > bv.to_multiset().count(x));
            }
            return false;
        }
        let j = found.unwrap();
        let ghost rv = pairs_view(rest@);
        proof {
            assert(rv[j as int] == x);
        }
        rest.remove(j);
        proof {
            assert(pairs_view(rest@) =~= rv.remove(j as int));
            assert(rv.contains(x));
            to_multiset_contains(rv, x);
            assert(rv.to_multiset().count(x) > 0);
            to_multiset_remove(rv, j as int);
            to_multiset_build(av.take(i as int), x);
            assert(av.take(i + 1).to_multiset().add(pairs_view(rest@).to_multiset()) =~= bv.to_multiset());
        }
        i = i + 1;
    }
    proof {
        assert(av.take(i as int) =~= av);
        assert(pairs_view(rest@) =~= Seq::<(Seq<char>, VValue)>::empty());
        assert(pairs_view(rest@).to_multiset() =~= Multiset::empty());
        assert(av.to_multiset().add(Multiset::empty()) =~= av.to_multiset());
    }
    true
}

fn same_values(a: &Vec<Value>, b: &[Value]) -> (r: bool)
    ensures
        r == (values_view(a@) == values_view(b@)),
{
    if a.len() != b.len() {
        assert(values_view(a@).len() != values_view(b@).len());
        return false;
    }
    let mut i: usize = 0;
    while i < a.len()
        invariant
            a@.len() == b@.len(),
            i <= a@.len(),
            forall|j: int| 0 <= j < i ==> (#[trigger] a@[j])@ == b@[j]@,
        decreases a@.len() - i,
    {
        if !same_value(&a[i], &b[i]) {
            assert(values_view(a@)[i as int] != values_view(b@)[i as int]);
            return false;
        }
        i = i + 1;
    }
    assert(values_view(a@) =~= values_view(b@));
    true
}

/// Whether `res` succeeded with exactly `values`, in order, and with the
/// pairs `pairs` once its own pairs are sorted: `pairs` is in ascending pair
/// order and holds the answered pairs, each as often.
pub fn assert_res_ok(res: CommandResponse, values: &[Value], pairs: &[Kvpair]) -> (r: bool)
    ensures
        r == (res@.status == 200 && res@.message.len() == 0 && res@.values == values_view(values@)
            && pairs_sorted(pairs_view(pairs@)) && res@.pairs.to_multiset() == pairs_view(
            pairs@,
        ).to_multiset()),
{
    if res.status != 200 || res.message.as_str().unicode_len() != 0 {
        return false;
    }
    if !same_values(&res.values, values) {
        return false;
    }
    let sorted = is_sorted(pairs);
    assert(pairs@.map_values(|p: Kvpair| p@) =~= pairs_view(pairs@));
    sorted && same_pairs_any_order(res.pairs.as_slice(), pairs)
}

/// `needle` occurs in `hay` at position `at`.
pub open spec fn occurs_at(hay: Seq<char>, needle: Seq<char>, at: int) -> bool {
    0 <= at && at + needle.len() <= hay.len() && hay.subrange(at, at + needle.len()) == needle
}

/// Whether `res` failed with status `code` and a message containing `msg`,
/// carrying no payload.
pub fn assert_res_error(res: CommandResponse, code: u32, msg: &str) -> (r: bool)
    ensures
        r == (res@.status == code && (exists|at: int| occurs_at(res@.message, msg@, at))
            && res@.values.len() == 0 && res@.pairs.len() == 0),
{
    if res.status != code || res.values.len() != 0 || res.pairs.len() != 0 {
        return false;
    }
    let hay = res.message.as_str();
    let n = hay.unicode_len();
    let m = msg.unicode_len();
    if m > n {
        assert forall|at: int| !occurs_at(res@.message, msg@, at) by {}
        return false;
    }
    let mut at: usize = 0;
    while at <= n - m
        invariant
            n == hay@.len(),
            m == msg@.len(),
            m <= n,
            hay@ == res@.message,
            res.status == code,
            res.values@.len() == 0,
            res.pairs@.len() == 0,
            forall|a: int| 0 <= a < at ==> !occurs_at(hay@, msg@, a),
        decreases n - m + 1 - at,
    {
        let mut j: usize = 0;
        let mut ok = true;
        while j < m
            invariant
                n == hay@.len(),
                m == msg@.len(),
                at + m <= n,
                j <= m,
                ok == forall|k: int| 0 <= k < j ==> hay@[at + k] == msg@[k],
            decreases m - j,
        {
            if ok && hay.get_char(at + j) != msg.get_char(j) {
                ok = false;
            }
            j = j + 1;
        }
        if ok {
            assert(hay@.subrange(at as int, at + m) =~= msg@);
            assert(occurs_at(res@.message, msg@, at as int));
            return true;
        }
        assert(!occurs_at(hay@, msg@, at as int)) by {
            let k = choose|k: int| 0 <= k < m && hay@[at + k] != msg@[k];
            assert(hay@.subrange(at as int, at + m)[k] != msg@[k]);
        }
        at = at + 1;
    }
    assert forall|a: int| !occurs_at(res@.message, msg@, a) by {
        if 0 <= a && a + m <= n {
            assert(a < at);
        }
    }
    false
}

} // verus!
