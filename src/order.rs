use vstd::prelude::*;
use vstd::string::StrSliceExecFns;

use crate::value::{Kvpair, VValue, Value};

verus! {

/// Lexicographic comparison of two sequences of numbers: negative, zero or
/// positive as `a` sorts before, with or after `b`.
pub open spec fn lex_cmp(a: Seq<int>, b: Seq<int>) -> int
    decreases a.len(),
{
    if a.len() == 0 {
        if b.len() == 0 { 0 } else { -1 }
    } else if b.len() == 0 {
        1
    } else if a[0] < b[0] {
        -1
    } else if a[0] > b[0] {
        1
    } else {
        lex_cmp(a.drop_first(), b.drop_first())
    }
}

pub open spec fn char_codes(s: Seq<char>) -> Seq<int> {
    s.map_values(|c: char| c as int)
}

pub open spec fn byte_codes(s: Seq<u8>) -> Seq<int> {
    s.map_values(|b: u8| b as int)
}

/// The place of a value's kind in the order of kinds.
pub open spec fn kind_rank(v: VValue) -> int {
    match v {
        VValue::Empty => 0,
        VValue::Str(_) => 1,
        VValue::Integer(_) => 2,
        VValue::Bool(_) => 3,
        VValue::Binary(_) => 4,
    }
}

/// The order of values: by kind, then by content (text by character,
/// integers by number, `false` before `true`, bytes lexicographically).
pub open spec fn value_cmp(a: VValue, b: VValue) -> int {
    if kind_rank(a) != kind_rank(b) {
        if kind_rank(a) < kind_rank(b) { -1 } else { 1 }
    } else {
        match (a, b) {
            (VValue::Str(x), VValue::Str(y)) => lex_cmp(char_codes(x), char_codes(y)),
            (VValue::Integer(x), VValue::Integer(y)) => if x < y { -1 } else if x > y { 1 } else { 0 },
            (VValue::Bool(x), VValue::Bool(y)) => if x == y { 0 } else if !x { -1 } else { 1 },
            (VValue::Binary(x), VValue::Binary(y)) => lex_cmp(byte_codes(x), byte_codes(y)),
            _ => 0,
        }
    }
}

/// The order of pairs: by key, then by value.
pub open spec fn pair_cmp(a: (Seq<char>, VValue), b: (Seq<char>, VValue)) -> int {
    let k = lex_cmp(char_codes(a.0), char_codes(b.0));
    if k != 0 { k } else { value_cmp(a.1, b.1) }
}

/// `ps` is in ascending pair order.
pub open spec fn pairs_sorted(ps: Seq<(Seq<char>, VValue)>) -> bool {
    forall|i: int| 0 <= i < ps.len() - 1 ==> pair_cmp(#[trigger] ps[i], ps[i + 1]) <= 0
}

proof fn lex_cmp_from(a: Seq<int>, b: Seq<int>, i: int)
    requires
        0 <= i < a.len(),
        i < b.len(),
        a[i] == b[i],
    ensures
        lex_cmp(a.subrange(i, a.len() as int), b.subrange(i, b.len() as int)) == lex_cmp(
            a.subrange(i + 1, a.len() as int),
            b.subrange(i + 1, b.len() as int),
        ),
{
    assert(a.subrange(i, a.len() as int).drop_first() =~= a.subrange(i + 1, a.len() as int));
    assert(b.subrange(i, b.len() as int).drop_first() =~= b.subrange(i + 1, b.len() as int));
}

/// Compares two sequences of numbers given as vectors of `u32`.
fn lex_compare(a: &Vec<u32>, b: &Vec<u32>) -> (r: i8)
    ensures
        r as int == lex_cmp(a@.map_values(|x: u32| x as int), b@.map_values(|x: u32| x as int)),
{
    let ghost sa = a@.map_values(|x: u32| x as int);
    let ghost sb = b@.map_values(|x: u32| x as int);
    let mut i: usize = 0;
    assert(sa.subrange(0, sa.len() as int) =~= sa);
    assert(sb.subrange(0, sb.len() as int) =~= sb);
    while i < a.len() && i < b.len()
        invariant
            i <= a@.len(),
            i <= b@.len(),
            sa == a@.map_values(|x: u32| x as int),
            sb == b@.map_values(|x: u32| x as int),
            lex_cmp(sa, sb) == lex_cmp(
                sa.subrange(i as int, sa.len() as int),
                sb.subrange(i as int, sb.len() as int),
            ),
        decreases a@.len() - i,
    {
        if a[i] < b[i] {
            return -1;
        }
        if a[i] > b[i] {
            return 1;
        }
        proof {
            lex_cmp_from(sa, sb, i as int);
        }
        i = i + 1;
    }
    if a.len() == i && b.len() == i {
        0
    } else if a.len() == i {
        -1
    } else {
        1
    }
}

fn codes_of_str(s: &str) -> (r: Vec<u32>)
    ensures
        r@.map_values(|x: u32| x as int) == char_codes(s@),
{
    let n = s.unicode_len();
    let mut r: Vec<u32> = Vec::new();
    let mut i: usize = 0;
    while i < n
        invariant
            n == s@.len(),
            i <= n,
            r@.len() == i,
            forall|j: int| 0 <= j < i ==> r@[j] as int == s@[j] as int,
        decreases n - i,
    {
        r.push(s.get_char(i) as u32);
        i = i + 1;
    }
    assert(r@.map_values(|x: u32| x as int) =~= char_codes(s@));
    r
}

fn codes_of_bytes(b: &Vec<u8>) -> (r: Vec<u32>)
    ensures
        r@.map_values(|x: u32| x as int) == byte_codes(b@),
{
    let mut r: Vec<u32> = Vec::new();
    let mut i: usize = 0;
    while i < b.len()
        invariant
            i <= b@.len(),
            r@.len() == i,
            forall|j: int| 0 <= j < i ==> r@[j] as int == b@[j] as int,
        decreases b@.len() - i,
    {
        r.push(b[i] as u32);
        i = i + 1;
    }
    assert(r@.map_values(|x: u32| x as int) =~= byte_codes(b@));
    r
}

fn rank(v: &Value) -> (r: u8)
    ensures
        r as int == kind_rank(v@),
{
    match v {
        Value::Empty => 0,
        Value::Str(_) => 1,
        Value::Integer(_) => 2,
        Value::Bool(_) => 3,
        Value::Binary(_) => 4,
    }
}

/// Compares two values in the order of values.
pub fn compare_values(a: &Value, b: &Value) -> (r: i8)
    ensures
        r as int == value_cmp(a@, b@),
{
    let ra = rank(a);
    let rb = rank(b);
    if ra != rb {
        return if ra < rb { -1 } else { 1 };
    }
    match (a, b) {
        (Value::Str(x), Value::Str(y)) => lex_compare(&codes_of_str(x.as_str()), &codes_of_str(y.as_str())),
        (Value::Integer(x), Value::Integer(y)) => if *x < *y { -1 } else if *x > *y { 1 } else { 0 },
        (Value::Bool(x), Value::Bool(y)) => if *x == *y { 0 } else if !*x { -1 } else { 1 },
        (Value::Binary(x), Value::Binary(y)) => lex_compare(&codes_of_bytes(x), &codes_of_bytes(y)),
        _ => 0,
    }
}

/// Compares two pairs in the order of pairs.
pub fn compare_pairs(a: &Kvpair, b: &Kvpair) -> (r: i8)
    ensures
        r as int == pair_cmp(a@, b@),
{
    let k = lex_compare(&codes_of_str(a.key.as_str()), &codes_of_str(b.key.as_str()));
    if k != 0 {
        k
    } else {
        compare_values(&a.value, &b.value)
    }
}

/// Whether `ps` is in ascending pair order.
pub fn is_sorted(ps: &[Kvpair]) -> (r: bool)
    ensures
        r == pairs_sorted(ps@.map_values(|p: Kvpair| p@)),
{
    let ghost pv = ps@.map_values(|p: Kvpair| p@);
    let mut i: usize = 1;
    if ps.len() == 0 {
        return true;
    }
    while i < ps.len()
        invariant
            1 <= i <= ps@.len(),
            pv == ps@.map_values(|p: Kvpair| p@),
            forall|j: int| 0 <= j < i - 1 ==> pair_cmp(#[trigger] pv[j], pv[j + 1]) <= 0,
        decreases ps@.len() - i,
    {
        if compare_pairs(&ps[i - 1], &ps[i]) > 0 {
            assert(pair_cmp(pv[i - 1], pv[i as int]) > 0);
            return false;
        }
        i = i + 1;
    }
    true
}

} // verus!
