use vstd::bytes::{
    lemma_auto_spec_u64_to_from_le_bytes, spec_u64_from_le_bytes, spec_u64_to_le_bytes,
    u64_from_le_bytes, u64_to_le_bytes,
};
use vstd::prelude::*;
use vstd::utf8::{decode_utf8, encode_utf8, valid_utf8};
use vstd::string::StringExecFns;

use crate::command::KvError;
use crate::value::{Kvpair, VValue, Value};

verus! {

broadcast use vstd::utf8::encode_utf8_valid_utf8, vstd::utf8::encode_utf8_decode_utf8,
    vstd::utf8::decode_utf8_encode_utf8;

/// The UTF-8 bytes of a string.
fn utf8_bytes(s: &String) -> (r: Vec<u8>)
    ensures
        r@ == encode_utf8(s@),
{
    let b = s.as_str().as_bytes();
    let mut r: Vec<u8> = Vec::new();
    let mut i: usize = 0;
    while i < b.len()
        invariant
            i <= b@.len(),
            b@ == encode_utf8(s@),
            r@ == b@.take(i as int),
        decreases b@.len() - i,
    {
        r.push(b[i]);
        i = i + 1;
        assert(r@ =~= b@.take(i as int));
    }
    assert(b@.take(i as int) =~= b@);
    r
}

/// Relies on `String::from_utf8`: it accepts exactly the valid UTF-8 byte
/// sequences, and gives back the string they encode.
#[verifier::external_body]
fn utf8_string(b: Vec<u8>) -> (r: Option<String>)
    ensures
        r is Some <==> valid_utf8(b@),
        r is Some ==> r->Some_0@ == decode_utf8(b@),
{
    String::from_utf8(b).ok()
}

pub const TAG_EMPTY: u8 = 0;

pub const TAG_STR: u8 = 1;

pub const TAG_INTEGER: u8 = 2;

pub const TAG_BOOL: u8 = 3;

pub const TAG_BINARY: u8 = 4;

/// The bytes that stand for a value: a tag byte, then the payload (UTF-8
/// text, eight little-endian bytes of the integer, one byte 0 or 1 for a
/// boolean, or the raw bytes).
pub open spec fn encoding(v: VValue) -> Seq<u8> {
    match v {
        VValue::Empty => seq![TAG_EMPTY],
        VValue::Str(s) => seq![TAG_STR] + encode_utf8(s),
        VValue::Integer(i) => seq![TAG_INTEGER] + spec_u64_to_le_bytes(i as u64),
        VValue::Bool(b) => seq![TAG_BOOL, if b { 1u8 } else { 0u8 }],
        VValue::Binary(b) => seq![TAG_BINARY] + b,
    }
}

/// Encodes a value as bytes.
pub fn encode_value(v: &Value) -> (r: Vec<u8>)
    ensures
        r@ == encoding(v@),
{
    let mut out: Vec<u8> = Vec::new();
    match v {
        Value::Empty => {
            out.push(TAG_EMPTY);
        },
        Value::Str(s) => {
            out.push(TAG_STR);
            let mut body = utf8_bytes(s);
            out.append(&mut body);
        },
        Value::Integer(i) => {
            out.push(TAG_INTEGER);
            let mut body = u64_to_le_bytes(*i as u64);
            out.append(&mut body);
        },
        Value::Bool(b) => {
            out.push(TAG_BOOL);
            out.push(if *b { 1u8 } else { 0u8 });
        },
        Value::Binary(b) => {
            out.push(TAG_BINARY);
            out.extend_from_slice(b.as_slice());
        },
    }
    assert(out@ =~= encoding(v@));
    out
}

/// The bytes after the first.
fn rest_of(b: &[u8]) -> (r: Vec<u8>)
    requires
        b@.len() >= 1,
    ensures
        r@ == b@.subrange(1, b@.len() as int),
{
    let mut r: Vec<u8> = Vec::new();
    let mut i: usize = 1;
    while i < b.len()
        invariant
            1 <= i <= b@.len(),
            r@ == b@.subrange(1, i as int),
        decreases b@.len() - i,
    {
        r.push(b[i]);
        i = i + 1;
        assert(r@ =~= b@.subrange(1, i as int));
    }
    r
}

proof fn integer_cast_round_trip(i: i64, x: u64)
    ensures
        ((i as u64) as i64) == i,
        ((x as i64) as u64) == x,
{
    assert(((i as u64) as i64) == i) by (bit_vector);
    assert(((x as i64) as u64) == x) by (bit_vector);
}

fn malformed() -> (r: KvError)
    ensures
        r is ConvertError,
{
    KvError::ConvertError(String::from_str("malformed value bytes"))
}

/// Decodes bytes made by [`encode_value`]: exactly the encodings of values
/// decode, each to the value it encodes; any other input is a conversion
/// error.
pub fn decode_value(b: &[u8]) -> (r: Result<Value, KvError>)
    ensures
        r is Ok ==> encoding(r->Ok_0@) == b@,
        r is Err ==> r->Err_0 is ConvertError,
        forall|v: VValue| #[trigger] encoding(v) == b@ ==> r is Ok && r->Ok_0@ == v,
{
    proof {
        lemma_auto_spec_u64_to_from_le_bytes();
    }
    if b.len() == 0 {
        return Err(malformed());
    }
    let tag = b[0];
    let rest = rest_of(b);
    proof {
        assert(b@ =~= seq![tag] + rest@);
        assert forall|v: VValue| #[trigger] encoding(v) == b@ implies encoding(v)[0] == tag
            && encoding(v).subrange(1, encoding(v).len() as int) == rest@ by {
            assert(encoding(v).subrange(1, encoding(v).len() as int) =~= rest@);
        }
    }
    if tag == TAG_EMPTY {
        if rest.len() == 0 {
            assert(encoding(VValue::Empty) =~= b@);
            proof {
                assert forall|v: VValue| #[trigger] encoding(v) == b@ implies v == VValue::Empty by {
                    if let VValue::Bool(x) = v {
                        assert(encoding(v)[0] == TAG_BOOL);
                    }
                }
            }
            Ok(Value::Empty)
        } else {
            proof {
                assert forall|v: VValue| #[trigger] encoding(v) != b@ by {
                    if encoding(v) == b@ {
                        if let VValue::Bool(x) = v {
                            assert(encoding(v)[0] == TAG_BOOL);
                        }
                    }
                }
            }
            Err(malformed())
        }
    } else if tag == TAG_STR {
        match utf8_string(rest) {
            Some(s) => {
                assert(encoding(VValue::Str(s@)) =~= b@);
                proof {
                    assert forall|v: VValue| #[trigger] encoding(v) == b@ implies v == VValue::Str(s@) by {
                        if let VValue::Bool(x) = v {
                            assert(encoding(v)[0] == TAG_BOOL);
                        }
                        if let VValue::Str(t) = v {
                            assert(encoding(v).subrange(1, encoding(v).len() as int) =~= encode_utf8(t));
                        }
                    }
                }
                Ok(Value::Str(s))
            },
            None => {
                proof {
                    assert forall|v: VValue| #[trigger] encoding(v) != b@ by {
                        if encoding(v) == b@ {
                            if let VValue::Bool(x) = v {
                                assert(encoding(v)[0] == TAG_BOOL);
                            }
                            if let VValue::Str(t) = v {
                                assert(encoding(v).subrange(1, encoding(v).len() as int) =~= encode_utf8(t));
                            }
                        }
                    }
                }
                Err(malformed())
            },
        }
    } else if tag == TAG_INTEGER {
        if rest.len() == 8 {
            let x = u64_from_le_bytes(rest.as_slice());
            let i = x as i64;
            proof {
                integer_cast_round_trip(i, x);
                assert(encoding(VValue::Integer(i)) =~= b@);
                assert forall|v: VValue| #[trigger] encoding(v) == b@ implies v == VValue::Integer(i) by {
                    if let VValue::Bool(y) = v {
                        assert(encoding(v)[0] == TAG_BOOL);
                    }
                    if let VValue::Integer(j) = v {
                        assert(encoding(v).subrange(1, encoding(v).len() as int) =~= spec_u64_to_le_bytes(j as u64));
                        integer_cast_round_trip(j, x);
                    }
                }
            }
            Ok(Value::Integer(i))
        } else {
            proof {
                assert forall|v: VValue| #[trigger] encoding(v) != b@ by {
                    if encoding(v) == b@ {
                        if let VValue::Bool(y) = v {
                            assert(encoding(v)[0] == TAG_BOOL);
                        }
                        if let VValue::Integer(j) = v {
                            assert(encoding(v).subrange(1, encoding(v).len() as int) =~= spec_u64_to_le_bytes(j as u64));
                        }
                    }
                }
            }
            Err(malformed())
        }
    } else if tag == TAG_BOOL {
        if rest.len() == 1 && (rest[0] == 0 || rest[0] == 1) {
            let flag = rest[0] == 1;
            assert(encoding(VValue::Bool(flag)) =~= b@);
            proof {
                assert forall|v: VValue| #[trigger] encoding(v) == b@ implies v == VValue::Bool(flag) by {
                    if let VValue::Bool(y) = v {
                        assert(encoding(v)[1] == b@[1]);
                    }
                }
            }
            Ok(Value::Bool(flag))
        } else {
            proof {
                assert forall|v: VValue| #[trigger] encoding(v) != b@ by {
                    if encoding(v) == b@ {
                        if let VValue::Bool(y) = v {
                            assert(encoding(v)[1] == b@[1]);
                            assert(encoding(v).len() == 2);
                        }
                    }
                }
            }
            Err(malformed())
        }
    } else if tag == TAG_BINARY {
        assert(encoding(VValue::Binary(rest@)) =~= b@);
        proof {
            assert forall|v: VValue| #[trigger] encoding(v) == b@ implies v == VValue::Binary(rest@) by {
                if let VValue::Bool(y) = v {
                    assert(encoding(v)[0] == TAG_BOOL);
                }
                if let VValue::Binary(c) = v {
                    assert(encoding(v).subrange(1, encoding(v).len() as int) =~= c);
                }
            }
        }
        Ok(Value::Binary(rest))
    } else {
        proof {
            assert forall|v: VValue| #[trigger] encoding(v) != b@ by {
                if encoding(v) == b@ {
                    if let VValue::Bool(y) = v {
                        assert(encoding(v)[0] == TAG_BOOL);
                    }
                }
            }
        }
        Err(malformed())
    }
}

/// `key` and `value` are the stored bytes of the pair `p`.
pub open spec fn stores_pair(key: Seq<u8>, value: Seq<u8>, p: (Seq<char>, VValue)) -> bool {
    encode_utf8(p.0) == key && encoding(p.1) == value
}

/// The bytes of a stored entry, if it could be read.
pub open spec fn entry_view(entry: Option<(Vec<u8>, Vec<u8>)>) -> Option<(Seq<u8>, Seq<u8>)> {
    match entry {
        Some((k, v)) => Some((k@, v@)),
        None => None,
    }
}

/// `r` is what the entry converts to: the pair it stores, which is the only
/// pair its bytes encode; or the empty pair where it could not be read or
/// its bytes encode no pair.
pub open spec fn is_entry_pair(entry: Option<(Seq<u8>, Seq<u8>)>, r: (Seq<char>, VValue)) -> bool {
    match entry {
        Some((k, v)) => if exists|p: (Seq<char>, VValue)| stores_pair(k, v, p) {
            stores_pair(k, v, r) && forall|p: (Seq<char>, VValue)|
                #[trigger] stores_pair(k, v, p) ==> p == r
        } else {
            r == (Seq::<char>::empty(), VValue::Empty)
        },
        None => r == (Seq::<char>::empty(), VValue::Empty),
    }
}

/// The pair that a stored entry holds. An entry that could not be read
/// (`None`), or whose bytes do not decode, gives the empty pair: a scan
/// skips what it cannot read rather than stop.
pub fn pair_from_entry(entry: Option<(Vec<u8>, Vec<u8>)>) -> (r: Kvpair)
    ensures
        entry is Some && (exists|p: (Seq<char>, VValue)|
            stores_pair(entry->Some_0.0@, entry->Some_0.1@, p)) ==> stores_pair(
            entry->Some_0.0@,
            entry->Some_0.1@,
            r@,
        ),
        entry is Some ==> forall|p: (Seq<char>, VValue)|
            #[trigger] stores_pair(entry->Some_0.0@, entry->Some_0.1@, p) ==> r@ == p,
        !(entry is Some && (exists|p: (Seq<char>, VValue)|
            stores_pair(entry->Some_0.0@, entry->Some_0.1@, p))) ==> r@ == (
            Seq::<char>::empty(),
            VValue::Empty,
        ),
        is_entry_pair(entry_view(entry), r@),
{
    match entry {
        Some((k, v)) => {
            let ghost kb = k@;
            let value = decode_value(v.as_slice());
            let key = utf8_string(k);
            match (key, value) {
                (Some(key), Ok(value)) => {
                    assert(stores_pair(kb, v@, (key@, value@)));
                    Kvpair { key, value }
                },
                _ => Kvpair { key: String::new(), value: Value::Empty },
            }
        },
        None => Kvpair { key: String::new(), value: Value::Empty },
    }
}

/// The pairs that a scan's entries hold: one per entry, in the scan's
/// order, each the entry's stored pair or the empty pair.
pub fn pairs_from_entries(entries: Vec<Option<(Vec<u8>, Vec<u8>)>>) -> (r: Vec<Kvpair>)
    ensures
        r@.len() == entries@.len(),
        forall|i: int|
            0 <= i < entries@.len() ==> is_entry_pair(entry_view(entries@[i]), #[trigger] r@[i]@),
{
    let mut r: Vec<Kvpair> = Vec::new();
    let mut rest = entries;
    let ghost all = rest@;
    let n = rest.len();
    let mut i: usize = 0;
    while i < n
        invariant
            n == all.len(),
            i <= n,
            r@.len() == i,
            rest@ == all.subrange(i as int, n as int),
            forall|j: int| 0 <= j < i ==> is_entry_pair(entry_view(all[j]), #[trigger] r@[j]@),
        decreases n - i,
    {
        let e = rest.remove(0);
        assert(e == all[i as int]);
        r.push(pair_from_entry(e));
        i = i + 1;
        assert(rest@ =~= all.subrange(i as int, n as int));
    }
    r
}

} // verus!
