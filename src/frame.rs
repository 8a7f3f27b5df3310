use vstd::prelude::*;
use vstd::string::StringExecFns;

use crate::command::KvError;

verus! {

/// Bytes in a frame's length header.
pub const HEADER_LEN: usize = 4;

/// The header bit that marks a compressed payload.
pub const COMPRESSION_BIT: u32 = 0x8000_0000;

/// The lengths that a header's 31 length bits can hold are below this.
pub const LENGTH_RANGE: usize = 0x8000_0000;

/// Payloads must be shorter than this; a header announcing a longer one is a
/// protocol error.
pub const MAX_FRAME: usize = 0x0200_0000;

/// Payloads longer than this are compressed before framing.
pub const COMPRESSION_LIMIT: usize = 1436;

/// Whether a payload of `len` bytes is sent compressed.
pub fn should_compress(len: usize) -> (r: bool)
    ensures
        r == (len > COMPRESSION_LIMIT),
{
    len > COMPRESSION_LIMIT
}

/// The four big-endian bytes of `x`.
pub open spec fn be32(x: u32) -> Seq<u8> {
    seq![
        (x / 0x100_0000) as u8,
        ((x / 0x1_0000) % 0x100) as u8,
        ((x / 0x100) % 0x100) as u8,
        (x % 0x100) as u8,
    ]
}

/// The number that four big-endian bytes stand for.
pub open spec fn be32_value(b: Seq<u8>) -> int {
    b[0] * 0x100_0000 + b[1] * 0x1_0000 + b[2] * 0x100 + b[3]
}

/// The header of a frame: the payload length, with the top bit set when the
/// payload is compressed.
pub open spec fn header_word(len: nat, compressed: bool) -> u32 {
    (len + if compressed { COMPRESSION_BIT as nat } else { 0 }) as u32
}

/// A whole frame: header, then payload.
pub open spec fn frame_of(payload: Seq<u8>, compressed: bool) -> Seq<u8> {
    be32(header_word(payload.len(), compressed)) + payload
}

proof fn be32_round_trip(x: u32)
    ensures
        be32(x).len() == 4,
        be32_value(be32(x)) == x,
{
    let b = be32(x);
    let a = x / 0x100_0000;
    let r = x % 0x100_0000;
    assert(x == a * 0x100_0000 + r) by (nonlinear_arith)
        requires a == x / 0x100_0000, r == x % 0x100_0000;
    assert(a < 0x100) by (nonlinear_arith)
        requires a == x / 0x100_0000, x < 0x1_0000_0000;
    assert(r / 0x1_0000 == (x / 0x1_0000) % 0x100) by (nonlinear_arith)
        requires r == x % 0x100_0000;
    assert((r % 0x1_0000) / 0x100 == (x / 0x100) % 0x100) by (nonlinear_arith)
        requires r == x % 0x100_0000;
    assert((r % 0x1_0000) % 0x100 == x % 0x100) by (nonlinear_arith)
        requires r == x % 0x100_0000;
    assert(r == (r / 0x1_0000) * 0x1_0000 + (r % 0x1_0000)) by (nonlinear_arith);
    assert(r % 0x1_0000 == ((r % 0x1_0000) / 0x100) * 0x100 + (r % 0x1_0000) % 0x100)
        by (nonlinear_arith);
    assert(r / 0x1_0000 < 0x100) by (nonlinear_arith)
        requires r == x % 0x100_0000;
}

proof fn be32_injective(x: u32, y: u32)
    requires
        be32(x) == be32(y),
    ensures
        x == y,
{
    be32_round_trip(x);
    be32_round_trip(y);
}

/// Writes `x` as four big-endian bytes at the end of `out`.
fn push_be32(out: &mut Vec<u8>, x: u32)
    ensures
        final(out)@ == old(out)@ + be32(x),
{
    out.push((x / 0x100_0000) as u8);
    out.push(((x / 0x1_0000) % 0x100) as u8);
    out.push(((x / 0x100) % 0x100) as u8);
    out.push((x % 0x100) as u8);
    assert(final(out)@ =~= old(out)@ + be32(x));
}

/// Frames `payload`: the header gives its length and whether it is
/// compressed. A payload of `MAX_FRAME` bytes or more cannot be framed.
pub fn encode_frame(payload: &[u8], compressed: bool) -> (r: Result<Vec<u8>, KvError>)
    ensures
        r is Ok <==> payload@.len() < MAX_FRAME,
        r is Ok ==> r->Ok_0@ == frame_of(payload@, compressed),
        r is Err ==> r->Err_0 is ProtocolError,
{
    if payload.len() >= MAX_FRAME {
        return Err(KvError::ProtocolError(String::from_str("frame too large")));
    }
    let len = payload.len() as u32;
    let word = if compressed { len + COMPRESSION_BIT } else { len };
    let mut out: Vec<u8> = Vec::new();
    push_be32(&mut out, word);
    out.extend_from_slice(payload);
    Ok(out)
}

/// The payload length and compression flag that a header gives.
fn read_header(header: &[u8]) -> (r: (usize, bool))
    requires
        header@.len() == HEADER_LEN,
    ensures
        r.0 < LENGTH_RANGE,
        r.0 as int == header_length(header@),
        header_word(r.0 as nat, r.1) as int == be32_value(header@),
        be32(header_word(r.0 as nat, r.1)) == header@,
{
    let word: u32 = (header[0] as u32) * 0x100_0000 + (header[1] as u32) * 0x1_0000
        + (header[2] as u32) * 0x100 + (header[3] as u32);
    let compressed = word >= COMPRESSION_BIT;
    let len = if compressed { word - COMPRESSION_BIT } else { word };
    proof {
        let b = header@;
        let w = word;
        assert(w / 0x100_0000 == b[0]) by (nonlinear_arith)
            requires w == b[0] * 0x100_0000 + b[1] * 0x1_0000 + b[2] * 0x100 + b[3], b[1] < 0x100, b[2] < 0x100, b[3] < 0x100;
        assert((w / 0x1_0000) % 0x100 == b[1]) by (nonlinear_arith)
            requires w == b[0] * 0x100_0000 + b[1] * 0x1_0000 + b[2] * 0x100 + b[3], b[1] < 0x100, b[2] < 0x100, b[3] < 0x100;
        assert((w / 0x100) % 0x100 == b[2]) by (nonlinear_arith)
            requires w == b[0] * 0x100_0000 + b[1] * 0x1_0000 + b[2] * 0x100 + b[3], b[2] < 0x100, b[3] < 0x100;
        assert(w % 0x100 == b[3]) by (nonlinear_arith)
            requires w == b[0] * 0x100_0000 + b[1] * 0x1_0000 + b[2] * 0x100 + b[3], b[3] < 0x100;
        assert(be32(w) =~= b);
    }
    (len as usize, compressed)
}

/// The payload length that a header announces.
pub open spec fn header_length(header: Seq<u8>) -> int {
    be32_value(header) % (LENGTH_RANGE as int)
}

proof fn header_length_of_frame(len: nat, compressed: bool)
    requires
        len < LENGTH_RANGE,
    ensures
        header_length(be32(header_word(len, compressed))) == len,
{
    be32_round_trip(header_word(len, compressed));
}

/// The payload length and compression flag that a header gives; a length
/// of `MAX_FRAME` or more is a protocol error, found before any payload is
/// read.
pub fn parse_header(header: &[u8]) -> (r: Result<(usize, bool), KvError>)
    requires
        header@.len() == HEADER_LEN,
    ensures
        r is Ok <==> header_length(header@) < MAX_FRAME,
        r is Ok ==> r->Ok_0.0 < MAX_FRAME && r->Ok_0.0 as int == header_length(header@) && be32(
            header_word(r->Ok_0.0 as nat, r->Ok_0.1),
        ) == header@,
        r is Err ==> r->Err_0 is ProtocolError,
{
    let (len, compressed) = read_header(header);
    if len >= MAX_FRAME {
        return Err(KvError::ProtocolError(String::from_str("frame too large")));
    }
    Ok((len, compressed))
}

/// Reads one whole frame: the inverse of [`encode_frame`]. A buffer that is
/// not exactly one frame is a protocol error.
pub fn decode_frame(buf: &[u8]) -> (r: Result<(bool, Vec<u8>), KvError>)
    ensures
        r is Ok ==> r->Ok_0.1@.len() < MAX_FRAME && frame_of(r->Ok_0.1@, r->Ok_0.0) == buf@,
        r is Err ==> r->Err_0 is ProtocolError,
        forall|p: Seq<u8>, c: bool|
            p.len() < MAX_FRAME && #[trigger] frame_of(p, c) == buf@ ==> r is Ok && r->Ok_0.0 == c
                && r->Ok_0.1@ == p,
{
    if buf.len() < HEADER_LEN {
        proof {
            assert forall|p: Seq<u8>, c: bool| #[trigger] frame_of(p, c) != buf@ by {
                be32_round_trip(header_word(p.len(), c));
            }
        }
        return Err(KvError::ProtocolError(String::from_str("frame cut short")));
    }
    let mut header: Vec<u8> = Vec::new();
    header.push(buf[0]);
    header.push(buf[1]);
    header.push(buf[2]);
    header.push(buf[3]);
    assert(header@ =~= buf@.subrange(0, 4));
    let (len, compressed) = match parse_header(header.as_slice()) {
        Ok(h) => h,
        Err(e) => {
            proof {
                assert forall|p: Seq<u8>, c: bool|
                    p.len() < MAX_FRAME implies #[trigger] frame_of(p, c) != buf@ by {
                    if frame_of(p, c) == buf@ {
                        be32_round_trip(header_word(p.len(), c));
                        assert(frame_of(p, c).subrange(0, 4) =~= be32(header_word(p.len(), c)));
                        header_length_of_frame(p.len(), c);
                    }
                }
            }
            return Err(e);
        },
    };
    if buf.len() - HEADER_LEN != len {
        proof {
            assert forall|p: Seq<u8>, c: bool|
                p.len() < MAX_FRAME implies #[trigger] frame_of(p, c) != buf@ by {
                if frame_of(p, c) == buf@ {
                    be32_round_trip(header_word(p.len(), c));
                    assert(frame_of(p, c).subrange(0, 4) =~= be32(header_word(p.len(), c)));
                    be32_injective(header_word(p.len(), c), header_word(len as nat, compressed));
                }
            }
        }
        return Err(KvError::ProtocolError(String::from_str("frame length mismatch")));
    }
    let mut payload: Vec<u8> = Vec::new();
    let mut i: usize = HEADER_LEN;
    while i < buf.len()
        invariant
            HEADER_LEN <= i <= buf@.len(),
            payload@ == buf@.subrange(4, i as int),
        decreases buf@.len() - i,
    {
        payload.push(buf[i]);
        i = i + 1;
        assert(payload@ =~= buf@.subrange(4, i as int));
    }
    proof {
        assert(frame_of(payload@, compressed) =~= buf@);
        assert forall|p: Seq<u8>, c: bool|
            p.len() < MAX_FRAME && #[trigger] frame_of(p, c) == buf@ implies (compressed, payload@)
            == (c, p) by {
            be32_round_trip(header_word(p.len(), c));
            assert(frame_of(p, c).subrange(0, 4) =~= be32(header_word(p.len(), c)));
            be32_injective(header_word(p.len(), c), header_word(len as nat, compressed));
            assert(p =~= frame_of(p, c).subrange(4, frame_of(p, c).len() as int));
        }
    }
    Ok((compressed, payload))
}

/// The gzip stream of some bytes, as flate2 writes it at the default level.
pub uninterp spec fn gzip_of(b: Seq<u8>) -> Seq<u8>;

/// Relies on flate2's `GzEncoder` at the default level: the gzip stream of
/// `b`. Its header carries no time stamp and a fixed system byte, so the
/// stream depends on the bytes alone.
#[verifier::external_body]
fn gzip(b: &[u8]) -> (r: Vec<u8>)
    ensures
        r@ == gzip_of(b@),
{
    let mut encoder = flate2::write::GzEncoder::new(Vec::new(), flate2::Compression::default());
    std::io::Write::write_all(&mut encoder, b).unwrap();
    encoder.finish().unwrap()
}

/// Relies on flate2's `GzDecoder`: decompressing a gzip stream gives back
/// the bytes it was made from; `None` where `b` is no valid stream.
#[verifier::external_body]
fn gunzip(b: &[u8]) -> (r: Option<Vec<u8>>)
    ensures
        forall|p: Seq<u8>| #[trigger] gzip_of(p) == b@ ==> r is Some && r->Some_0@ == p,
{
    let mut out = Vec::new();
    match std::io::Read::read_to_end(&mut flate2::read::GzDecoder::new(b), &mut out) {
        Ok(_) => Some(out),
        Err(_) => None,
    }
}

/// The bytes sent for a message payload, and whether they are compressed:
/// payloads above the limit go compressed.
pub open spec fn sent_form(payload: Seq<u8>) -> (Seq<u8>, bool) {
    if payload.len() > COMPRESSION_LIMIT {
        (gzip_of(payload), true)
    } else {
        (payload, false)
    }
}

/// The frame that carries a message payload: compressed when it is above
/// the limit, then framed. A frame too large to send is a protocol error.
pub fn seal_message(payload: &[u8]) -> (r: Result<Vec<u8>, KvError>)
    ensures
        r is Ok <==> sent_form(payload@).0.len() < MAX_FRAME,
        r is Ok ==> r->Ok_0@ == frame_of(sent_form(payload@).0, sent_form(payload@).1),
        r is Err ==> r->Err_0 is ProtocolError,
{
    if should_compress(payload.len()) {
        let packed = gzip(payload);
        encode_frame(packed.as_slice(), true)
    } else {
        encode_frame(payload, false)
    }
}

/// The message payload that a frame's payload carries: decompressed when the
/// header says it is compressed. A compressed payload that is no gzip
/// stream is a protocol error.
pub fn open_payload(payload: Vec<u8>, compressed: bool) -> (r: Result<Vec<u8>, KvError>)
    ensures
        !compressed ==> r is Ok && r->Ok_0@ == payload@,
        forall|p: Seq<u8>|
            compressed && #[trigger] gzip_of(p) == payload@ ==> r is Ok && r->Ok_0@ == p,
        r is Err ==> r->Err_0 is ProtocolError,
{
    if !compressed {
        return Ok(payload);
    }
    match gunzip(payload.as_slice()) {
        Some(p) => Ok(p),
        None => Err(KvError::ProtocolError(String::from_str("undecodable compressed payload"))),
    }
}

} // verus!
