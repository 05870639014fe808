//! Chunk stream codec.
//!
//! RTMP messages (up to 2^24 - 1 bytes) travel as chunks. Each chunk
//! begins with a basic header carrying a format code and a chunk-stream
//! id (CSID, in one, two or three bytes), followed for format 0 by an
//! absolute message header: a 3-byte timestamp (0xFFFFFF redirects to a
//! 4-byte extended timestamp), 3-byte length, type id, and little-endian
//! message stream id. A message longer than the chunk size is split; the
//! continuation chunks carry format-3 basic headers and no message
//! header. `fragment_message` emits that shape, `reassemble_message`
//! parses it back, and `lemma_chunk_round_trip` proves the two inverse
//! for every valid message and every chunk size in [1, 2^24 - 1].

use vstd::prelude::*;

use crate::error::ChunkError;

verus! {

/// A complete RTMP message: stream id, type, timestamp and payload.
#[derive(Debug, Clone)]
pub struct ChunkMessage {
    /// Message stream id
    pub msid: u32,
    /// Message type id
    pub type_id: u8,
    /// Timestamp in milliseconds
    pub timestamp: u32,
    /// Message payload
    pub payload: Vec<u8>,
}

/// The observable content of a message.
pub open spec fn msg_view(m: ChunkMessage) -> (u32, u8, u32, Seq<u8>) {
    (m.msid, m.type_id, m.timestamp, m.payload@)
}

/// A message the chunk layer can carry: payload within 2^24 - 1 bytes.
pub open spec fn msg_valid(m: ChunkMessage) -> bool {
    m.payload@.len() <= 0xFFFFFF
}

/// A CSID that a basic header can encode: 2 through 65599.
pub open spec fn csid_valid(csid: u32) -> bool {
    2 <= csid <= 65599
}

/// The basic header for format `fmt` and chunk stream `csid`: one byte
/// for CSIDs 2..=63, two for 64..=319, three for 320..=65599.
pub open spec fn spec_basic_header(fmt: u8, csid: u32) -> Seq<u8> {
    if csid <= 63 {
        seq![((fmt << 6) | (csid as u8)) as u8]
    } else if csid <= 319 {
        seq![(fmt << 6) as u8, (csid - 64) as u8]
    } else {
        seq![((fmt << 6) | 1) as u8, ((csid - 64) % 256) as u8, ((csid - 64) / 256) as u8]
    }
}

/// The three big-endian bytes of `n` (which must fit).
pub open spec fn be24_of(n: u32) -> Seq<u8> {
    seq![((n >> 16) & 0xFF) as u8, ((n >> 8) & 0xFF) as u8, (n & 0xFF) as u8]
}

/// The four big-endian bytes of `n`.
pub open spec fn be32c_of(n: u32) -> Seq<u8> {
    seq![(n >> 24) as u8, ((n >> 16) & 0xFF) as u8, ((n >> 8) & 0xFF) as u8, (n & 0xFF) as u8]
}

/// The four little-endian bytes of `n`, as the message stream id is laid
/// out on the wire.
pub open spec fn le32_of(n: u32) -> Seq<u8> {
    seq![(n & 0xFF) as u8, ((n >> 8) & 0xFF) as u8, ((n >> 16) & 0xFF) as u8, (n >> 24) as u8]
}

/// The format-0 message header for `m`: timestamp field (0xFFFFFF when
/// the real timestamp needs the extended field), length, type id,
/// little-endian message stream id, then the extended timestamp if used.
pub open spec fn spec_msg_header(m: ChunkMessage) -> Seq<u8> {
    let ts_field: u32 = if m.timestamp >= 0xFFFFFF {
        0xFFFFFF
    } else {
        m.timestamp
    };
    let base = be24_of(ts_field) + be24_of(m.payload@.len() as u32) + seq![m.type_id] + le32_of(
        m.msid,
    );
    if m.timestamp >= 0xFFFFFF {
        base + be32c_of(m.timestamp)
    } else {
        base
    }
}

/// Where the first chunk's payload ends: the whole payload, or one chunk
/// size of it.
pub open spec fn first_cut(len: int, cs: int) -> int {
    if len <= cs {
        len
    } else {
        cs
    }
}

/// The continuation chunks for the payload from `i` on: each a format-3
/// basic header and up to `cs` payload bytes.
pub open spec fn spec_cont(payload: Seq<u8>, i: int, cs: int, bh3: Seq<u8>) -> Seq<u8>
    decreases payload.len() - i,
{
    if i < 0 || i >= payload.len() || cs < 1 {
        Seq::empty()
    } else {
        let j = if i + cs <= payload.len() {
            i + cs
        } else {
            payload.len() as int
        };
        bh3 + payload.subrange(i, j) + spec_cont(payload, j, cs, bh3)
    }
}

/// The full wire form of `m` on chunk stream `csid` with chunk size `cs`:
/// a format-0 chunk followed by format-3 continuations.
pub open spec fn spec_fragment(m: ChunkMessage, csid: u32, cs: int) -> Seq<u8> {
    let cut = first_cut(m.payload@.len() as int, cs);
    spec_basic_header(0, csid) + spec_msg_header(m) + m.payload@.subrange(0, cut) + spec_cont(
        m.payload@,
        cut,
        cs,
        spec_basic_header(3, csid),
    )
}

fn push_bh(buf: &mut Vec<u8>, fmt: u8, csid: u32)
    requires
        csid_valid(csid),
        fmt <= 3,
    ensures
        final(buf)@ == old(buf)@ + spec_basic_header(fmt, csid),
{
    if csid <= 63 {
        buf.push((fmt << 6) | (csid as u8));
        proof {
            assert(buf@ =~= old(buf)@ + spec_basic_header(fmt, csid));
        }
    } else if csid <= 319 {
        buf.push(fmt << 6);
        buf.push((csid - 64) as u8);
        proof {
            assert(buf@ =~= old(buf)@ + spec_basic_header(fmt, csid));
        }
    } else {
        buf.push((fmt << 6) | 1);
        buf.push(((csid - 64) % 256) as u8);
        buf.push(((csid - 64) / 256) as u8);
        proof {
            assert(buf@ =~= old(buf)@ + spec_basic_header(fmt, csid));
        }
    }
}

fn push_be24(buf: &mut Vec<u8>, n: u32)
    requires
        n <= 0xFFFFFF,
    ensures
        final(buf)@ == old(buf)@ + be24_of(n),
{
    buf.push(((n >> 16) & 0xFF) as u8);
    buf.push(((n >> 8) & 0xFF) as u8);
    buf.push((n & 0xFF) as u8);
    proof {
        assert(buf@ =~= old(buf)@ + be24_of(n));
    }
}

fn push_be32c(buf: &mut Vec<u8>, n: u32)
    ensures
        final(buf)@ == old(buf)@ + be32c_of(n),
{
    buf.push((n >> 24) as u8);
    buf.push(((n >> 16) & 0xFF) as u8);
    buf.push(((n >> 8) & 0xFF) as u8);
    buf.push((n & 0xFF) as u8);
    proof {
        assert(buf@ =~= old(buf)@ + be32c_of(n));
    }
}

fn push_le32(buf: &mut Vec<u8>, n: u32)
    ensures
        final(buf)@ == old(buf)@ + le32_of(n),
{
    buf.push((n & 0xFF) as u8);
    buf.push(((n >> 8) & 0xFF) as u8);
    buf.push(((n >> 16) & 0xFF) as u8);
    buf.push((n >> 24) as u8);
    proof {
        assert(buf@ =~= old(buf)@ + le32_of(n));
    }
}

/// Fragment a message into its chunked wire form on `csid`.
///
/// Rejects a payload beyond 2^24 - 1 bytes and a CSID that no basic
/// header can carry.
pub fn fragment_message(msg: &ChunkMessage, csid: u32, chunk_size: u32) -> (r: Result<
    Vec<u8>,
    ChunkError,
>)
    requires
        1 <= chunk_size,
    ensures
        match r {
            Ok(bytes) => msg_valid(*msg) && csid_valid(csid) && bytes@ == spec_fragment(
                *msg,
                csid,
                chunk_size as int,
            ),
            Err(ChunkError::LengthExceedsMax) => !msg_valid(*msg),
            Err(ChunkError::InvalidBasicHeader) => msg_valid(*msg) && !csid_valid(csid),
            Err(_) => false,
        },
{
    if msg.payload.len() > 0xFFFFFF {
        return Err(ChunkError::LengthExceedsMax);
    }
    if csid < 2 || csid > 65599 {
        return Err(ChunkError::InvalidBasicHeader);
    }

    let mut out: Vec<u8> = Vec::new();
    push_bh(&mut out, 0, csid);
    let ts_field: u32 = if msg.timestamp >= 0xFFFFFF {
        0xFFFFFF
    } else {
        msg.timestamp
    };
    push_be24(&mut out, ts_field);
    push_be24(&mut out, msg.payload.len() as u32);
    out.push(msg.type_id);
    push_le32(&mut out, msg.msid);
    if msg.timestamp >= 0xFFFFFF {
        push_be32c(&mut out, msg.timestamp);
    }
    proof {
        assert(out@ =~= spec_basic_header(0, csid) + spec_msg_header(*msg));
    }

    let cs = chunk_size as usize;
    let len = msg.payload.len();
    let cut = if len <= cs {
        len
    } else {
        cs
    };
    let ghost hdr = out@;
    extend_from(&mut out, &msg.payload, 0, cut);
    proof {
        assert(out@ =~= hdr + msg.payload@.subrange(0, cut as int));
    }

    let ghost pl = msg.payload@;
    let ghost bh3 = spec_basic_header(3, csid);
    let mut i: usize = cut;
    while i < len
        invariant
            1 <= cs,
            cut <= i <= len,
            len == msg.payload@.len(),
            len <= 0xFFFFFF,
            cs == chunk_size as int,
            csid_valid(csid),
            pl == msg.payload@,
            bh3 == spec_basic_header(3, csid),
            hdr + pl.subrange(0, cut as int) + spec_cont(pl, cut as int, cs as int, bh3)
                =~= out@ + spec_cont(pl, i as int, cs as int, bh3),
        decreases len - i,
    {
        let j = if cs <= len - i {
            i + cs
        } else {
            len
        };
        let ghost pre = out@;
        push_bh(&mut out, 3, csid);
        extend_from(&mut out, &msg.payload, i, j);
        proof {
            assert(out@ =~= pre + (bh3 + pl.subrange(i as int, j as int)));
            assert(spec_cont(pl, i as int, cs as int, bh3) == bh3 + pl.subrange(
                i as int,
                j as int,
            ) + spec_cont(pl, j as int, cs as int, bh3));
            assert(hdr + pl.subrange(0, cut as int) + spec_cont(pl, cut as int, cs as int, bh3)
                =~= out@ + spec_cont(pl, j as int, cs as int, bh3));
        }
        i = j;
    }
    proof {
        assert(spec_cont(pl, len as int, cs as int, bh3) =~= Seq::<u8>::empty());
        assert(out@ =~= hdr + pl.subrange(0, cut as int) + spec_cont(
            pl,
            cut as int,
            cs as int,
            bh3,
        ));
        assert(out@ =~= spec_fragment(*msg, csid, chunk_size as int));
    }
    Ok(out)
}

fn extend_from(out: &mut Vec<u8>, src: &Vec<u8>, a: usize, b: usize)
    requires
        a <= b <= src@.len(),
    ensures
        final(out)@ == old(out)@ + src@.subrange(a as int, b as int),
{
    let mut k: usize = a;
    while k < b
        invariant
            a <= k <= b <= src@.len(),
            out@ =~= old(out)@ + src@.subrange(a as int, k as int),
        decreases b - k,
    {
        out.push(src[k]);
        proof {
            assert(src@.subrange(a as int, k + 1) =~= src@.subrange(a as int, k as int).push(
                src@[k as int],
            ));
        }
        k = k + 1;
    }
}

/// The parsed basic header at `pos`: format, CSID, and the position
/// after, or nothing if the bytes run out or the CSID encoding is bad.
pub open spec fn spec_parse_bh(s: Seq<u8>, pos: int) -> Option<(u8, u32, int)> {
    if pos < 0 || pos >= s.len() {
        None
    } else {
        let b0 = s[pos];
        let fmt = (b0 >> 6) as u8;
        let low = (b0 & 0x3F) as u8;
        if low >= 2 {
            Some((fmt, low as u32, pos + 1))
        } else if low == 0 {
            if pos + 2 > s.len() {
                None
            } else {
                Some((fmt, ((s[pos + 1] as u32) + 64) as u32, pos + 2))
            }
        } else {
            if pos + 3 > s.len() {
                None
            } else {
                Some((fmt, ((s[pos + 1] as u32) + 256 * (s[pos + 2] as u32) + 64) as u32, pos + 3))
            }
        }
    }
}

/// The 24-bit value at `s[pos..]`.
pub open spec fn be24_at(s: Seq<u8>, pos: int) -> u32 {
    ((s[pos] as u32) << 16) | ((s[pos + 1] as u32) << 8) | (s[pos + 2] as u32)
}

/// The big-endian 32-bit value at `s[pos..]`.
pub open spec fn be32_atc(s: Seq<u8>, pos: int) -> u32 {
    ((s[pos] as u32) << 24) | ((s[pos + 1] as u32) << 16) | ((s[pos + 2] as u32) << 8) | (s[pos
        + 3] as u32)
}

/// The little-endian 32-bit value at `s[pos..]`.
pub open spec fn le32_at(s: Seq<u8>, pos: int) -> u32 {
    (s[pos] as u32) | ((s[pos + 1] as u32) << 8) | ((s[pos + 2] as u32) << 16) | ((s[pos
        + 3] as u32) << 24)
}

/// The payload accumulated from the continuation chunks: each must carry
/// a format-3 basic header on the same CSID, then up to `cs` bytes.
pub open spec fn spec_parse_cont(
    s: Seq<u8>,
    pos: int,
    csid: u32,
    cs: int,
    remaining: int,
) -> Option<(Seq<u8>, int)>
    decreases remaining,
{
    if remaining <= 0 {
        Some((Seq::empty(), pos))
    } else if cs < 1 {
        None
    } else {
        match spec_parse_bh(s, pos) {
            None => None,
            Some((fmt, c2, p1)) => {
                if fmt != 3 || c2 != csid {
                    None
                } else {
                    let take = if remaining <= cs {
                        remaining
                    } else {
                        cs
                    };
                    if p1 + take > s.len() {
                        None
                    } else {
                        match spec_parse_cont(s, p1 + take, csid, cs, remaining - take) {
                            None => None,
                            Some((rest, p2)) => Some((s.subrange(p1, p1 + take) + rest, p2)),
                        }
                    }
                }
            },
        }
    }
}

/// One whole message parsed from `s`: the format-0 chunk, then as many
/// format-3 continuations as the declared length requires. Yields the
/// CSID, the message, and the position after it.
pub open spec fn spec_parse_message(s: Seq<u8>, cs: int) -> Option<(u32, (u32, u8, u32, Seq<u8>), int)> {
    match spec_parse_bh(s, 0) {
        None => None,
        Some((fmt, csid, p1)) => {
            if fmt != 0 {
                None
            } else if p1 + 11 > s.len() {
                None
            } else {
                let ts_field = be24_at(s, p1);
                let len = be24_at(s, p1 + 3) as int;
                let type_id = s[p1 + 6];
                let msid = le32_at(s, p1 + 7);
                let p2 = if ts_field == 0xFFFFFF {
                    p1 + 15
                } else {
                    p1 + 11
                };
                if p2 > s.len() {
                    None
                } else {
                    let ts = if ts_field == 0xFFFFFF {
                        be32_atc(s, p1 + 11)
                    } else {
                        ts_field
                    };
                    let cut = first_cut(len, cs);
                    if p2 + cut > s.len() {
                        None
                    } else {
                        match spec_parse_cont(s, p2 + cut, csid, cs, len - cut) {
                            None => None,
                            Some((rest, p3)) => Some(
                                (csid, (msid, type_id, ts, s.subrange(p2, p2 + cut) + rest), p3),
                            ),
                        }
                    }
                }
            }
        },
    }
}

fn parse_bh(data: &[u8], pos: usize) -> (r: Option<(u8, u32, usize)>)
    ensures
        match r {
            Some((fmt, csid, p1)) => spec_parse_bh(data@, pos as int) == Some(
                (fmt, csid, p1 as int),
            ) && pos < p1 <= data@.len() && fmt <= 3,
            None => spec_parse_bh(data@, pos as int) is None,
        },
{
    let n = data.len();
    if pos >= n {
        return None;
    }
    let b0 = *vstd::slice::slice_index_get(data, pos);
    let fmt = b0 >> 6;
    let low = b0 & 0x3F;
    proof {
        assert(b0 >> 6 <= 3) by (bit_vector);
    }
    if low >= 2 {
        Some((fmt, low as u32, pos + 1))
    } else if low == 0 {
        if n - pos < 2 {
            None
        } else {
            let b1 = *vstd::slice::slice_index_get(data, pos + 1);
            Some((fmt, (b1 as u32) + 64, pos + 2))
        }
    } else {
        if n - pos < 3 {
            None
        } else {
            let b1 = *vstd::slice::slice_index_get(data, pos + 1);
            let b2 = *vstd::slice::slice_index_get(data, pos + 2);
            Some((fmt, (b1 as u32) + 256 * (b2 as u32) + 64, pos + 3))
        }
    }
}

/// Reassemble one message from its chunked wire form.
///
/// The bytes must begin with a format-0 chunk; continuations must be
/// format 3 on the same chunk stream. Anything else is a framing error.
pub fn reassemble_message(data: &[u8], chunk_size: u32) -> (r: Result<(u32, ChunkMessage), ChunkError>)
    requires
        1 <= chunk_size,
    ensures
        match r {
            Ok((csid, m)) => spec_parse_message(data@, chunk_size as int) matches Some(
                (c2, mv, _p3),
            ) && c2 == csid && mv == msg_view(m),
            Err(_) => spec_parse_message(data@, chunk_size as int) is None,
        },
{
    let n = data.len();
    let (fmt, csid, p1) = match parse_bh(data, 0) {
        Some(t) => t,
        None => {
            return Err(ChunkError::InvalidBasicHeader);
        },
    };
    if fmt != 0 {
        return Err(ChunkError::MissingContext);
    }
    if n - p1 < 11 {
        return Err(ChunkError::ChunkPayloadOverrun);
    }
    let t0 = *vstd::slice::slice_index_get(data, p1);
    let t1 = *vstd::slice::slice_index_get(data, p1 + 1);
    let t2 = *vstd::slice::slice_index_get(data, p1 + 2);
    let ts_field: u32 = ((t0 as u32) << 16) | ((t1 as u32) << 8) | (t2 as u32);
    let l0 = *vstd::slice::slice_index_get(data, p1 + 3);
    let l1 = *vstd::slice::slice_index_get(data, p1 + 4);
    let l2 = *vstd::slice::slice_index_get(data, p1 + 5);
    let len: u32 = ((l0 as u32) << 16) | ((l1 as u32) << 8) | (l2 as u32);
    let type_id = *vstd::slice::slice_index_get(data, p1 + 6);
    let m0 = *vstd::slice::slice_index_get(data, p1 + 7);
    let m1 = *vstd::slice::slice_index_get(data, p1 + 8);
    let m2 = *vstd::slice::slice_index_get(data, p1 + 9);
    let m3 = *vstd::slice::slice_index_get(data, p1 + 10);
    let msid: u32 = (m0 as u32) | ((m1 as u32) << 8) | ((m2 as u32) << 16) | ((m3 as u32) << 24);

    let (ts, p2) = if ts_field == 0xFFFFFF {
        if n - p1 < 15 {
            return Err(ChunkError::ChunkPayloadOverrun);
        }
        let e0 = *vstd::slice::slice_index_get(data, p1 + 11);
        let e1 = *vstd::slice::slice_index_get(data, p1 + 12);
        let e2 = *vstd::slice::slice_index_get(data, p1 + 13);
        let e3 = *vstd::slice::slice_index_get(data, p1 + 14);
        let ts: u32 = ((e0 as u32) << 24) | ((e1 as u32) << 16) | ((e2 as u32) << 8) | (e3 as u32);
        (ts, p1 + 15)
    } else {
        (ts_field, p1 + 11)
    };

    let cs = chunk_size as usize;
    let lenu = len as usize;
    proof {
        assert((((l0 as u32) << 16) | ((l1 as u32) << 8) | (l2 as u32)) <= 0xFFFFFF)
            by (bit_vector);
    }
    let cut = if lenu <= cs {
        lenu
    } else {
        cs
    };
    if n - p2 < cut {
        return Err(ChunkError::ChunkPayloadOverrun);
    }
    let mut payload = copy_out(data, p2, p2 + cut);

    let ghost s = data@;
    let ghost cs_i = chunk_size as int;
    proof {
        let cont0 = spec_parse_cont(s, p2 + cut, csid, cs_i, lenu - cut);
        assert(spec_parse_message(s, cs_i) == (match cont0 {
            None => None,
            Some((rest, p3)) => Some(
                (csid, (msid, type_id, ts, s.subrange(p2 as int, p2 + cut) + rest), p3),
            ),
        }));
    }
    let mut pos: usize = p2 + cut;
    let mut remaining: usize = lenu - cut;
    loop
        invariant
            1 <= cs_i,
            cs == cs_i,
            cs_i == chunk_size as int,
            pos <= n,
            n == s.len(),
            s == data@,
            remaining <= lenu,
            payload@.len() == lenu - remaining,
            spec_parse_cont(s, pos as int, csid, cs_i, remaining as int) matches Some(
                (rest, p3),
            ) ==> spec_parse_message(s, cs_i) matches Some((c2, mv, q3)) && c2 == csid && mv == (
                msid,
                type_id,
                ts,
                payload@ + rest,
            ) && q3 == p3,
            (spec_parse_cont(s, pos as int, csid, cs_i, remaining as int) is None)
                ==> spec_parse_message(s, cs_i) is None,
        decreases remaining,
    {
        if remaining == 0 {
            proof {
                assert(payload@ + Seq::<u8>::empty() =~= payload@);
            }
            return Ok((csid, ChunkMessage { msid, type_id, timestamp: ts, payload }));
        }
        let (fmt3, c2, q1) = match parse_bh(data, pos) {
            Some(t) => t,
            None => {
                return Err(ChunkError::InvalidBasicHeader);
            },
        };
        if fmt3 != 3 || c2 != csid {
            return Err(ChunkError::MissingContext);
        }
        let take = if remaining <= cs {
            remaining
        } else {
            cs
        };
        if n - q1 < take {
            return Err(ChunkError::ChunkPayloadOverrun);
        }
        let ghost pre = payload@;
        extend_out(&mut payload, data, q1, q1 + take);
        proof {
            assert(spec_parse_cont(s, pos as int, csid, cs_i, remaining as int) == (match
                spec_parse_cont(s, q1 + take, csid, cs_i, remaining - take) {
                None => None,
                Some((rest, p3)) => Some(
                    (s.subrange(q1 as int, q1 + take) + rest, p3),
                ),
            }));
            assert forall|rest: Seq<u8>|
                #![trigger pre + (s.subrange(q1 as int, q1 + take) + rest)]
                true implies (pre + (s.subrange(q1 as int, q1 + take) + rest)) =~= ((pre
                + s.subrange(q1 as int, q1 + take)) + rest) by {}
        }
        pos = q1 + take;
        remaining = remaining - take;
    }
}

fn copy_out(data: &[u8], a: usize, b: usize) -> (r: Vec<u8>)
    requires
        a <= b <= data@.len(),
    ensures
        r@ == data@.subrange(a as int, b as int),
{
    let mut r: Vec<u8> = Vec::new();
    extend_out(&mut r, data, a, b);
    proof {
        assert(Seq::<u8>::empty() + data@.subrange(a as int, b as int) =~= data@.subrange(
            a as int,
            b as int,
        ));
    }
    r
}

fn extend_out(out: &mut Vec<u8>, data: &[u8], a: usize, b: usize)
    requires
        a <= b <= data@.len(),
    ensures
        final(out)@ == old(out)@ + data@.subrange(a as int, b as int),
{
    let mut k: usize = a;
    while k < b
        invariant
            a <= k <= b <= data@.len(),
            out@ =~= old(out)@ + data@.subrange(a as int, k as int),
        decreases b - k,
    {
        let byte = *vstd::slice::slice_index_get(data, k);
        out.push(byte);
        proof {
            assert(data@.subrange(a as int, k + 1) =~= data@.subrange(a as int, k as int).push(
                data@[k as int],
            ));
        }
        k = k + 1;
    }
}


/// A piece of a known window into `s` is itself a known window.
proof fn slice_window(s: Seq<u8>, pos: int, whole: Seq<u8>, off: int, part: Seq<u8>)
    requires
        0 <= pos,
        pos + whole.len() <= s.len(),
        s.subrange(pos, pos + whole.len() as int) == whole,
        0 <= off,
        off + part.len() <= whole.len(),
        forall|k: int| 0 <= k < part.len() ==> whole[off + k] == part[k],
    ensures
        s.subrange(pos + off, pos + off + part.len() as int) == part,
        forall|k: int| 0 <= k < whole.len() ==> s[pos + k] == whole[k],
{
    assert forall|k: int| 0 <= k < whole.len() implies s[pos + k] == whole[k] by {
        assert(s.subrange(pos, pos + whole.len() as int)[k] == s[pos + k]);
    }
    assert(s.subrange(pos + off, pos + off + part.len() as int) =~= part);
}

/// A basic header written at `pos` parses back to its format and CSID.
proof fn lemma_bh_round(s: Seq<u8>, pos: int, fmt: u8, csid: u32)
    requires
        fmt <= 3,
        csid_valid(csid),
        0 <= pos,
        pos + spec_basic_header(fmt, csid).len() <= s.len(),
        forall|k: int| 0 <= k < spec_basic_header(fmt, csid).len() ==> s[pos + k]
            == spec_basic_header(fmt, csid)[k],
    ensures
        spec_parse_bh(s, pos) == Some(
            (fmt, csid, pos + spec_basic_header(fmt, csid).len() as int),
        ),
{
    let bh = spec_basic_header(fmt, csid);
    assert(s[pos + 0] == bh[0]);
    if bh.len() > 1 {
        assert(s[pos + 1] == bh[1]);
    }
    if bh.len() > 2 {
        assert(s[pos + 2] == bh[2]);
    }
    if csid <= 63 {
        let cb = csid as u8;
        assert(s[pos + 0] == ((fmt << 6) | cb));
        assert((((fmt << 6) | cb) >> 6) == fmt && (((fmt << 6) | cb) & 0x3F) == cb)
            by (bit_vector)
            requires
                fmt <= 3,
                cb <= 63,
        ;
        assert(cb >= 2);
    } else if csid <= 319 {
        let cb = (csid - 64) as u8;
        assert(s[pos + 0] == (fmt << 6));
        assert(s[pos + 1] == cb);
        assert((((fmt << 6)) >> 6) == fmt && (((fmt << 6)) & 0x3F) == 0) by (bit_vector)
            requires
                fmt <= 3,
        ;
    } else {
        let lo = ((csid - 64) % 256) as u8;
        let hi = ((csid - 64) / 256) as u8;
        assert(s[pos + 0] == ((fmt << 6) | 1));
        assert(s[pos + 1] == lo);
        assert(s[pos + 2] == hi);
        assert((((fmt << 6) | 1) >> 6) == fmt && (((fmt << 6) | 1) & 0x3F) == 1)
            by (bit_vector)
            requires
                fmt <= 3,
        ;
        assert((csid - 64) % 256 + 256 * ((csid - 64) / 256) == csid - 64) by (nonlinear_arith)
            requires
                csid >= 64,
        ;
    }
}

proof fn lemma_be24_round(n: u32)
    requires
        n <= 0xFFFFFF,
    ensures
        (((((n >> 16) & 0xFF) as u8 as u32) << 16) | ((((n >> 8) & 0xFF) as u8 as u32) << 8) | ((
        n & 0xFF) as u8 as u32)) == n,
{
    assert((((((n >> 16) & 0xFF) as u8 as u32) << 16) | ((((n >> 8) & 0xFF) as u8 as u32) << 8)
        | ((n & 0xFF) as u8 as u32)) == n) by (bit_vector)
        requires
            n <= 0xFFFFFF,
    ;
}

proof fn lemma_be32c_round(n: u32)
    ensures
        ((((n >> 24) as u8 as u32) << 24) | ((((n >> 16) & 0xFF) as u8 as u32) << 16) | ((((n
            >> 8) & 0xFF) as u8 as u32) << 8) | ((n & 0xFF) as u8 as u32)) == n,
{
    assert(((((n >> 24) as u8 as u32) << 24) | ((((n >> 16) & 0xFF) as u8 as u32) << 16) | ((((n
        >> 8) & 0xFF) as u8 as u32) << 8) | ((n & 0xFF) as u8 as u32)) == n) by (bit_vector);
}

proof fn lemma_le32_round(n: u32)
    ensures
        (((n & 0xFF) as u8 as u32) | ((((n >> 8) & 0xFF) as u8 as u32) << 8) | ((((n >> 16)
            & 0xFF) as u8 as u32) << 16) | (((n >> 24) as u8 as u32) << 24)) == n,
{
    assert((((n & 0xFF) as u8 as u32) | ((((n >> 8) & 0xFF) as u8 as u32) << 8) | ((((n >> 16)
        & 0xFF) as u8 as u32) << 16) | (((n >> 24) as u8 as u32) << 24)) == n) by (bit_vector);
}

/// The continuation chunks written at `pos` parse back to the payload
/// tail they carry.
proof fn lemma_cont_round(payload: Seq<u8>, i: int, cs: int, csid: u32, s: Seq<u8>, pos: int)
    requires
        csid_valid(csid),
        1 <= cs,
        0 <= i <= payload.len(),
        0 <= pos,
        pos + spec_cont(payload, i, cs, spec_basic_header(3, csid)).len() <= s.len(),
        s.subrange(
            pos,
            pos + spec_cont(payload, i, cs, spec_basic_header(3, csid)).len() as int,
        ) == spec_cont(payload, i, cs, spec_basic_header(3, csid)),
    ensures
        spec_parse_cont(s, pos, csid, cs, payload.len() - i) == Some(
            (
                payload.subrange(i, payload.len() as int),
                pos + spec_cont(payload, i, cs, spec_basic_header(3, csid)).len(),
            ),
        ),
    decreases payload.len() - i,
{
    let bh3 = spec_basic_header(3, csid);
    let whole = spec_cont(payload, i, cs, bh3);
    slice_window(s, pos, whole, 0, Seq::empty());
    if i == payload.len() {
        assert(whole =~= Seq::<u8>::empty());
        assert(payload.subrange(i, payload.len() as int) =~= Seq::<u8>::empty());
    } else {
        let j = if i + cs <= payload.len() {
            i + cs
        } else {
            payload.len() as int
        };
        let piece = payload.subrange(i, j);
        let rest = spec_cont(payload, j, cs, bh3);
        assert(whole =~= bh3 + (piece + rest));
        slice_window(s, pos, whole, 0, bh3);
        lemma_bh_round(s, pos, 3, csid);
        let p1 = pos + bh3.len() as int;
        let take = if payload.len() - i <= cs {
            payload.len() - i
        } else {
            cs
        };
        assert(take == j - i);
        slice_window(s, pos, whole, bh3.len() as int, piece);
        slice_window(s, pos, whole, bh3.len() + piece.len() as int, rest);
        lemma_cont_round(payload, j, cs, csid, s, p1 + take);
        assert(payload.subrange(i, j) + payload.subrange(j, payload.len() as int)
            =~= payload.subrange(i, payload.len() as int));
    }
}

/// The chunk round trip: for every message within the 2^24 - 1 byte cap,
/// every CSID a basic header can carry, and every chunk size in
/// [1, 2^24 - 1], fragmenting and then reassembling yields the original
/// message, consuming exactly the emitted bytes.
#[verifier::rlimit(100)]
#[verifier::spinoff_prover]
pub proof fn lemma_chunk_round_trip(m: ChunkMessage, csid: u32, cs: int)
    requires
        msg_valid(m),
        csid_valid(csid),
        1 <= cs <= 0xFFFFFF,
    ensures
        spec_parse_message(spec_fragment(m, csid, cs), cs) matches Some((c2, mv, p3)) && c2
            == csid && mv == msg_view(m) && p3 == spec_fragment(m, csid, cs).len(),
{
    let s = spec_fragment(m, csid, cs);
    let bh0 = spec_basic_header(0, csid);
    let mh = spec_msg_header(m);
    let pl = m.payload@;
    let cut = first_cut(pl.len() as int, cs);
    let first = pl.subrange(0, cut);
    let bh3 = spec_basic_header(3, csid);
    let cont = spec_cont(pl, cut, cs, bh3);
    assert(s =~= bh0 + (mh + (first + cont)));
    assert(s.subrange(0, s.len() as int) =~= s);
    slice_window(s, 0, s, 0, bh0);
    lemma_bh_round(s, 0, 0, csid);
    let p1 = bh0.len() as int;

    let ts_field: u32 = if m.timestamp >= 0xFFFFFF {
        0xFFFFFF
    } else {
        m.timestamp
    };
    let lenf: u32 = pl.len() as u32;
    slice_window(s, 0, s, p1, mh);
    // the fixed 11 bytes
    assert(mh[0] == (((ts_field >> 16) & 0xFF) as u8));
    assert(mh[1] == (((ts_field >> 8) & 0xFF) as u8));
    assert(mh[2] == ((ts_field & 0xFF) as u8));
    assert(mh[3] == (((lenf >> 16) & 0xFF) as u8));
    assert(mh[4] == (((lenf >> 8) & 0xFF) as u8));
    assert(mh[5] == ((lenf & 0xFF) as u8));
    assert(mh[6] == m.type_id);
    assert(mh[7] == ((m.msid & 0xFF) as u8));
    assert(mh[8] == (((m.msid >> 8) & 0xFF) as u8));
    assert(mh[9] == (((m.msid >> 16) & 0xFF) as u8));
    assert(mh[10] == ((m.msid >> 24) as u8));
    lemma_be24_round(ts_field);
    lemma_be24_round(lenf);
    lemma_le32_round(m.msid);
    assert(be24_at(s, p1) == ts_field);
    assert(be24_at(s, p1 + 3) == lenf);
    assert(le32_at(s, p1 + 7) == m.msid);
    assert(ts_field == 0xFFFFFF <==> m.timestamp >= 0xFFFFFF);
    let p2 = if ts_field == 0xFFFFFF {
        p1 + 15
    } else {
        p1 + 11
    };
    if m.timestamp >= 0xFFFFFF {
        assert(mh[11] == ((m.timestamp >> 24) as u8));
        assert(mh[12] == (((m.timestamp >> 16) & 0xFF) as u8));
        assert(mh[13] == (((m.timestamp >> 8) & 0xFF) as u8));
        assert(mh[14] == ((m.timestamp & 0xFF) as u8));
        lemma_be32c_round(m.timestamp);
        assert(be32_atc(s, p1 + 11) == m.timestamp);
    }
    assert(lenf as int == pl.len());
    slice_window(s, 0, s, p1 + mh.len() as int, first);
    slice_window(s, 0, s, p1 + mh.len() + first.len() as int, cont);
    assert(p2 == p1 + mh.len());
    lemma_cont_round(pl, cut, cs, csid, s, p2 + cut);
    assert(first + pl.subrange(cut, pl.len() as int) =~= pl);
    assert(s.subrange(p2, p2 + cut) =~= first);
}


/// Per-CSID receive context: the header fields successor chunks inherit,
/// and the in-progress reassembly buffer.
#[derive(Debug)]
pub struct ChunkContext {
    /// Last absolute timestamp
    pub last_timestamp: u32,
    /// Last timestamp delta
    pub last_delta: u32,
    /// Last message length
    pub last_length: u32,
    /// Last message type id
    pub last_type_id: u8,
    /// Last message stream id
    pub last_msid: u32,
    /// Payload accumulated for the message in progress
    pub buffer: Vec<u8>,
}

/// The observable state of a receive context: timestamp, delta, length,
/// type id, message stream id, and the buffered payload.
pub open spec fn ctx_view(c: ChunkContext) -> (u32, u32, u32, u8, u32, Seq<u8>) {
    (c.last_timestamp, c.last_delta, c.last_length, c.last_type_id, c.last_msid, c.buffer@)
}

/// The context stored for `csid`, if one exists.
pub open spec fn ctx_lookup(s: Seq<(u32, ChunkContext)>, csid: u32) -> Option<ChunkContext>
    decreases s.len(),
{
    if s.len() == 0 {
        None
    } else if s[0].0 == csid {
        Some(s[0].1)
    } else {
        ctx_lookup(s.skip(1), csid)
    }
}

/// The fields a chunk header resolves to once inheritance is applied,
/// given the context's prior fields and whether its buffer is empty:
/// format 0 is absolute, 1 and 2 add their delta and inherit the rest,
/// and 3 replays the last header (advancing by the stored delta only
/// when it opens a new message).
pub open spec fn spec_inherit(
    fmt: u8,
    last_ts: u32,
    last_delta: u32,
    last_len: u32,
    last_type: u8,
    last_msid: u32,
    buf_empty: bool,
    hdr_ts: u32,
    hdr_len: u32,
    hdr_type: u8,
    hdr_msid: u32,
) -> (u32, u32, u32, u8, u32) {
    if fmt == 0 {
        (hdr_ts, 0u32, hdr_len, hdr_type, hdr_msid)
    } else if fmt == 1 {
        (((last_ts + hdr_ts) % 0x1_0000_0000) as u32, hdr_ts, hdr_len, hdr_type, last_msid)
    } else if fmt == 2 {
        (((last_ts + hdr_ts) % 0x1_0000_0000) as u32, hdr_ts, last_len, last_type, last_msid)
    } else {
        if buf_empty {
            (
                ((last_ts + last_delta) % 0x1_0000_0000) as u32,
                last_delta,
                last_len,
                last_type,
                last_msid,
            )
        } else {
            (last_ts, last_delta, last_len, last_type, last_msid)
        }
    }
}

/// What one `process_chunk` call does, as a function of the CSID's prior
/// context (None when the chunk stream is new), the chunk size, and the
/// bytes at `pos`: the context's state afterwards, the message surfaced
/// if its payload completed, and the position after the chunk — or the
/// framing error, exactly when no well-formed chunk lies at `pos`.
pub open spec fn spec_chunk_step(
    ctx: Option<ChunkContext>,
    cs: int,
    s: Seq<u8>,
    pos: int,
) -> Result<((u32, u32, u32, u8, u32, Seq<u8>), Option<(u32, u8, u32, Seq<u8>)>, int), ChunkError> {
    match spec_parse_bh(s, pos) {
        None => Err(ChunkError::InvalidBasicHeader),
        Some((fmt, csid, p1)) => {
            if fmt != 0 && ctx is None {
                Err(ChunkError::MissingContext)
            } else {
                let hb: int = if fmt == 0 {
                    11
                } else if fmt == 1 {
                    7
                } else if fmt == 2 {
                    3
                } else {
                    0
                };
                if p1 + hb > s.len() {
                    Err(ChunkError::ChunkPayloadOverrun)
                } else {
                    let ts_raw: u32 = if fmt <= 2 {
                        be24_at(s, p1)
                    } else {
                        0
                    };
                    let ext = fmt <= 2 && ts_raw == 0xFFFFFF;
                    if ext && p1 + hb + 4 > s.len() {
                        Err(ChunkError::ChunkPayloadOverrun)
                    } else {
                        let hdr_ts: u32 = if ext {
                            be32_atc(s, p1 + hb)
                        } else {
                            ts_raw
                        };
                        let hdr_len: u32 = if fmt <= 1 {
                            be24_at(s, p1 + 3)
                        } else {
                            0
                        };
                        let hdr_type: u8 = if fmt <= 1 {
                            s[p1 + 6]
                        } else {
                            0
                        };
                        let hdr_msid: u32 = if fmt == 0 {
                            le32_at(s, p1 + 7)
                        } else {
                            0
                        };
                        let p2 = p1 + hb + (if ext {
                            4int
                        } else {
                            0int
                        });
                        let prior = match ctx {
                            Some(c) => ctx_view(c),
                            None => (0u32, 0u32, 0u32, 0u8, 0u32, Seq::<u8>::empty()),
                        };
                        let inh = spec_inherit(
                            fmt,
                            prior.0,
                            prior.1,
                            prior.2,
                            prior.3,
                            prior.4,
                            prior.5.len() == 0,
                            hdr_ts,
                            hdr_len,
                            hdr_type,
                            hdr_msid,
                        );
                        if prior.5.len() > inh.2 {
                            Err(ChunkError::ChunkPayloadOverrun)
                        } else {
                            let missing = inh.2 - prior.5.len();
                            let take = if missing <= cs {
                                missing as int
                            } else {
                                cs
                            };
                            if p2 + take > s.len() {
                                Err(ChunkError::ChunkPayloadOverrun)
                            } else {
                                let nbuf = prior.5 + s.subrange(p2, p2 + take);
                                if nbuf.len() == inh.2 {
                                    Ok(
                                        (
                                            (
                                                inh.0,
                                                inh.1,
                                                inh.2,
                                                inh.3,
                                                inh.4,
                                                Seq::<u8>::empty(),
                                            ),
                                            Some((inh.4, inh.3, inh.0, nbuf)),
                                            p2 + take,
                                        ),
                                    )
                                } else {
                                    Ok(
                                        (
                                            (inh.0, inh.1, inh.2, inh.3, inh.4, nbuf),
                                            None,
                                            p2 + take,
                                        ),
                                    )
                                }
                            }
                        }
                    }
                }
            }
        }
    }
}

/// With uniquely-keyed contexts, any entry carrying `csid` is the one
/// `ctx_lookup` finds.
proof fn lemma_ctx_lookup_at(s: Seq<(u32, ChunkContext)>, csid: u32, i: int)
    requires
        forall|a: int, b: int|
            0 <= a < b < s.len() ==> (#[trigger] s[a]).0 != (#[trigger] s[b]).0,
        0 <= i < s.len(),
        s[i].0 == csid,
    ensures
        ctx_lookup(s, csid) == Some(s[i].1),
    decreases s.len(),
{
    if i == 0 {
    } else {
        assert(s[0].0 != csid);
        assert forall|a: int, b: int|
            0 <= a < b < s.skip(1).len() implies (#[trigger] s.skip(1)[a]).0 != (
        #[trigger] s.skip(1)[b]).0 by {
            assert(s.skip(1)[a] == s[a + 1]);
            assert(s.skip(1)[b] == s[b + 1]);
        }
        assert(s.skip(1)[i - 1] == s[i]);
        lemma_ctx_lookup_at(s.skip(1), csid, i - 1);
    }
}

/// When no entry carries `csid`, the lookup is empty.
proof fn lemma_ctx_lookup_absent(s: Seq<(u32, ChunkContext)>, csid: u32)
    requires
        forall|i: int| 0 <= i < s.len() ==> (#[trigger] s[i]).0 != csid,
    ensures
        ctx_lookup(s, csid) is None,
    decreases s.len(),
{
    if s.len() > 0 {
        assert forall|i: int| 0 <= i < s.skip(1).len() implies (#[trigger] s.skip(1)[i]).0
            != csid by {
            assert(s.skip(1)[i] == s[i + 1]);
        }
        lemma_ctx_lookup_absent(s.skip(1), csid);
    }
}

/// After removing index `idx` and inserting a pair back there, every
/// other position holds what it held before.
proof fn reinsert_facts(base: Seq<(u32, ChunkContext)>, post: Seq<(u32, ChunkContext)>, idx: int)
    requires
        0 <= idx < base.len(),
        post == base.remove(idx).insert(idx, post[idx]),
    ensures
        post.len() == base.len(),
        forall|k: int| 0 <= k < base.len() && k != idx ==> post[k] == base[k],
{
    assert forall|k: int| 0 <= k < base.len() && k != idx implies post[k] == base[k] by {
        if k < idx {
            assert(base.remove(idx)[k] == base[k]);
        } else {
            assert(base.remove(idx)[k - 1] == base[k]);
        }
    }
}

/// Replacing the entry at `idx` with one carrying the same CSID keeps
/// every other entry and the uniqueness of CSIDs.
proof fn lemma_context_replace(
    base: Seq<(u32, ChunkContext)>,
    post: Seq<(u32, ChunkContext)>,
    idx: int,
)
    requires
        0 <= idx < base.len(),
        post.len() == base.len(),
        forall|k: int| 0 <= k < base.len() && k != idx ==> post[k] == base[k],
        post[idx].0 == base[idx].0,
        forall|a: int, b: int|
            0 <= a < b < base.len() ==> (#[trigger] base[a]).0 != (#[trigger] base[b]).0,
    ensures
        forall|a: int, b: int|
            0 <= a < b < post.len() ==> (#[trigger] post[a]).0 != (#[trigger] post[b]).0,
        forall|i: int| 0 <= i < post.len() && (#[trigger] post[i]).0 == base[idx].0 ==> i == idx,
{
    assert forall|a: int, b: int| 0 <= a < b < post.len() implies (#[trigger] post[a]).0 != (
    #[trigger] post[b]).0 by {
        assert(post[a].0 == base[a].0);
        assert(post[b].0 == base[b].0);
    }
    assert forall|i: int| 0 <= i < post.len() && (#[trigger] post[i]).0 == base[idx].0
        implies i == idx by {
        if i != idx {
            assert(post[i].0 == base[i].0);
            if i < idx {
                assert(base[i].0 != base[idx].0);
            } else {
                assert(base[idx].0 != base[i].0);
            }
        }
    }
}

/// How one processed chunk on `csid` relates the context table before
/// and after: other chunk streams are untouched, a context for `csid`
/// exists, and a surfaced message carries that context's header fields
/// with the reassembly buffer drained (a pending one leaves the buffer
/// short of the declared length).
pub open spec fn chunk_stream_updated(
    pre: Seq<(u32, ChunkContext)>,
    post: Seq<(u32, ChunkContext)>,
    csid: u32,
    out: Option<ChunkMessage>,
) -> bool {
    &&& post.len() >= pre.len()
    &&& forall|i: int|
        0 <= i < pre.len() && (#[trigger] pre[i]).0 != csid ==> post[i] == pre[i]
    &&& exists|i: int| 0 <= i < post.len() && (#[trigger] post[i]).0 == csid
    &&& forall|i: int|
        0 <= i < post.len() && (#[trigger] post[i]).0 == csid ==> ({
            let ctx = post[i].1;
            match out {
                Some(m) => m.msid == ctx.last_msid && m.type_id == ctx.last_type_id
                    && m.timestamp == ctx.last_timestamp && m.payload@.len() == ctx.last_length
                    && ctx.buffer@.len() == 0,
                None => ctx.buffer@.len() < ctx.last_length,
            }
        })
}

/// Stateful chunk stream decoder: one receive context per CSID, with a
/// negotiable chunk size. Each call consumes one chunk; a message
/// surfaces when its accumulated payload reaches the declared length.
pub struct ChunkDecoder {
    chunk_size: u32,
    contexts: Vec<(u32, ChunkContext)>,
}

impl ChunkDecoder {
    /// The incoming chunk size in effect.
    pub closed spec fn spec_chunk_size(&self) -> u32 {
        self.chunk_size
    }

    /// The per-CSID contexts.
    pub closed spec fn spec_contexts(&self) -> Seq<(u32, ChunkContext)> {
        self.contexts@
    }

    /// Each chunk stream has at most one context.
    pub open spec fn wf(&self) -> bool {
        forall|i: int, j: int|
            0 <= i < j < self.spec_contexts().len() ==> (#[trigger] self.spec_contexts()[i]).0
                != (#[trigger] self.spec_contexts()[j]).0
    }

    /// A decoder at the protocol's initial chunk size of 128.
    pub fn new() -> (r: Self)
        ensures
            r.spec_chunk_size() == 128,
            r.spec_contexts().len() == 0,
            r.wf(),
    {
        ChunkDecoder { chunk_size: 128, contexts: Vec::new() }
    }

    /// Apply a Set Chunk Size control message, capped at 2^24 - 1 and
    /// floored at 1.
    pub fn set_chunk_size(&mut self, size: u32)
        ensures
            final(self).spec_chunk_size() == (if size < 1 {
                1u32
            } else if size > 0xFFFFFF {
                0xFFFFFFu32
            } else {
                size
            }),
            final(self).spec_contexts() == old(self).spec_contexts(),
    {
        let capped = if size < 1 {
            1
        } else if size > 0xFFFFFF {
            0xFFFFFF
        } else {
            size
        };
        self.chunk_size = capped;
    }

    /// The chunk size in effect.
    pub fn chunk_size(&self) -> (r: u32)
        ensures
            r == self.spec_chunk_size(),
    {
        self.chunk_size
    }

    fn find_context(&mut self, csid: u32) -> (r: usize)
        ensures
            r <= old(self).spec_contexts().len(),
            r < old(self).spec_contexts().len() ==> final(self).spec_contexts() == old(self).spec_contexts() && final(self).spec_contexts()[r as int].0 == csid,
            r == old(self).spec_contexts().len() ==> final(self).spec_contexts().len() == old(self).spec_contexts().len() + 1 && final(self).spec_contexts().take(r as int) == old(self).spec_contexts() && final(self).spec_contexts()[r as int].0 == csid && ctx_view(
                final(self).spec_contexts()[r as int].1,
            ) == (0u32, 0u32, 0u32, 0u8, 0u32, Seq::<u8>::empty()) && (forall|k: int|
                0 <= k < old(self).spec_contexts().len() ==> (#[trigger] old(self).spec_contexts()[k]).0 != csid),
            final(self).spec_chunk_size() == old(self).spec_chunk_size(),
            r < final(self).spec_contexts().len(),
    {
        let mut i: usize = 0;
        while i < self.contexts.len()
            invariant
                *self == *old(self),
                i <= self.contexts@.len(),
                forall|k: int| 0 <= k < i ==> (#[trigger] self.contexts@[k]).0 != csid,
            decreases self.contexts@.len() - i,
        {
            if self.contexts[i].0 == csid {
                return i;
            }
            i = i + 1;
        }
        let fresh = ChunkContext {
            last_timestamp: 0,
            last_delta: 0,
            last_length: 0,
            last_type_id: 0,
            last_msid: 0,
            buffer: Vec::new(),
        };
        self.contexts.push((csid, fresh));
        proof {
            assert(self.contexts@.take(i as int) =~= old(self).contexts@);
        }
        i
    }

    /// Consume one chunk from `data` at `pos`.
    ///
    /// The basic header picks the context; the message header fields a
    /// format omits are inherited as `spec_inherit` says (a format-3
    /// chunk on an empty buffer replays the last header, advancing the
    /// timestamp by the stored delta). Up to a chunk size of payload is
    /// buffered; a completed message is returned along with the position
    /// after the chunk. Formats 1-3 on a CSID never seen before are
    /// rejected; a declared length beyond 2^24 - 1 cannot occur (the
    /// field is three bytes wide).
    #[verifier::rlimit(100)]
    #[verifier::spinoff_prover]
    pub fn process_chunk(&mut self, data: &[u8], pos: usize) -> (r: Result<
        (Option<ChunkMessage>, usize),
        ChunkError,
    >)
        requires
            old(self).wf(),
        ensures
            final(self).spec_chunk_size() == old(self).spec_chunk_size(),
            final(self).wf(),
            ({
                let bh = spec_parse_bh(data@, pos as int);
                let csid = if bh is Some {
                    (bh->0).1
                } else {
                    0u32
                };
                let step = spec_chunk_step(
                    ctx_lookup(old(self).spec_contexts(), csid),
                    old(self).spec_chunk_size() as int,
                    data@,
                    pos as int,
                );
                match r {
                    Ok((out, p2)) => {
                        &&& pos < p2 <= data@.len()
                        &&& bh is Some
                        &&& chunk_stream_updated(
                            old(self).spec_contexts(),
                            final(self).spec_contexts(),
                            csid,
                            out,
                        )
                        &&& step matches Ok((cv2, mv, q2)) && q2 == p2 as int && (match out {
                            Some(m) => mv == Some(
                                (m.msid, m.type_id, m.timestamp, m.payload@),
                            ),
                            None => mv is None,
                        }) && (forall|i: int|
                            0 <= i < final(self).spec_contexts().len() && (#[trigger] final(self).spec_contexts()[i]).0 == csid ==> ctx_view(
                                final(self).spec_contexts()[i].1,
                            ) == cv2)
                    },
                    Err(e) => step == Err::<
                        ((u32, u32, u32, u8, u32, Seq<u8>), Option<(u32, u8, u32, Seq<u8>)>, int),
                        _,
                    >(e),
                }
            }),
    {
        let n = data.len();
        let (fmt, csid, p1) = match parse_bh(data, pos) {
            Some(t) => t,
            None => {
                proof {
                    assert(spec_chunk_step(
                        ctx_lookup(old(self).spec_contexts(), 0u32),
                        old(self).spec_chunk_size() as int,
                        data@,
                        pos as int,
                    ) == Err::<
                        (
                            (u32, u32, u32, u8, u32, Seq<u8>),
                            Option<(u32, u8, u32, Seq<u8>)>,
                            int,
                        ),
                        _,
                    >(ChunkError::InvalidBasicHeader));
                }
                return Err(ChunkError::InvalidBasicHeader);
            },
        };

        let known = self.context_known(csid);
        if fmt != 0 && !known {
            proof {
                assert forall|k: int|
                    0 <= k < old(self).spec_contexts().len() implies (#[trigger] old(
                    self).spec_contexts()[k]).0 != csid by {}
                lemma_ctx_lookup_absent(old(self).spec_contexts(), csid);
            }
            return Err(ChunkError::MissingContext);
        }
        let idx = self.find_context(csid);
        proof {
            assert forall|a: int, b: int|
                0 <= a < b < self.contexts@.len() implies (#[trigger] self.contexts@[a]).0 != (
            #[trigger] self.contexts@[b]).0 by {
                if b < old(self).spec_contexts().len() {
                    assert(self.contexts@[a] == old(self).spec_contexts()[a]);
                    assert(self.contexts@[b] == old(self).spec_contexts()[b]);
                } else {
                    assert(self.contexts@[a] == old(self).spec_contexts()[a]);
                }
            }
            assert(self.contexts@[idx as int].0 == csid);
        }
        let ghost lk = ctx_lookup(old(self).spec_contexts(), csid);
        let ghost prior: (u32, u32, u32, u8, u32, Seq<u8>) = (match lk {
            Some(c) => ctx_view(c),
            None => (0u32, 0u32, 0u32, 0u8, 0u32, Seq::<u8>::empty()),
        });
        let ghost cs_g = self.chunk_size as int;
        proof {
            if (idx as int) < old(self).spec_contexts().len() {
                lemma_ctx_lookup_at(old(self).spec_contexts(), csid, idx as int);
            } else {
                assert forall|k: int|
                    0 <= k < old(self).spec_contexts().len() implies (#[trigger] old(
                    self).spec_contexts()[k]).0 != csid by {}
                lemma_ctx_lookup_absent(old(self).spec_contexts(), csid);
            }
            assert(prior == ctx_view(self.contexts@[idx as int].1));
        }

        // Read whatever message header this format carries.
        let hdr_bytes: usize = if fmt == 0 {
            11
        } else if fmt == 1 {
            7
        } else if fmt == 2 {
            3
        } else {
            0
        };
        if n - p1 < hdr_bytes {
            proof {
                assert(spec_chunk_step(lk, cs_g, data@, pos as int) == Err::<
                    ((u32, u32, u32, u8, u32, Seq<u8>), Option<(u32, u8, u32, Seq<u8>)>, int),
                    _,
                >(ChunkError::ChunkPayloadOverrun));
            }
            return Err(ChunkError::ChunkPayloadOverrun);
        }
        let mut hdr_ts: u32 = 0;
        let mut hdr_len: u32 = 0;
        let mut hdr_type: u8 = 0;
        let mut hdr_msid: u32 = 0;
        if fmt <= 2 {
            let t0 = *vstd::slice::slice_index_get(data, p1);
            let t1 = *vstd::slice::slice_index_get(data, p1 + 1);
            let t2 = *vstd::slice::slice_index_get(data, p1 + 2);
            hdr_ts = ((t0 as u32) << 16) | ((t1 as u32) << 8) | (t2 as u32);
        }
        if fmt <= 1 {
            let l0 = *vstd::slice::slice_index_get(data, p1 + 3);
            let l1 = *vstd::slice::slice_index_get(data, p1 + 4);
            let l2 = *vstd::slice::slice_index_get(data, p1 + 5);
            hdr_len = ((l0 as u32) << 16) | ((l1 as u32) << 8) | (l2 as u32);
            hdr_type = *vstd::slice::slice_index_get(data, p1 + 6);
        }
        if fmt == 0 {
            let m0 = *vstd::slice::slice_index_get(data, p1 + 7);
            let m1 = *vstd::slice::slice_index_get(data, p1 + 8);
            let m2 = *vstd::slice::slice_index_get(data, p1 + 9);
            let m3 = *vstd::slice::slice_index_get(data, p1 + 10);
            hdr_msid = (m0 as u32) | ((m1 as u32) << 8) | ((m2 as u32) << 16) | ((m3 as u32)
                << 24);
        }
        let ghost ts_raw = hdr_ts;
        let mut p2 = p1 + hdr_bytes;

        // Extended timestamp when the three-byte field saturates.
        if fmt <= 2 && hdr_ts == 0xFFFFFF {
            if n - p2 < 4 {
                proof {
                    assert(spec_chunk_step(lk, cs_g, data@, pos as int) == Err::<
                        (
                            (u32, u32, u32, u8, u32, Seq<u8>),
                            Option<(u32, u8, u32, Seq<u8>)>,
                            int,
                        ),
                        _,
                    >(ChunkError::ChunkPayloadOverrun));
                }
                return Err(ChunkError::ChunkPayloadOverrun);
            }
            let e0 = *vstd::slice::slice_index_get(data, p2);
            let e1 = *vstd::slice::slice_index_get(data, p2 + 1);
            let e2 = *vstd::slice::slice_index_get(data, p2 + 2);
            let e3 = *vstd::slice::slice_index_get(data, p2 + 3);
            hdr_ts = ((e0 as u32) << 24) | ((e1 as u32) << 16) | ((e2 as u32) << 8) | (e3 as u32);
            p2 = p2 + 4;
        }

        let ghost base = self.contexts@;
        let pair = self.contexts.remove(idx);
        let (key, mut ctx) = pair;
        proof {
            assert(ctx_view(ctx) == prior);
        }
        let ghost inh = spec_inherit(
            fmt,
            prior.0,
            prior.1,
            prior.2,
            prior.3,
            prior.4,
            prior.5.len() == 0,
            hdr_ts,
            hdr_len,
            hdr_type,
            hdr_msid,
        );

        // Resolve inheritance.
        if fmt == 0 {
            ctx.last_timestamp = hdr_ts;
            ctx.last_delta = 0;
            ctx.last_length = hdr_len;
            ctx.last_type_id = hdr_type;
            ctx.last_msid = hdr_msid;
        } else if fmt == 1 {
            ctx.last_timestamp = ctx.last_timestamp.wrapping_add(hdr_ts);
            ctx.last_delta = hdr_ts;
            ctx.last_length = hdr_len;
            ctx.last_type_id = hdr_type;
        } else if fmt == 2 {
            ctx.last_timestamp = ctx.last_timestamp.wrapping_add(hdr_ts);
            ctx.last_delta = hdr_ts;
        } else {
            if ctx.buffer.len() == 0 {
                ctx.last_timestamp = ctx.last_timestamp.wrapping_add(ctx.last_delta);
            }
        }

        proof {
            assert(ctx.last_timestamp == inh.0 && ctx.last_delta == inh.1 && ctx.last_length
                == inh.2 && ctx.last_type_id == inh.3 && ctx.last_msid == inh.4);
            assert(ctx.buffer@ == prior.5);
        }

        // Take up to one chunk size of payload.
        let length = ctx.last_length as usize;
        if ctx.buffer.len() > length {
            self.contexts.insert(idx, (key, ctx));
            proof {
                reinsert_facts(base, self.contexts@, idx as int);
                lemma_context_replace(base, self.contexts@, idx as int);
                assert(spec_chunk_step(lk, cs_g, data@, pos as int) == Err::<
                    ((u32, u32, u32, u8, u32, Seq<u8>), Option<(u32, u8, u32, Seq<u8>)>, int),
                    _,
                >(ChunkError::ChunkPayloadOverrun));
            }
            return Err(ChunkError::ChunkPayloadOverrun);
        }
        let missing = length - ctx.buffer.len();
        let cs = self.chunk_size as usize;
        let take = if missing <= cs {
            missing
        } else {
            cs
        };
        if n - p2 < take {
            self.contexts.insert(idx, (key, ctx));
            proof {
                reinsert_facts(base, self.contexts@, idx as int);
                lemma_context_replace(base, self.contexts@, idx as int);
                assert(spec_chunk_step(lk, cs_g, data@, pos as int) == Err::<
                    ((u32, u32, u32, u8, u32, Seq<u8>), Option<(u32, u8, u32, Seq<u8>)>, int),
                    _,
                >(ChunkError::ChunkPayloadOverrun));
            }
            return Err(ChunkError::ChunkPayloadOverrun);
        }
        extend_out(&mut ctx.buffer, data, p2, p2 + take);
        let p3 = p2 + take;
        let ghost nbuf_g = ctx.buffer@;

        let out = if ctx.buffer.len() == length {
            let payload = copy_out(ctx.buffer.as_slice(), 0, ctx.buffer.len());
            proof {
                assert(nbuf_g.subrange(0, nbuf_g.len() as int) =~= nbuf_g);
                assert(payload@ == nbuf_g);
            }
            ctx.buffer.clear();
            Some(ChunkMessage {
                msid: ctx.last_msid,
                type_id: ctx.last_type_id,
                timestamp: ctx.last_timestamp,
                payload,
            })
        } else {
            None
        };
        self.contexts.insert(idx, (key, ctx));
        proof {
            reinsert_facts(base, self.contexts@, idx as int);
            lemma_context_replace(base, self.contexts@, idx as int);
            assert(0 <= idx < self.contexts@.len() && self.contexts@[idx as int].0 == csid);
            assert forall|i: int|
                0 <= i < old(self).spec_contexts().len() && (#[trigger] old(self).spec_contexts()[i]).0 != csid implies self.contexts@[i] == old(self).spec_contexts()[i] by {
                assert(self.contexts@[i] == base[i]);
                assert(base[i] == old(self).spec_contexts()[i]);
            }
            let mv: Option<(u32, u8, u32, Seq<u8>)> = (match &out {
                Some(m) => Some((m.msid, m.type_id, m.timestamp, m.payload@)),
                None => None,
            });
            assert(spec_chunk_step(lk, cs_g, data@, pos as int) == Ok::<_, ChunkError>(
                (ctx_view(self.contexts@[idx as int].1), mv, p3 as int),
            ));
        }
        Ok((out, p3))
    }

    /// Whether a context exists for this CSID.
    fn context_known(&self, csid: u32) -> (r: bool)
        ensures
            r == exists|i: int|
                0 <= i < self.spec_contexts().len() && (#[trigger] self.spec_contexts()[i]).0
                    == csid,
    {
        let mut i: usize = 0;
        while i < self.contexts.len()
            invariant
                i <= self.contexts@.len(),
                forall|k: int| 0 <= k < i ==> (#[trigger] self.contexts@[k]).0 != csid,
            decreases self.contexts@.len() - i,
        {
            if self.contexts[i].0 == csid {
                proof {
                    assert(0 <= i < self.spec_contexts().len() && self.spec_contexts()[
                        i as int].0 == csid);
                }
                return true;
            }
            i = i + 1;
        }
        false
    }
}

impl Default for ChunkDecoder {
    /// A decoder at the initial chunk size.
    fn default() -> (r: Self)
        ensures
            r.spec_chunk_size() == 128,
            r.spec_contexts().len() == 0,
    {
        ChunkDecoder::new()
    }
}

} // verus!
