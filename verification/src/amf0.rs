//! AMF0 encoder and decoder.
//!
//! AMF0 is the command value language of RTMP. Values carry a one-byte
//! type marker followed by the payload: numbers are big-endian IEEE 754
//! doubles, strings a 16-bit (or, long form, 32-bit) length prefix and
//! UTF-8 bytes, objects key/value pairs closed by an empty key and the
//! end-of-object marker. The decoder is lenient by default (missing end
//! markers and unknown markers are tolerated) and bounds nesting at 64.
//!
//! The encoder and decoder are specified against `spec_encode` and
//! `spec_decode`; `lemma_amf0_round_trip` proves that decoding an encoded
//! well-formed value yields the value back.

use vstd::prelude::*;

use bytes::Bytes;

use crate::amf::{dv, AmfVal, AmfValue};
use crate::bytebuf::{bytes_advance, bytes_len, bytes_to_vec, bytes_view, vec_to_bytes};
use crate::error::AmfError;

verus! {

broadcast use vstd::seq::axiom_seq_index_decreases, vstd::std_specs::vec::axiom_vec_index_decreases;

/// Maximum nesting depth for objects and arrays.
pub const MAX_NESTING_DEPTH: usize = 64;

/// Whether a byte sequence is valid UTF-8, as `core::str::from_utf8`
/// accepts it.
pub uninterp spec fn is_utf8(s: Seq<u8>) -> bool;

/// Relies on core::str::from_utf8: whether the bytes are valid UTF-8, a
/// function of the bytes alone.
#[verifier::external_body]
fn utf8_check(v: &[u8]) -> (r: bool)
    ensures
        r == is_utf8(v@),
{
    core::str::from_utf8(v).is_ok()
}

/// The two big-endian bytes of `n`.
pub open spec fn be16_of(n: u16) -> Seq<u8> {
    seq![(n >> 8) as u8, n as u8]
}

/// The four big-endian bytes of `n`.
pub open spec fn be32_of(n: u32) -> Seq<u8> {
    seq![(n >> 24) as u8, (n >> 16) as u8, (n >> 8) as u8, n as u8]
}

/// The eight big-endian bytes of `n`.
pub open spec fn be64_of(n: u64) -> Seq<u8> {
    seq![
        (n >> 56) as u8,
        (n >> 48) as u8,
        (n >> 40) as u8,
        (n >> 32) as u8,
        (n >> 24) as u8,
        (n >> 16) as u8,
        (n >> 8) as u8,
        n as u8,
    ]
}

/// The 16-bit value of the two big-endian bytes at `s[pos..]`.
pub open spec fn be16_at(s: Seq<u8>, pos: int) -> u16 {
    ((s[pos] as u16) << 8) | (s[pos + 1] as u16)
}

/// The 32-bit value of the four big-endian bytes at `s[pos..]`.
pub open spec fn be32_at(s: Seq<u8>, pos: int) -> u32 {
    ((s[pos] as u32) << 24) | ((s[pos + 1] as u32) << 16) | ((s[pos + 2] as u32) << 8) | (s[pos
        + 3] as u32)
}

/// The 64-bit value of the eight big-endian bytes at `s[pos..]`.
pub open spec fn be64_at(s: Seq<u8>, pos: int) -> u64 {
    ((s[pos] as u64) << 56) | ((s[pos + 1] as u64) << 48) | ((s[pos + 2] as u64) << 40) | ((s[pos
        + 3] as u64) << 32) | ((s[pos + 4] as u64) << 24) | ((s[pos + 5] as u64) << 16) | ((s[pos
        + 6] as u64) << 8) | (s[pos + 7] as u64)
}

/// A key as the encoder writes it: 16-bit length prefix, then the bytes,
/// truncated to 65535 bytes.
pub open spec fn key_bytes(k: Seq<u8>) -> Seq<u8> {
    let l: int = if k.len() > 0xFFFF {
        0xFFFF
    } else {
        k.len() as int
    };
    be16_of(l as u16) + k.take(l)
}

/// The AMF0 encoding of a value.
pub open spec fn spec_encode(v: AmfVal) -> Seq<u8>
    decreases v, 0int,
{
    match v {
        AmfVal::Null => seq![0x05u8],
        AmfVal::Undefined => seq![0x06u8],
        AmfVal::Boolean(b) => seq![0x01u8, if b { 1u8 } else { 0u8 }],
        AmfVal::Number(n) => seq![0x00u8] + be64_of(n),
        AmfVal::String(s) => if s.len() > 0xFFFF {
            seq![0x0Cu8] + be32_of(s.len() as u32) + s
        } else {
            seq![0x02u8] + be16_of(s.len() as u16) + s
        },
        AmfVal::Array(items) => seq![0x0Au8] + be32_of(items.len() as u32) + spec_encode_list(
            items,
            0,
        ),
        AmfVal::Object(props) => seq![0x03u8] + spec_encode_props(props, 0) + seq![
            0x00u8,
            0x00u8,
            0x09u8,
        ],
        AmfVal::TypedObject { class_name, properties } => seq![0x10u8] + key_bytes(class_name)
            + spec_encode_props(properties, 0) + seq![0x00u8, 0x00u8, 0x09u8],
        AmfVal::Date(d) => seq![0x0Bu8] + be64_of(d) + seq![0x00u8, 0x00u8],
        AmfVal::Xml(s) => seq![0x0Fu8] + be32_of(s.len() as u32) + s,
        AmfVal::EcmaArray(props) => seq![0x08u8] + be32_of(props.len() as u32) + spec_encode_props(
            props,
            0,
        ) + seq![0x00u8, 0x00u8, 0x09u8],
    }
}

/// The encodings of the array elements from `i` on, concatenated.
pub open spec fn spec_encode_list(items: Seq<AmfVal>, i: int) -> Seq<u8>
    decreases items, items.len() - i, 1int,
{
    if i < 0 || i >= items.len() {
        Seq::empty()
    } else {
        spec_encode(items[i]) + spec_encode_list(items, i + 1)
    }
}

/// The encodings of the key/value pairs from `i` on, concatenated.
pub open spec fn spec_encode_props(props: Seq<(Seq<u8>, AmfVal)>, i: int) -> Seq<u8>
    decreases props, props.len() - i, 1int,
{
    if i < 0 || i >= props.len() {
        Seq::empty()
    } else {
        key_bytes(props[i].0) + spec_encode(props[i].1) + spec_encode_props(props, i + 1)
    }
}

/// The nesting depth the decoder's depth counter sees for this value.
pub open spec fn depth_of(v: AmfVal) -> int
    decreases v, 0int,
{
    match v {
        AmfVal::Array(items) => 1 + depth_of_list(items, 0),
        AmfVal::Object(props) => 1 + depth_of_props(props, 0),
        AmfVal::TypedObject { properties, .. } => 1 + depth_of_props(properties, 0),
        AmfVal::EcmaArray(props) => 1 + depth_of_props(props, 0),
        _ => 1,
    }
}

/// The greatest depth among the elements from `i` on.
pub open spec fn depth_of_list(items: Seq<AmfVal>, i: int) -> int
    decreases items, items.len() - i, 1int,
{
    if i < 0 || i >= items.len() {
        0
    } else {
        let d = depth_of(items[i]);
        let rest = depth_of_list(items, i + 1);
        if d > rest {
            d
        } else {
            rest
        }
    }
}

/// The greatest depth among the pair values from `i` on.
pub open spec fn depth_of_props(props: Seq<(Seq<u8>, AmfVal)>, i: int) -> int
    decreases props, props.len() - i, 1int,
{
    if i < 0 || i >= props.len() {
        0
    } else {
        let d = depth_of(props[i].1);
        let rest = depth_of_props(props, i + 1);
        if d > rest {
            d
        } else {
            rest
        }
    }
}

/// A value the decoder can hand back unchanged after encoding: string
/// lengths within their length prefixes, keys non-empty and short enough
/// not to be truncated, counts within 32 bits, and all text valid UTF-8.
pub open spec fn wf_amf(v: AmfVal) -> bool
    decreases v, 0int,
{
    match v {
        AmfVal::Null => true,
        AmfVal::Undefined => true,
        AmfVal::Boolean(_) => true,
        AmfVal::Number(_) => true,
        AmfVal::Date(_) => true,
        AmfVal::String(s) => s.len() < 0x1_0000_0000 && is_utf8(s),
        AmfVal::Xml(s) => s.len() < 0x1_0000_0000 && is_utf8(s),
        AmfVal::Array(items) => items.len() < 0x1_0000_0000 && wf_amf_list(items, 0),
        AmfVal::Object(props) => wf_amf_props(props, 0),
        AmfVal::TypedObject { class_name, properties } => class_name.len() <= 0xFFFF && is_utf8(
            class_name,
        ) && wf_amf_props(properties, 0),
        AmfVal::EcmaArray(props) => props.len() < 0x1_0000_0000 && wf_amf_props(props, 0),
    }
}

/// Well-formedness of the elements from `i` on.
pub open spec fn wf_amf_list(items: Seq<AmfVal>, i: int) -> bool
    decreases items, items.len() - i, 1int,
{
    if i < 0 || i >= items.len() {
        true
    } else {
        wf_amf(items[i]) && wf_amf_list(items, i + 1)
    }
}

/// Well-formedness of the pairs from `i` on: keys non-empty, at most
/// 65535 bytes, valid UTF-8; values well-formed.
pub open spec fn wf_amf_props(props: Seq<(Seq<u8>, AmfVal)>, i: int) -> bool
    decreases props, props.len() - i, 1int,
{
    if i < 0 || i >= props.len() {
        true
    } else {
        0 < props[i].0.len() <= 0xFFFF && is_utf8(props[i].0) && wf_amf(props[i].1)
            && wf_amf_props(props, i + 1)
    }
}

/// Bytes remaining in `s` from `pos` (zero past the end), the decoder's
/// termination measure.
pub open spec fn rem(s: Seq<u8>, pos: int) -> int {
    if 0 <= pos <= s.len() {
        s.len() - pos
    } else {
        0
    }
}

/// A key read: the bytes and the position after, or the error.
pub open spec fn spec_read_key(s: Seq<u8>, pos: int) -> Result<(Seq<u8>, int), AmfError> {
    if pos < 0 || pos + 2 > s.len() {
        Err(AmfError::UnexpectedEof)
    } else {
        let l = be16_at(s, pos) as int;
        if pos + 2 + l > s.len() {
            Err(AmfError::UnexpectedEof)
        } else if l > 0 && !is_utf8(s.subrange(pos + 2, pos + 2 + l)) {
            Err(AmfError::InvalidUtf8)
        } else {
            Ok((s.subrange(pos + 2, pos + 2 + l), pos + 2 + l))
        }
    }
}

/// A long string read (32-bit length prefix).
pub open spec fn spec_read_long(s: Seq<u8>, pos: int) -> Result<(Seq<u8>, int), AmfError> {
    if pos < 0 || pos + 4 > s.len() {
        Err(AmfError::UnexpectedEof)
    } else {
        let l = be32_at(s, pos) as int;
        if pos + 4 + l > s.len() {
            Err(AmfError::UnexpectedEof)
        } else if l > 0 && !is_utf8(s.subrange(pos + 4, pos + 4 + l)) {
            Err(AmfError::InvalidUtf8)
        } else {
            Ok((s.subrange(pos + 4, pos + 4 + l), pos + 4 + l))
        }
    }
}

/// What one decode step yields from `s` at `pos` with the given depth
/// already on the stack, reference table, and leniency: the value, the
/// position after it, and the updated reference table.
pub open spec fn spec_decode(
    s: Seq<u8>,
    pos: int,
    depth: int,
    refs: Seq<AmfVal>,
    lenient: bool,
) -> Result<(AmfVal, int, Seq<AmfVal>), AmfError>
    decreases rem(s, pos), 0int,
{
    if pos < 0 || pos >= s.len() {
        Err(AmfError::UnexpectedEof)
    } else if depth + 1 > 64 {
        Err(AmfError::NestingTooDeep)
    } else {
        let m = s[pos];
        let p = pos + 1;
        if m == 0x00 {
            if p + 8 > s.len() {
                Err(AmfError::UnexpectedEof)
            } else {
                Ok((AmfVal::Number(be64_at(s, p)), p + 8, refs))
            }
        } else if m == 0x01 {
            if p >= s.len() {
                Err(AmfError::UnexpectedEof)
            } else {
                Ok((AmfVal::Boolean(s[p] != 0), p + 1, refs))
            }
        } else if m == 0x02 {
            match spec_read_key(s, p) {
                Ok((bytes, p2)) => Ok((AmfVal::String(bytes), p2, refs)),
                Err(e) => Err(e),
            }
        } else if m == 0x03 {
            let refs1 = refs.push(AmfVal::Null);
            match spec_decode_props(s, p, depth + 1, refs1, lenient) {
                Ok((props, p2, refs2)) => {
                    let obj = AmfVal::Object(props);
                    Ok((obj, p2, refs2.update(refs.len() as int, obj)))
                },
                Err(e) => Err(e),
            }
        } else if m == 0x05 {
            Ok((AmfVal::Null, p, refs))
        } else if m == 0x06 {
            Ok((AmfVal::Undefined, p, refs))
        } else if m == 0x07 {
            if p + 2 > s.len() {
                Err(AmfError::UnexpectedEof)
            } else {
                let idx = be16_at(s, p) as int;
                if idx >= refs.len() {
                    Err(AmfError::InvalidReference(be16_at(s, p)))
                } else {
                    Ok((refs[idx], p + 2, refs))
                }
            }
        } else if m == 0x08 {
            if p + 4 > s.len() {
                Err(AmfError::UnexpectedEof)
            } else {
                let refs1 = refs.push(AmfVal::Null);
                match spec_decode_props(s, p + 4, depth + 1, refs1, lenient) {
                    Ok((props, p2, refs2)) => {
                        let arr = AmfVal::EcmaArray(props);
                        Ok((arr, p2, refs2.update(refs.len() as int, arr)))
                    },
                    Err(e) => Err(e),
                }
            }
        } else if m == 0x09 {
            if lenient {
                Ok((AmfVal::Undefined, p, refs))
            } else {
                Err(AmfError::UnknownMarker(0x09))
            }
        } else if m == 0x0A {
            if p + 4 > s.len() {
                Err(AmfError::UnexpectedEof)
            } else {
                let count = be32_at(s, p) as int;
                let refs1 = refs.push(AmfVal::Null);
                match spec_decode_items(s, p + 4, depth + 1, refs1, lenient, count) {
                    Ok((items, p2, refs2)) => {
                        let arr = AmfVal::Array(items);
                        Ok((arr, p2, refs2.update(refs.len() as int, arr)))
                    },
                    Err(e) => Err(e),
                }
            }
        } else if m == 0x0B {
            if p + 10 > s.len() {
                Err(AmfError::UnexpectedEof)
            } else {
                Ok((AmfVal::Date(be64_at(s, p)), p + 10, refs))
            }
        } else if m == 0x0C {
            match spec_read_long(s, p) {
                Ok((bytes, p2)) => Ok((AmfVal::String(bytes), p2, refs)),
                Err(e) => Err(e),
            }
        } else if m == 0x0D {
            Ok((AmfVal::Undefined, p, refs))
        } else if m == 0x0F {
            match spec_read_long(s, p) {
                Ok((bytes, p2)) => Ok((AmfVal::Xml(bytes), p2, refs)),
                Err(e) => Err(e),
            }
        } else if m == 0x10 {
            match spec_read_key(s, p) {
                Ok((class_name, p1)) => {
                    let refs1 = refs.push(AmfVal::Null);
                    match spec_decode_props(s, p1, depth + 1, refs1, lenient) {
                        Ok((props, p2, refs2)) => {
                            let obj = AmfVal::TypedObject { class_name, properties: props };
                            Ok((obj, p2, refs2.update(refs.len() as int, obj)))
                        },
                        Err(e) => Err(e),
                    }
                },
                Err(e) => Err(e),
            }
        } else if m == 0x11 {
            Ok((AmfVal::Null, p, refs))
        } else {
            if lenient {
                Ok((AmfVal::Undefined, p, refs))
            } else {
                Err(AmfError::UnknownMarker(m))
            }
        }
    }
}

/// Key/value pairs up to and including the object terminator, as the
/// decoder reads them: an empty key ends the object (tolerating, in
/// lenient mode, a missing or wrong end marker).
pub open spec fn spec_decode_props(
    s: Seq<u8>,
    pos: int,
    depth: int,
    refs: Seq<AmfVal>,
    lenient: bool,
) -> Result<(Seq<(Seq<u8>, AmfVal)>, int, Seq<AmfVal>), AmfError>
    decreases rem(s, pos), 1int,
{
    if pos < 0 || pos + 2 > s.len() {
        Err(AmfError::UnexpectedEof)
    } else {
        match spec_read_key(s, pos) {
        Err(e) => Err(e),
        Ok((key, p1)) => {
            if key.len() == 0 {
                if p1 >= s.len() {
                    if lenient {
                        Ok((Seq::empty(), p1, refs))
                    } else {
                        Err(AmfError::UnexpectedEof)
                    }
                } else if s[p1] == 0x09 {
                    Ok((Seq::empty(), p1 + 1, refs))
                } else if lenient {
                    Ok((Seq::empty(), p1 + 1, refs))
                } else {
                    Err(AmfError::InvalidObjectEnd)
                }
            } else {
                match spec_decode(s, p1, depth, refs, lenient) {
                    Err(e) => Err(e),
                    Ok((v, p2, refs2)) => {
                        let p2c = if p2 > p1 {
                            p2
                        } else {
                            p1 + 1
                        };
                        match spec_decode_props(s, p2c, depth, refs2, lenient) {
                            Err(e) => Err(e),
                            Ok((rest, p3, refs3)) => Ok(
                                (seq![(key, v)] + rest, p3, refs3),
                            ),
                        }
                    },
                }
            }
        },
        }
    }
}

/// `count` array elements in order, as the decoder reads them.
pub open spec fn spec_decode_items(
    s: Seq<u8>,
    pos: int,
    depth: int,
    refs: Seq<AmfVal>,
    lenient: bool,
    count: int,
) -> Result<(Seq<AmfVal>, int, Seq<AmfVal>), AmfError>
    decreases rem(s, pos), 1int,
{
    if count <= 0 {
        Ok((Seq::empty(), pos, refs))
    } else if pos < 0 || pos >= s.len() {
        Err(AmfError::UnexpectedEof)
    } else {
        match spec_decode(s, pos, depth, refs, lenient) {
            Err(e) => Err(e),
            Ok((v, p2, refs2)) => {
                let p2c = if p2 > pos {
                    p2
                } else {
                    pos + 1
                };
                match spec_decode_items(s, p2c, depth, refs2, lenient, count - 1) {
                    Err(e) => Err(e),
                    Ok((rest, p3, refs3)) => Ok((seq![v] + rest, p3, refs3)),
                }
            },
        }
    }
}


/// The trees of the decoder's reference table.
pub open spec fn refs_dv(v: Seq<AmfValue>) -> Seq<AmfVal> {
    Seq::new(v.len(), |i: int| dv(v[i]))
}

/// `front` prepended to the pair list of a props-decoding outcome.
pub open spec fn props_prepend(
    front: Seq<(Seq<u8>, AmfVal)>,
    r: Result<(Seq<(Seq<u8>, AmfVal)>, int, Seq<AmfVal>), AmfError>,
) -> Result<(Seq<(Seq<u8>, AmfVal)>, int, Seq<AmfVal>), AmfError> {
    match r {
        Ok((rest, p, rf)) => Ok((front + rest, p, rf)),
        Err(e) => Err(e),
    }
}

/// `front` prepended to the element list of an items-decoding outcome.
pub open spec fn items_prepend(
    front: Seq<AmfVal>,
    r: Result<(Seq<AmfVal>, int, Seq<AmfVal>), AmfError>,
) -> Result<(Seq<AmfVal>, int, Seq<AmfVal>), AmfError> {
    match r {
        Ok((rest, p, rf)) => Ok((front + rest, p, rf)),
        Err(e) => Err(e),
    }
}

proof fn lemma_props_prepend_empty(r: Result<(Seq<(Seq<u8>, AmfVal)>, int, Seq<AmfVal>), AmfError>)
    ensures
        props_prepend(Seq::empty(), r) == r,
{
    match r {
        Ok((rest, p, rf)) => {
            assert(Seq::<(Seq<u8>, AmfVal)>::empty() + rest =~= rest);
        },
        Err(_) => {
        },
    }
}

proof fn lemma_props_prepend_assoc(
    a: Seq<(Seq<u8>, AmfVal)>,
    b: Seq<(Seq<u8>, AmfVal)>,
    r: Result<(Seq<(Seq<u8>, AmfVal)>, int, Seq<AmfVal>), AmfError>,
)
    ensures
        props_prepend(a, props_prepend(b, r)) == props_prepend(a + b, r),
{
    match r {
        Ok((rest, p, rf)) => {
            assert(a + (b + rest) =~= (a + b) + rest);
        },
        Err(_) => {
        },
    }
}

proof fn lemma_items_prepend_empty(r: Result<(Seq<AmfVal>, int, Seq<AmfVal>), AmfError>)
    ensures
        items_prepend(Seq::empty(), r) == r,
{
    match r {
        Ok((rest, p, rf)) => {
            assert(Seq::<AmfVal>::empty() + rest =~= rest);
        },
        Err(_) => {
        },
    }
}

proof fn lemma_items_prepend_assoc(
    a: Seq<AmfVal>,
    b: Seq<AmfVal>,
    r: Result<(Seq<AmfVal>, int, Seq<AmfVal>), AmfError>,
)
    ensures
        items_prepend(a, items_prepend(b, r)) == items_prepend(a + b, r),
{
    match r {
        Ok((rest, p, rf)) => {
            assert(a + (b + rest) =~= (a + b) + rest);
        },
        Err(_) => {
        },
    }
}

/// What decoding a whole buffer yields: the values in order and the
/// final reference table, or the first error. Each value is decoded from
/// the front, and the rest of the buffer follows it.
pub open spec fn spec_decode_all(
    s: Seq<u8>,
    depth: int,
    refs: Seq<AmfVal>,
    lenient: bool,
) -> Result<(Seq<AmfVal>, Seq<AmfVal>), AmfError>
    decreases s.len(),
{
    if s.len() == 0 {
        Ok((Seq::empty(), refs))
    } else {
        match spec_decode(s, 0, depth, refs, lenient) {
            Err(e) => Err(e),
            Ok((v, p2, refs2)) => {
                let p2c = if 1 <= p2 <= s.len() {
                    p2
                } else {
                    s.len() as int
                };
                match spec_decode_all(s.skip(p2c), depth, refs2, lenient) {
                    Err(e) => Err(e),
                    Ok((rest, refs3)) => Ok((seq![v] + rest, refs3)),
                }
            },
        }
    }
}

/// `front` prepended to the value list of a whole-buffer outcome.
pub open spec fn values_prepend(
    front: Seq<AmfVal>,
    r: Result<(Seq<AmfVal>, Seq<AmfVal>), AmfError>,
) -> Result<(Seq<AmfVal>, Seq<AmfVal>), AmfError> {
    match r {
        Ok((rest, rf)) => Ok((front + rest, rf)),
        Err(e) => Err(e),
    }
}

proof fn lemma_values_prepend_empty(r: Result<(Seq<AmfVal>, Seq<AmfVal>), AmfError>)
    ensures
        values_prepend(Seq::empty(), r) == r,
{
    match r {
        Ok((rest, rf)) => {
            assert(Seq::<AmfVal>::empty() + rest =~= rest);
        },
        Err(_) => {
        },
    }
}

proof fn lemma_values_prepend_assoc(
    a: Seq<AmfVal>,
    b: Seq<AmfVal>,
    r: Result<(Seq<AmfVal>, Seq<AmfVal>), AmfError>,
)
    ensures
        values_prepend(a, values_prepend(b, r)) == values_prepend(a + b, r),
{
    match r {
        Ok((rest, rf)) => {
            assert(a + (b + rest) =~= (a + b) + rest);
        },
        Err(_) => {
        },
    }
}

fn copy_range(data: &[u8], a: usize, b: usize) -> (r: Vec<u8>)
    requires
        a <= b <= data@.len(),
    ensures
        r@ == data@.subrange(a as int, b as int),
{
    let mut r: Vec<u8> = Vec::new();
    let mut i: usize = a;
    while i < b
        invariant
            a <= i <= b <= data@.len(),
            r@.len() == i - a,
            forall|k: int| 0 <= k < i - a ==> r@[k] == data@[a + k],
        decreases b - i,
    {
        let byte = *vstd::slice::slice_index_get(data, i);
        r.push(byte);
        i = i + 1;
    }
    proof {
        assert(r@ =~= data@.subrange(a as int, b as int));
    }
    r
}

fn read_key(data: &[u8], pos: usize) -> (r: Result<(Vec<u8>, usize), AmfError>)
    ensures
        match r {
            Ok((bytes, p2)) => spec_read_key(data@, pos as int) == Ok::<_, AmfError>(
                (bytes@, p2 as int),
            ) && pos < p2 <= data@.len(),
            Err(e) => spec_read_key(data@, pos as int) == Err::<(Seq<u8>, int), _>(e),
        },
{
    let n = data.len();
    if pos > n || n - pos < 2 {
        return Err(AmfError::UnexpectedEof);
    }
    let b0 = *vstd::slice::slice_index_get(data, pos);
    let b1 = *vstd::slice::slice_index_get(data, pos + 1);
    let l = (((b0 as u16) << 8) | (b1 as u16)) as usize;
    if n - (pos + 2) < l {
        return Err(AmfError::UnexpectedEof);
    }
    let bytes = copy_range(data, pos + 2, pos + 2 + l);
    if l > 0 && !utf8_check(bytes.as_slice()) {
        return Err(AmfError::InvalidUtf8);
    }
    Ok((bytes, pos + 2 + l))
}

fn read_long(data: &[u8], pos: usize) -> (r: Result<(Vec<u8>, usize), AmfError>)
    ensures
        match r {
            Ok((bytes, p2)) => spec_read_long(data@, pos as int) == Ok::<_, AmfError>(
                (bytes@, p2 as int),
            ) && pos < p2 <= data@.len(),
            Err(e) => spec_read_long(data@, pos as int) == Err::<(Seq<u8>, int), _>(e),
        },
{
    let n = data.len();
    if pos > n || n - pos < 4 {
        return Err(AmfError::UnexpectedEof);
    }
    let b0 = *vstd::slice::slice_index_get(data, pos);
    let b1 = *vstd::slice::slice_index_get(data, pos + 1);
    let b2 = *vstd::slice::slice_index_get(data, pos + 2);
    let b3 = *vstd::slice::slice_index_get(data, pos + 3);
    let l32: u32 = ((b0 as u32) << 24) | ((b1 as u32) << 16) | ((b2 as u32) << 8) | (b3 as u32);
    let l = l32 as usize;
    if n - (pos + 4) < l {
        return Err(AmfError::UnexpectedEof);
    }
    let bytes = copy_range(data, pos + 4, pos + 4 + l);
    if l > 0 && !utf8_check(bytes.as_slice()) {
        return Err(AmfError::InvalidUtf8);
    }
    Ok((bytes, pos + 4 + l))
}

/// AMF0 decoder, with a reference table and a leniency switch.
pub struct Amf0Decoder {
    /// Reference table for marker 0x07 back-references
    references: Vec<AmfValue>,
    /// Tolerate encoder quirks (missing end markers, unknown markers)
    lenient: bool,
    /// Current nesting depth
    depth: usize,
}

impl Amf0Decoder {
    /// The leniency switch.
    pub closed spec fn spec_lenient(&self) -> bool {
        self.lenient
    }

    /// The current nesting depth.
    pub closed spec fn spec_depth(&self) -> int {
        self.depth as int
    }

    /// The reference table's trees.
    pub closed spec fn spec_refs(&self) -> Seq<AmfVal> {
        refs_dv(self.references@)
    }

    /// A lenient decoder (the default, for encoder compatibility).
    pub fn new() -> (r: Self)
        ensures
            r.spec_lenient(),
            r.spec_depth() == 0,
            r.spec_refs() =~= Seq::<AmfVal>::empty(),
    {
        Amf0Decoder { references: Vec::new(), lenient: true, depth: 0 }
    }

    /// A decoder with the given leniency.
    pub fn with_lenient(lenient: bool) -> (r: Self)
        ensures
            r.spec_lenient() == lenient,
            r.spec_depth() == 0,
            r.spec_refs() =~= Seq::<AmfVal>::empty(),
    {
        Amf0Decoder { references: Vec::new(), lenient, depth: 0 }
    }

    /// Reset decoder state (between messages).
    pub fn reset(&mut self)
        ensures
            final(self).spec_lenient() == old(self).spec_lenient(),
            final(self).spec_depth() == 0,
            final(self).spec_refs() =~= Seq::<AmfVal>::empty(),
    {
        self.references.clear();
        self.depth = 0;
    }

    /// Decode a single value from the front of the buffer, consuming the
    /// bytes it covers. On an error the buffer is left unread.
    pub fn decode(&mut self, buf: &mut Bytes) -> (r: Result<AmfValue, AmfError>)
        requires
            old(self).spec_depth() <= 64,
        ensures
            final(self).spec_lenient() == old(self).spec_lenient(),
            match r {
                Ok(v) => spec_decode(
                    bytes_view(*old(buf)),
                    0,
                    old(self).spec_depth(),
                    old(self).spec_refs(),
                    old(self).spec_lenient(),
                ) matches Ok((w, p2, rf)) && w == dv(v) && bytes_view(*final(buf)) == bytes_view(
                    *old(buf),
                ).skip(p2) && final(self).spec_refs() == rf && final(self).spec_depth() == old(self).spec_depth() && 0 < p2 <= bytes_view(*old(buf)).len(),
                Err(e) => spec_decode(
                    bytes_view(*old(buf)),
                    0,
                    old(self).spec_depth(),
                    old(self).spec_refs(),
                    old(self).spec_lenient(),
                ) == Err::<(AmfVal, int, Seq<AmfVal>), _>(e) && final(self).spec_depth() <= old(self).spec_depth() + 1,
            },
    {
        let data = bytes_to_vec(buf);
        match self.dec_at(data.as_slice(), 0) {
            Ok((v, p2)) => {
                bytes_advance(buf, p2);
                Ok(v)
            },
            Err(e) => Err(e),
        }
    }

    /// Decode values until the buffer is exhausted, stopping at the
    /// first error. Yields exactly the values and reference table that
    /// `spec_decode_all` gives for the buffer's bytes.
    pub fn decode_all(&mut self, buf: &mut Bytes) -> (r: Result<Vec<AmfValue>, AmfError>)
        requires
            old(self).spec_depth() == 0,
        ensures
            final(self).spec_lenient() == old(self).spec_lenient(),
            match r {
                Ok(vs) => spec_decode_all(
                    bytes_view(*old(buf)),
                    0,
                    old(self).spec_refs(),
                    old(self).spec_lenient(),
                ) == Ok::<_, AmfError>(
                    (crate::amf::dv_list(vs, 0), final(self).spec_refs()),
                ) && bytes_view(*final(buf)).len() == 0 && final(self).spec_depth() == 0,
                Err(e) => spec_decode_all(
                    bytes_view(*old(buf)),
                    0,
                    old(self).spec_refs(),
                    old(self).spec_lenient(),
                ) == Err::<(Seq<AmfVal>, Seq<AmfVal>), _>(e),
            },
    {
        let mut values: Vec<AmfValue> = Vec::new();
        proof {
            lemma_values_prepend_empty(
                spec_decode_all(
                    bytes_view(*buf),
                    0,
                    self.spec_refs(),
                    self.spec_lenient(),
                ),
            );
            assert(crate::amf::dv_list(values, 0) =~= Seq::<AmfVal>::empty());
        }
        while bytes_len(buf) > 0
            invariant
                self.spec_depth() == 0,
                self.spec_lenient() == old(self).spec_lenient(),
                spec_decode_all(
                    bytes_view(*old(buf)),
                    0,
                    old(self).spec_refs(),
                    old(self).spec_lenient(),
                ) == values_prepend(
                    crate::amf::dv_list(values, 0),
                    spec_decode_all(
                        bytes_view(*buf),
                        0,
                        self.spec_refs(),
                        self.spec_lenient(),
                    ),
                ),
            decreases bytes_view(*buf).len(),
        {
            let ghost cur = bytes_view(*buf);
            let ghost refs_cur = self.spec_refs();
            let ghost vals_dv = crate::amf::dv_list(values, 0);
            match self.decode(buf) {
                Ok(v) => {
                    let ghost vdv = dv(v);
                    let ghost refs_new = self.spec_refs();
                    proof {
                        crate::amf::lemma_dv_list_index(values, 0);
                        let step = spec_decode_all(cur, 0, refs_cur, self.lenient);
                        let inner = spec_decode_all(
                            bytes_view(*buf),
                            0,
                            refs_new,
                            self.lenient,
                        );
                        assert(step == values_prepend(seq![vdv], inner)) by {
                            match inner {
                                Ok((rest, r3)) => {
                                    assert(step == Ok::<_, AmfError>(
                                        (seq![vdv] + rest, r3),
                                    ));
                                },
                                Err(e2) => {
                                    assert(step == Err::<
                                        (Seq<AmfVal>, Seq<AmfVal>),
                                        _,
                                    >(e2));
                                },
                            }
                        }
                        lemma_values_prepend_assoc(vals_dv, seq![vdv], inner);
                    }
                    values.push(v);
                    proof {
                        crate::amf::lemma_dv_list_index(values, 0);
                        assert(crate::amf::dv_list(values, 0) =~= vals_dv + seq![vdv]);
                    }
                },
                Err(e) => {
                    proof {
                        assert(spec_decode_all(cur, 0, refs_cur, self.lenient) == Err::<
                            (Seq<AmfVal>, Seq<AmfVal>),
                            _,
                        >(e));
                    }
                    return Err(e);
                },
            }
        }
        proof {
            assert(spec_decode_all(
                bytes_view(*buf),
                0,
                self.spec_refs(),
                self.spec_lenient(),
            ) == Ok::<_, AmfError>((Seq::<AmfVal>::empty(), self.spec_refs())));
            assert(crate::amf::dv_list(values, 0) + Seq::<AmfVal>::empty()
                =~= crate::amf::dv_list(values, 0));
        }
        Ok(values)
    }

    /// Replace reference table slot `i`.
    fn set_reference(&mut self, i: usize, v: AmfValue)
        requires
            i < old(self).spec_refs().len(),
        ensures
            final(self).spec_refs() =~= old(self).spec_refs().update(i as int, dv(v)),
            final(self).spec_depth() == old(self).spec_depth(),
            final(self).spec_lenient() == old(self).spec_lenient(),
    {
        self.references[i] = v;
    }

    /// Push a placeholder onto the reference table, returning its slot.
    fn push_placeholder(&mut self) -> (r: usize)
        ensures
            final(self).spec_refs() =~= old(self).spec_refs().push(AmfVal::Null),
            final(self).spec_depth() == old(self).spec_depth(),
            final(self).spec_lenient() == old(self).spec_lenient(),
            r == old(self).spec_refs().len(),
    {
        let i = self.references.len();
        self.references.push(AmfValue::Null);
        i
    }

    fn dec_at(&mut self, data: &[u8], pos: usize) -> (r: Result<(AmfValue, usize), AmfError>)
        requires
            old(self).spec_depth() <= 64,
        ensures
            final(self).spec_lenient() == old(self).spec_lenient(),
            match r {
                Ok((v, p2)) => spec_decode(
                    data@,
                    pos as int,
                    old(self).spec_depth(),
                    old(self).spec_refs(),
                    old(self).spec_lenient(),
                ) == Ok::<_, AmfError>((dv(v), p2 as int, final(self).spec_refs())) && final(self).spec_depth() == old(self).spec_depth() && pos < p2 <= data@.len()
                    && final(self).spec_refs().len() >= old(self).spec_refs().len(),
                Err(e) => spec_decode(
                    data@,
                    pos as int,
                    old(self).spec_depth(),
                    old(self).spec_refs(),
                    old(self).spec_lenient(),
                ) == Err::<(AmfVal, int, Seq<AmfVal>), _>(e) && old(self).spec_depth() <= final(self).spec_depth() <= old(self).spec_depth() + 1
                    && final(self).spec_refs().len() >= old(self).spec_refs().len(),
            },
        decreases data@.len() - pos, 0int,
    {
        let n = data.len();
        if pos >= n {
            return Err(AmfError::UnexpectedEof);
        }
        self.depth = self.depth + 1;
        if self.depth > MAX_NESTING_DEPTH {
            return Err(AmfError::NestingTooDeep);
        }
        let m = *vstd::slice::slice_index_get(data, pos);
        let p = pos + 1;

        let result: Result<(AmfValue, usize), AmfError> = if m == 0x00 {
            if n - p < 8 {
                Err(AmfError::UnexpectedEof)
            } else {
                let v = read_be64(data, p);
                Ok((AmfValue::Number(v), p + 8))
            }
        } else if m == 0x01 {
            if p >= n {
                Err(AmfError::UnexpectedEof)
            } else {
                let b = *vstd::slice::slice_index_get(data, p);
                Ok((AmfValue::Boolean(b != 0), p + 1))
            }
        } else if m == 0x02 {
            match read_key(data, p) {
                Ok((bytes, p2)) => Ok((AmfValue::String(bytes), p2)),
                Err(e) => Err(e),
            }
        } else if m == 0x03 {
            let ridx = self.push_placeholder();
            match self.dec_props(data, p) {
                Ok((props, p2)) => {
                    let obj = AmfValue::Object(props);
                    let copy = obj.clone();
                    self.set_reference(ridx, copy);
                    Ok((obj, p2))
                },
                Err(e) => Err(e),
            }
        } else if m == 0x05 {
            Ok((AmfValue::Null, p))
        } else if m == 0x06 {
            Ok((AmfValue::Undefined, p))
        } else if m == 0x07 {
            if n - p < 2 {
                Err(AmfError::UnexpectedEof)
            } else {
                let b0 = *vstd::slice::slice_index_get(data, p);
                let b1 = *vstd::slice::slice_index_get(data, p + 1);
                let idx16: u16 = ((b0 as u16) << 8) | (b1 as u16);
                let idx = idx16 as usize;
                if idx >= self.references.len() {
                    Err(AmfError::InvalidReference(idx16))
                } else {
                    let v = self.references[idx].clone();
                    Ok((v, p + 2))
                }
            }
        } else if m == 0x08 {
            if n - p < 4 {
                Err(AmfError::UnexpectedEof)
            } else {
                let ridx = self.push_placeholder();
                match self.dec_props(data, p + 4) {
                    Ok((props, p2)) => {
                        let arr = AmfValue::EcmaArray(props);
                        let copy = arr.clone();
                        self.set_reference(ridx, copy);
                        Ok((arr, p2))
                    },
                    Err(e) => Err(e),
                }
            }
        } else if m == 0x09 {
            if self.lenient {
                Ok((AmfValue::Undefined, p))
            } else {
                Err(AmfError::UnknownMarker(0x09))
            }
        } else if m == 0x0A {
            if n - p < 4 {
                Err(AmfError::UnexpectedEof)
            } else {
                let b0 = *vstd::slice::slice_index_get(data, p);
                let b1 = *vstd::slice::slice_index_get(data, p + 1);
                let b2 = *vstd::slice::slice_index_get(data, p + 2);
                let b3 = *vstd::slice::slice_index_get(data, p + 3);
                let count: u32 = ((b0 as u32) << 24) | ((b1 as u32) << 16) | ((b2 as u32) << 8) | (
                b3 as u32);
                let ridx = self.push_placeholder();
                match self.dec_items(data, p + 4, count) {
                    Ok((items, p2)) => {
                        let arr = AmfValue::Array(items);
                        let copy = arr.clone();
                        self.set_reference(ridx, copy);
                        Ok((arr, p2))
                    },
                    Err(e) => Err(e),
                }
            }
        } else if m == 0x0B {
            if n - p < 10 {
                Err(AmfError::UnexpectedEof)
            } else {
                let v = read_be64(data, p);
                Ok((AmfValue::Date(v), p + 10))
            }
        } else if m == 0x0C {
            match read_long(data, p) {
                Ok((bytes, p2)) => Ok((AmfValue::String(bytes), p2)),
                Err(e) => Err(e),
            }
        } else if m == 0x0D {
            Ok((AmfValue::Undefined, p))
        } else if m == 0x0F {
            match read_long(data, p) {
                Ok((bytes, p2)) => Ok((AmfValue::Xml(bytes), p2)),
                Err(e) => Err(e),
            }
        } else if m == 0x10 {
            match read_key(data, p) {
                Ok((class_name, p1)) => {
                    let ridx = self.push_placeholder();
                    match self.dec_props(data, p1) {
                        Ok((props, p2)) => {
                            let obj = AmfValue::TypedObject { class_name, properties: props };
                            let copy = obj.clone();
                            self.set_reference(ridx, copy);
                            Ok((obj, p2))
                        },
                        Err(e) => Err(e),
                    }
                },
                Err(e) => Err(e),
            }
        } else if m == 0x11 {
            Ok((AmfValue::Null, p))
        } else {
            if self.lenient {
                Ok((AmfValue::Undefined, p))
            } else {
                Err(AmfError::UnknownMarker(m))
            }
        };

        self.depth = self.depth - 1;
        result
    }

    fn dec_props(&mut self, data: &[u8], pos: usize) -> (r: Result<
        (Vec<(Vec<u8>, AmfValue)>, usize),
        AmfError,
    >)
        requires
            old(self).spec_depth() <= 64,
            pos <= data@.len(),
        ensures
            final(self).spec_lenient() == old(self).spec_lenient(),
            match r {
                Ok((props, p2)) => spec_decode_props(
                    data@,
                    pos as int,
                    old(self).spec_depth(),
                    old(self).spec_refs(),
                    old(self).spec_lenient(),
                ) == Ok::<_, AmfError>(
                    (crate::amf::dv_props(props, 0), p2 as int, final(self).spec_refs()),
                ) && final(self).spec_depth() == old(self).spec_depth() && pos < p2 <= data@.len()
                    && final(self).spec_refs().len() >= old(self).spec_refs().len(),
                Err(e) => spec_decode_props(
                    data@,
                    pos as int,
                    old(self).spec_depth(),
                    old(self).spec_refs(),
                    old(self).spec_lenient(),
                ) == Err::<(Seq<(Seq<u8>, AmfVal)>, int, Seq<AmfVal>), _>(e) && old(self).spec_depth() <= final(self).spec_depth() <= old(self).spec_depth() + 1
                    && final(self).spec_refs().len() >= old(self).spec_refs().len(),
            },
        decreases data@.len() - pos, 1int,
    {
        let mut acc: Vec<(Vec<u8>, AmfValue)> = Vec::new();
        let mut cur: usize = pos;
        let ghost d0 = old(self).spec_depth();
        proof {
            lemma_props_prepend_empty(
                spec_decode_props(data@, pos as int, d0, self.spec_refs(), self.lenient),
            );
            assert(crate::amf::dv_props(acc, 0) =~= Seq::<(Seq<u8>, AmfVal)>::empty());
        }
        loop
            invariant
                pos <= cur <= data@.len(),
                self.spec_depth() == d0,
                d0 == old(self).spec_depth(),
                d0 <= 64,
                self.spec_lenient() == old(self).spec_lenient(),
                self.spec_refs().len() >= old(self).spec_refs().len(),
                spec_decode_props(data@, pos as int, d0, old(self).spec_refs(), self.lenient)
                    == props_prepend(
                    crate::amf::dv_props(acc, 0),
                    spec_decode_props(data@, cur as int, d0, self.spec_refs(), self.lenient),
                ),
            decreases data@.len() - cur,
        {
            let ghost refs_loop = self.spec_refs();
            let ghost acc_dv = crate::amf::dv_props(acc, 0);
            match read_key(data, cur) {
                Err(e) => {
                    proof {
                        assert(spec_decode_props(data@, cur as int, d0, refs_loop, self.lenient)
                            == Err::<(Seq<(Seq<u8>, AmfVal)>, int, Seq<AmfVal>), _>(e));
                    }
                    return Err(e);
                },
                Ok((key, p1)) => {
                    if key.len() == 0 {
                        let n = data.len();
                        if p1 >= n {
                            if self.lenient {
                                proof {
                                    assert(acc_dv + Seq::<(Seq<u8>, AmfVal)>::empty() =~= acc_dv);
                                }
                                return Ok((acc, p1));
                            } else {
                                return Err(AmfError::UnexpectedEof);
                            }
                        }
                        let em = *vstd::slice::slice_index_get(data, p1);
                        if em == 0x09 {
                            proof {
                                assert(acc_dv + Seq::<(Seq<u8>, AmfVal)>::empty() =~= acc_dv);
                            }
                            return Ok((acc, p1 + 1));
                        } else if self.lenient {
                            proof {
                                assert(acc_dv + Seq::<(Seq<u8>, AmfVal)>::empty() =~= acc_dv);
                            }
                            return Ok((acc, p1 + 1));
                        } else {
                            return Err(AmfError::InvalidObjectEnd);
                        }
                    }
                    match self.dec_at(data, p1) {
                        Err(e) => {
                            proof {
                                assert(spec_decode_props(
                                    data@,
                                    cur as int,
                                    d0,
                                    refs_loop,
                                    self.lenient,
                                ) == Err::<(Seq<(Seq<u8>, AmfVal)>, int, Seq<AmfVal>), _>(e));
                            }
                            return Err(e);
                        },
                        Ok((v, p2)) => {
                            let ghost keydv = key@;
                            let ghost vdv = dv(v);
                            let ghost refs_new = self.spec_refs();
                            proof {
                                crate::amf::lemma_dv_props_index(acc, 0);
                                let step = spec_decode_props(
                                    data@,
                                    cur as int,
                                    d0,
                                    refs_loop,
                                    self.lenient,
                                );
                                let inner = spec_decode_props(
                                    data@,
                                    p2 as int,
                                    d0,
                                    refs_new,
                                    self.lenient,
                                );
                                assert(step == props_prepend(seq![(keydv, vdv)], inner)) by {
                                    match inner {
                                        Ok((rest, p3, r3)) => {
                                            assert(step == Ok::<_, AmfError>(
                                                (seq![(keydv, vdv)] + rest, p3, r3),
                                            ));
                                        },
                                        Err(e2) => {
                                            assert(step == Err::<
                                                (Seq<(Seq<u8>, AmfVal)>, int, Seq<AmfVal>),
                                                _,
                                            >(e2));
                                        },
                                    }
                                }
                                lemma_props_prepend_assoc(acc_dv, seq![(keydv, vdv)], inner);
                            }
                            acc.push((key, v));
                            proof {
                                crate::amf::lemma_dv_props_index(acc, 0);
                                assert(crate::amf::dv_props(acc, 0) =~= acc_dv + seq![
                                    (keydv, vdv),
                                ]);
                            }
                            cur = p2;
                        },
                    }
                },
            }
        }
    }

    fn dec_items(&mut self, data: &[u8], pos: usize, count: u32) -> (r: Result<
        (Vec<AmfValue>, usize),
        AmfError,
    >)
        requires
            old(self).spec_depth() <= 64,
            pos <= data@.len(),
        ensures
            final(self).spec_lenient() == old(self).spec_lenient(),
            match r {
                Ok((items, p2)) => spec_decode_items(
                    data@,
                    pos as int,
                    old(self).spec_depth(),
                    old(self).spec_refs(),
                    old(self).spec_lenient(),
                    count as int,
                ) == Ok::<_, AmfError>(
                    (crate::amf::dv_list(items, 0), p2 as int, final(self).spec_refs()),
                ) && final(self).spec_depth() == old(self).spec_depth() && pos <= p2
                    <= data@.len() && final(self).spec_refs().len() >= old(self).spec_refs().len(),
                Err(e) => spec_decode_items(
                    data@,
                    pos as int,
                    old(self).spec_depth(),
                    old(self).spec_refs(),
                    old(self).spec_lenient(),
                    count as int,
                ) == Err::<(Seq<AmfVal>, int, Seq<AmfVal>), _>(e) && old(self).spec_depth()
                    <= final(self).spec_depth() <= old(self).spec_depth() + 1 && final(self).spec_refs().len() >= old(self).spec_refs().len(),
            },
        decreases data@.len() - pos, 1int,
    {
        let mut acc: Vec<AmfValue> = Vec::new();
        let mut cur: usize = pos;
        let mut remaining: u32 = count;
        let ghost d0 = old(self).spec_depth();
        proof {
            lemma_items_prepend_empty(
                spec_decode_items(
                    data@,
                    pos as int,
                    d0,
                    self.spec_refs(),
                    self.lenient,
                    count as int,
                ),
            );
            assert(crate::amf::dv_list(acc, 0) =~= Seq::<AmfVal>::empty());
        }
        loop
            invariant
                pos <= cur <= data@.len(),
                self.spec_depth() == d0,
                d0 == old(self).spec_depth(),
                d0 <= 64,
                self.spec_lenient() == old(self).spec_lenient(),
                self.spec_refs().len() >= old(self).spec_refs().len(),
                spec_decode_items(
                    data@,
                    pos as int,
                    d0,
                    old(self).spec_refs(),
                    self.lenient,
                    count as int,
                ) == items_prepend(
                    crate::amf::dv_list(acc, 0),
                    spec_decode_items(
                        data@,
                        cur as int,
                        d0,
                        self.spec_refs(),
                        self.lenient,
                        remaining as int,
                    ),
                ),
            decreases remaining,
        {
            let ghost acc_dv = crate::amf::dv_list(acc, 0);
            if remaining == 0 {
                proof {
                    assert(spec_decode_items(
                        data@,
                        cur as int,
                        d0,
                        self.spec_refs(),
                        self.lenient,
                        0,
                    ) == Ok::<_, AmfError>(
                        (Seq::<AmfVal>::empty(), cur as int, self.spec_refs()),
                    ));
                    assert(acc_dv + Seq::<AmfVal>::empty() =~= acc_dv);
                }
                return Ok((acc, cur));
            }
            let ghost refs_loop = self.spec_refs();
            match self.dec_at(data, cur) {
                Err(e) => {
                    proof {
                        assert(spec_decode_items(
                            data@,
                            cur as int,
                            d0,
                            refs_loop,
                            self.lenient,
                            remaining as int,
                        ) == Err::<(Seq<AmfVal>, int, Seq<AmfVal>), _>(e));
                    }
                    return Err(e);
                },
                Ok((v, p2)) => {
                    let ghost vdv = dv(v);
                    let ghost refs_new = self.spec_refs();
                    proof {
                        crate::amf::lemma_dv_list_index(acc, 0);
                        let step = spec_decode_items(
                            data@,
                            cur as int,
                            d0,
                            refs_loop,
                            self.lenient,
                            remaining as int,
                        );
                        let inner = spec_decode_items(
                            data@,
                            p2 as int,
                            d0,
                            refs_new,
                            self.lenient,
                            remaining as int - 1,
                        );
                        assert(step == items_prepend(seq![vdv], inner)) by {
                            match inner {
                                Ok((rest, p3, r3)) => {
                                    assert(step == Ok::<_, AmfError>(
                                        (seq![vdv] + rest, p3, r3),
                                    ));
                                },
                                Err(e2) => {
                                    assert(step == Err::<(Seq<AmfVal>, int, Seq<AmfVal>), _>(
                                        e2,
                                    ));
                                },
                            }
                        }
                        lemma_items_prepend_assoc(acc_dv, seq![vdv], inner);
                    }
                    acc.push(v);
                    proof {
                        crate::amf::lemma_dv_list_index(acc, 0);
                        assert(crate::amf::dv_list(acc, 0) =~= acc_dv + seq![vdv]);
                    }
                    cur = p2;
                    remaining = remaining - 1;
                },
            }
        }
    }
}

impl Default for Amf0Decoder {
    /// A lenient decoder.
    fn default() -> (r: Self)
        ensures
            r.spec_lenient(),
            r.spec_depth() == 0,
            r.spec_refs() =~= Seq::<AmfVal>::empty(),
    {
        Amf0Decoder::new()
    }
}

fn read_be64(data: &[u8], p: usize) -> (r: u64)
    requires
        p + 8 <= data@.len(),
    ensures
        r == be64_at(data@, p as int),
{
    let n = data.len();
    let b0 = *vstd::slice::slice_index_get(data, p);
    let b1 = *vstd::slice::slice_index_get(data, p + 1);
    let b2 = *vstd::slice::slice_index_get(data, p + 2);
    let b3 = *vstd::slice::slice_index_get(data, p + 3);
    let b4 = *vstd::slice::slice_index_get(data, p + 4);
    let b5 = *vstd::slice::slice_index_get(data, p + 5);
    let b6 = *vstd::slice::slice_index_get(data, p + 6);
    let b7 = *vstd::slice::slice_index_get(data, p + 7);
    ((b0 as u64) << 56) | ((b1 as u64) << 48) | ((b2 as u64) << 40) | ((b3 as u64) << 32) | ((
    b4 as u64) << 24) | ((b5 as u64) << 16) | ((b6 as u64) << 8) | (b7 as u64)
}


fn push_be16(buf: &mut Vec<u8>, n: u16)
    ensures
        final(buf)@ == old(buf)@ + be16_of(n),
{
    buf.push(#[verifier::truncate] ((n >> 8) as u8));
    buf.push(#[verifier::truncate] (n as u8));
    proof {
        assert(buf@ =~= old(buf)@ + be16_of(n));
    }
}

fn push_be32(buf: &mut Vec<u8>, n: u32)
    ensures
        final(buf)@ == old(buf)@ + be32_of(n),
{
    buf.push(#[verifier::truncate] ((n >> 24) as u8));
    buf.push(#[verifier::truncate] ((n >> 16) as u8));
    buf.push(#[verifier::truncate] ((n >> 8) as u8));
    buf.push(#[verifier::truncate] (n as u8));
    proof {
        assert(buf@ =~= old(buf)@ + be32_of(n));
    }
}

fn push_be64(buf: &mut Vec<u8>, n: u64)
    ensures
        final(buf)@ == old(buf)@ + be64_of(n),
{
    buf.push(#[verifier::truncate] ((n >> 56) as u8));
    buf.push(#[verifier::truncate] ((n >> 48) as u8));
    buf.push(#[verifier::truncate] ((n >> 40) as u8));
    buf.push(#[verifier::truncate] ((n >> 32) as u8));
    buf.push(#[verifier::truncate] ((n >> 24) as u8));
    buf.push(#[verifier::truncate] ((n >> 16) as u8));
    buf.push(#[verifier::truncate] ((n >> 8) as u8));
    buf.push(#[verifier::truncate] (n as u8));
    proof {
        assert(buf@ =~= old(buf)@ + be64_of(n));
    }
}

/// The concatenated encodings of the values from `i` on.
pub open spec fn spec_encode_all(items: Seq<AmfValue>, i: int) -> Seq<u8>
    decreases items.len() - i,
{
    if i < 0 || i >= items.len() {
        Seq::empty()
    } else {
        spec_encode(dv(items[i])) + spec_encode_all(items, i + 1)
    }
}

/// AMF0 encoder: values are appended to an internal buffer; `finish`
/// hands the bytes out and resets it.
pub struct Amf0Encoder {
    buf: Vec<u8>,
}

impl Amf0Encoder {
    /// The bytes encoded so far.
    pub closed spec fn spec_buf(&self) -> Seq<u8> {
        self.buf@
    }

    /// A new, empty encoder.
    pub fn new() -> (r: Self)
        ensures
            r.spec_buf() =~= Seq::<u8>::empty(),
    {
        Amf0Encoder { buf: Vec::new() }
    }

    /// A new encoder with an initial capacity hint.
    pub fn with_capacity(capacity: usize) -> (r: Self)
        ensures
            r.spec_buf() =~= Seq::<u8>::empty(),
    {
        Amf0Encoder { buf: Vec::with_capacity(capacity) }
    }

    /// The encoded bytes, resetting the encoder.
    pub fn finish(&mut self) -> (r: Bytes)
        ensures
            bytes_view(r) == old(self).spec_buf(),
            final(self).spec_buf() =~= Seq::<u8>::empty(),
    {
        let n = self.buf.len();
        let out = copy_range(self.buf.as_slice(), 0, n);
        self.buf.clear();
        proof {
            assert(out@ =~= old(self).spec_buf());
        }
        vec_to_bytes(out)
    }

    /// The current encoded length.
    pub fn len(&self) -> (r: usize)
        ensures
            r == self.spec_buf().len(),
    {
        self.buf.len()
    }

    /// Whether nothing has been encoded yet.
    pub fn is_empty(&self) -> (r: bool)
        ensures
            r == (self.spec_buf().len() == 0),
    {
        self.buf.is_empty()
    }

    /// Append one value's AMF0 encoding.
    pub fn encode(&mut self, value: &AmfValue)
        ensures
            final(self).spec_buf() == old(self).spec_buf() + spec_encode(dv(*value)),
        decreases *value, 0int,
    {
        let ghost base = self.buf@;
        match value {
            AmfValue::Null => {
                self.buf.push(0x05);
                proof {
                    assert(self.buf@ =~= base + spec_encode(dv(*value)));
                }
            },
            AmfValue::Undefined => {
                self.buf.push(0x06);
                proof {
                    assert(self.buf@ =~= base + spec_encode(dv(*value)));
                }
            },
            AmfValue::Boolean(b) => {
                self.buf.push(0x01);
                self.buf.push(if *b {
                    1
                } else {
                    0
                });
                proof {
                    assert(self.buf@ =~= base + spec_encode(dv(*value)));
                }
            },
            AmfValue::Number(n) => {
                self.buf.push(0x00);
                push_be64(&mut self.buf, *n);
                proof {
                    assert(self.buf@ =~= base + spec_encode(dv(*value)));
                }
            },
            AmfValue::Date(d) => {
                self.buf.push(0x0B);
                push_be64(&mut self.buf, *d);
                self.buf.push(0x00);
                self.buf.push(0x00);
                proof {
                    assert(self.buf@ =~= base + spec_encode(dv(*value)));
                }
            },
            AmfValue::String(sv) => {
                if sv.len() > 0xFFFF {
                    self.buf.push(0x0C);
                    push_be32(&mut self.buf, #[verifier::truncate] (sv.len() as u32));
                    self.buf.extend_from_slice(sv.as_slice());
                } else {
                    self.buf.push(0x02);
                    push_be16(&mut self.buf, #[verifier::truncate] (sv.len() as u16));
                    self.buf.extend_from_slice(sv.as_slice());
                }
                proof {
                    assert(self.buf@ =~= base + spec_encode(dv(*value)));
                }
            },
            AmfValue::Xml(sv) => {
                self.buf.push(0x0F);
                push_be32(&mut self.buf, #[verifier::truncate] (sv.len() as u32));
                self.buf.extend_from_slice(sv.as_slice());
                proof {
                    assert(self.buf@ =~= base + spec_encode(dv(*value)));
                }
            },
            AmfValue::Array(items) => {
                self.buf.push(0x0A);
                push_be32(&mut self.buf, #[verifier::truncate] (items.len() as u32));
                self.encode_list(items);
                proof {
                    crate::amf::lemma_dv_list_index(*items, 0);
                    assert(self.buf@ =~= base + spec_encode(dv(*value)));
                }
            },
            AmfValue::Object(props) => {
                self.buf.push(0x03);
                self.encode_props(props);
                self.buf.push(0x00);
                self.buf.push(0x00);
                self.buf.push(0x09);
                proof {
                    crate::amf::lemma_dv_props_index(*props, 0);
                    assert(self.buf@ =~= base + spec_encode(dv(*value)));
                }
            },
            AmfValue::EcmaArray(props) => {
                self.buf.push(0x08);
                push_be32(&mut self.buf, #[verifier::truncate] (props.len() as u32));
                self.encode_props(props);
                self.buf.push(0x00);
                self.buf.push(0x00);
                self.buf.push(0x09);
                proof {
                    crate::amf::lemma_dv_props_index(*props, 0);
                    assert(self.buf@ =~= base + spec_encode(dv(*value)));
                }
            },
            AmfValue::TypedObject { class_name, properties } => {
                self.buf.push(0x10);
                self.write_utf8(class_name);
                self.encode_props(properties);
                self.buf.push(0x00);
                self.buf.push(0x00);
                self.buf.push(0x09);
                proof {
                    crate::amf::lemma_dv_props_index(*properties, 0);
                    assert(self.buf@ =~= base + spec_encode(dv(*value)));
                }
            },
        }
    }

    /// Append the encodings of the array elements in order.
    fn encode_list(&mut self, items: &Vec<AmfValue>)
        ensures
            final(self).spec_buf() == old(self).spec_buf() + spec_encode_list(
                crate::amf::dv_list(*items, 0),
                0,
            ),
        decreases *items, 1int,
    {
        let ghost g = *items;
        let ghost dvl = crate::amf::dv_list(*items, 0);
        let ghost hdr = self.buf@;
        proof {
            crate::amf::lemma_dv_list_index(*items, 0);
        }
        let mut i: usize = 0;
        while i < items.len()
            invariant
                i <= items@.len(),
                *items == g,
                dvl == crate::amf::dv_list(*items, 0),
                dvl.len() == items@.len(),
                forall|k: int| 0 <= k < items@.len() ==> dvl[k] == dv(items@[k]),
                hdr + spec_encode_list(dvl, 0int) =~= self.buf@ + spec_encode_list(
                    dvl,
                    i as int,
                ),
            decreases items@.len() - i,
        {
            let ghost pre = self.buf@;
            proof {
                assert(decreases_to!(g => g[i as int]));
            }
            self.encode(&items[i]);
            proof {
                assert(pre + spec_encode_list(dvl, i as int) =~= pre + (spec_encode(
                    dvl[i as int],
                ) + spec_encode_list(dvl, i + 1)));
                assert(hdr + spec_encode_list(dvl, 0int) =~= self.buf@ + spec_encode_list(
                    dvl,
                    i + 1,
                ));
            }
            i = i + 1;
        }
        proof {
            assert(spec_encode_list(dvl, items@.len() as int) =~= Seq::<u8>::empty());
            assert(self.buf@ =~= hdr + spec_encode_list(dvl, 0int));
        }
    }

    /// Append the key/value pairs of an object-like value.
    fn encode_props(&mut self, props: &Vec<(Vec<u8>, AmfValue)>)
        ensures
            final(self).spec_buf() == old(self).spec_buf() + spec_encode_props(
                crate::amf::dv_props(*props, 0),
                0,
            ),
        decreases *props, 1int,
    {
        let ghost g = *props;
        let ghost dvp = crate::amf::dv_props(*props, 0);
        let ghost hdr = self.buf@;
        proof {
            crate::amf::lemma_dv_props_index(*props, 0);
        }
        let mut i: usize = 0;
        while i < props.len()
            invariant
                i <= props@.len(),
                *props == g,
                dvp == crate::amf::dv_props(*props, 0),
                dvp.len() == props@.len(),
                forall|k: int| 0 <= k < props@.len() ==> dvp[k] == (
                    props@[k].0@,
                    dv(props@[k].1),
                ),
                hdr + spec_encode_props(dvp, 0int) =~= self.buf@ + spec_encode_props(
                    dvp,
                    i as int,
                ),
            decreases props@.len() - i,
        {
            let ghost pre0 = self.buf@;
            self.write_utf8(&props[i].0);
            proof {
                assert(decreases_to!(g => g[i as int]));
                assert(decreases_to!(g[i as int] => g[i as int].1));
            }
            self.encode(&props[i].1);
            proof {
                assert(pre0 + spec_encode_props(dvp, i as int) =~= pre0 + (key_bytes(
                    dvp[i as int].0,
                ) + (spec_encode(dvp[i as int].1) + spec_encode_props(dvp, i + 1))));
                assert(hdr + spec_encode_props(dvp, 0int) =~= self.buf@ + spec_encode_props(
                    dvp,
                    i + 1,
                ));
            }
            i = i + 1;
        }
        proof {
            assert(spec_encode_props(dvp, props@.len() as int) =~= Seq::<u8>::empty());
            assert(self.buf@ =~= hdr + spec_encode_props(dvp, 0int));
        }
    }

    /// Append several values.
    pub fn encode_all(&mut self, values: &[AmfValue])
        ensures
            final(self).spec_buf() == old(self).spec_buf() + spec_encode_all(values@, 0),
    {
        let ghost base = self.buf@;
        let mut i: usize = 0;
        while i < values.len()
            invariant
                i <= values@.len(),
                base + spec_encode_all(values@, 0int) =~= self.buf@ + spec_encode_all(
                    values@,
                    i as int,
                ),
            decreases values@.len() - i,
        {
            let ghost pre = self.buf@;
            self.encode(vstd::slice::slice_index_get(values, i));
            proof {
                assert(pre + spec_encode_all(values@, i as int) =~= pre + (spec_encode(
                    dv(values@[i as int]),
                ) + spec_encode_all(values@, i + 1)));
                assert(base + spec_encode_all(values@, 0int) =~= self.buf@ + spec_encode_all(
                    values@,
                    i + 1,
                ));
            }
            i = i + 1;
        }
        proof {
            assert(spec_encode_all(values@, values@.len() as int) =~= Seq::<u8>::empty());
            assert(self.buf@ =~= base + spec_encode_all(values@, 0int));
        }
    }

    /// Write a 16-bit length-prefixed string, truncated at 65535 bytes.
    fn write_utf8(&mut self, sv: &Vec<u8>)
        ensures
            final(self).spec_buf() == old(self).spec_buf() + key_bytes(sv@),
    {
        let l = if sv.len() > 0xFFFF {
            0xFFFFusize
        } else {
            sv.len()
        };
        push_be16(&mut self.buf, #[verifier::truncate] (l as u16));
        let piece = vstd::slice::slice_subrange(sv.as_slice(), 0, l);
        self.buf.extend_from_slice(piece);
        proof {
            assert(self.buf@ =~= old(self).spec_buf() + key_bytes(sv@));
        }
    }
}

impl Default for Amf0Encoder {
    /// A new, empty encoder.
    fn default() -> (r: Self)
        ensures
            r.spec_buf() =~= Seq::<u8>::empty(),
    {
        Amf0Encoder::new()
    }
}

/// Encode a single value.
pub fn encode(value: &AmfValue) -> (r: Bytes)
    ensures
        bytes_view(r) == spec_encode(dv(*value)),
{
    let mut encoder = Amf0Encoder::new();
    encoder.encode(value);
    let out = encoder.finish();
    proof {
        assert(Seq::<u8>::empty() + spec_encode(dv(*value)) =~= spec_encode(dv(*value)));
    }
    out
}

/// Encode several values.
pub fn encode_all(values: &[AmfValue]) -> (r: Bytes)
    ensures
        bytes_view(r) == spec_encode_all(values@, 0),
{
    let mut encoder = Amf0Encoder::new();
    encoder.encode_all(values);
    let out = encoder.finish();
    proof {
        assert(Seq::<u8>::empty() + spec_encode_all(values@, 0) =~= spec_encode_all(values@, 0));
    }
    out
}

/// Decode a single value with a fresh lenient decoder.
pub fn decode(data: &[u8]) -> (r: Result<AmfValue, AmfError>)
    ensures
        match r {
            Ok(v) => spec_decode(data@, 0, 0, Seq::empty(), true) matches Ok((w, p2, rf)) && w
                == dv(v),
            Err(e) => spec_decode(data@, 0, 0, Seq::empty(), true) == Err::<
                (AmfVal, int, Seq<AmfVal>),
                _,
            >(e),
        },
{
    let mut decoder = Amf0Decoder::new();
    let mut buf = vec_to_bytes(copy_range(data, 0, data.len()));
    proof {
        assert(data@.subrange(0, data@.len() as int) =~= data@);
    }
    decoder.decode(&mut buf)
}

/// Decode all values with a fresh lenient decoder.
pub fn decode_all(data: &[u8]) -> (r: Result<Vec<AmfValue>, AmfError>)
    ensures
        match r {
            Ok(vs) => spec_decode_all(data@, 0, Seq::empty(), true) matches Ok((ws, _rf)) && ws
                == crate::amf::dv_list(vs, 0),
            Err(e) => spec_decode_all(data@, 0, Seq::empty(), true) == Err::<
                (Seq<AmfVal>, Seq<AmfVal>),
                _,
            >(e),
        },
{
    let mut decoder = Amf0Decoder::new();
    let mut buf = vec_to_bytes(copy_range(data, 0, data.len()));
    proof {
        assert(data@.subrange(0, data@.len() as int) =~= data@);
    }
    decoder.decode_all(&mut buf)
}


proof fn lemma_be16_recompose(n: u16)
    ensures
        (((((n >> 8) as u8) as u16) << 8) | ((n as u8) as u16)) == n,
{
    assert((((((n >> 8) as u8) as u16) << 8) | ((n as u8) as u16)) == n) by (bit_vector);
}

proof fn lemma_be32_recompose(n: u32)
    ensures
        (((((n >> 24) as u8) as u32) << 24) | ((((n >> 16) as u8) as u32) << 16) | ((((n
            >> 8) as u8) as u32) << 8) | ((n as u8) as u32)) == n,
{
    assert((((((n >> 24) as u8) as u32) << 24) | ((((n >> 16) as u8) as u32) << 16) | ((((n
        >> 8) as u8) as u32) << 8) | ((n as u8) as u32)) == n) by (bit_vector);
}

proof fn lemma_be64_recompose(n: u64)
    ensures
        (((((n >> 56) as u8) as u64) << 56) | ((((n >> 48) as u8) as u64) << 48) | ((((n
            >> 40) as u8) as u64) << 40) | ((((n >> 32) as u8) as u64) << 32) | ((((n
            >> 24) as u8) as u64) << 24) | ((((n >> 16) as u8) as u64) << 16) | ((((n
            >> 8) as u8) as u64) << 8) | ((n as u8) as u64)) == n,
{
    assert((((((n >> 56) as u8) as u64) << 56) | ((((n >> 48) as u8) as u64) << 48) | ((((n
        >> 40) as u8) as u64) << 40) | ((((n >> 32) as u8) as u64) << 32) | ((((n
        >> 24) as u8) as u64) << 24) | ((((n >> 16) as u8) as u64) << 16) | ((((n
        >> 8) as u8) as u64) << 8) | ((n as u8) as u64)) == n) by (bit_vector);
}

/// List depths are never negative.
proof fn lemma_depth_list_nonneg(items: Seq<AmfVal>, i: int)
    ensures
        depth_of_list(items, i) >= 0,
    decreases items, items.len() - i, 1int,
{
    if 0 <= i < items.len() {
        lemma_depth_list_nonneg(items, i + 1);
    }
}

/// Pair-list depths are never negative.
proof fn lemma_depth_props_nonneg(props: Seq<(Seq<u8>, AmfVal)>, i: int)
    ensures
        depth_of_props(props, i) >= 0,
    decreases props, props.len() - i, 1int,
{
    if 0 <= i < props.len() {
        lemma_depth_props_nonneg(props, i + 1);
    }
}

/// Every AMF0 encoding is at least its marker byte long.
proof fn lemma_encode_len(v: AmfVal)
    ensures
        spec_encode(v).len() >= 1,
{
    match v {
        AmfVal::Null => {},
        AmfVal::Undefined => {},
        AmfVal::Boolean(_) => {},
        AmfVal::Number(_) => {},
        AmfVal::String(_) => {},
        AmfVal::Array(_) => {},
        AmfVal::Object(_) => {},
        AmfVal::TypedObject { .. } => {},
        AmfVal::Date(_) => {},
        AmfVal::Xml(_) => {},
        AmfVal::EcmaArray(_) => {},
    }
}

/// A piece of a known window into `s` is itself a known window.
proof fn lemma_slice_at(s: Seq<u8>, pos: int, whole: Seq<u8>, off: int, part: Seq<u8>)
    requires
        0 <= pos,
        pos + whole.len() <= s.len(),
        s.subrange(pos, pos + whole.len() as int) == whole,
        0 <= off,
        off + part.len() <= whole.len(),
        forall|k: int| 0 <= k < part.len() ==> whole[off + k] == part[k],
    ensures
        s.subrange(pos + off, pos + off + part.len() as int) == part,
        forall|k: int| 0 <= k < whole.len() ==> s[pos + k] == whole[k],
{
    assert forall|k: int| 0 <= k < whole.len() implies s[pos + k] == whole[k] by {
        assert(s.subrange(pos, pos + whole.len() as int)[k] == s[pos + k]);
    }
    assert(s.subrange(pos + off, pos + off + part.len() as int) =~= part);
}

/// Decoding the encoding of a well-formed value yields the value back,
/// wherever it is embedded, whatever the reference table, in either mode.
#[verifier::rlimit(100)]
#[verifier::spinoff_prover]
pub proof fn lemma_round_trip_value(
    v: AmfVal,
    s: Seq<u8>,
    pos: int,
    depth: int,
    refs: Seq<AmfVal>,
    lenient: bool,
)
    requires
        wf_amf(v),
        0 <= pos,
        pos + spec_encode(v).len() <= s.len(),
        s.subrange(pos, pos + spec_encode(v).len() as int) == spec_encode(v),
        0 <= depth,
        depth + depth_of(v) <= 64,
    ensures
        spec_decode(s, pos, depth, refs, lenient) matches Ok((w, p2, rf)) && w == v && p2 == pos
            + spec_encode(v).len() && rf.len() >= refs.len(),
    decreases v, 0int,
{
    let enc = spec_encode(v);
    lemma_slice_at(s, pos, enc, 0, Seq::empty());
    lemma_encode_len(v);
    assert(s[pos + 0] == enc[0]);
    assert(s[pos] == enc[0]);
    let p = pos + 1;
    match v {
        AmfVal::Null => {
        },
        AmfVal::Undefined => {
        },
        AmfVal::Boolean(b) => {
            assert(s[pos + 1] == enc[1]);
        },
        AmfVal::Number(n) => {
            assert forall|k: int| 0 <= k < 8 implies s[p + k] == be64_of(n)[k] by {
                assert(enc[1 + k] == be64_of(n)[k]);
            }
            lemma_be64_recompose(n);
            assert(be64_at(s, p) == n);
        },
        AmfVal::Date(n) => {
            assert forall|k: int| 0 <= k < 8 implies s[p + k] == be64_of(n)[k] by {
                assert(enc[1 + k] == be64_of(n)[k]);
            }
            lemma_be64_recompose(n);
            assert(be64_at(s, p) == n);
        },
        AmfVal::String(sv) => {
            if sv.len() > 0xFFFF {
                let l32 = sv.len() as u32;
                assert forall|k: int| 0 <= k < 4 implies s[p + k] == be32_of(l32)[k] by {
                    assert(enc[1 + k] == be32_of(l32)[k]);
                }
                lemma_be32_recompose(l32);
                assert(be32_at(s, p) == l32);
                assert(l32 as int == sv.len());
                lemma_slice_at(s, pos, enc, 5, sv);
                assert(spec_read_long(s, p) == Ok::<_, AmfError>((sv, p + 4 + sv.len())));
            } else {
                let l16 = sv.len() as u16;
                assert forall|k: int| 0 <= k < 2 implies s[p + k] == be16_of(l16)[k] by {
                    assert(enc[1 + k] == be16_of(l16)[k]);
                }
                lemma_be16_recompose(l16);
                assert(be16_at(s, p) == l16);
                assert(l16 as int == sv.len());
                lemma_slice_at(s, pos, enc, 3, sv);
                assert(spec_read_key(s, p) == Ok::<_, AmfError>((sv, p + 2 + sv.len())));
            }
        },
        AmfVal::Xml(sv) => {
            let l32 = sv.len() as u32;
            assert forall|k: int| 0 <= k < 4 implies s[p + k] == be32_of(l32)[k] by {
                assert(enc[1 + k] == be32_of(l32)[k]);
            }
            lemma_be32_recompose(l32);
            assert(be32_at(s, p) == l32);
            assert(l32 as int == sv.len());
            lemma_slice_at(s, pos, enc, 5, sv);
            assert(spec_read_long(s, p) == Ok::<_, AmfError>((sv, p + 4 + sv.len())));
        },
        AmfVal::Array(items) => {
            let l32 = items.len() as u32;
            assert forall|k: int| 0 <= k < 4 implies s[p + k] == be32_of(l32)[k] by {
                assert(enc[1 + k] == be32_of(l32)[k]);
            }
            lemma_be32_recompose(l32);
            assert(be32_at(s, p) == l32);
            assert(l32 as int == items.len());
            lemma_depth_list_nonneg(items, 0);
            let body = spec_encode_list(items, 0);
            lemma_slice_at(s, pos, enc, 5, body);
            lemma_round_trip_items(items, 0, s, p + 4, depth + 1, refs.push(AmfVal::Null),
                lenient);
            assert(items.skip(0) =~= items);
        },
        AmfVal::Object(props) => {
            lemma_depth_props_nonneg(props, 0);
            let body = spec_encode_props(props, 0) + seq![0x00u8, 0x00u8, 0x09u8];
            lemma_slice_at(s, pos, enc, 1, body);
            lemma_round_trip_props(props, 0, s, p, depth + 1, refs.push(AmfVal::Null), lenient);
            assert(props.skip(0) =~= props);
        },
        AmfVal::EcmaArray(props) => {
            lemma_depth_props_nonneg(props, 0);
            let body = spec_encode_props(props, 0) + seq![0x00u8, 0x00u8, 0x09u8];
            lemma_slice_at(s, pos, enc, 5, body);
            lemma_round_trip_props(props, 0, s, p + 4, depth + 1, refs.push(AmfVal::Null),
                lenient);
            assert(props.skip(0) =~= props);
        },
        AmfVal::TypedObject { class_name, properties } => {
            let kb = key_bytes(class_name);
            assert(class_name.take(class_name.len() as int) =~= class_name);
            let l16 = class_name.len() as u16;
            assert forall|k: int| 0 <= k < 2 implies s[p + k] == be16_of(l16)[k] by {
                assert(enc[1 + k] == kb[k]);
            }
            lemma_be16_recompose(l16);
            assert(be16_at(s, p) == l16);
            assert(l16 as int == class_name.len());
            lemma_slice_at(s, pos, enc, 3, class_name);
            assert(spec_read_key(s, p) == Ok::<_, AmfError>(
                (class_name, p + 2 + class_name.len()),
            ));
            lemma_depth_props_nonneg(properties, 0);
            let p1 = p + 2 + class_name.len() as int;
            let body = spec_encode_props(properties, 0) + seq![0x00u8, 0x00u8, 0x09u8];
            lemma_slice_at(s, pos, enc, 1 + kb.len() as int, body);
            lemma_round_trip_props(properties, 0, s, p1, depth + 1, refs.push(AmfVal::Null),
                lenient);
            assert(properties.skip(0) =~= properties);
        },
    }
}

/// Decoding the encoded pairs from `i` on, followed by the object
/// terminator, yields those pairs.
pub proof fn lemma_round_trip_props(
    props: Seq<(Seq<u8>, AmfVal)>,
    i: int,
    s: Seq<u8>,
    pos: int,
    depth: int,
    refs: Seq<AmfVal>,
    lenient: bool,
)
    requires
        0 <= i <= props.len(),
        wf_amf_props(props, i),
        0 <= pos,
        pos + spec_encode_props(props, i).len() + 3 <= s.len(),
        s.subrange(pos, pos + spec_encode_props(props, i).len() + 3) == spec_encode_props(
            props,
            i,
        ) + seq![0x00u8, 0x00u8, 0x09u8],
        0 <= depth,
        depth + depth_of_props(props, i) <= 64,
    ensures
        spec_decode_props(s, pos, depth, refs, lenient) matches Ok((ps, p2, rf)) && ps
            == props.skip(i) && p2 == pos + spec_encode_props(props, i).len() + 3 && rf.len()
            >= refs.len(),
    decreases props, props.len() - i,
{
    let whole = spec_encode_props(props, i) + seq![0x00u8, 0x00u8, 0x09u8];
    lemma_slice_at(s, pos, whole, 0, Seq::empty());
    if i == props.len() {
        assert(spec_encode_props(props, i) =~= Seq::<u8>::empty());
        assert(s[pos] == 0x00u8);
        assert(s[pos + 1] == 0x00u8);
        assert(s[pos + 2] == 0x09u8);
        lemma_be16_recompose(0u16);
        assert((((0u8 as u16) << 8) | (0u8 as u16)) == 0u16) by (bit_vector);
        assert(be16_at(s, pos) == 0);
        assert(s.subrange(pos + 2, pos + 2) =~= Seq::<u8>::empty());
        assert(spec_read_key(s, pos) == Ok::<_, AmfError>(
            (Seq::<u8>::empty(), pos + 2),
        ));
        assert(props.skip(i) =~= Seq::<(Seq<u8>, AmfVal)>::empty());
    } else {
        let key = props[i].0;
        let child = props[i].1;
        let kb = key_bytes(key);
        let ev = spec_encode(child);
        let rest = spec_encode_props(props, i + 1);
        assert(whole =~= kb + (ev + (rest + seq![0x00u8, 0x00u8, 0x09u8])));
        // the key
        assert(key.take(key.len() as int) =~= key);
        let l16 = key.len() as u16;
        assert forall|k: int| 0 <= k < 2 implies s[pos + k] == be16_of(l16)[k] by {
            assert(whole[k] == kb[k]);
        }
        lemma_be16_recompose(l16);
        assert(be16_at(s, pos) == l16);
        assert(l16 as int == key.len());
        lemma_slice_at(s, pos, whole, 2, key);
        assert(spec_read_key(s, pos) == Ok::<_, AmfError>((key, pos + 2 + key.len())));
        let p1 = pos + 2 + key.len() as int;
        // the value
        lemma_slice_at(s, pos, whole, kb.len() as int, ev);
        assert(depth_of(child) <= depth_of_props(props, i));
        lemma_round_trip_value(child, s, p1, depth, refs, lenient);
        lemma_encode_len(child);
        let p2 = p1 + ev.len() as int;
        // the remaining pairs and terminator
        lemma_slice_at(s, pos, whole, kb.len() + ev.len() as int, rest + seq![
            0x00u8,
            0x00u8,
            0x09u8,
        ]);
        assert(wf_amf_props(props, i + 1));
        assert(depth_of_props(props, i + 1) <= depth_of_props(props, i));
        lemma_round_trip_props(props, i + 1, s, p2, depth, spec_decode(s, p1, depth, refs,
            lenient)->Ok_0.2, lenient);
        assert(seq![(key, child)] + props.skip(i + 1) =~= props.skip(i));
    }
}

/// Decoding `len - i` encoded elements from `i` on yields those elements.
pub proof fn lemma_round_trip_items(
    items: Seq<AmfVal>,
    i: int,
    s: Seq<u8>,
    pos: int,
    depth: int,
    refs: Seq<AmfVal>,
    lenient: bool,
)
    requires
        0 <= i <= items.len(),
        wf_amf_list(items, i),
        0 <= pos,
        pos + spec_encode_list(items, i).len() <= s.len(),
        s.subrange(pos, pos + spec_encode_list(items, i).len() as int) == spec_encode_list(
            items,
            i,
        ),
        0 <= depth,
        depth + depth_of_list(items, i) <= 64,
    ensures
        spec_decode_items(s, pos, depth, refs, lenient, items.len() - i) matches Ok(
            (vs, p2, rf),
        ) && vs == items.skip(i) && p2 == pos + spec_encode_list(items, i).len() && rf.len()
            >= refs.len(),
    decreases items, items.len() - i,
{
    let whole = spec_encode_list(items, i);
    lemma_slice_at(s, pos, whole, 0, Seq::empty());
    if i == items.len() {
        assert(items.skip(i) =~= Seq::<AmfVal>::empty());
    } else {
        let child = items[i];
        let ev = spec_encode(child);
        let rest = spec_encode_list(items, i + 1);
        assert(whole =~= ev + rest);
        lemma_slice_at(s, pos, whole, 0, ev);
        assert(depth_of(child) <= depth_of_list(items, i));
        lemma_round_trip_value(child, s, pos, depth, refs, lenient);
        lemma_encode_len(child);
        let p2 = pos + ev.len() as int;
        lemma_slice_at(s, pos, whole, ev.len() as int, rest);
        assert(wf_amf_list(items, i + 1));
        assert(depth_of_list(items, i + 1) <= depth_of_list(items, i));
        lemma_round_trip_items(items, i + 1, s, p2, depth, spec_decode(s, pos, depth, refs,
            lenient)->Ok_0.2, lenient);
        assert(seq![child] + items.skip(i + 1) =~= items.skip(i));
    }
}

/// The AMF0 round trip: decoding the encoding of any well-formed value,
/// in either leniency mode and with any reference table in effect, yields
/// exactly the value, consuming exactly its encoding.
pub proof fn lemma_amf0_round_trip(v: AmfVal, refs: Seq<AmfVal>, lenient: bool)
    requires
        wf_amf(v),
        depth_of(v) <= 64,
    ensures
        spec_decode(spec_encode(v), 0, 0, refs, lenient) matches Ok((w, p2, rf)) && w == v && p2
            == spec_encode(v).len(),
{
    let enc = spec_encode(v);
    assert(enc.subrange(0, enc.len() as int) =~= enc);
    lemma_round_trip_value(v, enc, 0, 0, refs, lenient);
}

} // verus!
