//! A decoder for the subset of AMF0 that RTMP commands use: numbers,
//! booleans, strings, objects and null.
use vstd::arithmetic::power2::pow2;
use vstd::bits::lemma_u64_shr_is_div;
use vstd::prelude::*;
use vstd::slice::{slice_subrange, slice_to_vec};
use vstd::utf8::{
    decode_utf8, encode_utf8, encode_utf8_decode_utf8, encode_utf8_valid_utf8, valid_utf8,
};

use crate::wire::{be16, be32, be64, read_be16, read_be64};

verus! {

pub const NUMBER_MARKER: u8 = 0x00;

pub const BOOL_MARKER: u8 = 0x01;

pub const STRING_MARKER: u8 = 0x02;

pub const OBJECT_START_MARKER: u8 = 0x03;

pub const NULL_MARKER: u8 = 0x05;

/// Last byte of the `00 00 09` sequence that closes an object.
pub const OBJECT_END_MARKER: u8 = 0x09;

/// A decoded AMF0 value. A number is kept as the bit pattern of its
/// IEEE-754 double (`f64::from_bits` gives the number back).
#[derive(Debug, PartialEq)]
pub enum AMF0Value {
    Number(u64),
    Boolean(bool),
    String(String),
    /// Properties in the order they were read.
    Object(Vec<(String, AMF0Value)>),
    Null,
}

#[derive(Debug, PartialEq, Eq, Clone, Copy, Structural)]
pub enum DecodeError {
    UnexpectedEOF,
    UnknownMarker(u8),
    InvalidUtf8,
    InvalidObjectKey,
    MissingTypeMarker,
    InvalidNumber,
    InvalidBool,
}

/// A value was asked for as a type that it does not have.
#[derive(Debug, PartialEq, Eq, Clone, Copy, Structural)]
pub enum CastError {
    NotAString,
    NotANumber,
    NotABoolean,
}

/// The mathematical form of an AMF0 value.
pub enum Amf0Model {
    Number(u64),
    Boolean(bool),
    Text(Seq<char>),
    Object(Seq<(Seq<char>, Amf0Model)>),
    Null,
}

impl AMF0Value {
    pub open spec fn model(self) -> Amf0Model
        decreases self,
    {
        match self {
            AMF0Value::Number(n) => Amf0Model::Number(n),
            AMF0Value::Boolean(b) => Amf0Model::Boolean(b),
            AMF0Value::String(s) => Amf0Model::Text(s@),
            AMF0Value::Object(entries) => Amf0Model::Object(
                Seq::new(
                    entries@.len(),
                    |i: int|
                        (
                            entries@[i].0@,
                            if 0 <= i < entries@.len() {
                                entries@[i].1.model()
                            } else {
                                Amf0Model::Null
                            },
                        ),
                ),
            ),
            AMF0Value::Null => Amf0Model::Null,
        }
    }

    pub fn into_string(self) -> (r: Result<String, CastError>)
        ensures
            match self {
                AMF0Value::String(s) => r == Ok::<String, CastError>(s),
                _ => r == Err::<String, CastError>(CastError::NotAString),
            },
    {
        match self {
            AMF0Value::String(s) => Ok(s),
            _ => Err(CastError::NotAString),
        }
    }

    pub fn as_number(&self) -> (r: Result<u64, CastError>)
        ensures
            match self {
                AMF0Value::Number(n) => r == Ok::<u64, CastError>(*n),
                _ => r == Err::<u64, CastError>(CastError::NotANumber),
            },
    {
        match self {
            AMF0Value::Number(n) => Ok(*n),
            _ => Err(CastError::NotANumber),
        }
    }

    pub fn as_bool(&self) -> (r: Result<bool, CastError>)
        ensures
            match self {
                AMF0Value::Boolean(b) => r == Ok::<bool, CastError>(*b),
                _ => r == Err::<bool, CastError>(CastError::NotABoolean),
            },
    {
        match self {
            AMF0Value::Boolean(b) => Ok(*b),
            _ => Err(CastError::NotABoolean),
        }
    }
}

/// The number with IEEE-754 bit pattern `bits`, cut to an integer the way
/// Rust's `as u32` does: toward zero, saturating at both ends, NaN as zero.
pub open spec fn number_as_u32(bits: u64) -> u32 {
    let exponent = (bits / 0x10_0000_0000_0000) % 0x800;
    let fraction = bits % 0x10_0000_0000_0000;
    if exponent == 0x7ff && fraction != 0 {
        0
    } else if bits >= 0x8000_0000_0000_0000 {
        0
    } else if exponent < 1023 {
        0
    } else if exponent >= 1023 + 32 {
        u32::MAX
    } else {
        ((0x10_0000_0000_0000 + fraction) / (pow2((1075 - exponent) as nat) as int)) as u32
    }
}

/// Converts a number, given by its bit pattern, to `u32` as `as u32` does.
pub fn number_to_u32(bits: u64) -> (r: u32)
    ensures
        r == number_as_u32(bits),
{
    let exponent = (bits / 0x10_0000_0000_0000) % 0x800;
    let fraction = bits % 0x10_0000_0000_0000;
    if exponent == 0x7ff && fraction != 0 {
        0
    } else if bits >= 0x8000_0000_0000_0000 {
        0
    } else if exponent < 1023 {
        0
    } else if exponent >= 1023 + 32 {
        u32::MAX
    } else {
        let shift = 1075 - exponent;
        let mantissa = 0x10_0000_0000_0000 + fraction;
        proof {
            lemma_u64_shr_is_div(mantissa, shift);
        }
        (mantissa >> shift) as u32
    }
}

/// The number whose eight big-endian bytes start at `pos`.
pub open spec fn parse_number(s: Seq<u8>, pos: int) -> Result<(Amf0Model, int), DecodeError> {
    if pos + 8 > s.len() {
        Err(DecodeError::InvalidNumber)
    } else {
        Ok((Amf0Model::Number(be64(s, pos) as u64), pos + 8))
    }
}

/// The boolean in the byte at `pos`: zero is false, anything else true.
pub open spec fn parse_bool(s: Seq<u8>, pos: int) -> Result<(Amf0Model, int), DecodeError> {
    if pos + 1 > s.len() {
        Err(DecodeError::InvalidBool)
    } else {
        Ok((Amf0Model::Boolean(s[pos] != 0), pos + 1))
    }
}

/// A UTF-8 string with a big-endian 16-bit length prefix, starting at `pos`.
pub open spec fn parse_text(s: Seq<u8>, pos: int) -> Result<(Seq<char>, int), DecodeError> {
    if pos + 2 > s.len() {
        Err(DecodeError::UnexpectedEOF)
    } else if pos + 2 + be16(s, pos) > s.len() {
        Err(DecodeError::UnexpectedEOF)
    } else {
        let body = s.subrange(pos + 2, pos + 2 + be16(s, pos));
        if valid_utf8(body) {
            Ok((decode_utf8(body), pos + 2 + be16(s, pos)))
        } else {
            Err(DecodeError::InvalidUtf8)
        }
    }
}

/// An object key: a bare length-prefixed string that must be valid UTF-8.
pub open spec fn parse_key(s: Seq<u8>, pos: int) -> Result<(Seq<char>, int), DecodeError> {
    match parse_text(s, pos) {
        Err(DecodeError::InvalidUtf8) => Err(DecodeError::InvalidObjectKey),
        other => other,
    }
}

pub open spec fn is_object_end(s: Seq<u8>, pos: int) -> bool {
    &&& 0 <= pos
    &&& pos + 3 <= s.len()
    &&& s[pos] == 0
    &&& s[pos + 1] == 0
    &&& s[pos + 2] == OBJECT_END_MARKER
}

/// The value whose type marker is at `pos`, with the position just past it.
pub open spec fn parse_value(s: Seq<u8>, pos: int) -> Result<(Amf0Model, int), DecodeError>
    decreases s.len() - pos, 1int,
{
    if pos < 0 || pos >= s.len() {
        Err(DecodeError::MissingTypeMarker)
    } else {
        let marker = s[pos];
        if marker == NUMBER_MARKER {
            parse_number(s, pos + 1)
        } else if marker == BOOL_MARKER {
            parse_bool(s, pos + 1)
        } else if marker == STRING_MARKER {
            match parse_text(s, pos + 1) {
                Ok((t, end)) => Ok((Amf0Model::Text(t), end)),
                Err(e) => Err(e),
            }
        } else if marker == OBJECT_START_MARKER {
            match parse_entries(s, pos + 1) {
                Ok((entries, end)) => Ok((Amf0Model::Object(entries), end)),
                Err(e) => Err(e),
            }
        } else if marker == NULL_MARKER {
            Ok((Amf0Model::Null, pos + 1))
        } else {
            Err(DecodeError::UnknownMarker(marker))
        }
    }
}

/// The properties of an object from `pos` up to and including its end marker.
pub open spec fn parse_entries(s: Seq<u8>, pos: int) -> Result<
    (Seq<(Seq<char>, Amf0Model)>, int),
    DecodeError,
>
    decreases s.len() - pos, 0int,
{
    if is_object_end(s, pos) {
        Ok((seq![], pos + 3))
    } else if pos < 0 {
        Err(DecodeError::UnexpectedEOF)
    } else {
        match parse_key(s, pos) {
            Err(e) => Err(e),
            Ok((key, after_key)) => match parse_value(s, after_key) {
                Err(e) => Err(e),
                Ok((value, after_value)) => if pos < after_value <= s.len() {
                    prepend_entry((key, value), parse_entries(s, after_value))
                } else {
                    Err(DecodeError::UnexpectedEOF)
                },
            },
        }
    }
}

pub open spec fn prepend_entry(
    entry: (Seq<char>, Amf0Model),
    rest: Result<(Seq<(Seq<char>, Amf0Model)>, int), DecodeError>,
) -> Result<(Seq<(Seq<char>, Amf0Model)>, int), DecodeError> {
    match rest {
        Ok((entries, end)) => Ok((seq![entry] + entries, end)),
        Err(e) => Err(e),
    }
}

pub open spec fn prepend_entries(
    done: Seq<(Seq<char>, Amf0Model)>,
    rest: Result<(Seq<(Seq<char>, Amf0Model)>, int), DecodeError>,
) -> Result<(Seq<(Seq<char>, Amf0Model)>, int), DecodeError> {
    match rest {
        Ok((entries, end)) => Ok((done + entries, end)),
        Err(e) => Err(e),
    }
}


/// The `k` big-endian bytes of `n`.
pub open spec fn be_bytes(n: nat, k: nat) -> Seq<u8>
    decreases k,
{
    if k == 0 {
        seq![]
    } else {
        be_bytes(n / 256, (k - 1) as nat) + seq![(n % 256) as u8]
    }
}

/// The number that the bytes of `s` spell, big-endian.
pub open spec fn be_value(s: Seq<u8>) -> nat
    decreases s.len(),
{
    if s.len() == 0 {
        0
    } else {
        (be_value(s.drop_last()) * 256 + s.last()) as nat
    }
}

/// The numbers that fit in `k` bytes are those below this bound.
pub open spec fn byte_bound(k: nat) -> nat
    decreases k,
{
    if k == 0 {
        1
    } else {
        256 * byte_bound((k - 1) as nat)
    }
}

proof fn lemma_be_bytes_value(n: nat, k: nat)
    requires
        n < byte_bound(k),
    ensures
        be_bytes(n, k).len() == k,
        be_value(be_bytes(n, k)) == n,
    decreases k,
{
    if k > 0 {
        let b = byte_bound((k - 1) as nat);
        assert(n / 256 < b) by (nonlinear_arith)
            requires
                n < 256 * b,
        ;
        lemma_be_bytes_value(n / 256, (k - 1) as nat);
        let s = be_bytes(n, k);
        assert(s.drop_last() =~= be_bytes(n / 256, (k - 1) as nat));
        assert(n == (n / 256) * 256 + n % 256) by (nonlinear_arith);
    }
}

/// The encoding of a string: its UTF-8 length in two bytes, then its UTF-8.
pub open spec fn encode_text(t: Seq<char>) -> Seq<u8> {
    be_bytes(encode_utf8(t).len(), 2) + encode_utf8(t)
}

/// The AMF0 encoding of a value, with `true` written as 1.
pub open spec fn encode_value(v: Amf0Model) -> Seq<u8>
    decreases v, 1int,
{
    match v {
        Amf0Model::Number(n) => seq![NUMBER_MARKER] + be_bytes(n as nat, 8),
        Amf0Model::Boolean(b) => seq![BOOL_MARKER, if b {
            1u8
        } else {
            0u8
        }],
        Amf0Model::Text(t) => seq![STRING_MARKER] + encode_text(t),
        Amf0Model::Object(entries) => seq![OBJECT_START_MARKER] + encode_entries(v, 0) + seq![
            0u8,
            0u8,
            OBJECT_END_MARKER,
        ],
        Amf0Model::Null => seq![NULL_MARKER],
    }
}

/// The encodings of the properties of object `v` from the `i`-th on.
pub open spec fn encode_entries(v: Amf0Model, i: nat) -> Seq<u8>
    decreases v, 0int, object_len(v) - i,
{
    if let Amf0Model::Object(entries) = v {
        if i < entries.len() {
            encode_text(entries[i as int].0) + encode_value(entries[i as int].1) + encode_entries(
                v,
                i + 1,
            )
        } else {
            seq![]
        }
    } else {
        seq![]
    }
}

pub open spec fn object_len(v: Amf0Model) -> int {
    match v {
        Amf0Model::Object(entries) => entries.len() as int,
        _ => 0,
    }
}

/// Every string in the value is short enough for its 16-bit length prefix.
pub open spec fn encodable(v: Amf0Model) -> bool
    decreases v,
{
    match v {
        Amf0Model::Text(t) => encode_utf8(t).len() < 0x1_0000,
        Amf0Model::Object(entries) => forall|i: int|
            0 <= i < entries.len() ==> encode_utf8(#[trigger] entries[i].0).len() < 0x1_0000
                && encodable(entries[i].1),
        _ => true,
    }
}


proof fn lemma_be_value_2(s: Seq<u8>, i: int)
    requires
        0 <= i,
        i + 2 <= s.len(),
    ensures
        be16(s, i) == be_value(s.subrange(i, i + 2)),
{
    let x = s.subrange(i, i + 2);
    let x1 = x.drop_last();
    assert(be_value(x1.drop_last()) == 0);
    assert(x1[0] == s[i]);
    assert(be_value(x1) == s[i]);
}

proof fn lemma_be_value_8(s: Seq<u8>, i: int)
    requires
        0 <= i,
        i + 8 <= s.len(),
    ensures
        be64(s, i) == be_value(s.subrange(i, i + 8)),
{
    let x8 = s.subrange(i, i + 8);
    let x7 = x8.drop_last();
    let x6 = x7.drop_last();
    let x5 = x6.drop_last();
    let x4 = x5.drop_last();
    let x3 = x4.drop_last();
    let x2 = x3.drop_last();
    let x1 = x2.drop_last();
    assert(be_value(x1.drop_last()) == 0);
    assert(x1[0] == x2[0] && x2[0] == x3[0] && x3[0] == x4[0] && x4[0] == x5[0]);
    assert(x5[0] == x6[0] && x6[0] == x7[0] && x7[0] == x8[0] && x8[0] == s[i]);
    assert(be_value(x1) == s[i]);
    assert(be_value(x2) == be_value(x1) * 256 + s[i + 1]);
    assert(be_value(x3) == be_value(x2) * 256 + s[i + 2]);
    assert(be_value(x4) == be_value(x3) * 256 + s[i + 3]);
    assert(be_value(x5) == be_value(x4) * 256 + s[i + 4]);
    assert(be_value(x6) == be_value(x5) * 256 + s[i + 5]);
    assert(be_value(x7) == be_value(x6) * 256 + s[i + 6]);
    assert(be_value(x8) == be_value(x7) * 256 + s[i + 7]);
    assert(be32(s, i) == be_value(x4));
}

proof fn lemma_split(s: Seq<u8>, a: int, x: Seq<u8>, y: Seq<u8>)
    requires
        0 <= a,
        a + x.len() + y.len() <= s.len(),
        s.subrange(a, a + x.len() + y.len()) == x + y,
    ensures
        s.subrange(a, a + x.len()) == x,
        s.subrange(a + x.len(), a + x.len() + y.len()) == y,
{
    let whole = s.subrange(a, a + x.len() + y.len());
    assert forall|j: int| 0 <= j < x.len() implies s[a + j] == x[j] by {
        assert(whole[j] == (x + y)[j]);
    }
    assert(s.subrange(a, a + x.len()) =~= x);
    assert forall|j: int| 0 <= j < y.len() implies s[a + x.len() + j] == y[j] by {
        assert(whole[x.len() + j] == (x + y)[x.len() + j]);
    }
    assert(s.subrange(a + x.len(), a + x.len() + y.len()) =~= y);
}

proof fn lemma_decode_text(t: Seq<char>, s: Seq<u8>, pos: int)
    requires
        encode_utf8(t).len() < 0x1_0000,
        0 <= pos,
        pos + encode_text(t).len() <= s.len(),
        s.subrange(pos, pos + encode_text(t).len()) == encode_text(t),
    ensures
        parse_text(s, pos) == Ok::<(Seq<char>, int), DecodeError>(
            (t, pos + encode_text(t).len()),
        ),
        parse_key(s, pos) == parse_text(s, pos),
        encode_text(t).len() == 2 + encode_utf8(t).len(),
{
    let u = encode_utf8(t);
    let prefix = be_bytes(u.len(), 2);
    assert(byte_bound(2) == 0x1_0000) by {
        assert(byte_bound(0) == 1);
        assert(byte_bound(1) == 256);
    }
    lemma_be_bytes_value(u.len(), 2);
    lemma_split(s, pos, prefix, u);
    lemma_be_value_2(s, pos);
    encode_utf8_valid_utf8(t);
    encode_utf8_decode_utf8(t);
}

/// Decoding the encoding of a value, wherever it stands in the input, gives
/// the value back and leaves the cursor just past the encoding: decoding
/// consumes exactly the bytes of the value.
pub proof fn lemma_decode_encoding(v: Amf0Model, s: Seq<u8>, pos: int)
    requires
        encodable(v),
        0 <= pos,
        pos + encode_value(v).len() <= s.len(),
        s.subrange(pos, pos + encode_value(v).len()) == encode_value(v),
    ensures
        parse_value(s, pos) == Ok::<(Amf0Model, int), DecodeError>(
            (v, pos + encode_value(v).len()),
        ),
    decreases v, 1int,
{
    let e = encode_value(v);
    assert(s[pos] == s.subrange(pos, pos + e.len())[0]);
    match v {
        Amf0Model::Number(n) => {
            assert(byte_bound(8) == 0x1_0000_0000_0000_0000) by {
                reveal_with_fuel(byte_bound, 9);
            }
            lemma_be_bytes_value(n as nat, 8);
            lemma_split(s, pos, seq![NUMBER_MARKER], be_bytes(n as nat, 8));
            lemma_be_value_8(s, pos + 1);
        },
        Amf0Model::Boolean(b) => {
            assert(s[pos + 1] == s.subrange(pos, pos + e.len())[1]);
        },
        Amf0Model::Text(t) => {
            lemma_split(s, pos, seq![STRING_MARKER], encode_text(t));
            lemma_decode_text(t, s, pos + 1);
        },
        Amf0Model::Object(entries) => {
            let body = encode_entries(v, 0) + seq![0u8, 0u8, OBJECT_END_MARKER];
            assert(e =~= seq![OBJECT_START_MARKER] + body);
            lemma_split(s, pos, seq![OBJECT_START_MARKER], body);
            lemma_decode_entries(v, 0, s, pos + 1);
            assert(entries.subrange(0, entries.len() as int) =~= entries);
        },
        Amf0Model::Null => {},
    }
}

proof fn lemma_decode_entries(v: Amf0Model, i: nat, s: Seq<u8>, pos: int)
    requires
        v is Object,
        encodable(v),
        i <= object_len(v),
        0 <= pos,
        pos + encode_entries(v, i).len() + 3 <= s.len(),
        s.subrange(pos, pos + encode_entries(v, i).len() + 3) == encode_entries(v, i) + seq![
            0u8,
            0u8,
            OBJECT_END_MARKER,
        ],
    ensures
        parse_entries(s, pos) == Ok::<(Seq<(Seq<char>, Amf0Model)>, int), DecodeError>(
            (
                v->Object_0.subrange(i as int, object_len(v)),
                pos + encode_entries(v, i).len() + 3,
            ),
        ),
    decreases v, 0int, object_len(v) - i,
{
    let entries = v->Object_0;
    let rest = encode_entries(v, i);
    let end = seq![0u8, 0u8, OBJECT_END_MARKER];
    lemma_split(s, pos, rest, end);
    if i == entries.len() {
        assert(rest.len() == 0);
        assert(s[pos] == end[0] && s[pos + 1] == end[1] && s[pos + 2] == end[2]) by {
            assert(s.subrange(pos, pos + 3) == end);
            assert(s.subrange(pos, pos + 3)[0] == s[pos]);
            assert(s.subrange(pos, pos + 3)[1] == s[pos + 1]);
            assert(s.subrange(pos, pos + 3)[2] == s[pos + 2]);
        }
        assert(entries.subrange(i as int, object_len(v)) =~= Seq::<(Seq<char>, Amf0Model)>::empty());
    } else {
        let (key, value) = entries[i as int];
        assert(encode_utf8(key).len() < 0x1_0000 && encodable(value));
        let k = encode_text(key);
        let ev = encode_value(value);
        let more = encode_entries(v, i + 1);
        assert(rest == k + ev + more);
        assert(rest + end =~= k + (ev + (more + end)));
        lemma_split(s, pos, k, ev + (more + end));
        lemma_decode_text(key, s, pos);
        let p1 = pos + k.len();
        lemma_split(s, p1, ev, more + end);
        lemma_decode_encoding(value, s, p1);
        let p2 = p1 + ev.len();
        lemma_decode_entries(v, i + 1, s, p2);
        assert(!is_object_end(s, pos)) by {
            let u = encode_utf8(key);
            let b = be_bytes(u.len(), 2);
            assert(s.subrange(pos, pos + k.len())[0] == s[pos]);
            assert(s.subrange(pos, pos + k.len())[1] == s[pos + 1]);
            assert(k[0] == b[0] && k[1] == b[1]);
            if u.len() == 0 {
                assert(s.subrange(p1, p1 + ev.len())[0] == s[p1]);
            } else {
                assert(byte_bound(2) == 0x1_0000) by {
                    assert(byte_bound(0) == 1);
                    assert(byte_bound(1) == 256);
                }
                lemma_be_bytes_value(u.len(), 2);
                lemma_be_value_2(b, 0);
                assert(b.subrange(0, 2) =~= b);
            }
        }
        assert(seq![(key, value)] + entries.subrange((i + 1) as int, object_len(v)) =~= entries.subrange(
            i as int,
            object_len(v),
        ));
    }
}

/// A value that parsed ends after its first byte and within the input.
pub proof fn lemma_parse_value_advances(s: Seq<u8>, pos: int)
    ensures
        parse_value(s, pos) matches Ok((_, end)) ==> pos < end <= s.len(),
    decreases s.len() - pos, 1int,
{
    if 0 <= pos < s.len() && s[pos] == OBJECT_START_MARKER {
        lemma_parse_entries_advances(s, pos + 1);
    }
}

/// Parsed properties end after their start and within the input.
pub proof fn lemma_parse_entries_advances(s: Seq<u8>, pos: int)
    ensures
        parse_entries(s, pos) matches Ok((_, end)) ==> pos < end <= s.len(),
    decreases s.len() - pos, 0int,
{
    if !is_object_end(s, pos) && pos >= 0 {
        if let Ok((_, after_key)) = parse_key(s, pos) {
            if let Ok((_, after_value)) = parse_value(s, after_key) {
                if pos < after_value <= s.len() {
                    lemma_parse_entries_advances(s, after_value);
                }
            }
        }
    }
}

/// Whether a decoder's result and end position agree with what the model
/// parse gives.
pub open spec fn decoded_as(
    r: Result<AMF0Value, DecodeError>,
    end: int,
    expected: Result<(Amf0Model, int), DecodeError>,
) -> bool {
    match expected {
        Ok((m, e)) => match r {
            Ok(v) => v.model() == m && end == e,
            Err(_) => false,
        },
        Err(x) => r == Err::<AMF0Value, DecodeError>(x),
    }
}

/// Relies on `String::from_utf8`: it succeeds exactly on valid UTF-8 and
/// then holds the characters that the bytes encode.
#[verifier::external_body]
fn string_from_utf8(bytes: Vec<u8>) -> (r: Option<String>)
    ensures
        r is Some <==> valid_utf8(bytes@),
        r matches Some(s) ==> s@ == decode_utf8(bytes@),
{
    String::from_utf8(bytes).ok()
}

/// Decodes AMF0 values from a byte slice, left to right.
pub struct Decoder<'a> {
    buf: &'a [u8],
    position: usize,
}

impl<'a> Decoder<'a> {
    #[verifier::type_invariant]
    spec fn inv(self) -> bool {
        self.position <= self.buf@.len()
    }

    /// The bytes being decoded.
    pub closed spec fn bytes(self) -> Seq<u8> {
        self.buf@
    }

    /// The cursor: the index of the next byte to read.
    pub closed spec fn pos(self) -> int {
        self.position as int
    }

    pub fn new(buf: &'a [u8]) -> (d: Self)
        ensures
            d.bytes() == buf@,
            d.pos() == 0,
    {
        Decoder { buf, position: 0 }
    }

    /// The bytes not read yet.
    pub fn get_buf(&self) -> (r: Result<&'a [u8], DecodeError>)
        ensures
            r matches Ok(rest) && rest@ == self.bytes().subrange(self.pos(), self.bytes().len() as int),
    {
        proof {
            use_type_invariant(self);
        }
        Ok(slice_subrange(self.buf, self.position, self.buf.len()))
    }

    pub fn position(&self) -> (r: u64)
        ensures
            r == self.pos(),
    {
        proof {
            use_type_invariant(self);
        }
        self.position as u64
    }

    /// Reads one value, type marker first, and moves the cursor past it.
    pub fn decode(&mut self) -> (r: Result<AMF0Value, DecodeError>)
        ensures
            final(self).bytes() == old(self).bytes(),
            decoded_as(r, final(self).pos(), parse_value(old(self).bytes(), old(self).pos())),
        decreases old(self).bytes().len() - old(self).pos(), 1int,
    {
        proof {
            use_type_invariant(&*self);
        }
        if self.position >= self.buf.len() {
            return Err(DecodeError::MissingTypeMarker);
        }
        let marker = self.buf[self.position];
        self.position = self.position + 1;
        if marker == NUMBER_MARKER {
            self.decode_number()
        } else if marker == BOOL_MARKER {
            self.decode_bool()
        } else if marker == STRING_MARKER {
            self.decode_string()
        } else if marker == OBJECT_START_MARKER {
            self.decode_object()
        } else if marker == NULL_MARKER {
            Ok(AMF0Value::Null)
        } else {
            Err(DecodeError::UnknownMarker(marker))
        }
    }

    /// Reads the eight bytes of a number that follow its type marker.
    pub fn decode_number(&mut self) -> (r: Result<AMF0Value, DecodeError>)
        ensures
            final(self).bytes() == old(self).bytes(),
            decoded_as(r, final(self).pos(), parse_number(old(self).bytes(), old(self).pos())),
    {
        proof {
            use_type_invariant(&*self);
        }
        if self.buf.len() - self.position < 8 {
            return Err(DecodeError::InvalidNumber);
        }
        let bits = read_be64(self.buf, self.position);
        self.position = self.position + 8;
        Ok(AMF0Value::Number(bits))
    }

    /// Reads the byte of a boolean that follows its type marker.
    pub fn decode_bool(&mut self) -> (r: Result<AMF0Value, DecodeError>)
        ensures
            final(self).bytes() == old(self).bytes(),
            decoded_as(r, final(self).pos(), parse_bool(old(self).bytes(), old(self).pos())),
    {
        proof {
            use_type_invariant(&*self);
        }
        if self.position >= self.buf.len() {
            return Err(DecodeError::InvalidBool);
        }
        let value = self.buf[self.position] != 0;
        self.position = self.position + 1;
        Ok(AMF0Value::Boolean(value))
    }

    /// Reads a length-prefixed UTF-8 string with no type marker.
    pub fn decode_string(&mut self) -> (r: Result<AMF0Value, DecodeError>)
        ensures
            final(self).bytes() == old(self).bytes(),
            match parse_text(old(self).bytes(), old(self).pos()) {
                Ok((t, end)) => r matches Ok(AMF0Value::String(s)) && s@ == t && final(self).pos()
                    == end,
                Err(e) => r == Err::<AMF0Value, DecodeError>(e),
            },
    {
        proof {
            use_type_invariant(&*self);
        }
        if self.buf.len() - self.position < 2 {
            return Err(DecodeError::UnexpectedEOF);
        }
        let length = read_be16(self.buf, self.position) as usize;
        let start = self.position + 2;
        if self.buf.len() - start < length {
            return Err(DecodeError::UnexpectedEOF);
        }
        let end = start + length;
        let body = slice_to_vec(slice_subrange(self.buf, start, end));
        match string_from_utf8(body) {
            Some(s) => {
                self.position = end;
                Ok(AMF0Value::String(s))
            },
            None => Err(DecodeError::InvalidUtf8),
        }
    }

    fn decode_key(&mut self) -> (r: Result<String, DecodeError>)
        ensures
            final(self).bytes() == old(self).bytes(),
            match parse_key(old(self).bytes(), old(self).pos()) {
                Ok((t, end)) => r matches Ok(s) && s@ == t && final(self).pos() == end,
                Err(e) => r == Err::<String, DecodeError>(e),
            },
    {
        match self.decode_string() {
            Ok(AMF0Value::String(s)) => Ok(s),
            Err(DecodeError::InvalidUtf8) => Err(DecodeError::InvalidObjectKey),
            Err(e) => Err(e),
            Ok(_) => Err(DecodeError::InvalidObjectKey),
        }
    }

    /// Reads the properties of an object, after its type marker, up to and
    /// including the `00 00 09` that ends it.
    fn decode_object(&mut self) -> (r: Result<AMF0Value, DecodeError>)
        ensures
            final(self).bytes() == old(self).bytes(),
            match parse_entries(old(self).bytes(), old(self).pos()) {
                Ok((entries, end)) => r matches Ok(v) && v.model() == Amf0Model::Object(entries)
                    && final(self).pos() == end,
                Err(e) => r == Err::<AMF0Value, DecodeError>(e),
            },
        decreases old(self).bytes().len() - old(self).pos(), 0int,
    {
        let ghost s = self.bytes();
        let ghost start = self.pos();
        let mut entries: Vec<(String, AMF0Value)> = Vec::new();
        loop
            invariant
                s == old(self).bytes(),
                start == old(self).pos(),
                self.bytes() == s,
                start <= self.pos(),
                0 <= start,
                prepend_entries(AMF0Value::Object(entries).model()->Object_0, parse_entries(s, self.pos()))
                    == parse_entries(s, start),
            decreases s.len() - self.pos(),
        {
            proof {
                use_type_invariant(&*self);
            }
            let ghost here = self.pos();
            let ghost done = AMF0Value::Object(entries).model()->Object_0;
            if self.buf.len() - self.position >= 3 && self.buf[self.position] == 0
                && self.buf[self.position + 1] == 0 && self.buf[self.position + 2]
                == OBJECT_END_MARKER {
                self.position = self.position + 3;
                assert(done + seq![] =~= done);
                return Ok(AMF0Value::Object(entries));
            }
            let key = match self.decode_key() {
                Ok(k) => k,
                Err(e) => return Err(e),
            };
            proof {
                use_type_invariant(&*self);
            }
            let ghost after_key = self.pos();
            let value = match self.decode() {
                Ok(v) => v,
                Err(e) => return Err(e),
            };
            proof {
                lemma_parse_value_advances(s, after_key);
            }
            let ghost entry = (key@, value.model());
            entries.push((key, value));
            assert(AMF0Value::Object(entries).model()->Object_0 =~= done + seq![entry]);
            assert forall|x: Result<(Seq<(Seq<char>, Amf0Model)>, int), DecodeError>|
                prepend_entries(done, prepend_entry(entry, x)) == prepend_entries(
                    done + seq![entry],
                    x,
                ) by {
                if let Ok((rest, end)) = x {
                    assert(done + (seq![entry] + rest) =~= done + seq![entry] + rest);
                }
            }
        }
    }
}

} // verus!
