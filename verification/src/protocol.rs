//! Typed field values and the primitive decoders that produce them.
//!
//! Every multi-byte integer is big-endian (network order): the first byte is
//! the most significant.

use crate::addr::{ipv4_of, ipv6_of, mac6_of, mac8_of, Ipv4Addr, Ipv6Addr, MacAddr6, MacAddr8};
use vstd::prelude::*;
use vstd::utf8::{decode_utf8, valid_utf8};

verus! {

/// The unsigned integer whose big-endian encoding is the two bytes of `b` at `at`.
pub open spec fn be16(b: Seq<u8>, at: int) -> u16
    recommends
        0 <= at,
        at + 2 <= b.len(),
{
    (b[at] as int * 0x100 + b[at + 1] as int) as u16
}

/// The unsigned integer whose big-endian encoding is the four bytes of `b` at `at`.
pub open spec fn be32(b: Seq<u8>, at: int) -> u32
    recommends
        0 <= at,
        at + 4 <= b.len(),
{
    (be16(b, at) as int * 0x1_0000 + be16(b, at + 2) as int) as u32
}

/// The unsigned integer whose big-endian encoding is the eight bytes of `b` at `at`.
pub open spec fn be64(b: Seq<u8>, at: int) -> u64
    recommends
        0 <= at,
        at + 8 <= b.len(),
{
    (be32(b, at) as int * 0x1_0000_0000 + be32(b, at + 4) as int) as u64
}

/// The two bytes that encode `v` big-endian.
pub open spec fn be16_bytes(v: u16) -> Seq<u8> {
    seq![(v / 0x100) as u8, (v % 0x100) as u8]
}

/// The four bytes that encode `v` big-endian.
pub open spec fn be32_bytes(v: u32) -> Seq<u8> {
    be16_bytes((v / 0x1_0000) as u16) + be16_bytes((v % 0x1_0000) as u16)
}

/// Encoding undoes decoding: the bytes of a decoded integer are the bytes it
/// was decoded from.
pub proof fn lemma_be_bytes(b: Seq<u8>, at: int)
    requires
        0 <= at,
    ensures
        at + 2 <= b.len() ==> be16_bytes(be16(b, at)) == b.subrange(at, at + 2),
        at + 4 <= b.len() ==> be32_bytes(be32(b, at)) == b.subrange(at, at + 4),
{
}

/// Reads a big-endian `u16` from `input` at the offset `at`.
pub fn read_u16_at(input: &[u8], at: usize) -> (r: u16)
    requires
        at + 2 <= input.len(),
    ensures
        r == be16(input@, at as int),
{
    let hi: u16 = input[at] as u16;
    let lo: u16 = input[at + 1] as u16;
    hi * 0x100 + lo
}

/// Reads a big-endian `u32` from `input` at the offset `at`.
pub fn read_u32_at(input: &[u8], at: usize) -> (r: u32)
    requires
        at + 4 <= input.len(),
    ensures
        r == be32(input@, at as int),
{
    let hi: u32 = read_u16_at(input, at) as u32;
    let lo: u32 = read_u16_at(input, at + 2) as u32;
    hi * 0x1_0000 + lo
}

/// Reads a big-endian `u64` from `input` at the offset `at`.
pub fn read_u64_at(input: &[u8], at: usize) -> (r: u64)
    requires
        at + 8 <= input.len(),
    ensures
        r == be64(input@, at as int),
{
    let hi: u64 = read_u32_at(input, at) as u64;
    let lo: u64 = read_u32_at(input, at + 4) as u64;
    hi * 0x1_0000_0000 + lo
}

/// Reads a big-endian `u16` from the front of `input`.
pub fn read_u16(input: &[u8]) -> (r: u16)
    requires
        input@.len() >= 2,
    ensures
        r == be16(input@, 0),
{
    read_u16_at(input, 0)
}

/// Reads a big-endian `u32` from the front of `input`.
pub fn read_u32(input: &[u8]) -> (r: u32)
    requires
        input@.len() >= 4,
    ensures
        r == be32(input@, 0),
{
    read_u32_at(input, 0)
}

/// Reads a big-endian `u64` from the front of `input`.
pub fn read_u64(input: &[u8]) -> (r: u64)
    requires
        input@.len() >= 8,
    ensures
        r == be64(input@, 0),
{
    read_u64_at(input, 0)
}

/// Why a run of bytes could not be decoded as the requested kind of value.
#[derive(Debug, Clone, Copy, PartialEq, Eq)]
pub enum DecodeError {
    /// A number must be 1, 2, 4 or 8 bytes wide.
    BadNumberWidth,
    /// An address of the requested kind has another width.
    BadAddressWidth,
    /// The bytes are not valid UTF-8.
    BadUtf8,
}

/// One decoded field value. `Bytes` and `Unknown` borrow from the datagram.
#[derive(Debug, Clone, PartialEq, Eq)]
pub enum Value<'a> {
    U8(u8),
    U16(u16),
    U32(u32),
    U64(u64),
    Bytes(&'a [u8]),
    String(String),
    Ipv4Addr(Ipv4Addr),
    Ipv6Addr(Ipv6Addr),
    MacAddr6(MacAddr6),
    MacAddr8(MacAddr8),
    Unknown(&'a [u8]),
}

/// What a [`Value`] holds, with borrowed and owned data replaced by sequences.
pub enum ValueView {
    U8(u8),
    U16(u16),
    U32(u32),
    U64(u64),
    Bytes(Seq<u8>),
    String(Seq<char>),
    Ipv4Addr(Ipv4Addr),
    Ipv6Addr(Ipv6Addr),
    MacAddr6(MacAddr6),
    MacAddr8(MacAddr8),
    Unknown(Seq<u8>),
}

impl<'a> View for Value<'a> {
    type V = ValueView;

    open spec fn view(&self) -> ValueView {
        match *self {
            Value::U8(v) => ValueView::U8(v),
            Value::U16(v) => ValueView::U16(v),
            Value::U32(v) => ValueView::U32(v),
            Value::U64(v) => ValueView::U64(v),
            Value::Bytes(b) => ValueView::Bytes(b@),
            Value::String(s) => ValueView::String(s@),
            Value::Ipv4Addr(a) => ValueView::Ipv4Addr(a),
            Value::Ipv6Addr(a) => ValueView::Ipv6Addr(a),
            Value::MacAddr6(a) => ValueView::MacAddr6(a),
            Value::MacAddr8(a) => ValueView::MacAddr8(a),
            Value::Unknown(b) => ValueView::Unknown(b@),
        }
    }
}

impl ValueView {
    /// Width in bytes of an integer value; `None` for every other kind.
    pub open spec fn width(self) -> Option<nat> {
        match self {
            ValueView::U8(_) => Some(1),
            ValueView::U16(_) => Some(2),
            ValueView::U32(_) => Some(4),
            ValueView::U64(_) => Some(8),
            _ => None,
        }
    }

    /// The number an integer value stands for; `None` for every other kind.
    pub open spec fn number(self) -> Option<nat> {
        match self {
            ValueView::U8(v) => Some(v as nat),
            ValueView::U16(v) => Some(v as nat),
            ValueView::U32(v) => Some(v as nat),
            ValueView::U64(v) => Some(v as nat),
            _ => None,
        }
    }

    /// The value as a `u8`, if it is an integer of one byte.
    pub open spec fn to_u8(self) -> Option<u8> {
        match self {
            ValueView::U8(v) => Some(v),
            _ => None,
        }
    }

    /// The value as a `u16`, if it is an integer of at most two bytes.
    pub open spec fn to_u16(self) -> Option<u16> {
        match self {
            ValueView::U8(v) => Some(v as u16),
            ValueView::U16(v) => Some(v),
            _ => None,
        }
    }

    /// The value as a `u32`, if it is an integer of at most four bytes.
    pub open spec fn to_u32(self) -> Option<u32> {
        match self {
            ValueView::U8(v) => Some(v as u32),
            ValueView::U16(v) => Some(v as u32),
            ValueView::U32(v) => Some(v),
            _ => None,
        }
    }

    /// The value as a `u64`, if it is an integer.
    pub open spec fn to_u64(self) -> Option<u64> {
        match self {
            ValueView::U8(v) => Some(v as u64),
            ValueView::U16(v) => Some(v as u64),
            ValueView::U32(v) => Some(v as u64),
            ValueView::U64(v) => Some(v),
            _ => None,
        }
    }

    /// The bytes of a value that was not decoded.
    pub open spec fn to_bytes(self) -> Option<Seq<u8>> {
        match self {
            ValueView::Bytes(b) => Some(b),
            ValueView::Unknown(b) => Some(b),
            _ => None,
        }
    }
}

/// Widening: an integer of `w` bytes converts to every unsigned type of at
/// least `w` bytes, keeping its value, and to no narrower one. A value that
/// is not an integer converts to none.
pub proof fn lemma_widening(v: ValueView)
    ensures
        v.to_u8() is Some <==> v.width() is Some && v.width().unwrap() <= 1,
        v.to_u16() is Some <==> v.width() is Some && v.width().unwrap() <= 2,
        v.to_u32() is Some <==> v.width() is Some && v.width().unwrap() <= 4,
        v.to_u64() is Some <==> v.width() is Some && v.width().unwrap() <= 8,
        v.to_u8() matches Some(x) ==> v.number() == Some(x as nat),
        v.to_u16() matches Some(x) ==> v.number() == Some(x as nat),
        v.to_u32() matches Some(x) ==> v.number() == Some(x as nat),
        v.to_u64() matches Some(x) ==> v.number() == Some(x as nat),
{
}

/// Big-endian decoding, written out byte by byte: the first byte weighs most.
pub proof fn lemma_big_endian(b: Seq<u8>)
    ensures
        b.len() >= 2 ==> be16(b, 0) == b[0] * 0x100 + b[1],
        b.len() >= 4 ==> be32(b, 0) == b[0] * 0x100_0000 + b[1] * 0x1_0000 + b[2] * 0x100 + b[3],
        b.len() >= 8 ==> be64(b, 0) == b[0] * 0x100_0000_0000_0000 + b[1] * 0x1_0000_0000_0000
            + b[2] * 0x100_0000_0000 + b[3] * 0x1_0000_0000 + b[4] * 0x100_0000 + b[5] * 0x1_0000
            + b[6] * 0x100 + b[7],
{
}

/// A decoded field: its identifier and its value.
#[derive(Debug, Clone, PartialEq, Eq)]
pub struct Record<'a> {
    pub id: u16,
    pub value: Value<'a>,
}

/// What a [`Record`] holds.
pub struct RecordView {
    pub id: u16,
    pub value: ValueView,
}

impl<'a> View for Record<'a> {
    type V = RecordView;

    open spec fn view(&self) -> RecordView {
        RecordView { id: self.id, value: self.value@ }
    }
}

impl<'a> Record<'a> {
    pub fn new(id: u16, value: Value<'a>) -> (r: Self)
        ensures
            r.id == id,
            r.value == value,
    {
        Record { id, value }
    }
}

/// The decoded fields of one data record, under the template `id`.
#[derive(Debug, Clone, PartialEq, Eq)]
pub struct RecordSet<'a> {
    pub id: u16,
    pub records: Vec<Record<'a>>,
}

/// What a [`RecordSet`] holds.
pub struct RecordSetView {
    pub id: u16,
    pub records: Seq<RecordView>,
}

impl<'a> View for RecordSet<'a> {
    type V = RecordSetView;

    open spec fn view(&self) -> RecordSetView {
        RecordSetView { id: self.id, records: self.records@.map_values(|r: Record<'a>| r@) }
    }
}

impl<'a> RecordSet<'a> {
    pub fn new(id: u16, records: Vec<Record<'a>>) -> (r: Self)
        ensures
            r.id == id,
            r.records == records,
    {
        RecordSet { id, records }
    }
}

impl<'a> Value<'a> {
    /// The integer accessors widen and never narrow: a value converts to
    /// every unsigned type that is at least as wide as its own.
    pub fn as_u8(&self) -> (r: Option<u8>)
        ensures
            r == self@.to_u8(),
    {
        match self {
            Value::U8(val) => Some(*val),
            _ => None,
        }
    }

    pub fn as_u16(&self) -> (r: Option<u16>)
        ensures
            r == self@.to_u16(),
    {
        match self {
            Value::U8(val) => Some(*val as u16),
            Value::U16(val) => Some(*val),
            _ => None,
        }
    }

    pub fn as_u32(&self) -> (r: Option<u32>)
        ensures
            r == self@.to_u32(),
    {
        match self {
            Value::U8(val) => Some(*val as u32),
            Value::U16(val) => Some(*val as u32),
            Value::U32(val) => Some(*val),
            _ => None,
        }
    }

    pub fn as_u64(&self) -> (r: Option<u64>)
        ensures
            r == self@.to_u64(),
    {
        match self {
            Value::U8(val) => Some(*val as u64),
            Value::U16(val) => Some(*val as u64),
            Value::U32(val) => Some(*val as u64),
            Value::U64(val) => Some(*val),
            _ => None,
        }
    }

    /// The bytes of a `Bytes` or an `Unknown` value.
    pub fn as_bytes(&self) -> (r: Option<&'a [u8]>)
        ensures
            r is Some <==> self@.to_bytes() is Some,
            r matches Some(b) ==> Some(b@) == self@.to_bytes(),
    {
        match self {
            Value::Bytes(val) => Some(*val),
            Value::Unknown(val) => Some(*val),
            _ => None,
        }
    }

    /// The accessors of the other kinds give the value of exactly that kind.
    pub fn as_string(&self) -> (r: Option<&String>)
        ensures
            r matches Some(s) ==> self@ == ValueView::String(s@),
            r is None ==> !(self@ is String),
    {
        match self {
            Value::String(val) => Some(val),
            _ => None,
        }
    }

    pub fn as_ipv4(&self) -> (r: Option<&Ipv4Addr>)
        ensures
            r matches Some(a) ==> self@ == ValueView::Ipv4Addr(*a),
            r is None ==> !(self@ is Ipv4Addr),
    {
        match self {
            Value::Ipv4Addr(val) => Some(val),
            _ => None,
        }
    }

    pub fn as_ipv6(&self) -> (r: Option<&Ipv6Addr>)
        ensures
            r matches Some(a) ==> self@ == ValueView::Ipv6Addr(*a),
            r is None ==> !(self@ is Ipv6Addr),
    {
        match self {
            Value::Ipv6Addr(val) => Some(val),
            _ => None,
        }
    }

    pub fn as_mac6(&self) -> (r: Option<&MacAddr6>)
        ensures
            r matches Some(a) ==> self@ == ValueView::MacAddr6(*a),
            r is None ==> !(self@ is MacAddr6),
    {
        match self {
            Value::MacAddr6(val) => Some(val),
            _ => None,
        }
    }

    pub fn as_mac8(&self) -> (r: Option<&MacAddr8>)
        ensures
            r matches Some(a) ==> self@ == ValueView::MacAddr8(*a),
            r is None ==> !(self@ is MacAddr8),
    {
        match self {
            Value::MacAddr8(val) => Some(val),
            _ => None,
        }
    }
}

/// The number that `b` holds: `b` must be 1, 2, 4 or 8 bytes wide, and the
/// value has the unsigned type of that width.
pub open spec fn decode_number(b: Seq<u8>) -> Result<ValueView, DecodeError> {
    if b.len() == 1 {
        Ok(ValueView::U8(b[0]))
    } else if b.len() == 2 {
        Ok(ValueView::U16(be16(b, 0)))
    } else if b.len() == 4 {
        Ok(ValueView::U32(be32(b, 0)))
    } else if b.len() == 8 {
        Ok(ValueView::U64(be64(b, 0)))
    } else {
        Err(DecodeError::BadNumberWidth)
    }
}

/// The MAC address that `b` holds: six bytes make an EUI-48, any other width
/// is read as an EUI-64.
pub open spec fn decode_mac(b: Seq<u8>) -> ValueView {
    if b.len() == 6 {
        ValueView::MacAddr6(mac6_of(b))
    } else {
        ValueView::MacAddr8(mac8_of(b))
    }
}

/// The text that `b` holds, if `b` is valid UTF-8.
pub open spec fn decode_string(b: Seq<u8>) -> Result<ValueView, DecodeError> {
    if valid_utf8(b) {
        Ok(ValueView::String(decode_utf8(b)))
    } else {
        Err(DecodeError::BadUtf8)
    }
}

/// The view of a decoder's result.
pub open spec fn decoded(r: Result<Value<'_>, DecodeError>) -> Result<ValueView, DecodeError> {
    match r {
        Ok(v) => Ok(v@),
        Err(e) => Err(e),
    }
}

/// The readers of a fixed width read the front of `input`, which must be at
/// least that wide.
pub fn parse_u8(input: &[u8]) -> (v: Value<'_>)
    requires
        input@.len() >= 1,
    ensures
        v@ == ValueView::U8(input@[0]),
{
    Value::U8(input[0])
}

pub fn parse_u16(input: &[u8]) -> (v: Value<'_>)
    requires
        input@.len() >= 2,
    ensures
        v@ == ValueView::U16(be16(input@, 0)),
{
    Value::U16(read_u16(input))
}

pub fn parse_u32(input: &[u8]) -> (v: Value<'_>)
    requires
        input@.len() >= 4,
    ensures
        v@ == ValueView::U32(be32(input@, 0)),
{
    Value::U32(read_u32(input))
}

pub fn parse_u64(input: &[u8]) -> (v: Value<'_>)
    requires
        input@.len() >= 8,
    ensures
        v@ == ValueView::U64(be64(input@, 0)),
{
    Value::U64(read_u64(input))
}

/// Decodes an unsigned big-endian integer whose type follows from the width
/// of `input`.
pub fn parse_number(input: &[u8]) -> (r: Result<Value<'_>, DecodeError>)
    ensures
        decoded(r) == decode_number(input@),
{
    let n = input.len();
    if n == 8 {
        Ok(parse_u64(input))
    } else if n == 4 {
        Ok(parse_u32(input))
    } else if n == 2 {
        Ok(parse_u16(input))
    } else if n == 1 {
        Ok(parse_u8(input))
    } else {
        Err(DecodeError::BadNumberWidth)
    }
}

/// Hands the bytes on as they are, without a copy.
pub fn parse_bytes(input: &[u8]) -> (v: Value<'_>)
    ensures
        v@ == ValueView::Bytes(input@),
{
    Value::Bytes(input)
}

/// Reads four bytes in network order as an IPv4 address.
pub fn parse_ipv4(input: &[u8]) -> (v: Value<'_>)
    requires
        input@.len() == 4,
    ensures
        v@ == ValueView::Ipv4Addr(ipv4_of(input@)),
{
    Value::Ipv4Addr(Ipv4Addr::from_slice(input))
}

/// Reads sixteen bytes in network order as an IPv6 address.
pub fn parse_ipv6(input: &[u8]) -> (v: Value<'_>)
    requires
        input@.len() == 16,
    ensures
        v@ == ValueView::Ipv6Addr(ipv6_of(input@)),
{
    Value::Ipv6Addr(Ipv6Addr::from_slice(input))
}

pub fn parse_mac6(input: &[u8]) -> (v: Value<'_>)
    requires
        input@.len() >= 6,
    ensures
        v@ == ValueView::MacAddr6(mac6_of(input@)),
{
    Value::MacAddr6(MacAddr6::new(input[0], input[1], input[2], input[3], input[4], input[5]))
}

pub fn parse_mac8(input: &[u8]) -> (v: Value<'_>)
    requires
        input@.len() >= 8,
    ensures
        v@ == ValueView::MacAddr8(mac8_of(input@)),
{
    Value::MacAddr8(
        MacAddr8::new(
            input[0],
            input[1],
            input[2],
            input[3],
            input[4],
            input[5],
            input[6],
            input[7],
        ),
    )
}

/// Reads a MAC address of six or of eight bytes.
pub fn parse_mac(input: &[u8]) -> (v: Value<'_>)
    requires
        input@.len() == 6 || input@.len() == 8,
    ensures
        v@ == decode_mac(input@),
{
    if input.len() == 6 {
        parse_mac6(input)
    } else {
        parse_mac8(input)
    }
}

/// `core::str::from_utf8`: the string slice over `bytes` when they are valid
/// UTF-8, and nothing otherwise. The slice holds the characters that the
/// bytes encode.
#[verifier::external_body]
fn str_from_utf8(bytes: &[u8]) -> (r: Option<&str>)
    ensures
        r is Some <==> valid_utf8(bytes@),
        r matches Some(s) ==> s@ == decode_utf8(bytes@),
{
    match core::str::from_utf8(bytes) {
        Ok(s) => Some(s),
        Err(_) => None,
    }
}

/// Decodes UTF-8 text; bytes that are not valid UTF-8 are refused.
pub fn parse_string(input: &[u8]) -> (r: Result<Value<'_>, DecodeError>)
    ensures
        decoded(r) == decode_string(input@),
{
    match str_from_utf8(input) {
        Some(s) => Ok(Value::String(s.to_owned())),
        None => Err(DecodeError::BadUtf8),
    }
}

} // verus!
