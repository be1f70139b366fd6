//! The IPFIX message format: one datagram is a 16-byte header followed by
//! sets, each with a 4-byte header of its own.
//!
//! The grammar is stated as specification functions on byte sequences
//! ([`packet`] and the functions it is built from); the executable parsers
//! are proved to compute exactly those.

use crate::protocol::{
    be16, be16_bytes, be32, be32_bytes, lemma_be_bytes, read_u16, read_u16_at, read_u32_at,
};
use vstd::prelude::*;

verus! {

/// The protocol version this parser accepts.
pub const VERSION: u16 = 10;

/// Length of the message header.
pub const HEADER_LEN: usize = 16;

/// Length of a set header, which the set's length field counts in.
pub const SET_HEADER_LEN: usize = 4;

/// Set id of a template set.
pub const TEMPLATE_SET_ID: u16 = 2;

/// Set id of an options template set.
pub const OPTIONS_SET_ID: u16 = 3;

/// The smallest set id that names a template; smaller ids other than 2 and 3
/// are reserved.
pub const MIN_DATA_SET_ID: u16 = 256;

/// Bit 15 of a field id on the wire: an enterprise number follows.
pub const ENTERPRISE_BIT: u16 = 0x8000;

/// The field length that stands for "variable": the length is encoded in
/// front of each value in the data record.
pub const VARIABLE_LENGTH: u16 = 0xffff;

/// Why a datagram was refused.
#[derive(Debug, Clone, Copy, PartialEq, Eq)]
pub enum ParseError {
    /// The input, a set or a template record ends before its declared or
    /// minimal length.
    Truncated,
    /// The version field is not 10.
    BadVersion,
    /// The input goes on after the length that the message header declares.
    TrailingBytes,
    /// A set id of 0, 1 or 4 to 255.
    ReservedSetId,
    /// A template set without a single template record.
    EmptyTemplateSet,
}

/// One field of a template: what it is and how wide it is on the wire.
#[derive(Debug, Clone, Copy, PartialEq, Eq)]
pub struct FieldSpecifier {
    /// Information element id, without the enterprise bit.
    pub id: u16,
    /// Width in bytes, or [`VARIABLE_LENGTH`].
    pub length: u16,
    pub enterprise_id: Option<u32>,
}

/// A template: the id that data sets refer to it by, and the fields of one
/// record in their order on the wire.
#[derive(Debug, Clone, PartialEq, Eq)]
pub struct TemplateRecord {
    pub id: u16,
    pub fields: Vec<FieldSpecifier>,
}

/// What a [`TemplateRecord`] holds.
pub struct TemplateRecordView {
    pub id: u16,
    pub fields: Seq<FieldSpecifier>,
}

impl View for TemplateRecord {
    type V = TemplateRecordView;

    open spec fn view(&self) -> TemplateRecordView {
        TemplateRecordView { id: self.id, fields: self.fields@ }
    }
}

/// The records of one data set, still undecoded: `id` names the template
/// that describes them.
#[derive(Debug, Clone, Copy, PartialEq, Eq)]
pub struct DataSet<'a> {
    pub id: u16,
    pub data: &'a [u8],
}

/// What a [`DataSet`] holds.
pub struct DataSetView {
    pub id: u16,
    pub data: Seq<u8>,
}

impl<'a> View for DataSet<'a> {
    type V = DataSetView;

    open spec fn view(&self) -> DataSetView {
        DataSetView { id: self.id, data: self.data@ }
    }
}

/// One set of a message.
#[derive(Debug, Clone, PartialEq, Eq)]
pub enum IpfixSet<'a> {
    DataSet(DataSet<'a>),
    TemplateSet(Vec<TemplateRecord>),
    /// An options template set; its content is not kept.
    OptionsSet,
}

/// What an [`IpfixSet`] holds.
pub enum SetView {
    DataSet(DataSetView),
    TemplateSet(Seq<TemplateRecordView>),
    OptionsSet,
}

impl<'a> View for IpfixSet<'a> {
    type V = SetView;

    open spec fn view(&self) -> SetView {
        match *self {
            IpfixSet::DataSet(d) => SetView::DataSet(d@),
            IpfixSet::TemplateSet(records) => SetView::TemplateSet(
                records@.map_values(|r: TemplateRecord| r@),
            ),
            IpfixSet::OptionsSet => SetView::OptionsSet,
        }
    }
}

/// One message: the fields of its header and its sets in wire order. Data
/// sets borrow their records from the datagram.
#[derive(Debug, Clone, PartialEq, Eq)]
pub struct Packet<'a> {
    pub version: u16,
    /// Seconds since the UNIX epoch, by the exporter's clock.
    pub export_time: u32,
    pub sequence_number: u32,
    pub observation_domain_id: u32,
    pub sets: Vec<IpfixSet<'a>>,
}

/// What a [`Packet`] holds.
pub struct PacketView {
    pub version: u16,
    pub export_time: u32,
    pub sequence_number: u32,
    pub observation_domain_id: u32,
    pub sets: Seq<SetView>,
}

impl<'a> View for Packet<'a> {
    type V = PacketView;

    open spec fn view(&self) -> PacketView {
        PacketView {
            version: self.version,
            export_time: self.export_time,
            sequence_number: self.sequence_number,
            observation_domain_id: self.observation_domain_id,
            sets: self.sets@.map_values(|s: IpfixSet<'a>| s@),
        }
    }
}

/// The field specifier at the front of `b` and the number of bytes it takes:
/// id and length, two bytes each; where bit 15 of the id is set, a four-byte
/// enterprise number follows and the bit is cleared from the id.
pub open spec fn field_specifier(b: Seq<u8>) -> Option<(FieldSpecifier, nat)> {
    if b.len() < 4 {
        None
    } else if be16(b, 0) < ENTERPRISE_BIT {
        Some((FieldSpecifier { id: be16(b, 0), length: be16(b, 2), enterprise_id: None }, 4))
    } else if b.len() < 8 {
        None
    } else {
        Some(
            (
                FieldSpecifier {
                    id: (be16(b, 0) - ENTERPRISE_BIT) as u16,
                    length: be16(b, 2),
                    enterprise_id: Some(be32(b, 4)),
                },
                8,
            ),
        )
    }
}

/// `count` field specifiers in a row at the front of `b`, and the number of
/// bytes they take.
pub open spec fn field_specifiers(b: Seq<u8>, count: nat) -> Option<(Seq<FieldSpecifier>, nat)>
    decreases count,
{
    if count == 0 {
        Some((Seq::empty(), 0))
    } else {
        match field_specifier(b) {
            None => None,
            Some((f, n)) => match field_specifiers(b.skip(n as int), (count - 1) as nat) {
                None => None,
                Some((fs, m)) => Some((seq![f] + fs, n + m)),
            },
        }
    }
}

/// The template record at the front of `b` and the number of bytes it
/// takes: template id, field count, then that many field specifiers.
pub open spec fn template_record(b: Seq<u8>) -> Option<(TemplateRecordView, nat)> {
    if b.len() < 4 {
        None
    } else {
        match field_specifiers(b.skip(4), be16(b, 2) as nat) {
            None => None,
            Some((fields, n)) => Some((TemplateRecordView { id: be16(b, 0), fields }, 4 + n)),
        }
    }
}

/// A set's specifiers never take more bytes than there are.
pub proof fn lemma_field_specifiers_fit(b: Seq<u8>, count: nat)
    ensures
        field_specifiers(b, count) matches Some((fs, n)) ==> n <= b.len() && fs.len() == count,
    decreases count,
{
    if count > 0 {
        if let Some((_, n)) = field_specifier(b) {
            lemma_field_specifiers_fit(b.skip(n as int), (count - 1) as nat);
        }
    }
}

/// The template records that fill `b`. Fewer than four bytes left over
/// cannot hold a record and are padding. `None` where a record is cut short.
pub open spec fn template_records(b: Seq<u8>) -> Option<Seq<TemplateRecordView>>
    decreases b.len(),
{
    if b.len() < 4 {
        Some(Seq::empty())
    } else {
        match template_record(b) {
            None => None,
            Some((r, n)) => {
                proof {
                    lemma_field_specifiers_fit(b.skip(4), be16(b, 2) as nat);
                }
                match template_records(b.skip(n as int)) {
                    None => None,
                    Some(rs) => Some(seq![r] + rs),
                }
            },
        }
    }
}

/// Whether the set header at the front of `b` is whole and declares a
/// length that covers itself and fits in `b`.
pub open spec fn set_header_ok(b: Seq<u8>) -> bool {
    b.len() >= SET_HEADER_LEN && SET_HEADER_LEN <= be16(b, 2) <= b.len()
}

/// The template set at the front of `b` and the number of bytes it takes.
/// The set id is not looked at.
pub open spec fn template_set(b: Seq<u8>) -> Result<(Seq<TemplateRecordView>, nat), ParseError> {
    if !set_header_ok(b) {
        Err(ParseError::Truncated)
    } else {
        match template_records(b.subrange(4, be16(b, 2) as int)) {
            None => Err(ParseError::Truncated),
            Some(records) => if records.len() == 0 {
                Err(ParseError::EmptyTemplateSet)
            } else {
                Ok((records, be16(b, 2) as nat))
            },
        }
    }
}

/// The set at the front of `b` and the number of bytes it takes.
pub open spec fn ipfix_set(b: Seq<u8>) -> Result<(SetView, nat), ParseError> {
    if !set_header_ok(b) {
        Err(ParseError::Truncated)
    } else if be16(b, 0) == TEMPLATE_SET_ID {
        match template_set(b) {
            Err(e) => Err(e),
            Ok((records, n)) => Ok((SetView::TemplateSet(records), n)),
        }
    } else if be16(b, 0) == OPTIONS_SET_ID {
        Ok((SetView::OptionsSet, be16(b, 2) as nat))
    } else if be16(b, 0) >= MIN_DATA_SET_ID {
        Ok(
            (
                SetView::DataSet(
                    DataSetView { id: be16(b, 0), data: b.subrange(4, be16(b, 2) as int) },
                ),
                be16(b, 2) as nat,
            ),
        )
    } else {
        Err(ParseError::ReservedSetId)
    }
}

/// The sets that fill `b` exactly, in wire order.
pub open spec fn ipfix_sets(b: Seq<u8>) -> Result<Seq<SetView>, ParseError>
    decreases b.len(),
{
    if b.len() == 0 {
        Ok(Seq::empty())
    } else {
        match ipfix_set(b) {
            Err(e) => Err(e),
            Ok((s, n)) => match ipfix_sets(b.skip(n as int)) {
                Err(e) => Err(e),
                Ok(ss) => Ok(seq![s] + ss),
            },
        }
    }
}

/// The message that `b` holds: version, length, export time, sequence
/// number and observation domain id, then sets up to the declared length,
/// which must be the length of `b`.
pub open spec fn packet(b: Seq<u8>) -> Result<PacketView, ParseError> {
    if b.len() < 2 {
        Err(ParseError::Truncated)
    } else if be16(b, 0) != VERSION {
        Err(ParseError::BadVersion)
    } else if b.len() < 16 || be16(b, 2) < 16 || be16(b, 2) > b.len() {
        Err(ParseError::Truncated)
    } else if be16(b, 2) < b.len() {
        Err(ParseError::TrailingBytes)
    } else {
        match ipfix_sets(b.skip(16)) {
            Err(e) => Err(e),
            Ok(ss) => Ok(
                PacketView {
                    version: be16(b, 0),
                    export_time: be32(b, 4),
                    sequence_number: be32(b, 8),
                    observation_domain_id: be32(b, 12),
                    sets: ss,
                },
            ),
        }
    }
}

/// The bytes that encode a field specifier: bit 15 of the id is set exactly
/// where an enterprise number follows.
pub open spec fn field_specifier_bytes(f: FieldSpecifier) -> Seq<u8> {
    match f.enterprise_id {
        None => be16_bytes(f.id) + be16_bytes(f.length),
        Some(e) => be16_bytes((f.id + ENTERPRISE_BIT) as u16) + be16_bytes(f.length) + be32_bytes(
            e,
        ),
    }
}

/// The bytes that encode field specifiers in a row.
pub open spec fn field_specifiers_bytes(fs: Seq<FieldSpecifier>) -> Seq<u8>
    decreases fs.len(),
{
    if fs.len() == 0 {
        Seq::empty()
    } else {
        field_specifier_bytes(fs[0]) + field_specifiers_bytes(fs.skip(1))
    }
}

/// The bytes that encode a template record.
pub open spec fn template_record_bytes(t: TemplateRecordView) -> Seq<u8> {
    be16_bytes(t.id) + be16_bytes(t.fields.len() as u16) + field_specifiers_bytes(t.fields)
}

/// The bytes that encode template records in a row, without padding.
pub open spec fn template_records_bytes(ts: Seq<TemplateRecordView>) -> Seq<u8>
    decreases ts.len(),
{
    if ts.len() == 0 {
        Seq::empty()
    } else {
        template_record_bytes(ts[0]) + template_records_bytes(ts.skip(1))
    }
}

/// Whether every field id is free of the enterprise bit.
pub open spec fn fields_masked(fs: Seq<FieldSpecifier>) -> bool {
    forall|k: int| 0 <= k < fs.len() ==> (#[trigger] fs[k]).id < ENTERPRISE_BIT
}

/// Whether every field id of every record is free of the enterprise bit.
pub open spec fn records_masked(ts: Seq<TemplateRecordView>) -> bool {
    forall|j: int| 0 <= j < ts.len() ==> fields_masked((#[trigger] ts[j]).fields)
}

/// Whether every field id of every template set is free of the enterprise bit.
pub open spec fn sets_masked(ss: Seq<SetView>) -> bool {
    forall|i: int|
        0 <= i < ss.len() ==> ((#[trigger] ss[i]) matches SetView::TemplateSet(ts)
            ==> records_masked(ts))
}

/// Parsed field specifiers are masked, and encoding them gives back the
/// bytes they were parsed from.
pub proof fn lemma_field_specifiers_round_trip(b: Seq<u8>, count: nat)
    ensures
        field_specifiers(b, count) matches Some((fs, n)) ==> n <= b.len() && fs.len() == count
            && fields_masked(fs) && field_specifiers_bytes(fs) == b.take(n as int),
    decreases count,
{
    if count > 0 {
        if let Some((fs, _)) = field_specifiers(b, count) {
            let rest = b.skip(field_specifier(b).unwrap().1 as int);
            lemma_field_specifiers_round_trip(rest, (count - 1) as nat);
            assert(fs.skip(1) =~= field_specifiers(rest, (count - 1) as nat).unwrap().0);
            lemma_be_bytes(b, 0);
            lemma_be_bytes(b, 2);
            lemma_be_bytes(b, 4);
        }
    }
}

/// Round trip of template records: parsing `b` and encoding the records
/// gives back `b` up to padding, which is shorter than four bytes; and every
/// parsed field id is masked.
pub proof fn lemma_template_records_round_trip(b: Seq<u8>)
    ensures
        template_records(b) matches Some(ts) ==> {
            let out = template_records_bytes(ts);
            &&& out.len() <= b.len() < out.len() + 4
            &&& out == b.take(out.len() as int)
            &&& records_masked(ts)
        },
    decreases b.len(),
{
    if b.len() >= 4 {
        if let Some(ts) = template_records(b) {
            let rest = b.skip(template_record(b).unwrap().1 as int);
            lemma_field_specifiers_round_trip(b.skip(4), be16(b, 2) as nat);
            lemma_template_records_round_trip(rest);
            assert(ts.skip(1) =~= template_records(rest).unwrap());
            lemma_be_bytes(b, 0);
            lemma_be_bytes(b, 2);
        }
    }
}

/// Round trip of a template set: the records of a well-formed set, encoded
/// again, are the bytes that follow the set header, up to padding shorter
/// than four bytes.
pub proof fn lemma_template_set_round_trip(b: Seq<u8>)
    requires
        template_set(b) is Ok,
    ensures
        ({
            let (ts, n) = template_set(b).unwrap();
            let out = template_records_bytes(ts);
            &&& 4 + out.len() <= n < 4 + out.len() + 4
            &&& n <= b.len()
            &&& out == b.subrange(4, (4 + out.len()) as int)
            &&& records_masked(ts)
        }),
{
    lemma_template_records_round_trip(b.subrange(4, be16(b, 2) as int));
}

/// Whatever parses as sets has its field ids masked.
pub proof fn lemma_sets_masked(b: Seq<u8>)
    ensures
        ipfix_sets(b) matches Ok(ss) ==> sets_masked(ss),
    decreases b.len(),
{
    if b.len() > 0 && ipfix_sets(b) is Ok {
        lemma_sets_masked(b.skip(ipfix_set(b).unwrap().1 as int));
        if be16(b, 0) == TEMPLATE_SET_ID {
            lemma_template_set_round_trip(b);
        }
    }
}

/// Parses one field specifier from the front of `input`; hands back what
/// follows it.
pub fn parse_field_specifier(input: &[u8]) -> (r: Option<(&[u8], FieldSpecifier)>)
    ensures
        match field_specifier(input@) {
            None => r is None,
            Some((f, n)) => r matches Some((rest, g)) && g == f && rest@ == input@.skip(n as int),
        },
{
    if input.len() < 4 {
        return None;
    }
    let wire = read_u16(input);
    let length = read_u16_at(input, 2);
    assert(wire & 0x8000 != 0 <==> wire >= 0x8000) by (bit_vector);
    assert(wire >= 0x8000 ==> wire & 0x7fff == wire - 0x8000) by (bit_vector);
    assert(wire < 0x8000 ==> wire & 0x7fff == wire) by (bit_vector);
    let id = wire & 0x7fff;
    if wire & ENTERPRISE_BIT != 0 {
        if input.len() < 8 {
            return None;
        }
        let enterprise = read_u32_at(input, 4);
        Some((&input[8..input.len()], FieldSpecifier { id, length, enterprise_id: Some(enterprise) }))
    } else {
        Some((&input[4..input.len()], FieldSpecifier { id, length, enterprise_id: None }))
    }
}

/// Parses `count` field specifiers from the front of `input`.
fn parse_field_specifiers(input: &[u8], count: u16) -> (r: Option<(&[u8], Vec<FieldSpecifier>)>)
    ensures
        match field_specifiers(input@, count as nat) {
            None => r is None,
            Some((fs, n)) => r matches Some((rest, v)) && v@ == fs && rest@ == input@.skip(
                n as int,
            ) && n <= input@.len(),
        },
{
    let mut fields: Vec<FieldSpecifier> = Vec::new();
    let mut rest = input;
    let mut i: u16 = 0;
    let ghost mut taken: nat = 0;
    while i < count
        invariant
            i <= count,
            taken <= input@.len(),
            rest@ == input@.skip(taken as int),
            field_specifiers(input@, count as nat) == (match field_specifiers(
                rest@,
                (count - i) as nat,
            ) {
                None => None::<(Seq<FieldSpecifier>, nat)>,
                Some((fs, n)) => Some((fields@ + fs, taken + n)),
            }),
        decreases count - i,
    {
        match parse_field_specifier(rest) {
            None => {
                return None;
            },
            Some((next, f)) => {
                proof {
                    taken = taken + field_specifier(rest@).unwrap().1;
                }
                fields.push(f);
                rest = next;
                i = i + 1;
            },
        }
    }
    Some((rest, fields))
}

/// Parses one template record from the front of `input`.
fn parse_template_record(input: &[u8]) -> (r: Option<(&[u8], TemplateRecord)>)
    ensures
        match template_record(input@) {
            None => r is None,
            Some((t, n)) => r matches Some((rest, u)) && u@ == t && rest@ == input@.skip(n as int)
                && 4 <= n <= input@.len(),
        },
{
    if input.len() < 4 {
        return None;
    }
    let id = read_u16(input);
    let count = read_u16_at(input, 2);
    let body = &input[4..input.len()];
    match parse_field_specifiers(body, count) {
        None => None,
        Some((rest, fields)) => {
            Some((rest, TemplateRecord { id, fields }))
        },
    }
}

/// Parses the template records that fill `input`.
fn parse_template_records(input: &[u8]) -> (r: Option<Vec<TemplateRecord>>)
    ensures
        match template_records(input@) {
            None => r is None,
            Some(ts) => r matches Some(v) && v@.map_values(|t: TemplateRecord| t@) == ts,
        },
{
    let mut records: Vec<TemplateRecord> = Vec::new();
    let mut rest = input;
    while rest.len() >= 4
        invariant
            template_records(input@) == (match template_records(rest@) {
                None => None::<Seq<TemplateRecordView>>,
                Some(ts) => Some(records@.map_values(|t: TemplateRecord| t@) + ts),
            }),
        decreases rest@.len(),
    {
        match parse_template_record(rest) {
            None => {
                return None;
            },
            Some((next, t)) => {
                records.push(t);
                rest = next;
            },
        }
    }
    Some(records)
}

/// Parses a template set, header included, from the front of `input`; hands
/// back what follows the set.
pub fn parse_template_set<'a>(input: &'a [u8]) -> (r: Result<(&'a [u8], IpfixSet<'a>), ParseError>)
    ensures
        match template_set(input@) {
            Err(e) => r matches Err(f) && f == e,
            Ok((ts, n)) => r matches Ok((rest, s)) && s@ == SetView::TemplateSet(ts) && rest@
                == input@.skip(n as int) && records_masked(ts),
        },
{
    proof {
        if template_set(input@) is Ok {
            lemma_template_set_round_trip(input@);
        }
    }
    if input.len() < SET_HEADER_LEN {
        return Err(ParseError::Truncated);
    }
    let length = read_u16_at(input, 2) as usize;
    if length < SET_HEADER_LEN || length > input.len() {
        return Err(ParseError::Truncated);
    }
    match parse_template_records(&input[SET_HEADER_LEN..length]) {
        None => Err(ParseError::Truncated),
        Some(records) => {
            if records.len() == 0 {
                Err(ParseError::EmptyTemplateSet)
            } else {
                Ok((&input[length..input.len()], IpfixSet::TemplateSet(records)))
            }
        },
    }
}

/// Parses one set, header included, from the front of `input`; hands back
/// what follows the set.
pub fn parse_set<'a>(input: &'a [u8]) -> (r: Result<(&'a [u8], IpfixSet<'a>), ParseError>)
    ensures
        match ipfix_set(input@) {
            Err(e) => r matches Err(f) && f == e,
            Ok((v, n)) => r matches Ok((rest, s)) && s@ == v && rest@ == input@.skip(n as int) && 4
                <= n <= input@.len(),
        },
{
    if input.len() < SET_HEADER_LEN {
        return Err(ParseError::Truncated);
    }
    let id = read_u16(input);
    let length = read_u16_at(input, 2) as usize;
    if length < SET_HEADER_LEN || length > input.len() {
        return Err(ParseError::Truncated);
    }
    if id == TEMPLATE_SET_ID {
        parse_template_set(input)
    } else if id == OPTIONS_SET_ID {
        Ok((&input[length..input.len()], IpfixSet::OptionsSet))
    } else if id >= MIN_DATA_SET_ID {
        Ok((&input[length..input.len()], IpfixSet::DataSet(DataSet { id, data: &input[SET_HEADER_LEN..length] })))
    } else {
        Err(ParseError::ReservedSetId)
    }
}

/// Parses the sets that fill `input`.
fn parse_sets<'a>(input: &'a [u8]) -> (r: Result<Vec<IpfixSet<'a>>, ParseError>)
    ensures
        match ipfix_sets(input@) {
            Err(e) => r matches Err(f) && f == e,
            Ok(ss) => r matches Ok(v) && v@.map_values(|s: IpfixSet<'a>| s@) == ss,
        },
{
    let mut sets: Vec<IpfixSet<'a>> = Vec::new();
    let mut rest = input;
    while rest.len() > 0
        invariant
            ipfix_sets(input@) == (match ipfix_sets(rest@) {
                Err(e) => Err::<Seq<SetView>, ParseError>(e),
                Ok(ss) => Ok(sets@.map_values(|s: IpfixSet<'a>| s@) + ss),
            }),
        decreases rest@.len(),
    {
        match parse_set(rest) {
            Err(e) => {
                return Err(e);
            },
            Ok((next, s)) => {
                proof {
                    let done = sets@.map_values(|s: IpfixSet<'a>| s@);
                    assert(sets@.push(s).map_values(|s: IpfixSet<'a>| s@) == done.push(s@));
                    match ipfix_sets(next@) {
                        Err(_) => {},
                        Ok(ss) => {
                            assert(done.push(s@) + ss == done + (seq![s@] + ss));
                        },
                    }
                }
                sets.push(s);
                rest = next;
            },
        }
    }
    Ok(sets)
}

/// Parses one datagram. The whole input must be one message: a message that
/// is malformed anywhere is refused as a whole.
pub fn parse<'a>(input: &'a [u8]) -> (r: Result<Packet<'a>, ParseError>)
    ensures
        match packet(input@) {
            Err(e) => r matches Err(f) && f == e,
            Ok(p) => r matches Ok(q) && q@ == p && sets_masked(p.sets),
        },
{
    proof {
        if input@.len() >= 16 {
            lemma_sets_masked(input@.skip(16));
        }
    }
    if input.len() < 2 {
        return Err(ParseError::Truncated);
    }
    let version = read_u16(input);
    if version != VERSION {
        return Err(ParseError::BadVersion);
    }
    if input.len() < HEADER_LEN {
        return Err(ParseError::Truncated);
    }
    let length = read_u16_at(input, 2) as usize;
    if length < HEADER_LEN || length > input.len() {
        return Err(ParseError::Truncated);
    }
    if length < input.len() {
        return Err(ParseError::TrailingBytes);
    }
    let export_time = read_u32_at(input, 4);
    let sequence_number = read_u32_at(input, 8);
    let observation_domain_id = read_u32_at(input, 12);
    let body = &input[HEADER_LEN..length];
    match parse_sets(body) {
        Err(e) => Err(e),
        Ok(sets) => Ok(Packet { version, export_time, sequence_number, observation_domain_id, sets }),
    }
}

impl FieldSpecifier {
    /// Where the value of this field lies in a data record that starts with
    /// it: the offsets of its first byte and of the byte after its last.
    /// A field of fixed length starts at once. A field of variable length
    /// starts behind its length: one byte, or the byte 255 and two bytes
    /// more. `None` where `data` ends before the value does.
    pub open spec fn extent(self, data: Seq<u8>) -> Option<(nat, nat)> {
        if self.length != VARIABLE_LENGTH {
            if data.len() >= self.length {
                Some((0, self.length as nat))
            } else {
                None
            }
        } else if data.len() < 1 {
            None
        } else if data[0] < 255 {
            if data.len() >= 1 + data[0] {
                Some((1, (1 + data[0]) as nat))
            } else {
                None
            }
        } else if data.len() < 3 {
            None
        } else if data.len() >= 3 + be16(data, 1) {
            Some((3, (3 + be16(data, 1)) as nat))
        } else {
            None
        }
    }

    /// Splits the value of this field off the front of a data record: what
    /// follows the value, and the value.
    pub fn read<'a>(&self, input: &'a [u8]) -> (r: Option<(&'a [u8], &'a [u8])>)
        ensures
            match self.extent(input@) {
                None => r is None,
                Some((start, end)) => r matches Some((rest, value)) && value@ == input@.subrange(
                    start as int,
                    end as int,
                ) && rest@ == input@.skip(end as int) && start <= end <= input@.len(),
            },
    {
        let n = input.len();
        if self.length != VARIABLE_LENGTH {
            let end = self.length as usize;
            if n < end {
                return None;
            }
            return Some((&input[end..n], &input[0..end]));
        }
        if n < 1 {
            return None;
        }
        let short = input[0];
        if short < 255 {
            if n - 1 < short as usize {
                return None;
            }
            let end = 1 + short as usize;
            return Some((&input[end..n], &input[1..end]));
        }
        if n < 3 {
            return None;
        }
        let long = read_u16_at(input, 1) as usize;
        if n - 3 < long {
            return None;
        }
        let end = 3 + long;
        Some((&input[end..n], &input[3..end]))
    }
}

/// The fields of a data record that are there in full, each with its bytes,
/// in template order up to the first field that is cut short.
pub open spec fn readable_fields(fields: Seq<FieldSpecifier>, data: Seq<u8>) -> Seq<
    (FieldSpecifier, Seq<u8>),
>
    decreases fields.len(),
{
    if fields.len() == 0 {
        Seq::empty()
    } else {
        match fields[0].extent(data) {
            None => Seq::empty(),
            Some((start, end)) => seq![(fields[0], data.subrange(start as int, end as int))]
                + readable_fields(fields.skip(1), data.skip(end as int)),
        }
    }
}

impl<'a> DataSet<'a> {
    /// Pairs the fields of a template with the bytes they take in this
    /// record, as far as the record goes.
    pub fn with_fields(&self, fields: &[FieldSpecifier]) -> (r: Vec<(FieldSpecifier, &'a [u8])>)
        ensures
            r@.map_values(|p: (FieldSpecifier, &'a [u8])| (p.0, p.1@)) == readable_fields(
                fields@,
                self.data@,
            ),
    {
        let mut pairs: Vec<(FieldSpecifier, &'a [u8])> = Vec::new();
        let mut rest = self.data;
        let mut i: usize = 0;
        assert(fields@.skip(0) == fields@);
        while i < fields.len()
            invariant
                i <= fields@.len(),
                readable_fields(fields@, self.data@) == pairs@.map_values(
                    |p: (FieldSpecifier, &'a [u8])| (p.0, p.1@),
                ) + readable_fields(fields@.skip(i as int), rest@),
            decreases fields@.len() - i,
        {
            let field = fields[i];
            assert(fields@.skip(i as int).skip(1) == fields@.skip(i + 1));
            match field.read(rest) {
                None => {
                    return pairs;
                },
                Some((next, value)) => {
                    pairs.push((field, value));
                    rest = next;
                    i = i + 1;
                },
            }
        }
        pairs
    }
}

} // verus!
