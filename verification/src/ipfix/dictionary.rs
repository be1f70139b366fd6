//! The field dictionary: which information element has which name, and how
//! its bytes are decoded.

use crate::addr::{ipv4_of, ipv6_of};
use crate::protocol::{
    decode_mac, decode_number, decode_string, decoded, parse_bytes, parse_ipv4, parse_ipv6,
    parse_mac, parse_number, parse_string, DecodeError, Value, ValueView,
};
use std::collections::HashMap;
use vstd::prelude::*;

verus! {

broadcast use vstd::std_specs::hash::group_hash_axioms;

/// How the bytes of a field are decoded.
#[derive(Debug, Clone, Copy, PartialEq, Eq)]
pub enum FieldExtractor {
    /// An unsigned integer of 1, 2, 4 or 8 bytes.
    Number,
    /// An IPv4 address: 4 bytes.
    Ipv4,
    /// An IPv6 address: 16 bytes.
    Ipv6,
    /// A MAC address: 6 or 8 bytes.
    Mac,
    /// UTF-8 text.
    String,
    /// The bytes as they are.
    Bytes,
}

impl FieldExtractor {
    /// The value that `data` holds for this kind of field, or why it holds
    /// none.
    pub open spec fn decode(self, data: Seq<u8>) -> Result<ValueView, DecodeError> {
        match self {
            FieldExtractor::Number => decode_number(data),
            FieldExtractor::Ipv4 => if data.len() == 4 {
                Ok(ValueView::Ipv4Addr(ipv4_of(data)))
            } else {
                Err(DecodeError::BadAddressWidth)
            },
            FieldExtractor::Ipv6 => if data.len() == 16 {
                Ok(ValueView::Ipv6Addr(ipv6_of(data)))
            } else {
                Err(DecodeError::BadAddressWidth)
            },
            FieldExtractor::Mac => if data.len() == 6 || data.len() == 8 {
                Ok(decode_mac(data))
            } else {
                Err(DecodeError::BadAddressWidth)
            },
            FieldExtractor::String => decode_string(data),
            FieldExtractor::Bytes => Ok(ValueView::Bytes(data)),
        }
    }

    /// Decodes `data` as this kind of field.
    pub fn extract<'a>(&self, data: &'a [u8]) -> (r: Result<Value<'a>, DecodeError>)
        ensures
            decoded(r) == self.decode(data@),
    {
        match self {
            FieldExtractor::Number => parse_number(data),
            FieldExtractor::Ipv4 => if data.len() == 4 {
                Ok(parse_ipv4(data))
            } else {
                Err(DecodeError::BadAddressWidth)
            },
            FieldExtractor::Ipv6 => if data.len() == 16 {
                Ok(parse_ipv6(data))
            } else {
                Err(DecodeError::BadAddressWidth)
            },
            FieldExtractor::Mac => if data.len() == 6 || data.len() == 8 {
                Ok(parse_mac(data))
            } else {
                Err(DecodeError::BadAddressWidth)
            },
            FieldExtractor::String => parse_string(data),
            FieldExtractor::Bytes => Ok(parse_bytes(data)),
        }
    }
}

/// A dictionary entry: the name of a field and its decoder.
#[derive(Debug, Clone)]
pub struct NameFn(pub String, pub FieldExtractor);

/// What a dictionary says: for each field id it knows, the name and the
/// decoder.
pub type Dictionary = Map<u16, (Seq<char>, FieldExtractor)>;

/// The dictionary that a map of entries stands for.
pub open spec fn dictionary(parsers: Map<u16, NameFn>) -> Dictionary {
    parsers.map_values(|e: NameFn| (e.0@, e.1))
}

/// The dictionary `d` after the rows of `table` were entered in order; a
/// later row replaces an earlier one with the same id.
pub open spec fn with_entries(
    d: Dictionary,
    table: Seq<(u16, &'static str, FieldExtractor)>,
) -> Dictionary
    decreases table.len(),
{
    if table.len() == 0 {
        d
    } else {
        with_entries(d, table.drop_last()).insert(
            table.last().0,
            (table.last().1@, table.last().2),
        )
    }
}

/// The information elements of enterprise 0 that the stock dictionary
/// knows, by id.
pub const DEFAULT_FIELDS: [(u16, &'static str, FieldExtractor); 174] = [
    (1, "octetDeltaCount", FieldExtractor::Number),
    (2, "packetDeltaCount", FieldExtractor::Number),
    (4, "protocolIdentifier", FieldExtractor::Number),
    (5, "classOfServiceIPv4", FieldExtractor::Number),
    (6, "tcpControlBits", FieldExtractor::Number),
    (7, "sourceTransportPort", FieldExtractor::Number),
    (8, "sourceIPv4Address", FieldExtractor::Ipv4),
    (9, "sourceIPv4Mask", FieldExtractor::Number),
    (10, "ingressInterface", FieldExtractor::Number),
    (11, "destinationTransportPort", FieldExtractor::Number),
    (12, "destinationIPv4Address", FieldExtractor::Ipv4),
    (13, "destinationIPv4Mask", FieldExtractor::Number),
    (14, "egressInterface", FieldExtractor::Number),
    (15, "ipNextHopIPv4Address", FieldExtractor::Ipv4),
    (16, "bgpSourceAsNumber", FieldExtractor::Number),
    (17, "bgpDestinationAsNumber", FieldExtractor::Number),
    (18, "bgpNextHopIPv4Address", FieldExtractor::Number),
    (19, "postMCastPacketDeltaCount", FieldExtractor::Number),
    (20, "postMCastOctetDeltaCount", FieldExtractor::Number),
    (21, "flowEndSysUpTime", FieldExtractor::Number),
    (22, "flowStartSysUpTime", FieldExtractor::Number),
    (23, "postOctetDeltaCount", FieldExtractor::Number),
    (24, "postPacketDeltaCount", FieldExtractor::Number),
    (25, "minimumPacketLength", FieldExtractor::Number),
    (26, "maximumPacketLength", FieldExtractor::Number),
    (27, "sourceIPv6Address", FieldExtractor::Ipv6),
    (28, "destinationIPv6Address", FieldExtractor::Ipv6),
    (29, "sourceIPv6Mask", FieldExtractor::Number),
    (30, "destinationIPv6Mask", FieldExtractor::Number),
    (31, "flowLabelIPv6", FieldExtractor::Number),
    (32, "icmpTypeCodeIPv4", FieldExtractor::Number),
    (33, "igmpType", FieldExtractor::Number),
    (36, "flowActiveTimeOut", FieldExtractor::Number),
    (37, "flowInactiveTimeout", FieldExtractor::Number),
    (40, "exportedOctetTotalCount", FieldExtractor::Number),
    (41, "exportedMessageTotalCount", FieldExtractor::Number),
    (42, "exportedFlowTotalCount", FieldExtractor::Number),
    (44, "sourceIPv4Prefix", FieldExtractor::Number),
    (45, "destinationIPv4Prefix", FieldExtractor::Number),
    (46, "mplsTopLabelType", FieldExtractor::Number),
    (47, "mplsTopLabelIPv4Address", FieldExtractor::Ipv4),
    (52, "minimumTtl", FieldExtractor::Number),
    (53, "maximumTtl", FieldExtractor::Number),
    (54, "identificationIPv4", FieldExtractor::Number),
    (55, "postClassOfServiceIPv4", FieldExtractor::Number),
    (56, "sourceMacAddress", FieldExtractor::Mac),
    (57, "postDestinationMacAddress", FieldExtractor::Mac),
    (58, "vlanId", FieldExtractor::Number),
    (59, "postVlanId", FieldExtractor::Number),
    (60, "ipVersion", FieldExtractor::Number),
    (61, "flowDirection", FieldExtractor::Number),
    (62, "ipNextHopIPv6Address", FieldExtractor::Ipv6),
    (63, "bgpNextHopIPv6Address", FieldExtractor::Ipv6),
    (64, "ipv6ExtensionHeaders", FieldExtractor::Number),
    (80, "destinationMacAddress", FieldExtractor::Mac),
    (81, "postSourceMacAddress", FieldExtractor::Mac),
    (82, "interfaceName", FieldExtractor::String),
    (83, "interfaceDescription", FieldExtractor::String),
    (84, "samplerName", FieldExtractor::Number),
    (85, "octetTotalCount", FieldExtractor::Number),
    (86, "packetTotalCount", FieldExtractor::Number),
    (88, "fragmentOffsetIPv4", FieldExtractor::Number),
    (128, "bgpNextAdjacentAsNumber", FieldExtractor::Number),
    (129, "bgpPrevAdjacentAsNumber", FieldExtractor::Number),
    (130, "exporterIPv4Address", FieldExtractor::Ipv4),
    (131, "exporterIPv6Address", FieldExtractor::Ipv6),
    (132, "droppedOctetDeltaCount", FieldExtractor::Number),
    (133, "droppedPacketDeltaCount", FieldExtractor::Number),
    (134, "droppedOctetTotalCount", FieldExtractor::Number),
    (135, "droppedPacketTotalCount", FieldExtractor::Number),
    (136, "flowEndReason", FieldExtractor::Number),
    (137, "classOfServiceIPv6", FieldExtractor::Number),
    (138, "postClassOfServiceIPv6", FieldExtractor::Number),
    (139, "icmpTypeCodeIPv6", FieldExtractor::Number),
    (140, "mplsTopLabelIPv6Address", FieldExtractor::Ipv6),
    (141, "lineCardId", FieldExtractor::Number),
    (142, "portId", FieldExtractor::Number),
    (143, "meteringProcessId", FieldExtractor::Number),
    (144, "exportingProcessId", FieldExtractor::Number),
    (145, "templateId", FieldExtractor::Number),
    (146, "wlanChannelId", FieldExtractor::Number),
    (147, "wlanSsid", FieldExtractor::Number),
    (148, "flowId", FieldExtractor::Number),
    (149, "sourceId", FieldExtractor::Number),
    (150, "flowStartSeconds", FieldExtractor::Number),
    (151, "flowEndSeconds", FieldExtractor::Number),
    (152, "flowStartMilliSeconds", FieldExtractor::Number),
    (153, "flowEndMilliSeconds", FieldExtractor::Number),
    (154, "flowStartMicroSeconds", FieldExtractor::Number),
    (155, "flowEndMicroSeconds", FieldExtractor::Number),
    (156, "flowStartNanoSeconds", FieldExtractor::Number),
    (157, "flowEndNanoSeconds", FieldExtractor::Number),
    (158, "flowStartDeltaMicroSeconds", FieldExtractor::Number),
    (159, "flowEndDeltaMicroSeconds", FieldExtractor::Number),
    (160, "systemInitTimeMilliSeconds", FieldExtractor::Number),
    (161, "flowDurationMilliSeconds", FieldExtractor::Number),
    (162, "flowDurationMicroSeconds", FieldExtractor::Number),
    (163, "observedFlowTotalCount", FieldExtractor::Number),
    (164, "ignoredPacketTotalCount", FieldExtractor::Number),
    (165, "ignoredOctetTotalCount", FieldExtractor::Number),
    (166, "notSentFlowTotalCount", FieldExtractor::Number),
    (167, "notSentPacketTotalCount", FieldExtractor::Number),
    (168, "notSentOctetTotalCount", FieldExtractor::Number),
    (169, "destinationIPv6Prefix", FieldExtractor::Number),
    (170, "sourceIPv6Prefix", FieldExtractor::Number),
    (171, "postOctetTotalCount", FieldExtractor::Number),
    (172, "postPacketTotalCount", FieldExtractor::Number),
    (173, "flowKeyIndicator", FieldExtractor::Number),
    (174, "postMCastPacketTotalCount", FieldExtractor::Number),
    (175, "postMCastOctetTotalCount", FieldExtractor::Number),
    (176, "icmpTypeIPv4", FieldExtractor::Number),
    (177, "icmpCodeIPv4", FieldExtractor::Number),
    (178, "icmpTypeIPv6", FieldExtractor::Number),
    (179, "icmpCodeIPv6", FieldExtractor::Number),
    (180, "udpSourcePort", FieldExtractor::Number),
    (181, "udpDestinationPort", FieldExtractor::Number),
    (182, "tcpSourcePort", FieldExtractor::Number),
    (183, "tcpDestinationPort", FieldExtractor::Number),
    (184, "tcpSequenceNumber", FieldExtractor::Number),
    (185, "tcpAcknowledgementNumber", FieldExtractor::Number),
    (186, "tcpWindowSize", FieldExtractor::Number),
    (187, "tcpUrgentPointer", FieldExtractor::Number),
    (188, "tcpHeaderLength", FieldExtractor::Number),
    (189, "ipHeaderLength", FieldExtractor::Number),
    (190, "totalLengthIPv4", FieldExtractor::Number),
    (191, "payloadLengthIPv6", FieldExtractor::Number),
    (192, "ipTimeToLive", FieldExtractor::Number),
    (193, "nextHeaderIPv6", FieldExtractor::Number),
    (194, "ipClassOfService", FieldExtractor::Number),
    (195, "ipDiffServCodePoint", FieldExtractor::Number),
    (196, "ipPrecedence", FieldExtractor::Number),
    (197, "fragmentFlagsIPv4", FieldExtractor::Number),
    (198, "octetDeltaSumOfSquares", FieldExtractor::Number),
    (199, "octetTotalSumOfSquares", FieldExtractor::Number),
    (200, "mplsTopLabelTtl", FieldExtractor::Number),
    (201, "mplsLabelStackLength", FieldExtractor::Number),
    (202, "mplsLabelStackDepth", FieldExtractor::Number),
    (203, "mplsTopLabelExp", FieldExtractor::Number),
    (204, "ipPayloadLength", FieldExtractor::Number),
    (205, "udpMessageLength", FieldExtractor::Number),
    (206, "isMulticast", FieldExtractor::Number),
    (207, "internetHeaderLengthIPv4", FieldExtractor::Number),
    (208, "ipv4Options", FieldExtractor::Number),
    (209, "tcpOptions", FieldExtractor::Number),
    (210, "paddingOctets", FieldExtractor::Number),
    (213, "headerLengthIPv4", FieldExtractor::Number),
    (214, "mplsPayloadLength", FieldExtractor::Number),
    (218, "tcpSynTotalCount", FieldExtractor::Number),
    (219, "tcpFinTotalCount", FieldExtractor::Number),
    (220, "tcpRstTotalCount", FieldExtractor::Number),
    (221, "tcpPshTotalCount", FieldExtractor::Number),
    (222, "tcpAckTotalCount", FieldExtractor::Number),
    (223, "tcpUrgTotalCount", FieldExtractor::Number),
    (224, "ipTotalLength", FieldExtractor::Number),
    (225, "postNATSourceIPv4Address", FieldExtractor::Ipv4),
    (226, "postNATDestinationIPv4Address", FieldExtractor::Ipv4),
    (227, "postNAPTSourceTransportPort", FieldExtractor::Number),
    (228, "postNAPTDestinationTransportPort", FieldExtractor::Number),
    (233, "firewallEvent", FieldExtractor::Number),
    (240, "ethernetHeaderLength", FieldExtractor::Number),
    (243, "dot1qVlanId", FieldExtractor::Number),
    (244, "dot1qPriority", FieldExtractor::Number),
    (256, "ethernetType", FieldExtractor::Number),
    (352, "layer2OctetDeltaCount", FieldExtractor::Number),
    (353, "layer2OctetTotalCount", FieldExtractor::Number),
    (354, "ingressUnicastPacketTotalCount", FieldExtractor::Number),
    (355, "ingressMulticastPacketTotalCount", FieldExtractor::Number),
    (356, "ingressBroadcastPacketTotalCount", FieldExtractor::Number),
    (357, "egressUnicastPacketTotalCount", FieldExtractor::Number),
    (358, "egressBroadcastPacketTotalCount", FieldExtractor::Number),
    (359, "monitoringIntervalStartMilliSeconds", FieldExtractor::Number),
    (360, "monitoringIntervalEndMilliSeconds", FieldExtractor::Number),
    (368, "ingressInterfaceType", FieldExtractor::Number),
    (369, "egressInterfaceType", FieldExtractor::Number),
];

/// The stock dictionary.
pub open spec fn default_dictionary() -> Dictionary {
    with_entries(Map::empty(), DEFAULT_FIELDS@)
}

/// A dictionary built from a table has an entry for every row, and for no
/// other id than those it had before; the entry of an id is its last row.
pub proof fn lemma_with_entries_row(
    d: Dictionary,
    table: Seq<(u16, &'static str, FieldExtractor)>,
    i: int,
)
    requires
        0 <= i < table.len(),
        forall|j: int| i < j < table.len() ==> (#[trigger] table[j]).0 != table[i].0,
    ensures
        with_entries(d, table).contains_key(table[i].0),
        with_entries(d, table)[table[i].0] == (table[i].1@, table[i].2),
    decreases table.len(),
{
    if i < table.len() - 1 {
        let before = table.drop_last();
        assert(before[i] == table[i]);
        assert forall|j: int| i < j < before.len() implies (#[trigger] before[j]).0
            != before[i].0 by {
            assert(before[j] == table[j]);
        }
        lemma_with_entries_row(d, before, i);
        assert(table.last() == table[table.len() - 1]);
    }
}

/// An id that no row of the table carries is in the dictionary only if it
/// was there before, with the entry it had.
pub proof fn lemma_with_entries_other(
    d: Dictionary,
    table: Seq<(u16, &'static str, FieldExtractor)>,
    id: u16,
)
    requires
        forall|j: int| 0 <= j < table.len() ==> (#[trigger] table[j]).0 != id,
    ensures
        with_entries(d, table).contains_key(id) == d.contains_key(id),
        d.contains_key(id) ==> with_entries(d, table)[id] == d[id],
    decreases table.len(),
{
    if table.len() > 0 {
        let before = table.drop_last();
        assert forall|j: int| 0 <= j < before.len() implies (#[trigger] before[j]).0 != id by {
            assert(before[j] == table[j]);
        }
        lemma_with_entries_other(d, before, id);
        assert(table.last() == table[table.len() - 1]);
    }
}

/// The ids of the stock table rise from row to row, so no id has two rows.
pub proof fn lemma_default_fields_rise(i: int, j: int)
    requires
        0 <= i < j < DEFAULT_FIELDS@.len(),
    ensures
        DEFAULT_FIELDS@[i].0 < DEFAULT_FIELDS@[j].0,
    decreases j - i,
{
    if i + 1 < j {
        lemma_default_fields_rise(i, j - 1);
    }
    assert(DEFAULT_FIELDS@[j - 1].0 < DEFAULT_FIELDS@[j].0);
}

/// The stock dictionary says of the id of each row of the stock table what
/// the row says.
pub proof fn lemma_default_dictionary_row(i: int)
    requires
        0 <= i < DEFAULT_FIELDS@.len(),
    ensures
        default_dictionary().contains_key(DEFAULT_FIELDS@[i].0),
        default_dictionary()[DEFAULT_FIELDS@[i].0] == (DEFAULT_FIELDS@[i].1@, DEFAULT_FIELDS@[i].2),
{
    assert forall|j: int| i < j < DEFAULT_FIELDS@.len() implies (#[trigger] DEFAULT_FIELDS@[j]).0
        != DEFAULT_FIELDS@[i].0 by {
        lemma_default_fields_rise(i, j);
    }
    lemma_with_entries_row(Map::empty(), DEFAULT_FIELDS@, i);
}

/// The value that a dictionary gives the bytes of a field: what the field's
/// decoder makes of them; the bytes themselves, as unknown, where the
/// dictionary has no decoder for the field or the decoder refuses them.
pub open spec fn field_value(
    dict: Dictionary,
    id: u16,
    data: Seq<u8>,
) -> ValueView {
    if dict.contains_key(id) {
        match dict[id].1.decode(data) {
            Ok(v) => v,
            Err(_) => ValueView::Unknown(data),
        }
    } else {
        ValueView::Unknown(data)
    }
}

/// Decodes the bytes of the field `id` by the dictionary `parsers`.
pub fn decode_field<'a>(parsers: &HashMap<u16, NameFn>, id: u16, data: &'a [u8]) -> (v: Value<'a>)
    ensures
        v@ == field_value(dictionary(parsers@), id, data@),
{
    match parsers.get(&id) {
        Some(entry) => match entry.1.extract(data) {
            Ok(v) => v,
            Err(_) => Value::Unknown(data),
        },
        None => Value::Unknown(data),
    }
}

/// Enters the stock fields into `parsers`.
pub fn add_default_field_parsers(parsers: &mut HashMap<u16, NameFn>)
    ensures
        dictionary(final(parsers)@) == with_entries(dictionary(old(parsers)@), DEFAULT_FIELDS@),
{
    let mut i: usize = 0;
    while i < DEFAULT_FIELDS.len()
        invariant
            i <= DEFAULT_FIELDS@.len(),
            dictionary(parsers@) == with_entries(
                dictionary(old(parsers)@),
                DEFAULT_FIELDS@.take(i as int),
            ),
        decreases DEFAULT_FIELDS@.len() - i,
    {
        let (id, name, extractor) = DEFAULT_FIELDS[i];
        parsers.insert(id, NameFn(name.to_owned(), extractor));
        assert(DEFAULT_FIELDS@.take(i + 1).drop_last() == DEFAULT_FIELDS@.take(i as int));
        i = i + 1;
    }
    assert(DEFAULT_FIELDS@.take(i as int) == DEFAULT_FIELDS@);
}

/// The stock dictionary, as a map that can be added to.
pub fn get_default_field_parsers() -> (parsers: HashMap<u16, NameFn>)
    ensures
        dictionary(parsers@) == default_dictionary(),
{
    let mut parsers: HashMap<u16, NameFn> = HashMap::new();
    assert(dictionary(parsers@) =~= Map::empty());
    add_default_field_parsers(&mut parsers);
    parsers
}

} // verus!
