use fluss::addr::{IpAddr, Ipv4Addr, MacAddr6};
use fluss::fluss::{FlowDirection, FlowType, Fluss};
use fluss::ipfix::dictionary::{
    decode_field, get_default_field_parsers, FieldExtractor, DEFAULT_FIELDS,
};
use fluss::ipfix::parser::{parse, DataSet, FieldSpecifier, IpfixSet, Packet, TemplateRecord};
use fluss::ipfix::{DebugParser, FieldParser, Parser, Session};
use fluss::produce::IpfixParser;
use fluss::protocol::{DecodeError, Record, RecordSet, Value};

fn field(id: u16, length: u16) -> FieldSpecifier {
    FieldSpecifier { id, length, enterprise_id: None }
}

fn packet(sets: Vec<IpfixSet<'_>>) -> Packet<'_> {
    Packet { version: 10, export_time: 0, sequence_number: 0, observation_domain_id: 0, sets }
}

fn template(id: u16, fields: Vec<FieldSpecifier>) -> IpfixSet<'static> {
    IpfixSet::TemplateSet(vec![TemplateRecord { id, fields }])
}

fn data(id: u16, data: &[u8]) -> IpfixSet<'_> {
    IpfixSet::DataSet(DataSet { id, data })
}

/// A projector that hands back the bytes of each record, and declines the
/// records that start with a zero.
struct Raw;

impl<'a> Parser<'a> for Raw {
    type Output = (usize, &'a [u8]);

    fn parse(&self, fields: &[FieldSpecifier], set: &DataSet<'a>) -> Option<Self::Output> {
        if set.data.first() == Some(&0) {
            None
        } else {
            Some((fields.len(), set.data))
        }
    }
}

#[test]
fn template_alone_emits_nothing() {
    let datagram = [
        0x00, 0x0a, 0x00, 0x32, 0x60, 0x00, 0x00, 0x00, 0x00, 0x00, 0x00, 0x01, 0x00, 0x00, 0x00,
        0x00, 0x00, 0x02, 0x00, 0x14, 0x01, 0x00, 0x00, 0x03, 0x00, 0x08, 0x00, 0x04, 0x00, 0x0c,
        0x00, 0x04, 0x00, 0x07, 0x00, 0x02, 0x00, 0x03, 0x00, 0x0e, 0, 0, 0, 0, 0, 0, 0, 0, 0, 0,
    ];
    let parsed = parse(&datagram).unwrap();
    let mut session = Session::new(IpfixParser::new());
    assert!(session.parse(&parsed).is_empty());
    // the template is there: a data record is projected by it
    let flows = session.parse(&packet(vec![data(256, &[10, 0, 0, 1, 10, 0, 0, 2, 0, 80])]));
    assert_eq!(flows.len(), 1);
}

#[test]
fn data_set_against_a_known_template() {
    let mut session = Session::new(IpfixParser::new());
    session.parse(&packet(vec![template(256, vec![field(8, 4), field(12, 4), field(7, 2)])]));
    let payload = [0x0a, 0x00, 0x00, 0x01, 0x0a, 0x00, 0x00, 0x02, 0x00, 0x50];
    let flows = session.parse(&packet(vec![data(256, &payload)]));
    assert_eq!(flows.len(), 1);
    let localhost = IpAddr::V4(Ipv4Addr::new(127, 0, 0, 1));
    assert_eq!(
        flows[0],
        Fluss {
            flow_type: FlowType::IPFIX,
            time_received: flows[0].time_received,
            flow_age: 0,
            flow_direction: FlowDirection::Unknown,
            ingress_interface: 0,
            egress_interface: 0,
            bytes: 0,
            packets: 0,
            ethernet_type: 0,
            src_mac: MacAddr6 { octets: [0xff; 6] },
            dst_mac: MacAddr6 { octets: [0xff; 6] },
            src_addr: IpAddr::V4(Ipv4Addr::new(10, 0, 0, 1)),
            dst_addr: IpAddr::V4(Ipv4Addr::new(10, 0, 0, 2)),
            src_net: 0,
            dst_net: 0,
            src_port: 80,
            dst_port: 0,
            vlan_id: 0,
            post_vlan_id: 0,
            post_nat_src_addr: localhost,
            post_nat_dst_addr: localhost,
            post_napt_src_port: 0,
            post_napt_dst_port: 0,
            next_hop_addr: localhost,
        }
    );
}

#[test]
fn template_miss_emits_nothing_and_changes_nothing() {
    let mut session = Session::new(Raw);
    assert!(session.parse(&packet(vec![data(999, &[1, 2, 3, 4])])).is_empty());
    // still no template 999, and none was made up for it
    assert!(session.parse(&packet(vec![data(999, &[1, 2, 3, 4])])).is_empty());
    assert!(session.parse_data_set(&DataSet { id: 999, data: &[1] }).is_empty());

    // with another template in the cache the miss leaves that one alone
    session.parse(&packet(vec![template(256, vec![field(1, 2)])]));
    assert!(session.parse(&packet(vec![data(999, &[1, 2, 3, 4])])).is_empty());
    let out = session.parse(&packet(vec![data(256, &[1, 2, 3, 4])]));
    assert_eq!(out, vec![(1, &[1u8, 2][..]), (1, &[3u8, 4][..])]);
}

#[test]
fn template_replacement() {
    let mut session = Session::new(IpfixParser::new());
    session.parse(&packet(vec![template(256, vec![field(1, 8)])]));
    let flows = session.parse(&packet(vec![data(256, &[0, 0, 0, 0, 0, 0, 4, 0])]));
    assert_eq!(flows.len(), 1);
    assert_eq!(flows[0].bytes, 1024);

    session.parse(&packet(vec![template(256, vec![field(1, 4)])]));
    let flows = session.parse(&packet(vec![data(256, &[0, 0, 2, 0])]));
    assert_eq!(flows.len(), 1);
    assert_eq!(flows[0].bytes, 512);
}

#[test]
fn replacement_takes_all_fields_of_the_old_template_away() {
    let mut session = Session::new(Raw);
    session.parse(&packet(vec![template(256, vec![field(1, 1), field(2, 1), field(3, 1)])]));
    session.parse(&packet(vec![template(256, vec![field(9, 2)])]));
    let out = session.parse(&packet(vec![data(256, &[1, 2, 3, 4, 5, 6])]));
    assert_eq!(out, vec![(1, &[1u8, 2][..]), (1, &[3u8, 4][..]), (1, &[5u8, 6][..])]);
}

#[test]
fn later_record_of_one_set_wins() {
    let mut session = Session::new(Raw);
    session.add_records(&[
        TemplateRecord { id: 256, fields: vec![field(1, 1)] },
        TemplateRecord { id: 257, fields: vec![field(1, 3)] },
        TemplateRecord { id: 256, fields: vec![field(1, 2)] },
    ]);
    assert_eq!(session.parse_data_set(&DataSet { id: 256, data: &[1, 2] }).len(), 1);
    assert_eq!(session.parse_data_set(&DataSet { id: 257, data: &[1, 2, 3] }).len(), 1);
}

#[test]
fn templates_of_a_packet_serve_its_later_data_sets_only() {
    let mut session = Session::new(Raw);
    let out = session.parse(&packet(vec![
        data(256, &[1, 2]),
        template(256, vec![field(1, 2)]),
        data(256, &[3, 4]),
        IpfixSet::OptionsSet,
        template(256, vec![field(1, 1)]),
        data(256, &[5, 6]),
    ]));
    assert_eq!(out, vec![(1, &[3u8, 4][..]), (1, &[5u8][..]), (1, &[6u8][..])]);
}

#[test]
fn two_packets_are_as_one_with_the_sets_of_both() {
    let first = vec![template(256, vec![field(1, 2)]), data(256, &[1, 2, 3, 4]), data(257, &[9])];
    let second = vec![data(256, &[5, 6]), template(257, vec![field(1, 1)]), data(257, &[7, 8])];
    let mut both = first.clone();
    both.extend(second.clone());

    let mut one = Session::new(Raw);
    let mut out = one.parse(&packet(first));
    out.extend(one.parse(&packet(second)));

    let mut other = Session::new(Raw);
    assert_eq!(other.parse(&packet(both)), out);
    assert_eq!(out.len(), 5);

    // and both sessions go on alike
    let next = packet(vec![data(256, &[1, 1]), data(257, &[2])]);
    assert_eq!(one.parse(&next), other.parse(&next));
}

#[test]
fn installing_a_template_leaves_the_others_alone() {
    let mut session = Session::new(Raw);
    session.parse(&packet(vec![template(256, vec![field(1, 2)]), template(257, vec![field(1, 3)])]));
    session.parse(&packet(vec![template(257, vec![field(1, 1)]), template(258, vec![field(1, 4)])]));
    assert_eq!(session.parse_data_set(&DataSet { id: 256, data: &[1, 2, 3, 4] }).len(), 2);
    assert_eq!(session.parse_data_set(&DataSet { id: 257, data: &[1, 2, 3, 4] }).len(), 4);
    assert_eq!(session.parse_data_set(&DataSet { id: 258, data: &[1, 2, 3, 4] }).len(), 1);
}

#[test]
fn stride_splits_the_payload_and_drops_the_rest() {
    let mut session = Session::new(Raw);
    session.parse(&packet(vec![template(256, vec![field(1, 2), field(2, 1)])]));
    for (len, n) in [(0usize, 0usize), (1, 0), (2, 0), (3, 1), (4, 1), (5, 1), (6, 2), (11, 3)] {
        let payload: Vec<u8> = (1..=len as u8).collect();
        let out = session.parse_data_set(&DataSet { id: 256, data: &payload });
        assert_eq!(out.len(), n, "payload of {} bytes", len);
        for (i, record) in out.iter().enumerate() {
            assert_eq!(record.1, &payload[3 * i..3 * i + 3]);
            assert_eq!(record.0, 2);
        }
    }
}

#[test]
fn template_of_stride_zero_describes_no_record() {
    let mut session = Session::new(Raw);
    session.parse(&packet(vec![template(256, vec![]), template(257, vec![field(210, 0)])]));
    assert!(session.parse_data_set(&DataSet { id: 256, data: &[1, 2, 3] }).is_empty());
    assert!(session.parse_data_set(&DataSet { id: 257, data: &[1, 2, 3] }).is_empty());
    assert!(session.parse_data_set(&DataSet { id: 257, data: &[] }).is_empty());
}

#[test]
fn declined_records_are_left_out() {
    let mut session = Session::new(Raw);
    session.parse(&packet(vec![template(256, vec![field(1, 1)])]));
    let out = session.parse_data_set(&DataSet { id: 256, data: &[1, 0, 2, 0, 0, 3] });
    assert_eq!(out, vec![(1, &[1u8][..]), (1, &[2u8][..]), (1, &[3u8][..])]);
}

#[test]
fn variable_length_records_are_measured_one_by_one() {
    let mut session = Session::new(Raw);
    session.parse(&packet(vec![template(256, vec![field(1, 1), field(82, 0xffff)])]));
    let payload = [7, 2, b'a', b'b', 8, 0, 9, 3, b'x', b'y', b'z', 1, 5];
    let out = session.parse_data_set(&DataSet { id: 256, data: &payload });
    assert_eq!(
        out,
        vec![(2, &payload[0..4]), (2, &payload[4..6]), (2, &payload[6..11])]
    );
}

#[test]
fn variable_length_field() {
    let mut session = Session::new(FieldParser::builder().with_default_fields().build());
    session.parse(&packet(vec![template(256, vec![field(82, 0xffff)])]));
    let out = session.parse(&packet(vec![data(256, &[0x05, 0x68, 0x65, 0x6c, 0x6c, 0x6f])]));
    assert_eq!(
        out,
        vec![RecordSet {
            id: 256,
            records: vec![Record { id: 82, value: Value::String("hello".to_string()) }],
        }]
    );
}

#[test]
fn field_parser_decodes_by_its_dictionary() {
    let parser = FieldParser::builder().with_default_fields().build();
    let fields = [field(8, 4), field(7, 2), field(56, 6), field(1, 8), field(27, 16)];
    let mut payload = vec![192, 168, 0, 1, 0x01, 0xbb, 1, 2, 3, 4, 5, 6, 0, 0, 0, 0, 0, 0, 1, 0];
    payload.extend_from_slice(&[0xfe, 0x80, 0, 0, 0, 0, 0, 0, 0, 0, 0, 0, 0, 0, 0, 1]);
    let out = parser.parse(&fields, &DataSet { id: 300, data: &payload }).unwrap();
    assert_eq!(out.id, 300);
    assert_eq!(out.records.len(), 5);
    assert_eq!(out.records[0], Record::new(8, Value::Ipv4Addr(Ipv4Addr::new(192, 168, 0, 1))));
    assert_eq!(out.records[1], Record::new(7, Value::U16(443)));
    assert_eq!(out.records[2], Record::new(56, Value::MacAddr6(MacAddr6::new(1, 2, 3, 4, 5, 6))));
    assert_eq!(out.records[3], Record::new(1, Value::U64(256)));
    assert_eq!(out.records[4].value.as_ipv6().unwrap().octets[0], 0xfe);
}

#[test]
fn field_parser_keeps_unknown_fields_as_bytes() {
    let parser = FieldParser::builder().build();
    let out = parser.parse(&[field(8, 4), field(9999, 1)], &DataSet { id: 256, data: &[1, 2, 3, 4, 5] });
    assert_eq!(
        out,
        Some(RecordSet {
            id: 256,
            records: vec![
                Record { id: 8, value: Value::Unknown(&[1, 2, 3, 4]) },
                Record { id: 9999, value: Value::Unknown(&[5]) },
            ],
        })
    );
}

#[test]
fn field_parser_keeps_undecodable_fields_as_bytes() {
    let parser = FieldParser::builder().with_default_fields().build();
    // a number of three bytes, an address of two, text that is no UTF-8
    let fields = [field(1, 3), field(8, 2), field(82, 1)];
    let out = parser.parse(&fields, &DataSet { id: 256, data: &[1, 2, 3, 4, 5, 0xff] }).unwrap();
    assert_eq!(
        out.records,
        vec![
            Record { id: 1, value: Value::Unknown(&[1, 2, 3]) },
            Record { id: 8, value: Value::Unknown(&[4, 5]) },
            Record { id: 82, value: Value::Unknown(&[0xff]) },
        ]
    );
}

#[test]
fn field_parser_gives_a_short_field_what_is_left() {
    let parser = FieldParser::builder().with_default_fields().build();
    let fields = [field(7, 2), field(8, 4), field(11, 2), field(210, 0)];
    let out = parser.parse(&fields, &DataSet { id: 256, data: &[0, 80, 10, 0] }).unwrap();
    assert_eq!(
        out.records,
        vec![
            Record { id: 7, value: Value::U16(80) },
            Record { id: 8, value: Value::Unknown(&[10, 0]) },
            Record { id: 11, value: Value::Unknown(&[]) },
            Record { id: 210, value: Value::Unknown(&[]) },
        ]
    );
}

#[test]
fn field_parser_of_no_fields() {
    let parser = FieldParser::builder().build();
    let out = parser.parse(&[], &DataSet { id: 256, data: &[1] });
    assert_eq!(out, Some(RecordSet { id: 256, records: vec![] }));
}

#[test]
fn builder_entries_replace_earlier_ones() {
    let fields = [field(7, 2)];
    let set = DataSet { id: 256, data: &[0, 80] };

    let parser = FieldParser::builder().with_default_fields().with_field(7, "raw", FieldExtractor::Bytes).build();
    assert_eq!(parser.parse(&fields, &set).unwrap().records[0].value, Value::Bytes(&[0, 80]));

    let parser = FieldParser::builder().with_field(7, "raw", FieldExtractor::Bytes).with_default_fields().build();
    assert_eq!(parser.parse(&fields, &set).unwrap().records[0].value, Value::U16(80));

    let parser = FieldParser::builder()
        .with_field(7, "raw", FieldExtractor::Bytes)
        .with_field(7, "text", FieldExtractor::String)
        .build();
    assert_eq!(
        parser.parse(&fields, &set).unwrap().records[0].value,
        Value::String("\u{0}P".to_string())
    );
}

#[test]
fn extractors() {
    assert_eq!(FieldExtractor::Number.extract(&[1, 0]), Ok(Value::U16(256)));
    assert_eq!(FieldExtractor::Number.extract(&[1, 0, 0]), Err(DecodeError::BadNumberWidth));
    assert_eq!(
        FieldExtractor::Ipv4.extract(&[1, 2, 3, 4]),
        Ok(Value::Ipv4Addr(Ipv4Addr::new(1, 2, 3, 4)))
    );
    assert_eq!(FieldExtractor::Ipv4.extract(&[1, 2, 3]), Err(DecodeError::BadAddressWidth));
    assert_eq!(FieldExtractor::Ipv4.extract(&[1, 2, 3, 4, 5]), Err(DecodeError::BadAddressWidth));
    assert!(FieldExtractor::Ipv6.extract(&[0; 16]).is_ok());
    assert_eq!(FieldExtractor::Ipv6.extract(&[0; 4]), Err(DecodeError::BadAddressWidth));
    assert!(matches!(FieldExtractor::Mac.extract(&[0; 6]), Ok(Value::MacAddr6(_))));
    assert!(matches!(FieldExtractor::Mac.extract(&[0; 8]), Ok(Value::MacAddr8(_))));
    assert_eq!(FieldExtractor::Mac.extract(&[0; 7]), Err(DecodeError::BadAddressWidth));
    assert_eq!(FieldExtractor::String.extract(b"ok"), Ok(Value::String("ok".to_string())));
    assert_eq!(FieldExtractor::String.extract(&[0xc3]), Err(DecodeError::BadUtf8));
    assert_eq!(FieldExtractor::Bytes.extract(&[0xc3]), Ok(Value::Bytes(&[0xc3])));
}

#[test]
fn stock_dictionary() {
    let parsers = get_default_field_parsers();
    assert_eq!(parsers.len(), 174);
    assert_eq!(parsers.len(), DEFAULT_FIELDS.len());
    for (id, name, extractor) in DEFAULT_FIELDS.iter() {
        let entry = parsers.get(id).unwrap();
        assert_eq!(entry.0, *name);
        assert_eq!(entry.1, *extractor);
    }
    let entry = parsers.get(&8).unwrap();
    assert_eq!((entry.0.as_str(), entry.1), ("sourceIPv4Address", FieldExtractor::Ipv4));
    let entry = parsers.get(&27).unwrap();
    assert_eq!((entry.0.as_str(), entry.1), ("sourceIPv6Address", FieldExtractor::Ipv6));
    let entry = parsers.get(&56).unwrap();
    assert_eq!((entry.0.as_str(), entry.1), ("sourceMacAddress", FieldExtractor::Mac));
    let entry = parsers.get(&82).unwrap();
    assert_eq!((entry.0.as_str(), entry.1), ("interfaceName", FieldExtractor::String));
    let entry = parsers.get(&369).unwrap();
    assert_eq!((entry.0.as_str(), entry.1), ("egressInterfaceType", FieldExtractor::Number));
    assert!(parsers.get(&3).is_none());
    assert!(parsers.get(&70).is_none());
    assert!(parsers.get(&0).is_none());
}

#[test]
fn decoding_by_a_dictionary() {
    let parsers = get_default_field_parsers();
    assert_eq!(decode_field(&parsers, 7, &[0, 80]), Value::U16(80));
    assert_eq!(decode_field(&parsers, 7, &[0, 0, 80]), Value::Unknown(&[0, 0, 80]));
    assert_eq!(decode_field(&parsers, 3, &[1]), Value::Unknown(&[1]));
}

#[test]
fn debug_parser_describes_and_delegates() {
    let mut parser = DebugParser::new(Raw);
    let fields = [field(7, 2), field(9999, 1), field(8, 4), field(11, 2)];
    let set = DataSet { id: 256, data: &[1, 80, 7, 10, 0, 0, 1, 9] };
    assert_eq!(
        parser.describe(&fields, &set),
        vec![
            (7, Some("sourceTransportPort"), Value::U16(336)),
            (9999, None, Value::Unknown(&[7])),
            (8, Some("sourceIPv4Address"), Value::Ipv4Addr(Ipv4Addr::new(10, 0, 0, 1))),
        ]
    );
    assert_eq!(parser.parse(&fields, &set), Some((4, set.data)));
    assert_eq!(parser.parse(&fields, &DataSet { id: 256, data: &[0, 1] }), None);

    parser
        .set_parser(9999, "mine", FieldExtractor::Number)
        .set_parser(7, "port", FieldExtractor::Bytes);
    assert_eq!(
        parser.describe(&fields[..2], &set),
        vec![(7, Some("port"), Value::Bytes(&[1, 80])), (9999, Some("mine"), Value::U8(7))]
    );
}

#[test]
fn session_keeps_its_projector() {
    let parser = FieldParser::builder().with_field(1, "one", FieldExtractor::Number).build();
    let session = Session::new(parser);
    let out = session.get_parser().parse(&[field(1, 1)], &DataSet { id: 256, data: &[5] });
    assert_eq!(out.unwrap().records, vec![Record::new(1, Value::U8(5))]);
}

#[test]
fn end_to_end_from_bytes() {
    let datagram = [
        0x00, 0x0a, 0x00, 0x36, 0x60, 0x00, 0x00, 0x00, 0x00, 0x00, 0x00, 0x01, 0x00, 0x00, 0x00,
        0x00, // header, 54 bytes in all
        0x00, 0x02, 0x00, 0x10, 0x01, 0x00, 0x00, 0x02, 0x00, 0x08, 0x00, 0x04, 0x00, 0x07, 0x00,
        0x02, // template 256: IE 8 of 4 bytes, IE 7 of 2
        0x01, 0x00, 0x00, 0x16, // data set 256, 22 bytes
        10, 0, 0, 1, 0x00, 0x50, 10, 0, 0, 2, 0x01, 0xbb, 10, 0, 0, 3, 0x1f, 0x90,
    ];
    let parsed = parse(&datagram).unwrap();
    let mut session = Session::new(IpfixParser::new());
    let flows = session.parse(&parsed);
    let seen: Vec<([u8; 4], u16)> = flows
        .iter()
        .map(|f| match f.src_addr {
            IpAddr::V4(a) => (a.octets, f.src_port),
            IpAddr::V6(_) => panic!("an IPv6 source"),
        })
        .collect();
    assert_eq!(seen, vec![([10, 0, 0, 1], 80), ([10, 0, 0, 2], 443), ([10, 0, 0, 3], 8080)]);
}
