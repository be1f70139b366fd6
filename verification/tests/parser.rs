use fluss::ipfix::parser::{
    parse, parse_field_specifier, parse_set, parse_template_set, DataSet, FieldSpecifier,
    IpfixSet, Packet, ParseError, TemplateRecord,
};

fn be16(v: u16) -> [u8; 2] {
    [(v >> 8) as u8, v as u8]
}

fn be32(v: u32) -> [u8; 4] {
    [(v >> 24) as u8, (v >> 16) as u8, (v >> 8) as u8, v as u8]
}

/// A message header in front of `body`, with the length that fits.
fn message(body: &[u8]) -> Vec<u8> {
    let mut out = Vec::new();
    out.extend_from_slice(&be16(10));
    out.extend_from_slice(&be16(16 + body.len() as u16));
    out.extend_from_slice(&be32(0x6000_0000));
    out.extend_from_slice(&be32(1));
    out.extend_from_slice(&be32(0));
    out.extend_from_slice(body);
    out
}

/// A set header in front of `body`, with the length that fits.
fn set(id: u16, body: &[u8]) -> Vec<u8> {
    let mut out = Vec::new();
    out.extend_from_slice(&be16(id));
    out.extend_from_slice(&be16(4 + body.len() as u16));
    out.extend_from_slice(body);
    out
}

fn field(id: u16, length: u16) -> FieldSpecifier {
    FieldSpecifier { id, length, enterprise_id: None }
}

/// The bytes of template records, as an exporter writes them.
fn encode(records: &[TemplateRecord]) -> Vec<u8> {
    let mut out = Vec::new();
    for record in records {
        out.extend_from_slice(&be16(record.id));
        out.extend_from_slice(&be16(record.fields.len() as u16));
        for f in &record.fields {
            match f.enterprise_id {
                None => {
                    out.extend_from_slice(&be16(f.id));
                    out.extend_from_slice(&be16(f.length));
                }
                Some(e) => {
                    out.extend_from_slice(&be16(f.id | 0x8000));
                    out.extend_from_slice(&be16(f.length));
                    out.extend_from_slice(&be32(e));
                }
            }
        }
    }
    out
}

const TEMPLATE_256: [u8; 20] = [
    0x00, 0x02, 0x00, 0x14, // set id 2, length 20
    0x01, 0x00, 0x00, 0x03, // template 256, 3 fields
    0x00, 0x08, 0x00, 0x04, // IE 8, 4 bytes
    0x00, 0x0c, 0x00, 0x04, // IE 12, 4 bytes
    0x00, 0x07, 0x00, 0x02, // IE 7, 2 bytes
];

#[test]
fn template_set_and_options_set() {
    let mut datagram = vec![
        0x00, 0x0a, 0x00, 0x32, // version 10, length 50
        0x60, 0x00, 0x00, 0x00, 0x00, 0x00, 0x00, 0x01, 0x00, 0x00, 0x00, 0x00,
    ];
    datagram.extend_from_slice(&TEMPLATE_256);
    datagram.extend_from_slice(&[0x00, 0x03, 0x00, 0x0e]); // set id 3, length 14
    datagram.extend_from_slice(&[0xaa; 10]);
    let packet = parse(&datagram).unwrap();
    assert_eq!(
        packet,
        Packet {
            version: 10,
            export_time: 0x6000_0000,
            sequence_number: 1,
            observation_domain_id: 0,
            sets: vec![
                IpfixSet::TemplateSet(vec![TemplateRecord {
                    id: 256,
                    fields: vec![field(8, 4), field(12, 4), field(7, 2)],
                }]),
                IpfixSet::OptionsSet,
            ],
        }
    );
}

#[test]
fn header_fields_are_big_endian() {
    let datagram = [
        0x00, 0x0a, 0x00, 0x10, 0x01, 0x02, 0x03, 0x04, 0x05, 0x06, 0x07, 0x08, 0x09, 0x0a, 0x0b,
        0x0c,
    ];
    let packet = parse(&datagram).unwrap();
    assert_eq!(packet.version, 10);
    assert_eq!(packet.export_time, 0x0102_0304);
    assert_eq!(packet.sequence_number, 0x0506_0708);
    assert_eq!(packet.observation_domain_id, 0x090a_0b0c);
    assert!(packet.sets.is_empty());
}

#[test]
fn bad_version_is_refused() {
    assert_eq!(parse(&[0x00, 0x09]), Err(ParseError::BadVersion));
    let mut datagram = message(&TEMPLATE_256);
    datagram[1] = 9;
    assert_eq!(parse(&datagram), Err(ParseError::BadVersion));
}

#[test]
fn bad_version_comes_before_truncation() {
    assert_eq!(parse(&[0x00, 0x05, 0x00]), Err(ParseError::BadVersion));
}

#[test]
fn short_input_is_truncated() {
    assert_eq!(parse(&[]), Err(ParseError::Truncated));
    assert_eq!(parse(&[0x00]), Err(ParseError::Truncated));
    assert_eq!(parse(&[0x00, 0x0a]), Err(ParseError::Truncated));
    assert_eq!(parse(&message(&[])[..15]), Err(ParseError::Truncated));
}

#[test]
fn declared_length_beyond_the_input_is_truncated() {
    let mut datagram = message(&TEMPLATE_256);
    datagram.pop();
    assert_eq!(parse(&datagram), Err(ParseError::Truncated));
}

#[test]
fn declared_length_below_the_header_is_truncated() {
    let mut datagram = message(&[]);
    datagram[3] = 15;
    assert_eq!(parse(&datagram), Err(ParseError::Truncated));
}

#[test]
fn bytes_behind_the_declared_length_are_refused() {
    let mut datagram = message(&TEMPLATE_256);
    datagram.push(0);
    assert_eq!(parse(&datagram), Err(ParseError::TrailingBytes));
}

#[test]
fn reserved_set_ids_are_refused() {
    for id in [0u16, 1, 4, 5, 100, 255] {
        assert_eq!(parse(&message(&set(id, &[0; 4]))), Err(ParseError::ReservedSetId));
    }
}

#[test]
fn first_and_last_data_set_id() {
    for id in [256u16, 65535] {
        let datagram = message(&set(id, &[1, 2, 3]));
        let packet = parse(&datagram).unwrap();
        assert_eq!(packet.sets, vec![IpfixSet::DataSet(DataSet { id, data: &[1, 2, 3] })]);
    }
}

#[test]
fn empty_data_set_is_kept() {
    let datagram = message(&set(300, &[]));
    let packet = parse(&datagram).unwrap();
    assert_eq!(packet.sets, vec![IpfixSet::DataSet(DataSet { id: 300, data: &[] })]);
}

#[test]
fn set_cut_short_is_truncated() {
    // a set header of three bytes
    assert_eq!(parse(&message(&[0x01, 0x00, 0x00])), Err(ParseError::Truncated));
    // a set that declares less than its own header
    assert_eq!(parse(&message(&[0x01, 0x00, 0x00, 0x03])), Err(ParseError::Truncated));
    // a set that declares more than the message holds
    assert_eq!(parse(&message(&[0x01, 0x00, 0x00, 0x08, 1, 2])), Err(ParseError::Truncated));
}

#[test]
fn truncation_of_a_set_comes_before_its_id() {
    assert_eq!(parse(&message(&[0x00, 0x05, 0x00, 0x09, 1])), Err(ParseError::Truncated));
}

#[test]
fn empty_template_set_is_refused() {
    assert_eq!(parse(&message(&set(2, &[]))), Err(ParseError::EmptyTemplateSet));
    // padding alone makes no record either
    assert_eq!(parse(&message(&set(2, &[0, 0, 0]))), Err(ParseError::EmptyTemplateSet));
}

#[test]
fn template_record_cut_short_is_truncated() {
    // template 256 declares two fields and brings one
    let body = [0x01, 0x00, 0x00, 0x02, 0x00, 0x08, 0x00, 0x04];
    assert_eq!(parse(&message(&set(2, &body))), Err(ParseError::Truncated));
    // an enterprise field without its enterprise number
    let body = [0x01, 0x00, 0x00, 0x01, 0x80, 0x08, 0x00, 0x04];
    assert_eq!(parse(&message(&set(2, &body))), Err(ParseError::Truncated));
}

#[test]
fn an_error_in_a_later_set_refuses_the_whole_message() {
    let mut body = TEMPLATE_256.to_vec();
    body.extend_from_slice(&set(7, &[]));
    assert_eq!(parse(&message(&body)), Err(ParseError::ReservedSetId));
}

#[test]
fn sets_come_in_wire_order() {
    let mut body = set(256, &[1]);
    body.extend_from_slice(&TEMPLATE_256);
    body.extend_from_slice(&set(3, &[9, 9]));
    body.extend_from_slice(&set(257, &[2, 3]));
    let datagram = message(&body);
    let packet = parse(&datagram).unwrap();
    assert_eq!(packet.sets.len(), 4);
    assert_eq!(packet.sets[0], IpfixSet::DataSet(DataSet { id: 256, data: &[1] }));
    assert!(matches!(packet.sets[1], IpfixSet::TemplateSet(_)));
    assert_eq!(packet.sets[2], IpfixSet::OptionsSet);
    assert_eq!(packet.sets[3], IpfixSet::DataSet(DataSet { id: 257, data: &[2, 3] }));
}

#[test]
fn enterprise_bit_is_stripped() {
    let bytes = [0x80, 0x08, 0x00, 0x04, 0x00, 0x00, 0x30, 0x39, 0xee];
    let (rest, f) = parse_field_specifier(&bytes).unwrap();
    assert_eq!(f, FieldSpecifier { id: 8, length: 4, enterprise_id: Some(12345) });
    assert_eq!(rest, &[0xee]);
}

#[test]
fn enterprise_bit_alone_is_an_enterprise_field() {
    let bytes = [0x80, 0x00, 0x00, 0x02, 0x00, 0x00, 0x00, 0x01];
    let (rest, f) = parse_field_specifier(&bytes).unwrap();
    assert_eq!(f, FieldSpecifier { id: 0, length: 2, enterprise_id: Some(1) });
    assert!(rest.is_empty());
}

#[test]
fn plain_field_has_no_enterprise() {
    let bytes = [0x7f, 0xff, 0xff, 0xff, 0x01];
    let (rest, f) = parse_field_specifier(&bytes).unwrap();
    assert_eq!(f, FieldSpecifier { id: 0x7fff, length: 0xffff, enterprise_id: None });
    assert_eq!(rest, &[0x01]);
    assert_eq!(parse_field_specifier(&[0, 8, 0]), None);
}

#[test]
fn template_set_hands_back_what_follows() {
    let mut bytes = TEMPLATE_256.to_vec();
    bytes.extend_from_slice(&[0xde, 0xad]);
    let (rest, parsed) = parse_template_set(&bytes).unwrap();
    assert_eq!(rest, &[0xde, 0xad]);
    assert_eq!(
        parsed,
        IpfixSet::TemplateSet(vec![TemplateRecord {
            id: 256,
            fields: vec![field(8, 4), field(12, 4), field(7, 2)],
        }])
    );
}

#[test]
fn template_set_errors() {
    assert_eq!(parse_template_set(&[0, 2, 0]), Err(ParseError::Truncated));
    assert_eq!(parse_template_set(&[0, 2, 0, 3]), Err(ParseError::Truncated));
    assert_eq!(parse_template_set(&[0, 2, 0, 9, 1, 0, 0, 0]), Err(ParseError::Truncated));
    assert_eq!(parse_template_set(&[0, 2, 0, 4]), Err(ParseError::EmptyTemplateSet));
    assert_eq!(parse_template_set(&[0, 2, 0, 8, 1, 0, 0, 1]), Err(ParseError::Truncated));
}

#[test]
fn template_without_fields_is_a_record() {
    let (_, parsed) = parse_template_set(&[0, 2, 0, 8, 1, 0, 0, 0]).unwrap();
    assert_eq!(parsed, IpfixSet::TemplateSet(vec![TemplateRecord { id: 256, fields: vec![] }]));
}

#[test]
fn template_set_round_trip() {
    let records = vec![
        TemplateRecord {
            id: 256,
            fields: vec![
                field(8, 4),
                FieldSpecifier { id: 42, length: 0xffff, enterprise_id: Some(0xdead_beef) },
                field(7, 2),
            ],
        },
        TemplateRecord { id: 257, fields: vec![] },
        TemplateRecord { id: 65535, fields: vec![field(0x7fff, 8)] },
    ];
    let body = encode(&records);
    for padding in 0..4usize {
        let mut padded = body.clone();
        padded.extend(std::iter::repeat(0).take(padding));
        let bytes = set(2, &padded);
        let (rest, parsed) = parse_template_set(&bytes).unwrap();
        assert!(rest.is_empty());
        let parsed = match parsed {
            IpfixSet::TemplateSet(records) => records,
            other => panic!("not a template set: {:?}", other),
        };
        assert_eq!(parsed, records);
        let again = encode(&parsed);
        assert_eq!(again.len() + padding, padded.len());
        assert_eq!(&again[..], &bytes[4..4 + again.len()]);
    }
}

#[test]
fn several_templates_in_one_set() {
    let mut body = Vec::new();
    body.extend_from_slice(&[0x01, 0x00, 0x00, 0x01, 0x00, 0x01, 0x00, 0x08]);
    body.extend_from_slice(&[0x01, 0x01, 0x00, 0x01, 0x00, 0x02, 0x00, 0x04]);
    let datagram = message(&set(2, &body));
    let packet = parse(&datagram).unwrap();
    assert_eq!(
        packet.sets,
        vec![IpfixSet::TemplateSet(vec![
            TemplateRecord { id: 256, fields: vec![field(1, 8)] },
            TemplateRecord { id: 257, fields: vec![field(2, 4)] },
        ])]
    );
}

#[test]
fn set_by_set() {
    let bytes = [0x01, 0x00, 0x00, 0x06, 0xaa, 0xbb, 0x00, 0x03, 0x00, 0x04];
    let (rest, first) = parse_set(&bytes).unwrap();
    assert_eq!(first, IpfixSet::DataSet(DataSet { id: 256, data: &[0xaa, 0xbb] }));
    let (rest, second) = parse_set(rest).unwrap();
    assert_eq!(second, IpfixSet::OptionsSet);
    assert!(rest.is_empty());
    assert_eq!(parse_set(&[0x00, 0x04, 0x00, 0x04]), Err(ParseError::ReservedSetId));
}

#[test]
fn fixed_field_is_read_by_its_length() {
    let f = field(8, 4);
    assert_eq!(f.read(&[1, 2, 3, 4, 5]), Some((&[5u8][..], &[1u8, 2, 3, 4][..])));
    assert_eq!(f.read(&[1, 2, 3, 4]), Some((&[][..], &[1u8, 2, 3, 4][..])));
    assert_eq!(f.read(&[1, 2, 3]), None);
    assert_eq!(field(210, 0).read(&[]), Some((&[][..], &[][..])));
}

#[test]
fn variable_field_is_read_by_its_prefix() {
    let f = field(82, 0xffff);
    assert_eq!(f.read(b"\x05hello!"), Some((&b"!"[..], &b"hello"[..])));
    assert_eq!(f.read(&[0]), Some((&[][..], &[][..])));
    assert_eq!(f.read(&[]), None);
    assert_eq!(f.read(&[5, b'h', b'e']), None);
}

#[test]
fn long_variable_field_has_a_prefix_of_three_bytes() {
    let f = field(82, 0xffff);
    let mut data = vec![0xff, 0x01, 0x2c];
    data.extend(std::iter::repeat(b'x').take(300));
    data.push(b'!');
    let (rest, value) = f.read(&data).unwrap();
    assert_eq!(value.len(), 300);
    assert_eq!(rest, b"!");
    assert_eq!(f.read(&data[..302]), None);
    assert_eq!(f.read(&[0xff, 0x00]), None);
    // the long form may hold a short value
    assert_eq!(f.read(&[0xff, 0x00, 0x01, 7]), Some((&[][..], &[7u8][..])));
}

#[test]
fn fields_are_paired_with_their_bytes() {
    let set = DataSet { id: 256, data: &[10, 0, 0, 1, 0, 80, 9] };
    let fields = [field(8, 4), field(7, 2), field(4, 1), field(5, 1)];
    let pairs = set.with_fields(&fields);
    assert_eq!(
        pairs,
        vec![
            (fields[0], &[10u8, 0, 0, 1][..]),
            (fields[1], &[0u8, 80][..]),
            (fields[2], &[9u8][..]),
        ]
    );
}
