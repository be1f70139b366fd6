//! The flow projector: reads the fields it knows out of a data record and
//! fills the slots of a [`Fluss`] with them.

use crate::addr::{ipv4_of, mac6_of, IpAddr, Ipv4Addr, MacAddr6};
use crate::fluss::{FlowDirection, FlowType, Fluss, Timestamp};
use crate::ipfix::parser::{DataSet, DataSetView, FieldSpecifier};
use crate::ipfix::session::Parser;
use crate::protocol::{decode_number, parse_ipv4, parse_mac, parse_number};
use vstd::prelude::*;

verus! {

// The information elements that have a slot in the flow, by id.
pub const IPFIX_BYTES_IN: u16 = 1;

pub const IPFIX_PACKETS_IN: u16 = 2;

pub const IPFIX_SRC_PORT: u16 = 7;

pub const IPFIX_IPV4_SRC_ADDR: u16 = 8;

pub const IPFIX_IPV4_SRC_MASK: u16 = 9;

pub const IPFIX_DST_PORT: u16 = 11;

pub const IPFIX_IPV4_DST_ADDR: u16 = 12;

pub const IPFIX_IPV4_DST_MASK: u16 = 13;

pub const IPFIX_IPV4_NEXT_HOP: u16 = 15;

pub const IPFIX_FLOW_END_SYSUPTIME: u16 = 21;

pub const IPFIX_FLOW_START_SYSUPTIME: u16 = 22;

pub const IPFIX_BYTES_OUT: u16 = 23;

pub const IPFIX_PACKETS_OUT: u16 = 24;

pub const IPFIX_MAC_SRC: u16 = 56;

pub const IPFIX_VLAN_ID: u16 = 58;

pub const IPFIX_POST_VLAN_ID: u16 = 59;

pub const IPFIX_MAC_DST: u16 = 81;

pub const IPFIX_POST_NAT_IPV4_SRC_ADDR: u16 = 225;

pub const IPFIX_POST_NAT_IPV4_DST_ADDR: u16 = 226;

pub const IPFIX_POST_NAPT_SRC_PORT: u16 = 227;

pub const IPFIX_POST_NAPT_DST_PORT: u16 = 228;

pub const IPFIX_ETHERNET_TYPE: u16 = 256;

/// The number that `data` holds, if it fits in 64 bits.
pub open spec fn number_u64(data: Seq<u8>) -> Option<u64> {
    match decode_number(data) {
        Ok(v) => v.to_u64(),
        Err(_) => None,
    }
}

/// The number that `data` holds, if it is at most two bytes wide.
pub open spec fn number_u16(data: Seq<u8>) -> Option<u16> {
    match decode_number(data) {
        Ok(v) => v.to_u16(),
        Err(_) => None,
    }
}

/// The number that `data` holds, if it is one byte wide.
pub open spec fn number_u8(data: Seq<u8>) -> Option<u8> {
    match decode_number(data) {
        Ok(v) => v.to_u8(),
        Err(_) => None,
    }
}

/// The IPv4 address that `data` holds, if it is four bytes wide.
pub open spec fn address(data: Seq<u8>) -> Option<IpAddr> {
    if data.len() == 4 {
        Some(IpAddr::V4(ipv4_of(data)))
    } else {
        None
    }
}

/// The EUI-48 address that `data` holds, if it is six bytes wide.
pub open spec fn mac(data: Seq<u8>) -> Option<MacAddr6> {
    if data.len() == 6 {
        Some(mac6_of(data))
    } else {
        None
    }
}

/// A flow in the making: the slots filled so far, and the system uptime in
/// milliseconds at which the flow started and ended.
#[derive(Debug, Clone, Copy, PartialEq, Eq)]
pub struct Draft {
    pub flow: Fluss,
    pub start: u64,
    pub end: u64,
}

impl Draft {
    /// The draft that every projection starts from: numbers are zero, IP
    /// addresses `127.0.0.1`, MAC addresses broadcast.
    pub open spec fn blank(time_received: Timestamp) -> Draft {
        Draft {
            flow: Fluss {
                flow_type: FlowType::IPFIX,
                time_received,
                flow_age: 0,
                flow_direction: FlowDirection::Unknown,
                ingress_interface: 0,
                egress_interface: 0,
                bytes: 0,
                packets: 0,
                ethernet_type: 0,
                src_mac: MacAddr6::broadcast(),
                dst_mac: MacAddr6::broadcast(),
                src_addr: IpAddr::V4(Ipv4Addr::localhost()),
                dst_addr: IpAddr::V4(Ipv4Addr::localhost()),
                src_net: 0,
                dst_net: 0,
                src_port: 0,
                dst_port: 0,
                vlan_id: 0,
                post_vlan_id: 0,
                post_nat_src_addr: IpAddr::V4(Ipv4Addr::localhost()),
                post_nat_dst_addr: IpAddr::V4(Ipv4Addr::localhost()),
                post_napt_src_port: 0,
                post_napt_dst_port: 0,
                next_hop_addr: IpAddr::V4(Ipv4Addr::localhost()),
            },
            start: 0,
            end: 0,
        }
    }

    /// The draft after the field `id` was read from `data`: the field's slot
    /// holds the value, the other slots are as before. A field that the
    /// projector does not know changes nothing. `None` where `data` cannot
    /// be decoded for the slot.
    pub open spec fn with(self, id: u16, data: Seq<u8>) -> Option<Draft> {
        if id == IPFIX_BYTES_IN || id == IPFIX_BYTES_OUT {
            match number_u64(data) {
                Some(v) => Some(Draft { flow: Fluss { bytes: v, ..self.flow }, ..self }),
                None => None,
            }
        } else if id == IPFIX_PACKETS_IN || id == IPFIX_PACKETS_OUT {
            match number_u64(data) {
                Some(v) => Some(Draft { flow: Fluss { packets: v, ..self.flow }, ..self }),
                None => None,
            }
        } else if id == IPFIX_FLOW_END_SYSUPTIME {
            match number_u64(data) {
                Some(v) => Some(Draft { end: v, ..self }),
                None => None,
            }
        } else if id == IPFIX_FLOW_START_SYSUPTIME {
            match number_u64(data) {
                Some(v) => Some(Draft { start: v, ..self }),
                None => None,
            }
        } else if id == IPFIX_ETHERNET_TYPE {
            match number_u16(data) {
                Some(v) => Some(Draft { flow: Fluss { ethernet_type: v, ..self.flow }, ..self }),
                None => None,
            }
        } else if id == IPFIX_SRC_PORT {
            match number_u16(data) {
                Some(v) => Some(Draft { flow: Fluss { src_port: v, ..self.flow }, ..self }),
                None => None,
            }
        } else if id == IPFIX_DST_PORT {
            match number_u16(data) {
                Some(v) => Some(Draft { flow: Fluss { dst_port: v, ..self.flow }, ..self }),
                None => None,
            }
        } else if id == IPFIX_VLAN_ID {
            match number_u16(data) {
                Some(v) => Some(Draft { flow: Fluss { vlan_id: v, ..self.flow }, ..self }),
                None => None,
            }
        } else if id == IPFIX_POST_VLAN_ID {
            match number_u16(data) {
                Some(v) => Some(Draft { flow: Fluss { post_vlan_id: v, ..self.flow }, ..self }),
                None => None,
            }
        } else if id == IPFIX_POST_NAPT_SRC_PORT {
            match number_u16(data) {
                Some(v) => Some(
                    Draft { flow: Fluss { post_napt_src_port: v, ..self.flow }, ..self },
                ),
                None => None,
            }
        } else if id == IPFIX_POST_NAPT_DST_PORT {
            match number_u16(data) {
                Some(v) => Some(
                    Draft { flow: Fluss { post_napt_dst_port: v, ..self.flow }, ..self },
                ),
                None => None,
            }
        } else if id == IPFIX_IPV4_SRC_MASK {
            match number_u8(data) {
                Some(v) => Some(Draft { flow: Fluss { src_net: v, ..self.flow }, ..self }),
                None => None,
            }
        } else if id == IPFIX_IPV4_DST_MASK {
            match number_u8(data) {
                Some(v) => Some(Draft { flow: Fluss { dst_net: v, ..self.flow }, ..self }),
                None => None,
            }
        } else if id == IPFIX_MAC_SRC {
            match mac(data) {
                Some(v) => Some(Draft { flow: Fluss { src_mac: v, ..self.flow }, ..self }),
                None => None,
            }
        } else if id == IPFIX_MAC_DST {
            match mac(data) {
                Some(v) => Some(Draft { flow: Fluss { dst_mac: v, ..self.flow }, ..self }),
                None => None,
            }
        } else if id == IPFIX_IPV4_SRC_ADDR {
            match address(data) {
                Some(v) => Some(Draft { flow: Fluss { src_addr: v, ..self.flow }, ..self }),
                None => None,
            }
        } else if id == IPFIX_IPV4_DST_ADDR {
            match address(data) {
                Some(v) => Some(Draft { flow: Fluss { dst_addr: v, ..self.flow }, ..self }),
                None => None,
            }
        } else if id == IPFIX_POST_NAT_IPV4_SRC_ADDR {
            match address(data) {
                Some(v) => Some(
                    Draft { flow: Fluss { post_nat_src_addr: v, ..self.flow }, ..self },
                ),
                None => None,
            }
        } else if id == IPFIX_POST_NAT_IPV4_DST_ADDR {
            match address(data) {
                Some(v) => Some(
                    Draft { flow: Fluss { post_nat_dst_addr: v, ..self.flow }, ..self },
                ),
                None => None,
            }
        } else if id == IPFIX_IPV4_NEXT_HOP {
            match address(data) {
                Some(v) => Some(Draft { flow: Fluss { next_hop_addr: v, ..self.flow }, ..self }),
                None => None,
            }
        } else {
            Some(self)
        }
    }

    /// The finished flow: its age is the time from start to end, and zero
    /// where the end lies before the start.
    pub open spec fn finish(self) -> Fluss {
        Fluss {
            flow_age: if self.end >= self.start {
                (self.end - self.start) as u64
            } else {
                0
            },
            ..self.flow
        }
    }
}

/// The draft after the fields of a template were read from a data record,
/// one after the other, each taking as many bytes as its length says.
/// Reading stops, and the draft stays as it is, at the first field for
/// which too few bytes are left or whose bytes cannot be decoded.
pub open spec fn project_fields(draft: Draft, fields: Seq<FieldSpecifier>, data: Seq<u8>) -> Draft
    decreases fields.len(),
{
    if fields.len() == 0 || data.len() < fields[0].length {
        draft
    } else {
        match draft.with(fields[0].id, data.take(fields[0].length as int)) {
            None => draft,
            Some(next) => project_fields(next, fields.skip(1), data.skip(fields[0].length as int)),
        }
    }
}

/// The flow that a data record describes under a template.
pub open spec fn flow_of(fields: Seq<FieldSpecifier>, data: Seq<u8>, time_received: Timestamp) -> Fluss {
    project_fields(Draft::blank(time_received), fields, data).finish()
}

/// No field touches the time of reception.
pub proof fn lemma_time_received(draft: Draft, fields: Seq<FieldSpecifier>, data: Seq<u8>)
    ensures
        project_fields(draft, fields, data).flow.time_received == draft.flow.time_received,
    decreases fields.len(),
{
    if !(fields.len() == 0 || data.len() < fields[0].length) {
        match draft.with(fields[0].id, data.take(fields[0].length as int)) {
            None => {},
            Some(next) => {
                lemma_time_received(next, fields.skip(1), data.skip(fields[0].length as int));
            },
        }
    }
}

fn read_number_u64(data: &[u8]) -> (r: Option<u64>)
    ensures
        r == number_u64(data@),
{
    match parse_number(data) {
        Ok(v) => v.as_u64(),
        Err(_) => None,
    }
}

fn read_number_u16(data: &[u8]) -> (r: Option<u16>)
    ensures
        r == number_u16(data@),
{
    match parse_number(data) {
        Ok(v) => v.as_u16(),
        Err(_) => None,
    }
}

fn read_number_u8(data: &[u8]) -> (r: Option<u8>)
    ensures
        r == number_u8(data@),
{
    match parse_number(data) {
        Ok(v) => v.as_u8(),
        Err(_) => None,
    }
}

fn read_address(data: &[u8]) -> (r: Option<IpAddr>)
    ensures
        r == address(data@),
{
    if data.len() != 4 {
        return None;
    }
    match parse_ipv4(data).as_ipv4() {
        Some(a) => Some(IpAddr::V4(*a)),
        None => None,
    }
}

fn read_mac(data: &[u8]) -> (r: Option<MacAddr6>)
    ensures
        r == mac(data@),
{
    if data.len() != 6 {
        return None;
    }
    match parse_mac(data).as_mac6() {
        Some(a) => Some(*a),
        None => None,
    }
}

impl Draft {
    /// The draft that every projection starts from.
    pub fn new(time_received: Timestamp) -> (r: Draft)
        ensures
            r == Draft::blank(time_received),
    {
        Draft {
            flow: Fluss {
                flow_type: FlowType::IPFIX,
                time_received,
                flow_age: 0,
                flow_direction: FlowDirection::Unknown,
                ingress_interface: 0,
                egress_interface: 0,
                bytes: 0,
                packets: 0,
                ethernet_type: 0,
                src_mac: MacAddr6::broadcast(),
                dst_mac: MacAddr6::broadcast(),
                src_addr: IpAddr::V4(Ipv4Addr::localhost()),
                dst_addr: IpAddr::V4(Ipv4Addr::localhost()),
                src_net: 0,
                dst_net: 0,
                src_port: 0,
                dst_port: 0,
                vlan_id: 0,
                post_vlan_id: 0,
                post_nat_src_addr: IpAddr::V4(Ipv4Addr::localhost()),
                post_nat_dst_addr: IpAddr::V4(Ipv4Addr::localhost()),
                post_napt_src_port: 0,
                post_napt_dst_port: 0,
                next_hop_addr: IpAddr::V4(Ipv4Addr::localhost()),
            },
            start: 0,
            end: 0,
        }
    }

    /// Reads the field `id` from `data` into its slot.
    pub fn set(self, id: u16, data: &[u8]) -> (r: Option<Draft>)
        ensures
            r == self.with(id, data@),
    {
        let mut draft = self;
        match id {
            IPFIX_BYTES_IN | IPFIX_BYTES_OUT => draft.flow.bytes = read_number_u64(data)?,
            IPFIX_PACKETS_IN | IPFIX_PACKETS_OUT => draft.flow.packets = read_number_u64(data)?,
            IPFIX_FLOW_END_SYSUPTIME => draft.end = read_number_u64(data)?,
            IPFIX_FLOW_START_SYSUPTIME => draft.start = read_number_u64(data)?,
            IPFIX_ETHERNET_TYPE => draft.flow.ethernet_type = read_number_u16(data)?,
            IPFIX_SRC_PORT => draft.flow.src_port = read_number_u16(data)?,
            IPFIX_DST_PORT => draft.flow.dst_port = read_number_u16(data)?,
            IPFIX_VLAN_ID => draft.flow.vlan_id = read_number_u16(data)?,
            IPFIX_POST_VLAN_ID => draft.flow.post_vlan_id = read_number_u16(data)?,
            IPFIX_POST_NAPT_SRC_PORT => draft.flow.post_napt_src_port = read_number_u16(data)?,
            IPFIX_POST_NAPT_DST_PORT => draft.flow.post_napt_dst_port = read_number_u16(data)?,
            IPFIX_IPV4_SRC_MASK => draft.flow.src_net = read_number_u8(data)?,
            IPFIX_IPV4_DST_MASK => draft.flow.dst_net = read_number_u8(data)?,
            IPFIX_MAC_SRC => draft.flow.src_mac = read_mac(data)?,
            IPFIX_MAC_DST => draft.flow.dst_mac = read_mac(data)?,
            IPFIX_IPV4_SRC_ADDR => draft.flow.src_addr = read_address(data)?,
            IPFIX_IPV4_DST_ADDR => draft.flow.dst_addr = read_address(data)?,
            IPFIX_POST_NAT_IPV4_SRC_ADDR => draft.flow.post_nat_src_addr = read_address(data)?,
            IPFIX_POST_NAT_IPV4_DST_ADDR => draft.flow.post_nat_dst_addr = read_address(data)?,
            IPFIX_IPV4_NEXT_HOP => draft.flow.next_hop_addr = read_address(data)?,
            _ => (),
        }
        Some(draft)
    }

    /// Closes the draft.
    pub fn into_flow(self) -> (r: Fluss)
        ensures
            r == self.finish(),
    {
        let mut flow = self.flow;
        flow.flow_age = self.end.saturating_sub(self.start);
        flow
    }
}

/// Reads the system clock through `chrono::Utc::now`: the seconds since the
/// epoch and the nanoseconds into the second, as `DateTime::timestamp` and
/// `DateTime::timestamp_subsec_nanos` give them. Nothing is claimed of
/// them. On a machine whose clock stands before 1970 `Utc::now` panics.
#[verifier::external_body]
fn utc_now() -> Timestamp {
    let now = chrono::Utc::now();
    Timestamp { secs: now.timestamp(), nanos: now.timestamp_subsec_nanos() }
}

/// The projector that makes canonical flows.
#[derive(Debug, Clone, Copy)]
pub struct IpfixParser {}

impl IpfixParser {
    /// The projector; it has no state.
    pub fn new() -> (r: Self)
        ensures
            r == (IpfixParser {  }),
    {
        IpfixParser {  }
    }

    /// Projects one data record at the time `time_received`.
    pub fn project(
        &self,
        fields: &[FieldSpecifier],
        set: &DataSet<'_>,
        time_received: Timestamp,
    ) -> (flow: Fluss)
        ensures
            flow == flow_of(fields@, set.data@, time_received),
    {
        let mut draft = Draft::new(time_received);
        let mut input = set.data;
        let mut i: usize = 0;
        assert(fields@.skip(0) == fields@);
        while i < fields.len()
            invariant
                i <= fields@.len(),
                project_fields(Draft::blank(time_received), fields@, set.data@) == project_fields(
                    draft,
                    fields@.skip(i as int),
                    input@,
                ),
            ensures
                project_fields(Draft::blank(time_received), fields@, set.data@) == draft,
            decreases fields@.len() - i,
        {
            let field = fields[i];
            let length = field.length as usize;
            assert(fields@.skip(i as int).skip(1) == fields@.skip(i + 1));
            if input.len() < length {
                break ;
            }
            let data = &input[0..length];
            let rest = &input[length..input.len()];
            match draft.set(field.id, data) {
                None => {
                    break ;
                },
                Some(next) => {
                    draft = next;
                },
            }
            input = rest;
            i = i + 1;
        }
        draft.into_flow()
    }
}

impl Default for IpfixParser {
    fn default() -> (r: Self)
        ensures
            r == (IpfixParser {  }),
    {
        IpfixParser::new()
    }
}

impl<'a> Parser<'a> for IpfixParser {
    type Output = Fluss;

    /// A flow answers a record when it is the flow of that record at the
    /// time that it says it was received; the projector never declines.
    open spec fn projects(
        &self,
        fields: Seq<FieldSpecifier>,
        set: DataSetView,
        out: Option<Fluss>,
    ) -> bool {
        out matches Some(flow) && flow == flow_of(fields, set.data, flow.time_received)
    }

    fn parse(&self, fields: &[FieldSpecifier], set: &DataSet<'a>) -> (out: Option<Fluss>) {
        let now = utc_now();
        let flow = self.project(fields, set, now);
        proof {
            lemma_time_received(Draft::blank(now), fields@, set.data@);
        }
        Some(flow)
    }
}

} // verus!
