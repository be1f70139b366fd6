//! The canonical flow record: what one data record says about one flow,
//! whatever the exporter's template looked like.

use crate::addr::{IpAddr, MacAddr6};
use vstd::prelude::*;

verus! {

/// The export protocol a flow came in by.
#[derive(Debug, Clone, Copy, PartialEq, Eq)]
pub enum FlowType {
    IPFIX,
}

/// Which way a flow crossed the observation point.
#[derive(Debug, Clone, Copy, PartialEq, Eq)]
pub enum FlowDirection {
    Ingress,
    Egress,
    Unknown,
}

impl Default for FlowDirection {
    fn default() -> (r: Self)
        ensures
            r == FlowDirection::Unknown,
    {
        FlowDirection::Unknown
    }
}

/// A point in time: seconds since the UNIX epoch (UTC) and the nanoseconds
/// into that second.
#[derive(Debug, Clone, Copy, PartialEq, Eq)]
pub struct Timestamp {
    pub secs: i64,
    pub nanos: u32,
}

/// One flow. Every slot is filled: what the data record does not say has
/// its default.
#[derive(Debug, Clone, Copy, PartialEq, Eq)]
pub struct Fluss {
    pub flow_type: FlowType,
    /// When the record was projected.
    pub time_received: Timestamp,
    /// Milliseconds between the start and the end of the flow.
    pub flow_age: u64,
    pub flow_direction: FlowDirection,
    pub ingress_interface: u32,
    pub egress_interface: u32,
    pub bytes: u64,
    pub packets: u64,
    pub ethernet_type: u16,
    pub src_mac: MacAddr6,
    pub dst_mac: MacAddr6,
    pub src_addr: IpAddr,
    pub dst_addr: IpAddr,
    pub src_net: u8,
    pub dst_net: u8,
    pub src_port: u16,
    pub dst_port: u16,
    pub vlan_id: u16,
    pub post_vlan_id: u16,
    pub post_nat_src_addr: IpAddr,
    pub post_nat_dst_addr: IpAddr,
    pub post_napt_src_port: u16,
    pub post_napt_dst_port: u16,
    pub next_hop_addr: IpAddr,
}

} // verus!
