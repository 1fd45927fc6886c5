//! Flow identity: the transport protocol, the packet event record produced by
//! decoding, and the five-field flow key that partitions traffic into flows.
use vstd::prelude::*;

verus! {

/// The closed set of transport protocols that the aggregation core accepts.
/// Packets outside this set are dropped during decoding and never reach it.
#[derive(Clone, Copy, PartialEq, Eq, Structural, Debug)]
pub enum Protocol {
    Udp,
    Tcp,
}

/// One observed packet: its flow identity, its size on the wire, and the
/// capture instant in seconds since the Unix epoch. Created once per captured
/// packet by decoding, consumed exactly once by the aggregator.
#[derive(Debug)]
pub struct ParsedPacket {
    /// Capture time, in whole seconds since the Unix epoch.
    pub timestamp: i64,
    /// Textual form of the source address: the address bytes written in
    /// decimal, joined by dots.
    pub source_ip: String,
    /// Textual form of the destination address, in the same form.
    pub destination_ip: String,
    /// Transport source port; absent for protocols that carry none.
    pub source_port: Option<u16>,
    /// Transport destination port; absent for protocols that carry none.
    pub destination_port: Option<u16>,
    pub protocol: Protocol,
    /// Length of the captured frame in bytes.
    pub size: u64,
}

/// The mathematical image of a `ParsedPacket`: strings become `Seq<char>`.
pub ghost struct PacketView {
    pub timestamp: i64,
    pub source_ip: Seq<char>,
    pub destination_ip: Seq<char>,
    pub source_port: Option<u16>,
    pub destination_port: Option<u16>,
    pub protocol: Protocol,
    pub size: u64,
}

impl View for ParsedPacket {
    type V = PacketView;

    open spec fn view(&self) -> PacketView {
        PacketView {
            timestamp: self.timestamp,
            source_ip: self.source_ip@,
            destination_ip: self.destination_ip@,
            source_port: self.source_port,
            destination_port: self.destination_port,
            protocol: self.protocol,
            size: self.size,
        }
    }
}

/// The five-field key that identifies a flow. Equality is structural over all
/// five fields: every distinct five-field combination is a distinct flow.
pub struct FlowKey {
    pub source_ip: String,
    pub destination_ip: String,
    pub source_port: Option<u16>,
    pub destination_port: Option<u16>,
    pub protocol: Protocol,
}

/// The mathematical image of a `FlowKey`.
pub ghost struct FlowKeyView {
    pub source_ip: Seq<char>,
    pub destination_ip: Seq<char>,
    pub source_port: Option<u16>,
    pub destination_port: Option<u16>,
    pub protocol: Protocol,
}

impl View for FlowKey {
    type V = FlowKeyView;

    open spec fn view(&self) -> FlowKeyView {
        FlowKeyView {
            source_ip: self.source_ip@,
            destination_ip: self.destination_ip@,
            source_port: self.source_port,
            destination_port: self.destination_port,
            protocol: self.protocol,
        }
    }
}

/// The flow a packet belongs to: its five identity fields, nothing else.
pub open spec fn key_of(p: PacketView) -> FlowKeyView {
    FlowKeyView {
        source_ip: p.source_ip,
        destination_ip: p.destination_ip,
        source_port: p.source_port,
        destination_port: p.destination_port,
        protocol: p.protocol,
    }
}

/// Equality of two optional ports, decided field by field.
fn port_eq(a: &Option<u16>, b: &Option<u16>) -> (r: bool)
    ensures
        r == (a == b),
{
    match (a, b) {
        (Option::None, Option::None) => true,
        (Option::Some(x), Option::Some(y)) => x == y,
        _ => false,
    }
}

impl ParsedPacket {
    /// The key under which this packet is aggregated.
    pub fn flow_key(&self) -> (k: FlowKey)
        ensures
            k@ == key_of(self@),
    {
        FlowKey {
            source_ip: self.source_ip.clone(),
            destination_ip: self.destination_ip.clone(),
            source_port: self.source_port,
            destination_port: self.destination_port,
            protocol: self.protocol,
        }
    }
}

impl FlowKey {
    /// Structural equality over all five fields.
    pub fn key_eq(&self, other: &FlowKey) -> (r: bool)
        ensures
            r == (self@ == other@),
    {
        self.source_ip == other.source_ip && self.destination_ip == other.destination_ip
            && port_eq(&self.source_port, &other.source_port)
            && port_eq(&self.destination_port, &other.destination_port)
            && self.protocol == other.protocol
    }

    /// An owned copy of the key, field by field.
    pub fn duplicate(&self) -> (k: FlowKey)
        ensures
            k@ == self@,
    {
        FlowKey {
            source_ip: self.source_ip.clone(),
            destination_ip: self.destination_ip.clone(),
            source_port: self.source_port,
            destination_port: self.destination_port,
            protocol: self.protocol,
        }
    }
}

} // verus!
