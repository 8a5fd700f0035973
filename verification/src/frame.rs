//! From a captured Ethernet frame to the 5-tuple of the flow it belongs to.
//!
//! The headers are cut out of the frame by `etherparse`; what is read from
//! them, and when a frame counts as part of a flow, is decided here.

use crate::types::{ipv4_number, ipv4_to_u32, PacketTuple};
use etherparse::InternetSlice::{Ipv4, Ipv6};
use etherparse::LinkSlice::Ethernet2;
use etherparse::SlicedPacket;
use etherparse::TransportSlice::{Tcp, Udp};
use vstd::prelude::*;

verus! {

/// A hardware address, as its six octets.
pub type MacAddress = [u8; 6];

/// The addresses of an Ethernet II header.
#[derive(Clone, Copy, Debug)]
pub struct LinkHeader {
    pub source: MacAddress,
    pub destination: MacAddress,
}

/// What is read from an IPv4 header; `header_len` counts its octets,
/// options included.
#[derive(Clone, Copy, Debug)]
pub struct Ipv4Header {
    pub source: [u8; 4],
    pub destination: [u8; 4],
    pub protocol: u8,
    pub header_len: usize,
}

/// The network-layer header of a frame. Of an IPv6 header nothing is read.
#[derive(Clone, Copy, Debug)]
pub enum InternetHeader {
    Ipv4(Ipv4Header),
    Ipv6,
}

/// The ports of a TCP or UDP header; `header_len` counts its octets.
#[derive(Clone, Copy, Debug)]
pub struct TransportHeader {
    pub source_port: u16,
    pub destination_port: u16,
    pub header_len: usize,
}

/// The headers found in one frame. `payload_len` counts the octets that
/// follow the last header found.
#[derive(Clone, Copy, Debug)]
pub struct FrameHeaders {
    pub link: Option<LinkHeader>,
    pub ip: Option<InternetHeader>,
    pub transport: Option<TransportHeader>,
    pub payload_len: usize,
}

/// The fields of `FrameHeaders` without their names, in the same order:
/// link addresses (source, destination); network layer, where the inner
/// `None` stands for IPv6 and the tuple for IPv4 (source, destination,
/// protocol, header length); transport (source port, destination port,
/// header length); payload length.
pub type RawHeaders = (
    Option<(MacAddress, MacAddress)>,
    Option<Option<([u8; 4], [u8; 4], u8, usize)>>,
    Option<(u16, u16, usize)>,
    usize,
);

/// What a frame contributes to flow tracking.
#[derive(Clone, Copy, Debug)]
pub struct ParsedPacket {
    pub tuple: PacketTuple,
    pub src_mac: MacAddress,
    pub dst_mac: MacAddress,
    /// Where in the frame the IP header starts: as many octets before the
    /// end of the frame as the IP header, the transport header and the
    /// payload take up together.
    pub ip_offset: usize,
}

/// What `etherparse::SlicedPacket::from_ethernet` finds in a frame: `None`
/// where it reports an error, else the fields read off its slices.
pub uninterp spec fn ethernet_headers(frame: Seq<u8>) -> Option<RawHeaders>;

/// Calls `etherparse::SlicedPacket::from_ethernet` and copies the fields of
/// `RawHeaders` out of the slices it returns: the addresses of the Ethernet II
/// header, which of IPv4 and IPv6 the network layer is, the addresses and
/// protocol of an IPv4 header, the ports of a TCP or UDP header, and the
/// lengths of those slices. Trusted: that all of this depends on the frame's
/// octets alone, and that the IPv4 header, the transport header and the
/// payload fit in the frame together, since the slices are cut from it one
/// after the other and the payload is what is left at its end.
#[verifier::external_body]
fn slice_ethernet(frame: &[u8]) -> (raw: Option<RawHeaders>)
    ensures
        raw == ethernet_headers(frame@),
        raw is Some ==> ip_span(FrameHeaders::of(raw->0)) <= frame@.len(),
{
    let p = SlicedPacket::from_ethernet(frame).ok()?;
    Some((
        p.link.map(|Ethernet2(e)| (e.to_header().source, e.to_header().destination)),
        p.ip.map(|ip| match ip {
            Ipv4(s) => Some((s.to_header().source, s.to_header().destination, s.protocol(), s.slice().len())),
            Ipv6(..) => None,
        }),
        p.transport.map(|t| match t {
            Tcp(s) => (s.source_port(), s.destination_port(), s.slice().len()),
            Udp(s) => (s.source_port(), s.destination_port(), s.slice().len()),
        }),
        p.payload.len(),
    ))
}

impl FrameHeaders {
    /// The headers with their fields named.
    pub open spec fn of(raw: RawHeaders) -> FrameHeaders {
        FrameHeaders {
            link: match raw.0 {
                Some(l) => Some(LinkHeader { source: l.0, destination: l.1 }),
                None => None,
            },
            ip: match raw.1 {
                Some(Some(i)) => Some(
                    InternetHeader::Ipv4(
                        Ipv4Header { source: i.0, destination: i.1, protocol: i.2, header_len: i.3 },
                    ),
                ),
                Some(None) => Some(InternetHeader::Ipv6),
                None => None,
            },
            transport: match raw.2 {
                Some(t) => Some(
                    TransportHeader { source_port: t.0, destination_port: t.1, header_len: t.2 },
                ),
                None => None,
            },
            payload_len: raw.3,
        }
    }

    pub fn from_raw(raw: RawHeaders) -> (h: FrameHeaders)
        ensures
            h == FrameHeaders::of(raw),
    {
        FrameHeaders {
            link: match raw.0 {
                Some(l) => Some(LinkHeader { source: l.0, destination: l.1 }),
                None => None,
            },
            ip: match raw.1 {
                Some(Some(i)) => Some(
                    InternetHeader::Ipv4(
                        Ipv4Header { source: i.0, destination: i.1, protocol: i.2, header_len: i.3 },
                    ),
                ),
                Some(None) => Some(InternetHeader::Ipv6),
                None => None,
            },
            transport: match raw.2 {
                Some(t) => Some(
                    TransportHeader { source_port: t.0, destination_port: t.1, header_len: t.2 },
                ),
                None => None,
            },
            payload_len: raw.3,
        }
    }
}

/// The headers that `ethernet_headers` names for a frame, with their fields
/// named.
pub open spec fn frame_headers(frame: Seq<u8>) -> Option<FrameHeaders> {
    match ethernet_headers(frame) {
        Some(raw) => Some(FrameHeaders::of(raw)),
        None => None,
    }
}

/// The IPv4 header among the headers, if the network layer is IPv4.
pub open spec fn ipv4_of(h: FrameHeaders) -> Option<Ipv4Header> {
    match h.ip {
        Some(InternetHeader::Ipv4(ip)) => Some(ip),
        _ => None,
    }
}

/// The tuple that the headers of a frame spell out. A field whose header is
/// missing is zero; so are the fields of the network layer unless it is IPv4,
/// and both ports unless both are set.
pub open spec fn headers_tuple(h: FrameHeaders) -> PacketTuple {
    let ip = ipv4_of(h);
    let ports_set = h.transport is Some && h.transport->0.source_port != 0
        && h.transport->0.destination_port != 0;
    PacketTuple {
        proto: if ip is Some { ip->0.protocol } else { 0 },
        saddr: if ip is Some { ipv4_number(ip->0.source) } else { 0 },
        daddr: if ip is Some { ipv4_number(ip->0.destination) } else { 0 },
        sport: if ports_set { h.transport->0.source_port } else { 0 },
        dport: if ports_set { h.transport->0.destination_port } else { 0 },
    }
}

/// How many octets of the frame the IPv4 header and all after it take up,
/// going by the lengths that the headers report.
pub open spec fn ip_span(h: FrameHeaders) -> int {
    (if ipv4_of(h) is Some { ipv4_of(h)->0.header_len as int } else { 0 })
        + (if h.transport is Some { h.transport->0.header_len as int } else { 0 })
        + h.payload_len
}

/// Where the IP header starts in a frame of `frame_len` octets: `ip_span`
/// octets before the end, and at the start if the frame is shorter than that.
pub open spec fn ip_offset(h: FrameHeaders, frame_len: usize) -> usize {
    if ip_span(h) <= frame_len { (frame_len - ip_span(h)) as usize } else { 0 }
}

/// The hardware address of a frame without link header.
pub open spec fn zero_mac() -> MacAddress {
    [0u8, 0u8, 0u8, 0u8, 0u8, 0u8]
}

/// What a frame with the given headers contributes: its tuple and addresses
/// if the tuple is valid, nothing otherwise. A frame that could not be cut
/// into headers contributes nothing either.
pub open spec fn parsed_packet(headers: Option<FrameHeaders>, frame_len: usize) -> Option<
    ParsedPacket,
> {
    if headers is Some && headers_tuple(headers->0).valid() {
        let h = headers->0;
        Some(
            ParsedPacket {
                tuple: headers_tuple(h),
                src_mac: if h.link is Some { h.link->0.source } else { zero_mac() },
                dst_mac: if h.link is Some { h.link->0.destination } else { zero_mac() },
                ip_offset: ip_offset(h, frame_len),
            },
        )
    } else {
        None
    }
}

/// Decides what the headers of a frame of `frame_len` octets contribute.
pub fn tuple_from_headers(headers: &Option<FrameHeaders>, frame_len: usize) -> (p: Option<
    ParsedPacket,
>)
    ensures
        p == parsed_packet(*headers, frame_len),
        p is Some ==> p->0.ip_offset <= frame_len && p->0.tuple.valid(),
{
    let h = match headers {
        Some(h) => h,
        None => { return None; },
    };
    let mut tuple = PacketTuple::default();
    let mut src_mac: MacAddress = [0u8, 0u8, 0u8, 0u8, 0u8, 0u8];
    let mut dst_mac: MacAddress = [0u8, 0u8, 0u8, 0u8, 0u8, 0u8];
    let mut span: u128 = h.payload_len as u128;
    if let Some(link) = &h.link {
        src_mac = link.source;
        dst_mac = link.destination;
    }
    match &h.ip {
        Some(InternetHeader::Ipv4(ip)) => {
            tuple.saddr = ipv4_to_u32(ip.source);
            tuple.daddr = ipv4_to_u32(ip.destination);
            tuple.proto = ip.protocol;
            span = span + ip.header_len as u128;
        },
        Some(InternetHeader::Ipv6) => {},
        None => {},
    }
    if let Some(transport) = &h.transport {
        if transport.source_port != 0 && transport.destination_port != 0 {
            tuple.sport = transport.source_port;
            tuple.dport = transport.destination_port;
        }
        span = span + transport.header_len as u128;
    }
    if tuple.ok() {
        let ip_offset: usize = if span <= frame_len as u128 {
            (frame_len as u128 - span) as usize
        } else {
            0
        };
        Some(ParsedPacket { tuple, src_mac, dst_mac, ip_offset })
    } else {
        None
    }
}

/// Cuts a frame into its headers and decides what it contributes to flow
/// tracking: `None` for every frame that does not carry a complete, valid
/// IPv4 5-tuple.
pub fn parse_tuple(frame: &[u8]) -> (p: Option<ParsedPacket>)
    ensures
        p == parsed_packet(frame_headers(frame@), frame@.len() as usize),
        p is Some ==> p->0.tuple.valid() && p->0.ip_offset + ip_span(frame_headers(frame@)->0)
            == frame@.len(),
{
    let headers = match slice_ethernet(frame) {
        Some(raw) => Some(FrameHeaders::from_raw(raw)),
        None => None,
    };
    tuple_from_headers(&headers, frame.len())
}

} // verus!
