//! Network and transport layers of a captured frame, read with `etherparse`.
use vstd::prelude::*;
use etherparse::{
    InternetSlice, Ipv4HeaderSlice, SlicedPacket, TcpHeaderSlice, TransportSlice,
};

verus! {

#[verifier::external_type_specification]
pub struct ExSlicedPacket<'a>(SlicedPacket<'a>);

#[verifier::external_type_specification]
pub struct ExInternetSlice<'a>(InternetSlice<'a>);

#[verifier::external_type_specification]
pub struct ExTransportSlice<'a>(TransportSlice<'a>);

#[verifier::external_type_specification]
#[verifier::external_body]
pub struct ExLinkSlice<'a>(etherparse::LinkSlice<'a>);

#[verifier::external_type_specification]
#[verifier::external_body]
pub struct ExVlanSlice<'a>(etherparse::VlanSlice<'a>);

#[verifier::external_type_specification]
#[verifier::external_body]
pub struct ExIpv4HeaderSlice<'a>(Ipv4HeaderSlice<'a>);

#[verifier::external_type_specification]
#[verifier::external_body]
pub struct ExIpv4ExtensionsSlice<'a>(etherparse::Ipv4ExtensionsSlice<'a>);

#[verifier::external_type_specification]
#[verifier::external_body]
pub struct ExIpv6HeaderSlice<'a>(etherparse::Ipv6HeaderSlice<'a>);

#[verifier::external_type_specification]
#[verifier::external_body]
pub struct ExIpv6ExtensionsSlice<'a>(etherparse::Ipv6ExtensionsSlice<'a>);

#[verifier::external_type_specification]
#[verifier::external_body]
pub struct ExIcmpv4Slice<'a>(etherparse::Icmpv4Slice<'a>);

#[verifier::external_type_specification]
#[verifier::external_body]
pub struct ExIcmpv6Slice<'a>(etherparse::Icmpv6Slice<'a>);

#[verifier::external_type_specification]
#[verifier::external_body]
pub struct ExUdpHeaderSlice<'a>(etherparse::UdpHeaderSlice<'a>);

#[verifier::external_type_specification]
#[verifier::external_body]
pub struct ExTcpHeaderSlice<'a>(TcpHeaderSlice<'a>);

#[verifier::external_type_specification]
#[verifier::external_body]
pub struct ExReadError(etherparse::ReadError);

/// The payload that slicing bytes that start with an IP header leaves after the last
/// header it recognises; `None` where slicing fails.
pub uninterp spec fn ip_payload(data: Seq<u8>) -> Option<Seq<u8>>;

/// The payload that slicing bytes that start with an Ethernet II header leaves; `None`
/// where slicing fails.
pub uninterp spec fn ethernet_payload(data: Seq<u8>) -> Option<Seq<u8>>;

/// Relies on `etherparse::SlicedPacket::from_ip`: slices a frame that starts with an IP
/// header; the outcome depends on the bytes alone.
pub assume_specification<'a>[ SlicedPacket::<'a>::from_ip ](data: &'a [u8]) -> (r: Result<
    SlicedPacket<'a>,
    etherparse::ReadError,
>)
    ensures
        r is Ok <==> ip_payload(data@) is Some,
        r matches Ok(p) ==> ip_payload(data@) == Some(p.payload@),
;

/// Relies on `etherparse::SlicedPacket::from_ethernet`: slices a frame that starts with an
/// Ethernet II header; the outcome depends on the bytes alone.
pub assume_specification<'a>[ SlicedPacket::<'a>::from_ethernet ](data: &'a [u8]) -> (r: Result<
    SlicedPacket<'a>,
    etherparse::ReadError,
>)
    ensures
        r is Ok <==> ethernet_payload(data@) is Some,
        r matches Ok(p) ==> ethernet_payload(data@) == Some(p.payload@),
;

/// The IPv4 fields of bytes that start with an IP header: `None` where slicing fails or
/// the network layer is not IPv4.
pub uninterp spec fn ip_network(data: Seq<u8>) -> Option<NetworkFields>;

/// The IPv4 fields of bytes that start with an Ethernet II header.
pub uninterp spec fn ethernet_network(data: Seq<u8>) -> Option<NetworkFields>;

/// The TCP header length, data offset, source and destination ports of bytes that start
/// with an IP header: `None` where slicing fails or the transport layer is not TCP.
pub uninterp spec fn ip_tcp_header(data: Seq<u8>) -> Option<(usize, u8, u16, u16)>;

/// The TCP header values of bytes that start with an Ethernet II header, in the same shape.
pub uninterp spec fn ethernet_tcp_header(data: Seq<u8>) -> Option<(usize, u8, u16, u16)>;

/// The TCP flags of bytes that start with an IP header: `None` where slicing fails or
/// the transport layer is not TCP.
pub uninterp spec fn ip_tcp_flags(data: Seq<u8>) -> Option<TcpFlags>;

/// The TCP flags of bytes that start with an Ethernet II header.
pub uninterp spec fn ethernet_tcp_flags(data: Seq<u8>) -> Option<TcpFlags>;

/// Relies on `etherparse::SlicedPacket::from_ip` and the getters of `Ipv4HeaderSlice`:
/// the IPv4 header's total length, fragment flags and time to live.
#[verifier::external_body]
fn network_from_ip(data: &[u8]) -> (r: Option<NetworkFields>)
    ensures
        r == ip_network(data@),
{
    match SlicedPacket::from_ip(data) {
        Ok(SlicedPacket { ip: Some(InternetSlice::Ipv4(h, _)), .. }) => Some(NetworkFields {
            total_len: h.total_len(),
            dont_fragment: h.dont_fragment(),
            more_fragments: h.more_fragments(),
            ttl: h.ttl(),
        }),
        _ => None,
    }
}

/// Relies on `etherparse::SlicedPacket::from_ethernet` and the getters of
/// `Ipv4HeaderSlice`, as `network_from_ip` does.
#[verifier::external_body]
fn network_from_ethernet(data: &[u8]) -> (r: Option<NetworkFields>)
    ensures
        r == ethernet_network(data@),
{
    match SlicedPacket::from_ethernet(data) {
        Ok(SlicedPacket { ip: Some(InternetSlice::Ipv4(h, _)), .. }) => Some(NetworkFields {
            total_len: h.total_len(),
            dont_fragment: h.dont_fragment(),
            more_fragments: h.more_fragments(),
            ttl: h.ttl(),
        }),
        _ => None,
    }
}

/// Relies on `etherparse::SlicedPacket::from_ip` and the getters of `TcpHeaderSlice`:
/// the header's length in bytes, its data offset and its two ports.
#[verifier::external_body]
fn tcp_header_from_ip(data: &[u8]) -> (r: Option<(usize, u8, u16, u16)>)
    ensures
        r == ip_tcp_header(data@),
{
    match SlicedPacket::from_ip(data) {
        Ok(SlicedPacket { transport: Some(TransportSlice::Tcp(h)), .. }) => Some(
            (h.slice().len(), h.data_offset(), h.source_port(), h.destination_port()),
        ),
        _ => None,
    }
}

/// Relies on `etherparse::SlicedPacket::from_ethernet` and the getters of
/// `TcpHeaderSlice`, as `tcp_header_from_ip` does.
#[verifier::external_body]
fn tcp_header_from_ethernet(data: &[u8]) -> (r: Option<(usize, u8, u16, u16)>)
    ensures
        r == ethernet_tcp_header(data@),
{
    match SlicedPacket::from_ethernet(data) {
        Ok(SlicedPacket { transport: Some(TransportSlice::Tcp(h)), .. }) => Some(
            (h.slice().len(), h.data_offset(), h.source_port(), h.destination_port()),
        ),
        _ => None,
    }
}

/// Relies on `etherparse::SlicedPacket::from_ip` and the flag getters of `TcpHeaderSlice`.
#[verifier::external_body]
fn tcp_flags_from_ip(data: &[u8]) -> (r: Option<TcpFlags>)
    ensures
        r == ip_tcp_flags(data@),
{
    match SlicedPacket::from_ip(data) {
        Ok(SlicedPacket { transport: Some(TransportSlice::Tcp(h)), .. }) => Some(TcpFlags {
            ack: h.ack(),
            cwr: h.cwr(),
            ece: h.ece(),
            fin: h.fin(),
            ns: h.ns(),
            psh: h.psh(),
            rst: h.rst(),
            syn: h.syn(),
            urg: h.urg(),
        }),
        _ => None,
    }
}

/// Relies on `etherparse::SlicedPacket::from_ethernet` and the flag getters of
/// `TcpHeaderSlice`.
#[verifier::external_body]
fn tcp_flags_from_ethernet(data: &[u8]) -> (r: Option<TcpFlags>)
    ensures
        r == ethernet_tcp_flags(data@),
{
    match SlicedPacket::from_ethernet(data) {
        Ok(SlicedPacket { transport: Some(TransportSlice::Tcp(h)), .. }) => Some(TcpFlags {
            ack: h.ack(),
            cwr: h.cwr(),
            ece: h.ece(),
            fin: h.fin(),
            ns: h.ns(),
            psh: h.psh(),
            rst: h.rst(),
            syn: h.syn(),
            urg: h.urg(),
        }),
        _ => None,
    }
}

/// The nine TCP control flags.
#[derive(Clone, Copy, Debug, PartialEq, Eq, Structural)]
pub struct TcpFlags {
    pub ack: bool,
    pub cwr: bool,
    pub ece: bool,
    pub fin: bool,
    pub ns: bool,
    pub psh: bool,
    pub rst: bool,
    pub syn: bool,
    pub urg: bool,
}

/// The IPv4 fields that a record carries.
#[derive(Clone, Copy, Debug, PartialEq, Eq, Structural)]
pub struct NetworkFields {
    pub total_len: u16,
    pub dont_fragment: bool,
    pub more_fragments: bool,
    pub ttl: u8,
}

/// The TCP fields that a record carries.
#[derive(Clone, Copy, Debug, PartialEq, Eq, Structural)]
pub struct TransportFields {
    /// Length of the TCP header in bytes (the segment adds the payload).
    pub header_len: usize,
    /// Header length in 32-bit words.
    pub data_offset: u8,
    pub ack: bool,
    pub cwr: bool,
    pub ece: bool,
    pub fin: bool,
    pub ns: bool,
    pub psh: bool,
    pub rst: bool,
    pub syn: bool,
    pub urg: bool,
    pub src_port: u16,
    pub dst_port: u16,
}

/// The layers of one frame of `packet_len` bytes: IPv4 when the network layer is IPv4, TCP when the transport
/// layer is TCP, and the bytes that follow the last recognised header.
#[derive(Clone, Debug)]
pub struct FrameLayers {
    pub packet_len: usize,
    pub network: Option<NetworkFields>,
    pub transport: Option<TransportFields>,
    pub payload: Vec<u8>,
}

/// How a frame is laid out once its capture prefix is stripped.
#[derive(Clone, Copy, Debug, PartialEq, Eq, Structural)]
pub enum Encapsulation {
    /// The frame starts with an IP header.
    Ip,
    /// The frame starts with an Ethernet II header.
    Ethernet,
}

/// Why a frame could not be sliced.
#[derive(Clone, Copy, Debug, PartialEq, Eq, Structural)]
pub enum SliceError {
    /// The frame is shorter than its capture prefix.
    ShorterThanPrefix,
    /// The headers are malformed or cut short.
    Malformed,
}

/// The TCP fields made of a header's length, data offset and ports, and its flags.
pub open spec fn tcp_fields(h: (usize, u8, u16, u16), f: TcpFlags) -> TransportFields {
    TransportFields {
        header_len: h.0,
        data_offset: h.1,
        ack: f.ack,
        cwr: f.cwr,
        ece: f.ece,
        fin: f.fin,
        ns: f.ns,
        psh: f.psh,
        rst: f.rst,
        syn: f.syn,
        urg: f.urg,
        src_port: h.2,
        dst_port: h.3,
    }
}

/// The payload that slicing `data`, laid out as `encapsulation` says, leaves; `None`
/// where slicing fails.
pub open spec fn sliced(encapsulation: Encapsulation, data: Seq<u8>) -> Option<Seq<u8>> {
    match encapsulation {
        Encapsulation::Ip => ip_payload(data),
        Encapsulation::Ethernet => ethernet_payload(data),
    }
}

/// The IPv4 fields of `data`, laid out as `encapsulation` says.
pub open spec fn network_of(encapsulation: Encapsulation, data: Seq<u8>) -> Option<NetworkFields> {
    match encapsulation {
        Encapsulation::Ip => ip_network(data),
        Encapsulation::Ethernet => ethernet_network(data),
    }
}

/// The TCP fields of `data`, laid out as `encapsulation` says.
pub open spec fn transport_of(encapsulation: Encapsulation, data: Seq<u8>) -> Option<TransportFields> {
    let (h, f) = match encapsulation {
        Encapsulation::Ip => (ip_tcp_header(data), ip_tcp_flags(data)),
        Encapsulation::Ethernet => (ethernet_tcp_header(data), ethernet_tcp_flags(data)),
    };
    match (h, f) {
        (Some(h), Some(f)) => Some(tcp_fields(h, f)),
        _ => None,
    }
}

/// Whether `l` holds what slicing `data` as `encapsulation` gives, with `payload` left.
pub open spec fn sliced_as(l: FrameLayers, encapsulation: Encapsulation, data: Seq<u8>, payload: Seq<u8>) -> bool {
    &&& l.network == network_of(encapsulation, data)
    &&& l.transport == transport_of(encapsulation, data)
    &&& l.payload@ == payload
}

/// The bytes of a frame after its capture prefix.
pub open spec fn after_prefix(data: Seq<u8>, prefix_len: usize) -> Seq<u8> {
    data.subrange(prefix_len as int, data.len() as int)
}

/// Slices a frame after dropping its first `prefix_len` bytes. A frame shorter than its
/// prefix is refused; otherwise the outcome is that of the header parser on the rest.
pub fn slice_frame(data: &[u8], prefix_len: usize, encapsulation: Encapsulation) -> (r: Result<
    FrameLayers,
    SliceError,
>)
    ensures
        r == Err::<FrameLayers, SliceError>(SliceError::ShorterThanPrefix) <==> prefix_len
            > data@.len(),
        prefix_len <= data@.len() ==> (r == Err::<FrameLayers, SliceError>(SliceError::Malformed)
            <==> sliced(encapsulation, after_prefix(data@, prefix_len)) is None),
        r matches Ok(l) ==> l.packet_len == data@.len() && sliced_as(
            l,
            encapsulation,
            after_prefix(data@, prefix_len),
            sliced(encapsulation, after_prefix(data@, prefix_len)).unwrap(),
        ),
{
    if prefix_len > data.len() {
        return Err(SliceError::ShorterThanPrefix);
    }
    let rest = vstd::slice::slice_subrange(data, prefix_len, data.len());
    let (sliced, network, header, flags) = match encapsulation {
        Encapsulation::Ip => (
            SlicedPacket::from_ip(rest),
            network_from_ip(rest),
            tcp_header_from_ip(rest),
            tcp_flags_from_ip(rest),
        ),
        Encapsulation::Ethernet => (
            SlicedPacket::from_ethernet(rest),
            network_from_ethernet(rest),
            tcp_header_from_ethernet(rest),
            tcp_flags_from_ethernet(rest),
        ),
    };
    let transport = match (header, flags) {
        (Some(h), Some(f)) => Some(TransportFields {
            header_len: h.0,
            data_offset: h.1,
            ack: f.ack,
            cwr: f.cwr,
            ece: f.ece,
            fin: f.fin,
            ns: f.ns,
            psh: f.psh,
            rst: f.rst,
            syn: f.syn,
            urg: f.urg,
            src_port: h.2,
            dst_port: h.3,
        }),
        _ => None,
    };
    match sliced {
        Ok(p) => Ok(FrameLayers {
            packet_len: data.len(),
            network,
            transport,
            payload: vstd::slice::slice_to_vec(p.payload),
        }),
        Err(_) => Err(SliceError::Malformed),
    }
}

} // verus!
