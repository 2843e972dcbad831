use vstd::prelude::*;

verus! {

/// Size of an Ethernet header: two hardware addresses and the EtherType.
pub const HEADER_LEN: usize = 14;

pub const ETHERTYPE_IPV4: u16 = 0x0800;
pub const ETHERTYPE_IPV6: u16 = 0x86DD;
pub const ETHERTYPE_ARP: u16 = 0x0806;

/// The big-endian 16-bit value held by two bytes.
pub open spec fn be_u16(hi: u8, lo: u8) -> int {
    hi as int * 256 + lo as int
}

/// Relies on pnet's `EthernetPacket::new`, which accepts a buffer of at least
/// the minimum packet size (14 bytes), and on its getters `get_destination`,
/// `get_source` and `get_ethertype`, which read bytes 0..6, 6..12 and the
/// big-endian value of bytes 12..14.
#[verifier::external_body]
fn ethernet_header(buf: &[u8]) -> (r: Option<([u8; 6], [u8; 6], u16)>)
    ensures
        r.is_some() <==> buf@.len() >= 14,
        r matches Some((dst, src, et)) ==> {
            &&& dst@ == buf@.subrange(0, 6)
            &&& src@ == buf@.subrange(6, 12)
            &&& et as int == be_u16(buf@[12], buf@[13])
        },
{
    pnet::packet::ethernet::EthernetPacket::new(buf).map(
        |f| (f.get_destination().octets(), f.get_source().octets(), f.get_ethertype().0),
    )
}

/// A decoded Ethernet frame; the payload is a view into the received buffer.
pub struct EthernetFrame<'a> {
    pub destination: [u8; 6],
    pub source: [u8; 6],
    pub ethertype: u16,
    pub payload: &'a [u8],
    pub total_len: usize,
}

/// `f` is the Ethernet frame that the bytes `buf` hold.
pub open spec fn frame_of(f: EthernetFrame, buf: Seq<u8>) -> bool {
    &&& buf.len() >= 14
    &&& f.destination@ == buf.subrange(0, 6)
    &&& f.source@ == buf.subrange(6, 12)
    &&& f.ethertype as int == be_u16(buf[12], buf[13])
    &&& f.payload@ == buf.subrange(14, buf.len() as int)
    &&& f.total_len == buf.len()
}

/// Decodes the header of `buf`; a buffer shorter than a header gives `None`.
pub fn decode_frame<'a>(buf: &'a [u8]) -> (r: Option<EthernetFrame<'a>>)
    ensures
        r.is_some() <==> buf@.len() >= 14,
        r matches Some(f) ==> frame_of(f, buf@),
{
    match ethernet_header(buf) {
        None => None,
        Some((destination, source, ethertype)) => {
            let payload = vstd::slice::slice_subrange(buf, HEADER_LEN, buf.len());
            Some(EthernetFrame { destination, source, ethertype, payload, total_len: buf.len() })
        },
    }
}

/// The next-layer protocols the sniffer names.
#[derive(Debug, Clone, Copy, PartialEq, Eq)]
pub enum PayloadKind {
    Ipv4,
    Ipv6,
    Arp,
    Unknown,
}

pub open spec fn kind_of(ethertype: u16) -> PayloadKind {
    if ethertype == ETHERTYPE_IPV4 {
        PayloadKind::Ipv4
    } else if ethertype == ETHERTYPE_IPV6 {
        PayloadKind::Ipv6
    } else if ethertype == ETHERTYPE_ARP {
        PayloadKind::Arp
    } else {
        PayloadKind::Unknown
    }
}

/// Names the protocol an EtherType announces.
pub fn classify_ethertype(ethertype: u16) -> (r: PayloadKind)
    ensures
        r == kind_of(ethertype),
{
    if ethertype == ETHERTYPE_IPV4 {
        PayloadKind::Ipv4
    } else if ethertype == ETHERTYPE_IPV6 {
        PayloadKind::Ipv6
    } else if ethertype == ETHERTYPE_ARP {
        PayloadKind::Arp
    } else {
        PayloadKind::Unknown
    }
}

} // verus!
