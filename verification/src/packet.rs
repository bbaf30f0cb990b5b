//! Recognition of outbound DNS queries in captured Ethernet/IPv4/UDP frames.

use crate::proxy::{format_ipv4, ipv4_text};
use crate::state::DnsEvent;
use vstd::prelude::*;

verus! {

/// Header fields of a captured DNS query.
#[derive(Debug, Clone)]
pub struct DnsPacketInfo {
    pub src_port: u16,
    pub dst_port: u16,
    /// IPv4 destination address, most significant octet first.
    pub dst_addr: [u8; 4],
    /// Offset of the DNS payload (first byte after the UDP header).
    pub payload_offset: usize,
}

/// Offset of the IPv4 header in an Ethernet frame.
pub open spec fn ip_start() -> int {
    14
}

/// Big-endian 16-bit value of two bytes.
pub open spec fn be16(hi: u8, lo: u8) -> int {
    hi as int * 256 + lo as int
}

/// IPv4 header length in bytes, from the IHL nibble.
pub open spec fn ip_header_len(b: Seq<u8>) -> int {
    (b[14] & 0x0Fu8) as int * 4
}

/// Offset of the UDP header.
pub open spec fn udp_start(b: Seq<u8>) -> int {
    ip_start() + ip_header_len(b)
}

/// Why a frame is not taken for a DNS query, checked in this order; `None`
/// when it is one.
pub open spec fn rejection(b: Seq<u8>) -> Option<Seq<char>> {
    if b.len() < 42 {
        Some("Packet too short"@)
    } else if be16(b[12], b[13]) != 0x0800 {
        Some("Not IPv4"@)
    } else if (b[14] >> 4u8) & 0x0Fu8 != 4 {
        Some("Not IPv4"@)
    } else if ip_header_len(b) < 20 {
        Some("Invalid IP header length (< 20 bytes)"@)
    } else if b[23] != 17 {
        Some("Not UDP"@)
    } else if b.len() < udp_start(b) + 8 {
        Some("Packet too short for UDP"@)
    } else if be16(b[udp_start(b) + 2], b[udp_start(b) + 3]) != 53 {
        Some("Not DNS (port 53)"@)
    } else {
        None
    }
}

/// The header fields read from a frame that `rejection` accepts.
pub open spec fn packet_fields(b: Seq<u8>, info: DnsPacketInfo) -> bool {
    let u = udp_start(b);
    &&& info.src_port as int == be16(b[u], b[u + 1])
    &&& info.dst_port as int == be16(b[u + 2], b[u + 3])
    &&& info.dst_addr@ == seq![b[30], b[31], b[32], b[33]]
    &&& info.payload_offset as int == u + 8
}

fn read_be16(hi: u8, lo: u8) -> (r: u16)
    ensures
        r as int == be16(hi, lo),
{
    (hi as u16) * 256 + (lo as u16)
}

/// Parses the Ethernet, IPv4 and UDP headers of `buf` and accepts it as a
/// DNS query when it is IPv4/UDP with destination port 53.
pub fn parse_dns_packet(buf: &[u8]) -> (r: Result<DnsPacketInfo, &'static str>)
    ensures
        match r {
            Ok(info) => rejection(buf@) is None && packet_fields(buf@, info),
            Err(e) => rejection(buf@) == Some(e@),
        },
{
    if buf.len() < 42 {
        return Err("Packet too short");
    }
    let ethertype = read_be16(buf[12], buf[13]);
    if ethertype != 0x0800 {
        return Err("Not IPv4");
    }
    let ip_start: usize = 14;
    let ip_version = (buf[ip_start] >> 4) & 0x0F;
    if ip_version != 4 {
        return Err("Not IPv4");
    }
    let b14 = buf[ip_start];
    let nibble = b14 & 0x0F;
    assert(b14 & 0x0Fu8 <= 15u8) by (bit_vector);
    let ip_header_len = (nibble * 4) as usize;
    if ip_header_len < 20 {
        return Err("Invalid IP header length (< 20 bytes)");
    }
    let protocol = buf[ip_start + 9];
    if protocol != 17 {
        return Err("Not UDP");
    }
    let dst_addr = [buf[ip_start + 16], buf[ip_start + 17], buf[ip_start + 18], buf[ip_start + 19]];
    let udp_start = ip_start + ip_header_len;
    if buf.len() < udp_start + 8 {
        return Err("Packet too short for UDP");
    }
    let src_port = read_be16(buf[udp_start], buf[udp_start + 1]);
    let dst_port = read_be16(buf[udp_start + 2], buf[udp_start + 3]);
    if dst_port != 53 {
        return Err("Not DNS (port 53)");
    }
    let info = DnsPacketInfo { src_port, dst_port, dst_addr, payload_offset: udp_start + 8 };
    assert(info.dst_addr@ == seq![buf@[30], buf@[31], buf@[32], buf@[33]]);
    Ok(info)
}

/// Only datagrams sent to port 53 are taken for queries: a frame accepted
/// (and the header fields read from it) has the bytes 0 and 53 as its UDP
/// destination port, right after the source port, whatever that source
/// port is.
pub proof fn lemma_accepted_frames_go_to_port_53(b: Seq<u8>, info: DnsPacketInfo)
    requires
        rejection(b) is None,
        packet_fields(b, info),
    ensures
        ({
            let u = 14 + (b[14] & 0x0Fu8) as int * 4;
            &&& u + 8 <= b.len()
            &&& b[u + 2] == 0u8
            &&& b[u + 3] == 53u8
            &&& info.dst_port == 53
        }),
{
}

/// The event recorded for an intercepted query: the sending process (0 when
/// unknown), no task or user ids, no command name, the destination address
/// and port, marked as DNS.
pub fn intercept_event(info: &DnsPacketInfo, pid: Option<u32>) -> (r: DnsEvent)
    ensures
        r.pid == (match pid {
            Some(p) => p as int,
            None => 0,
        }),
        r.tgid == 0 && r.uid == 0 && r.gid == 0,
        r.comm@ == Seq::<char>::empty(),
        r.daddr@ == ipv4_text(info.dst_addr),
        r.dport == info.dst_port,
        r.is_dns,
{
    DnsEvent {
        pid: match pid {
            Some(p) => p as i64,
            None => 0,
        },
        tgid: 0,
        uid: 0,
        gid: 0,
        comm: String::new(),
        daddr: format_ipv4(info.dst_addr),
        dport: info.dst_port as i64,
        is_dns: true,
    }
}

/// The proxy's address, to which intercepted queries are redirected.
pub open spec fn proxy_ipv4() -> Seq<u8> {
    seq![127u8, 0u8, 0u8, 53u8]
}

/// Rewrites the destination address of an intercepted IPv4 datagram
/// (bytes 16 to 19 of its IP header) to the proxy's address, 127.0.0.53.
pub fn redirect_to_proxy(packet: &mut Vec<u8>)
    requires
        old(packet)@.len() >= 20,
    ensures
        final(packet)@ == old(packet)@.subrange(0, 16) + proxy_ipv4() + old(packet)@.subrange(
            20,
            old(packet)@.len() as int,
        ),
{
    packet.set(16, 127);
    packet.set(17, 0);
    packet.set(18, 0);
    packet.set(19, 53);
    assert(packet@ =~= old(packet)@.subrange(0, 16) + proxy_ipv4() + old(packet)@.subrange(
        20,
        old(packet)@.len() as int,
    ));
}

} // verus!
