//! Ethernet / IPv4 / UDP framing: strict parsers and a frame builder.

use vstd::prelude::*;
use crate::bytes::{be16, copy_prefix, lemma_be16, push_all, push_be16, rdbe16, read_be16};

verus! {

pub const ETH_HEADER: usize = 14;
pub const IPV4_MIN_HEADER: usize = 20;
pub const UDP_HEADER: usize = 8;
pub const MAX_PACKET: usize = 1514;

#[derive(Clone, Copy, Debug, Eq, PartialEq, Structural)]
pub enum PacketError {
    TooShort,
    InvalidEthernet,
    InvalidIpv4,
    InvalidChecksum,
    InvalidLength,
    UnsupportedProtocol,
    OutputTooSmall,
}

#[derive(Clone, Copy, Debug, Eq, PartialEq)]
pub struct EthernetFrame {
    pub destination: [u8; 6],
    pub source: [u8; 6],
    pub ethertype: u16,
}

#[derive(Clone, Copy, Debug, Eq, PartialEq)]
pub struct Ipv4Header {
    pub source: [u8; 4],
    pub destination: [u8; 4],
    pub total_length: u16,
    pub protocol: u8,
    pub header_len: usize,
}

#[derive(Clone, Copy, Debug, Eq, PartialEq, Structural)]
pub struct UdpHeader {
    pub source_port: u16,
    pub destination_port: u16,
    pub length: u16,
}

// ----------------------------------------------------------------------------
// Internet checksum (RFC 1071)
// ----------------------------------------------------------------------------

/// Big-endian 16-bit word at `i`.
pub open spec fn word_at(s: Seq<u8>, i: int) -> u32 {
    ((s[i] as u32) << 8u32) | (s[i + 1] as u32)
}

/// Wrapping sum of the first `k` big-endian words of `s`.
pub open spec fn word_sum(s: Seq<u8>, k: nat) -> u32
    decreases k,
{
    if k == 0 {
        0
    } else {
        vstd::wrapping::u32_specs::wrapping_add(word_sum(s, (k - 1) as nat), word_at(s, 2 * (k - 1)))
    }
}

/// The 32-bit sum of all words, an odd trailing byte padded with zero.
pub open spec fn ones_sum(s: Seq<u8>) -> u32 {
    let base = word_sum(s, s.len() / 2);
    if s.len() % 2 == 1 {
        vstd::wrapping::u32_specs::wrapping_add(base, (s[s.len() - 1] as u32) << 8u32)
    } else {
        base
    }
}

/// End-around-carry folding of a 32-bit sum into 16 bits.
pub open spec fn fold_carries(x: u32) -> u32
    decreases x,
{
    if x >> 16u32 == 0 {
        x
    } else {
        proof {
            assert(x >> 16u32 != 0 ==> (x & 0xffffu32) + (x >> 16u32) < x) by (bit_vector);
        }
        fold_carries(((x & 0xffffu32) + (x >> 16u32)) as u32)
    }
}

/// The Internet checksum of `s`.
pub open spec fn inet_checksum(s: Seq<u8>) -> u16 {
    !(fold_carries(ones_sum(s)) as u16)
}

/// The plain sum, as an integer, of the first `k` big-endian 16-bit words of `s`.
pub open spec fn words_total(s: Seq<u8>, k: nat) -> int
    decreases k,
{
    if k == 0 {
        0
    } else {
        words_total(s, (k - 1) as nat) + s[2 * (k - 1)] * 256 + s[2 * (k - 1) + 1]
    }
}

/// The plain sum of all big-endian 16-bit words of `s`, an odd last byte
/// counting as the high byte of a word padded with zero.
pub open spec fn all_words_total(s: Seq<u8>) -> int {
    words_total(s, s.len() / 2) + if s.len() % 2 == 1 { s[s.len() - 1] * 256 } else { 0 }
}

proof fn lemma_word_sum_exact(s: Seq<u8>, k: nat)
    requires
        2 * k <= s.len(),
        words_total(s, k) <= u32::MAX,
    ensures
        word_sum(s, k) == words_total(s, k),
        words_total(s, k) >= 0,
    decreases k,
{
    if k > 0 {
        let a = s[2 * (k - 1)];
        let b = s[2 * (k - 1) + 1];
        assert((((a as u32) << 8u32) | (b as u32)) == a * 256 + b) by (bit_vector);
        lemma_word_sum_exact(s, (k - 1) as nat);
    }
}

proof fn lemma_fold_carries(x: u32)
    ensures
        fold_carries(x) <= 0xFFFF,
        fold_carries(x) % 0xFFFF == x % 0xFFFF,
        fold_carries(x) == 0 <==> x == 0,
    decreases x,
{
    if x >> 16u32 == 0 {
        assert(x >> 16u32 == 0 ==> x <= 0xFFFF) by (bit_vector);
    } else {
        assert(x >> 16u32 != 0 ==> (x & 0xffffu32) + (x >> 16u32) < x) by (bit_vector);
        let hi = x >> 16u32;
        let lo = x & 0xffffu32;
        assert(x == hi * 65536 + lo && lo <= 0xFFFF && hi > 0) by (bit_vector)
            requires hi == x >> 16u32, lo == x & 0xffffu32, x >> 16u32 != 0;
        let y = (lo + hi) as u32;
        lemma_fold_carries(y);
        assert((hi * 65536 + lo) % 0xFFFF == (lo + hi) % 0xFFFF) by (nonlinear_arith)
            requires hi >= 0, lo >= 0;
    }
}

/// The Internet checksum (RFC 1071) is the one's complement of the
/// end-around-carry sum of the big-endian 16-bit words: with `W` the plain
/// sum of the words (an odd last byte padded with zero) and `r` the 16-bit
/// one's-complement sum, `checksum == 0xFFFF - r`, where `r == 0` exactly
/// when `W == 0`, and otherwise `1 <= r <= 0xFFFF` and `r` is congruent to
/// `W` modulo `0xFFFF`. It holds while `W` fits the 32-bit accumulator.
pub proof fn lemma_checksum_ones_complement(s: Seq<u8>)
    requires
        all_words_total(s) <= u32::MAX,
    ensures
        all_words_total(s) == 0 ==> inet_checksum(s) == 0xFFFF,
        all_words_total(s) != 0 ==> {
            let r = 0xFFFF - inet_checksum(s);
            &&& 1 <= r <= 0xFFFF
            &&& r % 0xFFFF == all_words_total(s) % 0xFFFF
        },
{
    let k = s.len() / 2;
    lemma_word_sum_exact(s, k);
    let base = word_sum(s, k);
    let w = ones_sum(s);
    if s.len() % 2 == 1 {
        let c = s[s.len() - 1];
        assert(((c as u32) << 8u32) == c * 256) by (bit_vector);
        assert(w == all_words_total(s));
    } else {
        assert(w == all_words_total(s));
    }
    lemma_fold_carries(w);
    let f = fold_carries(w);
    assert(f <= 0xFFFF ==> (!(f as u16)) as int == 0xFFFF - f) by (bit_vector);
}

pub fn checksum16(bytes: &[u8]) -> (r: u16)
    ensures
        r == inet_checksum(bytes@),
{
    let mut sum: u32 = 0;
    let mut i: usize = 0;
    let n = bytes.len();
    while i + 1 < n
        invariant
            n == bytes@.len(),
            i % 2 == 0,
            i <= n,
            sum == word_sum(bytes@, (i / 2) as nat),
        decreases n - i,
    {
        let w = (((bytes[i] as u16) << 8u16) | (bytes[i + 1] as u16)) as u32;
        let a = bytes[i];
        let b = bytes[i + 1];
        assert(((((a as u16) << 8u16) | (b as u16)) as u32) == (((a as u32) << 8u32) | (b as u32))) by (bit_vector);
        sum = sum.wrapping_add(w);
        assert((i + 2) / 2 == i / 2 + 1);
        i += 2;
    }
    assert(i / 2 == n / 2);
    if i < n {
        sum = sum.wrapping_add((bytes[i] as u32) << 8u32);
    }
    assert(sum == ones_sum(bytes@));
    while (sum >> 16u32) != 0
        invariant
            fold_carries(sum) == fold_carries(ones_sum(bytes@)),
        decreases sum,
    {
        assert(sum >> 16u32 != 0 ==> (sum & 0xffffu32) + (sum >> 16u32) < sum) by (bit_vector);
        sum = (sum & 0xffff) + (sum >> 16u32);
    }
    !(sum as u16)
}

// ----------------------------------------------------------------------------
// Parsers
// ----------------------------------------------------------------------------

impl EthernetFrame {
    pub open spec fn spec_parse(s: Seq<u8>) -> Result<EthernetFrame, PacketError> {
        if s.len() < ETH_HEADER {
            Err(PacketError::TooShort)
        } else {
            Ok(EthernetFrame {
                destination: [s[0], s[1], s[2], s[3], s[4], s[5]],
                source: [s[6], s[7], s[8], s[9], s[10], s[11]],
                ethertype: rdbe16(s, 12),
            })
        }
    }

    pub fn parse(bytes: &[u8]) -> (r: Result<Self, PacketError>)
        ensures
            r == Self::spec_parse(bytes@),
    {
        if bytes.len() < ETH_HEADER {
            return Err(PacketError::TooShort);
        }
        Ok(Self {
            destination: [bytes[0], bytes[1], bytes[2], bytes[3], bytes[4], bytes[5]],
            source: [bytes[6], bytes[7], bytes[8], bytes[9], bytes[10], bytes[11]],
            ethertype: read_be16(bytes, 12),
        })
    }
}

/// The first `hl` header bytes with the checksum field cleared.
pub open spec fn zeroed_header(s: Seq<u8>, hl: int) -> Seq<u8> {
    s.subrange(0, hl).update(10, 0u8).update(11, 0u8)
}

impl Ipv4Header {
    pub open spec fn header_len_of(s: Seq<u8>) -> int {
        ((s[0] & 0x0f) as int) * 4
    }

    /// IPv4 header validation: version 4, a header length of at least 20
    /// bytes within `s`, a total length between the header length and
    /// `s.len()`, and a matching header checksum.
    pub open spec fn spec_parse(s: Seq<u8>) -> Result<Ipv4Header, PacketError> {
        let hl = Self::header_len_of(s);
        if s.len() < IPV4_MIN_HEADER {
            Err(PacketError::TooShort)
        } else if s[0] >> 4u8 != 4 {
            Err(PacketError::InvalidIpv4)
        } else if hl < IPV4_MIN_HEADER || hl > s.len() {
            Err(PacketError::InvalidIpv4)
        } else if rdbe16(s, 2) > s.len() || rdbe16(s, 2) < hl {
            Err(PacketError::InvalidLength)
        } else if inet_checksum(zeroed_header(s, hl)) != rdbe16(s, 10) {
            Err(PacketError::InvalidChecksum)
        } else {
            Ok(Ipv4Header {
                source: [s[12], s[13], s[14], s[15]],
                destination: [s[16], s[17], s[18], s[19]],
                total_length: rdbe16(s, 2),
                protocol: s[9],
                header_len: hl as usize,
            })
        }
    }

    pub fn parse(bytes: &[u8]) -> (r: Result<Self, PacketError>)
        ensures
            r == Self::spec_parse(bytes@),
    {
        if bytes.len() < IPV4_MIN_HEADER {
            return Err(PacketError::TooShort);
        }
        if bytes[0] >> 4u8 != 4 {
            return Err(PacketError::InvalidIpv4);
        }
        let header_len = ((bytes[0] & 0x0f) as usize) * 4;
        if header_len < IPV4_MIN_HEADER || header_len > bytes.len() {
            return Err(PacketError::InvalidIpv4);
        }
        let total_length = read_be16(bytes, 2);
        if total_length as usize > bytes.len() || (total_length as usize) < header_len {
            return Err(PacketError::InvalidLength);
        }
        let expected = read_be16(bytes, 10);
        let mut header: Vec<u8> = Vec::new();
        let mut i: usize = 0;
        while i < header_len
            invariant
                header_len <= bytes@.len(),
                20 <= header_len,
                i <= header_len,
                header@.len() == i,
                forall|j: int| 0 <= j < i ==> #[trigger] header@[j] == if j == 10 || j == 11 { 0u8 } else { bytes@[j] },
            decreases header_len - i,
        {
            let b = if i == 10 || i == 11 { 0u8 } else { bytes[i] };
            header.push(b);
            i += 1;
        }
        assert(header@ =~= zeroed_header(bytes@, header_len as int));
        if checksum16(header.as_slice()) != expected {
            return Err(PacketError::InvalidChecksum);
        }
        Ok(Self {
            source: [bytes[12], bytes[13], bytes[14], bytes[15]],
            destination: [bytes[16], bytes[17], bytes[18], bytes[19]],
            total_length,
            protocol: bytes[9],
            header_len,
        })
    }
}

impl UdpHeader {
    pub open spec fn spec_parse(s: Seq<u8>) -> Result<UdpHeader, PacketError> {
        if s.len() < UDP_HEADER {
            Err(PacketError::TooShort)
        } else if rdbe16(s, 4) < UDP_HEADER || rdbe16(s, 4) > s.len() {
            Err(PacketError::InvalidLength)
        } else {
            Ok(UdpHeader { source_port: rdbe16(s, 0), destination_port: rdbe16(s, 2), length: rdbe16(s, 4) })
        }
    }

    pub fn parse(bytes: &[u8]) -> (r: Result<Self, PacketError>)
        ensures
            r == Self::spec_parse(bytes@),
    {
        if bytes.len() < UDP_HEADER {
            return Err(PacketError::TooShort);
        }
        let length = read_be16(bytes, 4);
        if length < UDP_HEADER as u16 || length as usize > bytes.len() {
            return Err(PacketError::InvalidLength);
        }
        Ok(Self { source_port: read_be16(bytes, 0), destination_port: read_be16(bytes, 2), length })
    }
}

// ----------------------------------------------------------------------------
// Frame builder
// ----------------------------------------------------------------------------

/// An IPv4 header (no options, DF set, TTL 64, protocol UDP) with a zero
/// checksum field.
pub open spec fn ipv4_header_unsummed(ip_len: u16, source: [u8; 4], destination: [u8; 4]) -> Seq<u8> {
    seq![0x45u8, 0u8] + be16(ip_len) + seq![0u8, 0u8] + be16(0x4000) + seq![64u8, 17u8, 0u8, 0u8] + source@ + destination@
}

/// The same header with its Internet checksum filled in.
pub open spec fn ipv4_header(ip_len: u16, source: [u8; 4], destination: [u8; 4]) -> Seq<u8> {
    seq![0x45u8, 0u8] + be16(ip_len) + seq![0u8, 0u8] + be16(0x4000) + seq![64u8, 17u8]
        + be16(inet_checksum(ipv4_header_unsummed(ip_len, source, destination))) + source@ + destination@
}

/// The Ethernet/IPv4/UDP frame `build_udp_ipv4` writes (UDP checksum 0).
pub open spec fn udp_frame(
    source_mac: [u8; 6],
    destination_mac: [u8; 6],
    source_ip: [u8; 4],
    destination_ip: [u8; 4],
    source_port: u16,
    destination_port: u16,
    payload: Seq<u8>,
) -> Seq<u8> {
    destination_mac@ + source_mac@ + be16(0x0800)
        + ipv4_header((IPV4_MIN_HEADER + UDP_HEADER + payload.len()) as u16, source_ip, destination_ip)
        + be16(source_port) + be16(destination_port) + be16((UDP_HEADER + payload.len()) as u16) + be16(0)
        + payload
}

fn push_array6(out: &mut Vec<u8>, a: &[u8; 6])
    ensures
        final(out)@ == old(out)@ + a@,
{
    out.push(a[0]);
    out.push(a[1]);
    out.push(a[2]);
    out.push(a[3]);
    out.push(a[4]);
    out.push(a[5]);
    assert(final(out)@ =~= old(out)@ + a@);
}

fn push_array4(out: &mut Vec<u8>, a: &[u8; 4])
    ensures
        final(out)@ == old(out)@ + a@,
{
    out.push(a[0]);
    out.push(a[1]);
    out.push(a[2]);
    out.push(a[3]);
    assert(final(out)@ =~= old(out)@ + a@);
}

fn build_ipv4_header(ip_len: u16, source: &[u8; 4], destination: &[u8; 4]) -> (h: Vec<u8>)
    ensures
        h@ == ipv4_header(ip_len, *source, *destination),
{
    let mut h: Vec<u8> = Vec::new();
    h.push(0x45);
    h.push(0);
    push_be16(&mut h, ip_len);
    h.push(0);
    h.push(0);
    push_be16(&mut h, 0x4000);
    h.push(64);
    h.push(17);
    h.push(0);
    h.push(0);
    push_array4(&mut h, source);
    push_array4(&mut h, destination);
    assert(h@ =~= ipv4_header_unsummed(ip_len, *source, *destination));
    let c = checksum16(h.as_slice());
    h.set(10, (c >> 8) as u8);
    h.set(11, (c & 0xff) as u8);
    assert(h@ =~= ipv4_header(ip_len, *source, *destination));
    h
}

/// Writes an Ethernet II / IPv4 / UDP frame carrying `payload` to the front of
/// `out` and returns its length.
pub fn build_udp_ipv4(
    out: &mut [u8],
    source_mac: [u8; 6],
    destination_mac: [u8; 6],
    source_ip: [u8; 4],
    destination_ip: [u8; 4],
    source_port: u16,
    destination_port: u16,
    payload: &[u8],
) -> (r: Result<usize, PacketError>)
    ensures
        ({
            let total = ETH_HEADER + IPV4_MIN_HEADER + UDP_HEADER + payload@.len();
            match r {
                Ok(n) => {
                    &&& total <= MAX_PACKET && total <= old(out)@.len() && n == total
                    &&& final(out)@ == udp_frame(source_mac, destination_mac, source_ip, destination_ip, source_port, destination_port, payload@)
                        + old(out)@.skip(n as int)
                },
                Err(e) => {
                    &&& final(out)@ == old(out)@
                    &&& if total > usize::MAX { e == PacketError::InvalidLength } else {
                        e == PacketError::OutputTooSmall && (total > MAX_PACKET || total > old(out)@.len())
                    }
                },
            }
        }),
{
    let total = match payload.len().checked_add(ETH_HEADER + IPV4_MIN_HEADER + UDP_HEADER) {
        Some(t) => t,
        None => return Err(PacketError::InvalidLength),
    };
    if total > MAX_PACKET || out.len() < total {
        return Err(PacketError::OutputTooSmall);
    }
    let mut frame: Vec<u8> = Vec::new();
    push_array6(&mut frame, &destination_mac);
    push_array6(&mut frame, &source_mac);
    push_be16(&mut frame, 0x0800);
    let ip = build_ipv4_header((total - ETH_HEADER) as u16, &source_ip, &destination_ip);
    push_all(&mut frame, ip.as_slice());
    push_be16(&mut frame, source_port);
    push_be16(&mut frame, destination_port);
    push_be16(&mut frame, (UDP_HEADER + payload.len()) as u16);
    push_be16(&mut frame, 0);
    push_all(&mut frame, payload);
    assert(frame@ =~= udp_frame(source_mac, destination_mac, source_ip, destination_ip, source_port, destination_port, payload@));
    copy_prefix(out, &frame);
    Ok(total)
}

/// A frame made by `build_udp_ipv4` parses back: the Ethernet header gives
/// the two addresses and the IPv4 ethertype, the IPv4 header (checksum
/// included) gives the two IP addresses, UDP and the lengths, and the UDP
/// header gives the two ports and the datagram length.
pub proof fn lemma_udp_frame_round_trip(
    source_mac: [u8; 6],
    destination_mac: [u8; 6],
    source_ip: [u8; 4],
    destination_ip: [u8; 4],
    source_port: u16,
    destination_port: u16,
    payload: Seq<u8>,
)
    requires
        ETH_HEADER + IPV4_MIN_HEADER + UDP_HEADER + payload.len() <= MAX_PACKET,
    ensures
        ({
            let f = udp_frame(source_mac, destination_mac, source_ip, destination_ip, source_port, destination_port, payload);
            let ip = f.subrange(ETH_HEADER as int, f.len() as int);
            let udp = f.subrange((ETH_HEADER + IPV4_MIN_HEADER) as int, f.len() as int);
            &&& EthernetFrame::spec_parse(f) matches Ok(eth)
            &&& eth.destination == destination_mac && eth.source == source_mac && eth.ethertype == 0x0800
            &&& Ipv4Header::spec_parse(ip) matches Ok(h)
            &&& h.source == source_ip && h.destination == destination_ip && h.protocol == 17
            &&& h.header_len == IPV4_MIN_HEADER && h.total_length == IPV4_MIN_HEADER + UDP_HEADER + payload.len()
            &&& UdpHeader::spec_parse(udp) == Ok::<UdpHeader, PacketError>(UdpHeader {
                source_port,
                destination_port,
                length: (UDP_HEADER + payload.len()) as u16,
            })
        }),
{
    let f = udp_frame(source_mac, destination_mac, source_ip, destination_ip, source_port, destination_port, payload);
    let ip_len = (IPV4_MIN_HEADER + UDP_HEADER + payload.len()) as u16;
    let hdr = ipv4_header(ip_len, source_ip, destination_ip);
    let ip = f.subrange(ETH_HEADER as int, f.len() as int);
    let udp = f.subrange((ETH_HEADER + IPV4_MIN_HEADER) as int, f.len() as int);
    assert(f.len() == 42 + payload.len());
    // Ethernet
    assert(f.subrange(12, 14) =~= be16(0x0800));
    lemma_be16(0x0800, f, 12);
    let eth = EthernetFrame::spec_parse(f)->Ok_0;
    assert(eth.destination@ =~= destination_mac@);
    assert(eth.source@ =~= source_mac@);
    // IPv4
    assert(ip.subrange(0, 20) =~= hdr);
    assert(ip[0] == 0x45u8);
    assert(0x45u8 >> 4u8 == 4u8 && (0x45u8 & 0x0fu8) == 5u8) by (bit_vector);
    assert(ip.subrange(2, 4) =~= be16(ip_len));
    lemma_be16(ip_len, ip, 2);
    let unsummed = ipv4_header_unsummed(ip_len, source_ip, destination_ip);
    assert(ip.subrange(10, 12) =~= be16(inet_checksum(unsummed)));
    lemma_be16(inet_checksum(unsummed), ip, 10);
    assert(zeroed_header(ip, 20) =~= unsummed);
    let h = Ipv4Header::spec_parse(ip)->Ok_0;
    assert(h.source@ =~= source_ip@);
    assert(h.destination@ =~= destination_ip@);
    // UDP
    assert(udp.subrange(0, 2) =~= be16(source_port));
    assert(udp.subrange(2, 4) =~= be16(destination_port));
    assert(udp.subrange(4, 6) =~= be16((UDP_HEADER + payload.len()) as u16));
    lemma_be16(source_port, udp, 0);
    lemma_be16(destination_port, udp, 2);
    lemma_be16((UDP_HEADER + payload.len()) as u16, udp, 4);
}

} // verus!
