//! User-space network service: interfaces, sockets, a first-match firewall
//! and validation of inbound IPv4/UDP frames.

pub mod packet;

use vstd::prelude::*;
use crate::table::{all_full, find_free, is_first_free};
use self::packet::{EthernetFrame, Ipv4Header, PacketError, UdpHeader, ETH_HEADER};

verus! {

pub const MAX_INTERFACES: usize = 4;
pub const MAX_SOCKETS: usize = 32;
pub const MAX_FIREWALL_RULES: usize = 16;
pub const MAX_PACKET_LEN: usize = 1514;

#[derive(Debug, Clone, Copy, PartialEq, Eq)]
pub struct MacAddress(pub [u8; 6]);

#[derive(Debug, Clone, Copy, PartialEq, Eq)]
pub struct Ipv4Address(pub [u8; 4]);

impl Ipv4Address {
    /// 0.0.0.0
    pub fn unspecified() -> (r: Self)
        ensures
            r.0@ == seq![0u8, 0u8, 0u8, 0u8],
    {
        Self::new(0, 0, 0, 0)
    }

    /// 127.0.0.1
    pub fn loopback() -> (r: Self)
        ensures
            r.0@ == seq![127u8, 0u8, 0u8, 1u8],
    {
        Self::new(127, 0, 0, 1)
    }

    pub fn new(a: u8, b: u8, c: u8, d: u8) -> (r: Self)
        ensures
            r.0@ == seq![a, b, c, d],
    {
        let r = Self([a, b, c, d]);
        assert(r.0@ =~= seq![a, b, c, d]);
        r
    }
}

#[derive(Debug, Clone, Copy, PartialEq, Eq, Structural)]
pub enum SocketProtocol {
    Udp,
    Tcp,
}

#[derive(Debug, Clone, Copy, PartialEq, Eq, Structural)]
pub enum SocketState {
    Closed,
    Bound,
    Listening,
    Connected,
}

#[derive(Debug, Clone, Copy)]
pub struct NetworkSocket {
    pub socket_id: u32,
    pub protocol: SocketProtocol,
    pub local_port: u16,
    pub remote_port: u16,
    pub local_ip: Ipv4Address,
    pub remote_ip: Ipv4Address,
    pub state: SocketState,
    pub owner_pid: u32,
}

impl NetworkSocket {
    pub open spec fn fresh(socket_id: u32, protocol: SocketProtocol, owner_pid: u32) -> NetworkSocket {
        NetworkSocket {
            socket_id,
            protocol,
            local_port: 0,
            remote_port: 0,
            local_ip: Ipv4Address([0, 0, 0, 0]),
            remote_ip: Ipv4Address([0, 0, 0, 0]),
            state: SocketState::Closed,
            owner_pid,
        }
    }

    pub fn new(socket_id: u32, protocol: SocketProtocol, owner_pid: u32) -> (s: Self)
        ensures
            s == Self::fresh(socket_id, protocol, owner_pid),
    {
        Self {
            socket_id,
            protocol,
            local_port: 0,
            remote_port: 0,
            local_ip: Ipv4Address([0, 0, 0, 0]),
            remote_ip: Ipv4Address([0, 0, 0, 0]),
            state: SocketState::Closed,
            owner_pid,
        }
    }

    /// Binds a closed socket to a local address.
    pub fn bind(&mut self, ip: Ipv4Address, port: u16) -> (r: Result<(), &'static str>)
        ensures
            match r {
                Ok(()) => old(self).state == SocketState::Closed
                    && *final(self) == (NetworkSocket { local_ip: ip, local_port: port, state: SocketState::Bound, ..*old(self) }),
                Err(e) => e == "Socket already bound or active" && old(self).state != SocketState::Closed && *final(self) == *old(self),
            },
    {
        if self.state != SocketState::Closed {
            return Err("Socket already bound or active");
        }
        self.local_ip = ip;
        self.local_port = port;
        self.state = SocketState::Bound;
        Ok(())
    }
}

#[derive(Debug, Clone, Copy, PartialEq, Eq, Structural)]
pub enum FirewallAction {
    Allow,
    Deny,
}

#[derive(Debug, Clone, Copy)]
pub struct FirewallRule {
    pub rule_id: u32,
    pub protocol: Option<SocketProtocol>,
    pub port_range_start: u16,
    pub port_range_end: u16,
    pub action: FirewallAction,
}

impl FirewallRule {
    /// The rule applies to this protocol (any, when it names none) and the
    /// port lies in its inclusive range.
    pub open spec fn applies(self, protocol: SocketProtocol, port: u16) -> bool {
        (self.protocol is None || self.protocol == Some(protocol))
            && self.port_range_start <= port && port <= self.port_range_end
    }

    pub fn matches(&self, protocol: SocketProtocol, port: u16) -> (r: bool)
        ensures
            r == self.applies(protocol, port),
    {
        if let Some(p) = self.protocol {
            if p != protocol {
                return false;
            }
        }
        port >= self.port_range_start && port <= self.port_range_end
    }
}

/// The action of the first rule (in slot order) that applies; `Deny` when none does.
pub open spec fn firewall_verdict(rules: Seq<Option<FirewallRule>>, protocol: SocketProtocol, port: u16) -> FirewallAction
    decreases rules.len(),
{
    if rules.len() == 0 {
        FirewallAction::Deny
    } else if rules[0] is Some && rules[0]->Some_0.applies(protocol, port) {
        rules[0]->Some_0.action
    } else {
        firewall_verdict(rules.drop_first(), protocol, port)
    }
}

pub struct NetworkDaemon {
    pub interfaces: [Option<MacAddress>; MAX_INTERFACES],
    pub sockets: [Option<NetworkSocket>; MAX_SOCKETS],
    pub firewall_rules: [Option<FirewallRule>; MAX_FIREWALL_RULES],
    pub socket_counter: u32,
    pub rule_counter: u32,
}

/// The verdict of a daemon on an inbound frame: Ethernet II carrying IPv4
/// carrying UDP, to the expected port if one is given, allowed by the firewall.
pub open spec fn frame_verdict(
    rules: Seq<Option<FirewallRule>>,
    frame: Seq<u8>,
    expected_destination: Option<u16>,
) -> Result<(Ipv4Header, UdpHeader), PacketError> {
    match EthernetFrame::spec_parse(frame) {
        Err(e) => Err(e),
        Ok(eth) => if eth.ethertype != 0x0800 {
            Err(PacketError::UnsupportedProtocol)
        } else {
            let ip_bytes = frame.subrange(ETH_HEADER as int, frame.len() as int);
            match Ipv4Header::spec_parse(ip_bytes) {
                Err(e) => Err(e),
                Ok(ip) => if ip.protocol != 17 {
                    Err(PacketError::UnsupportedProtocol)
                } else {
                    let udp_bytes = frame.subrange(ETH_HEADER + ip.header_len, frame.len() as int);
                    match UdpHeader::spec_parse(udp_bytes) {
                        Err(e) => Err(e),
                        Ok(udp) => if expected_destination is Some && udp.destination_port != expected_destination->Some_0 {
                            Err(PacketError::InvalidLength)
                        } else if firewall_verdict(rules, SocketProtocol::Udp, udp.destination_port) != FirewallAction::Allow {
                            Err(PacketError::UnsupportedProtocol)
                        } else {
                            Ok((ip, udp))
                        },
                    }
                },
            }
        },
    }
}

impl NetworkDaemon {
    pub fn new() -> (d: Self)
        ensures
            forall|i: int| 0 <= i < MAX_INTERFACES ==> (#[trigger] d.interfaces@[i]) is None,
            forall|i: int| 0 <= i < MAX_SOCKETS ==> (#[trigger] d.sockets@[i]) is None,
            forall|i: int| 0 <= i < MAX_FIREWALL_RULES ==> (#[trigger] d.firewall_rules@[i]) is None,
            d.socket_counter == 1 && d.rule_counter == 1,
    {
        Self {
            interfaces: [None; MAX_INTERFACES],
            sockets: [None; MAX_SOCKETS],
            firewall_rules: [None; MAX_FIREWALL_RULES],
            socket_counter: 1,
            rule_counter: 1,
        }
    }

    pub fn add_interface(&mut self, mac: MacAddress) -> (r: Result<usize, &'static str>)
        ensures
            match r {
                Ok(i) => is_first_free(old(self).interfaces@, i as int)
                    && final(self).interfaces@ == old(self).interfaces@.update(i as int, Some(mac))
                    && final(self).sockets == old(self).sockets && final(self).firewall_rules == old(self).firewall_rules
                    && final(self).socket_counter == old(self).socket_counter && final(self).rule_counter == old(self).rule_counter,
                Err(e) => e == "No free interface slots" && all_full(old(self).interfaces@) && *final(self) == *old(self),
            },
    {
        match find_free(&self.interfaces) {
            Some(i) => {
                self.interfaces[i] = Some(mac);
                Ok(i)
            },
            None => Err("No free interface slots"),
        }
    }

    pub fn create_socket(&mut self, protocol: SocketProtocol, owner_pid: u32) -> (r: Result<u32, &'static str>)
        ensures
            match r {
                Ok(sid) => sid == old(self).socket_counter
                    && exists|i: int| is_first_free(old(self).sockets@, i)
                        && final(self).sockets@ == old(self).sockets@.update(i, Some(NetworkSocket::fresh(sid, protocol, owner_pid)))
                    && final(self).socket_counter == old(self).socket_counter.saturating_add(1)
                    && final(self).interfaces == old(self).interfaces && final(self).firewall_rules == old(self).firewall_rules
                    && final(self).rule_counter == old(self).rule_counter,
                Err(e) => e == "Socket table full" && all_full(old(self).sockets@) && *final(self) == *old(self),
            },
    {
        let sid = self.socket_counter;
        match find_free(&self.sockets) {
            Some(i) => {
                self.sockets[i] = Some(NetworkSocket::new(sid, protocol, owner_pid));
                self.socket_counter = self.socket_counter.saturating_add(1);
                Ok(sid)
            },
            None => Err("Socket table full"),
        }
    }

    pub fn add_firewall_rule(
        &mut self,
        protocol: Option<SocketProtocol>,
        port_start: u16,
        port_end: u16,
        action: FirewallAction,
    ) -> (r: Result<u32, &'static str>)
        ensures
            match r {
                Ok(rid) => port_start <= port_end && rid == old(self).rule_counter
                    && exists|i: int| is_first_free(old(self).firewall_rules@, i)
                        && final(self).firewall_rules@ == old(self).firewall_rules@.update(i, Some(FirewallRule {
                            rule_id: rid, protocol, port_range_start: port_start, port_range_end: port_end, action }))
                    && final(self).rule_counter == old(self).rule_counter.saturating_add(1)
                    && final(self).interfaces == old(self).interfaces && final(self).sockets == old(self).sockets
                    && final(self).socket_counter == old(self).socket_counter,
                Err(e) => (if port_start > port_end { e == "Invalid port range" } else { e == "Firewall rule capacity reached" && all_full(old(self).firewall_rules@) })
                    && *final(self) == *old(self),
            },
    {
        if port_start > port_end {
            return Err("Invalid port range");
        }
        let rid = self.rule_counter;
        match find_free(&self.firewall_rules) {
            Some(i) => {
                self.firewall_rules[i] = Some(FirewallRule { rule_id: rid, protocol, port_range_start: port_start, port_range_end: port_end, action });
                self.rule_counter = self.rule_counter.saturating_add(1);
                Ok(rid)
            },
            None => Err("Firewall rule capacity reached"),
        }
    }

    /// First-match firewall evaluation, default deny.
    pub fn evaluate_packet(&self, protocol: SocketProtocol, dst_port: u16) -> (r: FirewallAction)
        ensures
            r == firewall_verdict(self.firewall_rules@, protocol, dst_port),
    {
        let mut i: usize = 0;
        assert(self.firewall_rules@.subrange(0, MAX_FIREWALL_RULES as int) =~= self.firewall_rules@);
        while i < MAX_FIREWALL_RULES
            invariant
                self.firewall_rules@.len() == MAX_FIREWALL_RULES,
                i <= MAX_FIREWALL_RULES,
                firewall_verdict(self.firewall_rules@, protocol, dst_port)
                    == firewall_verdict(self.firewall_rules@.subrange(i as int, MAX_FIREWALL_RULES as int), protocol, dst_port),
            decreases MAX_FIREWALL_RULES - i,
        {
            let ghost rest = self.firewall_rules@.subrange(i as int, MAX_FIREWALL_RULES as int);
            assert(rest.drop_first() =~= self.firewall_rules@.subrange(i + 1, MAX_FIREWALL_RULES as int));
            assert(rest[0] == self.firewall_rules@[i as int]);
            if let Some(rule) = &self.firewall_rules[i] {
                if rule.matches(protocol, dst_port) {
                    return rule.action;
                }
            }
            i += 1;
        }
        FirewallAction::Deny
    }

    /// Checks an inbound frame against the IPv4/UDP format and the firewall.
    pub fn validate_ipv4_udp(&self, frame: &[u8], expected_destination: Option<u16>) -> (r: Result<(Ipv4Header, UdpHeader), PacketError>)
        ensures
            r == frame_verdict(self.firewall_rules@, frame@, expected_destination),
    {
        let eth = match EthernetFrame::parse(frame) {
            Ok(e) => e,
            Err(e) => return Err(e),
        };
        if eth.ethertype != 0x0800 {
            return Err(PacketError::UnsupportedProtocol);
        }
        let ip = match Ipv4Header::parse(&frame[ETH_HEADER..frame.len()]) {
            Ok(h) => h,
            Err(e) => return Err(e),
        };
        if ip.protocol != 17 {
            return Err(PacketError::UnsupportedProtocol);
        }
        let udp_start = ETH_HEADER + ip.header_len;
        let udp = match UdpHeader::parse(&frame[udp_start..frame.len()]) {
            Ok(u) => u,
            Err(e) => return Err(e),
        };
        if let Some(port) = expected_destination {
            if udp.destination_port != port {
                return Err(PacketError::InvalidLength);
            }
        }
        if self.evaluate_packet(SocketProtocol::Udp, udp.destination_port) != FirewallAction::Allow {
            return Err(PacketError::UnsupportedProtocol);
        }
        Ok((ip, udp))
    }
}

} // verus!
