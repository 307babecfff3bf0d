//! Network addresses as plain values.
use vstd::prelude::*;

verus! {

/// An IP address: a version 4 address as its 32-bit big-endian value, or a version 6
/// address as its 128-bit big-endian value.
#[derive(Clone, Copy, Debug, PartialEq, Eq, Structural)]
pub enum IpAddress {
    V4(u32),
    V6(u128),
}

/// A socket address: an IP address and a port.
#[derive(Clone, Copy, Debug, PartialEq, Eq, Structural)]
pub struct SocketAddress {
    pub ip: IpAddress,
    pub port: u16,
}

impl IpAddress {
    /// The IPv4 loopback address, 127.0.0.1.
    pub fn localhost() -> (a: IpAddress)
        ensures
            a == IpAddress::V4(0x7f000001),
    {
        IpAddress::V4(0x7f000001)
    }

    /// The IPv4 address `a.b.c.d`.
    pub fn v4(a: u8, b: u8, c: u8, d: u8) -> (r: IpAddress)
        ensures
            r == IpAddress::V4((a * 0x1000000 + b * 0x10000 + c * 0x100 + d) as u32),
    {
        let v: u32 = (a as u32) * 0x1000000 + (b as u32) * 0x10000 + (c as u32) * 0x100 + (d as u32);
        IpAddress::V4(v)
    }
}

impl SocketAddress {
    pub fn new(ip: IpAddress, port: u16) -> (s: SocketAddress)
        ensures
            s.ip == ip,
            s.port == port,
    {
        SocketAddress { ip, port }
    }

    /// The same address with its IP replaced.
    pub fn with_ip(self, ip: IpAddress) -> (s: SocketAddress)
        ensures
            s.ip == ip,
            s.port == self.port,
    {
        SocketAddress { ip, port: self.port }
    }

    /// The same address with its port replaced.
    pub fn with_port(self, port: u16) -> (s: SocketAddress)
        ensures
            s.ip == self.ip,
            s.port == port,
    {
        SocketAddress { ip: self.ip, port }
    }
}

} // verus!
