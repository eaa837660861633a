use vstd::prelude::*;

verus! {

/// A point or direction in space, as the IEEE-754 bit patterns of its three
/// `f32` coordinates.
#[derive(Debug, Clone, Copy, PartialEq, Eq, Structural)]
pub struct Vec3 {
    pub x_bits: u32,
    pub y_bits: u32,
    pub z_bits: u32,
}

/// A rotation quaternion, as the IEEE-754 bit patterns of its four `f32`
/// components.
#[derive(Debug, Clone, Copy, PartialEq, Eq, Structural)]
pub struct Quat {
    pub x_bits: u32,
    pub y_bits: u32,
    pub z_bits: u32,
    pub w_bits: u32,
}

/// The network address of a peer: the IP address as a 128-bit number (the
/// four octets of an IPv4 address in its low 32 bits), the port, and for
/// IPv6 the flow information and scope id, all of which take part in
/// telling two addresses apart.
#[derive(Debug, Clone, Copy, PartialEq, Eq, Structural)]
pub struct PeerAddr {
    pub is_v6: bool,
    pub ip: u128,
    pub port: u16,
    pub flowinfo: u32,
    pub scope_id: u32,
}

impl Vec3 {
    /// The origin, `(0.0, 0.0, 0.0)`: every coordinate has the all-zero bit
    /// pattern of `+0.0`.
    pub fn zero() -> (v: Vec3)
        ensures
            v.x_bits == 0 && v.y_bits == 0 && v.z_bits == 0,
    {
        Vec3 { x_bits: 0, y_bits: 0, z_bits: 0 }
    }

    /// A point from the bit patterns of its coordinates.
    pub fn from_v3(x_bits: u32, y_bits: u32, z_bits: u32) -> (v: Vec3)
        ensures
            v.x_bits == x_bits && v.y_bits == y_bits && v.z_bits == z_bits,
    {
        Vec3 { x_bits, y_bits, z_bits }
    }
}

} // verus!
