use vstd::prelude::*;

verus! {

/// The address of a peer, held as plain values.
#[derive(Clone, Copy, Debug, PartialEq, Eq)]
pub enum PeerAddr {
    V4 { octets: [u8; 4], port: u16 },
    V6 { segments: [u8; 16], port: u16, flowinfo: u32, scope_id: u32 },
}

/// The well-known multicast group and port of discovery traffic.
pub fn multicast_group() -> (r: PeerAddr)
    ensures
        r == (PeerAddr::V4 { octets: [239u8, 255u8, 255u8, 250u8], port: 1900u16 }),
{
    PeerAddr::V4 { octets: [239u8, 255u8, 255u8, 250u8], port: 1900u16 }
}

} // verus!
