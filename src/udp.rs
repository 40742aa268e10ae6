//! Configuration record handed to the packet-queue UDP bypass engine.
use vstd::prelude::*;

verus! {

/// Size of the engine's packet receive buffer.
pub const UDP_RECV_BUF_SIZE: usize = 2048;

/// Length of the decoy payload of fake UDP packets.
pub const FAKE_PKT_LEN: usize = 64;

/// What the UDP bypass engine is started with.
#[derive(Clone, Debug)]
pub struct UdpBypassHelpData {
    /// Firewall mark of outgoing fake packets.
    pub mark: i32,
    pub queue_num: u16,
    pub fake_ttl: u8,
    /// Payload of fake packets: `FAKE_PKT_LEN` zero bytes.
    pub fake_pkt_payload: Vec<u8>,
    pub log_level: i32,
    /// Receive buffer of the engine's queue loop.
    pub buf: Vec<u8>,
}

fn zeros(len: usize) -> (r: Vec<u8>)
    ensures
        r@ == Seq::new(len as nat, |k: int| 0u8),
{
    let mut r: Vec<u8> = Vec::new();
    let mut k: usize = 0;
    while k < len
        invariant
            0 <= k <= len,
            r@ == Seq::new(k as nat, |j: int| 0u8),
        decreases len - k,
    {
        r.push(0u8);
        assert(r@ =~= Seq::new((k + 1) as nat, |j: int| 0u8));
        k = k + 1;
    }
    r
}

impl UdpBypassHelpData {
    /// A record for queue `queue_num` with a zeroed receive buffer of
    /// `BUF_SIZE` bytes.
    pub fn new<const BUF_SIZE: usize>(mark: i32, queue_num: u16, fake_ttl: u8, log_level: i32) -> (r: Self)
        ensures
            r.mark == mark,
            r.queue_num == queue_num,
            r.fake_ttl == fake_ttl,
            r.log_level == log_level,
            r.fake_pkt_payload@ == Seq::new(FAKE_PKT_LEN as nat, |k: int| 0u8),
            r.buf@ == Seq::new(BUF_SIZE as nat, |k: int| 0u8),
    {
        UdpBypassHelpData {
            mark,
            queue_num,
            fake_ttl,
            fake_pkt_payload: zeros(FAKE_PKT_LEN),
            log_level,
            buf: zeros(BUF_SIZE),
        }
    }
}

} // verus!
