//! CTAPHID keepalive messages.

use vstd::prelude::*;

verus! {

/// CTAPHID packet size.
pub const HID_PACKET_SIZE: usize = 64;
/// The KEEPALIVE command (0x3B) with the initialization-packet bit set.
pub const KEEPALIVE_INIT_BYTE: u8 = 0xBB;

/// The keepalive packet for channel `cid` with `status`: an initialization
/// packet holding the channel ID (big-endian), the command byte, a payload
/// length of 1 (big-endian) and the status, padded with zeros.
pub open spec fn keepalive_packet(cid: u32, status: u8) -> Seq<u8> {
    Seq::new(
        64,
        |i: int|
            if i == 0 {
                (cid / 0x100_0000) as u8
            } else if i == 1 {
                ((cid / 0x1_0000) % 256) as u8
            } else if i == 2 {
                ((cid / 0x100) % 256) as u8
            } else if i == 3 {
                (cid % 256) as u8
            } else if i == 4 {
                KEEPALIVE_INIT_BYTE
            } else if i == 5 {
                0u8
            } else if i == 6 {
                1u8
            } else if i == 7 {
                status
            } else {
                0u8
            },
    )
}

/// Encodes a CTAPHID keepalive message for channel `cid` with `status`.
pub fn encode_keepalive(cid: u32, status: u8) -> (p: [u8; 64])
    ensures
        p@ == keepalive_packet(cid, status),
        p@[0] * 0x100_0000 + p@[1] * 0x1_0000 + p@[2] * 0x100 + p@[3] == cid,
        p@[4] == 0xBB,
        p@[5] == 0 && p@[6] == 1,
        p@[7] == status,
        forall|i: int| 8 <= i < 64 ==> #[trigger] p@[i] == 0,
{
    let mut p = [0u8; 64];
    p[0] = (cid / 0x100_0000) as u8;
    p[1] = ((cid / 0x1_0000) % 256) as u8;
    p[2] = ((cid / 0x100) % 256) as u8;
    p[3] = (cid % 256) as u8;
    p[4] = KEEPALIVE_INIT_BYTE;
    p[6] = 1;
    p[7] = status;
    assert(p@ =~= keepalive_packet(cid, status));
    assert((cid / 0x100_0000) * 0x100_0000 + ((cid / 0x1_0000) % 256) * 0x1_0000
        + ((cid / 0x100) % 256) * 0x100 + cid % 256 == cid) by (nonlinear_arith);
    p
}

} // verus!
