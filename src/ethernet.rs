use smoltcp::wire::EthernetFrame;
use vstd::prelude::*;

verus! {

/// Length of an Ethernet II header: destination, source, EtherType.
pub const ETHERNET_HEADER_LEN: usize = 14;

/// The EtherType reserved for the fieldbus.
pub const ETHERCAT_ETHERTYPE: u16 = 0x88a4;

/// Each of the six bytes of the master's own Ethernet address.
pub const MASTER_ADDR_BYTE: u8 = 0x10;

/// The master's own Ethernet address.
pub open spec fn master_addr() -> Seq<u8> {
    seq![MASTER_ADDR_BYTE, MASTER_ADDR_BYTE, MASTER_ADDR_BYTE, MASTER_ADDR_BYTE, MASTER_ADDR_BYTE, MASTER_ADDR_BYTE]
}

/// The EtherType of a frame: bytes 12 and 13, big-endian.
pub open spec fn ethertype_of(raw: Seq<u8>) -> int {
    256 * raw[12] as int + raw[13] as int
}

/// The source address of a frame: bytes 6 to 11.
pub open spec fn src_addr_of(raw: Seq<u8>) -> Seq<u8> {
    raw.subrange(6, 12)
}

/// The payload of a frame: everything after the header.
pub open spec fn payload_of(raw: Seq<u8>) -> Seq<u8> {
    raw.subrange(ETHERNET_HEADER_LEN as int, raw.len() as int)
}

/// Relies on smoltcp's `EthernetFrame::ethertype`, which reads bytes 12 and
/// 13 big-endian, and on `u16::from(EtherType)`, which gives that value back.
#[verifier::external_body]
pub(crate) fn frame_ethertype(raw: &[u8]) -> (r: u16)
    requires
        raw@.len() >= ETHERNET_HEADER_LEN,
    ensures
        r as int == ethertype_of(raw@),
{
    u16::from(EthernetFrame::new_unchecked(raw).ethertype())
}

/// Relies on smoltcp's `EthernetFrame::src_addr`, which copies bytes 6 to 11.
#[verifier::external_body]
pub(crate) fn frame_src_addr(raw: &[u8]) -> (r: [u8; 6])
    requires
        raw@.len() >= ETHERNET_HEADER_LEN,
    ensures
        r@ == src_addr_of(raw@),
{
    EthernetFrame::new_unchecked(raw).src_addr().0
}

/// Relies on smoltcp's `EthernetFrame::payload`, the bytes after the
/// 14-byte header.
#[verifier::external_body]
pub(crate) fn frame_payload<'a>(raw: &'a [u8]) -> (r: &'a [u8])
    requires
        raw@.len() >= ETHERNET_HEADER_LEN,
    ensures
        r@ == payload_of(raw@),
{
    EthernetFrame::new_unchecked(raw).payload()
}

/// Whether a source address is the master's own.
pub fn is_master_addr(addr: &[u8; 6]) -> (r: bool)
    ensures
        r == (addr@ == master_addr()),
{
    let r = addr[0] == MASTER_ADDR_BYTE && addr[1] == MASTER_ADDR_BYTE && addr[2] == MASTER_ADDR_BYTE
        && addr[3] == MASTER_ADDR_BYTE && addr[4] == MASTER_ADDR_BYTE && addr[5] == MASTER_ADDR_BYTE;
    assert(r ==> addr@ =~= master_addr());
    r
}

/// The broadcast Ethernet frame that the master sends `payload` in: all-ones
/// destination, the master's address as source, the fieldbus EtherType.
pub open spec fn frame_bytes(payload: Seq<u8>) -> Seq<u8> {
    seq![0xffu8, 0xffu8, 0xffu8, 0xffu8, 0xffu8, 0xffu8] + master_addr() + seq![0x88u8, 0xa4u8]
        + payload
}

/// Builds the broadcast frame that carries `payload`.
pub fn build_frame(payload: &Vec<u8>) -> (r: Vec<u8>)
    ensures
        r@ == frame_bytes(payload@),
{
    let mut out: Vec<u8> = Vec::new();
    let mut i: usize = 0;
    while i < 6
        invariant
            i <= 6,
            out@ == Seq::new(i as nat, |_j: int| 0xffu8),
        decreases 6 - i,
    {
        out.push(0xff);
        i = i + 1;
        assert(out@ =~= Seq::new(i as nat, |_j: int| 0xffu8));
    }
    i = 0;
    while i < 6
        invariant
            i <= 6,
            out@ == Seq::new(6, |_j: int| 0xffu8) + Seq::new(i as nat, |_j: int| MASTER_ADDR_BYTE),
        decreases 6 - i,
    {
        out.push(MASTER_ADDR_BYTE);
        i = i + 1;
        assert(out@ =~= Seq::new(6, |_j: int| 0xffu8) + Seq::new(i as nat, |_j: int| MASTER_ADDR_BYTE));
    }
    out.push((ETHERCAT_ETHERTYPE / 256) as u8);
    out.push((ETHERCAT_ETHERTYPE % 256) as u8);
    let ghost head = out@;
    i = 0;
    while i < payload.len()
        invariant
            i <= payload@.len(),
            out@ == head + payload@.subrange(0, i as int),
        decreases payload@.len() - i,
    {
        out.push(payload[i]);
        i = i + 1;
        assert(out@ =~= head + payload@.subrange(0, i as int));
    }
    assert(out@ =~= frame_bytes(payload@));
    out
}

} // verus!
