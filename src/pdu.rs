use crate::command::{kind_code, kind_of_code, Command, CommandKind};
use vstd::prelude::*;

verus! {

/// Length of the frame header that precedes the PDU in an Ethernet payload.
pub const FRAME_HEADER_LEN: usize = 2;

/// Length of the PDU header: command, index, address, register, length, IRQ.
pub const PDU_HEADER_LEN: usize = 10;

/// Length of the working counter that follows the PDU data.
pub const WKC_LEN: usize = 2;

/// The largest data length that the 11-bit length field can carry.
pub const MAX_PDU_DATA_LEN: usize = 2047;

/// The frame type code of a PDU frame, held in the header's top four bits.
pub const PDU_FRAME_TYPE: u8 = 1;

/// One protocol data unit: a command, its slot index, its data and the
/// working counter.
#[derive(Clone, Debug)]
pub struct Pdu {
    pub command: Command,
    pub index: u8,
    pub data: Vec<u8>,
    pub working_counter: u16,
}

/// The mathematical value of a `Pdu`.
pub struct PduView {
    pub command: Command,
    pub index: u8,
    pub data: Seq<u8>,
    pub working_counter: u16,
}

impl View for Pdu {
    type V = PduView;

    open spec fn view(&self) -> PduView {
        PduView {
            command: self.command,
            index: self.index,
            data: self.data@,
            working_counter: self.working_counter,
        }
    }
}

/// Why a received Ethernet payload holds no usable PDU.
#[derive(Copy, Clone, Debug, PartialEq, Eq, Structural)]
pub enum ParseError {
    /// The bytes end before the PDU does.
    Truncated,
    /// The frame header names a frame type other than a PDU frame.
    NotPdu,
    /// The command code names no command.
    UnknownCommand,
    /// The data is longer than the receiver accepts.
    TooLong,
}

/// A little-endian 16-bit value.
pub open spec fn le16(lo: u8, hi: u8) -> int {
    lo as int + 256 * hi as int
}

/// The two little-endian bytes of a 16-bit value.
pub open spec fn le16_bytes(v: int) -> Seq<u8> {
    seq![(v % 256) as u8, (v / 256) as u8]
}

/// The Ethernet payload that carries `p`: the frame header (datagram length
/// in bits 0-10, frame type in bits 12-15), the PDU header, the data and the
/// working counter.
pub open spec fn pdu_bytes(p: PduView) -> Seq<u8> {
    let len = p.data.len() as int;
    let total = PDU_HEADER_LEN as int + len + WKC_LEN as int;
    seq![(total % 256) as u8, (total / 256 + 16 * PDU_FRAME_TYPE as int) as u8]
        + seq![kind_code(p.command.kind), p.index]
        + le16_bytes(p.command.address as int)
        + le16_bytes(p.command.register as int)
        + le16_bytes(len)
        + seq![0u8, 0u8]
        + p.data
        + le16_bytes(p.working_counter as int)
}

/// The data length that the PDU in an Ethernet payload announces: the low
/// 11 bits of its length field.
pub open spec fn announced_len(b: Seq<u8>) -> int {
    b[8] as int + 256 * (b[9] % 8) as int
}

/// The PDU that an Ethernet payload holds, for a receiver that accepts at
/// most `max` bytes of data.
pub open spec fn parse_pdu(b: Seq<u8>, max: int) -> Result<PduView, ParseError> {
    if b.len() < FRAME_HEADER_LEN + PDU_HEADER_LEN {
        Err(ParseError::Truncated)
    } else if b[1] / 16 != PDU_FRAME_TYPE {
        Err(ParseError::NotPdu)
    } else if kind_of_code(b[2]) is None {
        Err(ParseError::UnknownCommand)
    } else if announced_len(b) > max {
        Err(ParseError::TooLong)
    } else if b.len() < FRAME_HEADER_LEN + PDU_HEADER_LEN + announced_len(b) + WKC_LEN {
        Err(ParseError::Truncated)
    } else {
        let len = announced_len(b);
        let end = FRAME_HEADER_LEN + PDU_HEADER_LEN + len;
        Ok(
            PduView {
                command: Command {
                    kind: kind_of_code(b[2])->Some_0,
                    address: le16(b[4], b[5]) as u16,
                    register: le16(b[6], b[7]) as u16,
                },
                index: b[3],
                data: b.subrange(FRAME_HEADER_LEN + PDU_HEADER_LEN, end),
                working_counter: le16(b[end], b[end + 1]) as u16,
            },
        )
    }
}

fn push_le16(out: &mut Vec<u8>, v: u16)
    ensures
        final(out)@ == old(out)@ + le16_bytes(v as int),
{
    out.push((v % 256) as u8);
    out.push((v / 256) as u8);
    assert(final(out)@ =~= old(out)@ + le16_bytes(v as int));
}

impl Pdu {
    /// A PDU carrying a copy of `data`.
    pub fn new(command: Command, index: u8, data: &[u8]) -> (r: Pdu)
        ensures
            r@ == (PduView { command, index, data: data@, working_counter: 0 }),
    {
        let mut buf: Vec<u8> = Vec::new();
        let mut i: usize = 0;
        while i < data.len()
            invariant
                i <= data@.len(),
                buf@ == data@.subrange(0, i as int),
            decreases data@.len() - i,
        {
            buf.push(data[i]);
            i = i + 1;
            assert(buf@ =~= data@.subrange(0, i as int));
        }
        assert(buf@ =~= data@);
        Pdu { command, index, data: buf, working_counter: 0 }
    }

    /// Whether this PDU answers `request`: the same command and index.
    pub fn is_response_to(&self, request: &Pdu) -> (r: bool)
        ensures
            r == (self.command == request.command && self.index == request.index),
    {
        self.command == request.command && self.index == request.index
    }

    /// The Ethernet payload that carries this PDU.
    pub fn to_ethernet_payload(&self) -> (r: Vec<u8>)
        requires
            self.data@.len() <= MAX_PDU_DATA_LEN,
        ensures
            r@ == pdu_bytes(self@),
    {
        let len: usize = self.data.len();
        let total: usize = PDU_HEADER_LEN + len + WKC_LEN;
        let mut out: Vec<u8> = Vec::new();
        out.push((total % 256) as u8);
        out.push((total / 256 + 16 * (PDU_FRAME_TYPE as usize)) as u8);
        out.push(self.command.kind.code());
        out.push(self.index);
        push_le16(&mut out, self.command.address);
        push_le16(&mut out, self.command.register);
        push_le16(&mut out, len as u16);
        out.push(0);
        out.push(0);
        let ghost head = out@;
        assert(head =~= seq![(total % 256) as u8, (total / 256 + 16 * PDU_FRAME_TYPE as int) as u8]
            + seq![kind_code(self.command.kind), self.index]
            + le16_bytes(self.command.address as int)
            + le16_bytes(self.command.register as int)
            + le16_bytes(len as int)
            + seq![0u8, 0u8]);
        let mut i: usize = 0;
        while i < len
            invariant
                len == self.data@.len(),
                i <= len,
                out@ == head + self.data@.subrange(0, i as int),
            decreases len - i,
        {
            out.push(self.data[i]);
            i = i + 1;
            assert(out@ =~= head + self.data@.subrange(0, i as int));
        }
        assert(self.data@.subrange(0, len as int) =~= self.data@);
        push_le16(&mut out, self.working_counter);
        out
    }

    /// The PDU held in a received Ethernet payload, accepting at most `max`
    /// bytes of data.
    pub fn from_ethernet_payload(b: &[u8], max: usize) -> (r: Result<Pdu, ParseError>)
        ensures
            r matches Ok(p) ==> parse_pdu(b@, max as int) == Ok::<PduView, ParseError>(p@),
            r matches Err(e) ==> parse_pdu(b@, max as int) == Err::<PduView, ParseError>(e),
    {
        if b.len() < FRAME_HEADER_LEN + PDU_HEADER_LEN {
            return Err(ParseError::Truncated);
        }
        if b[1] / 16 != PDU_FRAME_TYPE {
            return Err(ParseError::NotPdu);
        }
        let kind = match CommandKind::from_code(b[2]) {
            Some(k) => k,
            None => {
                return Err(ParseError::UnknownCommand);
            },
        };
        let len: usize = (b[8] as usize) + 256 * ((b[9] % 8) as usize);
        if len > max {
            return Err(ParseError::TooLong);
        }
        if b.len() - (FRAME_HEADER_LEN + PDU_HEADER_LEN) < len + WKC_LEN {
            return Err(ParseError::Truncated);
        }
        let start: usize = FRAME_HEADER_LEN + PDU_HEADER_LEN;
        let end: usize = start + len;
        let mut data: Vec<u8> = Vec::new();
        let mut i: usize = start;
        while i < end
            invariant
                start <= i <= end,
                end + WKC_LEN <= b@.len(),
                data@ == b@.subrange(start as int, i as int),
            decreases end - i,
        {
            data.push(b[i]);
            i = i + 1;
            assert(data@ =~= b@.subrange(start as int, i as int));
        }
        let command = Command {
            kind,
            address: (b[4] as u16) + 256 * (b[5] as u16),
            register: (b[6] as u16) + 256 * (b[7] as u16),
        };
        let working_counter: u16 = (b[end] as u16) + 256 * (b[end + 1] as u16);
        Ok(Pdu { command, index: b[3], data, working_counter })
    }
}

/// Decoding the bytes that a PDU encodes to gives that PDU back, for any
/// receiver that accepts its data length.
pub proof fn lemma_pdu_round_trip(p: PduView, max: int)
    requires
        p.data.len() <= max,
        p.data.len() <= MAX_PDU_DATA_LEN,
    ensures
        parse_pdu(pdu_bytes(p), max) == Ok::<PduView, ParseError>(p),
{
    let b = pdu_bytes(p);
    let len = p.data.len() as int;
    let total = PDU_HEADER_LEN as int + len + WKC_LEN as int;
    assert(b[1] == (total / 256 + 16) as u8);
    assert(total / 256 < 16);
    assert(b[1] / 16 == 1);
    assert(kind_of_code(b[2]) == Some(p.command.kind)) by {
        assert(b[2] == kind_code(p.command.kind));
    }
    assert(announced_len(b) == len) by {
        assert(b[8] == (len % 256) as u8);
        assert(b[9] == (len / 256) as u8);
        assert((len / 256) < 8);
    }
    let end = 12 + len;
    assert(b.subrange(12, end) =~= p.data);
    assert(le16(b[4], b[5]) == p.command.address as int);
    assert(le16(b[6], b[7]) == p.command.register as int);
    assert(b[end] == (p.working_counter as int % 256) as u8);
    assert(b[end + 1] == (p.working_counter as int / 256) as u8);
    assert(le16(b[end], b[end + 1]) == p.working_counter as int);
    let q = parse_pdu(b, max)->Ok_0;
    assert(q.command == p.command);
    assert(q.data =~= p.data);
}

} // verus!
