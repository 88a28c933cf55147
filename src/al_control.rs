use crate::slave_state::{state_code, state_of_code, SlaveState};
use vstd::prelude::*;

verus! {

/// Width of the AL control/status register in bytes.
pub const AL_CONTROL_LEN: usize = 2;

/// The AL control/status word for an individual slave device.
#[derive(Copy, Clone, Debug, PartialEq, Eq, Structural)]
pub struct AlControl {
    /// AL status.
    pub state: SlaveState,
    /// Error flag.
    pub error: bool,
    /// ID request flag.
    pub id_request: bool,
}

/// Why a register could not be decoded.
#[derive(Copy, Clone, Debug, PartialEq, Eq, Structural)]
pub enum RegisterError {
    /// The buffer does not have the register's width.
    BufferSizeMismatch { expected: usize, actual: usize },
}

/// Byte 0 of the register: the state code in bits 0-3, the error flag in
/// bit 4, the id-request flag in bit 5, bits 6-7 zero.
pub open spec fn al_byte(c: AlControl) -> int {
    (state_code(c.state) % 16) as int + (if c.error { 16int } else { 0 }) + (if c.id_request {
        32int
    } else {
        0
    })
}

/// The register value that byte 0 holds; byte 1 is reserved.
pub open spec fn al_of_byte(b: u8) -> AlControl {
    AlControl {
        state: state_of_code(b % 16),
        error: (b / 16) % 2 == 1,
        id_request: (b / 32) % 2 == 1,
    }
}

impl AlControl {
    /// A register value that encoding keeps whole: its state code fits in
    /// the low nibble and decodes to that same state.
    pub open spec fn is_valid(self) -> bool {
        state_code(self.state) < 16 && self.state.is_canonical()
    }

    /// A request for the given state, with both flags clear.
    pub fn new(state: SlaveState) -> (r: Self)
        ensures
            r == (AlControl { state, error: false, id_request: false }),
    {
        Self { state, error: false, id_request: false }
    }

    /// A request for `Init` that acknowledges a latched error.
    pub fn reset() -> (r: Self)
        ensures
            r == (AlControl { state: SlaveState::Init, error: true, id_request: false }),
    {
        Self { state: SlaveState::Init, error: true, id_request: false }
    }

    /// The two register bytes.
    pub fn pack(&self) -> (r: [u8; 2])
        ensures
            r@ == seq![al_byte(*self) as u8, 0u8],
            al_byte(*self) < 64,
    {
        let code: u8 = self.state.code() % 16;
        let error: u8 = if self.error { 16 } else { 0 };
        let id_request: u8 = if self.id_request { 32 } else { 0 };
        let byte: u8 = code + error + id_request;
        [byte, 0]
    }

    /// The register value held in two bytes; bits 6-7 and byte 1 are ignored,
    /// and a state code with no name decodes to `SlaveState::Unknown`.
    pub fn unpack(src: &[u8; 2]) -> (r: Self)
        ensures
            r == al_of_byte(src@[0]),
    {
        let byte: u8 = src[0];
        let state = SlaveState::from_code(byte % 16);
        let error = (byte / 16) % 2 == 1;
        let id_request = (byte / 32) % 2 == 1;
        Self { state, error, id_request }
    }

    /// The register value held in a slice, which must be exactly two bytes
    /// long.
    pub fn unpack_from_slice(src: &[u8]) -> (r: Result<Self, RegisterError>)
        ensures
            src@.len() == AL_CONTROL_LEN ==> r == Ok::<Self, RegisterError>(al_of_byte(src@[0])),
            src@.len() != AL_CONTROL_LEN ==> r == Err::<Self, RegisterError>(
                RegisterError::BufferSizeMismatch { expected: AL_CONTROL_LEN, actual: src@.len() as usize },
            ),
    {
        if src.len() != AL_CONTROL_LEN {
            return Err(RegisterError::BufferSizeMismatch { expected: AL_CONTROL_LEN, actual: src.len() });
        }
        let bytes: [u8; 2] = [src[0], src[1]];
        Ok(Self::unpack(&bytes))
    }

    /// Reads the register from the data of a response.
    pub fn try_from_slice(slice: &[u8]) -> (r: Result<Self, RegisterError>)
        ensures
            slice@.len() == AL_CONTROL_LEN ==> r == Ok::<Self, RegisterError>(al_of_byte(slice@[0])),
            slice@.len() != AL_CONTROL_LEN ==> r == Err::<Self, RegisterError>(
                RegisterError::BufferSizeMismatch { expected: AL_CONTROL_LEN, actual: slice@.len() as usize },
            ),
    {
        Self::unpack_from_slice(slice)
    }
}

impl Default for AlControl {
    /// No state recorded, both flags clear.
    fn default() -> (r: Self)
        ensures
            r == (AlControl { state: SlaveState::NotSet, error: false, id_request: false }),
    {
        Self { state: SlaveState::NotSet, error: false, id_request: false }
    }
}

/// Decoding the bytes that a valid register value encodes to gives that
/// value back.
pub proof fn lemma_al_control_round_trip(c: AlControl)
    requires
        c.is_valid(),
    ensures
        al_byte(c) < 256,
        al_of_byte(al_byte(c) as u8) == c,
{
    let b = al_byte(c);
    let code = state_code(c.state) as int;
    assert(b % 16 == code) by (nonlinear_arith)
        requires b == code + (if c.error { 16int } else { 0 }) + (if c.id_request { 32int } else { 0 }), 0 <= code < 16;
    assert((b / 16) % 2 == (if c.error { 1int } else { 0 })) by (nonlinear_arith)
        requires b == code + (if c.error { 16int } else { 0 }) + (if c.id_request { 32int } else { 0 }), 0 <= code < 16;
    assert((b / 32) % 2 == (if c.id_request { 1int } else { 0 })) by (nonlinear_arith)
        requires b == code + (if c.error { 16int } else { 0 }) + (if c.id_request { 32int } else { 0 }), 0 <= code < 16;
}

} // verus!
