//! Request/response multiplexing core of a fieldbus master: the AL
//! control/status register codec, the PDU wire codec and the fixed-capacity
//! frame slot table that correlates responses with their requests.

pub mod al_control;
pub mod client_inner;
pub mod command;
pub mod ethernet;
pub mod pdu;
pub mod slave_state;

pub use al_control::{AlControl, RegisterError};
pub use client_inner::{ClientInternals, Dispatch, PduError, RequestState};
pub use command::{Command, CommandKind};
pub use ethernet::{ETHERCAT_ETHERTYPE, MASTER_ADDR_BYTE};
pub use pdu::{ParseError, Pdu, PduView};
pub use slave_state::SlaveState;
