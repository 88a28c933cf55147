use vstd::prelude::*;

verus! {

/// The operation that a PDU asks of the devices on the bus.
#[derive(Copy, Clone, Debug, PartialEq, Eq, Structural)]
pub enum CommandKind {
    /// No operation.
    Nop,
    /// Auto-increment physical read.
    Aprd,
    /// Auto-increment physical write.
    Apwr,
    /// Auto-increment physical read/write.
    Aprw,
    /// Configured-address physical read.
    Fprd,
    /// Configured-address physical write.
    Fpwr,
    /// Configured-address physical read/write.
    Fprw,
    /// Broadcast read.
    Brd,
    /// Broadcast write.
    Bwr,
    /// Broadcast read/write.
    Brw,
    /// Logical memory read.
    Lrd,
    /// Logical memory write.
    Lwr,
    /// Logical memory read/write.
    Lrw,
    /// Auto-increment physical read, multiple write.
    Armw,
    /// Configured-address physical read, multiple write.
    Frmw,
}

/// The wire code of a command kind.
pub open spec fn kind_code(k: CommandKind) -> u8 {
    match k {
        CommandKind::Nop => 0,
        CommandKind::Aprd => 1,
        CommandKind::Apwr => 2,
        CommandKind::Aprw => 3,
        CommandKind::Fprd => 4,
        CommandKind::Fpwr => 5,
        CommandKind::Fprw => 6,
        CommandKind::Brd => 7,
        CommandKind::Bwr => 8,
        CommandKind::Brw => 9,
        CommandKind::Lrd => 10,
        CommandKind::Lwr => 11,
        CommandKind::Lrw => 12,
        CommandKind::Armw => 13,
        CommandKind::Frmw => 14,
    }
}

/// The command kind with the given wire code, if there is one.
pub open spec fn kind_of_code(c: u8) -> Option<CommandKind> {
    if c == 0 {
        Some(CommandKind::Nop)
    } else if c == 1 {
        Some(CommandKind::Aprd)
    } else if c == 2 {
        Some(CommandKind::Apwr)
    } else if c == 3 {
        Some(CommandKind::Aprw)
    } else if c == 4 {
        Some(CommandKind::Fprd)
    } else if c == 5 {
        Some(CommandKind::Fpwr)
    } else if c == 6 {
        Some(CommandKind::Fprw)
    } else if c == 7 {
        Some(CommandKind::Brd)
    } else if c == 8 {
        Some(CommandKind::Bwr)
    } else if c == 9 {
        Some(CommandKind::Brw)
    } else if c == 10 {
        Some(CommandKind::Lrd)
    } else if c == 11 {
        Some(CommandKind::Lwr)
    } else if c == 12 {
        Some(CommandKind::Lrw)
    } else if c == 13 {
        Some(CommandKind::Armw)
    } else if c == 14 {
        Some(CommandKind::Frmw)
    } else {
        None
    }
}

impl CommandKind {
    /// The wire code of this kind.
    pub fn code(self) -> (r: u8)
        ensures
            r == kind_code(self),
            kind_of_code(r) == Some(self),
    {
        match self {
            CommandKind::Nop => 0,
            CommandKind::Aprd => 1,
            CommandKind::Apwr => 2,
            CommandKind::Aprw => 3,
            CommandKind::Fprd => 4,
            CommandKind::Fpwr => 5,
            CommandKind::Fprw => 6,
            CommandKind::Brd => 7,
            CommandKind::Bwr => 8,
            CommandKind::Brw => 9,
            CommandKind::Lrd => 10,
            CommandKind::Lwr => 11,
            CommandKind::Lrw => 12,
            CommandKind::Armw => 13,
            CommandKind::Frmw => 14,
        }
    }

    /// The kind with the given wire code; `None` for a code that names no
    /// command.
    pub fn from_code(c: u8) -> (r: Option<CommandKind>)
        ensures
            r == kind_of_code(c),
    {
        if c == 0 {
            Some(CommandKind::Nop)
        } else if c == 1 {
            Some(CommandKind::Aprd)
        } else if c == 2 {
            Some(CommandKind::Apwr)
        } else if c == 3 {
            Some(CommandKind::Aprw)
        } else if c == 4 {
            Some(CommandKind::Fprd)
        } else if c == 5 {
            Some(CommandKind::Fpwr)
        } else if c == 6 {
            Some(CommandKind::Fprw)
        } else if c == 7 {
            Some(CommandKind::Brd)
        } else if c == 8 {
            Some(CommandKind::Bwr)
        } else if c == 9 {
            Some(CommandKind::Brw)
        } else if c == 10 {
            Some(CommandKind::Lrd)
        } else if c == 11 {
            Some(CommandKind::Lwr)
        } else if c == 12 {
            Some(CommandKind::Lrw)
        } else if c == 13 {
            Some(CommandKind::Armw)
        } else if c == 14 {
            Some(CommandKind::Frmw)
        } else {
            None
        }
    }
}

/// A command with its device addressing. For physical commands `address` is
/// the device position or configured address and `register` the register
/// offset; for logical commands the two form the low and high halves of the
/// 32-bit logical address.
#[derive(Copy, Clone, Debug, PartialEq, Eq, Structural)]
pub struct Command {
    pub kind: CommandKind,
    pub address: u16,
    pub register: u16,
}

impl Command {
    /// A command of the given kind addressing a device register.
    pub fn new(kind: CommandKind, address: u16, register: u16) -> (r: Command)
        ensures
            r == (Command { kind, address, register }),
    {
        Command { kind, address, register }
    }

    /// A logical command over the 32-bit logical address `address`.
    pub fn logical(kind: CommandKind, address: u32) -> (r: Command)
        ensures
            r.kind == kind,
            r.address as int + 65536 * r.register as int == address as int,
    {
        Command { kind, address: (address % 65536) as u16, register: (address / 65536) as u16 }
    }
}

} // verus!
