//! The instruction set: what each two-byte opcode means.
use vstd::prelude::*;

verus! {

/// A decoded instruction. Register operands are register numbers 0..=0xF,
/// written X and Y in the opcode names.
#[derive(Clone, Copy, Debug, PartialEq, Eq)]
pub enum Instruction {
    /// 00E0
    ClearScreen,
    /// 00EE
    Return,
    /// 1NNN
    Jump(u16),
    /// 2NNN
    Call(u16),
    /// 3XNN
    SkipIfEqual(usize, u8),
    /// 4XNN
    SkipIfNotEqual(usize, u8),
    /// 5XY_
    SkipIfRegistersEqual(usize, usize),
    /// 6XNN
    SetRegister(usize, u8),
    /// 7XNN
    AddToRegister(usize, u8),
    /// 8XY0
    Move(usize, usize),
    /// 8XY1
    Or(usize, usize),
    /// 8XY2
    And(usize, usize),
    /// 8XY3
    Xor(usize, usize),
    /// 8XY4
    AddRegisters(usize, usize),
    /// 8XY5
    SubRegisters(usize, usize),
    /// 8XY6
    ShiftRight(usize, usize),
    /// 8XY7
    SubReversed(usize, usize),
    /// 8XYE
    ShiftLeft(usize, usize),
    /// 9XY_
    SkipIfRegistersNotEqual(usize, usize),
    /// ANNN
    SetIndex(u16),
    /// BNNN
    JumpPlusV0(u16),
    /// CXNN
    Random(usize, u8),
    /// DXYN
    Draw(usize, usize, u8),
    /// EX9E
    SkipIfKey(usize),
    /// EXA1
    SkipIfNotKey(usize),
    /// FX07
    ReadDelay(usize),
    /// FX0A
    WaitKey(usize),
    /// FX15
    SetDelay(usize),
    /// FX18
    SetSound(usize),
    /// FX1E
    AddToIndex(usize),
    /// FX29
    FontSprite(usize),
    /// FX33
    StoreBcd(usize),
    /// FX55
    StoreRegisters(usize),
    /// FX65
    LoadRegisters(usize),
}

/// The high nibble of an opcode, which selects its group.
pub open spec fn op_kind(op: u16) -> int {
    op as int / 0x1000
}

/// The X field (bits 8..12).
pub open spec fn op_x(op: u16) -> usize {
    ((op as int / 0x100) % 0x10) as usize
}

/// The Y field (bits 4..8).
pub open spec fn op_y(op: u16) -> usize {
    ((op as int / 0x10) % 0x10) as usize
}

/// The N field (low nibble).
pub open spec fn op_n(op: u16) -> u8 {
    (op as int % 0x10) as u8
}

/// The NN field (low byte).
pub open spec fn op_nn(op: u16) -> u8 {
    (op as int % 0x100) as u8
}

/// The NNN field (low twelve bits, an address).
pub open spec fn op_nnn(op: u16) -> u16 {
    (op as int % 0x1000) as u16
}

/// The instruction an opcode stands for; `None` for an unknown opcode.
pub open spec fn decode_spec(op: u16) -> Option<Instruction> {
    let x = op_x(op);
    let y = op_y(op);
    let n = op_n(op);
    let nn = op_nn(op);
    let nnn = op_nnn(op);
    let kind = op_kind(op);
    if kind == 0x0 {
        if op == 0x00E0 {
            Some(Instruction::ClearScreen)
        } else if op == 0x00EE {
            Some(Instruction::Return)
        } else {
            None
        }
    } else if kind == 0x1 {
        Some(Instruction::Jump(nnn))
    } else if kind == 0x2 {
        Some(Instruction::Call(nnn))
    } else if kind == 0x3 {
        Some(Instruction::SkipIfEqual(x, nn))
    } else if kind == 0x4 {
        Some(Instruction::SkipIfNotEqual(x, nn))
    } else if kind == 0x5 {
        Some(Instruction::SkipIfRegistersEqual(x, y))
    } else if kind == 0x6 {
        Some(Instruction::SetRegister(x, nn))
    } else if kind == 0x7 {
        Some(Instruction::AddToRegister(x, nn))
    } else if kind == 0x8 {
        if n == 0x0 {
            Some(Instruction::Move(x, y))
        } else if n == 0x1 {
            Some(Instruction::Or(x, y))
        } else if n == 0x2 {
            Some(Instruction::And(x, y))
        } else if n == 0x3 {
            Some(Instruction::Xor(x, y))
        } else if n == 0x4 {
            Some(Instruction::AddRegisters(x, y))
        } else if n == 0x5 {
            Some(Instruction::SubRegisters(x, y))
        } else if n == 0x6 {
            Some(Instruction::ShiftRight(x, y))
        } else if n == 0x7 {
            Some(Instruction::SubReversed(x, y))
        } else if n == 0xE {
            Some(Instruction::ShiftLeft(x, y))
        } else {
            None
        }
    } else if kind == 0x9 {
        Some(Instruction::SkipIfRegistersNotEqual(x, y))
    } else if kind == 0xA {
        Some(Instruction::SetIndex(nnn))
    } else if kind == 0xB {
        Some(Instruction::JumpPlusV0(nnn))
    } else if kind == 0xC {
        Some(Instruction::Random(x, nn))
    } else if kind == 0xD {
        Some(Instruction::Draw(x, y, n))
    } else if kind == 0xE {
        if nn == 0x9E {
            Some(Instruction::SkipIfKey(x))
        } else if nn == 0xA1 {
            Some(Instruction::SkipIfNotKey(x))
        } else {
            None
        }
    } else {
        if nn == 0x07 {
            Some(Instruction::ReadDelay(x))
        } else if nn == 0x0A {
            Some(Instruction::WaitKey(x))
        } else if nn == 0x15 {
            Some(Instruction::SetDelay(x))
        } else if nn == 0x18 {
            Some(Instruction::SetSound(x))
        } else if nn == 0x1E {
            Some(Instruction::AddToIndex(x))
        } else if nn == 0x29 {
            Some(Instruction::FontSprite(x))
        } else if nn == 0x33 {
            Some(Instruction::StoreBcd(x))
        } else if nn == 0x55 {
            Some(Instruction::StoreRegisters(x))
        } else if nn == 0x65 {
            Some(Instruction::LoadRegisters(x))
        } else {
            None
        }
    }
}

impl Instruction {
    /// Every register operand names one of the sixteen registers.
    pub open spec fn wf(self) -> bool {
        match self {
            Instruction::SkipIfEqual(x, _) => x < 16,
            Instruction::SkipIfNotEqual(x, _) => x < 16,
            Instruction::SkipIfRegistersEqual(x, y) => x < 16 && y < 16,
            Instruction::SetRegister(x, _) => x < 16,
            Instruction::AddToRegister(x, _) => x < 16,
            Instruction::Move(x, y) => x < 16 && y < 16,
            Instruction::Or(x, y) => x < 16 && y < 16,
            Instruction::And(x, y) => x < 16 && y < 16,
            Instruction::Xor(x, y) => x < 16 && y < 16,
            Instruction::AddRegisters(x, y) => x < 16 && y < 16,
            Instruction::SubRegisters(x, y) => x < 16 && y < 16,
            Instruction::ShiftRight(x, y) => x < 16 && y < 16,
            Instruction::SubReversed(x, y) => x < 16 && y < 16,
            Instruction::ShiftLeft(x, y) => x < 16 && y < 16,
            Instruction::SkipIfRegistersNotEqual(x, y) => x < 16 && y < 16,
            Instruction::Random(x, _) => x < 16,
            Instruction::Draw(x, y, n) => x < 16 && y < 16 && n < 16,
            Instruction::SkipIfKey(x) => x < 16,
            Instruction::SkipIfNotKey(x) => x < 16,
            Instruction::ReadDelay(x) => x < 16,
            Instruction::WaitKey(x) => x < 16,
            Instruction::SetDelay(x) => x < 16,
            Instruction::SetSound(x) => x < 16,
            Instruction::AddToIndex(x) => x < 16,
            Instruction::FontSprite(x) => x < 16,
            Instruction::StoreBcd(x) => x < 16,
            Instruction::StoreRegisters(x) => x < 16,
            Instruction::LoadRegisters(x) => x < 16,
            Instruction::Jump(a) => a < 0x1000,
            Instruction::Call(a) => a < 0x1000,
            Instruction::SetIndex(a) => a < 0x1000,
            Instruction::JumpPlusV0(a) => a < 0x1000,
            _ => true,
        }
    }
}

/// Splits an opcode into its fields and names the instruction it stands for.
pub fn decode(opcode: u16) -> (ins: Option<Instruction>)
    ensures
        ins == decode_spec(opcode),
        ins matches Some(i) ==> i.wf(),
{
    let nnn = opcode % 0x1000;
    let nn = (opcode % 0x100) as u8;
    let n = (opcode % 0x10) as u8;
    let x = ((opcode / 0x100) % 0x10) as usize;
    let y = ((opcode / 0x10) % 0x10) as usize;
    match opcode / 0x1000 {
        0x0 => {
            if opcode == 0x00E0 {
                Some(Instruction::ClearScreen)
            } else if opcode == 0x00EE {
                Some(Instruction::Return)
            } else {
                None
            }
        },
        0x1 => Some(Instruction::Jump(nnn)),
        0x2 => Some(Instruction::Call(nnn)),
        0x3 => Some(Instruction::SkipIfEqual(x, nn)),
        0x4 => Some(Instruction::SkipIfNotEqual(x, nn)),
        0x5 => Some(Instruction::SkipIfRegistersEqual(x, y)),
        0x6 => Some(Instruction::SetRegister(x, nn)),
        0x7 => Some(Instruction::AddToRegister(x, nn)),
        0x8 => match n {
            0x0 => Some(Instruction::Move(x, y)),
            0x1 => Some(Instruction::Or(x, y)),
            0x2 => Some(Instruction::And(x, y)),
            0x3 => Some(Instruction::Xor(x, y)),
            0x4 => Some(Instruction::AddRegisters(x, y)),
            0x5 => Some(Instruction::SubRegisters(x, y)),
            0x6 => Some(Instruction::ShiftRight(x, y)),
            0x7 => Some(Instruction::SubReversed(x, y)),
            0xE => Some(Instruction::ShiftLeft(x, y)),
            _ => None,
        },
        0x9 => Some(Instruction::SkipIfRegistersNotEqual(x, y)),
        0xA => Some(Instruction::SetIndex(nnn)),
        0xB => Some(Instruction::JumpPlusV0(nnn)),
        0xC => Some(Instruction::Random(x, nn)),
        0xD => Some(Instruction::Draw(x, y, n)),
        0xE => match nn {
            0x9E => Some(Instruction::SkipIfKey(x)),
            0xA1 => Some(Instruction::SkipIfNotKey(x)),
            _ => None,
        },
        _ => match nn {
            0x07 => Some(Instruction::ReadDelay(x)),
            0x0A => Some(Instruction::WaitKey(x)),
            0x15 => Some(Instruction::SetDelay(x)),
            0x18 => Some(Instruction::SetSound(x)),
            0x1E => Some(Instruction::AddToIndex(x)),
            0x29 => Some(Instruction::FontSprite(x)),
            0x33 => Some(Instruction::StoreBcd(x)),
            0x55 => Some(Instruction::StoreRegisters(x)),
            0x65 => Some(Instruction::LoadRegisters(x)),
            _ => None,
        },
    }
}

} // verus!
