//! Instruction words and their decoding.
//!
//! A word splits into the fields `mode` (top four bits), `x` (bits 8-11),
//! `y` (bits 4-7), `n` (low four bits), `nn` (low byte) and `nnn` (low twelve
//! bits). Decoding turns a word into an `Instruction`, or finds that it is
//! none.
use vstd::prelude::*;

verus! {

/// The top four bits of `opcode`.
pub open spec fn mode_of(opcode: u16) -> u8 {
    (opcode / 0x1000) as u8
}

/// Bits 8 to 11 of `opcode`: the first register index.
pub open spec fn x_of(opcode: u16) -> u8 {
    ((opcode / 0x100) % 0x10) as u8
}

/// Bits 4 to 7 of `opcode`: the second register index.
pub open spec fn y_of(opcode: u16) -> u8 {
    ((opcode / 0x10) % 0x10) as u8
}

/// The low four bits of `opcode`.
pub open spec fn n_of(opcode: u16) -> u8 {
    (opcode % 0x10) as u8
}

/// The low byte of `opcode`.
pub open spec fn nn_of(opcode: u16) -> u8 {
    (opcode % 0x100) as u8
}

/// The low twelve bits of `opcode`.
pub open spec fn nnn_of(opcode: u16) -> u16 {
    opcode % 0x1000
}

/// One decoded instruction. Register indices `x` and `y` are below 16 and
/// addresses below 4096 in every instruction that decoding yields.
#[derive(Clone, Copy, Debug, PartialEq, Eq)]
pub enum Instruction {
    /// `0000`: stop the machine.
    Halt,
    /// `00E0`: clear the display.
    ClearScreen,
    /// `00EE`: return from a subroutine.
    Return,
    /// `1nnn`: jump to `addr`.
    Jump { addr: u16 },
    /// `2nnn`: call the subroutine at `addr`.
    Call { addr: u16 },
    /// `3xnn`: skip the next instruction if `Vx == nn`.
    SkipIfEqual { x: u8, nn: u8 },
    /// `4xnn`: skip the next instruction if `Vx != nn`.
    SkipIfNotEqual { x: u8, nn: u8 },
    /// `5xy0`: skip the next instruction if `Vx == Vy`.
    SkipIfSame { x: u8, y: u8 },
    /// `6xnn`: `Vx := nn`.
    SetRegister { x: u8, nn: u8 },
    /// `7xnn`: `Vx := Vx + nn`, wrapping, flag untouched.
    AddConstant { x: u8, nn: u8 },
    /// `8xy0`: `Vx := Vy`.
    CopyRegister { x: u8, y: u8 },
    /// `8xy1`: `Vx := Vx | Vy`.
    Or { x: u8, y: u8 },
    /// `8xy2`: `Vx := Vx & Vy`.
    And { x: u8, y: u8 },
    /// `8xy3`: `Vx := Vx ^ Vy`.
    Xor { x: u8, y: u8 },
    /// `8xy4`: `Vx := Vx + Vy`, `VF := carry`.
    Add { x: u8, y: u8 },
    /// `8xy5`: `Vx := Vx - Vy`, `VF := no borrow`.
    Subtract { x: u8, y: u8 },
    /// `8xy6`: `Vx := Vx >> 1`, `VF := bit shifted out`.
    ShiftRight { x: u8 },
    /// `8xy7`: `Vx := Vy - Vx`, `VF := no borrow`.
    SubtractFrom { x: u8, y: u8 },
    /// `8xyE`: `Vx := Vx << 1`, `VF := bit shifted out`.
    ShiftLeft { x: u8 },
    /// `9xy0`: skip the next instruction if `Vx != Vy`.
    SkipIfDifferent { x: u8, y: u8 },
    /// `Annn`: `I := addr`.
    SetIndex { addr: u16 },
    /// `Bnnn`: jump to `addr + V0`.
    JumpOffset { addr: u16 },
    /// `Cxnn`: `Vx := random byte & nn`.
    Random { x: u8, nn: u8 },
    /// `Dxyn`: draw the `n`-row sprite at `I` at `(Vx, Vy)`, `VF := collision`.
    Draw { x: u8, y: u8, n: u8 },
    /// `Ex9E`: skip the next instruction if key `Vx` is held.
    SkipIfKey { x: u8 },
    /// `ExA1`: skip the next instruction if key `Vx` is not held.
    SkipIfNoKey { x: u8 },
    /// `Fx07`: `Vx := delay timer`.
    ReadDelay { x: u8 },
    /// `Fx0A`: wait for a key and store it in `Vx`.
    WaitKey { x: u8 },
    /// `Fx15`: `delay timer := Vx`.
    SetDelay { x: u8 },
    /// `Fx18`: `sound timer := Vx`.
    SetSound { x: u8 },
    /// `Fx1E`: `I := I + Vx`, wrapping at 16 bits.
    AddIndex { x: u8 },
    /// `Fx29`: `I := address of the glyph for Vx`.
    FontChar { x: u8 },
    /// `Fx33`: store the three decimal digits of `Vx` at `I`, `I+1`, `I+2`.
    Decimal { x: u8 },
    /// `Fx55`: store `V0..=Vx` at `I..`.
    Store { x: u8 },
    /// `Fx65`: load `V0..=Vx` from `I..`.
    Load { x: u8 },
}

/// The instruction that `opcode` encodes, or `None` where it encodes none.
pub open spec fn decoded(opcode: u16) -> Option<Instruction> {
    let x = x_of(opcode);
    let y = y_of(opcode);
    let n = n_of(opcode);
    let nn = nn_of(opcode);
    let addr = nnn_of(opcode);
    let mode = mode_of(opcode);
    if opcode == 0x0000 {
        Some(Instruction::Halt)
    } else if mode == 0x0 {
        if addr == 0x0E0 {
            Some(Instruction::ClearScreen)
        } else if addr == 0x0EE {
            Some(Instruction::Return)
        } else {
            None
        }
    } else if mode == 0x1 {
        Some(Instruction::Jump { addr })
    } else if mode == 0x2 {
        Some(Instruction::Call { addr })
    } else if mode == 0x3 {
        Some(Instruction::SkipIfEqual { x, nn })
    } else if mode == 0x4 {
        Some(Instruction::SkipIfNotEqual { x, nn })
    } else if mode == 0x5 {
        if n == 0 {
            Some(Instruction::SkipIfSame { x, y })
        } else {
            None
        }
    } else if mode == 0x6 {
        Some(Instruction::SetRegister { x, nn })
    } else if mode == 0x7 {
        Some(Instruction::AddConstant { x, nn })
    } else if mode == 0x8 {
        if n == 0x0 {
            Some(Instruction::CopyRegister { x, y })
        } else if n == 0x1 {
            Some(Instruction::Or { x, y })
        } else if n == 0x2 {
            Some(Instruction::And { x, y })
        } else if n == 0x3 {
            Some(Instruction::Xor { x, y })
        } else if n == 0x4 {
            Some(Instruction::Add { x, y })
        } else if n == 0x5 {
            Some(Instruction::Subtract { x, y })
        } else if n == 0x6 {
            Some(Instruction::ShiftRight { x })
        } else if n == 0x7 {
            Some(Instruction::SubtractFrom { x, y })
        } else if n == 0xE {
            Some(Instruction::ShiftLeft { x })
        } else {
            None
        }
    } else if mode == 0x9 {
        if n == 0 {
            Some(Instruction::SkipIfDifferent { x, y })
        } else {
            None
        }
    } else if mode == 0xA {
        Some(Instruction::SetIndex { addr })
    } else if mode == 0xB {
        Some(Instruction::JumpOffset { addr })
    } else if mode == 0xC {
        Some(Instruction::Random { x, nn })
    } else if mode == 0xD {
        Some(Instruction::Draw { x, y, n })
    } else if mode == 0xE {
        if nn == 0x9E {
            Some(Instruction::SkipIfKey { x })
        } else if nn == 0xA1 {
            Some(Instruction::SkipIfNoKey { x })
        } else {
            None
        }
    } else {
        if nn == 0x07 {
            Some(Instruction::ReadDelay { x })
        } else if nn == 0x0A {
            Some(Instruction::WaitKey { x })
        } else if nn == 0x15 {
            Some(Instruction::SetDelay { x })
        } else if nn == 0x18 {
            Some(Instruction::SetSound { x })
        } else if nn == 0x1E {
            Some(Instruction::AddIndex { x })
        } else if nn == 0x29 {
            Some(Instruction::FontChar { x })
        } else if nn == 0x33 {
            Some(Instruction::Decimal { x })
        } else if nn == 0x55 {
            Some(Instruction::Store { x })
        } else if nn == 0x65 {
            Some(Instruction::Load { x })
        } else {
            None
        }
    }
}

impl Instruction {
    /// Whether the register indices are below 16, the row count below 16 and
    /// the address below 4096, as in every decoded instruction.
    pub open spec fn wf(self) -> bool {
        match self {
            Instruction::Halt | Instruction::ClearScreen | Instruction::Return => true,
            Instruction::Jump { addr }
            | Instruction::Call { addr }
            | Instruction::SetIndex { addr }
            | Instruction::JumpOffset { addr } => addr < 0x1000,
            Instruction::SkipIfEqual { x, nn }
            | Instruction::SkipIfNotEqual { x, nn }
            | Instruction::SetRegister { x, nn }
            | Instruction::AddConstant { x, nn }
            | Instruction::Random { x, nn } => x < 16,
            Instruction::SkipIfSame { x, y }
            | Instruction::CopyRegister { x, y }
            | Instruction::Or { x, y }
            | Instruction::And { x, y }
            | Instruction::Xor { x, y }
            | Instruction::Add { x, y }
            | Instruction::Subtract { x, y }
            | Instruction::SubtractFrom { x, y }
            | Instruction::SkipIfDifferent { x, y } => x < 16 && y < 16,
            Instruction::Draw { x, y, n } => x < 16 && y < 16 && n < 16,
            Instruction::ShiftRight { x }
            | Instruction::ShiftLeft { x }
            | Instruction::SkipIfKey { x }
            | Instruction::SkipIfNoKey { x }
            | Instruction::ReadDelay { x }
            | Instruction::WaitKey { x }
            | Instruction::SetDelay { x }
            | Instruction::SetSound { x }
            | Instruction::AddIndex { x }
            | Instruction::FontChar { x }
            | Instruction::Decimal { x }
            | Instruction::Store { x }
            | Instruction::Load { x } => x < 16,
        }
    }
}

/// Whether `ins` moves the program counter or halts the machine.
pub open spec fn is_control(ins: Instruction) -> bool {
    ins is Halt || ins is Return || ins is Jump || ins is Call || ins is SkipIfEqual
        || ins is SkipIfNotEqual || ins is SkipIfSame || ins is SkipIfDifferent
        || ins is JumpOffset || ins is SkipIfKey || ins is SkipIfNoKey || ins is WaitKey
}

/// Whether `ins` computes a register from registers, a constant or the
/// random byte.
pub open spec fn is_arithmetic(ins: Instruction) -> bool {
    ins is SetRegister || ins is AddConstant || ins is CopyRegister || ins is Or || ins is And
        || ins is Xor || ins is Add || ins is Subtract || ins is ShiftRight
        || ins is SubtractFrom || ins is ShiftLeft || ins is Random
}

/// Every instruction that decoding yields is well formed.
pub proof fn lemma_decoded_wf(opcode: u16)
    ensures
        decoded(opcode) matches Some(ins) ==> ins.wf(),
{
}

} // verus!
