use vstd::prelude::*;

verus! {

/// A decoded CHIP-8 instruction with its operands.
///
/// Register operands are register numbers (0x0 to 0xF), addresses are
/// 12-bit memory addresses, immediates are bytes.
#[derive(Debug, Clone, Copy, PartialEq, Eq, Structural)]
pub enum Instruction {
    Clear,
    NoOp,
    Call(u16),
    Ret,
    Jmp(u16),
    RegEqVal(u8, u8),
    RegNeqVal(u8, u8),
    RegEqReg(u8, u8),
    SetRegVal(u8, u8),
    AddRegVal(u8, u8),
    SetRegReg(u8, u8),
    SetRegOrReg(u8, u8),
    SetRegAndReg(u8, u8),
    SetRegXorReg(u8, u8),
    AddRegReg(u8, u8),
    SubRegReg(u8, u8),
    ShiftRegRight(u8),
    RevRegSubReg(u8, u8),
    ShiftRegLeft(u8),
    RegNeqReg(u8, u8),
    SetI(u16),
    SetRegRand(u8, u8),
    JmpOffset(u16),
    Draw(u8, u8, u8),
    KeyUp(u8),
    KeyDown(u8),
    SetRegDelay(u8),
    SetRegKey(u8),
    SetDelayReg(u8),
    SetSoundReg(u8),
    AddIReg(u8),
    SetISpriteReg(u8),
    BCD(u8),
    Dump(u8),
    Load(u8),
}

/// A condition that halts the machine.
#[derive(Debug, Clone, Copy, PartialEq, Eq, Structural)]
pub enum Fault {
    /// An opcode of the 0x8, 0xE or 0xF family whose selector matches no
    /// instruction.
    UnknownOpcode(u16),
    /// A return executed with an empty call stack.
    StackUnderflow,
}

/// The register field `x`: bits 8 to 11.
pub open spec fn field_x(op: u16) -> u8 {
    ((op / 256) % 16) as u8
}

/// The register field `y`: bits 4 to 7.
pub open spec fn field_y(op: u16) -> u8 {
    ((op / 16) % 16) as u8
}

/// The address field `nnn`: the low 12 bits.
pub open spec fn field_nnn(op: u16) -> u16 {
    op % 4096
}

/// The immediate byte `nn`: the low 8 bits.
pub open spec fn field_nn(op: u16) -> u8 {
    (op % 256) as u8
}

/// The nibble `n`: the low 4 bits.
pub open spec fn field_n(op: u16) -> u8 {
    (op % 16) as u8
}

/// The instruction that an opcode encodes, or the fault of an opcode that
/// encodes none.
pub open spec fn decode_spec(op: u16) -> Result<Instruction, Fault> {
    let x = field_x(op);
    let y = field_y(op);
    let nnn = field_nnn(op);
    let nn = field_nn(op);
    let n = field_n(op);
    let family = op / 4096;
    if family == 0x0 {
        if nnn == 0x0E0 {
            Ok(Instruction::Clear)
        } else if nnn == 0x0EE {
            Ok(Instruction::Ret)
        } else {
            Ok(Instruction::NoOp)
        }
    } else if family == 0x1 {
        Ok(Instruction::Jmp(nnn))
    } else if family == 0x2 {
        Ok(Instruction::Call(nnn))
    } else if family == 0x3 {
        Ok(Instruction::RegEqVal(x, nn))
    } else if family == 0x4 {
        Ok(Instruction::RegNeqVal(x, nn))
    } else if family == 0x5 {
        Ok(Instruction::RegEqReg(x, y))
    } else if family == 0x6 {
        Ok(Instruction::SetRegVal(x, nn))
    } else if family == 0x7 {
        Ok(Instruction::AddRegVal(x, nn))
    } else if family == 0x8 {
        if n == 0x0 {
            Ok(Instruction::SetRegReg(x, y))
        } else if n == 0x1 {
            Ok(Instruction::SetRegOrReg(x, y))
        } else if n == 0x2 {
            Ok(Instruction::SetRegAndReg(x, y))
        } else if n == 0x3 {
            Ok(Instruction::SetRegXorReg(x, y))
        } else if n == 0x4 {
            Ok(Instruction::AddRegReg(x, y))
        } else if n == 0x5 {
            Ok(Instruction::SubRegReg(x, y))
        } else if n == 0x6 {
            Ok(Instruction::ShiftRegRight(x))
        } else if n == 0x7 {
            Ok(Instruction::RevRegSubReg(x, y))
        } else if n == 0xE {
            Ok(Instruction::ShiftRegLeft(x))
        } else {
            Err(Fault::UnknownOpcode(op))
        }
    } else if family == 0x9 {
        Ok(Instruction::RegNeqReg(x, y))
    } else if family == 0xA {
        Ok(Instruction::SetI(nnn))
    } else if family == 0xB {
        Ok(Instruction::JmpOffset(nnn))
    } else if family == 0xC {
        Ok(Instruction::SetRegRand(x, nn))
    } else if family == 0xD {
        Ok(Instruction::Draw(x, y, n))
    } else if family == 0xE {
        if nn == 0x9E {
            Ok(Instruction::KeyDown(x))
        } else if nn == 0xA1 {
            Ok(Instruction::KeyUp(x))
        } else {
            Err(Fault::UnknownOpcode(op))
        }
    } else {
        if nn == 0x07 {
            Ok(Instruction::SetRegDelay(x))
        } else if nn == 0x0A {
            Ok(Instruction::SetRegKey(x))
        } else if nn == 0x15 {
            Ok(Instruction::SetDelayReg(x))
        } else if nn == 0x18 {
            Ok(Instruction::SetSoundReg(x))
        } else if nn == 0x1E {
            Ok(Instruction::AddIReg(x))
        } else if nn == 0x29 {
            Ok(Instruction::SetISpriteReg(x))
        } else if nn == 0x33 {
            Ok(Instruction::BCD(x))
        } else if nn == 0x55 {
            Ok(Instruction::Dump(x))
        } else if nn == 0x65 {
            Ok(Instruction::Load(x))
        } else {
            Err(Fault::UnknownOpcode(op))
        }
    }
}

/// In the 0x0 family, `0x00E0` decodes to `Clear`, `0x00EE` to `Ret`, and
/// every other opcode to `NoOp`.
pub proof fn lemma_decode_system_family(op: u16)
    requires
        op < 0x1000,
    ensures
        op == 0x00E0 ==> decode_spec(op) == Ok::<Instruction, Fault>(Instruction::Clear),
        op == 0x00EE ==> decode_spec(op) == Ok::<Instruction, Fault>(Instruction::Ret),
        op != 0x00E0 && op != 0x00EE ==> decode_spec(op) == Ok::<Instruction, Fault>(
            Instruction::NoOp,
        ),
{
}

impl Instruction {
    /// Whether every operand lies in the range that the opcode format gives
    /// it: register numbers and the sprite height below 16, addresses below
    /// 4096.
    pub open spec fn well_formed(self) -> bool {
        match self {
            Instruction::Clear | Instruction::NoOp | Instruction::Ret => true,
            Instruction::Call(a) | Instruction::Jmp(a) | Instruction::SetI(a)
            | Instruction::JmpOffset(a) => a < 4096,
            Instruction::RegEqVal(x, _) | Instruction::RegNeqVal(x, _)
            | Instruction::SetRegVal(x, _) | Instruction::AddRegVal(x, _)
            | Instruction::SetRegRand(x, _) => x < 16,
            Instruction::RegEqReg(x, y) | Instruction::SetRegReg(x, y)
            | Instruction::SetRegOrReg(x, y) | Instruction::SetRegAndReg(x, y)
            | Instruction::SetRegXorReg(x, y) | Instruction::AddRegReg(x, y)
            | Instruction::SubRegReg(x, y) | Instruction::RevRegSubReg(x, y)
            | Instruction::RegNeqReg(x, y) => x < 16 && y < 16,
            Instruction::Draw(x, y, n) => x < 16 && y < 16 && n < 16,
            Instruction::ShiftRegRight(x) | Instruction::ShiftRegLeft(x)
            | Instruction::KeyUp(x) | Instruction::KeyDown(x)
            | Instruction::SetRegDelay(x) | Instruction::SetRegKey(x)
            | Instruction::SetDelayReg(x) | Instruction::SetSoundReg(x)
            | Instruction::AddIReg(x) | Instruction::SetISpriteReg(x)
            | Instruction::BCD(x) | Instruction::Dump(x) | Instruction::Load(x) => x < 16,
        }
    }

    /// Decodes a 16-bit opcode. The high nibble selects the family; within
    /// the 0x8 family the low nibble, and within the 0xE and 0xF families the
    /// low byte, select the operation. A `0x0nnn` opcode other than `0x00E0`
    /// and `0x00EE` is a machine-code routine call, decoded as `NoOp`.
    pub fn decode(opcode: u16) -> (r: Result<Instruction, Fault>)
        ensures
            r == decode_spec(opcode),
            r matches Ok(ins) ==> ins.well_formed(),
            r matches Err(e) ==> e == Fault::UnknownOpcode(opcode),
    {
        let register_x: u8 = ((opcode / 256) % 16) as u8;
        let register_y: u8 = ((opcode / 16) % 16) as u8;
        let address: u16 = opcode % 4096;
        let nn: u8 = (opcode % 256) as u8;
        let n: u8 = (opcode % 16) as u8;

        match opcode / 4096 {
            0x0 => match address {
                0x0E0 => Ok(Instruction::Clear),
                0x0EE => Ok(Instruction::Ret),
                _ => Ok(Instruction::NoOp),
            },
            0x1 => Ok(Instruction::Jmp(address)),
            0x2 => Ok(Instruction::Call(address)),
            0x3 => Ok(Instruction::RegEqVal(register_x, nn)),
            0x4 => Ok(Instruction::RegNeqVal(register_x, nn)),
            0x5 => Ok(Instruction::RegEqReg(register_x, register_y)),
            0x6 => Ok(Instruction::SetRegVal(register_x, nn)),
            0x7 => Ok(Instruction::AddRegVal(register_x, nn)),
            0x8 => match n {
                0x0 => Ok(Instruction::SetRegReg(register_x, register_y)),
                0x1 => Ok(Instruction::SetRegOrReg(register_x, register_y)),
                0x2 => Ok(Instruction::SetRegAndReg(register_x, register_y)),
                0x3 => Ok(Instruction::SetRegXorReg(register_x, register_y)),
                0x4 => Ok(Instruction::AddRegReg(register_x, register_y)),
                0x5 => Ok(Instruction::SubRegReg(register_x, register_y)),
                0x6 => Ok(Instruction::ShiftRegRight(register_x)),
                0x7 => Ok(Instruction::RevRegSubReg(register_x, register_y)),
                0xE => Ok(Instruction::ShiftRegLeft(register_x)),
                _ => Err(Fault::UnknownOpcode(opcode)),
            },
            0x9 => Ok(Instruction::RegNeqReg(register_x, register_y)),
            0xA => Ok(Instruction::SetI(address)),
            0xB => Ok(Instruction::JmpOffset(address)),
            0xC => Ok(Instruction::SetRegRand(register_x, nn)),
            0xD => Ok(Instruction::Draw(register_x, register_y, n)),
            0xE => match nn {
                0x9E => Ok(Instruction::KeyDown(register_x)),
                0xA1 => Ok(Instruction::KeyUp(register_x)),
                _ => Err(Fault::UnknownOpcode(opcode)),
            },
            _ => match nn {
                0x07 => Ok(Instruction::SetRegDelay(register_x)),
                0x0A => Ok(Instruction::SetRegKey(register_x)),
                0x15 => Ok(Instruction::SetDelayReg(register_x)),
                0x18 => Ok(Instruction::SetSoundReg(register_x)),
                0x1E => Ok(Instruction::AddIReg(register_x)),
                0x29 => Ok(Instruction::SetISpriteReg(register_x)),
                0x33 => Ok(Instruction::BCD(register_x)),
                0x55 => Ok(Instruction::Dump(register_x)),
                0x65 => Ok(Instruction::Load(register_x)),
                _ => Err(Fault::UnknownOpcode(opcode)),
            },
        }
    }
}

} // verus!
