use rust8::{Fault, Instruction};

#[test]
fn decode_system_family() {
    assert_eq!(Instruction::decode(0x00E0), Ok(Instruction::Clear));
    assert_eq!(Instruction::decode(0x00EE), Ok(Instruction::Ret));
    assert_eq!(Instruction::decode(0x0000), Ok(Instruction::NoOp));
    assert_eq!(Instruction::decode(0x0123), Ok(Instruction::NoOp));
    assert_eq!(Instruction::decode(0x0FFF), Ok(Instruction::NoOp));
    assert_eq!(Instruction::decode(0x00E1), Ok(Instruction::NoOp));
}

#[test]
fn decode_operand_fields() {
    assert_eq!(Instruction::decode(0x1ABC), Ok(Instruction::Jmp(0xABC)));
    assert_eq!(Instruction::decode(0x2345), Ok(Instruction::Call(0x345)));
    assert_eq!(Instruction::decode(0x3A42), Ok(Instruction::RegEqVal(0xA, 0x42)));
    assert_eq!(Instruction::decode(0x4B17), Ok(Instruction::RegNeqVal(0xB, 0x17)));
    assert_eq!(Instruction::decode(0x5120), Ok(Instruction::RegEqReg(1, 2)));
    assert_eq!(Instruction::decode(0x6005), Ok(Instruction::SetRegVal(0, 5)));
    assert_eq!(Instruction::decode(0x7CFF), Ok(Instruction::AddRegVal(0xC, 0xFF)));
    assert_eq!(Instruction::decode(0x9340), Ok(Instruction::RegNeqReg(3, 4)));
    assert_eq!(Instruction::decode(0xA123), Ok(Instruction::SetI(0x123)));
    assert_eq!(Instruction::decode(0xB200), Ok(Instruction::JmpOffset(0x200)));
    assert_eq!(Instruction::decode(0xC70F), Ok(Instruction::SetRegRand(7, 0x0F)));
    assert_eq!(Instruction::decode(0xD125), Ok(Instruction::Draw(1, 2, 5)));
}

#[test]
fn decode_arithmetic_family() {
    assert_eq!(Instruction::decode(0x8AB0), Ok(Instruction::SetRegReg(0xA, 0xB)));
    assert_eq!(Instruction::decode(0x8AB1), Ok(Instruction::SetRegOrReg(0xA, 0xB)));
    assert_eq!(Instruction::decode(0x8AB2), Ok(Instruction::SetRegAndReg(0xA, 0xB)));
    assert_eq!(Instruction::decode(0x8AB3), Ok(Instruction::SetRegXorReg(0xA, 0xB)));
    assert_eq!(Instruction::decode(0x8AB4), Ok(Instruction::AddRegReg(0xA, 0xB)));
    assert_eq!(Instruction::decode(0x8AB5), Ok(Instruction::SubRegReg(0xA, 0xB)));
    assert_eq!(Instruction::decode(0x8AB6), Ok(Instruction::ShiftRegRight(0xA)));
    assert_eq!(Instruction::decode(0x8AB7), Ok(Instruction::RevRegSubReg(0xA, 0xB)));
    assert_eq!(Instruction::decode(0x8ABE), Ok(Instruction::ShiftRegLeft(0xA)));
}

#[test]
fn decode_key_and_misc_families() {
    assert_eq!(Instruction::decode(0xE19E), Ok(Instruction::KeyDown(1)));
    assert_eq!(Instruction::decode(0xE2A1), Ok(Instruction::KeyUp(2)));
    assert_eq!(Instruction::decode(0xF307), Ok(Instruction::SetRegDelay(3)));
    assert_eq!(Instruction::decode(0xF40A), Ok(Instruction::SetRegKey(4)));
    assert_eq!(Instruction::decode(0xF515), Ok(Instruction::SetDelayReg(5)));
    assert_eq!(Instruction::decode(0xF618), Ok(Instruction::SetSoundReg(6)));
    assert_eq!(Instruction::decode(0xF71E), Ok(Instruction::AddIReg(7)));
    assert_eq!(Instruction::decode(0xF829), Ok(Instruction::SetISpriteReg(8)));
    assert_eq!(Instruction::decode(0xF933), Ok(Instruction::BCD(9)));
    assert_eq!(Instruction::decode(0xFA55), Ok(Instruction::Dump(0xA)));
    assert_eq!(Instruction::decode(0xFB65), Ok(Instruction::Load(0xB)));
}

#[test]
fn decode_unknown_opcodes() {
    assert_eq!(Instruction::decode(0x8AB8), Err(Fault::UnknownOpcode(0x8AB8)));
    assert_eq!(Instruction::decode(0x800F), Err(Fault::UnknownOpcode(0x800F)));
    assert_eq!(Instruction::decode(0xE1FF), Err(Fault::UnknownOpcode(0xE1FF)));
    assert_eq!(Instruction::decode(0xF1FF), Err(Fault::UnknownOpcode(0xF1FF)));
    assert_eq!(Instruction::decode(0xF000), Err(Fault::UnknownOpcode(0xF000)));
}
