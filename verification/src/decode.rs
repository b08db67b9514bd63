//! Instruction decoding.
//!
//! A CHIP-8 instruction is a 16-bit big-endian word. Decoding splits it into
//! four nibbles plus the derived fields `nn` (low byte) and `nnn` (low twelve
//! bits) and classifies it into one of the recognized instruction forms; a
//! word that matches none of them is an [`Fault::UnknownOpcode`] condition.

use vstd::prelude::*;

verus! {

/// An unrecoverable fault raised while executing a program. All four stand
/// for a malformed or incompatible program image; none is retried.
#[derive(Clone, Copy, PartialEq, Eq, Structural, Debug)]
pub enum Fault {
    /// The word at the program counter matches no recognized instruction form.
    UnknownOpcode,
    /// A call was made with the call stack already at its sixteen-entry limit.
    StackOverflow,
    /// A return was executed with the call stack empty.
    StackUnderflow,
    /// The program counter or an index-relative access reached past `0xFFF`.
    AddressOutOfRange,
}

/// One decoded instruction. Register operands are nibble indices (below 16),
/// `nn` fields are bytes, and address fields are twelve-bit values.
#[derive(Clone, Copy, PartialEq, Eq, Structural, Debug)]
pub enum Instr {
    /// `00E0`: clear every display cell.
    ClearScreen,
    /// `00EE`: pop the call stack into the program counter.
    Return,
    /// `1nnn`: jump to `nnn`.
    Jump(u16),
    /// `2nnn`: push the program counter, then jump to `nnn`.
    Call(u16),
    /// `3xnn`: skip the next instruction if `VX == nn`.
    SkipEqImm(u8, u8),
    /// `4xnn`: skip the next instruction if `VX != nn`.
    SkipNeImm(u8, u8),
    /// `5xy*` (any low nibble): skip the next instruction if `VX == VY`.
    SkipEqReg(u8, u8),
    /// `6xnn`: `VX := nn`.
    LoadImm(u8, u8),
    /// `7xnn`: `VX := VX + nn`, wrapping, flags untouched.
    AddImm(u8, u8),
    /// `8xy0`: `VX := VY`.
    Move(u8, u8),
    /// `8xy1`: `VX := VX | VY`; under the `vf_reset` quirk also `VF := 0`.
    Or(u8, u8),
    /// `8xy2`: `VX := VX & VY`; under the `vf_reset` quirk also `VF := 0`.
    And(u8, u8),
    /// `8xy3`: `VX := VX ^ VY`; under the `vf_reset` quirk also `VF := 0`.
    Xor(u8, u8),
    /// `8xy4`: `VX := VX + VY` wrapping; `VF := 1` exactly on carry.
    AddReg(u8, u8),
    /// `8xy5`: `VX := VX - VY` wrapping; `VF := 1` exactly when no borrow.
    SubXY(u8, u8),
    /// `8xy6`: shift right by one; the source is `VY`, or `VX` under the
    /// `modern_shift` quirk; `VF` gets the bit shifted out.
    ShiftRight(u8, u8),
    /// `8xy7`: `VX := VY - VX` wrapping; `VF := 1` exactly when no borrow.
    SubYX(u8, u8),
    /// `8xyE`: shift left by one; the source is `VY`, or `VX` under the
    /// `modern_shift` quirk; `VF` gets the bit shifted out.
    ShiftLeft(u8, u8),
    /// `9xy*` (any low nibble): skip the next instruction if `VX != VY`.
    SkipNeReg(u8, u8),
    /// `Annn`: `I := nnn`.
    SetIndex(u16),
    /// `Bnnn`: jump to `nnn + V0`.
    JumpV0(u16),
    /// `Cxnn`: `VX := random byte & nn`.
    Random(u8, u8),
    /// `Dxyn`: draw an `n`-row sprite from `I` at `(VX mod 64, VY mod 32)`.
    Draw(u8, u8, u8),
    /// `Ex9E`: skip the next instruction if the key named by `VX` is pressed.
    SkipKeyPressed(u8),
    /// `ExA1`: skip the next instruction if the key named by `VX` is not
    /// pressed.
    SkipKeyNotPressed(u8),
    /// `Fx07`: `VX := delay timer`.
    ReadDelay(u8),
    /// `Fx0A`: block until a key press that is brand-new in the current tick,
    /// then store its code in `VX`.
    WaitKey(u8),
    /// `Fx15`: `delay timer := VX`.
    SetDelay(u8),
    /// `Fx18`: `sound timer := VX`.
    SetSound(u8),
    /// `Fx1E`: `I := I + VX` wrapping; under the `amiga_behaviour` quirk,
    /// `VF := 1` exactly when the sum crosses the `0xFFF` boundary.
    AddIndex(u8),
    /// `Fx29`: `I := VX * 5`, the address of the font glyph for digit `VX`.
    SpriteChar(u8),
    /// `Fx33`: store the decimal digits of `VX` at `I`, `I+1`, `I+2`.
    StoreBcd(u8),
    /// `Fx55`: copy `V0..=VX` to memory at `I`; without the `modern_str_ld`
    /// quirk, `I` ends at `I + X + 1`.
    StoreRegs(u8),
    /// `Fx65`: fill `V0..=VX` from memory at `I`; without the `modern_str_ld`
    /// quirk, `I` ends at `I + X + 1`.
    LoadRegs(u8),
}

/// The high nibble of an opcode, its instruction class.
pub open spec fn nib_c(op: u16) -> u8 {
    ((op >> 12) & 0xF) as u8
}

/// The `x` nibble, usually a register index.
pub open spec fn nib_x(op: u16) -> u8 {
    ((op >> 8) & 0xF) as u8
}

/// The `y` nibble, usually a register index.
pub open spec fn nib_y(op: u16) -> u8 {
    ((op >> 4) & 0xF) as u8
}

/// The low nibble.
pub open spec fn nib_n(op: u16) -> u8 {
    (op & 0xF) as u8
}

/// The low byte.
pub open spec fn low_byte(op: u16) -> u8 {
    (op & 0xFF) as u8
}

/// The low twelve bits, an address.
pub open spec fn addr_of(op: u16) -> u16 {
    op & 0xFFF
}

/// Every extracted field is within its width.
pub proof fn lemma_field_bounds(op: u16)
    ensures
        nib_c(op) < 16,
        nib_x(op) < 16,
        nib_y(op) < 16,
        nib_n(op) < 16,
        addr_of(op) <= 0xFFF,
{
    assert(((op >> 12) & 0xF) < 16 && ((op >> 8) & 0xF) < 16 && ((op >> 4) & 0xF) < 16 && (op
        & 0xF) < 16 && (op & 0xFFF) <= 0xFFF) by (bit_vector);
}

/// The instruction an opcode stands for, if it matches a recognized form.
pub open spec fn decode_spec(op: u16) -> Option<Instr> {
    let c = nib_c(op);
    let x = nib_x(op);
    let y = nib_y(op);
    let n = nib_n(op);
    let nn = low_byte(op);
    let nnn = addr_of(op);
    if op == 0x00E0 {
        Some(Instr::ClearScreen)
    } else if op == 0x00EE {
        Some(Instr::Return)
    } else if c == 0x1 {
        Some(Instr::Jump(nnn))
    } else if c == 0x2 {
        Some(Instr::Call(nnn))
    } else if c == 0x3 {
        Some(Instr::SkipEqImm(x, nn))
    } else if c == 0x4 {
        Some(Instr::SkipNeImm(x, nn))
    } else if c == 0x5 {
        Some(Instr::SkipEqReg(x, y))
    } else if c == 0x6 {
        Some(Instr::LoadImm(x, nn))
    } else if c == 0x7 {
        Some(Instr::AddImm(x, nn))
    } else if c == 0x8 && n == 0x0 {
        Some(Instr::Move(x, y))
    } else if c == 0x8 && n == 0x1 {
        Some(Instr::Or(x, y))
    } else if c == 0x8 && n == 0x2 {
        Some(Instr::And(x, y))
    } else if c == 0x8 && n == 0x3 {
        Some(Instr::Xor(x, y))
    } else if c == 0x8 && n == 0x4 {
        Some(Instr::AddReg(x, y))
    } else if c == 0x8 && n == 0x5 {
        Some(Instr::SubXY(x, y))
    } else if c == 0x8 && n == 0x6 {
        Some(Instr::ShiftRight(x, y))
    } else if c == 0x8 && n == 0x7 {
        Some(Instr::SubYX(x, y))
    } else if c == 0x8 && n == 0xE {
        Some(Instr::ShiftLeft(x, y))
    } else if c == 0x9 {
        Some(Instr::SkipNeReg(x, y))
    } else if c == 0xA {
        Some(Instr::SetIndex(nnn))
    } else if c == 0xB {
        Some(Instr::JumpV0(nnn))
    } else if c == 0xC {
        Some(Instr::Random(x, nn))
    } else if c == 0xD {
        Some(Instr::Draw(x, y, n))
    } else if c == 0xE && y == 0x9 && n == 0xE {
        Some(Instr::SkipKeyPressed(x))
    } else if c == 0xE && y == 0xA && n == 0x1 {
        Some(Instr::SkipKeyNotPressed(x))
    } else if c == 0xF && y == 0x0 && n == 0x7 {
        Some(Instr::ReadDelay(x))
    } else if c == 0xF && y == 0x0 && n == 0xA {
        Some(Instr::WaitKey(x))
    } else if c == 0xF && y == 0x1 && n == 0x5 {
        Some(Instr::SetDelay(x))
    } else if c == 0xF && y == 0x1 && n == 0x8 {
        Some(Instr::SetSound(x))
    } else if c == 0xF && y == 0x1 && n == 0xE {
        Some(Instr::AddIndex(x))
    } else if c == 0xF && y == 0x2 && n == 0x9 {
        Some(Instr::SpriteChar(x))
    } else if c == 0xF && y == 0x3 && n == 0x3 {
        Some(Instr::StoreBcd(x))
    } else if c == 0xF && y == 0x5 && n == 0x5 {
        Some(Instr::StoreRegs(x))
    } else if c == 0xF && y == 0x6 && n == 0x5 {
        Some(Instr::LoadRegs(x))
    } else {
        None
    }
}

/// Every operand field of a decoded instruction is within its width.
pub open spec fn instr_wf(i: Instr) -> bool {
    match i {
        Instr::ClearScreen => true,
        Instr::Return => true,
        Instr::Jump(nnn) => nnn <= 0xFFF,
        Instr::Call(nnn) => nnn <= 0xFFF,
        Instr::SkipEqImm(x, _nn) => x < 16,
        Instr::SkipNeImm(x, _nn) => x < 16,
        Instr::SkipEqReg(x, y) => x < 16 && y < 16,
        Instr::LoadImm(x, _nn) => x < 16,
        Instr::AddImm(x, _nn) => x < 16,
        Instr::Move(x, y) => x < 16 && y < 16,
        Instr::Or(x, y) => x < 16 && y < 16,
        Instr::And(x, y) => x < 16 && y < 16,
        Instr::Xor(x, y) => x < 16 && y < 16,
        Instr::AddReg(x, y) => x < 16 && y < 16,
        Instr::SubXY(x, y) => x < 16 && y < 16,
        Instr::ShiftRight(x, y) => x < 16 && y < 16,
        Instr::SubYX(x, y) => x < 16 && y < 16,
        Instr::ShiftLeft(x, y) => x < 16 && y < 16,
        Instr::SkipNeReg(x, y) => x < 16 && y < 16,
        Instr::SetIndex(nnn) => nnn <= 0xFFF,
        Instr::JumpV0(nnn) => nnn <= 0xFFF,
        Instr::Random(x, _nn) => x < 16,
        Instr::Draw(x, y, n) => x < 16 && y < 16 && n < 16,
        Instr::SkipKeyPressed(x) => x < 16,
        Instr::SkipKeyNotPressed(x) => x < 16,
        Instr::ReadDelay(x) => x < 16,
        Instr::WaitKey(x) => x < 16,
        Instr::SetDelay(x) => x < 16,
        Instr::SetSound(x) => x < 16,
        Instr::AddIndex(x) => x < 16,
        Instr::SpriteChar(x) => x < 16,
        Instr::StoreBcd(x) => x < 16,
        Instr::StoreRegs(x) => x < 16,
        Instr::LoadRegs(x) => x < 16,
    }
}

/// Decode an opcode, or report that it matches no recognized form.
pub fn decode(op: u16) -> (r: Result<Instr, Fault>)
    ensures
        match r {
            Ok(i) => decode_spec(op) == Some(i) && instr_wf(i),
            Err(f) => f == Fault::UnknownOpcode && decode_spec(op) is None,
        },
{
    proof {
        lemma_field_bounds(op);
    }
    let c = ((op >> 12) & 0xF) as u8;
    let x = ((op >> 8) & 0xF) as u8;
    let y = ((op >> 4) & 0xF) as u8;
    let n = (op & 0xF) as u8;
    let nn = (op & 0xFF) as u8;
    let nnn = op & 0xFFF;
    if op == 0x00E0 {
        Ok(Instr::ClearScreen)
    } else if op == 0x00EE {
        Ok(Instr::Return)
    } else if c == 0x1 {
        Ok(Instr::Jump(nnn))
    } else if c == 0x2 {
        Ok(Instr::Call(nnn))
    } else if c == 0x3 {
        Ok(Instr::SkipEqImm(x, nn))
    } else if c == 0x4 {
        Ok(Instr::SkipNeImm(x, nn))
    } else if c == 0x5 {
        Ok(Instr::SkipEqReg(x, y))
    } else if c == 0x6 {
        Ok(Instr::LoadImm(x, nn))
    } else if c == 0x7 {
        Ok(Instr::AddImm(x, nn))
    } else if c == 0x8 && n == 0x0 {
        Ok(Instr::Move(x, y))
    } else if c == 0x8 && n == 0x1 {
        Ok(Instr::Or(x, y))
    } else if c == 0x8 && n == 0x2 {
        Ok(Instr::And(x, y))
    } else if c == 0x8 && n == 0x3 {
        Ok(Instr::Xor(x, y))
    } else if c == 0x8 && n == 0x4 {
        Ok(Instr::AddReg(x, y))
    } else if c == 0x8 && n == 0x5 {
        Ok(Instr::SubXY(x, y))
    } else if c == 0x8 && n == 0x6 {
        Ok(Instr::ShiftRight(x, y))
    } else if c == 0x8 && n == 0x7 {
        Ok(Instr::SubYX(x, y))
    } else if c == 0x8 && n == 0xE {
        Ok(Instr::ShiftLeft(x, y))
    } else if c == 0x9 {
        Ok(Instr::SkipNeReg(x, y))
    } else if c == 0xA {
        Ok(Instr::SetIndex(nnn))
    } else if c == 0xB {
        Ok(Instr::JumpV0(nnn))
    } else if c == 0xC {
        Ok(Instr::Random(x, nn))
    } else if c == 0xD {
        Ok(Instr::Draw(x, y, n))
    } else if c == 0xE && y == 0x9 && n == 0xE {
        Ok(Instr::SkipKeyPressed(x))
    } else if c == 0xE && y == 0xA && n == 0x1 {
        Ok(Instr::SkipKeyNotPressed(x))
    } else if c == 0xF && y == 0x0 && n == 0x7 {
        Ok(Instr::ReadDelay(x))
    } else if c == 0xF && y == 0x0 && n == 0xA {
        Ok(Instr::WaitKey(x))
    } else if c == 0xF && y == 0x1 && n == 0x5 {
        Ok(Instr::SetDelay(x))
    } else if c == 0xF && y == 0x1 && n == 0x8 {
        Ok(Instr::SetSound(x))
    } else if c == 0xF && y == 0x1 && n == 0xE {
        Ok(Instr::AddIndex(x))
    } else if c == 0xF && y == 0x2 && n == 0x9 {
        Ok(Instr::SpriteChar(x))
    } else if c == 0xF && y == 0x3 && n == 0x3 {
        Ok(Instr::StoreBcd(x))
    } else if c == 0xF && y == 0x5 && n == 0x5 {
        Ok(Instr::StoreRegs(x))
    } else if c == 0xF && y == 0x6 && n == 0x5 {
        Ok(Instr::LoadRegs(x))
    } else {
        Err(Fault::UnknownOpcode)
    }
}

} // verus!
