use vstd::prelude::*;

verus! {

/// A decoded instruction word.
///
/// The top four bits of a word select the opcode family; the remaining
/// nibbles carry register indices (`x`, `y`, always below 16), a 4-bit
/// immediate `n`, an 8-bit immediate `kk`, or a 12-bit address `nnn`.
/// A word with no defined operation decodes to `Unknown`, carrying the
/// word itself.
#[derive(Clone, Copy, Debug, PartialEq, Eq)]
pub enum Instruction {
    /// `00E0`: clear the framebuffer.
    ClearScreen,
    /// `00EE`: return from a subroutine.
    Return,
    /// `1nnn`: jump to `nnn`.
    Jump(u16),
    /// `2nnn`: call the subroutine at `nnn`.
    Call(u16),
    /// `3xkk`: skip the next instruction if register `x` equals `kk`.
    SkipEqImm(u8, u8),
    /// `4xkk`: skip the next instruction if register `x` differs from `kk`.
    SkipNeImm(u8, u8),
    /// `5xy0`: skip the next instruction if registers `x` and `y` are equal.
    SkipEqReg(u8, u8),
    /// `9xy0`: skip the next instruction if registers `x` and `y` differ.
    SkipNeReg(u8, u8),
    /// `6xkk`: load `kk` into register `x`.
    LoadImm(u8, u8),
    /// `7xkk`: add `kk` into register `x`, wrapping, with no flag effect.
    AddImm(u8, u8),
    /// `8xy0`: copy register `y` into register `x`.
    Move(u8, u8),
    /// `8xy1`: bitwise OR of registers `x` and `y` into `x`.
    Or(u8, u8),
    /// `8xy2`: bitwise AND of registers `x` and `y` into `x`.
    And(u8, u8),
    /// `8xy3`: bitwise XOR of registers `x` and `y` into `x`.
    Xor(u8, u8),
    /// `8xy4`: add register `y` into `x`; the flag becomes the carry.
    AddCarry(u8, u8),
    /// `8xy5`: subtract register `y` from `x`; the flag becomes the
    /// no-borrow indicator.
    SubBorrow(u8, u8),
    /// `8xy6`: logical shift of register `x` right by one; the flag
    /// becomes the evicted low bit.
    ShiftRight(u8),
    /// `8xy7`: register `x` becomes `y - x`; the flag becomes the
    /// no-borrow indicator.
    SubReverse(u8, u8),
    /// `8xyE`: logical shift of register `x` left by one; the flag
    /// becomes the evicted high bit.
    ShiftLeft(u8),
    /// `Annn`: load `nnn` into the index register.
    LoadIndex(u16),
    /// `Bnnn`: jump to `nnn` plus register 0.
    JumpPlusV0(u16),
    /// `Cxkk`: register `x` becomes a random byte ANDed with `kk`.
    Random(u8, u8),
    /// `Dxyn`: draw the `n`-row sprite at the index register, at the
    /// position named by registers `x` and `y`.
    Draw(u8, u8, u8),
    /// `Ex9E`: skip the next instruction if the key named by register `x`
    /// is down.
    SkipKeyDown(u8),
    /// `ExA1`: skip the next instruction if the key named by register `x`
    /// is up.
    SkipKeyUp(u8),
    /// `Fx07`: load the delay timer into register `x`.
    LoadDelay(u8),
    /// `Fx15`: set the delay timer from register `x`.
    SetDelay(u8),
    /// `Fx1E`: add register `x` into the index register, wrapping.
    AddIndex(u8),
    /// `Fx29`: point the index register at the font glyph for the digit
    /// in register `x`.
    LoadFont(u8),
    /// `Fx33`: write the decimal digits of register `x` to memory at the
    /// index register.
    StoreBcd(u8),
    /// `Fx55`: store registers `0..=x` to memory at the index register.
    StoreRegs(u8),
    /// `Fx65`: load registers `0..=x` from memory at the index register.
    LoadRegs(u8),
    /// A word with no defined operation.
    Unknown(u16),
}

/// The decoding of an instruction word, as the opcode table defines it.
pub open spec fn spec_decode(w: u16) -> Instruction {
    let family = w / 4096;
    let x = ((w / 256) % 16) as u8;
    let y = ((w / 16) % 16) as u8;
    let n = (w % 16) as u8;
    let kk = (w % 256) as u8;
    let nnn = w % 4096;
    if family == 0 {
        if w == 0x00E0 {
            Instruction::ClearScreen
        } else if w == 0x00EE {
            Instruction::Return
        } else {
            Instruction::Unknown(w)
        }
    } else if family == 1 {
        Instruction::Jump(nnn)
    } else if family == 2 {
        Instruction::Call(nnn)
    } else if family == 3 {
        Instruction::SkipEqImm(x, kk)
    } else if family == 4 {
        Instruction::SkipNeImm(x, kk)
    } else if family == 5 {
        if n == 0 {
            Instruction::SkipEqReg(x, y)
        } else {
            Instruction::Unknown(w)
        }
    } else if family == 6 {
        Instruction::LoadImm(x, kk)
    } else if family == 7 {
        Instruction::AddImm(x, kk)
    } else if family == 8 {
        if n == 0 {
            Instruction::Move(x, y)
        } else if n == 1 {
            Instruction::Or(x, y)
        } else if n == 2 {
            Instruction::And(x, y)
        } else if n == 3 {
            Instruction::Xor(x, y)
        } else if n == 4 {
            Instruction::AddCarry(x, y)
        } else if n == 5 {
            Instruction::SubBorrow(x, y)
        } else if n == 6 {
            Instruction::ShiftRight(x)
        } else if n == 7 {
            Instruction::SubReverse(x, y)
        } else if n == 0xE {
            Instruction::ShiftLeft(x)
        } else {
            Instruction::Unknown(w)
        }
    } else if family == 9 {
        if n == 0 {
            Instruction::SkipNeReg(x, y)
        } else {
            Instruction::Unknown(w)
        }
    } else if family == 0xA {
        Instruction::LoadIndex(nnn)
    } else if family == 0xB {
        Instruction::JumpPlusV0(nnn)
    } else if family == 0xC {
        Instruction::Random(x, kk)
    } else if family == 0xD {
        Instruction::Draw(x, y, n)
    } else if family == 0xE {
        if kk == 0x9E {
            Instruction::SkipKeyDown(x)
        } else if kk == 0xA1 {
            Instruction::SkipKeyUp(x)
        } else {
            Instruction::Unknown(w)
        }
    } else {
        if kk == 0x07 {
            Instruction::LoadDelay(x)
        } else if kk == 0x15 {
            Instruction::SetDelay(x)
        } else if kk == 0x1E {
            Instruction::AddIndex(x)
        } else if kk == 0x29 {
            Instruction::LoadFont(x)
        } else if kk == 0x33 {
            Instruction::StoreBcd(x)
        } else if kk == 0x55 {
            Instruction::StoreRegs(x)
        } else if kk == 0x65 {
            Instruction::LoadRegs(x)
        } else {
            Instruction::Unknown(w)
        }
    }
}

/// Decode an instruction word into its operation and operands.
pub fn decode(w: u16) -> (i: Instruction)
    ensures
        i == spec_decode(w),
{
    let family = w / 4096;
    let x = ((w / 256) % 16) as u8;
    let y = ((w / 16) % 16) as u8;
    let n = (w % 16) as u8;
    let kk = (w % 256) as u8;
    let nnn = w % 4096;
    if family == 0 {
        if w == 0x00E0 {
            Instruction::ClearScreen
        } else if w == 0x00EE {
            Instruction::Return
        } else {
            Instruction::Unknown(w)
        }
    } else if family == 1 {
        Instruction::Jump(nnn)
    } else if family == 2 {
        Instruction::Call(nnn)
    } else if family == 3 {
        Instruction::SkipEqImm(x, kk)
    } else if family == 4 {
        Instruction::SkipNeImm(x, kk)
    } else if family == 5 {
        if n == 0 {
            Instruction::SkipEqReg(x, y)
        } else {
            Instruction::Unknown(w)
        }
    } else if family == 6 {
        Instruction::LoadImm(x, kk)
    } else if family == 7 {
        Instruction::AddImm(x, kk)
    } else if family == 8 {
        if n == 0 {
            Instruction::Move(x, y)
        } else if n == 1 {
            Instruction::Or(x, y)
        } else if n == 2 {
            Instruction::And(x, y)
        } else if n == 3 {
            Instruction::Xor(x, y)
        } else if n == 4 {
            Instruction::AddCarry(x, y)
        } else if n == 5 {
            Instruction::SubBorrow(x, y)
        } else if n == 6 {
            Instruction::ShiftRight(x)
        } else if n == 7 {
            Instruction::SubReverse(x, y)
        } else if n == 0xE {
            Instruction::ShiftLeft(x)
        } else {
            Instruction::Unknown(w)
        }
    } else if family == 9 {
        if n == 0 {
            Instruction::SkipNeReg(x, y)
        } else {
            Instruction::Unknown(w)
        }
    } else if family == 0xA {
        Instruction::LoadIndex(nnn)
    } else if family == 0xB {
        Instruction::JumpPlusV0(nnn)
    } else if family == 0xC {
        Instruction::Random(x, kk)
    } else if family == 0xD {
        Instruction::Draw(x, y, n)
    } else if family == 0xE {
        if kk == 0x9E {
            Instruction::SkipKeyDown(x)
        } else if kk == 0xA1 {
            Instruction::SkipKeyUp(x)
        } else {
            Instruction::Unknown(w)
        }
    } else {
        if kk == 0x07 {
            Instruction::LoadDelay(x)
        } else if kk == 0x15 {
            Instruction::SetDelay(x)
        } else if kk == 0x1E {
            Instruction::AddIndex(x)
        } else if kk == 0x29 {
            Instruction::LoadFont(x)
        } else if kk == 0x33 {
            Instruction::StoreBcd(x)
        } else if kk == 0x55 {
            Instruction::StoreRegs(x)
        } else if kk == 0x65 {
            Instruction::LoadRegs(x)
        } else {
            Instruction::Unknown(w)
        }
    }
}

} // verus!
