use vstd::prelude::*;

use crate::cpu::{decode_full_spec, decode_spec, opcode_at};
use crate::instruction::Instruction;

verus! {

/// The fields of an opcode as shifts and masks, related to the quotients
/// and remainders by which the decoder reads them.
proof fn lemma_opcode_bits(op: u16)
    by (bit_vector)
    ensures
        op >> 12 == op / 4096,
        (op >> 8) & 0xF == (op / 256) % 16,
        (op >> 4) & 0xF == (op / 16) % 16,
        op & 0xF == op % 16,
        op & 0xFF == op % 256,
        op & 0xFF == ((op / 16) % 16) * 16 + op % 16,
        op & 0xFFF == op % 4096,
        (op == 0x00E0) == (op / 4096 == 0 && (op / 256) % 16 == 0 && (op / 16) % 16 == 0xE && op
            % 16 == 0),
        (op == 0x00EE) == (op / 4096 == 0 && (op / 256) % 16 == 0 && (op / 16) % 16 == 0xE && op
            % 16 == 0xE),
{
}

/// Decoding of the address, byte and arithmetic families, read off the
/// opcode's bits: the family is the highest nibble `op >> 12`, X is
/// `(op >> 8) & 0xF`, Y is `(op >> 4) & 0xF`, N is `op & 0xF`, the byte KK
/// is the whole low byte `op & 0xFF` and the address NNN is `op & 0xFFF`.
pub proof fn law_decode_by_bits(op: u16)
    ensures
        ({
            let x = ((op >> 8) & 0xF) as usize;
            let y = ((op >> 4) & 0xF) as usize;
            let n = op & 0xF;
            let kk = (op & 0xFF) as u8;
            let nnn = op & 0xFFF;
            let d = decode_spec(op);
            &&& op == 0x00E0 ==> d == Instruction::Cls
            &&& op == 0x00EE ==> d == Instruction::Ret
            &&& (op >> 12 == 0x0 && op != 0x00E0 && op != 0x00EE) ==> d == (Instruction::Sys {
                addr: nnn,
            })
            &&& op >> 12 == 0x1 ==> d == (Instruction::Jp { addr: nnn })
            &&& op >> 12 == 0x2 ==> d == (Instruction::Call { addr: nnn })
            &&& op >> 12 == 0x3 ==> d == (Instruction::Se { x, kk })
            &&& op >> 12 == 0x4 ==> d == (Instruction::Sne { x, kk })
            &&& (op >> 12 == 0x5 && n == 0x0) ==> d == (Instruction::SeVxVy { x, y })
            &&& op >> 12 == 0x6 ==> d == (Instruction::LdVxByte { x, kk })
            &&& op >> 12 == 0x7 ==> d == (Instruction::AddVxByte { x, kk })
            &&& (op >> 12 == 0x8 && n == 0x0) ==> d == (Instruction::LdVxVy { x, y })
            &&& (op >> 12 == 0x8 && n == 0x1) ==> d == (Instruction::OrVxVy { x, y })
            &&& (op >> 12 == 0x8 && n == 0x2) ==> d == (Instruction::AndVxVy { x, y })
            &&& (op >> 12 == 0x8 && n == 0x3) ==> d == (Instruction::XorVxVy { x, y })
            &&& (op >> 12 == 0x8 && n == 0x4) ==> d == (Instruction::AddVxVy { x, y })
            &&& (op >> 12 == 0x8 && n == 0x5) ==> d == (Instruction::SubVxVy { x, y })
            &&& (op >> 12 == 0x8 && n == 0x6) ==> d == (Instruction::ShrVx { x })
            &&& (op >> 12 == 0x8 && n == 0x7) ==> d == (Instruction::SubnVxVy { x, y })
            &&& (op >> 12 == 0x8 && n == 0xE) ==> d == (Instruction::ShlVx { x })
            &&& (op >> 12 == 0x9 && n == 0x0) ==> d == (Instruction::SneVxVy { x, y })
            &&& op >> 12 == 0xA ==> d == (Instruction::LdI { addr: nnn })
            &&& op >> 12 == 0xB ==> d == (Instruction::JpV0 { addr: nnn })
            &&& op >> 12 == 0xC ==> d == (Instruction::Rnd { x, kk })
            &&& op >> 12 == 0xD ==> d == (Instruction::Drw { x, y, n: n as u8 })
        }),
{
    lemma_opcode_bits(op);
}

/// Decoding of the key and FX families, told apart by the low byte
/// `op & 0xFF`, with X the second nibble `(op >> 8) & 0xF`.
pub proof fn law_decode_keys_and_fx_by_bits(op: u16)
    ensures
        ({
            let x = ((op >> 8) & 0xF) as usize;
            let low = op & 0xFF;
            let d = decode_spec(op);
            &&& (op >> 12 == 0xE && low == 0x9E) ==> d == (Instruction::Skp { x })
            &&& (op >> 12 == 0xE && low == 0xA1) ==> d == (Instruction::Sknp { x })
            &&& (op >> 12 == 0xF && low == 0x07) ==> d == (Instruction::LdVxDt { x })
            &&& (op >> 12 == 0xF && low == 0x0A) ==> d == (Instruction::LdVxK { x })
            &&& (op >> 12 == 0xF && low == 0x15) ==> d == (Instruction::LdDtVx { x })
            &&& (op >> 12 == 0xF && low == 0x18) ==> d == (Instruction::LdStVx { x })
            &&& (op >> 12 == 0xF && low == 0x1E) ==> d == (Instruction::AddIVx { x })
            &&& (op >> 12 == 0xF && low == 0x29) ==> d == (Instruction::LdFVx { x })
            &&& (op >> 12 == 0xF && low == 0x33) ==> d == (Instruction::LdBVx { x })
            &&& (op >> 12 == 0xF && low == 0x55) ==> d == (Instruction::LdIVx { x })
            &&& (op >> 12 == 0xF && low == 0x65) ==> d == (Instruction::LdVxI { x })
        }),
{
    lemma_opcode_bits(op);
}

/// The opcodes outside the instruction set decode to `Unknown` carrying the
/// opcode: 5XYN and 9XYN with N other than 0, 8XYN with N outside
/// 0 ..= 7 and E, EX and FX with a low byte that names no instruction.
pub proof fn law_decode_unknown_by_bits(op: u16)
    ensures
        ({
            let n = op & 0xF;
            let low = op & 0xFF;
            let unknown = (op >> 12 == 0x5 && n != 0x0) || (op >> 12 == 0x9 && n != 0x0) || (op
                >> 12 == 0x8 && 0x8 <= n <= 0xD) || (op >> 12 == 0x8 && n == 0xF) || (op >> 12
                == 0xE && low != 0x9E && low != 0xA1) || (op >> 12 == 0xF && low != 0x07 && low
                != 0x0A && low != 0x15 && low != 0x18 && low != 0x1E && low != 0x29 && low != 0x33
                && low != 0x55 && low != 0x65);
            unknown <==> decode_spec(op) == Instruction::Unknown(op)
        }),
{
    lemma_opcode_bits(op);
}

/// The full decoder gives 8XY6 / 8XYE with both registers, X the second
/// and Y the third nibble, and agrees with `decode_spec` on every other
/// opcode.
pub proof fn law_decode_full_by_bits(op: u16)
    ensures
        ({
            let x = ((op >> 8) & 0xF) as usize;
            let y = ((op >> 4) & 0xF) as usize;
            let n = op & 0xF;
            &&& (op >> 12 == 0x8 && n == 0x6) ==> decode_full_spec(op) == (Instruction::ShrVxVy {
                x,
                y,
            })
            &&& (op >> 12 == 0x8 && n == 0xE) ==> decode_full_spec(op) == (Instruction::ShlVxVy {
                x,
                y,
            })
            &&& !(op >> 12 == 0x8 && (n == 0x6 || n == 0xE)) ==> decode_full_spec(op)
                == decode_spec(op)
        }),
{
    lemma_opcode_bits(op);
}

/// Two bytes make a 16-bit opcode, the high byte in the upper half.
proof fn lemma_bytes_to_word(high: u8, low: u8)
    by (bit_vector)
    ensures
        ((high as u16) << 8) | (low as u16) == high * 256 + low,
{
}

/// The opcode at `addr` is big-endian: the byte at `addr` shifted into the
/// high half, or-ed with the byte at `addr + 1`.
pub proof fn law_opcode_big_endian(memory: Seq<u8>, addr: int)
    requires
        0 <= addr,
        addr + 1 < memory.len(),
    ensures
        opcode_at(memory, addr) == ((memory[addr] as u16) << 8) | (memory[addr + 1] as u16),
{
    lemma_bytes_to_word(memory[addr], memory[addr + 1]);
}

} // verus!
