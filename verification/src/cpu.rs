use vstd::prelude::*;

use crate::config::Chip8Config;
use crate::instruction::Instruction;
use crate::constants::{
    fontset, fontset_bytes, DISPLAY_HEIGHT, DISPLAY_SIZE, DISPLAY_WIDTH, FONTSET_SIZE,
    FONTSET_START, FONT_BYTES_PER_CHAR, MAX_ROM_SIZE, MEMORY_SIZE, NUM_KEYS, NUM_REGISTERS, ROM_START, STACK_SIZE,
};
use crate::sprite::{draw_pixels, draw_sprite_spec, lemma_draw_pixels_len, lemma_pixel_index_bounds, Sprite};

verus! {


// ---------------------------------------------------------------------------
// Opcode fields
// ---------------------------------------------------------------------------

/// Highest nibble of an opcode (the instruction class).
pub open spec fn nib3(op: u16) -> u16 {
    op / 4096
}

/// Second nibble of an opcode (X).
pub open spec fn nib2(op: u16) -> u16 {
    (op / 256) % 16
}

/// Third nibble of an opcode (Y).
pub open spec fn nib1(op: u16) -> u16 {
    (op / 16) % 16
}

/// Lowest nibble of an opcode (N).
pub open spec fn nib0(op: u16) -> u16 {
    op % 16
}

/// The instruction an opcode stands for (the shifts in their in-place form).
pub open spec fn decode_spec(op: u16) -> Instruction {
    let x = nib2(op) as usize;
    let y = nib1(op) as usize;
    let n = nib0(op) as u8;
    let kk = (op % 256) as u8;
    let nnn = op % 4096;
    let (a, b, c, d) = (nib3(op), nib2(op), nib1(op), nib0(op));
    if a == 0x0 {
        if b == 0x0 && c == 0xE && d == 0x0 {
            Instruction::Cls
        } else if b == 0x0 && c == 0xE && d == 0xE {
            Instruction::Ret
        } else {
            Instruction::Sys { addr: nnn }
        }
    } else if a == 0x1 {
        Instruction::Jp { addr: nnn }
    } else if a == 0x2 {
        Instruction::Call { addr: nnn }
    } else if a == 0x3 {
        Instruction::Se { x, kk }
    } else if a == 0x4 {
        Instruction::Sne { x, kk }
    } else if a == 0x5 && d == 0x0 {
        Instruction::SeVxVy { x, y }
    } else if a == 0x6 {
        Instruction::LdVxByte { x, kk }
    } else if a == 0x7 {
        Instruction::AddVxByte { x, kk }
    } else if a == 0x8 && d == 0x0 {
        Instruction::LdVxVy { x, y }
    } else if a == 0x8 && d == 0x1 {
        Instruction::OrVxVy { x, y }
    } else if a == 0x8 && d == 0x2 {
        Instruction::AndVxVy { x, y }
    } else if a == 0x8 && d == 0x3 {
        Instruction::XorVxVy { x, y }
    } else if a == 0x8 && d == 0x4 {
        Instruction::AddVxVy { x, y }
    } else if a == 0x8 && d == 0x5 {
        Instruction::SubVxVy { x, y }
    } else if a == 0x8 && d == 0x6 {
        Instruction::ShrVx { x }
    } else if a == 0x8 && d == 0x7 {
        Instruction::SubnVxVy { x, y }
    } else if a == 0x8 && d == 0xE {
        Instruction::ShlVx { x }
    } else if a == 0x9 && d == 0x0 {
        Instruction::SneVxVy { x, y }
    } else if a == 0xA {
        Instruction::LdI { addr: nnn }
    } else if a == 0xB {
        Instruction::JpV0 { addr: nnn }
    } else if a == 0xC {
        Instruction::Rnd { x, kk }
    } else if a == 0xD {
        Instruction::Drw { x, y, n }
    } else if a == 0xE && c == 0x9 && d == 0xE {
        Instruction::Skp { x }
    } else if a == 0xE && c == 0xA && d == 0x1 {
        Instruction::Sknp { x }
    } else if a == 0xF && c == 0x0 && d == 0x7 {
        Instruction::LdVxDt { x }
    } else if a == 0xF && c == 0x0 && d == 0xA {
        Instruction::LdVxK { x }
    } else if a == 0xF && c == 0x1 && d == 0x5 {
        Instruction::LdDtVx { x }
    } else if a == 0xF && c == 0x1 && d == 0x8 {
        Instruction::LdStVx { x }
    } else if a == 0xF && c == 0x1 && d == 0xE {
        Instruction::AddIVx { x }
    } else if a == 0xF && c == 0x2 && d == 0x9 {
        Instruction::LdFVx { x }
    } else if a == 0xF && c == 0x3 && d == 0x3 {
        Instruction::LdBVx { x }
    } else if a == 0xF && c == 0x5 && d == 0x5 {
        Instruction::LdIVx { x }
    } else if a == 0xF && c == 0x6 && d == 0x5 {
        Instruction::LdVxI { x }
    } else {
        Instruction::Unknown(op)
    }
}

/// The instruction an opcode stands for, with both registers of the shifts
/// (8XY6 / 8XYE give `ShrVxVy` / `ShlVxVy`); otherwise as `decode_spec`.
pub open spec fn decode_full_spec(op: u16) -> Instruction {
    match decode_spec(op) {
        Instruction::ShrVx { x } => Instruction::ShrVxVy { x, y: nib1(op) as usize },
        Instruction::ShlVx { x } => Instruction::ShlVxVy { x, y: nib1(op) as usize },
        other => other,
    }
}

// ---------------------------------------------------------------------------
// Machine state
// ---------------------------------------------------------------------------

/// The CHIP-8 machine: 4 KiB of RAM, sixteen 8-bit registers, the program
/// counter, the index register, the call stack, a 64x32 monochrome display,
/// two 60 Hz timers and the sixteen keys of the keypad.
pub struct Chip8 {
    /// 4KB RAM
    pub memory: [u8; MEMORY_SIZE],
    /// V0 to VF registers
    pub v: [u8; NUM_REGISTERS],
    /// Program Counter
    pub pc: u16,
    /// Index Register
    pub i: u16,
    /// Return addresses of the active subroutine calls, innermost last
    pub stack: Vec<u16>,
    /// 64x32 display, row by row, true = pixel on
    pub display: [bool; DISPLAY_SIZE],
    /// 60hz delay timer
    pub delay_timer: u8,
    /// 60hz sound timer
    pub sound_timer: u8,
    /// 16 keys, true = pressed
    pub keys: [bool; NUM_KEYS],
    /// Behavioral quirks in effect
    pub config: Chip8Config,
}

/// The mathematical view of a `Chip8`.
pub struct Chip8State {
    pub memory: Seq<u8>,
    pub v: Seq<u8>,
    pub pc: u16,
    pub i: u16,
    pub stack: Seq<u16>,
    pub display: Seq<bool>,
    pub delay_timer: u8,
    pub sound_timer: u8,
    pub keys: Seq<bool>,
    pub config: Chip8Config,
}

impl Chip8State {
    /// Every component has the size of the machine's hardware.
    pub open spec fn wf(self) -> bool {
        &&& self.memory.len() == MEMORY_SIZE
        &&& self.v.len() == NUM_REGISTERS
        &&& self.display.len() == DISPLAY_SIZE
        &&& self.keys.len() == NUM_KEYS
    }
}

impl View for Chip8 {
    type V = Chip8State;

    open spec fn view(&self) -> Chip8State {
        Chip8State {
            memory: self.memory@,
            v: self.v@,
            pc: self.pc,
            i: self.i,
            stack: self.stack@,
            display: self.display@,
            delay_timer: self.delay_timer,
            sound_timer: self.sound_timer,
            keys: self.keys@,
            config: self.config,
        }
    }
}

/// RAM right after power-on: the font at `FONTSET_START`, zero elsewhere.
pub open spec fn initial_memory() -> Seq<u8> {
    Seq::new(
        MEMORY_SIZE as nat,
        |k: int|
            if FONTSET_START <= k < FONTSET_START + FONTSET_SIZE {
                fontset()[k - FONTSET_START]
            } else {
                0u8
            },
    )
}

/// The machine right after power-on with the quirks of `config`.
pub open spec fn initial_state(config: Chip8Config) -> Chip8State {
    Chip8State {
        memory: initial_memory(),
        v: Seq::new(NUM_REGISTERS as nat, |k: int| 0u8),
        pc: ROM_START,
        i: 0,
        stack: Seq::empty(),
        display: Seq::new(DISPLAY_SIZE as nat, |k: int| false),
        delay_timer: 0,
        sound_timer: 0,
        keys: Seq::new(NUM_KEYS as nat, |k: int| false),
        config,
    }
}

/// RAM after a program has been copied to `ROM_START`.
pub open spec fn memory_with_rom(memory: Seq<u8>, rom: Seq<u8>) -> Seq<u8> {
    Seq::new(
        memory.len(),
        |k: int|
            if ROM_START <= k < ROM_START + rom.len() {
                rom[k - ROM_START]
            } else {
                memory[k]
            },
    )
}

/// The opcode stored big-endian at `addr` and `addr + 1`.
pub open spec fn opcode_at(memory: Seq<u8>, addr: int) -> u16 {
    (memory[addr] * 256 + memory[addr + 1]) as u16
}

/// The character of decimal digit `d` (0 ..= 9).
pub open spec fn digit_char(d: nat) -> char {
    seq!['0', '1', '2', '3', '4', '5', '6', '7', '8', '9'][d as int]
}

/// The decimal digits of `n`, most significant first, without leading
/// zeros (`Display` of an unsigned integer).
pub open spec fn decimal(n: nat) -> Seq<char>
    decreases n,
{
    if n < 10 {
        seq![digit_char(n)]
    } else {
        decimal(n / 10).push(digit_char(n % 10))
    }
}

/// The error message of a program of `len` bytes when at most `max` fit.
pub open spec fn rom_too_large_text(len: usize, max: usize) -> Seq<char> {
    "ROM too large: "@ + decimal(len as nat) + " bytes, maximum "@ + decimal(max as nat)
        + " bytes"@
}

/// Formats the "ROM too large" message with std's `format!`, which writes
/// the two numbers in decimal (`Display` for `usize`) between the literal
/// parts; the contract states that text.
#[verifier::external_body]
fn rom_too_large_message(len: usize, max: usize) -> (msg: String)
    ensures
        msg@ == rom_too_large_text(len, max),
{
    format!("ROM too large: {} bytes, maximum {} bytes", len, max)
}


// ---------------------------------------------------------------------------
// Execution
// ---------------------------------------------------------------------------

/// Index of the flag register VF.
pub open spec fn vf() -> int {
    0xF
}

/// `s` with the program counter moved past the next instruction when
/// `cond` holds.
pub open spec fn skip_if(s: Chip8State, cond: bool) -> Chip8State {
    if cond {
        Chip8State { pc: (s.pc + 2) as u16, ..s }
    } else {
        s
    }
}

/// `s` with register `x` set to `val`.
pub open spec fn set_reg(s: Chip8State, x: int, val: u8) -> Chip8State {
    Chip8State { v: s.v.update(x, val), ..s }
}

/// `s` with register `x` set to `val` and then VF set to `flag`
/// (so VF holds the flag when `x` is VF).
pub open spec fn set_reg_flag(s: Chip8State, x: int, val: u8, flag: bool) -> Chip8State {
    Chip8State { v: s.v.update(x, val).update(vf(), if flag { 1u8 } else { 0u8 }), ..s }
}

/// `s` after a logical operation stored `val` in register `x`: VF is then
/// cleared when `reset_vf_after_logical` is set.
pub open spec fn logical_result(s: Chip8State, x: int, val: u8) -> Chip8State {
    if s.config.reset_vf_after_logical {
        set_reg_flag(s, x, val, false)
    } else {
        set_reg(s, x, val)
    }
}

/// The register whose value BNNN adds to the address: V0, or VX (X the
/// highest nibble of the address) when `jump_v0_uses_vx` is set.
pub open spec fn jump_register(config: Chip8Config, addr: u16) -> int {
    if config.jump_v0_uses_vx {
        ((addr / 256) % 16) as int
    } else {
        0
    }
}

/// Whether some key is pressed.
pub open spec fn any_key(keys: Seq<bool>) -> bool {
    exists|k: int| 0 <= k < NUM_KEYS && #[trigger] keys[k]
}

/// The lowest-numbered pressed key (meaningful when `any_key(keys)`).
pub open spec fn lowest_key(keys: Seq<bool>) -> int {
    choose|k: int| 0 <= k < NUM_KEYS && keys[k] && forall|j: int| 0 <= j < k ==> !#[trigger] keys[j]
}

/// RAM with the hundreds, tens and units digits of `val` at `i`, `i + 1`
/// and `i + 2`.
pub open spec fn bcd_memory(memory: Seq<u8>, i: int, val: u8) -> Seq<u8> {
    memory.update(i, val / 100).update(i + 1, (val / 10) % 10).update(i + 2, val % 10)
}

/// RAM with registers V0 ..= Vx stored from address `i` on.
pub open spec fn store_registers(memory: Seq<u8>, v: Seq<u8>, i: int, x: int) -> Seq<u8> {
    Seq::new(memory.len(), |k: int| if i <= k <= i + x { v[k - i] } else { memory[k] })
}

/// Registers with V0 ..= Vx read from RAM at address `i` on.
pub open spec fn load_registers(v: Seq<u8>, memory: Seq<u8>, i: int, x: int) -> Seq<u8> {
    Seq::new(v.len(), |k: int| if 0 <= k <= x { memory[i + k] } else { v[k] })
}

/// I after FX55 / FX65 over V0 ..= Vx: advanced by X+1 when
/// `load_store_increments_i` is set, unchanged otherwise.
pub open spec fn i_after_block(s: Chip8State, x: int) -> u16 {
    if s.config.load_store_increments_i {
        (s.i + x + 1) as u16
    } else {
        s.i
    }
}

/// The sprite DXYN draws: `n` rows from RAM at I, placed at (Vx mod 64,
/// Vy mod 32), clipped when `clip_sprites` is set.
pub open spec fn drw_sprite(s: Chip8State, x: int, y: int) -> Sprite {
    Sprite {
        memory: s.memory,
        i: s.i as int,
        xs: (s.v[x] % 64) as int,
        ys: (s.v[y] % 32) as int,
        clip: s.config.clip_sprites,
    }
}

/// `s` after SHR Vx in place: VF receives the lost bit first, then Vx
/// (which may be VF) shifts.
pub open spec fn shr_in_place(s: Chip8State, x: int) -> Chip8State {
    let v1 = s.v.update(vf(), s.v[x] % 2);
    Chip8State { v: v1.update(x, v1[x] / 2), ..s }
}

/// `s` after SHL Vx in place: VF receives the lost bit first, then Vx
/// (which may be VF) shifts.
pub open spec fn shl_in_place(s: Chip8State, x: int) -> Chip8State {
    let v1 = s.v.update(vf(), s.v[x] / 128);
    Chip8State { v: v1.update(x, ((v1[x] * 2) % 256) as u8), ..s }
}

/// `instr` can be executed on `s`: every register, key and memory access is
/// in range, the program counter does not overflow, RET has a return
/// address, CALL has room on the stack, and the opcode is known.
pub open spec fn can_execute(s: Chip8State, instr: Instruction) -> bool {
    match instr {
        Instruction::Sys { .. } => true,
        Instruction::Cls => true,
        Instruction::Ret => s.stack.len() > 0,
        Instruction::Jp { .. } => true,
        Instruction::Call { .. } => s.stack.len() != STACK_SIZE,
        Instruction::LdVxByte { x, .. } => x < NUM_REGISTERS,
        Instruction::AddVxByte { x, .. } => x < NUM_REGISTERS,
        Instruction::LdI { .. } => true,
        Instruction::Se { x, kk } => x < NUM_REGISTERS && (s.v[x as int] == kk ==> s.pc + 2
            <= u16::MAX),
        Instruction::Sne { x, kk } => x < NUM_REGISTERS && (s.v[x as int] != kk ==> s.pc + 2
            <= u16::MAX),
        Instruction::SeVxVy { x, y } => x < NUM_REGISTERS && y < NUM_REGISTERS && (s.v[x as int]
            == s.v[y as int] ==> s.pc + 2 <= u16::MAX),
        Instruction::LdVxVy { x, y } => x < NUM_REGISTERS && y < NUM_REGISTERS,
        Instruction::OrVxVy { x, y } => x < NUM_REGISTERS && y < NUM_REGISTERS,
        Instruction::AndVxVy { x, y } => x < NUM_REGISTERS && y < NUM_REGISTERS,
        Instruction::XorVxVy { x, y } => x < NUM_REGISTERS && y < NUM_REGISTERS,
        Instruction::AddVxVy { x, y } => x < NUM_REGISTERS && y < NUM_REGISTERS,
        Instruction::SubVxVy { x, y } => x < NUM_REGISTERS && y < NUM_REGISTERS,
        Instruction::ShrVx { x } => x < NUM_REGISTERS,
        Instruction::SubnVxVy { x, y } => x < NUM_REGISTERS && y < NUM_REGISTERS,
        Instruction::ShlVx { x } => x < NUM_REGISTERS,
        Instruction::SneVxVy { x, y } => x < NUM_REGISTERS && y < NUM_REGISTERS && (s.v[x as int]
            != s.v[y as int] ==> s.pc + 2 <= u16::MAX),
        Instruction::JpV0 { addr } => addr + s.v[jump_register(s.config, addr)] <= u16::MAX,
        Instruction::Rnd { x, .. } => x < NUM_REGISTERS,
        Instruction::Drw { x, y, n } => x < NUM_REGISTERS && y < NUM_REGISTERS && (n == 0 || s.i
            + n <= MEMORY_SIZE),
        Instruction::Skp { x } => x < NUM_REGISTERS && s.v[x as int] < NUM_KEYS && (s.keys[s.v[x as int] as int]
            ==> s.pc + 2 <= u16::MAX),
        Instruction::Sknp { x } => x < NUM_REGISTERS && s.v[x as int] < NUM_KEYS && (!s.keys[s.v[x as int] as int]
            ==> s.pc + 2 <= u16::MAX),
        Instruction::LdVxDt { x } => x < NUM_REGISTERS,
        Instruction::LdVxK { x } => x < NUM_REGISTERS,
        Instruction::LdDtVx { x } => x < NUM_REGISTERS,
        Instruction::LdStVx { x } => x < NUM_REGISTERS,
        Instruction::AddIVx { x } => x < NUM_REGISTERS && s.i + s.v[x as int] <= u16::MAX,
        Instruction::LdFVx { x } => x < NUM_REGISTERS,
        Instruction::LdBVx { x } => x < NUM_REGISTERS && s.i + 2 < MEMORY_SIZE,
        Instruction::LdIVx { x } => x < NUM_REGISTERS && s.i + x < MEMORY_SIZE,
        Instruction::LdVxI { x } => x < NUM_REGISTERS && s.i + x < MEMORY_SIZE,
        Instruction::ShrVxVy { x, y } => x < NUM_REGISTERS && (s.config.shift_uses_vy ==> y
            < NUM_REGISTERS),
        Instruction::ShlVxVy { x, y } => x < NUM_REGISTERS && (s.config.shift_uses_vy ==> y
            < NUM_REGISTERS),
        Instruction::Unknown(_) => false,
    }
}

/// The machine after executing `instr` on `s`; `random` is the byte that
/// RND masks (no other instruction reads it).
pub open spec fn execute_spec(s: Chip8State, instr: Instruction, random: u8) -> Chip8State {
    match instr {
        Instruction::Sys { .. } => s,
        Instruction::Cls => Chip8State {
            display: Seq::new(DISPLAY_SIZE as nat, |k: int| false),
            ..s
        },
        Instruction::Ret => Chip8State { pc: s.stack.last(), stack: s.stack.drop_last(), ..s },
        Instruction::Jp { addr } => Chip8State { pc: addr, ..s },
        Instruction::Call { addr } => Chip8State { pc: addr, stack: s.stack.push(s.pc), ..s },
        Instruction::LdVxByte { x, kk } => set_reg(s, x as int, kk),
        Instruction::AddVxByte { x, kk } => set_reg(
            s,
            x as int,
            ((s.v[x as int] + kk) % 256) as u8,
        ),
        Instruction::LdI { addr } => Chip8State { i: addr, ..s },
        Instruction::Se { x, kk } => skip_if(s, s.v[x as int] == kk),
        Instruction::Sne { x, kk } => skip_if(s, s.v[x as int] != kk),
        Instruction::SeVxVy { x, y } => skip_if(s, s.v[x as int] == s.v[y as int]),
        Instruction::LdVxVy { x, y } => set_reg(s, x as int, s.v[y as int]),
        Instruction::OrVxVy { x, y } => logical_result(s, x as int, s.v[x as int] | s.v[y as int]),
        Instruction::AndVxVy { x, y } => logical_result(s, x as int, s.v[x as int] & s.v[y as int]),
        Instruction::XorVxVy { x, y } => logical_result(s, x as int, s.v[x as int] ^ s.v[y as int]),
        Instruction::AddVxVy { x, y } => set_reg_flag(
            s,
            x as int,
            ((s.v[x as int] + s.v[y as int]) % 256) as u8,
            s.v[x as int] + s.v[y as int] > 255,
        ),
        Instruction::SubVxVy { x, y } => set_reg_flag(
            s,
            x as int,
            ((s.v[x as int] - s.v[y as int] + 256) % 256) as u8,
            s.v[x as int] > s.v[y as int],
        ),
        Instruction::ShrVx { x } => shr_in_place(s, x as int),
        Instruction::SubnVxVy { x, y } => set_reg_flag(
            s,
            x as int,
            ((s.v[y as int] - s.v[x as int] + 256) % 256) as u8,
            s.v[y as int] > s.v[x as int],
        ),
        Instruction::ShlVx { x } => shl_in_place(s, x as int),
        Instruction::SneVxVy { x, y } => skip_if(s, s.v[x as int] != s.v[y as int]),
        Instruction::JpV0 { addr } => Chip8State {
            pc: (addr + s.v[jump_register(s.config, addr)]) as u16,
            ..s
        },
        Instruction::Rnd { x, kk } => set_reg(s, x as int, random & kk),
        Instruction::Drw { x, y, n } => {
            let (d, c) = draw_sprite_spec(s.display, drw_sprite(s, x as int, y as int), n as nat);
            Chip8State { display: d, v: s.v.update(vf(), if c { 1u8 } else { 0u8 }), ..s }
        },
        Instruction::Skp { x } => skip_if(s, s.keys[s.v[x as int] as int]),
        Instruction::Sknp { x } => skip_if(s, !s.keys[s.v[x as int] as int]),
        Instruction::LdVxDt { x } => set_reg(s, x as int, s.delay_timer),
        Instruction::LdVxK { x } => if any_key(s.keys) {
            set_reg(s, x as int, lowest_key(s.keys) as u8)
        } else {
            // step back onto this instruction (wrapping like a 16-bit counter)
            Chip8State { pc: ((s.pc + 0xFFFE) % 0x10000) as u16, ..s }
        },
        Instruction::LdDtVx { x } => Chip8State { delay_timer: s.v[x as int], ..s },
        Instruction::LdStVx { x } => Chip8State { sound_timer: s.v[x as int], ..s },
        Instruction::AddIVx { x } => Chip8State { i: (s.i + s.v[x as int]) as u16, ..s },
        Instruction::LdFVx { x } => Chip8State {
            i: (FONTSET_START + s.v[x as int] * FONT_BYTES_PER_CHAR) as u16,
            ..s
        },
        Instruction::LdBVx { x } => Chip8State {
            memory: bcd_memory(s.memory, s.i as int, s.v[x as int]),
            ..s
        },
        Instruction::LdIVx { x } => Chip8State {
            memory: store_registers(s.memory, s.v, s.i as int, x as int),
            i: i_after_block(s, x as int),
            ..s
        },
        Instruction::LdVxI { x } => Chip8State {
            v: load_registers(s.v, s.memory, s.i as int, x as int),
            i: i_after_block(s, x as int),
            ..s
        },
        Instruction::ShrVxVy { x, y } => if s.config.shift_uses_vy {
            set_reg_flag(s, x as int, s.v[y as int] / 2, s.v[y as int] % 2 == 1)
        } else {
            shr_in_place(s, x as int)
        },
        Instruction::ShlVxVy { x, y } => if s.config.shift_uses_vy {
            set_reg_flag(s, x as int, ((s.v[y as int] * 2) % 256) as u8, s.v[y as int] >= 128)
        } else {
            shl_in_place(s, x as int)
        },
        Instruction::Unknown(_) => s,
    }
}

/// The timers after one 60 Hz tick: each non-zero timer counts down by one.
pub open spec fn tick_spec(s: Chip8State) -> Chip8State {
    Chip8State {
        delay_timer: if s.delay_timer > 0 { (s.delay_timer - 1) as u8 } else { 0 },
        sound_timer: if s.sound_timer > 0 { (s.sound_timer - 1) as u8 } else { 0 },
        ..s
    }
}

/// Calls `rand::random::<u8>()`, a byte from the thread-local random
/// generator. Nothing is promised of the byte: any value may come back.
#[verifier::external_body]
fn random_byte() -> u8 {
    rand::random::<u8>()
}

impl Chip8 {
    /// A powered-on machine with no quirk enabled (every flag of
    /// `Chip8Config` false): shifts act on Vx in place, FX55 / FX65 leave I
    /// unchanged, BNNN jumps to NNN + V0, sprites wrap around the screen
    /// edges and logical operations leave VF unchanged.
    pub fn new() -> (chip8: Self)
        ensures
            chip8@ == initial_state(Chip8Config::spec_no_quirks()),
            !chip8.config.shift_uses_vy && !chip8.config.load_store_increments_i
                && !chip8.config.jump_v0_uses_vx && !chip8.config.clip_sprites
                && !chip8.config.reset_vf_after_logical,
    {
        Self::with_config(
            Chip8Config {
                shift_uses_vy: false,
                load_store_increments_i: false,
                jump_v0_uses_vx: false,
                clip_sprites: false,
                reset_vf_after_logical: false,
            },
        )
    }

    /// A powered-on machine with the quirks of `config`: the font is in RAM
    /// at `FONTSET_START`, the rest of RAM, the registers, the display, the
    /// timers and the keys are zero / off, the stack is empty and execution
    /// starts at `ROM_START`.
    pub fn with_config(config: Chip8Config) -> (chip8: Self)
        ensures
            chip8@ == initial_state(config),
    {
        let mut memory = [0u8; MEMORY_SIZE];
        let font = fontset_bytes();
        let mut k: usize = 0;
        while k < FONTSET_SIZE
            invariant
                k <= FONTSET_SIZE,
                font@ == fontset(),
                forall|j: int|
                    0 <= j < MEMORY_SIZE ==> #[trigger] memory@[j] == (if FONTSET_START <= j
                        < FONTSET_START + k {
                        fontset()[j - FONTSET_START]
                    } else {
                        0u8
                    }),
            decreases FONTSET_SIZE - k,
        {
            memory[FONTSET_START + k] = font[k];
            k = k + 1;
        }
        let chip8 = Chip8 {
            memory,
            v: [0u8; NUM_REGISTERS],
            pc: ROM_START,
            i: 0,
            stack: Vec::new(),
            display: [false; DISPLAY_SIZE],
            delay_timer: 0,
            sound_timer: 0,
            keys: [false; NUM_KEYS],
            config,
        };
        assert(chip8@.memory =~= initial_memory());
        assert(chip8@.v =~= initial_state(config).v);
        assert(chip8@.display =~= initial_state(config).display);
        assert(chip8@.keys =~= initial_state(config).keys);
        chip8
    }

    /// Copies a program into RAM at `ROM_START`.
    ///
    /// Succeeds exactly when the program fits (at most `MAX_ROM_SIZE`
    /// bytes); then the bytes `ROM_START .. ROM_START + len` hold the program
    /// and nothing else changes. A program that does not fit leaves the
    /// machine unchanged and is reported with a "ROM too large" message.
    pub fn load_rom(&mut self, data: &[u8]) -> (result: Result<(), String>)
        ensures
            result is Ok <==> data@.len() <= MAX_ROM_SIZE,
            result is Ok <==> 0x200 + data@.len() <= 4096,
            result is Ok ==> final(self)@ == (Chip8State {
                memory: memory_with_rom(old(self)@.memory, data@),
                ..old(self)@
            }),
            result matches Err(msg) ==> final(self)@ == old(self)@ && msg@ == rom_too_large_text(
                data@.len() as usize,
                MAX_ROM_SIZE,
            ),
    {
        let max_size = MEMORY_SIZE - ROM_START as usize;
        if data.len() > max_size {
            return Err(rom_too_large_message(data.len(), max_size));
        }
        let start = ROM_START as usize;
        let mut k: usize = 0;
        while k < data.len()
            invariant
                start == ROM_START,
                k <= data@.len() <= MAX_ROM_SIZE,
                self.v == old(self).v,
                self.pc == old(self).pc,
                self.i == old(self).i,
                self.stack == old(self).stack,
                self.display == old(self).display,
                self.delay_timer == old(self).delay_timer,
                self.sound_timer == old(self).sound_timer,
                self.keys == old(self).keys,
                self.config == old(self).config,
                forall|j: int|
                    0 <= j < MEMORY_SIZE ==> #[trigger] self.memory@[j] == (if ROM_START <= j
                        < ROM_START + k {
                        data@[j - ROM_START]
                    } else {
                        old(self).memory@[j]
                    }),
            decreases data@.len() - k,
        {
            self.memory[start + k] = data[k];
            k = k + 1;
        }
        assert(self@.memory =~= memory_with_rom(old(self)@.memory, data@));
        Ok(())
    }

    /// Reads the opcode at the program counter (most significant byte
    /// first) and advances the program counter past it.
    pub fn fetch(&mut self) -> (opcode: u16)
        requires
            old(self).pc + 1 < MEMORY_SIZE,
        ensures
            opcode == opcode_at(old(self)@.memory, old(self).pc as int),
            final(self)@ == (Chip8State { pc: (old(self).pc + 2) as u16, ..old(self)@ }),
    {
        let high: u8 = self.memory[self.pc as usize];
        let low: u8 = self.memory[self.pc as usize + 1];
        let high_byte = high as u16;
        let low_byte = low as u16;
        let opcode = (high_byte << 8) | low_byte;
        assert(((high as u16) << 8) | (low as u16) == high * 256 + low) by (bit_vector);
        self.pc = self.pc + 2;
        opcode
    }

    /// The instruction that `opcode` stands for, the shifts in their
    /// in-place form; opcodes outside the instruction set decode to
    /// `Instruction::Unknown(opcode)`. The result depends on `opcode` alone.
    pub fn decode(&self, opcode: u16) -> (instruction: Instruction)
        ensures
            instruction == decode_spec(opcode),
    {
        let a = (opcode & 0xF000) >> 12;
        let b = (opcode & 0x0F00) >> 8;
        let c = (opcode & 0x00F0) >> 4;
        let d = opcode & 0x000F;
        let x = b as usize;
        let y = c as usize;
        let n = d as u8;
        let kk = (opcode & 0x00FF) as u8;
        let nnn = opcode & 0x0FFF;
        proof {
            assert((opcode & 0xF000) >> 12 == opcode / 4096) by (bit_vector);
            assert((opcode & 0x0F00) >> 8 == (opcode / 256) % 16) by (bit_vector);
            assert((opcode & 0x00F0) >> 4 == (opcode / 16) % 16) by (bit_vector);
            assert(opcode & 0x000F == opcode % 16) by (bit_vector);
            assert(opcode & 0x00FF == opcode % 256) by (bit_vector);
            assert(opcode & 0x0FFF == opcode % 4096) by (bit_vector);
        }
        match (a, b, c, d) {
            (0x0, 0x0, 0xE, 0x0) => Instruction::Cls,
            (0x0, 0x0, 0xE, 0xE) => Instruction::Ret,
            (0x0, _, _, _) => Instruction::Sys { addr: nnn },
            (0x1, _, _, _) => Instruction::Jp { addr: nnn },
            (0x2, _, _, _) => Instruction::Call { addr: nnn },
            (0x3, _, _, _) => Instruction::Se { x, kk },
            (0x4, _, _, _) => Instruction::Sne { x, kk },
            (0x5, _, _, 0x0) => Instruction::SeVxVy { x, y },
            (0x6, _, _, _) => Instruction::LdVxByte { x, kk },
            (0x7, _, _, _) => Instruction::AddVxByte { x, kk },
            (0x8, _, _, 0x0) => Instruction::LdVxVy { x, y },
            (0x8, _, _, 0x1) => Instruction::OrVxVy { x, y },
            (0x8, _, _, 0x2) => Instruction::AndVxVy { x, y },
            (0x8, _, _, 0x3) => Instruction::XorVxVy { x, y },
            (0x8, _, _, 0x4) => Instruction::AddVxVy { x, y },
            (0x8, _, _, 0x5) => Instruction::SubVxVy { x, y },
            (0x8, _, _, 0x6) => Instruction::ShrVx { x },
            (0x8, _, _, 0x7) => Instruction::SubnVxVy { x, y },
            (0x8, _, _, 0xE) => Instruction::ShlVx { x },
            (0x9, _, _, 0x0) => Instruction::SneVxVy { x, y },
            (0xA, _, _, _) => Instruction::LdI { addr: nnn },
            (0xB, _, _, _) => Instruction::JpV0 { addr: nnn },
            (0xC, _, _, _) => Instruction::Rnd { x, kk },
            (0xD, _, _, _) => Instruction::Drw { x, y, n },
            (0xE, _, 0x9, 0xE) => Instruction::Skp { x },
            (0xE, _, 0xA, 0x1) => Instruction::Sknp { x },
            (0xF, _, 0x0, 0x7) => Instruction::LdVxDt { x },
            (0xF, _, 0x0, 0xA) => Instruction::LdVxK { x },
            (0xF, _, 0x1, 0x5) => Instruction::LdDtVx { x },
            (0xF, _, 0x1, 0x8) => Instruction::LdStVx { x },
            (0xF, _, 0x1, 0xE) => Instruction::AddIVx { x },
            (0xF, _, 0x2, 0x9) => Instruction::LdFVx { x },
            (0xF, _, 0x3, 0x3) => Instruction::LdBVx { x },
            (0xF, _, 0x5, 0x5) => Instruction::LdIVx { x },
            (0xF, _, 0x6, 0x5) => Instruction::LdVxI { x },
            _ => Instruction::Unknown(opcode),
        }
    }

    /// The instruction that `opcode` stands for, with both registers of
    /// the shifts (8XY6 / 8XYE give `ShrVxVy` / `ShlVxVy`, whose execution
    /// follows `shift_uses_vy`); otherwise as `decode`. The result depends
    /// on `opcode` alone.
    pub fn decode_full(&self, opcode: u16) -> (instruction: Instruction)
        ensures
            instruction == decode_full_spec(opcode),
    {
        let y = ((opcode & 0x00F0) >> 4) as usize;
        assert((opcode & 0x00F0) >> 4 == (opcode / 16) % 16) by (bit_vector);
        match self.decode(opcode) {
            Instruction::ShrVx { x } => Instruction::ShrVxVy { x, y },
            Instruction::ShlVx { x } => Instruction::ShlVxVy { x, y },
            other => other,
        }
    }

    /// Whether `instruction` can be executed in the current state, as
    /// `can_execute` states; callers that cannot prove it test it here.
    pub fn is_executable(&self, instruction: &Instruction) -> (ok: bool)
        ensures
            ok == can_execute(self@, *instruction),
    {
        let pc_can_skip = self.pc <= u16::MAX - 2;
        match instruction {
            Instruction::Sys { .. } => true,
            Instruction::Cls => true,
            Instruction::Ret => self.stack.len() > 0,
            Instruction::Jp { .. } => true,
            Instruction::Call { .. } => self.stack.len() != STACK_SIZE,
            Instruction::LdVxByte { x, .. } => *x < NUM_REGISTERS,
            Instruction::AddVxByte { x, .. } => *x < NUM_REGISTERS,
            Instruction::LdI { .. } => true,
            Instruction::Se { x, kk } => *x < NUM_REGISTERS && (self.v[*x] != *kk || pc_can_skip),
            Instruction::Sne { x, kk } => *x < NUM_REGISTERS && (self.v[*x] == *kk || pc_can_skip),
            Instruction::SeVxVy { x, y } => *x < NUM_REGISTERS && *y < NUM_REGISTERS && (self.v[*x]
                != self.v[*y] || pc_can_skip),
            Instruction::LdVxVy { x, y } => *x < NUM_REGISTERS && *y < NUM_REGISTERS,
            Instruction::OrVxVy { x, y } => *x < NUM_REGISTERS && *y < NUM_REGISTERS,
            Instruction::AndVxVy { x, y } => *x < NUM_REGISTERS && *y < NUM_REGISTERS,
            Instruction::XorVxVy { x, y } => *x < NUM_REGISTERS && *y < NUM_REGISTERS,
            Instruction::AddVxVy { x, y } => *x < NUM_REGISTERS && *y < NUM_REGISTERS,
            Instruction::SubVxVy { x, y } => *x < NUM_REGISTERS && *y < NUM_REGISTERS,
            Instruction::ShrVx { x } => *x < NUM_REGISTERS,
            Instruction::SubnVxVy { x, y } => *x < NUM_REGISTERS && *y < NUM_REGISTERS,
            Instruction::ShlVx { x } => *x < NUM_REGISTERS,
            Instruction::SneVxVy { x, y } => *x < NUM_REGISTERS && *y < NUM_REGISTERS && (self.v[*x]
                == self.v[*y] || pc_can_skip),
            Instruction::JpV0 { addr } => {
                let r = self.jump_register(*addr);
                *addr as u32 + self.v[r] as u32 <= u16::MAX as u32
            },
            Instruction::Rnd { x, .. } => *x < NUM_REGISTERS,
            Instruction::Drw { x, y, n } => *x < NUM_REGISTERS && *y < NUM_REGISTERS && (*n == 0
                || self.i as usize + *n as usize <= MEMORY_SIZE),
            Instruction::Skp { x } => *x < NUM_REGISTERS && (self.v[*x] as usize) < NUM_KEYS && (
            !self.keys[self.v[*x] as usize] || pc_can_skip),
            Instruction::Sknp { x } => *x < NUM_REGISTERS && (self.v[*x] as usize) < NUM_KEYS && (
            self.keys[self.v[*x] as usize] || pc_can_skip),
            Instruction::LdVxDt { x } => *x < NUM_REGISTERS,
            Instruction::LdVxK { x } => *x < NUM_REGISTERS,
            Instruction::LdDtVx { x } => *x < NUM_REGISTERS,
            Instruction::LdStVx { x } => *x < NUM_REGISTERS,
            Instruction::AddIVx { x } => *x < NUM_REGISTERS && self.i as u32 + self.v[*x] as u32
                <= u16::MAX as u32,
            Instruction::LdFVx { x } => *x < NUM_REGISTERS,
            Instruction::LdBVx { x } => *x < NUM_REGISTERS && (self.i as usize) + 2 < MEMORY_SIZE,
            Instruction::LdIVx { x } => *x < NUM_REGISTERS && (self.i as usize) + *x < MEMORY_SIZE,
            Instruction::LdVxI { x } => *x < NUM_REGISTERS && (self.i as usize) + *x < MEMORY_SIZE,
            Instruction::ShrVxVy { x, y } => *x < NUM_REGISTERS && (!self.config.shift_uses_vy
                || *y < NUM_REGISTERS),
            Instruction::ShlVxVy { x, y } => *x < NUM_REGISTERS && (!self.config.shift_uses_vy
                || *y < NUM_REGISTERS),
            Instruction::Unknown(_) => false,
        }
    }

    /// The register that BNNN adds to its address (see `jump_register`).
    fn jump_register(&self, addr: u16) -> (r: usize)
        ensures
            r == jump_register(self.config, addr),
            r < NUM_REGISTERS,
    {
        if self.config.jump_v0_uses_vx {
            assert((addr >> 8u16) & 0xF == (addr / 256) % 16) by (bit_vector);
            ((addr >> 8u16) & 0xF) as usize
        } else {
            0
        }
    }

    /// The lowest-numbered pressed key, or `NUM_KEYS` when no key is pressed.
    fn pressed_key(&self) -> (k: usize)
        ensures
            k <= NUM_KEYS,
            k < NUM_KEYS <==> any_key(self@.keys),
            k < NUM_KEYS ==> k == lowest_key(self@.keys),
    {
        let mut k: usize = 0;
        while k < NUM_KEYS && !self.keys[k]
            invariant
                k <= NUM_KEYS,
                forall|j: int| 0 <= j < k ==> !#[trigger] self@.keys[j],
            decreases NUM_KEYS - k,
        {
            k = k + 1;
        }
        proof {
            if k < NUM_KEYS {
                let keys = self@.keys;
                assert(keys[k as int]);
                let c = lowest_key(keys);
                assert(0 <= c < NUM_KEYS && keys[c] && forall|j: int| 0 <= j < c ==> !#[trigger] keys[j]);
                if c < k {
                    assert(!keys[c]);
                }
                if c > k {
                    assert(!keys[k as int]);
                }
            } else {
                if any_key(self@.keys) {
                    let j = choose|j: int| 0 <= j < NUM_KEYS && #[trigger] self@.keys[j];
                    assert(!self@.keys[j]);
                }
            }
        }
        k
    }

    /// Executes one instruction. RND takes its byte from the random
    /// generator; every other instruction behaves exactly as
    /// `execute_with_random` with any byte.
    pub fn execute(&mut self, instruction: Instruction)
        requires
            can_execute(old(self)@, instruction),
        ensures
            exists|random: u8| final(self)@ == execute_spec(old(self)@, instruction, random),
            !(instruction is Rnd) ==> final(self)@ == execute_spec(old(self)@, instruction, 0),
    {
        if matches!(instruction, Instruction::Rnd { .. }) {
            let random = random_byte();
            self.execute_with_random(instruction, random);
        } else {
            self.execute_with_random(instruction, 0);
        }
    }

    /// Executes one instruction, with `random` as the byte that RND masks.
    pub fn execute_with_random(&mut self, instruction: Instruction, random: u8)
        requires
            can_execute(old(self)@, instruction),
        ensures
            final(self)@ == execute_spec(old(self)@, instruction, random),
    {
        match instruction {
            Instruction::Sys { addr: _ } => {
                // ignored
            },
            Instruction::Cls => {
                self.display = [false; DISPLAY_SIZE];
                assert(self.display@ =~= Seq::new(DISPLAY_SIZE as nat, |k: int| false));
            },
            Instruction::Ret => {
                self.pc = self.stack.pop().unwrap();
            },
            Instruction::Jp { addr } => {
                self.pc = addr;
            },
            Instruction::Call { addr } => {
                self.stack.push(self.pc);
                self.pc = addr;
            },
            Instruction::LdVxByte { x, kk } => {
                self.v[x] = kk;
            },
            Instruction::AddVxByte { x, kk } => {
                self.v[x] = self.v[x].wrapping_add(kk);
            },
            Instruction::LdI { addr: nnn } => {
                self.i = nnn;
            },
            Instruction::Se { x, kk } => {
                if self.v[x] == kk {
                    self.pc = self.pc + 2;
                }
            },
            Instruction::Sne { x, kk } => {
                if self.v[x] != kk {
                    self.pc = self.pc + 2;
                }
            },
            Instruction::SeVxVy { x, y } => {
                if self.v[x] == self.v[y] {
                    self.pc = self.pc + 2;
                }
            },
            Instruction::LdVxVy { x, y } => {
                self.v[x] = self.v[y];
            },
            Instruction::OrVxVy { x, y } => {
                self.v[x] = self.v[x] | self.v[y];
                if self.config.reset_vf_after_logical {
                    self.v[0xF] = 0;
                }
            },
            Instruction::AndVxVy { x, y } => {
                self.v[x] = self.v[x] & self.v[y];
                if self.config.reset_vf_after_logical {
                    self.v[0xF] = 0;
                }
            },
            Instruction::XorVxVy { x, y } => {
                self.v[x] = self.v[x] ^ self.v[y];
                if self.config.reset_vf_after_logical {
                    self.v[0xF] = 0;
                }
            },
            Instruction::AddVxVy { x, y } => {
                let sum: u16 = self.v[x] as u16 + self.v[y] as u16;
                self.v[x] = (sum % 256) as u8;
                self.v[0xF] = if sum > 255 { 1 } else { 0 };
            },
            Instruction::SubVxVy { x, y } => {
                let vx = self.v[x];
                let vy = self.v[y];
                let no_borrow = vx > vy;
                self.v[x] = vx.wrapping_sub(vy);
                self.v[0xF] = if no_borrow { 1 } else { 0 };
            },
            Instruction::ShrVx { x } => {
                self.shift_right_in_place(x);
            },
            Instruction::SubnVxVy { x, y } => {
                let vx = self.v[x];
                let vy = self.v[y];
                let no_borrow = vy > vx;
                self.v[x] = vy.wrapping_sub(vx);
                self.v[0xF] = if no_borrow { 1 } else { 0 };
            },
            Instruction::ShlVx { x } => {
                self.shift_left_in_place(x);
            },
            Instruction::SneVxVy { x, y } => {
                if self.v[x] != self.v[y] {
                    self.pc = self.pc + 2;
                }
            },
            Instruction::JpV0 { addr } => {
                let r = self.jump_register(addr);
                self.pc = addr + self.v[r] as u16;
            },
            Instruction::Rnd { x, kk } => {
                self.v[x] = random & kk;
            },
            Instruction::Drw { x, y, n } => {
                self.draw_sprite(x, y, n);
            },
            Instruction::Skp { x } => {
                let key = self.v[x] as usize;
                if self.keys[key] {
                    self.pc = self.pc + 2;
                }
            },
            Instruction::Sknp { x } => {
                let key = self.v[x] as usize;
                if !self.keys[key] {
                    self.pc = self.pc + 2;
                }
            },
            Instruction::LdVxDt { .. } | Instruction::LdVxK { .. } | Instruction::LdDtVx { .. }
            | Instruction::LdStVx { .. } | Instruction::AddIVx { .. } | Instruction::LdFVx { .. }
            | Instruction::LdBVx { .. } | Instruction::LdIVx { .. } | Instruction::LdVxI { .. }
            | Instruction::ShrVxVy { .. } | Instruction::ShlVxVy { .. } => {
                self.execute_extended(instruction);
            },
            Instruction::Unknown(_) => {
                // excluded by `can_execute`
            },
        }
    }

    /// Executes the FX family and the two-register shifts.
    fn execute_extended(&mut self, instruction: Instruction)
        requires
            can_execute(old(self)@, instruction),
            instruction is LdVxDt || instruction is LdVxK || instruction is LdDtVx
                || instruction is LdStVx || instruction is AddIVx || instruction is LdFVx
                || instruction is LdBVx || instruction is LdIVx || instruction is LdVxI
                || instruction is ShrVxVy || instruction is ShlVxVy,
        ensures
            final(self)@ == execute_spec(old(self)@, instruction, 0),
    {
        match instruction {
            Instruction::LdVxDt { x } => {
                self.v[x] = self.delay_timer;
            },
            Instruction::LdVxK { x } => {
                let key = self.pressed_key();
                if key < NUM_KEYS {
                    self.v[x] = key as u8;
                } else {
                    // no key pressed: stay on this instruction
                    self.pc = if self.pc >= 2 { self.pc - 2 } else { self.pc + 0xFFFE };
                }
            },
            Instruction::LdDtVx { x } => {
                self.delay_timer = self.v[x];
            },
            Instruction::LdStVx { x } => {
                self.sound_timer = self.v[x];
            },
            Instruction::AddIVx { x } => {
                self.i = self.i + self.v[x] as u16;
            },
            Instruction::LdFVx { x } => {
                let addr = FONTSET_START + self.v[x] as usize * FONT_BYTES_PER_CHAR;
                self.i = addr as u16;
            },
            Instruction::LdBVx { x } => {
                let val = self.v[x];
                let i = self.i as usize;
                self.memory[i] = val / 100;
                self.memory[i + 1] = (val / 10) % 10;
                self.memory[i + 2] = val % 10;
                assert(self@.memory =~= bcd_memory(old(self)@.memory, old(self).i as int, val));
            },
            Instruction::LdIVx { x } => {
                self.store_registers(x);
            },
            Instruction::LdVxI { x } => {
                self.load_registers(x);
            },
            Instruction::ShrVxVy { x, y } => {
                if self.config.shift_uses_vy {
                    let vy = self.v[y];
                    assert(vy >> 1 == vy / 2) by (bit_vector);
                    assert(vy & 1 == (if vy % 2 == 1 { 1u8 } else { 0u8 })) by (bit_vector);
                    self.v[x] = vy >> 1;
                    self.v[0xF] = vy & 0x1;
                } else {
                    self.shift_right_in_place(x);
                }
            },
            Instruction::ShlVxVy { x, y } => {
                if self.config.shift_uses_vy {
                    let vy = self.v[y];
                    assert(vy << 1 == ((vy * 2) % 256) as u8) by (bit_vector);
                    assert((vy >> 7) & 1 == (if vy >= 128 { 1u8 } else { 0u8 })) by (bit_vector);
                    self.v[x] = vy << 1;
                    self.v[0xF] = (vy >> 7) & 0x1;
                } else {
                    self.shift_left_in_place(x);
                }
            },
            _ => {
                // not in this family
            },
        }
    }

    /// SHR Vx in place: VF = lost bit, then Vx >>= 1.
    fn shift_right_in_place(&mut self, x: usize)
        requires
            x < NUM_REGISTERS,
        ensures
            final(self)@ == shr_in_place(old(self)@, x as int),
    {
        let vx = self.v[x];
        assert(vx & 1 == vx % 2) by (bit_vector);
        self.v[0xF] = vx & 0x1;
        let shifted = self.v[x];
        assert(shifted >> 1 == shifted / 2) by (bit_vector);
        self.v[x] = shifted >> 1;
    }

    /// SHL Vx in place: VF = lost bit, then Vx <<= 1.
    fn shift_left_in_place(&mut self, x: usize)
        requires
            x < NUM_REGISTERS,
        ensures
            final(self)@ == shl_in_place(old(self)@, x as int),
    {
        let vx = self.v[x];
        assert((vx >> 7) & 1 == vx / 128) by (bit_vector);
        self.v[0xF] = (vx >> 7) & 0x1;
        let shifted = self.v[x];
        assert(shifted << 1 == ((shifted * 2) % 256) as u8) by (bit_vector);
        self.v[x] = shifted << 1;
    }

    /// FX55: stores V0 ..= Vx in RAM from I on, then advances I when
    /// `load_store_increments_i` is set.
    fn store_registers(&mut self, x: usize)
        requires
            x < NUM_REGISTERS,
            old(self).i + x < MEMORY_SIZE,
        ensures
            final(self)@ == execute_spec(old(self)@, Instruction::LdIVx { x }, 0),
    {
        let start = self.i as usize;
        let mut k: usize = 0;
        while k <= x
            invariant
                x < NUM_REGISTERS,
                start == old(self).i,
                start + x < MEMORY_SIZE,
                k <= x + 1,
                self.v == old(self).v,
                self.pc == old(self).pc,
                self.i == old(self).i,
                self.stack == old(self).stack,
                self.display == old(self).display,
                self.delay_timer == old(self).delay_timer,
                self.sound_timer == old(self).sound_timer,
                self.keys == old(self).keys,
                self.config == old(self).config,
                forall|j: int|
                    0 <= j < MEMORY_SIZE ==> #[trigger] self.memory@[j] == (if start <= j < start
                        + k {
                        self.v@[j - start]
                    } else {
                        old(self).memory@[j]
                    }),
            decreases x + 1 - k,
        {
            self.memory[start + k] = self.v[k];
            k = k + 1;
        }
        assert(self@.memory =~= store_registers(old(self)@.memory, old(self)@.v, start as int, x as int));
        if self.config.load_store_increments_i {
            self.i = self.i + x as u16 + 1;
        }
    }

    /// FX65: loads V0 ..= Vx from RAM at I on, then advances I when
    /// `load_store_increments_i` is set.
    fn load_registers(&mut self, x: usize)
        requires
            x < NUM_REGISTERS,
            old(self).i + x < MEMORY_SIZE,
        ensures
            final(self)@ == execute_spec(old(self)@, Instruction::LdVxI { x }, 0),
    {
        let start = self.i as usize;
        let mut k: usize = 0;
        while k <= x
            invariant
                x < NUM_REGISTERS,
                start == old(self).i,
                start + x < MEMORY_SIZE,
                k <= x + 1,
                self.memory == old(self).memory,
                self.pc == old(self).pc,
                self.i == old(self).i,
                self.stack == old(self).stack,
                self.display == old(self).display,
                self.delay_timer == old(self).delay_timer,
                self.sound_timer == old(self).sound_timer,
                self.keys == old(self).keys,
                self.config == old(self).config,
                forall|j: int|
                    0 <= j < NUM_REGISTERS ==> #[trigger] self.v@[j] == (if j < k {
                        old(self).memory@[start + j]
                    } else {
                        old(self).v@[j]
                    }),
            decreases x + 1 - k,
        {
            self.v[k] = self.memory[start + k];
            k = k + 1;
        }
        assert(self@.v =~= load_registers(old(self)@.v, old(self)@.memory, start as int, x as int));
        if self.config.load_store_increments_i {
            self.i = self.i + x as u16 + 1;
        }
    }

    /// DXYN: XORs the `n`-row sprite at I onto the display at (Vx, Vy),
    /// wrapping around the edges; VF = 1 when a lit pixel was turned off.
    fn draw_sprite(&mut self, x: usize, y: usize, n: u8)
        requires
            x < NUM_REGISTERS,
            y < NUM_REGISTERS,
            n == 0 || old(self).i + n <= MEMORY_SIZE,
        ensures
            final(self)@ == execute_spec(old(self)@, Instruction::Drw { x, y, n }, 0),
    {
        let x_start = self.v[x] as usize % DISPLAY_WIDTH;
        let y_start = self.v[y] as usize % DISPLAY_HEIGHT;
        let ghost xs = x_start as int;
        let ghost ys = y_start as int;
        let ghost d0 = self.display@;
        let ghost mem = self.memory@;
        let ghost i0 = self.i as int;
        let ghost v0 = self.v@;
        let clip = self.config.clip_sprites;
        let ghost sp = Sprite { memory: mem, i: i0, xs, ys, clip };

        // reset collision flag
        self.v[0xF] = 0;

        let mut row: usize = 0;
        while row < n as usize
            invariant
                row <= n,
                n == 0 || i0 + n <= MEMORY_SIZE,
                xs == x_start,
                ys == y_start,
                x_start < DISPLAY_WIDTH,
                y_start < DISPLAY_HEIGHT,
                d0.len() == DISPLAY_SIZE,
                v0.len() == NUM_REGISTERS,
                self.memory@ == mem,
                self.i == i0,
                self.pc == old(self).pc,
                self.stack == old(self).stack,
                self.delay_timer == old(self).delay_timer,
                self.sound_timer == old(self).sound_timer,
                self.keys == old(self).keys,
                self.config == old(self).config,
                clip == self.config.clip_sprites,
                sp == (Sprite { memory: mem, i: i0, xs, ys, clip }),
                self.display@ == draw_pixels(d0, sp, (row * 8) as nat).0,
                self.v@ == v0.update(
                    vf(),
                    if draw_pixels(d0, sp, (row * 8) as nat).1 {
                        1u8
                    } else {
                        0u8
                    },
                ),
            decreases n - row,
        {
            let sprite_byte = self.memory[self.i as usize + row];
            let mut col: u8 = 0;
            while col < 8
                invariant
                    row < n,
                    col <= 8,
                    n == 0 || i0 + n <= MEMORY_SIZE,
                    xs == x_start,
                    ys == y_start,
                    x_start < DISPLAY_WIDTH,
                    y_start < DISPLAY_HEIGHT,
                    d0.len() == DISPLAY_SIZE,
                    v0.len() == NUM_REGISTERS,
                    sprite_byte == mem[i0 + row],
                    self.memory@ == mem,
                    self.i == i0,
                    self.pc == old(self).pc,
                    self.stack == old(self).stack,
                    self.delay_timer == old(self).delay_timer,
                    self.sound_timer == old(self).sound_timer,
                    self.keys == old(self).keys,
                    self.config == old(self).config,
                    clip == self.config.clip_sprites,
                    sp == (Sprite { memory: mem, i: i0, xs, ys, clip }),
                    self.display@ == draw_pixels(d0, sp, (row * 8 + col) as nat).0,
                    self.v@ == v0.update(
                        vf(),
                        if draw_pixels(d0, sp, (row * 8 + col) as nat).1 {
                            1u8
                        } else {
                            0u8
                        },
                    ),
                decreases 8 - col,
            {
                let ghost k = (row * 8 + col) as int;
                proof {
                    lemma_row_col(row as int, col as int);
                    lemma_pixel_index_bounds(xs, ys, k);
                    lemma_draw_pixels_len(d0, sp, k as nat);
                }
                let sprite_pixel_bit = (sprite_byte >> (7 - col)) & 0x1;
                let visible = !clip || (x_start + (col as usize) < DISPLAY_WIDTH && y_start + row
                    < DISPLAY_HEIGHT);
                assert(sp.lit(k) == (sprite_pixel_bit != 0 && visible));
                if sprite_pixel_bit != 0 && visible {
                    let px = (x_start + col as usize) % DISPLAY_WIDTH;
                    let py = (y_start + row) % DISPLAY_HEIGHT;
                    let idx = py * DISPLAY_WIDTH + px;
                    assert(idx == sp.index(k));
                    // collision detection
                    if self.display[idx] {
                        self.v[0xF] = 1;
                    }
                    self.display[idx] = !self.display[idx];
                }
                assert(self.v@ =~= v0.update(
                    vf(),
                    if draw_pixels(d0, sp, (k + 1) as nat).1 {
                        1u8
                    } else {
                        0u8
                    },
                ));
                col = col + 1;
            }
            row = row + 1;
        }
    }

    /// One 60 Hz tick: each non-zero timer counts down by one.
    pub fn tick_timers(&mut self)
        ensures
            final(self)@ == tick_spec(old(self)@),
    {
        if self.delay_timer > 0 {
            self.delay_timer = self.delay_timer - 1;
        }
        if self.sound_timer > 0 {
            self.sound_timer = self.sound_timer - 1;
        }
    }

    /// Records whether key `key` of the keypad is pressed.
    pub fn set_key(&mut self, key: usize, pressed: bool)
        requires
            key < NUM_KEYS,
        ensures
            final(self)@ == (Chip8State { keys: old(self)@.keys.update(key as int, pressed), ..old(self)@ }),
    {
        self.keys[key] = pressed;
    }

    /// The display, row by row, true = pixel on.
    pub fn display(&self) -> (pixels: &[bool; DISPLAY_SIZE])
        ensures
            pixels@ == self@.display,
    {
        &self.display
    }
}

/// Pixel `row * 8 + col` of a sprite lies in row `row` and column `col`.
pub(crate) proof fn lemma_row_col(row: int, col: int)
    requires
        0 <= row,
        0 <= col < 8,
    ensures
        (row * 8 + col) / 8 == row,
        (row * 8 + col) % 8 == col,
{
    assert((row * 8 + col) / 8 == row && (row * 8 + col) % 8 == col) by (nonlinear_arith)
        requires
            0 <= row,
            0 <= col < 8,
    ;
}

impl Default for Chip8 {
    /// Same as `Chip8::new()`.
    fn default() -> (chip8: Self)
        ensures
            chip8@ == initial_state(Chip8Config::spec_no_quirks()),
            !chip8.config.shift_uses_vy && !chip8.config.load_store_increments_i
                && !chip8.config.jump_v0_uses_vx && !chip8.config.clip_sprites
                && !chip8.config.reset_vf_after_logical,
    {
        Self::new()
    }
}

} // verus!
