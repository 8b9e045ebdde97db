use vstd::prelude::*;

use crate::config::Chip8Config;
use crate::cpu::{
    can_execute, drw_sprite, execute_spec, initial_state, lemma_row_col, memory_with_rom, Chip8State,
};
use crate::sprite::{
    hits_lit, lemma_collision_without_overlap, lemma_draw_is_xor, lemma_no_overlap,
    lemma_toggled_hits, lemma_toggled_single, toggled,
};
use crate::instruction::Instruction;

verus! {

/// `s2` differs from `s` at most in register `x` and the flag register VF:
/// every other register, and every component but the registers, is as in
/// `s`.
pub open spec fn only_vx_and_vf_changed(s: Chip8State, s2: Chip8State, x: int) -> bool {
    &&& s2.v.len() == s.v.len()
    &&& forall|k: int| 0 <= k < 15 && k != x ==> #[trigger] s2.v[k] == s.v[k]
    &&& (Chip8State { v: s.v, ..s2 }) == s
}

/// The byte shifts as quotients and remainders.
proof fn lemma_byte_shifts(b: u8)
    by (bit_vector)
    ensures
        b >> 1 == b / 2,
        b & 1 == b % 2,
        b << 1 == ((b * 2) % 256) as u8,
        b >> 7 == b / 128,
{
}

/// 8XY4 (ADD Vx, Vy): the new Vx and the carry left in VF make up the whole
/// sum, `Vx' + 256 * VF == Vx + Vy`, with VF a single bit; nothing but Vx
/// and VF changes.
pub proof fn law_add_registers(s: Chip8State, x: usize, y: usize, random: u8)
    requires
        s.wf(),
        x < 15,
        y < 16,
    ensures
        ({
            let s2 = execute_spec(s, Instruction::AddVxVy { x, y }, random);
            &&& s2.v[x as int] + 256 * s2.v[15] == s.v[x as int] + s.v[y as int]
            &&& s2.v[15] == 0 || s2.v[15] == 1
            &&& only_vx_and_vf_changed(s, s2, x as int)
        }),
{
}

/// 8XY5 (SUB Vx, Vy): the new Vx is the difference modulo 256, borrow or
/// not, so that adding Vy back gives the old Vx; VF (NOT borrow) is 1
/// exactly when the old Vx was greater than Vy, 0 otherwise; nothing but Vx
/// and VF changes.
pub proof fn law_sub_registers(s: Chip8State, x: usize, y: usize, random: u8)
    requires
        s.wf(),
        x < 15,
        y < 16,
    ensures
        ({
            let s2 = execute_spec(s, Instruction::SubVxVy { x, y }, random);
            &&& (s2.v[x as int] + s.v[y as int]) % 256 == s.v[x as int]
            &&& s2.v[15] == (if s.v[x as int] > s.v[y as int] { 1u8 } else { 0u8 })
            &&& only_vx_and_vf_changed(s, s2, x as int)
        }),
{
}

/// 8XY7 (SUBN Vx, Vy): the new Vx is Vy - Vx modulo 256, so that adding
/// the old Vx gives Vy; VF is 1 exactly when Vy was greater than the old
/// Vx; nothing but Vx and VF changes.
pub proof fn law_subn_registers(s: Chip8State, x: usize, y: usize, random: u8)
    requires
        s.wf(),
        x < 15,
        y < 16,
    ensures
        ({
            let s2 = execute_spec(s, Instruction::SubnVxVy { x, y }, random);
            &&& (s2.v[x as int] + s.v[x as int]) % 256 == s.v[y as int]
            &&& s2.v[15] == (if s.v[y as int] > s.v[x as int] { 1u8 } else { 0u8 })
            &&& only_vx_and_vf_changed(s, s2, x as int)
        }),
{
}

/// With VF itself as the destination of 8XY1 ..= 8XYE, the flag is written
/// last and wins: ADD leaves the carry, SUB and SUBN leave NOT borrow, the
/// logical operations leave the result or, with `reset_vf_after_logical`,
/// 0; SHR in place leaves 0 and SHL in place leaves the lost top bit
/// shifted up (2 or 0). V0 ..= VE never change.
pub proof fn law_flag_register_as_destination(s: Chip8State, y: usize, random: u8)
    requires
        s.wf(),
        y < 16,
    ensures
        ({
            let vf = s.v[15];
            let vy = s.v[y as int];
            let add = execute_spec(s, Instruction::AddVxVy { x: 15, y }, random);
            let sub = execute_spec(s, Instruction::SubVxVy { x: 15, y }, random);
            let subn = execute_spec(s, Instruction::SubnVxVy { x: 15, y }, random);
            let or = execute_spec(s, Instruction::OrVxVy { x: 15, y }, random);
            let shr = execute_spec(s, Instruction::ShrVx { x: 15 }, random);
            let shl = execute_spec(s, Instruction::ShlVx { x: 15 }, random);
            &&& add.v[15] == (if vf + vy > 255 { 1u8 } else { 0u8 })
            &&& sub.v[15] == (if vf > vy { 1u8 } else { 0u8 })
            &&& subn.v[15] == (if vy > vf { 1u8 } else { 0u8 })
            &&& or.v[15] == (if s.config.reset_vf_after_logical { 0u8 } else { vf | vy })
            &&& shr.v[15] == 0
            &&& shl.v[15] == (if vf >= 128 { 2u8 } else { 0u8 })
            &&& only_vx_and_vf_changed(s, add, 15)
            &&& only_vx_and_vf_changed(s, sub, 15)
            &&& only_vx_and_vf_changed(s, subn, 15)
            &&& only_vx_and_vf_changed(s, or, 15)
            &&& only_vx_and_vf_changed(s, shr, 15)
            &&& only_vx_and_vf_changed(s, shl, 15)
        }),
{
}

/// 0NNN (SYS) is ignored and changes nothing; ANNN sets I to NNN and
/// changes nothing else; an unknown opcode is never executable.
pub proof fn law_sys_index_unknown(s: Chip8State, addr: u16, op: u16, random: u8)
    requires
        s.wf(),
    ensures
        execute_spec(s, Instruction::Sys { addr }, random) == s,
        execute_spec(s, Instruction::LdI { addr }, random).i == addr,
        (Chip8State { i: s.i, ..execute_spec(s, Instruction::LdI { addr }, random) }) == s,
        !can_execute(s, Instruction::Unknown(op)),
{
}

/// 8XY0 / 8XY1 / 8XY2 / 8XY3: LD copies Vy into Vx; OR, AND and XOR combine
/// the two bitwise into Vx and then clear VF when `reset_vf_after_logical`
/// is set, leaving it alone otherwise; LD never touches VF. Nothing but Vx
/// and VF changes.
pub proof fn law_logical_registers(s: Chip8State, x: usize, y: usize, random: u8)
    requires
        s.wf(),
        x < 15,
        y < 16,
    ensures
        ({
            let ld = execute_spec(s, Instruction::LdVxVy { x, y }, random);
            let or = execute_spec(s, Instruction::OrVxVy { x, y }, random);
            let and = execute_spec(s, Instruction::AndVxVy { x, y }, random);
            let xor = execute_spec(s, Instruction::XorVxVy { x, y }, random);
            let flag = if s.config.reset_vf_after_logical { 0u8 } else { s.v[15] };
            &&& ld.v[x as int] == s.v[y as int] && ld.v[15] == s.v[15]
            &&& or.v[x as int] == s.v[x as int] | s.v[y as int] && or.v[15] == flag
            &&& and.v[x as int] == s.v[x as int] & s.v[y as int] && and.v[15] == flag
            &&& xor.v[x as int] == s.v[x as int] ^ s.v[y as int] && xor.v[15] == flag
            &&& only_vx_and_vf_changed(s, ld, x as int)
            &&& only_vx_and_vf_changed(s, or, x as int)
            &&& only_vx_and_vf_changed(s, and, x as int)
            &&& only_vx_and_vf_changed(s, xor, x as int)
        }),
{
}

/// 6XKK / 7XKK: LD puts KK into Vx; ADD adds KK to Vx modulo 256 and,
/// unlike 8XY4, leaves VF alone. Nothing but Vx changes.
pub proof fn law_byte_registers(s: Chip8State, x: usize, kk: u8, random: u8)
    requires
        s.wf(),
        x < 15,
    ensures
        ({
            let ld = execute_spec(s, Instruction::LdVxByte { x, kk }, random);
            let add = execute_spec(s, Instruction::AddVxByte { x, kk }, random);
            &&& ld.v[x as int] == kk && ld.v[15] == s.v[15]
            &&& (add.v[x as int] + 256 - kk) % 256 == s.v[x as int] && add.v[15] == s.v[15]
            &&& only_vx_and_vf_changed(s, ld, x as int)
            &&& only_vx_and_vf_changed(s, add, x as int)
        }),
{
}

/// 8XY6 / 8XYE in place: SHR leaves `Vx >> 1` in Vx and the lost low bit
/// `Vx & 1` in VF; SHL leaves `Vx << 1` (the byte's upper bit dropped) in
/// Vx and the lost high bit `Vx >> 7` in VF. With both registers, the same
/// holds of Vy in place of Vx when `shift_uses_vy` is set, and of Vx
/// otherwise. Nothing but Vx and VF changes.
pub proof fn law_shift_registers(s: Chip8State, x: usize, y: usize, random: u8)
    requires
        s.wf(),
        x < 15,
        y < 16,
    ensures
        ({
            let shr = execute_spec(s, Instruction::ShrVx { x }, random);
            let shl = execute_spec(s, Instruction::ShlVx { x }, random);
            let shr2 = execute_spec(s, Instruction::ShrVxVy { x, y }, random);
            let shl2 = execute_spec(s, Instruction::ShlVxVy { x, y }, random);
            let src = if s.config.shift_uses_vy { s.v[y as int] } else { s.v[x as int] };
            &&& shr.v[x as int] == s.v[x as int] >> 1 && shr.v[15] == s.v[x as int] & 1
            &&& shl.v[x as int] == s.v[x as int] << 1 && shl.v[15] == s.v[x as int] >> 7
            &&& shr2.v[x as int] == src >> 1 && shr2.v[15] == src & 1
            &&& shl2.v[x as int] == src << 1 && shl2.v[15] == src >> 7
            &&& only_vx_and_vf_changed(s, shr, x as int)
            &&& only_vx_and_vf_changed(s, shl, x as int)
            &&& only_vx_and_vf_changed(s, shr2, x as int)
            &&& only_vx_and_vf_changed(s, shl2, x as int)
        }),
{
    lemma_byte_shifts(s.v[x as int]);
    lemma_byte_shifts(s.v[y as int]);
}

/// 3XKK / 4XKK / 5XY0 / 9XY0: each moves the program counter past the
/// next instruction (by 2) exactly when its condition holds (SE: Vx == KK,
/// SNE: Vx != KK, and likewise against Vy), and leaves it where it was
/// otherwise; nothing else changes.
pub proof fn law_skip_on_registers(s: Chip8State, x: usize, y: usize, kk: u8, random: u8)
    requires
        s.wf(),
        x < 16,
        y < 16,
        s.pc + 2 <= u16::MAX,
    ensures
        ({
            let se = execute_spec(s, Instruction::Se { x, kk }, random);
            let sne = execute_spec(s, Instruction::Sne { x, kk }, random);
            let sexy = execute_spec(s, Instruction::SeVxVy { x, y }, random);
            let snexy = execute_spec(s, Instruction::SneVxVy { x, y }, random);
            &&& se.pc == s.pc + 2 <==> s.v[x as int] == kk
            &&& se.pc == s.pc <==> s.v[x as int] != kk
            &&& sne.pc == s.pc + 2 <==> s.v[x as int] != kk
            &&& sne.pc == s.pc <==> s.v[x as int] == kk
            &&& sexy.pc == s.pc + 2 <==> s.v[x as int] == s.v[y as int]
            &&& sexy.pc == s.pc <==> s.v[x as int] != s.v[y as int]
            &&& snexy.pc == s.pc + 2 <==> s.v[x as int] != s.v[y as int]
            &&& snexy.pc == s.pc <==> s.v[x as int] == s.v[y as int]
            &&& (Chip8State { pc: s.pc, ..se }) == s
            &&& (Chip8State { pc: s.pc, ..sne }) == s
            &&& (Chip8State { pc: s.pc, ..sexy }) == s
            &&& (Chip8State { pc: s.pc, ..snexy }) == s
        }),
{
}

/// EX9E / EXA1: SKP skips the next instruction exactly when the key named
/// by Vx is pressed, SKNP exactly when it is not; nothing else changes.
pub proof fn law_skip_on_keys(s: Chip8State, x: usize, random: u8)
    requires
        s.wf(),
        x < 16,
        s.v[x as int] < 16,
        s.pc + 2 <= u16::MAX,
    ensures
        ({
            let skp = execute_spec(s, Instruction::Skp { x }, random);
            let sknp = execute_spec(s, Instruction::Sknp { x }, random);
            let pressed = s.keys[s.v[x as int] as int];
            &&& skp.pc == s.pc + 2 <==> pressed
            &&& skp.pc == s.pc <==> !pressed
            &&& sknp.pc == s.pc + 2 <==> !pressed
            &&& sknp.pc == s.pc <==> pressed
            &&& (Chip8State { pc: s.pc, ..skp }) == s
            &&& (Chip8State { pc: s.pc, ..sknp }) == s
        }),
{
}

/// 1NNN jumps to NNN; 2NNN pushes the address of the next instruction (the
/// current program counter) and jumps to NNN; 00EE pops the top return
/// address into the program counter. Nothing else changes.
pub proof fn law_jump_call_return(s: Chip8State, addr: u16, random: u8)
    requires
        s.wf(),
    ensures
        ({
            let jp = execute_spec(s, Instruction::Jp { addr }, random);
            let call = execute_spec(s, Instruction::Call { addr }, random);
            &&& jp.pc == addr
            &&& (Chip8State { pc: s.pc, ..jp }) == s
            &&& call.pc == addr
            &&& call.stack.len() == s.stack.len() + 1
            &&& call.stack.last() == s.pc
            &&& call.stack.subrange(0, s.stack.len() as int) == s.stack
            &&& (Chip8State { pc: s.pc, stack: s.stack, ..call }) == s
        }),
        s.stack.len() > 0 ==> ({
            let ret = execute_spec(s, Instruction::Ret, random);
            &&& ret.pc == s.stack[s.stack.len() - 1]
            &&& ret.stack.len() + 1 == s.stack.len()
            &&& ret.stack == s.stack.subrange(0, s.stack.len() - 1)
            &&& (Chip8State { pc: s.pc, stack: s.stack, ..ret }) == s
        }),
{
    let call = execute_spec(s, Instruction::Call { addr }, random);
    assert(call.stack.subrange(0, s.stack.len() as int) =~= s.stack);
}

/// BNNN jumps to NNN plus V0, or, when `jump_v0_uses_vx` is set, plus VX
/// where X is the highest nibble of NNN; nothing else changes.
pub proof fn law_jump_with_offset(s: Chip8State, addr: u16, random: u8)
    requires
        s.wf(),
        !s.config.jump_v0_uses_vx ==> addr + s.v[0] <= u16::MAX,
        s.config.jump_v0_uses_vx ==> addr + s.v[((addr >> 8) & 0xF) as int] <= u16::MAX,
    ensures
        ({
            let jp = execute_spec(s, Instruction::JpV0 { addr }, random);
            &&& !s.config.jump_v0_uses_vx ==> jp.pc == addr + s.v[0]
            &&& s.config.jump_v0_uses_vx ==> jp.pc == addr + s.v[((addr >> 8) & 0xF) as int]
            &&& (Chip8State { pc: s.pc, ..jp }) == s
        }),
{
    assert((addr >> 8) & 0xF == (addr / 256) % 16) by (bit_vector);
}

/// FX07 copies the delay timer into Vx; FX15 / FX18 set the delay / sound
/// timer to Vx; FX29 points I at the font glyph of the digit in Vx, five
/// bytes per glyph from address 0; FX1E adds Vx to I. Nothing else changes.
pub proof fn law_timers_and_index(s: Chip8State, x: usize, random: u8)
    requires
        s.wf(),
        x < 16,
    ensures
        ({
            let get_dt = execute_spec(s, Instruction::LdVxDt { x }, random);
            let set_dt = execute_spec(s, Instruction::LdDtVx { x }, random);
            let set_st = execute_spec(s, Instruction::LdStVx { x }, random);
            let font = execute_spec(s, Instruction::LdFVx { x }, random);
            &&& get_dt.v[x as int] == s.delay_timer
            &&& get_dt.v.len() == 16
            &&& forall|k: int| 0 <= k < 16 && k != x ==> #[trigger] get_dt.v[k] == s.v[k]
            &&& (Chip8State { v: s.v, ..get_dt }) == s
            &&& set_dt.delay_timer == s.v[x as int]
            &&& (Chip8State { delay_timer: s.delay_timer, ..set_dt }) == s
            &&& set_st.sound_timer == s.v[x as int]
            &&& (Chip8State { sound_timer: s.sound_timer, ..set_st }) == s
            &&& font.i == 5 * s.v[x as int]
            &&& (Chip8State { i: s.i, ..font }) == s
        }),
        s.i + s.v[x as int] <= u16::MAX ==> ({
            let add = execute_spec(s, Instruction::AddIVx { x }, random);
            &&& add.i == s.i + s.v[x as int]
            &&& (Chip8State { i: s.i, ..add }) == s
        }),
{
}

/// Some key of the sixteen is pressed at position `k` or below.
proof fn lemma_lowest_pressed(keys: Seq<bool>, k: int)
    requires
        0 <= k < 16,
        keys[k],
    ensures
        exists|c: int| 0 <= c < 16 && keys[c] && forall|j: int| 0 <= j < c ==> !#[trigger] keys[j],
    decreases k,
{
    if exists|j: int| 0 <= j < k && #[trigger] keys[j] {
        let j = choose|j: int| 0 <= j < k && #[trigger] keys[j];
        lemma_lowest_pressed(keys, j);
    } else {
        assert(forall|j: int| 0 <= j < k ==> !#[trigger] keys[j]);
    }
}

/// FX0A waits for a key: with some key pressed, Vx receives the lowest
/// pressed key and the program goes on; with none, the program counter
/// steps back onto this instruction, so that it runs again. Nothing else
/// changes.
pub proof fn law_wait_for_key(s: Chip8State, x: usize, random: u8)
    requires
        s.wf(),
        x < 16,
        s.pc >= 2,
    ensures
        ({
            let w = execute_spec(s, Instruction::LdVxK { x }, random);
            let key = w.v[x as int] as int;
            &&& (exists|k: int| 0 <= k < 16 && #[trigger] s.keys[k]) ==> {
                &&& key < 16 && s.keys[key]
                &&& forall|j: int| 0 <= j < key ==> !#[trigger] s.keys[j]
                &&& w.v.len() == 16
                &&& forall|k: int| 0 <= k < 16 && k != x ==> #[trigger] w.v[k] == s.v[k]
                &&& (Chip8State { v: s.v, ..w }) == s
            }
            &&& !(exists|k: int| 0 <= k < 16 && #[trigger] s.keys[k]) ==> {
                &&& w.pc + 2 == s.pc
                &&& (Chip8State { pc: s.pc, ..w }) == s
            }
        }),
{
    if exists|k: int| 0 <= k < 16 && #[trigger] s.keys[k] {
        let k = choose|k: int| 0 <= k < 16 && #[trigger] s.keys[k];
        lemma_lowest_pressed(s.keys, k);
    }
}

/// At power-on execution starts at 0x200 with I, every register and both
/// timers at zero, an empty stack, every pixel off and no key pressed, and
/// the quirks that were asked for.
pub proof fn law_power_on(config: Chip8Config)
    ensures
        ({
            let s = initial_state(config);
            &&& s.wf()
            &&& s.pc == 0x200 && s.i == 0
            &&& s.stack.len() == 0
            &&& s.delay_timer == 0 && s.sound_timer == 0
            &&& forall|k: int| 0 <= k < 16 ==> #[trigger] s.v[k] == 0
            &&& forall|j: int| 0 <= j < 2048 ==> !#[trigger] s.display[j]
            &&& forall|k: int| 0 <= k < 16 ==> !#[trigger] s.keys[k]
            &&& s.config == config
        }),
{
}

/// After power-on, whatever the quirks, RAM holds the sixteen glyphs of the
/// hexadecimal font, five rows each, at addresses 0 ..= 79 (digit d at
/// 5 * d), and zero everywhere else.
pub proof fn law_font_in_ram(config: Chip8Config)
    ensures
        initial_state(config).memory.len() == 4096,
        initial_state(config).memory.subrange(0, 80) == seq![
            0xF0u8, 0x90, 0x90, 0x90, 0xF0, // 0
            0x20, 0x60, 0x20, 0x20, 0x70, // 1
            0xF0, 0x10, 0xF0, 0x80, 0xF0, // 2
            0xF0, 0x10, 0xF0, 0x10, 0xF0, // 3
            0x90, 0x90, 0xF0, 0x10, 0x10, // 4
            0xF0, 0x80, 0xF0, 0x10, 0xF0, // 5
            0xF0, 0x80, 0xF0, 0x90, 0xF0, // 6
            0xF0, 0x10, 0x20, 0x40, 0x40, // 7
            0xF0, 0x90, 0xF0, 0x90, 0xF0, // 8
            0xF0, 0x90, 0xF0, 0x10, 0xF0, // 9
            0xF0, 0x90, 0xF0, 0x90, 0x90, // A
            0xE0, 0x90, 0xE0, 0x90, 0xE0, // B
            0xF0, 0x80, 0x80, 0x80, 0xF0, // C
            0xE0, 0x90, 0x90, 0x90, 0xE0, // D
            0xF0, 0x80, 0xF0, 0x80, 0xF0, // E
            0xF0, 0x80, 0xF0, 0x80, 0x80, // F
        ],
        forall|k: int| 80 <= k < 4096 ==> #[trigger] initial_state(config).memory[k] == 0,
{
    assert(initial_state(config).memory.subrange(0, 80) =~= seq![
            0xF0u8, 0x90, 0x90, 0x90, 0xF0,
            0x20, 0x60, 0x20, 0x20, 0x70,
            0xF0, 0x10, 0xF0, 0x80, 0xF0,
            0xF0, 0x10, 0xF0, 0x10, 0xF0,
            0x90, 0x90, 0xF0, 0x10, 0x10,
            0xF0, 0x80, 0xF0, 0x10, 0xF0,
            0xF0, 0x80, 0xF0, 0x90, 0xF0,
            0xF0, 0x10, 0x20, 0x40, 0x40,
            0xF0, 0x90, 0xF0, 0x90, 0xF0,
            0xF0, 0x90, 0xF0, 0x10, 0xF0,
            0xF0, 0x90, 0xF0, 0x90, 0x90,
            0xE0, 0x90, 0xE0, 0x90, 0xE0,
            0xF0, 0x80, 0x80, 0x80, 0xF0,
            0xE0, 0x90, 0x90, 0x90, 0xE0,
            0xF0, 0x80, 0xF0, 0x80, 0xF0,
            0xF0, 0x80, 0xF0, 0x80, 0x80,
        ]);
}

/// A loaded program sits byte for byte from address 0x200 on; RAM keeps its
/// size and every byte outside the program.
pub proof fn law_rom_placed(memory: Seq<u8>, rom: Seq<u8>)
    requires
        memory.len() == 4096,
        0x200 + rom.len() <= 4096,
    ensures
        memory_with_rom(memory, rom).len() == 4096,
        forall|k: int| 0 <= k < rom.len() ==> #[trigger] memory_with_rom(memory, rom)[0x200 + k] == rom[k],
        forall|a: int|
            0 <= a < 4096 && !(0x200 <= a < 0x200 + rom.len()) ==> #[trigger] memory_with_rom(memory, rom)[a]
                == memory[a],
{
}

/// 00E0 turns every pixel off and changes nothing else.
pub proof fn law_clear_screen(s: Chip8State, random: u8)
    requires
        s.wf(),
    ensures
        ({
            let c = execute_spec(s, Instruction::Cls, random);
            &&& c.display.len() == 2048
            &&& forall|j: int| 0 <= j < 2048 ==> !#[trigger] c.display[j]
            &&& (Chip8State { display: s.display, ..c }) == s
        }),
{
}

/// FX55 writes V0 ..= VX to RAM at I, I + 1, ..., leaving every other byte;
/// FX65 reads V0 ..= VX back from there, leaving the other registers. Both
/// advance I by X + 1 when `load_store_increments_i` is set and leave it
/// otherwise; nothing else changes.
pub proof fn law_block_transfer(s: Chip8State, x: usize, random: u8)
    requires
        s.wf(),
        x < 16,
        s.i + x < 4096,
    ensures
        ({
            let st = execute_spec(s, Instruction::LdIVx { x }, random);
            let ld = execute_spec(s, Instruction::LdVxI { x }, random);
            let i2 = if s.config.load_store_increments_i { s.i + x + 1 } else { s.i as int };
            &&& st.memory.len() == 4096
            &&& forall|k: int| 0 <= k <= x ==> #[trigger] st.memory[s.i + k] == s.v[k]
            &&& forall|a: int|
                0 <= a < 4096 && !(s.i <= a <= s.i + x) ==> #[trigger] st.memory[a] == s.memory[a]
            &&& st.i == i2
            &&& (Chip8State { memory: s.memory, i: s.i, ..st }) == s
            &&& ld.v.len() == 16
            &&& forall|k: int| 0 <= k <= x ==> #[trigger] ld.v[k] == s.memory[s.i + k]
            &&& forall|k: int| x < k < 16 ==> #[trigger] ld.v[k] == s.v[k]
            &&& ld.i == i2
            &&& (Chip8State { v: s.v, i: s.i, ..ld }) == s
        }),
{
}

/// Display index of the screen cell `c` columns right of and `r` rows
/// below column `xs`, row `ys`, wrapping around both edges (rows of 64
/// cells, 32 rows).
pub open spec fn cell_index(xs: int, ys: int, r: int, c: int) -> int {
    ((ys + r) % 32) * 64 + (xs + c) % 64
}

/// Bit `c` of a sprite row, counted from the most significant (leftmost).
pub open spec fn row_bit(byte: u8, c: int) -> bool {
    (byte >> ((7 - c) as u8)) & 1u8 == 1u8
}

/// Whether DXYN draws the pixel in column `c` of row `r` of its sprite:
/// that bit of the row's byte (RAM at I + r) is set and, with
/// `clip_sprites`, the pixel lies on the screen rather than past its right
/// or bottom edge.
pub open spec fn drw_draws(s: Chip8State, x: usize, y: usize, r: int, c: int) -> bool {
    let xs = (s.v[x as int] % 64) as int;
    let ys = (s.v[y as int] % 32) as int;
    row_bit(s.memory[s.i + r], c) && (!s.config.clip_sprites || (xs + c < 64 && ys + r < 32))
}

/// The low bit of a byte is set exactly when it is 1.
proof fn lemma_low_bit(b: u8)
    by (bit_vector)
    ensures
        (b & 1u8 != 0) == (b & 1u8 == 1u8),
{
}

/// DXYN with at most 32 rows XORs its sprite onto the screen at column
/// Vx mod 64, row Vy mod 32: the cell of each sprite pixel flips exactly
/// when that pixel is drawn, every cell that no sprite pixel covers keeps
/// its value, and VF becomes 1 exactly when a drawn pixel lands on a cell
/// that was on, 0 otherwise. Nothing but the display and VF changes.
pub proof fn law_draw_sprite_pixels(s: Chip8State, x: usize, y: usize, n: u8, random: u8)
    requires
        s.wf(),
        x < 16,
        y < 16,
        n <= 32,
        s.i + n <= 4096,
    ensures
        ({
            let d = execute_spec(s, Instruction::Drw { x, y, n }, random);
            let xs = (s.v[x as int] % 64) as int;
            let ys = (s.v[y as int] % 32) as int;
            &&& d.display.len() == 2048
            &&& forall|r: int, c: int|
                0 <= r < n && 0 <= c < 8 ==> #[trigger] d.display[cell_index(xs, ys, r, c)]
                    == (s.display[cell_index(xs, ys, r, c)] != drw_draws(s, x, y, r, c))
            &&& forall|j: int|
                0 <= j < 2048 && (forall|r: int, c: int|
                    0 <= r < n && 0 <= c < 8 ==> j != #[trigger] cell_index(xs, ys, r, c))
                    ==> #[trigger] d.display[j] == s.display[j]
            &&& d.v[15] == (if exists|r: int, c: int|
                0 <= r < n && 0 <= c < 8 && #[trigger] drw_draws(s, x, y, r, c)
                    && s.display[cell_index(xs, ys, r, c)] {
                1u8
            } else {
                0u8
            })
            &&& d.v == s.v.update(15, d.v[15])
            &&& (Chip8State { display: s.display, v: s.v, ..d }) == s
        }),
{
    let sp = drw_sprite(s, x as int, y as int);
    let k = (n * 8) as nat;
    let d = execute_spec(s, Instruction::Drw { x, y, n }, random);
    let xs = (s.v[x as int] % 64) as int;
    let ys = (s.v[y as int] % 32) as int;
    lemma_draw_is_xor(s.display, sp, k);
    lemma_no_overlap(sp, k);
    lemma_collision_without_overlap(s.display, sp, k);
    assert forall|r: int, c: int| 0 <= r < n && 0 <= c < 8 implies sp.index(8 * r + c) == cell_index(
        xs,
        ys,
        r,
        c,
    ) && sp.lit(8 * r + c) == drw_draws(s, x, y, r, c) && 8 * r + c < k by {
        lemma_row_col(r, c);
        lemma_low_bit(s.memory[s.i + r] >> ((7 - c) as u8));
    }
    assert forall|r: int, c: int|
        0 <= r < n && 0 <= c < 8 implies #[trigger] d.display[cell_index(xs, ys, r, c)] == (
    s.display[cell_index(xs, ys, r, c)] != drw_draws(s, x, y, r, c)) by {
        let k0 = 8 * r + c;
        lemma_toggled_single(sp, k, k0);
        assert(0 <= cell_index(xs, ys, r, c) < 2048) by (nonlinear_arith)
            requires
                0 <= (ys + r) % 32 < 32,
                0 <= (xs + c) % 64 < 64,
                cell_index(xs, ys, r, c) == ((ys + r) % 32) * 64 + (xs + c) % 64,
        ;
    }
    assert forall|j: int|
        0 <= j < 2048 && (forall|r: int, c: int|
            0 <= r < n && 0 <= c < 8 ==> j != #[trigger] cell_index(xs, ys, r, c)) implies #[trigger] d.display[j]
        == s.display[j] by {
        if toggled(sp, k, j) {
            lemma_toggled_hits(sp, k, j);
            let k1 = choose|k1: int| 0 <= k1 < k && #[trigger] sp.lit(k1) && sp.index(k1) == j;
            let r = k1 / 8;
            let c = k1 % 8;
            assert(k1 == 8 * r + c);
            assert(r < n) by (nonlinear_arith)
                requires
                    k1 == 8 * r + c,
                    0 <= c,
                    k1 < n * 8,
            ;
            assert(j != cell_index(xs, ys, r, c));
        }
    }
    if exists|r: int, c: int|
        0 <= r < n && 0 <= c < 8 && #[trigger] drw_draws(s, x, y, r, c) && s.display[cell_index(
            xs,
            ys,
            r,
            c,
        )] {
        let (r, c) = choose|r: int, c: int|
            0 <= r < n && 0 <= c < 8 && #[trigger] drw_draws(s, x, y, r, c) && s.display[cell_index(
                xs,
                ys,
                r,
                c,
            )];
        assert(sp.lit(8 * r + c) && s.display[sp.index(8 * r + c)]);
    } else {
        if hits_lit(s.display, sp, k) {
            let k1 = choose|k1: int| 0 <= k1 < k && #[trigger] sp.lit(k1) && s.display[sp.index(k1)];
            let r = k1 / 8;
            let c = k1 % 8;
            assert(k1 == 8 * r + c);
            assert(r < n) by (nonlinear_arith)
                requires
                    k1 == 8 * r + c,
                    0 <= c,
                    k1 < n * 8,
            ;
            lemma_row_col(r, c);
            lemma_low_bit(s.memory[s.i + r] >> ((7 - c) as u8));
            assert(sp.index(k1) == cell_index(xs, ys, r, c));
            assert(drw_draws(s, x, y, r, c));
        }
    }
    assert(d.v =~= s.v.update(15, d.v[15]));
}

} // verus!
