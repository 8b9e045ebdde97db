use vstd::prelude::*;

use crate::constants::{DISPLAY_SIZE, NUM_REGISTERS, ROM_START, STACK_SIZE};
use crate::cpu::{
    can_execute, decode_full_spec, decode_spec, drw_sprite, execute_spec, memory_with_rom,
    tick_spec, vf, Chip8State,
};
use crate::instruction::Instruction;
use crate::sprite::{
    any_pixel, blank, draw_sprite_spec, hits, hits_lit, lemma_collision_without_overlap,
    lemma_draw_blank, lemma_draw_is_xor, lemma_draw_pixels_len, lemma_no_overlap,
    lemma_redraw_collision, overlaps, toggled, Sprite,
};

verus! {

/// Decoding never produces an out-of-range field: register numbers are
/// below 16, addresses fit in 12 bits and sprites have at most 15 rows; so
/// a decoded BNNN never overflows the program counter.
pub proof fn law_decode_fields_in_range(op: u16)
    ensures
        match decode_full_spec(op) {
            Instruction::Sys { addr } | Instruction::Jp { addr } | Instruction::Call { addr }
            | Instruction::LdI { addr } | Instruction::JpV0 { addr } => addr <= 0xFFF,
            Instruction::LdVxByte { x, .. } | Instruction::AddVxByte { x, .. }
            | Instruction::Se { x, .. } | Instruction::Sne { x, .. } | Instruction::Rnd { x, .. }
            | Instruction::ShrVx { x } | Instruction::ShlVx { x } | Instruction::Skp { x }
            | Instruction::Sknp { x } | Instruction::LdVxDt { x } | Instruction::LdVxK { x }
            | Instruction::LdDtVx { x } | Instruction::LdStVx { x } | Instruction::AddIVx { x }
            | Instruction::LdFVx { x } | Instruction::LdBVx { x } | Instruction::LdIVx { x }
            | Instruction::LdVxI { x } => x < NUM_REGISTERS,
            Instruction::SeVxVy { x, y } | Instruction::LdVxVy { x, y }
            | Instruction::OrVxVy { x, y } | Instruction::AndVxVy { x, y }
            | Instruction::XorVxVy { x, y } | Instruction::AddVxVy { x, y }
            | Instruction::SubVxVy { x, y } | Instruction::SubnVxVy { x, y }
            | Instruction::SneVxVy { x, y } | Instruction::ShrVxVy { x, y }
            | Instruction::ShlVxVy { x, y } => x < NUM_REGISTERS && y < NUM_REGISTERS,
            Instruction::Drw { x, y, n } => x < NUM_REGISTERS && y < NUM_REGISTERS && n <= 15,
            Instruction::Cls | Instruction::Ret => true,
            Instruction::Unknown(o) => o == op,
        },
        forall|s: Chip8State|
            #![trigger can_execute(s, decode_full_spec(op))]
            s.wf() && decode_full_spec(op) is JpV0 ==> can_execute(s, decode_full_spec(op)),
{
}

/// The two decoders agree on every opcode except the shifts, where the full
/// one also carries Y; on a machine without `shift_uses_vy` both forms of a
/// shift execute alike.
pub proof fn law_decoders_agree(op: u16, s: Chip8State, random: u8)
    requires
        s.wf(),
        !s.config.shift_uses_vy,
    ensures
        !(decode_spec(op) is ShrVx || decode_spec(op) is ShlVx) ==> decode_full_spec(op)
            == decode_spec(op),
        can_execute(s, decode_full_spec(op)) == can_execute(s, decode_spec(op)),
        execute_spec(s, decode_full_spec(op), random) == execute_spec(s, decode_spec(op), random),
{
}

/// Executing any instruction keeps every component of the machine at its
/// hardware size, keeps the stack within `STACK_SIZE` return addresses,
/// and never changes the keys or the configuration.
pub proof fn law_execute_keeps_shape(s: Chip8State, instr: Instruction, random: u8)
    requires
        s.wf(),
        s.stack.len() <= STACK_SIZE,
        can_execute(s, instr),
    ensures
        execute_spec(s, instr, random).wf(),
        execute_spec(s, instr, random).stack.len() <= STACK_SIZE,
        execute_spec(s, instr, random).keys == s.keys,
        execute_spec(s, instr, random).config == s.config,
{
    if let Instruction::Drw { x, y, n } = instr {
        lemma_draw_pixels_len(s.display, drw_sprite(s, x as int, y as int), (n * 8) as nat);
    }
}

/// RAM changes only through FX33 and FX55, and the timers only through
/// FX15 and FX18.
pub proof fn law_execute_frame(s: Chip8State, instr: Instruction, random: u8)
    ensures
        !(instr is LdBVx || instr is LdIVx) ==> execute_spec(s, instr, random).memory == s.memory,
        !(instr is LdDtVx) ==> execute_spec(s, instr, random).delay_timer == s.delay_timer,
        !(instr is LdStVx) ==> execute_spec(s, instr, random).sound_timer == s.sound_timer,
{
}

/// The machine after executing `instrs` in order, the `k`-th with random
/// byte `randoms[k]`.
pub open spec fn run_instructions(
    s: Chip8State,
    instrs: Seq<Instruction>,
    randoms: Seq<u8>,
) -> Chip8State
    decreases instrs.len(),
{
    if instrs.len() == 0 {
        s
    } else {
        execute_spec(
            run_instructions(s, instrs.drop_last(), randoms),
            instrs.last(),
            randoms[instrs.len() - 1],
        )
    }
}

/// Each instruction of `instrs` can be executed on the machine the earlier
/// ones left.
pub open spec fn runnable(s: Chip8State, instrs: Seq<Instruction>, randoms: Seq<u8>) -> bool
    decreases instrs.len(),
{
    instrs.len() == 0 || (runnable(s, instrs.drop_last(), randoms) && can_execute(
        run_instructions(s, instrs.drop_last(), randoms),
        instrs.last(),
    ))
}

/// Over any run of instructions the machine keeps its shape and a stack of
/// at most `STACK_SIZE` entries, the keys and the configuration stay as
/// they were, RAM (and with it the font) is unchanged unless the run holds
/// FX33 or FX55, and the timers are unchanged unless it holds FX15 / FX18.
pub proof fn law_run_keeps(s: Chip8State, instrs: Seq<Instruction>, randoms: Seq<u8>)
    requires
        s.wf(),
        s.stack.len() <= STACK_SIZE,
        runnable(s, instrs, randoms),
    ensures
        run_instructions(s, instrs, randoms).wf(),
        run_instructions(s, instrs, randoms).stack.len() <= STACK_SIZE,
        run_instructions(s, instrs, randoms).keys == s.keys,
        run_instructions(s, instrs, randoms).config == s.config,
        (forall|k: int| 0 <= k < instrs.len() ==> !(#[trigger] instrs[k] is LdBVx || instrs[k] is LdIVx))
            ==> run_instructions(s, instrs, randoms).memory == s.memory,
        (forall|k: int| 0 <= k < instrs.len() ==> !(#[trigger] instrs[k] is LdDtVx || instrs[k] is LdStVx))
            ==> run_instructions(s, instrs, randoms).delay_timer == s.delay_timer
            && run_instructions(s, instrs, randoms).sound_timer == s.sound_timer,
    decreases instrs.len(),
{
    if instrs.len() > 0 {
        let prefix = instrs.drop_last();
        law_run_keeps(s, prefix, randoms);
        let p = run_instructions(s, prefix, randoms);
        law_execute_keeps_shape(p, instrs.last(), randoms[instrs.len() - 1]);
        law_execute_frame(p, instrs.last(), randoms[instrs.len() - 1]);
        if forall|k: int| 0 <= k < instrs.len() ==> !(#[trigger] instrs[k] is LdBVx || instrs[k] is LdIVx) {
            assert forall|k: int| 0 <= k < prefix.len() implies !(#[trigger] prefix[k] is LdBVx || prefix[k] is LdIVx) by {
                assert(prefix[k] == instrs[k]);
            }
            assert(!(instrs[instrs.len() - 1] is LdBVx || instrs[instrs.len() - 1] is LdIVx));
        }
        if forall|k: int| 0 <= k < instrs.len() ==> !(#[trigger] instrs[k] is LdDtVx || instrs[k] is LdStVx) {
            assert forall|k: int| 0 <= k < prefix.len() implies !(#[trigger] prefix[k] is LdDtVx || prefix[k] is LdStVx) by {
                assert(prefix[k] == instrs[k]);
            }
            assert(!(instrs[instrs.len() - 1] is LdDtVx || instrs[instrs.len() - 1] is LdStVx));
        }
    }
}

/// CALL followed by RET returns to the caller: the machine is exactly as it
/// was before the call.
pub proof fn law_call_then_ret(s: Chip8State, addr: u16, r1: u8, r2: u8)
    requires
        can_execute(s, Instruction::Call { addr }),
    ensures
        can_execute(execute_spec(s, Instruction::Call { addr }, r1), Instruction::Ret),
        execute_spec(execute_spec(s, Instruction::Call { addr }, r1), Instruction::Ret, r2) == s,
{
    let s1 = execute_spec(s, Instruction::Call { addr }, r1);
    assert(s1.stack.drop_last() =~= s.stack);
}

/// Loading a program never touches the interpreter area below `ROM_START`
/// (where the font lives) nor the bytes after the program.
pub proof fn law_load_keeps_outside(memory: Seq<u8>, rom: Seq<u8>, k: int)
    requires
        0 <= k < memory.len(),
        !(ROM_START <= k < ROM_START + rom.len()),
    ensures
        memory_with_rom(memory, rom)[k] == memory[k],
{
}

/// RND stores the random byte AND the mask in Vx and changes nothing else;
/// so it never sets a bit that is clear in its mask: the result is at most
/// the mask, and a zero mask gives zero, whatever the random byte.
pub proof fn law_rnd_masked(s: Chip8State, x: usize, kk: u8, random: u8)
    requires
        s.wf(),
        x < NUM_REGISTERS,
    ensures
        execute_spec(s, Instruction::Rnd { x, kk }, random).v == s.v.update(x as int, random & kk),
        (Chip8State { v: s.v, ..execute_spec(s, Instruction::Rnd { x, kk }, random) }) == s,
        execute_spec(s, Instruction::Rnd { x, kk }, random).v[x as int] & !kk == 0,
        execute_spec(s, Instruction::Rnd { x, kk }, random).v[x as int] <= kk,
        kk == 0 ==> execute_spec(s, Instruction::Rnd { x, kk }, random).v[x as int] == 0,
{
    assert((random & kk) & !kk == 0) by (bit_vector);
    assert((random & kk) <= kk) by (bit_vector);
    assert(random & 0 == 0) by (bit_vector);
}

/// A timer that is not running stays at zero, and a running timer counts
/// down by exactly one per tick.
pub proof fn law_tick_counts_down(s: Chip8State)
    ensures
        tick_spec(s).delay_timer == (if s.delay_timer == 0 { 0 } else { s.delay_timer - 1 }),
        tick_spec(s).sound_timer == (if s.sound_timer == 0 { 0 } else { s.sound_timer - 1 }),
{
}

/// FX33 then FX65 over V0 ..= V2 reads back the three decimal digits of the
/// stored value, hundreds first.
pub proof fn law_bcd_digits(s: Chip8State, x: usize)
    requires
        s.wf(),
        can_execute(s, Instruction::LdBVx { x }),
    ensures
        ({
            let m = execute_spec(s, Instruction::LdBVx { x }, 0).memory;
            let val = s.v[x as int];
            &&& m[s.i as int] * 100 + m[s.i + 1] * 10 + m[s.i + 2] == val
            &&& m[s.i as int] < 10 && m[s.i + 1] < 10 && m[s.i + 2] < 10
            &&& m.len() == s.memory.len()
            &&& forall|a: int|
                0 <= a < m.len() && !(s.i <= a <= s.i + 2) ==> #[trigger] m[a] == s.memory[a]
            &&& (Chip8State { memory: s.memory, ..execute_spec(s, Instruction::LdBVx { x }, 0) })
                == s
        }),
{
}

/// FX55 followed by FX65 over the same registers and the same I (no I
/// advance) gives back the registers.
pub proof fn law_store_then_load(s: Chip8State, x: usize, r1: u8, r2: u8)
    requires
        s.wf(),
        !s.config.load_store_increments_i,
        can_execute(s, Instruction::LdIVx { x }),
    ensures
        can_execute(execute_spec(s, Instruction::LdIVx { x }, r1), Instruction::LdVxI { x }),
        execute_spec(execute_spec(s, Instruction::LdIVx { x }, r1), Instruction::LdVxI { x }, r2).v
            == s.v,
{
    let s1 = execute_spec(s, Instruction::LdIVx { x }, r1);
    let s2 = execute_spec(s1, Instruction::LdVxI { x }, r2);
    assert(s2.v =~= s.v);
}

/// Sprites are XORed onto the screen: drawing the same sprite at the same
/// position twice gives back the display it started from.
pub proof fn law_draw_twice_restores(display: Seq<bool>, sp: Sprite, n: nat)
    requires
        display.len() == DISPLAY_SIZE,
    ensures
        draw_sprite_spec(draw_sprite_spec(display, sp, n).0, sp, n).0 == display,
{
    let d1 = draw_sprite_spec(display, sp, n).0;
    lemma_draw_is_xor(display, sp, n * 8);
    lemma_draw_is_xor(d1, sp, n * 8);
    let d2 = draw_sprite_spec(d1, sp, n).0;
    assert forall|j: int| 0 <= j < DISPLAY_SIZE implies d2[j] == display[j] by {
        assert(d1[j] == (display[j] != toggled(sp, n * 8, j)));
    }
    assert(d2 =~= display);
}

/// Executing the same DRW twice, with neither coordinate held in VF (the
/// collision flag that the first DRW rewrites), restores the display and
/// leaves every other component but VF as it was.
pub proof fn law_execute_draw_twice(s: Chip8State, x: usize, y: usize, n: u8, r1: u8, r2: u8)
    requires
        s.wf(),
        can_execute(s, Instruction::Drw { x, y, n }),
        x != vf(),
        y != vf(),
    ensures
        can_execute(execute_spec(s, Instruction::Drw { x, y, n }, r1), Instruction::Drw { x, y, n }),
        ({
            let s2 = execute_spec(
                execute_spec(s, Instruction::Drw { x, y, n }, r1),
                Instruction::Drw { x, y, n },
                r2,
            );
            &&& s2.display == s.display
            &&& s2.v == s.v.update(vf(), s2.v[vf()])
            &&& s2.memory == s.memory
            &&& s2.pc == s.pc
            &&& s2.i == s.i
            &&& s2.stack == s.stack
            &&& s2.keys == s.keys
            &&& s2.delay_timer == s.delay_timer
            &&& s2.sound_timer == s.sound_timer
            &&& s2.config == s.config
        }),
{
    let instr = Instruction::Drw { x, y, n };
    let s1 = execute_spec(s, instr, r1);
    let s2 = execute_spec(s1, instr, r2);
    assert(drw_sprite(s1, x as int, y as int) == drw_sprite(s, x as int, y as int));
    law_draw_twice_restores(s.display, drw_sprite(s, x as int, y as int), n as nat);
    assert(s2.v =~= s.v.update(vf(), s2.v[vf()]));
}

/// Drawing onto the blank display reports a collision exactly when two
/// drawn pixels of the sprite land on the same screen position (possible
/// only for sprites of more than 32 rows, whose rows wrap onto each other).
pub proof fn law_collision_on_blank(sp: Sprite, n: nat)
    ensures
        draw_sprite_spec(blank(), sp, n).1 == overlaps(sp, n * 8),
{
    lemma_draw_blank(sp, n * 8);
}

/// For a sprite of at most 32 rows, drawing reports a collision exactly
/// when one of its drawn pixels lands on a pixel that was lit.
pub proof fn law_collision_on_lit_pixel(display: Seq<bool>, sp: Sprite, n: nat)
    requires
        display.len() == DISPLAY_SIZE,
        0 <= sp.xs < 64,
        0 <= sp.ys < 32,
        n <= 32,
    ensures
        draw_sprite_spec(display, sp, n).1 == hits_lit(display, sp, n * 8),
{
    lemma_no_overlap(sp, n * 8);
    lemma_collision_without_overlap(display, sp, n * 8);
}

/// DXYN with at most 32 rows sets VF to 1 exactly when one of its drawn
/// pixels lands on a pixel that was lit.
pub proof fn law_execute_draw_collision(s: Chip8State, x: usize, y: usize, n: u8, r: u8)
    requires
        s.wf(),
        can_execute(s, Instruction::Drw { x, y, n }),
        n <= 32,
    ensures
        execute_spec(s, Instruction::Drw { x, y, n }, r).v[vf()] == (if hits_lit(
            s.display,
            drw_sprite(s, x as int, y as int),
            (n * 8) as nat,
        ) {
            1u8
        } else {
            0u8
        }),
{
    law_collision_on_lit_pixel(s.display, drw_sprite(s, x as int, y as int), n as nat);
}

/// A sprite of at most 32 rows drawn onto the blank display reports no
/// collision and lights exactly the positions of its drawn pixels; drawing
/// it a second time reports a collision exactly when it has a drawn pixel.
pub proof fn law_draw_on_blank(sp: Sprite, n: nat)
    requires
        0 <= sp.xs < 64,
        0 <= sp.ys < 32,
        n <= 32,
    ensures
        !draw_sprite_spec(blank(), sp, n).1,
        forall|j: int|
            0 <= j < DISPLAY_SIZE ==> #[trigger] draw_sprite_spec(blank(), sp, n).0[j] == hits(
                sp,
                n * 8,
                j,
            ),
        draw_sprite_spec(draw_sprite_spec(blank(), sp, n).0, sp, n).1 == any_pixel(sp, n * 8),
{
    lemma_no_overlap(sp, n * 8);
    lemma_draw_blank(sp, n * 8);
    lemma_redraw_collision(sp, n * 8, n * 8);
}

/// DRW of a sprite of at most 32 rows on a blank screen sets VF to 0;
/// executing the same DRW again (coordinates not in VF) erases it and sets
/// VF to 1 exactly when the sprite has a drawn pixel.
pub proof fn law_execute_draw_on_blank(s: Chip8State, x: usize, y: usize, n: u8, r1: u8, r2: u8)
    requires
        s.wf(),
        s.display == blank(),
        can_execute(s, Instruction::Drw { x, y, n }),
        x != vf(),
        y != vf(),
        n <= 32,
    ensures
        execute_spec(s, Instruction::Drw { x, y, n }, r1).v[vf()] == 0,
        ({
            let s2 = execute_spec(
                execute_spec(s, Instruction::Drw { x, y, n }, r1),
                Instruction::Drw { x, y, n },
                r2,
            );
            &&& s2.display == blank()
            &&& s2.v[vf()] == (if any_pixel(drw_sprite(s, x as int, y as int), (n * 8) as nat) {
                1u8
            } else {
                0u8
            })
        }),
{
    let s1 = execute_spec(s, Instruction::Drw { x, y, n }, r1);
    assert(drw_sprite(s1, x as int, y as int) == drw_sprite(s, x as int, y as int));
    law_draw_on_blank(drw_sprite(s, x as int, y as int), n as nat);
    law_execute_draw_twice(s, x, y, n, r1, r2);
}

} // verus!
