use vstd::prelude::*;

use crate::constants::{
    COLOR_OFF, COLOR_ON, CYCLES_PER_FRAME, DISPLAY_SIZE, DISPLAY_WIDTH, FRAMEBUFFER_SIZE,
    MEMORY_SIZE, NUM_KEYS, SCALE, WINDOW_HEIGHT, WINDOW_WIDTH,
};
use crate::cpu::{
    can_execute, decode_full_spec, execute_spec, opcode_at, tick_spec, Chip8, Chip8State,
};
use crate::instruction::Instruction;
use crate::opcode_laws::law_opcode_big_endian;

verus! {

/// Why a frame stopped before running all its steps.
#[derive(Debug, PartialEq, Eq, Structural)]
pub enum Halt {
    /// The program counter reached the last byte of RAM, so no opcode can
    /// be fetched there.
    PcOutOfRam(u16),
    /// The fetched instruction cannot be executed (see `can_execute`):
    /// an unknown opcode, RET with an empty stack, CALL with a full stack,
    /// or an out-of-range register, key, address or program counter.
    Blocked(Instruction),
}

/// `s` after the fetch of a step: the program counter moved past the opcode.
pub open spec fn fetched(s: Chip8State) -> Chip8State {
    Chip8State { pc: (s.pc + 2) as u16, ..s }
}

/// The instruction at the program counter, with both registers of the
/// shifts (so that `shift_uses_vy` can take effect).
pub open spec fn next_instruction(s: Chip8State) -> Instruction {
    decode_full_spec(opcode_at(s.memory, s.pc as int))
}

/// One fetch / decode / execute step with `random` as RND's byte: the
/// machine afterwards, and the instruction that could not be executed, if
/// any (the machine then stays as the fetch left it).
pub open spec fn step_spec(s: Chip8State, random: u8) -> (Chip8State, Option<Instruction>) {
    let f = fetched(s);
    let ins = next_instruction(s);
    if can_execute(f, ins) {
        (execute_spec(f, ins, random), None)
    } else {
        (f, Some(ins))
    }
}

/// Up to `randoms.len()` steps, the `k`-th with random byte `randoms[k]`,
/// stopping at the first halt.
pub open spec fn run_steps(s: Chip8State, randoms: Seq<u8>) -> (Chip8State, Option<Halt>)
    decreases randoms.len(),
{
    if randoms.len() == 0 {
        (s, None)
    } else {
        let (p, h) = run_steps(s, randoms.drop_last());
        if h is Some {
            (p, h)
        } else if p.pc + 1 >= MEMORY_SIZE {
            (p, Some(Halt::PcOutOfRam(p.pc)))
        } else {
            let (q, b) = step_spec(p, randoms.last());
            match b {
                Some(i) => (q, Some(Halt::Blocked(i))),
                None => (q, None),
            }
        }
    }
}

/// `s` with the keypad set to `keys`.
pub open spec fn with_keys(s: Chip8State, keys: Seq<bool>) -> Chip8State {
    Chip8State { keys, ..s }
}

/// Framebuffer color of window pixel (`r`, `c`): the color of the display
/// pixel it scales up.
pub open spec fn scaled_color(display: Seq<bool>, r: int, c: int) -> u32 {
    if display[(r / SCALE as int) * DISPLAY_WIDTH + c / SCALE as int] {
        COLOR_ON
    } else {
        COLOR_OFF
    }
}

/// A window pixel takes the color of the display pixel it scales: window
/// row `r` and column `c` show display row `r / 10` and column `c / 10`,
/// white (0xFFFFFF) when that pixel is on and black (0) when it is off.
pub proof fn law_scaled_color(display: Seq<bool>, r: int, c: int)
    ensures
        scaled_color(display, r, c) == (if display[(r / 10) * 64 + c / 10] {
            0xFFFFFFu32
        } else {
            0u32
        }),
{
}

/// A step reads the opcode big-endian from the two bytes at the program
/// counter, moves the program counter past them, decodes the opcode and
/// executes it; an instruction that cannot be executed stops the step with
/// the machine as the fetch left it and reports the instruction.
pub proof fn law_step_fetch_decode_execute(s: Chip8State, random: u8)
    requires
        s.wf(),
        s.pc + 1 < 4096,
    ensures
        ({
            let op = ((s.memory[s.pc as int] as u16) << 8) | (s.memory[s.pc + 1] as u16);
            let f = Chip8State { pc: (s.pc + 2) as u16, ..s };
            let ins = decode_full_spec(op);
            &&& f.pc == s.pc + 2
            &&& can_execute(f, ins) ==> step_spec(s, random) == (
                execute_spec(f, ins, random),
                None::<Instruction>,
            )
            &&& !can_execute(f, ins) ==> step_spec(s, random) == (f, Some(ins))
        }),
{
    law_opcode_big_endian(s.memory, s.pc as int);
}

/// Once halted, further steps change nothing.
proof fn lemma_halt_persists(s: Chip8State, randoms: Seq<u8>, extra: Seq<u8>)
    requires
        run_steps(s, randoms).1 is Some,
    ensures
        run_steps(s, randoms + extra) == run_steps(s, randoms),
    decreases extra.len(),
{
    if extra.len() > 0 {
        lemma_halt_persists(s, randoms, extra.drop_last());
        assert((randoms + extra).drop_last() =~= randoms + extra.drop_last());
    } else {
        assert(randoms + extra =~= randoms);
    }
}

/// Running `a` then `b` is running `a` and, unless it halted, running `b`
/// from where it stopped: a halt ends the run for good.
pub proof fn law_run_steps_split(s: Chip8State, a: Seq<u8>, b: Seq<u8>)
    ensures
        run_steps(s, a + b) == (if run_steps(s, a).1 is Some {
            run_steps(s, a)
        } else {
            run_steps(run_steps(s, a).0, b)
        }),
    decreases b.len(),
{
    if b.len() == 0 {
        assert(a + b =~= a);
    } else {
        law_run_steps_split(s, a, b.drop_last());
        assert((a + b).drop_last() =~= a + b.drop_last());
        assert((a + b).last() == b.last());
    }
}

/// A single step halts with `PcOutOfRam` when the program counter is at the
/// last byte of RAM or beyond (no whole opcode left to fetch), halts with
/// `Blocked` when the fetched instruction cannot be executed, and otherwise
/// is the fetch / decode / execute step.
pub proof fn law_run_single_step(s: Chip8State, r: u8)
    ensures
        s.pc + 1 >= 4096 ==> run_steps(s, seq![r]) == (s, Some(Halt::PcOutOfRam(s.pc))),
        s.pc + 1 < 4096 && step_spec(s, r).1 is None ==> run_steps(s, seq![r]) == (
            step_spec(s, r).0,
            None::<Halt>,
        ),
        s.pc + 1 < 4096 && step_spec(s, r).1 is Some ==> run_steps(s, seq![r]) == (
            step_spec(s, r).0,
            Some(Halt::Blocked(step_spec(s, r).1.unwrap())),
        ),
{
    let e = Seq::<u8>::empty();
    assert(seq![r].drop_last() =~= e);
    assert(seq![r].last() == r);
    assert(run_steps(s, e) == (s, None::<Halt>));
}

/// Window pixel `r * WINDOW_WIDTH + c` lies in row `r` and column `c`.
proof fn lemma_window_row_col(r: int, c: int)
    requires
        0 <= r,
        0 <= c < 640,
    ensures
        (r * 640 + c) / 640 == r,
        (r * 640 + c) % 640 == c,
{
    assert((r * 640 + c) / 640 == r && (r * 640 + c) % 640 == c) by (nonlinear_arith)
        requires
            0 <= r,
            0 <= c < 640,
    ;
}

impl Chip8 {
    /// One fetch / decode / execute step. When the fetched instruction
    /// cannot be executed it is returned and the machine stays as the fetch
    /// left it; otherwise it is executed (RND with a random byte).
    pub fn step(&mut self) -> (halted: Option<Instruction>)
        requires
            old(self).pc + 1 < MEMORY_SIZE,
        ensures
            halted is None <==> can_execute(fetched(old(self)@), next_instruction(old(self)@)),
            exists|random: u8| (final(self)@, halted) == step_spec(old(self)@, random),
            !(next_instruction(old(self)@) is Rnd) ==> (final(self)@, halted) == step_spec(
                old(self)@,
                0,
            ),
    {
        let opcode = self.fetch();
        let instruction = self.decode_full(opcode);
        let ghost f = self@;
        let ghost ins = instruction;
        assert(f == fetched(old(self)@) && ins == next_instruction(old(self)@));
        if self.is_executable(&instruction) {
            self.execute(instruction);
            proof {
                let r = choose|r: u8| self@ == execute_spec(f, ins, r);
                assert((self@, None::<Instruction>) == step_spec(old(self)@, r));
            }
            None
        } else {
            assert((self@, Some(ins)) == step_spec(old(self)@, 0));
            Some(instruction)
        }
    }

    /// One 60 Hz frame: the keypad takes the state `keys`, then up to
    /// `CYCLES_PER_FRAME` steps run (stopping at the first halt, which is
    /// returned), then the timers tick once.
    pub fn run_frame(&mut self, keys: [bool; NUM_KEYS]) -> (halted: Option<Halt>)
        ensures
            exists|randoms: Seq<u8>|
                #![trigger run_steps(with_keys(old(self)@, keys@), randoms)]
                randoms.len() == CYCLES_PER_FRAME && final(self)@ == tick_spec(
                    run_steps(with_keys(old(self)@, keys@), randoms).0,
                ) && halted == run_steps(with_keys(old(self)@, keys@), randoms).1,
    {
        self.keys = keys;
        let ghost s0 = self@;
        assert(s0 == with_keys(old(self)@, keys@));
        let ghost mut randoms: Seq<u8> = Seq::empty();
        let mut halted: Option<Halt> = None;
        let mut n: usize = 0;
        while n < CYCLES_PER_FRAME && halted.is_none()
            invariant
                n <= CYCLES_PER_FRAME,
                randoms.len() == n,
                (self@, halted) == run_steps(s0, randoms),
            decreases CYCLES_PER_FRAME - n,
        {
            let ghost prev = self@;
            let ghost prev_randoms = randoms;
            if self.pc as usize + 1 >= MEMORY_SIZE {
                halted = Some(Halt::PcOutOfRam(self.pc));
                proof {
                    randoms = randoms.push(0u8);
                    assert(randoms.drop_last() =~= prev_randoms);
                }
            } else {
                let h = self.step();
                proof {
                    let r = choose|r: u8| (self@, h) == step_spec(prev, r);
                    randoms = randoms.push(r);
                    assert(randoms.drop_last() =~= prev_randoms);
                }
                match h {
                    Some(i) => {
                        halted = Some(Halt::Blocked(i));
                    },
                    None => {},
                }
            }
            n = n + 1;
        }
        let ghost stepped = self@;
        proof {
            if n < CYCLES_PER_FRAME {
                let extra = Seq::new((CYCLES_PER_FRAME - n) as nat, |k: int| 0u8);
                lemma_halt_persists(s0, randoms, extra);
                randoms = randoms + extra;
            }
        }
        self.tick_timers();
        assert(randoms.len() == CYCLES_PER_FRAME && self@ == tick_spec(run_steps(s0, randoms).0)
            && halted == run_steps(s0, randoms).1);
        halted
    }

    /// Scales the display up by `SCALE` in both directions into a row-major
    /// framebuffer of `WINDOW_WIDTH` x `WINDOW_HEIGHT` colors.
    pub fn render_scaled(display: &[bool; DISPLAY_SIZE]) -> (buf: Vec<u32>)
        ensures
            buf@.len() == FRAMEBUFFER_SIZE,
            forall|r: int, c: int|
                0 <= r < WINDOW_HEIGHT && 0 <= c < WINDOW_WIDTH ==> #[trigger] buf@[r
                    * WINDOW_WIDTH + c] == scaled_color(display@, r, c),
            forall|r: int, c: int|
                0 <= r < 320 && 0 <= c < 640 ==> #[trigger] buf@[r * 640 + c] == (if display@[(r
                    / 10) * 64 + c / 10] {
                    0xFFFFFFu32
                } else {
                    0u32
                }),
    {
        let mut buf: Vec<u32> = Vec::new();
        let mut r: usize = 0;
        while r < WINDOW_HEIGHT
            invariant
                r <= WINDOW_HEIGHT,
                buf@.len() == r * WINDOW_WIDTH,
                forall|k: int|
                    0 <= k < buf@.len() ==> #[trigger] buf@[k] == scaled_color(
                        display@,
                        k / 640,
                        k % 640,
                    ),
            decreases WINDOW_HEIGHT - r,
        {
            let mut c: usize = 0;
            while c < WINDOW_WIDTH
                invariant
                    r < WINDOW_HEIGHT,
                    c <= WINDOW_WIDTH,
                    buf@.len() == r * WINDOW_WIDTH + c,
                    forall|k: int|
                        0 <= k < buf@.len() ==> #[trigger] buf@[k] == scaled_color(
                            display@,
                            k / 640,
                            k % 640,
                        ),
                decreases WINDOW_WIDTH - c,
            {
                proof {
                    lemma_window_row_col(r as int, c as int);
                }
                let idx = (r / SCALE) * DISPLAY_WIDTH + c / SCALE;
                let color = if display[idx] { COLOR_ON } else { COLOR_OFF };
                buf.push(color);
                c = c + 1;
            }
            r = r + 1;
        }
        assert forall|r: int, c: int|
            0 <= r < WINDOW_HEIGHT && 0 <= c < WINDOW_WIDTH implies #[trigger] buf@[r * WINDOW_WIDTH
            + c] == scaled_color(display@, r, c) by {
            lemma_window_row_col(r, c);
            assert(r * 640 + c < 320 * 640) by (nonlinear_arith)
                requires
                    0 <= r < 320,
                    0 <= c < 640,
            ;
        }
        buf
    }
}

} // verus!
