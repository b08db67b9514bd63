//! The interpreter aggregate and its per-instruction transition relation.
//!
//! All machine state — memory, display, registers, call stack, timers,
//! keypad — lives in one [`Interpreter`] value owned by the host driver.
//! [`Interpreter::exe`] executes a single instruction; its effect is pinned
//! down by the relation [`step_rel`]. [`Interpreter::update`] runs one host
//! tick: key events are applied first, then a bounded batch of instructions,
//! then the timers decay exactly once.

use vstd::prelude::*;

use crate::decode::decode;
use crate::decode::decode_spec;
use crate::decode::Fault;
use crate::decode::Instr;
use crate::keypad::aged;
use crate::keypad::KeyState;

verus! {

/// The four historical compatibility toggles, fixed at construction.
#[derive(Clone, Copy, PartialEq, Eq, Structural, Debug)]
pub struct Quirks {
    /// The logic instructions OR, AND, XOR also clear `VF`.
    pub vf_reset: bool,
    /// Adding to the index register sets `VF` when the sum crosses `0xFFF`.
    pub amiga_behaviour: bool,
    /// Shifts read their operand from `VX` instead of `VY`.
    pub modern_shift: bool,
    /// Register dump and load leave the index register unchanged.
    pub modern_str_ld: bool,
}

/// The complete machine state.
pub struct Interpreter {
    /// 4096 bytes of addressable memory.
    pub memory: Vec<u8>,
    /// The 64-by-32 display, row-major: cell `(px, py)` is entry `py*64+px`.
    pub screen: Vec<bool>,
    /// The program counter.
    pub program_counter: u16,
    /// The index register `I`.
    pub index: u16,
    /// Return addresses, at most sixteen deep.
    pub stack: Vec<u16>,
    /// The delay timer, decremented once per tick, saturating at zero.
    pub delay_timer: u8,
    /// The sound timer, decremented once per tick, saturating at zero.
    pub sound_timer: u8,
    /// The sixteen general-purpose registers `V0`..`VF`.
    pub registers: Vec<u8>,
    /// Debounce state of the sixteen logical keys.
    pub keys: Vec<KeyState>,
    /// The most recent press event, with its age in ticks, for the blocking
    /// key-wait instruction.
    pub pending_key: Option<(u8, u8)>,
    /// The compatibility toggles this interpreter was built with.
    pub quirks: Quirks,
}

impl Interpreter {
    /// Structural invariant: every component has its fixed size and every
    /// counter is within its clamp.
    pub open spec fn wf(self) -> bool {
        &&& self.memory@.len() == 4096
        &&& self.screen@.len() == 2048
        &&& self.registers@.len() == 16
        &&& self.keys@.len() == 16
        &&& self.stack@.len() <= 16
        &&& (forall|i: int| 0 <= i < 16 ==> (#[trigger] self.keys@[i]).wf())
        &&& (match self.pending_key {
            Some((k, a)) => k < 16 && a <= 60,
            None => true,
        })
    }
}

/// The 16-bit big-endian word at `pc`.
pub open spec fn opcode_at(mem: Seq<u8>, pc: int) -> u16 {
    (mem[pc] as u16) << 8 | (mem[pc + 1] as u16)
}

/// Addition on bytes, wrapping.
pub open spec fn wrap_add8(a: u8, b: u8) -> u8 {
    ((a + b) % 256) as u8
}

/// Subtraction on bytes, wrapping.
pub open spec fn wrap_sub8(a: u8, b: u8) -> u8 {
    ((a + 256 - b) % 256) as u8
}

/// Addition on 16-bit words, wrapping.
pub open spec fn wrap_add16(a: u16, b: u16) -> u16 {
    ((a + b) % 0x10000) as u16
}

/// A timer decremented by one step, saturating at zero.
pub open spec fn sat_dec(t: u8) -> u8 {
    if t == 0 {
        0
    } else {
        (t - 1) as u8
    }
}

/// The keypad, the pending press record and the quirks are untouched.
pub open spec fn frame_eq(pre: Interpreter, post: Interpreter) -> bool {
    &&& post.keys@ == pre.keys@
    &&& post.pending_key == pre.pending_key
    &&& post.quirks == pre.quirks
}

/// Both timers are untouched.
pub open spec fn timers_eq(pre: Interpreter, post: Interpreter) -> bool {
    post.delay_timer == pre.delay_timer && post.sound_timer == pre.sound_timer
}

/// Everything but the program counter is untouched.
pub open spec fn core_unchanged(pre: Interpreter, post: Interpreter) -> bool {
    &&& post.memory@ == pre.memory@
    &&& post.screen@ == pre.screen@
    &&& post.index == pre.index
    &&& post.stack@ == pre.stack@
    &&& post.registers@ == pre.registers@
    &&& timers_eq(pre, post)
    &&& frame_eq(pre, post)
}

/// The common shape of a register-only instruction: the program counter
/// advances by two, the registers become `regs2`, everything else is
/// untouched.
pub open spec fn alu_rel(pre: Interpreter, post: Interpreter, regs2: Seq<u8>) -> bool {
    &&& post.memory@ == pre.memory@
    &&& post.screen@ == pre.screen@
    &&& post.index == pre.index
    &&& post.stack@ == pre.stack@
    &&& timers_eq(pre, post)
    &&& frame_eq(pre, post)
    &&& post.registers@ == regs2
    &&& post.program_counter == pre.program_counter + 2
}

/// The register file after a logic instruction: `VX` gets `v`, and under the
/// `vf_reset` quirk `VF` is cleared as well.
pub open spec fn logic_result(regs: Seq<u8>, x: int, v: u8, vf_reset: bool) -> Seq<u8> {
    let r1 = regs.update(x, v);
    if vf_reset {
        r1.update(15, 0u8)
    } else {
        r1
    }
}

/// The flat display position of cell `(px, py)`.
pub open spec fn pix(px: int, py: int) -> int {
    py * 64 + px
}

/// Whether a sprite drawn at `(ox, oy)` with `rows` unclipped rows covers the
/// display cell `(px, py)`. Rows below the bottom edge are already excluded
/// by `rows`; columns past the right edge are excluded here.
pub open spec fn sprite_covers(ox: int, oy: int, rows: int, px: int, py: int) -> bool {
    oy <= py < oy + rows && ox <= px < ox + 8 && px < 64
}

/// Whether the sprite bit that lands on covered cell `(px, py)` is set.
pub open spec fn sprite_px_on(mem: Seq<u8>, index: int, ox: int, oy: int, px: int, py: int) -> bool {
    (mem[index + (py - oy)] >> ((7 - (px - ox)) as u8)) % 2 == 1
}

/// Whether a draw at `(ox, oy)` with `rows` rows turns some lit cell off:
/// a set sprite bit lands on a cell that is already on.
pub open spec fn draw_collides(
    screen: Seq<bool>,
    mem: Seq<u8>,
    index: int,
    ox: int,
    oy: int,
    rows: int,
) -> bool {
    exists|px: int, py: int|
        sprite_covers(ox, oy, rows, px, py) && #[trigger] sprite_px_on(mem, index, ox, oy, px, py)
            && screen[pix(px, py)]
}

/// The effect of the draw instruction, program counter aside: every covered
/// cell is XORed with its sprite bit, `VF` reports whether any lit cell went
/// dark, and a sprite that would read memory past `0xFFF` faults instead.
pub open spec fn draw_rel(
    pre: Interpreter,
    post: Interpreter,
    x: u8,
    y: u8,
    n: u8,
    r: Result<(), Fault>,
) -> bool {
    let regs1 = pre.registers@.update(15, 0u8);
    let ox = regs1[x as int] as int % 64;
    let oy = regs1[y as int] as int % 32;
    let rows = if oy + n > 32 {
        32 - oy
    } else {
        n as int
    };
    if rows > 0 && pre.index + rows > 4096 {
        r == Err::<(), Fault>(Fault::AddressOutOfRange) && core_unchanged(pre, post)
    } else {
        &&& r == Ok::<(), Fault>(())
        &&& post.screen@.len() == 2048
        &&& (forall|px: int, py: int|
            #![trigger pix(px, py)]
            0 <= px < 64 && 0 <= py < 32 ==> post.screen@[pix(px, py)] == (if sprite_covers(
                ox,
                oy,
                rows,
                px,
                py,
            ) {
                pre.screen@[pix(px, py)] != sprite_px_on(
                    pre.memory@,
                    pre.index as int,
                    ox,
                    oy,
                    px,
                    py,
                )
            } else {
                pre.screen@[pix(px, py)]
            }))
        &&& post.registers@ == regs1.update(
            15,
            if draw_collides(pre.screen@, pre.memory@, pre.index as int, ox, oy, rows) {
                1u8
            } else {
                0u8
            },
        )
        &&& post.memory@ == pre.memory@
        &&& post.index == pre.index
        &&& post.stack@ == pre.stack@
        &&& timers_eq(pre, post)
        &&& frame_eq(pre, post)
    }
}

/// The effect of the register-dump instruction, program counter aside:
/// `V0..=VX` are copied to memory at `I`, and without the `modern_str_ld`
/// quirk `I` ends one past the last byte written.
pub open spec fn store_regs_rel(
    pre: Interpreter,
    post: Interpreter,
    x: u8,
    r: Result<(), Fault>,
) -> bool {
    if pre.index + x >= 4096 {
        r == Err::<(), Fault>(Fault::AddressOutOfRange) && core_unchanged(pre, post)
    } else {
        &&& r == Ok::<(), Fault>(())
        &&& post.memory@.len() == 4096
        &&& (forall|j: int|
            0 <= j < 4096 ==> post.memory@[j] == (if pre.index <= j <= pre.index + x {
                pre.registers@[j - pre.index]
            } else {
                pre.memory@[j]
            }))
        &&& post.index == (if pre.quirks.modern_str_ld {
            pre.index
        } else {
            (pre.index + x + 1) as u16
        })
        &&& post.screen@ == pre.screen@
        &&& post.stack@ == pre.stack@
        &&& post.registers@ == pre.registers@
        &&& timers_eq(pre, post)
        &&& frame_eq(pre, post)
    }
}

/// The effect of the register-load instruction, program counter aside:
/// `V0..=VX` are filled from memory at `I`, and without the `modern_str_ld`
/// quirk `I` ends one past the last byte read.
pub open spec fn load_regs_rel(
    pre: Interpreter,
    post: Interpreter,
    x: u8,
    r: Result<(), Fault>,
) -> bool {
    if pre.index + x >= 4096 {
        r == Err::<(), Fault>(Fault::AddressOutOfRange) && core_unchanged(pre, post)
    } else {
        &&& r == Ok::<(), Fault>(())
        &&& post.registers@.len() == 16
        &&& (forall|j: int|
            0 <= j < 16 ==> post.registers@[j] == (if j <= x {
                pre.memory@[pre.index + j]
            } else {
                pre.registers@[j]
            }))
        &&& post.index == (if pre.quirks.modern_str_ld {
            pre.index
        } else {
            (pre.index + x + 1) as u16
        })
        &&& post.memory@ == pre.memory@
        &&& post.screen@ == pre.screen@
        &&& post.stack@ == pre.stack@
        &&& timers_eq(pre, post)
        &&& frame_eq(pre, post)
    }
}

/// The effect of one decoded instruction on the machine state. `pre` is the
/// state at the start of the step, before the fetch advanced the program
/// counter, so "fall through" means `pre.program_counter + 2`. `rnd` is the
/// byte the random instruction drew. A fault leaves everything but the
/// already-advanced program counter untouched.
pub open spec fn exec_rel(
    pre: Interpreter,
    post: Interpreter,
    instr: Instr,
    rnd: u8,
    r: Result<(), Fault>,
) -> bool {
    let regs = pre.registers@;
    let pc2 = pre.program_counter + 2;
    match instr {
        Instr::ClearScreen => {
            &&& r == Ok::<(), Fault>(())
            &&& post.screen@.len() == 2048
            &&& (forall|i: int| 0 <= i < 2048 ==> !(#[trigger] post.screen@[i]))
            &&& post.memory@ == pre.memory@
            &&& post.index == pre.index
            &&& post.stack@ == pre.stack@
            &&& post.registers@ == regs
            &&& timers_eq(pre, post)
            &&& frame_eq(pre, post)
            &&& post.program_counter == pc2
        },
        Instr::Return => {
            if pre.stack@.len() == 0 {
                r == Err::<(), Fault>(Fault::StackUnderflow) && core_unchanged(pre, post)
                    && post.program_counter == pc2
            } else {
                &&& r == Ok::<(), Fault>(())
                &&& post.program_counter == pre.stack@.last()
                &&& post.stack@ == pre.stack@.drop_last()
                &&& post.memory@ == pre.memory@
                &&& post.screen@ == pre.screen@
                &&& post.index == pre.index
                &&& post.registers@ == regs
                &&& timers_eq(pre, post)
                &&& frame_eq(pre, post)
            }
        },
        Instr::Jump(nnn) => {
            r == Ok::<(), Fault>(()) && core_unchanged(pre, post) && post.program_counter == nnn
        },
        Instr::Call(nnn) => {
            if pre.stack@.len() >= 16 {
                r == Err::<(), Fault>(Fault::StackOverflow) && core_unchanged(pre, post)
                    && post.program_counter == pc2
            } else {
                &&& r == Ok::<(), Fault>(())
                &&& post.stack@ == pre.stack@.push(pc2 as u16)
                &&& post.program_counter == nnn
                &&& post.memory@ == pre.memory@
                &&& post.screen@ == pre.screen@
                &&& post.index == pre.index
                &&& post.registers@ == regs
                &&& timers_eq(pre, post)
                &&& frame_eq(pre, post)
            }
        },
        Instr::SkipEqImm(x, nn) => {
            r == Ok::<(), Fault>(()) && core_unchanged(pre, post) && post.program_counter == pc2 + (
            if regs[x as int] == nn {
                2int
            } else {
                0int
            })
        },
        Instr::SkipNeImm(x, nn) => {
            r == Ok::<(), Fault>(()) && core_unchanged(pre, post) && post.program_counter == pc2 + (
            if regs[x as int] != nn {
                2int
            } else {
                0int
            })
        },
        Instr::SkipEqReg(x, y) => {
            r == Ok::<(), Fault>(()) && core_unchanged(pre, post) && post.program_counter == pc2 + (
            if regs[x as int] == regs[y as int] {
                2int
            } else {
                0int
            })
        },
        Instr::LoadImm(x, nn) => {
            r == Ok::<(), Fault>(()) && alu_rel(pre, post, regs.update(x as int, nn))
        },
        Instr::AddImm(x, nn) => {
            r == Ok::<(), Fault>(()) && alu_rel(
                pre,
                post,
                regs.update(x as int, wrap_add8(regs[x as int], nn)),
            )
        },
        Instr::Move(x, y) => {
            r == Ok::<(), Fault>(()) && alu_rel(pre, post, regs.update(x as int, regs[y as int]))
        },
        Instr::Or(x, y) => {
            r == Ok::<(), Fault>(()) && alu_rel(
                pre,
                post,
                logic_result(
                    regs,
                    x as int,
                    regs[x as int] | regs[y as int],
                    pre.quirks.vf_reset,
                ),
            )
        },
        Instr::And(x, y) => {
            r == Ok::<(), Fault>(()) && alu_rel(
                pre,
                post,
                logic_result(
                    regs,
                    x as int,
                    regs[x as int] & regs[y as int],
                    pre.quirks.vf_reset,
                ),
            )
        },
        Instr::Xor(x, y) => {
            r == Ok::<(), Fault>(()) && alu_rel(
                pre,
                post,
                logic_result(
                    regs,
                    x as int,
                    regs[x as int] ^ regs[y as int],
                    pre.quirks.vf_reset,
                ),
            )
        },
        Instr::AddReg(x, y) => {
            r == Ok::<(), Fault>(()) && alu_rel(
                pre,
                post,
                regs.update(x as int, wrap_add8(regs[x as int], regs[y as int])).update(
                    15,
                    if regs[x as int] + regs[y as int] > 255 {
                        1u8
                    } else {
                        0u8
                    },
                ),
            )
        },
        Instr::SubXY(x, y) => {
            r == Ok::<(), Fault>(()) && alu_rel(
                pre,
                post,
                regs.update(x as int, wrap_sub8(regs[x as int], regs[y as int])).update(
                    15,
                    if regs[x as int] >= regs[y as int] {
                        1u8
                    } else {
                        0u8
                    },
                ),
            )
        },
        Instr::ShiftRight(x, y) => {
            let src = if pre.quirks.modern_shift {
                regs[x as int]
            } else {
                regs[y as int]
            };
            r == Ok::<(), Fault>(()) && alu_rel(
                pre,
                post,
                regs.update(x as int, src / 2).update(15, src % 2),
            )
        },
        Instr::SubYX(x, y) => {
            r == Ok::<(), Fault>(()) && alu_rel(
                pre,
                post,
                regs.update(x as int, wrap_sub8(regs[y as int], regs[x as int])).update(
                    15,
                    if regs[y as int] >= regs[x as int] {
                        1u8
                    } else {
                        0u8
                    },
                ),
            )
        },
        Instr::ShiftLeft(x, y) => {
            let src = if pre.quirks.modern_shift {
                regs[x as int]
            } else {
                regs[y as int]
            };
            r == Ok::<(), Fault>(()) && alu_rel(
                pre,
                post,
                regs.update(x as int, ((src * 2) % 256) as u8).update(15, src / 128),
            )
        },
        Instr::SkipNeReg(x, y) => {
            r == Ok::<(), Fault>(()) && core_unchanged(pre, post) && post.program_counter == pc2 + (
            if regs[x as int] != regs[y as int] {
                2int
            } else {
                0int
            })
        },
        Instr::SetIndex(nnn) => {
            &&& r == Ok::<(), Fault>(())
            &&& post.index == nnn
            &&& post.memory@ == pre.memory@
            &&& post.screen@ == pre.screen@
            &&& post.stack@ == pre.stack@
            &&& post.registers@ == regs
            &&& timers_eq(pre, post)
            &&& frame_eq(pre, post)
            &&& post.program_counter == pc2
        },
        Instr::JumpV0(nnn) => {
            r == Ok::<(), Fault>(()) && core_unchanged(pre, post) && post.program_counter == nnn
                + regs[0]
        },
        Instr::Random(x, nn) => {
            r == Ok::<(), Fault>(()) && alu_rel(pre, post, regs.update(x as int, rnd & nn))
        },
        Instr::Draw(x, y, n) => {
            draw_rel(pre, post, x, y, n, r) && post.program_counter == pc2
        },
        Instr::SkipKeyPressed(x) => {
            let key = (regs[x as int] & 0xF) as int;
            r == Ok::<(), Fault>(()) && core_unchanged(pre, post) && post.program_counter == pc2 + (
            if pre.keys@[key].pressed_frames_ago <= 3 {
                2int
            } else {
                0int
            })
        },
        Instr::SkipKeyNotPressed(x) => {
            let key = (regs[x as int] & 0xF) as int;
            r == Ok::<(), Fault>(()) && core_unchanged(pre, post) && post.program_counter == pc2 + (
            if pre.keys@[key].pressed_frames_ago <= 3 {
                0int
            } else {
                2int
            })
        },
        Instr::ReadDelay(x) => {
            r == Ok::<(), Fault>(()) && alu_rel(pre, post, regs.update(x as int, pre.delay_timer))
        },
        Instr::WaitKey(x) => {
            match pre.pending_key {
                Some((k, a)) => {
                    if a == 0 {
                        r == Ok::<(), Fault>(()) && alu_rel(pre, post, regs.update(x as int, k))
                    } else {
                        r == Ok::<(), Fault>(()) && core_unchanged(pre, post)
                            && post.program_counter == pre.program_counter
                    }
                },
                None => {
                    r == Ok::<(), Fault>(()) && core_unchanged(pre, post) && post.program_counter
                        == pre.program_counter
                },
            }
        },
        Instr::SetDelay(x) => {
            &&& r == Ok::<(), Fault>(())
            &&& post.delay_timer == regs[x as int]
            &&& post.sound_timer == pre.sound_timer
            &&& post.memory@ == pre.memory@
            &&& post.screen@ == pre.screen@
            &&& post.index == pre.index
            &&& post.stack@ == pre.stack@
            &&& post.registers@ == regs
            &&& frame_eq(pre, post)
            &&& post.program_counter == pc2
        },
        Instr::SetSound(x) => {
            &&& r == Ok::<(), Fault>(())
            &&& post.sound_timer == regs[x as int]
            &&& post.delay_timer == pre.delay_timer
            &&& post.memory@ == pre.memory@
            &&& post.screen@ == pre.screen@
            &&& post.index == pre.index
            &&& post.stack@ == pre.stack@
            &&& post.registers@ == regs
            &&& frame_eq(pre, post)
            &&& post.program_counter == pc2
        },
        Instr::AddIndex(x) => {
            let ni = wrap_add16(pre.index, regs[x as int] as u16);
            &&& r == Ok::<(), Fault>(())
            &&& post.index == ni
            &&& post.registers@ == (if pre.quirks.amiga_behaviour {
                regs.update(
                    15,
                    if pre.index <= 0xFFF && ni > 0xFFF {
                        1u8
                    } else {
                        0u8
                    },
                )
            } else {
                regs
            })
            &&& post.memory@ == pre.memory@
            &&& post.screen@ == pre.screen@
            &&& post.stack@ == pre.stack@
            &&& timers_eq(pre, post)
            &&& frame_eq(pre, post)
            &&& post.program_counter == pc2
        },
        Instr::SpriteChar(x) => {
            &&& r == Ok::<(), Fault>(())
            &&& post.index == regs[x as int] * 5
            &&& post.memory@ == pre.memory@
            &&& post.screen@ == pre.screen@
            &&& post.stack@ == pre.stack@
            &&& post.registers@ == regs
            &&& timers_eq(pre, post)
            &&& frame_eq(pre, post)
            &&& post.program_counter == pc2
        },
        Instr::StoreBcd(x) => {
            if pre.index + 2 >= 4096 {
                r == Err::<(), Fault>(Fault::AddressOutOfRange) && core_unchanged(pre, post)
                    && post.program_counter == pc2
            } else {
                let vx = regs[x as int];
                &&& r == Ok::<(), Fault>(())
                &&& post.memory@ == pre.memory@.update(pre.index as int, vx / 100).update(
                    pre.index + 1,
                    (vx / 10) % 10,
                ).update(pre.index + 2, vx % 10)
                &&& post.screen@ == pre.screen@
                &&& post.index == pre.index
                &&& post.stack@ == pre.stack@
                &&& post.registers@ == regs
                &&& timers_eq(pre, post)
                &&& frame_eq(pre, post)
                &&& post.program_counter == pc2
            }
        },
        Instr::StoreRegs(x) => {
            store_regs_rel(pre, post, x, r) && post.program_counter == pc2
        },
        Instr::LoadRegs(x) => {
            load_regs_rel(pre, post, x, r) && post.program_counter == pc2
        },
    }
}

/// The effect of one whole step: fetch, decode, execute. A program counter
/// that cannot address a full word faults with the state untouched; an
/// unrecognized word faults with only the fetch's advance applied; otherwise
/// the decoded instruction's relation holds.
pub open spec fn step_rel(
    pre: Interpreter,
    post: Interpreter,
    rnd: u8,
    r: Result<(), Fault>,
) -> bool {
    if pre.program_counter > 0xFFE {
        r == Err::<(), Fault>(Fault::AddressOutOfRange) && post == pre
    } else {
        let op = opcode_at(pre.memory@, pre.program_counter as int);
        match decode_spec(op) {
            None => {
                r == Err::<(), Fault>(Fault::UnknownOpcode) && core_unchanged(pre, post)
                    && post.program_counter == pre.program_counter + 2
            },
            Some(instr) => exec_rel(pre, post, instr, rnd, r),
        }
    }
}

/// Within one step the keypad, the pending press record and the quirks never
/// change: every case of [`step_rel`] leaves them untouched.
pub proof fn lemma_step_frame(pre: Interpreter, post: Interpreter, rnd: u8, r: Result<(), Fault>)
    requires
        step_rel(pre, post, rnd, r),
    ensures
        frame_eq(pre, post),
{
}

/// One key debounce state aged by one tick.
pub open spec fn aged_keys(keys: Seq<KeyState>) -> Seq<KeyState> {
    keys.map_values(|k: KeyState| k.aged_key())
}

/// The keypad after a batch of `(key, pressed)` events is applied in order:
/// a press restarts the key's press counter, a release its release counter.
pub open spec fn apply_events(keys: Seq<KeyState>, evs: Seq<(u8, bool)>) -> Seq<KeyState>
    decreases evs.len(),
{
    if evs.len() == 0 {
        keys
    } else {
        let prev = apply_events(keys, evs.drop_last());
        let k = evs.last().0 as int;
        if evs.last().1 {
            prev.update(k, KeyState { pressed_frames_ago: 0, ..prev[k] })
        } else {
            prev.update(k, KeyState { released_frames_ago: 0, ..prev[k] })
        }
    }
}

/// The key of the last press event in a batch, if any.
pub open spec fn last_press(evs: Seq<(u8, bool)>) -> Option<u8>
    decreases evs.len(),
{
    if evs.len() == 0 {
        None
    } else if evs.last().1 {
        Some(evs.last().0)
    } else {
        last_press(evs.drop_last())
    }
}

/// The pending press record aged by one tick.
pub open spec fn aged_pending(p: Option<(u8, u8)>) -> Option<(u8, u8)> {
    match p {
        Some((k, a)) => Some((k, aged(a))),
        None => None,
    }
}

/// The input phase of one tick: every key's counters age once, then the
/// tick's events are applied in order, and the last press, if any, becomes
/// the fresh pending record. Nothing else changes.
pub open spec fn key_phase_rel(pre: Interpreter, post: Interpreter, evs: Seq<(u8, bool)>) -> bool {
    &&& post.keys@ == apply_events(aged_keys(pre.keys@), evs)
    &&& post.pending_key == (match last_press(evs) {
        Some(k) => Some((k, 0u8)),
        None => pre.pending_key,
    })
    &&& post.memory@ == pre.memory@
    &&& post.screen@ == pre.screen@
    &&& post.program_counter == pre.program_counter
    &&& post.index == pre.index
    &&& post.stack@ == pre.stack@
    &&& timers_eq(pre, post)
    &&& post.registers@ == pre.registers@
    &&& post.quirks == pre.quirks
}

/// The closing phase of one tick: both timers decay exactly once, saturating
/// at zero, and the pending press record ages once. Nothing else changes.
pub open spec fn tick_end_rel(pre: Interpreter, post: Interpreter) -> bool {
    &&& post.delay_timer == sat_dec(pre.delay_timer)
    &&& post.sound_timer == sat_dec(pre.sound_timer)
    &&& post.pending_key == aged_pending(pre.pending_key)
    &&& post.memory@ == pre.memory@
    &&& post.screen@ == pre.screen@
    &&& post.program_counter == pre.program_counter
    &&& post.index == pre.index
    &&& post.stack@ == pre.stack@
    &&& post.registers@ == pre.registers@
    &&& post.keys@ == pre.keys@
    &&& post.quirks == pre.quirks
}

/// A chain of exactly `n` instruction steps, each satisfying [`step_rel`]
/// for some random byte. A fault stops the chain where it happened and is
/// the chain's result.
pub open spec fn runs(pre: Interpreter, post: Interpreter, n: nat, r: Result<(), Fault>) -> bool
    decreases n,
{
    if n == 0 {
        r == Ok::<(), Fault>(()) && post == pre
    } else {
        exists|mid: Interpreter, b: u8, sr: Result<(), Fault>|
            #[trigger] step_rel(pre, mid, b, sr) && mid.wf() && (match sr {
                Ok(()) => runs(mid, post, (n - 1) as nat, r),
                Err(f) => r == Err::<(), Fault>(f) && post == mid,
            })
    }
}

/// A successful chain extended by one more successful step is a successful
/// chain one step longer.
pub proof fn lemma_runs_snoc_ok(
    pre: Interpreter,
    mid: Interpreter,
    post: Interpreter,
    n: nat,
    b: u8,
)
    requires
        runs(pre, mid, n, Ok(())),
        step_rel(mid, post, b, Ok(())),
        post.wf(),
    ensures
        runs(pre, post, n + 1, Ok(())),
    decreases n,
{
    if n == 0 {
        assert(step_rel(pre, post, b, Ok::<(), Fault>(())));
        assert(runs(post, post, 0, Ok::<(), Fault>(())));
    } else {
        let (m1, b1, sr1) = choose|m1: Interpreter, b1: u8, sr1: Result<(), Fault>|
            #[trigger] step_rel(pre, m1, b1, sr1) && m1.wf() && (match sr1 {
                Ok(()) => runs(m1, mid, (n - 1) as nat, Ok::<(), Fault>(())),
                Err(f) => Ok::<(), Fault>(()) == Err::<(), Fault>(f) && mid == m1,
            });
        lemma_runs_snoc_ok(m1, mid, post, (n - 1) as nat, b);
    }
}

/// A successful chain that then faults is, for any larger step budget, a
/// chain that ends in that fault.
pub proof fn lemma_runs_snoc_err(
    pre: Interpreter,
    mid: Interpreter,
    post: Interpreter,
    n: nat,
    total: nat,
    b: u8,
    f: Fault,
)
    requires
        runs(pre, mid, n, Ok(())),
        step_rel(mid, post, b, Err(f)),
        post.wf(),
        n < total,
    ensures
        runs(pre, post, total, Err(f)),
    decreases n,
{
    if n == 0 {
        assert(step_rel(pre, post, b, Err::<(), Fault>(f)));
    } else {
        let (m1, b1, sr1) = choose|m1: Interpreter, b1: u8, sr1: Result<(), Fault>|
            #[trigger] step_rel(pre, m1, b1, sr1) && m1.wf() && (match sr1 {
                Ok(()) => runs(m1, mid, (n - 1) as nat, Ok::<(), Fault>(())),
                Err(ff) => Ok::<(), Fault>(()) == Err::<(), Fault>(ff) && mid == m1,
            });
        lemma_runs_snoc_err(m1, mid, post, (n - 1) as nat, (total - 1) as nat, b, f);
    }
}

/// The whole effect of one host tick: some state `s1` follows from the input
/// phase, a chain of `n` instruction steps leads from `s1` to some `s2`, and
/// the closing phase turns `s2` into the final state — unless the chain
/// faulted, in which case the machine stops as `s2`, timers not decayed.
pub open spec fn tick_rel(
    pre: Interpreter,
    post: Interpreter,
    evs: Seq<(u8, bool)>,
    n: nat,
    r: Result<(), Fault>,
) -> bool {
    exists|s1: Interpreter, s2: Interpreter|
        #[trigger] key_phase_rel(pre, s1, evs) && #[trigger] runs(s1, s2, n, r) && (match r {
            Ok(()) => tick_end_rel(s2, post),
            Err(_) => post == s2,
        })
}

/// One byte of the RGBA rendering of the display: every fourth byte is the
/// opaque alpha, the rest are black for a lit cell and white for an unlit
/// one.
pub open spec fn rgba_byte(screen: Seq<bool>, j: int) -> u8 {
    if j % 4 == 3 {
        0xFF
    } else if screen[j / 4] {
        0x00
    } else {
        0xFF
    }
}

/// Relies on rand::random: a byte drawn from the thread-local generator.
/// Nothing can be promised of its value.
#[verifier::external_body]
fn random_byte() -> u8 {
    rand::random::<u8>()
}

/// A vector of `n` copies of `v`.
fn filled<T: Copy>(n: usize, v: T) -> (r: Vec<T>)
    ensures
        r@.len() == n,
        forall|i: int| 0 <= i < n ==> r@[i] == v,
{
    let mut r: Vec<T> = Vec::new();
    while r.len() < n
        invariant
            r@.len() <= n,
            forall|i: int| 0 <= i < r@.len() ==> r@[i] == v,
        decreases n - r@.len(),
    {
        r.push(v);
    }
    r
}

/// The 80-byte font table: sixteen five-byte glyphs for the digits `0`..`F`,
/// loaded at address zero.
pub open spec fn font_table() -> Seq<u8> {
    seq![
        0xF0u8, 0x90, 0x90, 0x90, 0xF0,
        0x20, 0x60, 0x20, 0x20, 0x70,
        0xF0, 0x10, 0xF0, 0x80, 0xF0,
        0xF0, 0x10, 0xF0, 0x10, 0xF0,
        0x90, 0x90, 0xF0, 0x10, 0x10,
        0xF0, 0x80, 0xF0, 0x10, 0xF0,
        0xF0, 0x80, 0xF0, 0x90, 0xF0,
        0xF0, 0x10, 0x20, 0x40, 0x40,
        0xF0, 0x90, 0xF0, 0x90, 0xF0,
        0xF0, 0x90, 0xF0, 0x10, 0xF0,
        0xF0, 0x90, 0xF0, 0x90, 0x90,
        0xE0, 0x90, 0xE0, 0x90, 0xE0,
        0xF0, 0x80, 0x80, 0x80, 0xF0,
        0xE0, 0x90, 0x90, 0x90, 0xE0,
        0xF0, 0x80, 0xF0, 0x80, 0xF0,
        0xF0, 0x80, 0xF0, 0x80, 0x80,
    ]
}

/// The font table as a vector.
fn font_data() -> (r: Vec<u8>)
    ensures
        r@ == font_table(),
{
    let mut r: Vec<u8> = Vec::new();
    r.push(0xF0); r.push(0x90); r.push(0x90); r.push(0x90); r.push(0xF0);
    r.push(0x20); r.push(0x60); r.push(0x20); r.push(0x20); r.push(0x70);
    r.push(0xF0); r.push(0x10); r.push(0xF0); r.push(0x80); r.push(0xF0);
    r.push(0xF0); r.push(0x10); r.push(0xF0); r.push(0x10); r.push(0xF0);
    r.push(0x90); r.push(0x90); r.push(0xF0); r.push(0x10); r.push(0x10);
    r.push(0xF0); r.push(0x80); r.push(0xF0); r.push(0x10); r.push(0xF0);
    r.push(0xF0); r.push(0x80); r.push(0xF0); r.push(0x90); r.push(0xF0);
    r.push(0xF0); r.push(0x10); r.push(0x20); r.push(0x40); r.push(0x40);
    r.push(0xF0); r.push(0x90); r.push(0xF0); r.push(0x90); r.push(0xF0);
    r.push(0xF0); r.push(0x90); r.push(0xF0); r.push(0x10); r.push(0xF0);
    r.push(0xF0); r.push(0x90); r.push(0xF0); r.push(0x90); r.push(0x90);
    r.push(0xE0); r.push(0x90); r.push(0xE0); r.push(0x90); r.push(0xE0);
    r.push(0xF0); r.push(0x80); r.push(0x80); r.push(0x80); r.push(0xF0);
    r.push(0xE0); r.push(0x90); r.push(0x90); r.push(0x90); r.push(0xE0);
    r.push(0xF0); r.push(0x80); r.push(0xF0); r.push(0x80); r.push(0xF0);
    r.push(0xF0); r.push(0x80); r.push(0xF0); r.push(0x80); r.push(0x80);
    proof {
        assert(r@ =~= font_table());
    }
    r
}

impl Interpreter {
    /// A freshly powered machine: memory and display cleared, the program
    /// counter at the program origin `0x200`, no call frames, timers at zero,
    /// and every key long past its debounce window.
    pub fn new(quirks: Quirks) -> (r: Interpreter)
        ensures
            r.wf(),
            r.program_counter == 0x200,
            r.index == 0,
            r.stack@.len() == 0,
            r.delay_timer == 0,
            r.sound_timer == 0,
            forall|i: int| 0 <= i < 4096 ==> r.memory@[i] == 0,
            forall|i: int| 0 <= i < 2048 ==> !(#[trigger] r.screen@[i]),
            forall|i: int| 0 <= i < 16 ==> r.registers@[i] == 0,
            forall|i: int|
                0 <= i < 16 ==> #[trigger] r.keys@[i] == (KeyState {
                    pressed_frames_ago: 60,
                    released_frames_ago: 60,
                }),
            r.pending_key is None,
            r.quirks == quirks,
    {
        Interpreter {
            memory: filled(4096, 0u8),
            screen: filled(2048, false),
            program_counter: 0x200,
            index: 0,
            stack: Vec::new(),
            delay_timer: 0,
            sound_timer: 0,
            registers: filled(16, 0u8),
            keys: filled(16, KeyState { pressed_frames_ago: 60, released_frames_ago: 60 }),
            pending_key: None,
            quirks,
        }
    }

    /// Load the font table at address zero and a program image verbatim at
    /// the program origin `0x200`. The image must fit below the end of
    /// memory. Nothing else changes; memory between the font and the program,
    /// and past the program's end, keeps its previous contents.
    pub fn load(&mut self, program: &Vec<u8>)
        requires
            old(self).wf(),
            program@.len() <= 4096 - 0x200,
        ensures
            final(self).wf(),
            forall|i: int| 0 <= i < 80 ==> final(self).memory@[i] == font_table()[i],
            forall|i: int| 80 <= i < 0x200 ==> final(self).memory@[i] == old(self).memory@[i],
            forall|i: int|
                0 <= i < program@.len() ==> final(self).memory@[0x200 + i] == program@[i],
            forall|i: int|
                0x200 + program@.len() <= i < 4096 ==> final(self).memory@[i] == old(
                    self,
                ).memory@[i],
            final(self).screen@ == old(self).screen@,
            final(self).program_counter == old(self).program_counter,
            final(self).index == old(self).index,
            final(self).stack@ == old(self).stack@,
            timers_eq(*old(self), *final(self)),
            final(self).registers@ == old(self).registers@,
            frame_eq(*old(self), *final(self)),
    {
        let font = font_data();
        let mut i: usize = 0;
        while i < 80
            invariant
                old(self).wf(),
                self.memory@.len() == 4096,
                i <= 80,
                font@ == font_table(),
                forall|j: int| 0 <= j < i ==> self.memory@[j] == font_table()[j],
                forall|j: int| i <= j < 4096 ==> self.memory@[j] == old(self).memory@[j],
                self.screen@ == old(self).screen@,
                self.program_counter == old(self).program_counter,
                self.index == old(self).index,
                self.stack@ == old(self).stack@,
                timers_eq(*old(self), *self),
                self.registers@ == old(self).registers@,
                frame_eq(*old(self), *self),
            decreases 80 - i,
        {
            self.memory.set(i, font[i]);
            i += 1;
        }
        let mut k: usize = 0;
        while k < program.len()
            invariant
                old(self).wf(),
                self.memory@.len() == 4096,
                program@.len() <= 4096 - 0x200,
                k <= program@.len(),
                forall|j: int| 0 <= j < 80 ==> self.memory@[j] == font_table()[j],
                forall|j: int| 80 <= j < 0x200 ==> self.memory@[j] == old(self).memory@[j],
                forall|j: int| 0 <= j < k ==> self.memory@[0x200 + j] == program@[j],
                forall|j: int|
                    0x200 + k <= j < 4096 ==> self.memory@[j] == old(self).memory@[j],
                self.screen@ == old(self).screen@,
                self.program_counter == old(self).program_counter,
                self.index == old(self).index,
                self.stack@ == old(self).stack@,
                timers_eq(*old(self), *self),
                self.registers@ == old(self).registers@,
                frame_eq(*old(self), *self),
            decreases program@.len() - k,
        {
            self.memory.set(0x200 + k, program[k]);
            k += 1;
        }
    }

    /// Clear every display cell.
    fn op_cls(&mut self)
        requires
            old(self).wf(),
        ensures
            final(self).wf(),
            final(self).screen@.len() == 2048,
            forall|i: int| 0 <= i < 2048 ==> !(#[trigger] final(self).screen@[i]),
            final(self).memory@ == old(self).memory@,
            final(self).program_counter == old(self).program_counter,
            final(self).index == old(self).index,
            final(self).stack@ == old(self).stack@,
            timers_eq(*old(self), *final(self)),
            final(self).registers@ == old(self).registers@,
            frame_eq(*old(self), *final(self)),
    {
        let mut i: usize = 0;
        while i < 2048
            invariant
                old(self).wf(),
                self.screen@.len() == 2048,
                i <= 2048,
                forall|j: int| 0 <= j < i ==> !(#[trigger] self.screen@[j]),
                self.memory@ == old(self).memory@,
                self.program_counter == old(self).program_counter,
                self.index == old(self).index,
                self.stack@ == old(self).stack@,
                timers_eq(*old(self), *self),
                self.registers@ == old(self).registers@,
                frame_eq(*old(self), *self),
            decreases 2048 - i,
        {
            self.screen.set(i, false);
            i += 1;
        }
    }

    /// Copy `V0..=VX` into memory at the index register.
    fn op_store_regs(&mut self, x: u8) -> (r: Result<(), Fault>)
        requires
            old(self).wf(),
            x < 16,
        ensures
            final(self).wf(),
            final(self).program_counter == old(self).program_counter,
            store_regs_rel(*old(self), *final(self), x, r),
    {
        let base = self.index as usize;
        if base + x as usize >= 4096 {
            return Err(Fault::AddressOutOfRange);
        }
        let mut i: usize = 0;
        while i <= x as usize
            invariant
                old(self).wf(),
                x < 16,
                base == old(self).index,
                base + x < 4096,
                i <= x + 1,
                self.memory@.len() == 4096,
                forall|j: int|
                    0 <= j < 4096 ==> self.memory@[j] == (if base <= j < base + i {
                        old(self).registers@[j - base]
                    } else {
                        old(self).memory@[j]
                    }),
                self.screen@ == old(self).screen@,
                self.program_counter == old(self).program_counter,
                self.index == old(self).index,
                self.stack@ == old(self).stack@,
                timers_eq(*old(self), *self),
                self.registers@ == old(self).registers@,
                frame_eq(*old(self), *self),
            decreases x + 1 - i,
        {
            self.memory.set(base + i, self.registers[i]);
            i += 1;
        }
        if !self.quirks.modern_str_ld {
            self.index = self.index + x as u16 + 1;
        }
        Ok(())
    }

    /// Fill `V0..=VX` from memory at the index register.
    fn op_load_regs(&mut self, x: u8) -> (r: Result<(), Fault>)
        requires
            old(self).wf(),
            x < 16,
        ensures
            final(self).wf(),
            final(self).program_counter == old(self).program_counter,
            load_regs_rel(*old(self), *final(self), x, r),
    {
        let base = self.index as usize;
        if base + x as usize >= 4096 {
            return Err(Fault::AddressOutOfRange);
        }
        let mut i: usize = 0;
        while i <= x as usize
            invariant
                old(self).wf(),
                x < 16,
                base == old(self).index,
                base + x < 4096,
                i <= x + 1,
                self.registers@.len() == 16,
                forall|j: int|
                    0 <= j < 16 ==> self.registers@[j] == (if 0 <= j < i {
                        old(self).memory@[base + j]
                    } else {
                        old(self).registers@[j]
                    }),
                self.memory@ == old(self).memory@,
                self.screen@ == old(self).screen@,
                self.program_counter == old(self).program_counter,
                self.index == old(self).index,
                self.stack@ == old(self).stack@,
                timers_eq(*old(self), *self),
                frame_eq(*old(self), *self),
            decreases x + 1 - i,
        {
            let v = self.memory[base + i];
            self.registers.set(i, v);
            i += 1;
        }
        if !self.quirks.modern_str_ld {
            self.index = self.index + x as u16 + 1;
        }
        Ok(())
    }

    /// Draw an `n`-row sprite read from memory at the index register, with
    /// its origin at `(VX mod 64, VY mod 32)`, clipping at the right and
    /// bottom edges, XORing each covered cell, and reporting collisions in
    /// `VF`.
    #[verifier::rlimit(60)]
    fn op_draw(&mut self, x: u8, y: u8, n: u8) -> (r: Result<(), Fault>)
        requires
            old(self).wf(),
            x < 16,
            y < 16,
            n < 16,
        ensures
            final(self).wf(),
            final(self).program_counter == old(self).program_counter,
            draw_rel(*old(self), *final(self), x, y, n, r),
    {
        let ghost go = *old(self);
        let vx = if x == 15 {
            0
        } else {
            self.registers[x as usize]
        };
        let vy = if y == 15 {
            0
        } else {
            self.registers[y as usize]
        };
        let ox = (vx % 64) as usize;
        let oy = (vy % 32) as usize;
        let rows = if oy + n as usize > 32 {
            32 - oy
        } else {
            n as usize
        };
        let base = self.index as usize;
        if rows > 0 && base + rows > 4096 {
            return Err(Fault::AddressOutOfRange);
        }
        self.registers.set(15, 0);
        let width = if ox + 8 > 64 {
            64 - ox
        } else {
            8
        };
        let mut collided = false;
        let mut row: usize = 0;
        while row < rows
            invariant
                go.wf(),
                ox < 64,
                oy < 32,
                oy + rows <= 32,
                rows <= 15,
                rows > 0 ==> base + rows <= 4096,
                base == go.index,
                width == (if ox + 8 > 64 {
                    64 - ox
                } else {
                    8
                }),
                row <= rows,
                self.screen@.len() == 2048,
                self.memory@ == go.memory@,
                self.program_counter == go.program_counter,
                self.index == go.index,
                self.stack@ == go.stack@,
                timers_eq(go, *self),
                frame_eq(go, *self),
                self.registers@ == go.registers@.update(15, 0u8),
                forall|px: int, py: int|
                    #![trigger pix(px, py)]
                    0 <= px < 64 && 0 <= py < 32 ==> self.screen@[pix(px, py)] == (if sprite_covers(
                        ox as int,
                        oy as int,
                        row as int,
                        px,
                        py,
                    ) {
                        go.screen@[pix(px, py)] != sprite_px_on(
                            go.memory@,
                            base as int,
                            ox as int,
                            oy as int,
                            px,
                            py,
                        )
                    } else {
                        go.screen@[pix(px, py)]
                    }),
                collided == draw_collides(
                    go.screen@,
                    go.memory@,
                    base as int,
                    ox as int,
                    oy as int,
                    row as int,
                ),
            decreases rows - row,
        {
            let byte = self.memory[base + row];
            let py = oy + row;
            let mut col: usize = 0;
            while col < width
                invariant
                    go.wf(),
                    ox < 64,
                    oy < 32,
                    oy + rows <= 32,
                    rows <= 15,
                    rows > 0 ==> base + rows <= 4096,
                    base == go.index,
                    width == (if ox + 8 > 64 {
                        64 - ox
                    } else {
                        8
                    }),
                    row < rows,
                    py == oy + row,
                    col <= width,
                    byte == go.memory@[base + row],
                    self.screen@.len() == 2048,
                    self.memory@ == go.memory@,
                    self.program_counter == go.program_counter,
                    self.index == go.index,
                    self.stack@ == go.stack@,
                    timers_eq(go, *self),
                    frame_eq(go, *self),
                    self.registers@ == go.registers@.update(15, 0u8),
                    forall|px2: int, py2: int|
                        #![trigger pix(px2, py2)]
                        0 <= px2 < 64 && 0 <= py2 < 32 ==> self.screen@[pix(px2, py2)] == (
                        if sprite_covers(ox as int, oy as int, row as int, px2, py2) || (py2 == py
                            && ox <= px2 < ox + col) {
                            go.screen@[pix(px2, py2)] != sprite_px_on(
                                go.memory@,
                                base as int,
                                ox as int,
                                oy as int,
                                px2,
                                py2,
                            )
                        } else {
                            go.screen@[pix(px2, py2)]
                        }),
                    collided == (draw_collides(
                        go.screen@,
                        go.memory@,
                        base as int,
                        ox as int,
                        oy as int,
                        row as int,
                    ) || exists|px2: int|
                        ox <= px2 < ox + col && #[trigger] sprite_px_on(
                            go.memory@,
                            base as int,
                            ox as int,
                            oy as int,
                            px2,
                            py as int,
                        ) && go.screen@[pix(px2, py as int)]),
                decreases width - col,
            {
                let bit = (byte >> ((7 - col) as u8)) % 2 == 1;
                let px = ox + col;
                let idx = py * 64 + px;
                let cur = self.screen[idx];
                proof {
                    assert(idx == pix(px as int, py as int));
                    assert(!sprite_covers(ox as int, oy as int, row as int, px as int, py as int));
                    assert(go.screen@[pix(px as int, py as int)] == cur);
                    assert(sprite_px_on(
                        go.memory@,
                        base as int,
                        ox as int,
                        oy as int,
                        px as int,
                        py as int,
                    ) == bit);
                }
                if cur && bit {
                    collided = true;
                }
                self.screen.set(idx, cur != bit);
                proof {
                    if cur && bit {
                        assert(sprite_px_on(
                            go.memory@,
                            base as int,
                            ox as int,
                            oy as int,
                            px as int,
                            py as int,
                        ) && go.screen@[pix(px as int, py as int)]);
                    } else {
                        assert forall|px2: int|
                            ox <= px2 < ox + col + 1 && #[trigger] sprite_px_on(
                                go.memory@,
                                base as int,
                                ox as int,
                                oy as int,
                                px2,
                                py as int,
                            ) && go.screen@[pix(px2, py as int)] implies ox <= px2 < ox + col by {
                            if px2 == px as int {
                                assert(false);
                            }
                        }
                    }
                }
                col += 1;
            }
            proof {
                assert forall|px2: int, py2: int|
                    0 <= px2 < 64 && 0 <= py2 < 32 implies (sprite_covers(
                    ox as int,
                    oy as int,
                    row + 1,
                    px2,
                    py2,
                ) == (sprite_covers(ox as int, oy as int, row as int, px2, py2) || (py2 == py && ox
                    <= px2 < ox + width))) by {}
                assert(draw_collides(
                    go.screen@,
                    go.memory@,
                    base as int,
                    ox as int,
                    oy as int,
                    row + 1,
                ) == (draw_collides(
                    go.screen@,
                    go.memory@,
                    base as int,
                    ox as int,
                    oy as int,
                    row as int,
                ) || exists|px2: int|
                    ox <= px2 < ox + width && #[trigger] sprite_px_on(
                        go.memory@,
                        base as int,
                        ox as int,
                        oy as int,
                        px2,
                        py as int,
                    ) && go.screen@[pix(px2, py as int)])) by {
                    if draw_collides(
                        go.screen@,
                        go.memory@,
                        base as int,
                        ox as int,
                        oy as int,
                        row + 1,
                    ) {
                        let (pxw, pyw) = choose|pxw: int, pyw: int|
                            sprite_covers(ox as int, oy as int, row + 1, pxw, pyw)
                                && #[trigger] sprite_px_on(
                                go.memory@,
                                base as int,
                                ox as int,
                                oy as int,
                                pxw,
                                pyw,
                            ) && go.screen@[pix(pxw, pyw)];
                        if pyw == py as int {
                            assert(ox <= pxw < ox + width);
                        } else {
                            assert(sprite_covers(ox as int, oy as int, row as int, pxw, pyw));
                        }
                    }
                }
            }
            row += 1;
        }
        self.registers.set(15, if collided { 1 } else { 0 });
        Ok(())
    }

    /// The instruction word at the program counter.
    pub fn read_opcode(&self) -> (r: u16)
        requires
            self.wf(),
            self.program_counter <= 0xFFE,
        ensures
            r == opcode_at(self.memory@, self.program_counter as int),
    {
        let p = self.program_counter as usize;
        let op_byte1 = self.memory[p] as u16;
        let op_byte2 = self.memory[p + 1] as u16;
        op_byte1 << 8 | op_byte2
    }

    /// Execute the single instruction at the program counter, with `rnd` as
    /// the byte the random instruction uses. The whole effect is pinned down
    /// by [`step_rel`]; a fault is reported as a value and the machine is
    /// left in the state the relation describes.
    #[verifier::rlimit(100)]
    pub fn exe_with(&mut self, rnd: u8) -> (r: Result<(), Fault>)
        requires
            old(self).wf(),
        ensures
            final(self).wf(),
            step_rel(*old(self), *final(self), rnd, r),
    {
        if self.program_counter > 0xFFE {
            return Err(Fault::AddressOutOfRange);
        }
        let op = self.read_opcode();
        self.program_counter = self.program_counter + 2;
        let instr = match decode(op) {
            Ok(i) => i,
            Err(f) => {
                return Err(f);
            },
        };
        match instr {
            Instr::ClearScreen => {
                self.op_cls();
                Ok(())
            },
            Instr::Return => {
                match self.stack.pop() {
                    Some(addr) => {
                        self.program_counter = addr;
                        Ok(())
                    },
                    None => Err(Fault::StackUnderflow),
                }
            },
            Instr::Jump(nnn) => {
                self.program_counter = nnn;
                Ok(())
            },
            Instr::Call(nnn) => {
                if self.stack.len() >= 16 {
                    Err(Fault::StackOverflow)
                } else {
                    self.stack.push(self.program_counter);
                    self.program_counter = nnn;
                    Ok(())
                }
            },
            Instr::SkipEqImm(x, nn) => {
                if self.registers[x as usize] == nn {
                    self.program_counter = self.program_counter + 2;
                }
                Ok(())
            },
            Instr::SkipNeImm(x, nn) => {
                if self.registers[x as usize] != nn {
                    self.program_counter = self.program_counter + 2;
                }
                Ok(())
            },
            Instr::SkipEqReg(x, y) => {
                if self.registers[x as usize] == self.registers[y as usize] {
                    self.program_counter = self.program_counter + 2;
                }
                Ok(())
            },
            Instr::LoadImm(x, nn) => {
                self.registers.set(x as usize, nn);
                Ok(())
            },
            Instr::AddImm(x, nn) => {
                let vx = self.registers[x as usize];
                self.registers.set(x as usize, ((vx as u16 + nn as u16) % 256) as u8);
                Ok(())
            },
            Instr::Move(x, y) => {
                let vy = self.registers[y as usize];
                self.registers.set(x as usize, vy);
                Ok(())
            },
            Instr::Or(x, y) => {
                let v = self.registers[x as usize] | self.registers[y as usize];
                self.registers.set(x as usize, v);
                if self.quirks.vf_reset {
                    self.registers.set(15, 0);
                }
                Ok(())
            },
            Instr::And(x, y) => {
                let v = self.registers[x as usize] & self.registers[y as usize];
                self.registers.set(x as usize, v);
                if self.quirks.vf_reset {
                    self.registers.set(15, 0);
                }
                Ok(())
            },
            Instr::Xor(x, y) => {
                let v = self.registers[x as usize] ^ self.registers[y as usize];
                self.registers.set(x as usize, v);
                if self.quirks.vf_reset {
                    self.registers.set(15, 0);
                }
                Ok(())
            },
            Instr::AddReg(x, y) => {
                let vx = self.registers[x as usize];
                let vy = self.registers[y as usize];
                let sum = vx as u16 + vy as u16;
                self.registers.set(x as usize, (sum % 256) as u8);
                self.registers.set(15, if sum > 255 { 1 } else { 0 });
                Ok(())
            },
            Instr::SubXY(x, y) => {
                let vx = self.registers[x as usize];
                let vy = self.registers[y as usize];
                self.registers.set(x as usize, ((vx as u16 + 256 - vy as u16) % 256) as u8);
                self.registers.set(15, if vx >= vy { 1 } else { 0 });
                Ok(())
            },
            Instr::ShiftRight(x, y) => {
                let src = if self.quirks.modern_shift {
                    self.registers[x as usize]
                } else {
                    self.registers[y as usize]
                };
                self.registers.set(x as usize, src / 2);
                self.registers.set(15, src % 2);
                Ok(())
            },
            Instr::SubYX(x, y) => {
                let vx = self.registers[x as usize];
                let vy = self.registers[y as usize];
                self.registers.set(x as usize, ((vy as u16 + 256 - vx as u16) % 256) as u8);
                self.registers.set(15, if vy >= vx { 1 } else { 0 });
                Ok(())
            },
            Instr::ShiftLeft(x, y) => {
                let src = if self.quirks.modern_shift {
                    self.registers[x as usize]
                } else {
                    self.registers[y as usize]
                };
                self.registers.set(x as usize, ((src as u16 * 2) % 256) as u8);
                self.registers.set(15, src / 128);
                Ok(())
            },
            Instr::SkipNeReg(x, y) => {
                if self.registers[x as usize] != self.registers[y as usize] {
                    self.program_counter = self.program_counter + 2;
                }
                Ok(())
            },
            Instr::SetIndex(nnn) => {
                self.index = nnn;
                Ok(())
            },
            Instr::JumpV0(nnn) => {
                self.program_counter = nnn + self.registers[0] as u16;
                Ok(())
            },
            Instr::Random(x, nn) => {
                self.registers.set(x as usize, rnd & nn);
                Ok(())
            },
            Instr::Draw(x, y, n) => self.op_draw(x, y, n),
            Instr::SkipKeyPressed(x) => {
                let vx = self.registers[x as usize];
                let key = vx & 0xF;
                proof {
                    assert(vx & 0xF < 16) by (bit_vector);
                }
                if self.keys[key as usize].is_pressed() {
                    self.program_counter = self.program_counter + 2;
                }
                Ok(())
            },
            Instr::SkipKeyNotPressed(x) => {
                let vx = self.registers[x as usize];
                let key = vx & 0xF;
                proof {
                    assert(vx & 0xF < 16) by (bit_vector);
                }
                if !self.keys[key as usize].is_pressed() {
                    self.program_counter = self.program_counter + 2;
                }
                Ok(())
            },
            Instr::ReadDelay(x) => {
                let d = self.delay_timer;
                self.registers.set(x as usize, d);
                Ok(())
            },
            Instr::WaitKey(x) => {
                match self.pending_key {
                    Some((k, a)) => {
                        if a == 0 {
                            self.registers.set(x as usize, k);
                        } else {
                            self.program_counter = self.program_counter - 2;
                        }
                    },
                    None => {
                        self.program_counter = self.program_counter - 2;
                    },
                }
                Ok(())
            },
            Instr::SetDelay(x) => {
                self.delay_timer = self.registers[x as usize];
                Ok(())
            },
            Instr::SetSound(x) => {
                self.sound_timer = self.registers[x as usize];
                Ok(())
            },
            Instr::AddIndex(x) => {
                let vx = self.registers[x as usize] as u16;
                let ni = ((self.index as u32 + vx as u32) % 0x10000) as u16;
                if self.quirks.amiga_behaviour {
                    let prev_low = self.index <= 0xFFF;
                    self.index = ni;
                    self.registers.set(15, if prev_low && ni > 0xFFF { 1 } else { 0 });
                } else {
                    self.index = ni;
                }
                Ok(())
            },
            Instr::SpriteChar(x) => {
                self.index = self.registers[x as usize] as u16 * 5;
                Ok(())
            },
            Instr::StoreBcd(x) => {
                let base = self.index as usize;
                if base + 2 >= 4096 {
                    return Err(Fault::AddressOutOfRange);
                }
                let vx = self.registers[x as usize];
                self.memory.set(base, vx / 100);
                self.memory.set(base + 1, (vx / 10) % 10);
                self.memory.set(base + 2, vx % 10);
                Ok(())
            },
            Instr::StoreRegs(x) => self.op_store_regs(x),
            Instr::LoadRegs(x) => self.op_load_regs(x),
        }
    }

    /// Execute the single instruction at the program counter, drawing the
    /// random instruction's byte from the host's generator. Whatever byte
    /// came back, the step satisfies [`step_rel`] for it.
    pub fn exe(&mut self) -> (r: Result<(), Fault>)
        requires
            old(self).wf(),
        ensures
            final(self).wf(),
            exists|b: u8| #[trigger] step_rel(*old(self), *final(self), b, r),
            frame_eq(*old(self), *final(self)),
    {
        let b = random_byte();
        let r = self.exe_with(b);
        proof {
            lemma_step_frame(*old(self), *self, b, r);
        }
        r
    }

    /// Run one host tick: age every key's debounce counters, apply this
    /// tick's `(key, pressed)` events in order, record the last press for
    /// the key-wait instruction, execute up to `ipf` instructions, then
    /// decay both timers exactly once and age the pending press record.
    /// A fault stops the batch where it happened and is returned; the timers
    /// do not decay on a faulted tick.
    pub fn update(&mut self, keys: &Vec<(u8, bool)>, ipf: usize) -> (r: Result<(), Fault>)
        requires
            old(self).wf(),
            forall|i: int| 0 <= i < keys@.len() ==> (#[trigger] keys@[i]).0 < 16,
        ensures
            final(self).wf(),
            tick_rel(*old(self), *final(self), keys@, ipf as nat, r),
            final(self).keys@ == apply_events(aged_keys(old(self).keys@), keys@),
            final(self).pending_key == (match r {
                Ok(()) => aged_pending(
                    match last_press(keys@) {
                        Some(k) => Some((k, 0u8)),
                        None => old(self).pending_key,
                    },
                ),
                Err(_) => (match last_press(keys@) {
                    Some(k) => Some((k, 0u8)),
                    None => old(self).pending_key,
                }),
            }),
            final(self).quirks == old(self).quirks,
    {
        let mut i: usize = 0;
        while i < 16
            invariant
                old(self).wf(),
                i <= 16,
                self.keys@.len() == 16,
                forall|j: int|
                    0 <= j < i ==> #[trigger] self.keys@[j] == old(self).keys@[j].aged_key(),
                forall|j: int| i <= j < 16 ==> #[trigger] self.keys@[j] == old(self).keys@[j],
                self.memory@ == old(self).memory@,
                self.screen@ == old(self).screen@,
                self.program_counter == old(self).program_counter,
                self.index == old(self).index,
                self.stack@ == old(self).stack@,
                timers_eq(*old(self), *self),
                self.registers@ == old(self).registers@,
                self.pending_key == old(self).pending_key,
                self.quirks == old(self).quirks,
            decreases 16 - i,
        {
            let mut k = self.keys[i];
            k.update_pressed();
            k.update_released();
            self.keys.set(i, k);
            i += 1;
        }
        proof {
            assert(self.keys@ =~= aged_keys(old(self).keys@));
        }
        let ghost aged0 = self.keys@;
        let mut last: Option<u8> = None;
        let mut j: usize = 0;
        while j < keys.len()
            invariant
                old(self).wf(),
                forall|i2: int| 0 <= i2 < keys@.len() ==> (#[trigger] keys@[i2]).0 < 16,
                j <= keys@.len(),
                aged0 == aged_keys(old(self).keys@),
                self.keys@.len() == 16,
                forall|k2: int| 0 <= k2 < 16 ==> (#[trigger] self.keys@[k2]).wf(),
                self.keys@ == apply_events(aged0, keys@.subrange(0, j as int)),
                last == last_press(keys@.subrange(0, j as int)),
                last matches Some(k2) ==> k2 < 16,
                self.memory@ == old(self).memory@,
                self.screen@ == old(self).screen@,
                self.program_counter == old(self).program_counter,
                self.index == old(self).index,
                self.stack@ == old(self).stack@,
                timers_eq(*old(self), *self),
                self.registers@ == old(self).registers@,
                self.pending_key == old(self).pending_key,
                self.quirks == old(self).quirks,
            decreases keys@.len() - j,
        {
            let ev = keys[j];
            let k = ev.0;
            let pressed = ev.1;
            proof {
                assert(keys@.subrange(0, j + 1).drop_last() =~= keys@.subrange(0, j as int));
                assert(keys@.subrange(0, j + 1).last() == keys@[j as int]);
            }
            if pressed {
                let mut ks = self.keys[k as usize];
                ks.press();
                self.keys.set(k as usize, ks);
                last = Some(k);
            } else {
                let mut ks = self.keys[k as usize];
                ks.release();
                self.keys.set(k as usize, ks);
            }
            j += 1;
        }
        proof {
            assert(keys@.subrange(0, keys@.len() as int) =~= keys@);
        }
        if let Some(k) = last {
            self.pending_key = Some((k, 0));
        }
        let ghost s1 = *self;
        proof {
            assert(key_phase_rel(*old(self), s1, keys@));
        }
        let mut c: usize = 0;
        while c < ipf
            invariant
                s1.wf(),
                self.wf(),
                c <= ipf,
                key_phase_rel(*old(self), s1, keys@),
                runs(s1, *self, c as nat, Ok::<(), Fault>(())),
                frame_eq(s1, *self),
            decreases ipf - c,
        {
            let ghost prev = *self;
            let res = self.exe();
            match res {
                Ok(()) => {
                    proof {
                        let b = choose|b: u8| step_rel(prev, *self, b, Ok::<(), Fault>(()));
                        lemma_runs_snoc_ok(s1, prev, *self, c as nat, b);
                    }
                    c += 1;
                },
                Err(f) => {
                    proof {
                        let b = choose|b: u8| step_rel(prev, *self, b, Err::<(), Fault>(f));
                        lemma_runs_snoc_err(s1, prev, *self, c as nat, ipf as nat, b, f);
                        assert(tick_rel(*old(self), *self, keys@, ipf as nat, Err::<(), Fault>(f)));
                    }
                    return Err(f);
                },
            }
        }
        let ghost s2 = *self;
        self.delay_timer = if self.delay_timer == 0 {
            0
        } else {
            self.delay_timer - 1
        };
        self.sound_timer = if self.sound_timer == 0 {
            0
        } else {
            self.sound_timer - 1
        };
        match self.pending_key {
            Some((k, a)) => {
                let na = if a >= 60 {
                    60
                } else {
                    a + 1
                };
                self.pending_key = Some((k, na));
            },
            None => {},
        }
        proof {
            assert(tick_end_rel(s2, *self));
            assert(tick_rel(*old(self), *self, keys@, ipf as nat, Ok::<(), Fault>(())));
        }
        Ok(())
    }

    /// Rasterize the display into a 64-by-32 RGBA frame, four bytes per
    /// cell: a lit cell becomes opaque black, an unlit one opaque white.
    pub fn draw(&self, frame: &mut Vec<u8>)
        requires
            self.wf(),
            old(frame)@.len() == 8192,
        ensures
            final(frame)@.len() == 8192,
            forall|j: int|
                0 <= j < 8192 ==> #[trigger] final(frame)@[j] == rgba_byte(self.screen@, j),
    {
        let mut j: usize = 0;
        while j < 8192
            invariant
                self.wf(),
                frame@.len() == 8192,
                j <= 8192,
                forall|i: int| 0 <= i < j ==> #[trigger] frame@[i] == rgba_byte(self.screen@, i),
            decreases 8192 - j,
        {
            let v: u8 = if j % 4 == 3 {
                0xFF
            } else if self.screen[j / 4] {
                0x00
            } else {
                0xFF
            };
            frame.set(j, v);
            j += 1;
        }
    }

    /// Whether `key` is within its press debounce window.
    pub fn is_key_pressed(&self, key: u8) -> (r: bool)
        requires
            self.wf(),
            key < 16,
        ensures
            r == (self.keys@[key as int].pressed_frames_ago <= 3),
    {
        self.keys[key as usize].is_pressed()
    }

    /// Whether `key` is within its release debounce window.
    pub fn is_key_released(&self, key: u8) -> (r: bool)
        requires
            self.wf(),
            key < 16,
        ensures
            r == (self.keys@[key as int].released_frames_ago <= 3),
    {
        self.keys[key as usize].is_released()
    }
}

} // verus!
