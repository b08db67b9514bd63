//! Laws of the instruction semantics.
//!
//! Each proof function here states a property that relates several steps of
//! the machine, over the same transition relations that the step function's
//! own contract uses.

use vstd::prelude::*;

use crate::decode::decode_spec;
use crate::decode::Fault;
use crate::decode::Instr;
use crate::interp::aged_keys;
use crate::interp::apply_events;
use crate::interp::core_unchanged;
use crate::interp::draw_rel;
use crate::interp::exec_rel;
use crate::interp::key_phase_rel;
use crate::interp::last_press;
use crate::interp::opcode_at;
use crate::interp::pix;
use crate::interp::runs;
use crate::interp::sprite_covers;
use crate::interp::sprite_px_on;
use crate::interp::step_rel;
use crate::interp::tick_end_rel;
use crate::interp::tick_rel;
use crate::interp::Interpreter;
use crate::keypad::KeyState;

verus! {

/// A call followed by a return restores the program counter to the
/// instruction immediately after the call site, and the stack to its
/// pre-call contents.
pub proof fn lemma_call_then_return(
    s0: Interpreter,
    s1: Interpreter,
    s2: Interpreter,
    nnn: u16,
    b1: u8,
    b2: u8,
)
    requires
        s0.program_counter <= 0xFFE,
        s0.stack@.len() < 16,
        exec_rel(s0, s1, Instr::Call(nnn), b1, Ok(())),
        exec_rel(s1, s2, Instr::Return, b2, Ok(())),
    ensures
        s2.program_counter == s0.program_counter + 2,
        s2.stack@ == s0.stack@,
{
    assert(s1.stack@ == s0.stack@.push((s0.program_counter + 2) as u16));
    assert(s2.stack@ =~= s0.stack@);
}

/// Stack bound: a call attempted with the stack already at its sixteen-entry
/// limit faults with a stack overflow and changes nothing but the program
/// counter's fetch advance.
pub proof fn lemma_stack_overflow(
    s0: Interpreter,
    s1: Interpreter,
    nnn: u16,
    b: u8,
    r: Result<(), Fault>,
)
    requires
        s0.stack@.len() == 16,
        exec_rel(s0, s1, Instr::Call(nnn), b, r),
    ensures
        r == Err::<(), Fault>(Fault::StackOverflow),
        core_unchanged(s0, s1),
{
}

/// The horizontal origin a draw instruction uses, after the preliminary
/// clearing of `VF`.
pub open spec fn draw_origin_x(s: Interpreter, x: u8) -> int {
    (s.registers@.update(15, 0u8)[x as int] as int) % 64
}

/// The vertical origin a draw instruction uses.
pub open spec fn draw_origin_y(s: Interpreter, y: u8) -> int {
    (s.registers@.update(15, 0u8)[y as int] as int) % 32
}

/// The number of sprite rows left after clipping at the bottom edge.
pub open spec fn draw_row_count(s: Interpreter, y: u8, n: u8) -> int {
    let oy = draw_origin_y(s, y);
    if oy + n > 32 {
        32 - oy
    } else {
        n as int
    }
}

/// Some visible sprite bit lands on a cell that is off: the draw would turn
/// at least one cell on.
pub open spec fn draw_sets_some_cell(s: Interpreter, x: u8, y: u8, n: u8) -> bool {
    let ox = draw_origin_x(s, x);
    let oy = draw_origin_y(s, y);
    let rows = draw_row_count(s, y, n);
    exists|px: int, py: int|
        sprite_covers(ox, oy, rows, px, py) && #[trigger] sprite_px_on(
            s.memory@,
            s.index as int,
            ox,
            oy,
            px,
            py,
        ) && !s.screen@[pix(px, py)]
}

/// Every visible sprite bit lands on a cell that is off: the draw overlaps
/// nothing already lit.
pub open spec fn draw_overlaps_nothing(s: Interpreter, x: u8, y: u8, n: u8) -> bool {
    let ox = draw_origin_x(s, x);
    let oy = draw_origin_y(s, y);
    let rows = draw_row_count(s, y, n);
    forall|px: int, py: int|
        sprite_covers(ox, oy, rows, px, py) && #[trigger] sprite_px_on(
            s.memory@,
            s.index as int,
            ox,
            oy,
            px,
            py,
        ) ==> !s.screen@[pix(px, py)]
}

/// Draw collision: drawing a sprite that overlaps nothing lit reports no
/// collision; drawing the identical sprite a second time clears every cell
/// it set, restoring the display exactly, and reports the collision in `VF`;
/// a third identical draw sets the cells again with `VF` clear.
pub proof fn lemma_draw_twice_restores(
    s0: Interpreter,
    s1: Interpreter,
    s2: Interpreter,
    s3: Interpreter,
    x: u8,
    y: u8,
    n: u8,
    r1: Result<(), Fault>,
    r2: Result<(), Fault>,
    r3: Result<(), Fault>,
)
    requires
        s0.wf(),
        x < 16,
        y < 16,
        n < 16,
        draw_rel(s0, s1, x, y, n, r1),
        draw_rel(s1, s2, x, y, n, r2),
        draw_rel(s2, s3, x, y, n, r3),
        r1 == Ok::<(), Fault>(()),
        draw_sets_some_cell(s0, x, y, n),
        draw_overlaps_nothing(s0, x, y, n),
    ensures
        s1.registers@[15] == 0,
        s2.registers@[15] == 1,
        forall|i: int| 0 <= i < 2048 ==> s2.screen@[i] == s0.screen@[i],
        s3.registers@[15] == 0,
        forall|i: int| 0 <= i < 2048 ==> s3.screen@[i] == s1.screen@[i],
{
    let regs1 = s0.registers@.update(15, 0u8);
    let ox = draw_origin_x(s0, x);
    let oy = draw_origin_y(s0, y);
    let rows = draw_row_count(s0, y, n);
    assert(s1.registers@.update(15, 0u8) =~= regs1);
    assert(draw_origin_x(s1, x) == ox && draw_origin_y(s1, y) == oy && draw_row_count(s1, y, n)
        == rows);
    // The second draw's inputs (memory, index, origin, rows) equal the
    // first's, so each covered cell is XORed with the same bit twice.
    assert(forall|px: int, py: int|
        #![trigger pix(px, py)]
        0 <= px < 64 && 0 <= py < 32 ==> s2.screen@[pix(px, py)] == s0.screen@[pix(px, py)]);
    assert forall|i: int| 0 <= i < 2048 implies s2.screen@[i] == s0.screen@[i] by {
        let py = i / 64;
        let px = i % 64;
        assert(i == pix(px, py));
    }
    // The cell the first draw turned on is the second draw's collision
    // witness.
    let (pxw, pyw) = choose|pxw: int, pyw: int|
        sprite_covers(ox, oy, rows, pxw, pyw) && #[trigger] sprite_px_on(
            s0.memory@,
            s0.index as int,
            ox,
            oy,
            pxw,
            pyw,
        ) && !s0.screen@[pix(pxw, pyw)];
    assert(0 <= pix(pxw, pyw) < 2048);
    assert(s1.screen@[pix(pxw, pyw)]);
    assert(s2.registers@[15] == 1);
    // After the restore the third draw repeats the first.
    assert(s2.screen@ =~= s0.screen@);
    assert(s2.registers@.update(15, 0u8) =~= regs1);
    assert forall|i: int| 0 <= i < 2048 implies s3.screen@[i] == s1.screen@[i] by {
        let py = i / 64;
        let px = i % 64;
        assert(i == pix(px, py));
    }
}

/// A blocked key-wait makes no progress: with no brand-new press recorded,
/// the instruction leaves the program counter, and everything else, exactly
/// where it was.
pub proof fn lemma_key_wait_blocks(
    pre: Interpreter,
    post: Interpreter,
    x: u8,
    b: u8,
    r: Result<(), Fault>,
)
    requires
        exec_rel(pre, post, Instr::WaitKey(x), b, r),
        pre.pending_key matches Some(p) ==> p.1 != 0,
    ensures
        r == Ok::<(), Fault>(()),
        post.program_counter == pre.program_counter,
        core_unchanged(pre, post),
{
}

/// A key-wait that sees a press recorded in the current tick completes at
/// once: the key's code lands in `VX` and the program counter advances past
/// the instruction.
pub proof fn lemma_key_wait_completes(
    pre: Interpreter,
    post: Interpreter,
    x: u8,
    k: u8,
    b: u8,
    r: Result<(), Fault>,
)
    requires
        exec_rel(pre, post, Instr::WaitKey(x), b, r),
        pre.pending_key == Some((k, 0u8)),
    ensures
        r == Ok::<(), Fault>(()),
        post.program_counter == pre.program_counter + 2,
        post.registers@ == pre.registers@.update(x as int, k),
{
}

/// A program sitting on the key-wait instruction with no press recorded
/// makes no progress under any number of steps: the program counter, the
/// memory and the empty pending record are all exactly as before.
pub proof fn lemma_key_wait_blocks_forever(pre: Interpreter, post: Interpreter, x: u8, n: nat)
    requires
        pre.wf(),
        runs(pre, post, n, Ok(())),
        pre.pending_key is None,
        pre.program_counter <= 0xFFE,
        decode_spec(opcode_at(pre.memory@, pre.program_counter as int)) == Some(Instr::WaitKey(x)),
    ensures
        post.program_counter == pre.program_counter,
        post.pending_key is None,
        post.memory@ == pre.memory@,
        post.screen@ == pre.screen@,
        post.registers@ == pre.registers@,
    decreases n,
{
    if n > 0 {
        let (mid, b, sr) = choose|mid: Interpreter, b: u8, sr: Result<(), Fault>|
            #[trigger] step_rel(pre, mid, b, sr) && mid.wf() && (match sr {
                Ok(()) => runs(mid, post, (n - 1) as nat, Ok::<(), Fault>(())),
                Err(f) => Ok::<(), Fault>(()) == Err::<(), Fault>(f) && post == mid,
            });
        assert(exec_rel(pre, mid, Instr::WaitKey(x), b, sr));
        lemma_key_wait_blocks_forever(mid, post, x, (n - 1) as nat);
    }
}

/// In an event-free tick each key's counters simply age by one, clamped:
/// together with the debounce-window law on aged counters, a key pressed at
/// some tick reads as pressed for exactly that tick and the following
/// [`crate::keypad::DEBOUNCE_WINDOW`] ticks.
pub proof fn lemma_quiet_tick_ages_each_key(keys: Seq<KeyState>, k: int)
    requires
        0 <= k < keys.len(),
    ensures
        apply_events(aged_keys(keys), Seq::<(u8, bool)>::empty())[k] == keys[k].aged_key(),
{
}

/// A whole event-free tick over a program sitting on the key-wait
/// instruction, however many instructions the tick runs, leaves the program
/// counter, the display, the registers, the memory and the empty pending
/// record exactly as they were; only the keypad ages and the timers decay.
pub proof fn lemma_key_wait_blocks_whole_tick(
    pre: Interpreter,
    post: Interpreter,
    x: u8,
    n: nat,
)
    requires
        pre.wf(),
        tick_rel(pre, post, Seq::<(u8, bool)>::empty(), n, Ok(())),
        pre.pending_key is None,
        pre.program_counter <= 0xFFE,
        decode_spec(opcode_at(pre.memory@, pre.program_counter as int)) == Some(Instr::WaitKey(x)),
    ensures
        post.program_counter == pre.program_counter,
        post.pending_key is None,
        post.memory@ == pre.memory@,
        post.screen@ == pre.screen@,
        post.registers@ == pre.registers@,
{
    let evs = Seq::<(u8, bool)>::empty();
    let (s1, s2) = choose|s1: Interpreter, s2: Interpreter|
        #[trigger] key_phase_rel(pre, s1, evs) && #[trigger] runs(s1, s2, n, Ok::<(), Fault>(()))
            && tick_end_rel(s2, post);
    assert(last_press(evs) is None);
    assert(s1.keys@ == aged_keys(pre.keys@));
    assert(s1.wf()) by {
        assert(forall|i: int|
            0 <= i < 16 ==> #[trigger] s1.keys@[i] == pre.keys@[i].aged_key());
    }
    lemma_key_wait_blocks_forever(s1, s2, x, n);
}

} // verus!
