//! General laws of the instruction semantics, stated over the abstract
//! machine and proved once and for all: flag determinism, the store/load
//! round trip, stack discipline, the key-wait busy-poll, and draw
//! idempotence.

use vstd::prelude::*;

use crate::isa::{
    decode_spec, draw_row, draw_sprite, first_pressed, instr_result, instr_step, pixel_index,
    pop_view, push_view, sprite_bit, tick_spec, word_at, Instr,
};
use crate::machine::{Fault, MachineView};

verus! {

// ---------------------------------------------------------------------------
// Flag determinism: for each arithmetic and shift instruction, VF is exactly
// the carry / borrow / shifted-out bit computed from the operand registers,
// whatever any other register held before.
// ---------------------------------------------------------------------------

/// After `Vx = Vx + Vy`, the flag register holds 1 exactly when the 8-bit
/// addition overflowed, whatever the registers held before.  (When VF is
/// itself the destination, the sum overwrites the flag.)
pub proof fn lemma_add_carry_flag(s: MachineView, x: u8, y: u8)
    requires
        s.wf(),
        x < 16,
        y < 16,
        x != 15,
    ensures
        instr_result(s, Instr::AddReg { x, y }, 0) matches Ok(s2) && s2.v[15] == (
        if s.v[x as int] + s.v[y as int] > 255 {
            1u8
        } else {
            0u8
        }),
{
}

/// After `Vx = Vx - Vy`, the flag register holds 0 exactly when the
/// subtraction borrowed (Vx < Vy), whatever the registers held before.
pub proof fn lemma_sub_borrow_flag(s: MachineView, x: u8, y: u8)
    requires
        s.wf(),
        x < 16,
        y < 16,
        x != 15,
    ensures
        instr_result(s, Instr::SubReg { x, y }, 0) matches Ok(s2) && s2.v[15] == (
        if s.v[x as int] < s.v[y as int] {
            0u8
        } else {
            1u8
        }),
{
}

/// After `Vx = Vy - Vx`, the flag register holds 0 exactly when the
/// subtraction borrowed (Vy < Vx), whatever the registers held before.
pub proof fn lemma_subn_borrow_flag(s: MachineView, x: u8, y: u8)
    requires
        s.wf(),
        x < 16,
        y < 16,
        x != 15,
    ensures
        instr_result(s, Instr::SubnReg { x, y }, 0) matches Ok(s2) && s2.v[15] == (
        if s.v[y as int] < s.v[x as int] {
            0u8
        } else {
            1u8
        }),
{
}

/// After `Vx = Vx >> 1`, the flag register holds the pre-shift low bit of
/// Vx, whatever the registers held before — VF is written after the shift,
/// so this holds even when Vx is VF itself.
pub proof fn lemma_shr_flag(s: MachineView, x: u8)
    requires
        s.wf(),
        x < 16,
    ensures
        instr_result(s, Instr::ShrReg { x }, 0) matches Ok(s2) && s2.v[15] == s.v[x as int] & 1,
{
}

/// After `Vx = Vx << 1`, the flag register holds the pre-shift high bit of
/// Vx, whatever the registers held before — VF is written after the shift,
/// so this holds even when Vx is VF itself.
pub proof fn lemma_shl_flag(s: MachineView, x: u8)
    requires
        s.wf(),
        x < 16,
    ensures
        instr_result(s, Instr::ShlReg { x }, 0) matches Ok(s2) && s2.v[15] == s.v[x as int] >> 7u8,
{
}

// ---------------------------------------------------------------------------
// Store/load round trip.
// ---------------------------------------------------------------------------

/// Storing V0..Vx to memory at I and then loading V0..Vx back from the same
/// address reproduces the original register values exactly, for any x.
pub proof fn lemma_store_load_round_trip(s: MachineView, x: u8)
    requires
        s.wf(),
        x < 16,
        s.index + x < 4096,
    ensures
        ({
            let r1 = instr_result(s, Instr::StoreRegs { x }, 0);
            let r2 = instr_result(r1->Ok_0, Instr::LoadRegs { x }, 0);
            r1 is Ok && r2 is Ok && (r2->Ok_0).v =~= s.v
        }),
{
    let s1 = instr_result(s, Instr::StoreRegs { x }, 0)->Ok_0;
    let s2 = instr_result(s1, Instr::LoadRegs { x }, 0)->Ok_0;
    assert(s2.v =~= s.v);
}

// ---------------------------------------------------------------------------
// Stack discipline.
// ---------------------------------------------------------------------------

/// The state after pushing each address of `addrs` in order.
pub open spec fn push_all(s: MachineView, addrs: Seq<u16>) -> Result<MachineView, Fault>
    decreases addrs.len(),
{
    if addrs.len() == 0 {
        Ok(s)
    } else {
        match push_view(s, addrs[0]) {
            Ok(s1) => push_all(s1, addrs.drop_first()),
            Err(e) => Err(e),
        }
    }
}

/// The state after `count` pops, together with the popped addresses in pop
/// order.
pub open spec fn pop_all(s: MachineView, count: nat) -> Result<(MachineView, Seq<u16>), Fault>
    decreases count,
{
    if count == 0 {
        Ok((s, Seq::empty()))
    } else {
        match pop_view(s) {
            Ok(pair) => match pop_all(pair.0, (count - 1) as nat) {
                Ok(rest) => Ok((rest.0, seq![pair.1] + rest.1)),
                Err(e) => Err(e),
            },
            Err(e) => Err(e),
        }
    }
}

/// Pushing a sequence that fits succeeds and lays the addresses out in
/// order above the old stack pointer, touching nothing else.
pub proof fn lemma_push_all(s: MachineView, addrs: Seq<u16>)
    requires
        s.wf(),
        s.sp as int + addrs.len() <= 16,
    ensures
        ({
            let r = push_all(s, addrs);
            let t = r->Ok_0;
            r is Ok && {
                &&& t.wf()
                &&& t.sp as int == s.sp as int + addrs.len()
                &&& (forall|j: int| 0 <= j < s.sp as int ==> t.stack[j] == s.stack[j])
                &&& (forall|j: int| 0 <= j < addrs.len() ==> t.stack[s.sp as int + j] == addrs[j])
                &&& t.pc == s.pc
                &&& t.mem == s.mem
                &&& t.screen == s.screen
                &&& t.v == s.v
                &&& t.index == s.index
                &&& t.keys == s.keys
                &&& t.delay == s.delay
                &&& t.sound == s.sound
            }
        }),
    decreases addrs.len(),
{
    if addrs.len() == 0 {
    } else {
        let s1 = push_view(s, addrs[0])->Ok_0;
        lemma_push_all(s1, addrs.drop_first());
        let t = push_all(s, addrs)->Ok_0;
        assert forall|j: int| 0 <= j < addrs.len() implies t.stack[s.sp as int + j] == addrs[j] by {
            if j == 0 {
                assert(t.stack[s.sp as int] == s1.stack[s.sp as int]);
            } else {
                assert(t.stack[s1.sp as int + (j - 1)] == addrs.drop_first()[j - 1]);
                assert(addrs.drop_first()[j - 1] == addrs[j]);
            }
        }
        assert forall|j: int| 0 <= j < s.sp as int implies t.stack[j] == s.stack[j] by {
            assert(t.stack[j] == s1.stack[j]);
        }
    }
}

/// Popping `count` addresses from a stack at least that deep succeeds and
/// returns the topmost `count` slots in top-down order, leaving the slots
/// themselves and everything else untouched.
pub proof fn lemma_pop_all(s: MachineView, count: nat)
    requires
        s.wf(),
        count <= s.sp,
    ensures
        ({
            let r = pop_all(s, count);
            let pair = r->Ok_0;
            r is Ok && {
                &&& pair.0.wf()
                &&& pair.0.sp as int == s.sp as int - count
                &&& pair.0.stack == s.stack
                &&& pair.1.len() == count
                &&& (forall|j: int| 0 <= j < count ==> pair.1[j] == s.stack[s.sp as int - 1 - j])
                &&& pair.0.pc == s.pc
                &&& pair.0.mem == s.mem
                &&& pair.0.screen == s.screen
                &&& pair.0.v == s.v
                &&& pair.0.index == s.index
                &&& pair.0.keys == s.keys
                &&& pair.0.delay == s.delay
                &&& pair.0.sound == s.sound
            }
        }),
    decreases count,
{
    if count == 0 {
    } else {
        let s1 = pop_view(s)->Ok_0.0;
        lemma_pop_all(s1, (count - 1) as nat);
    }
}

/// Stack discipline is last-in-first-out: filling the empty 16-slot stack
/// with any 16 addresses and then popping 16 times yields exactly the
/// reversed sequence, and a 17th push is a fatal overflow.
pub proof fn lemma_stack_lifo(s: MachineView, addrs: Seq<u16>)
    requires
        s.wf(),
        s.sp == 0,
        addrs.len() == 16,
    ensures
        ({
            let t = push_all(s, addrs)->Ok_0;
            &&& push_all(s, addrs) is Ok
            &&& forall|extra: u16|
                push_view(t, extra) == Err::<MachineView, Fault>(Fault::StackOverflow)
            &&& pop_all(t, 16) is Ok
            &&& (pop_all(t, 16)->Ok_0).1 =~= addrs.reverse()
        }),
{
    lemma_push_all(s, addrs);
    let t = push_all(s, addrs)->Ok_0;
    lemma_pop_all(t, 16);
    let popped = pop_all(t, 16)->Ok_0.1;
    assert(popped =~= addrs.reverse());
}

// ---------------------------------------------------------------------------
// The key-wait busy-poll.
// ---------------------------------------------------------------------------

/// Below `upto`, no key is pressed, so the scan from `from` and the scan
/// from `upto` agree.
proof fn lemma_first_pressed_skip(keys: Seq<bool>, from: int, upto: int)
    requires
        0 <= from <= upto <= 16,
        forall|k: int| from <= k < upto ==> !keys[k],
    ensures
        first_pressed(keys, from) == first_pressed(keys, upto),
    decreases upto - from,
{
    if from < upto {
        lemma_first_pressed_skip(keys, from + 1, upto);
    }
}

/// With every key released, the scan finds nothing.
pub proof fn lemma_first_pressed_none(keys: Seq<bool>)
    requires
        forall|k: int| 0 <= k < 16 ==> !keys[k],
    ensures
        first_pressed(keys, 0) is None,
{
    lemma_first_pressed_skip(keys, 0, 16);
}

/// With `key` pressed and nothing below it, the scan finds exactly `key`.
pub proof fn lemma_first_pressed_finds(keys: Seq<bool>, key: u8)
    requires
        key < 16,
        keys[key as int],
        forall|k: int| 0 <= k < key ==> !keys[k],
    ensures
        first_pressed(keys, 0) == Some(key as int),
{
    lemma_first_pressed_skip(keys, 0, key as int);
}

/// With no key pressed, a full step of the wait-for-key instruction leaves
/// the machine exactly as it was — the captured register keeps its value
/// and the program counter does not advance past the instruction, so it
/// re-executes on every following step until a key is pressed.
pub proof fn lemma_wait_key_blocks(
    s: MachineView,
    x: u8,
    post: MachineView,
    r: Result<(), Fault>,
)
    requires
        s.wf(),
        s.pc as int + 1 < 4096,
        decode_spec(word_at(s.mem, s.pc)) == Some(Instr::WaitKey { x }),
        forall|k: int| 0 <= k < 16 ==> !s.keys[k],
        tick_spec(s, post, r),
    ensures
        r == Ok::<(), Fault>(()),
        post == s,
{
    let advanced = MachineView { pc: (s.pc + 2) as u16, ..s };
    lemma_first_pressed_none(s.keys);
    let rnd = choose|rnd: u8| instr_step(advanced, Instr::WaitKey { x }, rnd, post, r);
    assert(instr_step(advanced, Instr::WaitKey { x }, rnd, post, r));
    assert(instr_result(advanced, Instr::WaitKey { x }, rnd) is Ok);
    assert((instr_result(advanced, Instr::WaitKey { x }, rnd)->Ok_0) =~= s);
}

/// Once some key is pressed, the next step of the wait-for-key instruction
/// captures the lowest pressed key's index into Vx and advances normally.
pub proof fn lemma_wait_key_captures(
    s: MachineView,
    x: u8,
    key: u8,
    post: MachineView,
    r: Result<(), Fault>,
)
    requires
        s.wf(),
        s.pc as int + 1 < 4096,
        decode_spec(word_at(s.mem, s.pc)) == Some(Instr::WaitKey { x }),
        key < 16,
        s.keys[key as int],
        forall|k: int| 0 <= k < key ==> !s.keys[k],
        tick_spec(s, post, r),
    ensures
        r == Ok::<(), Fault>(()),
        post == (MachineView {
            pc: (s.pc + 2) as u16,
            v: s.v.update(x as int, key),
            ..s
        }),
{
    let advanced = MachineView { pc: (s.pc + 2) as u16, ..s };
    lemma_first_pressed_finds(s.keys, key);
    let rnd = choose|rnd: u8| instr_step(advanced, Instr::WaitKey { x }, rnd, post, r);
    assert(instr_step(advanced, Instr::WaitKey { x }, rnd, post, r));
    assert(instr_result(advanced, Instr::WaitKey { x }, rnd) is Ok);
    assert((instr_result(advanced, Instr::WaitKey { x }, rnd)->Ok_0) =~= (MachineView {
        pc: (s.pc + 2) as u16,
        v: s.v.update(x as int, key),
        ..s
    }));
}

// ---------------------------------------------------------------------------
// Draw idempotence.
// ---------------------------------------------------------------------------

/// Two integers with the same remainder modulo `m` that lie within `m` of
/// each other are equal.
proof fn lemma_mod_eq_small_diff(a: int, b: int, m: int)
    requires
        0 < m,
        a <= b,
        b - a < m,
        a % m == b % m,
    ensures
        a == b,
{
    vstd::arithmetic::div_mod::lemma_fundamental_div_mod(a, m);
    vstd::arithmetic::div_mod::lemma_fundamental_div_mod(b, m);
    let qa: int = a / m;
    let qb: int = b / m;
    assert(a == b) by (nonlinear_arith)
        requires
            0 < m,
            a <= b,
            b - a < m,
            a == m * qa + (a % m),
            b == m * qb + (b % m),
            a % m == b % m,
    ;
}

/// Distinct sprite bit positions hit distinct framebuffer cells: within one
/// draw of a sprite of at most 32 rows, no cell is toggled twice.
proof fn lemma_pixel_index_injective(dx: u8, dy: u8, c1: int, r1: int, c2: int, r2: int)
    requires
        0 <= c1 < 8,
        0 <= c2 < 8,
        0 <= r1 < 32,
        0 <= r2 < 32,
        !(c1 == c2 && r1 == r2),
    ensures
        pixel_index(dx, dy, c1, r1) != pixel_index(dx, dy, c2, r2),
{
    let px1: int = (dx + c1) % 64;
    let px2: int = (dx + c2) % 64;
    let py1: int = (dy + r1) % 32;
    let py2: int = (dy + r2) % 32;
    vstd::arithmetic::div_mod::lemma_mod_bound(dx + c1, 64);
    vstd::arithmetic::div_mod::lemma_mod_bound(dx + c2, 64);
    vstd::arithmetic::div_mod::lemma_mod_bound(dy + r1, 32);
    vstd::arithmetic::div_mod::lemma_mod_bound(dy + r2, 32);
    if pixel_index(dx, dy, c1, r1) == pixel_index(dx, dy, c2, r2) {
        assert(px1 + 64 * py1 == px2 + 64 * py2);
        assert(py1 == py2);
        assert(px1 == px2);
        if c1 < c2 {
            lemma_mod_eq_small_diff(dx + c1, dx + c2, 64);
        } else if c2 < c1 {
            lemma_mod_eq_small_diff(dx + c2, dx + c1, 64);
        }
        if r1 < r2 {
            lemma_mod_eq_small_diff(dy + r1, dy + r2, 32);
        } else if r2 < r1 {
            lemma_mod_eq_small_diff(dy + r2, dy + r1, 32);
        }
        assert(c1 == c2 && r1 == r2);
        assert(false);
    }
}

/// Whether one of the first `ncols` bits of a sprite row targets cell `i`.
pub open spec fn row_targets(row: u8, dx: u8, dy: u8, r: int, ncols: int, i: int) -> bool {
    exists|c: int| 0 <= c < ncols && sprite_bit(row, c) && pixel_index(dx, dy, c, r) == i
}

/// Whether one of the first `ncols` bits of a sprite row lands on a cell of
/// `screen` that is already lit.
pub open spec fn row_collides(
    screen: Seq<bool>,
    row: u8,
    dx: u8,
    dy: u8,
    r: int,
    ncols: int,
) -> bool {
    exists|c: int| 0 <= c < ncols && sprite_bit(row, c) && screen[pixel_index(dx, dy, c, r)]
}

/// Whether any set bit of the `n`-row sprite at `mem[index..]` targets
/// cell `i`.
pub open spec fn sprite_targets(
    mem: Seq<u8>,
    index: u16,
    dx: u8,
    dy: u8,
    n: int,
    i: int,
) -> bool {
    exists|r: int, c: int|
        0 <= r < n && 0 <= c < 8 && sprite_bit(mem[index + r], c) && pixel_index(dx, dy, c, r)
            == i
}

/// Whether any set bit of the `n`-row sprite at `mem[index..]` lands on a
/// cell of `screen` that is already lit.
pub open spec fn sprite_collides(
    screen: Seq<bool>,
    mem: Seq<u8>,
    index: u16,
    dx: u8,
    dy: u8,
    n: int,
) -> bool {
    exists|r: int, c: int|
        0 <= r < n && 0 <= c < 8 && sprite_bit(mem[index + r], c) && screen[pixel_index(
            dx,
            dy,
            c,
            r,
        )]
}

/// Blitting one sprite row toggles exactly the cells its set bits target,
/// and collides exactly when a set bit lands on a lit cell.
proof fn lemma_draw_row_pointwise(screen: Seq<bool>, row: u8, dx: u8, dy: u8, r: int, ncols: int)
    requires
        screen.len() == 2048,
        0 <= r < 32,
        0 <= ncols <= 8,
    ensures
        ({
            let (scr, col) = draw_row(screen, row, dx, dy, r, ncols);
            &&& scr.len() == 2048
            &&& (forall|i: int|
                0 <= i < 2048 ==> scr[i] == (if row_targets(row, dx, dy, r, ncols, i) {
                    !screen[i]
                } else {
                    screen[i]
                }))
            &&& col == row_collides(screen, row, dx, dy, r, ncols)
        }),
    decreases ncols,
{
    if ncols > 0 {
        lemma_draw_row_pointwise(screen, row, dx, dy, r, ncols - 1);
        let (scr1, col1) = draw_row(screen, row, dx, dy, r, ncols - 1);
        let (scr, col) = draw_row(screen, row, dx, dy, r, ncols);
        let c0: int = ncols - 1;
        if sprite_bit(row, c0) {
            let idx0: int = pixel_index(dx, dy, c0, r);
            vstd::arithmetic::div_mod::lemma_mod_bound(dx + c0, 64);
            vstd::arithmetic::div_mod::lemma_mod_bound(dy + r, 32);
            assert(0 <= idx0 < 2048);
            assert(!row_targets(row, dx, dy, r, c0, idx0)) by {
                if row_targets(row, dx, dy, r, c0, idx0) {
                    let cw = choose|c: int|
                        0 <= c < c0 && sprite_bit(row, c) && pixel_index(dx, dy, c, r) == idx0;
                    lemma_pixel_index_injective(dx, dy, cw, r, c0, r);
                }
            }
            assert(scr1[idx0] == screen[idx0]);
            assert forall|i: int| 0 <= i < 2048 implies scr[i] == (if row_targets(
                row,
                dx,
                dy,
                r,
                ncols,
                i,
            ) {
                !screen[i]
            } else {
                screen[i]
            }) by {
                if i == idx0 {
                    assert(row_targets(row, dx, dy, r, ncols, idx0));
                } else {
                    if row_targets(row, dx, dy, r, ncols, i) {
                        let cw = choose|c: int|
                            0 <= c < ncols && sprite_bit(row, c) && pixel_index(dx, dy, c, r)
                                == i;
                        assert(cw != c0);
                        assert(row_targets(row, dx, dy, r, c0, i));
                    }
                    if row_targets(row, dx, dy, r, c0, i) {
                        assert(row_targets(row, dx, dy, r, ncols, i));
                    }
                }
            }
            assert(col == row_collides(screen, row, dx, dy, r, ncols)) by {
                if col1 {
                    let cw = choose|c: int|
                        0 <= c < c0 && sprite_bit(row, c) && screen[pixel_index(dx, dy, c, r)];
                    assert(row_collides(screen, row, dx, dy, r, ncols));
                }
                if scr1[idx0] {
                    assert(screen[idx0]);
                    assert(row_collides(screen, row, dx, dy, r, ncols));
                }
                if row_collides(screen, row, dx, dy, r, ncols) {
                    let cw = choose|c: int|
                        0 <= c < ncols && sprite_bit(row, c) && screen[pixel_index(dx, dy, c, r)];
                    if cw == c0 {
                        assert(scr1[idx0]);
                    } else {
                        assert(row_collides(screen, row, dx, dy, r, c0));
                    }
                }
            }
        } else {
            assert forall|i: int| 0 <= i < 2048 implies scr[i] == (if row_targets(
                row,
                dx,
                dy,
                r,
                ncols,
                i,
            ) {
                !screen[i]
            } else {
                screen[i]
            }) by {
                if row_targets(row, dx, dy, r, ncols, i) {
                    let cw = choose|c: int|
                        0 <= c < ncols && sprite_bit(row, c) && pixel_index(dx, dy, c, r) == i;
                    assert(cw != c0);
                    assert(row_targets(row, dx, dy, r, c0, i));
                }
                if row_targets(row, dx, dy, r, c0, i) {
                    assert(row_targets(row, dx, dy, r, ncols, i));
                }
            }
            assert(col == row_collides(screen, row, dx, dy, r, ncols)) by {
                if col1 {
                    let cw = choose|c: int|
                        0 <= c < c0 && sprite_bit(row, c) && screen[pixel_index(dx, dy, c, r)];
                    assert(row_collides(screen, row, dx, dy, r, ncols));
                }
                if row_collides(screen, row, dx, dy, r, ncols) {
                    let cw = choose|c: int|
                        0 <= c < ncols && sprite_bit(row, c) && screen[pixel_index(dx, dy, c, r)];
                    assert(cw != c0);
                    assert(row_collides(screen, row, dx, dy, r, c0));
                }
            }
        }
    }
}

/// Blitting a whole sprite toggles exactly the cells its set bits target,
/// and collides exactly when some set bit lands on a lit cell.
proof fn lemma_draw_sprite_pointwise(
    screen: Seq<bool>,
    mem: Seq<u8>,
    index: u16,
    dx: u8,
    dy: u8,
    n: int,
)
    requires
        screen.len() == 2048,
        0 <= n < 16,
    ensures
        ({
            let (scr, col) = draw_sprite(screen, mem, index, dx, dy, n);
            &&& scr.len() == 2048
            &&& (forall|i: int|
                0 <= i < 2048 ==> scr[i] == (if sprite_targets(mem, index, dx, dy, n, i) {
                    !screen[i]
                } else {
                    screen[i]
                }))
            &&& col == sprite_collides(screen, mem, index, dx, dy, n)
        }),
    decreases n,
{
    if n > 0 {
        lemma_draw_sprite_pointwise(screen, mem, index, dx, dy, n - 1);
        let (scr1, col1) = draw_sprite(screen, mem, index, dx, dy, n - 1);
        let r0: int = n - 1;
        let rowb: u8 = mem[index + r0];
        lemma_draw_row_pointwise(scr1, rowb, dx, dy, r0, 8);
        let (scr2, colr) = draw_row(scr1, rowb, dx, dy, r0, 8);
        let (scr, col) = draw_sprite(screen, mem, index, dx, dy, n);
        assert(scr == scr2 && col == (col1 || colr));
        // A cell hit by row r0 is hit by no earlier row, so the earlier rows
        // leave it as the original screen had it.
        assert forall|c: int|
            0 <= c < 8 && sprite_bit(rowb, c) implies !sprite_targets(
            mem,
            index,
            dx,
            dy,
            n - 1,
            pixel_index(dx, dy, c, r0),
        ) by {
            if sprite_targets(mem, index, dx, dy, n - 1, pixel_index(dx, dy, c, r0)) {
                let (rw, cw) = choose|rr: int, cc: int|
                    0 <= rr < n - 1 && 0 <= cc < 8 && sprite_bit(mem[index + rr], cc)
                        && pixel_index(dx, dy, cc, rr) == pixel_index(dx, dy, c, r0);
                lemma_pixel_index_injective(dx, dy, cw, rw, c, r0);
            }
        }
        assert forall|i: int| 0 <= i < 2048 implies scr[i] == (if sprite_targets(
            mem,
            index,
            dx,
            dy,
            n,
            i,
        ) {
            !screen[i]
        } else {
            screen[i]
        }) by {
            if row_targets(rowb, dx, dy, r0, 8, i) {
                let cw = choose|c: int|
                    0 <= c < 8 && sprite_bit(rowb, c) && pixel_index(dx, dy, c, r0) == i;
                assert(!sprite_targets(mem, index, dx, dy, n - 1, i));
                assert(scr1[i] == screen[i]);
                assert(scr[i] == !screen[i]);
                assert(sprite_targets(mem, index, dx, dy, n, i));
            } else {
                assert(scr[i] == scr1[i]);
                if sprite_targets(mem, index, dx, dy, n, i) {
                    let (rw, cw) = choose|rr: int, cc: int|
                        0 <= rr < n && 0 <= cc < 8 && sprite_bit(mem[index + rr], cc)
                            && pixel_index(dx, dy, cc, rr) == i;
                    assert(rw != r0);
                    assert(sprite_targets(mem, index, dx, dy, n - 1, i));
                }
                if sprite_targets(mem, index, dx, dy, n - 1, i) {
                    assert(sprite_targets(mem, index, dx, dy, n, i));
                }
            }
        }
        assert(col == sprite_collides(screen, mem, index, dx, dy, n)) by {
            if col1 {
                let (rw, cw) = choose|rr: int, cc: int|
                    0 <= rr < n - 1 && 0 <= cc < 8 && sprite_bit(mem[index + rr], cc)
                        && screen[pixel_index(dx, dy, cc, rr)];
                assert(sprite_collides(screen, mem, index, dx, dy, n));
            }
            if colr {
                let cw = choose|c: int|
                    0 <= c < 8 && sprite_bit(rowb, c) && scr1[pixel_index(dx, dy, c, r0)];
                vstd::arithmetic::div_mod::lemma_mod_bound(dx + cw, 64);
                vstd::arithmetic::div_mod::lemma_mod_bound(dy + r0, 32);
                assert(scr1[pixel_index(dx, dy, cw, r0)] == screen[pixel_index(dx, dy, cw, r0)]);
                assert(sprite_collides(screen, mem, index, dx, dy, n));
            }
            if sprite_collides(screen, mem, index, dx, dy, n) {
                let (rw, cw) = choose|rr: int, cc: int|
                    0 <= rr < n && 0 <= cc < 8 && sprite_bit(mem[index + rr], cc)
                        && screen[pixel_index(dx, dy, cc, rr)];
                if rw == r0 {
                    vstd::arithmetic::div_mod::lemma_mod_bound(dx + cw, 64);
                    vstd::arithmetic::div_mod::lemma_mod_bound(dy + r0, 32);
                    assert(scr1[pixel_index(dx, dy, cw, r0)] == screen[pixel_index(
                        dx,
                        dy,
                        cw,
                        r0,
                    )]);
                    assert(colr);
                } else {
                    assert(sprite_collides(screen, mem, index, dx, dy, n - 1));
                }
            }
        }
    }
}

/// Drawing the same sprite twice at the same coordinates restores the
/// framebuffer to its pre-draw state (XOR is self-inverse), and — provided
/// some set sprite bit targets a cell that was unlit before the first draw
/// — the second draw reports a collision in VF.
pub proof fn lemma_double_draw(s: MachineView, x: u8, y: u8, n: u8)
    requires
        s.wf(),
        x < 16,
        y < 16,
        n < 16,
        x != 15,
        y != 15,
        s.index + n <= 4096,
    ensures
        ({
            let r1 = instr_result(s, Instr::Draw { x, y, n }, 0);
            let r2 = instr_result(r1->Ok_0, Instr::Draw { x, y, n }, 0);
            &&& r1 is Ok
            &&& r2 is Ok
            &&& (r2->Ok_0).screen =~= s.screen
            &&& (exists|r: int, c: int|
                0 <= r < n && 0 <= c < 8 && sprite_bit(s.mem[s.index + r], c)
                    && !s.screen[pixel_index(s.v[x as int], s.v[y as int], c, r)]) ==> (
            r2->Ok_0).v[15] == 1
        }),
{
    let dx: u8 = s.v[x as int];
    let dy: u8 = s.v[y as int];
    lemma_draw_sprite_pointwise(s.screen, s.mem, s.index, dx, dy, n as int);
    let s1 = instr_result(s, Instr::Draw { x, y, n }, 0)->Ok_0;
    assert(s1.screen.len() == 2048);
    lemma_draw_sprite_pointwise(s1.screen, s.mem, s.index, dx, dy, n as int);
    let s2 = instr_result(s1, Instr::Draw { x, y, n }, 0)->Ok_0;
    assert forall|i: int| 0 <= i < 2048 implies s2.screen[i] == s.screen[i] by {
        if sprite_targets(s.mem, s.index, dx, dy, n as int, i) {
            assert(s1.screen[i] == !s.screen[i]);
            assert(s2.screen[i] == !s1.screen[i]);
        }
    }
    assert(s2.screen =~= s.screen);
    if exists|r: int, c: int|
        0 <= r < n && 0 <= c < 8 && sprite_bit(s.mem[s.index + r], c) && !s.screen[pixel_index(
            dx,
            dy,
            c,
            r,
        )] {
        let (rw, cw) = choose|r: int, c: int|
            0 <= r < n && 0 <= c < 8 && sprite_bit(s.mem[s.index + r], c)
                && !s.screen[pixel_index(dx, dy, c, r)];
        assert(sprite_collides(s1.screen, s.mem, s.index, dx, dy, n as int)) by {
            vstd::arithmetic::div_mod::lemma_mod_bound(dx + cw, 64);
            vstd::arithmetic::div_mod::lemma_mod_bound(dy + rw, 32);
            assert(sprite_targets(s.mem, s.index, dx, dy, n as int, pixel_index(dx, dy, cw, rw)));
            assert(s1.screen[pixel_index(dx, dy, cw, rw)]);
        }
        assert(s2.v[15] == 1);
    }
}

} // verus!
