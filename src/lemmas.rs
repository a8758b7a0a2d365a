use vstd::prelude::*;
use crate::chip8::{collides, drawn, exec_spec, lemma_pixel_at, pixel_at, sprite_bit, hits, tick, Chip8View, MEM_SIZE, SCREEN_HEIGHT, SCREEN_WIDTH, STACK_SIZE};
use crate::error::ErrorKind;
use crate::inst::Instruction;

verus! {

/// The conditional-skip instructions.
pub open spec fn is_skip(inst: Instruction) -> bool {
    match inst {
        Instruction::I3XKK(..) | Instruction::I4XKK(..) | Instruction::I5XY0(..)
        | Instruction::I9XY0(..) | Instruction::IEX9E(..) | Instruction::IEXA1(..) => true,
        _ => false,
    }
}

/// Whether a conditional skip's condition holds in `s`.
pub open spec fn skip_condition(s: Chip8View, inst: Instruction) -> bool {
    match inst {
        Instruction::I3XKK(x, kk) => s.reg(x) == kk,
        Instruction::I4XKK(x, kk) => s.reg(x) != kk,
        Instruction::I5XY0(x, y) => s.reg(x) == s.reg(y),
        Instruction::I9XY0(x, y) => s.reg(x) != s.reg(y),
        Instruction::IEX9E(x) => s.keys[(s.reg(x) % 16) as int],
        Instruction::IEXA1(x) => !s.keys[(s.reg(x) % 16) as int],
        _ => false,
    }
}

/// A conditional skip changes only the program counter: by 4 when its
/// condition holds, by 2 otherwise.
pub proof fn lemma_skip_advance(s: Chip8View, inst: Instruction, rnd: u8)
    requires
        s.wf(),
        inst.wf(),
        is_skip(inst),
        s.pc + 1 < MEM_SIZE,
    ensures
        exec_spec(s, inst, rnd) matches Ok(t) && t == s.with_pc(
            if skip_condition(s, inst) { s.pc + 4 } else { s.pc + 2 },
        ),
{
}

/// Register addition sets the flag to 1 exactly when the unsigned sum exceeds
/// 255; both subtractions set it to 1 exactly when no borrow occurs. The
/// flag is written after the result.
pub proof fn lemma_arith_flags(s: Chip8View, x: u8, y: u8, rnd: u8)
    requires
        s.wf(),
        x < 16,
        y < 16,
    ensures
        exec_spec(s, Instruction::I8XY4(x, y), rnd) matches Ok(t)
            && t.reg(15) == (if s.reg(x) + s.reg(y) > 255 { 1u8 } else { 0u8 })
            && (x != 15 ==> t.reg(x) == (s.reg(x) + s.reg(y)) % 256),
        exec_spec(s, Instruction::I8XY5(x, y), rnd) matches Ok(t)
            && t.reg(15) == (if s.reg(x) >= s.reg(y) { 1u8 } else { 0u8 })
            && (x != 15 ==> t.reg(x) == (s.reg(x) - s.reg(y) + 256) % 256),
        exec_spec(s, Instruction::I8XY7(x, y), rnd) matches Ok(t)
            && t.reg(15) == (if s.reg(y) >= s.reg(x) { 1u8 } else { 0u8 })
            && (x != 15 ==> t.reg(x) == (s.reg(y) - s.reg(x) + 256) % 256),
{
}

/// The state after making the calls to `addrs` in turn, starting from `s`.
pub open spec fn calls(s: Chip8View, addrs: Seq<u16>) -> Result<Chip8View, ErrorKind>
    decreases addrs.len(),
{
    if addrs.len() == 0 {
        Ok(s)
    } else {
        match calls(s, addrs.drop_last()) {
            Ok(t) => exec_spec(t, Instruction::I2NNN(addrs.last()), 0),
            Err(e) => Err(e),
        }
    }
}

/// The state after `k` returns from `s`.
pub open spec fn unwind(s: Chip8View, k: nat) -> Result<Chip8View, ErrorKind>
    decreases k,
{
    if k == 0 {
        Ok(s)
    } else {
        match unwind(s, (k - 1) as nat) {
            Ok(t) => exec_spec(t, Instruction::I00EE, 0),
            Err(e) => Err(e),
        }
    }
}

/// Calls to 12-bit addresses that fit in the stack all succeed; each pushes
/// the address after its call site and changes nothing but the stack and
/// the program counter.
pub proof fn lemma_calls(s: Chip8View, addrs: Seq<u16>)
    requires
        s.wf(),
        s.pc < MEM_SIZE,
        s.stack.len() + addrs.len() <= STACK_SIZE,
        forall|k: int| 0 <= k < addrs.len() ==> addrs[k] < MEM_SIZE,
    ensures
        calls(s, addrs) matches Ok(t) && t.wf() && t.pc < MEM_SIZE
            && t.stack.len() == s.stack.len() + addrs.len()
            && t.stack.subrange(0, s.stack.len() as int) == s.stack
            && t.pc == (if addrs.len() == 0 { s.pc } else { addrs.last() })
            && t == (Chip8View { stack: t.stack, pc: t.pc, ..s }),
    decreases addrs.len(),
{
    if addrs.len() > 0 {
        lemma_calls(s, addrs.drop_last());
        let t = calls(s, addrs.drop_last())->Ok_0;
        let u = calls(s, addrs)->Ok_0;
        assert(u.stack.subrange(0, s.stack.len() as int) =~= t.stack.subrange(0, s.stack.len() as int));
    }
}

/// Each return undoes the latest call: `k` returns after `n` nested calls
/// land just after the call site of call `n - k`, with the stack as it was
/// before that call. After `n` returns the machine is back after the first
/// call site with its stack as at the start; a further call with the stack
/// full overflows.
pub proof fn lemma_call_return_round_trip(s: Chip8View, addrs: Seq<u16>, k: nat, a: u16)
    requires
        s.wf(),
        s.pc < MEM_SIZE,
        s.stack.len() + addrs.len() <= STACK_SIZE,
        forall|j: int| 0 <= j < addrs.len() ==> addrs[j] < MEM_SIZE,
        k <= addrs.len(),
    ensures
        k > 0 ==> (calls(s, addrs) matches Ok(t)
            && calls(s, addrs.take(addrs.len() - k)) matches Ok(u)
            && unwind(t, k) == Ok::<Chip8View, ErrorKind>(u.with_pc(u.pc + 2))),
        s.stack.len() + addrs.len() == STACK_SIZE ==> (calls(s, addrs) matches Ok(t)
            && exec_spec(t, Instruction::I2NNN(a), 0) == Err::<Chip8View, ErrorKind>(ErrorKind::StackOverflow)),
    decreases k,
{
    let n = addrs.len();
    lemma_calls(s, addrs);
    assert(addrs.take(n as int) =~= addrs);
    if k > 0 {
        let j = n - k;
        lemma_calls(s, addrs.take(j));
        lemma_calls(s, addrs.take(j + 1));
        assert(addrs.take(j + 1).drop_last() =~= addrs.take(j));
        let u = calls(s, addrs.take(j))->Ok_0;
        let v = calls(s, addrs.take(j + 1))->Ok_0;
        assert(v.stack =~= u.stack.push((u.pc + 2) as u16));
        assert(v.stack.drop_last() =~= u.stack);
        if k == 1 {
            assert(unwind(calls(s, addrs)->Ok_0, 0) == Ok::<Chip8View, ErrorKind>(v));
        } else {
            lemma_call_return_round_trip(s, addrs, (k - 1) as nat, a);
            assert(addrs.take(n - (k - 1)) =~= addrs.take(j + 1));
        }
        assert(exec_spec(v.with_pc(v.pc + 2), Instruction::I00EE, 0) == Ok::<Chip8View, ErrorKind>(u.with_pc(u.pc + 2)));
    }
}

/// The three decimal digits of a byte, most significant first, recombine to it.
pub proof fn lemma_bcd_digits(v: u8)
    ensures
        v / 100 < 10,
        v / 10 % 10 < 10,
        v % 10 < 10,
        100 * (v / 100) + 10 * (v / 10 % 10) + v % 10 == v,
{
}

/// The BCD store writes the hundreds, tens and ones of the register at the
/// index register and the two addresses after it, and changes no other byte.
pub proof fn lemma_bcd_store(s: Chip8View, x: u8, rnd: u8)
    requires
        s.wf(),
        x < 16,
        s.i + 3 <= MEM_SIZE,
    ensures
        exec_spec(s, Instruction::IFX33(x), rnd) matches Ok(t)
            && t.mem[s.i as int] == s.reg(x) / 100
            && t.mem[s.i + 1] == s.reg(x) / 10 % 10
            && t.mem[s.i + 2] == s.reg(x) % 10
            && forall|a: int| 0 <= a < MEM_SIZE && (a < s.i || a > s.i + 2) ==> t.mem[a] == s.mem[a],
{
}

/// A draw reports a collision exactly when it turns some set pixel off.
pub proof fn lemma_collision_iff_cleared(screen: Seq<bool>, rows: Seq<u8>, vx: u8, vy: u8)
    requires
        screen.len() == SCREEN_WIDTH * SCREEN_HEIGHT,
        rows.len() < 16,
    ensures
        collides(screen, rows, vx, vy) <==> exists|p: int|
            0 <= p < screen.len() && screen[p] && !(#[trigger] drawn(screen, rows, vx, vy)[p]),
{
    let d = drawn(screen, rows, vx, vy);
    if collides(screen, rows, vx, vy) {
        let (r, c) = choose|r: int, c: int|
            0 <= r < rows.len() && 0 <= c < 8 && sprite_bit(rows[r], c)
                && screen[#[trigger] pixel_at(vx, vy, r, c)];
        lemma_pixel_at(vx, vy, r, c, 0, 0);
        let p = pixel_at(vx, vy, r, c);
        assert(hits(rows, vx, vy, p));
        assert(screen[p] && !d[p]);
    }
    if exists|p: int| 0 <= p < screen.len() && screen[p] && !(#[trigger] d[p]) {
        let p = choose|p: int| 0 <= p < screen.len() && screen[p] && !(#[trigger] d[p]);
        assert(hits(rows, vx, vy, p));
        let (r, c) = choose|r: int, c: int|
            0 <= r < rows.len() && 0 <= c < 8 && #[trigger] pixel_at(vx, vy, r, c) == p
                && sprite_bit(rows[r], c);
        assert(screen[pixel_at(vx, vy, r, c)]);
    }
}

/// Drawing a sprite twice at one place restores the screen, and the second
/// draw reports a collision exactly when the first turned some pixel on.
pub proof fn lemma_draw_twice(screen: Seq<bool>, rows: Seq<u8>, vx: u8, vy: u8)
    requires
        screen.len() == SCREEN_WIDTH * SCREEN_HEIGHT,
        rows.len() < 16,
    ensures
        drawn(drawn(screen, rows, vx, vy), rows, vx, vy) == screen,
        collides(drawn(screen, rows, vx, vy), rows, vx, vy) <==> exists|p: int|
            0 <= p < screen.len() && !screen[p] && #[trigger] drawn(screen, rows, vx, vy)[p],
{
    let d = drawn(screen, rows, vx, vy);
    assert(drawn(d, rows, vx, vy) =~= screen);
    lemma_collision_iff_cleared(d, rows, vx, vy);
    if exists|p: int| 0 <= p < screen.len() && !screen[p] && #[trigger] d[p] {
        let p = choose|p: int| 0 <= p < screen.len() && !screen[p] && #[trigger] d[p];
        assert(!drawn(d, rows, vx, vy)[p]);
    }
    if exists|p: int| 0 <= p < d.len() && d[p] && !(#[trigger] drawn(d, rows, vx, vy)[p]) {
        let p = choose|p: int| 0 <= p < d.len() && d[p] && !(#[trigger] drawn(d, rows, vx, vy)[p]);
        assert(!screen[p]);
    }
}

/// Executing the same draw instruction twice leaves the screen as it was;
/// the first sets the flag exactly when it turned a set pixel off, the
/// second exactly when the first turned some pixel on.
pub proof fn lemma_draw_instruction_twice(s: Chip8View, x: u8, y: u8, n: u8, rnd: u8)
    requires
        s.wf(),
        x < 15,
        y < 15,
        n < 16,
        s.i + n <= MEM_SIZE,
    ensures
        exec_spec(s, Instruction::IDXYN(x, y, n), rnd) matches Ok(t)
            && exec_spec(t, Instruction::IDXYN(x, y, n), rnd) matches Ok(u)
            && u.screen == s.screen
            && (t.reg(15) == 1 <==> exists|p: int| 0 <= p < s.screen.len() && s.screen[p] && !(#[trigger] t.screen[p]))
            && (u.reg(15) == 1 <==> exists|p: int| 0 <= p < s.screen.len() && !s.screen[p] && #[trigger] t.screen[p]),
{
    let rows = s.mem.subrange(s.i as int, s.i + n);
    let (vx, vy) = (s.reg(x), s.reg(y));
    lemma_collision_iff_cleared(s.screen, rows, vx, vy);
    lemma_draw_twice(s.screen, rows, vx, vy);
    let t = exec_spec(s, Instruction::IDXYN(x, y, n), rnd)->Ok_0;
    assert(t.reg(x) == vx && t.reg(y) == vy);
}

/// A timer after `n` ticks.
pub open spec fn ticks(t: u8, n: nat) -> u8
    decreases n,
{
    if n == 0 { t } else { tick(ticks(t, (n - 1) as nat)) }
}

/// Ticking counts a timer down to zero and holds it there: it never wraps.
pub proof fn lemma_ticks(t: u8, n: nat)
    ensures
        ticks(t, n) == (if n >= t { 0 } else { t - n }),
    decreases n,
{
    if n > 0 {
        lemma_ticks(t, (n - 1) as nat);
    }
}

} // verus!
