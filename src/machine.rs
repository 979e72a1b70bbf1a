use vstd::prelude::*;

use crate::decode::{decode_spec, Decoded};
use crate::display::{collides, color, covers, drawn, pixel_at, COLOR_OFF};
use crate::keypad::{key_code, key_pressed, Key};

verus! {

/// Number of addressable bytes.
pub const MEMORY_SIZE: usize = 4096;

/// Address of the built-in font.
pub const FONT_MEMORY_OFFSET: usize = 0;

/// Address that programs are loaded at and start from.
pub const PROGRAM_MEMORY_OFFSET: usize = 512;

/// The flag register: carry of shifts and collision of draws.
pub const FLAG_REGISTER: usize = 15;

/// What a step of the machine asks of its host.
#[derive(Debug, Clone, Copy, PartialEq, Eq, Structural)]
pub enum Event {
    /// Nothing: go on.
    Continue,
    /// The display changed: present it.
    Redraw,
    /// A key is awaited and none is pressed: present the display and run
    /// the same instruction again.
    AwaitingKey,
}

/// A condition that stops the machine. It leaves the machine as it was
/// before the instruction.
#[derive(Debug, Clone, Copy, PartialEq, Eq, Structural)]
pub enum Fault {
    /// The word encodes no operation.
    IllegalOpcode(u16),
    /// A return with an empty call stack.
    StackUnderflow,
}

/// The state of the machine that instructions read and write.
pub ghost struct ChipState {
    pub pc: u16,
    pub i: u16,
    pub v: Seq<u8>,
    pub memory: Seq<u8>,
    pub stack: Seq<u16>,
    pub display: Seq<bool>,
}

/// Sizes are fixed, and every address that the program counter can take is
/// in memory.
pub open spec fn state_wf(s: ChipState) -> bool {
    &&& s.v.len() == 16
    &&& s.memory.len() == 4096
    &&& s.display.len() == 2048
    &&& s.pc < 4096
    &&& in_memory(s.stack)
}

/// Every address of `stack` is in memory.
pub open spec fn in_memory(stack: Seq<u16>) -> bool {
    forall|k: int| 0 <= k < stack.len() ==> #[trigger] stack[k] < 4096
}

/// The address `k` bytes past `base`, wrapped to memory.
pub open spec fn wrap(base: int, k: int) -> int {
    (base + k) % 4096
}

pub open spec fn with_reg(s: ChipState, x: int, val: u8) -> ChipState {
    ChipState { v: s.v.update(x, val), ..s }
}

pub open spec fn with_pc(s: ChipState, pc: int) -> ChipState {
    ChipState { pc: pc as u16, ..s }
}

/// Skips the next instruction when `cond` holds.
pub open spec fn skip_if(s: ChipState, cond: bool) -> ChipState {
    if cond {
        with_pc(s, wrap(s.pc as int, 2))
    } else {
        s
    }
}

/// `mem` with `count` registers of `regs` written from `base` on, in order.
pub open spec fn stored(mem: Seq<u8>, base: int, regs: Seq<u8>, count: nat) -> Seq<u8>
    decreases count,
{
    if count == 0 {
        mem
    } else {
        stored(mem, base, regs, (count - 1) as nat).update(
            wrap(base, count - 1),
            regs[count - 1],
        )
    }
}

/// `regs` with the first `count` registers read from memory at `base` on.
pub open spec fn loaded(regs: Seq<u8>, base: int, mem: Seq<u8>, count: int) -> Seq<u8> {
    Seq::new(regs.len(), |j: int| if j < count { mem[wrap(base, j)] } else { regs[j] })
}

/// The decimal digits of `b`, most significant first.
pub open spec fn bcd(b: u8) -> Seq<u8> {
    seq![(b / 100) as u8, ((b / 10) % 10) as u8, (b % 10) as u8]
}

/// `mem` with `bytes` written from `base` on (no wrapping).
pub open spec fn written(mem: Seq<u8>, base: int, bytes: Seq<u8>) -> Seq<u8> {
    Seq::new(
        mem.len(),
        |a: int|
            if base <= a < base + bytes.len() {
                bytes[a - base]
            } else {
                mem[a]
            },
    )
}

/// The `n` sprite rows that a draw reads, from the index register on.
pub open spec fn sprite_of(s: ChipState, n: int) -> Seq<u8> {
    Seq::new(n as nat, |r: int| s.memory[wrap(s.i as int, r)])
}

/// Shift right through the flag: the source register is copied to the
/// destination, the flag gets its low bit, and the destination is shifted.
pub open spec fn shift_right(s: ChipState, x: int, y: int) -> ChipState {
    let s1 = with_reg(s, x, s.v[y]);
    let s2 = with_reg(s1, 15, s1.v[x] & 1);
    with_reg(s2, x, s2.v[x] >> 1u8)
}

/// Shift left through the flag: the source register is copied to the
/// destination, the flag gets its high bit, and the destination is shifted.
pub open spec fn shift_left(s: ChipState, x: int, y: int) -> ChipState {
    let s1 = with_reg(s, x, s.v[y]);
    let s2 = with_reg(s1, 15, s1.v[x] >> 7u8);
    with_reg(s2, x, s2.v[x] << 1u8)
}

/// Draws `n` rows of sprite at (V[x] mod 64, V[y] mod 32); the flag tells
/// whether a lit pixel was turned off.
pub open spec fn draw_op(s: ChipState, x: int, y: int, n: int) -> ChipState {
    let ox = (s.v[x] % 64) as int;
    let oy = (s.v[y] % 32) as int;
    let sprite = sprite_of(s, n);
    let hit = collides(s.display, ox, oy, sprite);
    ChipState {
        display: drawn(s.display, ox, oy, sprite),
        v: s.v.update(15, if hit { 1u8 } else { 0u8 }),
        ..s
    }
}

/// The effect of executing `op` on `s` (whose program counter already
/// points past the instruction), with `keys` pressed, `random` drawn for a
/// random instruction and `delay` read from the delay timer. On a fault the
/// state is unchanged.
pub open spec fn next(s: ChipState, op: Decoded, keys: Seq<Key>, random: u8, delay: u8) -> (
    ChipState,
    Result<Event, Fault>,
) {
    let ok = Ok(Event::Continue);
    match op {
        Decoded::Add(x, nn) => (with_reg(s, x as int, ((s.v[x as int] + nn) % 256) as u8), ok),
        Decoded::AddIndex(x) => (
            ChipState { i: ((s.i + s.v[x as int]) % 65536) as u16, ..s },
            ok,
        ),
        Decoded::AddXY(x, y) => (
            with_reg(s, x as int, ((s.v[x as int] + s.v[y as int]) % 256) as u8),
            ok,
        ),
        Decoded::And(x, y) => (with_reg(s, x as int, s.v[x as int] & s.v[y as int]), ok),
        Decoded::Call(nnn) => (ChipState { stack: s.stack.push(s.pc), pc: nnn, ..s }, ok),
        Decoded::ClearScreen => (
            ChipState { display: Seq::new(2048, |k: int| false), ..s },
            Ok(Event::Redraw),
        ),
        Decoded::Decimal(x) => {
            let d = bcd(s.v[x as int]);
            let m = s.memory.update(wrap(s.i as int, 0), d[0]).update(
                wrap(s.i as int, 1),
                d[1],
            ).update(wrap(s.i as int, 2), d[2]);
            (ChipState { memory: m, ..s }, ok)
        },
        Decoded::DelayTimerGet(x) => (with_reg(s, x as int, delay), ok),
        Decoded::DelayTimerSet(_) => (s, ok),
        Decoded::Draw(x, y, n) => (draw_op(s, x as int, y as int, n as int), Ok(Event::Redraw)),
        Decoded::FontChar(x) => (
            ChipState { i: (5 * (s.v[x as int] % 16) + FONT_MEMORY_OFFSET) as u16, ..s },
            ok,
        ),
        Decoded::GetKey(x) => if keys.len() > 0 {
            (with_reg(s, x as int, key_code(keys[0])), ok)
        } else {
            (with_pc(s, wrap(s.pc as int, 4094)), Ok(Event::AwaitingKey))
        },
        Decoded::Jump(nnn) => (with_pc(s, nnn as int), ok),
        Decoded::Load(x) => (
            ChipState { v: loaded(s.v, s.i as int, s.memory, x + 1), ..s },
            ok,
        ),
        Decoded::Move(x, nn) => (with_reg(s, x as int, nn), ok),
        Decoded::MoveIndex(nnn) => (ChipState { i: nnn, ..s }, ok),
        Decoded::MoveXY(x, y) => (with_reg(s, x as int, s.v[y as int]), ok),
        Decoded::Or(x, y) => (with_reg(s, x as int, s.v[x as int] | s.v[y as int]), ok),
        Decoded::Random(x, nn) => (with_reg(s, x as int, random & nn), ok),
        Decoded::Return => if s.stack.len() == 0 {
            (s, Err(Fault::StackUnderflow))
        } else {
            (ChipState { pc: s.stack.last(), stack: s.stack.drop_last(), ..s }, ok)
        },
        Decoded::SetSoundTimer(_) => (s, ok),
        Decoded::ShiftLeft(x, y) => (shift_left(s, x as int, y as int), ok),
        Decoded::ShiftRight(x, y) => (shift_right(s, x as int, y as int), ok),
        Decoded::SkipEqual(x, nn) => (skip_if(s, s.v[x as int] == nn), ok),
        Decoded::SkipEqualXY(x, y) => (skip_if(s, s.v[x as int] == s.v[y as int]), ok),
        Decoded::SkipKey(x) => (skip_if(s, key_pressed(keys, s.v[x as int])), ok),
        Decoded::SkipNotEqual(x, nn) => (skip_if(s, s.v[x as int] != nn), ok),
        Decoded::SkipNotEqualXY(x, y) => (skip_if(s, s.v[x as int] != s.v[y as int]), ok),
        Decoded::SkipNotKey(x) => (skip_if(s, !key_pressed(keys, s.v[x as int])), ok),
        Decoded::Store(x) => (
            ChipState { memory: stored(s.memory, s.i as int, s.v, (x + 1) as nat), ..s },
            ok,
        ),
        Decoded::SubXY(x, y) => (
            with_reg(s, x as int, ((s.v[x as int] - s.v[y as int]) % 256) as u8),
            ok,
        ),
        Decoded::SubYX(x, y) => (
            with_reg(s, x as int, ((s.v[y as int] - s.v[x as int]) % 256) as u8),
            ok,
        ),
        Decoded::Xor(x, y) => (with_reg(s, x as int, s.v[x as int] ^ s.v[y as int]), ok),
        Decoded::Illegal(w) => (s, Err(Fault::IllegalOpcode(w))),
    }
}

/// The instruction word at the program counter, high byte first.
pub open spec fn fetch_spec(s: ChipState) -> u16 {
    (s.memory[s.pc as int] * 256 + s.memory[wrap(s.pc as int, 1)]) as u16
}

/// One step: fetch the word at the program counter, move the counter past
/// it, decode and execute. On a fault the state is unchanged.
pub open spec fn step_spec(s: ChipState, keys: Seq<Key>, random: u8, delay: u8) -> (
    ChipState,
    Result<Event, Fault>,
) {
    let op = decode_spec(fetch_spec(s));
    let (t, r) = next(with_pc(s, wrap(s.pc as int, 2)), op, keys, random, delay);
    if r is Err {
        (s, r)
    } else {
        (t, r)
    }
}

/// The pairs (x, y) of the grid are its row-major indices.
pub proof fn lemma_grid_pair(px: int, py: int)
    requires
        0 <= px < 64,
        0 <= py < 32,
    ensures
        (py * 64 + px) % 64 == px,
        (py * 64 + px) / 64 == py,
        0 <= py * 64 + px < 2048,
{
}

/// Stored registers are found again at their addresses, for up to sixteen
/// of them.
pub proof fn lemma_stored_at(mem: Seq<u8>, base: int, regs: Seq<u8>, count: nat, j: int)
    requires
        mem.len() == 4096,
        count <= 16,
        count <= regs.len(),
        0 <= j < count,
    ensures
        stored(mem, base, regs, count).len() == 4096,
        stored(mem, base, regs, count)[wrap(base, j)] == regs[j],
    decreases count,
{
    lemma_stored_len(mem, base, regs, (count - 1) as nat);
    if j < count - 1 {
        lemma_stored_at(mem, base, regs, (count - 1) as nat, j);
        assert(wrap(base, j) != wrap(base, count - 1)) by {
            vstd::arithmetic::div_mod::lemma_fundamental_div_mod(base + j, 4096);
            vstd::arithmetic::div_mod::lemma_fundamental_div_mod(base + count - 1, 4096);
        }
    }
}

proof fn lemma_stored_len(mem: Seq<u8>, base: int, regs: Seq<u8>, count: nat)
    requires
        mem.len() == 4096,
        count <= regs.len(),
    ensures
        stored(mem, base, regs, count).len() == 4096,
    decreases count,
{
    if count > 0 {
        lemma_stored_len(mem, base, regs, (count - 1) as nat);
    }
}

/// Storing registers V0..=Vx at the index register and loading them back,
/// into whatever register file, reproduces the stored values.
pub proof fn lemma_store_load_round_trip(s: ChipState, x: usize, t: ChipState)
    requires
        state_wf(s),
        state_wf(t),
        x < 16,
        t.memory == next(s, Decoded::Store(x), seq![], 0, 0).0.memory,
        t.i == s.i,
    ensures
        forall|j: int|
            0 <= j <= x ==> #[trigger] next(t, Decoded::Load(x), seq![], 0, 0).0.v[j] == s.v[j],
{
    assert forall|j: int| 0 <= j <= x implies #[trigger] next(
        t,
        Decoded::Load(x),
        seq![],
        0,
        0,
    ).0.v[j] == s.v[j] by {
        lemma_stored_at(s.memory, s.i as int, s.v, (x + 1) as nat, j);
    }
}

/// A call followed by a return resumes at the instruction right after the
/// call, with the call stack as it was.
pub proof fn lemma_call_return(s: ChipState, keys: Seq<Key>, random: u8, delay: u8)
    requires
        state_wf(s),
        decode_spec(fetch_spec(s)) is Call,
        decode_spec(fetch_spec(step_spec(s, keys, random, delay).0)) is Return,
    ensures
        step_spec(s, keys, random, delay).1 == Ok::<Event, Fault>(Event::Continue),
        step_spec(step_spec(s, keys, random, delay).0, keys, random, delay).1 == Ok::<
            Event,
            Fault,
        >(Event::Continue),
        step_spec(step_spec(s, keys, random, delay).0, keys, random, delay).0.pc == wrap(
            s.pc as int,
            2,
        ),
        step_spec(step_spec(s, keys, random, delay).0, keys, random, delay).0.stack == s.stack,
{
    let t = step_spec(s, keys, random, delay).0;
    assert(t.stack == s.stack.push(wrap(s.pc as int, 2) as u16));
    assert(t.stack.drop_last() =~= s.stack);
}

/// After a screen clear every pixel is off, and so is every pixel of the
/// presented frame.
pub proof fn lemma_clear_screen_all_off(s: ChipState, keys: Seq<Key>, random: u8, delay: u8)
    ensures
        next(s, Decoded::ClearScreen, keys, random, delay).0.display.len() == 2048,
        forall|k: int|
            0 <= k < 2048 ==> !#[trigger] next(
                s,
                Decoded::ClearScreen,
                keys,
                random,
                delay,
            ).0.display[k],
        forall|px: int, py: int|
            0 <= px < 640 && 0 <= py < 320 ==> #[trigger] color(
                pixel_at(next(s, Decoded::ClearScreen, keys, random, delay).0.display, px / 10, py / 10),
            ) == COLOR_OFF,
{
}

/// Drawing the same sprite twice at the same origin restores the display.
/// On a blank display the first draw reports no collision, and the second
/// reports one exactly when the sprite has a set pixel on the display; a
/// first row 0xFF always has one.
pub proof fn lemma_draw_twice(s: ChipState, x: usize, y: usize, n: u8)
    requires
        state_wf(s),
        x < 15,
        y < 15,
        n < 16,
    ensures
        ({
            let op = Decoded::Draw(x, y, n);
            let s1 = next(s, op, seq![], 0, 0).0;
            let s2 = next(s1, op, seq![], 0, 0).0;
            let ox = (s.v[x as int] % 64) as int;
            let oy = (s.v[y as int] % 32) as int;
            let sprite = sprite_of(s, n as int);
            &&& s2.display == s.display
            &&& (forall|k: int| 0 <= k < 2048 ==> !#[trigger] s.display[k]) ==> {
                &&& s1.v[15] == 0
                &&& (s2.v[15] == 1 <==> exists|px: int, py: int|
                    0 <= px < 64 && 0 <= py < 32 && #[trigger] covers(ox, oy, sprite, px, py))
                &&& n >= 1 && s.memory[wrap(s.i as int, 0)] == 0xFF ==> s2.v[15] == 1
            }
        }),
{
    let op = Decoded::Draw(x, y, n);
    let s1 = next(s, op, seq![], 0, 0).0;
    let s2 = next(s1, op, seq![], 0, 0).0;
    let ox = (s.v[x as int] % 64) as int;
    let oy = (s.v[y as int] % 32) as int;
    let sprite = sprite_of(s, n as int);
    assert(s1.v[x as int] == s.v[x as int] && s1.v[y as int] == s.v[y as int]);
    assert(sprite_of(s1, n as int) =~= sprite);
    assert(s2.display =~= s.display);
    if forall|k: int| 0 <= k < 2048 ==> !#[trigger] s.display[k] {
        if collides(s.display, ox, oy, sprite) {
            let (px, py) = choose|px: int, py: int|
                0 <= px < 64 && 0 <= py < 32 && #[trigger] covers(ox, oy, sprite, px, py)
                    && s.display[py * 64 + px];
            lemma_grid_pair(px, py);
        }
        if exists|px: int, py: int|
            0 <= px < 64 && 0 <= py < 32 && #[trigger] covers(ox, oy, sprite, px, py) {
            let (px, py) = choose|px: int, py: int|
                0 <= px < 64 && 0 <= py < 32 && #[trigger] covers(ox, oy, sprite, px, py);
            lemma_grid_pair(px, py);
            assert(s1.display[py * 64 + px]);
            assert(collides(s1.display, ox, oy, sprite));
        }
        if collides(s1.display, ox, oy, sprite) {
            let (px, py) = choose|px: int, py: int|
                0 <= px < 64 && 0 <= py < 32 && #[trigger] covers(ox, oy, sprite, px, py)
                    && s1.display[py * 64 + px];
        }
        if n >= 1 && s.memory[wrap(s.i as int, 0)] == 0xFF {
            let b: u8 = 0xFF;
            assert((b >> 7u8) & 1u8 == 1u8) by (bit_vector)
                requires
                    b == 0xFF,
            ;
            assert(sprite[0] == 0xFF);
            assert(covers(ox, oy, sprite, ox, oy));
        }
    }
}

} // verus!
