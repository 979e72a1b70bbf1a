use vstd::prelude::*;

use rand::Rng;

use crate::decode::{decode, decode_spec, valid_operands, Decoded};
use crate::display::{Display, DISPLAY_HEIGHT, DISPLAY_WIDTH};
use crate::font::{self, FONT_BYTE_COUNT};
use crate::keypad::{is_pressed, key_to_byte, Key};
use crate::machine::{
    fetch_spec, next, state_wf, step_spec, stored, written, ChipState, Event, Fault,
    FLAG_REGISTER, FONT_MEMORY_OFFSET, MEMORY_SIZE, PROGRAM_MEMORY_OFFSET,
};
use crate::timer::{Timer, TimerView};
use crate::types::{Address, Byte, Instruction, Nibble, Register};

verus! {

/// Relies on rand's `thread_rng().gen_range(0..=255)`: a byte drawn at
/// random. Nothing is promised of its value.
#[verifier::external_body]
fn random_byte() -> u8 {
    rand::thread_rng().gen_range(0..=255)
}

/// The machine: memory, registers, program counter, index register, call
/// stack, delay timer and display.
pub struct Chip {
    pc: Address,
    i: Address,
    v: Vec<Byte>,
    memory: Vec<Byte>,
    stack: Vec<Address>,
    delay: Timer,
    display: Display,
}

impl View for Chip {
    type V = ChipState;

    closed spec fn view(&self) -> ChipState {
        ChipState {
            pc: self.pc,
            i: self.i,
            v: self.v@,
            memory: self.memory@,
            stack: self.stack@,
            display: self.display@,
        }
    }
}

/// What the delay timer holds after `op` ran on `s` with the timer at `t`,
/// for every operation but a read of the timer.
pub open spec fn timer_after(t: TimerView, s: ChipState, op: Decoded) -> TimerView {
    match op {
        Decoded::DelayTimerSet(x) => TimerView { start: s.v[x as int], value: s.v[x as int] },
        _ => t,
    }
}

impl Chip {
    /// The delay timer.
    pub closed spec fn timer(&self) -> Timer {
        self.delay
    }

    pub open spec fn wf(&self) -> bool {
        &&& state_wf(self@)
        &&& self.timer().wf()
    }

    /// A machine in its initial state: memory, registers, index, stack,
    /// display and delay timer all zero or empty, the program counter at
    /// `PROGRAM_MEMORY_OFFSET`.
    pub fn new() -> (r: Self)
        ensures
            r.wf(),
            r@.pc == PROGRAM_MEMORY_OFFSET,
            r@.i == 0,
            r@.v == Seq::new(16, |k: int| 0u8),
            r@.memory == Seq::new(4096, |k: int| 0u8),
            r@.stack == Seq::<u16>::empty(),
            r@.display == Seq::new(2048, |k: int| false),
            r.timer()@ == (TimerView { start: 0, value: 0 }),
    {
        let r = Chip {
            pc: PROGRAM_MEMORY_OFFSET as Address,
            i: 0,
            v: vec![0; 16],
            memory: vec![0; MEMORY_SIZE],
            stack: Vec::new(),
            delay: Timer::new(),
            display: Display::new(),
        };
        assert(r@.v =~= Seq::new(16, |k: int| 0u8));
        assert(r@.memory =~= Seq::new(4096, |k: int| 0u8));
        assert(r@.display =~= Seq::new(2048, |k: int| false));
        r
    }

    /// Writes `bytes` to memory from `base` on.
    fn write_memory(&mut self, base: usize, bytes: &Vec<u8>)
        requires
            old(self).wf(),
            base + bytes@.len() <= 4096,
        ensures
            final(self).wf(),
            final(self)@ == (ChipState {
                memory: written(old(self)@.memory, base as int, bytes@),
                ..old(self)@
            }),
            final(self).timer() == old(self).timer(),
    {
        let ghost start = self.memory@;
        let mut k: usize = 0;
        while k < bytes.len()
            invariant
                state_wf(old(self)@),
                state_wf(self@),
                self.timer().wf(),
                self.timer() == old(self).timer(),
                base + bytes@.len() <= 4096,
                k <= bytes@.len(),
                self@ == (ChipState { memory: self.memory@, ..old(self)@ }),
                start == old(self)@.memory,
                self.memory@ == written(start, base as int, bytes@.take(k as int)),
            decreases bytes.len() - k,
        {
            self.memory.set(base + k, bytes[k]);
            k = k + 1;
            assert(self.memory@ =~= written(start, base as int, bytes@.take(k as int)));
        }
        assert(bytes@.take(k as int) =~= bytes@);
    }

    /// Copies the built-in font to `FONT_MEMORY_OFFSET`.
    pub fn load_font(&mut self)
        requires
            old(self).wf(),
        ensures
            final(self).wf(),
            final(self)@ == (ChipState {
                memory: written(old(self)@.memory, FONT_MEMORY_OFFSET as int, font::font_spec()),
                ..old(self)@
            }),
            final(self).timer() == old(self).timer(),
    {
        let glyphs = font::get();
        self.write_memory(FONT_MEMORY_OFFSET, &glyphs);
    }

    /// Copies a program to `PROGRAM_MEMORY_OFFSET`.
    pub fn load_rom(&mut self, bytes: Vec<u8>)
        requires
            old(self).wf(),
            bytes@.len() <= MEMORY_SIZE - PROGRAM_MEMORY_OFFSET,
        ensures
            final(self).wf(),
            final(self)@ == (ChipState {
                memory: written(old(self)@.memory, PROGRAM_MEMORY_OFFSET as int, bytes@),
                ..old(self)@
            }),
            final(self).timer() == old(self).timer(),
    {
        self.write_memory(PROGRAM_MEMORY_OFFSET, &bytes);
    }
    /// The program counter.
    pub fn pc(&self) -> (r: Address)
        ensures
            r == self@.pc,
    {
        self.pc
    }

    /// The index register.
    pub fn index(&self) -> (r: Address)
        ensures
            r == self@.i,
    {
        self.i
    }

    /// The sixteen registers V0..VF.
    pub fn registers(&self) -> (r: &Vec<Byte>)
        ensures
            r@ == self@.v,
    {
        &self.v
    }

    /// The whole memory.
    pub fn memory(&self) -> (r: &Vec<Byte>)
        ensures
            r@ == self@.memory,
    {
        &self.memory
    }

    /// The call stack, oldest return address first.
    pub fn stack(&self) -> (r: &Vec<Address>)
        ensures
            r@ == self@.stack,
    {
        &self.stack
    }

    /// The display.
    pub fn display(&self) -> (r: &Display)
        ensures
            r@ == self@.display,
    {
        &self.display
    }

    /// The frame to present: see `Display::render`.
    pub fn render(&self) -> (r: Vec<u32>)
        requires
            self.wf(),
        ensures
            r@.len() == 640 * 320,
            forall|px: int, py: int|
                0 <= px < 640 && 0 <= py < 320 ==> #[trigger] r@[py * 640 + px]
                    == crate::display::color(
                    crate::display::pixel_at(self@.display, px / 10, py / 10),
                ),
    {
        self.display.render()
    }

    /// The instruction word at the program counter, high byte first; the
    /// byte after the last one of memory is the first.
    pub fn fetch(&self) -> (r: Instruction)
        requires
            self.wf(),
        ensures
            r == fetch_spec(self@),
    {
        let pc = self.pc as usize;
        let a = self.memory[pc] as Instruction;
        let b = self.memory[(pc + 1) % MEMORY_SIZE] as Instruction;
        assert(a << 8u16 | b == a * 256 + b) by (bit_vector)
            requires
                a < 256,
                b < 256,
        ;
        a << 8 | b
    }

    /// The instruction word that the next step executes.
    pub fn next_instruction(&self) -> (r: Instruction)
        requires
            self.wf(),
        ensures
            r == fetch_spec(self@),
    {
        self.fetch()
    }

    fn set_reg(&mut self, x: Register, val: Byte)
        requires
            old(self).wf(),
            x < 16,
        ensures
            final(self).wf(),
            final(self)@ == crate::machine::with_reg(old(self)@, x as int, val),
            final(self).timer() == old(self).timer(),
    {
        self.v.set(x, val);
    }

    fn skip(&mut self)
        requires
            old(self).wf(),
        ensures
            final(self).wf(),
            final(self)@ == crate::machine::skip_if(old(self)@, true),
            final(self).timer() == old(self).timer(),
    {
        self.pc = (self.pc + 2) % (MEMORY_SIZE as u16);
    }
}

// Move, load and store instructions.
impl Chip {
    fn exec_mov(&mut self, x: Register, nn: Byte)
        requires
            old(self).wf(),
            x < 16,
        ensures
            final(self).wf(),
            final(self)@ == next(old(self)@, Decoded::Move(x, nn), seq![], 0, 0).0,
            final(self).timer() == old(self).timer(),
    {
        self.set_reg(x, nn);
    }

    fn exec_mov_xy(&mut self, x: Register, y: Register)
        requires
            old(self).wf(),
            x < 16,
            y < 16,
        ensures
            final(self).wf(),
            final(self)@ == next(old(self)@, Decoded::MoveXY(x, y), seq![], 0, 0).0,
            final(self).timer() == old(self).timer(),
    {
        let vy = self.v[y];
        self.set_reg(x, vy);
    }

    fn exec_movi(&mut self, nnn: Address)
        requires
            old(self).wf(),
        ensures
            final(self).wf(),
            final(self)@ == next(old(self)@, Decoded::MoveIndex(nnn), seq![], 0, 0).0,
            final(self).timer() == old(self).timer(),
    {
        self.i = nnn;
    }

    fn exec_load(&mut self, x: Register)
        requires
            old(self).wf(),
            x < 16,
        ensures
            final(self).wf(),
            final(self)@ == next(old(self)@, Decoded::Load(x), seq![], 0, 0).0,
            final(self).timer() == old(self).timer(),
    {
        let ghost v0 = self.v@;
        let base = self.i as usize;
        let mut k: usize = 0;
        while k <= x
            invariant
                state_wf(old(self)@),
                state_wf(self@),
                self.timer() == old(self).timer(),
                self.timer().wf(),
                x < 16,
                k <= x + 1,
                base == old(self)@.i,
                v0 == old(self)@.v,
                self@ == (ChipState { v: self.v@, ..old(self)@ }),
                self.v@ == crate::machine::loaded(v0, base as int, old(self)@.memory, k as int),
            decreases x + 1 - k,
        {
            let b = self.memory[(base + k) % MEMORY_SIZE];
            self.v.set(k, b);
            k = k + 1;
            assert(self.v@ =~= crate::machine::loaded(
                v0,
                base as int,
                old(self)@.memory,
                k as int,
            ));
        }
    }

    fn exec_store(&mut self, x: Register)
        requires
            old(self).wf(),
            x < 16,
        ensures
            final(self).wf(),
            final(self)@ == next(old(self)@, Decoded::Store(x), seq![], 0, 0).0,
            final(self).timer() == old(self).timer(),
    {
        let base = self.i as usize;
        let mut k: usize = 0;
        while k <= x
            invariant
                state_wf(old(self)@),
                state_wf(self@),
                self.timer() == old(self).timer(),
                self.timer().wf(),
                x < 16,
                k <= x + 1,
                base == old(self)@.i,
                self@ == (ChipState { memory: self.memory@, ..old(self)@ }),
                self.memory@ == stored(old(self)@.memory, base as int, old(self)@.v, k as nat),
            decreases x + 1 - k,
        {
            let b = self.v[k];
            self.memory.set((base + k) % MEMORY_SIZE, b);
            k = k + 1;
        }
    }
}

// Control flow instructions.
impl Chip {
    fn exec_jump(&mut self, nnn: Address)
        requires
            old(self).wf(),
            nnn < 4096,
        ensures
            final(self).wf(),
            final(self)@ == next(old(self)@, Decoded::Jump(nnn), seq![], 0, 0).0,
            final(self).timer() == old(self).timer(),
    {
        self.pc = nnn;
    }

    fn exec_call(&mut self, nnn: Address)
        requires
            old(self).wf(),
            nnn < 4096,
        ensures
            final(self).wf(),
            final(self)@ == next(old(self)@, Decoded::Call(nnn), seq![], 0, 0).0,
            final(self).timer() == old(self).timer(),
    {
        self.stack.push(self.pc);
        self.pc = nnn;
    }

    fn exec_return(&mut self) -> (r: Result<(), Fault>)
        requires
            old(self).wf(),
        ensures
            final(self).wf(),
            final(self)@ == next(old(self)@, Decoded::Return, seq![], 0, 0).0,
            r is Err <==> next(old(self)@, Decoded::Return, seq![], 0, 0).1 is Err,
            r is Err ==> r == Err::<(), Fault>(Fault::StackUnderflow),
            final(self).timer() == old(self).timer(),
    {
        match self.stack.pop() {
            Some(addr) => {
                self.pc = addr;
                Ok(())
            },
            None => Err(Fault::StackUnderflow),
        }
    }

    fn exec_skip_eq(&mut self, x: Register, nn: Byte)
        requires
            old(self).wf(),
            x < 16,
        ensures
            final(self).wf(),
            final(self)@ == next(old(self)@, Decoded::SkipEqual(x, nn), seq![], 0, 0).0,
            final(self).timer() == old(self).timer(),
    {
        if self.v[x] == nn {
            self.skip();
        }
    }

    fn exec_skip_ne(&mut self, x: Register, nn: Byte)
        requires
            old(self).wf(),
            x < 16,
        ensures
            final(self).wf(),
            final(self)@ == next(old(self)@, Decoded::SkipNotEqual(x, nn), seq![], 0, 0).0,
            final(self).timer() == old(self).timer(),
    {
        if self.v[x] != nn {
            self.skip();
        }
    }

    fn exec_skip_eq_xy(&mut self, x: Register, y: Register)
        requires
            old(self).wf(),
            x < 16,
            y < 16,
        ensures
            final(self).wf(),
            final(self)@ == next(old(self)@, Decoded::SkipEqualXY(x, y), seq![], 0, 0).0,
            final(self).timer() == old(self).timer(),
    {
        if self.v[x] == self.v[y] {
            self.skip();
        }
    }

    fn exec_skip_ne_xy(&mut self, x: Register, y: Register)
        requires
            old(self).wf(),
            x < 16,
            y < 16,
        ensures
            final(self).wf(),
            final(self)@ == next(old(self)@, Decoded::SkipNotEqualXY(x, y), seq![], 0, 0).0,
            final(self).timer() == old(self).timer(),
    {
        if self.v[x] != self.v[y] {
            self.skip();
        }
    }

    fn exec_skip_key(&mut self, x: Register, keys: &Vec<Key>)
        requires
            old(self).wf(),
            x < 16,
        ensures
            final(self).wf(),
            final(self)@ == next(old(self)@, Decoded::SkipKey(x), keys@, 0, 0).0,
            final(self).timer() == old(self).timer(),
    {
        if is_pressed(keys, self.v[x]) {
            self.skip();
        }
    }

    fn exec_skip_not_key(&mut self, x: Register, keys: &Vec<Key>)
        requires
            old(self).wf(),
            x < 16,
        ensures
            final(self).wf(),
            final(self)@ == next(old(self)@, Decoded::SkipNotKey(x), keys@, 0, 0).0,
            final(self).timer() == old(self).timer(),
    {
        if !is_pressed(keys, self.v[x]) {
            self.skip();
        }
    }

    fn exec_get_key(&mut self, x: Register, keys: &Vec<Key>) -> (r: Event)
        requires
            old(self).wf(),
            x < 16,
        ensures
            final(self).wf(),
            (final(self)@, Ok::<Event, Fault>(r)) == next(old(self)@, Decoded::GetKey(x), keys@, 0, 0),
            final(self).timer() == old(self).timer(),
    {
        if keys.len() > 0 {
            let code = key_to_byte(keys[0]);
            self.set_reg(x, code);
            Event::Continue
        } else {
            self.pc = (self.pc + 4094) % (MEMORY_SIZE as u16);
            Event::AwaitingKey
        }
    }
}

// Logic instructions.
impl Chip {
    fn exec_and(&mut self, x: Register, y: Register)
        requires
            old(self).wf(),
            x < 16,
            y < 16,
        ensures
            final(self).wf(),
            final(self)@ == next(old(self)@, Decoded::And(x, y), seq![], 0, 0).0,
            final(self).timer() == old(self).timer(),
    {
        let r = self.v[x] & self.v[y];
        self.set_reg(x, r);
    }

    fn exec_or(&mut self, x: Register, y: Register)
        requires
            old(self).wf(),
            x < 16,
            y < 16,
        ensures
            final(self).wf(),
            final(self)@ == next(old(self)@, Decoded::Or(x, y), seq![], 0, 0).0,
            final(self).timer() == old(self).timer(),
    {
        let r = self.v[x] | self.v[y];
        self.set_reg(x, r);
    }

    fn exec_xor(&mut self, x: Register, y: Register)
        requires
            old(self).wf(),
            x < 16,
            y < 16,
        ensures
            final(self).wf(),
            final(self)@ == next(old(self)@, Decoded::Xor(x, y), seq![], 0, 0).0,
            final(self).timer() == old(self).timer(),
    {
        let r = self.v[x] ^ self.v[y];
        self.set_reg(x, r);
    }

    fn exec_shift_left(&mut self, x: Register, y: Register)
        requires
            old(self).wf(),
            x < 16,
            y < 16,
        ensures
            final(self).wf(),
            final(self)@ == next(old(self)@, Decoded::ShiftLeft(x, y), seq![], 0, 0).0,
            final(self).timer() == old(self).timer(),
    {
        let vy = self.v[y];
        self.set_reg(x, vy);
        let flag = self.v[x] >> 7;
        self.set_reg(FLAG_REGISTER, flag);
        let shifted = self.v[x] << 1;
        self.set_reg(x, shifted);
    }

    fn exec_shift_right(&mut self, x: Register, y: Register)
        requires
            old(self).wf(),
            x < 16,
            y < 16,
        ensures
            final(self).wf(),
            final(self)@ == next(old(self)@, Decoded::ShiftRight(x, y), seq![], 0, 0).0,
            final(self).timer() == old(self).timer(),
    {
        let vy = self.v[y];
        self.set_reg(x, vy);
        let flag = self.v[x] & 0x1;
        self.set_reg(FLAG_REGISTER, flag);
        let shifted = self.v[x] >> 1;
        self.set_reg(x, shifted);
    }
}

// Arithmetic instructions.
impl Chip {
    fn exec_add(&mut self, x: Register, nn: Byte)
        requires
            old(self).wf(),
            x < 16,
        ensures
            final(self).wf(),
            final(self)@ == next(old(self)@, Decoded::Add(x, nn), seq![], 0, 0).0,
            final(self).timer() == old(self).timer(),
    {
        let r = self.v[x].wrapping_add(nn);
        self.set_reg(x, r);
    }

    fn exec_add_xy(&mut self, x: Register, y: Register)
        requires
            old(self).wf(),
            x < 16,
            y < 16,
        ensures
            final(self).wf(),
            final(self)@ == next(old(self)@, Decoded::AddXY(x, y), seq![], 0, 0).0,
            final(self).timer() == old(self).timer(),
    {
        let vy = self.v[y];
        self.exec_add(x, vy);
    }

    fn exec_sub_xy(&mut self, x: Register, y: Register)
        requires
            old(self).wf(),
            x < 16,
            y < 16,
        ensures
            final(self).wf(),
            final(self)@ == next(old(self)@, Decoded::SubXY(x, y), seq![], 0, 0).0,
            final(self).timer() == old(self).timer(),
    {
        let r = self.v[x].wrapping_sub(self.v[y]);
        self.set_reg(x, r);
    }

    fn exec_sub_yx(&mut self, x: Register, y: Register)
        requires
            old(self).wf(),
            x < 16,
            y < 16,
        ensures
            final(self).wf(),
            final(self)@ == next(old(self)@, Decoded::SubYX(x, y), seq![], 0, 0).0,
            final(self).timer() == old(self).timer(),
    {
        let r = self.v[y].wrapping_sub(self.v[x]);
        self.set_reg(x, r);
    }

    fn exec_add_index(&mut self, x: Register)
        requires
            old(self).wf(),
            x < 16,
        ensures
            final(self).wf(),
            final(self)@ == next(old(self)@, Decoded::AddIndex(x), seq![], 0, 0).0,
            final(self).timer() == old(self).timer(),
    {
        self.i = self.i.wrapping_add(self.v[x] as Address);
    }

    fn exec_rand(&mut self, x: Register, nn: Byte, random: u8)
        requires
            old(self).wf(),
            x < 16,
        ensures
            final(self).wf(),
            final(self)@ == next(old(self)@, Decoded::Random(x, nn), seq![], random, 0).0,
            final(self).timer() == old(self).timer(),
    {
        self.set_reg(x, random & nn);
    }

    fn exec_decimal(&mut self, x: Register)
        requires
            old(self).wf(),
            x < 16,
        ensures
            final(self).wf(),
            final(self)@ == next(old(self)@, Decoded::Decimal(x), seq![], 0, 0).0,
            final(self).timer() == old(self).timer(),
    {
        let vx = self.v[x];
        let base = self.i as usize;
        self.memory.set(base % MEMORY_SIZE, (vx / 100) % 10);
        self.memory.set((base + 1) % MEMORY_SIZE, (vx / 10) % 10);
        self.memory.set((base + 2) % MEMORY_SIZE, vx % 10);
    }
}

// Timer instructions.
impl Chip {
    fn exec_set_sound_timer(&mut self, x: Register)
        requires
            old(self).wf(),
            x < 16,
        ensures
            final(self).wf(),
            final(self)@ == next(old(self)@, Decoded::SetSoundTimer(x), seq![], 0, 0).0,
            final(self).timer() == old(self).timer(),
    {
    }

    fn exec_delay_timer_set(&mut self, x: Register)
        requires
            old(self).wf(),
            x < 16,
        ensures
            final(self).wf(),
            final(self)@ == next(old(self)@, Decoded::DelayTimerSet(x), seq![], 0, 0).0,
            final(self).timer()@ == timer_after(
                old(self).timer()@,
                old(self)@,
                Decoded::DelayTimerSet(x),
            ),
    {
        let vx = self.v[x];
        self.delay.set(vx);
    }

    fn exec_delay_timer_get(&mut self, x: Register, delay: u8)
        requires
            old(self).wf(),
            x < 16,
        ensures
            final(self).wf(),
            final(self)@ == next(old(self)@, Decoded::DelayTimerGet(x), seq![], 0, delay).0,
            final(self).timer() == old(self).timer(),
    {
        self.set_reg(x, delay);
    }
}

// Display instructions.
impl Chip {
    fn exec_cls(&mut self)
        requires
            old(self).wf(),
        ensures
            final(self).wf(),
            final(self)@ == next(old(self)@, Decoded::ClearScreen, seq![], 0, 0).0,
            final(self).timer() == old(self).timer(),
    {
        self.display.clear();
        assert(self.display@ =~= Seq::new(2048, |k: int| false));
    }

    fn exec_font_char(&mut self, x: Register)
        requires
            old(self).wf(),
            x < 16,
        ensures
            final(self).wf(),
            final(self)@ == next(old(self)@, Decoded::FontChar(x), seq![], 0, 0).0,
            final(self).timer() == old(self).timer(),
    {
        self.i = FONT_BYTE_COUNT * ((self.v[x] % 16) as Address) + FONT_MEMORY_OFFSET as Address;
    }

    fn exec_draw(&mut self, x: Register, y: Register, n: Nibble)
        requires
            old(self).wf(),
            x < 16,
            y < 16,
            n < 16,
        ensures
            final(self).wf(),
            final(self)@ == next(old(self)@, Decoded::Draw(x, y, n), seq![], 0, 0).0,
            final(self).timer() == old(self).timer(),
    {
        let vx = (self.v[x] % (DISPLAY_WIDTH as u8)) as usize;
        let vy = (self.v[y] % (DISPLAY_HEIGHT as u8)) as usize;
        let base = self.i as usize;
        let mut sprite: Vec<u8> = Vec::new();
        let mut r: usize = 0;
        while r < n as usize
            invariant
                state_wf(self@),
                n < 16,
                r <= n,
                base == self@.i,
                sprite@ == crate::machine::sprite_of(self@, r as int),
            decreases n - r,
        {
            sprite.push(self.memory[(base + r) % MEMORY_SIZE]);
            r = r + 1;
            assert(sprite@ =~= crate::machine::sprite_of(self@, r as int));
        }
        let hit = self.display.draw(vx, vy, &sprite);
        let flag: u8 = if hit {
            1
        } else {
            0
        };
        self.set_reg(FLAG_REGISTER, flag);
    }
}

// Execution.
impl Chip {
    /// Executes one decoded operation; the program counter is expected to
    /// point past it already. `random` is the byte that `Random` draws from,
    /// `delay` the delay timer's reading that `DelayTimerGet` stores.
    pub fn apply(
        &mut self,
        op: Decoded,
        keys: &Vec<Key>,
        random: u8,
        delay: u8,
    ) -> (r: Result<Event, Fault>)
        requires
            old(self).wf(),
            valid_operands(op),
        ensures
            final(self).wf(),
            (final(self)@, r) == next(old(self)@, op, keys@, random, delay),
            final(self).timer()@ == timer_after(old(self).timer()@, old(self)@, op),
    {
        match op {
            Decoded::Add(x, nn) => self.exec_add(x, nn),
            Decoded::AddIndex(x) => self.exec_add_index(x),
            Decoded::AddXY(x, y) => self.exec_add_xy(x, y),
            Decoded::And(x, y) => self.exec_and(x, y),
            Decoded::Call(nnn) => self.exec_call(nnn),
            Decoded::ClearScreen => {
                self.exec_cls();
                return Ok(Event::Redraw);
            },
            Decoded::Decimal(x) => self.exec_decimal(x),
            Decoded::DelayTimerGet(x) => self.exec_delay_timer_get(x, delay),
            Decoded::DelayTimerSet(x) => self.exec_delay_timer_set(x),
            Decoded::Draw(x, y, n) => {
                self.exec_draw(x, y, n);
                return Ok(Event::Redraw);
            },
            Decoded::FontChar(x) => self.exec_font_char(x),
            Decoded::GetKey(x) => {
                return Ok(self.exec_get_key(x, keys));
            },
            Decoded::Jump(nnn) => self.exec_jump(nnn),
            Decoded::Load(x) => self.exec_load(x),
            Decoded::Move(x, nn) => self.exec_mov(x, nn),
            Decoded::MoveIndex(nnn) => self.exec_movi(nnn),
            Decoded::MoveXY(x, y) => self.exec_mov_xy(x, y),
            Decoded::Or(x, y) => self.exec_or(x, y),
            Decoded::Random(x, nn) => self.exec_rand(x, nn, random),
            Decoded::Return => {
                if let Err(f) = self.exec_return() {
                    return Err(f);
                }
            },
            Decoded::SetSoundTimer(x) => self.exec_set_sound_timer(x),
            Decoded::ShiftLeft(x, y) => self.exec_shift_left(x, y),
            Decoded::ShiftRight(x, y) => self.exec_shift_right(x, y),
            Decoded::SkipEqual(x, nn) => self.exec_skip_eq(x, nn),
            Decoded::SkipEqualXY(x, y) => self.exec_skip_eq_xy(x, y),
            Decoded::SkipKey(x) => self.exec_skip_key(x, keys),
            Decoded::SkipNotEqual(x, nn) => self.exec_skip_ne(x, nn),
            Decoded::SkipNotEqualXY(x, y) => self.exec_skip_ne_xy(x, y),
            Decoded::SkipNotKey(x) => self.exec_skip_not_key(x, keys),
            Decoded::Store(x) => self.exec_store(x),
            Decoded::SubXY(x, y) => self.exec_sub_xy(x, y),
            Decoded::SubYX(x, y) => self.exec_sub_yx(x, y),
            Decoded::Xor(x, y) => self.exec_xor(x, y),
            Decoded::Illegal(i) => {
                return Err(Fault::IllegalOpcode(i));
            },
        }
        Ok(Event::Continue)
    }

    /// Executes one decoded operation, drawing a random byte for `Random`
    /// and reading the delay timer for `DelayTimerGet`; see `apply`.
    pub fn execute(&mut self, op: Decoded, keys: &Vec<Key>) -> (r: Result<Event, Fault>)
        requires
            old(self).wf(),
            valid_operands(op),
        ensures
            final(self).wf(),
            !(op is Random) && !(op is DelayTimerGet) ==> (final(self)@, r) == next(
                old(self)@,
                op,
                keys@,
                0,
                0,
            ) && final(self).timer()@ == timer_after(old(self).timer()@, old(self)@, op),
            op is Random ==> exists|b: u8|
                (final(self)@, r) == #[trigger] next(old(self)@, op, keys@, b, 0),
            op is Random ==> final(self).timer()@ == old(self).timer()@,
            op is DelayTimerGet ==> (final(self)@, r) == next(
                old(self)@,
                op,
                keys@,
                0,
                final(self).timer()@.value,
            ),
            op is DelayTimerGet ==> final(self).timer()@.start == old(self).timer()@.start
                && final(self).timer()@.value <= old(self).timer()@.value,
    {
        match op {
            Decoded::Random(_, _) => {
                let b = random_byte();
                self.apply(op, keys, b, 0)
            },
            Decoded::DelayTimerGet(_) => {
                let d = self.delay.get();
                self.apply(op, keys, 0, d)
            },
            _ => self.apply(op, keys, 0, 0),
        }
    }

    /// Fetches the word at the program counter, moves the counter past it,
    /// decodes and executes it. On a fault (an illegal word, a return with
    /// an empty stack) the machine is left as it was.
    pub fn step(&mut self, keys: &Vec<Key>) -> (r: Result<Event, Fault>)
        requires
            old(self).wf(),
        ensures
            final(self).wf(),
            ({
                let op = decode_spec(fetch_spec(old(self)@));
                &&& !(op is Random) && !(op is DelayTimerGet) ==> (final(self)@, r) == step_spec(
                    old(self)@,
                    keys@,
                    0,
                    0,
                ) && final(self).timer()@ == timer_after(old(self).timer()@, old(self)@, op)
                &&& op is Random ==> exists|b: u8|
                    (final(self)@, r) == #[trigger] step_spec(old(self)@, keys@, b, 0)
                &&& op is Random ==> final(self).timer()@ == old(self).timer()@
                &&& op is DelayTimerGet ==> (final(self)@, r) == step_spec(
                    old(self)@,
                    keys@,
                    0,
                    final(self).timer()@.value,
                )
                &&& op is DelayTimerGet ==> final(self).timer()@.start == old(self).timer()@.start
                    && final(self).timer()@.value <= old(self).timer()@.value
            }),
    {
        let ghost s0 = self@;
        let fetched = self.fetch();
        let pc = self.pc;
        self.pc = (self.pc + 2) % (MEMORY_SIZE as u16);
        let ghost s1 = self@;
        assert(s1 == crate::machine::with_pc(s0, crate::machine::wrap(s0.pc as int, 2)));
        let decoded = decode(fetched);
        let r = self.execute(decoded, keys);
        let ghost s2 = self@;
        if r.is_err() {
            self.pc = pc;
            assert(self@ == s0);
        }
        proof {
            if decoded is Random {
                let b = choose|b: u8| (s2, r) == #[trigger] next(s1, decoded, keys@, b, 0);
                assert((self@, r) == step_spec(s0, keys@, b, 0));
            }
        }
        r
    }
}

} // verus!
