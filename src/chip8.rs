//! The CPU engine: machine state and single-step execution.

use vstd::prelude::*;
use rand::Rng;
use crate::instruction::{decode_spec, Fault, Instruction};
use crate::machine::{
    address, collides, covers, draw_frame, first_pressed, first_pressed_from, font, sprite_bit,
    Machine, BYTES_PER_PIXEL, FLAG_REGISTER, FRAME_SIZE, MEMORY_SIZE, PROGRAM_START_ADDRESS,
    SCREEN_HEIGHT, SCREEN_WIDTH,
};

verus! {

/// Offset `k` from base `i` lands on address `a` exactly when `a` is `k`
/// bytes past `i`, round the 4 KiB space.
proof fn lemma_offset(i: int, k: int, a: int)
    requires
        0 <= i,
        0 <= k < 4096,
        0 <= a < 4096,
    ensures
        ((a - i) % 4096 == k) <==> (a == address(i, k)),
{
}

/// Relies on rand::thread_rng and Rng::gen::<u8>: a byte drawn from the
/// thread's generator; nothing is known of which.
#[verifier::external_body]
fn random_byte() -> (r: u8) {
    rand::thread_rng().gen::<u8>()
}

/// The glyph table as an array.
fn font_table() -> (r: [u8; 80])
    ensures
        r@ == font(),
{
    let r: [u8; 80] = [
        0xF0, 0x90, 0x90, 0x90, 0xF0,
        0x20, 0x60, 0x20, 0x20, 0x70,
        0xF0, 0x10, 0xF0, 0x80, 0xF0,
        0xF0, 0x10, 0xF0, 0x10, 0xF0,
        0x90, 0x90, 0xF0, 0x10, 0x10,
        0xF0, 0x80, 0xF0, 0x10, 0xF0,
        0xF0, 0x80, 0xF0, 0x90, 0xF0,
        0xF0, 0x10, 0x20, 0x40, 0x40,
        0xF0, 0x90, 0xF0, 0x90, 0xF0,
        0xF0, 0x90, 0xF0, 0x10, 0xF0,
        0xF0, 0x90, 0xF0, 0x90, 0x90,
        0xE0, 0x90, 0xE0, 0x90, 0xE0,
        0xF0, 0x80, 0x80, 0x80, 0xF0,
        0xE0, 0x90, 0x90, 0x90, 0xE0,
        0xF0, 0x80, 0xF0, 0x80, 0xF0,
        0xF0, 0x80, 0xF0, 0x80, 0x80,
    ];
    assert(r@ =~= font());
    r
}

/// A CHIP-8 machine: registers, memory, program counter, call stack, index
/// register and timers.
pub struct Chip8 {
    program_counter: u16,
    registers: [u8; 16],
    stack: Vec<u16>,
    i: u16,
    memory: [u8; 4096],
    sound_timer: u8,
    delay_timer: u8,
}

impl View for Chip8 {
    type V = Machine;

    closed spec fn view(&self) -> Machine {
        Machine {
            pc: self.program_counter,
            registers: self.registers@,
            stack: self.stack@,
            i: self.i,
            memory: self.memory@,
            delay_timer: self.delay_timer,
            sound_timer: self.sound_timer,
        }
    }
}

impl Chip8 {
    /// A machine with the font loaded at address 0, the program counter at
    /// 0x200, all registers and timers zero and an empty call stack.
    pub fn new() -> (r: Chip8)
        ensures
            r@ == Machine::initial(),
            r@.wf(),
    {
        let glyphs = font_table();
        let mut memory: [u8; 4096] = [0u8; 4096];
        let mut k: usize = 0;
        while k < 80
            invariant
                k <= 80,
                glyphs@ == font(),
                forall|a: int| 0 <= a < k ==> memory@[a] == font()[a],
                forall|a: int| k <= a < 4096 ==> memory@[a] == 0u8,
            decreases 80 - k,
        {
            memory[k] = glyphs[k];
            k += 1;
        }
        let r = Chip8 {
            program_counter: PROGRAM_START_ADDRESS as u16,
            registers: [0u8; 16],
            stack: Vec::new(),
            i: 0,
            memory,
            sound_timer: 0,
            delay_timer: 0,
        };
        assert(r@.registers =~= Machine::initial().registers);
        assert(r@.memory =~= Machine::initial().memory);
        assert(r@.stack =~= Machine::initial().stack);
        r
    }

    /// Copies `rom` into memory from address 0x200 on; nothing else changes.
    pub fn load_rom(&mut self, rom: &[u8])
        requires
            old(self)@.wf(),
            rom@.len() <= MEMORY_SIZE - PROGRAM_START_ADDRESS,
        ensures
            final(self)@.wf(),
            final(self)@ == (Machine {
                memory: Seq::new(
                    4096,
                    |a: int|
                        if 0x200 <= a < 0x200 + rom@.len() {
                            rom@[a - 0x200]
                        } else {
                            old(self)@.memory[a]
                        },
                ),
                ..old(self)@
            }),
    {
        let ghost m0 = self@;
        let mut k: usize = 0;
        while k < rom.len()
            invariant
                k <= rom@.len() <= 4096 - 0x200,
                self@ == (Machine { memory: self@.memory, ..m0 }),
                self@.memory.len() == 4096,
                forall|a: int|
                    0 <= a < 4096 ==> #[trigger] self@.memory[a] == if 0x200 <= a < 0x200 + k {
                        rom@[a - 0x200]
                    } else {
                        m0.memory[a]
                    },
            decreases rom@.len() - k,
        {
            self.memory[PROGRAM_START_ADDRESS + k] = rom[k];
            k += 1;
        }
        assert(self@.memory =~= Seq::new(
            4096,
            |a: int|
                if 0x200 <= a < 0x200 + rom@.len() {
                    rom@[a - 0x200]
                } else {
                    m0.memory[a]
                },
        ));
    }

    /// Decrements both timers by one, not below zero.
    pub fn update_timers(&mut self)
        requires
            old(self)@.wf(),
        ensures
            final(self)@ == old(self)@.ticked(),
            final(self)@.wf(),
    {
        self.delay_timer = self.delay_timer.saturating_sub(1);
        self.sound_timer = self.sound_timer.saturating_sub(1);
        assert(self@.stack == old(self)@.stack);
        assert(self@.registers == old(self)@.registers);
        assert(self@.pc == old(self)@.pc);
    }

    /// Turns every pixel off.
    fn clear(pixels: &mut [u8])
        ensures
            final(pixels)@ == Seq::new(old(pixels)@.len(), |b: int| 0u8),
    {
        let mut b: usize = 0;
        while b < pixels.len()
            invariant
                b <= pixels@.len() == old(pixels)@.len(),
                forall|k: int| 0 <= k < b ==> pixels@[k] == 0u8,
            decreases pixels@.len() - b,
        {
            pixels[b] = 0;
            b += 1;
        }
        assert(pixels@ =~= Seq::new(old(pixels)@.len(), |b: int| 0u8));
    }

    /// The lowest-numbered pressed key, if any.
    fn first_key(key_states: &[bool; 16]) -> (r: Option<u8>)
        ensures
            r == first_pressed(key_states@),
    {
        let mut k: usize = 0;
        while k < 16
            invariant
                k <= 16,
                key_states@.len() == 16,
                first_pressed(key_states@) == first_pressed_from(key_states@, k as int),
            decreases 16 - k,
        {
            if key_states[k] {
                return Some(k as u8);
            }
            k += 1;
        }
        None
    }

    /// Stores registers 0 to `x` in memory from address `i` on.
    fn dump(&mut self, x: u8)
        requires
            old(self)@.wf(),
            x < 16,
        ensures
            final(self)@ == (Machine { memory: old(self)@.dumped(x), ..old(self)@ }),
            final(self)@.wf(),
    {
        let ghost m0 = self@;
        let base = self.i as usize;
        let mut k: usize = 0;
        while k <= x as usize
            invariant
                k <= x + 1,
                x < 16,
                base == m0.i,
                m0.wf(),
                self@ == (Machine { memory: self@.memory, ..m0 }),
                self@.memory.len() == 4096,
                forall|a: int|
                    0 <= a < 4096 ==> #[trigger] self@.memory[a] == if (a - m0.i) % 4096 < k {
                        m0.registers[(a - m0.i) % 4096]
                    } else {
                        m0.memory[a]
                    },
            decreases x + 1 - k,
        {
            let target = (base + k) % MEMORY_SIZE;
            self.memory[target] = self.registers[k];
            assert forall|a: int| 0 <= a < 4096 implies #[trigger] self@.memory[a] == if (a
                - m0.i) % 4096 < k + 1 {
                m0.registers[(a - m0.i) % 4096]
            } else {
                m0.memory[a]
            } by {
                lemma_offset(m0.i as int, k as int, a);
            }
            k += 1;
        }
        assert(self@.memory =~= m0.dumped(x));
    }

    /// Loads registers 0 to `x` from memory at address `i` on.
    fn load(&mut self, x: u8)
        requires
            old(self)@.wf(),
            x < 16,
        ensures
            final(self)@ == (Machine { registers: old(self)@.loaded(x), ..old(self)@ }),
            final(self)@.wf(),
    {
        let ghost m0 = self@;
        let base = self.i as usize;
        let mut k: usize = 0;
        while k <= x as usize
            invariant
                k <= x + 1,
                x < 16,
                base == m0.i,
                m0.wf(),
                self@ == (Machine { registers: self@.registers, ..m0 }),
                self@.registers.len() == 16,
                forall|j: int|
                    0 <= j < 16 ==> #[trigger] self@.registers[j] == if j < k {
                        m0.memory[address(m0.i as int, j)]
                    } else {
                        m0.registers[j]
                    },
            decreases x + 1 - k,
        {
            self.registers[k] = self.memory[(base + k) % MEMORY_SIZE];
            k += 1;
        }
        assert(self@.registers =~= m0.loaded(x));
    }

    /// Stores the decimal digits of register `x` at `i`, `i + 1` and
    /// `i + 2`: hundreds, tens, ones.
    fn store_bcd(&mut self, x: u8)
        requires
            old(self)@.wf(),
            x < 16,
        ensures
            final(self)@ == (Machine {
                memory: old(self)@.memory.update(
                    address(old(self)@.i as int, 0),
                    old(self)@.reg(x) / 100,
                ).update(address(old(self)@.i as int, 1), (old(self)@.reg(x) / 10) % 10).update(
                    address(old(self)@.i as int, 2),
                    old(self)@.reg(x) % 10,
                ),
                ..old(self)@
            }),
            final(self)@.wf(),
    {
        let ghost m0 = self@;
        let base = self.i as usize;
        let value = self.registers[x as usize];
        self.memory[base % MEMORY_SIZE] = value / 100;
        self.memory[(base + 1) % MEMORY_SIZE] = (value / 10) % 10;
        self.memory[(base + 2) % MEMORY_SIZE] = value % 10;
        assert(self@.memory =~= m0.memory.update(address(m0.i as int, 0), m0.reg(x) / 100).update(
            address(m0.i as int, 1),
            (m0.reg(x) / 10) % 10,
        ).update(address(m0.i as int, 2), m0.reg(x) % 10));
        assert(self@.stack == m0.stack);
    }

    /// Executes one decoded instruction. The framebuffer is 64 by 32 pixels
    /// of four bytes each; `key_states[k]` tells whether key `k` is down;
    /// `random` is the byte that `SetRegRand` masks. A return with an empty
    /// call stack is refused with `StackUnderflow` and changes nothing;
    /// every other instruction moves the machine to its `transition` and the
    /// framebuffer to its `frame_after`.
    #[verifier::spinoff_prover]
    #[verifier::rlimit(100)]
    pub fn execute(
        &mut self,
        instruction: Instruction,
        pixels: &mut [u8],
        key_states: &[bool; 16],
        random: u8,
    ) -> (r: Result<(), Fault>)
        requires
            old(self)@.wf(),
            instruction.well_formed(),
            old(pixels)@.len() == FRAME_SIZE,
        ensures
            final(self)@.wf(),
            old(self)@.faults(instruction) ==> r == Err::<(), Fault>(Fault::StackUnderflow)
                && final(self)@ == old(self)@ && final(pixels)@ == old(pixels)@,
            !old(self)@.faults(instruction) ==> r == Ok::<(), Fault>(()) && final(self)@ == old(
                self,
            )@.transition(old(pixels)@, key_states@, instruction, random) && final(pixels)@
                == old(self)@.frame_after(old(pixels)@, instruction),
    {
        let ghost m0 = self@;
        // Instructions that redirect control store their target less one
        // instruction width; the increment at the end lands on the target.
        match instruction {
            Instruction::NoOp => {},
            Instruction::Clear => Self::clear(pixels),
            Instruction::Ret => {
                proof {
                    if m0.stack.len() > 0 {
                        assert(m0.stack[m0.stack.len() - 1] < 4096);
                        assert forall|k: int| 0 <= k < m0.stack.drop_last().len() implies #[trigger] m0.stack.drop_last()[k] < 4096 by {
                            assert(m0.stack[k] < 4096);
                        }
                    }
                }
                match self.stack.pop() {
                    Some(target) => self.program_counter = (target + 4094) % 4096,
                    None => return Err(Fault::StackUnderflow),
                }
            },
            Instruction::Jmp(address) => self.program_counter = (address + 4094) % 4096,
            Instruction::Call(address) => {
                let return_address = (self.program_counter + 2) % 4096;
                self.stack.push(return_address);
                self.program_counter = (address + 4094) % 4096;
                assert forall|k: int| 0 <= k < self@.stack.len() implies #[trigger] self@.stack[k] < 4096 by {
                    if k < m0.stack.len() {
                        assert(m0.stack[k] < 4096);
                    }
                }
            },
            Instruction::RegEqVal(register, value) => {
                if self.get_register(register) == value {
                    self.program_counter = (self.program_counter + 2) % 4096;
                }
            },
            Instruction::RegNeqVal(register, value) => {
                if self.get_register(register) != value {
                    self.program_counter = (self.program_counter + 2) % 4096;
                }
            },
            Instruction::RegEqReg(register_x, register_y) => {
                if self.get_register(register_x) == self.get_register(register_y) {
                    self.program_counter = (self.program_counter + 2) % 4096;
                }
            },
            Instruction::RegNeqReg(register_x, register_y) => {
                if self.get_register(register_x) != self.get_register(register_y) {
                    self.program_counter = (self.program_counter + 2) % 4096;
                }
            },
            Instruction::SetRegVal(register, value) => self.set_register(register, value),
            Instruction::AddRegVal(register, value) => {
                let sum = self.get_register(register).wrapping_add(value);
                self.set_register(register, sum);
            },
            Instruction::SetRegReg(register_x, register_y) => {
                let value = self.get_register(register_y);
                self.set_register(register_x, value);
            },
            Instruction::SetRegOrReg(register_x, register_y) => {
                let value = self.get_register(register_x) | self.get_register(register_y);
                self.set_register(register_x, value);
            },
            Instruction::SetRegAndReg(register_x, register_y) => {
                let value = self.get_register(register_x) & self.get_register(register_y);
                self.set_register(register_x, value);
            },
            Instruction::SetRegXorReg(register_x, register_y) => {
                let value = self.get_register(register_x) ^ self.get_register(register_y);
                self.set_register(register_x, value);
            },
            Instruction::AddRegReg(register_x, register_y) => {
                let x = self.get_register(register_x);
                let y = self.get_register(register_y);
                let carry = x as u16 + y as u16 > 255;
                self.set_register(register_x, x.wrapping_add(y));
                self.set_register(FLAG_REGISTER, if carry { 1 } else { 0 });
            },
            Instruction::SubRegReg(register_x, register_y) => {
                let x = self.get_register(register_x);
                let y = self.get_register(register_y);
                let borrow = x < y;
                self.set_register(register_x, x.wrapping_sub(y));
                self.set_register(FLAG_REGISTER, if borrow { 0 } else { 1 });
            },
            Instruction::RevRegSubReg(register_x, register_y) => {
                let x = self.get_register(register_x);
                let y = self.get_register(register_y);
                let borrow = y < x;
                self.set_register(register_x, y.wrapping_sub(x));
                self.set_register(FLAG_REGISTER, if borrow { 0 } else { 1 });
            },
            Instruction::ShiftRegRight(register) => {
                let low_bit = self.get_register(register) % 2;
                self.set_register(FLAG_REGISTER, low_bit);
                let shifted = self.get_register(register) / 2;
                self.set_register(register, shifted);
            },
            Instruction::ShiftRegLeft(register) => {
                let high_bit = self.get_register(register) / 128;
                self.set_register(FLAG_REGISTER, high_bit);
                let shifted = ((self.get_register(register) as u16 * 2) % 256) as u8;
                self.set_register(register, shifted);
            },
            Instruction::SetI(address) => self.i = address,
            Instruction::SetRegRand(register, mask) => self.set_register(register, random & mask),
            Instruction::JmpOffset(address) => {
                let target = (self.get_register(0) as u16 + address) % 4096;
                self.program_counter = (target + 4094) % 4096;
            },
            Instruction::Draw(register_x, register_y, height) => {
                let ox = self.get_register(register_x);
                let oy = self.get_register(register_y);
                let collision = self.draw(ox, oy, height, pixels);
                self.set_register(FLAG_REGISTER, if collision { 1 } else { 0 });
            },
            Instruction::KeyDown(register) => {
                if key_states[register as usize] {
                    self.program_counter = (self.program_counter + 2) % 4096;
                }
            },
            Instruction::KeyUp(register) => {
                if !key_states[register as usize] {
                    self.program_counter = (self.program_counter + 2) % 4096;
                }
            },
            Instruction::SetRegDelay(register) => {
                let delay = self.delay_timer;
                self.set_register(register, delay);
            },
            Instruction::SetRegKey(register) => {
                match Self::first_key(key_states) {
                    Some(key) => self.set_register(register, key),
                    None => self.program_counter = (self.program_counter + 4094) % 4096,
                }
            },
            Instruction::SetDelayReg(register) => self.delay_timer = self.get_register(register),
            Instruction::SetSoundReg(register) => self.sound_timer = self.get_register(register),
            Instruction::AddIReg(register) => {
                self.i = self.i.wrapping_add(self.get_register(register) as u16);
            },
            Instruction::SetISpriteReg(register) => {
                self.i = 5 * self.get_register(register) as u16;
            },
            Instruction::BCD(register) => self.store_bcd(register),
            Instruction::Dump(register) => self.dump(register),
            Instruction::Load(register) => self.load(register),
        }
        self.program_counter = (self.program_counter + 2) % 4096;
        Ok(())
    }

    /// Fetches the opcode at the program counter, decodes it and executes
    /// it. An opcode that decodes to no instruction is refused with its
    /// fault and changes nothing; so is a return with an empty call stack.
    /// Otherwise the machine moves to the instruction's `transition` for
    /// some random byte, which only `SetRegRand` reads.
    pub fn step(&mut self, pixels: &mut [u8], key_states: &[bool; 16]) -> (r: Result<(), Fault>)
        requires
            old(self)@.wf(),
            old(pixels)@.len() == FRAME_SIZE,
        ensures
            final(self)@.wf(),
            final(pixels)@.len() == FRAME_SIZE,
            match decode_spec(old(self)@.opcode()) {
                Err(e) => r == Err::<(), Fault>(e) && final(self)@ == old(self)@ && final(pixels)@
                    == old(pixels)@,
                Ok(ins) => if old(self)@.faults(ins) {
                    r == Err::<(), Fault>(Fault::StackUnderflow) && final(self)@ == old(self)@
                        && final(pixels)@ == old(pixels)@
                } else {
                    &&& r == Ok::<(), Fault>(())
                    &&& final(pixels)@ == old(self)@.frame_after(old(pixels)@, ins)
                    &&& exists|random: u8|
                        final(self)@ == #[trigger] old(self)@.transition(
                            old(pixels)@,
                            key_states@,
                            ins,
                            random,
                        )
                },
            },
    {
        let opcode = self.get_opcode();
        let instruction = match Instruction::decode(opcode) {
            Ok(instruction) => instruction,
            Err(fault) => return Err(fault),
        };
        let random = match instruction {
            Instruction::SetRegRand(_, _) => random_byte(),
            _ => 0,
        };
        let ghost m0 = self@;
        let ghost f0 = pixels@;
        let r = self.execute(instruction, pixels, key_states, random);
        assert(m0.faults(instruction) || self@ == m0.transition(f0, key_states@, instruction, random));
        r
    }

    /// The value of register `register`.
    pub fn get_register(&self, register: u8) -> (r: u8)
        requires
            self@.wf(),
            register < 16,
        ensures
            r == self@.reg(register),
    {
        self.registers[register as usize]
    }

    /// The program counter.
    pub fn program_counter(&self) -> (r: u16)
        ensures
            r == self@.pc,
    {
        self.program_counter
    }

    /// The index register `i`.
    pub fn index_register(&self) -> (r: u16)
        ensures
            r == self@.i,
    {
        self.i
    }

    /// The byte at memory address `address`.
    pub fn memory_at(&self, address: u16) -> (r: u8)
        requires
            self@.wf(),
            address < 4096,
        ensures
            r == self@.memory[address as int],
    {
        self.memory[address as usize]
    }

    /// The number of return addresses on the call stack.
    pub fn stack_depth(&self) -> (r: usize)
        ensures
            r == self@.stack.len(),
    {
        self.stack.len()
    }

    /// The delay timer.
    pub fn delay_timer(&self) -> (r: u8)
        ensures
            r == self@.delay_timer,
    {
        self.delay_timer
    }

    /// The sound timer.
    pub fn sound_timer(&self) -> (r: u8)
        ensures
            r == self@.sound_timer,
    {
        self.sound_timer
    }

    /// Sets register `register` to `value`.
    fn set_register(&mut self, register: u8, value: u8)
        requires
            old(self)@.wf(),
            register < 16,
        ensures
            final(self)@ == old(self)@.with_reg(register, value),
            final(self)@.wf(),
    {
        self.registers[register as usize] = value;
        assert(self@.registers =~= old(self)@.registers.update(register as int, value));
        assert(self@.stack == old(self)@.stack);
    }

    /// Whether bit `col` (from the most significant bit) of sprite row `row`
    /// is set.
    fn get_sprite_pixel(&self, row: u8, col: u8) -> (r: bool)
        requires
            self@.wf(),
            col < 8,
        ensures
            r == sprite_bit(self@.memory, self@.i, row as int, col as int),
    {
        let index = (self.i as usize + row as usize) % MEMORY_SIZE;
        (self.memory[index] >> (7 - col)) & 1 == 1
    }

    /// Whether pixel `p` is flipped when the sprite of `height` rows at `i`
    /// is drawn at `(ox, oy)`.
    fn covers_pixel(&self, ox: u8, oy: u8, height: u8, p: usize) -> (r: bool)
        requires
            self@.wf(),
            height < 16,
            p < SCREEN_WIDTH * SCREEN_HEIGHT,
        ensures
            r == covers(self@.memory, self@.i, ox, oy, height, p as int),
    {
        let x = p % SCREEN_WIDTH;
        let y = p / SCREEN_WIDTH;
        let row = (y + SCREEN_HEIGHT - (oy as usize % SCREEN_HEIGHT)) % SCREEN_HEIGHT;
        let col = (x + SCREEN_WIDTH - (ox as usize % SCREEN_WIDTH)) % SCREEN_WIDTH;
        row < height as usize && col < 8 && self.get_sprite_pixel(row as u8, col as u8)
    }

    /// XORs a sprite of `height` rows onto the framebuffer at `(ox, oy)`,
    /// wrapping round the screen's edges; returns whether a pixel that was
    /// on is turned off.
    fn draw(&self, ox: u8, oy: u8, height: u8, pixels: &mut [u8]) -> (collision: bool)
        requires
            self@.wf(),
            height < 16,
            old(pixels)@.len() == FRAME_SIZE,
        ensures
            final(pixels)@ == draw_frame(old(pixels)@, self@.memory, self@.i, ox, oy, height),
            collision == collides(old(pixels)@, self@.memory, self@.i, ox, oy, height),
    {
        let ghost f0 = pixels@;
        let ghost m = self@;
        let mut collision = false;
        let mut b: usize = 0;
        while b < pixels.len()
            invariant
                self@ == m,
                m.wf(),
                height < 16,
                f0.len() == FRAME_SIZE,
                pixels@.len() == FRAME_SIZE,
                b <= FRAME_SIZE,
                forall|k: int|
                    0 <= k < b ==> #[trigger] pixels@[k] == draw_frame(
                        f0,
                        m.memory,
                        m.i,
                        ox,
                        oy,
                        height,
                    )[k],
                forall|k: int| b <= k < FRAME_SIZE ==> #[trigger] pixels@[k] == f0[k],
                collision == exists|k: int|
                    0 <= k < b && covers(m.memory, m.i, ox, oy, height, k / 4) && #[trigger] f0[k]
                        != 0,
            decreases FRAME_SIZE - b,
        {
            let covered = self.covers_pixel(ox, oy, height, b / BYTES_PER_PIXEL);
            if covered {
                if pixels[b] != 0 {
                    collision = true;
                }
                pixels[b] = pixels[b] ^ 0xFF;
            }
            b += 1;
        }
        assert(pixels@ =~= draw_frame(f0, m.memory, m.i, ox, oy, height));
        collision
    }

    /// The opcode at the program counter: two bytes, big-endian.
    fn get_opcode(&self) -> (r: u16)
        requires
            self@.wf(),
        ensures
            r == self@.opcode(),
    {
        let pc = self.program_counter as usize;
        (self.memory[pc] as u16) * 256 + (self.memory[(pc + 1) % MEMORY_SIZE] as u16)
    }
}

} // verus!
