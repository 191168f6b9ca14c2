//! The mathematical model of the machine and the meaning of each
//! instruction over it.
//!
//! Memory is addressed modulo its 4 KiB size: the program counter always
//! stays below 4096, and every access through the index register `i`
//! (sprites, BCD digits, register dumps and loads) wraps round to address 0.
//! The call stack has no depth limit.

use vstd::prelude::*;
use crate::instruction::{Fault, Instruction};

verus! {

/// Bytes of addressable memory.
pub const MEMORY_SIZE: usize = 4096;

/// Address at which programs are loaded and execution starts.
pub const PROGRAM_START_ADDRESS: usize = 0x200;

/// Width of the display in pixels.
pub const SCREEN_WIDTH: usize = 64;

/// Height of the display in pixels.
pub const SCREEN_HEIGHT: usize = 32;

/// Bytes of framebuffer per pixel.
pub const BYTES_PER_PIXEL: usize = 4;

/// Size of the framebuffer in bytes.
pub const FRAME_SIZE: usize = 8192;

/// Register that holds the carry, borrow and collision flag.
pub const FLAG_REGISTER: u8 = 0xF;

/// The machine state as mathematical values.
pub struct Machine {
    pub pc: u16,
    pub registers: Seq<u8>,
    pub stack: Seq<u16>,
    pub i: u16,
    pub memory: Seq<u8>,
    pub delay_timer: u8,
    pub sound_timer: u8,
}

/// The built-in glyphs of the hexadecimal digits 0 to F, five bytes each.
pub open spec fn font() -> Seq<u8> {
    seq![
        0xF0u8, 0x90, 0x90, 0x90, 0xF0,
        0x20, 0x60, 0x20, 0x20, 0x70,
        0xF0, 0x10, 0xF0, 0x80, 0xF0,
        0xF0, 0x10, 0xF0, 0x10, 0xF0,
        0x90, 0x90, 0xF0, 0x10, 0x10,
        0xF0, 0x80, 0xF0, 0x10, 0xF0,
        0xF0, 0x80, 0xF0, 0x90, 0xF0,
        0xF0, 0x10, 0x20, 0x40, 0x40,
        0xF0, 0x90, 0xF0, 0x90, 0xF0,
        0xF0, 0x90, 0xF0, 0x10, 0xF0,
        0xF0, 0x90, 0xF0, 0x90, 0x90,
        0xE0, 0x90, 0xE0, 0x90, 0xE0,
        0xF0, 0x80, 0x80, 0x80, 0xF0,
        0xE0, 0x90, 0x90, 0x90, 0xE0,
        0xF0, 0x80, 0xF0, 0x80, 0xF0,
        0xF0, 0x80, 0xF0, 0x80, 0x80
    ]
}

/// The memory address `k` bytes past `base`, wrapping round the 4 KiB space.
pub open spec fn address(base: int, k: int) -> int {
    (base + k) % 4096
}

/// The program counter `n` bytes past `pc`, wrapping round memory.
pub open spec fn advance(pc: u16, n: int) -> u16 {
    address(pc as int, n) as u16
}

/// `a - b` modulo 256.
pub open spec fn wrapping_sub(a: u8, b: u8) -> u8 {
    ((a as int - b as int + 256) % 256) as u8
}

/// Whether bit `col` (counted from the most significant bit) of sprite row
/// `row` is set, the sprite starting at address `i`.
pub open spec fn sprite_bit(memory: Seq<u8>, i: u16, row: int, col: int) -> bool {
    (memory[address(i as int, row)] >> ((7 - col) as u8)) & 1u8 == 1u8
}

/// The sprite row that covers screen row `y`, for a sprite whose top edge is
/// at `oy`, wrapping round the screen's height.
pub open spec fn sprite_row(oy: u8, y: int) -> int {
    (y + 32 - (oy as int % 32)) % 32
}

/// The sprite column that covers screen column `x`, for a sprite whose left
/// edge is at `ox`, wrapping round the screen's width.
pub open spec fn sprite_col(ox: u8, x: int) -> int {
    (x + 64 - (ox as int % 64)) % 64
}

/// Whether pixel `p` (row-major, 64 per row) is flipped when a sprite of
/// `height` rows at address `i` is drawn at `(ox, oy)`.
pub open spec fn covers(memory: Seq<u8>, i: u16, ox: u8, oy: u8, height: u8, p: int) -> bool {
    let row = sprite_row(oy, p / 64);
    let col = sprite_col(ox, p % 64);
    row < height && col < 8 && sprite_bit(memory, i, row, col)
}

/// The framebuffer after the sprite is drawn: each byte of a covered pixel is
/// XORed with 0xFF, every other byte stays.
pub open spec fn draw_frame(
    frame: Seq<u8>,
    memory: Seq<u8>,
    i: u16,
    ox: u8,
    oy: u8,
    height: u8,
) -> Seq<u8> {
    Seq::new(
        frame.len(),
        |b: int|
            if covers(memory, i, ox, oy, height, b / 4) {
                frame[b] ^ 0xFFu8
            } else {
                frame[b]
            },
    )
}

/// Whether drawing the sprite turns off a pixel that was on: some byte of a
/// covered pixel is nonzero.
pub open spec fn collides(
    frame: Seq<u8>,
    memory: Seq<u8>,
    i: u16,
    ox: u8,
    oy: u8,
    height: u8,
) -> bool {
    exists|b: int|
        0 <= b < frame.len() && covers(memory, i, ox, oy, height, b / 4) && #[trigger] frame[b]
            != 0
}

/// The lowest-numbered pressed key at index `k` or above.
pub open spec fn first_pressed_from(keys: Seq<bool>, k: int) -> Option<u8>
    decreases 16 - k,
{
    if k >= 16 || k < 0 {
        None
    } else if keys[k] {
        Some(k as u8)
    } else {
        first_pressed_from(keys, k + 1)
    }
}

/// The lowest-numbered pressed key, if any key is pressed.
pub open spec fn first_pressed(keys: Seq<bool>) -> Option<u8> {
    first_pressed_from(keys, 0)
}

impl Machine {
    /// The shape every reachable state has.
    pub open spec fn wf(self) -> bool {
        &&& self.registers.len() == 16
        &&& self.memory.len() == 4096
        &&& self.pc < 4096
        &&& forall|k: int| 0 <= k < self.stack.len() ==> #[trigger] self.stack[k] < 4096
    }

    /// The state right after initialization: the font at address 0, the
    /// program counter at 0x200, everything else zero or empty.
    pub open spec fn initial() -> Machine {
        Machine {
            pc: 0x200,
            registers: Seq::new(16, |k: int| 0u8),
            stack: Seq::empty(),
            i: 0,
            memory: Seq::new(4096, |a: int| if a < 80 { font()[a] } else { 0u8 }),
            delay_timer: 0,
            sound_timer: 0,
        }
    }

    /// The opcode at the program counter: two bytes, big-endian.
    pub open spec fn opcode(self) -> u16 {
        (self.memory[self.pc as int] as int * 256 + self.memory[address(
            self.pc as int,
            1,
        )] as int) as u16
    }

    /// The value of register `x`.
    pub open spec fn reg(self, x: u8) -> u8 {
        self.registers[x as int]
    }

    /// The state with register `x` set to `v`.
    pub open spec fn with_reg(self, x: u8, v: u8) -> Machine {
        Machine { registers: self.registers.update(x as int, v), ..self }
    }

    /// The state with the program counter set to `pc`.
    pub open spec fn with_pc(self, pc: u16) -> Machine {
        Machine { pc, ..self }
    }

    /// Whether executing `ins` halts the machine: a return with no caller.
    pub open spec fn faults(self, ins: Instruction) -> bool {
        ins == Instruction::Ret && self.stack.len() == 0
    }

    /// Both timers one tick later: each decremented, but not below zero.
    pub open spec fn ticked(self) -> Machine {
        Machine {
            delay_timer: if self.delay_timer > 0 { (self.delay_timer - 1) as u8 } else { 0 },
            sound_timer: if self.sound_timer > 0 { (self.sound_timer - 1) as u8 } else { 0 },
            ..self
        }
    }

    /// The memory with the registers 0 to `x` stored from address `i` on.
    pub open spec fn dumped(self, x: u8) -> Seq<u8> {
        Seq::new(
            4096,
            |a: int|
                if (a - self.i) % 4096 <= x {
                    self.registers[(a - self.i) % 4096]
                } else {
                    self.memory[a]
                },
        )
    }

    /// The registers with 0 to `x` loaded from address `i` on.
    pub open spec fn loaded(self, x: u8) -> Seq<u8> {
        Seq::new(
            16,
            |k: int|
                if k <= x {
                    self.memory[address(self.i as int, k)]
                } else {
                    self.registers[k]
                },
        )
    }

    /// The state after `ins` runs without fault, with `frame` the framebuffer
    /// before it, `keys` the pressed keys and `random` the byte drawn for a
    /// random instruction.
    pub open spec fn transition(
        self,
        frame: Seq<u8>,
        keys: Seq<bool>,
        ins: Instruction,
        random: u8,
    ) -> Machine {
        let next = advance(self.pc, 2);
        let skip = advance(self.pc, 4);
        match ins {
            Instruction::Clear | Instruction::NoOp => self.with_pc(next),
            Instruction::Ret => Machine {
                pc: self.stack.last(),
                stack: self.stack.drop_last(),
                ..self
            },
            Instruction::Jmp(a) => self.with_pc(a),
            Instruction::Call(a) => Machine { pc: a, stack: self.stack.push(next), ..self },
            Instruction::RegEqVal(x, v) => self.with_pc(
                if self.reg(x) == v { skip } else { next },
            ),
            Instruction::RegNeqVal(x, v) => self.with_pc(
                if self.reg(x) != v { skip } else { next },
            ),
            Instruction::RegEqReg(x, y) => self.with_pc(
                if self.reg(x) == self.reg(y) { skip } else { next },
            ),
            Instruction::RegNeqReg(x, y) => self.with_pc(
                if self.reg(x) != self.reg(y) { skip } else { next },
            ),
            Instruction::SetRegVal(x, v) => self.with_reg(x, v).with_pc(next),
            Instruction::AddRegVal(x, v) => self.with_reg(
                x,
                ((self.reg(x) + v) % 256) as u8,
            ).with_pc(next),
            Instruction::SetRegReg(x, y) => self.with_reg(x, self.reg(y)).with_pc(next),
            Instruction::SetRegOrReg(x, y) => self.with_reg(x, self.reg(x) | self.reg(y)).with_pc(
                next,
            ),
            Instruction::SetRegAndReg(x, y) => self.with_reg(
                x,
                self.reg(x) & self.reg(y),
            ).with_pc(next),
            Instruction::SetRegXorReg(x, y) => self.with_reg(
                x,
                self.reg(x) ^ self.reg(y),
            ).with_pc(next),
            Instruction::AddRegReg(x, y) => self.with_reg(
                x,
                ((self.reg(x) + self.reg(y)) % 256) as u8,
            ).with_reg(15, if self.reg(x) + self.reg(y) > 255 { 1 } else { 0 }).with_pc(next),
            Instruction::SubRegReg(x, y) => self.with_reg(
                x,
                wrapping_sub(self.reg(x), self.reg(y)),
            ).with_reg(15, if self.reg(x) >= self.reg(y) { 1 } else { 0 }).with_pc(next),
            Instruction::RevRegSubReg(x, y) => self.with_reg(
                x,
                wrapping_sub(self.reg(y), self.reg(x)),
            ).with_reg(15, if self.reg(y) >= self.reg(x) { 1 } else { 0 }).with_pc(next),
            Instruction::ShiftRegRight(x) => {
                let flagged = self.with_reg(15, self.reg(x) % 2);
                flagged.with_reg(x, flagged.reg(x) / 2).with_pc(next)
            },
            Instruction::ShiftRegLeft(x) => {
                let flagged = self.with_reg(15, self.reg(x) / 128);
                flagged.with_reg(x, ((flagged.reg(x) * 2) % 256) as u8).with_pc(next)
            },
            Instruction::SetI(a) => Machine { i: a, ..self }.with_pc(next),
            Instruction::SetRegRand(x, mask) => self.with_reg(x, random & mask).with_pc(next),
            Instruction::JmpOffset(a) => self.with_pc(address(self.reg(0) as int, a as int) as u16),
            Instruction::Draw(x, y, n) => self.with_reg(
                15,
                if collides(frame, self.memory, self.i, self.reg(x), self.reg(y), n) {
                    1
                } else {
                    0
                },
            ).with_pc(next),
            // The key tested is the one numbered by the instruction's
            // register field.
            Instruction::KeyDown(x) => self.with_pc(if keys[x as int] { skip } else { next }),
            Instruction::KeyUp(x) => self.with_pc(if !keys[x as int] { skip } else { next }),
            Instruction::SetRegDelay(x) => self.with_reg(x, self.delay_timer).with_pc(next),
            Instruction::SetRegKey(x) => match first_pressed(keys) {
                Some(k) => self.with_reg(x, k).with_pc(next),
                None => self,
            },
            Instruction::SetDelayReg(x) => Machine { delay_timer: self.reg(x), ..self }.with_pc(
                next,
            ),
            Instruction::SetSoundReg(x) => Machine { sound_timer: self.reg(x), ..self }.with_pc(
                next,
            ),
            Instruction::AddIReg(x) => Machine {
                i: ((self.i + self.reg(x)) % 65536) as u16,
                ..self
            }.with_pc(next),
            Instruction::SetISpriteReg(x) => Machine { i: (5 * self.reg(x)) as u16, ..self }.with_pc(
                next,
            ),
            Instruction::BCD(x) => Machine {
                memory: self.memory.update(address(self.i as int, 0), self.reg(x) / 100).update(
                    address(self.i as int, 1),
                    (self.reg(x) / 10) % 10,
                ).update(address(self.i as int, 2), self.reg(x) % 10),
                ..self
            }.with_pc(next),
            Instruction::Dump(x) => Machine { memory: self.dumped(x), ..self }.with_pc(next),
            Instruction::Load(x) => Machine { registers: self.loaded(x), ..self }.with_pc(next),
        }
    }

    /// The framebuffer after `ins` runs: cleared by `Clear`, drawn on by
    /// `Draw`, unchanged by every other instruction.
    pub open spec fn frame_after(self, frame: Seq<u8>, ins: Instruction) -> Seq<u8> {
        match ins {
            Instruction::Clear => Seq::new(frame.len(), |b: int| 0u8),
            Instruction::Draw(x, y, n) => draw_frame(
                frame,
                self.memory,
                self.i,
                self.reg(x),
                self.reg(y),
                n,
            ),
            _ => frame,
        }
    }
}

/// The state after initialization is well formed and holds the glyph table
/// at addresses 0 to 79.
pub proof fn lemma_initial_state()
    ensures
        Machine::initial().wf(),
        Machine::initial().memory.subrange(0, 80) == font(),
{
    assert(Machine::initial().memory.subrange(0, 80) =~= font());
}

/// Adding register `y` (value `b`) to register `x` (value `a`) leaves
/// `(a + b) mod 256` in `x` and sets the flag exactly when `a + b` exceeds
/// 255. The flag register itself as `x` is left out: the flag overwrites the
/// sum there.
pub proof fn lemma_add_carry(
    m: Machine,
    frame: Seq<u8>,
    keys: Seq<bool>,
    random: u8,
    x: u8,
    y: u8,
    a: u8,
    b: u8,
)
    requires
        m.wf(),
        x < 15,
        y < 16,
        m.reg(x) == a,
        m.reg(y) == b,
    ensures
        ({
            let after = m.transition(frame, keys, Instruction::AddRegReg(x, y), random);
            &&& after.reg(x) as int == (a as int + b as int) % 256
            &&& after.reg(15) == (if a as int + b as int > 255 { 1u8 } else { 0u8 })
        }),
{
}

/// Subtracting register `y` (value `b`) from register `x` (value `a`) leaves
/// `(a - b) mod 256` in `x` and sets the flag to 1 exactly when no borrow
/// occurs, `a >= b`. The flag register itself as `x` is left out.
pub proof fn lemma_sub_borrow(
    m: Machine,
    frame: Seq<u8>,
    keys: Seq<bool>,
    random: u8,
    x: u8,
    y: u8,
    a: u8,
    b: u8,
)
    requires
        m.wf(),
        x < 15,
        y < 16,
        m.reg(x) == a,
        m.reg(y) == b,
    ensures
        ({
            let after = m.transition(frame, keys, Instruction::SubRegReg(x, y), random);
            &&& after.reg(x) as int == (a as int - b as int) % 256
            &&& after.reg(15) == (if a >= b { 1u8 } else { 0u8 })
        }),
{
}

/// With the glyph table loaded, pointing `i` at the glyph of digit `d`
/// gives `i == 5 * d`, and the five bytes from `i` on are that glyph.
pub proof fn lemma_glyph_lookup(
    m: Machine,
    frame: Seq<u8>,
    keys: Seq<bool>,
    random: u8,
    x: u8,
    d: u8,
)
    requires
        m.wf(),
        m.memory.subrange(0, 80) == font(),
        x < 16,
        m.reg(x) == d,
        d < 16,
    ensures
        ({
            let after = m.transition(frame, keys, Instruction::SetISpriteReg(x), random);
            &&& after.i == 5 * d
            &&& after.memory.subrange(after.i as int, after.i + 5) == font().subrange(
                5 * d,
                5 * d + 5,
            )
        }),
{
    let after = m.transition(frame, keys, Instruction::SetISpriteReg(x), random);
    assert forall|k: int| 0 <= k < 5 implies #[trigger] after.memory.subrange(
        after.i as int,
        after.i + 5,
    )[k] == font().subrange(5 * d, 5 * d + 5)[k] by {
        assert(m.memory.subrange(0, 80)[5 * d + k] == m.memory[5 * d + k]);
    }
    assert(after.memory.subrange(after.i as int, after.i + 5) =~= font().subrange(
        5 * d,
        5 * d + 5,
    ));
}

/// Flipping every bit twice gives the byte back; flipping a zero byte gives
/// a nonzero one.
proof fn lemma_xor_twice(v: u8)
    ensures
        (v ^ 0xFFu8) ^ 0xFFu8 == v,
        v == 0 ==> v ^ 0xFFu8 != 0,
        v ^ 0xFFu8 != 0 ==> v != 0xFFu8,
{
    assert((v ^ 0xFFu8) ^ 0xFFu8 == v) by (bit_vector);
    assert(v == 0 ==> v ^ 0xFFu8 != 0) by (bit_vector);
    assert(v ^ 0xFFu8 != 0 ==> v != 0xFFu8) by (bit_vector);
}

/// Drawing the same sprite at the same place twice in a row restores the
/// framebuffer, and the second draw reports a collision when the first
/// turned some pixel on; where every byte of the framebuffer is 0x00 or
/// 0xFF, only then. Origins held in the flag register are left out: the
/// first draw overwrites them.
pub proof fn lemma_draw_twice(
    m: Machine,
    frame: Seq<u8>,
    keys: Seq<bool>,
    random: u8,
    x: u8,
    y: u8,
    n: u8,
)
    requires
        m.wf(),
        frame.len() == FRAME_SIZE,
        x < 15,
        y < 15,
        n < 16,
    ensures
        ({
            let ins = Instruction::Draw(x, y, n);
            let m1 = m.transition(frame, keys, ins, random);
            let f1 = m.frame_after(frame, ins);
            let m2 = m1.transition(f1, keys, ins, random);
            let f2 = m1.frame_after(f1, ins);
            &&& f2 == frame
            &&& (exists|b: int| 0 <= b < frame.len() && frame[b] == 0 && #[trigger] f1[b] != 0)
                ==> m2.reg(15) == 1
            &&& (forall|b: int| 0 <= b < frame.len() ==> #[trigger] frame[b] == 0 || frame[b] == 0xFF)
                ==> (m2.reg(15) == 1 <==> exists|b: int|
                0 <= b < frame.len() && frame[b] == 0 && #[trigger] f1[b] != 0)
        }),
{
    let ins = Instruction::Draw(x, y, n);
    let m1 = m.transition(frame, keys, ins, random);
    let f1 = m.frame_after(frame, ins);
    let f2 = m1.frame_after(f1, ins);
    assert(m1.memory == m.memory && m1.i == m.i && m1.reg(x) == m.reg(x) && m1.reg(y) == m.reg(y));
    assert forall|b: int| 0 <= b < frame.len() implies #[trigger] f2[b] == frame[b] by {
        lemma_xor_twice(frame[b]);
    }
    assert(f2 =~= frame);
    if exists|b: int| 0 <= b < frame.len() && frame[b] == 0 && #[trigger] f1[b] != 0 {
        let b = choose|b: int| 0 <= b < frame.len() && frame[b] == 0 && #[trigger] f1[b] != 0;
        assert(covers(m.memory, m.i, m.reg(x), m.reg(y), n, b / 4));
        assert(collides(f1, m1.memory, m1.i, m1.reg(x), m1.reg(y), n));
    }
    if collides(f1, m1.memory, m1.i, m1.reg(x), m1.reg(y), n) {
        let b = choose|b: int|
            0 <= b < f1.len() && covers(m1.memory, m1.i, m1.reg(x), m1.reg(y), n, b / 4)
                && #[trigger] f1[b] != 0;
        lemma_xor_twice(frame[b]);
        if forall|c: int| 0 <= c < frame.len() ==> #[trigger] frame[c] == 0 || frame[c] == 0xFF {
            assert(frame[b] == 0 || frame[b] == 0xFF);
            assert(frame[b] == 0 && f1[b] != 0);
        }
    }
}

/// A sprite wraps round the screen: its bit at `(row, col)` lands on screen
/// column `(ox + col) mod 64` and row `(oy + row) mod 32`, and that pixel is
/// flipped exactly when the bit is set.
pub proof fn lemma_draw_wraps(
    memory: Seq<u8>,
    i: u16,
    ox: u8,
    oy: u8,
    height: u8,
    row: int,
    col: int,
)
    requires
        0 <= row < height,
        height < 16,
        0 <= col < 8,
    ensures
        covers(
            memory,
            i,
            ox,
            oy,
            height,
            ((oy + row) % 32) * 64 + (ox + col) % 64,
        ) == sprite_bit(memory, i, row, col),
{
    let sx = (ox + col) % 64;
    let sy = (oy + row) % 32;
    let p = sy * 64 + sx;
    assert(p / 64 == sy && p % 64 == sx) by (nonlinear_arith)
        requires
            p == sy * 64 + sx,
            0 <= sx < 64,
            0 <= sy < 32,
    ;
    assert(sprite_row(oy, sy) == row);
    assert(sprite_col(ox, sx) == col);
}

/// Every key at index `start` or above that is pressed, with none pressed
/// between `start` and it, is the one found; with none pressed, none is.
pub proof fn lemma_first_pressed_from(keys: Seq<bool>, start: int)
    requires
        0 <= start <= 16,
        keys.len() == 16,
    ensures
        (forall|j: int| start <= j < 16 ==> !keys[j]) ==> first_pressed_from(keys, start)
            == None::<u8>,
        forall|k: int|
            start <= k < 16 && keys[k] && (forall|j: int| start <= j < k ==> !keys[j])
                ==> first_pressed_from(keys, start) == Some(k as u8),
    decreases 16 - start,
{
    if start < 16 {
        lemma_first_pressed_from(keys, start + 1);
    }
}

/// Waiting for a key with no key pressed leaves the machine as it was, so
/// the same instruction runs again; with keys pressed, the lowest-numbered
/// one is stored and execution moves on.
pub proof fn lemma_key_wait(
    m: Machine,
    frame: Seq<u8>,
    keys: Seq<bool>,
    random: u8,
    x: u8,
)
    requires
        m.wf(),
        keys.len() == 16,
        x < 16,
    ensures
        ({
            let after = m.transition(frame, keys, Instruction::SetRegKey(x), random);
            &&& (forall|j: int| 0 <= j < 16 ==> !keys[j]) ==> after == m
            &&& forall|k: int|
                0 <= k < 16 && keys[k] && (forall|j: int| 0 <= j < k ==> !keys[j]) ==> {
                    &&& after.reg(x) == k
                    &&& after.pc == advance(m.pc, 2)
                }
        }),
{
    lemma_first_pressed_from(keys, 0);
}

} // verus!
