//! The executable interpreter: the machine state as it is held at run time,
//! and the operations a host drives it with. Every operation is proved to
//! follow the transition functions of the `state` module.

use crate::state::covers_prefix;
use crate::state::first_pressed_from;
use crate::state::spec_draw;
use crate::state::spec_draw_collision;
use crate::state::spec_draw_video;
use crate::state::spec_fontset;
use crate::state::spec_load;
use crate::state::lemma_decode_bounds;
use crate::state::lemma_toggle_bits;
use crate::state::spec_cycle;
use crate::state::spec_exec;
use crate::state::spec_fetch;
use crate::state::spec_load_regs;
use crate::state::spec_new;
use crate::state::spec_store_regs;
use crate::state::StepStatus;
use crate::state::sprite_row;
use crate::state::State;
use crate::state::KEY_COUNT;
use crate::state::MAX_ROM_SIZE;
use crate::state::MEMORY_SIZE;
use crate::state::PIXEL_ON;
use crate::state::REGISTER_COUNT;
use crate::state::START_ADDRESS;
use crate::state::VIDEO_HEIGHT;
use crate::state::VIDEO_WIDTH;
use vstd::arithmetic::div_mod::lemma_fundamental_div_mod;
use vstd::arithmetic::div_mod::lemma_fundamental_div_mod_converse;
use vstd::prelude::*;

verus! {

/// Error from loading a program image.
#[derive(Clone, Copy, Debug, PartialEq, Eq, Structural)]
pub enum LoadError {
    /// The image does not fit between `START_ADDRESS` and the end of memory.
    TooLarge,
}

/// The machine: memory, registers, timers, stack, keypad and display.
pub struct Chip8 {
    registers: Vec<u8>,
    memory: Vec<u8>,
    index: u16,
    pc: u16,
    stack: Vec<u16>,
    sp: u8,
    delay_timer: u8,
    sound_timer: u8,
    keypad: Vec<bool>,
    video: Vec<u32>,
}

impl View for Chip8 {
    type V = State;

    closed spec fn view(&self) -> State {
        State {
            regs: self.registers@,
            mem: self.memory@,
            index: self.index,
            pc: self.pc,
            stack: self.stack@,
            sp: self.sp,
            delay: self.delay_timer,
            sound: self.sound_timer,
            keys: self.keypad@,
            video: self.video@,
        }
    }
}

/// A vector of `n` copies of one value.
fn filled<T: Copy>(n: usize, value: T) -> (v: Vec<T>)
    ensures
        v@ == Seq::new(n as nat, |i: int| value),
{
    let mut v: Vec<T> = Vec::new();
    while v.len() < n
        invariant
            v@.len() <= n,
            forall|i: int| 0 <= i < v@.len() ==> v@[i] == value,
        decreases n - v.len(),
    {
        v.push(value);
    }
    proof {
        assert(v@ =~= Seq::new(n as nat, |i: int| value));
    }
    v
}

/// The built-in font as bytes, five per glyph.
fn fontset() -> (v: Vec<u8>)
    ensures
        v@ == spec_fontset(),
{
    let v: Vec<u8> = vec![
        0xF0, 0x90, 0x90, 0x90, 0xF0, // 0
        0x20, 0x60, 0x20, 0x20, 0x70, // 1
        0xF0, 0x10, 0xF0, 0x80, 0xF0, // 2
        0xF0, 0x10, 0xF0, 0x10, 0xF0, // 3
        0x90, 0x90, 0xF0, 0x10, 0x10, // 4
        0xF0, 0x80, 0xF0, 0x10, 0xF0, // 5
        0xF0, 0x80, 0xF0, 0x90, 0xF0, // 6
        0xF0, 0x10, 0x20, 0x40, 0x40, // 7
        0xF0, 0x90, 0xF0, 0x90, 0xF0, // 8
        0xF0, 0x90, 0xF0, 0x10, 0xF0, // 9
        0xF0, 0x90, 0xF0, 0x90, 0x90, // A
        0xE0, 0x90, 0xE0, 0x90, 0xE0, // B
        0xF0, 0x80, 0x80, 0x80, 0xF0, // C
        0xE0, 0x90, 0x90, 0x90, 0xE0, // D
        0xF0, 0x80, 0xF0, 0x80, 0xF0, // E
        0xF0, 0x80, 0xF0, 0x80, 0x80, // F
    ];
    proof {
        assert(v@ =~= spec_fontset());
    }
    v
}

impl Chip8 {
    /// A fresh machine: memory zeroed except for the font, the program
    /// counter at `START_ADDRESS`, and every register, timer, key and
    /// display cell cleared.
    pub fn new() -> (c: Chip8)
        ensures
            c@ == spec_new(),
            c@.wf(),
    {
        let mut memory: Vec<u8> = filled(4096, 0u8);
        let font = fontset();
        let mut k: usize = 0;
        while k < 80
            invariant
                memory@.len() == 4096,
                font@ == spec_fontset(),
                k <= 80,
                forall|i: int| 0 <= i < 4096 && !(0x50 <= i < 0x50 + k) ==> memory@[i] == 0u8,
                forall|i: int| 0x50 <= i < 0x50 + k ==> memory@[i] == spec_fontset()[i - 0x50],
            decreases 80 - k,
        {
            memory[0x50 + k] = font[k];
            k += 1;
        }
        let c = Chip8 {
            registers: filled(16, 0u8),
            memory,
            index: 0,
            pc: START_ADDRESS,
            stack: filled(16, 0u16),
            sp: 0,
            delay_timer: 0,
            sound_timer: 0,
            keypad: filled(16, false),
            video: filled(2048, 0u32),
        };
        proof {
            assert(c@.mem =~= spec_new().mem);
            assert(c@ =~= spec_new());
        }
        c
    }

    /// Install a program image at `START_ADDRESS`. An image longer than
    /// `MAX_ROM_SIZE` bytes is rejected whole: the machine is left exactly
    /// as it was, never partially loaded.
    pub fn load_rom(&mut self, rom: &[u8]) -> (r: Result<(), LoadError>)
        requires
            old(self)@.wf(),
        ensures
            final(self)@.wf(),
            rom@.len() <= MAX_ROM_SIZE ==> r == Ok::<(), LoadError>(()) && final(self)@
                == spec_load(old(self)@, rom@),
            rom@.len() > MAX_ROM_SIZE ==> r == Err::<(), LoadError>(LoadError::TooLarge)
                && final(self)@ == old(self)@,
    {
        if rom.len() > MAX_ROM_SIZE {
            return Err(LoadError::TooLarge);
        }
        let mut i: usize = 0;
        while i < rom.len()
            invariant
                old(self)@.wf(),
                rom@.len() <= MAX_ROM_SIZE,
                i <= rom@.len(),
                self.memory@.len() == 4096,
                forall|j: int| 0 <= j < i ==> self.memory@[0x200 + j] == rom@[j],
                forall|j: int|
                    0 <= j < 4096 && !(0x200 <= j < 0x200 + i) ==> self.memory@[j] == old(
                        self,
                    )@.mem[j],
                self.registers@ == old(self)@.regs,
                self.index == old(self)@.index,
                self.pc == old(self)@.pc,
                self.stack@ == old(self)@.stack,
                self.sp == old(self)@.sp,
                self.delay_timer == old(self)@.delay,
                self.sound_timer == old(self)@.sound,
                self.keypad@ == old(self)@.keys,
                self.video@ == old(self)@.video,
            decreases rom@.len() - i,
        {
            self.memory[0x200 + i] = rom[i];
            i += 1;
        }
        proof {
            assert(self@.mem =~= spec_load(old(self)@, rom@).mem);
            assert(self@ =~= spec_load(old(self)@, rom@));
        }
        Ok(())
    }

    /// The lowest-numbered key currently pressed, if any.
    fn first_pressed(&self) -> (r: Option<u8>)
        requires
            self@.wf(),
        ensures
            r == first_pressed_from(self@.keys, 0),
    {
        let mut i: usize = 0;
        while i < 16
            invariant
                self@.wf(),
                i <= 16,
                first_pressed_from(self@.keys, 0) == first_pressed_from(self@.keys, i as int),
            decreases 16 - i,
        {
            if self.keypad[i] {
                return Some(i as u8);
            }
            i += 1;
        }
        None
    }

    /// Store registers V0..=Vx into memory at the index register.
    fn store_registers(&mut self, xi: usize)
        requires
            old(self)@.wf(),
            xi < 16,
        ensures
            final(self)@ == (State {
                mem: spec_store_regs(old(self)@.mem, old(self)@.regs, old(self)@.index, xi as int),
                ..old(self)@
            }),
            final(self)@.wf(),
    {
        let mut i: usize = 0;
        while i <= xi
            invariant
                old(self)@.wf(),
                xi < 16,
                i <= xi + 1,
                self.memory@ == spec_store_regs(
                    old(self)@.mem,
                    old(self)@.regs,
                    old(self)@.index,
                    i as int - 1,
                ),
                self.memory@.len() == 4096,
                self.registers@ == old(self)@.regs,
                self.index == old(self)@.index,
                self.pc == old(self)@.pc,
                self.stack@ == old(self)@.stack,
                self.sp == old(self)@.sp,
                self.delay_timer == old(self)@.delay,
                self.sound_timer == old(self)@.sound,
                self.keypad@ == old(self)@.keys,
                self.video@ == old(self)@.video,
            decreases xi + 1 - i,
        {
            let addr = (self.index as usize + i) % 4096;
            self.memory[addr] = self.registers[i];
            i += 1;
        }
    }

    /// Load registers V0..=Vx from memory at the index register.
    fn load_registers(&mut self, xi: usize)
        requires
            old(self)@.wf(),
            xi < 16,
        ensures
            final(self)@ == (State {
                regs: spec_load_regs(old(self)@.regs, old(self)@.mem, old(self)@.index, xi as int),
                ..old(self)@
            }),
            final(self)@.wf(),
    {
        let mut i: usize = 0;
        while i <= xi
            invariant
                old(self)@.wf(),
                xi < 16,
                i <= xi + 1,
                self.registers@ == spec_load_regs(
                    old(self)@.regs,
                    old(self)@.mem,
                    old(self)@.index,
                    i as int - 1,
                ),
                self.registers@.len() == 16,
                self.memory@ == old(self)@.mem,
                self.index == old(self)@.index,
                self.pc == old(self)@.pc,
                self.stack@ == old(self)@.stack,
                self.sp == old(self)@.sp,
                self.delay_timer == old(self)@.delay,
                self.sound_timer == old(self)@.sound,
                self.keypad@ == old(self)@.keys,
                self.video@ == old(self)@.video,
            decreases xi + 1 - i,
        {
            let addr = (self.index as usize + i) % 4096;
            self.registers[i] = self.memory[addr];
            i += 1;
        }
    }

    /// XOR-draw the `n`-row sprite held in memory at the index register onto
    /// the display, at the position held in registers `xi` and `yi`; VF
    /// records whether any lit cell was turned dark.
    fn draw_sprite(&mut self, xi: usize, yi: usize, n: u8)
        requires
            old(self)@.wf(),
            xi < 16,
            yi < 16,
            n <= 15,
        ensures
            final(self)@ == spec_draw(old(self)@, xi as int, yi as int, n as int),
            final(self)@.wf(),
    {
        let ghost s0 = old(self)@;
        let xp = (self.registers[xi] as usize) % 64;
        let yp = (self.registers[yi] as usize) % 32;
        let ghost gx = xp as int;
        let ghost gy = yp as int;
        let mut collided = false;
        let nrows = n as usize;
        let mut row: usize = 0;
        while row < nrows
            invariant
                s0.wf(),
                s0 == old(self)@,
                xi < 16,
                yi < 16,
                xp < 64,
                yp < 32,
                nrows == n,
                n <= 15,
                row <= nrows,
                gx == xp as int,
                gy == yp as int,
                gx == s0.regs[xi as int] as int % 64,
                gy == s0.regs[yi as int] as int % 32,
                self.registers@ == s0.regs,
                self.memory@ == s0.mem,
                self.index == s0.index,
                self.pc == s0.pc,
                self.stack@ == s0.stack,
                self.sp == s0.sp,
                self.delay_timer == s0.delay,
                self.sound_timer == s0.sound,
                self.keypad@ == s0.keys,
                self.video@.len() == 2048,
                forall|j: int|
                    0 <= j < 2048 ==> self.video@[j] == (if covers_prefix(
                        s0,
                        gx,
                        gy,
                        row as int,
                        0,
                        j,
                    ) {
                        s0.video[j] ^ PIXEL_ON
                    } else {
                        s0.video[j]
                    }),
                collided <==> exists|j: int|
                    0 <= j < 2048 && covers_prefix(s0, gx, gy, row as int, 0, j) && s0.video[j]
                        == PIXEL_ON,
            decreases nrows - row,
        {
            let sprite_byte = self.memory[(self.index as usize + row) % 4096];
            let mut col: usize = 0;
            while col < 8
                invariant
                    s0.wf(),
                    s0 == old(self)@,
                    xi < 16,
                    yi < 16,
                    xp < 64,
                    yp < 32,
                    nrows == n,
                    n <= 15,
                    row < nrows,
                    col <= 8,
                    gx == xp as int,
                    gy == yp as int,
                    gx == s0.regs[xi as int] as int % 64,
                    gy == s0.regs[yi as int] as int % 32,
                    sprite_byte == sprite_row(s0, row as int),
                    self.registers@ == s0.regs,
                    self.memory@ == s0.mem,
                    self.index == s0.index,
                    self.pc == s0.pc,
                    self.stack@ == s0.stack,
                    self.sp == s0.sp,
                    self.delay_timer == s0.delay,
                    self.sound_timer == s0.sound,
                    self.keypad@ == s0.keys,
                    self.video@.len() == 2048,
                    forall|j: int|
                        0 <= j < 2048 ==> self.video@[j] == (if covers_prefix(
                            s0,
                            gx,
                            gy,
                            row as int,
                            col as int,
                            j,
                        ) {
                            s0.video[j] ^ PIXEL_ON
                        } else {
                            s0.video[j]
                        }),
                    collided <==> exists|j: int|
                        0 <= j < 2048 && covers_prefix(s0, gx, gy, row as int, col as int, j)
                            && s0.video[j] == PIXEL_ON,
                decreases 8 - col,
            {
                let bit_set = sprite_byte & (0x80u8 >> (col as u8)) != 0;
                let in_bounds = yp + row < 32 && xp + col < 64;
                if bit_set && in_bounds {
                    let idx = (yp + row) * 64 + (xp + col);
                    proof {
                        lemma_fundamental_div_mod_converse(
                            idx as int,
                            64,
                            gy + row,
                            gx + col,
                        );
                        assert(idx < 2048);
                        assert(!covers_prefix(s0, gx, gy, row as int, col as int, idx as int));
                        assert(covers_prefix(s0, gx, gy, row as int, col as int + 1, idx as int));
                    }
                    let was_on = self.video[idx] == PIXEL_ON;
                    if was_on {
                        collided = true;
                    }
                    let cell = self.video[idx];
                    self.video[idx] = cell ^ PIXEL_ON;
                    proof {
                        assert forall|j: int|
                            0 <= j < 2048 && j != idx as int implies covers_prefix(
                            s0,
                            gx,
                            gy,
                            row as int,
                            col as int + 1,
                            j,
                        ) == covers_prefix(s0, gx, gy, row as int, col as int, j) by {
                            if covers_prefix(s0, gx, gy, row as int, col as int + 1, j)
                                && !covers_prefix(s0, gx, gy, row as int, col as int, j) {
                                lemma_fundamental_div_mod(j, 64);
                            }
                        }
                        assert(cell == s0.video[idx as int]);
                        if collided {
                            if was_on {
                                assert(covers_prefix(s0, gx, gy, row as int, col as int + 1, idx as int)
                                    && s0.video[idx as int] == PIXEL_ON);
                            } else {
                                let j = choose|j: int|
                                    0 <= j < 2048 && covers_prefix(s0, gx, gy, row as int, col as int, j)
                                        && s0.video[j] == PIXEL_ON;
                                assert(covers_prefix(s0, gx, gy, row as int, col as int + 1, j));
                            }
                        } else {
                            assert(s0.video[idx as int] != PIXEL_ON);
                            assert forall|j: int|
                                0 <= j < 2048 && covers_prefix(s0, gx, gy, row as int, col as int + 1, j)
                                    implies s0.video[j] != PIXEL_ON by {
                                if j == idx as int {
                                } else {
                                    assert(!covers_prefix(s0, gx, gy, row as int, col as int, j)
                                        ==> s0.video[j] != PIXEL_ON) by {
                                        if covers_prefix(s0, gx, gy, row as int, col as int + 1, j)
                                            && !covers_prefix(s0, gx, gy, row as int, col as int, j) {
                                            lemma_fundamental_div_mod(j, 64);
                                        }
                                    }
                                }
                            }
                        }
                    }
                } else {
                    proof {
                        assert forall|j: int| 0 <= j < 2048 implies covers_prefix(
                            s0,
                            gx,
                            gy,
                            row as int,
                            col as int + 1,
                            j,
                        ) == covers_prefix(s0, gx, gy, row as int, col as int, j) by {
                            if covers_prefix(s0, gx, gy, row as int, col as int + 1, j)
                                && !covers_prefix(s0, gx, gy, row as int, col as int, j) {
                                lemma_fundamental_div_mod(j, 64);
                                if yp + row < 32 && xp + col < 64 {
                                    lemma_fundamental_div_mod_converse(
                                        ((gy + row) * 64 + (gx + col)) as int,
                                        64,
                                        gy + row,
                                        gx + col,
                                    );
                                }
                            }
                        }
                    }
                }
                col += 1;
            }
            proof {
                assert forall|j: int| 0 <= j < 2048 implies covers_prefix(
                    s0,
                    gx,
                    gy,
                    row as int + 1,
                    0,
                    j,
                ) == covers_prefix(s0, gx, gy, row as int, 8, j) by {}
            }
            row += 1;
        }
        let flag: u8 = if collided {
            1
        } else {
            0
        };
        self.registers[0xF] = flag;
        proof {
            lemma_toggle_bits();
            assert(self.video@ =~= spec_draw_video(s0, gx, gy, n as int));
            assert(collided == spec_draw_collision(s0, gx, gy, n as int));
            assert(self@ =~= spec_draw(s0, xi as int, yi as int, n as int));
        }
    }

    /// Decode and execute one already-fetched opcode, with `rand_byte`
    /// standing in for the randomness source of the Cxnn instruction; every
    /// other instruction ignores it. The program counter is expected to have
    /// been advanced past the opcode by the fetch; only the instruction's own
    /// effect is applied here, and the timers are untouched.
    pub fn execute_opcode(&mut self, opcode: u16, rand_byte: u8) -> (st: StepStatus)
        requires
            old(self)@.wf(),
        ensures
            final(self)@ == spec_exec(old(self)@, opcode, rand_byte).0,
            st == spec_exec(old(self)@, opcode, rand_byte).1,
            final(self)@.wf(),
    {
        proof {
            lemma_decode_bounds(opcode);
        }
        let fam = opcode >> 12;
        let xi = ((opcode >> 8) & 0xF) as usize;
        let yi = ((opcode >> 4) & 0xF) as usize;
        let n = opcode & 0xF;
        let nn = (opcode & 0xFF) as u8;
        let nnn = opcode & 0xFFF;
        if fam == 0x0 {
            if opcode == 0x00E0 {
                self.video = filled(2048, 0u32);
                proof {
                    assert(self@.video =~= spec_exec(old(self)@, opcode, rand_byte).0.video);
                    assert(self@ =~= spec_exec(old(self)@, opcode, rand_byte).0);
                }
                StepStatus::Executed
            } else if opcode == 0x00EE {
                if self.sp == 0 {
                    StepStatus::StackUnderflow
                } else {
                    self.sp = self.sp - 1;
                    self.pc = self.stack[self.sp as usize];
                    StepStatus::Executed
                }
            } else {
                StepStatus::Unknown(opcode)
            }
        } else if fam == 0x1 {
            self.pc = nnn;
            StepStatus::Executed
        } else if fam == 0x2 {
            if self.sp >= 16 {
                StepStatus::StackOverflow
            } else {
                self.stack[self.sp as usize] = self.pc;
                self.sp = self.sp + 1;
                self.pc = nnn;
                StepStatus::Executed
            }
        } else if fam == 0x3 {
            if self.registers[xi] == nn {
                self.pc = self.pc.wrapping_add(2);
            }
            StepStatus::Executed
        } else if fam == 0x4 {
            if self.registers[xi] != nn {
                self.pc = self.pc.wrapping_add(2);
            }
            StepStatus::Executed
        } else if fam == 0x5 {
            if n == 0 {
                if self.registers[xi] == self.registers[yi] {
                    self.pc = self.pc.wrapping_add(2);
                }
                StepStatus::Executed
            } else {
                StepStatus::Unknown(opcode)
            }
        } else if fam == 0x6 {
            self.registers[xi] = nn;
            StepStatus::Executed
        } else if fam == 0x7 {
            let res = self.registers[xi].wrapping_add(nn);
            self.registers[xi] = res;
            StepStatus::Executed
        } else if fam == 0x8 {
            if n == 0x0 {
                self.registers[xi] = self.registers[yi];
                StepStatus::Executed
            } else if n == 0x1 {
                let res = self.registers[xi] | self.registers[yi];
                self.registers[xi] = res;
                StepStatus::Executed
            } else if n == 0x2 {
                let res = self.registers[xi] & self.registers[yi];
                self.registers[xi] = res;
                StepStatus::Executed
            } else if n == 0x3 {
                let res = self.registers[xi] ^ self.registers[yi];
                self.registers[xi] = res;
                StepStatus::Executed
            } else if n == 0x4 {
                let a = self.registers[xi];
                let b = self.registers[yi];
                let flag: u8 = if (a as u16) + (b as u16) > 255 {
                    1
                } else {
                    0
                };
                self.registers[0xF] = flag;
                self.registers[xi] = a.wrapping_add(b);
                StepStatus::Executed
            } else if n == 0x5 {
                let flag: u8 = if self.registers[xi] > self.registers[yi] {
                    1
                } else {
                    0
                };
                self.registers[0xF] = flag;
                let res = self.registers[xi].wrapping_sub(self.registers[yi]);
                self.registers[xi] = res;
                StepStatus::Executed
            } else if n == 0x6 {
                let flag = self.registers[xi] & 1;
                self.registers[0xF] = flag;
                let res = self.registers[xi] >> 1u8;
                self.registers[xi] = res;
                StepStatus::Executed
            } else if n == 0x7 {
                let flag: u8 = if self.registers[yi] > self.registers[xi] {
                    1
                } else {
                    0
                };
                self.registers[0xF] = flag;
                let res = self.registers[yi].wrapping_sub(self.registers[xi]);
                self.registers[xi] = res;
                StepStatus::Executed
            } else if n == 0xE {
                let flag = (self.registers[xi] & 0x80) >> 7u8;
                self.registers[0xF] = flag;
                let res = self.registers[xi] << 1u8;
                self.registers[xi] = res;
                StepStatus::Executed
            } else {
                StepStatus::Unknown(opcode)
            }
        } else if fam == 0x9 {
            if n == 0 {
                if self.registers[xi] != self.registers[yi] {
                    self.pc = self.pc.wrapping_add(2);
                }
                StepStatus::Executed
            } else {
                StepStatus::Unknown(opcode)
            }
        } else if fam == 0xA {
            self.index = nnn;
            StepStatus::Executed
        } else if fam == 0xB {
            self.pc = (self.registers[0] as u16).wrapping_add(nnn);
            StepStatus::Executed
        } else if fam == 0xC {
            self.registers[xi] = rand_byte & nn;
            StepStatus::Executed
        } else if fam == 0xD {
            self.draw_sprite(xi, yi, n as u8);
            proof {
                lemma_toggle_bits();
            }
            StepStatus::Executed
        } else if fam == 0xE {
            if nn == 0x9E {
                let key = (self.registers[xi] % 16) as usize;
                if self.keypad[key] {
                    self.pc = self.pc.wrapping_add(2);
                }
                StepStatus::Executed
            } else if nn == 0xA1 {
                let key = (self.registers[xi] % 16) as usize;
                if !self.keypad[key] {
                    self.pc = self.pc.wrapping_add(2);
                }
                StepStatus::Executed
            } else {
                StepStatus::Unknown(opcode)
            }
        } else {
            if nn == 0x07 {
                self.registers[xi] = self.delay_timer;
                StepStatus::Executed
            } else if nn == 0x0A {
                match self.first_pressed() {
                    Some(k) => {
                        self.registers[xi] = k;
                    },
                    None => {
                        self.pc = self.pc.wrapping_sub(2);
                    },
                }
                StepStatus::Executed
            } else if nn == 0x15 {
                self.delay_timer = self.registers[xi];
                StepStatus::Executed
            } else if nn == 0x18 {
                self.sound_timer = self.registers[xi];
                StepStatus::Executed
            } else if nn == 0x1E {
                self.index = self.index.wrapping_add(self.registers[xi] as u16);
                StepStatus::Executed
            } else if nn == 0x29 {
                let vx = self.registers[xi];
                self.index = 0x50 + (vx as u16) * 5;
                StepStatus::Executed
            } else if nn == 0x33 {
                let v = self.registers[xi];
                let i0 = (self.index as usize) % 4096;
                let i1 = (self.index as usize + 1) % 4096;
                let i2 = (self.index as usize + 2) % 4096;
                self.memory[i2] = v % 10;
                self.memory[i1] = (v / 10) % 10;
                self.memory[i0] = v / 10 / 10;
                StepStatus::Executed
            } else if nn == 0x55 {
                self.store_registers(xi);
                StepStatus::Executed
            } else if nn == 0x65 {
                self.load_registers(xi);
                StepStatus::Executed
            } else {
                StepStatus::Unknown(opcode)
            }
        }
    }

    /// Advance the machine by one whole fetch-decode-execute step. The byte
    /// for the Cxnn instruction comes from the process-wide randomness
    /// source, so the step taken is `spec_cycle` at some byte: the one that
    /// source produced. Every other instruction takes the same step whatever
    /// the byte.
    pub fn cycle(&mut self) -> (st: StepStatus)
        requires
            old(self)@.wf(),
        ensures
            final(self)@.wf(),
            exists|rnd: u8| #[trigger] spec_cycle(old(self)@, rnd) == (final(self)@, st),
    {
        let pc0 = (self.pc as usize) % 4096;
        let pc1 = (self.pc as usize + 1) % 4096;
        let hi = self.memory[pc0];
        let lo = self.memory[pc1];
        let opcode: u16 = ((hi as u16) << 8) | (lo as u16);
        proof {
            assert(opcode == spec_fetch(old(self)@));
        }
        self.pc = self.pc.wrapping_add(2);
        let rnd: u8 = if opcode >> 12 == 0xC {
            random_byte()
        } else {
            0
        };
        let st = self.execute_opcode(opcode, rnd);
        if !(st == StepStatus::StackOverflow || st == StepStatus::StackUnderflow) {
            if self.delay_timer > 0 {
                self.delay_timer = self.delay_timer - 1;
            }
            if self.sound_timer > 0 {
                self.sound_timer = self.sound_timer - 1;
            }
        }
        proof {
            assert(spec_cycle(old(self)@, rnd) == (self@, st));
        }
        st
    }

    /// Press or release one key of the hexadecimal keypad.
    pub fn set_key(&mut self, key: usize, pressed: bool)
        requires
            old(self)@.wf(),
            key < KEY_COUNT,
        ensures
            final(self)@ == (State {
                keys: old(self)@.keys.update(key as int, pressed),
                ..old(self)@
            }),
            final(self)@.wf(),
    {
        self.keypad[key] = pressed;
    }

    /// Read one general-purpose register.
    pub fn register(&self, i: usize) -> (v: u8)
        requires
            self@.wf(),
            i < REGISTER_COUNT,
        ensures
            v == self@.regs[i as int],
    {
        self.registers[i]
    }

    /// Read one byte of memory.
    pub fn mem_byte(&self, addr: usize) -> (v: u8)
        requires
            self@.wf(),
            addr < MEMORY_SIZE,
        ensures
            v == self@.mem[addr as int],
    {
        self.memory[addr]
    }

    /// Read one display cell: zero when dark, `PIXEL_ON` when lit. Cells are
    /// row-major: the cell at column c of row r is at index r * 64 + c.
    pub fn video_cell(&self, idx: usize) -> (v: u32)
        requires
            self@.wf(),
            idx < VIDEO_WIDTH * VIDEO_HEIGHT,
        ensures
            v == self@.video[idx as int],
    {
        self.video[idx]
    }

    /// The whole display buffer, row-major, for a host to render.
    pub fn video(&self) -> (v: &Vec<u32>)
        ensures
            v@ == self@.video,
    {
        &self.video
    }

    /// The program counter.
    pub fn pc(&self) -> (v: u16)
        ensures
            v == self@.pc,
    {
        self.pc
    }

    /// The index register.
    pub fn index(&self) -> (v: u16)
        ensures
            v == self@.index,
    {
        self.index
    }

    /// The stack depth: 0 is empty, 16 is full.
    pub fn stack_pointer(&self) -> (v: u8)
        ensures
            v == self@.sp,
    {
        self.sp
    }

    /// The delay timer.
    pub fn delay_timer(&self) -> (v: u8)
        ensures
            v == self@.delay,
    {
        self.delay_timer
    }

    /// The sound timer; the host should sound its tone while this is nonzero.
    pub fn sound_timer(&self) -> (v: u8)
        ensures
            v == self@.sound,
    {
        self.sound_timer
    }
}

/// Relies on rand::random: a byte drawn from the thread-local generator.
/// Nothing is assumed of its value; callers are verified for every byte.
#[verifier::external_body]
fn random_byte() -> u8 {
    rand::random()
}

} // verus!
