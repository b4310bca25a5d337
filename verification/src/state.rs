//! Mathematical model of the machine: the state as plain sequences and
//! integers, and the meaning of every instruction as a pure transition
//! function. The executable interpreter in `chip8` is proved to follow
//! these definitions step for step.

use vstd::prelude::*;
use vstd::wrapping::u16_specs;
use vstd::wrapping::u8_specs;

verus! {

/// Width of the display, in cells.
pub const VIDEO_WIDTH: usize = 64;

/// Height of the display, in cells.
pub const VIDEO_HEIGHT: usize = 32;

/// Number of addressable bytes of machine memory.
pub const MEMORY_SIZE: usize = 4096;

/// Number of general-purpose registers.
pub const REGISTER_COUNT: usize = 16;

/// Number of return-address slots in the call stack.
pub const STACK_LEVELS: usize = 16;

/// Number of keys on the hexadecimal keypad.
pub const KEY_COUNT: usize = 16;

/// Address at which a program image is installed and execution begins.
pub const START_ADDRESS: u16 = 0x200;

/// Address of the built-in hexadecimal font.
pub const FONTSET_START_ADDRESS: u16 = 0x50;

/// Largest program image that fits between `START_ADDRESS` and the end of
/// memory.
pub const MAX_ROM_SIZE: usize = 3584;

/// Value of a display cell that is lit; a dark cell holds zero.
pub const PIXEL_ON: u32 = 0xFFFF_FFFF;

/// The complete machine state, as the specifications see it.
#[verifier::ext_equal]
pub struct State {
    /// The sixteen general-purpose registers V0..VF.
    pub regs: Seq<u8>,
    /// The 4096 bytes of memory.
    pub mem: Seq<u8>,
    /// The 16-bit address register I.
    pub index: u16,
    /// The program counter: address of the next instruction to fetch.
    pub pc: u16,
    /// The sixteen return-address slots.
    pub stack: Seq<u16>,
    /// The stack depth: 0 is empty, 16 is full.
    pub sp: u8,
    /// The delay timer, decremented toward zero once per executed step.
    pub delay: u8,
    /// The sound timer, decremented toward zero once per executed step.
    pub sound: u8,
    /// Pressed state of the sixteen keypad keys.
    pub keys: Seq<bool>,
    /// The 64x32 display, row-major; each cell is dark (0) or lit (`PIXEL_ON`).
    pub video: Seq<u32>,
}

impl State {
    /// The shape every reachable machine state keeps: fixed sizes, a stack
    /// depth of at most sixteen, and display cells that are exactly dark or
    /// lit.
    pub open spec fn wf(self) -> bool {
        &&& self.regs.len() == REGISTER_COUNT
        &&& self.mem.len() == MEMORY_SIZE
        &&& self.stack.len() == STACK_LEVELS
        &&& self.keys.len() == KEY_COUNT
        &&& self.video.len() == VIDEO_WIDTH * VIDEO_HEIGHT
        &&& self.sp <= STACK_LEVELS
        &&& forall|i: int|
            0 <= i < VIDEO_WIDTH * VIDEO_HEIGHT ==> (self.video[i] == 0u32 || self.video[i]
                == PIXEL_ON)
    }
}

/// The built-in font: sixteen 5-byte glyphs for the hexadecimal digits.
pub open spec fn spec_fontset() -> Seq<u8> {
    seq![
        0xF0u8, 0x90, 0x90, 0x90, 0xF0, // 0
        0x20, 0x60, 0x20, 0x20, 0x70, // 1
        0xF0, 0x10, 0xF0, 0x80, 0xF0, // 2
        0xF0, 0x10, 0xF0, 0x10, 0xF0, // 3
        0x90, 0x90, 0xF0, 0x10, 0x10, // 4
        0xF0, 0x80, 0xF0, 0x10, 0xF0, // 5
        0xF0, 0x80, 0xF0, 0x90, 0xF0, // 6
        0xF0, 0x10, 0x20, 0x40, 0x40, // 7
        0xF0, 0x90, 0xF0, 0x90, 0xF0, // 8
        0xF0, 0x90, 0xF0, 0x10, 0xF0, // 9
        0xF0, 0x90, 0xF0, 0x90, 0x90, // A
        0xE0, 0x90, 0xE0, 0x90, 0xE0, // B
        0xF0, 0x80, 0x80, 0x80, 0xF0, // C
        0xE0, 0x90, 0x90, 0x90, 0xE0, // D
        0xF0, 0x80, 0xF0, 0x80, 0xF0, // E
        0xF0, 0x80, 0xF0, 0x80, 0x80, // F
    ]
}

/// A freshly constructed machine: everything zeroed, the program counter at
/// `START_ADDRESS`, and the font installed at `FONTSET_START_ADDRESS`.
pub open spec fn spec_new() -> State {
    State {
        regs: Seq::new(16, |i: int| 0u8),
        mem: Seq::new(
            4096,
            |i: int|
                if 0x50 <= i < 0xA0 {
                    spec_fontset()[i - 0x50]
                } else {
                    0u8
                },
        ),
        index: 0u16,
        pc: START_ADDRESS,
        stack: Seq::new(16, |i: int| 0u16),
        sp: 0u8,
        delay: 0u8,
        sound: 0u8,
        keys: Seq::new(16, |i: int| false),
        video: Seq::new(2048, |i: int| 0u32),
    }
}

/// The machine after a program image is copied verbatim to `START_ADDRESS`;
/// every other byte and every other field keep their values.
pub open spec fn spec_load(s: State, rom: Seq<u8>) -> State {
    State {
        mem: Seq::new(
            4096,
            |i: int|
                if 0x200 <= i < 0x200 + rom.len() {
                    rom[i - 0x200]
                } else {
                    s.mem[i]
                },
        ),
        ..s
    }
}

/// Instruction family: the high nibble of the opcode.
pub open spec fn op_family(op: u16) -> u16 {
    op >> 12
}

/// The x field: second nibble, a register number.
pub open spec fn op_x(op: u16) -> u16 {
    (op >> 8) & 0xF
}

/// The y field: third nibble, a register number.
pub open spec fn op_y(op: u16) -> u16 {
    (op >> 4) & 0xF
}

/// The n field: low nibble.
pub open spec fn op_n(op: u16) -> u16 {
    op & 0xF
}

/// The nn field: low byte.
pub open spec fn op_nn(op: u16) -> u8 {
    (op & 0xFF) as u8
}

/// The nnn field: low twelve bits, an address.
pub open spec fn op_nnn(op: u16) -> u16 {
    op & 0xFFF
}

/// The decoded fields stay inside their ranges.
pub proof fn lemma_decode_bounds(op: u16)
    by (bit_vector)
    ensures
        op >> 12 < 16,
        (op >> 8) & 0xF < 16,
        (op >> 4) & 0xF < 16,
        op & 0xF < 16,
        op & 0xFF < 256,
        op & 0xFFF < 4096,
{
}

/// Toggling a display cell takes a dark cell to lit and a lit cell to dark,
/// and toggling twice restores any cell.
pub proof fn lemma_toggle_bits()
    by (bit_vector)
    ensures
        0u32 ^ 0xFFFF_FFFFu32 == 0xFFFF_FFFFu32,
        0xFFFF_FFFFu32 ^ 0xFFFF_FFFFu32 == 0u32,
        forall|c: u32| #[trigger] (c ^ 0xFFFF_FFFFu32 ^ 0xFFFF_FFFFu32) == c,
{
}

/// The 16-bit word fetched big-endian at the program counter. Fetch
/// addresses are reduced into the 4096-byte memory, the policy this
/// interpreter applies to every computed address.
pub open spec fn spec_fetch(s: State) -> u16 {
    ((s.mem[(s.pc as int) % 4096] as u16) << 8) | (s.mem[(s.pc as int + 1) % 4096] as u16)
}

/// What one step of the machine did.
#[derive(Clone, Copy, Debug, PartialEq, Eq, Structural)]
pub enum StepStatus {
    /// The fetched opcode was recognized and executed.
    Executed,
    /// The fetched opcode (carried here) is not a documented instruction;
    /// beyond the program-counter advance the step changed nothing.
    Unknown(u16),
    /// A call was executed with all sixteen stack slots in use; fatal.
    StackOverflow,
    /// A return was executed with an empty stack; fatal.
    StackUnderflow,
}

/// Is the status one of the two fatal stack faults?
pub open spec fn is_fatal(st: StepStatus) -> bool {
    st == StepStatus::StackOverflow || st == StepStatus::StackUnderflow
}

/// The state with the following instruction skipped.
pub open spec fn spec_skip(s: State) -> State {
    State { pc: u16_specs::wrapping_add(s.pc, 2), ..s }
}

/// The registers after one family-8 arithmetic/logic instruction with
/// sub-selector `k`. Flag writes happen before the result write, as in the
/// interpreter, so an instruction whose x operand is VF reads back the flag
/// it just wrote.
pub open spec fn spec_alu(regs: Seq<u8>, x: int, y: int, k: u16) -> Seq<u8> {
    if k == 0x0 {
        regs.update(x, regs[y])
    } else if k == 0x1 {
        regs.update(x, regs[x] | regs[y])
    } else if k == 0x2 {
        regs.update(x, regs[x] & regs[y])
    } else if k == 0x3 {
        regs.update(x, regs[x] ^ regs[y])
    } else if k == 0x4 {
        let flag: u8 = if regs[x] + regs[y] > 255 {
            1
        } else {
            0
        };
        let sum = u8_specs::wrapping_add(regs[x], regs[y]);
        regs.update(0xF, flag).update(x, sum)
    } else if k == 0x5 {
        let r1 = regs.update(
            0xF,
            if regs[x] > regs[y] {
                1u8
            } else {
                0u8
            },
        );
        r1.update(x, u8_specs::wrapping_sub(r1[x], r1[y]))
    } else if k == 0x6 {
        let r1 = regs.update(0xF, regs[x] & 1);
        r1.update(x, r1[x] >> 1u8)
    } else if k == 0x7 {
        let r1 = regs.update(
            0xF,
            if regs[y] > regs[x] {
                1u8
            } else {
                0u8
            },
        );
        r1.update(x, u8_specs::wrapping_sub(r1[y], r1[x]))
    } else {
        let r1 = regs.update(0xF, (regs[x] & 0x80) >> 7u8);
        r1.update(x, r1[x] << 1u8)
    }
}

/// The lowest-numbered pressed key at or above position `i`, if any.
pub open spec fn first_pressed_from(keys: Seq<bool>, i: int) -> Option<u8>
    decreases 16 - i,
{
    if i < 0 || i >= 16 {
        None
    } else if keys[i] {
        Some(i as u8)
    } else {
        first_pressed_from(keys, i + 1)
    }
}

/// The sprite byte `row` rows below the index register, the address reduced
/// into memory.
pub open spec fn sprite_row(s: State, row: int) -> u8 {
    s.mem[(s.index as int + row) % 4096]
}

/// Does drawing a sprite at (xp, yp) touch display cell `idx`, counting only
/// sprite rows before `row_lim`, plus columns before `col_lim` within row
/// `row_lim` itself? A cell is touched when it lies under a set sprite bit.
/// Writing the cell's row and column as idx / 64 and idx % 64 makes the
/// clipping rule implicit: sprite pixels past the right or bottom edge of the
/// display correspond to no cell at all.
pub open spec fn covers_prefix(
    s: State,
    xp: int,
    yp: int,
    row_lim: int,
    col_lim: int,
    idx: int,
) -> bool {
    let row = idx / 64 - yp;
    let col = idx % 64 - xp;
    &&& 0 <= row
    &&& 0 <= col < 8
    &&& (row < row_lim || (row == row_lim && col < col_lim))
    &&& sprite_row(s, row) & (0x80u8 >> (col as u8)) != 0
}

/// Does drawing an `n`-row sprite at (xp, yp) touch display cell `idx`?
pub open spec fn covers(s: State, xp: int, yp: int, n: int, idx: int) -> bool {
    covers_prefix(s, xp, yp, n, 0, idx)
}

/// The display after XOR-drawing the sprite: every touched cell toggles,
/// every other cell keeps its value.
pub open spec fn spec_draw_video(s: State, xp: int, yp: int, n: int) -> Seq<u32> {
    Seq::new(
        2048,
        |idx: int|
            if covers(s, xp, yp, n, idx) {
                s.video[idx] ^ PIXEL_ON
            } else {
                s.video[idx]
            },
    )
}

/// Did drawing the sprite turn some previously-lit cell dark?
pub open spec fn spec_draw_collision(s: State, xp: int, yp: int, n: int) -> bool {
    exists|idx: int| 0 <= idx < 2048 && covers(s, xp, yp, n, idx) && s.video[idx] == PIXEL_ON
}

/// The whole effect of the draw instruction: the position comes from the
/// x and y registers wrapped onto the screen, the display is XOR-composed,
/// and VF reports whether any lit cell was turned dark.
pub open spec fn spec_draw(s: State, x: int, y: int, n: int) -> State {
    let xp = s.regs[x] as int % 64;
    let yp = s.regs[y] as int % 32;
    State {
        video: spec_draw_video(s, xp, yp, n),
        regs: s.regs.update(
            0xF,
            if spec_draw_collision(s, xp, yp, n) {
                1u8
            } else {
                0u8
            },
        ),
        ..s
    }
}

/// Memory after storing registers V0..=Vk at the index register, one byte
/// per register, each address reduced into the 4096-byte memory.
pub open spec fn spec_store_regs(mem: Seq<u8>, regs: Seq<u8>, index: u16, k: int) -> Seq<u8>
    decreases k + 1,
{
    if k < 0 {
        mem
    } else {
        spec_store_regs(mem, regs, index, k - 1).update((index as int + k) % 4096, regs[k])
    }
}

/// Registers after loading V0..=Vk from memory at the index register.
pub open spec fn spec_load_regs(regs: Seq<u8>, mem: Seq<u8>, index: u16, k: int) -> Seq<u8>
    decreases k + 1,
{
    if k < 0 {
        regs
    } else {
        spec_load_regs(regs, mem, index, k - 1).update(k, mem[(index as int + k) % 4096])
    }
}

/// Memory after storing the decimal digits of `v` at the index register:
/// hundreds, tens and ones in ascending addresses, written ones first as the
/// interpreter does, each address reduced into the 4096-byte memory.
pub open spec fn spec_store_bcd(mem: Seq<u8>, index: u16, v: u8) -> Seq<u8> {
    mem.update((index as int + 2) % 4096, v % 10).update(
        (index as int + 1) % 4096,
        (v / 10) % 10,
    ).update((index as int) % 4096, v / 10 / 10)
}

/// The state and status after decoding and executing one opcode. `s` is the
/// state after the fetch (program counter already advanced); `rnd` is the
/// byte an outside randomness source supplied for the Cxnn instruction, and
/// is ignored by every other instruction.
pub open spec fn spec_exec(s: State, op: u16, rnd: u8) -> (State, StepStatus) {
    let fam = op_family(op);
    let x = op_x(op) as int;
    let y = op_y(op) as int;
    let n = op_n(op);
    let nn = op_nn(op);
    let nnn = op_nnn(op);
    if fam == 0x0 {
        if op == 0x00E0 {
            (State { video: Seq::new(2048, |i: int| 0u32), ..s }, StepStatus::Executed)
        } else if op == 0x00EE {
            if s.sp == 0 {
                (s, StepStatus::StackUnderflow)
            } else {
                (
                    State { sp: (s.sp - 1) as u8, pc: s.stack[s.sp - 1], ..s },
                    StepStatus::Executed,
                )
            }
        } else {
            (s, StepStatus::Unknown(op))
        }
    } else if fam == 0x1 {
        (State { pc: nnn, ..s }, StepStatus::Executed)
    } else if fam == 0x2 {
        if s.sp >= 16 {
            (s, StepStatus::StackOverflow)
        } else {
            (
                State {
                    stack: s.stack.update(s.sp as int, s.pc),
                    sp: (s.sp + 1) as u8,
                    pc: nnn,
                    ..s
                },
                StepStatus::Executed,
            )
        }
    } else if fam == 0x3 {
        (
            if s.regs[x] == nn {
                spec_skip(s)
            } else {
                s
            },
            StepStatus::Executed,
        )
    } else if fam == 0x4 {
        (
            if s.regs[x] != nn {
                spec_skip(s)
            } else {
                s
            },
            StepStatus::Executed,
        )
    } else if fam == 0x5 {
        if n == 0 {
            (
                if s.regs[x] == s.regs[y] {
                    spec_skip(s)
                } else {
                    s
                },
                StepStatus::Executed,
            )
        } else {
            (s, StepStatus::Unknown(op))
        }
    } else if fam == 0x6 {
        (State { regs: s.regs.update(x, nn), ..s }, StepStatus::Executed)
    } else if fam == 0x7 {
        (
            State { regs: s.regs.update(x, u8_specs::wrapping_add(s.regs[x], nn)), ..s },
            StepStatus::Executed,
        )
    } else if fam == 0x8 {
        if n <= 0x7 || n == 0xE {
            (State { regs: spec_alu(s.regs, x, y, n), ..s }, StepStatus::Executed)
        } else {
            (s, StepStatus::Unknown(op))
        }
    } else if fam == 0x9 {
        if n == 0 {
            (
                if s.regs[x] != s.regs[y] {
                    spec_skip(s)
                } else {
                    s
                },
                StepStatus::Executed,
            )
        } else {
            (s, StepStatus::Unknown(op))
        }
    } else if fam == 0xA {
        (State { index: nnn, ..s }, StepStatus::Executed)
    } else if fam == 0xB {
        (
            State { pc: u16_specs::wrapping_add(s.regs[0] as u16, nnn), ..s },
            StepStatus::Executed,
        )
    } else if fam == 0xC {
        (State { regs: s.regs.update(x, rnd & nn), ..s }, StepStatus::Executed)
    } else if fam == 0xD {
        (spec_draw(s, x, y, n as int), StepStatus::Executed)
    } else if fam == 0xE {
        if nn == 0x9E {
            (
                if s.keys[s.regs[x] as int % 16] {
                    spec_skip(s)
                } else {
                    s
                },
                StepStatus::Executed,
            )
        } else if nn == 0xA1 {
            (
                if !s.keys[s.regs[x] as int % 16] {
                    spec_skip(s)
                } else {
                    s
                },
                StepStatus::Executed,
            )
        } else {
            (s, StepStatus::Unknown(op))
        }
    } else {
        if nn == 0x07 {
            (State { regs: s.regs.update(x, s.delay), ..s }, StepStatus::Executed)
        } else if nn == 0x0A {
            match first_pressed_from(s.keys, 0) {
                Some(k) => (State { regs: s.regs.update(x, k), ..s }, StepStatus::Executed),
                None => (
                    State { pc: u16_specs::wrapping_sub(s.pc, 2), ..s },
                    StepStatus::Executed,
                ),
            }
        } else if nn == 0x15 {
            (State { delay: s.regs[x], ..s }, StepStatus::Executed)
        } else if nn == 0x18 {
            (State { sound: s.regs[x], ..s }, StepStatus::Executed)
        } else if nn == 0x1E {
            (
                State { index: u16_specs::wrapping_add(s.index, s.regs[x] as u16), ..s },
                StepStatus::Executed,
            )
        } else if nn == 0x29 {
            (
                State { index: (0x50 + s.regs[x] as int * 5) as u16, ..s },
                StepStatus::Executed,
            )
        } else if nn == 0x33 {
            (State { mem: spec_store_bcd(s.mem, s.index, s.regs[x]), ..s }, StepStatus::Executed)
        } else if nn == 0x55 {
            (
                State { mem: spec_store_regs(s.mem, s.regs, s.index, x), ..s },
                StepStatus::Executed,
            )
        } else if nn == 0x65 {
            (
                State { regs: spec_load_regs(s.regs, s.mem, s.index, x), ..s },
                StepStatus::Executed,
            )
        } else {
            (s, StepStatus::Unknown(op))
        }
    }
}

/// Timers after the decay that follows every executed step: each timer above
/// zero loses one; a timer at zero stays at zero.
pub open spec fn spec_tick(s: State) -> State {
    State {
        delay: if s.delay > 0 {
            (s.delay - 1) as u8
        } else {
            0u8
        },
        sound: if s.sound > 0 {
            (s.sound - 1) as u8
        } else {
            0u8
        },
        ..s
    }
}

/// One whole machine step: fetch at the program counter, advance it by two
/// (wrapping in sixteen bits) before anything else, execute, then tick the
/// timers. A fatal stack fault aborts the step right after the fetch: the
/// faulting instruction mutates nothing and the timers do not tick.
pub open spec fn spec_cycle(s: State, rnd: u8) -> (State, StepStatus) {
    let op = spec_fetch(s);
    let fetched = State { pc: u16_specs::wrapping_add(s.pc, 2), ..s };
    let r = spec_exec(fetched, op, rnd);
    if is_fatal(r.1) {
        (r.0, r.1)
    } else {
        (spec_tick(r.0), r.1)
    }
}

} // verus!
