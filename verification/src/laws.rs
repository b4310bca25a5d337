//! Laws of the machine: properties that relate several operations or hold of
//! every state, stated over the model of the `state` module and proved once
//! and for all.

use crate::state::covers;
use crate::state::first_pressed_from;
use crate::state::is_fatal;
use crate::state::lemma_decode_bounds;
use crate::state::lemma_toggle_bits;
use crate::state::op_family;
use crate::state::op_nn;
use crate::state::op_nnn;
use crate::state::op_x;
use crate::state::spec_cycle;
use crate::state::spec_draw_video;
use crate::state::spec_exec;
use crate::state::spec_fetch;
use crate::state::spec_fontset;
use crate::state::spec_load;
use crate::state::spec_load_regs;
use crate::state::spec_new;
use crate::state::spec_store_regs;
use crate::state::State;
use crate::state::StepStatus;
use crate::state::MAX_ROM_SIZE;
use vstd::arithmetic::div_mod::lemma_fundamental_div_mod;
use vstd::prelude::*;

verus! {

/// Loading an image into a fresh machine lays memory out exactly: the image
/// bytes verbatim from 0x200, the font at 0x50..0xA0, and zero everywhere
/// else.
pub proof fn lemma_fresh_load_layout(rom: Seq<u8>)
    requires
        rom.len() <= MAX_ROM_SIZE,
    ensures
        ({
            let m = spec_load(spec_new(), rom).mem;
            &&& m.len() == 4096
            &&& forall|i: int| 0x200 <= i < 0x200 + rom.len() ==> m[i] == rom[i - 0x200]
            &&& forall|i: int| 0 <= i < 0x50 ==> m[i] == 0
            &&& forall|i: int| 0x50 <= i < 0xA0 ==> m[i] == spec_fontset()[i - 0x50]
            &&& forall|i: int| 0xA0 <= i < 0x200 ==> m[i] == 0
            &&& forall|i: int| 0x200 + rom.len() <= i < 4096 ==> m[i] == 0
        }),
{
}

/// The program counter is advanced past the opcode before the instruction
/// acts, so a jump lands exactly on its target: after a step whose fetched
/// opcode is 1nnn, the program counter is nnn itself, not nnn plus two.
pub proof fn lemma_jump_is_exact(s: State, rnd: u8)
    requires
        s.wf(),
        op_family(spec_fetch(s)) == 0x1,
    ensures
        spec_cycle(s, rnd).0.pc == op_nnn(spec_fetch(s)),
        spec_cycle(s, rnd).1 == StepStatus::Executed,
{
}

/// Drawing the same sprite twice at the same position restores the display:
/// the second draw toggles exactly the cells the first one toggled.
pub proof fn lemma_draw_involution(s: State, xp: int, yp: int, n: int)
    requires
        s.wf(),
    ensures
        ({
            let s1 = State { video: spec_draw_video(s, xp, yp, n), ..s };
            spec_draw_video(s1, xp, yp, n) == s.video
        }),
{
    lemma_toggle_bits();
    let s1 = State { video: spec_draw_video(s, xp, yp, n), ..s };
    assert forall|j: int| 0 <= j < 2048 implies spec_draw_video(s1, xp, yp, n)[j] == s.video[j] by {
        assert(covers(s1, xp, yp, n, j) == covers(s, xp, yp, n, j));
    }
    assert(spec_draw_video(s1, xp, yp, n) =~= s.video);
}

/// A timer above zero loses exactly one per completed step that does not set
/// it, and a timer at zero stays at zero: it never wraps below zero.
pub proof fn lemma_timer_decay(s: State, rnd: u8)
    requires
        s.wf(),
        !(op_family(spec_fetch(s)) == 0xF && op_nn(spec_fetch(s)) == 0x15),
        !is_fatal(spec_cycle(s, rnd).1),
    ensures
        spec_cycle(s, rnd).0.delay == (if s.delay > 0 {
            (s.delay - 1) as u8
        } else {
            0u8
        }),
{
    lemma_decode_bounds(spec_fetch(s));
}

/// No key pressed at or above position `i` means no key is found from there.
proof fn lemma_none_pressed(keys: Seq<bool>, i: int)
    requires
        forall|k: int| i <= k < 16 ==> !keys[k],
    ensures
        first_pressed_from(keys, i) is None,
    decreases 16 - i,
{
    if 0 <= i < 16 {
        lemma_none_pressed(keys, i + 1);
    }
}

/// Some key pressed at or above position `i` means a key is found from there.
proof fn lemma_some_pressed(keys: Seq<bool>, i: int)
    requires
        0 <= i < 16,
        exists|k: int| i <= k < 16 && keys[k],
    ensures
        first_pressed_from(keys, i) is Some,
    decreases 16 - i,
{
    if !keys[i] {
        let k = choose|k: int| i <= k < 16 && keys[k];
        assert(i + 1 <= k < 16 && keys[k]);
        lemma_some_pressed(keys, i + 1);
    }
}

/// With no key pressed, a step whose fetched opcode is Fx0A leaves the
/// program counter where it was — the instruction will be fetched again —
/// and every register unchanged.
pub proof fn lemma_key_wait_blocks(s: State, rnd: u8)
    requires
        s.wf(),
        op_family(spec_fetch(s)) == 0xF,
        op_nn(spec_fetch(s)) == 0x0A,
        forall|k: int| 0 <= k < 16 ==> !s.keys[k],
    ensures
        spec_cycle(s, rnd).0.pc == s.pc,
        spec_cycle(s, rnd).0.regs == s.regs,
        spec_cycle(s, rnd).1 == StepStatus::Executed,
{
    lemma_none_pressed(s.keys, 0);
}

/// With some key pressed, a step whose fetched opcode is Fx0A stores the
/// lowest-numbered pressed key into Vx and advances the program counter
/// normally.
pub proof fn lemma_key_wait_press(s: State, rnd: u8)
    requires
        s.wf(),
        op_family(spec_fetch(s)) == 0xF,
        op_nn(spec_fetch(s)) == 0x0A,
        exists|k: int| 0 <= k < 16 && s.keys[k],
    ensures
        first_pressed_from(s.keys, 0) is Some,
        spec_cycle(s, rnd).0.pc == vstd::wrapping::u16_specs::wrapping_add(s.pc, 2),
        spec_cycle(s, rnd).0.regs == s.regs.update(
            op_x(spec_fetch(s)) as int,
            first_pressed_from(s.keys, 0).unwrap(),
        ),
        spec_cycle(s, rnd).1 == StepStatus::Executed,
{
    lemma_some_pressed(s.keys, 0);
}

/// Storing registers keeps the length of memory.
proof fn lemma_store_regs_len(mem: Seq<u8>, regs: Seq<u8>, index: u16, k: int)
    requires
        mem.len() == 4096,
    ensures
        spec_store_regs(mem, regs, index, k).len() == 4096,
    decreases k + 1,
{
    if k >= 0 {
        lemma_store_regs_len(mem, regs, index, k - 1);
    }
}

/// Two distinct register offsets land on distinct memory addresses, because
/// the sixteen offsets are far smaller than the 4096-byte address space.
proof fn lemma_offsets_distinct(index: u16, i: int, j: int)
    requires
        0 <= i < 16,
        0 <= j < 16,
        i != j,
    ensures
        (index as int + i) % 4096 != (index as int + j) % 4096,
{
    let a = index as int + i;
    let b = index as int + j;
    lemma_fundamental_div_mod(a, 4096);
    lemma_fundamental_div_mod(b, 4096);
    if a % 4096 == b % 4096 {
        let d = a / 4096 - b / 4096;
        assert(a - b == 4096 * d);
        assert(d == 0) by (nonlinear_arith)
            requires
                a - b == 4096 * d,
                -16 < a - b < 16,
        ;
    }
}

/// After storing registers V0..=Vk, the byte at each written address holds
/// the register it came from.
proof fn lemma_store_regs_read(mem: Seq<u8>, regs: Seq<u8>, index: u16, k: int, i: int)
    requires
        mem.len() == 4096,
        0 <= i <= k < 16,
    ensures
        spec_store_regs(mem, regs, index, k)[(index as int + i) % 4096] == regs[i],
    decreases k + 1,
{
    lemma_store_regs_len(mem, regs, index, k - 1);
    if i < k {
        lemma_store_regs_read(mem, regs, index, k - 1, i);
        lemma_offsets_distinct(index, i, k);
    }
}

/// Loading registers from memory that holds their own values leaves every
/// register as it was.
proof fn lemma_load_restores(regs: Seq<u8>, mem2: Seq<u8>, index: u16, k: int)
    requires
        regs.len() == 16,
        -1 <= k < 16,
        forall|i: int| 0 <= i <= k ==> mem2[(index as int + i) % 4096] == regs[i],
    ensures
        spec_load_regs(regs, mem2, index, k) == regs,
    decreases k + 1,
{
    if k >= 0 {
        lemma_load_restores(regs, mem2, index, k - 1);
        assert(spec_load_regs(regs, mem2, index, k) =~= regs);
    }
}

/// Round trip: executing Fx55 (store V0..Vx at the index register) and then
/// Fx65 with the same x (load V0..Vx from the same place) reproduces the
/// original register values exactly.
pub proof fn lemma_store_load_roundtrip(s: State, op_store: u16, op_load: u16, rnd: u8)
    requires
        s.wf(),
        op_family(op_store) == 0xF,
        op_nn(op_store) == 0x55,
        op_family(op_load) == 0xF,
        op_nn(op_load) == 0x65,
        op_x(op_load) == op_x(op_store),
    ensures
        spec_exec(spec_exec(s, op_store, rnd).0, op_load, rnd).0.regs == s.regs,
        spec_exec(s, op_store, rnd).1 == StepStatus::Executed,
        spec_exec(spec_exec(s, op_store, rnd).0, op_load, rnd).1 == StepStatus::Executed,
{
    lemma_decode_bounds(op_store);
    let x = op_x(op_store) as int;
    let s1 = spec_exec(s, op_store, rnd).0;
    assert(s1.mem == spec_store_regs(s.mem, s.regs, s.index, x));
    assert forall|i: int| 0 <= i <= x implies s1.mem[(s.index as int + i) % 4096]
        == s.regs[i] by {
        lemma_store_regs_read(s.mem, s.regs, s.index, x, i);
    }
    lemma_load_restores(s.regs, s1.mem, s.index, x);
}

} // verus!
