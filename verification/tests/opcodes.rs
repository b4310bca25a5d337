//! Tests of individual instructions: arithmetic and flags, skips, the index
//! register, randomness masking, binary-coded decimal, register store/load
//! and sprite drawing.

use chip8::chip8::Chip8;
use chip8::state::StepStatus;
use chip8::state::PIXEL_ON;

#[test]
fn load_and_add_immediate_wraps() {
    let mut c = Chip8::new();
    c.execute_opcode(0x65FE, 0); // V5 = 0xFE
    assert_eq!(c.register(5), 0xFE);
    c.execute_opcode(0x7503, 0); // V5 += 3, wrapping
    assert_eq!(c.register(5), 0x01);
    // 7xnn leaves VF alone.
    assert_eq!(c.register(0xF), 0);
}

#[test]
fn add_with_carry_sets_flag() {
    let mut c = Chip8::new();
    c.execute_opcode(0x65FF, 0); // V5 = 0xFF
    c.execute_opcode(0x6601, 0); // V6 = 0x01
    c.execute_opcode(0x8564, 0); // V5 += V6
    assert_eq!(c.register(5), 0x00);
    assert_eq!(c.register(0xF), 1);
}

#[test]
fn add_without_carry_clears_flag() {
    let mut c = Chip8::new();
    c.execute_opcode(0x6F05, 0); // VF starts nonzero
    c.execute_opcode(0x6510, 0);
    c.execute_opcode(0x6620, 0);
    c.execute_opcode(0x8564, 0);
    assert_eq!(c.register(5), 0x30);
    assert_eq!(c.register(0xF), 0);
}

#[test]
fn sub_with_borrow_wraps_and_clears_flag() {
    let mut c = Chip8::new();
    c.execute_opcode(0x6505, 0); // V5 = 0x05
    c.execute_opcode(0x660A, 0); // V6 = 0x0A
    c.execute_opcode(0x8565, 0); // V5 -= V6
    assert_eq!(c.register(0xF), 0);
    assert_eq!(c.register(5), 0xFB);
}

#[test]
fn sub_without_borrow_sets_flag() {
    let mut c = Chip8::new();
    c.execute_opcode(0x650A, 0);
    c.execute_opcode(0x6605, 0);
    c.execute_opcode(0x8565, 0);
    assert_eq!(c.register(0xF), 1);
    assert_eq!(c.register(5), 0x05);
}

#[test]
fn subn_reversed_operands() {
    let mut c = Chip8::new();
    c.execute_opcode(0x6503, 0); // V5 = 3
    c.execute_opcode(0x6609, 0); // V6 = 9
    c.execute_opcode(0x8567, 0); // V5 = V6 - V5
    assert_eq!(c.register(5), 6);
    assert_eq!(c.register(0xF), 1);
}

#[test]
fn bitwise_or_and_xor() {
    let mut c = Chip8::new();
    c.execute_opcode(0x65F0, 0);
    c.execute_opcode(0x663C, 0);
    c.execute_opcode(0x8561, 0); // V5 |= V6
    assert_eq!(c.register(5), 0xFC);
    c.execute_opcode(0x65F0, 0);
    c.execute_opcode(0x8562, 0); // V5 &= V6
    assert_eq!(c.register(5), 0x30);
    c.execute_opcode(0x8563, 0); // V5 ^= V6
    assert_eq!(c.register(5), 0x0C);
}

#[test]
fn copy_register() {
    let mut c = Chip8::new();
    c.execute_opcode(0x667B, 0);
    c.execute_opcode(0x8560, 0); // V5 = V6
    assert_eq!(c.register(5), 0x7B);
}

#[test]
fn shift_right_keeps_low_bit_in_flag() {
    let mut c = Chip8::new();
    c.execute_opcode(0x6505, 0); // V5 = 0b0000_0101
    c.execute_opcode(0x8566, 0);
    assert_eq!(c.register(5), 0x02);
    assert_eq!(c.register(0xF), 1);
    c.execute_opcode(0x8566, 0);
    assert_eq!(c.register(5), 0x01);
    assert_eq!(c.register(0xF), 0);
}

#[test]
fn shift_left_keeps_high_bit_in_flag() {
    let mut c = Chip8::new();
    c.execute_opcode(0x6581, 0); // V5 = 0b1000_0001
    c.execute_opcode(0x856E, 0);
    assert_eq!(c.register(5), 0x02);
    assert_eq!(c.register(0xF), 1);
    c.execute_opcode(0x856E, 0);
    assert_eq!(c.register(5), 0x04);
    assert_eq!(c.register(0xF), 0);
}

#[test]
fn skip_if_equal_immediate() {
    let mut c = Chip8::new();
    c.execute_opcode(0x6542, 0);
    c.execute_opcode(0x3542, 0); // equal: skip
    assert_eq!(c.pc(), 0x202);
    c.execute_opcode(0x3543, 0); // not equal: no skip
    assert_eq!(c.pc(), 0x202);
}

#[test]
fn skip_if_not_equal_immediate() {
    let mut c = Chip8::new();
    c.execute_opcode(0x6542, 0);
    c.execute_opcode(0x4543, 0); // not equal: skip
    assert_eq!(c.pc(), 0x202);
    c.execute_opcode(0x4542, 0); // equal: no skip
    assert_eq!(c.pc(), 0x202);
}

#[test]
fn skip_on_register_compare() {
    let mut c = Chip8::new();
    c.execute_opcode(0x6511, 0);
    c.execute_opcode(0x6611, 0);
    c.execute_opcode(0x5560, 0); // equal: skip
    assert_eq!(c.pc(), 0x202);
    c.execute_opcode(0x9560, 0); // equal: no skip
    assert_eq!(c.pc(), 0x202);
    c.execute_opcode(0x6612, 0);
    c.execute_opcode(0x9560, 0); // different: skip
    assert_eq!(c.pc(), 0x204);
    c.execute_opcode(0x5560, 0); // different: no skip
    assert_eq!(c.pc(), 0x204);
}

#[test]
fn malformed_skip_selector_is_unknown() {
    let mut c = Chip8::new();
    assert_eq!(c.execute_opcode(0x5561, 0), StepStatus::Unknown(0x5561));
    assert_eq!(c.execute_opcode(0x9563, 0), StepStatus::Unknown(0x9563));
    assert_eq!(c.execute_opcode(0x8569, 0), StepStatus::Unknown(0x8569));
    assert_eq!(c.execute_opcode(0xF5FF, 0), StepStatus::Unknown(0xF5FF));
    assert_eq!(c.pc(), 0x200);
}

#[test]
fn set_index_register() {
    let mut c = Chip8::new();
    c.execute_opcode(0xA123, 0);
    assert_eq!(c.index(), 0x123);
}

#[test]
fn jump_with_offset() {
    let mut c = Chip8::new();
    c.execute_opcode(0x6010, 0); // V0 = 0x10
    c.execute_opcode(0xB200, 0);
    assert_eq!(c.pc(), 0x210);
}

#[test]
fn random_is_masked() {
    let mut c = Chip8::new();
    c.execute_opcode(0xC50F, 0xAB); // V5 = 0xAB & 0x0F
    assert_eq!(c.register(5), 0x0B);
    c.execute_opcode(0xC600, 0xFF); // mask 0 forces 0
    assert_eq!(c.register(6), 0x00);
    c.execute_opcode(0xC7FF, 0x5C); // mask 0xFF keeps the byte
    assert_eq!(c.register(7), 0x5C);
}

#[test]
fn read_delay_into_register() {
    let mut c = Chip8::new();
    c.execute_opcode(0x6207, 0);
    c.execute_opcode(0xF215, 0); // delay = 7
    c.execute_opcode(0xF507, 0); // V5 = delay
    assert_eq!(c.register(5), 7);
}

#[test]
fn add_register_to_index() {
    let mut c = Chip8::new();
    c.execute_opcode(0xA123, 0);
    c.execute_opcode(0x6510, 0);
    c.execute_opcode(0xF51E, 0);
    assert_eq!(c.index(), 0x133);
}

#[test]
fn font_lookup_points_at_glyph() {
    let mut c = Chip8::new();
    c.execute_opcode(0x650A, 0); // V5 = 0xA
    c.execute_opcode(0xF529, 0);
    assert_eq!(c.index(), 0x50 + 5 * 0xA);
    // The glyph for A starts with 0xF0.
    assert_eq!(c.mem_byte(c.index() as usize), 0xF0);
}

#[test]
fn bcd_digits_stored_at_index() {
    let mut c = Chip8::new();
    c.execute_opcode(0x65EA, 0); // V5 = 234
    c.execute_opcode(0xA300, 0);
    c.execute_opcode(0xF533, 0);
    assert_eq!(c.mem_byte(0x300), 2);
    assert_eq!(c.mem_byte(0x301), 3);
    assert_eq!(c.mem_byte(0x302), 4);
}

#[test]
fn store_then_load_registers_round_trip() {
    let mut c = Chip8::new();
    c.execute_opcode(0x6011, 0);
    c.execute_opcode(0x6122, 0);
    c.execute_opcode(0x6233, 0);
    c.execute_opcode(0xA400, 0);
    c.execute_opcode(0xF255, 0); // store V0..V2 at 0x400
    assert_eq!(c.mem_byte(0x400), 0x11);
    assert_eq!(c.mem_byte(0x401), 0x22);
    assert_eq!(c.mem_byte(0x402), 0x33);
    assert_eq!(c.mem_byte(0x403), 0);
    // Clobber the registers, then load them back from the same place.
    c.execute_opcode(0x60AA, 0);
    c.execute_opcode(0x61BB, 0);
    c.execute_opcode(0x62CC, 0);
    c.execute_opcode(0xF265, 0);
    assert_eq!(c.register(0), 0x11);
    assert_eq!(c.register(1), 0x22);
    assert_eq!(c.register(2), 0x33);
}

#[test]
fn store_leaves_registers_and_index_unchanged() {
    let mut c = Chip8::new();
    c.execute_opcode(0x6011, 0);
    c.execute_opcode(0x6122, 0);
    c.execute_opcode(0xA400, 0);
    c.execute_opcode(0xF155, 0);
    assert_eq!(c.register(0), 0x11);
    assert_eq!(c.register(1), 0x22);
    assert_eq!(c.index(), 0x400);
}

#[test]
fn draw_glyph_then_redraw_toggles_off() {
    let mut c = Chip8::new();
    c.execute_opcode(0xA050, 0); // index at the glyph for 0
    // V0 and V1 are zero: draw at the top-left corner.
    c.execute_opcode(0xD015, 0);
    // The glyph rows are F0 90 90 90 F0.
    let rows: [u8; 5] = [0xF0, 0x90, 0x90, 0x90, 0xF0];
    for (r, bits) in rows.iter().enumerate() {
        for col in 0..8 {
            let lit = bits & (0x80 >> col) != 0;
            let cell = c.video_cell(r * 64 + col);
            assert_eq!(cell, if lit { PIXEL_ON } else { 0 });
        }
    }
    // Nothing was lit before, so no collision.
    assert_eq!(c.register(0xF), 0);
    // Drawing the same glyph again toggles every cell back off.
    c.execute_opcode(0xD015, 0);
    for idx in 0..64 * 32 {
        assert_eq!(c.video_cell(idx), 0);
    }
    // And the overlap is reported as a collision.
    assert_eq!(c.register(0xF), 1);
}

#[test]
fn draw_position_wraps_but_pixels_clip() {
    let mut c = Chip8::new();
    // A one-byte sprite of eight lit pixels, placed in the image itself.
    let rom = vec![
        0xA2, 0x08, // index = 0x208, where the sprite byte sits
        0x60, 0x3C, // V0 = 60
        0x61, 0x1F, // V1 = 31: the bottom row
        0xD0, 0x12, // draw 2 rows at (60, 31)
        0xFF, 0xFF,
    ];
    c.load_rom(&rom).unwrap();
    for _ in 0..4 {
        assert_eq!(c.cycle(), StepStatus::Executed);
    }
    // Columns 60..63 of the bottom row are lit.
    for col in 60..64 {
        assert_eq!(c.video_cell(31 * 64 + col), PIXEL_ON);
    }
    // The pixels past the right edge were dropped, not wrapped to column 0,
    // and the second sprite row fell off the bottom, not onto row 0.
    for col in 0..4 {
        assert_eq!(c.video_cell(31 * 64 + col), 0);
        assert_eq!(c.video_cell(col), 0);
    }
    assert_eq!(c.register(0xF), 0);
}

#[test]
fn draw_position_taken_modulo_screen() {
    let mut c = Chip8::new();
    let rom = vec![
        0xA2, 0x08, // index = 0x208
        0x60, 0x46, // V0 = 70: column 70 % 64 == 6
        0x61, 0x21, // V1 = 33: row 33 % 32 == 1
        0xD0, 0x11, // draw 1 row
        0x80, 0x00,
    ];
    c.load_rom(&rom).unwrap();
    for _ in 0..4 {
        c.cycle();
    }
    assert_eq!(c.video_cell(64 + 6), PIXEL_ON);
    assert_eq!(c.video_cell(64 + 7), 0);
}

#[test]
fn clear_screen_turns_every_cell_off() {
    let mut c = Chip8::new();
    c.execute_opcode(0xA050, 0);
    c.execute_opcode(0xD015, 0);
    assert_eq!(c.video_cell(0), PIXEL_ON);
    c.execute_opcode(0x00E0, 0);
    for idx in 0..64 * 32 {
        assert_eq!(c.video_cell(idx), 0);
    }
}

#[test]
fn partial_overlap_collides_and_toggles() {
    let mut c = Chip8::new();
    c.execute_opcode(0xA050, 0);
    c.execute_opcode(0xD015, 0); // glyph 0 at (0, 0)
    c.execute_opcode(0x6104, 0); // V1 = 4
    c.execute_opcode(0xD015, 0); // glyph 0 again at (0, 4): rows 4 overlap
    // Row 4 held 0xF0 from the first draw and is XORed with 0xF0 again.
    for col in 0..8 {
        assert_eq!(c.video_cell(4 * 64 + col), 0);
    }
    // Row 5 now holds 0x90.
    assert_eq!(c.video_cell(5 * 64), PIXEL_ON);
    assert_eq!(c.register(0xF), 1);
}

#[test]
fn video_buffer_is_whole_display() {
    let mut c = Chip8::new();
    c.execute_opcode(0xA050, 0);
    c.execute_opcode(0xD015, 0);
    let buf = c.video();
    assert_eq!(buf.len(), 64 * 32);
    assert_eq!(buf[0], PIXEL_ON);
    assert_eq!(buf[4], 0);
}
