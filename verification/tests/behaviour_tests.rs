use chip8_emu::constants::{DISPLAY_SIZE, FRAMEBUFFER_SIZE, MAX_ROM_SIZE, STACK_SIZE, WINDOW_WIDTH};
use chip8_emu::frame::Halt;
use chip8_emu::instruction::Instruction as FullInstruction;
use chip8_emu::{Chip8, Chip8Config, Instruction};

#[test]
fn load_rom_error_message_names_sizes() {
    let mut cpu = Chip8::new();
    let rom = vec![0u8; MAX_ROM_SIZE + 1];
    let result = cpu.load_rom(&rom);
    assert_eq!(
        result,
        Err(String::from("ROM too large: 3585 bytes, maximum 3584 bytes"))
    );
}

#[test]
fn load_rom_of_maximum_size_fills_ram() {
    let mut cpu = Chip8::new();
    let rom = vec![0xAB; MAX_ROM_SIZE];
    assert!(cpu.load_rom(&rom).is_ok());
    assert_eq!(cpu.memory[0x1FF], 0);
    assert_eq!(cpu.memory[0x200], 0xAB);
    assert_eq!(cpu.memory[0xFFF], 0xAB);
}

#[test]
fn load_rom_too_large_leaves_memory_unchanged() {
    let mut cpu = Chip8::new();
    let rom = vec![0xAB; MAX_ROM_SIZE + 1];
    assert!(cpu.load_rom(&rom).is_err());
    assert_eq!(cpu.memory[0x200], 0);
    assert_eq!(cpu.memory[0x000], 0xF0);
}

#[test]
fn new_and_default_agree() {
    let a = Chip8::new();
    let b = Chip8::default();
    assert_eq!(a.memory, b.memory);
    assert_eq!(a.pc, b.pc);
    assert!(b.stack.is_empty());
    assert_eq!(b.i, 0);
    assert_eq!(b.delay_timer, 0);
    assert_eq!(b.sound_timer, 0);
    assert!(b.display.iter().all(|&p| !p));
    assert!(b.keys.iter().all(|&k| !k));
    // last glyph byte ("F") and the first byte after the font
    assert_eq!(a.memory[79], 0x80);
    assert_eq!(a.memory[80], 0x00);
}

#[test]
fn fetch_then_decode_reads_big_endian() {
    let mut cpu = Chip8::new();
    cpu.memory[0x200] = 0xD1;
    cpu.memory[0x201] = 0x25;
    let opcode = cpu.fetch();
    assert_eq!(opcode, 0xD125);
    assert_eq!(cpu.decode(opcode), Instruction::Drw { x: 1, y: 2, n: 5 });
}

#[test]
fn decode_rejects_malformed_opcodes() {
    let cpu = Chip8::new();
    assert_eq!(cpu.decode(0x5231), Instruction::Unknown(0x5231));
    assert_eq!(cpu.decode(0x8238), Instruction::Unknown(0x8238));
    assert_eq!(cpu.decode(0x9231), Instruction::Unknown(0x9231));
    assert_eq!(cpu.decode(0xE2A2), Instruction::Unknown(0xE2A2));
    assert_eq!(cpu.decode(0xF2FF), Instruction::Unknown(0xF2FF));
    assert_eq!(cpu.decode(0x00E1), Instruction::Sys { addr: 0x0E1 });
}

#[test]
fn call_then_ret_restores_whole_state() {
    let mut cpu = Chip8::new();
    cpu.pc = 0x234;
    cpu.stack.push(0x222);
    cpu.execute(Instruction::Call { addr: 0x456 });
    assert_eq!(cpu.stack, vec![0x222, 0x234]);
    cpu.execute(Instruction::Ret);
    assert_eq!(cpu.pc, 0x234);
    assert_eq!(cpu.stack, vec![0x222]);
}

#[test]
fn draw_twice_restores_display_and_reports_collision() {
    let mut cpu = Chip8::new();
    cpu.i = 0x300;
    cpu.memory[0x300] = 0b1010_0101;
    cpu.memory[0x301] = 0b0110_0000;
    cpu.v[3] = 62;
    cpu.v[4] = 31;
    cpu.display[5] = true;
    let before = cpu.display;
    cpu.execute(Instruction::Drw { x: 3, y: 4, n: 2 });
    assert_eq!(cpu.v[0xF], 0);
    // row 31: columns 62 and 0 (wrapped), 61 unlit
    assert!(cpu.display[31 * 64 + 62]);
    assert!(!cpu.display[31 * 64 + 63]);
    assert!(cpu.display[31 * 64]);
    // second row wraps to row 0: bits 1 and 2 -> columns 63 and 0
    assert!(cpu.display[63]);
    assert!(cpu.display[0]);
    cpu.execute(Instruction::Drw { x: 3, y: 4, n: 2 });
    assert_eq!(cpu.v[0xF], 1);
    assert_eq!(cpu.display, before);
}

#[test]
fn draw_zero_rows_only_clears_vf() {
    let mut cpu = Chip8::new();
    cpu.v[0xF] = 1;
    cpu.i = 0xFFF;
    cpu.execute(Instruction::Drw { x: 0, y: 1, n: 0 });
    assert_eq!(cpu.v[0xF], 0);
    assert!(cpu.display.iter().all(|&p| !p));
}

#[test]
fn draw_with_font_glyph() {
    let mut cpu = Chip8::new();
    cpu.i = 5; // glyph "1": 0x20, 0x60, 0x20, 0x20, 0x70
    cpu.execute(Instruction::Drw { x: 0, y: 1, n: 5 });
    assert!(cpu.display[2]);
    assert!(cpu.display[64 + 1]);
    assert!(cpu.display[64 + 2]);
    assert!(cpu.display[4 * 64 + 3]);
    assert_eq!(cpu.display.iter().filter(|&&p| p).count(), 1 + 2 + 1 + 1 + 3);
}

#[test]
fn rnd_with_given_byte_is_masked() {
    let mut cpu = Chip8::new();
    cpu.execute_with_random(Instruction::Rnd { x: 4, kk: 0x0F }, 0xAB);
    assert_eq!(cpu.v[4], 0x0B);
    cpu.execute_with_random(Instruction::Rnd { x: 4, kk: 0xF0 }, 0xAB);
    assert_eq!(cpu.v[4], 0xA0);
}

#[test]
fn sub_of_equal_values_clears_vf() {
    let mut cpu = Chip8::new();
    cpu.v[2] = 7;
    cpu.v[3] = 7;
    cpu.v[0xF] = 1;
    cpu.execute(Instruction::SubVxVy { x: 2, y: 3 });
    assert_eq!(cpu.v[2], 0);
    assert_eq!(cpu.v[0xF], 0);
    cpu.v[2] = 7;
    cpu.v[0xF] = 1;
    cpu.execute(Instruction::SubnVxVy { x: 2, y: 3 });
    assert_eq!(cpu.v[2], 0);
    assert_eq!(cpu.v[0xF], 0);
}

#[test]
fn subn_with_borrow_wraps() {
    let mut cpu = Chip8::new();
    cpu.v[2] = 100;
    cpu.v[3] = 40;
    cpu.execute(Instruction::SubnVxVy { x: 2, y: 3 });
    assert_eq!(cpu.v[2], 196);
    assert_eq!(cpu.v[0xF], 0);
}

#[test]
fn flag_register_as_operand_keeps_the_flag() {
    let mut cpu = Chip8::new();
    cpu.v[0xF] = 200;
    cpu.v[1] = 100;
    cpu.execute(Instruction::AddVxVy { x: 0xF, y: 1 });
    assert_eq!(cpu.v[0xF], 1);
    cpu.v[0xF] = 0b1000_0001;
    cpu.execute(Instruction::ShrVx { x: 0xF });
    assert_eq!(cpu.v[0xF], 0);
    cpu.v[0xF] = 0b1000_0001;
    cpu.execute(Instruction::ShlVx { x: 0xF });
    assert_eq!(cpu.v[0xF], 2);
}

#[test]
fn jp_v0_adds_register() {
    let mut cpu = Chip8::new();
    cpu.v[0] = 0xFF;
    cpu.execute(Instruction::JpV0 { addr: 0xFFF });
    assert_eq!(cpu.pc, 0x10FE);
}

#[test]
fn tick_timers_counts_down_to_zero() {
    let mut cpu = Chip8::new();
    cpu.delay_timer = 2;
    cpu.sound_timer = 1;
    cpu.tick_timers();
    assert_eq!((cpu.delay_timer, cpu.sound_timer), (1, 0));
    cpu.tick_timers();
    assert_eq!((cpu.delay_timer, cpu.sound_timer), (0, 0));
    cpu.tick_timers();
    assert_eq!((cpu.delay_timer, cpu.sound_timer), (0, 0));
}

#[test]
fn set_key_then_skip() {
    let mut cpu = Chip8::new();
    cpu.v[1] = 0xA;
    cpu.set_key(0xA, true);
    let pc_before = cpu.pc;
    cpu.execute(Instruction::Skp { x: 1 });
    assert_eq!(cpu.pc, pc_before + 2);
    cpu.set_key(0xA, false);
    cpu.execute(Instruction::Skp { x: 1 });
    assert_eq!(cpu.pc, pc_before + 2);
}

#[test]
fn display_accessor_shows_pixels() {
    let mut cpu = Chip8::new();
    cpu.display[DISPLAY_SIZE - 1] = true;
    assert!(cpu.display()[DISPLAY_SIZE - 1]);
    assert!(!cpu.display()[0]);
}

#[test]
fn is_executable_rejects_what_would_fail() {
    let mut cpu = Chip8::new();
    assert!(!cpu.is_executable(&Instruction::Unknown(0xFFFF)));
    assert!(!cpu.is_executable(&Instruction::Ret));
    assert!(!cpu.is_executable(&Instruction::LdVxByte { x: 16, kk: 0 }));
    cpu.v[0] = 16;
    assert!(!cpu.is_executable(&Instruction::Skp { x: 0 }));
    cpu.i = 0xFFE;
    assert!(!cpu.is_executable(&Instruction::Drw { x: 0, y: 0, n: 3 }));
    assert!(cpu.is_executable(&Instruction::Drw { x: 0, y: 0, n: 2 }));
    for _ in 0..STACK_SIZE {
        assert!(cpu.is_executable(&Instruction::Call { addr: 0x300 }));
        cpu.execute(Instruction::Call { addr: 0x300 });
    }
    assert!(!cpu.is_executable(&Instruction::Call { addr: 0x300 }));
    assert!(cpu.is_executable(&Instruction::Ret));
}

#[test]
fn config_presets() {
    let modern = Chip8Config::default();
    assert!(!modern.shift_uses_vy);
    assert!(!modern.load_store_increments_i);
    assert!(modern.jump_v0_uses_vx);
    assert!(!modern.clip_sprites);
    assert!(!modern.reset_vf_after_logical);
    let legacy = Chip8Config::legacy();
    assert!(legacy.shift_uses_vy);
    assert!(legacy.load_store_increments_i);
    assert!(!legacy.jump_v0_uses_vx);
    assert!(legacy.clip_sprites);
    assert!(legacy.reset_vf_after_logical);
    assert_ne!(modern, legacy);
}

#[test]
fn instruction_module_exports_the_decoded_type() {
    let cpu = Chip8::new();
    let decoded: FullInstruction = cpu.decode(0xF333);
    assert_eq!(decoded, Instruction::LdBVx { x: 3 });
    assert_eq!(cpu.decode_full(0x8126), FullInstruction::ShrVxVy { x: 1, y: 2 });
}

#[test]
fn tall_sprite_overlapping_itself_collides_on_blank_screen() {
    let mut cpu = Chip8::new();
    cpu.i = 0x300;
    cpu.memory[0x300] = 0x80;
    cpu.memory[0x300 + 32] = 0x80;
    cpu.execute(Instruction::Drw { x: 0, y: 1, n: 33 });
    assert_eq!(cpu.v[0xF], 1);
    assert!(!cpu.display[0]);
}

#[test]
fn decoded_bnnn_stays_in_range() {
    let mut cpu = Chip8::new();
    let instruction = cpu.decode(0xBFFF);
    assert_eq!(instruction, Instruction::JpV0 { addr: 0xFFF });
    cpu.v[0] = 0xFF;
    assert!(cpu.is_executable(&instruction));
    cpu.execute(instruction);
    assert_eq!(cpu.pc, 0x10FE);
}

#[test]
fn decode_fx_family() {
    let cpu = Chip8::new();
    assert_eq!(cpu.decode(0xF307), Instruction::LdVxDt { x: 3 });
    assert_eq!(cpu.decode(0xF30A), Instruction::LdVxK { x: 3 });
    assert_eq!(cpu.decode(0xF315), Instruction::LdDtVx { x: 3 });
    assert_eq!(cpu.decode(0xF318), Instruction::LdStVx { x: 3 });
    assert_eq!(cpu.decode(0xF31E), Instruction::AddIVx { x: 3 });
    assert_eq!(cpu.decode(0xF329), Instruction::LdFVx { x: 3 });
    assert_eq!(cpu.decode(0xF333), Instruction::LdBVx { x: 3 });
    assert_eq!(cpu.decode(0xF355), Instruction::LdIVx { x: 3 });
    assert_eq!(cpu.decode(0xF365), Instruction::LdVxI { x: 3 });
}

#[test]
fn fx_timer_transfers() {
    let mut cpu = Chip8::new();
    cpu.v[1] = 42;
    cpu.execute(Instruction::LdDtVx { x: 1 });
    cpu.execute(Instruction::LdStVx { x: 1 });
    assert_eq!((cpu.delay_timer, cpu.sound_timer), (42, 42));
    cpu.tick_timers();
    cpu.execute(Instruction::LdVxDt { x: 2 });
    assert_eq!(cpu.v[2], 41);
}

#[test]
fn fx_index_register() {
    let mut cpu = Chip8::new();
    cpu.i = 0x100;
    cpu.v[4] = 0x20;
    cpu.execute(Instruction::AddIVx { x: 4 });
    assert_eq!(cpu.i, 0x120);
    cpu.v[4] = 0xA;
    cpu.execute(Instruction::LdFVx { x: 4 });
    assert_eq!(cpu.i, 50);
    assert_eq!(cpu.memory[cpu.i as usize], 0xF0);
}

#[test]
fn fx_bcd() {
    let mut cpu = Chip8::new();
    cpu.v[3] = 254;
    cpu.i = 0x300;
    cpu.execute(Instruction::LdBVx { x: 3 });
    assert_eq!(&cpu.memory[0x300..0x303], &[2, 5, 4]);
    cpu.v[3] = 7;
    cpu.execute(Instruction::LdBVx { x: 3 });
    assert_eq!(&cpu.memory[0x300..0x303], &[0, 0, 7]);
}

#[test]
fn fx_store_and_load_registers() {
    let mut cpu = Chip8::new();
    cpu.i = 0x300;
    cpu.v[0] = 1;
    cpu.v[1] = 2;
    cpu.v[2] = 3;
    cpu.v[3] = 4;
    cpu.execute(Instruction::LdIVx { x: 2 });
    assert_eq!(&cpu.memory[0x300..0x304], &[1, 2, 3, 0]);
    assert_eq!(cpu.i, 0x300);
    cpu.v = [0; 16];
    cpu.execute(Instruction::LdVxI { x: 2 });
    assert_eq!(&cpu.v[0..4], &[1, 2, 3, 0]);
    assert_eq!(cpu.i, 0x300);
}

#[test]
fn fx_block_transfer_advances_i_with_legacy_config() {
    let mut cpu = Chip8::with_config(Chip8Config::legacy());
    cpu.i = 0x300;
    cpu.v[0] = 9;
    cpu.v[1] = 8;
    cpu.execute(Instruction::LdIVx { x: 1 });
    assert_eq!(cpu.i, 0x302);
    cpu.i = 0x300;
    cpu.v = [0; 16];
    cpu.execute(Instruction::LdVxI { x: 1 });
    assert_eq!((cpu.v[0], cpu.v[1], cpu.i), (9, 8, 0x302));
}

#[test]
fn fx_wait_for_key() {
    let mut cpu = Chip8::new();
    cpu.pc = 0x202;
    cpu.execute(Instruction::LdVxK { x: 5 });
    assert_eq!(cpu.pc, 0x200);
    cpu.pc = 0x202;
    cpu.set_key(7, true);
    cpu.set_key(3, true);
    cpu.execute(Instruction::LdVxK { x: 5 });
    assert_eq!(cpu.pc, 0x202);
    assert_eq!(cpu.v[5], 3);
    let mut cpu = Chip8::new();
    cpu.pc = 0;
    cpu.execute(Instruction::LdVxK { x: 5 });
    assert_eq!(cpu.pc, 0xFFFE);
}

#[test]
fn legacy_quirks() {
    let mut cpu = Chip8::with_config(Chip8Config::legacy());
    let fresh = Chip8::new();
    assert_eq!(cpu.decode(0x8236), Instruction::ShrVx { x: 2 });
    assert_eq!(cpu.decode(0x8236), fresh.decode(0x8236));
    assert_eq!(cpu.decode_full(0x8236), Instruction::ShrVxVy { x: 2, y: 3 });
    assert_eq!(cpu.decode_full(0x823E), Instruction::ShlVxVy { x: 2, y: 3 });
    assert_eq!(cpu.decode_full(0x823E), fresh.decode_full(0x823E));
    cpu.v[2] = 0xFF;
    cpu.v[3] = 0b1000_0011;
    cpu.execute(Instruction::ShrVxVy { x: 2, y: 3 });
    assert_eq!((cpu.v[2], cpu.v[0xF]), (0b0100_0001, 1));
    cpu.execute(Instruction::ShlVxVy { x: 2, y: 3 });
    assert_eq!((cpu.v[2], cpu.v[0xF]), (0b0000_0110, 1));
    cpu.v[0xF] = 1;
    cpu.execute(Instruction::OrVxVy { x: 2, y: 3 });
    assert_eq!(cpu.v[0xF], 0);
    cpu.v[0] = 0x10;
    cpu.execute(Instruction::JpV0 { addr: 0x200 });
    assert_eq!(cpu.pc, 0x210);
}

#[test]
fn modern_quirks() {
    let mut cpu = Chip8::with_config(Chip8Config::default());
    assert_eq!(cpu.decode(0x8236), Instruction::ShrVx { x: 2 });
    cpu.v[2] = 0b0000_0101;
    cpu.v[3] = 0xFF;
    cpu.execute(Instruction::ShrVxVy { x: 2, y: 3 });
    assert_eq!((cpu.v[2], cpu.v[0xF]), (0b0000_0010, 1));
    cpu.execute(Instruction::ShlVxVy { x: 2, y: 3 });
    assert_eq!((cpu.v[2], cpu.v[0xF]), (0b0000_0100, 0));
    cpu.v[0] = 0x10;
    cpu.v[2] = 0x05;
    cpu.execute(Instruction::JpV0 { addr: 0x2AB });
    assert_eq!(cpu.pc, 0x2B0);
    cpu.v[0xF] = 1;
    cpu.execute(Instruction::AndVxVy { x: 2, y: 0 });
    assert_eq!(cpu.v[0xF], 1);
}

#[test]
fn clipped_sprite_does_not_wrap() {
    let mut cpu = Chip8::with_config(Chip8Config::legacy());
    cpu.memory[cpu.i as usize] = 0xFF;
    cpu.v[0] = 63;
    cpu.v[1] = 31;
    cpu.execute(Instruction::Drw { x: 0, y: 1, n: 2 });
    assert!(cpu.display[31 * 64 + 63]);
    assert!(!cpu.display[31 * 64]);
    assert_eq!(cpu.display.iter().filter(|&&p| p).count(), 1);
}

#[test]
fn step_executes_or_halts() {
    let mut cpu = Chip8::new();
    cpu.load_rom(&[0x60, 0x0A, 0xFF, 0xFF]).unwrap();
    assert_eq!(cpu.step(), None);
    assert_eq!((cpu.v[0], cpu.pc), (0x0A, 0x202));
    assert_eq!(cpu.step(), Some(Instruction::Unknown(0xFFFF)));
    assert_eq!(cpu.pc, 0x204);
}

#[test]
fn run_frame_steps_then_ticks() {
    let mut cpu = Chip8::new();
    // 0x200: ADD V1, 1; 0x202: JP 0x200
    cpu.load_rom(&[0x71, 0x01, 0x12, 0x00]).unwrap();
    cpu.delay_timer = 5;
    let mut keys = [false; 16];
    keys[4] = true;
    assert_eq!(cpu.run_frame(keys), None);
    assert_eq!(cpu.v[1], 5);
    assert_eq!(cpu.pc, 0x200);
    assert_eq!(cpu.delay_timer, 4);
    assert!(cpu.keys[4]);
}

#[test]
fn run_frame_stops_at_halt() {
    let mut cpu = Chip8::new();
    cpu.load_rom(&[0x71, 0x01, 0x00, 0xEE]).unwrap();
    cpu.sound_timer = 2;
    assert_eq!(cpu.run_frame([false; 16]), Some(Halt::Blocked(Instruction::Ret)));
    assert_eq!(cpu.v[1], 1);
    assert_eq!(cpu.pc, 0x204);
    assert_eq!(cpu.sound_timer, 1);
    let mut cpu = Chip8::new();
    cpu.pc = 0xFFF;
    assert_eq!(cpu.run_frame([false; 16]), Some(Halt::PcOutOfRam(0xFFF)));
}

#[test]
fn render_scaled_repeats_pixels() {
    let mut cpu = Chip8::new();
    cpu.display[0] = true;
    cpu.display[DISPLAY_SIZE - 1] = true;
    let buf = Chip8::render_scaled(cpu.display());
    assert_eq!(buf.len(), FRAMEBUFFER_SIZE);
    assert_eq!(buf[0], 0xFFFFFF);
    assert_eq!(buf[9 * WINDOW_WIDTH + 9], 0xFFFFFF);
    assert_eq!(buf[10], 0);
    assert_eq!(buf[10 * WINDOW_WIDTH], 0);
    assert_eq!(buf[FRAMEBUFFER_SIZE - 1], 0xFFFFFF);
    assert_eq!(buf[FRAMEBUFFER_SIZE - 11], 0);
    assert_eq!(buf.iter().filter(|&&p| p != 0).count(), 200);
}

#[test]
fn collision_when_sprite_hits_lit_pixel() {
    let mut cpu = Chip8::new();
    cpu.display[2] = true;
    cpu.i = 0x300;
    cpu.memory[0x300] = 0x20;
    cpu.execute(Instruction::Drw { x: 0, y: 1, n: 1 });
    assert_eq!(cpu.v[0xF], 1);
    assert!(!cpu.display[2]);
    cpu.memory[0x300] = 0x40;
    cpu.execute(Instruction::Drw { x: 0, y: 1, n: 1 });
    assert_eq!(cpu.v[0xF], 0);
}

#[test]
fn run_without_stores_keeps_font_and_timers() {
    let mut cpu = Chip8::new();
    let font = cpu.memory;
    cpu.delay_timer = 3;
    for instruction in [
        Instruction::LdVxByte { x: 0, kk: 7 },
        Instruction::LdI { addr: 0 },
        Instruction::Drw { x: 0, y: 0, n: 5 },
        Instruction::Call { addr: 0x300 },
        Instruction::AddIVx { x: 0 },
        Instruction::LdVxI { x: 3 },
        Instruction::Ret,
    ] {
        cpu.execute(instruction);
    }
    assert_eq!(cpu.memory, font);
    assert_eq!(cpu.delay_timer, 3);
    assert!(cpu.stack.is_empty());
}

#[test]
fn step_shift_follows_configuration() {
    let program = [0x82, 0x36];
    let mut legacy = Chip8::with_config(Chip8Config::legacy());
    legacy.load_rom(&program).unwrap();
    legacy.v[2] = 0x01;
    legacy.v[3] = 0x08;
    assert_eq!(legacy.step(), None);
    assert_eq!((legacy.v[2], legacy.v[0xF]), (0x04, 0));
    let mut modern = Chip8::with_config(Chip8Config::default());
    modern.load_rom(&program).unwrap();
    modern.v[2] = 0x01;
    modern.v[3] = 0x08;
    assert_eq!(modern.step(), None);
    assert_eq!((modern.v[2], modern.v[0xF]), (0x00, 1));
}
