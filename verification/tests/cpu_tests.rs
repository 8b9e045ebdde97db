use chip8_emu::constants::{MEMORY_SIZE, ROM_START};
use chip8_emu::{Chip8, Instruction};

#[test]
fn cpu_test_new_pc_starts_at_rom_start() {
    let chip8 = Chip8::new();
    assert_eq!(chip8.pc, ROM_START);
}

#[test]
fn test_rom_start_is_zeroed() {
    let chip8 = Chip8::new();
    assert_eq!(chip8.memory[ROM_START as usize], 0);
}

#[test]
fn cpu_test_load_rom_ok() {
    let mut cpu = Chip8::new();
    let rom = vec![0x43, 0x6F, 0x77, 0x67, 0x6F, 0x64];
    let result = cpu.load_rom(&rom);
    assert!(result.is_ok());
}

#[test]
fn cpu_test_load_rom_data_in_memory() {
    let mut cpu = Chip8::new();
    let rom = vec![0x43, 0x6F, 0x77, 0x67, 0x6F, 0x64];
    cpu.load_rom(&rom).unwrap();
    assert_eq!(cpu.memory[0x200], 0x43);
    assert_eq!(cpu.memory[0x201], 0x6F);
    assert_eq!(cpu.memory[0x202], 0x77);
    assert_eq!(cpu.memory[0x203], 0x67);
    assert_eq!(cpu.memory[0x204], 0x6F);
    assert_eq!(cpu.memory[0x205], 0x64);
}

#[test]
fn cpu_test_load_rom_too_large() {
    let mut cpu = Chip8::new();
    let rom = vec![0u8; MEMORY_SIZE - ROM_START as usize + 1];
    let result = cpu.load_rom(&rom);
    assert!(result.is_err());
}

#[test]
fn test_fontset_loaded_at_start() {
    let cpu = Chip8::new();
    // "0" starts at 0x000, first byte is 0xF0
    assert_eq!(cpu.memory[0x000], 0xF0);
    // "1" starts at 0x005, first byte is 0x20
    assert_eq!(cpu.memory[0x005], 0x20);
    // "F" starts at 0x04B (75), first byte is 0xF0
    assert_eq!(cpu.memory[0x04B], 0xF0);
}

#[test]
fn test_fontset_not_overwritten_by_rom() {
    let mut cpu = Chip8::new();
    let rom = vec![0x12, 0x00];
    cpu.load_rom(&rom).unwrap();
    assert_eq!(cpu.memory[0x000], 0xF0);
}

#[test]
fn test_fetch_reads_two_bytes() {
    let mut cpu = Chip8::new();
    cpu.memory[0x200] = 0x12;
    cpu.memory[0x201] = 0x00;

    let opcode = cpu.fetch();

    assert_eq!(opcode, 0x1200);
}

#[test]
fn test_fetch_advances_pc() {
    let mut cpu = Chip8::new();
    cpu.memory[0x200] = 0x12;
    cpu.memory[0x201] = 0x00;

    cpu.fetch();

    assert_eq!(cpu.pc, 0x202);
}

#[test]
fn test_decode_cls() {
    let cpu = Chip8::new();
    assert_eq!(cpu.decode(0x00E0), Instruction::Cls);
}

#[test]
fn test_decode_ret() {
    let cpu = Chip8::new();
    assert_eq!(cpu.decode(0x00EE), Instruction::Ret);
}

#[test]
fn test_decode_sys() {
    let cpu = Chip8::new();
    assert_eq!(cpu.decode(0x0123), Instruction::Sys { addr: 0x123 });
}

#[test]
fn test_decode_jp() {
    let cpu = Chip8::new();
    assert_eq!(cpu.decode(0x1ABC), Instruction::Jp { addr: 0xABC });
}

#[test]
fn test_decode_call() {
    let cpu = Chip8::new();
    assert_eq!(cpu.decode(0x2ABC), Instruction::Call { addr: 0xABC });
}

#[test]
fn test_decode_ld_vx_byte() {
    let cpu = Chip8::new();
    assert_eq!(cpu.decode(0x6342), Instruction::LdVxByte { x: 3, kk: 0x42 });
}

#[test]
fn test_decode_add_vx_byte() {
    let cpu = Chip8::new();
    assert_eq!(
        cpu.decode(0x7205),
        Instruction::AddVxByte { x: 2, kk: 0x05 }
    );
}

#[test]
fn test_decode_ld_i() {
    let cpu = Chip8::new();
    assert_eq!(cpu.decode(0xA123), Instruction::LdI { addr: 0x123 });
}

#[test]
fn test_decode_unknown() {
    let cpu = Chip8::new();
    assert_eq!(cpu.decode(0xFFFF), Instruction::Unknown(0xFFFF));
}

#[test]
fn test_decode_se_vx_byte() {
    let cpu = Chip8::new();
    assert_eq!(cpu.decode(0x3210), Instruction::Se { x: 2, kk: 0x10 });
}

#[test]
fn test_decode_sne_vx_byte() {
    let cpu = Chip8::new();
    assert_eq!(cpu.decode(0x4210), Instruction::Sne { x: 2, kk: 0x10 });
}

#[test]
fn test_decode_se_vx_vy() {
    let cpu = Chip8::new();
    assert_eq!(cpu.decode(0x5230), Instruction::SeVxVy { x: 2, y: 3 });
}

#[test]
fn test_decode_ld_vx_vy() {
    let cpu = Chip8::new();
    assert_eq!(cpu.decode(0x8230), Instruction::LdVxVy { x: 2, y: 3 });
}

#[test]
fn test_decode_or_vx_vy() {
    let cpu = Chip8::new();
    assert_eq!(cpu.decode(0x8231), Instruction::OrVxVy { x: 2, y: 3 });
}

#[test]
fn test_decode_and_vx_vy() {
    let cpu = Chip8::new();
    assert_eq!(cpu.decode(0x8232), Instruction::AndVxVy { x: 2, y: 3 });
}

#[test]
fn test_decode_xor_vx_vy() {
    let cpu = Chip8::new();
    assert_eq!(cpu.decode(0x8233), Instruction::XorVxVy { x: 2, y: 3 });
}

#[test]
fn test_decode_add_vx_vy() {
    let cpu = Chip8::new();
    assert_eq!(cpu.decode(0x8234), Instruction::AddVxVy { x: 2, y: 3 });
}

#[test]
fn test_decode_sub_vx_vy() {
    let cpu = Chip8::new();
    assert_eq!(cpu.decode(0x8235), Instruction::SubVxVy { x: 2, y: 3 });
}

#[test]
fn test_decode_shr_vx() {
    let cpu = Chip8::new();
    assert_eq!(cpu.decode(0x8236), Instruction::ShrVx { x: 2 });
}

#[test]
fn test_decode_subn_vx_vy() {
    let cpu = Chip8::new();
    assert_eq!(cpu.decode(0x8237), Instruction::SubnVxVy { x: 2, y: 3 });
}

#[test]
fn test_decode_shl_vx() {
    let cpu = Chip8::new();
    assert_eq!(cpu.decode(0x823E), Instruction::ShlVx { x: 2 });
}

#[test]
fn test_decode_sne_vx_vy() {
    let cpu = Chip8::new();
    assert_eq!(cpu.decode(0x9230), Instruction::SneVxVy { x: 2, y: 3 });
}

#[test]
fn test_decode_jp_v0() {
    let cpu = Chip8::new();
    assert_eq!(cpu.decode(0xB123), Instruction::JpV0 { addr: 0x123 });
}

#[test]
fn test_decode_rnd() {
    let cpu = Chip8::new();
    assert_eq!(cpu.decode(0xC20F), Instruction::Rnd { x: 2, kk: 0x0F });
}

#[test]
fn test_decode_drw() {
    let cpu = Chip8::new();
    assert_eq!(cpu.decode(0xD125), Instruction::Drw { x: 1, y: 2, n: 5 });
}

#[test]
fn test_decode_skp() {
    let cpu = Chip8::new();
    assert_eq!(cpu.decode(0xE29E), Instruction::Skp { x: 2 });
}

#[test]
fn test_decode_sknp() {
    let cpu = Chip8::new();
    assert_eq!(cpu.decode(0xE2A1), Instruction::Sknp { x: 2 });
}

#[test]
fn test_opcode_cls_clears_display() {
    let mut cpu = Chip8::new();
    cpu.display[0] = true;
    cpu.display[100] = true;
    cpu.execute(Instruction::Cls);
    assert!(cpu.display.iter().all(|&p| !p))
}

#[test]
fn test_opcode_jp_sets_pc() {
    let mut cpu = Chip8::new();
    cpu.execute(Instruction::Jp { addr: 0xABC });
    assert_eq!(cpu.pc, 0xABC);
}

#[test]
fn test_opcode_ld_vx_sets_register() {
    let mut cpu = Chip8::new();
    cpu.execute(Instruction::LdVxByte { x: 3, kk: 0x42 });
    assert_eq!(cpu.v[3], 0x42);
}

#[test]
fn test_opcode_add_vx_adds_value() {
    let mut cpu = Chip8::new();
    cpu.v[2] = 10;
    cpu.execute(Instruction::AddVxByte { x: 2, kk: 0x05 });
    assert_eq!(cpu.v[2], 15);
}

#[test]
fn test_opcode_add_vx_wraps_on_overflow() {
    let mut cpu = Chip8::new();
    cpu.v[0] = 0xFF;
    cpu.execute(Instruction::AddVxByte { x: 0, kk: 0x01 });
    assert_eq!(cpu.v[0], 0x00);
}

#[test]
fn test_opcode_ld_i_sets_i() {
    let mut cpu = Chip8::new();
    cpu.execute(Instruction::LdI { addr: 0x123 });
    assert_eq!(cpu.i, 0x123);
}

#[test]
fn test_call_pushes_pc_to_stack() {
    let mut cpu = Chip8::new();
    cpu.pc = 0x200;
    cpu.execute(Instruction::Call { addr: 0x300 });
    assert_eq!(cpu.stack.last().copied(), Some(0x200));
}

#[test]
fn test_call_sets_pc_to_addr() {
    let mut cpu = Chip8::new();
    cpu.execute(Instruction::Call { addr: 0x300 });
    assert_eq!(cpu.pc, 0x300);
}

#[test]
fn test_ret_restores_pc_from_stack() {
    let mut cpu = Chip8::new();
    cpu.stack.push(0x200);
    cpu.execute(Instruction::Ret);
    assert_eq!(cpu.pc, 0x200);
}

#[test]
fn test_ret_pops_stack() {
    let mut cpu = Chip8::new();
    cpu.stack.push(0x200);
    cpu.execute(Instruction::Ret);
    assert!(cpu.stack.is_empty());
}

#[test]
fn test_call_and_ret_roundtrip() {
    let mut cpu = Chip8::new();
    cpu.pc = 0x200;
    cpu.execute(Instruction::Call { addr: 0x300 });
    assert_eq!(cpu.pc, 0x300);
    cpu.execute(Instruction::Ret);
    assert_eq!(cpu.pc, 0x200);
}

#[test]
fn test_sys_is_ignored() {
    let mut cpu = Chip8::new();
    let pc_before = cpu.pc;
    cpu.execute(Instruction::Sys { addr: 0x200 });
    assert_eq!(cpu.pc, pc_before);
}

#[test]
fn test_se_skips_when_equal() {
    let mut cpu = Chip8::new();
    cpu.v[2] = 0x10;
    let pc_before = cpu.pc;
    cpu.execute(Instruction::Se { x: 2, kk: 0x10 });
    assert_eq!(cpu.pc, pc_before + 2);
}

#[test]
fn test_se_does_not_skip_when_not_equal() {
    let mut cpu = Chip8::new();
    cpu.v[2] = 0x10;
    let pc_before = cpu.pc;
    cpu.execute(Instruction::Se { x: 2, kk: 0x20 });
    assert_eq!(cpu.pc, pc_before);
}

#[test]
fn test_sne_skips_when_not_equal() {
    let mut cpu = Chip8::new();
    cpu.v[2] = 0x10;
    let pc_before = cpu.pc;
    cpu.execute(Instruction::Sne { x: 2, kk: 0x20 });
    assert_eq!(cpu.pc, pc_before + 2);
}

#[test]
fn test_sne_does_not_skip_when_equal() {
    let mut cpu = Chip8::new();
    cpu.v[2] = 0x10;
    let pc_before = cpu.pc;
    cpu.execute(Instruction::Sne { x: 2, kk: 0x10 });
    assert_eq!(cpu.pc, pc_before);
}

#[test]
fn test_se_vx_vy_skips_when_equal() {
    let mut cpu = Chip8::new();
    cpu.v[2] = 0x10;
    cpu.v[3] = 0x10;
    let pc_before = cpu.pc;
    cpu.execute(Instruction::SeVxVy { x: 2, y: 3 });
    assert_eq!(cpu.pc, pc_before + 2);
}

#[test]
fn test_se_vx_vy_does_not_skip_when_not_equal() {
    let mut cpu = Chip8::new();
    cpu.v[2] = 0x10;
    cpu.v[3] = 0x20;
    let pc_before = cpu.pc;
    cpu.execute(Instruction::SeVxVy { x: 2, y: 3 });
    assert_eq!(cpu.pc, pc_before);
}

#[test]
fn test_ld_vx_vy_copies_register() {
    let mut cpu = Chip8::new();
    cpu.v[3] = 0x42;
    cpu.execute(Instruction::LdVxVy { x: 2, y: 3 });
    assert_eq!(cpu.v[2], 0x42);
}

#[test]
fn test_or_vx_vy() {
    let mut cpu = Chip8::new();
    cpu.v[2] = 0b10110000;
    cpu.v[3] = 0b11001100;
    cpu.execute(Instruction::OrVxVy { x: 2, y: 3 });
    assert_eq!(cpu.v[2], 0b11111100);
}

#[test]
fn test_and_vx_vy() {
    let mut cpu = Chip8::new();
    cpu.v[2] = 0b10110000;
    cpu.v[3] = 0b11001100;
    cpu.execute(Instruction::AndVxVy { x: 2, y: 3 });
    assert_eq!(cpu.v[2], 0b10000000);
}

#[test]
fn test_xor_vx_vy() {
    let mut cpu = Chip8::new();
    cpu.v[2] = 0b10110000;
    cpu.v[3] = 0b11001100;
    cpu.execute(Instruction::XorVxVy { x: 2, y: 3 });
    assert_eq!(cpu.v[2], 0b01111100);
}

#[test]
fn test_add_vx_vy_no_carry() {
    let mut cpu = Chip8::new();
    cpu.v[2] = 10;
    cpu.v[3] = 20;
    cpu.execute(Instruction::AddVxVy { x: 2, y: 3 });
    assert_eq!(cpu.v[2], 30);
    assert_eq!(cpu.v[0xF], 0); // no carry
}

#[test]
fn test_add_vx_vy_with_carry() {
    let mut cpu = Chip8::new();
    cpu.v[2] = 200;
    cpu.v[3] = 100;
    cpu.execute(Instruction::AddVxVy { x: 2, y: 3 });
    assert_eq!(cpu.v[2], 44); // 300 - 256 = 44
    assert_eq!(cpu.v[0xF], 1); // carry
}

#[test]
fn test_sub_vx_vy_no_borrow() {
    let mut cpu = Chip8::new();
    cpu.v[2] = 100;
    cpu.v[3] = 40;
    cpu.execute(Instruction::SubVxVy { x: 2, y: 3 });
    assert_eq!(cpu.v[2], 60);
    assert_eq!(cpu.v[0xF], 1); // NOT borrow = 1 because Vx > Vy
}

#[test]
fn test_sub_vx_vy_with_borrow() {
    let mut cpu = Chip8::new();
    cpu.v[2] = 40;
    cpu.v[3] = 100;
    cpu.execute(Instruction::SubVxVy { x: 2, y: 3 });
    assert_eq!(cpu.v[0xF], 0); // NOT borrow = 0 because Vx < Vy
}

#[test]
fn test_shr_vx_shifts_right() {
    let mut cpu = Chip8::new();
    cpu.v[2] = 0b00001010;
    cpu.execute(Instruction::ShrVx { x: 2 });
    assert_eq!(cpu.v[2], 0b00000101);
    assert_eq!(cpu.v[0xF], 0);
}

#[test]
fn test_shr_vx_saves_lost_bit() {
    let mut cpu = Chip8::new();
    cpu.v[2] = 0b00001011;
    cpu.execute(Instruction::ShrVx { x: 2 });
    assert_eq!(cpu.v[0xF], 1);
}

#[test]
fn test_subn_vx_vy_no_borrow() {
    let mut cpu = Chip8::new();
    cpu.v[2] = 40;
    cpu.v[3] = 100;
    cpu.execute(Instruction::SubnVxVy { x: 2, y: 3 });
    assert_eq!(cpu.v[2], 60); // Vy - Vx = 100 - 40
    assert_eq!(cpu.v[0xF], 1); // NOT borrow = 1 because Vy > Vx
}

#[test]
fn test_shl_vx_shifts_left() {
    let mut cpu = Chip8::new();
    cpu.v[2] = 0b00000101;
    cpu.execute(Instruction::ShlVx { x: 2 });
    assert_eq!(cpu.v[2], 0b00001010);
    assert_eq!(cpu.v[0xF], 0);
}

#[test]
fn test_shl_vx_saves_lost_bit() {
    let mut cpu = Chip8::new();
    cpu.v[2] = 0b10000001;
    cpu.execute(Instruction::ShlVx { x: 2 });
    assert_eq!(cpu.v[0xF], 1);
}

#[test]
fn test_sne_vx_vy_skips_when_not_equal() {
    let mut cpu = Chip8::new();
    cpu.v[2] = 0x10;
    cpu.v[3] = 0x20;
    let pc_before = cpu.pc;
    cpu.execute(Instruction::SneVxVy { x: 2, y: 3 });
    assert_eq!(cpu.pc, pc_before + 2);
}

#[test]
fn test_sne_vx_vy_does_not_skip_when_equal() {
    let mut cpu = Chip8::new();
    cpu.v[2] = 0x10;
    cpu.v[3] = 0x10;
    let pc_before = cpu.pc;
    cpu.execute(Instruction::SneVxVy { x: 2, y: 3 });
    assert_eq!(cpu.pc, pc_before);
}

#[test]
fn test_jp_v0_jumps_to_addr_plus_v0() {
    let mut cpu = Chip8::new();
    cpu.v[0] = 0x10;
    cpu.execute(Instruction::JpV0 { addr: 0x200 });
    assert_eq!(cpu.pc, 0x210);
}

#[test]
fn test_jp_v0_with_zero_offset() {
    let mut cpu = Chip8::new();
    cpu.v[0] = 0;
    cpu.execute(Instruction::JpV0 { addr: 0x300 });
    assert_eq!(cpu.pc, 0x300);
}

#[test]
fn test_rnd_result_is_masked_by_kk() {
    let mut cpu = Chip8::new();
    for _ in 0..100 {
        cpu.execute(Instruction::Rnd { x: 0, kk: 0x0F });
        assert!(cpu.v[0] <= 0x0F);
    }
}

#[test]
fn test_rnd_with_zero_mask_is_always_zero() {
    let mut cpu = Chip8::new();
    cpu.execute(Instruction::Rnd { x: 0, kk: 0x00 });
    assert_eq!(cpu.v[0], 0);
}

#[test]
fn test_drw_turns_on_pixels() {
    let mut cpu = Chip8::new();
    // one-row sprite: 0xF0 = 11110000
    cpu.memory[cpu.i as usize] = 0xF0;
    cpu.v[0] = 0; // x = 0
    cpu.v[1] = 0; // y = 0
    cpu.execute(Instruction::Drw { x: 0, y: 1, n: 1 });
    // the first 4 pixels of the first row must be on
    assert!(cpu.display[0]);
    assert!(cpu.display[1]);
    assert!(cpu.display[2]);
    assert!(cpu.display[3]);
    assert!(!cpu.display[4]);
}

#[test]
fn test_drw_xor_toggles_pixels() {
    let mut cpu = Chip8::new();
    cpu.memory[cpu.i as usize] = 0xFF;
    cpu.v[0] = 0;
    cpu.v[1] = 0;
    // draw twice - the pixels must turn off again
    cpu.execute(Instruction::Drw { x: 0, y: 1, n: 1 });
    cpu.execute(Instruction::Drw { x: 0, y: 1, n: 1 });
    assert!(!cpu.display[0]);
}

#[test]
fn test_drw_sets_vf_on_collision() {
    let mut cpu = Chip8::new();
    cpu.memory[cpu.i as usize] = 0xFF;
    cpu.v[0] = 0;
    cpu.v[1] = 0;
    cpu.execute(Instruction::Drw { x: 0, y: 1, n: 1 });
    assert_eq!(cpu.v[0xF], 0); // first pass, no collision
    cpu.execute(Instruction::Drw { x: 0, y: 1, n: 1 });
    assert_eq!(cpu.v[0xF], 1); // second pass, collision!
}

#[test]
fn test_drw_wraps_horizontally() {
    let mut cpu = Chip8::new();
    cpu.memory[cpu.i as usize] = 0xFF;
    cpu.v[0] = 63; // x next to the right edge
    cpu.v[1] = 0;
    cpu.execute(Instruction::Drw { x: 0, y: 1, n: 1 });
    // the pixel at x=63 must be on
    assert!(cpu.display[63]);
    // the pixel wrapped to x=0 must be on
    assert!(cpu.display[0]);
}

#[test]
fn test_drw_no_collision_resets_vf() {
    let mut cpu = Chip8::new();
    cpu.v[0xF] = 1; // set VF to 1 by hand
    cpu.memory[cpu.i as usize] = 0xFF;
    cpu.v[0] = 0;
    cpu.v[1] = 0;
    cpu.execute(Instruction::Drw { x: 0, y: 1, n: 1 });
    assert_eq!(cpu.v[0xF], 0); // VF must be reset to 0
}

#[test]
fn test_skp_skips_when_key_pressed() {
    let mut cpu = Chip8::new();
    cpu.v[2] = 0x5;
    cpu.keys[0x5] = true;
    let pc_before = cpu.pc;
    cpu.execute(Instruction::Skp { x: 2 });
    assert_eq!(cpu.pc, pc_before + 2);
}

#[test]
fn test_skp_does_not_skip_when_key_not_pressed() {
    let mut cpu = Chip8::new();
    cpu.v[2] = 0x5;
    cpu.keys[0x5] = false;
    let pc_before = cpu.pc;
    cpu.execute(Instruction::Skp { x: 2 });
    assert_eq!(cpu.pc, pc_before);
}

#[test]
fn test_sknp_skips_when_key_not_pressed() {
    let mut cpu = Chip8::new();
    cpu.v[2] = 0x5;
    cpu.keys[0x5] = false;
    let pc_before = cpu.pc;
    cpu.execute(Instruction::Sknp { x: 2 });
    assert_eq!(cpu.pc, pc_before + 2);
}

#[test]
fn test_sknp_does_not_skip_when_key_pressed() {
    let mut cpu = Chip8::new();
    cpu.v[2] = 0x5;
    cpu.keys[0x5] = true;
    let pc_before = cpu.pc;
    cpu.execute(Instruction::Sknp { x: 2 });
    assert_eq!(cpu.pc, pc_before);
}
