use astolfo::cpu::{Cpu, CpuError, FLASH_SIZE};
use astolfo::instructions::Instruction;

#[test]
fn inc() {
    // inc r0, inc r0, inc r1
    let prog: [u8; 6] = [0x03, 0x94, 0x03, 0x94, 0x13, 0x94];
    let mut cpu = Cpu::<32, 2048>::new();
    cpu.load_program(&prog).unwrap();
    cpu.tick().unwrap();
    cpu.tick().unwrap();
    cpu.tick().unwrap();
    assert_eq!(cpu.registers[0], 2);
    assert_eq!(cpu.registers[1], 1);
}

#[test]
fn dec() {
    // dec r0, dec r0
    let prog: [u8; 4] = [0x0A, 0x94, 0x0A, 0x94];
    let mut cpu = Cpu::<32, 2048>::new();
    cpu.load_program(&prog).unwrap();
    cpu.registers[0] = 3;
    cpu.tick().unwrap();
    cpu.tick().unwrap();
    assert_eq!(cpu.registers[0], 1);
}

#[test]
fn nop() {
    let prog: [u8; 2] = [0x00, 0x00];
    let mut cpu = Cpu::<4, 2048>::new();
    cpu.load_program(&prog).unwrap();
    cpu.tick().unwrap();
    assert_eq!(cpu.registers, [0, 0, 0, 0]);
}

#[test]
fn add() {
    // add r0, r1
    let prog: [u8; 2] = [0x01, 0x0C];
    let mut cpu = Cpu::<4, 2048>::new();
    cpu.registers = [1, 2, 0, 0];
    cpu.load_program(&prog).unwrap();
    cpu.tick().unwrap();
    assert_eq!(cpu.registers, [3, 2, 0, 0]);
}

#[test]
fn ldi() {
    // No opcode family produces Ldi, so the three loads are executed
    // directly: window offsets 0, 4 and 8 land in registers 16, 20 and 24.
    let mut cpu = Cpu::<32, 2048>::new();
    cpu.execute_instruction(Instruction::Ldi(0, 12)).unwrap();
    cpu.execute_instruction(Instruction::Ldi(4, 40)).unwrap();
    cpu.execute_instruction(Instruction::Ldi(8, 80)).unwrap();
    assert_eq!(cpu.registers[16], 12);
    assert_eq!(cpu.registers[20], 40);
    assert_eq!(cpu.registers[24], 80);
    for i in 0..32 {
        if i != 16 && i != 20 && i != 24 {
            assert_eq!(cpu.registers[i], 0);
        }
    }
}

#[test]
fn ldi_window_boundary() {
    let mut cpu = Cpu::<32, 2048>::new();
    // Operand 15 maps to register 31, the last of a 32-register file.
    assert_eq!(cpu.execute_instruction(Instruction::Ldi(15, 5)), Ok(()));
    assert_eq!(cpu.registers[31], 5);
    // Operand 16 would map to register 32: out of the file.
    assert_eq!(
        cpu.execute_instruction(Instruction::Ldi(16, 5)),
        Err(CpuError::RegisterOutOfRange)
    );
}

#[test]
fn increment_wraps_around_after_256_steps() {
    let mut cpu = Cpu::<8, 64>::new();
    cpu.registers[5] = 77;
    for _ in 0..256 {
        cpu.execute_instruction(Instruction::Inc(5)).unwrap();
    }
    assert_eq!(cpu.registers[5], 77);
}

#[test]
fn decrement_inverts_increment() {
    let mut cpu = Cpu::<4, 64>::new();
    for v in [0u8, 1, 42, 254, 255] {
        cpu.registers[2] = v;
        cpu.execute_instruction(Instruction::Inc(2)).unwrap();
        cpu.execute_instruction(Instruction::Dec(2)).unwrap();
        assert_eq!(cpu.registers[2], v);
    }
}

#[test]
fn increment_and_decrement_wrap_at_the_edges() {
    let mut cpu = Cpu::<4, 64>::new();
    cpu.registers[0] = 255;
    cpu.execute_instruction(Instruction::Inc(0)).unwrap();
    assert_eq!(cpu.registers[0], 0);
    cpu.execute_instruction(Instruction::Dec(0)).unwrap();
    assert_eq!(cpu.registers[0], 255);
}

#[test]
fn add_exchange() {
    // Add(d, s) then Add(s, d) from (a, b) gives d = a + b, s = a + 2b.
    let mut cpu = Cpu::<4, 64>::new();
    cpu.registers = [7, 9, 3, 4];
    cpu.execute_instruction(Instruction::Add(0, 1)).unwrap();
    cpu.execute_instruction(Instruction::Add(1, 0)).unwrap();
    assert_eq!(cpu.registers, [16, 25, 3, 4]);

    // The same exchange, wrapping modulo 256.
    let mut cpu = Cpu::<4, 64>::new();
    cpu.registers = [200, 100, 0, 0];
    cpu.execute_instruction(Instruction::Add(0, 1)).unwrap();
    cpu.execute_instruction(Instruction::Add(1, 0)).unwrap();
    assert_eq!(cpu.registers[0], 44); // 300 mod 256
    assert_eq!(cpu.registers[1], 144); // 400 mod 256
}

#[test]
fn add_to_itself_doubles() {
    let mut cpu = Cpu::<4, 64>::new();
    cpu.registers[1] = 130;
    cpu.execute_instruction(Instruction::Add(1, 1)).unwrap();
    assert_eq!(cpu.registers[1], 4); // 260 mod 256
}

#[test]
fn loading_twice_leaves_nothing_of_the_first_program() {
    let mut cpu = Cpu::<4, 64>::new();
    cpu.load_program(&[1, 2, 3, 4]).unwrap();
    cpu.load_program(&[9]).unwrap();
    assert_eq!(cpu.flash[0], 9);
    assert_eq!(cpu.flash[1], 0);
    assert_eq!(cpu.flash[2], 0);
    assert_eq!(cpu.flash[3], 0);
}

#[test]
fn too_large_program_is_refused() {
    let mut cpu = Cpu::<4, 64>::new();
    cpu.flash[0] = 0xAA;
    let oversized = vec![0u8; FLASH_SIZE + 1];
    assert_eq!(cpu.load_program(&oversized), Err(CpuError::ProgramTooLarge));
    // A refused load leaves program memory as it was.
    assert_eq!(cpu.flash[0], 0xAA);
    let exact = vec![0u8; FLASH_SIZE];
    assert_eq!(cpu.load_program(&exact), Ok(()));
}

#[test]
fn unknown_word_surfaces_as_error_and_moves_nothing() {
    let mut cpu = Cpu::<4, 64>::new();
    cpu.load_program(&[0xFF, 0xFF]).unwrap();
    assert_eq!(cpu.tick(), Err(CpuError::DecodeFailure));
    assert_eq!(cpu.registers, [0, 0, 0, 0]);
    assert_eq!(cpu.program_counter, 0);
}

#[test]
fn fetch_past_the_end_is_refused() {
    let mut cpu = Cpu::<4, 64>::new();
    cpu.program_counter = (FLASH_SIZE - 2) as u16;
    assert_eq!(cpu.tick(), Err(CpuError::FetchOutOfBounds));
    assert_eq!(cpu.program_counter, (FLASH_SIZE - 2) as u16);
    // The last whole window still fetches (and, all zero, decodes to Nop).
    cpu.program_counter = (FLASH_SIZE - 4) as u16;
    assert_eq!(cpu.tick(), Ok(()));
}

#[test]
fn out_of_range_register_is_refused() {
    let mut cpu = Cpu::<4, 64>::new();
    assert_eq!(
        cpu.execute_instruction(Instruction::Inc(7)),
        Err(CpuError::RegisterOutOfRange)
    );
    assert_eq!(
        cpu.execute_instruction(Instruction::Add(0, 4)),
        Err(CpuError::RegisterOutOfRange)
    );
    assert_eq!(cpu.registers, [0, 0, 0, 0]);
}

#[test]
fn program_counter_advances_two_bytes_per_step() {
    let mut cpu = Cpu::<4, 64>::new();
    cpu.load_program(&[0x03, 0x94, 0x00, 0x00]).unwrap();
    cpu.tick().unwrap();
    assert_eq!(cpu.program_counter, 2);
    cpu.tick().unwrap();
    assert_eq!(cpu.program_counter, 4);
}
