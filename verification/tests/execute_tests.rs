use chip8::chip8::{Chip8, Fault};
use chip8::instruction::Instruction;

#[test]
fn test_add_reg_carry() {
    let mut c = Chip8::new();
    c.v[0] = 0xFF;
    c.v[1] = 0x01;
    c.execute(Instruction::AddReg(0, 1)).unwrap();
    assert_eq!(c.v[0], 0x00);
    assert_eq!(c.v[0xF], 1);
}

#[test]
fn test_add_reg_no_carry() {
    let mut c = Chip8::new();
    c.v[0] = 0x01;
    c.v[1] = 0x01;
    c.execute(Instruction::AddReg(0, 1)).unwrap();
    assert_eq!(c.v[0], 0x02);
    assert_eq!(c.v[0xF], 0);
}

#[test]
fn test_sub_reg_no_borrow() {
    let mut c = Chip8::new();
    c.v[2] = 0x05;
    c.v[3] = 0x03;
    c.execute(Instruction::SubReg(2, 3)).unwrap();
    assert_eq!(c.v[2], 0x02);
    assert_eq!(c.v[0xF], 1);
}

#[test]
fn test_sub_reg_borrow_wraps() {
    let mut c = Chip8::new();
    c.v[2] = 0x03;
    c.v[3] = 0x05;
    c.execute(Instruction::SubReg(2, 3)).unwrap();
    assert_eq!(c.v[2], 0xFE);
    assert_eq!(c.v[0xF], 0);
}

#[test]
fn test_subn_reg() {
    let mut c = Chip8::new();
    c.v[2] = 0x03;
    c.v[3] = 0x05;
    c.execute(Instruction::SubnReg(2, 3)).unwrap();
    assert_eq!(c.v[2], 0x02);
    assert_eq!(c.v[0xF], 1);
    c.v[4] = 0x05;
    c.v[5] = 0x03;
    c.execute(Instruction::SubnReg(4, 5)).unwrap();
    assert_eq!(c.v[4], 0xFE);
    assert_eq!(c.v[0xF], 0);
}

#[test]
fn test_shr_reg() {
    let mut c = Chip8::new();
    c.v[6] = 0x03;
    c.execute(Instruction::ShrReg(6, 0)).unwrap();
    assert_eq!(c.v[0xF], 1);
    assert_eq!(c.v[6], 0x01);
}

#[test]
fn test_shl_reg() {
    let mut c = Chip8::new();
    c.v[6] = 0x81;
    c.execute(Instruction::ShlReg(6, 0)).unwrap();
    assert_eq!(c.v[0xF], 1);
    assert_eq!(c.v[6], 0x02);
}

#[test]
fn test_add_byte_wraps_without_flag() {
    let mut c = Chip8::new();
    c.v[0xF] = 7;
    c.v[1] = 0xFF;
    c.execute(Instruction::AddByte(1, 0x02)).unwrap();
    assert_eq!(c.v[1], 0x01);
    assert_eq!(c.v[0xF], 7);
}

#[test]
fn test_load_or_and_xor() {
    let mut c = Chip8::new();
    c.v[0] = 0b1100;
    c.v[1] = 0b1010;
    c.execute(Instruction::OrReg(0, 1)).unwrap();
    assert_eq!(c.v[0], 0b1110);
    c.v[0] = 0b1100;
    c.execute(Instruction::AndReg(0, 1)).unwrap();
    assert_eq!(c.v[0], 0b1000);
    c.v[0] = 0b1100;
    c.execute(Instruction::XorReg(0, 1)).unwrap();
    assert_eq!(c.v[0], 0b0110);
    c.execute(Instruction::LoadReg(5, 1)).unwrap();
    assert_eq!(c.v[5], 0b1010);
    c.execute(Instruction::LoadByte(7, 0x42)).unwrap();
    assert_eq!(c.v[7], 0x42);
}

#[test]
fn test_rand_is_masked() {
    let mut c = Chip8::new();
    c.v[1] = 0x77;
    c.execute(Instruction::Rand(1, 0x00)).unwrap();
    assert_eq!(c.v[1], 0x00);
    c.execute_with(Instruction::Rand(1, 0x3C), 0xAB).unwrap();
    assert_eq!(c.v[1], 0xAB & 0x3C);
}

#[test]
fn test_skips() {
    let mut c = Chip8::new();
    c.v[1] = 0x02;
    c.execute(Instruction::SkipEqByte(1, 0x02)).unwrap();
    assert_eq!(c.pc, 0x202);
    c.execute(Instruction::SkipEqByte(1, 0x03)).unwrap();
    assert_eq!(c.pc, 0x202);
    c.execute(Instruction::SkipNeByte(1, 0x03)).unwrap();
    assert_eq!(c.pc, 0x204);
    c.v[2] = 0x02;
    c.execute(Instruction::SkipEqReg(1, 2)).unwrap();
    assert_eq!(c.pc, 0x206);
    c.execute(Instruction::SkipNeReg(1, 2)).unwrap();
    assert_eq!(c.pc, 0x206);
}

#[test]
fn test_key_skips() {
    let mut c = Chip8::new();
    c.v[0] = 0x5;
    c.keypress(5, true);
    c.execute(Instruction::SkipIfKey(0)).unwrap();
    assert_eq!(c.pc, 0x202);
    c.execute(Instruction::SkipIfNotKey(0)).unwrap();
    assert_eq!(c.pc, 0x202);
    c.keypress(5, false);
    c.execute(Instruction::SkipIfNotKey(0)).unwrap();
    assert_eq!(c.pc, 0x204);
}

#[test]
fn test_call_and_ret() {
    let mut c = Chip8::new();
    c.execute(Instruction::Call(0x345)).unwrap();
    assert_eq!(c.pc, 0x345);
    assert_eq!(c.sp, 1);
    assert_eq!(c.stack[0], 0x200);
    c.execute(Instruction::Ret).unwrap();
    assert_eq!(c.pc, 0x200);
    assert_eq!(c.sp, 0);
}

#[test]
fn test_ret_underflow_is_refused() {
    let mut c = Chip8::new();
    let r = c.execute(Instruction::Ret);
    assert_eq!(r, Err(Fault::StackUnderflow));
    assert_eq!(c.pc, 0x200);
    assert_eq!(c.sp, 0);
}

#[test]
fn test_call_overflow_is_refused() {
    let mut c = Chip8::new();
    for _ in 0..16 {
        c.execute(Instruction::Call(0x300)).unwrap();
    }
    assert_eq!(c.sp, 16);
    let r = c.execute(Instruction::Call(0x300));
    assert_eq!(r, Err(Fault::StackOverflow));
    assert_eq!(c.sp, 16);
}

#[test]
fn test_jumps() {
    let mut c = Chip8::new();
    c.execute(Instruction::Jump(0xABC)).unwrap();
    assert_eq!(c.pc, 0xABC);
    c.v[0] = 0x10;
    c.execute(Instruction::JumpV0(0x300)).unwrap();
    assert_eq!(c.pc, 0x310);
    c.execute(Instruction::Sys(0x123)).unwrap();
    assert_eq!(c.pc, 0x310);
    c.execute(Instruction::NoOp).unwrap();
    assert_eq!(c.pc, 0x310);
}

#[test]
fn test_index_register_ops() {
    let mut c = Chip8::new();
    c.execute(Instruction::LoadI(0x123)).unwrap();
    assert_eq!(c.i, 0x123);
    c.v[3] = 0x10;
    c.execute(Instruction::AddI(3)).unwrap();
    assert_eq!(c.i, 0x133);
    c.v[4] = 0x0A;
    c.execute(Instruction::LoadSprite(4)).unwrap();
    assert_eq!(c.i, 0x50 + 0x0A * 5);
}

#[test]
fn test_timer_loads_and_stores() {
    let mut c = Chip8::new();
    c.delay_timer = 42;
    c.execute(Instruction::LoadDT(2)).unwrap();
    assert_eq!(c.v[2], 42);
    c.v[3] = 9;
    c.execute(Instruction::SetDT(3)).unwrap();
    assert_eq!(c.delay_timer, 9);
    c.execute(Instruction::SetST(3)).unwrap();
    assert_eq!(c.sound_timer, 9);
}

#[test]
fn test_bcd() {
    let mut c = Chip8::new();
    c.v[2] = 234;
    c.i = 0x400;
    c.execute(Instruction::Bcd(2)).unwrap();
    assert_eq!(c.memory[0x400], 2);
    assert_eq!(c.memory[0x401], 3);
    assert_eq!(c.memory[0x402], 4);
}

#[test]
fn test_dump_and_load_regs() {
    let mut c = Chip8::new();
    c.v[0] = 10;
    c.v[1] = 20;
    c.v[2] = 30;
    c.v[3] = 40;
    c.v[4] = 99;
    c.i = 0x500;
    c.execute(Instruction::DumpRegs(3)).unwrap();
    assert_eq!(c.memory[0x500], 10);
    assert_eq!(c.memory[0x501], 20);
    assert_eq!(c.memory[0x502], 30);
    assert_eq!(c.memory[0x503], 40);
    assert_eq!(c.memory[0x504], 0);
    for k in 0..5 {
        c.v[k] = 0;
    }
    c.execute(Instruction::LoadRegs(3)).unwrap();
    assert_eq!(c.v[0], 10);
    assert_eq!(c.v[1], 20);
    assert_eq!(c.v[2], 30);
    assert_eq!(c.v[3], 40);
    assert_eq!(c.v[4], 0);
}

#[test]
fn test_wait_key_rewinds_and_stores() {
    let mut c = Chip8::new();
    c.execute(Instruction::WaitKey(1)).unwrap();
    assert_eq!(c.pc, 0x1FE);
    c.keypress(7, true);
    c.keypress(3, true);
    c.execute(Instruction::WaitKey(1)).unwrap();
    assert_eq!(c.pc, 0x1FE);
    assert_eq!(c.v[1], 3);
}
