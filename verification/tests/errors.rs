//! Error paths of the decoder and the decode/execute stage, and direct
//! checks of single decoded effects.

use risculator::decoder::{instruction_decoder, DecodeError, MemWrite, RegWrite};
use risculator::interp::{stage2, ExecError};
use risculator::ram::RAM;
use risculator::register::Register;
use risculator::vproc::{Mode, Vproc};
use risculator::{MISA_RV32I, RAM_SIZE};

fn boot(words: &[u32]) -> Vproc {
    let mut ram = RAM::new();
    let mut k = 0;
    while k < words.len() {
        ram.write_with_addr(k, (4 * k) as u32, words[k]);
        k += 1;
    }
    Vproc::new(Register::new(), MISA_RV32I, 0, Mode::User, ram)
}

#[test]
fn unknown_opcode_is_decode_error() {
    let mut proc = boot(&[0x00000000]);
    let r = stage2(&mut proc, 1000);
    assert_eq!(r, Err(ExecError::Decode { pc: 0, word: 0 }));
}

#[test]
fn unknown_funct3_is_decode_error() {
    // opcode LOAD with funct3 011 is not a recognized variant
    let word = (3 << 12) | 0x03;
    let mut proc = boot(&[word]);
    let r = stage2(&mut proc, 1000);
    assert_eq!(r, Err(ExecError::Decode { pc: 0, word }));
}

#[test]
fn unknown_funct7_is_decode_error() {
    // ADD with funct7 0000001 is not a recognized combination
    let word = (1 << 25) | (2 << 20) | (1 << 15) | (3 << 7) | 0x33;
    let proc = boot(&[word]);
    match instruction_decoder(word, &proc) {
        Err(e) => assert_eq!(e, DecodeError { pc: 0, word }),
        Ok(_) => panic!("funct7 0000001 must not decode"),
    }
}

#[test]
fn misaligned_jalr_target_is_error() {
    // jalr x5, 2(x0): target (0 + 2) & !1 == 2 is not a multiple of 4
    let mut proc = boot(&[0x002002E7]);
    let r = stage2(&mut proc, 1000);
    assert_eq!(r, Err(ExecError::MisalignedPc { pc: 0, target: 2 }));
    assert_eq!(proc.pc(), 0);
}

#[test]
fn store_into_full_memory_is_error() {
    // cell 0 holds sw x1, 2000(x0); every other cell is made dirty, so the
    // store finds no cell bound to 2000 and no free cell
    let sw = 0x7C102823u32;
    let mut ram = RAM::new();
    ram.write_with_addr(0, 0, sw);
    let mut k = 1;
    while k < RAM_SIZE {
        ram.write_with_addr(k, (4 * k) as u32, 0);
        k += 1;
    }
    let mut proc = Vproc::new(Register::new(), MISA_RV32I, 0, Mode::User, ram);
    let r = stage2(&mut proc, 1000);
    assert_eq!(r, Err(ExecError::MemoryFull { pc: 0 }));
}

#[test]
fn decoded_store_effect() {
    // addi x1, x0, 42 then decode sw x1, 8(x0) by hand
    let mut proc = boot(&[0x02A00093]);
    let _ = stage2(&mut proc, 1);
    // sw x1, 8(x0): imm 8 -> rd-field 8, rs2 = 1, funct3 010
    let sw = (1 << 20) | (2 << 12) | (8 << 7) | 0x23;
    let e = instruction_decoder(sw, &proc).unwrap();
    assert_eq!(e.mem_write, Some(MemWrite { addr: 8, value: 42 }));
    assert_eq!(e.reg_write, None);
    assert_eq!(e.next_pc, proc.pc() + 4);
    assert!(!e.halt);
}

#[test]
fn decoded_load_narrows_and_extends() {
    // memory address 0 holds 0xFFFF_FF80; lb x1, 0(x0) sign-extends the low
    // byte, lbu x2, 0(x0) zero-extends it
    let mut ram = RAM::new();
    ram.write_with_addr(0, 0, 0xFFFF_FF80);
    let proc = Vproc::new(Register::new(), MISA_RV32I, 0, Mode::User, ram);
    let lb = (1 << 7) | 0x03;
    let e = instruction_decoder(lb, &proc).unwrap();
    assert_eq!(e.reg_write, Some(RegWrite { rd: 1, value: 0xFFFF_FF80 }));
    let lbu = (4 << 12) | (2 << 7) | 0x03;
    let e2 = instruction_decoder(lbu, &proc).unwrap();
    assert_eq!(e2.reg_write, Some(RegWrite { rd: 2, value: 0x80 }));
}

#[test]
fn fence_and_ecall_are_no_ops() {
    // fence; ecall; then addi x1, x0, 3
    let mut proc = boot(&[0x0000000F, 0x00000073, 0x00300093]);
    let r = stage2(&mut proc, 1000);
    assert!(r.is_ok());
    assert_eq!(proc.reg_file().read(1), 3);
    assert_eq!(proc.pc(), 12);
}

#[test]
fn shift_amounts_use_low_five_bits() {
    // addi x1, x0, 1; addi x2, x0, 33; sll x3, x1, x2 shifts by 33 & 31 == 1
    let sll = (2 << 20) | (1 << 15) | (1 << 12) | (3 << 7) | 0x33;
    let mut proc = boot(&[0x00100093, 0x02100113, sll]);
    let r = stage2(&mut proc, 1000);
    assert!(r.is_ok());
    assert_eq!(proc.reg_file().read(3), 2);
}

#[test]
fn sra_keeps_sign_and_srl_does_not() {
    // addi x1, x0, -8; srai x2, x1, 1; srli x3, x1, 1
    let srai = (0x20 << 25) | (1 << 20) | (1 << 15) | (5 << 12) | (2 << 7) | 0x13;
    let srli = (1 << 20) | (1 << 15) | (5 << 12) | (3 << 7) | 0x13;
    let mut proc = boot(&[0xFF800093, srai, srli]);
    let r = stage2(&mut proc, 1000);
    assert!(r.is_ok());
    assert_eq!(proc.reg_file().read(2), 0xFFFF_FFFC);
    assert_eq!(proc.reg_file().read(3), 0x7FFF_FFFC);
}
