//! Per-instruction checks across the OP-IMM, OP, BRANCH and narrow
//! load/store variants.

use risculator::interp::stage2;
use risculator::ram::RAM;
use risculator::register::Register;
use risculator::vproc::{Mode, Vproc};
use risculator::MISA_RV32I;

fn boot(words: &[u32]) -> Vproc {
    let mut ram = RAM::new();
    let mut k = 0;
    while k < words.len() {
        ram.write_with_addr(k, (4 * k) as u32, words[k]);
        k += 1;
    }
    Vproc::new(Register::new(), MISA_RV32I, 0, Mode::User, ram)
}

fn run(words: &[u32]) -> Vproc {
    let mut proc = boot(words);
    let r = stage2(&mut proc, 1000);
    assert!(r.is_ok());
    proc
}

fn reg(proc: &Vproc, i: usize) -> u32 {
    proc.reg_file().read(i)
}

#[test]
fn op_imm_bitwise_variants() {
    // addi x1, x0, 12; xori x2, x1, 10; ori x3, x1, 10; andi x4, x1, 10
    let proc = run(&[0x00C00093, 0x00A0C113, 0x00A0E193, 0x00A0F213]);
    assert_eq!(reg(&proc, 2), 12 ^ 10);
    assert_eq!(reg(&proc, 3), 12 | 10);
    assert_eq!(reg(&proc, 4), 12 & 10);
}

#[test]
fn op_imm_compare_variants() {
    // addi x1, x0, 12; slti x5, x1, -1; sltiu x6, x1, -1
    let proc = run(&[0x00C00093, 0xFFF0A293, 0xFFF0B313]);
    assert_eq!(reg(&proc, 5), 0); // 12 < -1 is false signed
    assert_eq!(reg(&proc, 6), 1); // 12 < 0xFFFFFFFF is true unsigned
}

#[test]
fn op_imm_shift_variants() {
    // addi x1, x0, 12; slli x7, x1, 2
    let proc = run(&[0x00C00093, 0x00209393]);
    assert_eq!(reg(&proc, 7), 48);
}

#[test]
fn op_register_variants() {
    // addi x1, x0, 12; addi x2, x0, 10;
    // sub x3, x1, x2; xor x4, x1, x2; or x5, x1, x2; and x6, x1, x2
    let proc = run(&[
        0x00C00093, 0x00A00113, 0x402081B3, 0x0020C233, 0x0020E2B3, 0x0020F333,
    ]);
    assert_eq!(reg(&proc, 3), 2);
    assert_eq!(reg(&proc, 4), 12 ^ 10);
    assert_eq!(reg(&proc, 5), 12 | 10);
    assert_eq!(reg(&proc, 6), 12 & 10);
}

#[test]
fn sub_wraps_below_zero() {
    // addi x1, x0, 1; addi x2, x0, 2; sub x3, x1, x2
    let proc = run(&[0x00100093, 0x00200113, 0x402081B3]);
    assert_eq!(reg(&proc, 3), 0xFFFF_FFFF);
}

#[test]
fn blt_taken() {
    // addi x1, x0, 1; addi x2, x0, 2; blt x1, x2, +8; addi x3, x0, 99; addi x4, x0, 7
    let proc = run(&[0x00100093, 0x00200113, 0x0020C463, 0x06300193, 0x00700213]);
    assert_eq!(reg(&proc, 3), 0);
    assert_eq!(reg(&proc, 4), 7);
}

#[test]
fn bne_not_taken_on_equal() {
    // addi x1, x0, 1; addi x2, x0, 1; bne x1, x2, +8; addi x3, x0, 99
    let proc = run(&[0x00100093, 0x00100113, 0x00209463, 0x06300193]);
    assert_eq!(reg(&proc, 3), 99);
}

#[test]
fn bgeu_taken_on_wrapped_value() {
    // addi x1, x0, -1; addi x2, x0, 1; bgeu x1, x2, +8; addi x3, x0, 99; addi x4, x0, 7
    let proc = run(&[0xFFF00093, 0x00100113, 0x0020F463, 0x06300193, 0x00700213]);
    assert_eq!(reg(&proc, 3), 0);
    assert_eq!(reg(&proc, 4), 7);
}

#[test]
fn narrow_stores_and_loads() {
    // addi x1, x0, -1; sb x1, 100(x0); lb x2, 100(x0); lhu x3, 100(x0);
    // sh x1, 104(x0); lh x4, 104(x0); lw x5, 104(x0); then the sentinel,
    // since the stores dirty the cells right after the program
    let proc = run(&[
        0xFFF00093, 0x06100223, 0x06400103, 0x06405183, 0x06101423, 0x06801203, 0x06802283,
        0x00008067,
    ]);
    // sb keeps the low byte; lb sign-extends it back
    assert_eq!(proc.memory().read_from_addr(100), 0xFF);
    assert_eq!(reg(&proc, 2), 0xFFFF_FFFF);
    assert_eq!(reg(&proc, 3), 0xFF);
    // sh keeps the low halfword; lh sign-extends, lw reads the cell whole
    assert_eq!(proc.memory().read_from_addr(104), 0xFFFF);
    assert_eq!(reg(&proc, 4), 0xFFFF_FFFF);
    assert_eq!(reg(&proc, 5), 0xFFFF);
}

#[test]
fn unmapped_load_reads_zero() {
    // lw x1, 96(x0) with nothing stored at 96
    let proc = run(&[0x06002083]);
    assert_eq!(reg(&proc, 1), 0);
}
