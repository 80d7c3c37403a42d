//! Component-level checks: register file, memory, `misa` decoding,
//! immediate reconstruction and the program loader.

use risculator::bits::{imm_b, imm_i, imm_j, imm_s, imm_u, signed_lt, sra};
use risculator::loader::{line_splitter, parse_hex_word, program_parser, LoadError};
use risculator::ram::{ram_tests, RAM};
use risculator::register::{register_tests, Register};
use risculator::vproc::{Mode, Vproc};
use risculator::{MISA_RV32I, RAM_SIZE, REG_SIZE};

fn proc_with_misa(misa: u32) -> Vproc {
    Vproc::new(Register::new(), misa, 0, Mode::Machine, RAM::new())
}

#[test]
fn register_write_then_read() {
    let mut regs = Register::new();
    regs.write(1, 0xDEAD_BEEF);
    assert_eq!(regs.read(1), 0xDEAD_BEEF);
    regs.write(31, 7);
    assert_eq!(regs.read(31), 7);
    assert_eq!(regs.read(1), 0xDEAD_BEEF);
}

#[test]
fn register_zero_reads_zero() {
    let mut regs = Register::new();
    assert_eq!(regs.read(0), 0);
    regs.write(0, 12345);
    assert_eq!(regs.read(0), 0);
}

#[test]
fn register_reset_clears() {
    let mut regs = Register::new();
    regs.write(3, 9);
    regs.reset();
    let mut i = 0;
    while i < REG_SIZE {
        assert_eq!(regs.read(i), 0);
        assert!(!regs.is_dirty(i));
        i += 1;
    }
}

#[test]
fn register_self_test_passes() {
    let mut regs = Register::new();
    register_tests(REG_SIZE, &mut regs);
    assert_eq!(regs.read(5), 0);
}

#[test]
fn ram_store_then_load() {
    let mut ram = RAM::new();
    assert_eq!(ram.write_to_addr(8, 77), Ok(()));
    assert_eq!(ram.read_from_addr(8), 77);
}

#[test]
fn ram_store_does_not_disturb_others() {
    let mut ram = RAM::new();
    assert_eq!(ram.write_to_addr(4, 11), Ok(()));
    assert_eq!(ram.write_to_addr(96, 22), Ok(()));
    assert_eq!(ram.write_to_addr(4, 33), Ok(()));
    assert_eq!(ram.read_from_addr(96), 22);
    assert_eq!(ram.read_from_addr(4), 33);
    assert_eq!(ram.read_from_addr(12), 0);
}

#[test]
fn ram_fills_lowest_free_cell_first() {
    let mut ram = RAM::new();
    assert_eq!(ram.write_to_addr(40, 1), Ok(()));
    assert_eq!(ram.write_to_addr(20, 2), Ok(()));
    assert_eq!(ram.addr_at(0), 40);
    assert_eq!(ram.addr_at(1), 20);
    assert_eq!(ram.read(0), 1);
    assert_eq!(ram.read(1), 2);
    assert!(ram.is_dirty(0));
    assert!(ram.is_dirty(1));
    assert!(!ram.is_dirty(2));
}

#[test]
fn ram_capacity_exhaustion_signalled() {
    let mut ram = RAM::new();
    let mut k = 0;
    while k < RAM_SIZE {
        assert_eq!(ram.write_to_addr((4 * k) as u32, 1), Ok(()));
        k += 1;
    }
    assert!(ram.write_to_addr(0x1_0000, 9).is_err());
    // a bound address can still be updated in place
    assert_eq!(ram.write_to_addr(0, 5), Ok(()));
    assert_eq!(ram.read_from_addr(0), 5);
}

#[test]
fn ram_self_test_passes() {
    let mut ram = RAM::new();
    ram_tests(RAM_SIZE, &mut ram);
    assert_eq!(ram.read(0), 0);
    assert!(!ram.is_dirty(0));
}

#[test]
fn misa_default_reads_im() {
    // 4352 has bits 8 and 12 set
    let proc = proc_with_misa(MISA_RV32I);
    assert_eq!(proc.misa_slice(), "IM");
}

#[test]
fn misa_empty_and_full() {
    assert_eq!(proc_with_misa(0).misa_slice(), "");
    let all = 1 | 2 | 4 | 8 | 16 | 32 | (1 << 8) | (1 << 12) | (1 << 15);
    assert_eq!(proc_with_misa(all).misa_slice(), "ABCDEFIMP");
}

#[test]
fn misa_subsets_keep_canonical_order() {
    assert_eq!(proc_with_misa((1 << 12) | (1 << 8)).misa_slice(), "IM");
    assert_eq!(proc_with_misa(1 | (1 << 15)).misa_slice(), "AP");
    assert_eq!(proc_with_misa((1 << 2) | (1 << 5) | (1 << 8)).misa_slice(), "CFI");
    // unrecognized bits contribute nothing
    assert_eq!(proc_with_misa(1 << 9).misa_slice(), "");
}

#[test]
fn immediate_round_trips() {
    // I format: addi x0, x0, -1 carries imm 0xfff
    assert_eq!(imm_i(0xFFF00013), 0xFFFF_FFFF);
    assert_eq!(imm_i(0x7FF00013), 0x0000_07FF);
    // S format: imm -4 split over its two fields
    let s = (0x7F << 25) | (0x1C << 7) | 0x23;
    assert_eq!(imm_s(s), 0xFFFF_FFFC);
    // B format: offset 8
    assert_eq!(imm_b(0x00208463), 8);
    // B format: offset -4 has all high bits set
    let b = (1u32 << 31) | (0x3F << 25) | (0xE << 8) | (1 << 7) | 0x63;
    assert_eq!(imm_b(b), 0xFFFF_FFFC);
    // U format keeps the upper 20 bits in place
    assert_eq!(imm_u(0x123452B7), 0x12345000);
    // J format: offset 8
    assert_eq!(imm_j(0x0080006F), 8);
}

#[test]
fn signed_helpers() {
    assert!(signed_lt(0xFFFF_FFFF, 1)); // -1 < 1
    assert!(!signed_lt(1, 0xFFFF_FFFF));
    assert!(signed_lt(0x8000_0000, 0x7FFF_FFFF)); // INT_MIN < INT_MAX
    assert_eq!(sra(0xFFFF_FFF0, 2), 0xFFFF_FFFC); // -16 >> 2 == -4
    assert_eq!(sra(64, 2), 16);
}

#[test]
fn line_splitter_takes_first_eight() {
    let token = line_splitter("00500093 <main>:");
    assert_eq!(token, "00500093");
}

#[test]
fn parse_hex_word_values() {
    assert_eq!(parse_hex_word("deadbeef"), Some(0xDEAD_BEEF));
    assert_eq!(parse_hex_word("DEADBEEF"), Some(0xDEAD_BEEF));
    assert_eq!(parse_hex_word("00000000"), Some(0));
    assert_eq!(parse_hex_word("ffffffff"), Some(0xFFFF_FFFF));
    assert_eq!(parse_hex_word("0050g093"), None);
}

fn header() -> Vec<String> {
    let mut lines = Vec::new();
    let mut i = 0;
    while i < 7 {
        lines.push(String::from("header"));
        i += 1;
    }
    lines
}

#[test]
fn loader_deposits_words_in_order() {
    let mut lines = header();
    lines.push(String::from("00500093"));
    lines.push(String::from("00a00113 trailing text is ignored"));
    let mut ram = RAM::new();
    let r = program_parser(&lines, &mut ram);
    assert_eq!(r, Ok(2));
    assert_eq!(ram.read(0), 0x00500093);
    assert_eq!(ram.read(1), 0x00A00113);
    assert_eq!(ram.addr_at(0), 0);
    assert_eq!(ram.addr_at(1), 4);
    assert!(ram.is_dirty(0));
    assert!(ram.is_dirty(1));
    assert!(!ram.is_dirty(2));
}

#[test]
fn loader_then_run() {
    let mut lines = header();
    lines.push(String::from("00500093 addi x1, x0, 5"));
    lines.push(String::from("00a00113 addi x2, x0, 10"));
    lines.push(String::from("002081b3 add x3, x1, x2"));
    let mut ram = RAM::new();
    assert_eq!(program_parser(&lines, &mut ram), Ok(3));
    let mut proc = Vproc::new(Register::new(), MISA_RV32I, 0, Mode::User, ram);
    let r = risculator::interp::stage2(&mut proc, 1000);
    assert!(r.is_ok());
    assert_eq!(proc.reg_file().read(3), 15);
    assert_eq!(proc.pc(), 12);
}

#[test]
fn loader_rejects_short_header() {
    let lines = vec![String::from("one"), String::from("two")];
    let mut ram = RAM::new();
    assert_eq!(program_parser(&lines, &mut ram), Err(LoadError::HeaderTooShort));
    assert!(!ram.is_dirty(0));
}

#[test]
fn loader_rejects_malformed_line() {
    let mut lines = header();
    lines.push(String::from("00500093"));
    lines.push(String::from("bad"));
    let mut ram = RAM::new();
    assert_eq!(
        program_parser(&lines, &mut ram),
        Err(LoadError::MalformedLine { line: 8 })
    );
    assert!(!ram.is_dirty(0));
}

#[test]
fn loader_rejects_oversized_program() {
    let mut lines = header();
    let mut i = 0;
    while i < RAM_SIZE + 1 {
        lines.push(String::from("00000013"));
        i += 1;
    }
    let mut ram = RAM::new();
    assert_eq!(program_parser(&lines, &mut ram), Err(LoadError::CapacityExceeded));
    assert!(!ram.is_dirty(0));
}
