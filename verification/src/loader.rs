//! The program loader: a disassembly listing arrives as text lines; the
//! first 7 lines are a header and are discarded, and every following line
//! must begin with an 8-character hexadecimal token whose value is an
//! instruction word. The words are deposited into memory at consecutive byte
//! addresses 0, 4, 8, ...

use vstd::prelude::*;
use vstd::string::{StrSliceExecFns, StringExecFns};

use crate::ram::RAM;

verus! {

/// Number of header lines discarded from a program listing.
pub const HEADER_LINES: usize = 7;

/// Whether `c` is a hexadecimal digit, in either case.
pub open spec fn is_hex_digit(c: char) -> bool {
    ('0' <= c && c <= '9') || ('a' <= c && c <= 'f') || ('A' <= c && c <= 'F')
}

/// The value of a hexadecimal digit; 0 for any other character.
pub open spec fn hex_digit_val(c: char) -> int {
    if '0' <= c && c <= '9' {
        c as int - '0' as int
    } else if 'a' <= c && c <= 'f' {
        c as int - 'a' as int + 10
    } else if 'A' <= c && c <= 'F' {
        c as int - 'A' as int + 10
    } else {
        0
    }
}

/// Every character of `s` is a hexadecimal digit.
pub open spec fn all_hex(s: Seq<char>) -> bool {
    forall|i: int| 0 <= i < s.len() ==> is_hex_digit(#[trigger] s[i])
}

/// The value of `s` read as a big-endian hexadecimal numeral.
pub open spec fn hex_val(s: Seq<char>) -> int
    decreases s.len(),
{
    if s.len() == 0 {
        0
    } else {
        16 * hex_val(s.drop_last()) + hex_digit_val(s.last())
    }
}

/// 16 raised to `n`.
pub open spec fn pow16(n: nat) -> int
    decreases n,
{
    if n == 0 {
        1
    } else {
        16 * pow16((n - 1) as nat)
    }
}

/// Powers of 16 are positive.
proof fn lemma_pow16_pos(n: nat)
    ensures
        pow16(n) >= 1,
    decreases n,
{
    if n > 0 {
        lemma_pow16_pos((n - 1) as nat);
    }
}

/// Powers of 16 are monotone.
proof fn lemma_pow16_le(a: nat, b: nat)
    requires
        a <= b,
    ensures
        pow16(a) <= pow16(b),
    decreases b,
{
    if a < b {
        lemma_pow16_le(a, (b - 1) as nat);
        lemma_pow16_pos((b - 1) as nat);
    }
}

/// A numeral of `n` digits is below 16^n.
proof fn lemma_hex_val_bound(s: Seq<char>)
    ensures
        0 <= hex_val(s) < pow16(s.len()),
    decreases s.len(),
{
    if s.len() > 0 {
        lemma_hex_val_bound(s.drop_last());
    }
}

/// The value of a hexadecimal digit character, or `None` when it is not one.
pub fn hex_digit_value(c: char) -> (r: Option<u32>)
    ensures
        r is Some <==> is_hex_digit(c),
        r matches Some(d) ==> d == hex_digit_val(c) && d < 16,
{
    if '0' <= c && c <= '9' {
        Some(c as u32 - '0' as u32)
    } else if 'a' <= c && c <= 'f' {
        Some(c as u32 - 'a' as u32 + 10)
    } else if 'A' <= c && c <= 'F' {
        Some(c as u32 - 'A' as u32 + 10)
    } else {
        None
    }
}

/// Parse an 8-character hexadecimal token into a 32-bit word; fails exactly
/// when some character is not a hexadecimal digit.
pub fn parse_hex_word(s: &str) -> (r: Option<u32>)
    requires
        s@.len() == 8,
    ensures
        r is Some <==> all_hex(s@),
        r matches Some(v) ==> v == hex_val(s@),
{
    let mut acc: u32 = 0;
    let mut i: usize = 0;
    while i < 8
        invariant
            s@.len() == 8,
            i <= 8,
            all_hex(s@.subrange(0, i as int)),
            acc == hex_val(s@.subrange(0, i as int)),
            acc < pow16(i as nat),
        decreases 8 - i,
    {
        let c = s.get_char(i);
        match hex_digit_value(c) {
            None => {
                proof {
                    assert(s@[i as int] == c);
                    assert(!all_hex(s@));
                }
                return None;
            },
            Some(d) => {
                proof {
                    lemma_pow16_le((i + 1) as nat, 8nat);
                    reveal_with_fuel(pow16, 9);
                    assert(pow16(8) == 0x1_0000_0000);
                }
                let new_acc = acc * 16 + d;
                proof {
                    let pre = s@.subrange(0, i as int);
                    let ext = s@.subrange(0, i + 1);
                    assert(ext.drop_last() =~= pre);
                    assert(ext.last() == c);
                }
                acc = new_acc;
                i = i + 1;
            },
        }
    }
    proof {
        assert(s@.subrange(0, 8) =~= s@);
    }
    Some(acc)
}

/// Extract the 8-character instruction token that begins a listing line.
pub fn line_splitter(line: &str) -> (r: String)
    requires
        line@.len() >= 8,
    ensures
        r@ == line@.subrange(0, 8),
{
    let token = line.substring_char(0, 8);
    String::from_str(token)
}

/// A listing line carries a well-formed instruction token.
pub open spec fn line_ok(s: Seq<char>) -> bool {
    s.len() >= 8 && all_hex(s.subrange(0, 8))
}

/// The instruction word a listing line carries.
pub open spec fn word_of(s: Seq<char>) -> int {
    hex_val(s.subrange(0, 8))
}

/// Failure of the program loader.
#[derive(Clone, Copy, Debug, PartialEq, Eq, Structural)]
pub enum LoadError {
    /// Fewer lines than the fixed header.
    HeaderTooShort,
    /// The line at this index does not begin with an 8-character hexadecimal
    /// token.
    MalformedLine { line: usize },
    /// More instruction words than memory cells.
    CapacityExceeded,
}

/// Deposit the program carried by `lines` into a fresh memory: the word of
/// line `HEADER_LINES + k` goes to cell `k` under byte address `4 * k`.
/// Returns the number of words loaded; fails, leaving the memory unchanged,
/// when the header is short, a line is malformed, or the program does not
/// fit.
pub fn program_parser(lines: &Vec<String>, ram: &mut RAM) -> (r: Result<usize, LoadError>)
    requires
        old(ram).wf(),
        old(ram)@.vals.len() < 0x4000_0000,
        forall|i: int| 0 <= i < old(ram)@.dirty.len() ==> !old(ram)@.dirty[i],
    ensures
        final(ram).wf(),
        final(ram)@.vals.len() == old(ram)@.vals.len(),
        match r {
            Ok(n) => {
                &&& lines@.len() >= HEADER_LINES
                &&& n == lines@.len() - HEADER_LINES
                &&& n <= old(ram)@.vals.len()
                &&& forall|k: int| 0 <= k < n ==> line_ok(#[trigger] lines@[HEADER_LINES + k]@)
                &&& forall|k: int|
                    0 <= k < n ==> {
                        &&& final(ram)@.dirty[k]
                        &&& final(ram)@.addrs[k] == 4 * k
                        &&& final(ram)@.vals[k] == word_of(#[trigger] lines@[HEADER_LINES + k]@)
                    }
                &&& forall|k: int|
                    n <= k < final(ram)@.vals.len() ==> {
                        &&& final(ram)@.dirty[k] == old(ram)@.dirty[k]
                        &&& final(ram)@.addrs[k] == old(ram)@.addrs[k]
                        &&& final(ram)@.vals[k] == old(ram)@.vals[k]
                    }
            },
            Err(LoadError::HeaderTooShort) => {
                &&& lines@.len() < HEADER_LINES
                &&& final(ram)@ == old(ram)@
            },
            Err(LoadError::MalformedLine { line }) => {
                &&& HEADER_LINES <= line < lines@.len()
                &&& !line_ok(lines@[line as int]@)
                &&& forall|j: int|
                    HEADER_LINES <= j < line ==> line_ok(#[trigger] lines@[j]@)
                &&& final(ram)@ == old(ram)@
            },
            Err(LoadError::CapacityExceeded) => {
                &&& lines@.len() - HEADER_LINES > old(ram)@.vals.len()
                &&& forall|j: int|
                    HEADER_LINES <= j < lines@.len() ==> line_ok(#[trigger] lines@[j]@)
                &&& final(ram)@ == old(ram)@
            },
        },
{
    if lines.len() < HEADER_LINES {
        return Err(LoadError::HeaderTooShort);
    }
    let mut words: Vec<u32> = Vec::new();
    let mut i: usize = HEADER_LINES;
    while i < lines.len()
        invariant
            ram.wf(),
            ram@ == old(ram)@,
            HEADER_LINES <= i <= lines@.len(),
            words@.len() == i - HEADER_LINES,
            forall|j: int| HEADER_LINES <= j < i ==> line_ok(#[trigger] lines@[j]@),
            forall|k: int|
                0 <= k < words@.len() ==> words@[k] == word_of(
                    #[trigger] lines@[HEADER_LINES + k]@,
                ),
        decreases lines@.len() - i,
    {
        let line = &lines[i];
        if line.as_str().unicode_len() < 8 {
            return Err(LoadError::MalformedLine { line: i });
        }
        let token = line_splitter(line.as_str());
        match parse_hex_word(token.as_str()) {
            None => {
                return Err(LoadError::MalformedLine { line: i });
            },
            Some(w) => {
                words.push(w);
            },
        }
        i = i + 1;
    }
    if words.len() > ram.capacity() {
        return Err(LoadError::CapacityExceeded);
    }
    let n = words.len();
    let mut k: usize = 0;
    while k < n
        invariant
            ram.wf(),
            k <= n,
            n == words@.len(),
            n <= ram@.vals.len(),
            ram@.vals.len() == old(ram)@.vals.len(),
            old(ram)@.vals.len() < 0x4000_0000,
            forall|j: int| 0 <= j < k ==> #[trigger] ram@.dirty[j],
            forall|j: int| 0 <= j < k ==> #[trigger] ram@.addrs[j] == 4 * j,
            forall|j: int| 0 <= j < k ==> #[trigger] ram@.vals[j] == words@[j],
            forall|j: int| k <= j < ram@.vals.len() ==> #[trigger] ram@.dirty[j] == old(
                ram,
            )@.dirty[j],
            forall|j: int| k <= j < ram@.vals.len() ==> #[trigger] ram@.addrs[j] == old(
                ram,
            )@.addrs[j],
            forall|j: int| k <= j < ram@.vals.len() ==> #[trigger] ram@.vals[j] == old(
                ram,
            )@.vals[j],
        decreases n - k,
    {
        let addr = (4 * k) as u32;
        let w = words[k];
        ram.write_with_addr(k, addr, w);
        k = k + 1;
    }
    Ok(n)
}

} // verus!
