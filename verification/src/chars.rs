//! Digit runs and decimal/hexadecimal numerals: the pieces shared by the
//! address routes for reading numbers out of request text and printing them
//! back.

use vstd::prelude::*;
use vstd::string::StrSliceExecFns;

verus! {

/// `c` is a decimal digit.
pub open spec fn is_digit(c: char) -> bool {
    '0' as u32 <= c as u32 && c as u32 <= '9' as u32
}

/// Numeric value of a decimal digit.
pub open spec fn digit_val(c: char) -> int {
    c as u32 - '0' as u32
}

/// `c` is a hexadecimal digit, either case.
pub open spec fn is_hex(c: char) -> bool {
    ||| is_digit(c)
    ||| 'a' as u32 <= c as u32 && c as u32 <= 'f' as u32
    ||| 'A' as u32 <= c as u32 && c as u32 <= 'F' as u32
}

/// Numeric value of a hexadecimal digit.
pub open spec fn hex_val(c: char) -> int {
    if is_digit(c) {
        digit_val(c)
    } else if 'a' as u32 <= c as u32 && c as u32 <= 'f' as u32 {
        c as u32 - 'a' as u32 + 10
    } else {
        c as u32 - 'A' as u32 + 10
    }
}

/// First position at or after `pos` whose character is not a decimal digit.
pub open spec fn digit_run_end(s: Seq<char>, pos: int) -> int
    decreases s.len() - pos,
{
    if 0 <= pos < s.len() && is_digit(s[pos]) {
        digit_run_end(s, pos + 1)
    } else {
        pos
    }
}

/// First position at or after `pos` whose character is not a hexadecimal digit.
pub open spec fn hex_run_end(s: Seq<char>, pos: int) -> int
    decreases s.len() - pos,
{
    if 0 <= pos < s.len() && is_hex(s[pos]) {
        hex_run_end(s, pos + 1)
    } else {
        pos
    }
}

pub proof fn lemma_digit_run_end(s: Seq<char>, pos: int)
    requires
        0 <= pos <= s.len(),
    ensures
        pos <= digit_run_end(s, pos) <= s.len(),
        forall|i: int| pos <= i < digit_run_end(s, pos) ==> is_digit(s[i]),
    decreases s.len() - pos,
{
    if pos < s.len() && is_digit(s[pos]) {
        lemma_digit_run_end(s, pos + 1);
    }
}

pub proof fn lemma_hex_run_end(s: Seq<char>, pos: int)
    requires
        0 <= pos <= s.len(),
    ensures
        pos <= hex_run_end(s, pos) <= s.len(),
        forall|i: int| pos <= i < hex_run_end(s, pos) ==> is_hex(s[i]),
    decreases s.len() - pos,
{
    if pos < s.len() && is_hex(s[pos]) {
        lemma_hex_run_end(s, pos + 1);
    }
}

/// Value of the decimal digits `s[from..to)`.
pub open spec fn digits_val(s: Seq<char>, from: int, to: int) -> int
    decreases to - from,
{
    if from >= to {
        0
    } else {
        digits_val(s, from, to - 1) * 10 + digit_val(s[to - 1])
    }
}

/// Value of the hexadecimal digits `s[from..to)`.
pub open spec fn hex_digits_val(s: Seq<char>, from: int, to: int) -> int
    decreases to - from,
{
    if from >= to {
        0
    } else {
        hex_digits_val(s, from, to - 1) * 16 + hex_val(s[to - 1])
    }
}

/// Scans the run of decimal digits starting at `pos`.
pub fn scan_digits(s: &str, n: usize, pos: usize) -> (end: usize)
    requires
        n == s@.len(),
        pos <= n,
    ensures
        end == digit_run_end(s@, pos as int),
        pos <= end <= n,
    decreases n - pos,
{
    if pos < n {
        let c = s.get_char(pos);
        let u = c as u32;
        if '0' as u32 <= u && u <= '9' as u32 {
            return scan_digits(s, n, pos + 1);
        }
    }
    pos
}

/// Scans the run of hexadecimal digits starting at `pos`.
pub fn scan_hex_digits(s: &str, n: usize, pos: usize) -> (end: usize)
    requires
        n == s@.len(),
        pos <= n,
    ensures
        end == hex_run_end(s@, pos as int),
        pos <= end <= n,
    decreases n - pos,
{
    if pos < n {
        let c = s.get_char(pos);
        let u = c as u32;
        if ('0' as u32 <= u && u <= '9' as u32) || ('a' as u32 <= u && u <= 'f' as u32) || ('A'
            as u32 <= u && u <= 'F' as u32) {
            return scan_hex_digits(s, n, pos + 1);
        }
    }
    pos
}

/// Reads the value of the decimal digits `s[from..to)`; at most three digits.
pub fn read_decimal(s: &str, from: usize, to: usize) -> (r: u32)
    requires
        from <= to <= s@.len(),
        to - from <= 3,
        forall|i: int| from <= i < to ==> is_digit(s@[i]),
    ensures
        r == digits_val(s@, from as int, to as int),
        to - from <= 1 ==> r <= 9,
        to - from <= 2 ==> r <= 99,
        r <= 999,
    decreases to - from,
{
    if from >= to {
        return 0;
    }
    let prev = read_decimal(s, from, to - 1);
    let c = s.get_char(to - 1);
    prev * 10 + (c as u32 - '0' as u32)
}

/// Reads the value of the hexadecimal digits `s[from..to)`; at most four digits.
pub fn read_hex(s: &str, from: usize, to: usize) -> (r: u32)
    requires
        from <= to <= s@.len(),
        to - from <= 4,
        forall|i: int| from <= i < to ==> is_hex(s@[i]),
    ensures
        r == hex_digits_val(s@, from as int, to as int),
        to - from <= 1 ==> r <= 0xf,
        to - from <= 2 ==> r <= 0xff,
        to - from <= 3 ==> r <= 0xfff,
        r <= 0xffff,
    decreases to - from,
{
    if from >= to {
        return 0;
    }
    let prev = read_hex(s, from, to - 1);
    let c = s.get_char(to - 1);
    let u = c as u32;
    let d: u32 = if u <= '9' as u32 {
        u - '0' as u32
    } else if u >= 'a' as u32 {
        u - 'a' as u32 + 10
    } else {
        u - 'A' as u32 + 10
    };
    prev * 16 + d
}

/// The character of one decimal digit value.
pub open spec fn digit_char(v: int) -> char {
    ((v + 48) as u8) as char
}

/// The character of one hexadecimal digit value, lowercase.
pub open spec fn hex_char(v: int) -> char {
    if v < 10 {
        ((v + 48) as u8) as char
    } else {
        ((v + 87) as u8) as char
    }
}

/// Decimal numeral of `n`, without leading zeros ("0" for 0).
pub open spec fn dec_text(n: int) -> Seq<char>
    decreases n,
{
    if n < 10 {
        seq![digit_char(n)]
    } else {
        dec_text(n / 10) + seq![digit_char(n % 10)]
    }
}

/// Lowercase hexadecimal numeral of `n`, without leading zeros.
pub open spec fn hex_text(n: int) -> Seq<char>
    decreases n,
{
    if n < 16 {
        seq![hex_char(n)]
    } else {
        hex_text(n / 16) + seq![hex_char(n % 16)]
    }
}

/// Appends the decimal numeral of `n`.
pub fn push_dec(n: u32, out: &mut Vec<char>)
    ensures
        final(out)@ == old(out)@ + dec_text(n as int),
    decreases n,
{
    if n >= 10 {
        push_dec(n / 10, out);
    }
    let d: u32 = n % 10;
    out.push(((d + 48) as u8) as char);
    proof {
        assert(out@ =~= old(out)@ + dec_text(n as int));
    }
}

/// Appends the lowercase hexadecimal numeral of `n`.
pub fn push_hex(n: u16, out: &mut Vec<char>)
    ensures
        final(out)@ == old(out)@ + hex_text(n as int),
    decreases n,
{
    if n >= 16 {
        push_hex(n / 16, out);
    }
    let d: u16 = n % 16;
    let b: u8 = if d < 10 {
        (d + 48) as u8
    } else {
        (d + 87) as u8
    };
    out.push(b as char);
    proof {
        assert(out@ =~= old(out)@ + hex_text(n as int));
    }
}

/// Relies on `String`'s `FromIterator<char>` impl: collecting characters
/// yields the string of exactly those characters, in order.
#[verifier::external_body]
pub(crate) fn chars_to_string(v: Vec<char>) -> (r: String)
    ensures
        r@ == v@,
{
    v.into_iter().collect()
}

} // verus!
