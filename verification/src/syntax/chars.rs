//! Character classification and conversions between strings and
//! character vectors, shared by the lexer and the writer.

use vstd::prelude::*;
use vstd::string::StrSliceExecFns;

verus! {

/// The whitespace characters the lexer skips between tokens.
pub open spec fn is_ws_char(c: char) -> bool {
    c == ' ' || c == '\t' || c == '\n' || c == '\r'
}

/// The decimal digits.
pub open spec fn is_digit_char(c: char) -> bool {
    '0' <= c && c <= '9'
}

/// Whether a character beyond ASCII is alphabetic in the sense of
/// `char::is_alphabetic`.
pub uninterp spec fn is_unicode_alpha(c: char) -> bool;

/// Whether a character beyond ASCII is alphanumeric in the sense of
/// `char::is_alphanumeric`.
pub uninterp spec fn is_unicode_alnum(c: char) -> bool;

/// Whether `c` is alphabetic in the sense of `char::is_alphabetic`: in
/// the ASCII range, exactly the letters; beyond it, the Unicode
/// Alphabetic property.
pub open spec fn is_alpha_char(c: char) -> bool {
    if (c as u32) < 128 {
        ('a' <= c && c <= 'z') || ('A' <= c && c <= 'Z')
    } else {
        is_unicode_alpha(c)
    }
}

/// Whether `c` is alphanumeric in the sense of `char::is_alphanumeric`:
/// in the ASCII range, exactly the letters and digits; beyond it, the
/// Unicode property.
pub open spec fn is_alnum_char(c: char) -> bool {
    if (c as u32) < 128 {
        ('a' <= c && c <= 'z') || ('A' <= c && c <= 'Z') || is_digit_char(c)
    } else {
        is_unicode_alnum(c)
    }
}

/// Relies on char::is_alphabetic: a property of the character alone; in
/// the ASCII range it holds exactly for the letters.
pub assume_specification[ char::is_alphabetic ](c: char) -> (r: bool)
    ensures
        r == is_alpha_char(c),
        (c as u32) >= 128 ==> r == is_unicode_alpha(c),
;

/// Relies on char::is_alphanumeric: a property of the character alone;
/// in the ASCII range it holds exactly for the letters and digits.
pub assume_specification[ char::is_alphanumeric ](c: char) -> (r: bool)
    ensures
        r == is_alnum_char(c),
        (c as u32) >= 128 ==> r == is_unicode_alnum(c),
;

/// Executable decimal-digit test, exact by construction.
pub fn is_digit(c: char) -> (r: bool)
    ensures
        r == is_digit_char(c),
{
    '0' <= c && c <= '9'
}

/// Executable whitespace test, exact by construction.
pub fn is_ws(c: char) -> (r: bool)
    ensures
        r == is_ws_char(c),
{
    c == ' ' || c == '\t' || c == '\n' || c == '\r'
}

/// Relies on String::push: appends exactly one character at the end.
pub assume_specification[ String::push ](s: &mut String, c: char)
    ensures
        final(s)@ == old(s)@.push(c),
;

/// The characters of `s`, as a vector.
pub fn str_to_chars(s: &str) -> (r: Vec<char>)
    ensures
        r@ == s@,
{
    let n = s.unicode_len();
    let mut r: Vec<char> = Vec::new();
    let mut i: usize = 0;
    while i < n
        invariant
            n == s@.len(),
            i <= n,
            r@ == s@.subrange(0, i as int),
        decreases n - i,
    {
        let c = s.get_char(i);
        r.push(c);
        i += 1;
    }
    proof {
        assert(r@ =~= s@);
    }
    r
}

/// The value of the digit run starting at `i`, accumulated onto `acc`
/// in base 10; reading stops at the first non-digit.
pub open spec fn dec_prefix_val(s: Seq<char>, i: int, acc: int) -> int
    decreases s.len() - i,
{
    if i < s.len() && is_digit_char(s[i]) {
        dec_prefix_val(s, i + 1, acc * 10 + (s[i] as int - '0' as int))
    } else {
        acc
    }
}

/// The numeric value a number lexeme denotes: the value of its leading
/// digit run, saturated at the largest representable value. A fractional
/// part is not represented and does not contribute.
pub open spec fn number_value(lexeme: Seq<char>) -> int {
    let v = dec_prefix_val(lexeme, 0, 0);
    if v > i32::MAX as int {
        i32::MAX as int
    } else {
        v
    }
}

/// The numeric value of a number token's lexeme.
pub fn number_token_value(lexeme: &String) -> (v: i32)
    ensures
        v as int == number_value(lexeme@),
{
    let chars = str_to_chars(lexeme.as_str());
    let ghost s = lexeme@;
    let mut acc: u64 = 0;
    let ghost mut macc: int = 0int;
    let mut i: usize = 0;
    while i < chars.len() && is_digit(chars[i])
        invariant
            chars@ == s,
            i <= s.len(),
            0 <= macc,
            macc <= i32::MAX ==> acc == macc,
            macc > i32::MAX ==> acc > i32::MAX,
            acc <= 0x7fffffff * 10 + 9,
            dec_prefix_val(s, 0, 0) == dec_prefix_val(s, i as int, macc),
        decreases s.len() - i,
    {
        let d = chars[i] as u32 as u64 - '0' as u32 as u64;
        proof {
            macc = macc * 10 + (s[i as int] as int - '0' as int);
        }
        if acc <= i32::MAX as u64 {
            acc = acc * 10 + d;
        }
        i += 1;
    }
    if acc > i32::MAX as u64 {
        i32::MAX
    } else {
        acc as i32
    }
}

/// The string holding the characters `v[from .. to]`.
pub fn chars_to_string(v: &Vec<char>, from: usize, to: usize) -> (r: String)
    requires
        from <= to <= v@.len(),
    ensures
        r@ == v@.subrange(from as int, to as int),
{
    let mut r = String::new();
    let mut i: usize = from;
    while i < to
        invariant
            from <= i <= to <= v@.len(),
            r@ == v@.subrange(from as int, i as int),
        decreases to - i,
    {
        r.push(v[i]);
        i += 1;
        proof {
            assert(v@.subrange(from as int, i as int) =~= v@.subrange(
                from as int,
                i - 1,
            ).push(v@[i - 1]));
        }
    }
    r
}

} // verus!
