//! Verified building blocks for the JSON texts this client emits: string
//! escaping, decimal rendering of integers, and digit parsing. The JSON
//! sent to providers and appended to session logs is assembled from these.
use vstd::prelude::*;

use crate::text::string_of;

verus! {

/// Hexadecimal digit character for a value below 16.
pub open spec fn hex_char(n: int) -> char {
    if n == 0 { '0' } else if n == 1 { '1' } else if n == 2 { '2' } else if n == 3 { '3' }
    else if n == 4 { '4' } else if n == 5 { '5' } else if n == 6 { '6' } else if n == 7 { '7' }
    else if n == 8 { '8' } else if n == 9 { '9' } else if n == 10 { 'a' } else if n == 11 { 'b' }
    else if n == 12 { 'c' } else if n == 13 { 'd' } else if n == 14 { 'e' } else { 'f' }
}

/// What one character becomes inside a JSON string literal: quote and
/// backslash escaped, the named control escapes for newline, carriage
/// return and tab, `\u00XX` for the other control characters, everything
/// else itself.
pub open spec fn escape_char(c: char) -> Seq<char> {
    if c == '"' {
        seq!['\\', '"']
    } else if c == '\\' {
        seq!['\\', '\\']
    } else if c == '\n' {
        seq!['\\', 'n']
    } else if c == '\r' {
        seq!['\\', 'r']
    } else if c == '\t' {
        seq!['\\', 't']
    } else if (c as u32) < 0x20 {
        seq!['\\', 'u', '0', '0', hex_char((c as u32) as int / 16), hex_char((c as u32) as int % 16)]
    } else {
        seq![c]
    }
}

/// A whole string escaped for use inside a JSON string literal.
pub open spec fn escape_seq(s: Seq<char>) -> Seq<char>
    decreases s.len(),
{
    if s.len() == 0 {
        Seq::empty()
    } else {
        escape_seq(s.drop_last()) + escape_char(s.last())
    }
}

/// One hexadecimal digit as a string slice.
fn hex_str(n: u32) -> (r: &'static str)
    requires
        n < 16,
    ensures
        r@ == seq![hex_char(n as int)],
{
    let r = match n {
        0 => "0", 1 => "1", 2 => "2", 3 => "3", 4 => "4", 5 => "5", 6 => "6", 7 => "7",
        8 => "8", 9 => "9", 10 => "a", 11 => "b", 12 => "c", 13 => "d", 14 => "e", _ => "f",
    };
    proof {
        reveal_strlit("0"); reveal_strlit("1"); reveal_strlit("2"); reveal_strlit("3");
        reveal_strlit("4"); reveal_strlit("5"); reveal_strlit("6"); reveal_strlit("7");
        reveal_strlit("8"); reveal_strlit("9"); reveal_strlit("a"); reveal_strlit("b");
        reveal_strlit("c"); reveal_strlit("d"); reveal_strlit("e"); reveal_strlit("f");
        assert(r@ =~= seq![hex_char(n as int)]);
    }
    r
}

/// Escapes a string for embedding inside a JSON string literal.
pub fn escape_json(s: &str) -> (r: String)
    ensures
        r@ == escape_seq(s@),
{
    let mut out = String::new();
    let len = s.unicode_len();
    let mut i: usize = 0;
    proof {
        assert(s@.subrange(0, 0) =~= Seq::<char>::empty());
    }
    while i < len
        invariant
            i <= len,
            len == s@.len(),
            out@ == escape_seq(s@.subrange(0, i as int)),
        decreases len - i,
    {
        let c = s.get_char(i);
        proof {
            assert(s@.subrange(0, i + 1).drop_last() =~= s@.subrange(0, i as int));
            assert(s@.subrange(0, i + 1).last() == c);
        }
        if c == '"' {
            out.append("\\\"");
            proof {
                reveal_strlit("\\\"");
                assert("\\\""@ =~= escape_char(c));
            }
        } else if c == '\\' {
            out.append("\\\\");
            proof {
                reveal_strlit("\\\\");
                assert("\\\\"@ =~= escape_char(c));
            }
        } else if c == '\n' {
            out.append("\\n");
            proof {
                reveal_strlit("\\n");
                assert("\\n"@ =~= escape_char(c));
            }
        } else if c == '\r' {
            out.append("\\r");
            proof {
                reveal_strlit("\\r");
                assert("\\r"@ =~= escape_char(c));
            }
        } else if c == '\t' {
            out.append("\\t");
            proof {
                reveal_strlit("\\t");
                assert("\\t"@ =~= escape_char(c));
            }
        } else if (c as u32) < 0x20 {
            let code = c as u32;
            out.append("\\u00");
            out.append(hex_str(code / 16));
            out.append(hex_str(code % 16));
            proof {
                reveal_strlit("\\u00");
                assert("\\u00"@ + seq![hex_char(code as int / 16)] + seq![hex_char(code as int % 16)]
                    =~= escape_char(c));
            }
        } else {
            out.append(s.substring_char(i, i + 1));
            proof {
                assert(s@.subrange(i as int, i + 1) =~= seq![c]);
                assert(seq![c] =~= escape_char(c));
            }
        }
        i += 1;
    }
    proof {
        assert(s@.subrange(0, len as int) =~= s@);
    }
    out
}

/// The JSON spelling of a boolean.
pub open spec fn bool_text(b: bool) -> Seq<char> {
    if b {
        "true"@
    } else {
        "false"@
    }
}

/// The JSON spelling of a boolean, as a string slice.
pub fn bool_str(b: bool) -> (r: &'static str)
    ensures
        r@ == bool_text(b),
{
    if b {
        "true"
    } else {
        "false"
    }
}

/// Decimal digit character for a value below 10.
pub open spec fn dec_char(n: int) -> char {
    hex_char(if 0 <= n < 10 { n } else { 0 })
}

/// Decimal rendering of a natural number, most significant digit first.
pub open spec fn dec_seq(n: nat) -> Seq<char>
    decreases n,
{
    if n < 10 {
        seq![dec_char(n as int)]
    } else {
        dec_seq(n / 10) + seq![dec_char((n % 10) as int)]
    }
}

/// Renders an unsigned integer in decimal.
pub fn u64_dec(n: u64) -> (r: String)
    ensures
        r@ == dec_seq(n as nat),
    decreases n,
{
    if n < 10 {
        string_of(hex_str(n as u32))
    } else {
        let mut s = u64_dec(n / 10);
        s.append(hex_str((n % 10) as u32));
        s
    }
}

/// Decimal digit test.
pub open spec fn is_dec_digit(c: char) -> bool {
    '0' <= c && c <= '9'
}

/// Value of one decimal digit character.
pub open spec fn dec_val(c: char) -> int {
    c as int - '0' as int
}

/// Value of a digit string, most significant digit first.
pub open spec fn dec_value(s: Seq<char>) -> int
    decreases s.len(),
{
    if s.len() == 0 {
        0
    } else {
        dec_value(s.drop_last()) * 10 + dec_val(s.last())
    }
}

/// All characters are decimal digits.
pub open spec fn all_dec_digits(s: Seq<char>) -> bool {
    forall|k: int| 0 <= k < s.len() ==> is_dec_digit(#[trigger] s[k])
}

/// The digit portion of a number text: everything after an optional
/// leading `+`.
pub open spec fn unsigned_digits_of(s: Seq<char>) -> Seq<char> {
    if s.len() > 0 && s[0] == '+' {
        s.subrange(1, s.len() as int)
    } else {
        s
    }
}

/// Parses an unsigned 8-bit decimal number the way the standard library
/// does: an optional leading `+`, then at least one digit, nothing else,
/// and a value that fits in the type.
pub fn parse_u8(s: &str) -> (r: Option<u8>)
    ensures
        match r {
            Some(v) => unsigned_digits_of(s@).len() > 0 && all_dec_digits(unsigned_digits_of(s@))
                && dec_value(unsigned_digits_of(s@)) == v,
            None => unsigned_digits_of(s@).len() == 0 || !all_dec_digits(unsigned_digits_of(s@))
                || dec_value(unsigned_digits_of(s@)) > 255,
        },
{
    let len = s.unicode_len();
    let mut i: usize = 0;
    if len > 0 && s.get_char(0) == '+' {
        i = 1;
    }
    let ghost digits = unsigned_digits_of(s@);
    let start = i;
    if i >= len {
        proof {
            assert(digits.len() == 0);
        }
        return None;
    }
    let mut value: u32 = 0;
    while i < len
        invariant
            start <= i <= len,
            start <= 1,
            len == s@.len(),
            start == 1 ==> s@[0] == '+',
            start == 0 ==> !(s@.len() > 0 && s@[0] == '+'),
            digits == s@.subrange(start as int, len as int),
            digits.len() == len - start,
            all_dec_digits(digits.subrange(0, i - start)),
            value <= 255,
            dec_value(digits.subrange(0, i - start)) == value,
        decreases len - i,
    {
        let c = s.get_char(i);
        proof {
            assert(digits[i - start] == s@[i as int]);
            assert(digits.subrange(0, i - start + 1).drop_last() =~= digits.subrange(0, i - start));
            assert(digits.subrange(0, i - start + 1).last() == digits[i - start]);
        }
        if c < '0' || c > '9' {
            proof {
                assert(!is_dec_digit(digits[i - start]));
            }
            return None;
        }
        let d: u32 = (c as u32) - 48;
        proof {
            assert(dec_val(c) == d);
        }
        value = value * 10 + d;
        proof {
            assert(dec_value(digits.subrange(0, i - start + 1))
                == dec_value(digits.subrange(0, i - start)) * 10 + dec_val(digits[i - start]));
        }
        if value > 255 {
            proof {
                assert(dec_value(digits.subrange(0, (i - start + 1) as int)) == value);
                lemma_dec_value_monotonic(digits, (i - start + 1) as int);
                assert(all_dec_digits(digits) ==> dec_value(digits) > 255);
                assert(digits == unsigned_digits_of(s@));
            }
            return None;
        }
        i += 1;
    }
    proof {
        assert(digits.subrange(0, (len - start) as int) =~= digits);
    }
    Some(value as u8)
}

/// A digit string's value only grows as digits are appended.
proof fn lemma_dec_value_monotonic(digits: Seq<char>, upto: int)
    requires
        0 <= upto <= digits.len(),
        dec_value(digits.subrange(0, upto)) > 255,
    ensures
        all_dec_digits(digits) ==> dec_value(digits) > 255,
    decreases digits.len() - upto,
{
    if all_dec_digits(digits) {
        if upto < digits.len() {
            assert(digits.subrange(0, upto + 1).drop_last() =~= digits.subrange(0, upto));
            assert(digits.subrange(0, upto + 1).last() == digits[upto]);
            assert(is_dec_digit(digits[upto]));
            assert(dec_val(digits[upto]) >= 0);
            assert(dec_value(digits.subrange(0, upto + 1))
                == dec_value(digits.subrange(0, upto)) * 10 + dec_val(digits[upto]));
            lemma_dec_value_monotonic(digits, upto + 1);
        } else {
            assert(digits.subrange(0, upto) =~= digits);
        }
    }
}

} // verus!
