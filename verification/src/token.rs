//! Page tokens: an offset into the listing, written in decimal.

use vstd::prelude::*;
use vstd::utf8::*;

verus! {

/// One of the ten ASCII digits.
pub open spec fn is_digit(c: char) -> bool {
    '0' <= c <= '9'
}

/// The number that a digit stands for.
pub open spec fn digit_value(c: char) -> nat {
    (c as u32 - 0x30) as nat
}

/// The digit that stands for a number below ten.
pub open spec fn digit_char(d: nat) -> char {
    (0x30 + d) as u8 as char
}

/// Every character of `s` is a digit.
pub open spec fn all_digits(s: Seq<char>) -> bool {
    forall|i: int| 0 <= i < s.len() ==> is_digit(#[trigger] s[i])
}

/// The number that a string of digits denotes in base ten; leading zeros do not count.
pub open spec fn decimal_value(s: Seq<char>) -> nat
    decreases s.len(),
{
    if s.len() == 0 {
        0
    } else {
        decimal_value(s.drop_last()) * 10 + digit_value(s.last())
    }
}

/// The digits of `n` in base ten, without leading zeros; `"0"` for zero.
pub open spec fn decimal_digits(n: nat) -> Seq<char>
    decreases n,
{
    if n < 10 {
        seq![digit_char(n)]
    } else {
        decimal_digits(n / 10).push(digit_char(n % 10))
    }
}

/// A token without the one plus sign that may lead it.
pub open spec fn unsigned_part(token: Seq<char>) -> Seq<char> {
    if token.len() > 0 && token[0] == '+' {
        token.drop_first()
    } else {
        token
    }
}

/// A token is well formed when it is one or more digits, after an optional plus sign, and the
/// number fits the machine's `usize`.
pub open spec fn is_well_formed(token: Seq<char>) -> bool {
    let digits = unsigned_part(token);
    digits.len() > 0 && all_digits(digits) && decimal_value(digits) <= usize::MAX
}

/// The offset that a page token stands for. The empty token is the start of the listing, and
/// so, on purpose, is every token that is not well formed: a bad token is no error.
pub open spec fn token_offset(token: Seq<char>) -> nat {
    if is_well_formed(token) {
        decimal_value(unsigned_part(token))
    } else {
        0
    }
}

/// A string of digits denotes no less than any of its prefixes.
proof fn lemma_prefix_value(s: Seq<char>, k: int)
    requires
        0 <= k <= s.len(),
    ensures
        decimal_value(s.subrange(0, k)) <= decimal_value(s),
    decreases s.len(),
{
    if k == s.len() {
        assert(s.subrange(0, k) =~= s);
    } else {
        lemma_prefix_value(s.drop_last(), k);
        assert(s.drop_last().subrange(0, k) =~= s.subrange(0, k));
    }
}

/// The digits of a number are digits, and they denote the number.
pub proof fn lemma_decimal_digits(n: nat)
    ensures
        decimal_digits(n).len() > 0,
        all_digits(decimal_digits(n)),
        decimal_value(decimal_digits(n)) == n,
    decreases n,
{
    let s = decimal_digits(n);
    if n < 10 {
        assert(s.drop_last() =~= Seq::<char>::empty());
        assert(decimal_value(s.drop_last()) == 0);
        assert(s.last() == digit_char(n));
        assert(is_digit(digit_char(n)) && digit_value(digit_char(n)) == n) by {
            lemma_digit_char(n);
        }
    } else {
        lemma_decimal_digits(n / 10);
        lemma_digit_char(n % 10);
        assert(s.drop_last() =~= decimal_digits(n / 10));
        assert(s.last() == digit_char(n % 10));
        assert forall|i: int| 0 <= i < s.len() implies is_digit(#[trigger] s[i]) by {
            if i < s.len() - 1 {
                assert(s[i] == decimal_digits(n / 10)[i]);
            }
        }
    }
}

proof fn lemma_digit_char(d: nat)
    requires
        d < 10,
    ensures
        is_digit(digit_char(d)),
        digit_value(digit_char(d)) == d,
        digit_char(d) as u32 == 0x30 + d,
{
}

/// A token written by `format_offset` reads back as the offset it was written for.
pub proof fn lemma_token_round_trip(n: nat)
    requires
        n <= usize::MAX,
    ensures
        token_offset(decimal_digits(n)) == n,
{
    lemma_decimal_digits(n);
    let s = decimal_digits(n);
    assert(is_digit(s[0]));
    assert(unsigned_part(s) == s);
}

/// Reads a page token: `token_offset` of it.
pub fn parse_offset(token: &str) -> (offset: usize)
    ensures
        offset == token_offset(token@),
{
    let ghost digits = unsigned_part(token@);
    if !token.is_ascii() {
        proof {
            if is_well_formed(token@) {
                assert forall|i: int| 0 <= i < token@.len() implies '\0' <= #[trigger] token@[i]
                    <= '\u{7f}' by {
                    if i > 0 || token@[0] != '+' {
                        let k = if token@[0] == '+' { i - 1 } else { i };
                        assert(is_digit(digits[k]));
                    }
                }
            }
        }
        return 0;
    }
    let bytes = token.as_bytes();
    proof {
        is_ascii_chars_encode_utf8(token@);
    }
    let n = bytes.len();
    let start: usize = if n > 0 && bytes[0] == 0x2B { 1 } else { 0 };
    assert(digits =~= token@.subrange(start as int, n as int));
    if start == n {
        return 0;
    }
    let mut value: usize = 0;
    let mut i: usize = start;
    while i < n
        invariant
            start <= i <= n,
            n == token@.len(),
            n == bytes@.len(),
            is_ascii_chars(token@),
            forall|k: int| 0 <= k < n ==> #[trigger] token@[k] as u8 == bytes@[k],
            digits == token@.subrange(start as int, n as int),
            digits == unsigned_part(token@),
            all_digits(digits.subrange(0, i - start)),
            value == decimal_value(digits.subrange(0, i - start)),
        decreases n - i,
    {
        let b = bytes[i];
        let ghost c = token@[i as int];
        assert(c == digits[i - start]);
        assert(c as u8 == b && c as u32 == b as u32);
        if b < 0x30 || b > 0x39 {
            assert(!is_digit(digits[i - start]));
            return 0;
        }
        let ghost next = digits.subrange(0, i - start + 1);
        proof {
            assert(next.drop_last() =~= digits.subrange(0, i - start));
            assert(next.last() == c);
            assert forall|k: int| 0 <= k < next.len() implies is_digit(#[trigger] next[k]) by {
                if k < i - start {
                    assert(next[k] == digits.subrange(0, i - start)[k]);
                }
            }
            lemma_prefix_value(digits, i - start + 1);
            assert(decimal_value(next) == value * 10 + digit_value(c));
        }
        let digit: usize = (b - 0x30) as usize;
        let shifted = match value.checked_mul(10) {
            Some(shifted) => shifted,
            None => {
                return 0;
            },
        };
        value = match shifted.checked_add(digit) {
            Some(sum) => sum,
            None => {
                return 0;
            },
        };
        i += 1;
    }
    assert(digits.subrange(0, n - start) =~= digits);
    value
}

/// The text of one digit.
fn digit_text(d: usize) -> (text: &'static str)
    requires
        d < 10,
    ensures
        text@ == seq![digit_char(d as nat)],
{
    proof {
        reveal_strlit("0");
        reveal_strlit("1");
        reveal_strlit("2");
        reveal_strlit("3");
        reveal_strlit("4");
        reveal_strlit("5");
        reveal_strlit("6");
        reveal_strlit("7");
        reveal_strlit("8");
        reveal_strlit("9");
    }
    let text = match d {
        0 => "0",
        1 => "1",
        2 => "2",
        3 => "3",
        4 => "4",
        5 => "5",
        6 => "6",
        7 => "7",
        8 => "8",
        _ => "9",
    };
    assert(text@ =~= seq![digit_char(d as nat)]);
    text
}

/// Appends the digits of `n` to `text`.
fn push_decimal(text: &mut String, n: usize)
    ensures
        final(text)@ == old(text)@ + decimal_digits(n as nat),
    decreases n,
{
    if n >= 10 {
        push_decimal(text, n / 10);
    }
    text.append(digit_text(n % 10));
    assert(text@ =~= old(text)@ + decimal_digits(n as nat));
}

/// Writes an offset as a page token: its digits in base ten.
pub fn format_offset(offset: usize) -> (token: String)
    ensures
        token@ == decimal_digits(offset as nat),
{
    let mut token = String::new();
    push_decimal(&mut token, offset);
    assert(token@ =~= decimal_digits(offset as nat));
    token
}

} // verus!
