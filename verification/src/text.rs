//! Numbers written as text and read from text.

use vstd::prelude::*;
use vstd::string::*;

verus! {

/// The character of a decimal digit.
pub open spec fn digit_char(d: nat) -> char {
    if d == 0 {
        '0'
    } else if d == 1 {
        '1'
    } else if d == 2 {
        '2'
    } else if d == 3 {
        '3'
    } else if d == 4 {
        '4'
    } else if d == 5 {
        '5'
    } else if d == 6 {
        '6'
    } else if d == 7 {
        '7'
    } else if d == 8 {
        '8'
    } else {
        '9'
    }
}

/// A number in decimal, without sign or leading zeros.
pub open spec fn decimal(n: nat) -> Seq<char>
    decreases n,
{
    if n < 10 {
        seq![digit_char(n)]
    } else {
        decimal(n / 10).push(digit_char(n % 10))
    }
}

fn digit_text(d: usize) -> (t: &'static str)
    requires
        d < 10,
    ensures
        t@ == seq![digit_char(d as nat)],
{
    proof {
        reveal_strlit("0");
        reveal_strlit("1");
        reveal_strlit("2");
        reveal_strlit("3");
        reveal_strlit("4");
        reveal_strlit("5");
        reveal_strlit("6");
        reveal_strlit("7");
        reveal_strlit("8");
        reveal_strlit("9");
    }
    let t = if d == 0 {
        "0"
    } else if d == 1 {
        "1"
    } else if d == 2 {
        "2"
    } else if d == 3 {
        "3"
    } else if d == 4 {
        "4"
    } else if d == 5 {
        "5"
    } else if d == 6 {
        "6"
    } else if d == 7 {
        "7"
    } else if d == 8 {
        "8"
    } else {
        "9"
    };
    assert(t@ =~= seq![digit_char(d as nat)]);
    t
}

/// Writes `n` in decimal at the end of `out`.
pub fn push_decimal(out: &mut String, n: usize)
    ensures
        final(out)@ == old(out)@ + decimal(n as nat),
    decreases n,
{
    if n >= 10 {
        push_decimal(out, n / 10);
    }
    out.append(digit_text(n % 10));
    assert(out@ =~= old(out)@ + decimal(n as nat));
}

/// The value of a character as a digit: `0` to `9` count zero to nine, and
/// the letters `a` to `z`, in either case, ten to thirty-five. A character
/// that is no digit counts thirty-six.
pub open spec fn digit_value(c: char) -> nat {
    if '0' <= c <= '9' {
        (c as u32 - '0' as u32) as nat
    } else if 'a' <= c <= 'z' {
        (c as u32 - 'a' as u32 + 10) as nat
    } else if 'A' <= c <= 'Z' {
        (c as u32 - 'A' as u32 + 10) as nat
    } else {
        36
    }
}

/// The number that a run of digits in base `radix` writes, most significant
/// digit first; `None` where a character is no digit of that base. The empty
/// run writes zero.
pub open spec fn number_of(digits: Seq<char>, radix: u32) -> Option<nat>
    decreases digits.len(),
{
    if digits.len() == 0 {
        Some(0)
    } else {
        match number_of(digits.drop_last(), radix) {
            Some(high) => if digit_value(digits.last()) < radix {
                Some(high * (radix as nat) + digit_value(digits.last()))
            } else {
                None
            },
            None => None,
        }
    }
}

/// The unsigned number no greater than `max` that `text` writes in base
/// `radix`: one optional plus sign, then one digit or more and nothing else.
pub open spec fn unsigned_of(text: Seq<char>, radix: u32, max: nat) -> Option<nat> {
    let digits = if text.len() > 0 && text[0] == '+' {
        text.skip(1)
    } else {
        text
    };
    if digits.len() == 0 {
        None
    } else {
        match number_of(digits, radix) {
            Some(value) => if value <= max {
                Some(value)
            } else {
                None
            },
            None => None,
        }
    }
}

/// A number written in decimal reads back as itself.
pub proof fn decimal_reads_back(n: nat, max: nat)
    requires
        n <= max,
    ensures
        unsigned_of(decimal(n), 10, max) == Some(n),
{
    lemma_decimal_is_digits(n);
}

/// A number written in decimal is a run of at least one decimal digit that
/// writes the number.
proof fn lemma_decimal_is_digits(n: nat)
    ensures
        decimal(n).len() >= 1,
        decimal(n)[0] != '+',
        number_of(decimal(n), 10) == Some(n),
    decreases n,
{
    if n < 10 {
        let digits = decimal(n);
        assert(digits.drop_last() =~= Seq::<char>::empty());
        assert(number_of(digits.drop_last(), 10) == Some(0nat));
        assert(digit_value(digits.last()) == n);
    } else {
        lemma_decimal_is_digits(n / 10);
        let digits = decimal(n);
        assert(digits.drop_last() =~= decimal(n / 10));
        assert(digit_value(digits.last()) == n % 10);
        assert(digits[0] == decimal(n / 10)[0]);
    }
}

/// Every run of digits that starts a number writes a number that is no
/// greater.
proof fn lemma_prefix_is_no_greater(digits: Seq<char>, radix: u32, len: int)
    requires
        0 <= len <= digits.len(),
        1 <= radix,
        number_of(digits, radix) is Some,
    ensures
        number_of(digits.take(len), radix) is Some,
        number_of(digits.take(len), radix)->0 <= number_of(digits, radix)->0,
    decreases digits.len(),
{
    if len == digits.len() {
        assert(digits.take(len) =~= digits);
    } else {
        assert(digits.drop_last().take(len) =~= digits.take(len));
        lemma_prefix_is_no_greater(digits.drop_last(), radix, len);
        let high = number_of(digits.drop_last(), radix)->0;
        assert(high <= high * radix) by (nonlinear_arith)
            requires
                1 <= radix,
                0 <= high,
        ;
    }
}

fn digit(c: char, radix: u32) -> (d: Option<u32>)
    ensures
        match d {
            Some(v) => v == digit_value(c) && v < radix,
            None => digit_value(c) >= radix,
        },
{
    let value: u32 = if '0' <= c && c <= '9' {
        c as u32 - '0' as u32
    } else if 'a' <= c && c <= 'z' {
        c as u32 - 'a' as u32 + 10
    } else if 'A' <= c && c <= 'Z' {
        c as u32 - 'A' as u32 + 10
    } else {
        36
    };
    if value < radix {
        Some(value)
    } else {
        None
    }
}

/// Reads an unsigned number no greater than `max`, written in base `radix`.
pub fn parse_unsigned(text: &str, radix: u32, max: u64) -> (r: Option<u64>)
    requires
        2 <= radix <= 36,
    ensures
        match r {
            Some(v) => unsigned_of(text@, radix, max as nat) == Some(v as nat),
            None => unsigned_of(text@, radix, max as nat) is None,
        },
{
    let n: usize = text.unicode_len();
    let start: usize = if n > 0 && text.get_char(0) == '+' {
        1
    } else {
        0
    };
    if start >= n {
        return None;
    }
    let ghost digits = if start == 1 {
        text@.skip(1)
    } else {
        text@
    };
    let mut value: u64 = 0;
    let mut i: usize = start;
    while i < n
        invariant
            start <= i <= n,
            n == text@.len(),
            start <= 1,
            2 <= radix <= 36,
            digits.len() == n - start,
            forall|k: int| 0 <= k < digits.len() ==> digits[k] == text@[k + start],
            digits == if text@.len() > 0 && text@[0] == '+' {
                text@.skip(1)
            } else {
                text@
            },
            number_of(digits.take(i - start), radix) == Some(value as nat),
            value <= max,
        decreases n - i,
    {
        let c = text.get_char(i);
        let ghost shorter = digits.take(i - start);
        let ghost longer = digits.take(i - start + 1);
        proof {
            assert(longer.drop_last() =~= shorter);
            assert(longer.last() == c);
            if number_of(digits, radix) is Some {
                lemma_prefix_is_no_greater(digits, radix, i - start + 1);
            }
        }
        let low: u32 = match digit(c, radix) {
            Some(d) => d,
            None => {
                return None;
            },
        };
        let shifted: u64 = match value.checked_mul(radix as u64) {
            Some(v) => v,
            None => {
                return None;
            },
        };
        let next: u64 = match shifted.checked_add(low as u64) {
            Some(v) => v,
            None => {
                return None;
            },
        };
        if next > max {
            return None;
        }
        value = next;
        i += 1;
    }
    proof {
        assert(digits.take(n - start) =~= digits);
    }
    Some(value)
}

/// Whether two texts are the same, character by character.
pub fn same_text(a: &str, b: &str) -> (same: bool)
    ensures
        same == (a@ == b@),
{
    let n: usize = a.unicode_len();
    if n != b.unicode_len() {
        return false;
    }
    let mut i: usize = 0;
    while i < n
        invariant
            i <= n,
            n == a@.len(),
            n == b@.len(),
            forall|k: int| 0 <= k < i ==> a@[k] == b@[k],
        decreases n - i,
    {
        if a.get_char(i) != b.get_char(i) {
            return false;
        }
        i += 1;
    }
    assert(a@ =~= b@);
    true
}

} // verus!
