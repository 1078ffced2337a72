//! Numbers as text.

use vstd::prelude::*;

use crate::text::chars_of;

verus! {

/// The value of a digit, in any radix up to 16.
pub open spec fn digit_value(c: char) -> Option<nat> {
    if '0' <= c && c <= '9' {
        Some((c as u32 - '0' as u32) as nat)
    } else if 'a' <= c && c <= 'f' {
        Some((c as u32 - 'a' as u32 + 10) as nat)
    } else if 'A' <= c && c <= 'F' {
        Some((c as u32 - 'A' as u32 + 10) as nat)
    } else {
        None
    }
}

/// Whether a character is a digit in the given radix.
pub open spec fn is_digit(c: char, radix: nat) -> bool {
    digit_value(c) matches Some(d) && d < radix
}

/// The value of a digit in the given radix.
fn digit(c: char, radix: u64) -> (r: Option<u64>)
    ensures
        r is Some <==> is_digit(c, radix as nat),
        r matches Some(d) ==> digit_value(c) == Some(d as nat),
{
    let p: u32 = c as u32;
    let d: u64 = if 0x30 <= p && p <= 0x39 {
        (p - 0x30) as u64
    } else if 0x61 <= p && p <= 0x66 {
        (p - 0x61 + 10) as u64
    } else if 0x41 <= p && p <= 0x46 {
        (p - 0x41 + 10) as u64
    } else {
        return None;
    };
    if d < radix {
        Some(d)
    } else {
        None
    }
}

/// The number that a sequence of digits writes in the given radix.
pub open spec fn digits_value(s: Seq<char>, radix: nat) -> nat
    decreases s.len(),
{
    if s.len() == 0 {
        0
    } else {
        digits_value(s.drop_last(), radix) * radix + digit_value(s.last())->0
    }
}

/// The digits of an unsigned number: what is left behind a leading plus sign.
pub open spec fn unsigned_digits(s: Seq<char>) -> Seq<char> {
    if s.len() > 0 && s[0] == '+' {
        s.skip(1)
    } else {
        s
    }
}

/// The number that `s` writes: digits, at least one, with or without a plus sign
/// before them, whose value is at most `max`.
pub open spec fn unsigned_value(s: Seq<char>, radix: nat, max: nat) -> Option<nat> {
    let d = unsigned_digits(s);
    if d.len() > 0 && (forall|i: int| 0 <= i < d.len() ==> is_digit(#[trigger] d[i], radix))
        && digits_value(d, radix) <= max {
        Some(digits_value(d, radix))
    } else {
        None
    }
}

/// More digits never write a smaller number.
proof fn lemma_value_grows(s: Seq<char>, n: int, radix: nat)
    requires
        0 <= n <= s.len(),
        radix >= 1,
    ensures
        digits_value(s.take(n), radix) <= digits_value(s, radix),
    decreases s.len() - n,
{
    if n < s.len() {
        let t = s.drop_last();
        lemma_value_grows(t, n, radix);
        assert(t.take(n) =~= s.take(n));
        let v = digits_value(t, radix);
        assert(v * radix >= v) by (nonlinear_arith)
            requires
                radix >= 1,
        ;
    } else {
        assert(s.take(n) =~= s);
    }
}

/// Parses an unsigned number in the given radix.
pub fn parse_unsigned(s: &str, radix: u64, max: u64) -> (r: Option<u64>)
    requires
        2 <= radix <= 16,
    ensures
        r is Some <==> unsigned_value(s@, radix as nat, max as nat) is Some,
        r matches Some(v) ==> unsigned_value(s@, radix as nat, max as nat) == Some(v as nat),
{
    let c: Vec<char> = chars_of(s);
    let from: usize = if c.len() > 0 && c[0] == '+' {
        1
    } else {
        0
    };
    let ghost d = unsigned_digits(s@);
    assert(d =~= c@.skip(from as int));
    if from == c.len() {
        return None;
    }
    let mut value: u64 = 0;
    let mut i: usize = from;
    assert(d.take(0).len() == 0);
    while i < c.len()
        invariant
            2 <= radix <= 16,
            from <= i <= c.len(),
            c@ == s@,
            d == unsigned_digits(s@),
            d =~= c@.skip(from as int),
            value == digits_value(d.take(i - from), radix as nat),
            value <= max,
            forall|k: int| 0 <= k < i - from ==> is_digit(#[trigger] d[k], radix as nat),
        decreases c.len() - i,
    {
        let ghost k = i - from;
        assert(d[k] == c@[i as int]);
        match digit(c[i], radix) {
            None => {
                assert(!is_digit(d[k], radix as nat));
                return None;
            },
            Some(x) => {
                assert(d.take(k + 1).drop_last() =~= d.take(k));
                assert(d.take(k + 1).last() == d[k]);
                assert(value * radix <= 0xFFFF_FFFF_FFFF_FFFF * 16) by (nonlinear_arith)
                    requires
                        value <= 0xFFFF_FFFF_FFFF_FFFF,
                        radix <= 16,
                ;
                let wide: u128 = value as u128 * radix as u128 + x as u128;
                assert(wide == digits_value(d.take(k + 1), radix as nat));
                if wide > max as u128 {
                    proof {
                        lemma_value_grows(d, k + 1, radix as nat);
                    }
                    return None;
                }
                value = wide as u64;
            },
        }
        i = i + 1;
    }
    assert(d.take(c.len() - from) =~= d);
    Some(value)
}

/// The character that writes a decimal digit.
pub open spec fn digit_char(d: nat) -> char {
    ('0' as u32 + d) as char
}

/// A number in decimal, without leading zeros.
pub open spec fn decimal(n: nat) -> Seq<char>
    decreases n,
{
    if n < 10 {
        seq![digit_char(n)]
    } else {
        decimal(n / 10).push(digit_char(n % 10))
    }
}

/// Writes a number in decimal.
pub fn decimal_text(n: u64) -> (r: String)
    ensures
        r@ == decimal(n as nat),
    decreases n,
{
    let last: char = (48u8 + (n % 10) as u8) as char;
    assert(last == digit_char(n as nat % 10));
    if n < 10 {
        let mut out: String = String::new();
        out.push(last);
        assert(out@ =~= decimal(n as nat));
        out
    } else {
        let mut out: String = decimal_text(n / 10);
        out.push(last);
        out
    }
}

/// A signed number in decimal.
pub open spec fn signed_decimal(n: int) -> Seq<char> {
    if n < 0 {
        seq!['-'] + decimal((-n) as nat)
    } else {
        decimal(n as nat)
    }
}

/// Writes a signed number in decimal.
pub fn signed_decimal_text(n: i64) -> (r: String)
    ensures
        r@ == signed_decimal(n as int),
{
    if n < 0 {
        let mut out: String = String::new();
        out.push('-');
        let magnitude: u64 = (-(n as i128)) as u64;
        let digits: String = decimal_text(magnitude);
        out.push_str(digits.as_str());
        assert(out@ =~= signed_decimal(n as int));
        out
    } else {
        decimal_text(n as u64)
    }
}

/// The decimal form of a number is made of decimal digits and writes that number.
proof fn lemma_decimal(n: nat)
    ensures
        decimal(n).len() > 0,
        forall|i: int| 0 <= i < decimal(n).len() ==> is_digit(#[trigger] decimal(n)[i], 10),
        digits_value(decimal(n), 10) == n,
    decreases n,
{
    let d = decimal(n);
    assert(is_digit(digit_char(n % 10), 10) && digit_value(digit_char(n % 10)) == Some(n % 10));
    if n < 10 {
        assert(d.drop_last() =~= Seq::<char>::empty());
        assert(digits_value(d.drop_last(), 10) == 0);
    } else {
        lemma_decimal(n / 10);
        assert(d.drop_last() =~= decimal(n / 10));
    }
}

/// Reading back the decimal form of a number gives the number, where it is in range.
pub proof fn law_decimal_reads_back(n: nat, max: nat)
    requires
        n <= max,
    ensures
        unsigned_value(decimal(n), 10, max) == Some(n),
{
    lemma_decimal(n);
    assert(is_digit(decimal(n)[0], 10));
    assert(unsigned_digits(decimal(n)) == decimal(n));
}

} // verus!
