//! Numbers: what is written reads back.

use vstd::prelude::*;

use crate::number::{
    decimal,
    decimal_text,
    digit_value,
    digits_value,
    is_digit,
    law_decimal_reads_back,
    parse_unsigned,
    signed_decimal_text,
    unsigned_digits,
    unsigned_value,
};
use crate::text::white_space;

verus! {

/// The digits are those of decimal numbers and the letters up to `f`, small or capital.
pub proof fn law_digits_have_their_values(c: char)
    ensures
        '0' <= c && c <= '9' ==> digit_value(c) == Some((c as int - '0' as int) as nat),
        'a' <= c && c <= 'f' ==> digit_value(c) == Some((c as int - 'a' as int + 10) as nat),
        'A' <= c && c <= 'F' ==> digit_value(c) == Some((c as int - 'A' as int + 10) as nat),
        digit_value(c) is Some ==> ('0' <= c && c <= '9') || ('a' <= c && c <= 'f') || ('A' <= c
            && c <= 'F'),
{
}

/// Each further digit counts one, and all digits before it count the radix more.
pub proof fn law_digits_count_by_their_places(s: Seq<char>, c: char, radix: nat)
    ensures
        digits_value(Seq::empty(), radix) == 0,
        digits_value(s.push(c), radix) == digits_value(s, radix) * radix + digit_value(c)->0,
{
    assert(s.push(c).drop_last() =~= s);
}

/// A text is a number where it has digits, at least one, and nothing but digits, but for a plus
/// sign before them, and where the number is not above the limit.
pub proof fn law_only_digits_are_numbers(s: &str, radix: u64, max: u64, r: Option<u64>)
    requires
        2 <= radix <= 16,
        call_ensures(parse_unsigned, (s, radix, max), r),
    ensures
        s@.len() == 0 ==> r is None,
        s@ == seq!['+'] ==> r is None,
        s@.len() > 0 && s@[0] != '+' && (exists|i: int|
            0 <= i < s@.len() && !is_digit(#[trigger] s@[i], radix as nat)) ==> r is None,
        s@.len() > 0 && (forall|i: int|
            0 <= i < s@.len() ==> is_digit(#[trigger] s@[i], radix as nat)) ==> {
            &&& digits_value(s@, radix as nat) <= max ==> (r matches Some(n) && n == digits_value(
                s@,
                radix as nat,
            ))
            &&& digits_value(s@, radix as nat) > max ==> r is None
        },
        s@.len() > 1 && s@[0] == '+' && (forall|i: int|
            1 <= i < s@.len() ==> is_digit(#[trigger] s@[i], radix as nat)) && digits_value(
            s@.skip(1),
            radix as nat,
        ) <= max ==> (r matches Some(n) && n == digits_value(s@.skip(1), radix as nat)),
{
    if s@.len() > 0 {
        assert(is_digit(s@[0], radix as nat) ==> s@[0] != '+');
    }
}

/// A number in decimal reads back, and one that is negative has a minus sign before it.
pub proof fn law_numbers_read_back(n: u64, m: i64, written: String, signed: String, text: &str, read: Option<u64>)
    requires
        call_ensures(decimal_text, (n,), written),
        call_ensures(signed_decimal_text, (m,), signed),
        text@ == written@,
        call_ensures(parse_unsigned, (text, 10, u64::MAX), read),
    ensures
        read == Some(n),
        m >= 0 ==> signed@ == decimal(m as nat),
        m < 0 ==> signed@.len() > 0 && signed@[0] == '-' && signed@.skip(1) == decimal(
            (-m) as nat,
        ),
        n < 10 ==> written@.len() == 1,
        n >= 10 ==> written@[0] != '0',
{
    law_decimal_reads_back(n as nat, u64::MAX as nat);
    if m < 0 {
        assert(signed@.skip(1) =~= decimal((-m) as nat));
    }
    if n >= 10 {
        lemma_no_leading_zero(n as nat);
    }
}

/// The digits of a number do not start with a zero.
proof fn lemma_no_leading_zero(n: nat)
    requires
        n > 0,
    ensures
        decimal(n).len() > 0,
        decimal(n)[0] != '0',
    decreases n,
{
    if n >= 10 {
        lemma_no_leading_zero(n / 10);
    }
}

/// The decimal form of a number: digits alone, so no white space, no sign and no letter.
pub proof fn lemma_decimal_digits(n: nat)
    ensures
        decimal(n).len() > 0,
        forall|i: int|
            0 <= i < decimal(n).len() ==> '0' <= (#[trigger] decimal(n)[i]) && decimal(n)[i] <= '9',
    decreases n,
{
    if n >= 10 {
        lemma_decimal_digits(n / 10);
    }
}

/// A number in hexadecimal, in small letters and without leading zeros.
pub open spec fn hexadecimal(n: nat) -> Seq<char>
    decreases n,
{
    let d = n % 16;
    let last = if d < 10 {
        ('0' as u32 + d) as char
    } else {
        ('a' as u32 + (d - 10)) as char
    };
    if n < 16 {
        seq![last]
    } else {
        hexadecimal(n / 16).push(last)
    }
}

/// The hexadecimal form of a number reads back.
pub proof fn lemma_hexadecimal(n: nat)
    ensures
        hexadecimal(n).len() > 0,
        forall|i: int| 0 <= i < hexadecimal(n).len() ==> is_digit(#[trigger] hexadecimal(n)[i], 16),
        digits_value(hexadecimal(n), 16) == n,
    decreases n,
{
    let h = hexadecimal(n);
    assert(is_digit(h.last(), 16) && digit_value(h.last()) == Some(n % 16));
    if n < 16 {
        assert(h.drop_last() =~= Seq::<char>::empty());
        assert(digits_value(h.drop_last(), 16) == 0);
    } else {
        lemma_hexadecimal(n / 16);
        assert(h.drop_last() =~= hexadecimal(n / 16));
    }
}

/// What a text of digits is as a number.
pub proof fn lemma_digits_read(s: Seq<char>, radix: nat, max: nat)
    requires
        s.len() > 0,
        radix <= 16,
        forall|i: int| 0 <= i < s.len() ==> is_digit(#[trigger] s[i], radix),
    ensures
        unsigned_value(s, radix, max) == (if digits_value(s, radix) <= max {
            Some(digits_value(s, radix))
        } else {
            None
        }),
        forall|i: int| 0 <= i < s.len() ==> !white_space(#[trigger] s[i]),
{
    assert(is_digit(s[0], radix));
    assert(unsigned_digits(s) == s);
}

} // verus!
