//! Decimal rendering and reading of integers, with a proof that reading an
//! emitted number gives the number back.

use vstd::prelude::*;

verus! {

/// Whether a character is a decimal digit.
pub open spec fn is_digit(c: char) -> bool {
    48 <= c as u32 <= 57
}

/// The numeric value of a decimal digit character.
pub open spec fn digit_val(c: char) -> int {
    c as u32 - 48
}

/// The character for a decimal digit value.
pub open spec fn spec_digit(d: int) -> char {
    if d == 0 {
        '0'
    } else if d == 1 {
        '1'
    } else if d == 2 {
        '2'
    } else if d == 3 {
        '3'
    } else if d == 4 {
        '4'
    } else if d == 5 {
        '5'
    } else if d == 6 {
        '6'
    } else if d == 7 {
        '7'
    } else if d == 8 {
        '8'
    } else {
        '9'
    }
}

/// The decimal representation of a non-negative integer, most significant
/// digit first, with no leading zero except for zero itself.
pub open spec fn dec_rep(n: int) -> Seq<char>
    decreases n,
{
    if n < 10 {
        seq![spec_digit(n)]
    } else {
        dec_rep(n / 10).push(spec_digit(n % 10))
    }
}

/// The decimal representation of a signed integer: a minus sign for negative
/// numbers, then the representation of the magnitude.
pub open spec fn dec_rep_signed(n: int) -> Seq<char> {
    if n < 0 {
        seq!['-'].add(dec_rep(-n))
    } else {
        dec_rep(n)
    }
}

/// The value of a sequence of decimal digit characters.
pub open spec fn dec_val(s: Seq<char>) -> int
    decreases s.len(),
{
    if s.len() == 0 {
        0
    } else {
        dec_val(s.drop_last()) * 10 + digit_val(s.last())
    }
}

pub proof fn lemma_digit_val_of_spec_digit(d: int)
    requires
        0 <= d < 10,
    ensures
        digit_val(spec_digit(d)) == d,
        is_digit(spec_digit(d)),
{
}

/// Every character of a decimal representation is a digit, and the
/// representation is never empty.
pub proof fn lemma_dec_rep_digits(n: int)
    requires
        n >= 0,
    ensures
        dec_rep(n).len() >= 1,
        forall|i: int| 0 <= i < dec_rep(n).len() ==> is_digit(#[trigger] dec_rep(n)[i]),
    decreases n,
{
    if n < 10 {
        lemma_digit_val_of_spec_digit(n);
    } else {
        lemma_dec_rep_digits(n / 10);
        lemma_digit_val_of_spec_digit(n % 10);
        assert forall|i: int| 0 <= i < dec_rep(n).len() implies is_digit(#[trigger] dec_rep(n)[i]) by {
            if i < dec_rep(n / 10).len() {
                assert(dec_rep(n)[i] == dec_rep(n / 10)[i]);
            }
        }
    }
}

/// Reading the decimal representation of a non-negative integer yields the
/// integer back.
pub proof fn lemma_dec_val_of_rep(n: int)
    requires
        n >= 0,
    ensures
        dec_val(dec_rep(n)) == n,
    decreases n,
{
    if n < 10 {
        lemma_digit_val_of_spec_digit(n);
        assert(dec_rep(n) == seq![spec_digit(n)]);
        assert(dec_rep(n).drop_last() =~= Seq::<char>::empty());
        assert(dec_val(Seq::<char>::empty()) == 0);
        assert(dec_rep(n).last() == spec_digit(n));
        assert(dec_val(dec_rep(n)) == dec_val(dec_rep(n).drop_last()) * 10 + digit_val(
            dec_rep(n).last(),
        ));
    } else {
        lemma_dec_val_of_rep(n / 10);
        lemma_digit_val_of_spec_digit(n % 10);
        assert(dec_rep(n) == dec_rep(n / 10).push(spec_digit(n % 10)));
        assert(dec_rep(n).drop_last() =~= dec_rep(n / 10));
        assert(dec_rep(n).last() == spec_digit(n % 10));
        assert(dec_val(dec_rep(n)) == dec_val(dec_rep(n).drop_last()) * 10 + digit_val(
            dec_rep(n).last(),
        ));
        assert(n / 10 * 10 + n % 10 == n);
    }
}

/// Powers of ten.
pub open spec fn pow10(k: nat) -> int
    decreases k,
{
    if k == 0 {
        1
    } else {
        10 * pow10((k - 1) as nat)
    }
}

/// Whether every character of a sequence is a decimal digit.
pub open spec fn all_digits(t: Seq<char>) -> bool {
    forall|i: int| 0 <= i < t.len() ==> is_digit(#[trigger] t[i])
}

/// Distinct characters have distinct codes.
pub proof fn lemma_char_codes_differ(a: char, b: char)
    requires
        a != b,
    ensures
        a as u32 != b as u32,
{
    vstd::utf8::char_u32_cast(a, a as u32);
    vstd::utf8::char_u32_cast(b, b as u32);
}

/// The value of a digit sequence is non-negative.
pub proof fn lemma_dec_val_nonneg(t: Seq<char>)
    requires
        all_digits(t),
    ensures
        dec_val(t) >= 0,
    decreases t.len(),
{
    if t.len() != 0 {
        assert(all_digits(t.drop_last()));
        lemma_dec_val_nonneg(t.drop_last());
        assert(is_digit(t.last()));
    }
}

/// The value of a digit sequence is below ten to its length.
pub proof fn lemma_dec_val_upper(t: Seq<char>)
    requires
        all_digits(t),
    ensures
        dec_val(t) < pow10(t.len()),
    decreases t.len(),
{
    if t.len() != 0 {
        assert(all_digits(t.drop_last()));
        lemma_dec_val_upper(t.drop_last());
        assert(is_digit(t.last()));
        assert(pow10(t.len()) == 10 * pow10((t.len() - 1) as nat));
    }
}

/// A digit sequence that does not start with a zero has a value of at least
/// ten to one less than its length.
pub proof fn lemma_dec_val_lower(t: Seq<char>)
    requires
        all_digits(t),
        t.len() >= 1,
        t[0] != '0',
    ensures
        dec_val(t) >= pow10((t.len() - 1) as nat),
    decreases t.len(),
{
    if t.len() == 1 {
        assert(is_digit(t[0]));
        lemma_char_codes_differ(t[0], '0');
        assert(t.drop_last() =~= Seq::<char>::empty());
        assert('0' as u32 == 48);
        assert(digit_val(t[0]) >= 1);
        assert(dec_val(t) == dec_val(t.drop_last()) * 10 + digit_val(t.last()));
        assert(dec_val(Seq::<char>::empty()) == 0);
        assert(pow10(0) == 1);
    } else {
        assert(all_digits(t.drop_last()));
        assert(t.drop_last()[0] == t[0]);
        lemma_dec_val_lower(t.drop_last());
        assert(is_digit(t.last()));
        assert(digit_val(t.last()) >= 0);
        assert(dec_val(t) == dec_val(t.drop_last()) * 10 + digit_val(t.last()));
        assert(pow10((t.len() - 1) as nat) == 10 * pow10((t.len() - 2) as nat));
        assert(dec_val(t.drop_last()) * 10 >= pow10((t.len() - 2) as nat) * 10);
    }
}

/// A leading zero does not change the value of a digit sequence.
pub proof fn lemma_dec_val_strip_zero(t: Seq<char>)
    requires
        t.len() >= 1,
        t[0] == '0',
    ensures
        dec_val(t) == dec_val(t.drop_first()),
    decreases t.len(),
{
    if t.len() == 1 {
        assert(t.drop_last() =~= Seq::<char>::empty());
        assert(t.drop_first() =~= Seq::<char>::empty());
        assert(digit_val('0') == 0);
    } else {
        assert(t.drop_last()[0] == t[0]);
        lemma_dec_val_strip_zero(t.drop_last());
        assert(t.drop_last().drop_first() =~= t.drop_first().drop_last());
        assert(t.drop_first().last() == t.last());
        assert(dec_val(t.drop_first()) == dec_val(t.drop_first().drop_last()) * 10 + digit_val(
            t.drop_first().last(),
        ));
    }
}

/// Powers of ten are positive.
pub proof fn lemma_pow10_pos(k: nat)
    ensures
        pow10(k) >= 1,
    decreases k,
{
    if k > 0 {
        lemma_pow10_pos((k - 1) as nat);
    }
}

/// Powers of ten grow with the exponent.
pub proof fn lemma_pow10_mono(a: nat, b: nat)
    requires
        a <= b,
    ensures
        1 <= pow10(a) <= pow10(b),
    decreases b,
{
    lemma_pow10_pos(a);
    if a < b {
        lemma_pow10_mono(a, (b - 1) as nat);
        lemma_pow10_pos((b - 1) as nat);
    }
}

/// Ten to the nineteenth is above both machine bounds for signed 64-bit
/// integers.
pub proof fn lemma_pow10_19_large()
    ensures
        pow10(19) > 0x8000_0000_0000_0000,
        pow10(18) == 0x0DE0_B6B3_A764_0000,
{
    assert(pow10(0) == 1);
    assert(pow10(1) == 10);
    assert(pow10(2) == 100);
    assert(pow10(3) == 1000);
    assert(pow10(4) == 10000);
    assert(pow10(5) == 100000);
    assert(pow10(6) == 1000000);
    assert(pow10(7) == 10000000);
    assert(pow10(8) == 100000000);
    assert(pow10(9) == 1000000000);
    assert(pow10(10) == 10000000000);
    assert(pow10(11) == 100000000000);
    assert(pow10(12) == 1000000000000);
    assert(pow10(13) == 10000000000000);
    assert(pow10(14) == 100000000000000);
    assert(pow10(15) == 1000000000000000);
    assert(pow10(16) == 10000000000000000);
    assert(pow10(17) == 100000000000000000);
    assert(pow10(18) == 1000000000000000000);
    assert(pow10(19) == 10000000000000000000);
}

/// The digit character for a value below ten.
pub fn digit_char(d: u8) -> (c: char)
    requires
        d < 10,
    ensures
        c == spec_digit(d as int),
{
    match d {
        0 => '0',
        1 => '1',
        2 => '2',
        3 => '3',
        4 => '4',
        5 => '5',
        6 => '6',
        7 => '7',
        8 => '8',
        _ => '9',
    }
}

/// Appends the decimal representation of `n` to `out`.
pub fn push_dec_u64(out: &mut Vec<char>, n: u64)
    ensures
        final(out)@ == old(out)@ + dec_rep(n as int),
    decreases n,
{
    if n < 10 {
        out.push(digit_char(n as u8));
    } else {
        push_dec_u64(out, n / 10);
        out.push(digit_char((n % 10) as u8));
    }
}

/// Appends the decimal representation of a signed integer to `out`.
pub fn push_dec_i64(out: &mut Vec<char>, n: i64)
    ensures
        final(out)@ == old(out)@ + dec_rep_signed(n as int),
{
    if n < 0 {
        out.push('-');
        // The magnitude of the smallest i64 does not fit in an i64, so step
        // up to the magnitude through n + 1.
        let m: u64 = ((-(n + 1)) as u64) + 1;
        assert(m == -(n as int));
        push_dec_u64(out, m);
        assert(final(out)@ =~= old(out)@ + dec_rep_signed(n as int));
    } else {
        push_dec_u64(out, n as u64);
    }
}

/// Renders a signed integer as a decimal string of characters.
pub fn format_i64(n: i64) -> (r: Vec<char>)
    ensures
        r@ == dec_rep_signed(n as int),
{
    let mut out: Vec<char> = Vec::new();
    push_dec_i64(&mut out, n);
    assert(out@ =~= dec_rep_signed(n as int));
    out
}

} // verus!

