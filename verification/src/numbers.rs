//! Decimal numbers in text.
use crate::text::{is_digit, to_chars};
use vstd::prelude::*;

verus! {

/// The number that a digit stands for.
pub open spec fn digit_value(c: char) -> int {
    c as int - '0' as int
}

/// Whether a text has digits only.
pub open spec fn all_digits(s: Seq<char>) -> bool {
    forall|i: int| 0 <= i < s.len() ==> is_digit(#[trigger] s[i])
}

/// The number that a run of digits stands for in base ten.
pub open spec fn digits_value(s: Seq<char>) -> int
    decreases s.len(),
{
    if s.len() == 0 {
        0
    } else {
        10 * digits_value(s.drop_last()) + digit_value(s.last())
    }
}

/// The text without one leading sign.
pub open spec fn without_sign(s: Seq<char>) -> Seq<char> {
    if s.len() > 0 && (s[0] == '-' || s[0] == '+') {
        s.drop_first()
    } else {
        s
    }
}

/// The number that a signed run of digits stands for.
pub open spec fn signed_value(s: Seq<char>) -> int {
    if s.len() > 0 && s[0] == '-' {
        -digits_value(without_sign(s))
    } else {
        digits_value(without_sign(s))
    }
}

/// The 64-bit number that a text spells: an optional sign, then one or more digits.
pub open spec fn parse_i64_text(s: Seq<char>) -> Option<i64> {
    let value = signed_value(s);
    if without_sign(s).len() > 0 && all_digits(without_sign(s)) && i64::MIN <= value <= i64::MAX {
        Some(value as i64)
    } else {
        None
    }
}

/// The digit for a number from zero to nine.
pub open spec fn digit_char(d: int) -> char {
    (('0' as u8) + d) as char
}

/// The decimal digits of a natural number.
pub open spec fn nat_text(n: nat) -> Seq<char>
    decreases n,
{
    if n < 10 {
        seq![digit_char(n as int)]
    } else {
        nat_text(n / 10).push(digit_char((n % 10) as int))
    }
}

/// The decimal form of an integer.
pub open spec fn int_text(n: int) -> Seq<char> {
    if n < 0 {
        seq!['-'] + nat_text((-n) as nat)
    } else {
        nat_text(n as nat)
    }
}

proof fn lemma_digits_value_grows(s: Seq<char>, i: int)
    requires
        all_digits(s),
        0 <= i <= s.len(),
    ensures
        0 <= digits_value(s.take(i)) <= digits_value(s),
    decreases s.len(),
{
    if s.len() == 0 {
        assert(s.take(i) =~= s);
    } else {
        assert(is_digit(s.last()));
        assert forall|j: int| 0 <= j < s.drop_last().len() implies is_digit(
            #[trigger] s.drop_last()[j],
        ) by {
            assert(is_digit(s[j]));
        }
        if i == s.len() {
            assert(s.take(i) =~= s);
            lemma_digits_value_grows(s.drop_last(), i - 1);
        } else {
            lemma_digits_value_grows(s.drop_last(), i);
            assert(s.drop_last().take(i) =~= s.take(i));
        }
    }
}

/// The 64-bit number that a text spells, if it spells one.
pub fn parse_i64(s: &str) -> (r: Option<i64>)
    ensures
        r == parse_i64_text(s@),
{
    let v = to_chars(s);
    let signed = v.len() > 0 && (v[0] == '-' || v[0] == '+');
    let negative = v.len() > 0 && v[0] == '-';
    let start: usize = if signed {
        1
    } else {
        0
    };
    let mut value: u64 = 0;
    let ghost body = without_sign(s@);
    assert(body =~= v@.skip(start as int));
    if start == v.len() {
        return None;
    }
    for i in start..v.len()
        invariant
            start <= i <= v@.len(),
            body == without_sign(s@),
            body == v@.skip(start as int),
            forall|j: int| 0 <= j < i - start ==> is_digit(#[trigger] body[j]),
            value == digits_value(body.take(i - start)),
            value <= 0x8000_0000_0000_0000,
            negative == (s@.len() > 0 && s@[0] == '-'),
    {
        let c = v[i];
        assert(body[i - start] == c);
        if !('0' <= c && c <= '9') {
            assert(!is_digit(body[i - start]));
            return None;
        }
        let d: u64 = (c as u64) - ('0' as u64);
        proof {
            let upto = body.take(i - start + 1);
            assert(upto.drop_last() =~= body.take(i - start));
            assert(digits_value(upto) == 10 * value + d);
            if all_digits(body) {
                lemma_digits_value_grows(body, i - start + 1);
            }
        }
        if value > 922_337_203_685_477_580 || (value == 922_337_203_685_477_580 && d > 8) {
            return None;
        }
        value = value * 10 + d;
    }
    assert(body.take(body.len() as int) =~= body);
    if negative {
        Some((-(value as i128)) as i64)
    } else if value <= 0x7fff_ffff_ffff_ffff {
        Some(value as i64)
    } else {
        None
    }
}

/// The decimal form of an unsigned number.
pub fn show_u64(n: u64) -> (r: String)
    ensures
        r@ == nat_text(n as nat),
    decreases n,
{
    let mut r = if n < 10 {
        String::new()
    } else {
        show_u64(n / 10)
    };
    let d: u8 = (n % 10) as u8;
    r.push(('0' as u8 + d) as char);
    r
}

/// The decimal form of a signed number.
pub fn show_i64(n: i64) -> (r: String)
    ensures
        r@ == int_text(n as int),
{
    if n < 0 {
        let mut r = String::new();
        r.push('-');
        let magnitude: u64 = (-(n as i128)) as u64;
        r.append(&show_u64(magnitude));
        r
    } else {
        show_u64(n as u64)
    }
}

/// The decimal form of a count.
pub fn show_usize(n: usize) -> (r: String)
    ensures
        r@ == nat_text(n as nat),
{
    show_u64(n as u64)
}

proof fn lemma_nat_text(n: nat)
    ensures
        nat_text(n).len() > 0,
        all_digits(nat_text(n)),
        digits_value(nat_text(n)) == n,
    decreases n,
{
    let s = nat_text(n);
    if n < 10 {
        assert(s.drop_last() =~= Seq::<char>::empty());
        assert(digits_value(s.drop_last()) == 0);
    } else {
        lemma_nat_text(n / 10);
        assert(s.drop_last() =~= nat_text(n / 10));
        assert forall|i: int| 0 <= i < s.len() implies is_digit(#[trigger] s[i]) by {
            if i < s.len() - 1 {
                assert(s[i] == nat_text(n / 10)[i]);
            }
        }
    }
}

/// The decimal form of a 64-bit number spells that number.
pub proof fn int_text_parses_back(n: i64)
    ensures
        parse_i64_text(int_text(n as int)) == Some(n),
{
    let s = int_text(n as int);
    if n < 0 {
        lemma_nat_text((-n) as nat);
        assert(s.drop_first() =~= nat_text((-n) as nat));
    } else {
        lemma_nat_text(n as nat);
        assert(is_digit(s[0]));
    }
}

/// The decimal form of a number is a text of digits, which a minus sign may precede.
pub proof fn int_text_is_digits(n: int)
    ensures
        int_text(n).len() > 0,
        int_text(n)[0] == '-' || is_digit(int_text(n)[0]),
        is_digit(int_text(n).last()),
        forall|i: int|
            0 <= i < int_text(n).len() ==> (#[trigger] int_text(n)[i]) == '-' || is_digit(
                int_text(n)[i],
            ),
{
    let s = int_text(n);
    let digits = nat_text((if n < 0 { -n } else { n }) as nat);
    lemma_nat_text((if n < 0 { -n } else { n }) as nat);
    assert(is_digit(digits[digits.len() - 1]));
    assert(s.last() == digits.last());
    assert forall|i: int| 0 <= i < s.len() implies (#[trigger] s[i]) == '-' || is_digit(s[i]) by {
        if n < 0 && i > 0 {
            assert(s[i] == digits[i - 1]);
        } else if n >= 0 {
            assert(s[i] == digits[i]);
        }
    }
}

/// Two numbers with the same decimal form are the same.
pub proof fn int_text_is_injective(a: i64, b: i64)
    requires
        int_text(a as int) == int_text(b as int),
    ensures
        a == b,
{
    int_text_parses_back(a);
    int_text_parses_back(b);
}

/// A text spells a number digit by digit: one more digit makes it ten times as much and that
/// digit; and a single digit is itself.
pub proof fn digits_count_in_tens(s: Seq<char>, d: char)
    requires
        is_digit(d),
    ensures
        parse_i64_text(seq![d]) == Some((d as int - '0' as int) as i64),
        parse_i64_text(s) matches Some(n) ==> {
            let more = if s[0] == '-' {
                10 * n - (d as int - '0' as int)
            } else {
                10 * n + (d as int - '0' as int)
            };
            &&& i64::MIN <= more <= i64::MAX ==> parse_i64_text(s.push(d)) == Some(more as i64)
            &&& !(i64::MIN <= more <= i64::MAX) ==> parse_i64_text(s.push(d)) is None
        },
{
    let one = seq![d];
    assert(without_sign(one) =~= one);
    assert(one.drop_last() =~= Seq::<char>::empty());
    assert(digits_value(one.drop_last()) == 0);
    if parse_i64_text(s) is Some {
        let body = without_sign(s);
        let longer = s.push(d);
        assert(longer[0] == s[0]);
        assert(without_sign(longer) =~= body.push(d));
        assert(body.push(d).drop_last() =~= body);
        assert forall|i: int| 0 <= i < body.push(d).len() implies is_digit(
            #[trigger] body.push(d)[i],
        ) by {
            if i < body.len() {
                assert(is_digit(body[i]));
            }
        }
    }
}

/// What spells a number has digits only, but for one sign before them; a plus sign changes
/// nothing, and a minus sign turns the number round.
pub proof fn only_digits_spell_numbers(s: Seq<char>, i: int)
    ensures
        0 <= i < s.len() && !is_digit(s[i]) && !(i == 0 && (s[0] == '-' || s[0] == '+'))
            ==> parse_i64_text(s) is None,
        parse_i64_text(Seq::<char>::empty()) is None,
        s.len() > 0 && is_digit(s[0]) ==> parse_i64_text(seq!['+'] + s) == parse_i64_text(s),
        s.len() > 0 && is_digit(s[0]) ==> (parse_i64_text(s) matches Some(n) ==> parse_i64_text(
            seq!['-'] + s,
        ) == Some((-n) as i64)),
{
    let body = without_sign(s);
    if 0 <= i < s.len() && !is_digit(s[i]) && !(i == 0 && (s[0] == '-' || s[0] == '+')) {
        if body == s {
            assert(!is_digit(body[i]));
        } else {
            assert(body[i - 1] == s[i]);
        }
    }
    assert((seq!['+'] + s).drop_first() =~= s);
    assert((seq!['-'] + s).drop_first() =~= s);
    if s.len() > 0 && is_digit(s[0]) && parse_i64_text(s) is Some {
        lemma_digits_value_grows(s, 0);
        assert(without_sign(s) == s);
    }
}

/// The decimal form of a number has no digit too many: it begins with a zero only where it
/// is the zero, and with a minus sign only where the number is below zero.
pub proof fn decimal_form_is_short(n: int)
    ensures
        int_text(n)[0] == '-' <==> n < 0,
        n > 0 ==> int_text(n)[0] != '0',
        n == 0 ==> int_text(n) == seq!['0'],
        n < 0 ==> int_text(n).len() > 1 && int_text(n)[1] != '0',
{
    lemma_nat_text((if n < 0 { -n } else { n }) as nat);
    lemma_first_digit((if n < 0 { -n } else { n }) as nat);
    if n < 0 {
        assert(int_text(n)[1] == nat_text((-n) as nat)[0]);
    } else {
        assert(is_digit(nat_text(n as nat)[0]));
    }
}

proof fn lemma_first_digit(n: nat)
    ensures
        nat_text(n).len() > 0,
        n > 0 ==> nat_text(n)[0] != '0',
    decreases n,
{
    if n >= 10 {
        lemma_first_digit(n / 10);
        assert(nat_text(n)[0] == nat_text(n / 10)[0]);
    }
}

} // verus!
