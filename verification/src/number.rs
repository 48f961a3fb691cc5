//! Decimal numbers as text.
use vstd::prelude::*;
use crate::text::chars_of;

verus! {

/// The character of a digit from 0 to 9.
pub open spec fn digit_char(d: int) -> char {
    (d + 48) as char
}

pub open spec fn is_digit(c: char) -> bool {
    48 <= c as int <= 57
}

pub open spec fn digit_value(c: char) -> int {
    c as int - 48
}

/// The decimal digits of `n`, without leading zeros.
pub open spec fn decimal(n: nat) -> Seq<char>
    decreases n,
{
    if n < 10 {
        seq![digit_char(n as int)]
    } else {
        decimal(n / 10).push(digit_char((n % 10) as int))
    }
}

/// The decimal text of an integer, with a minus sign where it is negative.
pub open spec fn signed_decimal(i: int) -> Seq<char> {
    if i < 0 {
        seq!['-'] + decimal((-i) as nat)
    } else {
        decimal(i as nat)
    }
}

/// A non-empty run of digits.
pub open spec fn is_number(s: Seq<char>) -> bool {
    s.len() > 0 && forall|i: int| 0 <= i < s.len() ==> is_digit(#[trigger] s[i])
}

/// The number that a run of digits stands for.
pub open spec fn number_value(s: Seq<char>) -> int
    decreases s.len(),
{
    if s.len() == 0 {
        0
    } else {
        number_value(s.drop_last()) * 10 + digit_value(s.last())
    }
}

/// The integer that a text stands for: digits, after at most one sign.
pub open spec fn integer_value(s: Seq<char>) -> Option<int> {
    if is_number(s) {
        Some(number_value(s))
    } else if s.len() > 0 && s[0] == '+' && is_number(s.skip(1)) {
        Some(number_value(s.skip(1)))
    } else if s.len() > 0 && s[0] == '-' && is_number(s.skip(1)) {
        Some(-number_value(s.skip(1)))
    } else {
        None
    }
}

/// The `i32` that a text stands for, where it stands for one.
pub open spec fn i32_value(s: Seq<char>) -> Option<i32> {
    match integer_value(s) {
        Some(v) => if i32::MIN <= v <= i32::MAX {
            Some(v as i32)
        } else {
            None
        },
        None => None,
    }
}

/// The decimal text of `n`.
pub fn decimal_text(n: u64) -> (r: String)
    ensures
        r@ == decimal(n as nat),
    decreases n,
{
    if n < 10 {
        let mut s = String::new();
        s.push((48 + n as u8) as char);
        s
    } else {
        let mut s = decimal_text(n / 10);
        s.push((48 + (n % 10) as u8) as char);
        s
    }
}

/// The decimal text of `i`.
pub fn signed_decimal_text(i: i32) -> (r: String)
    ensures
        r@ == signed_decimal(i as int),
{
    if i < 0 {
        let mut s = String::new();
        s.push('-');
        s.append(decimal_text((-(i as i64)) as u64).as_str());
        s
    } else {
        decimal_text(i as u64)
    }
}

/// A run of digits stands for a number that is not negative.
proof fn lemma_number_value_nonnegative(s: Seq<char>)
    requires
        forall|i: int| 0 <= i < s.len() ==> is_digit(#[trigger] s[i]),
    ensures
        number_value(s) >= 0,
    decreases s.len(),
{
    if s.len() > 0 {
        lemma_number_value_nonnegative(s.drop_last());
    }
}

/// The value of the digits `chars[from..]`: `None` where there are none, where another
/// character stands among them, or where the value is above `limit`.
fn digits_within(chars: &Vec<char>, from: usize, limit: u64) -> (r: Option<u64>)
    requires
        from <= chars@.len(),
        limit <= 0x1_0000_0000,
    ensures
        r is Some <==> is_number(chars@.skip(from as int)) && number_value(
            chars@.skip(from as int),
        ) <= limit,
        r matches Some(v) ==> v == number_value(chars@.skip(from as int)),
{
    let ghost all = chars@.skip(from as int);
    if from == chars.len() {
        return None;
    }
    let mut acc: u64 = 0;
    let mut over: bool = false;
    let mut i: usize = from;
    while i < chars.len()
        invariant
            from <= i <= chars@.len(),
            limit <= 0x1_0000_0000,
            all == chars@.skip(from as int),
            forall|k: int| 0 <= k < i - from ==> is_digit(#[trigger] all[k]),
            over <==> number_value(all.take(i - from)) > limit,
            !over ==> acc == number_value(all.take(i - from)),
        decreases chars@.len() - i,
    {
        let c = chars[i];
        assert(all[i - from] == c);
        if !('0' <= c && c <= '9') {
            assert(!is_digit(all[i - from]));
            return None;
        }
        proof {
            assert(all.take(i - from + 1).drop_last() =~= all.take(i - from));
            assert(all.take(i - from + 1).last() == c);
            lemma_number_value_nonnegative(all.take(i - from));
        }
        if !over {
            acc = acc * 10 + (c as u64 - 48);
            if acc > limit {
                over = true;
            }
        }
        i += 1;
    }
    assert(all.take(all.len() as int) =~= all);
    if over {
        None
    } else {
        Some(acc)
    }
}

/// Reads an `i32`: an optional sign, and digits whose value fits.
pub fn parse_i32(s: &str) -> (r: Option<i32>)
    ensures
        r == i32_value(s@),
{
    let chars = chars_of(s);
    if chars.len() == 0 {
        return None;
    }
    let first = chars[0];
    if first == '-' {
        assert(!is_number(s@)) by {
            assert(!is_digit(s@[0]));
        }
        match digits_within(&chars, 1, 0x8000_0000) {
            Some(v) => Some((-(v as i64)) as i32),
            None => None,
        }
    } else if first == '+' {
        assert(!is_number(s@)) by {
            assert(!is_digit(s@[0]));
        }
        proof {
            if is_number(s@.skip(1)) {
                lemma_number_value_nonnegative(s@.skip(1));
            }
        }
        match digits_within(&chars, 1, 0x7fff_ffff) {
            Some(v) => Some(v as i32),
            None => None,
        }
    } else {
        proof {
            assert(s@.skip(0) =~= s@);
            if is_number(s@) {
                lemma_number_value_nonnegative(s@);
            }
        }
        match digits_within(&chars, 0, 0x7fff_ffff) {
            Some(v) => Some(v as i32),
            None => None,
        }
    }
}

/// Decimal digits are digits, and they stand for the number they were made from.
pub proof fn decimal_reads_back(n: nat)
    ensures
        is_number(decimal(n)),
        number_value(decimal(n)) == n,
    decreases n,
{
    if n >= 10 {
        decimal_reads_back(n / 10);
        assert(decimal(n).drop_last() =~= decimal(n / 10));
    } else {
        assert(decimal(n).drop_last() =~= Seq::<char>::empty());
        assert(number_value(decimal(n)) == number_value(decimal(n).drop_last()) * 10
            + digit_value(decimal(n).last()));
    }
}

/// Different numbers have different decimal texts.
pub proof fn decimal_is_injective(m: nat, n: nat)
    requires
        decimal(m) == decimal(n),
    ensures
        m == n,
{
    decimal_reads_back(m);
    decimal_reads_back(n);
}

/// Reading the decimal text of an `i32` gives it back.
pub proof fn signed_decimal_reads_back(i: i32)
    ensures
        i32_value(signed_decimal(i as int)) == Some(i),
{
    if i < 0 {
        let s = signed_decimal(i as int);
        decimal_reads_back((-i) as nat);
        assert(s.skip(1) =~= decimal((-i) as nat));
        assert(!is_digit(s[0]));
    } else {
        decimal_reads_back(i as nat);
    }
}

/// A digit put behind a number makes it ten times as large and adds the digit; a number
/// below ten is its digit.
pub proof fn decimal_is_positional(n: nat, d: nat)
    requires
        d < 10,
    ensures
        decimal(d) == seq![(48 + d) as char],
        n > 0 ==> decimal(10 * n + d) == decimal(n).push((48 + d) as char),
{
    if n > 0 {
        assert((10 * n + d) / 10 == n);
        assert((10 * n + d) % 10 == d);
    }
}

/// Only zero begins with the digit zero.
pub proof fn decimal_has_no_leading_zero(n: nat)
    requires
        n > 0,
    ensures
        decimal(n).len() > 0,
        decimal(n)[0] != '0',
    decreases n,
{
    if n >= 10 {
        decimal_has_no_leading_zero(n / 10);
        assert(decimal(n)[0] == decimal(n / 10)[0]);
    }
}

/// The text of a negative number is a minus sign and the text of the number without it.
pub proof fn minus_sign_stands_before_the_digits(n: nat)
    requires
        n > 0,
    ensures
        signed_decimal(-(n as int)) == seq!['-'] + signed_decimal(n as int),
        signed_decimal(n as int) == decimal(n),
        signed_decimal(0) == seq!['0'],
{
}

/// A text is read digit by digit: a digit behind digits makes their value ten times as large
/// and adds its own, as long as the value fits; where it does not fit there is none, and no
/// digit helps.
pub proof fn reading_goes_digit_by_digit(s: Seq<char>, c: char)
    requires
        forall|i: int| 0 <= i < s.len() ==> '0' <= #[trigger] s[i] <= '9',
        '0' <= c <= '9',
    ensures
        s.len() == 0 ==> i32_value(s) is None && i32_value(s.push(c)) == Some((c as int - 48) as i32),
        s.len() > 0 ==> match i32_value(s) {
            Some(v) => v >= 0 && if v * 10 + (c as int - 48) <= i32::MAX {
                i32_value(s.push(c)) == Some((v * 10 + (c as int - 48)) as i32)
            } else {
                i32_value(s.push(c)) is None
            },
            None => i32_value(s.push(c)) is None,
        },
{
    let longer = s.push(c);
    assert(longer.drop_last() =~= s);
    assert forall|i: int| 0 <= i < longer.len() implies is_digit(#[trigger] longer[i]) by {
        if i < s.len() {
            assert(longer[i] == s[i]);
        }
    }
    assert forall|i: int| 0 <= i < s.len() implies is_digit(#[trigger] s[i]) by {}
    assert(is_number(longer));
    lemma_number_value_nonnegative(s);
    assert(number_value(longer) == number_value(s) * 10 + (c as int - 48));
    if s.len() > 0 {
        assert(is_number(s));
    }
}

/// A plus sign before digits changes nothing; a minus sign turns the value round.
pub proof fn sign_stands_before_the_digits(s: Seq<char>)
    requires
        s.len() > 0,
        forall|i: int| 0 <= i < s.len() ==> '0' <= #[trigger] s[i] <= '9',
    ensures
        i32_value(seq!['+'] + s) == i32_value(s),
        i32_value(s) matches Some(v) ==> i32_value(seq!['-'] + s) == Some((-v) as i32),
        i32_value(s) is None ==> i32_value(seq!['-'] + s) == if number_value(s) == 0x8000_0000 {
            Some(i32::MIN)
        } else {
            None
        },
{
    let plus = seq!['+'] + s;
    let minus = seq!['-'] + s;
    assert(plus.skip(1) =~= s);
    assert(minus.skip(1) =~= s);
    assert forall|i: int| 0 <= i < s.len() implies is_digit(#[trigger] s[i]) by {}
    lemma_number_value_nonnegative(s);
    assert(is_number(s));
    assert(!is_digit(plus[0]));
    assert(!is_digit(minus[0]));
}

/// A text that is empty, that has nothing but a sign, or that has a character which is
/// neither a digit nor a sign at its front, is no number.
pub proof fn other_text_is_no_number(s: Seq<char>, at: int)
    requires
        s.len() == 0 || (s.len() == 1 && !('0' <= s[0] <= '9')) || (0 <= at < s.len() && !('0'
            <= s[at] <= '9') && !(at == 0 && (s[0] == '+' || s[0] == '-'))),
    ensures
        i32_value(s) is None,
{
    if s.len() > 1 {
        assert(!is_digit(s[at]));
        if at > 0 {
            assert(s.skip(1)[at - 1] == s[at]);
        }
    }
}

} // verus!
