//! Decimal numerals: how numbers are written into texts and read back from them.
use vstd::prelude::*;

use crate::text::{characters, code_point};

verus! {

/// The numeral for a number below ten.
pub open spec fn digit_char(d: int) -> char {
    ('0' as int + d) as char
}

pub open spec fn is_digit(c: char) -> bool {
    '0' as int <= c as int <= '9' as int
}

pub open spec fn digit_value(c: char) -> int {
    c as int - '0' as int
}

/// `n` in decimal notation, without leading zeros.
pub open spec fn decimal(n: nat) -> Seq<char>
    decreases n,
{
    if n < 10 {
        seq![digit_char(n as int)]
    } else {
        decimal(n / 10).push(digit_char((n % 10) as int))
    }
}

/// `n` in decimal notation, with a minus sign where it is negative.
pub open spec fn signed_decimal(n: int) -> Seq<char> {
    if n < 0 {
        seq!['-'] + decimal((-n) as nat)
    } else {
        decimal(n as nat)
    }
}

pub open spec fn all_digits(s: Seq<char>) -> bool {
    forall|i: int| 0 <= i < s.len() ==> is_digit(#[trigger] s[i])
}

/// The number that the digits of `s` denote.
pub open spec fn digits_value(s: Seq<char>) -> int
    decreases s.len(),
{
    if s.len() == 0 {
        0
    } else {
        digits_value(s.drop_last()) * 10 + digit_value(s.last())
    }
}

/// The number that `s` denotes, where it is a non-empty run of digits.
pub open spec fn numeral(s: Seq<char>) -> Option<int> {
    if s.len() > 0 && all_digits(s) {
        Some(digits_value(s))
    } else {
        None
    }
}

/// The number that `s` denotes, where it is a run of digits, possibly behind a plus sign, and
/// the number is at most `limit`.
pub open spec fn unsigned_value(s: Seq<char>, limit: int) -> Option<int> {
    let body = if s.len() > 0 && s[0] == '+' {
        s.drop_first()
    } else {
        s
    };
    match numeral(body) {
        Some(n) => if n <= limit {
            Some(n)
        } else {
            None
        },
        None => None,
    }
}

/// The number that `s` denotes, where it is a run of digits, possibly behind a plus or a minus
/// sign, and the number lies in the range of `i32`.
pub open spec fn signed_value(s: Seq<char>) -> Option<int> {
    let negative = s.len() > 0 && s[0] == '-';
    let body = if s.len() > 0 && (s[0] == '+' || s[0] == '-') {
        s.drop_first()
    } else {
        s
    };
    match numeral(body) {
        Some(n) => {
            let value = if negative {
                -n
            } else {
                n
            };
            if i32::MIN <= value <= i32::MAX {
                Some(value)
            } else {
                None
            }
        },
        None => None,
    }
}

// ---------------------------------------------------------------------------
// Facts
// ---------------------------------------------------------------------------
/// Reading the decimal notation of a number gives the number back.
pub proof fn decimal_reads_back(n: nat)
    ensures
        numeral(decimal(n)) == Some(n as int),
    decreases n,
{
    if n < 10 {
        let s = decimal(n);
        assert(s.drop_last() =~= seq![]);
        assert(digits_value(s.drop_last()) == 0);
    } else {
        decimal_reads_back(n / 10);
        let s = decimal(n);
        assert(s.drop_last() =~= decimal(n / 10));
        assert forall|i: int| 0 <= i < s.len() implies is_digit(#[trigger] s[i]) by {
            if i < s.len() - 1 {
                assert(s[i] == decimal(n / 10)[i]);
            }
        }
    }
}

/// Different numbers have different decimal notations.
pub proof fn decimal_is_injective(m: nat, n: nat)
    requires
        decimal(m) == decimal(n),
    ensures
        m == n,
{
    decimal_reads_back(m);
    decimal_reads_back(n);
}

/// The value of a run of digits is not negative.
pub proof fn digits_value_is_natural(s: Seq<char>)
    requires
        all_digits(s),
    ensures
        digits_value(s) >= 0,
    decreases s.len(),
{
    if s.len() > 0 {
        assert(is_digit(s[s.len() - 1]));
        assert forall|i: int| 0 <= i < s.drop_last().len() implies is_digit(
            #[trigger] s.drop_last()[i],
        ) by {
            assert(s.drop_last()[i] == s[i]);
        }
        digits_value_is_natural(s.drop_last());
    }
}

// ---------------------------------------------------------------------------
// Executable operations
// ---------------------------------------------------------------------------
fn write_digit(d: u64) -> (c: char)
    requires
        d < 10,
    ensures
        c == digit_char(d as int),
{
    if d == 0 {
        '0'
    } else if d == 1 {
        '1'
    } else if d == 2 {
        '2'
    } else if d == 3 {
        '3'
    } else if d == 4 {
        '4'
    } else if d == 5 {
        '5'
    } else if d == 6 {
        '6'
    } else if d == 7 {
        '7'
    } else if d == 8 {
        '8'
    } else {
        '9'
    }
}

/// `n` in decimal notation.
pub fn write_decimal(n: u64) -> (s: String)
    ensures
        s@ == decimal(n as nat),
    decreases n,
{
    if n < 10 {
        let mut s = String::new();
        s.push(write_digit(n));
        s
    } else {
        let mut s = write_decimal(n / 10);
        s.push(write_digit(n % 10));
        s
    }
}

/// `n` in decimal notation, with its sign.
pub fn write_signed(n: i64) -> (s: String)
    ensures
        s@ == signed_decimal(n as int),
{
    if n >= 0 {
        write_decimal(n as u64)
    } else {
        let mut s = String::new();
        s.push('-');
        // The magnitude of the least `i64` is one more than the greatest `i64`.
        let magnitude: u64 = (-(n + 1)) as u64 + 1;
        let rest = write_decimal(magnitude);
        s.append(rest.as_str());
        s
    }
}

/// The number that `chars[from..]` denotes, where it is a non-empty run of digits and the
/// number is at most `limit`.
fn read_digits(chars: &Vec<char>, from: usize, limit: u64) -> (r: Option<u64>)
    requires
        from <= chars@.len(),
    ensures
        match r {
            Some(n) => numeral(chars@.skip(from as int)) == Some(n as int) && n <= limit,
            None => match numeral(chars@.skip(from as int)) {
                Some(n) => n > limit,
                None => true,
            },
        },
{
    let ghost body = chars@.skip(from as int);
    if from == chars.len() {
        return None;
    }
    let mut value: u64 = 0;
    let mut i: usize = from;
    // Once the value is past the limit only the remaining characters matter.
    let mut over: bool = false;
    while i < chars.len()
        invariant
            from <= i <= chars@.len(),
            body == chars@.skip(from as int),
            all_digits(body.take(i - from)),
            !over ==> value == digits_value(body.take(i - from)) && value <= limit,
            over ==> digits_value(body.take(i - from)) > limit,
        decreases chars@.len() - i,
    {
        let c = chars[i];
        let ghost k = (i - from) as int;
        proof {
            assert(body[k] == chars@[i as int]);
            assert(body.take(k + 1).drop_last() =~= body.take(k));
            assert(body.take(k + 1).last() == body[k]);
        }
        let n: u32 = code_point(c);
        if n < 48 || n > 57 {
            proof {
                assert(!is_digit(body[k]));
            }
            return None;
        }
        let d: u64 = (n - 48) as u64;
        proof {
            assert forall|j: int| 0 <= j < body.take(k + 1).len() implies is_digit(
                #[trigger] body.take(k + 1)[j],
            ) by {
                if j < k {
                    assert(body.take(k + 1)[j] == body.take(k)[j]);
                }
            }
            digits_value_is_natural(body.take(k));
        }
        if !over {
            if d > limit || value > (limit - d) / 10 {
                over = true;
            } else {
                value = value * 10 + d;
            }
        }
        i += 1;
    }
    proof {
        assert(body.take(body.len() as int) =~= body);
    }
    if over {
        None
    } else {
        Some(value)
    }
}

/// The number that `s` denotes, where it is a run of digits, possibly behind a plus sign, and
/// the number is at most `limit`.
pub fn read_unsigned(s: &str, limit: u64) -> (r: Option<u64>)
    ensures
        match r {
            Some(n) => unsigned_value(s@, limit as int) == Some(n as int),
            None => unsigned_value(s@, limit as int) is None,
        },
{
    let chars = characters(s);
    let from: usize = if chars.len() > 0 && chars[0] == '+' {
        1
    } else {
        0
    };
    proof {
        assert(chars@.skip(0) =~= s@);
        if chars@.len() > 0 {
            assert(chars@.skip(1) =~= s@.drop_first());
        }
    }
    read_digits(&chars, from, limit)
}

/// The `i32` that `s` denotes, where it is a run of digits, possibly behind a sign.
pub fn read_signed(s: &str) -> (r: Option<i32>)
    ensures
        match r {
            Some(n) => signed_value(s@) == Some(n as int),
            None => signed_value(s@) is None,
        },
{
    let chars = characters(s);
    let negative = chars.len() > 0 && chars[0] == '-';
    let from: usize = if chars.len() > 0 && (chars[0] == '+' || chars[0] == '-') {
        1
    } else {
        0
    };
    proof {
        assert(chars@.skip(0) =~= s@);
        if chars@.len() > 0 {
            assert(chars@.skip(1) =~= s@.drop_first());
        }
    }
    let limit: u64 = if negative {
        0x8000_0000
    } else {
        0x7fff_ffff
    };
    match read_digits(&chars, from, limit) {
        Some(n) => if negative {
            Some((-(n as i64)) as i32)
        } else {
            Some(n as i32)
        },
        None => None,
    }
}

/// The figures are the ten characters from 0 to 9, and count from nought to nine.
pub proof fn figures_count_from_nought_to_nine(c: char, d: int)
    ensures
        is_digit(c) <==> 48 <= c as int <= 57,
        is_digit(c) ==> 0 <= digit_value(c) <= 9 && digit_char(digit_value(c)) == c,
        0 <= d <= 9 ==> is_digit(digit_char(d)) && digit_value(digit_char(d)) == d,
        digit_value('0') == 0,
        digit_value('9') == 9,
{
}

/// A figure at the end of a number counts once and makes all before it count ten times as much; a
/// nought at the front does not count.
pub proof fn figures_count_by_their_place(s: Seq<char>, c: char)
    ensures
        digits_value(seq![]) == 0,
        is_digit(c) ==> digits_value(s.push(c)) == 10 * digits_value(s) + (c as int - 48),
        digits_value(seq!['0'] + s) == digits_value(s),
    decreases s.len(),
{
    assert(s.push(c).drop_last() =~= s);
    let zero = seq!['0'] + s;
    if s.len() == 0 {
        assert(zero.drop_last() =~= seq![]);
    } else {
        figures_count_by_their_place(s.drop_last(), c);
        assert(zero.drop_last() =~= seq!['0'] + s.drop_last());
        assert(zero.last() == s.last());
    }
}

/// A number is written with figures alone, and without a nought at the front unless it is nought.
pub proof fn numbers_are_written_without_noughts_in_front(n: nat)
    ensures
        decimal(n).len() > 0,
        all_digits(decimal(n)),
        n > 0 ==> decimal(n)[0] != '0',
        n < 10 ==> decimal(n).len() == 1,
        n >= 10 ==> decimal(n).len() == decimal(n / 10).len() + 1,
        signed_decimal(n as int) == decimal(n),
        n > 0 ==> signed_decimal(-(n as int)) == seq!['-'] + decimal(n),
    decreases n,
{
    decimal_reads_back(n);
    if n >= 10 {
        numbers_are_written_without_noughts_in_front(n / 10);
    }
}

/// A text is a number only where it is not empty and holds nothing but figures.
pub proof fn numerals_hold_only_figures(s: Seq<char>, i: int)
    ensures
        numeral(seq![]) is None,
        0 <= i < s.len() && !is_digit(s[i]) ==> numeral(s) is None,
        s.len() > 0 && all_digits(s) ==> numeral(s) == Some(digits_value(s)),
{
}

/// A number without a sign may have a plus before it, which changes nothing, and counts up to the
/// limit.
pub proof fn unsigned_numbers_count_up_to_the_limit(s: Seq<char>, limit: int, n: int)
    requires
        s.len() > 0 ==> s[0] != '+',
    ensures
        unsigned_value(seq!['+'] + s, limit) == unsigned_value(s, limit),
        unsigned_value(s, limit) == Some(n) <==> numeral(s) == Some(n) && n <= limit,
        s.len() > 0 && s[0] == '-' ==> unsigned_value(s, limit) is None,
{
    assert((seq!['+'] + s).drop_first() =~= s);
    if s.len() > 0 && s[0] == '-' {
        assert(!is_digit(s[0]));
    }
}

/// A number with a sign is that number, or its opposite behind a minus, where thirty-two bits hold
/// it.
pub proof fn signed_numbers_have_the_sign_in_front(s: Seq<char>, n: int)
    requires
        numeral(s) == Some(n),
    ensures
        n <= 2_147_483_647 ==> signed_value(s) == Some(n) && signed_value(seq!['+'] + s) == Some(n),
        n > 2_147_483_647 ==> signed_value(s) is None && signed_value(seq!['+'] + s) is None,
        n <= 2_147_483_648 ==> signed_value(seq!['-'] + s) == Some(-n),
        n > 2_147_483_648 ==> signed_value(seq!['-'] + s) is None,
{
    assert(is_digit(s[0]));
    digits_value_is_natural(s);
    assert((seq!['+'] + s).drop_first() =~= s);
    assert((seq!['-'] + s).drop_first() =~= s);
}

/// What is no number is none behind a sign either.
pub proof fn signs_make_no_numbers(s: Seq<char>)
    requires
        numeral(s) is None,
    ensures
        signed_value(seq!['+'] + s) is None,
        signed_value(seq!['-'] + s) is None,
        s.len() == 0 || s[0] != '+' && s[0] != '-' ==> signed_value(s) is None,
{
    assert((seq!['+'] + s).drop_first() =~= s);
    assert((seq!['-'] + s).drop_first() =~= s);
}

} // verus!
