//! Decimal integers: what a piece of text is worth as a number, and why it
//! is worth nothing when it is not one.

use vstd::prelude::*;

verus! {

/// Why a piece of text is no number.
#[derive(Clone, Copy, Debug, PartialEq, Eq, Structural)]
pub enum IntErrorKind {
    /// There is no text at all.
    Empty,
    /// A character is no decimal digit where one is due; a sign standing
    /// alone counts as one.
    InvalidDigit,
    /// The digits count further up than the number type reaches.
    PosOverflow,
    /// The digits count further down than the number type reaches.
    NegOverflow,
}

/// The decimal digits `0` to `9`.
pub open spec fn is_digit(c: char) -> bool {
    '0' <= c <= '9'
}

/// What a decimal digit is worth.
pub open spec fn digit_value(c: char) -> nat
    recommends
        is_digit(c),
{
    (c as int - '0' as int) as nat
}

/// Whether `s` holds decimal digits only.
pub open spec fn all_digits(s: Seq<char>) -> bool {
    forall|i: int| 0 <= i < s.len() ==> is_digit(#[trigger] s[i])
}

/// What a row of decimal digits is worth, the last digit counting ones.
pub open spec fn digits_value(s: Seq<char>) -> nat
    recommends
        all_digits(s),
    decreases s.len(),
{
    if s.len() == 0 {
        0
    } else {
        10 * digits_value(s.drop_last()) + digit_value(s.last())
    }
}

/// How many decimal digits `s` begins with.
pub open spec fn leading_digits(s: Seq<char>) -> nat
    decreases s.len(),
{
    if s.len() > 0 && is_digit(s.first()) {
        1 + leading_digits(s.drop_first())
    } else {
        0
    }
}

/// Whether `s` begins with `+` or `-`.
pub open spec fn signed(s: Seq<char>) -> bool {
    s.len() > 0 && (s[0] == '+' || s[0] == '-')
}

/// `s` without its sign, if it has one.
pub open spec fn unsigned_part(s: Seq<char>) -> Seq<char> {
    if signed(s) {
        s.drop_first()
    } else {
        s
    }
}

/// The number that `s` writes, or why it writes none.
///
/// A number is an optional sign and then decimal digits, at least one and
/// nothing else, and it lies within `isize`. Text is read from the left:
/// digits that leave the range of `isize` are reported before a character
/// after them that is no digit.
pub open spec fn parse_int(s: Seq<char>) -> Result<int, IntErrorKind> {
    let negative = s.len() > 0 && s[0] == '-';
    let body = unsigned_part(s);
    let run = body.take(leading_digits(body) as int);
    let magnitude = digits_value(run);
    if s.len() == 0 {
        Err(IntErrorKind::Empty)
    } else if body.len() == 0 {
        Err(IntErrorKind::InvalidDigit)
    } else if !negative && magnitude > isize::MAX {
        Err(IntErrorKind::PosOverflow)
    } else if negative && -magnitude < isize::MIN {
        Err(IntErrorKind::NegOverflow)
    } else if run.len() < body.len() {
        Err(IntErrorKind::InvalidDigit)
    } else if negative {
        Ok(-magnitude)
    } else {
        Ok(magnitude as int)
    }
}

/// Whether `s` is written as a decimal integer: an optional sign, then
/// decimal digits, at least one, and nothing else.
pub open spec fn decimal(s: Seq<char>) -> bool {
    unsigned_part(s).len() > 0 && all_digits(unsigned_part(s))
}

/// What a decimal integer is worth.
pub open spec fn decimal_value(s: Seq<char>) -> int
    recommends
        decimal(s),
{
    if s.len() > 0 && s[0] == '-' {
        -digits_value(unsigned_part(s))
    } else {
        digits_value(unsigned_part(s)) as int
    }
}

/// A machine result as contracts see it: the number is an `int`.
pub open spec fn as_int(r: Result<isize, IntErrorKind>) -> Result<int, IntErrorKind> {
    match r {
        Ok(v) => Ok(v as int),
        Err(kind) => Err(kind),
    }
}

/// `leading_digits` counts the digits up to the first place that holds none.
pub proof fn lemma_leading_digits_at(s: Seq<char>, k: int)
    requires
        0 <= k <= s.len(),
        all_digits(s.take(k)),
        k < s.len() ==> !is_digit(s[k]),
    ensures
        leading_digits(s) == k,
    decreases s.len(),
{
    if k > 0 {
        assert(s.take(k)[0] == s[0]);
        let rest = s.drop_first();
        assert(rest.take(k - 1) =~= s.take(k).drop_first());
        lemma_leading_digits_at(rest, k - 1);
    }
}

/// `leading_digits` counts at least the digits that `s` is known to begin with.
pub proof fn lemma_leading_digits_from(s: Seq<char>, k: int)
    requires
        0 <= k <= s.len(),
        all_digits(s.take(k)),
    ensures
        k <= leading_digits(s) <= s.len(),
        all_digits(s.take(leading_digits(s) as int)),
    decreases s.len(),
{
    if s.len() > 0 && is_digit(s.first()) {
        let rest = s.drop_first();
        let j = if k > 0 { k - 1 } else { 0 };
        assert(rest.take(j) =~= s.take(j + 1).drop_first());
        assert forall|i: int| 0 <= i < rest.take(j).len() implies is_digit(#[trigger] rest.take(j)[i]) by {
            assert(rest.take(j)[i] == s.take(k)[i + 1]);
        }
        lemma_leading_digits_from(rest, j);
        let n = leading_digits(rest) as int;
        assert forall|i: int| 0 <= i < s.take(n + 1).len() implies is_digit(#[trigger] s.take(n + 1)[i]) by {
            if i > 0 {
                assert(s.take(n + 1)[i] == rest.take(n)[i - 1]);
            }
        }
    } else if k > 0 {
        assert(s.take(k)[0] == s[0]);
    }
}

/// A row of digits is worth at least as much as any row it begins with.
pub proof fn lemma_digits_value_grows(s: Seq<char>, k: int)
    requires
        0 <= k <= s.len(),
    ensures
        digits_value(s.take(k)) <= digits_value(s),
    decreases s.len() - k,
{
    if k == s.len() {
        assert(s.take(k) =~= s);
    } else {
        lemma_digits_value_grows(s, k + 1);
        assert(s.take(k + 1).drop_last() =~= s.take(k));
    }
}

/// The texts that write a number are the decimal integers within `isize`,
/// and each writes what it is worth.
pub proof fn law_parse_int_reads_decimals(s: Seq<char>)
    ensures
        parse_int(s) is Ok <==> decimal(s) && isize::MIN <= decimal_value(s) <= isize::MAX,
        parse_int(s) matches Ok(v) ==> v == decimal_value(s) && isize::MIN <= v <= isize::MAX,
{
    let body = unsigned_part(s);
    lemma_leading_digits_from(body, 0);
    if decimal(s) {
        lemma_leading_digits_at(body, body.len() as int);
    }
    if leading_digits(body) == body.len() {
        assert(body.take(body.len() as int) =~= body);
    }
}

/// Whether `c` is a decimal digit.
pub fn is_decimal_digit(c: char) -> (b: bool)
    ensures
        b == is_digit(c),
{
    c >= '0' && c <= '9'
}

/// What the decimal digit `c` is worth.
pub fn decimal_digit(c: char) -> (d: usize)
    requires
        is_digit(c),
    ensures
        d == digit_value(c),
        d <= 9,
{
    (c as u32 - '0' as u32) as usize
}

/// Reads the number written in `chars` from place `from` up to place `to`.
pub fn parse_between(chars: &Vec<char>, from: usize, to: usize) -> (r: Result<isize, IntErrorKind>)
    requires
        from <= to <= chars@.len(),
    ensures
        as_int(r) == parse_int(chars@.subrange(from as int, to as int)),
{
    let ghost s = chars@.subrange(from as int, to as int);
    if from == to {
        return Err(IntErrorKind::Empty);
    }
    let first = chars[from];
    let negative = first == '-';
    let start = if first == '+' || first == '-' { from + 1 } else { from };
    let ghost body = unsigned_part(s);
    if start == to {
        return Err(IntErrorKind::InvalidDigit);
    }
    let limit: usize = if negative { isize::MAX as usize + 1 } else { isize::MAX as usize };
    let mut magnitude: usize = 0;
    let mut i = start;
    while i < to
        invariant
            from <= start <= i <= to <= chars@.len(),
            start < to,
            s == chars@.subrange(from as int, to as int),
            body == unsigned_part(s),
            body == chars@.subrange(start as int, to as int),
            negative == (s[0] == '-'),
            all_digits(body.take(i - start)),
            magnitude == digits_value(body.take(i - start)),
            magnitude <= limit,
            limit == if negative { isize::MAX + 1 } else { isize::MAX as int },
        decreases to - i,
    {
        let c = chars[i];
        let ghost k = i - start;
        if !is_decimal_digit(c) {
            proof {
                lemma_leading_digits_at(body, k);
            }
            return Err(IntErrorKind::InvalidDigit);
        }
        let d = decimal_digit(c);
        proof {
            assert(body.take(k + 1).drop_last() =~= body.take(k));
            assert forall|j: int| 0 <= j < body.take(k + 1).len() implies is_digit(
                #[trigger] body.take(k + 1)[j],
            ) by {
                if j < k {
                    assert(body.take(k + 1)[j] == body.take(k)[j]);
                }
            }
        }
        if magnitude > (limit - d) / 10 {
            proof {
                lemma_leading_digits_from(body, k + 1);
                let run = body.take(leading_digits(body) as int);
                lemma_digits_value_grows(run, k + 1);
                assert(run.take(k + 1) =~= body.take(k + 1));
            }
            return Err(if negative { IntErrorKind::NegOverflow } else { IntErrorKind::PosOverflow });
        }
        magnitude = magnitude * 10 + d;
        i = i + 1;
    }
    proof {
        lemma_leading_digits_at(body, to - start);
    }
    if !negative {
        Ok(magnitude as isize)
    } else if magnitude == limit {
        Ok(isize::MIN)
    } else {
        Ok(0 - (magnitude as isize))
    }
}

} // verus!
