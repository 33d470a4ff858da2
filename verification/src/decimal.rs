//! Decimal text for `u8` values: parsing with the error kinds of the
//! standard library's integer parser, and formatting.

use vstd::prelude::*;
use vstd::string::*;

verus! {

/// Why a text is not a `u8` in decimal notation.
#[derive(Debug, Clone, Copy, PartialEq, Eq, Structural)]
pub enum U8ParseError {
    /// The text is empty.
    Empty,
    /// The text holds a character that is not a decimal digit where one is expected.
    InvalidDigit,
    /// The digits denote a number larger than 255.
    PosOverflow,
}

pub open spec fn is_digit(c: char) -> bool {
    '0' <= c && c <= '9'
}

pub open spec fn digit_value(c: char) -> nat {
    (c as int - '0' as int) as nat
}

pub open spec fn all_digits(d: Seq<char>) -> bool {
    forall|i: int| 0 <= i < d.len() ==> #[trigger] is_digit(d[i])
}

/// The number that a sequence of decimal digits denotes (most significant first).
pub open spec fn digits_value(d: Seq<char>) -> nat
    decreases d.len(),
{
    if d.len() == 0 {
        0
    } else {
        digits_value(d.drop_last()) * 10 + digit_value(d.last())
    }
}

/// Some run of leading digits already denotes a number above 255.
pub open spec fn overflows_u8(d: Seq<char>) -> bool {
    exists|k: int| 0 <= k <= d.len() && all_digits(#[trigger] d.take(k)) && digits_value(d.take(k)) > 255
}

/// The digits after an optional leading `+`.
pub open spec fn unsigned_digits(s: Seq<char>) -> Seq<char> {
    if s.len() > 0 && s[0] == '+' {
        s.drop_first()
    } else {
        s
    }
}

/// What parsing `s` as a `u8` gives: an optional `+` followed by decimal
/// digits; a lone sign is an invalid digit; a digit run that exceeds 255
/// before any non-digit is reached is an overflow.
pub open spec fn spec_parse_u8(s: Seq<char>) -> Result<u8, U8ParseError> {
    if s.len() == 0 {
        Err(U8ParseError::Empty)
    } else if s =~= seq!['+'] || s =~= seq!['-'] {
        Err(U8ParseError::InvalidDigit)
    } else if overflows_u8(unsigned_digits(s)) {
        Err(U8ParseError::PosOverflow)
    } else if all_digits(unsigned_digits(s)) {
        Ok(digits_value(unsigned_digits(s)) as u8)
    } else {
        Err(U8ParseError::InvalidDigit)
    }
}

/// The characters of a string slice, in order.
pub fn chars_of(s: &str) -> (v: Vec<char>)
    ensures
        v@ == s@,
{
    let mut v: Vec<char> = Vec::new();
    for c in it: s.chars()
        invariant
            v@ == it.seq().take(it.index()),
            it.seq() == s@,
    {
        v.push(c);
    }
    v
}

/// A run of leading digits never denotes more than the whole digit sequence.
proof fn lemma_prefix_value_le(d: Seq<char>, k: int)
    requires
        all_digits(d),
        0 <= k <= d.len(),
    ensures
        digits_value(d.take(k)) <= digits_value(d),
    decreases d.len(),
{
    if k < d.len() {
        let p = d.drop_last();
        assert(all_digits(p)) by {
            assert forall|i: int| 0 <= i < p.len() implies #[trigger] is_digit(p[i]) by {
                assert(is_digit(d[i]));
            }
        }
        lemma_prefix_value_le(p, k);
        assert(p.take(k) =~= d.take(k));
    } else {
        assert(d.take(k) =~= d);
    }
}

/// Digits that stop at a non-digit (or at the end) while denoting at most 255
/// never overflow.
proof fn lemma_no_overflow(d: Seq<char>, j: int)
    requires
        0 <= j <= d.len(),
        all_digits(d.take(j)),
        digits_value(d.take(j)) <= 255,
        j == d.len() || !is_digit(d[j]),
    ensures
        !overflows_u8(d),
{
    assert forall|k: int| 0 <= k <= d.len() && all_digits(#[trigger] d.take(k)) implies digits_value(d.take(k)) <= 255 by {
        if k > j {
            assert(d.take(k)[j] == d[j]);
            assert(is_digit(d.take(k)[j]));
        }
        assert(d.take(j).take(k) =~= d.take(k));
        lemma_prefix_value_le(d.take(j), k);
    }
}

impl U8ParseError {
    /// The standard library's text for this kind of integer-parse failure.
    pub fn message(&self) -> (r: &'static str)
        ensures
            r@ == match *self {
                U8ParseError::Empty => "cannot parse integer from empty string"@,
                U8ParseError::InvalidDigit => "invalid digit found in string"@,
                U8ParseError::PosOverflow => "number too large to fit in target type"@,
            },
    {
        match self {
            U8ParseError::Empty => "cannot parse integer from empty string",
            U8ParseError::InvalidDigit => "invalid digit found in string",
            U8ParseError::PosOverflow => "number too large to fit in target type",
        }
    }
}

/// Parses `s` as a `u8` in decimal notation, with an optional leading `+`.
pub fn parse_u8(s: &str) -> (r: Result<u8, U8ParseError>)
    ensures
        r == spec_parse_u8(s@),
{
    let v = chars_of(s);
    let n = v.len();
    if n == 0 {
        return Err(U8ParseError::Empty);
    }
    if n == 1 && (v[0] == '+' || v[0] == '-') {
        assert(s@ =~= seq![v@[0]]);
        return Err(U8ParseError::InvalidDigit);
    }
    assert(!(s@ =~= seq!['+']) && !(s@ =~= seq!['-'])) by {
        if n == 1 {
            assert(s@[0] != '+' && s@[0] != '-');
        } else {
            assert(s@.len() != 1);
        }
    }
    let start: usize = if v[0] == '+' { 1 } else { 0 };
    let ghost d = unsigned_digits(s@);
    assert(d =~= v@.subrange(start as int, n as int));
    let mut acc: u32 = 0;
    let mut i: usize = start;
    assert(d.take(0) =~= Seq::<char>::empty());
    while i < n
        invariant
            start <= i <= n,
            n == v@.len(),
            v@ == s@,
            s@.len() > 0,
            !(s@ =~= seq!['+']) && !(s@ =~= seq!['-']),
            d == unsigned_digits(s@),
            d =~= v@.subrange(start as int, n as int),
            all_digits(d.take(i - start)),
            acc == digits_value(d.take(i - start)),
            acc <= 255,
        decreases n - i,
    {
        let c = v[i];
        let ghost j = i - start;
        assert(d[j] == c);
        if !('0' <= c && c <= '9') {
            proof {
                lemma_no_overflow(d, j);
                assert(!is_digit(d[j]));
                assert(!all_digits(d));
            }
            return Err(U8ParseError::InvalidDigit);
        }
        let dig: u32 = (c as u32) - ('0' as u32);
        let next: u32 = acc * 10 + dig;
        assert(d.take(j + 1).drop_last() =~= d.take(j));
        assert(all_digits(d.take(j + 1))) by {
            assert forall|t: int| 0 <= t < j + 1 implies #[trigger] is_digit(d.take(j + 1)[t]) by {
                if t < j {
                    assert(d.take(j + 1)[t] == d.take(j)[t]);
                }
            }
        }
        if next > 255 {
            assert(overflows_u8(d)) by {
                assert(0 <= j + 1 <= d.len() && all_digits(d.take(j + 1)) && digits_value(d.take(j + 1)) > 255);
            }
            return Err(U8ParseError::PosOverflow);
        }
        acc = next;
        i = i + 1;
    }
    proof {
        let j = i - start;
        assert(d.take(j) =~= d);
        lemma_no_overflow(d, j);
    }
    Ok(acc as u8)
}

/// The character of the decimal digit `n` (for `n < 10`).
pub open spec fn digit_char(n: nat) -> char {
    (n + '0' as nat) as char
}

/// The decimal notation of `n`, most significant digit first, without
/// leading zeros (`0` is the single digit `0`).
pub open spec fn decimal_digits(n: nat) -> Seq<char>
    decreases n,
{
    if n < 10 {
        seq![digit_char(n)]
    } else {
        decimal_digits(n / 10).push(digit_char(n % 10))
    }
}

/// The one-character string of the decimal digit `d`.
fn digit_str(d: u8) -> (r: &'static str)
    requires
        d < 10,
    ensures
        r@ == seq![digit_char(d as nat)],
{
    let digits = "0123456789";
    proof {
        reveal_strlit("0123456789");
    }
    let r = digits.substring_char(d as usize, d as usize + 1);
    assert(r@ =~= seq![digit_char(d as nat)]);
    r
}

/// The decimal notation of `n`, as the standard library's `to_string` writes it.
pub fn u8_to_decimal(n: u8) -> (r: String)
    ensures
        r@ == decimal_digits(n as nat),
{
    let mut r = String::new();
    if n >= 100 {
        r.append(digit_str(n / 100));
    }
    if n >= 10 {
        r.append(digit_str((n / 10) % 10));
    }
    r.append(digit_str(n % 10));
    proof {
        reveal_with_fuel(decimal_digits, 3);
        if n >= 100 {
            assert(decimal_digits(n as nat / 10 / 10) =~= seq![digit_char((n / 100) as nat)]);
            assert(decimal_digits(n as nat / 10) =~= seq![digit_char((n / 100) as nat), digit_char(((n / 10) % 10) as nat)]);
        } else if n >= 10 {
            assert(decimal_digits(n as nat / 10) =~= seq![digit_char(((n / 10) % 10) as nat)]);
        }
    }
    r
}

proof fn lemma_decimal_digits(n: nat)
    ensures
        all_digits(decimal_digits(n)),
        digits_value(decimal_digits(n)) == n,
        decimal_digits(n).len() > 0,
    decreases n,
{
    let d = decimal_digits(n);
    assert(digit_value(digit_char(n % 10)) == n % 10);
    if n < 10 {
        assert(d.drop_last() =~= Seq::<char>::empty());
        assert(is_digit(d[0]));
        assert(n % 10 == n);
        assert(digits_value(d) == digits_value(d.drop_last()) * 10 + digit_value(d.last()));
    } else {
        lemma_decimal_digits(n / 10);
        let p = decimal_digits(n / 10);
        assert(d.drop_last() =~= p);
        assert(n == (n / 10) * 10 + n % 10);
        assert(d.last() == digit_char(n % 10));
        assert(digits_value(d) == digits_value(p) * 10 + digit_value(d.last()));
        assert forall|i: int| 0 <= i < d.len() implies #[trigger] is_digit(d[i]) by {
            if i < p.len() {
                assert(d[i] == p[i]);
            }
        }
    }
}

/// Formatting a `u8` in decimal and parsing the text back gives the same
/// value: what a threshold field shows reads back as the threshold.
pub proof fn law_parse_of_decimal(n: u8)
    ensures
        spec_parse_u8(decimal_digits(n as nat)) == Ok::<u8, U8ParseError>(n),
{
    let d = decimal_digits(n as nat);
    lemma_decimal_digits(n as nat);
    assert(is_digit(d[0]));
    assert(unsigned_digits(d) == d);
    assert(!(d =~= seq!['+']) && !(d =~= seq!['-'])) by {
        if d =~= seq!['+'] || d =~= seq!['-'] {
            assert(d[0] == '+' || d[0] == '-');
        }
    }
    assert(d.take(d.len() as int) =~= d);
    lemma_no_overflow(d, d.len() as int);
}

/// Decimal text in canonical form: digits only, and no leading zero unless
/// the text is the single digit `0`.
pub open spec fn is_canonical_decimal(d: Seq<char>) -> bool {
    &&& d.len() > 0
    &&& all_digits(d)
    &&& (d[0] == '0' ==> d.len() == 1)
}

proof fn lemma_canonical_decimal(d: Seq<char>)
    requires
        is_canonical_decimal(d),
    ensures
        decimal_digits(digits_value(d)) == d,
    decreases d.len(),
{
    let c = d.last();
    assert(is_digit(c));
    assert(digit_char(digit_value(c)) == c);
    if d.len() == 1 {
        assert(d.drop_last() =~= Seq::<char>::empty());
        assert(digits_value(d) == digit_value(c));
        assert(decimal_digits(digit_value(c)) =~= d);
    } else {
        let p = d.drop_last();
        assert(p[0] == d[0]);
        assert(all_digits(p)) by {
            assert forall|i: int| 0 <= i < p.len() implies #[trigger] is_digit(p[i]) by {
                assert(is_digit(d[i]));
            }
        }
        assert(is_digit(d[0]));
        lemma_canonical_decimal(p);
        // The leading digit is not zero, so `p` denotes at least 1.
        assert(digits_value(p) >= 1) by {
            lemma_prefix_value_le(p, 1);
            assert(p.take(1).drop_last() =~= Seq::<char>::empty());
            assert(p.take(1).last() == d[0]);
        }
        let v = digits_value(d);
        let pv = digits_value(p);
        let dv = digit_value(c);
        assert(v == pv * 10 + dv);
        assert(dv < 10);
        assert(v / 10 == pv && v % 10 == dv) by (nonlinear_arith)
            requires
                v == pv * 10 + dv,
                0 <= dv < 10,
                pv >= 0,
        ;
        assert(decimal_digits(v) == decimal_digits(v / 10).push(digit_char(v % 10)));
        assert(d =~= p.push(c));
    }
}

/// Canonical decimal text that parses as a `u8` is the decimal notation of
/// that value: reading a threshold and showing it again gives the same text.
pub proof fn law_decimal_of_parse(d: Seq<char>, w: u8)
    requires
        is_canonical_decimal(d),
        spec_parse_u8(d) == Ok::<u8, U8ParseError>(w),
    ensures
        decimal_digits(w as nat) == d,
{
    assert(is_digit(d[0]));
    assert(unsigned_digits(d) == d);
    assert(!(d =~= seq!['+']) && !(d =~= seq!['-'])) by {
        if d =~= seq!['+'] || d =~= seq!['-'] {
            assert(d[0] == '+' || d[0] == '-');
        }
    }
    assert(d.take(d.len() as int) =~= d);
    assert(digits_value(d) <= 255) by {
        if digits_value(d) > 255 {
            assert(overflows_u8(d));
        }
    }
    lemma_canonical_decimal(d);
}

/// Reads the text of a threshold entry field as a `u8`; on failure the error
/// names the text that could not be read.
pub fn gstring_to_u8(text: &str) -> (r: Result<u8, String>)
    ensures
        match spec_parse_u8(text@) {
            Ok(v) => r == Ok::<u8, String>(v),
            Err(_) => r matches Err(m) && m@ == "Failed to convert '"@ + text@ + "' to u8"@,
        },
{
    match parse_u8(text) {
        Ok(value) => Ok(value),
        Err(_) => {
            let mut m = String::from_str("Failed to convert '");
            m.append(text);
            m.append("' to u8");
            Err(m)
        },
    }
}

} // verus!
