//! Token text handling: decimal number parsing, canonical decimal rendering,
//! and character-wise string comparison.

use vstd::prelude::*;
use vstd::string::StrSliceExecFns;
use vstd::string::StringExecFns;

verus! {

/// Error raised when a token cannot be read as a number.
#[derive(Debug, Copy, Clone, PartialEq, Eq)]
pub enum ParseNumErr {
    /// The token is empty.
    Empty,
    /// A character is not a decimal digit, or no digit follows the sign.
    InvalidDigit,
    /// The number does not fit in the requested range.
    OutOfRange,
}

/// Whether `c` is a decimal digit (`'0'` to `'9'`).
pub open spec fn is_dec_digit(c: char) -> bool {
    48 <= c as int && c as int <= 57
}

/// Numeric value of the decimal digit `c`.
pub open spec fn digit_val(c: char) -> int {
    c as int - 48
}

/// Whether every character of `s` is a decimal digit.
pub open spec fn all_digits(s: Seq<char>) -> bool {
    forall|i: int| 0 <= i < s.len() ==> is_dec_digit(#[trigger] s[i])
}

/// Value of a non-empty digit string read in base 10; 0 for the empty string.
pub open spec fn digits_val(s: Seq<char>) -> int
    decreases s.len(),
{
    if s.len() == 0 {
        0
    } else {
        10 * digits_val(s.drop_last()) + digit_val(s.last())
    }
}

/// What parsing `s` as a decimal integer within `[lo, hi]` yields: an
/// optional single `+` or `-` sign followed by one or more digits, whose
/// signed value must lie within the range.
pub open spec fn spec_parse_int(s: Seq<char>, lo: int, hi: int) -> Result<int, ParseNumErr> {
    if s.len() == 0 {
        Err(ParseNumErr::Empty)
    } else {
        let neg = s[0] == '-';
        let ds = if s[0] == '-' || s[0] == '+' {
            s.skip(1)
        } else {
            s
        };
        if ds.len() == 0 {
            Err(ParseNumErr::InvalidDigit)
        } else if !all_digits(ds) {
            Err(ParseNumErr::InvalidDigit)
        } else {
            let v = if neg {
                -digits_val(ds)
            } else {
                digits_val(ds)
            };
            if lo <= v <= hi {
                Ok(v)
            } else {
                Err(ParseNumErr::OutOfRange)
            }
        }
    }
}

/// What parsing `s` as an unsigned decimal integer bounded by `hi` yields: an
/// optional single `+` sign followed by one or more digits.
pub open spec fn spec_parse_uint(s: Seq<char>, hi: int) -> Result<int, ParseNumErr> {
    if s.len() == 0 {
        Err(ParseNumErr::Empty)
    } else {
        let ds = if s[0] == '+' {
            s.skip(1)
        } else {
            s
        };
        if ds.len() == 0 {
            Err(ParseNumErr::InvalidDigit)
        } else if !all_digits(ds) {
            Err(ParseNumErr::InvalidDigit)
        } else if digits_val(ds) <= hi {
            Ok(digits_val(ds))
        } else {
            Err(ParseNumErr::OutOfRange)
        }
    }
}

/// The value of a digit string is never negative.
proof fn lemma_digits_val_nonneg(s: Seq<char>)
    requires
        all_digits(s),
    ensures
        digits_val(s) >= 0,
    decreases s.len(),
{
    if s.len() > 0 {
        lemma_digits_val_nonneg(s.drop_last());
    }
}

/// Dropping trailing digits never increases the value of a digit string.
proof fn lemma_digits_val_prefix(s: Seq<char>, i: int)
    requires
        all_digits(s),
        0 <= i <= s.len(),
    ensures
        digits_val(s.subrange(0, i)) <= digits_val(s),
    decreases s.len() - i,
{
    if i < s.len() {
        lemma_digits_val_prefix(s, i + 1);
        let p = s.subrange(0, i + 1);
        assert(p.drop_last() =~= s.subrange(0, i));
        lemma_digits_val_nonneg(s.subrange(0, i));
    } else {
        assert(s.subrange(0, i) =~= s);
    }
}

/// Compares two strings character by character.
pub fn str_eq(a: &str, b: &str) -> (r: bool)
    ensures
        r == (a@ == b@),
{
    let la = a.unicode_len();
    let lb = b.unicode_len();
    if la != lb {
        return false;
    }
    let mut i: usize = 0;
    while i < la
        invariant
            la == a@.len(),
            la == b@.len(),
            0 <= i <= la,
            forall|j: int| 0 <= j < i ==> a@[j] == b@[j],
        decreases la - i,
    {
        if a.get_char(i) != b.get_char(i) {
            return false;
        }
        i += 1;
    }
    proof {
        assert(a@ =~= b@);
    }
    true
}

/// Parses `s` as a signed decimal integer and checks it against `[lo, hi]`.
pub fn parse_int_in_range(s: &str, lo: i64, hi: i64) -> (r: Result<i64, ParseNumErr>)
    requires
        lo <= 0 <= hi,
    ensures
        match r {
            Ok(v) => spec_parse_int(s@, lo as int, hi as int) == Ok::<int, ParseNumErr>(v as int),
            Err(e) => spec_parse_int(s@, lo as int, hi as int) == Err::<int, ParseNumErr>(e),
        },
{
    let len = s.unicode_len();
    if len == 0 {
        return Err(ParseNumErr::Empty);
    }
    let first = s.get_char(0);
    let neg = first == '-';
    let start: usize = if neg || first == '+' {
        1
    } else {
        0
    };
    let ghost ds = if start == 1 {
        s@.skip(1)
    } else {
        s@
    };
    if start == len {
        return Err(ParseNumErr::InvalidDigit);
    }
    // First pass: every remaining character must be a digit.
    let mut i: usize = start;
    while i < len
        invariant
            len == s@.len(),
            start <= i <= len,
            start == 0 || start == 1,
            start < len,
            (start == 1) == (s@[0] == '-' || s@[0] == '+'),
            neg == (s@[0] == '-'),
            ds == (if start == 1 { s@.skip(1) } else { s@ }),
            forall|j: int| start <= j < i ==> is_dec_digit(#[trigger] s@[j]),
        decreases len - i,
    {
        let c = s.get_char(i);
        let cv = c as u32;
        if cv < 48 || cv > 57 {
            proof {
                assert(ds.len() == len - start > 0);
                assert(ds[i - start as int] == s@[i as int]);
                assert(!is_dec_digit(ds[i - start as int]));
                assert(!all_digits(ds));
                assert(s@.len() != 0);
            }
            return Err(ParseNumErr::InvalidDigit);
        }
        i += 1;
    }
    assert(forall|j: int| 0 <= j < ds.len() ==> is_dec_digit(#[trigger] ds[j]));
    // Second pass: accumulate the value, negated so that the most negative
    // representable value can be reached.
    let mut acc: i64 = 0;
    let mut k: usize = start;
    while k < len
        invariant
            len == s@.len(),
            start <= k <= len,
            start == 0 || start == 1,
            start < len,
            (start == 1) == (s@[0] == '-' || s@[0] == '+'),
            neg == (s@[0] == '-'),
            ds == (if start == 1 { s@.skip(1) } else { s@ }),
            all_digits(ds),
            lo <= 0 <= hi,
            acc == -digits_val(s@.subrange(start as int, k as int)),
        decreases len - k,
    {
        let c = s.get_char(k);
        let ghost pre = s@.subrange(start as int, k as int);
        let ghost cur = s@.subrange(start as int, k as int + 1);
        proof {
            assert(ds[k - start as int] == s@[k as int]);
            assert(is_dec_digit(s@[k as int]));
            assert(cur.drop_last() =~= pre);
            assert(ds.subrange(0, k - start as int) =~= pre);
            assert(ds.subrange(0, k + 1 - start as int) =~= cur);
            lemma_digits_val_nonneg(pre);
        }
        let d = (c as u32 - 48) as i64;
        assert(0 <= d <= 9 && d == digit_val(s@[k as int]));
        assert(digits_val(cur) == 10 * digits_val(pre) + d);
        let step = match acc.checked_mul(10) {
            Some(a10) => a10.checked_sub(d),
            None => None,
        };
        match step {
            Some(a) => {
                acc = a;
            },
            None => {
                // The digits read so far already exceed the representable
                // magnitude, so the full value lies outside [lo, hi].
                proof {
                    assert(10 * acc - d < i64::MIN);
                    assert(digits_val(cur) > -(i64::MIN as int));
                    lemma_digits_val_prefix(ds, k + 1 - start as int);
                    assert(digits_val(ds) >= digits_val(cur));
                }
                return Err(ParseNumErr::OutOfRange);
            },
        }
        k += 1;
    }
    proof {
        assert(s@.subrange(start as int, len as int) =~= ds);
        lemma_digits_val_nonneg(ds);
    }
    if neg {
        if acc >= lo {
            Ok(acc)
        } else {
            Err(ParseNumErr::OutOfRange)
        }
    } else {
        if acc >= -hi {
            Ok(-acc)
        } else {
            Err(ParseNumErr::OutOfRange)
        }
    }
}

/// Parses `s` as an unsigned decimal integer that must fit in `usize`.
pub fn parse_usize(s: &str) -> (r: Result<usize, ParseNumErr>)
    ensures
        match r {
            Ok(v) => spec_parse_uint(s@, usize::MAX as int) == Ok::<int, ParseNumErr>(v as int),
            Err(e) => spec_parse_uint(s@, usize::MAX as int) == Err::<int, ParseNumErr>(e),
        },
{
    let len = s.unicode_len();
    if len == 0 {
        return Err(ParseNumErr::Empty);
    }
    let first = s.get_char(0);
    let start: usize = if first == '+' {
        1
    } else {
        0
    };
    let ghost ds = if start == 1 {
        s@.skip(1)
    } else {
        s@
    };
    if start == len {
        return Err(ParseNumErr::InvalidDigit);
    }
    let mut i: usize = start;
    while i < len
        invariant
            len == s@.len(),
            start <= i <= len,
            start == 0 || start == 1,
            start < len,
            (start == 1) == (s@[0] == '+'),
            ds == (if start == 1 { s@.skip(1) } else { s@ }),
            forall|j: int| start <= j < i ==> is_dec_digit(#[trigger] s@[j]),
        decreases len - i,
    {
        let c = s.get_char(i);
        let cv = c as u32;
        if cv < 48 || cv > 57 {
            proof {
                assert(ds.len() == len - start > 0);
                assert(ds[i - start as int] == s@[i as int]);
                assert(!is_dec_digit(ds[i - start as int]));
                assert(!all_digits(ds));
                assert(s@.len() != 0);
            }
            return Err(ParseNumErr::InvalidDigit);
        }
        i += 1;
    }
    assert(forall|j: int| 0 <= j < ds.len() ==> is_dec_digit(#[trigger] ds[j]));
    let mut acc: usize = 0;
    let mut k: usize = start;
    while k < len
        invariant
            len == s@.len(),
            start <= k <= len,
            start == 0 || start == 1,
            start < len,
            (start == 1) == (s@[0] == '+'),
            ds == (if start == 1 { s@.skip(1) } else { s@ }),
            all_digits(ds),
            acc == digits_val(s@.subrange(start as int, k as int)),
        decreases len - k,
    {
        let c = s.get_char(k);
        let ghost pre = s@.subrange(start as int, k as int);
        let ghost cur = s@.subrange(start as int, k as int + 1);
        proof {
            assert(ds[k - start as int] == s@[k as int]);
            assert(is_dec_digit(s@[k as int]));
            assert(cur.drop_last() =~= pre);
            assert(ds.subrange(0, k - start as int) =~= pre);
            assert(ds.subrange(0, k + 1 - start as int) =~= cur);
            lemma_digits_val_nonneg(pre);
        }
        let d = (c as u32 - 48) as usize;
        assert(0 <= d <= 9 && d == digit_val(s@[k as int]));
        assert(digits_val(cur) == 10 * digits_val(pre) + d);
        let step = match acc.checked_mul(10) {
            Some(a10) => a10.checked_add(d),
            None => None,
        };
        match step {
            Some(a) => {
                acc = a;
            },
            None => {
                proof {
                    assert(10 * acc + d > usize::MAX);
                    assert(digits_val(cur) > usize::MAX);
                    lemma_digits_val_prefix(ds, k + 1 - start as int);
                    assert(digits_val(ds) >= digits_val(cur));
                }
                return Err(ParseNumErr::OutOfRange);
            },
        }
        k += 1;
    }
    proof {
        assert(s@.subrange(start as int, len as int) =~= ds);
        lemma_digits_val_nonneg(ds);
    }
    Ok(acc)
}

/// The decimal digit character for a value between 0 and 9.
pub open spec fn digit_char(d: int) -> char {
    if d == 0 {
        '0'
    } else if d == 1 {
        '1'
    } else if d == 2 {
        '2'
    } else if d == 3 {
        '3'
    } else if d == 4 {
        '4'
    } else if d == 5 {
        '5'
    } else if d == 6 {
        '6'
    } else if d == 7 {
        '7'
    } else if d == 8 {
        '8'
    } else {
        '9'
    }
}

/// Canonical decimal text of a non-negative value: no sign, no leading zero
/// except for the value 0 itself.
pub open spec fn spec_uint_text(n: int) -> Seq<char>
    decreases n,
{
    if n < 10 {
        seq![digit_char(n)]
    } else {
        spec_uint_text(n / 10).push(digit_char(n % 10))
    }
}

/// Canonical decimal text of a signed value: a `-` sign for negative values,
/// then the digits of the magnitude.
pub open spec fn spec_int_text(v: int) -> Seq<char> {
    if v < 0 {
        seq!['-'] + spec_uint_text(-v)
    } else {
        spec_uint_text(v)
    }
}

/// The single-character string for a decimal digit.
fn digit_str(d: u64) -> (r: &'static str)
    requires
        d < 10,
    ensures
        r@ == seq![digit_char(d as int)],
{
    let r: &'static str = if d == 0 {
        "0"
    } else if d == 1 {
        "1"
    } else if d == 2 {
        "2"
    } else if d == 3 {
        "3"
    } else if d == 4 {
        "4"
    } else if d == 5 {
        "5"
    } else if d == 6 {
        "6"
    } else if d == 7 {
        "7"
    } else if d == 8 {
        "8"
    } else {
        "9"
    };
    proof {
        reveal_strlit("0");
        reveal_strlit("1");
        reveal_strlit("2");
        reveal_strlit("3");
        reveal_strlit("4");
        reveal_strlit("5");
        reveal_strlit("6");
        reveal_strlit("7");
        reveal_strlit("8");
        reveal_strlit("9");
        assert(r@ =~= seq![digit_char(d as int)]);
    }
    r
}

/// Renders a non-negative value as canonical decimal text.
pub fn uint_text(n: u64) -> (s: String)
    ensures
        s@ == spec_uint_text(n as int),
    decreases n,
{
    if n < 10 {
        String::from_str(digit_str(n))
    } else {
        let mut s = uint_text(n / 10);
        s.append(digit_str(n % 10));
        assert(s@ =~= spec_uint_text(n as int));
        s
    }
}

/// Renders a signed value as canonical decimal text.
pub fn int_text(v: i64) -> (s: String)
    ensures
        s@ == spec_int_text(v as int),
{
    if v < 0 {
        let wide: i128 = -(v as i128);
        let mag: u64 = wide as u64;
        let mut s = String::from_str("-");
        s.append(uint_text(mag).as_str());
        proof {
            reveal_strlit("-");
            assert(s@ =~= spec_int_text(v as int));
        }
        s
    } else {
        uint_text(v as u64)
    }
}

} // verus!


verus! {

/// Canonical token text: types whose values have a single textual form,
/// used when an expression is rendered back to its surface form.
pub trait Render {
    /// The canonical text of this value.
    spec fn spec_text(&self) -> Seq<char>;

    /// Produces the canonical text of this value.
    fn render(&self) -> (s: String)
        ensures
            s@ == self.spec_text(),
    ;
}

} // verus!

verus! {

/// The digit character of `d` reads back as `d`.
proof fn lemma_digit_char_val(d: int)
    requires
        0 <= d <= 9,
    ensures
        is_dec_digit(digit_char(d)),
        digit_val(digit_char(d)) == d,
{
}

/// The canonical decimal text of a non-negative value is one or more digits
/// whose value is that value.
pub proof fn lemma_uint_text_digits(n: int)
    requires
        n >= 0,
    ensures
        all_digits(spec_uint_text(n)),
        digits_val(spec_uint_text(n)) == n,
        spec_uint_text(n).len() >= 1,
    decreases n,
{
    if n < 10 {
        lemma_digit_char_val(n);
        let s = spec_uint_text(n);
        assert(s.drop_last() =~= Seq::<char>::empty());
        assert(digits_val(Seq::<char>::empty()) == 0);
        assert(s.last() == digit_char(n));
        assert forall|i: int| 0 <= i < s.len() implies is_dec_digit(#[trigger] s[i]) by {
            assert(s[i] == digit_char(n));
        }
    } else {
        lemma_uint_text_digits(n / 10);
        lemma_digit_char_val(n % 10);
        let t = spec_uint_text(n / 10);
        let s = spec_uint_text(n);
        assert(s.drop_last() =~= t);
        assert(s.last() == digit_char(n % 10));
        assert(digits_val(s) == 10 * digits_val(t) + digit_val(digit_char(n % 10)));
        assert forall|i: int| 0 <= i < s.len() implies is_dec_digit(#[trigger] s[i]) by {
            if i < t.len() {
                assert(s[i] == t[i]);
            } else {
                assert(s[i] == digit_char(n % 10));
            }
        }
    }
}

/// Round trip for non-negative numbers: the canonical decimal text of a
/// value within the range parses back to that value.
pub proof fn lemma_uint_text_round_trip(v: int, hi: int)
    requires
        0 <= v <= hi,
    ensures
        spec_parse_uint(spec_uint_text(v), hi) == Ok::<int, ParseNumErr>(v),
{
    lemma_uint_text_digits(v);
    let s = spec_uint_text(v);
    assert(is_dec_digit(s[0]));
    assert(s[0] != '+') by {
        assert('+' as int == 43);
    }
}

/// Round trip for signed numbers: the canonical decimal text of a value
/// within the range parses back to that value.
pub proof fn lemma_int_text_round_trip(v: int, lo: int, hi: int)
    requires
        lo <= v <= hi,
        lo <= 0 <= hi,
    ensures
        spec_parse_int(spec_int_text(v), lo, hi) == Ok::<int, ParseNumErr>(v),
{
    if v >= 0 {
        lemma_uint_text_digits(v);
        let s = spec_int_text(v);
        assert(is_dec_digit(s[0]));
        assert(s[0] != '+' && s[0] != '-') by {
            assert('+' as int == 43);
            assert('-' as int == 45);
        }
    } else {
        lemma_uint_text_digits(-v);
        let m = spec_uint_text(-v);
        let s = spec_int_text(v);
        assert(s[0] == '-');
        assert(s.skip(1) =~= m);
    }
}

} // verus!
