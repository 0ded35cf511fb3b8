//! Validation of user-supplied counts.
use vstd::prelude::*;
use vstd::string::StringExecFns;

verus! {

/// Largest count accepted by the validator.
pub const MAX_COUNT: u8 = 100;

/// Values at or above this bound are all treated alike while scanning digits.
const SCAN_CAP: u64 = 0x1_0000_0000;

pub open spec fn is_digit(c: char) -> bool {
    '0' <= c && c <= '9'
}

pub open spec fn digit_value(c: char) -> int {
    (c as int) - ('0' as int)
}

/// A non-empty run of ASCII decimal digits.
pub open spec fn all_digits(s: Seq<char>) -> bool {
    s.len() > 0 && forall|i: int| 0 <= i < s.len() ==> is_digit(#[trigger] s[i])
}

/// The number written by a run of decimal digits.
pub open spec fn digits_value(s: Seq<char>) -> nat
    decreases s.len(),
{
    if s.len() == 0 {
        0
    } else {
        (digits_value(s.drop_last()) * 10 + digit_value(s.last())) as nat
    }
}

/// The digits of an unsigned literal: an optional leading `+` is dropped.
pub open spec fn unsigned_body(s: Seq<char>) -> Seq<char> {
    if s.len() > 0 && s[0] == '+' {
        s.drop_first()
    } else {
        s
    }
}

/// Whether `s` is the decimal text of a `u8`.
pub open spec fn parses_as_u8(s: Seq<char>) -> bool {
    all_digits(unsigned_body(s)) && digits_value(unsigned_body(s)) <= 255
}

/// Whether `s` is the text of an integer of any width: an optional sign
/// followed by decimal digits.
pub open spec fn is_integer_text(s: Seq<char>) -> bool {
    if s.len() > 0 && s[0] == '-' {
        all_digits(s.drop_first())
    } else {
        all_digits(unsigned_body(s))
    }
}

/// Why a count was rejected.
#[derive(Debug, PartialEq, Eq)]
pub enum ValidationError {
    /// The text is not an integer at all; it carries the text.
    NotANumber(String),
    /// The text is an integer, of any width, but not one that fits the count's type.
    TooLarge,
    /// The count is zero.
    ZeroNotAllowed,
    /// The count is above the largest allowed count.
    OutOfRange,
}

/// The value of a text that reads as a `u8`.
pub open spec fn u8_value(s: Seq<char>) -> nat {
    digits_value(unsigned_body(s))
}

/// What the validator returns for the text `s`: the rules are applied in
/// order (not an integer, an integer too large for the count's type, zero, above the
/// largest count), and a text that passes them all yields its value.
pub open spec fn count_result(s: Seq<char>, r: Result<u8, ValidationError>) -> bool {
    match r {
        Ok(v) => parses_as_u8(s) && 1 <= u8_value(s) <= MAX_COUNT && v == u8_value(s),
        Err(ValidationError::NotANumber(t)) => !parses_as_u8(s) && !is_integer_text(s) && t@ == s,
        Err(ValidationError::TooLarge) => !parses_as_u8(s) && is_integer_text(s),
        Err(ValidationError::ZeroNotAllowed) => parses_as_u8(s) && u8_value(s) == 0,
        Err(ValidationError::OutOfRange) => parses_as_u8(s) && u8_value(s) > MAX_COUNT,
    }
}

/// `digits_value` saturated at `SCAN_CAP`.
spec fn capped_value(s: Seq<char>) -> nat {
    if digits_value(s) < SCAN_CAP {
        digits_value(s)
    } else {
        SCAN_CAP as nat
    }
}

proof fn lemma_digits_value_step(s: Seq<char>, i: int, start: int)
    requires
        0 <= start <= i < s.len(),
        is_digit(s[i]),
    ensures
        digits_value(s.subrange(start, i + 1)) == digits_value(s.subrange(start, i)) * 10
            + digit_value(s[i]),
{
    assert(s.subrange(start, i + 1).drop_last() =~= s.subrange(start, i));
    assert(s.subrange(start, i + 1).last() == s[i]);
}

/// Reads the digits of `b[start..]`, where `b` holds the ASCII text `s`.
fn scan_digits(b: &[u8], start: usize, Ghost(s): Ghost<Seq<char>>) -> (r: Option<u64>)
    requires
        b@.len() == s.len(),
        start <= b@.len(),
        forall|i: int| 0 <= i < s.len() ==> b@[i] as int == (#[trigger] s[i]) as int,
    ensures
        r.is_some() == all_digits(s.subrange(start as int, s.len() as int)),
        r.is_some() ==> r.unwrap() == capped_value(s.subrange(start as int, s.len() as int)),
{
    let mut v: u64 = 0;
    let mut i: usize = start;
    while i < b.len()
        invariant
            b@.len() == s.len(),
            start <= i <= b@.len(),
            forall|k: int| 0 <= k < s.len() ==> b@[k] as int == (#[trigger] s[k]) as int,
            forall|k: int| start <= k < i ==> is_digit(#[trigger] s[k]),
            v == capped_value(s.subrange(start as int, i as int)),
        decreases b@.len() - i,
    {
        let c = b[i];
        assert(c as int == s[i as int] as int);
        if c < 48 || c > 57 {
            assert(!is_digit(s.subrange(start as int, s.len() as int)[i - start]));
            return None;
        }
        proof {
            lemma_digits_value_step(s, i as int, start as int);
        }
        let d = (c - 48) as u64;
        assert(d == digit_value(s[i as int]));
        if v < SCAN_CAP {
            v = v * 10 + d;
            if v > SCAN_CAP {
                v = SCAN_CAP;
            }
        }
        i = i + 1;
    }
    if i == start {
        return None;
    }
    assert(forall|k: int| 0 <= k < s.len() - start ==> s.subrange(start as int, s.len() as int)[k]
        == s[k + start]);
    Some(v)
}

/// A text that reads as an integer holds only ASCII characters.
proof fn lemma_numeric_text_is_ascii(s: Seq<char>)
    requires
        parses_as_u8(s) || is_integer_text(s),
    ensures
        forall|i: int| 0 <= i < s.len() ==> '\0' <= #[trigger] s[i] <= '\u{7f}',
{
    assert forall|i: int| 0 <= i < s.len() implies '\0' <= #[trigger] s[i] <= '\u{7f}' by {
        if i > 0 && (s[0] == '+' || s[0] == '-') {
            assert(s.drop_first()[i - 1] == s[i]);
        }
    }
}

/// The text shown to the user for each rejection.
pub open spec fn error_message(e: ValidationError) -> Seq<char> {
    match e {
        ValidationError::NotANumber(t) => "'"@ + t@ + "' is not a valid number"@,
        ValidationError::TooLarge => "Number too large, must be between 1 and 100"@,
        ValidationError::ZeroNotAllowed => "Number of pads cannot be zero"@,
        ValidationError::OutOfRange => "Number of pads must be between 1 and 100"@,
    }
}

impl ValidationError {
    /// The text shown to the user for this rejection.
    pub fn message(&self) -> (r: String)
        ensures
            r@ == error_message(*self),
    {
        match self {
            ValidationError::NotANumber(t) => {
                let mut m = String::from_str("'");
                m.append(t.as_str());
                m.append("' is not a valid number");
                m
            },
            ValidationError::TooLarge => String::from_str(
                "Number too large, must be between 1 and 100",
            ),
            ValidationError::ZeroNotAllowed => String::from_str("Number of pads cannot be zero"),
            ValidationError::OutOfRange => String::from_str(
                "Number of pads must be between 1 and 100",
            ),
        }
    }
}

/// Parses and range-checks a count given as text.
pub fn parse_count(s: &str) -> (r: Result<u8, ValidationError>)
    ensures
        count_result(s@, r),
{
    if !s.is_ascii() {
        proof {
            if parses_as_u8(s@) || is_integer_text(s@) {
                lemma_numeric_text_is_ascii(s@);
            }
        }
        return Err(ValidationError::NotANumber(String::from_str(s)));
    }
    let b = s.as_bytes();
    proof {
        vstd::string::is_ascii_spec_bytes(s);
        assert forall|i: int| 0 <= i < s@.len() implies b@[i] as int == (#[trigger] s@[i]) as int by {
            assert(b@[i] == s@[i] as u8);
        }
        assert(s@.subrange(1, s@.len() as int) =~= s@.drop_first()) by {
            if s@.len() == 0 {
            }
        }
        assert(s@.subrange(0, s@.len() as int) =~= s@);
    }
    let n = b.len();
    let plus = n > 0 && b[0] == 43;
    let minus = n > 0 && b[0] == 45;
    let body = if plus {
        scan_digits(b, 1, Ghost(s@))
    } else {
        scan_digits(b, 0, Ghost(s@))
    };
    let value: u8 = match body {
        Some(v) if v <= 255 => v as u8,
        _ => {
            let integer = if minus {
                scan_digits(b, 1, Ghost(s@)).is_some()
            } else {
                body.is_some()
            };
            if integer {
                return Err(ValidationError::TooLarge);
            } else {
                return Err(ValidationError::NotANumber(String::from_str(s)));
            }
        },
    };
    if value == 0 {
        Err(ValidationError::ZeroNotAllowed)
    } else if value <= MAX_COUNT {
        Ok(value)
    } else {
        Err(ValidationError::OutOfRange)
    }
}

/// Parses a count given as text, reporting a rejection by its message.
pub fn parse_int_arg(s: &str) -> (r: Result<u8, String>)
    ensures
        match r {
            Ok(v) => count_result(s@, Ok(v)),
            Err(m) => exists|e: ValidationError| count_result(s@, Err(e)) && m@ == error_message(e),
        },
{
    match parse_count(s) {
        Ok(v) => Ok(v),
        Err(e) => Err(e.message()),
    }
}

} // verus!
