//! Decimal rendering and parsing of unsigned integers, as `Display` and
//! `str::parse::<u64>` do them.
use vstd::prelude::*;

use crate::text::{chars_of, owned};

verus! {

/// Whether `c` is an ASCII decimal digit.
pub open spec fn is_digit(c: char) -> bool {
    '0' <= c && c <= '9'
}

/// The value of the decimal digit `c`.
pub open spec fn digit_value(c: char) -> nat {
    ((c as u32) - ('0' as u32)) as nat
}

/// The character of the decimal digit `d` (`d < 10`).
pub open spec fn digit_char(d: nat) -> char {
    ((d + ('0' as u32)) as u32) as char
}

/// The decimal notation of `n`, most significant digit first, without
/// leading zeros (`"0"` for zero).
pub open spec fn decimal(n: nat) -> Seq<char>
    decreases n,
{
    if n < 10 {
        seq![digit_char(n)]
    } else {
        decimal(n / 10).push(digit_char(n % 10))
    }
}

/// Why a string is not the decimal notation of a `u64`; these are the kinds
/// of `std::num::ParseIntError` that parsing a `u64` can give.
#[derive(Debug, Clone, Copy, PartialEq, Eq)]
pub enum IntErrorKind {
    Empty,
    InvalidDigit,
    PosOverflow,
}

/// Reads the digits of `body` left to right onto the running value `acc`:
/// the first character that is not a digit is an invalid digit, and a
/// running value above `u64::MAX` is an overflow, whichever comes first
/// (a non-digit wins over an overflow at the same character).
pub open spec fn read_digits(body: Seq<char>, acc: nat) -> Result<nat, IntErrorKind>
    decreases body.len(),
{
    if body.len() == 0 {
        Ok(acc)
    } else if !is_digit(body[0]) {
        Err(IntErrorKind::InvalidDigit)
    } else if acc * 10 + digit_value(body[0]) > u64::MAX {
        Err(IntErrorKind::PosOverflow)
    } else {
        read_digits(body.drop_first(), acc * 10 + digit_value(body[0]))
    }
}

/// What `s.parse::<u64>()` gives: an empty string is refused, one leading
/// `'+'` is allowed when digits follow it, and the rest must be decimal
/// digits whose value fits in a `u64`.
pub open spec fn parse_u64_spec(s: Seq<char>) -> Result<u64, IntErrorKind> {
    if s.len() == 0 {
        Err(IntErrorKind::Empty)
    } else if s[0] == '+' && s.len() == 1 {
        Err(IntErrorKind::InvalidDigit)
    } else {
        let body = if s[0] == '+' {
            s.drop_first()
        } else {
            s
        };
        match read_digits(body, 0) {
            Ok(v) => Ok(v as u64),
            Err(e) => Err(e),
        }
    }
}

/// The text that `Display` gives for a parse error of this kind.
pub open spec fn int_error_text(k: IntErrorKind) -> Seq<char> {
    match k {
        IntErrorKind::Empty => "cannot parse integer from empty string"@,
        IntErrorKind::InvalidDigit => "invalid digit found in string"@,
        IntErrorKind::PosOverflow => "number too large to fit in target type"@,
    }
}

/// The message of a parse error of this kind, as `ParseIntError` displays it.
pub fn int_error_message(k: IntErrorKind) -> (res: String)
    ensures
        res@ == int_error_text(k),
{
    match k {
        IntErrorKind::Empty => owned("cannot parse integer from empty string"),
        IntErrorKind::InvalidDigit => owned("invalid digit found in string"),
        IntErrorKind::PosOverflow => owned("number too large to fit in target type"),
    }
}

proof fn lemma_digit_char(d: nat)
    requires
        d < 10,
    ensures
        is_digit(digit_char(d)),
        digit_value(digit_char(d)) == d,
        digit_char(d) != '+',
        digit_char(d) != '@',
{
}

/// The decimal notation of `n` is a non-empty run of digits.
pub proof fn lemma_decimal_digits(n: nat)
    ensures
        decimal(n).len() >= 1,
        forall|i: int| 0 <= i < decimal(n).len() ==> is_digit(#[trigger] decimal(n)[i]),
    decreases n,
{
    if n < 10 {
        lemma_digit_char(n);
    } else {
        lemma_decimal_digits(n / 10);
        lemma_digit_char(n % 10);
        assert forall|i: int| 0 <= i < decimal(n).len() implies is_digit(#[trigger] decimal(n)[i]) by {
            if i < decimal(n / 10).len() {
                assert(decimal(n)[i] == decimal(n / 10)[i]);
            }
        }
    }
}

/// Reading `s + t` is reading `s`, then reading `t` from where `s` left off.
proof fn lemma_read_digits_concat(s: Seq<char>, t: Seq<char>, acc: nat)
    ensures
        read_digits(s + t, acc) == match read_digits(s, acc) {
            Ok(v) => read_digits(t, v),
            Err(e) => Err(e),
        },
    decreases s.len(),
{
    if s.len() == 0 {
        assert(s + t == t);
    } else {
        assert((s + t)[0] == s[0]);
        assert((s + t).drop_first() == s.drop_first() + t);
        lemma_read_digits_concat(s.drop_first(), t, acc * 10 + digit_value(s[0]));
    }
}

/// Reading the decimal notation of a `u64` gives back its value.
pub proof fn lemma_read_decimal(n: nat)
    requires
        n <= u64::MAX,
    ensures
        read_digits(decimal(n), 0) == Ok::<nat, IntErrorKind>(n),
    decreases n,
{
    reveal_with_fuel(read_digits, 2);
    if n < 10 {
        lemma_digit_char(n);
        let s = decimal(n);
        assert(s.drop_first().len() == 0);
    } else {
        lemma_read_decimal(n / 10);
        lemma_digit_char(n % 10);
        let d = seq![digit_char(n % 10)];
        assert(decimal(n) == decimal(n / 10) + d);
        lemma_read_digits_concat(decimal(n / 10), d, 0);
        assert(d.drop_first().len() == 0);
        assert(d[0] == digit_char(n % 10));
        assert((n / 10) * 10 + n % 10 == n);
        assert(read_digits(d, n / 10) == Ok::<nat, IntErrorKind>(n));
    }
}

/// Parsing what `u64` renders in decimal gives the number back.
pub proof fn lemma_parse_decimal_round_trip(n: u64)
    ensures
        parse_u64_spec(decimal(n as nat)) == Ok::<u64, IntErrorKind>(n),
{
    lemma_decimal_digits(n as nat);
    lemma_read_decimal(n as nat);
    let s = decimal(n as nat);
    assert(is_digit(s[0]));
}

/// The character of a decimal digit below ten.
fn digit_to_char(d: u64) -> (c: char)
    requires
        d < 10,
    ensures
        c == digit_char(d as nat),
{
    let b: u8 = 48 + d as u8;
    b as char
}

/// Appends the decimal notation of `n` to `out`.
pub fn push_decimal(out: &mut String, n: u64)
    ensures
        final(out)@ == old(out)@ + decimal(n as nat),
    decreases n,
{
    if n >= 10 {
        push_decimal(out, n / 10);
    }
    let c = digit_to_char(n % 10);
    out.push(c);
    proof {
        if n < 10 {
            assert(decimal(n as nat) == seq![digit_char(n as nat)]);
        }
    }
}

/// The decimal notation of `n` (`n.to_string()`).
pub fn u64_to_decimal(n: u64) -> (res: String)
    ensures
        res@ == decimal(n as nat),
{
    let mut out = String::new();
    push_decimal(&mut out, n);
    assert(out@ == Seq::<char>::empty() + decimal(n as nat));
    out
}

/// `s.parse::<u64>()`, with the error reduced to its kind.
pub fn parse_u64(s: &str) -> (res: Result<u64, IntErrorKind>)
    ensures
        res == parse_u64_spec(s@),
{
    let cs = chars_of(s);
    if cs.len() == 0 {
        return Err(IntErrorKind::Empty);
    }
    if cs[0] == '+' && cs.len() == 1 {
        return Err(IntErrorKind::InvalidDigit);
    }
    let start: usize = if cs[0] == '+' {
        1
    } else {
        0
    };
    let ghost body = if s@[0] == '+' {
        s@.drop_first()
    } else {
        s@
    };
    assert(body == s@.skip(start as int));
    let mut acc: u64 = 0;
    let mut i: usize = start;
    assert(s@.skip(i as int) == body);
    while i < cs.len()
        invariant
            cs@ == s@,
            start <= i <= cs.len(),
            body == s@.skip(start as int),
            s@.len() > 0,
            !(s@[0] == '+' && s@.len() == 1),
            body == (if s@[0] == '+' { s@.drop_first() } else { s@ }),
            read_digits(body, 0) == read_digits(s@.skip(i as int), acc as nat),
        decreases cs.len() - i,
    {
        let c = cs[i];
        let ghost rest = s@.skip(i as int);
        assert(rest[0] == c);
        assert(rest.drop_first() == s@.skip(i + 1));
        if !('0' <= c && c <= '9') {
            assert(read_digits(rest, acc as nat) == Err::<nat, IntErrorKind>(IntErrorKind::InvalidDigit));
            return Err(IntErrorKind::InvalidDigit);
        }
        let d: u64 = (c as u32 - '0' as u32) as u64;
        let m = acc.checked_mul(10);
        match m {
            None => {
                assert(read_digits(rest, acc as nat) == Err::<nat, IntErrorKind>(IntErrorKind::PosOverflow));
                return Err(IntErrorKind::PosOverflow);
            },
            Some(m) => {
                match m.checked_add(d) {
                    None => {
                        assert(read_digits(rest, acc as nat) == Err::<nat, IntErrorKind>(IntErrorKind::PosOverflow));
                        return Err(IntErrorKind::PosOverflow);
                    },
                    Some(v) => {
                        acc = v;
                    },
                }
            },
        }
        i = i + 1;
    }
    assert(s@.skip(i as int).len() == 0);
    Ok(acc)
}

} // verus!
