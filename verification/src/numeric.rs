//! Unsigned integers to and from text: `from_str_radix` / `str::parse` and
//! decimal formatting (`to_string`, `{}`).

use vstd::prelude::*;

verus! {

/// Why a text is not an unsigned integer (the kinds of
/// `std::num::IntErrorKind` that unsigned parsing produces).
#[derive(Debug, Clone, Copy, PartialEq, Eq, Structural)]
pub enum IntErrorKind {
    /// The text is empty.
    Empty,
    /// A character is not a digit of the radix (a lone or misplaced sign too).
    InvalidDigit,
    /// The value does not fit in the target type.
    PosOverflow,
}

/// The value of `c` as a digit, if it is one in `radix` (`0-9`, then
/// `a-z` / `A-Z` for 10 upwards).
pub open spec fn digit_value(c: char, radix: nat) -> Option<nat> {
    let v: int = if '0' <= c && c <= '9' {
        c as int - '0' as int
    } else if 'a' <= c && c <= 'z' {
        c as int - 'a' as int + 10
    } else if 'A' <= c && c <= 'Z' {
        c as int - 'A' as int + 10
    } else {
        radix as int
    };
    if v < radix {
        Some(v as nat)
    } else {
        None
    }
}

/// The value of a run of digits read left to right, failing at the first
/// character that is not a digit or at the first digit that overflows `max`.
pub open spec fn digits_value(d: Seq<char>, radix: nat, max: nat) -> Result<nat, IntErrorKind>
    decreases d.len(),
{
    if d.len() == 0 {
        Ok(0)
    } else {
        match digits_value(d.drop_last(), radix, max) {
            Err(e) => Err(e),
            Ok(v) => match digit_value(d.last(), radix) {
                None => Err(IntErrorKind::InvalidDigit),
                Some(x) => if v * radix + x > max {
                    Err(IntErrorKind::PosOverflow)
                } else {
                    Ok(v * radix + x)
                },
            },
        }
    }
}

/// `from_str_radix` for an unsigned type whose largest value is `max`: an
/// optional `+` followed by at least one digit.
pub open spec fn parse_unsigned(s: Seq<char>, radix: nat, max: nat) -> Result<nat, IntErrorKind> {
    if s.len() == 0 {
        Err(IntErrorKind::Empty)
    } else if s.len() == 1 && (s[0] == '+' || s[0] == '-') {
        Err(IntErrorKind::InvalidDigit)
    } else if s[0] == '+' {
        digits_value(s.drop_first(), radix, max)
    } else {
        digits_value(s, radix, max)
    }
}

/// The value of `c` as a digit in `radix`.
fn digit_value_exec(c: char, radix: u32) -> (r: Option<u32>)
    requires
        radix <= 36,
    ensures
        r matches Some(v) ==> digit_value(c, radix as nat) == Some(v as nat),
        r is None ==> digit_value(c, radix as nat) is None,
{
    let v: u32 = if '0' <= c && c <= '9' {
        (c as u32) - ('0' as u32)
    } else if 'a' <= c && c <= 'z' {
        (c as u32) - ('a' as u32) + 10
    } else if 'A' <= c && c <= 'Z' {
        (c as u32) - ('A' as u32) + 10
    } else {
        radix
    };
    if v < radix {
        Some(v)
    } else {
        None
    }
}

/// `from_str_radix` for an unsigned type whose largest value is `max`.
pub fn parse_unsigned_exec(s: &[char], radix: u32, max: u32) -> (r: Result<u32, IntErrorKind>)
    requires
        2 <= radix <= 36,
    ensures
        r matches Ok(v) ==> parse_unsigned(s@, radix as nat, max as nat) == Ok::<nat, IntErrorKind>(
            v as nat,
        ),
        r matches Err(e) ==> parse_unsigned(s@, radix as nat, max as nat) == Err::<
            nat,
            IntErrorKind,
        >(e),
{
    let n = s.len();
    if n == 0 {
        return Err(IntErrorKind::Empty);
    }
    if n == 1 && (s[0] == '+' || s[0] == '-') {
        return Err(IntErrorKind::InvalidDigit);
    }
    let start: usize = if s[0] == '+' {
        1
    } else {
        0
    };
    let ghost d = s@.subrange(start as int, n as int);
    assert(d == if s@[0] == '+' {
        s@.drop_first()
    } else {
        s@
    });
    assert(parse_unsigned(s@, radix as nat, max as nat) == digits_value(d, radix as nat, max as nat));
    let mut value: u64 = 0;
    let mut i = start;
    assert(d.take(0) =~= Seq::<char>::empty());
    while i < n
        invariant
            start <= i <= n == s@.len(),
            d == s@.subrange(start as int, n as int),
            parse_unsigned(s@, radix as nat, max as nat) == digits_value(d, radix as nat, max as nat),
            2 <= radix <= 36,
            value <= max,
            digits_value(d.take(i - start), radix as nat, max as nat) == Ok::<nat, IntErrorKind>(
                value as nat,
            ),
        decreases n - i,
    {
        let ghost k = i - start;
        assert(d.take(k + 1).drop_last() == d.take(k));
        assert(d.take(k + 1).last() == s@[i as int]);
        match digit_value_exec(s[i], radix) {
            None => {
                assert(digits_value(d.take(k + 1), radix as nat, max as nat) == Err::<
                    nat,
                    IntErrorKind,
                >(IntErrorKind::InvalidDigit));
                proof {
                    lemma_digits_error_extends(d, k + 1, radix as nat, max as nat);
                }
                return Err(IntErrorKind::InvalidDigit);
            },
            Some(x) => {
                assert(value * (radix as u64) <= (u32::MAX as u64) * 36) by (nonlinear_arith)
                    requires
                        value <= u32::MAX,
                        radix <= 36,
                ;
                let next: u64 = value * (radix as u64) + (x as u64);
                if next > max as u64 {
                    assert(digits_value(d.take(k + 1), radix as nat, max as nat) == Err::<
                        nat,
                        IntErrorKind,
                    >(IntErrorKind::PosOverflow));
                    proof {
                        lemma_digits_error_extends(d, k + 1, radix as nat, max as nat);
                    }
                    return Err(IntErrorKind::PosOverflow);
                }
                value = next;
            },
        }
        i += 1;
    }
    assert(d.take(n - start) == d);
    Ok(value as u32)
}

/// Once a prefix of the digits fails, the whole run fails the same way.
proof fn lemma_digits_error_extends(d: Seq<char>, k: int, radix: nat, max: nat)
    requires
        0 <= k <= d.len(),
        digits_value(d.take(k), radix, max) is Err,
    ensures
        digits_value(d, radix, max) == digits_value(d.take(k), radix, max),
    decreases d.len() - k,
{
    if k < d.len() {
        assert(d.take(k + 1).drop_last() == d.take(k));
        lemma_digits_error_extends(d, k + 1, radix, max);
    } else {
        assert(d.take(k) == d);
    }
}

/// `u32::from_str_radix`.
pub fn parse_u32_radix(s: &[char], radix: u32) -> (r: Result<u32, IntErrorKind>)
    requires
        2 <= radix <= 36,
    ensures
        r matches Ok(v) ==> parse_unsigned(s@, radix as nat, u32::MAX as nat) == Ok::<
            nat,
            IntErrorKind,
        >(v as nat),
        r matches Err(e) ==> parse_unsigned(s@, radix as nat, u32::MAX as nat) == Err::<
            nat,
            IntErrorKind,
        >(e),
{
    parse_unsigned_exec(s, radix, u32::MAX)
}

/// `u16::from_str_radix`.
pub fn parse_u16_radix(s: &[char], radix: u32) -> (r: Result<u16, IntErrorKind>)
    requires
        2 <= radix <= 36,
    ensures
        r matches Ok(v) ==> parse_unsigned(s@, radix as nat, u16::MAX as nat) == Ok::<
            nat,
            IntErrorKind,
        >(v as nat),
        r matches Err(e) ==> parse_unsigned(s@, radix as nat, u16::MAX as nat) == Err::<
            nat,
            IntErrorKind,
        >(e),
{
    match parse_unsigned_exec(s, radix, 0xffff) {
        Ok(v) => Ok(v as u16),
        Err(e) => Err(e),
    }
}

/// `u8::from_str_radix`.
pub fn parse_u8_radix(s: &[char], radix: u32) -> (r: Result<u8, IntErrorKind>)
    requires
        2 <= radix <= 36,
    ensures
        r matches Ok(v) ==> parse_unsigned(s@, radix as nat, u8::MAX as nat) == Ok::<
            nat,
            IntErrorKind,
        >(v as nat),
        r matches Err(e) ==> parse_unsigned(s@, radix as nat, u8::MAX as nat) == Err::<
            nat,
            IntErrorKind,
        >(e),
{
    match parse_unsigned_exec(s, radix, 0xff) {
        Ok(v) => Ok(v as u8),
        Err(e) => Err(e),
    }
}

// ---------------------------------------------------------------------------
// Formatting
// ---------------------------------------------------------------------------

/// The digit character for `d` (`0-9`, then `A-F`).
pub open spec fn digit_char(d: nat) -> char {
    if d == 0 {
        '0'
    } else if d == 1 {
        '1'
    } else if d == 2 {
        '2'
    } else if d == 3 {
        '3'
    } else if d == 4 {
        '4'
    } else if d == 5 {
        '5'
    } else if d == 6 {
        '6'
    } else if d == 7 {
        '7'
    } else if d == 8 {
        '8'
    } else if d == 9 {
        '9'
    } else if d == 10 {
        'A'
    } else if d == 11 {
        'B'
    } else if d == 12 {
        'C'
    } else if d == 13 {
        'D'
    } else if d == 14 {
        'E'
    } else {
        'F'
    }
}

/// The decimal notation of `n` (what `to_string` and `{}` give).
pub open spec fn decimal(n: nat) -> Seq<char>
    decreases n,
{
    if n < 10 {
        seq![digit_char(n)]
    } else {
        decimal(n / 10).push(digit_char(n % 10))
    }
}

/// The upper-case hexadecimal notation of `n` with exactly `width` digits
/// (the higher digits of `n` dropped, zeros added in front).
pub open spec fn hex_digits(n: nat, width: nat) -> Seq<char>
    decreases width,
{
    if width == 0 {
        Seq::empty()
    } else {
        hex_digits(n / 16, (width - 1) as nat).push(digit_char(n % 16))
    }
}

fn digit_char_exec(d: u32) -> (c: char)
    requires
        d < 10,
    ensures
        c == digit_char(d as nat),
{
    match d {
        0 => '0',
        1 => '1',
        2 => '2',
        3 => '3',
        4 => '4',
        5 => '5',
        6 => '6',
        7 => '7',
        8 => '8',
        _ => '9',
    }
}

/// The decimal notation of `n`.
pub fn decimal_exec(n: u32) -> (v: Vec<char>)
    ensures
        v@ == decimal(n as nat),
    decreases n,
{
    if n < 10 {
        let mut v = Vec::new();
        v.push(digit_char_exec(n));
        assert(v@ =~= seq![digit_char(n as nat)]);
        v
    } else {
        let mut v = decimal_exec(n / 10);
        v.push(digit_char_exec(n % 10));
        v
    }
}

// ---------------------------------------------------------------------------
// Laws
// ---------------------------------------------------------------------------

/// Every digit character is a digit of its own value.
pub proof fn lemma_digit_char_value(d: nat, radix: nat)
    requires
        d < radix,
        d < 16,
    ensures
        digit_value(digit_char(d), radix) == Some(d),
{
}

/// The decimal notation of `n` starts with a digit and is never empty.
pub proof fn lemma_decimal_shape(n: nat)
    ensures
        decimal(n).len() >= 1,
        '0' <= decimal(n)[0] <= '9',
        forall|i: int| 0 <= i < decimal(n).len() ==> '0' <= #[trigger] decimal(n)[i] <= '9',
    decreases n,
{
    if n >= 10 {
        lemma_decimal_shape(n / 10);
        let s = decimal(n);
        assert forall|i: int| 0 <= i < s.len() implies '0' <= #[trigger] s[i] <= '9' by {
            if i < s.len() - 1 {
                assert(s[i] == decimal(n / 10)[i]);
            }
        }
    }
}

/// Reading back the decimal digits of `n` gives `n`.
pub proof fn lemma_decimal_digits_value(n: nat, max: nat)
    requires
        n <= max,
    ensures
        digits_value(decimal(n), 10, max) == Ok::<nat, IntErrorKind>(n),
    decreases n,
{
    if n < 10 {
        let s = decimal(n);
        assert(s.drop_last() =~= Seq::<char>::empty());
        assert(s.last() == digit_char(n));
        lemma_digit_char_value(n, 10);
        assert(digits_value(s.drop_last(), 10, max) == Ok::<nat, IntErrorKind>(0));
        assert(0 * 10 + n == n);
    } else {
        lemma_decimal_digits_value(n / 10, max);
        lemma_digit_char_value(n % 10, 10);
        assert(decimal(n).drop_last() == decimal(n / 10));
        assert(decimal(n).last() == digit_char(n % 10));
        assert((n / 10) * 10 + n % 10 == n) by (nonlinear_arith);
    }
}

/// Decimal formatting and parsing are inverse: `parse::<T>()` of
/// `n.to_string()` is `Ok(n)` for every `n` of the type.
pub proof fn law_parse_decimal_roundtrip(n: nat, max: nat)
    requires
        n <= max,
    ensures
        parse_unsigned(decimal(n), 10, max) == Ok::<nat, IntErrorKind>(n),
{
    lemma_decimal_shape(n);
    lemma_decimal_digits_value(n, max);
}

/// Reading back `width` hexadecimal digits of `n < 16^width` gives `n`.
pub proof fn lemma_hex_digits_value(n: nat, width: nat, max: nat)
    requires
        n <= max,
        n < pow16(width),
    ensures
        digits_value(hex_digits(n, width), 16, max) == Ok::<nat, IntErrorKind>(n),
        hex_digits(n, width).len() == width,
    decreases width,
{
    if width == 0 {
        assert(pow16(0) == 1);
    } else {
        let w1 = (width - 1) as nat;
        assert(pow16(width) == 16 * pow16(w1));
        assert(n / 16 < pow16(w1)) by (nonlinear_arith)
            requires
                n < 16 * pow16(w1),
        ;
        assert(n / 16 <= n) by (nonlinear_arith);
        lemma_hex_digits_value(n / 16, w1, max);
        lemma_digit_char_value(n % 16, 16);
        assert(hex_digits(n, width).drop_last() == hex_digits(n / 16, w1));
        assert(hex_digits(n, width).last() == digit_char(n % 16));
        assert((n / 16) * 16 + n % 16 == n) by (nonlinear_arith);
    }
}

/// `16` to the power `w`.
pub open spec fn pow16(w: nat) -> nat
    decreases w,
{
    if w == 0 {
        1
    } else {
        16 * pow16((w - 1) as nat)
    }
}

/// Hexadecimal digits are ASCII letters or digits, never a sign or a separator.
pub proof fn lemma_hex_digits_chars(n: nat, width: nat)
    ensures
        forall|i: int|
            0 <= i < hex_digits(n, width).len() ==> {
                let c = #[trigger] hex_digits(n, width)[i];
                ('0' <= c <= '9') || ('A' <= c <= 'F')
            },
    decreases width,
{
    if width > 0 {
        lemma_hex_digits_chars(n / 16, (width - 1) as nat);
        let s = hex_digits(n, width);
        assert forall|i: int| 0 <= i < s.len() implies {
            let c = #[trigger] s[i];
            ('0' <= c <= '9') || ('A' <= c <= 'F')
        } by {
            if i < s.len() - 1 {
                assert(s[i] == hex_digits(n / 16, (width - 1) as nat)[i]);
            }
        }
    }
}

} // verus!
