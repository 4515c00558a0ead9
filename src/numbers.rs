//! Amounts written in decimal or in `0x` hexadecimal, and their canonical hexadecimal form.

use vstd::prelude::*;

use crate::error::CliError;
use crate::text::{digit_char, hex_value, is_dec_digit, is_hex_digit, push_char};

verus! {

/// A digit of the given base (ten or sixteen).
pub open spec fn is_digit_of(c: char, base: nat) -> bool {
    if base == 10 {
        is_dec_digit(c)
    } else {
        is_hex_digit(c)
    }
}

/// Every character is a digit of the base.
pub open spec fn all_digits(s: Seq<char>, base: nat) -> bool {
    forall|i: int| 0 <= i < s.len() ==> is_digit_of(#[trigger] s[i], base)
}

/// The value of a sequence of digits, most significant first.
pub open spec fn digits_value(s: Seq<char>, base: nat) -> nat
    decreases s.len(),
{
    if s.len() == 0 {
        0
    } else {
        digits_value(s.drop_last(), base) * base + hex_value(s.last())
    }
}

/// The digits after an optional leading `+`.
pub open spec fn unsigned_part(s: Seq<char>) -> Seq<char> {
    if s.len() > 0 && s[0] == '+' {
        s.skip(1)
    } else {
        s
    }
}

/// The value written by at least one digit of the base and nothing else, when it fits in 64
/// bits.
pub open spec fn parse_plain_digits(d: Seq<char>, base: nat) -> Option<nat> {
    if d.len() > 0 && all_digits(d, base) && digits_value(d, base) <= u64::MAX {
        Some(digits_value(d, base))
    } else {
        None
    }
}

/// The value written by at least one digit of the base, after an optional `+`, when it fits
/// in 64 bits.
pub open spec fn parse_digits(s: Seq<char>, base: nat) -> Option<nat> {
    parse_plain_digits(unsigned_part(s), base)
}

/// An amount: `0x` followed by hexadecimal digits only, or else decimal digits after an
/// optional `+`.
pub open spec fn parse_amount(s: Seq<char>) -> Option<nat> {
    if s.len() >= 2 && s[0] == '0' && s[1] == 'x' {
        parse_plain_digits(s.skip(2), 16)
    } else {
        parse_digits(s, 10)
    }
}

/// The digits of `n` in the base, most significant first, without leading zeros.
pub open spec fn digits_text(n: nat, base: nat) -> Seq<char>
    decreases n,
    via digits_text_decreases
{
    if base < 2 {
        Seq::empty()
    } else if n < base {
        seq![digit_char(n)]
    } else {
        digits_text(n / base, base).push(digit_char(n % base))
    }
}

#[via_fn]
proof fn digits_text_decreases(n: nat, base: nat) {
    if base >= 2 && n >= base {
        assert(n / base < n) by (nonlinear_arith)
            requires
                base >= 2,
                n >= base,
        ;
    }
}

/// `0x` followed by the lower-case hexadecimal digits of `n`.
pub open spec fn hex_amount(n: nat) -> Seq<char> {
    seq!['0', 'x'] + digits_text(n, 16)
}

proof fn lemma_value_grows(s: Seq<char>, k: int, base: nat)
    requires
        0 <= k <= s.len(),
        base >= 1,
    ensures
        digits_value(s.take(k), base) <= digits_value(s, base),
    decreases s.len(),
{
    if k < s.len() {
        assert(s.drop_last().take(k) =~= s.take(k));
        lemma_value_grows(s.drop_last(), k, base);
        let v = digits_value(s.drop_last(), base);
        assert(v <= v * base) by (nonlinear_arith)
            requires
                base >= 1,
        ;
    } else {
        assert(s.take(k) =~= s);
    }
}

/// The value of the digits of `s` from `from` on, when it fits in 64 bits.
fn digits_from(s: &str, from: usize, base: u64) -> (r: Option<u64>)
    requires
        from <= s@.len(),
        base == 10 || base == 16,
        all_digits(s@.skip(from as int), base as nat),
    ensures
        match r {
            Some(v) => v == digits_value(s@.skip(from as int), base as nat),
            None => digits_value(s@.skip(from as int), base as nat) > u64::MAX,
        },
{
    let n = s.unicode_len();
    let ghost d = s@.skip(from as int);
    let mut acc: u64 = 0;
    let mut i = from;
    while i < n
        invariant
            from <= i <= n,
            n == s@.len(),
            d == s@.skip(from as int),
            base == 10 || base == 16,
            all_digits(d, base as nat),
            acc == digits_value(d.take(i - from), base as nat),
        decreases n - i,
    {
        let c = s.get_char(i);
        assert(c == d[i - from]);
        let v: u64 = if '0' <= c && c <= '9' {
            (c as u32 - '0' as u32) as u64
        } else if 'a' <= c && c <= 'f' {
            (c as u32 - 'a' as u32 + 10) as u64
        } else {
            (c as u32 - 'A' as u32 + 10) as u64
        };
        assert(v == hex_value(c));
        assert(v < base) by {
            assert(is_digit_of(d[i - from], base as nat));
        }
        assert(d.take(i - from + 1).drop_last() =~= d.take(i - from));
        if acc > (u64::MAX - v) / base {
            assert(acc * base + v > u64::MAX) by (nonlinear_arith)
                requires
                    acc > (u64::MAX as int - v as int) / (base as int),
                    base > 0,
                    v < base,
            ;
            proof {
                lemma_value_grows(d, i - from + 1, base as nat);
            }
            return None;
        }
        assert(acc * base + v <= u64::MAX) by (nonlinear_arith)
            requires
                acc <= (u64::MAX as int - v as int) / (base as int),
                base > 0,
                v <= u64::MAX,
        ;
        acc = acc * base + v;
        i = i + 1;
    }
    assert(d.take(n - from) =~= d);
    Some(acc)
}

/// Whether every character of `s` from `from` on is a digit of the base.
fn only_digits(s: &str, from: usize, base: u64) -> (r: bool)
    requires
        from <= s@.len(),
        base == 10 || base == 16,
    ensures
        r == all_digits(s@.skip(from as int), base as nat),
{
    let n = s.unicode_len();
    let mut i = from;
    while i < n
        invariant
            from <= i <= n,
            n == s@.len(),
            base == 10 || base == 16,
            forall|j: int| from <= j < i ==> is_digit_of(#[trigger] s@[j], base as nat),
        decreases n - i,
    {
        let c = s.get_char(i);
        let ok = if base == 10 {
            '0' <= c && c <= '9'
        } else {
            crate::text::is_hex_digit_exec(c)
        };
        if !ok {
            assert(s@.skip(from as int)[i - from] == c);
            return false;
        }
        i = i + 1;
    }
    assert forall|j: int| 0 <= j < s@.skip(from as int).len() implies is_digit_of(
        #[trigger] s@.skip(from as int)[j],
        base as nat,
    ) by {
        assert(s@.skip(from as int)[j] == s@[from + j]);
    }
    true
}

/// The value of `s` from `from` on, read as digits of the base, after an optional `+` where
/// `signed`.
fn parse_from(s: &str, from: usize, base: u64, signed: bool) -> (r: Option<u64>)
    requires
        from <= s@.len(),
        base == 10 || base == 16,
    ensures
        ({
            let t = s@.skip(from as int);
            let expected = if signed {
                parse_digits(t, base as nat)
            } else {
                parse_plain_digits(t, base as nat)
            };
            match r {
                Some(v) => expected == Some(v as nat),
                None => expected is None,
            }
        }),
{
    let n = s.unicode_len();
    let ghost t = s@.skip(from as int);
    let start = if signed && from < n && s.get_char(from) == '+' {
        from + 1
    } else {
        from
    };
    assert(signed ==> unsigned_part(t) =~= s@.skip(start as int));
    assert(!signed ==> t =~= s@.skip(start as int));
    if start == n || !only_digits(s, start, base) {
        return None;
    }
    digits_from(s, start, base)
}

/// Writes the digits of `n` in the base after what `out` holds.
fn write_digits(n: u64, base: u64, out: &mut String)
    requires
        base == 10 || base == 16,
    ensures
        final(out)@ == old(out)@ + digits_text(n as nat, base as nat),
    decreases n,
{
    if n >= base {
        write_digits(n / base, base, out);
    }
    let d = n % base;
    let c = if d < 10 {
        ((d + 48) as u8) as char
    } else {
        ((d + 87) as u8) as char
    };
    assert(c == digit_char(d as nat));
    push_char(out, c);
    if n >= base {
        assert(out@ =~= old(out)@ + digits_text(n as nat, base as nat));
    } else {
        assert(d == n);
        assert(out@ =~= old(out)@ + digits_text(n as nat, base as nat));
    }
}

/// The decimal digits of `n`.
pub fn decimal(n: u64) -> (r: String)
    ensures
        r@ == digits_text(n as nat, 10),
{
    let mut r = String::new();
    write_digits(n, 10, &mut r);
    assert(r@ =~= digits_text(n as nat, 10));
    r
}

/// Rewrites an amount, given in decimal or as `0x` hexadecimal, as `0x` followed by lower-case
/// hexadecimal digits without leading zeros.
pub fn to_hex(s: &str) -> (r: Result<String, CliError>)
    ensures
        match r {
            Ok(v) => parse_amount(s@) matches Some(n) && v@ == hex_amount(n),
            Err(e) => parse_amount(s@) is None && e == CliError::InvalidNumber,
        },
{
    let hex = crate::text::starts_with(s, "0x");
    proof {
        reveal_strlit("0x");
        assert(hex == (s@.len() >= 2 && s@[0] == '0' && s@[1] == 'x')) by {
            if s@.len() >= 2 {
                assert(s@.take(2)[0] == s@[0]);
                assert(s@.take(2)[1] == s@[1]);
                if s@[0] == '0' && s@[1] == 'x' {
                    assert(s@.take(2) =~= "0x"@);
                }
            }
        }
    }
    let value = if hex {
        parse_from(s, 2, 16, false)
    } else {
        assert(s@.skip(0) =~= s@);
        parse_from(s, 0, 10, true)
    };
    match value {
        Some(n) => {
            let mut out = String::new();
            push_char(&mut out, '0');
            push_char(&mut out, 'x');
            write_digits(n, 16, &mut out);
            assert(out@ =~= hex_amount(n as nat));
            Ok(out)
        },
        None => Err(CliError::InvalidNumber),
    }
}

/// The value of a decimal number, after an optional `+`, when it fits in 64 bits.
pub fn parse_decimal(s: &str) -> (r: Option<u64>)
    ensures
        match r {
            Some(v) => parse_digits(s@, 10) == Some(v as nat),
            None => parse_digits(s@, 10) is None,
        },
{
    assert(s@.skip(0) =~= s@);
    parse_from(s, 0, 10, true)
}

} // verus!
