//! Character-level helpers shared by the shell compiler and the document
//! codec: moving between `&str`/`String` and `Vec<char>`.

use vstd::prelude::*;
use vstd::string::StrSliceExecFns;

verus! {

/// Relies on `String::push`: appends exactly the given character.
#[verifier::external_body]
pub fn push_char(s: &mut String, c: char)
    ensures
        final(s)@ == old(s)@.push(c),
{
    s.push(c);
}

/// The characters of a string slice, as an indexable vector.
pub fn str_to_chars(s: &str) -> (r: Vec<char>)
    ensures
        r@ == s@,
{
    let n = s.unicode_len();
    let mut r: Vec<char> = Vec::new();
    let mut i: usize = 0;
    while i < n
        invariant
            i <= n,
            n == s@.len(),
            r@ == s@.subrange(0, i as int),
        decreases n - i,
    {
        r.push(s.get_char(i));
        i += 1;
    }
    assert(r@ =~= s@);
    r
}

/// The vector's characters gathered back into an owned string.
pub fn chars_to_string(v: &Vec<char>) -> (r: String)
    ensures
        r@ == v@,
{
    let mut r = String::new();
    let mut i: usize = 0;
    while i < v.len()
        invariant
            i <= v@.len(),
            r@ == v@.subrange(0, i as int),
        decreases v@.len() - i,
    {
        push_char(&mut r, v[i]);
        assert(r@ =~= v@.subrange(0, i + 1));
        i += 1;
    }
    assert(r@ =~= v@);
    r
}


/// The numeric value of a nonempty run of decimal digits, read left to
/// right; `None` if any character is no digit.
pub open spec fn spec_dec_val(s: Seq<char>) -> Option<int>
    decreases s.len(),
{
    if s.len() == 0 {
        None
    } else if !('0' <= s[s.len() - 1] <= '9') {
        None
    } else if s.len() == 1 {
        Some(s[0] as int - 48)
    } else {
        match spec_dec_val(s.drop_last()) {
            Some(v) => Some(v * 10 + (s[s.len() - 1] as int - 48)),
            None => None,
        }
    }
}

/// A decimal integer lexeme's value, when it is one and fits in an `i64`.
/// Lexemes beyond nineteen digits are refused.
pub open spec fn spec_parse_i64(s: Seq<char>) -> Option<i64> {
    let neg = s.len() > 0 && s[0] == '-';
    let digits = if neg {
        s.skip(1)
    } else {
        s
    };
    if digits.len() == 0 || digits.len() > 19 {
        None
    } else {
        match spec_dec_val(digits) {
            Some(v) => {
                let signed = if neg {
                    -v
                } else {
                    v
                };
                if i64::MIN <= signed <= i64::MAX {
                    Some(signed as i64)
                } else {
                    None
                }
            },
            None => None,
        }
    }
}

/// Ten to the given power.
pub open spec fn pow10(n: nat) -> int
    decreases n,
{
    if n == 0 {
        1
    } else {
        10 * pow10((n - 1) as nat)
    }
}

/// Powers of ten are positive.
proof fn lemma_pow10_pos(n: nat)
    ensures
        pow10(n) >= 1,
    decreases n,
{
    if n > 0 {
        lemma_pow10_pos((n - 1) as nat);
    }
}

/// Powers of ten grow with the exponent.
proof fn lemma_pow10_mono(a: nat, b: nat)
    requires
        a <= b,
    ensures
        pow10(a) <= pow10(b),
    decreases b,
{
    if a < b {
        lemma_pow10_mono(a, (b - 1) as nat);
        lemma_pow10_pos((b - 1) as nat);
    }
}

/// The eighteenth and nineteenth powers of ten, written out.
proof fn lemma_pow10_values()
    ensures
        pow10(18) == 1_000_000_000_000_000_000,
        pow10(19) == 10_000_000_000_000_000_000,
{
    assert(pow10(0) == 1);
    assert(pow10(1) == 10);
    assert(pow10(2) == 100);
    assert(pow10(3) == 1000);
    assert(pow10(4) == 10000);
    assert(pow10(5) == 100000);
    assert(pow10(6) == 1000000);
    assert(pow10(7) == 10000000);
    assert(pow10(8) == 100000000);
    assert(pow10(9) == 1000000000);
    assert(pow10(10) == 10000000000);
    assert(pow10(11) == 100000000000);
    assert(pow10(12) == 1000000000000);
    assert(pow10(13) == 10000000000000);
    assert(pow10(14) == 100000000000000);
    assert(pow10(15) == 1000000000000000);
    assert(pow10(16) == 10000000000000000);
    assert(pow10(17) == 100000000000000000);
    assert(pow10(18) == 1000000000000000000);
    assert(pow10(19) == 10000000000000000000);
}

/// A digit run's value is nonnegative and below ten to its length.
proof fn lemma_dec_val_lt(s: Seq<char>)
    requires
        spec_dec_val(s) is Some,
    ensures
        0 <= spec_dec_val(s)->Some_0,
        spec_dec_val(s)->Some_0 < pow10(s.len() as nat),
    decreases s.len(),
{
    if s.len() == 1 {
        assert(pow10(0) == 1);
        assert(pow10(1) == 10);
    } else {
        lemma_dec_val_lt(s.drop_last());
        let v = spec_dec_val(s.drop_last())->Some_0;
        assert(pow10(s.len() as nat) == 10 * pow10((s.len() - 1) as nat));
        assert(v * 10 + (s[s.len() - 1] as int - 48) < 10 * pow10((s.len() - 1) as nat)) by (
        nonlinear_arith)
            requires
                v < pow10((s.len() - 1) as nat),
                0 <= s[s.len() - 1] as int - 48 <= 9,
        ;
    }
}

/// Read a decimal integer lexeme as an `i64`, exactly when the lexeme is
/// an optional minus sign and at most nineteen digits whose value fits.
pub fn parse_i64(s: &str) -> (r: Option<i64>)
    ensures
        r == spec_parse_i64(s@),
{
    let chars = str_to_chars(s);
    let n = chars.len();
    let neg = n > 0 && chars[0] == '-';
    let start: usize = if neg {
        1
    } else {
        0
    };
    let ghost digits = if neg {
        s@.skip(1)
    } else {
        s@
    };
    if n - start == 0 || n - start > 19 {
        return None;
    }
    let mut acc: u64 = 0;
    let mut i: usize = start;
    while i < n
        invariant
            start <= i <= n,
            n == chars@.len(),
            chars@ == s@,
            start == (if neg {
                1int
            } else {
                0int
            }),
            neg == (n > 0 && s@[0] == '-'),
            digits == (if neg {
                s@.skip(1)
            } else {
                s@
            }),
            digits.len() == n - start,
            1 <= digits.len() <= 19,
            i > start ==> spec_dec_val(digits.take(i - start)) == Some(acc as int),
            i == start ==> acc == 0,
        decreases n - i,
    {
        let c = chars[i];
        proof {
            assert(digits[i - start] == s@[i as int]);
        }
        if !('0' <= c && c <= '9') {
            proof {
                lemma_dec_val_none(digits, i - start);
            }
            return None;
        }
        proof {
            assert(digits.take(i - start + 1).drop_last() =~= digits.take(i - start));
            assert(digits.take(i - start + 1)[i - start] == c);
            if i > start {
                lemma_dec_val_lt(digits.take(i - start));
                lemma_pow10_mono((i - start) as nat, 18);
                lemma_pow10_values();
                assert(acc < 1_000_000_000_000_000_000);
            }
        }
        let d: u64 = (c as u32 as u64) - 48;
        acc = acc * 10 + d;
        i += 1;
    }
    proof {
        assert(digits.take(digits.len() as int) =~= digits);
    }
    if neg {
        if acc <= 9_223_372_036_854_775_808u64 {
            if acc == 9_223_372_036_854_775_808u64 {
                Some(i64::MIN)
            } else {
                Some(-(acc as i64))
            }
        } else {
            None
        }
    } else {
        if acc <= 9_223_372_036_854_775_807u64 {
            Some(acc as i64)
        } else {
            None
        }
    }
}

/// A non-digit anywhere refuses the whole run.
proof fn lemma_dec_val_none(digits: Seq<char>, at: int)
    requires
        0 <= at < digits.len(),
        !('0' <= digits[at] <= '9'),
    ensures
        spec_dec_val(digits) is None,
    decreases digits.len(),
{
    if digits.len() > 0 {
        if at == digits.len() - 1 {
        } else {
            lemma_dec_val_none(digits.drop_last(), at);
        }
    }
}

/// The decimal rendering of a number.
pub open spec fn spec_dec_digits(n: nat) -> Seq<char>
    decreases n,
{
    if n < 10 {
        seq![crate::json::spec_hex_digit_char(n as u32)]
    } else {
        spec_dec_digits(n / 10).push(crate::json::spec_hex_digit_char((n % 10) as u32))
    }
}

/// Render a number in decimal.
pub fn u64_to_dec_string(n: u64) -> (r: String)
    ensures
        r@ == spec_dec_digits(n as nat),
    decreases n,
{
    if n < 10 {
        let mut r = String::new();
        push_char(&mut r, dec_digit_char((n % 10) as u32));
        assert(r@ =~= spec_dec_digits(n as nat));
        r
    } else {
        let mut r = u64_to_dec_string(n / 10);
        push_char(&mut r, dec_digit_char((n % 10) as u32));
        r
    }
}

fn dec_digit_char(d: u32) -> (r: char)
    requires
        d < 10,
    ensures
        r == crate::json::spec_hex_digit_char(d),
{
    match d {
        0 => '0',
        1 => '1',
        2 => '2',
        3 => '3',
        4 => '4',
        5 => '5',
        6 => '6',
        7 => '7',
        8 => '8',
        _ => '9',
    }
}


/// Whether the string opens with the given prefix.
pub fn str_starts_with(s: &str, prefix: &str) -> (r: bool)
    ensures
        r == (s@.len() >= prefix@.len() && s@.subrange(0, prefix@.len() as int) == prefix@),
{
    let n = s.unicode_len();
    let m = prefix.unicode_len();
    if n < m {
        return false;
    }
    let mut i: usize = 0;
    while i < m
        invariant
            i <= m,
            m <= n,
            n == s@.len(),
            m == prefix@.len(),
            forall|k: int| 0 <= k < i ==> s@[k] == prefix@[k],
        decreases m - i,
    {
        if s.get_char(i) != prefix.get_char(i) {
            proof {
                assert(s@.subrange(0, m as int)[i as int] == s@[i as int]);
            }
            return false;
        }
        i += 1;
    }
    proof {
        assert(s@.subrange(0, m as int) =~= prefix@);
    }
    true
}


/// How one character of a string reads in a debug rendering: quotes and
/// backslashes escaped, newline, carriage return, tab and the nul
/// character in their two-character forms, other control characters (and
/// the delete character) as `\u{..}` with lowercase hex digits and no
/// leading zeros, everything else as it stands.
pub open spec fn spec_debug_escape_char(c: char) -> Seq<char> {
    let u = c as u32;
    if c == '"' {
        seq!['\\', '"']
    } else if c == '\\' {
        seq!['\\', '\\']
    } else if c == '\n' {
        seq!['\\', 'n']
    } else if c == '\r' {
        seq!['\\', 'r']
    } else if c == '\t' {
        seq!['\\', 't']
    } else if u == 0 {
        seq!['\\', '0']
    } else if u < 32 || u == 127 {
        seq!['\\', 'u', '{'] + (if u < 16 {
            seq![crate::json::spec_hex_digit_char(u)]
        } else {
            seq![crate::json::spec_hex_digit_char(u / 16), crate::json::spec_hex_digit_char(u % 16)]
        }) + seq!['}']
    } else {
        seq![c]
    }
}

/// A whole string's characters in their debug rendering.
pub open spec fn spec_debug_escape(s: Seq<char>) -> Seq<char>
    decreases s.len(),
{
    if s.len() == 0 {
        Seq::empty()
    } else {
        spec_debug_escape_char(s[0]) + spec_debug_escape(s.skip(1))
    }
}

/// A string in its quoted debug rendering.
pub open spec fn spec_debug_quoted(s: Seq<char>) -> Seq<char> {
    seq!['"'] + spec_debug_escape(s) + seq!['"']
}

/// Appending one character extends the debug rendering by that
/// character's rendering.
proof fn lemma_debug_escape_snoc(s: Seq<char>, c: char)
    ensures
        spec_debug_escape(s.push(c)) == spec_debug_escape(s) + spec_debug_escape_char(c),
    decreases s.len(),
{
    if s.len() == 0 {
        assert(s.push(c).skip(1) =~= s);
        assert(s.push(c)[0] == c);
        assert(spec_debug_escape(s) == Seq::<char>::empty());
        assert(spec_debug_escape(s.push(c)) =~= spec_debug_escape(s) + spec_debug_escape_char(c));
    } else {
        assert(s.push(c).skip(1) =~= s.skip(1).push(c));
        assert(s.push(c)[0] == s[0]);
        lemma_debug_escape_snoc(s.skip(1), c);
        assert(spec_debug_escape(s.push(c)) == spec_debug_escape_char(s[0]) + (spec_debug_escape(
            s.skip(1),
        ) + spec_debug_escape_char(c)));
        assert(spec_debug_escape_char(s[0]) + (spec_debug_escape(s.skip(1))
            + spec_debug_escape_char(c)) =~= (spec_debug_escape_char(s[0]) + spec_debug_escape(
            s.skip(1),
        )) + spec_debug_escape_char(c));
    }
}

/// Append a string's quoted debug rendering.
#[verifier::rlimit(80)]
pub fn write_debug_quoted(s: &str, out: &mut String)
    ensures
        final(out)@ == old(out)@ + spec_debug_quoted(s@),
{
    push_char(out, '"');
    let ghost base = out@;
    let n = s.unicode_len();
    let mut i: usize = 0;
    while i < n
        invariant
            i <= n,
            n == s@.len(),
            out@ == base + spec_debug_escape(s@.subrange(0, i as int)),
        decreases n - i,
    {
        let c = s.get_char(i);
        let u = c as u32;
        if c == '"' {
            push_char(out, '\\');
            push_char(out, '"');
        } else if c == '\\' {
            push_char(out, '\\');
            push_char(out, '\\');
        } else if c == '\n' {
            push_char(out, '\\');
            push_char(out, 'n');
        } else if c == '\r' {
            push_char(out, '\\');
            push_char(out, 'r');
        } else if c == '\t' {
            push_char(out, '\\');
            push_char(out, 't');
        } else if u == 0 {
            push_char(out, '\\');
            push_char(out, '0');
        } else if u < 32 || u == 127 {
            push_char(out, '\\');
            push_char(out, 'u');
            push_char(out, '{');
            if u < 16 {
                push_char(out, crate::json::hex_digit_char_of(u));
            } else {
                push_char(out, crate::json::hex_digit_char_of(u / 16));
                push_char(out, crate::json::hex_digit_char_of(u % 16));
            }
            push_char(out, '}');
        } else {
            push_char(out, c);
        }
        proof {
            lemma_debug_escape_snoc(s@.subrange(0, i as int), s@[i as int]);
            assert(s@.subrange(0, i + 1) =~= s@.subrange(0, i as int).push(s@[i as int]));
            assert(out@ =~= base + spec_debug_escape(s@.subrange(0, i + 1)));
        }
        i += 1;
    }
    push_char(out, '"');
    proof {
        assert(s@.subrange(0, n as int) =~= s@);
        assert(out@ =~= old(out)@ + spec_debug_quoted(s@));
    }
}

} // verus!
