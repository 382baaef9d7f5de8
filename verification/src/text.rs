//! Text building blocks shared by the wire formats: decimal and hexadecimal
//! renderings of integers and the character view of a string.

use vstd::prelude::*;

verus! {

/// The ASCII digit for a value below ten.
pub open spec fn digit_char(d: nat) -> char {
    ((d + 48) as u32) as char
}

/// The canonical decimal rendering of a natural number: no sign, no leading
/// zeros, and `"0"` for zero.
pub open spec fn decimal(n: nat) -> Seq<char>
    decreases n,
{
    if n < 10 {
        seq![digit_char(n)]
    } else {
        decimal(n / 10).push(digit_char(n % 10))
    }
}

/// `count` copies of `c`.
pub open spec fn repeat_char(c: char, count: nat) -> Seq<char>
    decreases count,
{
    if count == 0 {
        Seq::empty()
    } else {
        repeat_char(c, (count - 1) as nat).push(c)
    }
}

/// The decimal rendering of `n`, left-padded with zeros to at least `width`
/// characters, as `format!("{n:0width$}")` prints an unsigned value.
pub open spec fn padded_decimal(n: nat, width: nat) -> Seq<char> {
    let digits = decimal(n);
    if digits.len() >= width {
        digits
    } else {
        repeat_char('0', (width - digits.len()) as nat) + digits
    }
}

/// A signed value left-padded to `width` characters the way `format!`
/// prints `{v:0width$}`: the sign counts towards the width.
pub open spec fn padded_signed(v: int, width: nat) -> Seq<char> {
    if v >= 0 {
        padded_decimal(v as nat, width)
    } else {
        seq!['-'] + padded_decimal((-v) as nat, if width >= 1 { (width - 1) as nat } else { 0 })
    }
}

/// The lower-case hexadecimal digit for a value below sixteen.
pub open spec fn hex_char(d: nat) -> char {
    if d < 10 {
        digit_char(d)
    } else {
        ((d - 10 + 97) as u32) as char
    }
}

/// The lowest `count` hexadecimal digits of `n`, most significant first and
/// zero-padded, as `format!("{n:0count$x}")` prints a value below `16^count`.
pub open spec fn hex_digits(n: nat, count: nat) -> Seq<char>
    decreases count,
{
    if count == 0 {
        Seq::empty()
    } else {
        hex_digits(n / 16, (count - 1) as nat).push(hex_char(n % 16))
    }
}

pub open spec fn is_digit(c: char) -> bool {
    '0' <= c && c <= '9'
}

pub open spec fn digit_value(c: char) -> nat {
    (c as u32 - 48) as nat
}

/// The value of a sequence of decimal digits (leading zeros allowed).
pub open spec fn digits_value(s: Seq<char>) -> nat
    decreases s.len(),
{
    if s.len() == 0 {
        0
    } else {
        digits_value(s.drop_last()) * 10 + digit_value(s.last())
    }
}

pub open spec fn all_digits(s: Seq<char>) -> bool {
    forall|i: int| 0 <= i < s.len() ==> is_digit(#[trigger] s[i])
}

/// What `str::parse::<u64>` accepts: an optional `+`, then one or more
/// decimal digits whose value fits in 64 bits.
pub open spec fn spec_parse_u64(s: Seq<char>) -> Option<u64> {
    let digits = if s.len() > 0 && s[0] == '+' { s.drop_first() } else { s };
    if digits.len() > 0 && all_digits(digits) && digits_value(digits) <= u64::MAX {
        Some(digits_value(digits) as u64)
    } else {
        None
    }
}

/// `String::push`: appends one character.
#[verifier::external_body]
pub(crate) fn push_char(s: &mut String, c: char)
    ensures
        final(s)@ == old(s)@.push(c),
{
    s.push(c);
}

/// The characters of a string, in order.
pub fn chars_of(s: &str) -> (r: Vec<char>)
    ensures
        r@ == s@,
{
    let mut out: Vec<char> = Vec::new();
    for c in it: s.chars()
        invariant
            out@ == it.seq().take(it.index() as int),
            it.seq() == s@,
    {
        proof {
            assert(it.seq().take(it.index() as int + 1) =~= it.seq().take(it.index() as int).push(c));
        }
        out.push(c);
    }
    proof {
        assert(out@ =~= s@);
    }
    out
}


/// The ASCII digit character for a value below ten.
pub fn digit_of(d: u64) -> (c: char)
    requires
        d < 10,
    ensures
        c == digit_char(d as nat),
{
    let b: u8 = (d as u8) + 48;
    b as char
}

/// The lower-case hexadecimal digit character for a value below sixteen.
pub fn hex_digit_of(d: u64) -> (c: char)
    requires
        d < 16,
    ensures
        c == hex_char(d as nat),
{
    if d < 10 {
        digit_of(d)
    } else {
        let b: u8 = (d as u8) - 10 + 97;
        b as char
    }
}

/// Appends the canonical decimal rendering of `n`.
pub fn push_decimal(out: &mut String, n: u64)
    ensures
        final(out)@ == old(out)@ + decimal(n as nat),
    decreases n,
{
    if n >= 10 {
        push_decimal(out, n / 10);
    }
    let d = digit_of(n % 10);
    push_char(out, d);
    proof {
        if n >= 10 {
            assert(final(out)@ =~= old(out)@ + decimal(n as nat));
        } else {
            assert(final(out)@ =~= old(out)@ + decimal(n as nat));
        }
    }
}

/// Number of characters in the decimal rendering of `n`.
pub fn decimal_len(n: u64) -> (len: usize)
    ensures
        len == decimal(n as nat).len(),
        1 <= len <= 20,
    decreases n,
{
    if n < 10 {
        1
    } else {
        let inner = decimal_len(n / 10);
        proof {
            lemma_decimal_len_bound(n as nat);
        }
        inner + 1
    }
}

pub proof fn lemma_decimal_len_bound(n: nat)
    ensures
        1 <= decimal(n).len(),
        n <= u64::MAX ==> decimal(n).len() <= 20,
    decreases n,
{
    if n >= 10 {
        lemma_decimal_len_bound(n / 10);
    }
    lemma_decimal_len_lower(n, 20);
    assert(pow10(20) == 100_000_000_000_000_000_000) by {
        reveal_with_fuel(pow10, 21);
    }
}

pub open spec fn pow10(k: nat) -> nat
    decreases k,
{
    if k == 0 {
        1
    } else {
        10 * pow10((k - 1) as nat)
    }
}

/// A rendering of more than `k` digits stands for a value of at least `10^k`.
pub proof fn lemma_decimal_len_lower(n: nat, k: nat)
    ensures
        k >= 1 && decimal(n).len() >= k + 1 ==> n >= pow10(k),
    decreases n,
{
    if n >= 10 && k >= 2 {
        lemma_decimal_len_lower(n / 10, (k - 1) as nat);
        let p = pow10((k - 1) as nat);
        assert(pow10(k) == 10 * p);
        if decimal(n).len() >= k + 1 {
            assert(n / 10 >= p);
            assert(n >= 10 * (n / 10));
        }
    }
    if k == 1 {
        assert(pow10(0) == 1);
        assert(pow10(1) == 10 * pow10(0));
    }
}

/// Appends `count` copies of `c`.
pub fn push_repeated(out: &mut String, c: char, count: usize)
    ensures
        final(out)@ == old(out)@ + repeat_char(c, count as nat),
{
    let mut i: usize = 0;
    while i < count
        invariant
            i <= count,
            out@ == old(out)@ + repeat_char(c, i as nat),
        decreases count - i,
    {
        push_char(out, c);
        i = i + 1;
        proof {
            assert(out@ =~= old(out)@ + repeat_char(c, i as nat));
        }
    }
}

/// Appends the decimal rendering of `n`, zero-padded to `width` characters.
pub fn push_padded_decimal(out: &mut String, n: u64, width: usize)
    ensures
        final(out)@ == old(out)@ + padded_decimal(n as nat, width as nat),
{
    let len = decimal_len(n);
    if len < width {
        push_repeated(out, '0', width - len);
    }
    push_decimal(out, n);
    proof {
        assert(final(out)@ =~= old(out)@ + padded_decimal(n as nat, width as nat));
    }
}

/// Appends the lowest `count` hexadecimal digits of `n`, most significant first.
pub fn push_hex(out: &mut String, n: u64, count: usize)
    ensures
        final(out)@ == old(out)@ + hex_digits(n as nat, count as nat),
    decreases count,
{
    if count > 0 {
        push_hex(out, n / 16, count - 1);
        let d = hex_digit_of(n % 16);
        push_char(out, d);
        proof {
            assert(final(out)@ =~= old(out)@ + hex_digits(n as nat, count as nat));
        }
    }
}

/// `x` reduced modulo 2^64, as wrapping `u64` arithmetic gives it.
pub open spec fn wrap64(x: nat) -> u64 {
    (x % 0x1_0000_0000_0000_0000) as u64
}

/// How many hexadecimal digits `n` has, at least one.
pub open spec fn hex_len(n: nat) -> nat
    decreases n,
{
    if n < 16 {
        1
    } else {
        1 + hex_len(n / 16)
    }
}

/// `n` in lower-case hexadecimal, zero-padded on the left to at least `width`
/// digits: what the `{:0<width>x}` format gives.
pub open spec fn padded_hex(n: nat, width: nat) -> Seq<char> {
    hex_digits(n, if hex_len(n) >= width { hex_len(n) } else { width })
}

fn hex_len_of(n: u64) -> (r: usize)
    ensures
        r == hex_len(n as nat),
        1 <= r <= 16,
    decreases n,
{
    if n < 16 {
        1
    } else {
        let rest = hex_len_of(n / 16);
        proof {
            assert(n / 16 < 0x1000_0000_0000_0000);
            if rest == 16 {
                lemma_hex_len_bound((n / 16) as nat);
            }
        }
        rest + 1
    }
}

spec fn pow16(k: nat) -> nat
    decreases k,
{
    if k == 0 {
        1
    } else {
        16 * pow16((k - 1) as nat)
    }
}

proof fn lemma_hex_len_below(n: nat, k: nat)
    requires
        k >= 1,
        n < pow16(k),
    ensures
        hex_len(n) <= k,
    decreases k,
{
    if n >= 16 {
        if k == 1 {
            assert(pow16(1) == 16) by {
                reveal_with_fuel(pow16, 2);
            }
        } else {
            assert(n / 16 < pow16((k - 1) as nat));
            lemma_hex_len_below(n / 16, (k - 1) as nat);
        }
    }
}

proof fn lemma_hex_len_bound(n: nat)
    ensures
        n < 0x1000_0000_0000_0000 ==> hex_len(n) <= 15,
{
    assert(pow16(15) == 0x1000_0000_0000_0000) by {
        reveal_with_fuel(pow16, 16);
    }
    if n < 0x1000_0000_0000_0000 {
        lemma_hex_len_below(n, 15);
    }
}

/// A 64-bit value has at most sixteen hexadecimal digits.
pub proof fn lemma_hex_len_u64(n: u64)
    ensures
        hex_len(n as nat) <= 16,
{
    assert(pow16(16) == 0x1_0000_0000_0000_0000) by {
        reveal_with_fuel(pow16, 17);
    }
    lemma_hex_len_below(n as nat, 16);
}

/// Appends `n` in lower-case hexadecimal, zero-padded to at least `width`
/// digits.
pub fn push_padded_hex(out: &mut String, n: u64, width: usize)
    ensures
        final(out)@ == old(out)@ + padded_hex(n as nat, width as nat),
{
    let len = hex_len_of(n);
    let count = if len >= width { len } else { width };
    push_hex(out, n, count);
}

/// The canonical decimal rendering of `n` as a new string.
pub fn decimal_string(n: u64) -> (r: String)
    ensures
        r@ == decimal(n as nat),
{
    let mut out = String::new();
    push_decimal(&mut out, n);
    proof {
        assert(out@ =~= decimal(n as nat));
    }
    out
}


/// Extending a digit string never lowers its value.
pub proof fn lemma_digits_value_prefix(s: Seq<char>, k: int)
    requires
        0 <= k <= s.len(),
    ensures
        digits_value(s.take(k)) <= digits_value(s),
    decreases s.len(),
{
    if k < s.len() {
        lemma_digits_value_prefix(s.drop_last(), k);
        assert(s.drop_last().take(k) =~= s.take(k));
    } else {
        assert(s.take(k) =~= s);
    }
}

/// Parses an unsigned 64-bit integer the way `str::parse::<u64>` does.
pub fn parse_u64(s: &str) -> (r: Option<u64>)
    ensures
        r == spec_parse_u64(s@),
{
    let chars = chars_of(s);
    let len = chars.len();
    let start: usize = if len > 0 && chars[0] == '+' { 1 } else { 0 };
    let ghost digits = if s@.len() > 0 && s@[0] == '+' { s@.drop_first() } else { s@ };
    assert(digits =~= chars@.subrange(start as int, len as int));
    if start == len {
        return None;
    }
    let mut acc: u64 = 0;
    let mut i: usize = start;
    while i < len
        invariant
            start <= i <= len,
            len == chars@.len(),
            digits =~= chars@.subrange(start as int, len as int),
            digits == (if s@.len() > 0 && s@[0] == '+' { s@.drop_first() } else { s@ }),
            all_digits(digits.take(i - start)),
            acc == digits_value(digits.take(i - start)),
        decreases len - i,
    {
        let c = chars[i];
        let ghost k = i - start;
        assert(digits[k] == c);
        assert(digits.take(k + 1).drop_last() =~= digits.take(k));
        if !('0' <= c && c <= '9') {
            assert(!all_digits(digits));
            return None;
        }
        let d: u64 = (c as u32 - 48) as u64;
        if acc > (u64::MAX - d) / 10 {
            proof {
                assert(digits_value(digits.take(k + 1)) == acc * 10 + d);
                assert(acc * 10 + d > u64::MAX) by (nonlinear_arith)
                    requires
                        acc > (u64::MAX - d) / 10,
                        d < 10,
                ;
                if all_digits(digits) {
                    lemma_digits_value_prefix(digits, k + 1);
                }
            }
            return None;
        }
        assert(acc * 10 + d <= u64::MAX) by (nonlinear_arith)
            requires
                acc <= (u64::MAX - d) / 10,
                d < 10,
        ;
        acc = acc * 10 + d;
        i = i + 1;
        proof {
            assert(all_digits(digits.take(i - start))) by {
                assert forall|j: int| 0 <= j < digits.take(i - start).len() implies is_digit(
                    #[trigger] digits.take(i - start)[j],
                ) by {
                    if j < k {
                        assert(digits.take(i - start)[j] == digits.take(k)[j]);
                    }
                }
            }
        }
    }
    assert(digits.take(len - start) =~= digits);
    Some(acc)
}


pub proof fn lemma_digit_char_value(d: nat)
    requires
        d < 10,
    ensures
        digit_value(digit_char(d)) == d,
        is_digit(digit_char(d)),
{
    assert(((d + 48) as u32) as char as u32 == (d + 48) as u32);
}

/// The decimal rendering consists of digits whose value is the number.
pub proof fn lemma_decimal_digits(n: nat)
    ensures
        all_digits(decimal(n)),
        digits_value(decimal(n)) == n,
        decimal(n).len() > 0,
        is_digit(decimal(n)[0]),
    decreases n,
{
    lemma_digit_char_value(n % 10);
    if n < 10 {
        assert(decimal(n).drop_last() =~= Seq::<char>::empty());
        assert(digits_value(Seq::<char>::empty()) == 0);
        assert(decimal(n).last() == digit_char(n));
        assert(digits_value(decimal(n)) == digits_value(decimal(n).drop_last()) * 10 + digit_value(
            decimal(n).last(),
        ));
    }
    if n >= 10 {
        lemma_decimal_digits(n / 10);
        let d = decimal(n);
        assert(d.drop_last() =~= decimal(n / 10));
        assert(d.last() == digit_char(n % 10));
        assert(digits_value(d) == digits_value(d.drop_last()) * 10 + digit_value(d.last()));
        assert(digits_value(d) == (n / 10) * 10 + n % 10);
        assert forall|i: int| 0 <= i < d.len() implies is_digit(#[trigger] d[i]) by {
            if i < d.len() - 1 {
                assert(d[i] == decimal(n / 10)[i]);
            }
        }
    }
}

/// A run of zeros has the value zero.
proof fn lemma_zeros_value(count: nat)
    ensures
        digits_value(repeat_char('0', count)) == 0,
    decreases count,
{
    if count > 0 {
        lemma_zeros_value((count - 1) as nat);
        let z = repeat_char('0', count);
        assert(z.drop_last() =~= repeat_char('0', (count - 1) as nat));
        assert(digit_value('0') == 0);
    }
}

/// Digits after a prefix of value zero keep their value.
proof fn lemma_value_after_zeros(z: Seq<char>, s: Seq<char>)
    requires
        digits_value(z) == 0,
    ensures
        digits_value(z + s) == digits_value(s),
    decreases s.len(),
{
    if s.len() == 0 {
        assert(z + s =~= z);
    } else {
        lemma_value_after_zeros(z, s.drop_last());
        assert((z + s).drop_last() =~= z + s.drop_last());
        assert((z + s).last() == s.last());
    }
}

/// A zero-padded decimal rendering has the value it renders.
pub proof fn lemma_padded_decimal_value(n: nat, width: nat)
    ensures
        digits_value(padded_decimal(n, width)) == n,
{
    lemma_decimal_digits(n);
    let digits = decimal(n);
    if digits.len() < width {
        let k = (width - digits.len()) as nat;
        lemma_zeros_value(k);
        lemma_value_after_zeros(repeat_char('0', k), digits);
    }
}

/// Distinct values have distinct zero-padded renderings.
pub proof fn lemma_padded_decimal_injective(a: nat, b: nat, width: nat)
    requires
        padded_decimal(a, width) == padded_decimal(b, width),
    ensures
        a == b,
{
    lemma_padded_decimal_value(a, width);
    lemma_padded_decimal_value(b, width);
}

/// Parsing the decimal rendering of a 64-bit value gives the value back.
pub proof fn lemma_parse_decimal_round_trip(v: u64)
    ensures
        spec_parse_u64(decimal(v as nat)) == Some(v),
{
    lemma_decimal_digits(v as nat);
}


/// Whether two strings hold the same characters.
pub fn str_eq(a: &str, b: &str) -> (r: bool)
    ensures
        r == (a@ == b@),
{
    let x = chars_of(a);
    let y = chars_of(b);
    if x.len() != y.len() {
        return false;
    }
    let mut i: usize = 0;
    while i < x.len()
        invariant
            x@ == a@,
            y@ == b@,
            x.len() == y.len(),
            i <= x.len(),
            forall|j: int| 0 <= j < i ==> x@[j] == y@[j],
        decreases x.len() - i,
    {
        if x[i] != y[i] {
            return false;
        }
        i = i + 1;
    }
    assert(x@ =~= y@);
    true
}

} // verus!
