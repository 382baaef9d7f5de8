//! Names of the pipe and of the single-instance lock.
//!
//! The pipe is `\\.\pipe\runnerdock.<sid-hash>.v1`. The SID itself is not put
//! into the name: pipe names can be listed, and the user's account
//! identifier should not spread further than needed. The name is still not a
//! secret.

use vstd::prelude::*;
use vstd::utf8::{
    encode_scalar, encode_utf8, has_width_1_encoding, last_continuation_byte, leading_byte_width_2,
    leading_byte_width_3, leading_byte_width_4, second_last_continuation_byte,
    third_last_continuation_byte,
};
use crate::security::{SecurityError, is_valid_sid, validate_sid};
use crate::text::{lemma_hex_len_u64, padded_hex, push_padded_hex, wrap64, hex_digits, hex_char, digit_char};

verus! {

/// The protocol version in the pipe name; the same value as the protocol
/// major. An Agent with a new major listens on another pipe: an old UI then
/// finds no listener instead of failing while decoding.
pub const PIPE_VERSION_TAG: &'static str = "v1";

pub const FNV_OFFSET_BASIS: u64 = 0xcbf2_9ce4_8422_2325;

pub const FNV_PRIME: u64 = 0x0000_0100_0000_01b3;

/// An ASCII lower-case letter's byte made upper case; any other byte as is.
pub open spec fn upper_byte(b: u8) -> u8 {
    if 97 <= b <= 122 {
        (b - 32) as u8
    } else {
        b
    }
}

/// FNV-1a (64 bits) over the bytes, each ASCII letter taken in upper case.
pub open spec fn fnv1a_upper(bytes: Seq<u8>) -> u64
    decreases bytes.len(),
{
    if bytes.len() == 0 {
        FNV_OFFSET_BASIS
    } else {
        wrap64(
            (fnv1a_upper(bytes.drop_last()) ^ (upper_byte(bytes.last()) as u64)) as nat
                * FNV_PRIME as nat,
        )
    }
}

/// The short form of a SID: FNV-1a over its UTF-8 bytes with ASCII letters
/// in upper case (a SID's text is case-insensitive), as sixteen hex digits.
pub open spec fn spec_sid_hash(sid: Seq<char>) -> Seq<char> {
    padded_hex(fnv1a_upper(encode_utf8(sid)) as nat, 16)
}

/// The short form of a SID: FNV-1a 64 over its bytes, ASCII letters taken
/// in upper case, as sixteen hex digits.
///
/// Not a cryptographic hash. What it protects is only that the SID does not
/// appear in a name; a collision does not let another SID connect, since the
/// DACL decides that. The same SID always gives the same name.
pub fn sid_hash(sid: &str) -> (r: String)
    ensures
        r@ == spec_sid_hash(sid@),
{
    let bytes = sid.as_bytes();
    let mut hash: u64 = FNV_OFFSET_BASIS;
    let mut i: usize = 0;
    while i < bytes.len()
        invariant
            i <= bytes@.len(),
            hash == fnv1a_upper(bytes@.take(i as int)),
        decreases bytes.len() - i,
    {
        let b = bytes[i];
        let upper: u8 = if b >= 97 && b <= 122 {
            b - 32
        } else {
            b
        };
        proof {
            assert(bytes@.take(i as int + 1).drop_last() =~= bytes@.take(i as int));
        }
        hash = (hash ^ (upper as u64)).wrapping_mul(FNV_PRIME);
        i = i + 1;
    }
    proof {
        assert(bytes@.take(bytes@.len() as int) =~= bytes@);
    }
    let mut out = String::new();
    push_padded_hex(&mut out, hash, 16);
    out
}

pub open spec fn spec_pipe_name(sid: Seq<char>) -> Seq<char> {
    "\\\\.\\pipe\\runnerdock."@ + spec_sid_hash(sid) + "."@ + "v1"@
}

pub open spec fn spec_single_instance_name(sid: Seq<char>) -> Seq<char> {
    "Local\\runnerdock."@ + spec_sid_hash(sid) + "."@ + "v1"@
}

/// The pipe name for a SID.
///
/// # Errors
///
/// [`SecurityError::MalformedSid`] when `sid` is not of the form `S-1-...`.
pub fn pipe_name(sid: &str) -> (r: Result<String, SecurityError>)
    ensures
        match r {
            Ok(name) => is_valid_sid(sid@) && name@ == spec_pipe_name(sid@),
            Err(e) => !is_valid_sid(sid@) && e == SecurityError::MalformedSid,
        },
{
    match validate_sid(sid) {
        Ok(()) => {},
        Err(e) => {
            return Err(e);
        },
    }
    let mut out = String::from_str("\\\\.\\pipe\\runnerdock.");
    let hash = sid_hash(sid);
    out.append(hash.as_str());
    out.append(".");
    out.append(PIPE_VERSION_TAG);
    proof {
        reveal_strlit("v1");
    }
    Ok(out)
}

/// The name of the single-instance lock for a SID.
///
/// It lives under `Local\`: creating under `Global\` needs
/// `SeCreateGlobalPrivilege`, which the non-elevated Agent lacks. The mutex
/// decides at once within one logon session; across sessions, creating the
/// first pipe instance does, since there is one pipe namespace per machine.
///
/// # Errors
///
/// [`SecurityError::MalformedSid`] when `sid` is not of the form `S-1-...`.
pub fn single_instance_name(sid: &str) -> (r: Result<String, SecurityError>)
    ensures
        match r {
            Ok(name) => is_valid_sid(sid@) && name@ == spec_single_instance_name(sid@),
            Err(e) => !is_valid_sid(sid@) && e == SecurityError::MalformedSid,
        },
{
    match validate_sid(sid) {
        Ok(()) => {},
        Err(e) => {
            return Err(e);
        },
    }
    let mut out = String::from_str("Local\\runnerdock.");
    let hash = sid_hash(sid);
    out.append(hash.as_str());
    out.append(".");
    out.append(PIPE_VERSION_TAG);
    proof {
        reveal_strlit("v1");
    }
    Ok(out)
}

/// `needle` occurs in `haystack` as a contiguous run.
pub open spec fn contains_text(haystack: Seq<char>, needle: Seq<char>) -> bool {
    exists|k: int|
        0 <= k && k + needle.len() <= haystack.len() && #[trigger] haystack.subrange(
            k,
            k + needle.len(),
        ) == needle
}

pub open spec fn has_no_dash(t: Seq<char>) -> bool {
    forall|i: int| 0 <= i < t.len() ==> #[trigger] t[i] != '-'
}

proof fn lemma_hex_digits_have_no_dash(n: nat, count: nat)
    ensures
        has_no_dash(hex_digits(n, count)),
    decreases count,
{
    if count > 0 {
        lemma_hex_digits_have_no_dash(n / 16, (count - 1) as nat);
        let d = n % 16;
        assert(hex_char(d) != '-') by {
            if d < 10 {
                assert(digit_char(d) as u32 == d + 48);
            } else {
                assert(hex_char(d) as u32 == d - 10 + 97);
            }
        }
        let t = hex_digits(n, count);
        assert forall|i: int| 0 <= i < t.len() implies #[trigger] t[i] != '-' by {
            if i < t.len() - 1 {
                assert(t[i] == hex_digits(n / 16, (count - 1) as nat)[i]);
            }
        }
    }
}

proof fn lemma_no_dash_concat(a: Seq<char>, b: Seq<char>)
    requires
        has_no_dash(a),
        has_no_dash(b),
    ensures
        has_no_dash(a + b),
{
    assert forall|i: int| 0 <= i < (a + b).len() implies #[trigger] (a + b)[i] != '-' by {
        if i < a.len() {
            assert((a + b)[i] == a[i]);
        } else {
            assert((a + b)[i] == b[i - a.len()]);
        }
    }
}

proof fn lemma_dashed_text_not_in(haystack: Seq<char>, needle: Seq<char>)
    requires
        has_no_dash(haystack),
        needle.len() >= 2,
        needle[1] == '-',
    ensures
        !contains_text(haystack, needle),
{
    if contains_text(haystack, needle) {
        let k = choose|k: int|
            0 <= k && k + needle.len() <= haystack.len() && #[trigger] haystack.subrange(
                k,
                k + needle.len(),
            ) == needle;
        assert(haystack.subrange(k, k + needle.len())[1] == haystack[k + 1]);
    }
}

/// Neither name holds the SID itself: a SID has dashes, and no name does.
pub proof fn lemma_names_hide_the_sid(sid: Seq<char>)
    requires
        is_valid_sid(sid),
    ensures
        !contains_text(spec_pipe_name(sid), sid),
        !contains_text(spec_single_instance_name(sid), sid),
{
    let hash = fnv1a_upper(encode_utf8(sid)) as nat;
    let width: nat = if crate::text::hex_len(hash) >= 16 { crate::text::hex_len(hash) } else { 16 };
    lemma_hex_digits_have_no_dash(hash, width);
    reveal_strlit("\\\\.\\pipe\\runnerdock.");
    reveal_strlit("Local\\runnerdock.");
    reveal_strlit(".");
    reveal_strlit("v1");
    let pipe_prefix = "\\\\.\\pipe\\runnerdock."@;
    let lock_prefix = "Local\\runnerdock."@;
    assert(has_no_dash(pipe_prefix));
    assert(has_no_dash(lock_prefix));
    assert(has_no_dash("."@));
    assert(has_no_dash("v1"@));
    lemma_no_dash_concat(pipe_prefix, spec_sid_hash(sid));
    lemma_no_dash_concat(pipe_prefix + spec_sid_hash(sid), "."@);
    lemma_no_dash_concat(pipe_prefix + spec_sid_hash(sid) + "."@, "v1"@);
    lemma_no_dash_concat(lock_prefix, spec_sid_hash(sid));
    lemma_no_dash_concat(lock_prefix + spec_sid_hash(sid), "."@);
    lemma_no_dash_concat(lock_prefix + spec_sid_hash(sid) + "."@, "v1"@);
    lemma_dashed_text_not_in(spec_pipe_name(sid), sid);
    lemma_dashed_text_not_in(spec_single_instance_name(sid), sid);
}

/// An ASCII lower-case letter made upper case; any other character as is.
pub open spec fn ascii_upper(c: char) -> char {
    if 'a' <= c <= 'z' {
        ((c as u32) - 32) as char
    } else {
        c
    }
}

proof fn lemma_fnv_congruent(x: Seq<u8>, y: Seq<u8>)
    requires
        x.len() == y.len(),
        forall|i: int| 0 <= i < x.len() ==> upper_byte(#[trigger] x[i]) == upper_byte(y[i]),
    ensures
        fnv1a_upper(x) == fnv1a_upper(y),
    decreases x.len(),
{
    if x.len() > 0 {
        assert(upper_byte(x[x.len() - 1]) == upper_byte(y[y.len() - 1]));
        lemma_fnv_congruent(x.drop_last(), y.drop_last());
    }
}

/// Each byte with its ASCII letters made upper case.
pub open spec fn upper_bytes(x: Seq<u8>) -> Seq<u8> {
    Seq::new(x.len(), |i: int| upper_byte(x[i]))
}

/// Each character with its ASCII letters made upper case, as
/// `str::to_ascii_uppercase` gives it.
pub open spec fn upper_text(s: Seq<char>) -> Seq<char> {
    Seq::new(s.len(), |i: int| ascii_upper(s[i]))
}

/// An ASCII upper-case letter made lower case; any other character as is.
pub open spec fn ascii_lower(c: char) -> char {
    if 'A' <= c <= 'Z' {
        ((c as u32) + 32) as char
    } else {
        c
    }
}

/// Each character with its ASCII letters made lower case, as
/// `str::to_ascii_lowercase` gives it.
pub open spec fn lower_text(s: Seq<char>) -> Seq<char> {
    Seq::new(s.len(), |i: int| ascii_lower(s[i]))
}

/// Upper-casing the bytes of one character's UTF-8 encoding is encoding the
/// upper-cased character: only an ASCII letter's byte is in `a..=z`;
/// the bytes of any other character are left alone.
proof fn lemma_upper_scalar(c: char)
    ensures
        upper_bytes(encode_scalar(c as u32)) == encode_scalar(ascii_upper(c) as u32),
{
    let v = c as u32;
    if 'a' <= c <= 'z' {
        let u = ascii_upper(c) as u32;
        assert(u == v - 32);
        assert(v & 0x7F == v) by (bit_vector)
            requires
                v <= 0x7F,
        ;
        assert(u & 0x7F == u) by (bit_vector)
            requires
                u <= 0x7F,
        ;
        assert(upper_bytes(encode_scalar(v)) =~= encode_scalar(u));
    } else {
        assert(ascii_upper(c) == c);
        if has_width_1_encoding(v) {
            assert(v & 0x7F == v) by (bit_vector)
                requires
                    v <= 0x7F,
            ;
            assert(!(97 <= v <= 122));
        } else {
            assert(leading_byte_width_2(v) >= 0xC0) by (bit_vector);
            assert(leading_byte_width_3(v) >= 0xC0) by (bit_vector);
            assert(leading_byte_width_4(v) >= 0xC0) by (bit_vector);
            assert(last_continuation_byte(v) >= 0x80) by (bit_vector);
            assert(second_last_continuation_byte(v) >= 0x80) by (bit_vector);
            assert(third_last_continuation_byte(v) >= 0x80) by (bit_vector);
        }
        assert(upper_bytes(encode_scalar(v)) =~= encode_scalar(v));
    }
}

/// Upper-casing the UTF-8 bytes of a text is encoding the upper-cased text.
proof fn lemma_upper_encode(s: Seq<char>)
    ensures
        upper_bytes(encode_utf8(s)) == encode_utf8(upper_text(s)),
    decreases s.len(),
{
    if s.len() == 0 {
        assert(upper_bytes(encode_utf8(s)) =~= encode_utf8(upper_text(s)));
    } else {
        lemma_upper_encode(s.drop_first());
        lemma_upper_scalar(s[0]);
        assert(upper_text(s).drop_first() =~= upper_text(s.drop_first()));
        assert(upper_text(s)[0] == ascii_upper(s[0]));
        let x = encode_scalar(s[0] as u32);
        let y = encode_utf8(s.drop_first());
        assert(upper_bytes(x + y) =~= upper_bytes(x) + upper_bytes(y));
    }
}

/// Two SIDs that differ only in the case of ASCII letters get the same
/// hash, and so the same pipe and lock names.
pub proof fn lemma_names_ignore_ascii_case(a: Seq<char>, b: Seq<char>)
    requires
        a.len() == b.len(),
        forall|i: int| 0 <= i < a.len() ==> ascii_upper(#[trigger] a[i]) == ascii_upper(b[i]),
    ensures
        spec_sid_hash(a) == spec_sid_hash(b),
        spec_pipe_name(a) == spec_pipe_name(b),
        spec_single_instance_name(a) == spec_single_instance_name(b),
{
    assert(upper_text(a) =~= upper_text(b));
    lemma_upper_encode(a);
    lemma_upper_encode(b);
    let x = encode_utf8(a);
    let y = encode_utf8(b);
    assert(upper_bytes(x) == upper_bytes(y));
    assert(x.len() == upper_bytes(x).len());
    assert forall|i: int| 0 <= i < x.len() implies upper_byte(#[trigger] x[i]) == upper_byte(y[i]) by {
        assert(upper_bytes(x)[i] == upper_bytes(y)[i]);
    }
    lemma_fnv_congruent(x, y);
}

/// A lower-case hexadecimal digit.
pub open spec fn is_lower_hex(c: char) -> bool {
    ('0' <= c && c <= '9') || ('a' <= c && c <= 'f')
}

proof fn lemma_hex_digits_are_lower_hex(n: nat, count: nat)
    ensures
        hex_digits(n, count).len() == count,
        forall|i: int| 0 <= i < count ==> is_lower_hex(#[trigger] hex_digits(n, count)[i]),
    decreases count,
{
    if count > 0 {
        lemma_hex_digits_are_lower_hex(n / 16, (count - 1) as nat);
        let d = n % 16;
        assert(is_lower_hex(hex_char(d))) by {
            if d < 10 {
                assert(digit_char(d) as u32 == d + 48);
            } else {
                assert(hex_char(d) as u32 == d - 10 + 97);
            }
        }
        let t = hex_digits(n, count);
        assert forall|i: int| 0 <= i < count implies is_lower_hex(#[trigger] t[i]) by {
            if i < count - 1 {
                assert(t[i] == hex_digits(n / 16, (count - 1) as nat)[i]);
            }
        }
    }
}

/// The short form of any SID is sixteen lower-case hexadecimal digits, and
/// it is the same for the SID in ASCII upper case and in ASCII lower case.
pub proof fn lemma_sid_hash_shape_and_case(sid: Seq<char>)
    ensures
        spec_sid_hash(sid).len() == 16,
        forall|i: int| 0 <= i < 16 ==> is_lower_hex(#[trigger] spec_sid_hash(sid)[i]),
        spec_sid_hash(upper_text(sid)) == spec_sid_hash(sid),
        spec_sid_hash(lower_text(sid)) == spec_sid_hash(sid),
{
    let h = fnv1a_upper(encode_utf8(sid));
    lemma_hex_len_u64(h);
    lemma_hex_digits_are_lower_hex(h as nat, 16);
    let up = upper_text(sid);
    assert forall|i: int| 0 <= i < up.len() implies ascii_upper(#[trigger] up[i]) == ascii_upper(sid[i]) by {
        let c = sid[i];
        if 'a' <= c <= 'z' {
            assert(ascii_upper(c) as u32 == c as u32 - 32);
        }
    }
    lemma_names_ignore_ascii_case(up, sid);
    let low = lower_text(sid);
    assert forall|i: int| 0 <= i < low.len() implies ascii_upper(#[trigger] low[i]) == ascii_upper(sid[i]) by {
        let c = sid[i];
        if 'A' <= c <= 'Z' {
            assert(ascii_lower(c) as u32 == c as u32 + 32);
        } else if 'a' <= c <= 'z' {
            assert(ascii_upper(c) as u32 == c as u32 - 32);
        }
    }
    lemma_names_ignore_ascii_case(low, sid);
}

} // verus!
