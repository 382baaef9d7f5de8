//! The DACL put on the pipe.
//!
//! The pipe's default ACL is not relied on: only the Agent's SID gets
//! rights. This module builds the SDDL string; applying it to the OS is the
//! transport's part. Keeping the string apart lets its intent be tested on
//! any OS.

use vstd::prelude::*;
use crate::text::{chars_of, is_digit};

verus! {

/// A SID or an SDDL fragment that was refused.
#[derive(Debug, Clone, Copy, PartialEq, Eq, Structural)]
pub enum SecurityError {
    /// Not a SID string. A string from the peer put into an SDDL as is could
    /// inject another ACE, so it is refused before anything is built.
    MalformedSid,
}

impl SecurityError {
    /// The diagnostic text.
    pub fn message(&self) -> (r: &'static str)
        ensures
            r@ == "SID 文字列として解釈できない"@,
    {
        "SID 文字列として解釈できない"
    }
}

/// One or more runs of decimal digits, separated by single dashes.
pub open spec fn is_dashed_digits(t: Seq<char>) -> bool {
    &&& t.len() > 0
    &&& is_digit(t[0])
    &&& is_digit(t.last())
    &&& forall|i: int| 0 <= i < t.len() ==> is_digit(#[trigger] t[i]) || t[i] == '-'
    &&& forall|i: int| 0 <= i < t.len() - 1 ==> !(#[trigger] t[i] == '-' && t[i + 1] == '-')
}

/// A SID string: `S-1-<authority>-<subauthority>...` in decimal, with at
/// least one subauthority (`S` in either case). SDDL's two-letter
/// abbreviations (`BA`, `WD`, ...) may name wide principals and are not SIDs.
pub open spec fn is_valid_sid(s: Seq<char>) -> bool {
    &&& s.len() > 4
    &&& s[0] == 'S' || s[0] == 's'
    &&& s[1] == '-'
    &&& s[2] == '1'
    &&& s[3] == '-'
    &&& is_dashed_digits(s.subrange(4, s.len() as int))
    &&& exists|i: int| 4 <= i < s.len() && s[i] == '-'
}

fn is_ascii_digit(c: char) -> (r: bool)
    ensures
        r == is_digit(c),
{
    '0' <= c && c <= '9'
}

/// Checks that `sid` is a SID string.
///
/// # Errors
///
/// [`SecurityError::MalformedSid`] when it is not.
pub fn validate_sid(sid: &str) -> (r: Result<(), SecurityError>)
    ensures
        r is Ok <==> is_valid_sid(sid@),
        r is Err ==> r == Err::<(), SecurityError>(SecurityError::MalformedSid),
{
    let c = chars_of(sid);
    let n = c.len();
    if n < 5 {
        return Err(SecurityError::MalformedSid);
    }
    if !((c[0] == 'S' || c[0] == 's') && c[1] == '-' && c[2] == '1' && c[3] == '-') {
        return Err(SecurityError::MalformedSid);
    }
    let ghost s = sid@;
    let ghost t = s.subrange(4, s.len() as int);
    let mut prev_dash = true;
    let mut seen_dash = false;
    let mut i: usize = 4;
    while i < n
        invariant
            s == sid@,
            c@ == s,
            n == s.len(),
            t == s.subrange(4, s.len() as int),
            n >= 5,
            4 <= i <= n,
            prev_dash == (i == 4 || s[i - 1] == '-'),
            i > 4 ==> is_digit(s[4]),
            seen_dash == exists|j: int| 4 <= j < i && s[j] == '-',
            forall|j: int| 4 <= j < i ==> is_digit(#[trigger] s[j]) || s[j] == '-',
            forall|j: int| 4 <= j < i - 1 ==> !(#[trigger] s[j] == '-' && s[j + 1] == '-'),
        decreases n - i,
    {
        let ch = c[i];
        if ch == '-' {
            if prev_dash {
                proof {
                    if i == 4 {
                        assert(t[0] == '-');
                    } else {
                        assert(t[i - 5] == '-' && t[i - 4] == '-');
                        assert(0 <= i - 5 < t.len() - 1);
                    }
                    assert(!is_dashed_digits(t));
                }
                return Err(SecurityError::MalformedSid);
            }
            prev_dash = true;
            seen_dash = true;
        } else if is_ascii_digit(ch) {
            prev_dash = false;
        } else {
            proof {
                assert(!(is_digit(t[i - 4]) || t[i - 4] == '-'));
            }
            return Err(SecurityError::MalformedSid);
        }
        i = i + 1;
    }
    if prev_dash {
        proof {
            assert(i == n);
            assert(s[n - 1] == '-');
            assert(t.last() == s[n - 1]);
            assert(!is_dashed_digits(t));
        }
        return Err(SecurityError::MalformedSid);
    }
    if !seen_dash {
        return Err(SecurityError::MalformedSid);
    }
    proof {
        assert forall|j: int| 0 <= j < t.len() implies is_digit(#[trigger] t[j]) || t[j] == '-' by {
            assert(t[j] == s[j + 4]);
        }
        assert forall|j: int| 0 <= j < t.len() - 1 implies !(#[trigger] t[j] == '-' && t[j + 1]
            == '-') by {
            assert(t[j] == s[j + 4]);
            assert(t[j + 1] == s[j + 5]);
        }
    }
    Ok(())
}

/// The SDDL that gives the owner, and only the owner, all access.
pub open spec fn spec_owner_only_sddl(sid: Seq<char>) -> Seq<char> {
    "O:"@ + sid + "G:"@ + sid + "D:P(A;;GA;;;"@ + sid + ")"@
}

/// Builds the SDDL that gives all access to the owner only.
///
/// `D:P` cuts inheritance, and the single ACE names the given SID.
/// Administrators and SYSTEM are not added: everyday IPC gets no path for
/// administrative principals.
///
/// # Errors
///
/// [`SecurityError::MalformedSid`] when `sid` is not a SID string.
pub fn owner_only_sddl(sid: &str) -> (r: Result<String, SecurityError>)
    ensures
        match r {
            Ok(s) => is_valid_sid(sid@) && s@ == spec_owner_only_sddl(sid@),
            Err(e) => !is_valid_sid(sid@) && e == SecurityError::MalformedSid,
        },
{
    match validate_sid(sid) {
        Ok(()) => {},
        Err(e) => {
            return Err(e);
        },
    }
    let mut out = String::from_str("O:");
    out.append(sid);
    out.append("G:");
    out.append(sid);
    out.append("D:P(A;;GA;;;");
    out.append(sid);
    out.append(")");
    Ok(out)
}

} // verus!
