//! Backend kinds.
//!
//! A backend is the place on the host where runners execute: native Windows,
//! or a WSL2 distribution. The distribution name lives in the backend's ID,
//! not in the kind.

use vstd::prelude::*;
use crate::text::str_eq;

verus! {

/// Where a runner executes.
#[derive(Debug, Clone, Copy, PartialEq, Eq, Hash, Structural)]
pub enum BackendKind {
    /// GitHub's runner directly on Windows.
    NativeWindows,
    /// GitHub's Linux runner inside a WSL2 distribution.
    Wsl,
}

/// The stable identifier of a kind, used in settings, IPC and logs.
pub open spec fn kind_id(kind: BackendKind) -> Seq<char> {
    match kind {
        BackendKind::NativeWindows => "native_windows"@,
        BackendKind::Wsl => "wsl"@,
    }
}

/// An identifier that names no backend kind. Unknown values are never
/// rounded to a default kind, which could act on a different host.
#[derive(Debug, Clone, PartialEq, Eq)]
pub struct ParseBackendKindError {
    /// The input that could not be read.
    pub input: String,
}

/// What `{:?}` writes for a string: `<str as Debug>::fmt`, the text in
/// double quotes with its escapes.
pub uninterp spec fn debug_text(s: Seq<char>) -> Seq<char>;

/// `format!("{:?}", s)`: the string as `Debug` writes it. The result is
/// named [`debug_text`] of the string.
#[verifier::external_body]
fn debug_string(s: &str) -> (r: String)
    ensures
        r@ == debug_text(s@),
{
    format!("{:?}", s)
}

impl ParseBackendKindError {
    /// The diagnostic text: `unknown backend kind: ` and the input as
    /// `Debug` writes it.
    pub fn to_string(&self) -> (r: String)
        ensures
            r@ == "unknown backend kind: "@ + debug_text(self.input@),
    {
        let mut out = String::from_str("unknown backend kind: ");
        let quoted = debug_string(self.input.as_str());
        out.append(quoted.as_str());
        out
    }
}

/// The kind with the given identifier, or the input back as an error.
pub open spec fn spec_parse_kind(input: Seq<char>) -> Option<BackendKind> {
    if input == "native_windows"@ {
        Some(BackendKind::NativeWindows)
    } else if input == "wsl"@ {
        Some(BackendKind::Wsl)
    } else {
        None
    }
}

impl BackendKind {
    /// The stable identifier, kept apart from any display name.
    pub fn as_str(self) -> (r: &'static str)
        ensures
            r@ == kind_id(self),
    {
        match self {
            BackendKind::NativeWindows => "native_windows",
            BackendKind::Wsl => "wsl",
        }
    }

    /// Every known kind, for UI choices and exhaustive checks.
    pub fn all() -> (r: Vec<BackendKind>)
        ensures
            r@ == seq![BackendKind::NativeWindows, BackendKind::Wsl],
    {
        let mut v = Vec::new();
        v.push(BackendKind::NativeWindows);
        v.push(BackendKind::Wsl);
        v
    }

    /// The display form: the same as the identifier.
    pub fn to_string(self) -> (r: String)
        ensures
            r@ == kind_id(self),
    {
        String::from_str(self.as_str())
    }

    /// Reads an identifier; the match is exact (case included).
    pub fn parse(input: &str) -> (r: Result<BackendKind, ParseBackendKindError>)
        ensures
            match spec_parse_kind(input@) {
                Some(k) => r == Ok::<BackendKind, ParseBackendKindError>(k),
                None => r matches Err(e) && e.input@ == input@,
            },
    {
        if str_eq(input, "native_windows") {
            Ok(BackendKind::NativeWindows)
        } else if str_eq(input, "wsl") {
            Ok(BackendKind::Wsl)
        } else {
            Err(ParseBackendKindError { input: input.to_owned() })
        }
    }
}

impl std::str::FromStr for BackendKind {
    type Err = ParseBackendKindError;

    fn from_str(input: &str) -> (r: Result<BackendKind, ParseBackendKindError>)
        ensures
            match spec_parse_kind(input@) {
                Some(k) => r == Ok::<BackendKind, ParseBackendKindError>(k),
                None => r matches Err(e) && e.input@ == input@,
            },
    {
        BackendKind::parse(input)
    }
}

/// Every kind reads back from its identifier, and identifiers are distinct.
pub proof fn lemma_kind_id_round_trip(kind: BackendKind)
    ensures
        spec_parse_kind(kind_id(kind)) == Some(kind),
        kind_id(BackendKind::NativeWindows) != kind_id(BackendKind::Wsl),
{
    reveal_strlit("native_windows");
    reveal_strlit("wsl");
    assert(kind_id(BackendKind::NativeWindows).len() != kind_id(BackendKind::Wsl).len());
}

} // verus!
