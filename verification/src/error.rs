//! The error contract.
//!
//! A machine-readable code is kept apart from the translation key shown to the
//! user, so that changing a translation never changes behaviour. Raw HTTP
//! responses and OS command lines never go into the details.

use vstd::prelude::*;
use crate::handshake::HandshakeRejection;
use crate::ids::OperationId;

verus! {

/// Machine-readable error code.
#[derive(Debug, Clone, Copy, PartialEq, Eq, Hash, Structural)]
pub enum ErrorCode {
    /// The credential expired. A runner is not declared dead on this ground.
    AuthExpired,
    PermissionOrPolicy,
    RateLimited,
    RunnerBusy,
    /// The observation is old; it is never rounded to success.
    StatusStale,
    /// A path or resource outside the product's ownership was addressed.
    PathNotOwned,
    ProtocolMismatch,
    /// `expectedRevision` differs from the current revision.
    RevisionConflict,
    RequiresConfirmation,
    ChecksumMismatch,
    WslGuestUnreachable,
    /// An idempotency key was reused for a different operation, or names no operation.
    RequestIdConflict,
    /// The method is in the registry but this version does not serve it.
    MethodNotServed,
}

/// The translation key of a code.
pub open spec fn spec_message_key(code: ErrorCode) -> Seq<char> {
    match code {
        ErrorCode::AuthExpired => "errors.authExpired"@,
        ErrorCode::PermissionOrPolicy => "errors.permissionOrPolicy"@,
        ErrorCode::RateLimited => "errors.rateLimited"@,
        ErrorCode::RunnerBusy => "errors.runnerBusy"@,
        ErrorCode::StatusStale => "errors.statusStale"@,
        ErrorCode::PathNotOwned => "errors.pathNotOwned"@,
        ErrorCode::ProtocolMismatch => "errors.protocolMismatch"@,
        ErrorCode::RevisionConflict => "errors.revisionConflict"@,
        ErrorCode::RequiresConfirmation => "errors.requiresConfirmation"@,
        ErrorCode::ChecksumMismatch => "errors.checksumMismatch"@,
        ErrorCode::WslGuestUnreachable => "errors.wslGuestUnreachable"@,
        ErrorCode::RequestIdConflict => "errors.requestIdConflict"@,
        ErrorCode::MethodNotServed => "errors.methodNotServed"@,
    }
}

/// Whether the same request may be resent unchanged. This is not a statement
/// that any outside effect was undone.
pub open spec fn spec_is_retryable(code: ErrorCode) -> bool {
    match code {
        ErrorCode::AuthExpired => false,
        ErrorCode::PermissionOrPolicy => false,
        ErrorCode::RateLimited => true,
        ErrorCode::RunnerBusy => true,
        ErrorCode::StatusStale => true,
        ErrorCode::PathNotOwned => false,
        ErrorCode::ProtocolMismatch => false,
        ErrorCode::RevisionConflict => false,
        ErrorCode::RequiresConfirmation => false,
        ErrorCode::ChecksumMismatch => false,
        ErrorCode::WslGuestUnreachable => true,
        ErrorCode::RequestIdConflict => false,
        ErrorCode::MethodNotServed => false,
    }
}

impl ErrorCode {
    /// The translation key used by the UI.
    pub fn message_key(self) -> (r: &'static str)
        ensures
            r@ == spec_message_key(self),
    {
        match self {
            ErrorCode::AuthExpired => "errors.authExpired",
            ErrorCode::PermissionOrPolicy => "errors.permissionOrPolicy",
            ErrorCode::RateLimited => "errors.rateLimited",
            ErrorCode::RunnerBusy => "errors.runnerBusy",
            ErrorCode::StatusStale => "errors.statusStale",
            ErrorCode::PathNotOwned => "errors.pathNotOwned",
            ErrorCode::ProtocolMismatch => "errors.protocolMismatch",
            ErrorCode::RevisionConflict => "errors.revisionConflict",
            ErrorCode::RequiresConfirmation => "errors.requiresConfirmation",
            ErrorCode::ChecksumMismatch => "errors.checksumMismatch",
            ErrorCode::WslGuestUnreachable => "errors.wslGuestUnreachable",
            ErrorCode::RequestIdConflict => "errors.requestIdConflict",
            ErrorCode::MethodNotServed => "errors.methodNotServed",
        }
    }

    /// Whether the same request may be resent unchanged.
    pub fn is_retryable(self) -> (r: bool)
        ensures
            r == spec_is_retryable(self),
    {
        match self {
            ErrorCode::AuthExpired => false,
            ErrorCode::PermissionOrPolicy => false,
            ErrorCode::RateLimited => true,
            ErrorCode::RunnerBusy => true,
            ErrorCode::StatusStale => true,
            ErrorCode::PathNotOwned => false,
            ErrorCode::ProtocolMismatch => false,
            ErrorCode::RevisionConflict => false,
            ErrorCode::RequiresConfirmation => false,
            ErrorCode::ChecksumMismatch => false,
            ErrorCode::WslGuestUnreachable => true,
            ErrorCode::RequestIdConflict => false,
            ErrorCode::MethodNotServed => false,
        }
    }
}

/// A structured detail value. Secrets, raw responses and command lines are
/// never put here.
#[derive(Debug, Clone, PartialEq, Eq)]
pub enum DetailValue {
    /// A short text value, such as a field name or a decimal revision.
    Text(String),
    /// The reason a handshake was refused.
    Rejection(HandshakeRejection),
}

/// One keyed detail.
#[derive(Debug, Clone, PartialEq, Eq)]
pub struct Detail {
    pub key: String,
    pub value: DetailValue,
}

/// The keys of a detail list, in order.
pub open spec fn detail_keys(details: Seq<Detail>) -> Seq<Seq<char>> {
    details.map_values(|d: Detail| d.key@)
}

/// No key occurs twice.
pub open spec fn keys_unique(details: Seq<Detail>) -> bool {
    forall|i: int, j: int|
        0 <= i < j < details.len() ==> (#[trigger] details[i]).key@ != (#[trigger] details[j]).key@
}

/// The value stored under `key`: the first entry with that key, if any.
pub open spec fn detail_lookup(details: Seq<Detail>, key: Seq<char>) -> Option<DetailValue>
    decreases details.len(),
{
    if details.len() == 0 {
        None
    } else if details[0].key@ == key {
        Some(details[0].value)
    } else {
        detail_lookup(details.drop_first(), key)
    }
}

/// The error payload on the wire.
#[derive(Debug, Clone, PartialEq, Eq)]
pub struct ErrorPayload {
    pub code: ErrorCode,
    /// Translation key; never the displayed text itself.
    pub message_key: String,
    pub retryable: bool,
    pub requires_confirmation: bool,
    pub operation_id: Option<OperationId>,
    /// Structured details, each key at most once.
    pub details: Vec<Detail>,
}

impl ErrorPayload {
    /// The payload for `code`, with its default translation key and retry flag.
    pub open spec fn is_fresh_for(self, code: ErrorCode) -> bool {
        &&& self.code == code
        &&& self.message_key@ == spec_message_key(code)
        &&& self.retryable == spec_is_retryable(code)
        &&& self.requires_confirmation == (code == ErrorCode::RequiresConfirmation)
        &&& self.operation_id is None
        &&& self.details@.len() == 0
    }

    /// Builds the payload for a code with its default translation key and
    /// retry flag.
    pub fn new(code: ErrorCode) -> (r: ErrorPayload)
        ensures
            r.is_fresh_for(code),
    {
        ErrorPayload {
            code,
            message_key: code.message_key().to_owned(),
            retryable: code.is_retryable(),
            requires_confirmation: match code {
                ErrorCode::RequiresConfirmation => true,
                _ => false,
            },
            operation_id: None,
            details: Vec::new(),
        }
    }

    /// Names the operation the error is about.
    pub fn with_operation(self, operation_id: OperationId) -> (r: ErrorPayload)
        ensures
            r == (ErrorPayload { operation_id: Some(operation_id), ..self }),
    {
        let mut out = self;
        out.operation_id = Some(operation_id);
        out
    }

    /// Adds one structured detail. A key already present has its value
    /// replaced, as inserting into a JSON object does.
    pub fn with_detail(self, key: &str, value: DetailValue) -> (r: ErrorPayload)
        ensures
            r.code == self.code,
            r.message_key == self.message_key,
            r.retryable == self.retryable,
            r.requires_confirmation == self.requires_confirmation,
            r.operation_id == self.operation_id,
            keys_unique(self.details@) ==> keys_unique(r.details@),
            detail_lookup(r.details@, key@) == Some(value),
            forall|k: Seq<char>| k != key@ ==> detail_lookup(r.details@, k) == detail_lookup(self.details@, k),
            (exists|i: int| 0 <= i < self.details@.len() && (#[trigger] self.details@[i]).key@ == key@)
                ==> r.details@.len() == self.details@.len(),
            !(exists|i: int| 0 <= i < self.details@.len() && (#[trigger] self.details@[i]).key@ == key@)
                ==> r.details@.len() == self.details@.len() + 1,
    {
        let mut out = self;
        let mut i: usize = 0;
        while i < out.details.len()
            invariant
                out == self,
                i <= out.details.len(),
                forall|j: int| 0 <= j < i ==> (#[trigger] out.details@[j]).key@ != key@,
            decreases out.details.len() - i,
        {
            if crate::text::str_eq(out.details[i].key.as_str(), key) {
                let ghost old_details = out.details@;
                let k = out.details[i].key.clone();
                let ghost d = Detail { key: k, value };
                out.details.set(i, Detail { key: k, value });
                proof {
                    assert(out.details@ == old_details.update(i as int, d));
                    lemma_lookup_update(old_details, i as int, d, key@);
                    assert forall|kk: Seq<char>| kk != key@ implies detail_lookup(out.details@, kk) == detail_lookup(self.details@, kk) by {
                        lemma_lookup_update(old_details, i as int, d, kk);
                    }
                    if keys_unique(self.details@) {
                        assert forall|a: int, b: int| 0 <= a < b < out.details@.len() implies (#[trigger] out.details@[a]).key@ != (#[trigger] out.details@[b]).key@ by {
                            assert(out.details@[a].key@ == old_details[a].key@);
                            assert(out.details@[b].key@ == old_details[b].key@);
                        }
                    }
                }
                return out;
            }
            i = i + 1;
        }
        let ghost old_details = out.details@;
        let d = Detail { key: key.to_owned(), value };
        let ghost dd = d;
        out.details.push(d);
        proof {
            assert(!(exists|j: int| 0 <= j < self.details@.len() && (#[trigger] self.details@[j]).key@ == key@));
            lemma_lookup_push(old_details, dd, key@);
            assert forall|kk: Seq<char>| kk != key@ implies detail_lookup(out.details@, kk) == detail_lookup(self.details@, kk) by {
                lemma_lookup_push(old_details, dd, kk);
            }
            if keys_unique(self.details@) {
                assert forall|a: int, b: int| 0 <= a < b < out.details@.len() implies (#[trigger] out.details@[a]).key@ != (#[trigger] out.details@[b]).key@ by {
                    if b == old_details.len() {
                        assert(out.details@[a] == old_details[a]);
                    } else {
                        assert(out.details@[a] == old_details[a]);
                        assert(out.details@[b] == old_details[b]);
                    }
                }
            }
        }
        out
    }
}

impl ErrorPayload {
    /// The value stored under `key`, if any.
    pub fn detail(&self, key: &str) -> (r: Option<&DetailValue>)
        ensures
            match r {
                Some(v) => detail_lookup(self.details@, key@) == Some(*v),
                None => detail_lookup(self.details@, key@) is None,
            },
    {
        let mut i: usize = 0;
        proof {
            assert(self.details@.skip(0) =~= self.details@);
        }
        while i < self.details.len()
            invariant
                i <= self.details@.len(),
                detail_lookup(self.details@, key@) == detail_lookup(self.details@.skip(i as int), key@),
            decreases self.details.len() - i,
        {
            proof {
                assert(self.details@.skip(i as int).drop_first() =~= self.details@.skip(i as int + 1));
            }
            if crate::text::str_eq(self.details[i].key.as_str(), key) {
                return Some(&self.details[i].value);
            }
            i = i + 1;
        }
        None
    }
}

/// `e` is the payload for `code` with exactly one detail: the text `text`
/// under `key`.
pub open spec fn is_text_error(e: ErrorPayload, code: ErrorCode, key: Seq<char>, text: Seq<char>) -> bool {
    &&& e.code == code
    &&& e.message_key@ == spec_message_key(code)
    &&& e.retryable == spec_is_retryable(code)
    &&& e.requires_confirmation == (code == ErrorCode::RequiresConfirmation)
    &&& e.operation_id is None
    &&& e.details@.len() == 1
    &&& detail_lookup(e.details@, key) matches Some(DetailValue::Text(t)) && t@ == text
}

/// The payload for `code` with one text detail.
pub fn text_error(code: ErrorCode, key: &str, text: &str) -> (r: ErrorPayload)
    ensures
        is_text_error(r, code, key@, text@),
{
    let e = ErrorPayload::new(code);
    proof {
        lemma_lookup_none_iff(e.details@, key@);
    }
    e.with_detail(key, DetailValue::Text(text.to_owned()))
}

/// A key is absent from the lookup exactly when no entry carries it.
pub proof fn lemma_lookup_none_iff(details: Seq<Detail>, k: Seq<char>)
    ensures
        detail_lookup(details, k) is None <==> !(exists|i: int|
            0 <= i < details.len() && (#[trigger] details[i]).key@ == k),
    decreases details.len(),
{
    if details.len() > 0 {
        lemma_lookup_none_iff(details.drop_first(), k);
        if exists|i: int| 0 <= i < details.len() && (#[trigger] details[i]).key@ == k {
            let i = choose|i: int| 0 <= i < details.len() && (#[trigger] details[i]).key@ == k;
            if i > 0 {
                assert(details.drop_first()[i - 1] == details[i]);
            }
        }
        if exists|i: int| 0 <= i < details.drop_first().len() && (#[trigger] details.drop_first()[i]).key@ == k {
            let i = choose|i: int| 0 <= i < details.drop_first().len() && (#[trigger] details.drop_first()[i]).key@ == k;
            assert(details[i + 1] == details.drop_first()[i]);
        }
    }
}

/// Replacing the value of the first entry under `key` changes the lookup of
/// `key` and nothing else.
proof fn lemma_lookup_update(details: Seq<Detail>, i: int, d: Detail, k: Seq<char>)
    requires
        0 <= i < details.len(),
        details[i].key@ == d.key@,
        forall|j: int| 0 <= j < i ==> (#[trigger] details[j]).key@ != d.key@,
    ensures
        detail_lookup(details.update(i, d), k) == if k == d.key@ {
            Some(d.value)
        } else {
            detail_lookup(details, k)
        },
    decreases details.len(),
{
    if i > 0 {
        assert(details.update(i, d).drop_first() =~= details.drop_first().update(i - 1, d));
        assert forall|j: int| 0 <= j < i - 1 implies (#[trigger] details.drop_first()[j]).key@ != d.key@ by {
            assert(details.drop_first()[j] == details[j + 1]);
        }
        lemma_lookup_update(details.drop_first(), i - 1, d, k);
        assert(details.update(i, d)[0] == details[0]);
    } else {
        assert(details.update(i, d).drop_first() =~= details.drop_first());
        assert(details.update(i, d)[0] == d);
    }
}

/// Appending an entry under a key not yet present adds exactly that key.
proof fn lemma_lookup_push(details: Seq<Detail>, d: Detail, k: Seq<char>)
    requires
        forall|j: int| 0 <= j < details.len() ==> (#[trigger] details[j]).key@ != d.key@,
    ensures
        detail_lookup(details.push(d), k) == if k == d.key@ {
            Some(d.value)
        } else {
            detail_lookup(details, k)
        },
    decreases details.len(),
{
    if details.len() > 0 {
        assert(details.push(d).drop_first() =~= details.drop_first().push(d));
        assert forall|j: int| 0 <= j < details.drop_first().len() implies (#[trigger] details.drop_first()[j]).key@ != d.key@ by {
            assert(details.drop_first()[j] == details[j + 1]);
        }
        lemma_lookup_push(details.drop_first(), d, k);
        assert(details.push(d)[0] == details[0]);
    } else {
        assert(details.push(d)[0] == d);
        assert(details.push(d).drop_first() =~= Seq::<Detail>::empty());
        assert(detail_lookup(Seq::<Detail>::empty(), k) == None::<DetailValue>);
        assert(details =~= Seq::<Detail>::empty());
    }
}

} // verus!
