//! Provider error model: a typed kind, a message, and retry metadata.
//!
//! Retryability is derived from the kind at construction time and cannot be
//! set independently: `Network`, `Timeout`, and `RateLimited` are retryable;
//! every other kind is terminal for the operation.

use vstd::prelude::*;
use vstd::string::*;

use crate::text;
use crate::time::Duration;
use crate::wire;

verus! {

/// Provider result type alias.
pub type Result<T> = core::result::Result<T, ProviderError>;

/// Error taxonomy: the wire kinds, plus `Unimplemented`, which the wire does
/// not tell apart from `Internal`.
#[derive(Copy, Clone, Debug, Eq, PartialEq, Structural)]
pub enum ProviderErrorKind {
    NotFound,
    NotADirectory,
    NotAFile,
    PermissionDenied,
    Network,
    Timeout,
    Denied,
    InvalidInput,
    TooLarge,
    RateLimited,
    VersionMismatch,
    Unimplemented,
    Internal,
}

impl ProviderErrorKind {
    /// The kinds for which trying again can help.
    pub open spec fn retryable(self) -> bool {
        self is Network || self is Timeout || self is RateLimited
    }

    /// The kind's name in a rendered error.
    pub open spec fn tag(self) -> Seq<char> {
        match self {
            Self::NotFound => "not-found"@,
            Self::NotADirectory => "not-a-directory"@,
            Self::NotAFile => "not-a-file"@,
            Self::PermissionDenied => "permission-denied"@,
            Self::Network => "network"@,
            Self::Timeout => "timeout"@,
            Self::Denied => "denied"@,
            Self::InvalidInput => "invalid-input"@,
            Self::TooLarge => "too-large"@,
            Self::RateLimited => "rate-limited"@,
            Self::VersionMismatch => "version-mismatch"@,
            Self::Unimplemented => "unimplemented"@,
            Self::Internal => "internal"@,
        }
    }

    /// The wire kind that this kind lowers to.
    pub open spec fn lowered(self) -> wire::ErrorKind {
        match self {
            Self::NotFound => wire::ErrorKind::NotFound,
            Self::NotADirectory => wire::ErrorKind::NotADirectory,
            Self::NotAFile => wire::ErrorKind::NotAFile,
            Self::PermissionDenied => wire::ErrorKind::PermissionDenied,
            Self::Network => wire::ErrorKind::Network,
            Self::Timeout => wire::ErrorKind::Timeout,
            Self::Denied => wire::ErrorKind::Denied,
            Self::RateLimited => wire::ErrorKind::RateLimited,
            Self::InvalidInput => wire::ErrorKind::InvalidInput,
            Self::TooLarge => wire::ErrorKind::TooLarge,
            Self::VersionMismatch => wire::ErrorKind::VersionMismatch,
            Self::Unimplemented | Self::Internal => wire::ErrorKind::Internal,
        }
    }

    /// The kind that a wire kind is raised to.
    pub open spec fn raised(kind: wire::ErrorKind) -> Self {
        match kind {
            wire::ErrorKind::NotFound => Self::NotFound,
            wire::ErrorKind::NotADirectory => Self::NotADirectory,
            wire::ErrorKind::NotAFile => Self::NotAFile,
            wire::ErrorKind::PermissionDenied => Self::PermissionDenied,
            wire::ErrorKind::Network => Self::Network,
            wire::ErrorKind::Timeout => Self::Timeout,
            wire::ErrorKind::Denied => Self::Denied,
            wire::ErrorKind::RateLimited => Self::RateLimited,
            wire::ErrorKind::InvalidInput => Self::InvalidInput,
            wire::ErrorKind::TooLarge => Self::TooLarge,
            wire::ErrorKind::VersionMismatch => Self::VersionMismatch,
            wire::ErrorKind::Internal => Self::Internal,
        }
    }

    fn is_retryable(self) -> (r: bool)
        ensures
            r == self.retryable(),
    {
        matches!(self, Self::Network | Self::Timeout | Self::RateLimited)
    }

    fn kind_tag(self) -> (r: &'static str)
        ensures
            r@ == self.tag(),
    {
        match self {
            Self::NotFound => "not-found",
            Self::NotADirectory => "not-a-directory",
            Self::NotAFile => "not-a-file",
            Self::PermissionDenied => "permission-denied",
            Self::Network => "network",
            Self::Timeout => "timeout",
            Self::Denied => "denied",
            Self::InvalidInput => "invalid-input",
            Self::TooLarge => "too-large",
            Self::RateLimited => "rate-limited",
            Self::VersionMismatch => "version-mismatch",
            Self::Unimplemented => "unimplemented",
            Self::Internal => "internal",
        }
    }

    fn wit_kind(self) -> (r: wire::ErrorKind)
        ensures
            r == self.lowered(),
    {
        match self {
            Self::NotFound => wire::ErrorKind::NotFound,
            Self::NotADirectory => wire::ErrorKind::NotADirectory,
            Self::NotAFile => wire::ErrorKind::NotAFile,
            Self::PermissionDenied => wire::ErrorKind::PermissionDenied,
            Self::Network => wire::ErrorKind::Network,
            Self::Timeout => wire::ErrorKind::Timeout,
            Self::Denied => wire::ErrorKind::Denied,
            Self::RateLimited => wire::ErrorKind::RateLimited,
            Self::InvalidInput => wire::ErrorKind::InvalidInput,
            Self::TooLarge => wire::ErrorKind::TooLarge,
            Self::VersionMismatch => wire::ErrorKind::VersionMismatch,
            Self::Unimplemented | Self::Internal => wire::ErrorKind::Internal,
        }
    }
}

/// What a [`ProviderError`] says. Whether it is retryable follows from the
/// kind.
pub struct Failure {
    pub kind: ProviderErrorKind,
    pub message: Seq<char>,
    pub retry_after: Option<nat>,
}

/// A failure of the given kind without a backoff hint.
pub open spec fn failure(kind: ProviderErrorKind, message: Seq<char>) -> Failure {
    Failure { kind, message, retry_after: None }
}

/// Provider-side error.
///
/// Construct through the per-kind constructors ([`Self::not_found`],
/// [`Self::network`], ...) or [`Self::from_http_status`]; there is no public
/// constructor that takes a kind directly. The `retryable` flag is fixed by
/// the kind; [`Self::with_retry_after`] is the only post-construction knob.
#[derive(Debug)]
pub struct ProviderError {
    kind: ProviderErrorKind,
    message: String,
    retryable: bool,
    retry_after: Option<Duration>,
}

/// The length of an optional span.
pub open spec fn nanos_of(d: Option<Duration>) -> Option<nat> {
    match d {
        Some(d) => Some(d@),
        None => None,
    }
}

impl View for ProviderError {
    type V = Failure;

    closed spec fn view(&self) -> Failure {
        Failure {
            kind: self.kind,
            message: self.message@,
            retry_after: nanos_of(self.retry_after),
        }
    }
}

impl Clone for ProviderError {
    fn clone(&self) -> (r: Self)
        ensures
            r@ == self@,
    {
        proof {
            use_type_invariant(self);
        }
        ProviderError {
            kind: self.kind,
            message: self.message.clone(),
            retryable: self.retryable,
            retry_after: self.retry_after,
        }
    }
}

/// The failure that a bare HTTP status code stands for.
pub open spec fn status_kind(status: u16) -> ProviderErrorKind {
    if status == 401 {
        ProviderErrorKind::PermissionDenied
    } else if status == 403 {
        ProviderErrorKind::Denied
    } else if status == 404 {
        ProviderErrorKind::NotFound
    } else if status == 408 {
        ProviderErrorKind::Timeout
    } else if status == 429 {
        ProviderErrorKind::RateLimited
    } else if 400 <= status <= 499 {
        ProviderErrorKind::InvalidInput
    } else if 500 <= status <= 599 {
        ProviderErrorKind::Network
    } else {
        ProviderErrorKind::Internal
    }
}

/// An error in text form: the kind and its retryability in brackets in front
/// of the message, except for internal and unimplemented errors, which are
/// the message alone.
pub open spec fn rendered(f: Failure) -> Seq<char> {
    if f.kind is Internal || f.kind is Unimplemented {
        f.message
    } else {
        "["@ + f.kind.tag() + "; retryable="@ + (if f.kind.retryable() {
            "true"@
        } else {
            "false"@
        }) + "] "@ + f.message
    }
}

/// An error on the wire says what the failure says.
pub open spec fn lowered_failure(f: Failure, r: wire::WireError) -> bool {
    &&& r.kind == f.kind.lowered()
    &&& r.message@ == f.message
    &&& r.retryable == f.kind.retryable()
    &&& r.retry_after == match f.retry_after {
        Some(nanos) => Some(
            if nanos / 1_000_000_000 <= u32::MAX {
                (nanos / 1_000_000_000) as u32
            } else {
                u32::MAX
            },
        ),
        None => None::<u32>,
    }
}

impl ProviderError {
    #[verifier::type_invariant]
    spec fn inv(self) -> bool {
        self.retryable == self.kind.retryable()
    }

    fn new(kind: ProviderErrorKind, message: &str) -> (r: Self)
        ensures
            r@ == failure(kind, message@),
    {
        ProviderError {
            kind,
            message: message.to_owned(),
            retryable: kind.is_retryable(),
            retry_after: None,
        }
    }

    /// Attach a structured backoff hint. Meaningful only on a `RateLimited`
    /// error.
    #[must_use]
    pub fn with_retry_after(self, retry_after: Option<Duration>) -> (r: Self)
        ensures
            r@ == (Failure { retry_after: nanos_of(retry_after), ..self@ }),
    {
        proof {
            use_type_invariant(&self);
        }
        ProviderError {
            kind: self.kind,
            message: self.message,
            retryable: self.retryable,
            retry_after,
        }
    }

    /// Structured backoff hint, if the upstream supplied one.
    pub fn retry_after(&self) -> (r: Option<Duration>)
        ensures
            nanos_of(r) == self@.retry_after,
    {
        self.retry_after
    }

    pub fn internal(message: &str) -> (r: Self)
        ensures
            r@ == failure(ProviderErrorKind::Internal, message@),
    {
        Self::new(ProviderErrorKind::Internal, message)
    }

    pub fn not_found(message: &str) -> (r: Self)
        ensures
            r@ == failure(ProviderErrorKind::NotFound, message@),
    {
        Self::new(ProviderErrorKind::NotFound, message)
    }

    pub fn not_a_directory(message: &str) -> (r: Self)
        ensures
            r@ == failure(ProviderErrorKind::NotADirectory, message@),
    {
        Self::new(ProviderErrorKind::NotADirectory, message)
    }

    pub fn not_a_file(message: &str) -> (r: Self)
        ensures
            r@ == failure(ProviderErrorKind::NotAFile, message@),
    {
        Self::new(ProviderErrorKind::NotAFile, message)
    }

    pub fn permission_denied(message: &str) -> (r: Self)
        ensures
            r@ == failure(ProviderErrorKind::PermissionDenied, message@),
    {
        Self::new(ProviderErrorKind::PermissionDenied, message)
    }

    pub fn invalid_input(message: &str) -> (r: Self)
        ensures
            r@ == failure(ProviderErrorKind::InvalidInput, message@),
    {
        Self::new(ProviderErrorKind::InvalidInput, message)
    }

    pub fn network(message: &str) -> (r: Self)
        ensures
            r@ == failure(ProviderErrorKind::Network, message@),
    {
        Self::new(ProviderErrorKind::Network, message)
    }

    pub fn timeout(message: &str) -> (r: Self)
        ensures
            r@ == failure(ProviderErrorKind::Timeout, message@),
    {
        Self::new(ProviderErrorKind::Timeout, message)
    }

    pub fn denied(message: &str) -> (r: Self)
        ensures
            r@ == failure(ProviderErrorKind::Denied, message@),
    {
        Self::new(ProviderErrorKind::Denied, message)
    }

    pub fn too_large(message: &str) -> (r: Self)
        ensures
            r@ == failure(ProviderErrorKind::TooLarge, message@),
    {
        Self::new(ProviderErrorKind::TooLarge, message)
    }

    pub fn rate_limited(message: &str) -> (r: Self)
        ensures
            r@ == failure(ProviderErrorKind::RateLimited, message@),
    {
        Self::new(ProviderErrorKind::RateLimited, message)
    }

    pub fn version_mismatch(message: &str) -> (r: Self)
        ensures
            r@ == failure(ProviderErrorKind::VersionMismatch, message@),
    {
        Self::new(ProviderErrorKind::VersionMismatch, message)
    }

    pub fn unimplemented(message: &str) -> (r: Self)
        ensures
            r@ == failure(ProviderErrorKind::Unimplemented, message@),
    {
        Self::new(ProviderErrorKind::Unimplemented, message)
    }

    /// Map a bare HTTP status code to an error of the matching kind.
    ///
    /// The table: 401 permission-denied, 403 denied, 404 not-found,
    /// 408 timeout, 429 rate-limited, any other 4xx invalid-input, 5xx
    /// network (retryable: the upstream may recover), anything else
    /// internal.
    pub fn from_http_status(status: u16) -> (r: Self)
        ensures
            r@ == failure(status_kind(status), "HTTP "@ + text::decimal(status as nat)),
    {
        let digits = text::decimal_of(status as u64);
        let message = text::concat("HTTP ", digits.as_str());
        let message = message.as_str();
        match status {
            401 => Self::permission_denied(message),
            403 => Self::denied(message),
            404 => Self::not_found(message),
            408 => Self::timeout(message),
            429 => Self::rate_limited(message),
            400..=499 => Self::invalid_input(message),
            500..=599 => Self::network(message),
            _ => Self::internal(message),
        }
    }

    /// Whether trying again can help.
    pub fn is_retryable(&self) -> (r: bool)
        ensures
            r == self@.kind.retryable(),
    {
        proof {
            use_type_invariant(self);
        }
        self.retryable
    }

    pub fn kind(&self) -> (r: ProviderErrorKind)
        ensures
            r == self@.kind,
    {
        self.kind
    }

    pub fn message(&self) -> (r: &str)
        ensures
            r@ == self@.message,
    {
        self.message.as_str()
    }

    /// The error in text form.
    pub fn to_string(&self) -> (r: String)
        ensures
            r@ == rendered(self@),
    {
        proof {
            use_type_invariant(self);
        }
        if matches!(self.kind, ProviderErrorKind::Internal | ProviderErrorKind::Unimplemented) {
            return self.message.clone();
        }
        let mut out = "[".to_owned();
        out.append(self.kind.kind_tag());
        out.append("; retryable=");
        out.append(if self.retryable {
            "true"
        } else {
            "false"
        });
        out.append("] ");
        out.append(self.message.as_str());
        out
    }

    /// Lowers the error onto the wire. A backoff hint is sent in whole
    /// seconds, at most `u32::MAX`.
    pub fn into_wire(self) -> (r: wire::WireError)
        ensures
            lowered_failure(self@, r),
    {
        proof {
            use_type_invariant(&self);
        }
        let retry_after: Option<u32> = match self.retry_after {
            Some(d) => {
                let secs: u64 = d.as_secs();
                Some(
                    if secs <= u32::MAX as u64 {
                        secs as u32
                    } else {
                        u32::MAX
                    },
                )
            },
            None => None,
        };
        wire::WireError {
            kind: self.kind.wit_kind(),
            message: self.message,
            retryable: self.retryable,
            retry_after,
        }
    }

    /// The provider error that a failed callout stands for.
    pub fn from_callout_error(error: wire::CalloutError) -> (r: Self)
        ensures
            r@ == failure(
                ProviderErrorKind::raised(error.kind),
                "callout error: "@ + error.message@,
            ),
    {
        let message = text::concat("callout error: ", error.message.as_str());
        let message = message.as_str();
        match error.kind {
            wire::ErrorKind::NotFound => Self::not_found(message),
            wire::ErrorKind::NotADirectory => Self::not_a_directory(message),
            wire::ErrorKind::NotAFile => Self::not_a_file(message),
            wire::ErrorKind::PermissionDenied => Self::permission_denied(message),
            wire::ErrorKind::Network => Self::network(message),
            wire::ErrorKind::Timeout => Self::timeout(message),
            wire::ErrorKind::Denied => Self::denied(message),
            wire::ErrorKind::RateLimited => Self::rate_limited(message),
            wire::ErrorKind::InvalidInput => Self::invalid_input(message),
            wire::ErrorKind::TooLarge => Self::too_large(message),
            wire::ErrorKind::VersionMismatch => Self::version_mismatch(message),
            wire::ErrorKind::Internal => Self::internal(message),
        }
    }
}

/// A callout error keeps its kind on the way through the provider and back
/// onto the wire.
pub proof fn law_wire_kind_round_trip(kind: wire::ErrorKind)
    ensures
        ProviderErrorKind::raised(kind).lowered() == kind,
{
}

/// Raising what was lowered gives the kind back, except that an unimplemented
/// error comes back as an internal one.
pub proof fn law_kind_round_trip(kind: ProviderErrorKind)
    ensures
        ProviderErrorKind::raised(kind.lowered()) == (if kind is Unimplemented {
            ProviderErrorKind::Internal
        } else {
            kind
        }),
{
}

/// A status-derived error is retryable exactly for 408, 429 and the 5xx
/// codes.
pub proof fn law_status_retryable(status: u16)
    ensures
        status_kind(status).retryable() == (status == 408 || status == 429 || 500 <= status
            <= 599),
{
}

/// The text of an error ends in its message. Errors that are the provider's
/// own fault are the message alone; any other has its kind in brackets in
/// front.
pub proof fn law_error_text_ends_in_its_message(f: Failure)
    ensures
        rendered(f).len() >= f.message.len(),
        rendered(f).skip(rendered(f).len() - f.message.len()) == f.message,
        f.kind is Internal || f.kind is Unimplemented ==> rendered(f) == f.message,
        !(f.kind is Internal) && !(f.kind is Unimplemented) ==> rendered(f)[0] == '['
            && rendered(f).subrange(1, 1 + f.kind.tag().len() as int) == f.kind.tag(),
{
    reveal_strlit("[");
    let all = rendered(f);
    assert(all.skip(all.len() - f.message.len()) =~= f.message);
    if !(f.kind is Internal) && !(f.kind is Unimplemented) {
        assert(all.subrange(1, 1 + f.kind.tag().len() as int) =~= f.kind.tag());
    }
}

} // verus!
