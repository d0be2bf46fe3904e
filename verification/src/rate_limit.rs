//! Per-authority rate-limit circuit breaker.
//!
//! One breaker per provider instance, shared by every HTTP send path in this
//! crate (raw requests, typed endpoints, and blob fetches). A 429 arms a
//! cooldown window for the request URL's authority, sized by `Retry-After`
//! when present, else by the endpoint's
//! [`crate::endpoint::RateLimitPolicy`], else by a small default; while the
//! window is open, sends to that authority fail in-guest with a
//! rate-limited error carrying the remaining cooldown, without issuing a
//! callout. The first response with status < 400 disarms the authority, and
//! the whole breaker is cleared on provider shutdown so a window never
//! leaks across instance teardown.
//!
//! Times are readings of a monotonic clock that the caller takes.

use core::hash::BuildHasherDefault;
use std::collections::hash_map::DefaultHasher;
use vstd::prelude::*;
use vstd::string::*;

use crate::text;
use crate::time;
use crate::time::Duration;

verus! {

/// Cooldown after a 429 when the upstream sent no Retry-After, in seconds.
pub const DEFAULT_COOLDOWN_SECS: u64 = 5;

/// Upper bound on a single breaker window, in seconds. Guards against an
/// upstream `Retry-After` large enough to overflow the clock or wedge the
/// breaker open indefinitely. One hour is well past any real backoff for a
/// filesystem.
pub const MAX_COOLDOWN_SECS: u64 = 3600;

/// The open windows by authority: the instant each one closes, in seconds and
/// nanoseconds.
#[verifier::external_body]
pub struct WindowTable {
    map: hashbrown::HashMap<String, (u64, u32), BuildHasherDefault<DefaultHasher>>,
}

/// What a [`WindowTable`] holds.
pub uninterp spec fn windows(table: WindowTable) -> Map<Seq<char>, (u64, u32)>;

/// No window is open.
pub open spec fn no_windows() -> Map<Seq<char>, (u64, u32)> {
    Map::empty()
}

impl WindowTable {
    /// `hashbrown::HashMap::with_hasher`: the map holds nothing.
    #[verifier::external_body]
    fn new() -> (r: Self)
        ensures
            windows(r) == no_windows(),
    {
        WindowTable { map: hashbrown::HashMap::with_hasher(BuildHasherDefault::default()) }
    }

    /// `hashbrown::HashMap::get`: the value at the key, if there is one.
    #[verifier::external_body]
    fn get(&self, authority: &str) -> (r: Option<(u64, u32)>)
        ensures
            r == (if windows(*self).dom().contains(authority@) {
                Some(windows(*self)[authority@])
            } else {
                None::<(u64, u32)>
            }),
    {
        self.map.get(authority).copied()
    }

    /// `hashbrown::HashMap::insert`: the key stands for the value, whatever
    /// it stood for before, and every other key for what it did.
    #[verifier::external_body]
    fn insert(&mut self, authority: String, until: (u64, u32))
        ensures
            windows(*final(self)) == windows(*old(self)).insert(authority@, until),
    {
        self.map.insert(authority, until);
    }

    /// `hashbrown::HashMap::remove`: the key stands for nothing, and every
    /// other key for what it did.
    #[verifier::external_body]
    fn remove(&mut self, authority: &str)
        ensures
            windows(*final(self)) == windows(*old(self)).remove(authority@),
    {
        self.map.remove(authority);
    }

    /// `hashbrown::HashMap::clear`: the map holds nothing.
    #[verifier::external_body]
    fn clear(&mut self)
        ensures
            windows(*final(self)) == no_windows(),
    {
        self.map.clear();
    }
}

/// An instant in nanoseconds.
pub open spec fn instant(until: (u64, u32)) -> nat {
    time::secs_to_nanos(until.0 as nat) + until.1 as nat
}

/// Map of authority to the instant its 429 window closes.
pub struct RateLimitBreaker {
    open: WindowTable,
}

impl View for RateLimitBreaker {
    type V = Map<Seq<char>, nat>;

    closed spec fn view(&self) -> Map<Seq<char>, nat> {
        windows(self.open).map_values(|until: (u64, u32)| instant(until))
    }
}

/// What is left of an authority's window, if it is open.
pub open spec fn remaining(open: Map<Seq<char>, nat>, authority: Seq<char>, now: nat) -> Option<
    nat,
> {
    if open.dom().contains(authority) && open[authority] > now {
        Some((open[authority] - now) as nat)
    } else {
        None
    }
}

/// The windows after an authority was checked: an expired one is gone.
pub open spec fn checked(open: Map<Seq<char>, nat>, authority: Seq<char>, now: nat) -> Map<
    Seq<char>,
    nat,
> {
    if remaining(open, authority, now) is Some {
        open
    } else {
        open.remove(authority)
    }
}

/// How long a 429 closes an authority.
pub open spec fn cooldown(retry_after: Option<nat>) -> nat {
    let asked = match retry_after {
        Some(span) => span,
        None => time::secs_to_nanos(5),
    };
    if asked < time::secs_to_nanos(3600) {
        asked
    } else {
        time::secs_to_nanos(3600)
    }
}

/// A clock reading behind which the longest window still fits.
pub open spec fn before_the_end(now: nat) -> bool {
    now + time::secs_to_nanos(3600) < time::secs_to_nanos(u64::MAX as nat + 1)
}

/// The windows after a 429.
pub open spec fn armed(
    open: Map<Seq<char>, nat>,
    authority: Seq<char>,
    retry_after: Option<nat>,
    now: nat,
) -> Map<Seq<char>, nat> {
    open.insert(authority, now + cooldown(retry_after))
}

impl RateLimitBreaker {
    #[verifier::type_invariant]
    spec fn inv(self) -> bool {
        forall|authority: Seq<char>| #[trigger]
            windows(self.open).dom().contains(authority) ==> windows(self.open)[authority].1
                < 1_000_000_000
    }

    pub fn new() -> (r: Self)
        ensures
            r@ == Map::<Seq<char>, nat>::empty(),
    {
        let r = RateLimitBreaker { open: WindowTable::new() };
        assert(r@ =~= Map::<Seq<char>, nat>::empty());
        r
    }

    /// Remaining cooldown if the authority is currently throttled, else None.
    /// Lazily evicts an expired entry so the map cannot grow without bound.
    pub fn check(&mut self, authority: &str, now: Duration) -> (r: Option<Duration>)
        ensures
            crate::error::nanos_of(r) == remaining(old(self)@, authority@, now@),
            final(self)@ == checked(old(self)@, authority@, now@),
    {
        proof {
            use_type_invariant(&*self);
        }
        let until = match self.open.get(authority) {
            Some(until) => until,
            None => {
                assert(self@.remove(authority@) =~= self@);
                return None;
            },
        };
        if let Some(until) = Duration::new(until.0, until.1) {
            if now.shorter(&until) {
                return Some(until.minus(now));
            }
        }
        let ghost before = self@;
        let mut open = WindowTable::new();
        core::mem::swap(&mut open, &mut self.open);
        open.remove(authority);
        self.open = open;
        assert(self@ =~= before.remove(authority@));
        None
    }

    /// Arm after a 429. `retry_after` is the parsed Retry-After (or the
    /// endpoint's policy cooldown) if present; without it the default
    /// cooldown applies. The window is clamped so an absurd upstream value
    /// can neither overflow the clock nor wedge the breaker open.
    pub fn record_429(&mut self, authority: &str, retry_after: Option<Duration>, now: Duration)
        requires
            before_the_end(now@),
        ensures
            final(self)@ == armed(
                old(self)@,
                authority@,
                crate::error::nanos_of(retry_after),
                now@,
            ),
    {
        proof {
            use_type_invariant(&*self);
        }
        let asked = match retry_after {
            Some(span) => span,
            None => Duration::from_secs(DEFAULT_COOLDOWN_SECS),
        };
        let span = asked.shortest(Duration::from_secs(MAX_COOLDOWN_SECS));
        if let Some(until) = now.checked_sum(span) {
            let ghost before = self@;
            let secs: u64 = until.as_secs();
            let nanos: u32 = until.subsec_nanos();
            assert(instant((secs, nanos)) == until@);
            let mut open = WindowTable::new();
            core::mem::swap(&mut open, &mut self.open);
            open.insert(authority.to_owned(), (secs, nanos));
            self.open = open;
            assert(self@ =~= before.insert(authority@, until@));
        }
    }

    /// Close after a successful (status < 400) response.
    pub fn record_success(&mut self, authority: &str)
        ensures
            final(self)@ == old(self)@.remove(authority@),
    {
        proof {
            use_type_invariant(&*self);
        }
        let ghost before = self@;
        let mut open = WindowTable::new();
        core::mem::swap(&mut open, &mut self.open);
        open.remove(authority);
        self.open = open;
        assert(self@ =~= before.remove(authority@));
    }

    pub fn clear(&mut self)
        ensures
            final(self)@ == Map::<Seq<char>, nat>::empty(),
    {
        let mut open = WindowTable::new();
        core::mem::swap(&mut open, &mut self.open);
        open.clear();
        self.open = open;
        assert(self@ =~= Map::<Seq<char>, nat>::empty());
    }
}

impl Default for RateLimitBreaker {
    fn default() -> (r: Self)
        ensures
            r@ == Map::<Seq<char>, nat>::empty(),
    {
        Self::new()
    }
}

/// Reset the breaker. Called when a provider shuts down so a 429 window does
/// not leak across instance teardown.
pub fn clear_breaker(breaker: &mut RateLimitBreaker)
    ensures
        final(breaker)@ == Map::<Seq<char>, nat>::empty(),
{
    breaker.clear();
}

/// The parts of a URL that name its authority.
#[derive(Debug, PartialEq, Eq)]
pub struct UrlParts {
    pub scheme: String,
    pub host: Option<String>,
    pub port: Option<u16>,
}

/// What [`UrlParts`] say.
pub open spec fn parts_of(parts: Option<UrlParts>) -> Option<
    (Seq<char>, Option<Seq<char>>, Option<u16>),
> {
    match parts {
        Some(parts) => Some((parts.scheme@, text::text_of(parts.host), parts.port)),
        None => None,
    }
}

/// The scheme, the host and the explicit port of a URL, if the text is an
/// absolute URL.
pub uninterp spec fn parsed_url(url: Seq<char>) -> Option<
    (Seq<char>, Option<Seq<char>>, Option<u16>),
>;

/// `url::Url::parse`, with `scheme`, `host_str` and `port` read off the
/// result: what they give depends on the text alone. Which texts are absolute
/// URLs, and how a host is written, is the URL standard's business and left
/// unsaid.
#[verifier::external_body]
fn parse_url(url: &str) -> (r: Option<UrlParts>)
    ensures
        parts_of(r) == parsed_url(url@),
{
    match url::Url::parse(url) {
        Ok(url) => Some(
            UrlParts {
                scheme: url.scheme().to_string(),
                host: url.host_str().map(|host| host.to_string()),
                port: url.port(),
            },
        ),
        Err(_) => None,
    }
}

/// The authority that the parts of a URL name.
pub open spec fn authority_text(
    parts: Option<(Seq<char>, Option<Seq<char>>, Option<u16>)>,
) -> Option<Seq<char>> {
    match parts {
        Some((scheme, Some(host), port)) => {
            let plain = scheme + "://"@ + host;
            Some(
                match port {
                    Some(port) => plain + ":"@ + text::decimal(port as nat),
                    None => plain,
                },
            )
        },
        _ => None,
    }
}

/// Endpoint authority (`scheme://host[:port]`) of a parsed URL.
pub fn authority_from(parts: Option<UrlParts>) -> (r: Option<String>)
    ensures
        text::text_of(r) == authority_text(parts_of(parts)),
{
    let parts = match parts {
        Some(parts) => parts,
        None => {
            return None;
        },
    };
    let host = match parts.host {
        Some(host) => host,
        None => {
            return None;
        },
    };
    let plain = text::concat3(parts.scheme.as_str(), "://", host.as_str());
    match parts.port {
        Some(port) => {
            let digits = text::decimal_of(port as u64);
            Some(text::concat3(plain.as_str(), ":", digits.as_str()))
        },
        None => Some(plain),
    }
}

/// The authority of a URL.
pub open spec fn authority(url: Seq<char>) -> Option<Seq<char>> {
    authority_text(parsed_url(url))
}

/// Endpoint authority (`scheme://host[:port]`) used as the breaker key.
/// Returns None for an unparseable URL (caller then skips breaker logic).
pub fn authority_of(url: &str) -> (r: Option<String>)
    ensures
        text::text_of(r) == authority(url@),
{
    authority_from(parse_url(url))
}

/// Provider-facing hook to arm the breaker after the provider itself detected
/// a rate limit the generic 429 path would miss, such as github's
/// `403 + x-ratelimit-remaining: 0`. Keyed by the request URL's authority.
pub fn note_rate_limited(
    breaker: &mut RateLimitBreaker,
    url: &str,
    retry_after: Option<Duration>,
    now: Duration,
)
    requires
        before_the_end(now@),
    ensures
        final(breaker)@ == (match authority(url@) {
            Some(key) => armed(
                old(breaker)@,
                key,
                crate::error::nanos_of(retry_after),
                now@,
            ),
            None => old(breaker)@,
        }),
{
    if let Some(key) = authority_of(url) {
        breaker.record_429(key.as_str(), retry_after, now);
    }
}

/// The span that a `Retry-After` value asks for, in nanoseconds.
pub open spec fn retry_span(value: Seq<char>) -> Option<nat> {
    match text::u64_of(text::trimmed(value)) {
        Some(secs) => Some(time::secs_to_nanos(secs as nat)),
        None => None,
    }
}

/// Parse an HTTP `Retry-After` value's delta-seconds form into a Duration.
/// An HTTP-date form returns None (no guest wall-clock math on the error path).
pub fn parse_retry_after_secs(value: &str) -> (r: Option<Duration>)
    ensures
        crate::error::nanos_of(r) == retry_span(value@),
{
    let trimmed = text::trim(value);
    match text::parse_u64(trimmed.as_str()) {
        Some(secs) => Some(Duration::from_secs(secs)),
        None => None,
    }
}

/// A 429 closes its authority for the cooldown and no longer, and leaves
/// every other authority as it was.
pub proof fn law_cooldown_window(
    open: Map<Seq<char>, nat>,
    key: Seq<char>,
    retry_after: Option<nat>,
    now: nat,
    other: Seq<char>,
    later: nat,
)
    requires
        now <= later,
    ensures
        remaining(armed(open, key, retry_after, now), key, later) == (if later < now + cooldown(
            retry_after,
        ) {
            Some((now + cooldown(retry_after) - later) as nat)
        } else {
            None
        }),
        other != key ==> remaining(armed(open, key, retry_after, now), other, later) == remaining(
            open,
            other,
            later,
        ),
        cooldown(retry_after) <= time::secs_to_nanos(3600),
{
}

/// A success closes the window at once.
pub proof fn law_success_closes_the_window(open: Map<Seq<char>, nat>, key: Seq<char>, now: nat)
    ensures
        remaining(open.remove(key), key, now) is None,
{
}

/// Checking an authority changes no answer, now or later.
pub proof fn law_check_changes_no_answer(
    open: Map<Seq<char>, nat>,
    key: Seq<char>,
    now: nat,
    other: Seq<char>,
    later: nat,
)
    requires
        now <= later,
    ensures
        remaining(checked(open, key, now), other, later) == remaining(open, other, later),
{
}

} // verus!
