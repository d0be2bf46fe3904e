//! Path captures.
//!
//! A [`PathSegment`] validates one path segment and may enumerate a finite
//! choice set. A multi-segment key parses each field from the matched
//! segments. The route engine binds segment values into [`Captures`] before a
//! handler or an object load runs.

use vstd::prelude::*;
use vstd::string::*;

use crate::error;
use crate::error::{Failure, ProviderError, ProviderErrorKind, Result};
use crate::path;
use crate::path::Path;
use crate::router::pattern;
use crate::router::pattern::{Match, Pattern};
use crate::text;

verus! {

/// Capture names with their values, in template order.
pub type Bindings = Seq<(Seq<char>, Seq<char>)>;

/// The value of the first binding of `name`.
pub open spec fn lookup(bindings: Bindings, name: Seq<char>) -> Option<Seq<char>>
    decreases bindings.len(),
{
    if bindings.len() == 0 {
        None
    } else if bindings[0].0 == name {
        Some(bindings[0].1)
    } else {
        lookup(bindings.drop_first(), name)
    }
}

/// A capture type: reads one path segment, renders back, and optionally
/// declares a finite value set.
///
/// Reading is the segment validator: a rejection makes the route a
/// non-candidate, falling through to the next-most-specific route rather than
/// to "not found".
pub trait PathSegment: Sized {
    /// The segments that denote a value.
    open spec fn accepts(raw: Seq<char>) -> bool {
        vstd::pervasive::arbitrary()
    }

    /// `value` is what the segment `raw` denotes.
    open spec fn denotes(raw: Seq<char>, value: Self) -> bool {
        vstd::pervasive::arbitrary()
    }

    /// The segment that the value is rendered as.
    open spec fn rendered(&self) -> Seq<char> {
        vstd::pervasive::arbitrary()
    }

    fn from_segment(raw: &str) -> (r: Option<Self>)
        ensures
            r is Some == Self::accepts(raw@),
            r matches Some(value) ==> Self::denotes(raw@, value),
    ;

    fn to_segment(&self) -> (r: String)
        ensures
            r@ == self.rendered(),
    ;

    /// The finite set of allowed values, or `None` for an unbounded capture.
    fn choices() -> Option<Vec<&'static str>> {
        None
    }
}

impl PathSegment for String {
    open spec fn accepts(raw: Seq<char>) -> bool {
        true
    }

    open spec fn denotes(raw: Seq<char>, value: Self) -> bool {
        value@ == raw
    }

    open spec fn rendered(&self) -> Seq<char> {
        self@
    }

    fn from_segment(raw: &str) -> (r: Option<Self>) {
        Some(raw.to_owned())
    }

    fn to_segment(&self) -> (r: String) {
        self.clone()
    }
}

impl PathSegment for u64 {
    open spec fn accepts(raw: Seq<char>) -> bool {
        text::u64_of(raw) is Some
    }

    open spec fn denotes(raw: Seq<char>, value: Self) -> bool {
        text::u64_of(raw) == Some(value)
    }

    open spec fn rendered(&self) -> Seq<char> {
        text::decimal(*self as nat)
    }

    fn from_segment(raw: &str) -> (r: Option<Self>) {
        text::parse_u64(raw)
    }

    fn to_segment(&self) -> (r: String) {
        text::decimal_of(*self)
    }
}

/// A key that is read from the captures of a matched route.
pub trait FromCaptures: Sized {
    /// The captures from which a key can be read.
    open spec fn accepts(bindings: Bindings) -> bool {
        vstd::pervasive::arbitrary()
    }

    /// `key` is what is read from the captures.
    open spec fn reads(bindings: Bindings, key: Self) -> bool {
        vstd::pervasive::arbitrary()
    }

    /// How captures without a key are refused.
    open spec fn refusal(bindings: Bindings) -> Failure {
        vstd::pervasive::arbitrary()
    }

    /// The captures of a path prefix that do not rule a key out.
    open spec fn accepts_present(bindings: Bindings) -> bool {
        Self::accepts(bindings)
    }

    fn from_captures(caps: &Captures) -> (r: Result<Self>)
        ensures
            r is Ok == Self::accepts(caps@),
            r matches Ok(key) ==> Self::reads(caps@, key),
            r matches Err(e) ==> e@ == Self::refusal(caps@),
    ;

    /// Validate the captures already present in a path prefix.
    ///
    /// Static directory discovery walks route prefixes before every capture in
    /// the full route is available. Full dispatch still calls
    /// [`Self::from_captures`]; this hook only prevents a future missing
    /// capture from hiding a literal ancestor such as `/categories`.
    fn validate_present_captures(caps: &Captures) -> (r: bool)
        ensures
            r == Self::accepts_present(caps@),
    ;
}

/// A single capture matched from a path: its template name and the raw
/// segment value.
#[derive(Debug, PartialEq, Eq)]
pub struct Capture {
    pub name: String,
    pub value: String,
}

impl View for Capture {
    type V = (Seq<char>, Seq<char>);

    open spec fn view(&self) -> (Seq<char>, Seq<char>) {
        (self.name@, self.value@)
    }
}

impl Clone for Capture {
    fn clone(&self) -> (r: Self)
        ensures
            r == *self,
    {
        Capture { name: self.name.clone(), value: self.value.clone() }
    }
}

/// The bindings of a list of captures.
pub open spec fn bindings_of(items: Seq<Capture>) -> Bindings {
    items.map_values(|c: Capture| c@)
}

/// The value of the first capture of that name.
pub fn find_capture<'a>(items: &'a [Capture], name: &str) -> (r: Option<&'a str>)
    ensures
        match lookup(bindings_of(items@), name@) {
            Some(value) => r matches Some(v) && v@ == value,
            None => r is None,
        },
{
    let mut i: usize = 0;
    let ghost all = bindings_of(items@);
    assert(all.skip(0) =~= all);
    while i < items.len()
        invariant
            i <= items@.len(),
            all == bindings_of(items@),
            lookup(all, name@) == lookup(all.skip(i as int), name@),
        decreases items@.len() - i,
    {
        assert(all.skip(i as int)[0] == items@[i as int]@);
        if text::same(items[i].name.as_str(), name) {
            return Some(items[i].value.as_str());
        }
        assert(all.skip(i as int).drop_first() =~= all.skip(i as int + 1));
        i = i + 1;
    }
    None
}

/// A copy of a list of captures.
pub fn copy_captures(items: &[Capture]) -> (r: Vec<Capture>)
    ensures
        r@ == items@,
{
    let mut out: Vec<Capture> = Vec::new();
    let mut i: usize = 0;
    while i < items.len()
        invariant
            i <= items@.len(),
            out@ == items@.take(i as int),
        decreases items@.len() - i,
    {
        out.push(items[i].clone());
        i = i + 1;
    }
    assert(items@.take(items@.len() as int) =~= items@);
    out
}

/// The ordered set of captures the route engine matched for a path, keyed by
/// the template field name (`owner`, `repo`, `number`). Values are raw
/// segment strings; [`Captures::parse`] reads a field's value.
#[derive(Debug, PartialEq, Eq)]
pub struct Captures {
    items: Vec<Capture>,
}

impl View for Captures {
    type V = Bindings;

    closed spec fn view(&self) -> Bindings {
        bindings_of(self.items@)
    }
}

impl Clone for Captures {
    fn clone(&self) -> (r: Self)
        ensures
            r@ == self@,
    {
        Captures { items: copy_captures(self.items.as_slice()) }
    }
}

impl Default for Captures {
    fn default() -> (r: Self)
        ensures
            r@ == Bindings::empty(),
    {
        Captures::new(Vec::new())
    }
}

/// The failure for a capture that is not there.
pub open spec fn missing_capture(name: Seq<char>) -> error::Failure {
    error::failure(ProviderErrorKind::InvalidInput, "missing capture "@ + text::quoted(name))
}

/// The failure for a capture whose value denotes nothing.
pub open spec fn invalid_capture(name: Seq<char>, raw: Seq<char>) -> error::Failure {
    error::failure(
        ProviderErrorKind::InvalidInput,
        "invalid capture "@ + text::quoted(name) + ": "@ + text::quoted(raw),
    )
}

fn invalid_capture_error(name: &str, raw: &str) -> (r: ProviderError)
    ensures
        r@ == invalid_capture(name@, raw@),
{
    let mut message = text::concat("invalid capture ", text::debug_quoted(name).as_str());
    message.append(": ");
    message.append(text::debug_quoted(raw).as_str());
    ProviderError::invalid_input(message.as_str())
}

impl Captures {
    pub fn new(items: Vec<Capture>) -> (r: Self)
        ensures
            r@ == bindings_of(items@),
    {
        Captures { items }
    }

    /// Raw value for a named capture.
    pub fn get(&self, name: &str) -> (r: Option<&str>)
        ensures
            match lookup(self@, name@) {
                Some(value) => r matches Some(v) && v@ == value,
                None => r is None,
            },
    {
        find_capture(self.items.as_slice(), name)
    }

    /// Raw value for the capture at position `index` (template order).
    pub fn nth(&self, index: usize) -> (r: Option<&str>)
        ensures
            r is Some == (index < self@.len()),
            r matches Some(v) ==> v@ == self@[index as int].1,
    {
        if index < self.items.len() {
            Some(self.items[index].value.as_str())
        } else {
            None
        }
    }

    pub fn len(&self) -> (r: usize)
        ensures
            r == self@.len(),
    {
        self.items.len()
    }

    pub fn is_empty(&self) -> (r: bool)
        ensures
            r == (self@.len() == 0),
    {
        self.items.len() == 0
    }

    /// The captures in template order.
    pub fn items(&self) -> (r: &[Capture])
        ensures
            bindings_of(r@) == self@,
    {
        self.items.as_slice()
    }

    /// Build captures from a successful route pattern match.
    pub fn from_match(matched: &Match) -> (r: Self)
        ensures
            r@ == matched@.captures,
    {
        Captures { items: copy_captures(matched.captures()) }
    }

    /// Build captures for a concrete path against a route pattern. There are
    /// none when the text is not a path or does not match.
    pub fn from_pattern_match(pattern: &Pattern, concrete_path: &str) -> (r: Self)
        ensures
            r@ == (match path::path_of(concrete_path@) {
                Some(segments) => if pattern::path_matches(pattern@, segments) {
                    pattern::captures_of(pattern@, segments)
                } else {
                    Bindings::empty()
                },
                None => Bindings::empty(),
            }),
    {
        match Path::parse(concrete_path) {
            Ok(path) => match pattern.match_path(&path) {
                Ok(matched) => Self::from_match(&matched),
                Err(_) => Captures::new(Vec::new()),
            },
            Err(_) => Captures::new(Vec::new()),
        }
    }

    /// Parse a named capture, mapping a rejection to an invalid-input error
    /// naming the capture.
    pub fn parse<T: PathSegment>(&self, name: &str) -> (r: Result<T>)
        ensures
            match lookup(self@, name@) {
                Some(raw) => if T::accepts(raw) {
                    r matches Ok(value) && T::denotes(raw, value)
                } else {
                    r matches Err(e) && e@ == invalid_capture(name@, raw)
                },
                None => r matches Err(e) && e@ == missing_capture(name@),
            },
    {
        match self.get(name) {
            Some(raw) => match T::from_segment(raw) {
                Some(value) => Ok(value),
                None => Err(invalid_capture_error(name, raw)),
            },
            None => {
                let quoted = text::debug_quoted(name);
                let message = text::concat("missing capture ", quoted.as_str());
                Err(ProviderError::invalid_input(message.as_str()))
            },
        }
    }

    /// Parse a named capture that may be absent. `Ok(None)` when the capture
    /// is absent; a present-but-invalid value is still an error, so the route
    /// validator rejects it.
    pub fn parse_optional<T: PathSegment>(&self, name: &str) -> (r: Result<Option<T>>)
        ensures
            match lookup(self@, name@) {
                Some(raw) => if T::accepts(raw) {
                    r matches Ok(Some(value)) && T::denotes(raw, value)
                } else {
                    r matches Err(e) && e@ == invalid_capture(name@, raw)
                },
                None => r matches Ok(None),
            },
    {
        match self.get(name) {
            Some(raw) => match T::from_segment(raw) {
                Some(value) => Ok(Some(value)),
                None => Err(invalid_capture_error(name, raw)),
            },
            None => Ok(None),
        }
    }
}

/// What a bounded number is rendered as denotes that number again.
pub proof fn law_u64_segment_round_trip(n: u64)
    ensures
        <u64 as PathSegment>::accepts(n.rendered()),
        <u64 as PathSegment>::denotes(n.rendered(), n),
{
    text::lemma_decimal_digits(n as nat);
    let digits = text::decimal(n as nat);
    assert(text::is_digit(digits[0]));
    assert(text::without_plus(digits) == digits);
}

/// A capture is found by its name, the first one where there are several, and
/// is missing where there is none.
pub proof fn law_capture_is_found_by_name(bindings: Bindings, name: Seq<char>)
    ensures
        match lookup(bindings, name) {
            Some(value) => exists|i: int|
                0 <= i < bindings.len() && #[trigger] bindings[i] == (name, value) && forall|k: int|
                    0 <= k < i ==> (#[trigger] bindings[k]).0 != name,
            None => forall|k: int| 0 <= k < bindings.len() ==> (#[trigger] bindings[k]).0 != name,
        },
    decreases bindings.len(),
{
    if bindings.len() > 0 {
        let rest = bindings.drop_first();
        if bindings[0].0 == name {
            assert(bindings[0] == (name, bindings[0].1));
        } else {
            law_capture_is_found_by_name(rest, name);
            match lookup(rest, name) {
                Some(value) => {
                    let i = choose|i: int|
                        0 <= i < rest.len() && #[trigger] rest[i] == (name, value) && forall|k: int|
                            0 <= k < i ==> (#[trigger] rest[k]).0 != name;
                    assert(bindings[i + 1] == (name, value));
                    assert forall|k: int| 0 <= k < i + 1 implies (#[trigger] bindings[k]).0
                        != name by {
                        if k > 0 {
                            assert(rest[k - 1] == bindings[k]);
                        }
                    }
                },
                None => {
                    assert forall|k: int| 0 <= k < bindings.len() implies (
                    #[trigger] bindings[k]).0 != name by {
                        if k > 0 {
                            assert(rest[k - 1] == bindings[k]);
                        }
                    }
                },
            }
        }
    }
}

/// A missing capture and one that does not parse are both invalid input.
pub proof fn law_capture_failures_are_invalid_input(name: Seq<char>, raw: Seq<char>)
    ensures
        missing_capture(name).kind == ProviderErrorKind::InvalidInput,
        missing_capture(name).retry_after is None,
        invalid_capture(name, raw).kind == ProviderErrorKind::InvalidInput,
        invalid_capture(name, raw).retry_after is None,
{
}

} // verus!
