//! Route entries and their capture validators.
//!
//! A validator makes typed captures part of route candidacy: a key that fails
//! to parse removes the route from dispatch instead of erroring the request.
//! What a route runs is opaque here: an entry carries a handler of any type
//! and dispatch hands it back to the caller.

use core::marker::PhantomData;
use std::rc::Rc;
use vstd::prelude::*;

use crate::browse::EntryKind;
use crate::captures::{Bindings, Captures, FromCaptures};
use crate::error::{ProviderError, ProviderErrorKind, Result};
use crate::error;
use crate::path;
use crate::path::{Path, Segment};
use crate::router::pattern;
use crate::router::pattern::{Pattern, PrecedenceKey, Shape};

verus! {

/// A condition on the captures of a path.
pub trait CaptureRule {
    /// The complete capture sets that are accepted.
    spec fn full(&self, bindings: Bindings) -> bool;

    /// The capture sets of a path prefix that are accepted.
    spec fn present(&self, bindings: Bindings) -> bool;

    fn accepts(&self, caps: &Captures) -> (r: bool)
        ensures
            r == self.full(caps@),
    ;

    fn accepts_present(&self, caps: &Captures) -> (r: bool)
        ensures
            r == self.present(caps@),
    ;
}

/// Accepts every capture set.
pub struct AcceptAll;

impl CaptureRule for AcceptAll {
    open spec fn full(&self, bindings: Bindings) -> bool {
        true
    }

    open spec fn present(&self, bindings: Bindings) -> bool {
        true
    }

    fn accepts(&self, caps: &Captures) -> (r: bool) {
        true
    }

    fn accepts_present(&self, caps: &Captures) -> (r: bool) {
        true
    }
}

/// Accepts the capture sets from which a key `C` can be read.
pub struct KeyRule<C>(PhantomData<C>);

impl<C: FromCaptures> CaptureRule for KeyRule<C> {
    open spec fn full(&self, bindings: Bindings) -> bool {
        C::accepts(bindings)
    }

    open spec fn present(&self, bindings: Bindings) -> bool {
        C::accepts_present(bindings)
    }

    fn accepts(&self, caps: &Captures) -> (r: bool) {
        C::from_captures(caps).is_ok()
    }

    fn accepts_present(&self, caps: &Captures) -> (r: bool) {
        C::validate_present_captures(caps)
    }
}

/// A per-route capture validator derived from the handler's key type.
///
/// The full check runs over a complete capture set and gates route candidacy
/// in dispatch: rejection means "this route does not bind this path," and
/// matching falls through to the next-most-specific candidate. The present
/// check runs over a path prefix where later captures are not yet available;
/// static directory discovery uses it so a future capture's absence cannot
/// hide a literal ancestor.
pub struct RouteValidator {
    rule: Rc<Box<dyn CaptureRule>>,
}

impl RouteValidator {
    /// The complete capture sets that are accepted.
    pub closed spec fn full(&self, bindings: Bindings) -> bool {
        (**self.rule).full(bindings)
    }

    /// The capture sets of a path prefix that are accepted.
    pub closed spec fn present(&self, bindings: Bindings) -> bool {
        (**self.rule).present(bindings)
    }

    pub fn accepts(&self, caps: &Captures) -> (r: bool)
        ensures
            r == self.full(caps@),
    {
        (**self.rule).accepts(caps)
    }

    pub fn accepts_present(&self, caps: &Captures) -> (r: bool)
        ensures
            r == self.present(caps@),
    {
        (**self.rule).accepts_present(caps)
    }
}

impl Clone for RouteValidator {
    fn clone(&self) -> (r: Self)
        ensures
            r == *self,
    {
        RouteValidator { rule: self.rule.clone() }
    }
}

/// The validator for a typed key `C`; this is the bridge that turns a
/// rejected capture value into route fallthrough.
pub fn captures_validator<C: FromCaptures + 'static>() -> (r: RouteValidator)
    ensures
        forall|b: Bindings| #[trigger] r.full(b) == C::accepts(b),
        forall|b: Bindings| #[trigger] r.present(b) == C::accepts_present(b),
{
    let rule: Box<dyn CaptureRule> = Box::new(KeyRule::<C>(PhantomData));
    assert(forall|b: Bindings| #[trigger] (*rule).full(b) == C::accepts(b));
    assert(forall|b: Bindings| #[trigger] (*rule).present(b) == C::accepts_present(b));
    let ghost given = rule;
    let shared = Rc::new(rule);
    assert(*shared == given);
    assert(forall|b: Bindings| #[trigger] (**shared).full(b) == (*given).full(b));
    assert(forall|b: Bindings| #[trigger] (**shared).present(b) == (*given).present(b));
    let r = RouteValidator { rule: shared };
    assert(forall|b: Bindings| #[trigger] r.full(b) == (**shared).full(b));
    assert(forall|b: Bindings| #[trigger] r.present(b) == (**shared).present(b));
    r
}

/// The validator for capture-less handlers: every path the pattern matches
/// is accepted.
pub fn accept_validator() -> (r: RouteValidator)
    ensures
        forall|b: Bindings| #[trigger] r.full(b),
        forall|b: Bindings| #[trigger] r.present(b),
{
    let rule: Box<dyn CaptureRule> = Box::new(AcceptAll);
    assert(forall|b: Bindings| #[trigger] (*rule).full(b));
    assert(forall|b: Bindings| #[trigger] (*rule).present(b));
    let ghost given = rule;
    let shared = Rc::new(rule);
    assert(*shared == given);
    assert(forall|b: Bindings| #[trigger] (**shared).full(b) == (*given).full(b));
    assert(forall|b: Bindings| #[trigger] (**shared).present(b) == (*given).present(b));
    let r = RouteValidator { rule: shared };
    assert(forall|b: Bindings| #[trigger] r.full(b) == (**shared).full(b));
    assert(forall|b: Bindings| #[trigger] r.present(b) == (**shared).present(b));
    r
}

/// What dispatch reads of a route: its shapes, its validator, and whether its
/// leaf is a directory.
pub struct RouteFacts {
    pub shapes: Seq<Shape>,
    pub validator: RouteValidator,
    pub is_dir: bool,
}

impl RouteFacts {
    /// The route binds that path.
    pub open spec fn binds(self, segments: Seq<Seq<char>>) -> bool {
        pattern::path_matches(self.shapes, segments) && self.validator.full(
            pattern::captures_of(self.shapes, segments),
        )
    }
}

/// Route table row: pattern plus per-route capture validator.
pub trait RoutedEntry {
    spec fn facts(&self) -> RouteFacts;

    fn route_pattern(&self) -> (r: &Pattern)
        ensures
            r@ == self.facts().shapes,
    ;

    fn route_validator(&self) -> (r: &RouteValidator)
        ensures
            *r == self.facts().validator,
    ;

    fn route_kind(&self) -> (r: EntryKind)
        ensures
            (r is Directory) == self.facts().is_dir,
    ;
}

/// One row of the dir route table: pattern, handler, validator.
pub struct DirEntry<H> {
    pub pattern: Pattern,
    pub handler: H,
    pub validator: RouteValidator,
}

impl<H> RoutedEntry for DirEntry<H> {
    open spec fn facts(&self) -> RouteFacts {
        RouteFacts { shapes: self.pattern@, validator: self.validator, is_dir: true }
    }

    fn route_pattern(&self) -> (r: &Pattern) {
        &self.pattern
    }

    fn route_validator(&self) -> (r: &RouteValidator) {
        &self.validator
    }

    fn route_kind(&self) -> (r: EntryKind) {
        EntryKind::Directory
    }
}

/// One row of the file route table.
pub struct FileEntry<H> {
    pub pattern: Pattern,
    pub handler: H,
    pub validator: RouteValidator,
}

impl<H> RoutedEntry for FileEntry<H> {
    open spec fn facts(&self) -> RouteFacts {
        RouteFacts { shapes: self.pattern@, validator: self.validator, is_dir: false }
    }

    fn route_pattern(&self) -> (r: &Pattern) {
        &self.pattern
    }

    fn route_validator(&self) -> (r: &RouteValidator) {
        &self.validator
    }

    fn route_kind(&self) -> (r: EntryKind) {
        EntryKind::File
    }
}

/// One row of the subtree-handoff route table.
pub struct TreeRefEntry<H> {
    pub pattern: Pattern,
    pub handler: H,
    pub validator: RouteValidator,
}

impl<H> RoutedEntry for TreeRefEntry<H> {
    open spec fn facts(&self) -> RouteFacts {
        RouteFacts { shapes: self.pattern@, validator: self.validator, is_dir: true }
    }

    fn route_pattern(&self) -> (r: &Pattern) {
        &self.pattern
    }

    fn route_validator(&self) -> (r: &RouteValidator) {
        &self.validator
    }

    fn route_kind(&self) -> (r: EntryKind) {
        EntryKind::Directory
    }
}

/// What dispatch reads of the rows of a table.
pub open spec fn table<E: RoutedEntry>(routes: Seq<E>) -> Seq<RouteFacts> {
    routes.map_values(|e: E| e.facts())
}

/// The row that dispatch takes for a path: it binds the path, no row that
/// binds it has a higher precedence, and none before it has the same.
pub open spec fn wins(routes: Seq<RouteFacts>, segments: Seq<Seq<char>>, i: int) -> bool {
    &&& 0 <= i < routes.len()
    &&& routes[i].binds(segments)
    &&& forall|j: int|
        0 <= j < routes.len() && (#[trigger] routes[j]).binds(segments) ==> !precedence(
            routes[i],
        ).below(precedence(routes[j]))
    &&& forall|j: int|
        0 <= j < i && (#[trigger] routes[j]).binds(segments) ==> precedence(routes[j]).below(
            precedence(routes[i]),
        )
}

/// The precedence of a row.
pub open spec fn precedence(route: RouteFacts) -> PrecedenceKey {
    pattern::precedence(route.shapes)
}

/// Some row binds the path.
pub open spec fn bound(routes: Seq<RouteFacts>, segments: Seq<Seq<char>>) -> bool {
    exists|i: int| 0 <= i < routes.len() && (#[trigger] routes[i]).binds(segments)
}

/// A selected route plus the captures its pattern decoded from the path;
/// the validator has already accepted them.
pub struct RouteMatch<'a, E> {
    pub entry: &'a E,
    pub captures: Captures,
}

/// A selected route is the row that dispatch takes.
pub open spec fn selected<E: RoutedEntry>(
    m: Option<RouteMatch<'_, E>>,
    routes: Seq<E>,
    segments: Seq<Seq<char>>,
) -> bool {
    match m {
        Some(m) => exists|i: int| #[trigger]
            wins(table(routes), segments, i) && *m.entry == routes[i] && m.captures@
                == pattern::captures_of(routes[i].facts().shapes, segments),
        None => !bound(table(routes), segments),
    }
}

/// Highest-precedence route of two tables, read one after the other, whose
/// pattern matches `abs` and whose validator accepts the decoded captures.
///
/// The validator runs during candidacy, before precedence decides. This is
/// where capture-parse fallthrough happens: a route whose typed key rejects
/// the segment (e.g. `{number}` fed a non-numeric value) is filtered out
/// here, so a less specific sibling route can still win instead of the path
/// resolving to not-found.
pub fn best_match<'a, E: RoutedEntry>(
    routes: &'a [E],
    more: &'a [E],
    abs: &Path,
) -> (r: Option<RouteMatch<'a, E>>)
    ensures
        selected(r, routes@ + more@, abs@),
{
    let ghost all = routes@ + more@;
    let ghost rows = table(all);
    let mut best: Option<RouteMatch<'a, E>> = None;
    let ghost mut at: int = -1;
    let mut i: usize = 0;
    let mut second = false;
    let ghost mut seen: int = 0;
    while !second || i < more.len()
        invariant
            all == routes@ + more@,
            rows == table(all),
            second ==> i <= more@.len() && seen == routes@.len() + i,
            !second ==> i <= routes@.len() && seen == i,
            0 <= seen <= all.len(),
            best is Some ==> {
                &&& 0 <= at < seen
                &&& *best->0.entry == all[at]
                &&& best->0.captures@ == pattern::captures_of(rows[at].shapes, abs@)
                &&& wins(rows.take(seen), abs@, at)
            },
            best is None ==> !bound(rows.take(seen), abs@),
        decreases (if second {
            0int
        } else {
            1
        }), (if second {
            more@.len() - i
        } else {
            routes@.len() - i
        }),
    {
        if !second && i == routes.len() {
            second = true;
            i = 0;
            continue ;
        }
        let entry: &'a E = if second {
            &more[i]
        } else {
            &routes[i]
        };
        let ghost row = rows[seen];
        let ghost head = rows.take(seen);
        let ghost next = rows.take(seen + 1);
        assert(*entry == all[seen]);
        assert(row == entry.facts());
        assert(next =~= head.push(row));
        assert forall|j: int| 0 <= j < seen implies next[j] == head[j] by {}
        let ghost had = best;
        let ghost was = at;
        match entry.route_pattern().match_path(abs) {
            Ok(matched) => {
                let captures = Captures::from_match(&matched);
                if entry.route_validator().accepts(&captures) {
                    assert(row.binds(abs@));
                    let better = match &best {
                        Some(current) => current.entry.route_pattern().loses_to(
                            entry.route_pattern(),
                        ),
                        None => true,
                    };
                    if better {
                        proof {
                            at = seen;
                            assert forall|j: int|
                                0 <= j < seen && (#[trigger] next[j]).binds(
                                    abs@,
                                ) implies precedence(next[j]).below(precedence(row)) by {
                                assert(head[j].binds(abs@));
                                assert(had is Some);
                                assert(!precedence(head[was]).below(precedence(head[j])));
                            }
                            assert(wins(next, abs@, seen));
                        }
                        best = Some(RouteMatch { entry, captures });
                    }
                } else {
                    assert(!row.binds(abs@));
                }
            },
            Err(_) => {
                assert(!row.binds(abs@));
            },
        }
        proof {
            if best is Some && at == was {
                assert forall|j: int| 0 <= j < next.len() && (#[trigger] next[j]).binds(
                    abs@,
                ) implies !precedence(next[at]).below(precedence(next[j])) by {
                    if j < seen {
                        assert(head[j].binds(abs@));
                    }
                }
                assert forall|j: int| 0 <= j < at && (#[trigger] next[j]).binds(
                    abs@,
                ) implies precedence(next[j]).below(precedence(next[at])) by {
                    assert(head[j].binds(abs@));
                }
                assert(wins(next, abs@, at));
            }
            if best is None {
                assert forall|j: int| 0 <= j < next.len() implies !(#[trigger] next[j]).binds(
                    abs@,
                ) by {
                    if j < seen {
                        assert(!head[j].binds(abs@));
                    }
                }
            }
            seen = seen + 1;
        }
        i = i + 1;
    }
    assert(rows.take(seen) =~= rows);
    best
}

/// Dispatch takes at most one row.
pub proof fn law_winner_is_unique(
    routes: Seq<RouteFacts>,
    segments: Seq<Seq<char>>,
    i: int,
    j: int,
)
    requires
        wins(routes, segments, i),
        wins(routes, segments, j),
    ensures
        i == j,
{
    if i < j {
        assert(routes[i].binds(segments));
        assert(precedence(routes[i]).below(precedence(routes[j])));
    } else if j < i {
        assert(routes[j].binds(segments));
        assert(precedence(routes[j]).below(precedence(routes[i])));
    }
}

/// If any row binds a path, dispatch takes one: a row that rejects the
/// captures never hides a row that accepts them.
pub proof fn law_fallthrough_finds_a_route(
    routes: Seq<RouteFacts>,
    segments: Seq<Seq<char>>,
)
    requires
        bound(routes, segments),
    ensures
        exists|i: int| wins(routes, segments, i),
    decreases routes.len(),
{
    let last = routes.len() - 1;
    let head = routes.drop_last();
    if bound(head, segments) {
        law_fallthrough_finds_a_route(head, segments);
        let w = choose|i: int| wins(head, segments, i);
        assert forall|j: int| 0 <= j < head.len() implies head[j] == routes[j] by {}
        if routes[last].binds(segments) && precedence(routes[w]).below(precedence(routes[last])) {
            assert forall|j: int| 0 <= j < last && (#[trigger] routes[j]).binds(
                segments,
            ) implies precedence(routes[j]).below(precedence(routes[last])) by {
                assert(head[j].binds(segments));
                assert(!precedence(head[w]).below(precedence(head[j])));
            }
            assert(wins(routes, segments, last));
        } else {
            assert forall|j: int| 0 <= j < routes.len() && (#[trigger] routes[j]).binds(
                segments,
            ) implies !precedence(routes[w]).below(precedence(routes[j])) by {
                if j < last {
                    assert(head[j].binds(segments));
                }
            }
            assert forall|j: int| 0 <= j < w && (#[trigger] routes[j]).binds(
                segments,
            ) implies precedence(routes[j]).below(precedence(routes[w])) by {
                assert(head[j].binds(segments));
            }
            assert(wins(routes, segments, w));
        }
    } else {
        let i = choose|i: int| 0 <= i < routes.len() && (#[trigger] routes[i]).binds(segments);
        if i < last {
            assert(head[i].binds(segments));
        }
        assert forall|j: int| 0 <= j < last implies !(#[trigger] routes[j]).binds(segments) by {
            assert(!head[j].binds(segments));
        }
        assert(wins(routes, segments, last));
    }
}

/// Compiles a route template.
pub fn parse_pattern(template: &str) -> (r: Result<Pattern>)
    ensures
        match pattern::template_of(template@) {
            Ok(shapes) => r matches Ok(p) && p@ == shapes,
            Err(message) => r matches Err(e) && e@ == error::failure(
                ProviderErrorKind::InvalidInput,
                message,
            ),
        },
{
    match Pattern::parse(template) {
        Ok(pattern) => Ok(pattern),
        Err(error) => Err(ProviderError::invalid_input(error.message())),
    }
}

/// Reads a path that the host sent.
pub fn parse_provider_path(s: &str) -> (r: Result<Path>)
    ensures
        match path::path_of(s@) {
            Some(segments) => r matches Ok(p) && p@ == segments,
            None => r matches Err(e) && e@ == error::failure(
                ProviderErrorKind::InvalidInput,
                path::path_error(s@),
            ),
        },
{
    match Path::parse(s) {
        Ok(path) => Ok(path),
        Err(error) => Err(ProviderError::invalid_input(error.message())),
    }
}

/// Reads a child name that the host sent.
pub fn parse_child_segment(name: &str) -> (r: Result<Segment>)
    ensures
        r is Ok == path::valid_segment(name@),
        r matches Ok(s) ==> s@ == name@,
        r matches Err(e) ==> e@ == error::failure(
            ProviderErrorKind::InvalidInput,
            path::segment_error(name@),
        ),
{
    match Segment::parse(name) {
        Ok(segment) => Ok(segment),
        Err(error) => Err(ProviderError::invalid_input(error.message())),
    }
}

/// An opaque route identifier. Reserved in the public surface; no current
/// registration verb returns one.
#[derive(Clone, Copy, Debug, PartialEq, Eq, Structural)]
pub struct RouteHandle(pub u32);

} // verus!
