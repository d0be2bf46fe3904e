//! Literal-prefix auto-navigation from the route table.
//!
//! This is what makes intermediate directories free: every literal segment
//! on the way to a registered route resolves and lists without a handler,
//! so providers never register stub routes for navigation scaffolding.
//! Synthesized entries are derived purely from route patterns, filtered by
//! each route's present-capture validator so a parse-rejecting prefix does
//! not advertise children it could never serve.

use vstd::prelude::*;

use crate::browse;
use crate::browse::{Entry, EntryKind, EntryModel};
use crate::captures::Captures;
use crate::file_attrs;
use crate::file_attrs::FileProj;
use crate::path;
use crate::path::Path;
use crate::router::handlers;
use crate::router::handlers::{RouteFacts, RoutedEntry};
use crate::router::pattern;
use crate::router::pattern::Shape;
use crate::router::projection;
use crate::router::projection::NameTable;
use crate::router::register::{ObjectRow, Router, RouterModel, Row};
use crate::text;

verus! {

/// What dispatch reads of rows whose leaves are all directories or all files.
pub open spec fn row_facts<H>(rows: Seq<Row<H>>, is_dir: bool) -> Seq<RouteFacts> {
    rows.map_values(
        |r: Row<H>| RouteFacts { shapes: r.shapes, validator: r.validator, is_dir },
    )
}

/// What dispatch reads of mounted objects.
pub open spec fn object_facts<H>(rows: Seq<ObjectRow<H>>) -> Seq<RouteFacts> {
    rows.map_values(
        |r: ObjectRow<H>|
            RouteFacts { shapes: r.shapes, validator: r.validator, is_dir: r.shape is Dir },
    )
}

/// Every route, in the order in which they contribute static entries: dir
/// routes, file routes, treerefs, objects.
pub open spec fn all_routes<H>(m: RouterModel<H>) -> Seq<RouteFacts> {
    row_facts(m.dirs, true) + row_facts(m.handler_dirs, true) + row_facts(m.files, false)
        + row_facts(m.handler_files, false) + row_facts(m.treerefs, true) + object_facts(
        m.objects,
    )
}

/// The entry that a route contributes directly under a parent.
pub open spec fn contributed(route: RouteFacts, parent: Seq<Seq<char>>) -> Option<EntryModel> {
    match pattern::literal_child(route.shapes, parent) {
        Some((name, continues)) => if path::valid_segment(name) && route.validator.present(
            pattern::captures_of(route.shapes, parent.push(name)),
        ) {
            Some(
                if continues || route.is_dir {
                    browse::dir_entry(name)
                } else {
                    browse::file_entry(name, file_attrs::listing_file())
                },
            )
        } else {
            None
        },
        None => None,
    }
}

/// What a name stands for under a parent: the entry of the first route that
/// contributes one of that name.
pub open spec fn static_entry(
    routes: Seq<RouteFacts>,
    parent: Seq<Seq<char>>,
    name: Seq<char>,
) -> Option<EntryModel>
    decreases routes.len(),
{
    if routes.len() == 0 {
        None
    } else {
        match static_entry(routes.drop_last(), parent, name) {
            Some(entry) => Some(entry),
            None => match contributed(routes.last(), parent) {
                Some(entry) => if entry.name == name {
                    Some(entry)
                } else {
                    None
                },
                None => None,
            },
        }
    }
}

/// What each name stands for under a parent.
pub open spec fn static_names(routes: Seq<RouteFacts>, parent: Seq<Seq<char>>) -> spec_fn(
    Seq<char>,
) -> Option<EntryModel> {
    |name: Seq<char>| static_entry(routes, parent, name)
}

/// The static entries under a parent, name-ordered.
pub open spec fn static_entries<H>(m: RouterModel<H>, parent: Seq<Seq<char>>) -> Seq<EntryModel> {
    projection::listing_by(static_names(all_routes(m), parent))
}

/// Some route binds a capture or rest segment directly under the parent.
pub open spec fn capture_child(routes: Seq<RouteFacts>, parent: Seq<Seq<char>>) -> bool {
    exists|i: int|
        0 <= i < routes.len() && pattern::dynamic_child((#[trigger] routes[i]).shapes, parent)
}

/// A path is an auto-navigable intermediate directory.
pub open spec fn implicit_dir<H>(m: RouterModel<H>, segments: Seq<Seq<char>>) -> bool {
    &&& !handlers::bound(row_facts(m.dirs, true), segments)
    &&& !handlers::bound(row_facts(m.files, false), segments)
    &&& !handlers::bound(row_facts(m.treerefs, true), segments)
    &&& !handlers::bound(object_facts(m.objects), segments)
    &&& if segments.len() == 0 {
        m.dirs.len() > 0 || m.files.len() > 0 || m.treerefs.len() > 0 || m.objects.len() > 0
    } else {
        static_entry(all_routes(m), segments.drop_last(), segments.last()) matches Some(entry)
            && entry.file is None
    }
}

/// The first of two that is there.
pub open spec fn first_of<A>(first: Option<A>, second: Option<A>) -> Option<A> {
    match first {
        Some(a) => Some(a),
        None => second,
    }
}

/// Routes of one table come before those of the next.
pub proof fn lemma_static_entry_tables(
    first: Seq<RouteFacts>,
    second: Seq<RouteFacts>,
    parent: Seq<Seq<char>>,
    name: Seq<char>,
)
    ensures
        static_entry(first + second, parent, name) == first_of(
            static_entry(first, parent, name),
            static_entry(second, parent, name),
        ),
    decreases second.len(),
{
    let both = first + second;
    if second.len() == 0 {
        assert(both =~= first);
    } else {
        assert(both.drop_last() =~= first + second.drop_last());
        lemma_static_entry_tables(first, second.drop_last(), parent, name);
    }
}

/// A capture sibling in either of two tables is one.
proof fn lemma_capture_child_tables(
    first: Seq<RouteFacts>,
    second: Seq<RouteFacts>,
    parent: Seq<Seq<char>>,
)
    ensures
        capture_child(first + second, parent) == (capture_child(first, parent) || capture_child(
            second,
            parent,
        )),
{
    let both = first + second;
    if capture_child(first, parent) {
        let i = choose|i: int|
            0 <= i < first.len() && pattern::dynamic_child((#[trigger] first[i]).shapes, parent);
        assert(both[i] == first[i]);
    }
    if capture_child(second, parent) {
        let i = choose|i: int|
            0 <= i < second.len() && pattern::dynamic_child((#[trigger] second[i]).shapes, parent);
        assert(both[first.len() + i] == second[i]);
    }
    if capture_child(both, parent) {
        let i = choose|i: int|
            0 <= i < both.len() && pattern::dynamic_child((#[trigger] both[i]).shapes, parent);
        if i < first.len() {
            assert(first[i] == both[i]);
        } else {
            assert(second[i - first.len()] == both[i]);
        }
    }
}

/// The literal child of a pattern lies on the way to what it matches.
pub proof fn lemma_literal_child_matches(
    shapes: Seq<Shape>,
    parent: Seq<Seq<char>>,
    name: Seq<char>,
    continues: bool,
)
    requires
        pattern::literal_child(shapes, parent) == Some((name, continues)),
    ensures
        pattern::prefix_matches(shapes, parent.push(name)),
{
    let child = parent.push(name);
    assert(shapes[parent.len() as int] == Shape::Literal(name));
    assert forall|i: int|
        0 <= i < child.len() && i < shapes.len() implies (#[trigger] shapes[i]).matches(
        child[i],
    ) by {
        if i < parent.len() {
            assert(shapes[i].matches(parent[i]));
        }
    }
}

/// Adds the entries that the routes of one table contribute, behind those
/// that are there.
fn add_static_entries<E: RoutedEntry>(table: &mut NameTable, routes: &[E], parent: &Path)
    requires
        projection::sorted(old(table)@),
    ensures
        projection::sorted(final(table)@),
        forall|name: Seq<char>| #[trigger]
            projection::entry_named(final(table)@, name) == first_of(
                projection::entry_named(old(table)@, name),
                static_entry(handlers::table(routes@), parent@, name),
            ),
{
    let ghost rows = handlers::table(routes@);
    let ghost start = table@;
    let segments = parent.segments();
    let mut i: usize = 0;
    while i < routes.len()
        invariant
            i <= routes@.len(),
            rows == handlers::table(routes@),
            text::views(segments@) == parent@,
            projection::sorted(table@),
            forall|name: Seq<char>| #[trigger]
                projection::entry_named(table@, name) == first_of(
                    projection::entry_named(start, name),
                    static_entry(rows.take(i as int), parent@, name),
                ),
        decreases routes@.len() - i,
    {
        let route = &routes[i];
        let ghost before = table@;
        let ghost row = rows[i as int];
        assert(row == route.facts());
        let entry = contributed_entry(route, parent);
        let ghost model = contributed(row, parent@);
        if let Some(entry) = entry {
            table.insert_if_absent(entry);
        }
        proof {
            let next = rows.take(i as int + 1);
            assert(next.drop_last() =~= rows.take(i as int));
            assert(next.last() == row);
            assert forall|name: Seq<char>| #[trigger]
                projection::entry_named(table@, name) == first_of(
                    projection::entry_named(start, name),
                    static_entry(next, parent@, name),
                ) by {
                assert(projection::entry_named(before, name) == first_of(
                    projection::entry_named(start, name),
                    static_entry(rows.take(i as int), parent@, name),
                ));
                if let Some(e) = model {
                    assert(projection::entry_named(before, e.name) is None
                        ==> projection::with_entry(before, table@, e));
                }
            }
        }
        i = i + 1;
    }
    assert(rows.take(routes@.len() as int) =~= rows);
}

/// The entry that a route contributes directly under a parent.
fn contributed_entry<E: RoutedEntry>(route: &E, parent: &Path) -> (r: Option<Entry>)
    ensures
        match contributed(route.facts(), parent@) {
            Some(entry) => r matches Some(e) && e@ == entry,
            None => r is None,
        },
{
    let pattern = route.route_pattern();
    let (name, extends_below) = match pattern.literal_child_after(parent.segments()) {
        Some(child) => child,
        None => {
            return None;
        },
    };
    let child = match parent.join(name) {
        Ok(child) => child,
        Err(_) => {
            return None;
        },
    };
    proof {
        lemma_literal_child_matches(route.facts().shapes, parent@, name@, extends_below);
    }
    let matched = match pattern.match_prefix(&child) {
        Ok(matched) => matched,
        Err(_) => {
            return None;
        },
    };
    if !route.route_validator().accepts_present(&Captures::from_match(&matched)) {
        return None;
    }
    if extends_below || matches!(route.route_kind(), EntryKind::Directory) {
        Some(Entry::dir(name))
    } else {
        Some(Entry::file(name, FileProj::listing_shape()))
    }
}

/// Whether a route of one table binds a capture or rest segment directly
/// under the parent.
fn has_capture_child<E: RoutedEntry>(routes: &[E], parent: &Path) -> (r: bool)
    ensures
        r == capture_child(handlers::table(routes@), parent@),
{
    let ghost rows = handlers::table(routes@);
    let segments = parent.segments();
    let mut i: usize = 0;
    while i < routes.len()
        invariant
            i <= routes@.len(),
            rows == handlers::table(routes@),
            text::views(segments@) == parent@,
            forall|k: int|
                0 <= k < i ==> !pattern::dynamic_child((#[trigger] rows[k]).shapes, parent@),
        decreases routes@.len() - i,
    {
        assert(rows[i as int] == routes@[i as int].facts());
        if routes[i].route_pattern().has_dynamic_child_after(segments) {
            return true;
        }
        i = i + 1;
    }
    false
}

/// What dispatch reads of the rows of each table.
pub(crate) proof fn lemma_facts<H>(router: &Router<H>)
    ensures
        handlers::table(router.dirs@) == row_facts(router@.dirs, true),
        handlers::table(router.handler_dirs@) == row_facts(router@.handler_dirs, true),
        handlers::table(router.files@) == row_facts(router@.files, false),
        handlers::table(router.handler_files@) == row_facts(router@.handler_files, false),
        handlers::table(router.treerefs@) == row_facts(router@.treerefs, true),
        handlers::table(router.objects@) == object_facts(router@.objects),
{
    router.lemma_tables();
    assert(handlers::table(router.dirs@) =~= row_facts(router@.dirs, true));
    assert(handlers::table(router.handler_dirs@) =~= row_facts(router@.handler_dirs, true));
    assert(handlers::table(router.files@) =~= row_facts(router@.files, false));
    assert(handlers::table(router.handler_files@) =~= row_facts(router@.handler_files, false));
    assert(handlers::table(router.treerefs@) =~= row_facts(router@.treerefs, true));
    assert(handlers::table(router.objects@) =~= object_facts(router@.objects));
}

impl<H> Router<H> {
    /// The literal child entries every route contributes directly under a
    /// parent, name-deduplicated and name-ordered.
    ///
    /// A child is a directory when the contributing route continues below it
    /// or is itself dir-kinded; on duplicate names the first contributing
    /// route wins (iteration order: dir routes, file routes, treerefs,
    /// objects). Routes whose already-present captures fail the prefix
    /// validator are skipped. Capture children are invisible here by
    /// construction; that gap is what the exhaustiveness rules account for.
    pub fn static_entries_for_parent(&self, absolute_parent: &Path) -> (r: Vec<Entry>)
        ensures
            browse::models(r@) == static_entries(self@, absolute_parent@),
            projection::lists(
                browse::models(r@),
                static_names(all_routes(self@), absolute_parent@),
            ),
    {
        proof {
            lemma_facts(self);
        }
        let ghost parent = absolute_parent@;
        let mut table = NameTable::new();
        add_static_entries(&mut table, self.dirs.as_slice(), absolute_parent);
        add_static_entries(&mut table, self.handler_dirs.as_slice(), absolute_parent);
        add_static_entries(&mut table, self.files.as_slice(), absolute_parent);
        add_static_entries(&mut table, self.handler_files.as_slice(), absolute_parent);
        add_static_entries(&mut table, self.treerefs.as_slice(), absolute_parent);
        add_static_entries(&mut table, self.objects.as_slice(), absolute_parent);
        let ghost names = static_names(all_routes(self@), parent);
        proof {
            let a = row_facts(self@.dirs, true);
            let b = row_facts(self@.handler_dirs, true);
            let c = row_facts(self@.files, false);
            let d = row_facts(self@.handler_files, false);
            let e = row_facts(self@.treerefs, true);
            let f = object_facts(self@.objects);
            assert forall|name: Seq<char>| #[trigger]
                projection::entry_named(table@, name) == names(name) by {
                lemma_static_entry_tables(a, b, parent, name);
                lemma_static_entry_tables(a + b, c, parent, name);
                lemma_static_entry_tables(a + b + c, d, parent, name);
                lemma_static_entry_tables(a + b + c + d, e, parent, name);
                lemma_static_entry_tables(a + b + c + d + e, f, parent, name);
            }
            projection::lemma_listing_by(table@, names);
        }
        table.into_entries()
    }

    /// Whether any route binds a capture or rest segment directly under the
    /// parent. True forces static lookups and implicit listings at this
    /// depth to report non-exhaustive: names matched by the capture exist
    /// but cannot be enumerated from the route table.
    pub fn has_capture_child_under(&self, absolute_parent: &Path) -> (r: bool)
        ensures
            r == capture_child(all_routes(self@), absolute_parent@),
    {
        proof {
            lemma_facts(self);
            let parent = absolute_parent@;
            let a = row_facts(self@.dirs, true);
            let b = row_facts(self@.handler_dirs, true);
            let c = row_facts(self@.files, false);
            let d = row_facts(self@.handler_files, false);
            let e = row_facts(self@.treerefs, true);
            let f = object_facts(self@.objects);
            lemma_capture_child_tables(a, b, parent);
            lemma_capture_child_tables(a + b, c, parent);
            lemma_capture_child_tables(a + b + c, d, parent);
            lemma_capture_child_tables(a + b + c + d, e, parent);
            lemma_capture_child_tables(a + b + c + d + e, f, parent);
        }
        has_capture_child(self.dirs.as_slice(), absolute_parent) || has_capture_child(
            self.handler_dirs.as_slice(),
            absolute_parent,
        ) || has_capture_child(self.files.as_slice(), absolute_parent) || has_capture_child(
            self.handler_files.as_slice(),
            absolute_parent,
        ) || has_capture_child(self.treerefs.as_slice(), absolute_parent) || has_capture_child(
            self.objects.as_slice(),
            absolute_parent,
        )
    }

    /// Whether a path is an auto-navigable intermediate directory: not
    /// itself a dir/file/treeref/object route (those answer through their
    /// own dispatch arms), but a literal directory child its parent's
    /// static entries advertise. The root qualifies whenever any route at
    /// all is registered.
    pub fn is_implicit_prefix_dir(&self, absolute_path: &Path) -> (r: bool)
        ensures
            r == implicit_dir(self@, absolute_path@),
    {
        proof {
            lemma_facts(self);
            self.lemma_tables();
        }
        if is_bound(self.dirs.as_slice(), absolute_path) || is_bound(
            self.files.as_slice(),
            absolute_path,
        ) || is_bound(self.treerefs.as_slice(), absolute_path) || is_bound(
            self.objects.as_slice(),
            absolute_path,
        ) {
            return false;
        }
        if absolute_path.is_root() {
            return self.dirs.len() > 0 || self.files.len() > 0 || self.treerefs.len() > 0
                || self.objects.len() > 0;
        }
        let (parent, name) = match absolute_path.parent_and_name() {
            Some(parts) => parts,
            None => {
                return false;
            },
        };
        let entries = self.static_entries_for_parent(&parent);
        match find_entry(&entries, name.as_str()) {
            Some(entry) => matches!(entry.kind(), EntryKind::Directory),
            None => false,
        }
    }
}

/// Whether a route of the table binds the path.
fn is_bound<E: RoutedEntry>(routes: &[E], abs: &Path) -> (r: bool)
    ensures
        r == handlers::bound(handlers::table(routes@), abs@),
{
    let none: Vec<E> = Vec::new();
    let found = handlers::best_match(routes, none.as_slice(), abs);
    assert(routes@ + none@ =~= routes@);
    found.is_some()
}

/// The entry of that name, if there is one.
pub fn find_entry<'a>(entries: &'a Vec<Entry>, name: &str) -> (r: Option<&'a Entry>)
    ensures
        match projection::entry_named(browse::models(entries@), name@) {
            Some(entry) => r matches Some(e) && e@ == entry,
            None => r is None,
        },
{
    let ghost all = browse::models(entries@);
    let mut i: usize = 0;
    assert(all.skip(0) =~= all);
    while i < entries.len()
        invariant
            i <= entries@.len(),
            all == browse::models(entries@),
            projection::entry_named(all, name@) == projection::entry_named(
                all.skip(i as int),
                name@,
            ),
        decreases entries@.len() - i,
    {
        assert(all.skip(i as int)[0] == entries@[i as int]@);
        assert(all.skip(i as int).drop_first() =~= all.skip(i as int + 1));
        if text::same(entries[i].name(), name) {
            return Some(&entries[i]);
        }
        i = i + 1;
    }
    None
}

} // verus!
