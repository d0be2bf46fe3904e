//! Route selection and result assembly shared by lookup, listing, and read
//! dispatch: per-kind route queries, static lookups, and the lowering of a
//! handler's projection onto a browse answer.

use vstd::prelude::*;
use vstd::string::*;

use crate::browse;
use crate::browse::{Entry, EntryModel, List, ListModel, Listing, ListingModel, Lookup, LookupModel};
use crate::captures::Bindings;
use crate::content_type;
use crate::content_type::{ContentModel, ContentType};
use crate::error::{Failure, Result};
use crate::file_attrs;
use crate::file_attrs::FileProj;
use crate::handler;
use crate::object::ObjectShape;
use crate::path::Path;
use crate::projection::{ChildModel, DirModel, DirOutcome, DirOutcomeModel, DirProjection};
use crate::router::dispatch::static_shape;
use crate::router::handlers;
use crate::router::handlers::{DirEntry, FileEntry, RouteFacts, RouteMatch, RoutedEntry, TreeRefEntry};
use crate::router::mount;
use crate::router::mount::ObjectEntry;
use crate::router::object_route;
use crate::router::object_route::{ObjectReadTarget, TargetModel};
use crate::router::pattern;
use crate::router::projection;
use crate::router::projection::NameTable;
use crate::router::register;
use crate::router::register::{ObjectRow, Router, RouterModel, Row};
use crate::text;

verus! {

/// The row that dispatch takes for a path, if one binds it.
pub open spec fn winner(routes: Seq<RouteFacts>, segments: Seq<Seq<char>>) -> Option<int> {
    if handlers::bound(routes, segments) {
        Some(choose|i: int| handlers::wins(routes, segments, i))
    } else {
        None
    }
}

/// The winning row is the one that dispatch takes.
pub proof fn lemma_winner(routes: Seq<RouteFacts>, segments: Seq<Seq<char>>, i: int)
    requires
        handlers::wins(routes, segments, i),
    ensures
        winner(routes, segments) == Some(i),
{
    assert(routes[i].binds(segments));
    let chosen = choose|i: int| handlers::wins(routes, segments, i);
    handlers::law_winner_is_unique(routes, segments, chosen, i);
}

/// Dispatch takes a row exactly when one binds the path, and then one that no
/// binding row outranks.
pub proof fn law_dispatch_takes_the_winner(routes: Seq<RouteFacts>, segments: Seq<Seq<char>>)
    ensures
        match winner(routes, segments) {
            Some(i) => handlers::wins(routes, segments, i),
            None => !handlers::bound(routes, segments),
        },
{
    if handlers::bound(routes, segments) {
        handlers::law_fallthrough_finds_a_route(routes, segments);
    }
}

/// A row and the captures that its pattern takes from a path.
pub struct Chosen<R> {
    pub row: R,
    pub captures: Bindings,
}

/// The row that dispatch takes.
pub open spec fn chosen_row<H>(
    rows: Seq<Row<H>>,
    is_dir: bool,
    segments: Seq<Seq<char>>,
) -> Option<Chosen<Row<H>>> {
    match winner(static_shape::row_facts(rows, is_dir), segments) {
        Some(i) => Some(
            Chosen { row: rows[i], captures: pattern::captures_of(rows[i].shapes, segments) },
        ),
        None => None,
    }
}

/// The object that dispatch takes.
pub open spec fn chosen_object<H>(rows: Seq<ObjectRow<H>>, segments: Seq<Seq<char>>) -> Option<
    Chosen<ObjectRow<H>>,
> {
    match winner(static_shape::object_facts(rows), segments) {
        Some(i) => Some(
            Chosen { row: rows[i], captures: pattern::captures_of(rows[i].shapes, segments) },
        ),
        None => None,
    }
}

/// What a selected dir route is.
pub open spec fn dir_choice<H>(m: Option<RouteMatch<'_, DirEntry<H>>>) -> Option<Chosen<Row<H>>> {
    match m {
        Some(m) => Some(
            Chosen {
                row: Row {
                    shapes: m.entry.pattern@,
                    handler: m.entry.handler,
                    validator: m.entry.validator,
                },
                captures: m.captures@,
            },
        ),
        None => None,
    }
}

/// What a selected file route is.
pub open spec fn file_choice<H>(m: Option<RouteMatch<'_, FileEntry<H>>>) -> Option<
    Chosen<Row<H>>,
> {
    match m {
        Some(m) => Some(
            Chosen {
                row: Row {
                    shapes: m.entry.pattern@,
                    handler: m.entry.handler,
                    validator: m.entry.validator,
                },
                captures: m.captures@,
            },
        ),
        None => None,
    }
}

/// What a selected treeref route is.
pub open spec fn treeref_choice<H>(m: Option<RouteMatch<'_, TreeRefEntry<H>>>) -> Option<
    Chosen<Row<H>>,
> {
    match m {
        Some(m) => Some(
            Chosen {
                row: Row {
                    shapes: m.entry.pattern@,
                    handler: m.entry.handler,
                    validator: m.entry.validator,
                },
                captures: m.captures@,
            },
        ),
        None => None,
    }
}

/// What a selected object is.
pub open spec fn object_choice<H>(m: Option<RouteMatch<'_, ObjectEntry<H>>>) -> Option<
    Chosen<ObjectRow<H>>,
> {
    match m {
        Some(m) => Some(
            Chosen { row: register::object_row(*m.entry), captures: m.captures@ },
        ),
        None => None,
    }
}

/// All entries but the one of that name.
pub open spec fn others(entries: Seq<EntryModel>, name: Seq<char>) -> Seq<EntryModel> {
    entries.filter(|e: EntryModel| e.name != name)
}

/// A lookup answered from the route table: the other static entries come
/// along as siblings, and it is exhaustive only when no capture sibling can
/// bind further names at this depth.
pub open spec fn static_lookup<H>(
    m: RouterModel<H>,
    parent: Seq<Seq<char>>,
    target: EntryModel,
) -> LookupModel {
    LookupModel::Entry {
        target,
        siblings: others(static_shape::static_entries(m, parent), target.name),
        exhaustive: !static_shape::capture_child(static_shape::all_routes(m), parent),
        effects: browse::no_effects(),
    }
}

/// A file entry that is read later.
pub open spec fn listed_file(name: Seq<char>) -> EntryModel {
    browse::file_entry(name, file_attrs::listing_file())
}

/// One of the file leaves has that name.
pub open spec fn file_leaf(leaves: Seq<(Seq<char>, bool)>, name: Seq<char>) -> bool {
    exists|i: int| 0 <= i < leaves.len() && #[trigger] leaves[i] == (name, false)
}

/// One of the leaves has that name.
pub open spec fn any_leaf(leaves: Seq<(Seq<char>, bool)>, name: Seq<char>) -> bool {
    exists|i: int| 0 <= i < leaves.len() && (#[trigger] leaves[i]).0 == name
}

/// A name resolved against an object's declared leaves.
pub open spec fn leaf_lookup<H>(
    row: ObjectRow<H>,
    parent: Seq<Seq<char>>,
    name: Seq<char>,
) -> LookupModel {
    let resolves = match row.shape {
        ObjectShape::File => parent.len() > 0 && any_leaf(row.leaves, parent.last()),
        ObjectShape::Dir => file_leaf(row.leaves, name),
    };
    if resolves {
        browse::found(listed_file(name))
    } else {
        LookupModel::NotFound(None)
    }
}

/// The leaf name of a representation.
pub open spec fn stem_leaf(stem: Seq<char>, ext: Seq<char>) -> Seq<char> {
    stem + "."@ + ext
}

/// The first render, from the `n`-th on, that has that leaf name.
pub open spec fn render_named(
    stem: Seq<char>,
    renders: Seq<ContentModel>,
    leaf: Seq<char>,
    n: nat,
) -> Option<ContentModel>
    decreases renders.len() - n,
{
    if n >= renders.len() {
        None
    } else if leaf == stem_leaf(stem, renders[n as int].leaf_extension()) {
        Some(renders[n as int])
    } else {
        render_named(stem, renders, leaf, n + 1)
    }
}

/// The representation that a leaf name stands for: the canonical source
/// first, then each registered render.
pub open spec fn representation_named<H>(row: ObjectRow<H>, leaf: Seq<char>) -> Option<
    ContentModel,
> {
    if leaf == stem_leaf(row.stem, row.ext) {
        Some(row.source)
    } else {
        render_named(row.stem, row.renders, leaf, 0)
    }
}

/// How a read path resolves: through a file handler, or through the object
/// read path with a resolved target.
pub enum ReadRoute<'a, H> {
    File(RouteMatch<'a, FileEntry<H>>),
    Object { route: RouteMatch<'a, ObjectEntry<H>>, target: ObjectReadTarget },
}

/// What a [`ReadRoute`] is.
pub enum ReadPlan<H> {
    File(Chosen<Row<H>>),
    Object { route: Chosen<ObjectRow<H>>, target: TargetModel },
}

/// The plan of a resolved read.
pub open spec fn read_choice<H>(r: Option<ReadRoute<'_, H>>) -> Option<ReadPlan<H>> {
    match r {
        Some(ReadRoute::File(m)) => match file_choice(Some(m)) {
            Some(chosen) => Some(ReadPlan::File(chosen)),
            None => None,
        },
        Some(ReadRoute::Object { route, target }) => match object_choice(Some(route)) {
            Some(chosen) => Some(ReadPlan::Object { route: chosen, target: target@ }),
            None => None,
        },
        None => None,
    }
}

/// The content type that a mime string asks for.
pub open spec fn requested(mime: Seq<char>) -> ContentModel {
    match content_type::mime_format(mime) {
        Some(ct) => ct,
        None => ContentModel::Octet,
    }
}

/// How a read path resolves: a file route first, then an object anchored at
/// the path, then a leaf of a dir-shaped object anchored at the parent.
pub open spec fn read_plan<H>(
    m: RouterModel<H>,
    segments: Seq<Seq<char>>,
    mime: Seq<char>,
) -> Option<ReadPlan<H>> {
    match chosen_row(m.files + m.handler_files, false, segments) {
        Some(chosen) => Some(ReadPlan::File(chosen)),
        None => match chosen_object(m.objects, segments) {
            Some(route) => Some(
                ReadPlan::Object { route, target: TargetModel::Representation(requested(mime)) },
            ),
            None => if segments.len() == 0 {
                None
            } else {
                match chosen_object(m.objects, segments.drop_last()) {
                    Some(route) => leaf_plan(route, segments.last()),
                    None => None,
                }
            },
        },
    }
}

/// How a leaf of an object is read: by representation before field.
pub open spec fn leaf_plan<H>(route: Chosen<ObjectRow<H>>, leaf: Seq<char>) -> Option<
    ReadPlan<H>,
> {
    if !(route.row.shape is Dir) {
        None
    } else {
        match representation_named(route.row, leaf) {
            Some(ct) => Some(
                ReadPlan::Object { route, target: TargetModel::Representation(ct) },
            ),
            None => if file_leaf(route.row.leaves, leaf) {
                Some(ReadPlan::Object { route, target: TargetModel::Projected(leaf) })
            } else {
                None
            },
        }
    }
}

/// A handler's children merged with the static entries at their depth,
/// name-ordered.
pub open spec fn merged<H>(
    m: RouterModel<H>,
    parent: Seq<Seq<char>>,
    children: Seq<ChildModel>,
) -> Seq<EntryModel> {
    projection::listing_by(
        projection::merged_names(children, static_shape::static_entries(m, parent)),
    )
}

/// A lookup resolved through the parent handler's enumeration.
pub open spec fn enumerated_lookup<H, R>(
    m: RouterModel<H>,
    parent: Seq<Seq<char>>,
    name: Seq<char>,
    p: DirModel<R>,
) -> core::result::Result<LookupModel, Failure> {
    match p.outcome {
        DirOutcomeModel::Entries { entries, exhaustive, cursor } => {
            match crate::projection::effects_of(p) {
                Err(f) => Err(f),
                Ok(effects) => match projection::merged_entry(
                    entries,
                    static_shape::static_entries(m, parent),
                    name,
                ) {
                    Some(target) => Ok(
                        LookupModel::Entry {
                            target,
                            siblings: others(merged(m, parent, entries), name),
                            exhaustive,
                            effects,
                        },
                    ),
                    None => Ok(LookupModel::NotFound(None)),
                },
            }
        },
        DirOutcomeModel::Unchanged => Ok(LookupModel::NotFound(None)),
    }
}

/// A handler's projection as a listing.
pub open spec fn projected_list<H, R>(
    m: RouterModel<H>,
    segments: Seq<Seq<char>>,
    p: DirModel<R>,
) -> core::result::Result<ListModel, Failure> {
    match p.outcome {
        DirOutcomeModel::Unchanged => Ok(ListModel::Unchanged),
        DirOutcomeModel::Entries { entries, exhaustive, cursor } => {
            match crate::projection::effects_of(p) {
                Err(f) => Err(f),
                Ok(effects) => Ok(
                    ListModel::Entries(
                        ListingModel {
                            entries: merged(m, segments, entries),
                            exhaustive,
                            effects,
                            validator: browse::token_text(p.validator),
                            next_cursor: cursor,
                        },
                    ),
                ),
            }
        },
    }
}

/// What a leaf is listed as.
pub open spec fn leaf_entry(leaf: (Seq<char>, bool)) -> EntryModel {
    if leaf.1 {
        browse::dir_entry(leaf.0)
    } else {
        listed_file(leaf.0)
    }
}

/// What a name stands for in the listing of an object's anchor: the last of
/// the first `n` leaves of that name, else the static entry.
pub open spec fn anchor_entry(
    leaves: Seq<(Seq<char>, bool)>,
    n: nat,
    statics: Seq<EntryModel>,
    name: Seq<char>,
) -> Option<EntryModel>
    decreases n,
{
    if n == 0 {
        projection::entry_named(statics, name)
    } else if leaves[n - 1].0 == name {
        Some(leaf_entry(leaves[n - 1]))
    } else {
        anchor_entry(leaves, (n - 1) as nat, statics, name)
    }
}

/// What each name stands for in the listing of an object's anchor.
pub open spec fn anchor_names(
    leaves: Seq<(Seq<char>, bool)>,
    n: nat,
    statics: Seq<EntryModel>,
) -> spec_fn(Seq<char>) -> Option<EntryModel> {
    |name: Seq<char>| anchor_entry(leaves, n, statics, name)
}

/// There is a list of an object's anchor.
pub proof fn lemma_anchor_list(
    leaves: Seq<(Seq<char>, bool)>,
    n: nat,
    statics: Seq<EntryModel>,
)
    requires
        projection::sorted(statics),
        n <= leaves.len(),
    ensures
        exists|entries: Seq<EntryModel>|
            #[trigger] projection::lists(entries, anchor_names(leaves, n, statics)),
    decreases n,
{
    let names = anchor_names(leaves, n, statics);
    if n == 0 {
        assert(projection::lists(statics, names));
    } else {
        let known = anchor_names(leaves, (n - 1) as nat, statics);
        lemma_anchor_list(leaves, (n - 1) as nat, statics);
        let entries = choose|entries: Seq<EntryModel>| projection::lists(entries, known);
        let entry = leaf_entry(leaves[n - 1]);
        projection::lemma_put(entries, entry);
        let more = choose|more: Seq<EntryModel>|
            projection::sorted(more) && projection::with_entry(entries, more, entry);
        assert forall|name: Seq<char>| #[trigger]
            projection::entry_named(more, name) == names(name) by {
            assert(projection::entry_named(entries, name) == known(name));
        }
        assert(projection::lists(more, names));
    }
}

/// The listing of an object's anchor: its leaves merged over the static
/// entries, always complete because they are statically declared.
pub open spec fn anchor_listing<H>(
    m: RouterModel<H>,
    row: ObjectRow<H>,
    segments: Seq<Seq<char>>,
) -> ListingModel {
    browse::plain_listing(
        projection::listing_by(
            anchor_names(
                row.leaves,
                row.leaves.len(),
                static_shape::static_entries(m, segments),
            ),
        ),
        true,
    )
}

/// Drops the entry of that name.
fn without_name(entries: Vec<Entry>, name: &str) -> (r: Vec<Entry>)
    ensures
        browse::models(r@) == others(browse::models(entries@), name@),
{
    let ghost all = entries@;
    let mut kept: Vec<Entry> = Vec::new();
    proof {
        reveal(Seq::filter);
        assert(browse::models(all.take(0)) =~= Seq::<EntryModel>::empty());
        assert(browse::models(kept@) =~= Seq::<EntryModel>::empty());
    }
    for entry in it: entries
        invariant
            it.seq() == all,
            browse::models(kept@) == others(browse::models(all.take(it.index() as int)), name@),
    {
        let ghost i = it.index() as int;
        let ghost before = kept@;
        assert(entry == all[i]);
        proof {
            reveal(Seq::filter);
            assert(browse::models(all.take(i + 1)) =~= browse::models(all.take(i)).push(entry@));
            assert(browse::models(all.take(i + 1)).drop_last() =~= browse::models(all.take(i)));
        }
        if !text::same(entry.name(), name) {
            let ghost model = entry@;
            kept.push(entry);
            assert(browse::models(kept@) =~= browse::models(before).push(model));
        }
    }
    assert(all.take(all.len() as int) =~= all);
    kept
}

/// A selected route is the winning row.
proof fn lemma_selected<E: RoutedEntry>(
    m: Option<RouteMatch<'_, E>>,
    rows: Seq<E>,
    segments: Seq<Seq<char>>,
)
    requires
        handlers::selected(m, rows, segments),
    ensures
        match m {
            Some(m) => winner(handlers::table(rows), segments) matches Some(i) && 0 <= i
                < rows.len() && *m.entry == rows[i] && m.captures@ == pattern::captures_of(
                rows[i].facts().shapes,
                segments,
            ),
            None => winner(handlers::table(rows), segments) is None,
        },
{
    if let Some(m) = m {
        let i = choose|i: int| #[trigger]
            handlers::wins(handlers::table(rows), segments, i) && *m.entry == rows[i]
                && m.captures@ == pattern::captures_of(rows[i].facts().shapes, segments);
        lemma_winner(handlers::table(rows), segments, i);
    }
}

/// The rows of two tables, one after the other.
proof fn lemma_facts_joined<H>(first: Seq<Row<H>>, second: Seq<Row<H>>, is_dir: bool)
    ensures
        static_shape::row_facts(first + second, is_dir) == static_shape::row_facts(first, is_dir)
            + static_shape::row_facts(second, is_dir),
{
    assert(static_shape::row_facts(first + second, is_dir) =~= static_shape::row_facts(
        first,
        is_dir,
    ) + static_shape::row_facts(second, is_dir));
}

impl<H> Router<H> {
    pub(crate) fn treeref_route(&self, abs: &Path) -> (r: Option<RouteMatch<'_, TreeRefEntry<H>>>)
        ensures
            treeref_choice(r) == chosen_row(self@.treerefs, true, abs@),
    {
        let r = handlers::best_match(self.treerefs.as_slice(), &[], abs);
        proof {
            assert(self.treerefs@ + Seq::empty() =~= self.treerefs@);
            static_shape::lemma_facts(self);
            self.lemma_tables();
            lemma_selected(r, self.treerefs@, abs@);
        }
        r
    }

    /// Dir routes registered via [`Router::dir`] only; object handler dirs
    /// are excluded. Lookup uses this for its file-vs-dir precedence
    /// comparison.
    pub(crate) fn direct_dir_route(&self, abs: &Path) -> (r: Option<RouteMatch<'_, DirEntry<H>>>)
        ensures
            dir_choice(r) == chosen_row(self@.dirs, true, abs@),
    {
        let r = handlers::best_match(self.dirs.as_slice(), &[], abs);
        proof {
            assert(self.dirs@ + Seq::empty() =~= self.dirs@);
            static_shape::lemma_facts(self);
            self.lemma_tables();
            lemma_selected(r, self.dirs@, abs@);
        }
        r
    }

    /// Dir routes including object handler dirs: the set whose handlers can
    /// answer a listing or a lookup fallback.
    pub fn list_dir_route(&self, abs: &Path) -> (r: Option<RouteMatch<'_, DirEntry<H>>>)
        ensures
            dir_choice(r) == chosen_row(self@.dirs + self@.handler_dirs, true, abs@),
    {
        let r = handlers::best_match(self.dirs.as_slice(), self.handler_dirs.as_slice(), abs);
        proof {
            let both = self.dirs@ + self.handler_dirs@;
            static_shape::lemma_facts(self);
            self.lemma_tables();
            lemma_facts_joined(self@.dirs, self@.handler_dirs, true);
            assert(handlers::table(both) =~= handlers::table(self.dirs@) + handlers::table(
                self.handler_dirs@,
            ));
            assert(register::dir_rows(both) =~= self@.dirs + self@.handler_dirs);
            lemma_selected(r, both, abs@);
        }
        r
    }

    /// File routes including object handler files.
    pub fn file_route(&self, abs: &Path) -> (r: Option<RouteMatch<'_, FileEntry<H>>>)
        ensures
            file_choice(r) == chosen_row(self@.files + self@.handler_files, false, abs@),
    {
        let r = handlers::best_match(self.files.as_slice(), self.handler_files.as_slice(), abs);
        proof {
            let both = self.files@ + self.handler_files@;
            static_shape::lemma_facts(self);
            self.lemma_tables();
            lemma_facts_joined(self@.files, self@.handler_files, false);
            assert(handlers::table(both) =~= handlers::table(self.files@) + handlers::table(
                self.handler_files@,
            ));
            assert(register::file_rows(both) =~= self@.files + self@.handler_files);
            lemma_selected(r, both, abs@);
        }
        r
    }

    pub(crate) fn object_route(&self, abs: &Path) -> (r: Option<RouteMatch<'_, ObjectEntry<H>>>)
        ensures
            object_choice(r) == chosen_object(self@.objects, abs@),
    {
        let r = handlers::best_match(self.objects.as_slice(), &[], abs);
        proof {
            assert(self.objects@ + Seq::empty() =~= self.objects@);
            static_shape::lemma_facts(self);
            self.lemma_tables();
            lemma_selected(r, self.objects@, abs@);
        }
        r
    }

    /// Resolve a read path: file route first; then an object anchor at the
    /// path (representation chosen by the requested content type); then a
    /// leaf one level under a dir-shaped anchor, where the leaf name
    /// resolves to a representation (`stem.ext` against the render table)
    /// before a projected field.
    pub fn read_route(&self, abs: &Path, content_type: &str) -> (r: Option<ReadRoute<'_, H>>)
        ensures
            read_choice(r) == read_plan(self@, abs@, content_type@),
    {
        if let Some(route) = self.file_route(abs) {
            return Some(ReadRoute::File(route));
        }
        if let Some(route) = self.object_route(abs) {
            let ct = match ContentType::from_mime(content_type) {
                Some(ct) => ct,
                None => ContentType::Octet,
            };
            return Some(
                ReadRoute::Object { route, target: ObjectReadTarget::Representation(ct) },
            );
        }
        let (parent, leaf) = match abs.parent_and_name() {
            Some(parts) => parts,
            None => {
                return None;
            },
        };
        let route = match self.object_route(&parent) {
            Some(route) => route,
            None => {
                return None;
            },
        };
        if route.entry.shape != ObjectShape::Dir {
            return None;
        }
        if let Some(ct) = route.entry.representation_ct_for_leaf(leaf.as_str()) {
            return Some(
                ReadRoute::Object { route, target: ObjectReadTarget::Representation(ct) },
            );
        }
        if route.entry.has_file_leaf(leaf.as_str()) {
            Some(ReadRoute::Object { route, target: ObjectReadTarget::Projected(leaf) })
        } else {
            None
        }
    }

    /// A directory answer synthesized from the route table: no handler runs.
    /// Carries the parent's other static entries as siblings (one host
    /// round trip warms the whole directory) and is exhaustive only when no
    /// capture sibling can bind further names at this depth.
    pub fn static_dir_lookup(&self, parent_abs: &Path, name: &str) -> (r: Lookup)
        ensures
            r@ == static_lookup(self@, parent_abs@, browse::dir_entry(name@)),
    {
        self.answer_statically(parent_abs, Entry::dir(name))
    }

    /// The file analog of [`Self::static_dir_lookup`]; the entry carries the
    /// default listing-shape projection (size and bytes resolve at read
    /// time).
    pub fn static_file_lookup(&self, parent_abs: &Path, name: &str) -> (r: Lookup)
        ensures
            r@ == static_lookup(self@, parent_abs@, listed_file(name@)),
    {
        self.answer_statically(parent_abs, Entry::file(name, FileProj::listing_shape()))
    }

    fn answer_statically(&self, parent_abs: &Path, target: Entry) -> (r: Lookup)
        ensures
            r@ == static_lookup(self@, parent_abs@, target@),
    {
        let siblings = without_name(self.static_entries_for_parent(parent_abs), target.name());
        let exhaustive = !self.has_capture_child_under(parent_abs);
        let ghost kept = browse::models(siblings@);
        assert(Seq::<EntryModel>::empty() + kept =~= kept);
        Lookup::entry(target).with_siblings(siblings).exhaustive(exhaustive)
    }

    /// Resolve `name` as a leaf of an object anchored at `parent_abs`;
    /// not-found when no object is anchored there.
    pub fn object_leaf_lookup(&self, parent_abs: &Path, name: &str) -> (r: Lookup)
        ensures
            r@ == (match chosen_object(self@.objects, parent_abs@) {
                Some(route) => leaf_lookup(route.row, parent_abs@, name@),
                None => LookupModel::NotFound(None),
            }),
    {
        match self.object_route(parent_abs) {
            Some(route) => route.entry.child_file_lookup(parent_abs, name),
            None => Lookup::not_found(),
        }
    }

    /// List an auto-navigable literal prefix from the route table alone:
    /// partial when a capture sibling at the next depth can bind names this
    /// enumeration cannot produce, complete otherwise.
    pub fn implicit_dir_listing(&self, abs: &Path) -> (r: Option<Listing>)
        ensures
            if static_shape::implicit_dir(self@, abs@) {
                r matches Some(listing) && listing@ == browse::plain_listing(
                    static_shape::static_entries(self@, abs@),
                    !static_shape::capture_child(static_shape::all_routes(self@), abs@),
                )
            } else {
                r is None
            },
    {
        if !self.is_implicit_prefix_dir(abs) {
            return None;
        }
        let entries = self.static_entries_for_parent(abs);
        if self.has_capture_child_under(abs) {
            Some(Listing::partial(entries))
        } else {
            Some(Listing::complete(entries))
        }
    }

    /// Resolve a lookup through the parent handler's enumeration: merge the
    /// projection's entries with the static siblings (projection wins name
    /// collisions), pick the target by name, and carry the rest as
    /// siblings together with the projection's preload effects, so a single
    /// lookup warms everything the handler already computed. The
    /// `Unchanged` outcome resolves to not-found here: it enumerates
    /// nothing to match against.
    pub fn projection_lookup<R>(
        &self,
        parent_abs: &Path,
        name: &str,
        projection: &DirProjection<R>,
    ) -> (r: Result<Lookup>)
        ensures
            match enumerated_lookup(self@, parent_abs@, name@, projection@) {
                Ok(lookup) => r matches Ok(l) && l@ == lookup,
                Err(f) => r matches Err(e) && e@ == f,
            },
    {
        match projection.outcome() {
            DirOutcome::Entries { entries, exhaustive, .. } => {
                let merged = self.merge_children(parent_abs, entries);
                let target = match static_shape::find_entry(&merged, name) {
                    Some(entry) => Some(entry.clone()),
                    None => None,
                };
                let siblings = without_name(merged, name);
                let effects = match projection.project_effects() {
                    Ok(effects) => effects,
                    Err(e) => {
                        return Err(e);
                    },
                };
                let lookup = match target {
                    Some(target) => Lookup::entry(target),
                    None => Lookup::not_found(),
                };
                proof {
                    let kept = browse::models(siblings@);
                    assert(Seq::<EntryModel>::empty() + kept =~= kept);
                    browse::law_effects_extend(effects@, effects@, effects@);
                }
                Ok(lookup.with_siblings(siblings).with_effects(effects).exhaustive(*exhaustive))
            },
            DirOutcome::Unchanged => Ok(Lookup::not_found()),
        }
    }

    /// A handler's children merged with the static entries at their depth.
    fn merge_children(
        &self,
        parent_abs: &Path,
        entries: &Vec<crate::projection::Entry>,
    ) -> (r: Vec<Entry>)
        ensures
            browse::models(r@) == merged(
                self@,
                parent_abs@,
                crate::projection::children(entries@),
            ),
            forall|name: Seq<char>| #[trigger]
                projection::entry_named(browse::models(r@), name) == projection::merged_entry(
                    crate::projection::children(entries@),
                    static_shape::static_entries(self@, parent_abs@),
                    name,
                ),
    {
        let static_entries = self.static_entries_for_parent(parent_abs);
        let r = projection::merge_entries(entries, static_entries);
        proof {
            let names = projection::merged_names(
                crate::projection::children(entries@),
                static_shape::static_entries(self@, parent_abs@),
            );
            projection::lemma_listing_by(browse::models(r@), names);
        }
        r
    }

    /// Lower a [`DirProjection`] to a listing: merge with static siblings,
    /// honor the handler's exhaustive flag, and attach the preload effects,
    /// re-list validator, and resume cursor the projection carries.
    pub fn dir_projection_into_list<R>(
        &self,
        abs: &Path,
        projection: &DirProjection<R>,
    ) -> (r: Result<List>)
        ensures
            match projected_list(self@, abs@, projection@) {
                Ok(list) => r matches Ok(l) && l@ == list,
                Err(f) => r matches Err(e) && e@ == f,
            },
    {
        match projection.outcome() {
            DirOutcome::Unchanged => Ok(List::unchanged()),
            DirOutcome::Entries { entries, exhaustive, cursor } => {
                let merged = self.merge_children(abs, entries);
                let listing = if *exhaustive {
                    Listing::complete(merged)
                } else {
                    Listing::partial(merged)
                };
                let effects = match projection.project_effects() {
                    Ok(effects) => effects,
                    Err(e) => {
                        return Err(e);
                    },
                };
                proof {
                    browse::law_effects_extend(effects@, effects@, effects@);
                }
                let listing = listing.with_effects(effects);
                let listing = match projection.validator() {
                    Some(validator) => listing.with_validator(validator.0.clone()),
                    None => listing,
                };
                let listing = match handler::copy_cursor(cursor) {
                    Some(cursor) => listing.with_cursor(cursor),
                    None => listing,
                };
                Ok(List::entries(listing))
            },
        }
    }

    /// An object anchor's listing: the precomputed leaf names merged over
    /// the static entries (leaves win collisions), always complete because
    /// an anchor's children are statically declared.
    pub fn object_dir_listing(&self, entry: &ObjectEntry<H>, anchor_abs: &Path) -> (r: Listing)
        ensures
            r@ == anchor_listing(self@, register::object_row(*entry), anchor_abs@),
    {
        let ghost statics = static_shape::static_entries(self@, anchor_abs@);
        let ghost leaves = mount::listing_models(entry.leaves@);
        let mut table = NameTable::of(self.static_entries_for_parent(anchor_abs));
        let mut i: usize = 0;
        while i < entry.leaves.len()
            invariant
                i <= entry.leaves@.len(),
                leaves == mount::listing_models(entry.leaves@),
                projection::sorted(table@),
                forall|name: Seq<char>| #[trigger]
                    projection::entry_named(table@, name) == anchor_entry(
                        leaves,
                        i as nat,
                        statics,
                        name,
                    ),
            decreases entry.leaves@.len() - i,
        {
            let leaf = &entry.leaves[i];
            assert(leaves[i as int] == leaf@);
            let ghost before = table@;
            let listed = if leaf.is_dir {
                Entry::dir(leaf.name.as_str())
            } else {
                Entry::file(leaf.name.as_str(), FileProj::listing_shape())
            };
            assert(listed@ == leaf_entry(leaves[i as int]));
            table.insert(listed);
            assert forall|name: Seq<char>| #[trigger]
                projection::entry_named(table@, name) == anchor_entry(
                    leaves,
                    (i + 1) as nat,
                    statics,
                    name,
                ) by {
                assert(projection::entry_named(before, name) == anchor_entry(
                    leaves,
                    i as nat,
                    statics,
                    name,
                ));
            }
            i = i + 1;
        }
        proof {
            let names = anchor_names(leaves, leaves.len(), statics);
            projection::lemma_listing_by(table@, names);
        }
        Listing::complete(table.into_entries())
    }
}

impl<H> ObjectEntry<H> {
    /// Resolve a leaf name against this entry's declared file leaves. For a
    /// dir-shaped object, `name` must be one of the anchor's file leaves;
    /// the file-shaped branch instead tests `parent_abs`'s final segment
    /// against the leaf names.
    pub fn child_file_lookup(&self, parent_abs: &Path, name: &str) -> (r: Lookup)
        ensures
            r@ == leaf_lookup(register::object_row(*self), parent_abs@, name@),
    {
        if self.shape == ObjectShape::File {
            if parent_abs.is_root() {
                return Lookup::not_found();
            }
            if self.has_leaf(parent_abs.name()) {
                return Lookup::entry(Entry::file(name, FileProj::listing_shape()));
            }
            return Lookup::not_found();
        }
        if self.has_file_leaf(name) {
            return Lookup::entry(Entry::file(name, FileProj::listing_shape()));
        }
        Lookup::not_found()
    }

    fn has_leaf(&self, name: &str) -> (r: bool)
        ensures
            r == any_leaf(mount::listing_models(self.leaves@), name@),
    {
        let ghost leaves = mount::listing_models(self.leaves@);
        let mut i: usize = 0;
        while i < self.leaves.len()
            invariant
                i <= self.leaves@.len(),
                leaves == mount::listing_models(self.leaves@),
                forall|k: int| 0 <= k < i ==> (#[trigger] leaves[k]).0 != name@,
            decreases self.leaves@.len() - i,
        {
            assert(leaves[i as int] == self.leaves@[i as int]@);
            if text::same(self.leaves[i].name.as_str(), name) {
                return true;
            }
            i = i + 1;
        }
        false
    }

    fn has_file_leaf(&self, name: &str) -> (r: bool)
        ensures
            r == file_leaf(mount::listing_models(self.leaves@), name@),
    {
        let ghost leaves = mount::listing_models(self.leaves@);
        let mut i: usize = 0;
        while i < self.leaves.len()
            invariant
                i <= self.leaves@.len(),
                leaves == mount::listing_models(self.leaves@),
                forall|k: int| 0 <= k < i ==> #[trigger] leaves[k] != (name@, false),
            decreases self.leaves@.len() - i,
        {
            let leaf = &self.leaves[i];
            assert(leaves[i as int] == leaf@);
            if text::same(leaf.name.as_str(), name) && !leaf.is_dir {
                return true;
            }
            i = i + 1;
        }
        false
    }

    /// Map a `stem.ext` leaf name back to its representation content type:
    /// the canonical source first, then each registered render by its
    /// extension.
    fn representation_ct_for_leaf(&self, leaf: &str) -> (r: Option<ContentType>)
        ensures
            content_type::content_of(r) == representation_named(
                register::object_row(*self),
                leaf@,
            ),
    {
        let stem = self.source_stem.as_str();
        let source = text::concat3(stem, ".", self.source_ext.as_str());
        if text::same(leaf, source.as_str()) {
            return Some(self.source_ct);
        }
        let ghost renders = object_route::types_of(self.render_cts@);
        let mut i: usize = 0;
        while i < self.render_cts.len()
            invariant
                i <= self.render_cts@.len(),
                stem@ == self.source_stem@,
                renders == object_route::types_of(self.render_cts@),
                leaf@ != stem_leaf(stem@, self.source_ext@),
                render_named(stem@, renders, leaf@, 0) == render_named(
                    stem@,
                    renders,
                    leaf@,
                    i as nat,
                ),
            decreases self.render_cts@.len() - i,
        {
            let ct = self.render_cts[i];
            assert(renders[i as int] == ct@);
            let name = text::concat3(stem, ".", ct.leaf_extension());
            if text::same(leaf, name.as_str()) {
                return Some(ct);
            }
            i = i + 1;
        }
        None
    }
}

} // verus!
