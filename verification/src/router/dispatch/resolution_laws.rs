//! What decides which route answers a lookup, a listing or a read.

use vstd::prelude::*;

use crate::browse;
use crate::browse::{EntryModel, ListModel, LookupModel};
use crate::content_type;
use crate::content_type::ContentModel;
use crate::error::{Failure, ProviderErrorKind};
use crate::handler::Cursor;
use crate::object::ObjectShape;
use crate::path;
use crate::router::dispatch::laws;
use crate::router::dispatch::list;
use crate::router::dispatch::list::ListPlan;
use crate::router::dispatch::lookup;
use crate::router::dispatch::lookup::LookupPlan;
use crate::router::dispatch::read;
use crate::router::dispatch::route_shape;
use crate::router::dispatch::route_shape::{Chosen, ReadPlan};
use crate::router::dispatch::static_shape;
use crate::router::handlers;
use crate::router::handlers::RouteFacts;
use crate::router::object_route::TargetModel;
use crate::router::pattern;
use crate::router::pattern::Shape;
use crate::router::pattern_laws;
use crate::router::projection;
use crate::router::register::{ObjectRow, RouterModel, Row};

verus! {

/// A file leaf of an object takes a name under the parent: a dir-shaped
/// object declares one of that name, and a file-shaped one declares one named
/// like the parent itself.
pub open spec fn leaf_takes<H>(
    row: ObjectRow<H>,
    parent: Seq<Seq<char>>,
    name: Seq<char>,
) -> bool {
    match row.shape {
        ObjectShape::Dir => row.leaves.contains((name, false)),
        ObjectShape::File => parent.len() > 0 && (row.leaves.contains((parent.last(), false))
            || row.leaves.contains((parent.last(), true))),
    }
}

/// No leaf of the object that is anchored at the parent takes the name.
pub open spec fn no_leaf_takes<H>(
    m: RouterModel<H>,
    parent: Seq<Seq<char>>,
    name: Seq<char>,
) -> bool {
    forall|o: int| #[trigger]
        handlers::wins(static_shape::object_facts(m.objects), parent, o) ==> !leaf_takes(
            m.objects[o],
            parent,
            name,
        )
}

/// A name is found in a lookup, as a directory or as a file.
pub open spec fn found_as<H>(plan: LookupPlan<H>, name: Seq<char>, is_file: bool) -> bool {
    plan matches LookupPlan::Answered(LookupModel::Entry { target, .. }) && target.name == name && (
    target.file is Some) == is_file
}

/// A file route binds the path.
pub open spec fn file_route_binds<H>(m: RouterModel<H>, segments: Seq<Seq<char>>) -> bool {
    handlers::bound(static_shape::row_facts(m.files, false), segments) || handlers::bound(
        static_shape::row_facts(m.handler_files, false),
        segments,
    )
}

/// A directory route binds the path: one of the router, or a handler
/// directory of a mounted object.
pub open spec fn directory_route_binds<H>(m: RouterModel<H>, segments: Seq<Seq<char>>) -> bool {
    handlers::bound(static_shape::row_facts(m.dirs, true), segments) || handlers::bound(
        static_shape::row_facts(m.handler_dirs, true),
        segments,
    )
}

/// A path is bound by two tables read as one exactly when one of them binds
/// it.
pub proof fn lemma_tables_bind<H>(
    first: Seq<Row<H>>,
    second: Seq<Row<H>>,
    is_dir: bool,
    segments: Seq<Seq<char>>,
)
    ensures
        handlers::bound(static_shape::row_facts(first + second, is_dir), segments) == (
        handlers::bound(static_shape::row_facts(first, is_dir), segments) || handlers::bound(
            static_shape::row_facts(second, is_dir),
            segments,
        )),
{
    let a = static_shape::row_facts(first, is_dir);
    let b = static_shape::row_facts(second, is_dir);
    let both = static_shape::row_facts(first + second, is_dir);
    assert(both =~= a + b);
    if handlers::bound(a, segments) {
        let i = choose|i: int| 0 <= i < a.len() && (#[trigger] a[i]).binds(segments);
        assert(both[i] == a[i]);
    }
    if handlers::bound(b, segments) {
        let i = choose|i: int| 0 <= i < b.len() && (#[trigger] b[i]).binds(segments);
        assert(both[a.len() + i] == b[i]);
    }
    if handlers::bound(both, segments) {
        let i = choose|i: int| 0 <= i < both.len() && (#[trigger] both[i]).binds(segments);
        if i < a.len() {
            assert(a[i] == both[i]);
        } else {
            assert(b[i - a.len()] == both[i]);
        }
    }
}

/// What a leaf lookup at the parent finds.
proof fn lemma_parent_leaf<H>(m: RouterModel<H>, parent: Seq<Seq<char>>, name: Seq<char>)
    ensures
        (lookup::parent_leaf(m, parent, name) is NotFound) == no_leaf_takes(m, parent, name),
        lookup::parent_leaf(m, parent, name) is NotFound ==> lookup::parent_leaf(m, parent, name)
            == LookupModel::NotFound(None),
        !(lookup::parent_leaf(m, parent, name) is NotFound) ==> lookup::parent_leaf(m, parent, name)
            == browse::found(route_shape::listed_file(name)),
{
    let facts = static_shape::object_facts(m.objects);
    route_shape::law_dispatch_takes_the_winner(facts, parent);
    match route_shape::winner(facts, parent) {
        Some(o) => {
            let row = m.objects[o];
            match row.shape {
                ObjectShape::Dir => {
                    if row.leaves.contains((name, false)) {
                        let i = choose|i: int|
                            0 <= i < row.leaves.len() && row.leaves[i] == (name, false);
                        assert(row.leaves[i] == (name, false));
                    }
                    assert(route_shape::file_leaf(row.leaves, name) == leaf_takes(
                        row,
                        parent,
                        name,
                    ));
                },
                ObjectShape::File => {
                    if parent.len() > 0 && route_shape::any_leaf(row.leaves, parent.last()) {
                        let i = choose|i: int|
                            0 <= i < row.leaves.len() && (#[trigger] row.leaves[i]).0
                                == parent.last();
                        assert(row.leaves[i] == (parent.last(), row.leaves[i].1));
                        assert(row.leaves.contains(row.leaves[i]));
                    }
                    if leaf_takes(row, parent, name) {
                        let is_dir = row.leaves.contains((parent.last(), true));
                        let i = choose|i: int|
                            0 <= i < row.leaves.len() && row.leaves[i] == (parent.last(), is_dir);
                        assert(row.leaves[i].0 == parent.last());
                    }
                    assert((parent.len() > 0 && route_shape::any_leaf(row.leaves, parent.last()))
                        == leaf_takes(row, parent, name));
                },
            }
            assert forall|p: int| #[trigger] handlers::wins(facts, parent, p) implies p == o by {
                handlers::law_winner_is_unique(facts, parent, p, o);
            }
        },
        None => {
            assert forall|p: int| !(#[trigger] handlers::wins(facts, parent, p)) by {
                if handlers::wins(facts, parent, p) {
                    assert(facts[p].binds(parent));
                }
            }
        },
    }
}

/// A treeref hands its subtree over before anything else is asked: a lookup
/// of the child and a listing of its path both run the handler of the most
/// specific treeref that binds it, with the captures that its pattern takes
/// from the path.
pub proof fn law_treeref_takes_the_path<H>(
    m: RouterModel<H>,
    parent: Seq<Seq<char>>,
    name: Seq<char>,
    cursor: Option<Cursor>,
    t: int,
)
    requires
        path::valid_segments(parent.push(name)),
        handlers::wins(static_shape::row_facts(m.treerefs, true), parent.push(name), t),
    ensures
        lookup::lookup_plan(m, parent, name) == (LookupPlan::TreeRef {
            handler: m.treerefs[t].handler,
            captures: pattern::captures_of(m.treerefs[t].shapes, parent.push(name)),
        }),
        list::list_plan(m, path::path_text(parent.push(name)), cursor) == Ok::<
            ListPlan<H>,
            Failure,
        >(
            ListPlan::TreeRef {
                handler: m.treerefs[t].handler,
                captures: pattern::captures_of(m.treerefs[t].shapes, parent.push(name)),
            },
        ),
{
    path::law_path_round_trip(parent.push(name));
    route_shape::lemma_winner(static_shape::row_facts(m.treerefs, true), parent.push(name), t);
}

/// Where a dir route and a file route both bind a child, and no treeref, no
/// object and no leaf of an object at the parent takes it, the more specific
/// of the two decides what the child is: it is a file exactly when the file
/// route has the strictly higher precedence.
pub proof fn law_more_specific_route_decides<H>(
    m: RouterModel<H>,
    parent: Seq<Seq<char>>,
    name: Seq<char>,
    d: int,
    f: int,
)
    requires
        handlers::wins(static_shape::row_facts(m.dirs, true), parent.push(name), d),
        handlers::wins(
            static_shape::row_facts(m.files + m.handler_files, false),
            parent.push(name),
            f,
        ),
        !handlers::bound(static_shape::row_facts(m.treerefs, true), parent.push(name)),
        !handlers::bound(static_shape::object_facts(m.objects), parent.push(name)),
        no_leaf_takes(m, parent, name),
    ensures
        found_as(
            lookup::lookup_plan(m, parent, name),
            name,
            pattern::precedence(m.dirs[d].shapes).below(
                pattern::precedence((m.files + m.handler_files)[f].shapes),
            ),
        ),
{
    let child = parent.push(name);
    route_shape::lemma_winner(static_shape::row_facts(m.dirs, true), child, d);
    route_shape::lemma_winner(
        static_shape::row_facts(m.files + m.handler_files, false),
        child,
        f,
    );
    lemma_parent_leaf(m, parent, name);
}

/// One pattern pins a path down at every segment where the other does, and at
/// one more; neither has a rest capture.
pub open spec fn more_literal(shapes: Seq<Shape>, other: Seq<Shape>) -> bool {
    &&& shapes.len() == other.len()
    &&& forall|i: int| 0 <= i < shapes.len() ==> !((#[trigger] shapes[i]) is Rest)
    &&& forall|i: int| 0 <= i < other.len() ==> !((#[trigger] other[i]) is Rest)
    &&& forall|i: int|
        0 <= i < shapes.len() && (#[trigger] other[i]) is Literal ==> shapes[i] is Literal
    &&& exists|i: int|
        0 <= i < shapes.len() && (#[trigger] shapes[i]) is Literal && !(other[i] is Literal)
}

/// A file route with a literal name beats a dir route with a capture in its
/// place, and a dir route with a literal name beats a file route with a
/// capture in its place.
pub proof fn law_literal_beats_capture_in_lookup<H>(
    m: RouterModel<H>,
    parent: Seq<Seq<char>>,
    name: Seq<char>,
    d: int,
    f: int,
)
    requires
        handlers::wins(static_shape::row_facts(m.dirs, true), parent.push(name), d),
        handlers::wins(
            static_shape::row_facts(m.files + m.handler_files, false),
            parent.push(name),
            f,
        ),
        !handlers::bound(static_shape::row_facts(m.treerefs, true), parent.push(name)),
        !handlers::bound(static_shape::object_facts(m.objects), parent.push(name)),
        no_leaf_takes(m, parent, name),
    ensures
        more_literal((m.files + m.handler_files)[f].shapes, m.dirs[d].shapes) ==> found_as(
            lookup::lookup_plan(m, parent, name),
            name,
            true,
        ),
        more_literal(m.dirs[d].shapes, (m.files + m.handler_files)[f].shapes) ==> found_as(
            lookup::lookup_plan(m, parent, name),
            name,
            false,
        ),
{
    let dir = m.dirs[d].shapes;
    let file = (m.files + m.handler_files)[f].shapes;
    law_more_specific_route_decides(m, parent, name, d, f);
    if more_literal(file, dir) {
        law_more_literals_win(file, dir);
    }
    if more_literal(dir, file) {
        law_more_literals_win(dir, file);
        pattern_laws::law_precedence_order(
            pattern::precedence(dir),
            pattern::precedence(file),
            pattern::precedence(dir),
        );
    }
}

/// Of two patterns of one length without a rest capture, the one that is
/// literal wherever the other is, and at one more segment, has the higher
/// precedence.
pub proof fn law_more_literals_win(shapes: Seq<Shape>, other: Seq<Shape>)
    requires
        more_literal(shapes, other),
    ensures
        pattern::precedence(other).below(pattern::precedence(shapes)),
        !pattern::precedence(shapes).below(pattern::precedence(other)),
{
    let i = choose|i: int|
        0 <= i < shapes.len() && (#[trigger] shapes[i]) is Literal && !(other[i] is Literal);
    lemma_literals_counted(shapes, other, i);
    pattern_laws::law_precedence_order(
        pattern::precedence(other),
        pattern::precedence(shapes),
        pattern::precedence(other),
    );
}

proof fn lemma_literals_counted(shapes: Seq<Shape>, other: Seq<Shape>, i: int)
    requires
        shapes.len() == other.len(),
        forall|k: int|
            0 <= k < shapes.len() && (#[trigger] other[k]) is Literal ==> shapes[k] is Literal,
    ensures
        pattern::literals(other) <= pattern::literals(shapes),
        0 <= i < shapes.len() && shapes[i] is Literal && !(other[i] is Literal)
            ==> pattern::literals(other) < pattern::literals(shapes),
    decreases shapes.len(),
{
    if shapes.len() > 0 {
        let head = shapes.drop_last();
        let others = other.drop_last();
        assert forall|k: int| 0 <= k < head.len() && (#[trigger] others[k]) is Literal implies head[
            k
        ] is Literal by {
            assert(other[k] is Literal);
        }
        lemma_literals_counted(head, others, i);
        let last = shapes.len() - 1;
        assert(other[last] is Literal ==> shapes[last] is Literal);
        if 0 <= i < last {
            assert(head[i] == shapes[i] && others[i] == other[i]);
        }
    }
}

/// A pattern goes on below the path with a segment that is not literal.
pub open spec fn open_below(route: RouteFacts, parent: Seq<Seq<char>>) -> bool {
    &&& parent.len() < route.shapes.len()
    &&& forall|i: int|
        0 <= i < parent.len() ==> (#[trigger] route.shapes[i]).matches(parent[i])
    &&& !(route.shapes[parent.len() as int] is Literal)
}

/// A lookup that the route table answers brings the other static names along
/// and nothing else: each of them stands for what the route table has for it,
/// the answer is exhaustive exactly when no pattern goes on below the parent
/// with a capture, and no effects are staged.
pub open spec fn with_siblings<H>(
    m: RouterModel<H>,
    parent: Seq<Seq<char>>,
    name: Seq<char>,
    plan: LookupPlan<H>,
) -> bool {
    plan matches LookupPlan::Answered(
        LookupModel::Entry { siblings, exhaustive, effects, .. },
    ) && {
        &&& forall|other: Seq<char>| #[trigger]
            projection::entry_named(siblings, other) == if other == name {
                None
            } else {
                static_shape::static_entry(static_shape::all_routes(m), parent, other)
            }
        &&& exhaustive == forall|i: int|
            0 <= i < static_shape::all_routes(m).len() ==> !open_below(
                #[trigger] static_shape::all_routes(m)[i],
                parent,
            )
        &&& effects == browse::no_effects()
    }
}

proof fn lemma_siblings<H>(m: RouterModel<H>, parent: Seq<Seq<char>>, target: EntryModel)
    ensures
        with_siblings(
            m,
            parent,
            target.name,
            LookupPlan::<H>::Answered(route_shape::static_lookup(m, parent, target)),
        ),
{
    let entries = static_shape::static_entries(m, parent);
    let siblings = route_shape::others(entries, target.name);
    let routes = static_shape::all_routes(m);
    let keep = |e: EntryModel| e.name != target.name;
    broadcast use vstd::seq_lib::group_filter_ensures;

    assert forall|other: Seq<char>| #[trigger]
        projection::entry_named(siblings, other) == (if other == target.name {
            None
        } else {
            static_shape::static_entry(routes, parent, other)
        }) by {
        laws::law_static_entries_are_the_contributions(m, parent, other);
        projection::lemma_entry_named(siblings, other);
        projection::lemma_entry_named(entries, other);
        match projection::entry_named(siblings, other) {
            Some(e) => {
                let i = choose|i: int| 0 <= i < siblings.len() && #[trigger] siblings[i] == e;
                assert(keep(siblings[i]));
                assert(siblings.contains(e));
                entries.lemma_filter_contains_rev(keep, e);
                let k = choose|k: int| 0 <= k < entries.len() && entries[k] == e;
                projection::lemma_sorted_entry_named(entries, k);
            },
            None => {
                if other != target.name {
                    if let Some(e) = projection::entry_named(entries, other) {
                        let k = choose|k: int| 0 <= k < entries.len() && #[trigger] entries[k] == e;
                        assert(keep(entries[k]));
                        assert(siblings.contains(entries[k]));
                    }
                }
            },
        }
    }
    lemma_open_below(m, parent);
}

proof fn lemma_open_below<H>(m: RouterModel<H>, parent: Seq<Seq<char>>)
    ensures
        static_shape::capture_child(static_shape::all_routes(m), parent) == !(forall|i: int|
            0 <= i < static_shape::all_routes(m).len() ==> !open_below(
                #[trigger] static_shape::all_routes(m)[i],
                parent,
            )),
{
    let routes = static_shape::all_routes(m);
    assert forall|i: int| 0 <= i < routes.len() implies open_below(#[trigger] routes[i], parent)
        == pattern::dynamic_child(routes[i].shapes, parent) by {
        let shapes = routes[i].shapes;
        if parent.len() < shapes.len() {
            if pattern::matches_upto(shapes, parent, parent.len() as int) {
                assert forall|k: int| 0 <= k < parent.len() implies (#[trigger] shapes[k]).matches(
                    parent[k],
                ) by {}
            }
        }
    }
    if static_shape::capture_child(routes, parent) {
        let i = choose|i: int|
            0 <= i < routes.len() && pattern::dynamic_child((#[trigger] routes[i]).shapes, parent);
        assert(open_below(routes[i], parent));
    } else {
        assert forall|i: int| 0 <= i < routes.len() implies !open_below(
            #[trigger] routes[i],
            parent,
        ) by {}
    }
}

/// A dir route that binds a child answers the lookup without its handler,
/// where no treeref and no file route binds it: the child is a directory, and
/// its static siblings come along.
pub proof fn law_dir_route_is_found<H>(
    m: RouterModel<H>,
    parent: Seq<Seq<char>>,
    name: Seq<char>,
)
    requires
        handlers::bound(static_shape::row_facts(m.dirs, true), parent.push(name)),
        !handlers::bound(static_shape::row_facts(m.treerefs, true), parent.push(name)),
        !file_route_binds(m, parent.push(name)),
    ensures
        found_as(lookup::lookup_plan(m, parent, name), name, false),
        with_siblings(m, parent, name, lookup::lookup_plan(m, parent, name)),
{
    lemma_tables_bind(m.files, m.handler_files, false, parent.push(name));
    lemma_siblings(m, parent, browse::dir_entry(name));
}

/// An object at the child decides where no treeref binds it and no dir route
/// does, or only one that a file route outranks: a dir-shaped object is found
/// as a directory with its static siblings, a file-shaped one as a file.
pub proof fn law_object_is_found_by_its_shape<H>(
    m: RouterModel<H>,
    parent: Seq<Seq<char>>,
    name: Seq<char>,
    o: int,
    d: int,
    f: int,
)
    requires
        handlers::wins(static_shape::object_facts(m.objects), parent.push(name), o),
        !handlers::bound(static_shape::row_facts(m.treerefs, true), parent.push(name)),
        handlers::bound(static_shape::row_facts(m.dirs, true), parent.push(name)) ==> {
            &&& handlers::wins(static_shape::row_facts(m.dirs, true), parent.push(name), d)
            &&& handlers::wins(
                static_shape::row_facts(m.files + m.handler_files, false),
                parent.push(name),
                f,
            )
            &&& pattern::precedence(m.dirs[d].shapes).below(
                pattern::precedence((m.files + m.handler_files)[f].shapes),
            )
        },
    ensures
        found_as(lookup::lookup_plan(m, parent, name), name, m.objects[o].shape is File),
        m.objects[o].shape is Dir ==> with_siblings(
            m,
            parent,
            name,
            lookup::lookup_plan(m, parent, name),
        ),
{
    let child = parent.push(name);
    route_shape::lemma_winner(static_shape::object_facts(m.objects), child, o);
    if handlers::bound(static_shape::row_facts(m.dirs, true), child) {
        route_shape::lemma_winner(static_shape::row_facts(m.dirs, true), child, d);
        route_shape::lemma_winner(
            static_shape::row_facts(m.files + m.handler_files, false),
            child,
            f,
        );
    }
    lemma_siblings(m, parent, browse::dir_entry(name));
}

/// A file leaf of the object at the parent is found as a file, before any file
/// route of that name, where no treeref, no dir route and no object binds the
/// child.
pub proof fn law_leaf_is_found<H>(
    m: RouterModel<H>,
    parent: Seq<Seq<char>>,
    name: Seq<char>,
    o: int,
)
    requires
        handlers::wins(static_shape::object_facts(m.objects), parent, o),
        leaf_takes(m.objects[o], parent, name),
        !handlers::bound(static_shape::row_facts(m.treerefs, true), parent.push(name)),
        !handlers::bound(static_shape::row_facts(m.dirs, true), parent.push(name)),
        !handlers::bound(static_shape::object_facts(m.objects), parent.push(name)),
    ensures
        found_as(lookup::lookup_plan(m, parent, name), name, true),
        lookup::lookup_plan(m, parent, name) matches LookupPlan::Answered(
            LookupModel::Entry { siblings, exhaustive, effects, .. },
        ) && siblings.len() == 0 && exhaustive && effects == browse::no_effects(),
{
    lemma_parent_leaf(m, parent, name);
}

/// A file route that binds a child is found as a file with its static
/// siblings, where nothing that is asked before it takes the child.
pub proof fn law_file_route_is_found<H>(
    m: RouterModel<H>,
    parent: Seq<Seq<char>>,
    name: Seq<char>,
)
    requires
        file_route_binds(m, parent.push(name)),
        !handlers::bound(static_shape::row_facts(m.treerefs, true), parent.push(name)),
        !handlers::bound(static_shape::row_facts(m.dirs, true), parent.push(name)),
        !handlers::bound(static_shape::object_facts(m.objects), parent.push(name)),
        no_leaf_takes(m, parent, name),
    ensures
        found_as(lookup::lookup_plan(m, parent, name), name, true),
        with_siblings(m, parent, name, lookup::lookup_plan(m, parent, name)),
{
    lemma_tables_bind(m.files, m.handler_files, false, parent.push(name));
    lemma_parent_leaf(m, parent, name);
    lemma_siblings(m, parent, route_shape::listed_file(name));
}

/// Nothing takes the child by itself: no route and no object binds it, no leaf
/// of an object at the parent has the name, and the route table advertises no
/// directory of that name.
pub open spec fn unrouted<H>(
    m: RouterModel<H>,
    parent: Seq<Seq<char>>,
    name: Seq<char>,
) -> bool {
    &&& !handlers::bound(static_shape::row_facts(m.treerefs, true), parent.push(name))
    &&& !handlers::bound(static_shape::row_facts(m.dirs, true), parent.push(name))
    &&& !handlers::bound(static_shape::object_facts(m.objects), parent.push(name))
    &&& !file_route_binds(m, parent.push(name))
    &&& no_leaf_takes(m, parent, name)
    &&& static_shape::static_entry(static_shape::all_routes(m), parent, name) matches Some(entry)
        ==> entry.file is Some
}

/// A name that nothing takes by itself is resolved by the most specific
/// directory route that binds the parent, be it one of the router or a
/// handler directory of an object: its handler is asked for that name.
pub proof fn law_unrouted_name_asks_the_parent<H>(
    m: RouterModel<H>,
    parent: Seq<Seq<char>>,
    name: Seq<char>,
    d: int,
)
    requires
        unrouted(m, parent, name),
        handlers::wins(static_shape::row_facts(m.dirs + m.handler_dirs, true), parent, d),
    ensures
        lookup::lookup_plan(m, parent, name) == (LookupPlan::Enumerate {
            handler: (m.dirs + m.handler_dirs)[d].handler,
            captures: pattern::captures_of((m.dirs + m.handler_dirs)[d].shapes, parent),
            parent,
            child: name,
        }),
{
    let child = parent.push(name);
    lemma_tables_bind(m.files, m.handler_files, false, child);
    lemma_parent_leaf(m, parent, name);
    assert(child.drop_last() =~= parent);
    route_shape::lemma_winner(
        static_shape::row_facts(m.dirs + m.handler_dirs, true),
        parent,
        d,
    );
}

/// A name that nothing takes by itself, under a parent that no directory route
/// binds, is not found.
pub proof fn law_unknown_name_is_not_found<H>(
    m: RouterModel<H>,
    parent: Seq<Seq<char>>,
    name: Seq<char>,
)
    requires
        unrouted(m, parent, name),
        !directory_route_binds(m, parent),
    ensures
        lookup::lookup_plan(m, parent, name) == LookupPlan::<H>::Answered(
            LookupModel::NotFound(None),
        ),
{
    let child = parent.push(name);
    lemma_tables_bind(m.files, m.handler_files, false, child);
    lemma_tables_bind(m.dirs, m.handler_dirs, true, parent);
    lemma_parent_leaf(m, parent, name);
    assert(child.drop_last() =~= parent);
}

/// A directory that the route table advertises, and that no route and no
/// object binds, is found from the route table alone.
pub proof fn law_advertised_prefix_is_found<H>(
    m: RouterModel<H>,
    parent: Seq<Seq<char>>,
    name: Seq<char>,
)
    requires
        !handlers::bound(static_shape::row_facts(m.treerefs, true), parent.push(name)),
        !handlers::bound(static_shape::row_facts(m.dirs, true), parent.push(name)),
        !handlers::bound(static_shape::object_facts(m.objects), parent.push(name)),
        !file_route_binds(m, parent.push(name)),
        no_leaf_takes(m, parent, name),
        static_shape::static_entry(static_shape::all_routes(m), parent, name) matches Some(entry)
            && entry.file is None,
    ensures
        found_as(lookup::lookup_plan(m, parent, name), name, false),
        with_siblings(m, parent, name, lookup::lookup_plan(m, parent, name)),
{
    let child = parent.push(name);
    lemma_tables_bind(m.files, m.handler_files, false, child);
    lemma_parent_leaf(m, parent, name);
    assert(child.drop_last() =~= parent);
    lemma_siblings(m, parent, browse::dir_entry(name));
}

/// A route contributes a name under a parent exactly when its pattern has that
/// literal, a valid segment, right below segments that match the parent, and
/// its validator does not reject what the parent binds. The entry is a
/// directory unless the pattern ends there and the route is one of a file.
pub proof fn law_route_contributes_its_literal(
    route: RouteFacts,
    parent: Seq<Seq<char>>,
    name: Seq<char>,
)
    ensures
        laws::contributes(route, parent, name) == {
            &&& parent.len() < route.shapes.len()
            &&& forall|i: int|
                0 <= i < parent.len() ==> (#[trigger] route.shapes[i]).matches(parent[i])
            &&& route.shapes[parent.len() as int] == Shape::Literal(name)
            &&& path::valid_segment(name)
            &&& route.validator.present(pattern::captures_of(route.shapes, parent.push(name)))
        },
        laws::contributes(route, parent, name) ==> (static_shape::contributed(
            route,
            parent,
        )->0.file is Some) == (route.shapes.len() == parent.len() + 1 && !route.is_dir),
{
    let shapes = route.shapes;
    if parent.len() < shapes.len() {
        if pattern::matches_upto(shapes, parent, parent.len() as int) {
            assert forall|k: int| 0 <= k < parent.len() implies (#[trigger] shapes[k]).matches(
                parent[k],
            ) by {}
        }
    }
}

/// A name that some dir route or handler directory contributes is advertised
/// as a directory, whatever the other tables have for it.
pub proof fn law_directories_are_advertised_first<H>(
    m: RouterModel<H>,
    parent: Seq<Seq<char>>,
    name: Seq<char>,
    i: int,
)
    requires
        0 <= i < (m.dirs + m.handler_dirs).len(),
        laws::contributes(
            static_shape::row_facts(m.dirs + m.handler_dirs, true)[i],
            parent,
            name,
        ),
    ensures
        static_shape::static_entry(static_shape::all_routes(m), parent, name) == Some(
            browse::dir_entry(name),
        ),
{
    let routes = static_shape::all_routes(m);
    let dirs = static_shape::row_facts(m.dirs + m.handler_dirs, true);
    laws::law_first_contribution_wins(routes, parent, name);
    assert(dirs =~= static_shape::row_facts(m.dirs, true) + static_shape::row_facts(
        m.handler_dirs,
        true,
    ));
    assert forall|k: int| 0 <= k < dirs.len() implies #[trigger] routes[k] == dirs[k] by {}
    assert(routes[i] == dirs[i]);
    match static_shape::static_entry(routes, parent, name) {
        Some(entry) => {
            let j = choose|j: int|
                0 <= j < routes.len() && static_shape::contributed(#[trigger] routes[j], parent)
                    == Some(entry) && forall|k: int|
                    0 <= k < j ==> !laws::contributes(#[trigger] routes[k], parent, name);
            assert(j <= i);
            assert(routes[j] == dirs[j]);
        },
        None => {
            assert(!laws::contributes(routes[i], parent, name));
        },
    }
}

/// Where no treeref binds a path, every directory route that binds it can be
/// listed, whether it was registered on the router or as a handler directory
/// of a mounted object: the listing runs the handler of the most specific of
/// them, with the captures that its pattern takes from the path, and hands it
/// the cursor.
pub proof fn law_directory_routes_list<H>(
    m: RouterModel<H>,
    path: Seq<char>,
    segments: Seq<Seq<char>>,
    cursor: Option<Cursor>,
    d: int,
)
    requires
        path::path_of(path) == Some(segments),
        !handlers::bound(static_shape::row_facts(m.treerefs, true), segments),
        handlers::wins(
            static_shape::row_facts(m.dirs, true) + static_shape::row_facts(m.handler_dirs, true),
            segments,
            d,
        ),
    ensures
        list::list_plan(m, path, cursor) == Ok::<ListPlan<H>, Failure>(
            ListPlan::Enumerate {
                handler: if d < m.dirs.len() {
                    m.dirs[d].handler
                } else {
                    m.handler_dirs[d - m.dirs.len()].handler
                },
                captures: pattern::captures_of(
                    if d < m.dirs.len() {
                        m.dirs[d].shapes
                    } else {
                        m.handler_dirs[d - m.dirs.len()].shapes
                    },
                    segments,
                ),
                path: segments,
                cursor,
            },
        ),
{
    let rows = m.dirs + m.handler_dirs;
    assert(static_shape::row_facts(rows, true) =~= static_shape::row_facts(m.dirs, true)
        + static_shape::row_facts(m.handler_dirs, true));
    route_shape::lemma_winner(static_shape::row_facts(rows, true), segments, d);
}

/// A path that a directory route binds, and no treeref, is listed by a
/// handler: one whose route binds the path and is outranked by no other.
pub proof fn law_every_directory_route_can_be_listed<H>(
    m: RouterModel<H>,
    path: Seq<char>,
    segments: Seq<Seq<char>>,
    cursor: Option<Cursor>,
)
    requires
        path::path_of(path) == Some(segments),
        !handlers::bound(static_shape::row_facts(m.treerefs, true), segments),
        directory_route_binds(m, segments),
    ensures
        list::list_plan(m, path, cursor) matches Ok(ListPlan::Enumerate { .. }),
        exists|d: int| #[trigger]
            handlers::wins(
                static_shape::row_facts(m.dirs, true) + static_shape::row_facts(
                    m.handler_dirs,
                    true,
                ),
                segments,
                d,
            ),
{
    let facts = static_shape::row_facts(m.dirs, true) + static_shape::row_facts(
        m.handler_dirs,
        true,
    );
    lemma_tables_bind(m.dirs, m.handler_dirs, true, segments);
    assert(static_shape::row_facts(m.dirs + m.handler_dirs, true) =~= facts);
    handlers::law_fallthrough_finds_a_route(facts, segments);
    let d = choose|d: int| handlers::wins(facts, segments, d);
    law_directory_routes_list(m, path, segments, cursor, d);
}

/// The anchor of a dir-shaped object lists through the object where no treeref
/// and no directory route binds the path; that of a file-shaped one is
/// reported as not a directory.
pub proof fn law_object_anchor_lists_by_its_shape<H>(
    m: RouterModel<H>,
    path: Seq<char>,
    segments: Seq<Seq<char>>,
    cursor: Option<Cursor>,
    o: int,
)
    requires
        path::path_of(path) == Some(segments),
        !handlers::bound(static_shape::row_facts(m.treerefs, true), segments),
        !directory_route_binds(m, segments),
        handlers::wins(static_shape::object_facts(m.objects), segments, o),
    ensures
        m.objects[o].shape is Dir ==> list::list_plan(m, path, cursor) == Ok::<
            ListPlan<H>,
            Failure,
        >(
            ListPlan::Object {
                route: Chosen {
                    row: m.objects[o],
                    captures: pattern::captures_of(m.objects[o].shapes, segments),
                },
                path: segments,
            },
        ),
        m.objects[o].shape is File ==> (list::list_plan(m, path, cursor) matches Err(f) && f.kind
            == ProviderErrorKind::NotADirectory),
{
    lemma_tables_bind(m.dirs, m.handler_dirs, true, segments);
    route_shape::lemma_winner(static_shape::object_facts(m.objects), segments, o);
}

/// What a listing says of a path that no treeref, no directory route and no
/// object binds: a directory that the route table advertises lists the static
/// names below it, complete exactly when no pattern goes on below it with a
/// capture; a file is not a directory; and anything else is not found.
pub proof fn law_unbound_path_lists_from_the_table<H>(
    m: RouterModel<H>,
    path: Seq<char>,
    parent: Seq<Seq<char>>,
    name: Seq<char>,
    cursor: Option<Cursor>,
)
    requires
        path::path_of(path) == Some(parent.push(name)),
        !handlers::bound(static_shape::row_facts(m.treerefs, true), parent.push(name)),
        !directory_route_binds(m, parent.push(name)),
        !handlers::bound(static_shape::object_facts(m.objects), parent.push(name)),
    ensures
        ({
            let advertised = static_shape::static_entry(
                static_shape::all_routes(m),
                parent,
                name,
            ) matches Some(entry) && entry.file is None;
            let plan = list::list_plan(m, path, cursor);
            if handlers::bound(static_shape::row_facts(m.files, false), parent.push(name)) {
                plan matches Err(f) && f.kind == ProviderErrorKind::NotADirectory
            } else if advertised {
                plan matches Ok(ListPlan::Answered(ListModel::Entries(listing))) && {
                    &&& forall|other: Seq<char>| #[trigger]
                        projection::entry_named(listing.entries, other)
                            == static_shape::static_entry(
                            static_shape::all_routes(m),
                            parent.push(name),
                            other,
                        )
                    &&& listing.exhaustive == forall|i: int|
                        0 <= i < static_shape::all_routes(m).len() ==> !open_below(
                            #[trigger] static_shape::all_routes(m)[i],
                            parent.push(name),
                        )
                    &&& listing.effects == browse::no_effects()
                    &&& listing.validator is None
                    &&& listing.next_cursor is None
                }
            } else if handlers::bound(
                static_shape::row_facts(m.handler_files, false),
                parent.push(name),
            ) {
                plan matches Err(f) && f.kind == ProviderErrorKind::NotADirectory
            } else {
                plan matches Err(f) && f.kind == ProviderErrorKind::NotFound
            }
        }),
{
    let child = parent.push(name);
    lemma_tables_bind(m.dirs, m.handler_dirs, true, child);
    lemma_tables_bind(m.files, m.handler_files, false, child);
    lemma_open_below(m, child);
    assert(child.drop_last() =~= parent);
    assert forall|other: Seq<char>| #[trigger]
        projection::entry_named(static_shape::static_entries(m, child), other)
            == static_shape::static_entry(static_shape::all_routes(m), child, other) by {
        laws::law_static_entries_are_the_contributions(m, child, other);
    }
}

/// A path that is not absolute or holds a bad segment is rejected as invalid
/// input, whatever is asked of it, and so is a bad child name; nothing else is
/// rejected before the routes are asked.
pub proof fn law_malformed_paths_are_invalid_input<H>(
    m: RouterModel<H>,
    path: Seq<char>,
    name: Seq<char>,
    mime: Seq<char>,
    cursor: Option<Cursor>,
)
    ensures
        path::path_of(path) is None ==> {
            &&& list::list_plan(m, path, cursor) matches Err(f) && f.kind
                == ProviderErrorKind::InvalidInput
            &&& read::read_planned(m, path, mime) matches Err(f) && f.kind
                == ProviderErrorKind::InvalidInput
            &&& read::open_planned(m, path) matches Err(f) && f.kind
                == ProviderErrorKind::InvalidInput
        },
        match lookup::lookup_failure(path, name) {
            Some(f) => f.kind == ProviderErrorKind::InvalidInput && (path::path_of(path) is None
                || !path::valid_segment(name)),
            None => path::path_of(path) is Some && path::valid_segment(name),
        },
{
}

/// A file route that binds a path reads it and opens it, before any object:
/// the most specific one, with the captures that its pattern takes.
pub proof fn law_file_route_reads_first<H>(
    m: RouterModel<H>,
    path: Seq<char>,
    segments: Seq<Seq<char>>,
    mime: Seq<char>,
    f: int,
)
    requires
        path::path_of(path) == Some(segments),
        handlers::wins(
            static_shape::row_facts(m.files + m.handler_files, false),
            segments,
            f,
        ),
    ensures
        read::read_planned(m, path, mime) == Ok::<ReadPlan<H>, Failure>(
            ReadPlan::File(
                Chosen {
                    row: (m.files + m.handler_files)[f],
                    captures: pattern::captures_of(
                        (m.files + m.handler_files)[f].shapes,
                        segments,
                    ),
                },
            ),
        ),
        read::open_planned(m, path) matches Ok(chosen) && chosen.row == (m.files
            + m.handler_files)[f] && chosen.captures == pattern::captures_of(
            (m.files + m.handler_files)[f].shapes,
            segments,
        ),
{
    route_shape::lemma_winner(
        static_shape::row_facts(m.files + m.handler_files, false),
        segments,
        f,
    );
}

/// A path that no file route binds cannot be opened: nothing but a file route
/// reads in ranges.
pub proof fn law_only_file_routes_open<H>(
    m: RouterModel<H>,
    path: Seq<char>,
    segments: Seq<Seq<char>>,
)
    requires
        path::path_of(path) == Some(segments),
        !file_route_binds(m, segments),
    ensures
        read::open_planned(m, path) matches Err(f) && f.kind == ProviderErrorKind::NotFound,
{
    lemma_tables_bind(m.files, m.handler_files, false, segments);
}

/// The anchor of an object, where no file route binds the path, reads the
/// representation that the requested mime type names, and the plain bytes
/// where it names none.
pub proof fn law_anchor_reads_the_requested_representation<H>(
    m: RouterModel<H>,
    path: Seq<char>,
    segments: Seq<Seq<char>>,
    ct: ContentModel,
    o: int,
)
    requires
        path::path_of(path) == Some(segments),
        !file_route_binds(m, segments),
        handlers::wins(static_shape::object_facts(m.objects), segments, o),
    ensures
        read::read_planned(m, path, ct.mime()) matches Ok(ReadPlan::Object { route, target })
            && route.row == m.objects[o] && route.captures == pattern::captures_of(
            m.objects[o].shapes,
            segments,
        ) && match ct {
            ContentModel::Custom(mime) => content_type::mime_format(mime) is None ==> target
                == TargetModel::Representation(ContentModel::Octet),
            _ => target == TargetModel::Representation(ct),
        },
{
    lemma_tables_bind(m.files, m.handler_files, false, segments);
    route_shape::lemma_winner(static_shape::object_facts(m.objects), segments, o);
    if !(ct is Custom) {
        content_type::law_mime_round_trip(ct);
    }
}

/// A leaf name is that of a representation of the object: `stem.ext` of its
/// canonical source or of one of its renders.
pub open spec fn names_representation<H>(row: ObjectRow<H>, leaf: Seq<char>) -> bool {
    ||| leaf == row.stem + "."@ + row.ext
    ||| exists|r: int|
        0 <= r < row.renders.len() && leaf == row.stem + "."@ + (
        #[trigger] row.renders[r]).leaf_extension()
}

proof fn lemma_render_named<H>(row: ObjectRow<H>, leaf: Seq<char>, n: nat)
    requires
        n <= row.renders.len(),
    ensures
        match route_shape::render_named(row.stem, row.renders, leaf, n) {
            Some(ct) => exists|r: int|
                n <= r < row.renders.len() && #[trigger] row.renders[r] == ct && leaf == row.stem
                    + "."@ + ct.leaf_extension() && forall|k: int|
                    n <= k < r ==> leaf != row.stem + "."@ + (
                    #[trigger] row.renders[k]).leaf_extension(),
            None => forall|k: int|
                n <= k < row.renders.len() ==> leaf != row.stem + "."@ + (
                #[trigger] row.renders[k]).leaf_extension(),
        },
    decreases row.renders.len() - n,
{
    if n < row.renders.len() && leaf != route_shape::stem_leaf(
        row.stem,
        row.renders[n as int].leaf_extension(),
    ) {
        lemma_render_named(row, leaf, n + 1);
        if let Some(ct) = route_shape::render_named(row.stem, row.renders, leaf, n + 1) {
            let r = choose|r: int|
                n + 1 <= r < row.renders.len() && #[trigger] row.renders[r] == ct && leaf
                    == row.stem + "."@ + ct.leaf_extension() && forall|k: int|
                    n + 1 <= k < r ==> leaf != row.stem + "."@ + (
                    #[trigger] row.renders[k]).leaf_extension();
            assert(row.renders[r] == ct);
        }
    } else if n < row.renders.len() {
        assert(row.renders[n as int] == row.renders[n as int]);
    }
}

/// A leaf below the anchor of a dir-shaped object, where no file route and no
/// object binds its path, is read through that object. `stem.ext` of the
/// canonical source reads the source's type, `stem.ext` of a render reads that
/// render's type, a name that is neither reads the declared leaf of that name,
/// and any other name is not found.
pub proof fn law_leaf_reads_what_its_name_says<H>(
    m: RouterModel<H>,
    path: Seq<char>,
    anchor: Seq<Seq<char>>,
    leaf: Seq<char>,
    mime: Seq<char>,
    o: int,
)
    requires
        path::path_of(path) == Some(anchor.push(leaf)),
        !file_route_binds(m, anchor.push(leaf)),
        !handlers::bound(static_shape::object_facts(m.objects), anchor.push(leaf)),
        handlers::wins(static_shape::object_facts(m.objects), anchor, o),
        m.objects[o].shape is Dir,
    ensures
        ({
            let row = m.objects[o];
            let plan = read::read_planned(m, path, mime);
            &&& plan matches Ok(read) ==> (read matches ReadPlan::Object { route, .. } && route.row
                == row && route.captures == pattern::captures_of(row.shapes, anchor))
            &&& leaf == row.stem + "."@ + row.ext ==> (plan matches Ok(
                ReadPlan::Object { target, .. },
            ) && target == TargetModel::Representation(row.source))
            &&& leaf != row.stem + "."@ + row.ext ==> forall|r: int|
                0 <= r < row.renders.len() && leaf == row.stem + "."@ + (
                #[trigger] row.renders[r]).leaf_extension() && (forall|k: int|
                    0 <= k < r ==> leaf != row.stem + "."@ + (
                    #[trigger] row.renders[k]).leaf_extension()) ==> (plan matches Ok(
                    ReadPlan::Object { target, .. },
                ) && target == TargetModel::Representation(row.renders[r]))
            &&& !names_representation(row, leaf) && row.leaves.contains((leaf, false)) ==> (
            plan matches Ok(ReadPlan::Object { target, .. }) && target == TargetModel::Projected(
                leaf,
            ))
            &&& !names_representation(row, leaf) && !row.leaves.contains((leaf, false)) ==> (
            plan matches Err(f) && f.kind == ProviderErrorKind::NotFound)
            &&& plan matches Ok(ReadPlan::Object { target: TargetModel::Projected(field), .. })
                ==> field == leaf && row.leaves.contains((leaf, false)) && !names_representation(
                row,
                leaf,
            )
        }),
{
    let row = m.objects[o];
    let child = anchor.push(leaf);
    assert(child.drop_last() =~= anchor);
    lemma_tables_bind(m.files, m.handler_files, false, child);
    route_shape::lemma_winner(static_shape::object_facts(m.objects), anchor, o);
    lemma_render_named(row, leaf, 0);
    if row.leaves.contains((leaf, false)) {
        let i = choose|i: int| 0 <= i < row.leaves.len() && row.leaves[i] == (leaf, false);
        assert(row.leaves[i] == (leaf, false));
    }
    assert(route_shape::file_leaf(row.leaves, leaf) == row.leaves.contains((leaf, false)));
    if leaf != row.stem + "."@ + row.ext {
        assert forall|r: int|
            0 <= r < row.renders.len() && leaf == row.stem + "."@ + (
            #[trigger] row.renders[r]).leaf_extension() && (forall|k: int|
                0 <= k < r ==> leaf != row.stem + "."@ + (
                #[trigger] row.renders[k]).leaf_extension()) implies route_shape::render_named(
            row.stem,
            row.renders,
            leaf,
            0,
        ) == Some(row.renders[r]) by {
            let ct = route_shape::render_named(row.stem, row.renders, leaf, 0)->0;
            let first = choose|first: int|
                0 <= first < row.renders.len() && #[trigger] row.renders[first] == ct && leaf
                    == row.stem + "."@ + ct.leaf_extension() && forall|k: int|
                    0 <= k < first ==> leaf != row.stem + "."@ + (
                    #[trigger] row.renders[k]).leaf_extension();
            assert(first == r);
        }
    }
}

/// A path reads only through a file route that binds it, an object anchored at
/// it, or a dir-shaped object anchored right above it; any other path is not
/// found.
pub proof fn law_nothing_else_reads<H>(
    m: RouterModel<H>,
    path: Seq<char>,
    segments: Seq<Seq<char>>,
    mime: Seq<char>,
)
    requires
        path::path_of(path) == Some(segments),
        !file_route_binds(m, segments),
        !handlers::bound(static_shape::object_facts(m.objects), segments),
        segments.len() > 0 ==> forall|o: int| #[trigger]
            handlers::wins(static_shape::object_facts(m.objects), segments.drop_last(), o)
                ==> m.objects[o].shape is File,
    ensures
        read::read_planned(m, path, mime) matches Err(f) && f.kind == ProviderErrorKind::NotFound,
{
    lemma_tables_bind(m.files, m.handler_files, false, segments);
    if segments.len() > 0 {
        route_shape::law_dispatch_takes_the_winner(
            static_shape::object_facts(m.objects),
            segments.drop_last(),
        );
    }
}

/// The route that dispatch takes is the most specific one that binds the path:
/// it binds it itself, no other binding route pins more of the path down, it
/// has a rest capture only where every binding route has one, and of binding
/// routes with one pattern it is the one registered first.
pub proof fn law_most_specific_route_wins(
    routes: Seq<RouteFacts>,
    segments: Seq<Seq<char>>,
    i: int,
    j: int,
)
    requires
        handlers::wins(routes, segments, i),
        0 <= j < routes.len(),
        pattern::path_matches(routes[j].shapes, segments),
        routes[j].validator.full(pattern::captures_of(routes[j].shapes, segments)),
    ensures
        pattern::path_matches(routes[i].shapes, segments),
        routes[i].validator.full(pattern::captures_of(routes[i].shapes, segments)),
        !more_literal(routes[j].shapes, routes[i].shapes),
        pattern::has_rest(routes[i].shapes) ==> pattern::has_rest(routes[j].shapes),
        routes[i].shapes == routes[j].shapes ==> i <= j,
{
    let winner = routes[i].shapes;
    let other = routes[j].shapes;
    assert(routes[j].binds(segments));
    if more_literal(other, winner) {
        law_more_literals_win(other, winner);
    }
    if pattern::has_rest(winner) && !pattern::has_rest(other) {
        pattern_laws::law_rest_has_lowest_precedence(winner, other);
    }
    if winner == other && j < i {
        pattern_laws::law_precedence_order(
            pattern::precedence(winner),
            pattern::precedence(winner),
            pattern::precedence(winner),
        );
    }
}

/// A path that some route of a table binds is dispatched to one of them: a
/// route whose key rejects the captures does not hide the others.
pub proof fn law_binding_route_is_found(
    routes: Seq<RouteFacts>,
    segments: Seq<Seq<char>>,
    j: int,
)
    requires
        0 <= j < routes.len(),
        pattern::path_matches(routes[j].shapes, segments),
        routes[j].validator.full(pattern::captures_of(routes[j].shapes, segments)),
    ensures
        route_shape::winner(routes, segments) matches Some(i) && handlers::wins(
            routes,
            segments,
            i,
        ),
{
    assert(routes[j].binds(segments));
    route_shape::law_dispatch_takes_the_winner(routes, segments);
}

/// The root of a router lists as soon as anything is registered: where no
/// route and no object binds the root itself, it lists the static names at the
/// top, and a router without routes reports it as not found.
pub proof fn law_root_lists_the_top<H>(m: RouterModel<H>, cursor: Option<Cursor>)
    requires
        !handlers::bound(static_shape::row_facts(m.treerefs, true), Seq::empty()),
        !directory_route_binds(m, Seq::empty()),
        !handlers::bound(static_shape::object_facts(m.objects), Seq::empty()),
        !file_route_binds(m, Seq::empty()),
    ensures
        m.dirs.len() > 0 || m.files.len() > 0 || m.treerefs.len() > 0 || m.objects.len() > 0 ==> (
        list::list_plan(m, "/"@, cursor) matches Ok(
            ListPlan::Answered(ListModel::Entries(listing)),
        ) && forall|other: Seq<char>| #[trigger]
            projection::entry_named(listing.entries, other) == static_shape::static_entry(
                static_shape::all_routes(m),
                Seq::empty(),
                other,
            )),
        m.dirs.len() == 0 && m.files.len() == 0 && m.treerefs.len() == 0 && m.objects.len() == 0
            ==> (list::list_plan(m, "/"@, cursor) matches Err(f) && f.kind
            == ProviderErrorKind::NotFound),
{
    let root = Seq::<Seq<char>>::empty();
    lemma_tables_bind(m.dirs, m.handler_dirs, true, root);
    lemma_tables_bind(m.files, m.handler_files, false, root);
    assert forall|other: Seq<char>| #[trigger]
        projection::entry_named(static_shape::static_entries(m, root), other)
            == static_shape::static_entry(static_shape::all_routes(m), root, other) by {
        laws::law_static_entries_are_the_contributions(m, root, other);
    }
}

/// A route of any kind that was registered, on the router or with an object.
pub open spec fn registered<H>(m: RouterModel<H>, route: RouteFacts) -> bool {
    ||| static_shape::row_facts(m.dirs, true).contains(route)
    ||| static_shape::row_facts(m.handler_dirs, true).contains(route)
    ||| static_shape::row_facts(m.files, false).contains(route)
    ||| static_shape::row_facts(m.handler_files, false).contains(route)
    ||| static_shape::row_facts(m.treerefs, true).contains(route)
    ||| static_shape::object_facts(m.objects).contains(route)
}

proof fn lemma_registered<H>(m: RouterModel<H>, route: RouteFacts)
    ensures
        static_shape::all_routes(m).contains(route) == registered(m, route),
{
    let all = static_shape::all_routes(m);
    let a = static_shape::row_facts(m.dirs, true);
    let b = static_shape::row_facts(m.handler_dirs, true);
    let c = static_shape::row_facts(m.files, false);
    let d = static_shape::row_facts(m.handler_files, false);
    let e = static_shape::row_facts(m.treerefs, true);
    let f = static_shape::object_facts(m.objects);
    lemma_contains_either(a, b, route);
    lemma_contains_either(a + b, c, route);
    lemma_contains_either(a + b + c, d, route);
    lemma_contains_either(a + b + c + d, e, route);
    lemma_contains_either(a + b + c + d + e, f, route);
    assert(all == a + b + c + d + e + f);
}

proof fn lemma_contains_either(a: Seq<RouteFacts>, b: Seq<RouteFacts>, route: RouteFacts)
    ensures
        (a + b).contains(route) == (a.contains(route) || b.contains(route)),
{
    let both = a + b;
    if a.contains(route) {
        let i = choose|i: int| 0 <= i < a.len() && a[i] == route;
        assert(both[i] == route);
    }
    if b.contains(route) {
        let i = choose|i: int| 0 <= i < b.len() && b[i] == route;
        assert(both[a.len() + i] == route);
    }
    if both.contains(route) {
        let i = choose|i: int| 0 <= i < both.len() && both[i] == route;
        if i < a.len() {
            assert(a[i] == route);
        } else {
            assert(b[i - a.len()] == route);
        }
    }
}

/// Every registered route takes part in what the route table advertises: a
/// literal that it has below the parent is advertised, and a capture that it
/// has there makes every static answer at that depth incomplete.
pub proof fn law_every_route_is_advertised<H>(
    m: RouterModel<H>,
    route: RouteFacts,
    parent: Seq<Seq<char>>,
    name: Seq<char>,
)
    requires
        registered(m, route),
    ensures
        laws::contributes(route, parent, name) ==> static_shape::static_entry(
            static_shape::all_routes(m),
            parent,
            name,
        ) is Some,
        open_below(route, parent) ==> exists|i: int|
            0 <= i < static_shape::all_routes(m).len() && open_below(
                #[trigger] static_shape::all_routes(m)[i],
                parent,
            ),
{
    let routes = static_shape::all_routes(m);
    lemma_registered(m, route);
    let i = choose|i: int| 0 <= i < routes.len() && routes[i] == route;
    assert(routes[i] == route);
    laws::law_first_contribution_wins(routes, parent, name);
}

/// What the route table advertises comes from a registered route, and where a
/// static answer is incomplete a registered route goes on with a capture.
pub proof fn law_only_routes_are_advertised<H>(
    m: RouterModel<H>,
    parent: Seq<Seq<char>>,
    name: Seq<char>,
    i: int,
)
    ensures
        static_shape::static_entry(static_shape::all_routes(m), parent, name) matches Some(entry)
            ==> exists|route: RouteFacts| #[trigger]
            registered(m, route) && laws::contributes(route, parent, name)
                && static_shape::contributed(route, parent) == Some(entry),
        0 <= i < static_shape::all_routes(m).len() ==> registered(
            m,
            static_shape::all_routes(m)[i],
        ),
{
    let routes = static_shape::all_routes(m);
    laws::law_first_contribution_wins(routes, parent, name);
    if 0 <= i < routes.len() {
        assert(routes.contains(routes[i]));
        lemma_registered(m, routes[i]);
    }
    if let Some(entry) = static_shape::static_entry(routes, parent, name) {
        let k = choose|k: int|
            0 <= k < routes.len() && static_shape::contributed(#[trigger] routes[k], parent)
                == Some(entry) && forall|j: int|
                0 <= j < k ==> !laws::contributes(#[trigger] routes[j], parent, name);
        assert(routes.contains(routes[k]));
        lemma_registered(m, routes[k]);
        assert(laws::contributes(routes[k], parent, name));
    }
}

} // verus!
