//! What the route table promises about names: what is advertised, what
//! resolves, and what lists.

use vstd::prelude::*;

use crate::browse::{EntryModel, LookupModel};
use crate::file_attrs;
use crate::handler::Cursor;
use crate::path;
use crate::projection::ChildModel;
use crate::router::dispatch::list;
use crate::router::dispatch::list::ListPlan;
use crate::router::dispatch::lookup;
use crate::router::dispatch::lookup::LookupPlan;
use crate::router::dispatch::route_shape;
use crate::router::dispatch::static_shape;
use crate::router::handlers;
use crate::router::handlers::RouteFacts;
use crate::router::pattern;
use crate::router::pattern::Shape;
use crate::router::projection;
use crate::router::register::RouterModel;

verus! {

/// A name stands for the entry of the first route that contributes one of
/// that name, and a name that no route contributes stands for nothing.
pub proof fn law_first_contribution_wins(
    routes: Seq<RouteFacts>,
    parent: Seq<Seq<char>>,
    name: Seq<char>,
)
    ensures
        match static_shape::static_entry(routes, parent, name) {
            Some(entry) => entry.name == name && exists|i: int|
                0 <= i < routes.len() && static_shape::contributed(#[trigger] routes[i], parent)
                    == Some(entry) && forall|k: int|
                    0 <= k < i ==> !contributes(#[trigger] routes[k], parent, name),
            None => forall|k: int|
                0 <= k < routes.len() ==> !contributes(#[trigger] routes[k], parent, name),
        },
    decreases routes.len(),
{
    if routes.len() > 0 {
        let head = routes.drop_last();
        let last = routes.len() - 1;
        law_first_contribution_wins(head, parent, name);
        assert forall|k: int| 0 <= k < last implies #[trigger] routes[k] == head[k] by {}
        match static_shape::static_entry(head, parent, name) {
            Some(entry) => {
                let i = choose|i: int|
                    0 <= i < head.len() && static_shape::contributed(#[trigger] head[i], parent)
                        == Some(entry) && forall|k: int|
                        0 <= k < i ==> !contributes(#[trigger] head[k], parent, name);
                assert(routes[i] == head[i]);
                assert forall|k: int| 0 <= k < i implies !contributes(
                    #[trigger] routes[k],
                    parent,
                    name,
                ) by {
                    assert(!contributes(head[k], parent, name));
                }
            },
            None => {
                assert forall|k: int| 0 <= k < last implies !contributes(
                    #[trigger] routes[k],
                    parent,
                    name,
                ) by {
                    assert(!contributes(head[k], parent, name));
                }
                if contributes(routes[last], parent, name) {
                    assert(static_shape::contributed(routes[last], parent)
                        == static_shape::static_entry(routes, parent, name));
                }
            },
        }
    }
}

/// A route contributes an entry of that name under the parent.
pub open spec fn contributes(route: RouteFacts, parent: Seq<Seq<char>>, name: Seq<char>) -> bool {
    static_shape::contributed(route, parent) matches Some(entry) && entry.name == name
}

/// The static entries are name-ordered, each name once, and hold every name
/// that a route contributes and no other.
pub proof fn law_static_entries_are_the_contributions<H>(
    m: RouterModel<H>,
    parent: Seq<Seq<char>>,
    name: Seq<char>,
)
    ensures
        projection::sorted(static_shape::static_entries(m, parent)),
        projection::entry_named(static_shape::static_entries(m, parent), name)
            == static_shape::static_entry(static_shape::all_routes(m), parent, name),
{
    let routes = static_shape::all_routes(m);
    let names = static_shape::static_names(routes, parent);
    lemma_static_list(routes, parent);
    let entries = choose|entries: Seq<EntryModel>| projection::lists(entries, names);
    projection::lemma_listing_by(entries, names);
    assert(projection::entry_named(entries, name) == names(name));
}

/// There is a name-ordered list of the static entries.
proof fn lemma_static_list(routes: Seq<RouteFacts>, parent: Seq<Seq<char>>)
    ensures
        exists|entries: Seq<EntryModel>|
            #[trigger] projection::lists(entries, static_shape::static_names(routes, parent)),
    decreases routes.len(),
{
    let names = static_shape::static_names(routes, parent);
    if routes.len() == 0 {
        let none = Seq::<EntryModel>::empty();
        assert(projection::lists(none, names));
    } else {
        let head = routes.drop_last();
        let known = static_shape::static_names(head, parent);
        lemma_static_list(head, parent);
        let entries = choose|entries: Seq<EntryModel>| projection::lists(entries, known);
        match static_shape::contributed(routes.last(), parent) {
            Some(entry) => {
                if known(entry.name) is None {
                    assert(projection::entry_named(entries, entry.name) == known(entry.name));
                    projection::lemma_extend(entries, entry);
                    let more = choose|more: Seq<EntryModel>|
                        projection::sorted(more) && projection::with_entry(entries, more, entry);
                    assert forall|name: Seq<char>| #[trigger]
                        projection::entry_named(more, name) == names(name) by {
                        assert(projection::entry_named(entries, name) == known(name));
                    }
                    assert(projection::lists(more, names));
                } else {
                    assert forall|name: Seq<char>| #[trigger]
                        projection::entry_named(entries, name) == names(name) by {
                        assert(projection::entry_named(entries, name) == known(name));
                    }
                    assert(projection::lists(entries, names));
                }
            },
            None => {
                assert forall|name: Seq<char>| #[trigger]
                    projection::entry_named(entries, name) == names(name) by {
                    assert(projection::entry_named(entries, name) == known(name));
                }
                assert(projection::lists(entries, names));
            },
        }
    }
}

/// Every directory that the route table advertises resolves: a lookup of its
/// name finds an entry of that name or hands a subtree over.
pub proof fn law_advertised_directory_resolves<H>(
    m: RouterModel<H>,
    parent: Seq<Seq<char>>,
    name: Seq<char>,
)
    requires
        static_shape::static_entry(static_shape::all_routes(m), parent, name) matches Some(entry)
            && entry.file is None,
    ensures
        match lookup::lookup_plan(m, parent, name) {
            LookupPlan::TreeRef { .. } => true,
            LookupPlan::Answered(LookupModel::Entry { target, .. }) => target.name == name,
            _ => false,
        },
{
    let child = parent.push(name);
    assert(child.drop_last() =~= parent);
    assert(child.last() == name);
    let files = static_shape::row_facts(m.files, false);
    let more = static_shape::row_facts(m.files + m.handler_files, false);
    if handlers::bound(files, child) {
        let i = choose|i: int| 0 <= i < files.len() && (#[trigger] files[i]).binds(child);
        assert(more[i] == files[i]);
    }
}

/// A mounted object presents at its anchor: unless a treeref or a dir route
/// takes the path, a lookup finds a directory for a dir-shaped object and a
/// file for a file-shaped one.
pub proof fn law_object_presents_at_its_anchor<H>(
    m: RouterModel<H>,
    parent: Seq<Seq<char>>,
    name: Seq<char>,
)
    requires
        route_shape::chosen_object(m.objects, parent.push(name)) is Some,
        route_shape::chosen_row(m.treerefs, true, parent.push(name)) is None,
        route_shape::chosen_row(m.dirs, true, parent.push(name)) is None,
    ensures
        lookup::lookup_plan(m, parent, name) matches LookupPlan::Answered(
            LookupModel::Entry { target, .. },
        ) && target.name == name && (target.file is None <==> route_shape::chosen_object(
            m.objects,
            parent.push(name),
        )->0.row.shape is Dir),
{
}

/// A literal segment on the way to a route is navigable without a handler: a
/// route that goes on below the segment advertises it, and unless the name is
/// taken for a file or a route binds the path itself, the path is an
/// auto-navigable directory.
pub proof fn law_literal_prefix_is_navigable<H>(
    m: RouterModel<H>,
    i: int,
    parent: Seq<Seq<char>>,
    name: Seq<char>,
)
    requires
        0 <= i < static_shape::all_routes(m).len(),
        pattern::literal_child(static_shape::all_routes(m)[i].shapes, parent) == Some(
            (name, true),
        ),
        path::valid_segment(name),
        static_shape::all_routes(m)[i].validator.present(
            pattern::captures_of(static_shape::all_routes(m)[i].shapes, parent.push(name)),
        ),
        static_shape::static_entry(static_shape::all_routes(m), parent, name) matches Some(entry)
            ==> entry.file is None,
        !handlers::bound(static_shape::row_facts(m.dirs, true), parent.push(name)),
        !handlers::bound(static_shape::row_facts(m.files, false), parent.push(name)),
        !handlers::bound(static_shape::row_facts(m.treerefs, true), parent.push(name)),
        !handlers::bound(static_shape::object_facts(m.objects), parent.push(name)),
    ensures
        static_shape::implicit_dir(m, parent.push(name)),
        projection::entry_named(static_shape::static_entries(m, parent), name) is Some,
{
    let routes = static_shape::all_routes(m);
    let child = parent.push(name);
    assert(child.drop_last() =~= parent);
    law_first_contribution_wins(routes, parent, name);
    assert(contributes(routes[i], parent, name));
    law_static_entries_are_the_contributions(m, parent, name);
}

/// A literal segment on the way to a route resolves without a handler, unless
/// the name is taken for a file: a lookup finds an entry of that name or
/// hands a subtree over.
pub proof fn law_literal_prefix_resolves<H>(
    m: RouterModel<H>,
    i: int,
    parent: Seq<Seq<char>>,
    name: Seq<char>,
)
    requires
        0 <= i < static_shape::all_routes(m).len(),
        pattern::literal_child(static_shape::all_routes(m)[i].shapes, parent) == Some(
            (name, true),
        ),
        path::valid_segment(name),
        static_shape::all_routes(m)[i].validator.present(
            pattern::captures_of(static_shape::all_routes(m)[i].shapes, parent.push(name)),
        ),
        static_shape::static_entry(static_shape::all_routes(m), parent, name) matches Some(entry)
            ==> entry.file is None,
    ensures
        match lookup::lookup_plan(m, parent, name) {
            LookupPlan::TreeRef { .. } => true,
            LookupPlan::Answered(LookupModel::Entry { target, .. }) => target.name == name,
            _ => false,
        },
{
    let routes = static_shape::all_routes(m);
    law_first_contribution_wins(routes, parent, name);
    assert(contributes(routes[i], parent, name));
    law_advertised_directory_resolves(m, parent, name);
}

/// A directory's listing is name-ordered, each name once: a name stands for
/// what the handler enumerated, else for the static entry at that depth.
pub proof fn law_listing_merges_static_siblings<H>(
    m: RouterModel<H>,
    parent: Seq<Seq<char>>,
    children: Seq<ChildModel>,
    name: Seq<char>,
)
    ensures
        projection::sorted(route_shape::merged(m, parent, children)),
        projection::entry_named(route_shape::merged(m, parent, children), name) == (
        match projection::child_named(children, name) {
            Some(child) => Some(projection::routed_child(child)),
            None => projection::entry_named(static_shape::static_entries(m, parent), name),
        }),
{
    let statics = static_shape::static_entries(m, parent);
    let names = projection::merged_names(children, statics);
    law_static_entries_are_the_contributions(m, parent, name);
    projection::lemma_sorted_is_distinct(statics);
    projection::lemma_distinct_entry_named(statics, name);
    projection::lemma_merged_list(children, statics, 0);
    assert(children.skip(0) =~= children);
    let entries = choose|entries: Seq<EntryModel>| projection::lists(entries, names);
    projection::lemma_listing_by(entries, names);
    assert(projection::entry_named(entries, name) == names(name));
}

/// The content type that a handler declares for a file is the one its entry
/// has, whichever static entry the route table has for the name.
pub proof fn law_declared_content_type_survives<H>(
    m: RouterModel<H>,
    parent: Seq<Seq<char>>,
    children: Seq<ChildModel>,
    name: Seq<char>,
)
    requires
        projection::child_named(children, name) matches Some(child) && child.kind is File,
    ensures
        projection::entry_named(route_shape::merged(m, parent, children), name) matches Some(entry)
            && entry.file matches Some(file) && file.content_type == projection::child_named(
            children,
            name,
        )->0.content_type,
{
    law_listing_merges_static_siblings(m, parent, children, name);
}

/// Every file in a directory's listing is one that the host accepts.
pub proof fn law_listed_files_are_legal<H>(
    m: RouterModel<H>,
    parent: Seq<Seq<char>>,
    children: Seq<ChildModel>,
    name: Seq<char>,
)
    ensures
        projection::entry_named(route_shape::merged(m, parent, children), name) matches Some(entry)
            ==> (entry.file matches Some(file) ==> file_attrs::file_failure(file) is None),
{
    law_listing_merges_static_siblings(m, parent, children, name);
    law_static_entries_are_the_contributions(m, parent, name);
    law_first_contribution_wins(static_shape::all_routes(m), parent, name);
}

/// Every file leaf that a dir-shaped object declares is listed at the anchor,
/// can be looked up under it, and can be read through the object.
pub proof fn law_declared_leaf_resolves<H>(
    m: RouterModel<H>,
    anchor: Seq<Seq<char>>,
    name: Seq<char>,
)
    requires
        route_shape::chosen_object(m.objects, anchor) matches Some(route) && {
            &&& route.row.shape is Dir
            &&& route_shape::file_leaf(route.row.leaves, name)
        },
    ensures
        projection::entry_named(
            route_shape::anchor_listing(
                m,
                route_shape::chosen_object(m.objects, anchor)->0.row,
                anchor,
            ).entries,
            name,
        ) is Some,
        lookup::parent_leaf(m, anchor, name) == crate::browse::found(
            route_shape::listed_file(name),
        ),
        route_shape::leaf_plan(
            route_shape::chosen_object(m.objects, anchor)->0,
            name,
        ) is Some,
{
    let leaves = route_shape::chosen_object(m.objects, anchor)->0.row.leaves;
    let statics = static_shape::static_entries(m, anchor);
    let names = route_shape::anchor_names(leaves, leaves.len(), statics);
    law_static_entries_are_the_contributions(m, anchor, name);
    route_shape::lemma_anchor_list(leaves, leaves.len(), statics);
    let entries = choose|entries: Seq<EntryModel>| projection::lists(entries, names);
    projection::lemma_listing_by(entries, names);
    assert(projection::entry_named(entries, name) == names(name));
    let i = choose|i: int| 0 <= i < leaves.len() && #[trigger] leaves[i] == (name, false);
    lemma_declared_leaf_is_listed(leaves, i, statics, name, leaves.len());
}

proof fn lemma_declared_leaf_is_listed(
    leaves: Seq<(Seq<char>, bool)>,
    i: int,
    statics: Seq<EntryModel>,
    name: Seq<char>,
    n: nat,
)
    requires
        0 <= i < n <= leaves.len(),
        leaves[i].0 == name,
    ensures
        route_shape::anchor_entry(leaves, n, statics, name) is Some,
    decreases n,
{
    if i < n - 1 {
        lemma_declared_leaf_is_listed(leaves, i, statics, name, (n - 1) as nat);
    }
}

/// An auto-navigable directory lists: through a handler where one is
/// registered for the path, else from the route table, and then its listing
/// is complete exactly when no capture sibling can bind further names.
pub proof fn law_navigable_prefix_lists<H>(
    m: RouterModel<H>,
    segments: Seq<Seq<char>>,
    cursor: Option<Cursor>,
)
    requires
        path::valid_segments(segments),
        static_shape::implicit_dir(m, segments),
    ensures
        match list::list_plan(m, path::path_text(segments), cursor) {
            Ok(ListPlan::Enumerate { .. }) => true,
            Ok(ListPlan::Answered(listed)) => listed == crate::browse::ListModel::Entries(
                list::implicit_listing(m, segments),
            ),
            _ => false,
        },
{
    path::law_path_round_trip(segments);
}

/// A literal prefix in front of a pattern binds nothing: the captures of a
/// path are those of the part below the prefix.
pub proof fn law_literal_prefix_binds_nothing(
    prefix: Seq<Shape>,
    below: Seq<Seq<char>>,
    shapes: Seq<Shape>,
    segments: Seq<Seq<char>>,
)
    requires
        prefix.len() == below.len(),
        forall|i: int| 0 <= i < prefix.len() ==> (#[trigger] prefix[i]) is Literal,
    ensures
        pattern::captures_of(prefix + shapes, below + segments) == pattern::captures_of(
            shapes,
            segments,
        ),
{
    lemma_literals_bind_nothing(prefix + shapes, below + segments, prefix.len());
    lemma_captures_shifted(prefix, below, shapes, segments, shapes.len());
}

proof fn lemma_literals_bind_nothing(shapes: Seq<Shape>, segments: Seq<Seq<char>>, n: nat)
    requires
        n <= shapes.len(),
        forall|i: int| 0 <= i < n ==> (#[trigger] shapes[i]) is Literal,
    ensures
        pattern::captures_upto(shapes, segments, n) == Seq::<(Seq<char>, Seq<char>)>::empty(),
    decreases n,
{
    if n > 0 {
        assert(shapes[n - 1] is Literal);
        lemma_literals_bind_nothing(shapes, segments, (n - 1) as nat);
    }
}

proof fn lemma_captures_shifted(
    prefix: Seq<Shape>,
    below: Seq<Seq<char>>,
    shapes: Seq<Shape>,
    segments: Seq<Seq<char>>,
    n: nat,
)
    requires
        prefix.len() == below.len(),
        n <= shapes.len(),
        pattern::captures_upto(prefix + shapes, below + segments, prefix.len()) == Seq::<
            (Seq<char>, Seq<char>),
        >::empty(),
    ensures
        pattern::captures_upto(prefix + shapes, below + segments, prefix.len() + n)
            == pattern::captures_upto(shapes, segments, n),
    decreases n,
{
    if n > 0 {
        lemma_captures_shifted(prefix, below, shapes, segments, (n - 1) as nat);
        let i = n - 1;
        assert((prefix + shapes)[prefix.len() + i] == shapes[i]);
        if i <= segments.len() {
            assert((below + segments).skip(prefix.len() + i) =~= segments.skip(i));
        }
        if i < segments.len() {
            assert((below + segments)[prefix.len() + i] == segments[i]);
        }
    }
}

} // verus!
