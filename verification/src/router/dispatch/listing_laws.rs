//! What a listing or a lookup makes of a handler's enumeration and of an
//! object's leaves.

use vstd::prelude::*;

use crate::browse::{EffectsModel, EntryModel, ListModel, LookupModel};
use crate::error::Failure;
use crate::file_attrs;
use crate::projection::{ChildModel, DirModel, DirOutcomeModel, EntryKind};
use crate::router::dispatch::laws;
use crate::router::dispatch::list;
use crate::router::dispatch::route_shape;
use crate::router::dispatch::static_shape;
use crate::router::projection;
use crate::router::register::{ObjectRow, RouterModel};

verus! {

/// The first child of that name.
pub open spec fn child_at(children: Seq<ChildModel>, name: Seq<char>, i: int) -> bool {
    &&& 0 <= i < children.len()
    &&& children[i].name == name
    &&& forall|k: int| 0 <= k < i ==> (#[trigger] children[k]).name != name
}

/// No child has that name.
pub open spec fn no_child(children: Seq<ChildModel>, name: Seq<char>) -> bool {
    forall|k: int| 0 <= k < children.len() ==> (#[trigger] children[k]).name != name
}

proof fn lemma_child_named(children: Seq<ChildModel>, name: Seq<char>)
    ensures
        match projection::child_named(children, name) {
            Some(child) => exists|i: int|
                #[trigger] child_at(children, name, i) && children[i] == child,
            None => no_child(children, name),
        },
    decreases children.len(),
{
    if children.len() > 0 {
        if children[0].name == name {
            assert(child_at(children, name, 0));
        } else {
            let rest = children.drop_first();
            lemma_child_named(rest, name);
            match projection::child_named(rest, name) {
                Some(child) => {
                    let i = choose|i: int|
                        #[trigger] child_at(rest, name, i) && rest[i] == child;
                    assert forall|k: int| 0 <= k < i + 1 implies (#[trigger] children[k]).name
                        != name by {
                        if k > 0 {
                            assert(rest[k - 1] == children[k]);
                        }
                    }
                    assert(child_at(children, name, i + 1));
                },
                None => {
                    assert forall|k: int| 0 <= k < children.len() implies (
                    #[trigger] children[k]).name != name by {
                        if k > 0 {
                            assert(rest[k - 1] == children[k]);
                        }
                    }
                },
            }
        }
    }
}

/// An entry presents a child as the handler enumerated it: a directory as a
/// directory, a file as one that is read later, with the content type that
/// the handler declared.
pub open spec fn presents(entry: EntryModel, child: ChildModel) -> bool {
    &&& entry.name == child.name
    &&& entry.id is None
    &&& match child.kind {
        EntryKind::Dir => entry.file is None,
        EntryKind::File => entry.file matches Some(file) && file.content_type == child.content_type
            && file.attrs == file_attrs::listing_file().attrs && file.bytes
            == file_attrs::listing_file().bytes,
    }
}

/// What a name stands for where a handler enumerated children: the first child
/// of that name, else what the route table has for it.
pub open spec fn stands_for<H>(
    m: RouterModel<H>,
    parent: Seq<Seq<char>>,
    children: Seq<ChildModel>,
    name: Seq<char>,
    entry: Option<EntryModel>,
) -> bool {
    if no_child(children, name) {
        entry == static_shape::static_entry(static_shape::all_routes(m), parent, name)
    } else {
        forall|i: int| #[trigger]
            child_at(children, name, i) ==> (entry matches Some(e) && presents(e, children[i]))
    }
}

proof fn lemma_merged<H>(
    m: RouterModel<H>,
    parent: Seq<Seq<char>>,
    children: Seq<ChildModel>,
    name: Seq<char>,
)
    ensures
        stands_for(
            m,
            parent,
            children,
            name,
            projection::entry_named(route_shape::merged(m, parent, children), name),
        ),
        projection::merged_entry(children, static_shape::static_entries(m, parent), name)
            == projection::entry_named(route_shape::merged(m, parent, children), name),
        projection::sorted(route_shape::merged(m, parent, children)),
{
    let statics = static_shape::static_entries(m, parent);
    laws::law_listing_merges_static_siblings(m, parent, children, name);
    laws::law_static_entries_are_the_contributions(m, parent, name);
    projection::lemma_sorted_is_distinct(statics);
    projection::lemma_distinct_entry_named(statics, name);
    lemma_child_named(children, name);
    if let Some(child) = projection::child_named(children, name) {
        let i = choose|i: int| #[trigger] child_at(children, name, i) && children[i] == child;
        assert(children[i].name == name);
        assert forall|k: int| #[trigger] child_at(children, name, k) implies k == i by {
            if k < i {
                assert(children[k].name != name);
            } else if i < k {
                assert(children[i].name != name);
            }
        }
    }
}

/// The listing of a directory that its handler enumerated: name-ordered, each
/// name once and standing for the handler's child before the static entry of
/// the route table; with the handler's own claim of completeness, its
/// validator and its cursor, and with the effects that it staged. It fails
/// only as those effects do.
pub proof fn law_handler_listing_is_the_enumeration<H, R>(
    m: RouterModel<H>,
    parent: Seq<Seq<char>>,
    p: DirModel<R>,
)
    ensures
        p.outcome is Unchanged ==> route_shape::projected_list(m, parent, p) == Ok::<
            ListModel,
            Failure,
        >(ListModel::Unchanged),
        p.outcome matches DirOutcomeModel::Entries { entries, exhaustive, cursor } ==> match (
            crate::projection::effects_of(p)
        ) {
            Err(f) => route_shape::projected_list(m, parent, p) == Err::<ListModel, Failure>(f),
            Ok(effects) => route_shape::projected_list(m, parent, p) matches Ok(
                ListModel::Entries(listing),
            ) && {
                &&& projection::sorted(listing.entries)
                &&& forall|name: Seq<char>|
                    stands_for(
                        m,
                        parent,
                        entries,
                        name,
                        #[trigger] projection::entry_named(listing.entries, name),
                    )
                &&& listing.exhaustive == exhaustive
                &&& listing.next_cursor == cursor
                &&& match p.validator {
                    Some(token) => listing.validator == Some(token.0@),
                    None => listing.validator is None,
                }
                &&& listing.effects == effects
            },
        },
{
    if let DirOutcomeModel::Entries { entries, .. } = p.outcome {
        lemma_merged(m, parent, entries, Seq::empty());
        assert forall|name: Seq<char>|
            stands_for(
                m,
                parent,
                entries,
                name,
                #[trigger] projection::entry_named(
                    route_shape::merged(m, parent, entries),
                    name,
                ),
            ) by {
            lemma_merged(m, parent, entries, name);
        }
    }
}

/// A name looked up through the handler's enumeration is found exactly when
/// the handler enumerated it or the route table has it. The entry is the one
/// that the listing shows, its siblings are all the other names that the
/// listing shows, and the answer is as complete as the handler claims.
pub proof fn law_handler_lookup_agrees_with_its_listing<H, R>(
    m: RouterModel<H>,
    parent: Seq<Seq<char>>,
    name: Seq<char>,
    p: DirModel<R>,
)
    ensures
        match (
            route_shape::projected_list(m, parent, p),
            route_shape::enumerated_lookup(m, parent, name, p),
        ) {
            (Err(f), r) => r == Err::<LookupModel, Failure>(f),
            (Ok(ListModel::Unchanged), r) => r == Ok::<LookupModel, Failure>(
                LookupModel::NotFound(None),
            ),
            (Ok(ListModel::Entries(listing)), Ok(LookupModel::NotFound(id))) => id is None
                && projection::entry_named(listing.entries, name) is None,
            (
                Ok(ListModel::Entries(listing)),
                Ok(LookupModel::Entry { target, siblings, exhaustive, effects }),
            ) => {
                &&& projection::entry_named(listing.entries, name) == Some(target)
                &&& target.name == name
                &&& forall|other: Seq<char>| #[trigger]
                    projection::entry_named(siblings, other) == if other == name {
                        None
                    } else {
                        projection::entry_named(listing.entries, other)
                    }
                &&& exhaustive == listing.exhaustive
                &&& effects == listing.effects
            },
            _ => false,
        },
{
    if let DirOutcomeModel::Entries { entries, .. } = p.outcome {
        let all = route_shape::merged(m, parent, entries);
        let siblings = route_shape::others(all, name);
        lemma_merged(m, parent, entries, name);
        projection::lemma_entry_named(all, name);
        assert forall|other: Seq<char>| #[trigger]
            projection::entry_named(siblings, other) == (if other == name {
                None
            } else {
                projection::entry_named(all, other)
            }) by {
            lemma_others(all, name, other);
        }
    }
}

proof fn lemma_others(entries: Seq<EntryModel>, name: Seq<char>, other: Seq<char>)
    requires
        projection::sorted(entries),
    ensures
        projection::entry_named(route_shape::others(entries, name), other) == (if other == name {
            None
        } else {
            projection::entry_named(entries, other)
        }),
{
    broadcast use vstd::seq_lib::group_filter_ensures;

    let rest = route_shape::others(entries, name);
    let keep = |e: EntryModel| e.name != name;
    projection::lemma_entry_named(rest, other);
    projection::lemma_entry_named(entries, other);
    match projection::entry_named(rest, other) {
        Some(e) => {
            let i = choose|i: int| 0 <= i < rest.len() && #[trigger] rest[i] == e;
            assert(keep(rest[i]));
            assert(rest.contains(e));
            entries.lemma_filter_contains_rev(keep, e);
            let k = choose|k: int| 0 <= k < entries.len() && entries[k] == e;
            projection::lemma_sorted_entry_named(entries, k);
        },
        None => {
            if other != name {
                if let Some(e) = projection::entry_named(entries, other) {
                    let k = choose|k: int| 0 <= k < entries.len() && #[trigger] entries[k] == e;
                    assert(keep(entries[k]));
                    assert(rest.contains(entries[k]));
                }
            }
        },
    }
}

/// The last leaf of that name.
pub open spec fn leaf_at(leaves: Seq<(Seq<char>, bool)>, name: Seq<char>, i: int) -> bool {
    &&& 0 <= i < leaves.len()
    &&& leaves[i].0 == name
    &&& forall|k: int| i < k < leaves.len() ==> (#[trigger] leaves[k]).0 != name
}

/// The listing of an object's anchor is complete, name-ordered and each name
/// once. A declared leaf stands as the directory or the file that it was
/// declared as, every other name as what the route table has for it, and the
/// effects are those of the load.
pub proof fn law_anchor_listing_shows_the_leaves<H>(
    m: RouterModel<H>,
    row: ObjectRow<H>,
    segments: Seq<Seq<char>>,
    effects: EffectsModel,
    name: Seq<char>,
    i: int,
)
    ensures
        ({
            let listing = list::object_listing(m, row, segments, effects);
            &&& listing.exhaustive
            &&& listing.effects == effects
            &&& listing.validator is None
            &&& listing.next_cursor is None
            &&& projection::sorted(listing.entries)
            &&& leaf_at(row.leaves, name, i) ==> (projection::entry_named(listing.entries, name)
                matches Some(entry) && entry.name == name && (entry.file is None)
                == row.leaves[i].1)
            &&& (forall|k: int| 0 <= k < row.leaves.len() ==> (#[trigger] row.leaves[k]).0 != name)
                ==> projection::entry_named(listing.entries, name) == static_shape::static_entry(
                static_shape::all_routes(m),
                segments,
                name,
            )
        }),
{
    let leaves = row.leaves;
    let statics = static_shape::static_entries(m, segments);
    let names = route_shape::anchor_names(leaves, leaves.len(), statics);
    laws::law_static_entries_are_the_contributions(m, segments, name);
    route_shape::lemma_anchor_list(leaves, leaves.len(), statics);
    let entries = choose|entries: Seq<EntryModel>| projection::lists(entries, names);
    projection::lemma_listing_by(entries, names);
    assert(projection::entry_named(entries, name) == names(name));
    if leaf_at(leaves, name, i) {
        lemma_leaf_entry(leaves, leaves.len(), statics, name, i);
    }
    if forall|k: int| 0 <= k < leaves.len() ==> (#[trigger] leaves[k]).0 != name {
        lemma_no_leaf_entry(leaves, leaves.len(), statics, name);
    }
}

proof fn lemma_leaf_entry(
    leaves: Seq<(Seq<char>, bool)>,
    n: nat,
    statics: Seq<EntryModel>,
    name: Seq<char>,
    i: int,
)
    requires
        leaf_at(leaves, name, i),
        i < n <= leaves.len(),
    ensures
        route_shape::anchor_entry(leaves, n, statics, name) matches Some(entry) && entry.name
            == name && (entry.file is None) == leaves[i].1,
    decreases n,
{
    if i < n - 1 {
        assert(leaves[n - 1].0 != name);
        lemma_leaf_entry(leaves, (n - 1) as nat, statics, name, i);
    }
}

proof fn lemma_no_leaf_entry(
    leaves: Seq<(Seq<char>, bool)>,
    n: nat,
    statics: Seq<EntryModel>,
    name: Seq<char>,
)
    requires
        n <= leaves.len(),
        forall|k: int| 0 <= k < leaves.len() ==> (#[trigger] leaves[k]).0 != name,
    ensures
        route_shape::anchor_entry(leaves, n, statics, name) == projection::entry_named(
            statics,
            name,
        ),
    decreases n,
{
    if n > 0 {
        assert(leaves[n - 1].0 != name);
        lemma_no_leaf_entry(leaves, (n - 1) as nat, statics, name);
    }
}

} // verus!
