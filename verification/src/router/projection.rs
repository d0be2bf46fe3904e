//! Name-ordered entry lists and their merging.

use vstd::prelude::*;
use vstd::string::*;

use crate::browse;
use crate::browse::{Entry, EntryModel};
use crate::file_attrs;
use crate::file_attrs::{FileModel, FileProj};
use crate::projection;
use crate::projection::{ChildModel, EntryKind};
use crate::text;

verus! {

/// The entry of that name, if there is one.
pub open spec fn entry_named(entries: Seq<EntryModel>, name: Seq<char>) -> Option<EntryModel>
    decreases entries.len(),
{
    if entries.len() == 0 {
        None
    } else if entries[0].name == name {
        Some(entries[0])
    } else {
        entry_named(entries.drop_first(), name)
    }
}

/// The last entry of that name, if there is one.
pub open spec fn last_entry_named(entries: Seq<EntryModel>, name: Seq<char>) -> Option<EntryModel>
    decreases entries.len(),
{
    if entries.len() == 0 {
        None
    } else if entries.last().name == name {
        Some(entries.last())
    } else {
        last_entry_named(entries.drop_last(), name)
    }
}

/// No two entries have one name.
pub open spec fn distinct_names(entries: Seq<EntryModel>) -> bool {
    forall|i: int, j: int|
        0 <= i < j < entries.len() ==> (#[trigger] entries[i]).name != (#[trigger] entries[j]).name
}

/// Ordered by name, each name once.
pub open spec fn sorted(entries: Seq<EntryModel>) -> bool {
    forall|i: int, j: int|
        0 <= i < j < entries.len() ==> text::text_lt(
            (#[trigger] entries[i]).name,
            (#[trigger] entries[j]).name,
        )
}

/// The entry that is found is one of that name, and a missing name is not
/// there.
pub proof fn lemma_entry_named(entries: Seq<EntryModel>, name: Seq<char>)
    ensures
        match entry_named(entries, name) {
            Some(e) => e.name == name && exists|i: int|
                0 <= i < entries.len() && #[trigger] entries[i] == e && forall|k: int|
                    0 <= k < i ==> (#[trigger] entries[k]).name != name,
            None => forall|i: int| 0 <= i < entries.len() ==> (#[trigger] entries[i]).name != name,
        },
    decreases entries.len(),
{
    if entries.len() > 0 {
        let rest = entries.drop_first();
        if entries[0].name == name {
            assert(entries[0] == entry_named(entries, name)->0);
        } else {
            lemma_entry_named(rest, name);
            match entry_named(rest, name) {
                Some(e) => {
                    let i = choose|i: int|
                        0 <= i < rest.len() && #[trigger] rest[i] == e && forall|k: int|
                            0 <= k < i ==> (#[trigger] rest[k]).name != name;
                    assert(entries[i + 1] == e);
                    assert forall|k: int| 0 <= k < i + 1 implies (#[trigger] entries[k]).name
                        != name by {
                        if k > 0 {
                            assert(rest[k - 1] == entries[k]);
                        }
                    }
                },
                None => {
                    assert forall|i: int| 0 <= i < entries.len() implies (
                    #[trigger] entries[i]).name != name by {
                        if i > 0 {
                            assert(rest[i - 1] == entries[i]);
                        }
                    }
                },
            }
        }
    }
}

/// The last entry of a name is one of that name, and a missing name is not
/// there.
proof fn lemma_last_entry_named(entries: Seq<EntryModel>, name: Seq<char>)
    ensures
        match last_entry_named(entries, name) {
            Some(e) => e.name == name && exists|i: int|
                0 <= i < entries.len() && #[trigger] entries[i] == e,
            None => forall|i: int| 0 <= i < entries.len() ==> (#[trigger] entries[i]).name != name,
        },
    decreases entries.len(),
{
    if entries.len() > 0 {
        let head = entries.drop_last();
        let last = entries.len() - 1;
        assert(entries[last] == entries.last());
        if entries.last().name != name {
            lemma_last_entry_named(head, name);
            match last_entry_named(head, name) {
                Some(e) => {
                    let i = choose|i: int| 0 <= i < head.len() && #[trigger] head[i] == e;
                    assert(entries[i] == e);
                },
                None => {
                    assert forall|i: int| 0 <= i < entries.len() implies (
                    #[trigger] entries[i]).name != name by {
                        if i < last {
                            assert(head[i] == entries[i]);
                        }
                    }
                },
            }
        }
    }
}

/// Where no two entries have one name, the last of a name is the first.
pub proof fn lemma_distinct_entry_named(entries: Seq<EntryModel>, name: Seq<char>)
    requires
        distinct_names(entries),
    ensures
        last_entry_named(entries, name) == entry_named(entries, name),
{
    lemma_entry_named(entries, name);
    lemma_last_entry_named(entries, name);
    if let Some(first) = entry_named(entries, name) {
        let i = choose|i: int| 0 <= i < entries.len() && #[trigger] entries[i] == first;
        if let Some(last) = last_entry_named(entries, name) {
            let j = choose|j: int| 0 <= j < entries.len() && #[trigger] entries[j] == last;
            if i < j {
                assert(entries[i].name != entries[j].name);
            } else if j < i {
                assert(entries[j].name != entries[i].name);
            }
        }
    }
}

/// An ordered list has each name once.
pub proof fn lemma_sorted_is_distinct(entries: Seq<EntryModel>)
    requires
        sorted(entries),
    ensures
        distinct_names(entries),
{
    assert forall|i: int, j: int| 0 <= i < j < entries.len() implies (#[trigger] entries[i]).name
        != (#[trigger] entries[j]).name by {
        assert(text::text_lt(entries[i].name, entries[j].name));
        text::lemma_text_lt_irreflexive(entries[i].name);
    }
}

/// In an ordered list every entry is found by its name.
pub proof fn lemma_sorted_entry_named(entries: Seq<EntryModel>, i: int)
    requires
        sorted(entries),
        0 <= i < entries.len(),
    ensures
        entry_named(entries, entries[i].name) == Some(entries[i]),
{
    let name = entries[i].name;
    lemma_entry_named(entries, name);
    let found = entry_named(entries, name);
    if let Some(e) = found {
        let k = choose|k: int|
            0 <= k < entries.len() && #[trigger] entries[k] == e && forall|m: int|
                0 <= m < k ==> (#[trigger] entries[m]).name != name;
        text::lemma_text_lt_irreflexive(name);
        if k < i {
            assert(text::text_lt(entries[k].name, entries[i].name));
        } else if i < k {
            assert(text::text_lt(entries[i].name, entries[k].name));
        }
    }
}

/// Names and what they stand for determine an ordered list.
pub proof fn law_listing_determined_by_names(left: Seq<EntryModel>, right: Seq<EntryModel>)
    requires
        sorted(left),
        sorted(right),
        forall|name: Seq<char>| #[trigger]
            entry_named(left, name) == entry_named(right, name),
    ensures
        left == right,
    decreases left.len(),
{
    if left.len() == 0 {
        if right.len() > 0 {
            lemma_sorted_entry_named(right, 0);
            assert(entry_named(left, right[0].name) == entry_named(right, right[0].name));
        }
        assert(left =~= right);
    } else if right.len() == 0 {
        lemma_sorted_entry_named(left, 0);
        assert(entry_named(left, left[0].name) == entry_named(right, left[0].name));
    } else {
        let a = left[0];
        let b = right[0];
        lemma_sorted_entry_named(left, 0);
        lemma_sorted_entry_named(right, 0);
        lemma_entry_named(right, a.name);
        lemma_entry_named(left, b.name);
        assert(entry_named(left, a.name) == entry_named(right, a.name));
        assert(entry_named(left, b.name) == entry_named(right, b.name));
        text::lemma_text_lt_irreflexive(a.name);
        if a.name != b.name {
            let i = choose|i: int| 0 <= i < right.len() && right[i] == a;
            let j = choose|j: int| 0 <= j < left.len() && left[j] == b;
            assert(text::text_lt(right[0].name, right[i].name));
            assert(text::text_lt(left[0].name, left[j].name));
            text::lemma_text_lt_transitive(a.name, b.name, a.name);
        }
        assert(a == b);
        let l = left.drop_first();
        let r = right.drop_first();
        assert(sorted(l)) by {
            assert forall|i: int, j: int| 0 <= i < j < l.len() implies text::text_lt(
                (#[trigger] l[i]).name,
                (#[trigger] l[j]).name,
            ) by {
                assert(text::text_lt(left[i + 1].name, left[j + 1].name));
            }
        }
        assert(sorted(r)) by {
            assert forall|i: int, j: int| 0 <= i < j < r.len() implies text::text_lt(
                (#[trigger] r[i]).name,
                (#[trigger] r[j]).name,
            ) by {
                assert(text::text_lt(right[i + 1].name, right[j + 1].name));
            }
        }
        assert forall|name: Seq<char>| #[trigger]
            entry_named(l, name) == entry_named(r, name) by {
            assert(entry_named(left, name) == entry_named(right, name));
            if name == a.name {
                lemma_entry_named(l, name);
                lemma_entry_named(r, name);
                if entry_named(l, name) is Some {
                    let i = choose|i: int| 0 <= i < l.len() && l[i].name == name;
                    assert(text::text_lt(left[0].name, left[i + 1].name));
                }
                if entry_named(r, name) is Some {
                    let i = choose|i: int| 0 <= i < r.len() && r[i].name == name;
                    assert(text::text_lt(right[0].name, right[i + 1].name));
                }
            }
        }
        law_listing_determined_by_names(l, r);
        assert(left =~= seq![a] + l);
        assert(right =~= seq![b] + r);
    }
}

/// The name-ordered list in which each name stands for what `names` says.
pub open spec fn listing_by(names: spec_fn(Seq<char>) -> Option<EntryModel>) -> Seq<EntryModel> {
    choose|entries: Seq<EntryModel>| lists(entries, names)
}

/// An ordered list in which each name stands for what `names` says.
pub open spec fn lists(
    entries: Seq<EntryModel>,
    names: spec_fn(Seq<char>) -> Option<EntryModel>,
) -> bool {
    sorted(entries) && forall|name: Seq<char>| #[trigger] entry_named(entries, name) == names(name)
}

/// There is no other such list.
pub proof fn lemma_listing_by(
    entries: Seq<EntryModel>,
    names: spec_fn(Seq<char>) -> Option<EntryModel>,
)
    requires
        lists(entries, names),
    ensures
        listing_by(names) == entries,
{
    let chosen = listing_by(names);
    assert(lists(chosen, names));
    assert forall|name: Seq<char>| #[trigger]
        entry_named(chosen, name) == entry_named(entries, name) by {
        assert(entry_named(chosen, name) == names(name));
    }
    law_listing_determined_by_names(chosen, entries);
}

/// A name-ordered table of entries, each name once.
pub struct NameTable {
    entries: Vec<Entry>,
}

impl View for NameTable {
    type V = Seq<EntryModel>;

    closed spec fn view(&self) -> Seq<EntryModel> {
        browse::models(self.entries@)
    }
}

/// One more entry, and all the others as before.
pub open spec fn with_entry(
    before: Seq<EntryModel>,
    after: Seq<EntryModel>,
    entry: EntryModel,
) -> bool {
    forall|name: Seq<char>| #[trigger]
        entry_named(after, name) == (if name == entry.name {
            Some(entry)
        } else {
            entry_named(before, name)
        })
}

impl NameTable {
    #[verifier::type_invariant]
    spec fn inv(self) -> bool {
        sorted(browse::models(self.entries@))
    }

    pub fn new() -> (r: Self)
        ensures
            r@ == Seq::<EntryModel>::empty(),
    {
        let entries: Vec<Entry> = Vec::new();
        assert(browse::models(entries@) =~= Seq::<EntryModel>::empty());
        NameTable { entries }
    }

    /// The table of a name-ordered list.
    pub fn of(entries: Vec<Entry>) -> (r: Self)
        requires
            sorted(browse::models(entries@)),
        ensures
            r@ == browse::models(entries@),
    {
        NameTable { entries }
    }

    /// The position of the first entry whose name does not come before
    /// `name`.
    fn position(entries: &Vec<Entry>, name: &str) -> (r: usize)
        requires
            sorted(browse::models(entries@)),
        ensures
            r <= entries@.len(),
            forall|k: int|
                0 <= k < r ==> text::text_lt(
                    (#[trigger] browse::models(entries@)[k]).name,
                    name@,
                ),
            forall|k: int|
                r <= k < entries@.len() ==> !text::text_lt(
                    (#[trigger] browse::models(entries@)[k]).name,
                    name@,
                ),
    {
        let ghost all = browse::models(entries@);
        let mut i: usize = 0;
        while i < entries.len() && text::less(entries[i].name(), name)
            invariant
                i <= entries@.len(),
                all == browse::models(entries@),
                forall|k: int| 0 <= k < i ==> text::text_lt((#[trigger] all[k]).name, name@),
            decreases entries@.len() - i,
        {
            i = i + 1;
        }
        proof {
            assert forall|k: int| i <= k < entries@.len() implies !text::text_lt(
                (#[trigger] all[k]).name,
                name@,
            ) by {
                if k > i && text::text_lt(all[k].name, name@) {
                    assert(text::text_lt(all[i as int].name, all[k].name));
                    text::lemma_text_lt_transitive(all[i as int].name, all[k].name, name@);
                }
            }
        }
        i
    }

    /// Adds an entry, in place of one of the same name.
    pub fn insert(&mut self, entry: Entry)
        ensures
            with_entry(old(self)@, final(self)@, entry@),
            sorted(final(self)@),
    {
        proof {
            use_type_invariant(&*self);
        }
        let mut entries: Vec<Entry> = Vec::new();
        core::mem::swap(&mut entries, &mut self.entries);
        let ghost before = browse::models(entries@);
        let ghost model = entry@;
        let at: usize = Self::position(&entries, entry.name());
        if at < entries.len() && text::same(entries[at].name(), entry.name()) {
            assert(before[at as int].name == model.name);
            entries.set(at, entry);
            let ghost after = browse::models(entries@);
            assert(after =~= before.update(at as int, model));
            proof {
                lemma_replaced(before, after, at as int, model);
            }
        } else {
            let ghost items = entries@;
            entries.insert(at, entry);
            let ghost after = browse::models(entries@);
            assert(after =~= before.insert(at as int, model));
            proof {
                if at < before.len() {
                    text::lemma_text_lt_total(before[at as int].name, model.name);
                    assert(before[at as int] == items[at as int]@);
                }
                lemma_inserted(before, after, at as int, model);
            }
        }
        self.entries = entries;
    }

    /// Adds an entry unless there is one of the same name.
    pub fn insert_if_absent(&mut self, entry: Entry)
        ensures
            entry_named(old(self)@, entry@.name) is Some ==> final(self)@ == old(self)@,
            entry_named(old(self)@, entry@.name) is None ==> with_entry(
                old(self)@,
                final(self)@,
                entry@,
            ),
            sorted(final(self)@),
    {
        proof {
            use_type_invariant(&*self);
        }
        let at: usize = Self::position(&self.entries, entry.name());
        if at < self.entries.len() && text::same(self.entries[at].name(), entry.name()) {
            proof {
                lemma_sorted_entry_named(self@, at as int);
            }
            return;
        }
        proof {
            lemma_entry_named(self@, entry@.name);
            if entry_named(self@, entry@.name) is Some {
                let k = choose|k: int| 0 <= k < self@.len() && self@[k].name == entry@.name;
                text::lemma_text_lt_irreflexive(entry@.name);
                assert(!(k < at));
                if k > at {
                    assert(text::text_lt(self@[at as int].name, self@[k].name));
                }
            }
        }
        self.insert(entry);
    }

    /// The entries in order.
    pub fn into_entries(self) -> (r: Vec<Entry>)
        ensures
            browse::models(r@) == self@,
            sorted(self@),
    {
        proof {
            use_type_invariant(&self);
        }
        self.entries
    }
}

/// Replacing an entry by one of the same name keeps the order.
proof fn lemma_replaced(
    before: Seq<EntryModel>,
    after: Seq<EntryModel>,
    at: int,
    entry: EntryModel,
)
    requires
        sorted(before),
        0 <= at < before.len(),
        before[at].name == entry.name,
        after == before.update(at, entry),
    ensures
        sorted(after),
        with_entry(before, after, entry),
{
    assert forall|i: int, j: int| 0 <= i < j < after.len() implies text::text_lt(
        (#[trigger] after[i]).name,
        (#[trigger] after[j]).name,
    ) by {
        assert(text::text_lt(before[i].name, before[j].name));
    }
    assert forall|name: Seq<char>| #[trigger]
        entry_named(after, name) == (if name == entry.name {
            Some(entry)
        } else {
            entry_named(before, name)
        }) by {
        lemma_entry_named(after, name);
        lemma_entry_named(before, name);
        if name == entry.name {
            lemma_sorted_entry_named(after, at);
        } else {
            match entry_named(before, name) {
                Some(e) => {
                    let k = choose|k: int| 0 <= k < before.len() && #[trigger] before[k] == e;
                    assert(after[k] == e);
                    lemma_sorted_entry_named(after, k);
                },
                None => {
                    if entry_named(after, name) is Some {
                        let k = choose|k: int| 0 <= k < after.len() && (#[trigger] after[k]).name
                            == name;
                        assert(before[k].name == name);
                    }
                },
            }
        }
    }
}

/// Inserting an entry of a new name at its place keeps the order.
proof fn lemma_inserted(
    before: Seq<EntryModel>,
    after: Seq<EntryModel>,
    at: int,
    entry: EntryModel,
)
    requires
        sorted(before),
        0 <= at <= before.len(),
        forall|k: int| 0 <= k < at ==> text::text_lt((#[trigger] before[k]).name, entry.name),
        at < before.len() ==> text::text_lt(entry.name, before[at].name),
        after == before.insert(at, entry),
    ensures
        sorted(after),
        with_entry(before, after, entry),
{
    assert forall|k: int| at <= k < before.len() implies text::text_lt(
        entry.name,
        (#[trigger] before[k]).name,
    ) by {
        if k > at {
            assert(text::text_lt(before[at].name, before[k].name));
            text::lemma_text_lt_transitive(entry.name, before[at].name, before[k].name);
        }
    }
    assert forall|i: int, j: int| 0 <= i < j < after.len() implies text::text_lt(
        (#[trigger] after[i]).name,
        (#[trigger] after[j]).name,
    ) by {
        let bi = if i < at {
            i
        } else {
            i - 1
        };
        let bj = if j < at {
            j
        } else {
            j - 1
        };
        if i != at && j != at {
            assert(text::text_lt(before[bi].name, before[bj].name));
        } else if i == at {
            assert(after[j] == before[bj]);
        } else {
            assert(after[i] == before[bi]);
        }
    }
    assert forall|name: Seq<char>| #[trigger]
        entry_named(after, name) == (if name == entry.name {
            Some(entry)
        } else {
            entry_named(before, name)
        }) by {
        lemma_entry_named(after, name);
        lemma_entry_named(before, name);
        if name == entry.name {
            assert(after[at] == entry);
            lemma_sorted_entry_named(after, at);
        } else {
            match entry_named(before, name) {
                Some(e) => {
                    let k = choose|k: int| 0 <= k < before.len() && #[trigger] before[k] == e;
                    let moved = if k < at {
                        k
                    } else {
                        k + 1
                    };
                    assert(after[moved] == e);
                    lemma_sorted_entry_named(after, moved);
                },
                None => {
                    if entry_named(after, name) is Some {
                        let k = choose|k: int| 0 <= k < after.len() && (#[trigger] after[k]).name
                            == name;
                        let moved = if k < at {
                            k
                        } else {
                            k - 1
                        };
                        assert(before[moved].name == name);
                    }
                },
            }
        }
    }
}

/// How many of the first entries come before a name.
spec fn rank(entries: Seq<EntryModel>, name: Seq<char>) -> nat
    decreases entries.len(),
{
    if entries.len() == 0 {
        0
    } else if text::text_lt(entries.last().name, name) {
        entries.len()
    } else {
        rank(entries.drop_last(), name)
    }
}

proof fn lemma_rank(entries: Seq<EntryModel>, name: Seq<char>)
    requires
        sorted(entries),
    ensures
        rank(entries, name) <= entries.len(),
        forall|k: int|
            0 <= k < rank(entries, name) ==> text::text_lt((#[trigger] entries[k]).name, name),
        forall|k: int|
            rank(entries, name) <= k < entries.len() ==> !text::text_lt(
                (#[trigger] entries[k]).name,
                name,
            ),
    decreases entries.len(),
{
    if entries.len() > 0 {
        let last = entries.len() - 1;
        if text::text_lt(entries.last().name, name) {
            assert forall|k: int| 0 <= k < entries.len() implies text::text_lt(
                (#[trigger] entries[k]).name,
                name,
            ) by {
                if k < last {
                    assert(text::text_lt(entries[k].name, entries[last].name));
                    text::lemma_text_lt_transitive(entries[k].name, entries[last].name, name);
                }
            }
        } else {
            let head = entries.drop_last();
            assert forall|i: int, j: int| 0 <= i < j < head.len() implies text::text_lt(
                (#[trigger] head[i]).name,
                (#[trigger] head[j]).name,
            ) by {
                assert(text::text_lt(entries[i].name, entries[j].name));
            }
            lemma_rank(head, name);
            assert forall|k: int| 0 <= k < head.len() implies #[trigger] entries[k] == head[k] by {}
        }
    }
}

/// An entry of a new name has a place in an ordered list.
pub proof fn lemma_extend(entries: Seq<EntryModel>, entry: EntryModel)
    requires
        sorted(entries),
        entry_named(entries, entry.name) is None,
    ensures
        exists|more: Seq<EntryModel>| sorted(more) && with_entry(entries, more, entry),
{
    let at = rank(entries, entry.name) as int;
    lemma_rank(entries, entry.name);
    lemma_entry_named(entries, entry.name);
    if at < entries.len() {
        assert(entries[at].name != entry.name);
        text::lemma_text_lt_total(entries[at].name, entry.name);
    }
    let more = entries.insert(at, entry);
    lemma_inserted(entries, more, at, entry);
}

/// An entry has a place in an ordered list, where one of the same name stands
/// or a new one.
pub proof fn lemma_put(entries: Seq<EntryModel>, entry: EntryModel)
    requires
        sorted(entries),
    ensures
        exists|more: Seq<EntryModel>| sorted(more) && with_entry(entries, more, entry),
{
    lemma_entry_named(entries, entry.name);
    if entry_named(entries, entry.name) is None {
        lemma_extend(entries, entry);
    } else {
        let at = choose|at: int|
            0 <= at < entries.len() && (#[trigger] entries[at]).name == entry.name;
        lemma_replaced(entries, entries.update(at, entry), at, entry);
    }
}

/// The first enumerated child of that name.
pub open spec fn child_named(children: Seq<ChildModel>, name: Seq<char>) -> Option<ChildModel>
    decreases children.len(),
{
    if children.len() == 0 {
        None
    } else if children[0].name == name {
        Some(children[0])
    } else {
        child_named(children.drop_first(), name)
    }
}

/// The dirent that the router lists an enumerated child as: a file is read
/// later and has the content type that was declared for it.
pub open spec fn routed_child(child: ChildModel) -> EntryModel {
    match child.kind {
        EntryKind::Dir => browse::dir_entry(child.name),
        EntryKind::File => browse::file_entry(
            child.name,
            FileModel { content_type: child.content_type, ..file_attrs::listing_file() },
        ),
    }
}

/// What a name stands for in a merged list: the enumerated child if there is
/// one, else the static entry, the last of several.
pub open spec fn merged_entry(
    children: Seq<ChildModel>,
    statics: Seq<EntryModel>,
    name: Seq<char>,
) -> Option<EntryModel> {
    match child_named(children, name) {
        Some(child) => Some(routed_child(child)),
        None => last_entry_named(statics, name),
    }
}

/// What each name stands for in a merged list.
pub open spec fn merged_names(children: Seq<ChildModel>, statics: Seq<EntryModel>) -> spec_fn(
    Seq<char>,
) -> Option<EntryModel> {
    |name: Seq<char>| merged_entry(children, statics, name)
}

/// There is a merged list.
pub proof fn lemma_merged_list(children: Seq<ChildModel>, statics: Seq<EntryModel>, n: int)
    requires
        sorted(statics),
        0 <= n <= children.len(),
    ensures
        exists|entries: Seq<EntryModel>|
            #[trigger] lists(entries, merged_names(children.skip(n), statics)),
    decreases children.len() - n,
{
    let names = merged_names(children.skip(n), statics);
    if n == children.len() {
        assert(children.skip(n) =~= Seq::empty());
        lemma_sorted_is_distinct(statics);
        assert forall|name: Seq<char>| #[trigger] entry_named(statics, name) == names(name) by {
            lemma_distinct_entry_named(statics, name);
        }
        assert(lists(statics, names));
    } else {
        lemma_merged_list(children, statics, n + 1);
        let rest = merged_names(children.skip(n + 1), statics);
        let entries = choose|entries: Seq<EntryModel>| lists(entries, rest);
        let entry = routed_child(children[n]);
        lemma_put(entries, entry);
        let more = choose|more: Seq<EntryModel>|
            sorted(more) && with_entry(entries, more, entry);
        assert forall|name: Seq<char>| #[trigger] entry_named(more, name) == names(name) by {
            lemma_child_named_push(children, n, name);
            assert(entry_named(entries, name) == rest(name));
        }
        assert(lists(more, names));
    }
}

/// A child in front decides for its name.
proof fn lemma_child_named_push(children: Seq<ChildModel>, n: int, name: Seq<char>)
    requires
        0 <= n < children.len(),
    ensures
        child_named(children.skip(n), name) == (if children[n].name == name {
            Some(children[n])
        } else {
            child_named(children.skip(n + 1), name)
        }),
{
    assert(children.skip(n)[0] == children[n]);
    assert(children.skip(n).drop_first() =~= children.skip(n + 1));
}

/// Lists an enumerated child, with the content type declared for it.
fn route_child(child: &projection::Entry) -> (r: Entry)
    ensures
        r@ == routed_child(child@),
{
    match child.kind() {
        EntryKind::Dir => Entry::dir(child.name()),
        EntryKind::File => {
            let file = FileProj::listing_shape();
            let file = match child.declared_content_type() {
                Some(ct) => file.with_content_type(ct),
                None => file,
            };
            Entry::file(child.name(), file)
        },
    }
}

/// Merge a handler's enumerated entries with the static sibling entries the
/// route table contributes at the same depth: the enumeration wins name
/// collisions (the handler knows more about a child than the table does),
/// and the result is name-ordered. This merge is why a dir handler only
/// enumerates its dynamic children; literal sibling routes appear in its
/// listing without being re-declared.
pub fn merge_entries(
    entries: &Vec<projection::Entry>,
    static_entries: Vec<Entry>,
) -> (r: Vec<Entry>)
    ensures
        sorted(browse::models(r@)),
        forall|name: Seq<char>| #[trigger]
            entry_named(browse::models(r@), name) == merged_entry(
                projection::children(entries@),
                browse::models(static_entries@),
                name,
            ),
        distinct_names(browse::models(static_entries@)) ==> forall|name: Seq<char>| #[trigger]
            entry_named(browse::models(r@), name) == (match child_named(
                projection::children(entries@),
                name,
            ) {
                Some(child) => Some(routed_child(child)),
                None => entry_named(browse::models(static_entries@), name),
            }),
{
    let ghost children = projection::children(entries@);
    let ghost statics = browse::models(static_entries@);
    let mut table = NameTable::new();
    for entry in it: static_entries
        invariant
            statics == browse::models(it.seq()),
            sorted(table@),
            forall|name: Seq<char>| #[trigger]
                entry_named(table@, name) == last_entry_named(
                    statics.take(it.index() as int),
                    name,
                ),
    {
        let ghost n = it.index() as int;
        assert(entry@ == statics[n]);
        table.insert(entry);
        assert(statics.take(n + 1).drop_last() =~= statics.take(n));
    }
    assert(statics.take(statics.len() as int) =~= statics);
    let mut i: usize = entries.len();
    assert(children.skip(children.len() as int) =~= Seq::empty());
    // Walked from the back, so the first of several children of one name is
    // the one that stays.
    while i > 0
        invariant
            i <= entries@.len(),
            children == projection::children(entries@),
            sorted(table@),
            forall|name: Seq<char>| #[trigger]
                entry_named(table@, name) == merged_entry(
                    children.skip(i as int),
                    statics,
                    name,
                ),
        decreases i,
    {
        let ghost before = table@;
        let entry = route_child(&entries[i - 1]);
        let ghost model = entry@;
        assert(children[i as int - 1] == entries@[i as int - 1]@);
        assert(model == routed_child(children[i as int - 1]));
        table.insert(entry);
        assert forall|name: Seq<char>| #[trigger]
            entry_named(table@, name) == merged_entry(
                children.skip(i as int - 1),
                statics,
                name,
            ) by {
            lemma_child_named_push(children, i as int - 1, name);
            assert(entry_named(before, name) == merged_entry(
                children.skip(i as int),
                statics,
                name,
            ));
        }
        i = i - 1;
    }
    assert(children.skip(0) =~= children);
    proof {
        if distinct_names(statics) {
            assert forall|name: Seq<char>| #[trigger] entry_named(table@, name) == (
            match child_named(children, name) {
                Some(child) => Some(routed_child(child)),
                None => entry_named(statics, name),
            }) by {
                lemma_distinct_entry_named(statics, name);
            }
        }
    }
    table.into_entries()
}

} // verus!
