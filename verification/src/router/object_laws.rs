//! What an object's reads and listings hand over: which bytes, under which
//! identity, and what they leave for the host to cache.

use vstd::prelude::*;

use crate::browse;
use crate::browse::{
    AnswerModel, CachedCanonical, Effects, EffectsModel, FileContent, OutcomeModel, ReadOutcome,
};
use crate::content_type::{ContentModel, ContentType};
use crate::error::{Failure, ProviderError, ProviderErrorKind, Result};
use crate::file_attrs::{Size, Stability};
use crate::identity::IdModel;
use crate::object::{Canonical, Key, Load, Object};
use crate::repr;
use crate::repr::TableModel;
use crate::router::facets;
use crate::router::facets::PlacedAxis;
use crate::router::mount;
use crate::router::object;
use crate::router::object::LeafModel;
use crate::router::object_route;
use crate::router::object_route::{ReadStep, RouteModel, TargetModel};
use crate::wire;
use crate::wire::{KindModel, SourceModel, WriteModel};

verus! {

/// A staged write is the file of a projected leaf below an anchor: it belongs
/// to the object, lies at the leaf's path, and carries exactly these bytes
/// with their number as the size, the declared stability and no version.
pub open spec fn carries(
    write: WriteModel,
    id: IdModel,
    path: Seq<char>,
    bytes: Seq<u8>,
    stability: Stability,
) -> bool {
    &&& write.id == Some(id)
    &&& write.path == path
    &&& write.kind matches KindModel::File(file)
    &&& file.bytes == SourceModel::Inline(bytes)
    &&& file.attrs.size matches Size::Exact(size)
    &&& size == bytes.len()
    &&& file.attrs.stability == stability
    &&& file.attrs.version_token is None
}

/// Some content that a projection can give for the value has these bytes, and
/// one of the staged writes carries them.
pub open spec fn preload_staged<O, P: Fn(&O) -> Result<FileContent>>(
    project: P,
    value: O,
    fs: Seq<WriteModel>,
    id: IdModel,
    path: Seq<char>,
    stability: Stability,
    content: FileContent,
    w: int,
) -> bool {
    &&& call_ensures(project, (&value,), Ok::<FileContent, ProviderError>(content))
    &&& content@.bytes matches SourceModel::Inline(bytes)
    &&& 0 <= w < fs.len()
    &&& carries(fs[w], id, path, bytes, stability)
    &&& fs[w].kind->File_0.content_type == wire::lowered_content(content@.content_type)
}

proof fn lemma_preloaded<P, H>(
    leaves: Seq<LeafModel<P, H>>,
    id: IdModel,
    path: Seq<char>,
    before: EffectsModel,
    results: Seq<Result<FileContent>>,
    n: nat,
    i: int,
)
    requires
        n <= leaves.len(),
        results.len() >= n,
        path.len() > 0,
        path[0] == '/',
        object_route::preloads(leaves, id, path, before, results, n) is Ok,
    ensures
        ({
            let after = object_route::preloads(leaves, id, path, before, results, n)->Ok_0;
            &&& after.canonical == before.canonical
            &&& after.invalidations == before.invalidations
            &&& after.fs.len() >= before.fs.len()
            &&& after.fs.take(before.fs.len() as int) == before.fs
            &&& 0 <= i < n && object_route::eager(leaves[i]) ==> {
                &&& results[i] matches Ok(content)
                &&& content@.bytes matches SourceModel::Inline(bytes)
                &&& exists|w: int|
                    before.fs.len() <= w < after.fs.len() && carries(
                        #[trigger] after.fs[w],
                        id,
                        path + "/"@ + leaves[i]->Projected_name,
                        bytes,
                        leaves[i]->Projected_stability,
                    ) && after.fs[w].kind->File_0.content_type == wire::lowered_content(
                        content@.content_type,
                    )
            }
            &&& forall|w: int|
                before.fs.len() <= w < after.fs.len() ==> exists|k: int|
                    0 <= k < n && object_route::eager(#[trigger] leaves[k]) && (
                    #[trigger] after.fs[w]).path == path + "/"@ + leaves[k]->Projected_name
        }),
    decreases n,
{
    let after = object_route::preloads(leaves, id, path, before, results, n)->Ok_0;
    if n == 0 {
        assert(after.fs.take(before.fs.len() as int) =~= before.fs);
    } else {
        let last = n - 1;
        lemma_preloaded(leaves, id, path, before, results, last as nat, i);
        let head = object_route::preloads(leaves, id, path, before, results, last as nat)->Ok_0;
        if object_route::eager(leaves[last]) {
            let name = leaves[last]->Projected_name;
            let at = path + "/"@ + name;
            assert(at[0] == path[0]);
            assert(browse::absolute(at) == at);
            let write = after.fs.last();
            assert(after.fs == head.fs.push(write));
            assert(after.fs.take(before.fs.len() as int) =~= head.fs.take(before.fs.len() as int));
            assert(write.path == at);
            if 0 <= i < last && object_route::eager(leaves[i]) {
                let content = results[i]->Ok_0;
                let bytes = content@.bytes->Inline_0;
                let w = choose|w: int|
                    before.fs.len() <= w < head.fs.len() && carries(
                        #[trigger] head.fs[w],
                        id,
                        path + "/"@ + leaves[i]->Projected_name,
                        bytes,
                        leaves[i]->Projected_stability,
                    ) && head.fs[w].kind->File_0.content_type == wire::lowered_content(
                        content@.content_type,
                    );
                assert(after.fs[w] == head.fs[w]);
            }
            assert(after.fs[head.fs.len() as int] == write);
            assert forall|w: int| before.fs.len() <= w < after.fs.len() implies exists|k: int|
                0 <= k < n && object_route::eager(#[trigger] leaves[k]) && (
                #[trigger] after.fs[w]).path == path + "/"@ + leaves[k]->Projected_name by {
                if w < head.fs.len() {
                    assert(after.fs[w] == head.fs[w]);
                    let k = choose|k: int|
                        0 <= k < last && object_route::eager(#[trigger] leaves[k])
                            && head.fs[w].path == path + "/"@ + leaves[k]->Projected_name;
                    assert(object_route::eager(leaves[k]));
                } else {
                    assert(object_route::eager(leaves[last]));
                }
            }
        } else {
            assert(after == head);
            assert forall|w: int| before.fs.len() <= w < after.fs.len() implies exists|k: int|
                0 <= k < n && object_route::eager(#[trigger] leaves[k]) && (
                #[trigger] after.fs[w]).path == path + "/"@ + leaves[k]->Projected_name by {
                let k = choose|k: int|
                    0 <= k < last && object_route::eager(#[trigger] leaves[k]) && head.fs[w].path
                        == path + "/"@ + leaves[k]->Projected_name;
                assert(object_route::eager(leaves[k]));
            }
        }
    }
}

/// After the listing of an anchor whose object was loaded fresh, every
/// projected leaf that is not lazy is staged: the write at the leaf's path
/// belongs to the object and carries exactly the bytes that the leaf's
/// projection of the loaded value gave, with their number as the size.
pub proof fn law_eager_leaf_is_preloaded_with_its_bytes<
    K: Key,
    W,
    P: Fn(&K::Object) -> Result<FileContent>,
    R,
    H,
>(
    route: RouteModel<W, P, R, H>,
    key: K,
    list_path: Seq<char>,
    value: K::Object,
    canonical: Canonical,
    effects: Effects,
    i: int,
)
    requires
        list_path.len() > 0,
        list_path[0] == '/',
        object_route::list_finished(
            route,
            key,
            list_path,
            Load::Fresh { value, canonical },
            Ok(effects),
        ),
        0 <= i < route.leaves.len(),
        route.leaves[i] matches LeafModel::Projected { lazy, .. } && !lazy,
    ensures
        exists|content: FileContent, w: int| #[trigger]
            preload_staged(
                route.leaves[i]->Projected_project,
                value,
                effects@.fs,
                object_route::anchor(key),
                list_path + "/"@ + route.leaves[i]->Projected_name,
                route.leaves[i]->Projected_stability,
                content,
                w,
            ),
{
    let leaves = route.leaves;
    let id = object_route::anchor(key);
    let views = object_route::views_below(leaves, route.axes, list_path, leaves.len())->Ok_0;
    let before = object_route::stored(id, canonical, views);
    let results = choose|results: Seq<Result<FileContent>>|
        #![trigger object_route::preloads(leaves, id, list_path, before, results, results.len())]
        {
            &&& results.len() <= leaves.len()
            &&& object_route::projections_gave(leaves, value, results, results.len())
            &&& object_route::preloads(leaves, id, list_path, before, results, results.len()) == Ok::<
                EffectsModel,
                Failure,
            >(effects@)
            &&& results.len() == leaves.len()
        };
    lemma_preloaded(leaves, id, list_path, before, results, leaves.len(), i);
    let content = results[i]->Ok_0;
    let bytes = content@.bytes->Inline_0;
    let w = choose|w: int|
        before.fs.len() <= w < effects@.fs.len() && carries(
            #[trigger] effects@.fs[w],
            id,
            list_path + "/"@ + leaves[i]->Projected_name,
            bytes,
            leaves[i]->Projected_stability,
        ) && effects@.fs[w].kind->File_0.content_type == wire::lowered_content(
            content@.content_type,
        );
    assert(results[i] == Ok::<FileContent, ProviderError>(content));
    assert(preload_staged(
        leaves[i]->Projected_project,
        value,
        effects@.fs,
        id,
        list_path + "/"@ + leaves[i]->Projected_name,
        leaves[i]->Projected_stability,
        content,
        w,
    ));
}

/// The listing of an anchor stages nothing else: one store of the verbatim
/// canonical bytes and their validator under the object's identity, to be
/// found from its leaves; writes only for projected leaves that are not lazy;
/// and no evictions.
pub proof fn law_anchor_listing_stages_only_its_own<
    K: Key,
    W,
    P: Fn(&K::Object) -> Result<FileContent>,
    R,
    H,
>(
    route: RouteModel<W, P, R, H>,
    key: K,
    list_path: Seq<char>,
    value: K::Object,
    canonical: Canonical,
    effects: Effects,
)
    requires
        list_path.len() > 0,
        list_path[0] == '/',
        object_route::list_finished(
            route,
            key,
            list_path,
            Load::Fresh { value, canonical },
            Ok(effects),
        ),
    ensures
        effects@.canonical.len() == 1,
        effects@.canonical[0].id == object_route::anchor(key),
        effects@.canonical[0].bytes == canonical.bytes@,
        match canonical.validator {
            Some(token) => effects@.canonical[0].validator == Some(token.0@),
            None => effects@.canonical[0].validator is None,
        },
        object_route::views_below(
            route.leaves,
            route.axes,
            list_path,
            route.leaves.len(),
        ) == Ok::<Seq<Seq<char>>, Failure>(effects@.canonical[0].view_leaves),
        effects@.invalidations.len() == 0,
        forall|w: int|
            0 <= w < effects@.fs.len() ==> exists|k: int|
                0 <= k < route.leaves.len() && (route.leaves[k] matches LeafModel::Projected {
                    lazy,
                    ..
                } && !lazy) && (#[trigger] effects@.fs[w]).path == list_path + "/"@ + (
                #[trigger] route.leaves[k])->Projected_name,
{
    let leaves = route.leaves;
    let id = object_route::anchor(key);
    let views = object_route::views_below(leaves, route.axes, list_path, leaves.len())->Ok_0;
    let before = object_route::stored(id, canonical, views);
    let results = choose|results: Seq<Result<FileContent>>|
        #![trigger object_route::preloads(leaves, id, list_path, before, results, results.len())]
        {
            &&& results.len() <= leaves.len()
            &&& object_route::projections_gave(leaves, value, results, results.len())
            &&& object_route::preloads(leaves, id, list_path, before, results, results.len()) == Ok::<
                EffectsModel,
                Failure,
            >(effects@)
            &&& results.len() == leaves.len()
        };
    lemma_preloaded(leaves, id, list_path, before, results, leaves.len(), 0);
    assert(before.fs.len() == 0);
    assert forall|w: int| 0 <= w < effects@.fs.len() implies exists|k: int|
        0 <= k < leaves.len() && (leaves[k] matches LeafModel::Projected { lazy, .. } && !lazy) && (
        #[trigger] effects@.fs[w]).path == list_path + "/"@ + (
        #[trigger] leaves[k])->Projected_name by {
        let k = choose|k: int|
            0 <= k < leaves.len() && object_route::eager(#[trigger] leaves[k])
                && effects@.fs[w].path == list_path + "/"@ + leaves[k]->Projected_name;
        assert(object_route::eager(leaves[k]));
    }
}

/// Without facets, the canonical that an anchor listing stores is found again
/// from every representation and field below the anchor, and from nothing
/// else.
pub proof fn law_anchor_listing_covers_its_leaves<P, H>(
    leaves: Seq<LeafModel<P, H>>,
    list_path: Seq<char>,
    view: Seq<char>,
)
    ensures
        object_route::views_below(
            leaves,
            Seq::<PlacedAxis>::empty(),
            list_path,
            leaves.len(),
        ) matches Ok(views) && views.contains(view) == exists|i: int|
            0 <= i < leaves.len() && match #[trigger] leaves[i] {
                LeafModel::Representation { name, .. } => view == list_path + "/"@ + name,
                LeafModel::Projected { name, .. } => view == list_path + "/"@ + name,
                _ => false,
            },
{
    lemma_views(leaves, list_path, leaves.len(), view);
}

proof fn lemma_views<P, H>(
    leaves: Seq<LeafModel<P, H>>,
    list_path: Seq<char>,
    n: nat,
    view: Seq<char>,
)
    requires
        n <= leaves.len(),
    ensures
        object_route::views_below(
            leaves,
            Seq::<PlacedAxis>::empty(),
            list_path,
            n,
        ) matches Ok(views) && views.contains(view) == exists|i: int|
            0 <= i < n && match #[trigger] leaves[i] {
                LeafModel::Representation { name, .. } => view == list_path + "/"@ + name,
                LeafModel::Projected { name, .. } => view == list_path + "/"@ + name,
                _ => false,
            },
    decreases n,
{
    let axes = Seq::<PlacedAxis>::empty();
    if n > 0 {
        let last = n - 1;
        lemma_views(leaves, list_path, last as nat, view);
        let head = object_route::views_below(leaves, axes, list_path, last as nat)->Ok_0;
        let all = object_route::views_below(leaves, axes, list_path, n)->Ok_0;
        if head.contains(view) {
            let k = choose|k: int| 0 <= k < head.len() && head[k] == view;
            assert(all[k] == view);
        }
        match mount::canonical_leaf(leaves[last]) {
            Some(name) => {
                let at = list_path + "/"@ + name;
                assert(all == head + seq![at]);
                assert(all[head.len() as int] == at);
                if all.contains(view) && view != at {
                    let k = choose|k: int| 0 <= k < all.len() && all[k] == view;
                    assert(head[k] == view);
                }
                assert(view == at ==> all.contains(view));
                assert(leaves[last] == leaves[last]);
            },
            None => {
                assert(all == head);
            },
        }
    }
}

/// The listing of an anchor whose object did not change stages nothing, and
/// that of one that is gone is reported as not found.
pub proof fn law_anchor_listing_without_a_fresh_load<
    K: Key,
    W,
    P: Fn(&K::Object) -> Result<FileContent>,
    R,
    H,
>(
    route: RouteModel<W, P, R, H>,
    key: K,
    list_path: Seq<char>,
    load: Load<K::Object>,
    r: Result<Effects>,
)
    requires
        object_route::list_finished(route, key, list_path, load, r),
    ensures
        load is Unchanged ==> (r matches Ok(effects) && effects@.canonical.len() == 0
            && effects@.fs.len() == 0 && effects@.invalidations.len() == 0),
        load is NotFound ==> (r matches Err(e) && e@.kind == ProviderErrorKind::NotFound),
{
}

/// The first projected leaf of that name.
pub open spec fn field_at<P, H>(leaves: Seq<LeafModel<P, H>>, name: Seq<char>, i: int) -> bool {
    &&& 0 <= i < leaves.len()
    &&& leaves[i] matches LeafModel::Projected { name: n, .. } && n == name
    &&& forall|k: int|
        0 <= k < i ==> !((#[trigger] leaves[k]) matches LeafModel::Projected { name: n, .. } && n
            == name)
}

proof fn lemma_field_index<P, H>(
    leaves: Seq<LeafModel<P, H>>,
    name: Seq<char>,
    from: int,
    i: int,
)
    requires
        field_at(leaves, name, i),
        0 <= from <= i,
    ensures
        object_route::field_index(leaves, name, from) == Some(i),
    decreases i - from,
{
    if from < i {
        assert(!(leaves[from] matches LeafModel::Projected { name: n, .. } && n == name));
        lemma_field_index(leaves, name, from + 1, i);
    }
}

proof fn lemma_no_field<P, H>(leaves: Seq<LeafModel<P, H>>, name: Seq<char>, from: int)
    requires
        0 <= from <= leaves.len(),
        forall|k: int|
            0 <= k < leaves.len() ==> !((#[trigger] leaves[k]) matches LeafModel::Projected {
                name: n,
                ..
            } && n == name),
    ensures
        object_route::field_index(leaves, name, from) is None,
    decreases leaves.len() - from,
{
    if from < leaves.len() {
        assert(!(leaves[from] matches LeafModel::Projected { name: n, .. } && n == name));
        lemma_no_field(leaves, name, from + 1);
    }
}

/// Reading a field hands over what its projection of the value gave: the same
/// bytes, under the content type and the stability that the leaf declares,
/// with the number of inline bytes as the size. A failing projection fails the
/// read, and a field that no leaf declares is not found.
pub proof fn law_field_reads_its_projection<O, P: Fn(&O) -> Result<FileContent>, H>(
    leaves: Seq<LeafModel<P, H>>,
    value: O,
    name: Seq<char>,
    effects: EffectsModel,
    r: Result<ReadOutcome>,
    i: int,
)
    requires
        object_route::field_served(leaves, value, name, effects, r),
    ensures
        field_at(leaves, name, i) ==> exists|given: Result<FileContent>|
            #![trigger call_ensures(leaves[i]->Projected_project, (&value,), given)]
            call_ensures(leaves[i]->Projected_project, (&value,), given) && match given {
                Err(e) => r matches Err(f) && f@ == e@,
                Ok(content) => r matches Ok(outcome) && outcome@ matches OutcomeModel::Found(
                    answer,
                ) && {
                    &&& answer.bytes == content@.bytes
                    &&& answer.content_type == Some(leaves[i]->Projected_content_type)
                    &&& answer.attrs.stability == leaves[i]->Projected_stability
                    &&& answer.attrs.version is None
                    &&& content@.bytes matches SourceModel::Inline(bytes) ==> answer.attrs.size
                        == Size::Exact(bytes.len() as u64)
                    &&& answer.effects == content@.effects.then_also(effects)
                },
            },
        (forall|k: int|
            0 <= k < leaves.len() ==> !((#[trigger] leaves[k]) matches LeafModel::Projected {
                name: n,
                ..
            } && n == name)) ==> (r matches Err(e) && e@.kind == ProviderErrorKind::NotFound),
{
    if field_at(leaves, name, i) {
        lemma_field_index(leaves, name, 0, i);
    }
    if forall|k: int|
        0 <= k < leaves.len() ==> !((#[trigger] leaves[k]) matches LeafModel::Projected {
            name: n,
            ..
        } && n == name) {
        lemma_no_field(leaves, name, 0);
    }
}

/// The preload of a leaf holds the same bytes as a read of that leaf from the
/// same value, for a projection that gives one content for one value.
pub proof fn law_preload_agrees_with_the_read<
    K: Key,
    W,
    P: Fn(&K::Object) -> Result<FileContent>,
    R,
    H,
>(
    route: RouteModel<W, P, R, H>,
    key: K,
    list_path: Seq<char>,
    value: K::Object,
    canonical: Canonical,
    effects: Effects,
    i: int,
    staged: EffectsModel,
    outcome: ReadOutcome,
)
    requires
        list_path.len() > 0,
        list_path[0] == '/',
        object_route::list_finished(
            route,
            key,
            list_path,
            Load::Fresh { value, canonical },
            Ok(effects),
        ),
        field_at(route.leaves, route.leaves[i]->Projected_name, i),
        !route.leaves[i]->Projected_lazy,
        object_route::field_served(
            route.leaves,
            value,
            route.leaves[i]->Projected_name,
            staged,
            Ok(outcome),
        ),
        forall|a: Result<FileContent>, b: Result<FileContent>|
            #![trigger call_ensures(route.leaves[i]->Projected_project, (&value,), a), call_ensures(
                route.leaves[i]->Projected_project,
                (&value,),
                b,
            )]
            call_ensures(route.leaves[i]->Projected_project, (&value,), a) && call_ensures(
                route.leaves[i]->Projected_project,
                (&value,),
                b,
            ) ==> a == b,
    ensures
        outcome@ matches OutcomeModel::Found(answer) && answer.bytes matches SourceModel::Inline(
            bytes,
        ) && exists|w: int|
            0 <= w < effects@.fs.len() && carries(
                #[trigger] effects@.fs[w],
                object_route::anchor(key),
                list_path + "/"@ + route.leaves[i]->Projected_name,
                bytes,
                answer.attrs.stability,
            ),
{
    let leaf = route.leaves[i];
    law_eager_leaf_is_preloaded_with_its_bytes(
        route,
        key,
        list_path,
        value,
        canonical,
        effects,
        i,
    );
    law_field_reads_its_projection(
        route.leaves,
        value,
        leaf->Projected_name,
        staged,
        Ok(outcome),
        i,
    );
    let (content, w) = choose|content: FileContent, w: int| #[trigger]
        preload_staged(
            leaf->Projected_project,
            value,
            effects@.fs,
            object_route::anchor(key),
            list_path + "/"@ + leaf->Projected_name,
            leaf->Projected_stability,
            content,
            w,
        );
    assert(call_ensures(
        leaf->Projected_project,
        (&value,),
        Ok::<FileContent, ProviderError>(content),
    ));
    assert(carries(
        effects@.fs[w],
        object_route::anchor(key),
        list_path + "/"@ + leaf->Projected_name,
        content@.bytes->Inline_0,
        leaf->Projected_stability,
    ));
}

/// The first render of that type.
pub open spec fn render_at<R>(renders: Seq<(ContentType, R)>, ct: ContentModel, i: int) -> bool {
    &&& 0 <= i < renders.len()
    &&& renders[i].0@ == ct
    &&& forall|k: int| 0 <= k < i ==> (#[trigger] renders[k]).0@ != ct
}

proof fn lemma_render_index<R>(
    renders: Seq<(ContentType, R)>,
    ct: ContentModel,
    from: int,
    i: int,
)
    requires
        render_at(renders, ct, i),
        0 <= from <= i,
    ensures
        repr::render_index(renders, ct, from) == Some(i),
    decreases i - from,
{
    if from < i {
        assert(renders[from].0@ != ct);
        lemma_render_index(renders, ct, from + 1, i);
    }
}

proof fn lemma_no_render<R>(renders: Seq<(ContentType, R)>, ct: ContentModel, from: int)
    requires
        0 <= from <= renders.len(),
        forall|k: int| 0 <= k < renders.len() ==> (#[trigger] renders[k]).0@ != ct,
    ensures
        repr::render_index(renders, ct, from) is None,
    decreases renders.len() - from,
{
    if from < renders.len() {
        assert(renders[from].0@ != ct);
        lemma_no_render(renders, ct, from + 1);
    }
}

/// A render table answers the source type with the canonical bytes as they
/// are, a registered type with what its render makes of them, and any other
/// type as not found.
pub proof fn law_table_serves_by_type<R: Fn(&[u8]) -> Result<Vec<u8>>>(
    table: TableModel<R>,
    ct: ContentModel,
    canonical: &[u8],
    r: Result<Vec<u8>>,
    i: int,
)
    requires
        repr::served(table, ct, canonical, r),
    ensures
        ct == table.source ==> (r matches Ok(bytes) && bytes@ == canonical@),
        ct != table.source && render_at(table.renders, ct, i) ==> call_ensures(
            table.renders[i].1,
            (canonical,),
            r,
        ),
        ct != table.source && (forall|k: int|
            0 <= k < table.renders.len() ==> (#[trigger] table.renders[k]).0@ != ct) ==> (
        r matches Err(e) && e@.kind == ProviderErrorKind::NotFound),
{
    if ct != table.source {
        if render_at(table.renders, ct, i) {
            lemma_render_index(table.renders, ct, 0, i);
        }
        if forall|k: int|
            0 <= k < table.renders.len() ==> (#[trigger] table.renders[k]).0@ != ct {
            lemma_no_render(table.renders, ct, 0);
        }
    }
}

/// A representation is read from the canonical bytes, cold or warm: the source
/// type refers the host to the canonical itself, a render hands over what it
/// makes of the canonical bytes under its own type, and any other type is not
/// found.
pub proof fn law_representation_reads_the_canonical<
    O: Object,
    P: Fn(&O) -> Result<FileContent>,
    R: Fn(&[u8]) -> Result<Vec<u8>>,
    H,
>(
    leaves: Seq<LeafModel<P, H>>,
    table: TableModel<R>,
    ct: ContentModel,
    bytes: &[u8],
    effects: EffectsModel,
    r: Result<ReadOutcome>,
    i: int,
)
    requires
        object_route::canonical_served::<O, P, R, H>(
            leaves,
            table,
            TargetModel::Representation(ct),
            bytes,
            effects,
            r,
        ),
    ensures
        ct == table.source ==> (r matches Ok(outcome) && outcome@ matches OutcomeModel::Found(
            answer,
        ) && answer.bytes == SourceModel::Canonical && answer.effects == effects),
        ct != table.source && render_at(table.renders, ct, i) ==> exists|made: Result<Vec<u8>>|
            #![trigger call_ensures(table.renders[i].1, (bytes,), made)]
            call_ensures(table.renders[i].1, (bytes,), made) && match made {
                Err(e) => r matches Err(f) && f@ == e@,
                Ok(body) => r matches Ok(outcome) && outcome@ matches OutcomeModel::Found(answer)
                    && answer.bytes == SourceModel::Inline(body@) && answer.content_type == Some(ct)
                    && answer.attrs.size == Size::Exact(body@.len() as u64) && answer.effects
                    == effects,
            },
        ct != table.source && (forall|k: int|
            0 <= k < table.renders.len() ==> (#[trigger] table.renders[k]).0@ != ct) ==> (
        r matches Err(e) && e@.kind == ProviderErrorKind::NotFound),
{
    browse::law_effects_extend(effects, effects, effects);
    if ct != table.source {
        let made = choose|made: Result<Vec<u8>>|
            #![trigger repr::served(table, ct, bytes, made)]
            repr::served(table, ct, bytes, made) && match made {
                Err(e) => r matches Err(e2) && e2@ == e@,
                Ok(body) => r matches Ok(outcome) && outcome@ == OutcomeModel::Found(
                    AnswerModel {
                        content_type: Some(ct),
                        effects: browse::no_effects().then_also(effects),
                        ..browse::inline_answer(body@)
                    },
                ),
            };
        law_table_serves_by_type(table, ct, bytes, made, i);
    }
}

/// A read begins with the key's gate. A closed gate answers not found without
/// a load. An open one renders a canonical that the host pushed for this very
/// object; any other push, or none, leads to a load that is told the pushed
/// validator.
pub proof fn law_read_loads_only_what_was_not_pushed<
    K: Key,
    W: Fn(&K) -> bool,
    P: Fn(&K::Object) -> Result<FileContent>,
    R: Fn(&[u8]) -> Result<Vec<u8>>,
    H,
>(
    route: RouteModel<W, P, R, H>,
    key: K,
    target: TargetModel,
    cached: Option<CachedCanonical>,
    step: Result<ReadStep<K>>,
)
    requires
        object_route::read_begun(route, key, target, cached, step),
    ensures
        route.when matches Some(pred) && !call_ensures(pred, (&key,), true) ==> (
        step matches Ok(ReadStep::Done(outcome)) && outcome@ == OutcomeModel::NotFound(None)),
        (route.when matches Some(pred) ==> !call_ensures(pred, (&key,), false)) ==> {
            let pushed = cached matches Some(push) && push.id@ == object_route::anchor(key);
            &&& (step matches Ok(ReadStep::Load { .. })) == !pushed
            &&& step matches Ok(ReadStep::Load { key: asked, since }) ==> asked == key && since == (
            match cached {
                Some(push) => push.validator,
                None => None,
            })
        },
{
}

/// A load that established that the object is gone makes its read not found,
/// keyed to the object. A load without change is served from the canonical
/// that the host pushed, and it is an error where the host pushed none.
pub proof fn law_read_without_a_fresh_load<
    K: Key,
    W,
    P: Fn(&K::Object) -> Result<FileContent>,
    R: Fn(&[u8]) -> Result<Vec<u8>>,
    H,
>(
    route: RouteModel<W, P, R, H>,
    key: K,
    ct: ContentModel,
    cached: Option<CachedCanonical>,
    read_path: Seq<char>,
    load: Load<K::Object>,
    r: Result<ReadOutcome>,
)
    requires
        object_route::read_finished(
            route,
            key,
            TargetModel::Representation(ct),
            cached,
            read_path,
            load,
            r,
        ),
    ensures
        load is NotFound ==> (r matches Ok(outcome) && outcome@ == OutcomeModel::NotFound(
            Some(object_route::anchor(key)),
        )),
        load is Unchanged && cached is None ==> (r matches Err(e) && e@.kind
            == ProviderErrorKind::Internal),
        load is Unchanged && cached is Some && ct == route.table.source ==> (r matches Ok(outcome)
            && outcome@ matches OutcomeModel::Found(answer) && answer.bytes
            == SourceModel::Canonical && answer.effects == browse::no_effects()),
{
    browse::law_effects_extend(
        browse::no_effects(),
        browse::no_effects(),
        browse::no_effects(),
    );
}

/// A field of an object that was loaded fresh is read from the loaded value,
/// and the read stores the verbatim canonical bytes with their validator under
/// the object's identity, to be found from the path that was read and from its
/// aliases.
pub proof fn law_fresh_field_reads_the_loaded_value<
    K: Key,
    W,
    P: Fn(&K::Object) -> Result<FileContent>,
    R: Fn(&[u8]) -> Result<Vec<u8>>,
    H,
>(
    route: RouteModel<W, P, R, H>,
    key: K,
    name: Seq<char>,
    cached: Option<CachedCanonical>,
    read_path: Seq<char>,
    value: K::Object,
    canonical: Canonical,
    outcome: ReadOutcome,
    i: int,
)
    requires
        object_route::read_finished(
            route,
            key,
            TargetModel::Projected(name),
            cached,
            read_path,
            Load::Fresh { value, canonical },
            Ok(outcome),
        ),
        field_at(route.leaves, name, i),
    ensures
        exists|content: FileContent|
            #![trigger call_ensures(
                route.leaves[i]->Projected_project,
                (&value,),
                Ok::<FileContent, ProviderError>(content),
            )]
            call_ensures(
                route.leaves[i]->Projected_project,
                (&value,),
                Ok::<FileContent, ProviderError>(content),
            ) && (outcome@ matches OutcomeModel::Found(answer) && {
                &&& answer.bytes == content@.bytes
                &&& answer.effects.canonical.len() == content@.effects.canonical.len() + 1
                &&& answer.effects.canonical.last().id == object_route::anchor(key)
                &&& answer.effects.canonical.last().bytes == canonical.bytes@
                &&& facets::expanded(route.axes, read_path, route.axes.len()) == Ok::<
                    Seq<Seq<char>>,
                    Failure,
                >(answer.effects.canonical.last().view_leaves)
                &&& match canonical.validator {
                    Some(token) => answer.effects.canonical.last().validator == Some(token.0@),
                    None => answer.effects.canonical.last().validator is None,
                }
            }),
{
    let views = facets::expanded(route.axes, read_path, route.axes.len())->Ok_0;
    let effects = object_route::stored(object_route::anchor(key), canonical, views);
    law_field_reads_its_projection(route.leaves, value, name, effects, Ok(outcome), i);
    let given = choose|given: Result<FileContent>|
        #![trigger call_ensures(route.leaves[i]->Projected_project, (&value,), given)]
        call_ensures(route.leaves[i]->Projected_project, (&value,), given) && match given {
            Err(e) => false,
            Ok(content) => outcome@ matches OutcomeModel::Found(answer) && answer.bytes
                == content@.bytes && answer.effects == content@.effects.then_also(effects),
        };
    let content = given->Ok_0;
    assert(call_ensures(
        route.leaves[i]->Projected_project,
        (&value,),
        Ok::<FileContent, ProviderError>(content),
    ));
}

/// A warm read of a field goes through the canonical: bytes that do not parse
/// fail it as the parse does, and else it is the projection of a value that
/// the bytes stand for, with nothing staged but what the projection staged.
pub proof fn law_warm_field_reads_the_parsed_canonical<
    O: Object,
    P: Fn(&O) -> Result<FileContent>,
    R: Fn(&[u8]) -> Result<Vec<u8>>,
    H,
>(
    leaves: Seq<LeafModel<P, H>>,
    table: TableModel<R>,
    name: Seq<char>,
    bytes: &[u8],
    r: Result<ReadOutcome>,
    i: int,
)
    requires
        object_route::canonical_served::<O, P, R, H>(
            leaves,
            table,
            TargetModel::Projected(name),
            bytes,
            browse::no_effects(),
            r,
        ),
        field_at(leaves, name, i),
    ensures
        O::parse_failure(bytes@) matches Some(f) ==> (r matches Err(e) && e@ == f),
        O::parse_failure(bytes@) is None ==> exists|value: O, given: Result<FileContent>|
            #![trigger O::parsed(bytes@, value), call_ensures(
                leaves[i]->Projected_project,
                (&value,),
                given,
            )]
            O::parsed(bytes@, value) && call_ensures(
                leaves[i]->Projected_project,
                (&value,),
                given,
            ) && match given {
                Err(e) => r matches Err(f) && f@ == e@,
                Ok(content) => r matches Ok(outcome) && outcome@ matches OutcomeModel::Found(
                    answer,
                ) && answer.bytes == content@.bytes && answer.effects == content@.effects,
            },
{
    if O::parse_failure(bytes@) is None {
        let value = choose|value: O|
            #![trigger O::parsed(bytes@, value)]
            O::parsed(bytes@, value) && object_route::field_served(
                leaves,
                value,
                name,
                browse::no_effects(),
                r,
            );
        law_field_reads_its_projection(leaves, value, name, browse::no_effects(), r, i);
        let given = choose|given: Result<FileContent>|
            #![trigger call_ensures(leaves[i]->Projected_project, (&value,), given)]
            call_ensures(leaves[i]->Projected_project, (&value,), given) && match given {
                Err(e) => r matches Err(f) && f@ == e@,
                Ok(content) => r matches Ok(outcome) && outcome@ matches OutcomeModel::Found(
                    answer,
                ) && answer.bytes == content@.bytes && answer.effects
                    == content@.effects.then_also(browse::no_effects()),
            };
        if let Ok(content) = given {
            browse::law_effects_extend(content@.effects, content@.effects, content@.effects);
        }
        assert(O::parsed(bytes@, value));
    }
}

/// Two keys of one type stand for one object exactly when they have the same
/// identity, and the objects of two kinds are never one.
pub proof fn law_identity_is_kind_and_key<K: Key, L: Key>(a: K, b: K, c: L)
    ensures
        (object_route::anchor(a) == object_route::anchor(b)) == (a.identity() == b.identity()),
        <K::Object as Object>::kind_text() != <L::Object as Object>::kind_text()
            ==> object_route::anchor(a) != object_route::anchor(c),
{
}

/// The representations of an object have exactly these leaves: `stem.ext` of
/// its canonical source and of each of its renders, each of its own type.
pub proof fn law_every_representation_has_its_leaf<P, H>(
    stem: Seq<char>,
    source: ContentModel,
    renders: Seq<ContentModel>,
    stability: Stability,
    leaf: LeafModel<P, H>,
)
    ensures
        object::representation_leaves::<P, H>(stem, source, renders, stability).contains(leaf)
            <==> (leaf matches LeafModel::Representation { name, ct, stability: s } && s
            == stability && name == stem + "."@ + ct.leaf_extension() && (ct == source
            || renders.contains(ct))),
{
    let leaves = object::representation_leaves::<P, H>(stem, source, renders, stability);
    let cts = renders.push(source);
    if leaves.contains(leaf) {
        let i = choose|i: int| 0 <= i < leaves.len() && leaves[i] == leaf;
        if i < renders.len() {
            assert(cts[i] == renders[i]);
            assert(renders.contains(renders[i]));
        }
    }
    if let LeafModel::Representation { name, ct, stability: s } = leaf {
        if s == stability && name == stem + "."@ + ct.leaf_extension() {
            if ct == source {
                assert(cts[renders.len() as int] == source);
                assert(leaves[renders.len() as int] == leaf);
            } else if renders.contains(ct) {
                let i = choose|i: int| 0 <= i < renders.len() && renders[i] == ct;
                assert(cts[i] == ct);
                assert(leaves[i] == leaf);
            }
        }
    }
}

/// With facets, the canonical that an anchor listing stores is found from
/// every alias of every representation and field below the anchor.
pub proof fn law_anchor_listing_covers_every_alias<P, H>(
    leaves: Seq<LeafModel<P, H>>,
    axes: Seq<PlacedAxis>,
    list_path: Seq<char>,
    i: int,
    alias: Seq<char>,
)
    requires
        object_route::views_below(leaves, axes, list_path, leaves.len()) is Ok,
        0 <= i < leaves.len(),
        match leaves[i] {
            LeafModel::Representation { name, .. } => facets::expanded(
                axes,
                list_path + "/"@ + name,
                axes.len(),
            ) matches Ok(more) && more.contains(alias),
            LeafModel::Projected { name, .. } => facets::expanded(
                axes,
                list_path + "/"@ + name,
                axes.len(),
            ) matches Ok(more) && more.contains(alias),
            _ => false,
        },
    ensures
        object_route::views_below(leaves, axes, list_path, leaves.len())->Ok_0.contains(alias),
{
    lemma_views_alias(leaves, axes, list_path, leaves.len(), i, alias);
}

proof fn lemma_views_alias<P, H>(
    leaves: Seq<LeafModel<P, H>>,
    axes: Seq<PlacedAxis>,
    list_path: Seq<char>,
    n: nat,
    i: int,
    alias: Seq<char>,
)
    requires
        0 <= i < n <= leaves.len(),
        object_route::views_below(leaves, axes, list_path, n) is Ok,
        mount::canonical_leaf(leaves[i]) matches Some(name) && (facets::expanded(
            axes,
            list_path + "/"@ + name,
            axes.len(),
        ) matches Ok(more) && more.contains(alias)),
    ensures
        object_route::views_below(leaves, axes, list_path, n)->Ok_0.contains(alias),
    decreases n,
{
    let last = n - 1;
    let head = object_route::views_below(leaves, axes, list_path, last as nat)->Ok_0;
    let all = object_route::views_below(leaves, axes, list_path, n)->Ok_0;
    if i < last {
        lemma_views_alias(leaves, axes, list_path, last as nat, i, alias);
        let k = choose|k: int| 0 <= k < head.len() && head[k] == alias;
        assert(all[k] == alias);
    } else {
        let name = mount::canonical_leaf(leaves[i])->0;
        let more = facets::expanded(
            axes,
            list_path + "/"@ + name,
            axes.len(),
        )->Ok_0;
        let k = choose|k: int| 0 <= k < more.len() && more[k] == alias;
        assert(all == head + more);
        assert(all[head.len() + k] == alias);
    }
}

/// A read answers with what a render makes of these bytes, under the render's
/// type, or fails as the render does.
pub open spec fn renders_from<R: Fn(&[u8]) -> Result<Vec<u8>>>(
    render: R,
    source: Seq<u8>,
    ct: ContentModel,
    r: Result<ReadOutcome>,
) -> bool {
    exists|bytes: &[u8], made: Result<Vec<u8>>|
        #![trigger call_ensures(render, (bytes,), made)]
        bytes@ == source && call_ensures(render, (bytes,), made) && match made {
            Err(e) => r matches Err(f) && f@ == e@,
            Ok(body) => r matches Ok(outcome) && outcome@ matches OutcomeModel::Found(answer)
                && answer.bytes == SourceModel::Inline(body@) && answer.content_type == Some(ct),
        }
}

/// A read answers with what a projection gives for a value that these bytes
/// stand for, or fails as the parse or the projection does.
pub open spec fn projects_from<O: Object, P: Fn(&O) -> Result<FileContent>>(
    project: P,
    source: Seq<u8>,
    r: Result<ReadOutcome>,
) -> bool {
    match O::parse_failure(source) {
        Some(f) => r matches Err(e) && e@ == f,
        None => exists|value: O, given: Result<FileContent>|
            #![trigger O::parsed(source, value), call_ensures(project, (&value,), given)]
            O::parsed(source, value) && call_ensures(project, (&value,), given) && match given {
                Err(e) => r matches Err(f) && f@ == e@,
                Ok(content) => r matches Ok(outcome) && outcome@ matches OutcomeModel::Found(
                    answer,
                ) && answer.bytes == content@.bytes,
            },
    }
}

proof fn lemma_renders_from<
    O: Object,
    P: Fn(&O) -> Result<FileContent>,
    R: Fn(&[u8]) -> Result<Vec<u8>>,
    H,
>(
    leaves: Seq<LeafModel<P, H>>,
    table: TableModel<R>,
    ct: ContentModel,
    bytes: &[u8],
    effects: EffectsModel,
    r: Result<ReadOutcome>,
    i: int,
)
    requires
        object_route::canonical_served::<O, P, R, H>(
            leaves,
            table,
            TargetModel::Representation(ct),
            bytes,
            effects,
            r,
        ),
        ct != table.source,
        render_at(table.renders, ct, i),
    ensures
        renders_from(table.renders[i].1, bytes@, ct, r),
{
    law_representation_reads_the_canonical::<O, P, R, H>(leaves, table, ct, bytes, effects, r, i);
    let made = choose|made: Result<Vec<u8>>|
        #![trigger call_ensures(table.renders[i].1, (bytes,), made)]
        call_ensures(table.renders[i].1, (bytes,), made) && match made {
            Err(e) => r matches Err(f) && f@ == e@,
            Ok(body) => r matches Ok(outcome) && outcome@ matches OutcomeModel::Found(answer)
                && answer.bytes == SourceModel::Inline(body@) && answer.content_type == Some(ct),
        };
    assert(call_ensures(table.renders[i].1, (bytes,), made));
}

proof fn lemma_projects_from<
    O: Object,
    P: Fn(&O) -> Result<FileContent>,
    R: Fn(&[u8]) -> Result<Vec<u8>>,
    H,
>(
    leaves: Seq<LeafModel<P, H>>,
    table: TableModel<R>,
    name: Seq<char>,
    bytes: &[u8],
    r: Result<ReadOutcome>,
    i: int,
)
    requires
        object_route::canonical_served::<O, P, R, H>(
            leaves,
            table,
            TargetModel::Projected(name),
            bytes,
            browse::no_effects(),
            r,
        ),
        field_at(leaves, name, i),
    ensures
        projects_from::<O, P>(leaves[i]->Projected_project, bytes@, r),
{
    law_warm_field_reads_the_parsed_canonical::<O, P, R, H>(leaves, table, name, bytes, r, i);
    if O::parse_failure(bytes@) is None {
        let (value, given) = choose|value: O, given: Result<FileContent>|
            #![trigger O::parsed(bytes@, value), call_ensures(
                leaves[i]->Projected_project,
                (&value,),
                given,
            )]
            O::parsed(bytes@, value) && call_ensures(
                leaves[i]->Projected_project,
                (&value,),
                given,
            ) && match given {
                Err(e) => r matches Err(f) && f@ == e@,
                Ok(content) => r matches Ok(outcome) && outcome@ matches OutcomeModel::Found(
                    answer,
                ) && answer.bytes == content@.bytes && answer.effects == content@.effects,
            };
        assert(O::parsed(bytes@, value));
        assert(call_ensures(leaves[i]->Projected_project, (&value,), given));
    }
}

/// A representation of an object that was loaded fresh is rendered from the
/// canonical bytes that the load brought.
pub proof fn law_fresh_render_reads_the_loaded_canonical<
    K: Key,
    W,
    P: Fn(&K::Object) -> Result<FileContent>,
    R: Fn(&[u8]) -> Result<Vec<u8>>,
    H,
>(
    route: RouteModel<W, P, R, H>,
    key: K,
    ct: ContentModel,
    cached: Option<CachedCanonical>,
    read_path: Seq<char>,
    value: K::Object,
    canonical: Canonical,
    r: Result<ReadOutcome>,
    i: int,
)
    requires
        object_route::read_finished(
            route,
            key,
            TargetModel::Representation(ct),
            cached,
            read_path,
            Load::Fresh { value, canonical },
            r,
        ),
        facets::expanded(route.axes, read_path, route.axes.len()) is Ok,
        ct != route.table.source,
        render_at(route.table.renders, ct, i),
    ensures
        renders_from(route.table.renders[i].1, canonical.bytes@, ct, r),
{
    let views = facets::expanded(route.axes, read_path, route.axes.len())->Ok_0;
    let effects = object_route::stored(object_route::anchor(key), canonical, views);
    let target = TargetModel::Representation(ct);
    let bytes = choose|bytes: &[u8]|
        #![trigger object_route::fresh_served::<K::Object, P, R, H>(
            route.leaves,
            route.table,
            value,
            target,
            bytes,
            effects,
            r,
        )]
        bytes@ == canonical.bytes@ && object_route::fresh_served::<K::Object, P, R, H>(
            route.leaves,
            route.table,
            value,
            target,
            bytes,
            effects,
            r,
        );
    lemma_renders_from::<K::Object, P, R, H>(
        route.leaves,
        route.table,
        ct,
        bytes,
        effects,
        r,
        i,
    );
}

/// A read after a load without change is served from the canonical bytes that
/// the host pushed: a representation renders them, a field parses them.
pub proof fn law_unchanged_read_uses_the_pushed_canonical<
    K: Key,
    W,
    P: Fn(&K::Object) -> Result<FileContent>,
    R: Fn(&[u8]) -> Result<Vec<u8>>,
    H,
>(
    route: RouteModel<W, P, R, H>,
    key: K,
    target: TargetModel,
    push: CachedCanonical,
    read_path: Seq<char>,
    r: Result<ReadOutcome>,
    i: int,
)
    requires
        object_route::read_finished(
            route,
            key,
            target,
            Some(push),
            read_path,
            Load::Unchanged,
            r,
        ),
    ensures
        target matches TargetModel::Representation(ct) ==> (ct != route.table.source && render_at(
            route.table.renders,
            ct,
            i,
        ) ==> renders_from(route.table.renders[i].1, push.bytes@, ct, r)),
        target matches TargetModel::Projected(name) ==> (field_at(route.leaves, name, i)
            ==> projects_from::<K::Object, P>(
            route.leaves[i]->Projected_project,
            push.bytes@,
            r,
        )),
{
    let bytes = choose|bytes: &[u8]|
        #![trigger object_route::canonical_served::<K::Object, P, R, H>(
            route.leaves,
            route.table,
            target,
            bytes,
            browse::no_effects(),
            r,
        )]
        bytes@ == push.bytes@ && object_route::canonical_served::<K::Object, P, R, H>(
            route.leaves,
            route.table,
            target,
            bytes,
            browse::no_effects(),
            r,
        );
    lemma_served_from::<K, W, P, R, H>(route, target, bytes, r, i);
}

proof fn lemma_served_from<
    K: Key,
    W,
    P: Fn(&K::Object) -> Result<FileContent>,
    R: Fn(&[u8]) -> Result<Vec<u8>>,
    H,
>(
    route: RouteModel<W, P, R, H>,
    target: TargetModel,
    bytes: &[u8],
    r: Result<ReadOutcome>,
    i: int,
)
    requires
        object_route::canonical_served::<K::Object, P, R, H>(
            route.leaves,
            route.table,
            target,
            bytes,
            browse::no_effects(),
            r,
        ),
    ensures
        target matches TargetModel::Representation(ct) ==> (ct != route.table.source && render_at(
            route.table.renders,
            ct,
            i,
        ) ==> renders_from(route.table.renders[i].1, bytes@, ct, r)),
        target matches TargetModel::Projected(name) ==> (field_at(route.leaves, name, i)
            ==> projects_from::<K::Object, P>(route.leaves[i]->Projected_project, bytes@, r)),
{
    match target {
        TargetModel::Representation(ct) => {
            if ct != route.table.source && render_at(route.table.renders, ct, i) {
                lemma_renders_from::<K::Object, P, R, H>(
                    route.leaves,
                    route.table,
                    ct,
                    bytes,
                    browse::no_effects(),
                    r,
                    i,
                );
            }
        },
        TargetModel::Projected(name) => {
            if field_at(route.leaves, name, i) {
                lemma_projects_from::<K::Object, P, R, H>(
                    route.leaves,
                    route.table,
                    name,
                    bytes,
                    r,
                    i,
                );
            }
        },
    }
}

/// A read of an object whose canonical the host pushed is served from those
/// bytes and needs no load: a representation renders them, a field parses
/// them.
pub proof fn law_warm_read_uses_the_pushed_canonical<
    K: Key,
    W: Fn(&K) -> bool,
    P: Fn(&K::Object) -> Result<FileContent>,
    R: Fn(&[u8]) -> Result<Vec<u8>>,
    H,
>(
    route: RouteModel<W, P, R, H>,
    key: K,
    target: TargetModel,
    push: CachedCanonical,
    step: Result<ReadStep<K>>,
    i: int,
)
    requires
        object_route::read_begun(route, key, target, Some(push), step),
        push.id@ == object_route::anchor(key),
        route.when matches Some(pred) ==> !call_ensures(pred, (&key,), false),
    ensures
        exists|r: Result<ReadOutcome>| #[trigger]
            step_answers(step, r) && (target matches TargetModel::Representation(ct) ==> (ct
                != route.table.source && render_at(route.table.renders, ct, i) ==> renders_from(
                route.table.renders[i].1,
                push.bytes@,
                ct,
                r,
            ))) && (target matches TargetModel::Projected(name) ==> (field_at(
                route.leaves,
                name,
                i,
            ) ==> projects_from::<K::Object, P>(
                route.leaves[i]->Projected_project,
                push.bytes@,
                r,
            ))),
{
    let (r, bytes) = choose|r: Result<ReadOutcome>, bytes: &[u8]|
        #![trigger object_route::canonical_served::<K::Object, P, R, H>(
            route.leaves,
            route.table,
            target,
            bytes,
            browse::no_effects(),
            r,
        )]
        bytes@ == push.bytes@ && object_route::canonical_served::<K::Object, P, R, H>(
            route.leaves,
            route.table,
            target,
            bytes,
            browse::no_effects(),
            r,
        ) && step_answers(step, r);
    lemma_served_from::<K, W, P, R, H>(route, target, bytes, r, i);
    assert(step_answers(step, r));
}

/// A step is done with an outcome, or fails as it does.
pub open spec fn step_answers<K>(step: Result<ReadStep<K>>, r: Result<ReadOutcome>) -> bool {
    match r {
        Ok(outcome) => step == Ok::<ReadStep<K>, ProviderError>(
            ReadStep::Done(outcome),
        ),
        Err(e) => step == Err::<ReadStep<K>, ProviderError>(e),
    }
}

} // verus!
