//! What a mounted object declares is what its anchor lists and what dispatch
//! serves below it.

use vstd::prelude::*;

use crate::captures::FromCaptures;
use crate::error::{Failure, ProviderErrorKind, Result};
use crate::handler::Cursor;
use crate::object::{AxisModel, FacetMetadata, Object, ObjectShape};
use crate::path;
use crate::router::dispatch::list;
use crate::router::dispatch::list::ListPlan;
use crate::router::dispatch::read;
use crate::router::dispatch::resolution_laws;
use crate::router::dispatch::route_shape::ReadPlan;
use crate::router::dispatch::static_shape;
use crate::router::facets;
use crate::router::handlers;
use crate::router::mount;
use crate::router::mount::HandlerRow;
use crate::router::object;
use crate::router::object::{BlockModel, LeafModel, SpecModel};
use crate::router::object_route::ObjectRoute;
use crate::router::pattern;
use crate::router::pattern::Shape;
use crate::router::register;
use crate::router::register::{RouterModel, Row};
use crate::text;

verus! {

/// What a leaf is listed as, from its declaration: a representation or a
/// field as a file of its name, a handler leaf of one literal segment as a
/// file or a directory of that name, and a handler leaf of any other pattern
/// not at all.
pub open spec fn declared_listing<P, H>(
    leaf: LeafModel<P, H>,
    name: Seq<char>,
    is_dir: bool,
) -> bool {
    match leaf {
        LeafModel::Representation { name: n, .. } => n == name && !is_dir,
        LeafModel::Projected { name: n, .. } => n == name && !is_dir,
        LeafModel::HandlerFile { suffix, .. } => !is_dir && pattern::template_of("/"@ + suffix)
            == Ok::<Seq<Shape>, Seq<char>>(seq![Shape::Literal(name)]),
        LeafModel::HandlerDir { suffix, .. } => is_dir && pattern::template_of("/"@ + suffix)
            == Ok::<Seq<Shape>, Seq<char>>(seq![Shape::Literal(name)]),
    }
}

proof fn lemma_listing_of<P, H>(leaf: LeafModel<P, H>, name: Seq<char>, is_dir: bool)
    ensures
        (mount::listing_of(leaf) == Some((name, is_dir))) == declared_listing(leaf, name, is_dir),
{
    let suffix = match leaf {
        LeafModel::HandlerFile { suffix, .. } => suffix,
        LeafModel::HandlerDir { suffix, .. } => suffix,
        _ => Seq::empty(),
    };
    if let Ok(shapes) = pattern::template_of("/"@ + suffix) {
        if shapes.len() == 1 && shapes[0] == Shape::Literal(name) {
            assert(shapes =~= seq![Shape::Literal(name)]);
        }
        if shapes == seq![Shape::Literal(name)] {
            assert(shapes[0] == Shape::Literal(name));
            assert(pattern::strict_ancestor(shapes, Seq::empty()));
        }
    }
}

/// The anchor of a mounted object lists exactly its declared leaves, each as
/// what its declaration says.
pub proof fn law_anchor_lists_the_declared_leaves<P, H>(
    leaves: Seq<LeafModel<P, H>>,
    name: Seq<char>,
    is_dir: bool,
)
    ensures
        mount::listings(leaves, leaves.len()).contains((name, is_dir)) == exists|i: int|
            0 <= i < leaves.len() && declared_listing(#[trigger] leaves[i], name, is_dir),
{
    lemma_listings(leaves, leaves.len(), name, is_dir);
}

proof fn lemma_listings<P, H>(
    leaves: Seq<LeafModel<P, H>>,
    n: nat,
    name: Seq<char>,
    is_dir: bool,
)
    requires
        n <= leaves.len(),
    ensures
        mount::listings(leaves, n).contains((name, is_dir)) == exists|i: int|
            0 <= i < n && declared_listing(#[trigger] leaves[i], name, is_dir),
    decreases n,
{
    if n > 0 {
        let last = n - 1;
        let head = mount::listings(leaves, last as nat);
        let all = mount::listings(leaves, n);
        lemma_listings(leaves, last as nat, name, is_dir);
        lemma_listing_of(leaves[last], name, is_dir);
        if head.contains((name, is_dir)) {
            let k = choose|k: int| 0 <= k < head.len() && head[k] == (name, is_dir);
            assert(all[k] == (name, is_dir));
        }
        if let Some(listed) = mount::listing_of(leaves[last]) {
            assert(all[head.len() as int] == listed);
            if all.contains((name, is_dir)) && listed != (name, is_dir) {
                let k = choose|k: int| 0 <= k < all.len() && all[k] == (name, is_dir);
                assert(head[k] == (name, is_dir));
            }
        }
        if exists|i: int| 0 <= i < n && declared_listing(#[trigger] leaves[i], name, is_dir) {
            let i = choose|i: int|
                0 <= i < n && declared_listing(#[trigger] leaves[i], name, is_dir);
            if i < last {
                assert(declared_listing(leaves[i], name, is_dir));
            }
        }
    }
}

/// A handler leaf is routed below the anchor: its route has the shapes of the
/// anchor followed by those of its suffix, and the handler and the validator
/// that it was declared with.
pub proof fn law_handler_leaf_extends_the_anchor<P, H>(
    leaf: LeafModel<P, H>,
    combined: Seq<char>,
    suffix: Seq<char>,
    below: Seq<Shape>,
)
    requires
        pattern::template_of(combined) matches Ok(anchor) && anchor.len() > 0
            && !pattern::has_rest(anchor),
        pattern::template_of("/"@ + suffix) == Ok::<Seq<Shape>, Seq<char>>(below),
        below.len() > 0,
        match leaf {
            LeafModel::HandlerFile { suffix: s, .. } => s == suffix,
            LeafModel::HandlerDir { suffix: s, .. } => s == suffix,
            _ => false,
        },
    ensures
        mount::handler_row(leaf, combined) matches Some(row) && {
            &&& row.shapes == pattern::template_of(combined)->Ok_0 + below
            &&& match leaf {
                LeafModel::HandlerFile { handler, validator, .. } => row.handler == handler
                    && row.validator == validator && !row.is_dir,
                LeafModel::HandlerDir { handler, validator, .. } => row.handler == handler
                    && row.validator == validator && row.is_dir,
                _ => false,
            }
        },
{
    register::law_attach_prefixes_the_pattern(combined, "/"@ + suffix);
    assert(combined + "/"@ + suffix =~= combined + ("/"@ + suffix));
}

proof fn lemma_handler_rows<P, H>(
    leaves: Seq<LeafModel<P, H>>,
    combined: Seq<char>,
    n: nat,
    i: int,
)
    requires
        0 <= i < n <= leaves.len(),
        mount::handler_row(leaves[i], combined) is Some,
    ensures
        mount::handler_rows(leaves, combined, n).contains(
            mount::handler_row(leaves[i], combined)->0,
        ),
    decreases n,
{
    let last = n - 1;
    let row = mount::handler_row(leaves[i], combined)->0;
    let head = mount::handler_rows(leaves, combined, last as nat);
    let all = mount::handler_rows(leaves, combined, n);
    if i < last {
        lemma_handler_rows(leaves, combined, last as nat, i);
        let k = choose|k: int| 0 <= k < head.len() && head[k] == row;
        assert(all[k] == row);
    } else {
        assert(all[head.len() as int] == row);
    }
}

proof fn lemma_row_binds<H: Clone>(
    before: Seq<Row<H>>,
    after: Seq<Row<H>>,
    rows: Seq<HandlerRow<H>>,
    row: HandlerRow<H>,
    is_dir: bool,
    segments: Seq<Seq<char>>,
)
    requires
        register::rows_added(before, after, rows),
        rows.contains(row),
        pattern::path_matches(row.shapes, segments),
        row.validator.full(pattern::captures_of(row.shapes, segments)),
    ensures
        handlers::bound(static_shape::row_facts(after, is_dir), segments),
{
    let k = choose|k: int| 0 <= k < rows.len() && rows[k] == row;
    assert(rows[k] == row);
    let facts = static_shape::row_facts(after, is_dir);
    assert(facts[before.len() + k].binds(segments));
}

proof fn lemma_below_matches(
    anchor: Seq<Shape>,
    name: Seq<char>,
    segments: Seq<Seq<char>>,
)
    requires
        !pattern::has_rest(anchor),
        pattern::path_matches(anchor, segments),
    ensures
        pattern::path_matches(anchor + seq![Shape::Literal(name)], segments.push(name)),
{
    let shapes = anchor + seq![Shape::Literal(name)];
    let child = segments.push(name);
    assert forall|i: int|
        0 <= i < shapes.len() && i < child.len() implies (#[trigger] shapes[i]).matches(
        child[i],
    ) by {
        if i < anchor.len() {
            assert(anchor[i].matches(segments[i]));
        }
    }
}

/// Every directory leaf that the anchor of a mounted object lists can be
/// listed: the listing of its path below the anchor runs a directory handler,
/// wherever no treeref takes the path and the leaf's validator accepts the
/// captures.
pub proof fn law_listed_directory_leaf_can_be_listed<W, P, R, H: Clone, K: FromCaptures>(
    before: RouterModel<H>,
    after: RouterModel<H>,
    spec_model: SpecModel<W, P, R, H>,
    combined: Seq<char>,
    handler: H,
    i: int,
    name: Seq<char>,
    segments: Seq<Seq<char>>,
    path: Seq<char>,
    cursor: Option<Cursor>,
)
    requires
        register::attached::<W, P, R, H, K>(
            before,
            after,
            spec_model,
            ObjectShape::Dir,
            combined,
            handler,
        ),
        pattern::template_of(combined) matches Ok(anchor) && {
            &&& anchor.len() > 0
            &&& !pattern::has_rest(anchor)
            &&& pattern::path_matches(anchor, segments)
        },
        0 <= i < spec_model.leaves.len(),
        declared_listing(spec_model.leaves[i], name, true),
        spec_model.leaves[i] matches LeafModel::HandlerDir { validator, .. } && validator.full(
            pattern::captures_of(
                pattern::template_of(combined)->Ok_0 + seq![Shape::Literal(name)],
                segments.push(name),
            ),
        ),
        path::path_of(path) == Some(segments.push(name)),
        !handlers::bound(static_shape::row_facts(after.treerefs, true), segments.push(name)),
    ensures
        after.objects.last().leaves.contains((name, true)),
        list::list_plan(after, path, cursor) matches Ok(ListPlan::Enumerate { .. }),
{
    broadcast use vstd::seq_lib::group_filter_ensures;

    let anchor = pattern::template_of(combined)->Ok_0;
    let leaf = spec_model.leaves[i];
    let below = seq![Shape::Literal(name)];
    let child = segments.push(name);
    law_anchor_lists_the_declared_leaves(spec_model.leaves, name, true);
    law_handler_leaf_extends_the_anchor(leaf, combined, leaf->HandlerDir_suffix, below);
    let row = mount::handler_row(leaf, combined)->0;
    let n = spec_model.leaves.len();
    let rows = mount::handler_rows(spec_model.leaves, combined, n);
    lemma_handler_rows(spec_model.leaves, combined, n, i);
    let k = choose|k: int| 0 <= k < rows.len() && rows[k] == row;
    let dirs = mount::dir_rows(rows);
    assert(dirs.contains(rows[k]));
    lemma_below_matches(anchor, name, segments);
    lemma_row_binds(before.handler_dirs, after.handler_dirs, dirs, row, true, child);
    resolution_laws::law_every_directory_route_can_be_listed(after, path, child, cursor);
}

/// Every handler file that the anchor of a mounted object lists can be read
/// and opened: its path below the anchor resolves to a file route, wherever
/// the leaf's validator accepts the captures.
pub proof fn law_listed_handler_file_can_be_read<W, P, R, H: Clone, K: FromCaptures>(
    before: RouterModel<H>,
    after: RouterModel<H>,
    spec_model: SpecModel<W, P, R, H>,
    shape: ObjectShape,
    combined: Seq<char>,
    handler: H,
    i: int,
    name: Seq<char>,
    segments: Seq<Seq<char>>,
    path: Seq<char>,
    mime: Seq<char>,
)
    requires
        register::attached::<W, P, R, H, K>(before, after, spec_model, shape, combined, handler),
        pattern::template_of(combined) matches Ok(anchor) && {
            &&& anchor.len() > 0
            &&& !pattern::has_rest(anchor)
            &&& pattern::path_matches(anchor, segments)
        },
        0 <= i < spec_model.leaves.len(),
        declared_listing(spec_model.leaves[i], name, false),
        spec_model.leaves[i] matches LeafModel::HandlerFile { validator, .. } && validator.full(
            pattern::captures_of(
                pattern::template_of(combined)->Ok_0 + seq![Shape::Literal(name)],
                segments.push(name),
            ),
        ),
        path::path_of(path) == Some(segments.push(name)),
    ensures
        after.objects.last().leaves.contains((name, false)),
        read::read_planned(after, path, mime) matches Ok(ReadPlan::File(_)),
        read::open_planned(after, path) is Ok,
{
    broadcast use vstd::seq_lib::group_filter_ensures;

    let anchor = pattern::template_of(combined)->Ok_0;
    let leaf = spec_model.leaves[i];
    let below = seq![Shape::Literal(name)];
    let child = segments.push(name);
    law_anchor_lists_the_declared_leaves(spec_model.leaves, name, false);
    law_handler_leaf_extends_the_anchor(leaf, combined, leaf->HandlerFile_suffix, below);
    let row = mount::handler_row(leaf, combined)->0;
    let n = spec_model.leaves.len();
    let rows = mount::handler_rows(spec_model.leaves, combined, n);
    lemma_handler_rows(spec_model.leaves, combined, n, i);
    let k = choose|k: int| 0 <= k < rows.len() && rows[k] == row;
    let files = mount::file_rows(rows);
    assert(files.contains(rows[k]));
    lemma_below_matches(anchor, name, segments);
    lemma_row_binds(before.handler_files, after.handler_files, files, row, false, child);
    let more = static_shape::row_facts(after.files + after.handler_files, false);
    resolution_laws::lemma_tables_bind(after.files, after.handler_files, false, child);
    handlers::law_fallthrough_finds_a_route(more, child);
    let f = choose|f: int| handlers::wins(more, child, f);
    resolution_laws::law_file_route_reads_first(after, path, child, mime, f);
}

/// What a mount claims, so that sealing sees every conflict: the anchor
/// itself, the path of every representation and field below it, and the
/// route of every handler leaf.
pub proof fn law_mount_claims_every_leaf<W, P, R, H>(
    spec_model: SpecModel<W, P, R, H>,
    combined: Seq<char>,
    i: int,
    name: Seq<char>,
)
    requires
        pattern::template_of(combined) matches Ok(anchor) && anchor.len() > 0
            && !pattern::has_rest(anchor),
        mount::canonical_claims(spec_model.leaves, combined, spec_model.leaves.len()) is Ok,
        0 <= i < spec_model.leaves.len(),
        pattern::template_of("/"@ + name) == Ok::<Seq<Shape>, Seq<char>>(
            seq![Shape::Literal(name)],
        ),
        match spec_model.leaves[i] {
            LeafModel::Representation { name: n, .. } => n == name,
            LeafModel::Projected { name: n, .. } => n == name,
            LeafModel::HandlerFile { suffix, .. } => suffix == name,
            LeafModel::HandlerDir { suffix, .. } => suffix == name,
        },
    ensures
        ({
            let anchor = pattern::template_of(combined)->Ok_0;
            let claims = mount::mount_claims(spec_model, anchor, combined);
            &&& claims.contains(anchor)
            &&& claims.contains(anchor + seq![Shape::Literal(name)])
        }),
{
    let anchor = pattern::template_of(combined)->Ok_0;
    let below = anchor + seq![Shape::Literal(name)];
    let n = spec_model.leaves.len();
    let canonical = mount::canonical_claims(spec_model.leaves, combined, n)->Ok_0;
    let rows = mount::handler_rows(spec_model.leaves, combined, n);
    let claims = mount::mount_claims(spec_model, anchor, combined);
    assert(claims[canonical.len() as int] == anchor);
    match spec_model.leaves[i] {
        LeafModel::HandlerFile { .. } | LeafModel::HandlerDir { .. } => {
            law_handler_leaf_extends_the_anchor(
                spec_model.leaves[i],
                combined,
                name,
                seq![Shape::Literal(name)],
            );
            lemma_handler_rows(spec_model.leaves, combined, n, i);
            let row = mount::handler_row(spec_model.leaves[i], combined)->0;
            let k = choose|k: int| 0 <= k < rows.len() && rows[k] == row;
            assert(claims[canonical.len() + 1 + k] == below);
        },
        _ => {
            register::law_attach_prefixes_the_pattern(combined, "/"@ + name);
            lemma_no_end_slash(combined);
            assert(object::child_template(combined, name) =~= combined + ("/"@ + name));
            lemma_canonical_claims(spec_model.leaves, combined, n, i, name, below);
            let k = choose|k: int| 0 <= k < canonical.len() && canonical[k] == below;
            assert(claims[k] == below);
        },
    }
}

proof fn lemma_no_end_slash(template: Seq<char>)
    requires
        pattern::template_of(template) matches Ok(shapes) && shapes.len() > 0,
    ensures
        text::without_end_slashes(template) == template,
{
    if template == "/"@ {
        assert(pattern::template_of(template)->Ok_0.len() == 0);
    }
    assert(template.last() != '/');
}

proof fn lemma_canonical_claims<P, H>(
    leaves: Seq<LeafModel<P, H>>,
    combined: Seq<char>,
    n: nat,
    i: int,
    name: Seq<char>,
    shapes: Seq<Shape>,
)
    requires
        0 <= i < n <= leaves.len(),
        mount::canonical_claims(leaves, combined, n) is Ok,
        mount::canonical_leaf(leaves[i]) == Some(name),
        pattern::template_of(object::child_template(combined, name)) == Ok::<
            Seq<Shape>,
            Seq<char>,
        >(shapes),
    ensures
        mount::canonical_claims(leaves, combined, n)->Ok_0.contains(shapes),
    decreases n,
{
    let last = n - 1;
    let head = mount::canonical_claims(leaves, combined, last as nat)->Ok_0;
    let all = mount::canonical_claims(leaves, combined, n)->Ok_0;
    if i < last {
        lemma_canonical_claims(leaves, combined, last as nat, i, name, shapes);
        let k = choose|k: int| 0 <= k < head.len() && head[k] == shapes;
        assert(all[k] == shapes);
    } else {
        assert(all[head.len() as int] == shapes);
    }
}

/// The facets of a key are placed in order, each with its own choices and at
/// the capture of its name; a facet whose capture the route does not have is
/// rejected as invalid input.
pub proof fn law_facets_are_placed_by_name(
    shapes: Seq<Shape>,
    axes: Seq<AxisModel>,
    n: nat,
)
    requires
        n <= axes.len(),
    ensures
        match facets::placed(shapes, axes, n) {
            Ok(placed) => placed.len() == n && forall|i: int|
                0 <= i < n ==> (#[trigger] placed[i]).choices == axes[i].choices
                    && pattern::place_of(shapes, axes[i].name) == Some(placed[i].place),
            Err(f) => f.kind == ProviderErrorKind::InvalidInput && exists|i: int|
                0 <= i < n && pattern::place_of(shapes, (#[trigger] axes[i]).name) is None,
        },
    decreases n,
{
    if n > 0 {
        law_facets_are_placed_by_name(shapes, axes, (n - 1) as nat);
        assert(axes[n - 1] == axes[n - 1]);
    }
}

/// A registration keeps an absolute template as it is; trailing slashes of the
/// prefix that it is put under do not count.
pub proof fn law_registration_template(prefix: Seq<char>, template: Seq<char>)
    requires
        template.len() > 0,
        template[0] == '/',
    ensures
        register::combined_template(""@, template) == Ok::<Seq<char>, Failure>(template),
        register::combined_template("/"@, template) == Ok::<Seq<char>, Failure>(template),
        register::combined_template(prefix + "/"@, template) == register::combined_template(
            prefix,
            template,
        ),
        prefix.len() > 0 && prefix.last() != '/' ==> register::combined_template(prefix, template)
            == Ok::<Seq<char>, Failure>(prefix + template),
{
    reveal_strlit("");
    reveal_strlit("/");
    assert((prefix + "/"@).last() == '/');
    assert((prefix + "/"@).drop_last() =~= prefix);
    assert("/"@.last() == '/');
    assert("/"@.drop_last() =~= Seq::<char>::empty());
    assert(text::without_end_slashes(Seq::<char>::empty()) == Seq::<char>::empty());
    assert(text::without_end_slashes("/"@) == text::without_end_slashes(
        "/"@.drop_last(),
    ));
}

/// A block that declares its representations mounts its object with them: the
/// source leaf has the stem that was declared and the extension of the
/// object's canonical type. A block without representations is rejected as
/// invalid input and mounts nothing.
pub proof fn law_block_mounts_its_representations<
    O: Object,
    W,
    P,
    R,
    H: Clone,
    K: FromCaptures + FacetMetadata,
>(
    before: RouterModel<H>,
    after: RouterModel<H>,
    block: BlockModel<W, P, R, H>,
    shape: ObjectShape,
    handler: H,
    r: Result<ObjectRoute<W, P, R, H>>,
)
    requires
        register::block_attached::<O, W, P, R, H, K>(before, after, block, shape, handler, r),
    ensures
        block.table is None || block.stem is None ==> (r matches Err(e) && e@.kind
            == ProviderErrorKind::InvalidInput) && after == before,
        r is Err ==> after == before,
        r is Ok ==> {
            let row = after.objects.last();
            &&& row.stem == block.stem->0
            &&& row.ext == O::source_model().leaf_extension()
            &&& row.source == block.table->0.source
            &&& row.renders.len() == block.table->0.renders.len()
            &&& forall|i: int|
                0 <= i < row.renders.len() ==> #[trigger] row.renders[i]
                    == block.table->0.renders[i].0@
            &&& row.shape == shape
            &&& row.handler == handler
            &&& pattern::template_of(block.template) == Ok::<Seq<Shape>, Seq<char>>(row.shapes)
        },
{
    reveal_strlit("");
    reveal_strlit("/");
    if r is Ok {
        let template = block.template;
        law_registration_template(Seq::<char>::empty(), template);
        assert(""@ =~= Seq::<char>::empty());
    }
}

} // verus!
