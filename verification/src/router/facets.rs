//! View-leaf expansion across facets.
//!
//! A facet is an identity-neutral capture with a finite choice set. Facets
//! multiply the paths that are views of one object: loading
//! `/issues/open/7/title` also teaches the host `/issues/closed/7/title` and
//! `/issues/all/7/title`.

use vstd::prelude::*;
use vstd::string::*;

use crate::captures;
use crate::error;
use crate::error::{Failure, ProviderError, ProviderErrorKind, Result};
use crate::object;
use crate::object::{AxisModel, FacetAxis, FacetMetadata};
use crate::path;
use crate::router::pattern;
use crate::router::pattern::{CaptureLocation, Pattern, Place, Shape};
use crate::router::pattern_laws;
use crate::text;

verus! {

/// A facet dimension resolved to a place in the route template.
pub struct PlacedAxis {
    pub place: Place,
    pub choices: Seq<Seq<char>>,
}

/// The position of a template segment among the pieces of a written path.
pub open spec fn piece_index(place: Place, path: Seq<char>) -> int {
    place.index + (if path.len() > 0 && path[0] == '/' {
        1int
    } else {
        0int
    })
}

/// A path with one choice put in a facet's place.
pub open spec fn substituted(place: Place, path: Seq<char>, choice: Seq<char>) -> core::result::Result<
    Seq<char>,
    Failure,
> {
    let pieces = text::split_at(path, '/');
    let at = piece_index(place, path);
    if at < pieces.len() {
        Ok(text::joined(pieces.update(at, pattern::render_value(place.prefix, choice)), "/"@))
    } else {
        Err(
            error::failure(
                ProviderErrorKind::Internal,
                "path "@ + text::quoted(path) + " is missing facet segment at index "@
                    + text::decimal(place.index),
            ),
        )
    }
}

/// A path with each of the first `n` choices put in the facet's place.
pub open spec fn with_choices(axis: PlacedAxis, path: Seq<char>, n: nat) -> core::result::Result<
    Seq<Seq<char>>,
    Failure,
>
    decreases n,
{
    if n == 0 {
        Ok(Seq::empty())
    } else {
        match with_choices(axis, path, (n - 1) as nat) {
            Err(f) => Err(f),
            Ok(done) => match substituted(axis.place, path, axis.choices[n - 1]) {
                Err(f) => Err(f),
                Ok(next) => Ok(done.push(next)),
            },
        }
    }
}

/// The first `n` paths with every choice.
pub open spec fn across(axis: PlacedAxis, paths: Seq<Seq<char>>, n: nat) -> core::result::Result<
    Seq<Seq<char>>,
    Failure,
>
    decreases n,
{
    if n == 0 {
        Ok(Seq::empty())
    } else {
        match across(axis, paths, (n - 1) as nat) {
            Err(f) => Err(f),
            Ok(done) => match with_choices(axis, paths[n - 1], axis.choices.len()) {
                Err(f) => Err(f),
                Ok(more) => Ok(done + more),
            },
        }
    }
}

/// A path across the first `n` facets. A facet without choices changes
/// nothing.
pub open spec fn expanded(axes: Seq<PlacedAxis>, path: Seq<char>, n: nat) -> core::result::Result<
    Seq<Seq<char>>,
    Failure,
>
    decreases n,
{
    if n == 0 {
        Ok(seq![path])
    } else {
        match expanded(axes, path, (n - 1) as nat) {
            Err(f) => Err(f),
            Ok(paths) => match across(axes[n - 1], paths, paths.len()) {
                Err(f) => Err(f),
                Ok(next) => if next.len() == 0 {
                    Ok(paths)
                } else {
                    Ok(next)
                },
            },
        }
    }
}

/// The facets of a key resolved in a route template, or the failure for the
/// first one that the template does not have.
pub open spec fn placed(shapes: Seq<Shape>, axes: Seq<AxisModel>, n: nat) -> core::result::Result<
    Seq<PlacedAxis>,
    Failure,
>
    decreases n,
{
    if n == 0 {
        Ok(Seq::empty())
    } else {
        match placed(shapes, axes, (n - 1) as nat) {
            Err(f) => Err(f),
            Ok(done) => match pattern::place_of(shapes, axes[n - 1].name) {
                Some(place) => Ok(done.push(PlacedAxis { place, choices: axes[n - 1].choices })),
                None => Err(
                    error::failure(
                        ProviderErrorKind::InvalidInput,
                        "facet capture "@ + text::quoted(axes[n - 1].name)
                            + " is not present in object route"@,
                    ),
                ),
            },
        }
    }
}

proof fn lemma_placed_error(shapes: Seq<Shape>, axes: Seq<AxisModel>, n: nat, m: nat)
    requires
        n <= m,
        placed(shapes, axes, n) is Err,
    ensures
        placed(shapes, axes, m) == placed(shapes, axes, n),
    decreases m,
{
    if n < m {
        lemma_placed_error(shapes, axes, n, (m - 1) as nat);
    }
}

proof fn lemma_with_choices_error(axis: PlacedAxis, path: Seq<char>, n: nat, m: nat)
    requires
        n <= m,
        with_choices(axis, path, n) is Err,
    ensures
        with_choices(axis, path, m) == with_choices(axis, path, n),
    decreases m,
{
    if n < m {
        lemma_with_choices_error(axis, path, n, (m - 1) as nat);
    }
}

proof fn lemma_across_error(axis: PlacedAxis, paths: Seq<Seq<char>>, n: nat, m: nat)
    requires
        n <= m,
        across(axis, paths, n) is Err,
    ensures
        across(axis, paths, m) == across(axis, paths, n),
    decreases m,
{
    if n < m {
        lemma_across_error(axis, paths, n, (m - 1) as nat);
    }
}

proof fn lemma_expanded_error(axes: Seq<PlacedAxis>, path: Seq<char>, n: nat, m: nat)
    requires
        n <= m,
        expanded(axes, path, n) is Err,
    ensures
        expanded(axes, path, m) == expanded(axes, path, n),
    decreases m,
{
    if n < m {
        lemma_expanded_error(axes, path, n, (m - 1) as nat);
    }
}

#[derive(Debug)]
struct FacetExpansionAxis {
    location: CaptureLocation,
    choices: &'static [&'static str],
}

impl View for FacetExpansionAxis {
    type V = PlacedAxis;

    closed spec fn view(&self) -> PlacedAxis {
        PlacedAxis { place: self.location@, choices: object::choice_texts(self.choices@) }
    }
}

impl FacetExpansionAxis {
    fn for_pattern(pattern: &Pattern, axis: &FacetAxis) -> (r: Result<Self>)
        ensures
            match pattern::place_of(pattern@, axis@.name) {
                Some(place) => r matches Ok(a) && a@ == (PlacedAxis {
                    place,
                    choices: axis@.choices,
                }),
                None => r matches Err(e) && e@ == error::failure(
                    ProviderErrorKind::InvalidInput,
                    "facet capture "@ + text::quoted(axis@.name)
                        + " is not present in object route"@,
                ),
            },
    {
        match pattern.capture_location(axis.capture_name) {
            Some(location) => Ok(FacetExpansionAxis { location, choices: axis.choices }),
            None => {
                let message = text::concat3(
                    "facet capture ",
                    text::debug_quoted(axis.capture_name).as_str(),
                    " is not present in object route",
                );
                Err(ProviderError::invalid_input(message.as_str()))
            },
        }
    }

    fn substitute(&self, path: &str, choice: &str) -> (r: Result<String>)
        ensures
            match substituted(self@.place, path@, choice@) {
                Ok(text) => r matches Ok(s) && s@ == text,
                Err(f) => r matches Err(e) && e@ == f,
            },
    {
        let mut pieces = text::split(path, '/');
        let ghost parts = text::split_at(path@, '/');
        let index: usize = self.location.segment_index();
        let offset: usize = if text::starts_with_slash(path) {
            1
        } else {
            0
        };
        assert(pieces@.len() == text::views(pieces@).len());
        if index >= pieces.len() || offset >= pieces.len() - index {
            let mut message = text::concat3(
                "path ",
                text::debug_quoted(path).as_str(),
                " is missing facet segment at index ",
            );
            message.append(text::decimal_of(index as u64).as_str());
            return Err(ProviderError::internal(message.as_str()));
        }
        let segment = self.location.render_segment(choice);
        let ghost written = segment@;
        pieces.set(index + offset, segment);
        assert(text::views(pieces@) =~= parts.update(index + offset, written));
        Ok(text::join(pieces.as_slice(), "/"))
    }

    fn duplicate(&self) -> (r: Self)
        ensures
            r@ == self@,
    {
        FacetExpansionAxis { location: self.location.clone(), choices: self.choices }
    }
}

/// The per-mount facet axes: which template segments are identity-neutral
/// captures with finite choice sets, resolved to segment positions at mount
/// time. Mounting fails if a declared facet capture is missing from the
/// route template.
#[derive(Debug)]
pub struct FacetExpansion {
    axes: Vec<FacetExpansionAxis>,
}

spec fn axes_of(axes: Seq<FacetExpansionAxis>) -> Seq<PlacedAxis> {
    axes.map_values(|a: FacetExpansionAxis| a@)
}

impl View for FacetExpansion {
    type V = Seq<PlacedAxis>;

    closed spec fn view(&self) -> Seq<PlacedAxis> {
        axes_of(self.axes@)
    }
}

impl Clone for FacetExpansion {
    fn clone(&self) -> (r: Self)
        ensures
            r@ == self@,
    {
        let mut axes: Vec<FacetExpansionAxis> = Vec::new();
        let mut i: usize = 0;
        while i < self.axes.len()
            invariant
                i <= self.axes@.len(),
                axes_of(axes@) == axes_of(self.axes@).take(i as int),
            decreases self.axes@.len() - i,
        {
            let ghost before = axes_of(axes@);
            axes.push(self.axes[i].duplicate());
            assert(axes_of(axes@) =~= before.push(self.axes@[i as int]@));
            i = i + 1;
        }
        assert(axes_of(axes@) =~= axes_of(self.axes@));
        FacetExpansion { axes }
    }
}

impl FacetExpansion {
    /// Resolves the facets of a key in a route template.
    pub fn for_pattern<K: FacetMetadata>(pattern: &Pattern) -> (r: Result<Self>)
        ensures
            match placed(pattern@, K::axes(), K::axes().len()) {
                Ok(axes) => r matches Ok(x) && x@ == axes,
                Err(f) => r matches Err(e) && e@ == f,
            },
    {
        let declared = K::facet_axes();
        let ghost models = K::axes();
        let mut axes: Vec<FacetExpansionAxis> = Vec::new();
        let mut i: usize = 0;
        assert(axes_of(axes@) =~= Seq::<PlacedAxis>::empty());
        while i < declared.len()
            invariant
                i <= declared@.len(),
                models == object::axis_models(declared@),
                models == K::axes(),
                placed(pattern@, models, i as nat) == Ok::<Seq<PlacedAxis>, Failure>(
                    axes_of(axes@),
                ),
            decreases declared@.len() - i,
        {
            let ghost before = axes_of(axes@);
            assert(models[i as int] == declared@[i as int]@);
            match FacetExpansionAxis::for_pattern(pattern, &declared[i]) {
                Ok(axis) => {
                    let ghost model = axis@;
                    axes.push(axis);
                    assert(axes_of(axes@) =~= before.push(model));
                },
                Err(e) => {
                    proof {
                        lemma_placed_error(pattern@, models, (i + 1) as nat, models.len());
                    }
                    return Err(e);
                },
            }
            i = i + 1;
        }
        Ok(FacetExpansion { axes })
    }

    /// Expand one concrete path into the cross product of all facet choices,
    /// substituting each choice into its capture's segment (prefix captures
    /// keep their prefix: a `v{version}` axis renders `v1`, `v2`). All
    /// expanded paths name the same logical object, so the host can answer
    /// any facet alias from one cached canonical.
    pub fn expand_view_leaves(&self, read_path: &str) -> (r: Result<Vec<String>>)
        ensures
            match expanded(self@, read_path@, self@.len()) {
                Ok(paths) => r matches Ok(v) && text::views(v@) == paths,
                Err(f) => r matches Err(e) && e@ == f,
            },
    {
        let mut paths: Vec<String> = Vec::new();
        paths.push(read_path.to_owned());
        assert(text::views(paths@) =~= seq![read_path@]);
        let ghost all = self@;
        let mut i: usize = 0;
        while i < self.axes.len()
            invariant
                i <= self.axes@.len(),
                all == axes_of(self.axes@),
                expanded(all, read_path@, i as nat) == Ok::<Seq<Seq<char>>, Failure>(
                    text::views(paths@),
                ),
            decreases self.axes@.len() - i,
        {
            assert(all[i as int] == self.axes@[i as int]@);
            match Self::expand_axis(&self.axes[i], paths.as_slice()) {
                Ok(next) => {
                    assert(text::views(next@).len() == next@.len());
                    if next.len() > 0 {
                        paths = next;
                    }
                },
                Err(e) => {
                    proof {
                        lemma_expanded_error(all, read_path@, (i + 1) as nat, all.len());
                    }
                    return Err(e);
                },
            }
            i = i + 1;
        }
        Ok(paths)
    }

    /// Every path with every choice of one facet.
    fn expand_axis(axis: &FacetExpansionAxis, paths: &[String]) -> (r: Result<Vec<String>>)
        ensures
            match across(axis@, text::views(paths@), paths@.len()) {
                Ok(next) => r matches Ok(v) && text::views(v@) == next,
                Err(f) => r matches Err(e) && e@ == f,
            },
    {
        let ghost texts = text::views(paths@);
        let mut next: Vec<String> = Vec::new();
        let mut p: usize = 0;
        assert(text::views(next@) =~= Seq::<Seq<char>>::empty());
        while p < paths.len()
            invariant
                p <= paths@.len(),
                texts == text::views(paths@),
                across(axis@, texts, p as nat) == Ok::<Seq<Seq<char>>, Failure>(
                    text::views(next@),
                ),
            decreases paths@.len() - p,
        {
            let ghost done = text::views(next@);
            assert(texts[p as int] == paths@[p as int]@);
            let mut c: usize = 0;
            assert(done + Seq::<Seq<char>>::empty() =~= done);
            while c < axis.choices.len()
                invariant
                    p < paths@.len(),
                    c <= axis.choices@.len(),
                    texts == text::views(paths@),
                    across(axis@, texts, p as nat) == Ok::<Seq<Seq<char>>, Failure>(done),
                    with_choices(axis@, texts[p as int], c as nat) is Ok,
                    text::views(next@) == done + with_choices(
                        axis@,
                        texts[p as int],
                        c as nat,
                    )->Ok_0,
                decreases axis.choices@.len() - c,
            {
                let ghost before = next@;
                let choice = axis.choices[c];
                assert(axis@.choices[c as int] == choice@);
                match axis.substitute(paths[p].as_str(), choice) {
                    Ok(path) => {
                        let ghost written = path@;
                        next.push(path);
                        assert(text::views(next@) =~= text::views(before).push(written));
                        assert(text::views(next@) =~= done + with_choices(
                            axis@,
                            texts[p as int],
                            (c + 1) as nat,
                        )->Ok_0);
                    },
                    Err(e) => {
                        proof {
                            lemma_with_choices_error(
                                axis@,
                                texts[p as int],
                                (c + 1) as nat,
                                axis@.choices.len(),
                            );
                            lemma_across_error(axis@, texts, (p + 1) as nat, texts.len());
                        }
                        return Err(e);
                    },
                }
                c = c + 1;
            }
            p = p + 1;
        }
        Ok(next)
    }
}

/// Putting a choice in a facet's place in a written path is putting it in the
/// path.
pub proof fn law_substitution_on_paths(
    place: Place,
    segments: Seq<Seq<char>>,
    choice: Seq<char>,
)
    requires
        path::valid_segments(segments),
        place.index < segments.len(),
    ensures
        substituted(place, path::path_text(segments), choice) == Ok::<Seq<char>, Failure>(
            path::path_text(
                segments.update(
                    place.index as int,
                    pattern::render_value(place.prefix, choice),
                ),
            ),
        ),
{
    reveal_strlit("/");
    let slash = seq!['/'];
    assert("/"@ =~= slash);
    let written = path::path_text(segments);
    let empty = Seq::<char>::empty();
    let pieces = seq![empty] + segments;
    let choice_text = pattern::render_value(place.prefix, choice);
    assert forall|i: int| 0 <= i < pieces.len() implies !(#[trigger] pieces[i]).contains('/') by {
        if i > 0 {
            assert(path::valid_segment(segments[i - 1]));
            assert(pieces[i] == segments[i - 1]);
        }
    }
    lemma_joined_with_empty(segments);
    assert(written == text::joined(pieces, slash));
    text::lemma_split_join(pieces, '/');
    let changed = segments.update(place.index as int, choice_text);
    assert(pieces.update(place.index as int + 1, choice_text) =~= seq![empty] + changed);
    lemma_joined_with_empty(changed);
}

/// A leading empty piece puts a slash in front.
proof fn lemma_joined_with_empty(segments: Seq<Seq<char>>)
    requires
        segments.len() > 0,
    ensures
        text::joined(seq![Seq::<char>::empty()] + segments, seq!['/']) == seq!['/']
            + text::joined(segments, seq!['/']),
    decreases segments.len(),
{
    let empty = Seq::<char>::empty();
    let slash = seq!['/'];
    let pieces = seq![empty] + segments;
    assert(pieces.last() == segments.last());
    if segments.len() == 1 {
        assert(pieces.drop_last() =~= seq![empty]);
        assert(text::joined(seq![empty], slash) == empty);
        assert(empty + slash + segments[0] =~= slash + segments[0]);
    } else {
        assert(pieces.drop_last() =~= seq![empty] + segments.drop_last());
        lemma_joined_with_empty(segments.drop_last());
        assert((slash + text::joined(segments.drop_last(), slash)) + slash + segments.last()
            =~= slash + (text::joined(segments.drop_last(), slash) + slash + segments.last()));
    }
}

/// A facet's choice does not change any other capture, so all expanded paths
/// carry the same identity captures.
pub proof fn law_facets_keep_other_captures(
    shapes: Seq<Shape>,
    segments: Seq<Seq<char>>,
    facet: Seq<char>,
    choice: Seq<char>,
    name: Seq<char>,
)
    requires
        pattern::valid_shapes(shapes),
        pattern::path_matches(shapes, segments),
        pattern::place_of(shapes, facet) is Some,
        pattern::place_of(shapes, name) is Some,
        name != facet,
        choice.len() > 0,
    ensures
        ({
            let place = pattern::place_of(shapes, facet)->0;
            let changed = segments.update(
                place.index as int,
                pattern::render_value(place.prefix, choice),
            );
            captures::lookup(pattern::captures_of(shapes, changed), name) == captures::lookup(
                pattern::captures_of(shapes, segments),
                name,
            )
        }),
{
    let place = pattern::place_of(shapes, facet)->0;
    let changed = segments.update(
        place.index as int,
        pattern::render_value(place.prefix, choice),
    );
    pattern_laws::law_capture_substitution(shapes, segments, facet, choice);
    pattern_laws::lemma_place_from(shapes, facet, 0);
    pattern_laws::lemma_place_from(shapes, name, 0);
    pattern_laws::lemma_located_value(shapes, segments, name);
    pattern_laws::lemma_located_value(shapes, changed, name);
    let other = pattern::place_of(shapes, name)->0;
    assert(other.index != place.index);
    assert(changed[other.index as int] == segments[other.index as int]);
}

/// One facet multiplies the paths by the number of its choices.
proof fn lemma_across_count(axis: PlacedAxis, paths: Seq<Seq<char>>, n: nat)
    requires
        across(axis, paths, n) is Ok,
    ensures
        across(axis, paths, n)->Ok_0.len() == n * axis.choices.len(),
    decreases n,
{
    if n > 0 {
        lemma_across_count(axis, paths, (n - 1) as nat);
        lemma_choices_count(axis, paths[n - 1], axis.choices.len());
        assert((n - 1) * axis.choices.len() + axis.choices.len() == n * axis.choices.len())
            by (nonlinear_arith)
            requires
                n > 0,
        ;
    } else {
        assert(n * axis.choices.len() == 0) by (nonlinear_arith)
            requires
                n == 0,
        ;
    }
}

proof fn lemma_choices_count(axis: PlacedAxis, path: Seq<char>, n: nat)
    requires
        with_choices(axis, path, n) is Ok,
    ensures
        with_choices(axis, path, n)->Ok_0.len() == n,
    decreases n,
{
    if n > 0 {
        lemma_choices_count(axis, path, (n - 1) as nat);
    }
}

/// How many paths the first `n` facets expand one path to.
pub open spec fn alias_count(axes: Seq<PlacedAxis>, n: nat) -> nat
    decreases n,
{
    if n == 0 {
        1
    } else {
        alias_count(axes, (n - 1) as nat) * (if axes[n - 1].choices.len() == 0 {
            1
        } else {
            axes[n - 1].choices.len()
        })
    }
}

/// Expansion gives the whole cross product: the number of paths is the
/// product of the numbers of choices.
pub proof fn law_expansion_is_cross_product(axes: Seq<PlacedAxis>, path: Seq<char>, n: nat)
    requires
        n <= axes.len(),
        expanded(axes, path, n) is Ok,
    ensures
        expanded(axes, path, n)->Ok_0.len() == alias_count(axes, n),
        alias_count(axes, n) > 0,
    decreases n,
{
    if n > 0 {
        law_expansion_is_cross_product(axes, path, (n - 1) as nat);
        let paths = expanded(axes, path, (n - 1) as nat)->Ok_0;
        lemma_across_count(axes[n - 1], paths, paths.len());
        let choices = axes[n - 1].choices.len();
        if choices == 0 {
            assert(paths.len() * choices == 0) by (nonlinear_arith)
                requires
                    choices == 0,
            ;
            assert(alias_count(axes, (n - 1) as nat) * 1 == alias_count(axes, (n - 1) as nat))
                by (nonlinear_arith);
        } else {
            assert(paths.len() * choices > 0) by (nonlinear_arith)
                requires
                    paths.len() > 0,
                    choices > 0,
            ;
        }
    }
}

/// `other` differs from `segments` at most in the places of the first `n`
/// facets.
pub open spec fn alias(
    axes: Seq<PlacedAxis>,
    n: nat,
    segments: Seq<Seq<char>>,
    other: Seq<Seq<char>>,
) -> bool {
    &&& path::valid_segments(other)
    &&& other.len() == segments.len()
    &&& forall|k: int|
        0 <= k < segments.len() && (forall|j: int|
            0 <= j < n ==> (#[trigger] axes[j]).place.index != k) ==> #[trigger] other[k]
            == segments[k]
}

/// `written` is the text of a path that differs at most in the places of the
/// first `n` facets.
pub open spec fn alias_text(
    axes: Seq<PlacedAxis>,
    n: nat,
    segments: Seq<Seq<char>>,
    written: Seq<char>,
) -> bool {
    exists|other: Seq<Seq<char>>| #[trigger]
        alias(axes, n, segments, other) && written == path::path_text(other)
}

/// Every choice of a facet is a valid segment in a place that the path has.
pub open spec fn fits(axis: PlacedAxis, segments: Seq<Seq<char>>) -> bool {
    &&& axis.place.index < segments.len()
    &&& forall|c: int|
        0 <= c < axis.choices.len() ==> path::valid_segment(
            pattern::render_value(axis.place.prefix, #[trigger] axis.choices[c]),
        )
}

/// One more choice of a facet gives an alias again.
proof fn lemma_choices_alias(
    axes: Seq<PlacedAxis>,
    n: nat,
    segments: Seq<Seq<char>>,
    written: Seq<char>,
    m: nat,
)
    requires
        n < axes.len(),
        fits(axes[n as int], segments),
        alias_text(axes, n, segments, written),
        m <= axes[n as int].choices.len(),
    ensures
        with_choices(axes[n as int], written, m) is Ok,
        forall|i: int|
            0 <= i < with_choices(axes[n as int], written, m)->Ok_0.len() ==> alias_text(
                axes,
                n + 1,
                segments,
                #[trigger] with_choices(axes[n as int], written, m)->Ok_0[i],
            ),
    decreases m,
{
    let axis = axes[n as int];
    if m > 0 {
        lemma_choices_alias(axes, n, segments, written, (m - 1) as nat);
        let other = choose|other: Seq<Seq<char>>| #[trigger]
            alias(axes, n, segments, other) && written == path::path_text(other);
        let choice = axis.choices[m - 1];
        law_substitution_on_paths(axis.place, other, choice);
        let rendered = pattern::render_value(axis.place.prefix, choice);
        let changed = other.update(axis.place.index as int, rendered);
        assert(path::valid_segments(changed)) by {
            assert forall|i: int| 0 <= i < changed.len() implies path::valid_segment(
                #[trigger] changed[i],
            ) by {
                if i != axis.place.index {
                    assert(changed[i] == other[i]);
                    assert(path::valid_segment(other[i]));
                }
            }
        }
        assert(alias(axes, n + 1, segments, changed)) by {
            assert forall|k: int|
                0 <= k < segments.len() && (forall|j: int|
                    0 <= j < n + 1 ==> (#[trigger] axes[j]).place.index
                        != k) implies #[trigger] changed[k] == segments[k] by {
                assert(axes[n as int].place.index != k);
                assert(forall|j: int| 0 <= j < n ==> (#[trigger] axes[j]).place.index != k);
                assert(other[k] == segments[k]);
            }
        }
        assert(alias_text(axes, n + 1, segments, path::path_text(changed)));
    }
}

/// Every choice of a facet in every alias gives an alias again.
proof fn lemma_across_alias(
    axes: Seq<PlacedAxis>,
    n: nat,
    segments: Seq<Seq<char>>,
    paths: Seq<Seq<char>>,
    m: nat,
)
    requires
        n < axes.len(),
        fits(axes[n as int], segments),
        m <= paths.len(),
        forall|i: int|
            0 <= i < paths.len() ==> alias_text(axes, n, segments, #[trigger] paths[i]),
    ensures
        across(axes[n as int], paths, m) is Ok,
        forall|i: int|
            0 <= i < across(axes[n as int], paths, m)->Ok_0.len() ==> alias_text(
                axes,
                n + 1,
                segments,
                #[trigger] across(axes[n as int], paths, m)->Ok_0[i],
            ),
    decreases m,
{
    if m > 0 {
        lemma_across_alias(axes, n, segments, paths, (m - 1) as nat);
        let axis = axes[n as int];
        assert(alias_text(axes, n, segments, paths[m - 1]));
        lemma_choices_alias(axes, n, segments, paths[m - 1], axis.choices.len());
        let done = across(axis, paths, (m - 1) as nat)->Ok_0;
        let more = with_choices(axis, paths[m - 1], axis.choices.len())->Ok_0;
        let all = across(axis, paths, m)->Ok_0;
        assert(all == done + more);
        assert forall|i: int| 0 <= i < all.len() implies alias_text(
            axes,
            n + 1,
            segments,
            #[trigger] all[i],
        ) by {
            if i < done.len() {
                assert(all[i] == done[i]);
            } else {
                assert(all[i] == more[i - done.len()]);
            }
        }
    }
}

/// All expanded paths are the given path with other choices in the places of
/// facets: everything else, and so every identity capture and the leaf below
/// the anchor, stays.
pub proof fn law_expansion_changes_only_facets(
    axes: Seq<PlacedAxis>,
    segments: Seq<Seq<char>>,
    n: nat,
)
    requires
        path::valid_segments(segments),
        n <= axes.len(),
        forall|j: int| 0 <= j < n ==> fits(#[trigger] axes[j], segments),
    ensures
        expanded(axes, path::path_text(segments), n) is Ok,
        forall|i: int|
            0 <= i < expanded(axes, path::path_text(segments), n)->Ok_0.len() ==> alias_text(
                axes,
                n,
                segments,
                #[trigger] expanded(axes, path::path_text(segments), n)->Ok_0[i],
            ),
    decreases n,
{
    let written = path::path_text(segments);
    if n == 0 {
        assert(alias(axes, 0, segments, segments));
        assert(alias_text(axes, 0, segments, written));
    } else {
        law_expansion_changes_only_facets(axes, segments, (n - 1) as nat);
        let paths = expanded(axes, written, (n - 1) as nat)->Ok_0;
        assert(fits(axes[n - 1], segments));
        lemma_across_alias(axes, (n - 1) as nat, segments, paths, paths.len());
        let next = across(axes[n - 1], paths, paths.len())->Ok_0;
        if next.len() == 0 {
            assert forall|i: int| 0 <= i < paths.len() implies alias_text(
                axes,
                n,
                segments,
                #[trigger] paths[i],
            ) by {
                assert(alias_text(axes, (n - 1) as nat, segments, paths[i]));
                let other = choose|other: Seq<Seq<char>>| #[trigger]
                    alias(axes, (n - 1) as nat, segments, other) && paths[i] == path::path_text(
                        other,
                    );
                assert(alias(axes, n, segments, other)) by {
                    assert forall|k: int|
                        0 <= k < segments.len() && (forall|j: int|
                            0 <= j < n ==> (#[trigger] axes[j]).place.index
                                != k) implies #[trigger] other[k] == segments[k] by {
                        assert(forall|j: int|
                            0 <= j < n - 1 ==> (#[trigger] axes[j]).place.index != k);
                    }
                }
            }
        }
    }
}

/// Which of the first `n` facets decides the segment at `k`: the last one
/// that stands there and has choices.
pub open spec fn decider(axes: Seq<PlacedAxis>, n: nat, k: int) -> Option<int>
    decreases n,
{
    if n == 0 {
        None
    } else if axes[n - 1].place.index == k && axes[n - 1].choices.len() > 0 {
        Some(n - 1)
    } else {
        decider(axes, (n - 1) as nat, k)
    }
}

/// A segment is one of a facet's choices behind the capture's prefix.
pub open spec fn is_choice(axis: PlacedAxis, segment: Seq<char>) -> bool {
    exists|c: int|
        0 <= c < axis.choices.len() && segment == pattern::render_value(
            axis.place.prefix,
            #[trigger] axis.choices[c],
        )
}

/// `other` is `segments` with a choice of each of the first `n` facets in the
/// facet's place.
pub open spec fn combination(
    axes: Seq<PlacedAxis>,
    n: nat,
    segments: Seq<Seq<char>>,
    other: Seq<Seq<char>>,
) -> bool {
    &&& other.len() == segments.len()
    &&& forall|k: int|
        #![trigger other[k]]
        0 <= k < segments.len() ==> match decider(axes, n, k) {
            Some(j) => is_choice(axes[j], other[k]),
            None => other[k] == segments[k],
        }
}

proof fn lemma_decider(axes: Seq<PlacedAxis>, n: nat, k: int)
    ensures
        match decider(axes, n, k) {
            Some(j) => 0 <= j < n && axes[j].place.index == k && axes[j].choices.len() > 0,
            None => forall|j: int|
                0 <= j < n && (#[trigger] axes[j]).place.index == k ==> axes[j].choices.len() == 0,
        },
    decreases n,
{
    if n > 0 {
        lemma_decider(axes, (n - 1) as nat, k);
    }
}

/// A combination of choices that fit is a path.
proof fn lemma_combination_valid(
    axes: Seq<PlacedAxis>,
    n: nat,
    segments: Seq<Seq<char>>,
    other: Seq<Seq<char>>,
)
    requires
        path::valid_segments(segments),
        forall|j: int| 0 <= j < n ==> fits(#[trigger] axes[j], segments),
        combination(axes, n, segments, other),
    ensures
        path::valid_segments(other),
{
    assert forall|k: int| 0 <= k < other.len() implies path::valid_segment(
        #[trigger] other[k],
    ) by {
        lemma_decider(axes, n, k);
        match decider(axes, n, k) {
            Some(j) => {
                assert(fits(axes[j], segments));
                assert(is_choice(axes[j], other[k]));
            },
            None => {
                assert(path::valid_segment(segments[k]));
            },
        }
    }
}

/// A facet puts its choices in a path one after the other.
proof fn lemma_choices_at(axis: PlacedAxis, segments: Seq<Seq<char>>, m: nat)
    requires
        path::valid_segments(segments),
        axis.place.index < segments.len(),
        m <= axis.choices.len(),
    ensures
        with_choices(axis, path::path_text(segments), m) is Ok,
        with_choices(axis, path::path_text(segments), m)->Ok_0.len() == m,
        forall|c: int|
            #![trigger axis.choices[c]]
            0 <= c < m ==> with_choices(axis, path::path_text(segments), m)->Ok_0[c]
                == path::path_text(
                segments.update(
                    axis.place.index as int,
                    pattern::render_value(axis.place.prefix, axis.choices[c]),
                ),
            ),
    decreases m,
{
    if m > 0 {
        lemma_choices_at(axis, segments, (m - 1) as nat);
        law_substitution_on_paths(axis.place, segments, axis.choices[m - 1]);
    }
}

/// What a facet makes of one path is among what it makes of all.
proof fn lemma_across_holds(
    axis: PlacedAxis,
    paths: Seq<Seq<char>>,
    n: nat,
    i: int,
    written: Seq<char>,
)
    requires
        0 <= i < n <= paths.len(),
        across(axis, paths, n) is Ok,
        with_choices(axis, paths[i], axis.choices.len()) matches Ok(made) && made.contains(written),
    ensures
        across(axis, paths, n)->Ok_0.contains(written),
    decreases n,
{
    let done = across(axis, paths, (n - 1) as nat)->Ok_0;
    let more = with_choices(axis, paths[n - 1], axis.choices.len())->Ok_0;
    let all = across(axis, paths, n)->Ok_0;
    assert(all == done + more);
    if i == n - 1 {
        let x = choose|x: int| 0 <= x < more.len() && more[x] == written;
        assert(all[done.len() + x] == written);
    } else {
        lemma_across_holds(axis, paths, (n - 1) as nat, i, written);
        let x = choose|x: int| 0 <= x < done.len() && done[x] == written;
        assert(all[x] == written);
    }
}

/// Every combination of choices occurs among the expanded paths.
pub proof fn law_expansion_holds_every_combination(
    axes: Seq<PlacedAxis>,
    segments: Seq<Seq<char>>,
    n: nat,
    other: Seq<Seq<char>>,
)
    requires
        path::valid_segments(segments),
        n <= axes.len(),
        forall|j: int| 0 <= j < n ==> fits(#[trigger] axes[j], segments),
        combination(axes, n, segments, other),
    ensures
        expanded(axes, path::path_text(segments), n) matches Ok(paths) && paths.contains(
            path::path_text(other),
        ),
    decreases n,
{
    let written = path::path_text(segments);
    law_expansion_changes_only_facets(axes, segments, n);
    let all = expanded(axes, written, n)->Ok_0;
    if n == 0 {
        assert(other =~= segments);
        assert(all[0] == path::path_text(other));
    } else {
        let axis = axes[n - 1];
        let at = axis.place.index as int;
        assert(fits(axis, segments));
        let paths = expanded(axes, written, (n - 1) as nat)->Ok_0;
        lemma_across_count(axis, paths, paths.len());
        law_expansion_is_cross_product(axes, written, (n - 1) as nat);
        if axis.choices.len() == 0 {
            assert(paths.len() * axis.choices.len() == 0) by (nonlinear_arith)
                requires
                    axis.choices.len() == 0,
            ;
            assert(all == paths);
            law_expansion_holds_every_combination(axes, segments, (n - 1) as nat, other);
        } else {
            assert(decider(axes, n, at) == Some(n - 1));
            assert(is_choice(axis, other[at]));
            let c = choose|c: int|
                0 <= c < axis.choices.len() && other[at] == pattern::render_value(
                    axis.place.prefix,
                    #[trigger] axis.choices[c],
                );
            lemma_decider(axes, (n - 1) as nat, at);
            let stood = match decider(axes, (n - 1) as nat, at) {
                Some(j) => pattern::render_value(axes[j].place.prefix, axes[j].choices[0]),
                None => segments[at],
            };
            let before = other.update(at, stood);
            assert(combination(axes, (n - 1) as nat, segments, before)) by {
                assert forall|k: int|
                    #![trigger before[k]]
                    0 <= k < segments.len() implies match decider(axes, (n - 1) as nat, k) {
                    Some(j) => is_choice(axes[j], before[k]),
                    None => before[k] == segments[k],
                } by {
                    if k != at {
                        assert(before[k] == other[k]);
                        assert(decider(axes, n, k) == decider(axes, (n - 1) as nat, k));
                    }
                }
            }
            law_expansion_holds_every_combination(axes, segments, (n - 1) as nat, before);
            lemma_combination_valid(axes, (n - 1) as nat, segments, before);
            let i = choose|i: int| 0 <= i < paths.len() && paths[i] == path::path_text(before);
            lemma_choices_at(axis, before, axis.choices.len());
            assert(before.update(at, other[at]) =~= other);
            let made = with_choices(axis, paths[i], axis.choices.len())->Ok_0;
            assert(made[c] == path::path_text(other));
            lemma_across_holds(axis, paths, paths.len(), i, path::path_text(other));
            assert(paths.len() * axis.choices.len() > 0) by (nonlinear_arith)
                requires
                    paths.len() > 0,
                    axis.choices.len() > 0,
            ;
        }
    }
}

/// `written` is the text of a combination.
pub open spec fn combination_text(
    axes: Seq<PlacedAxis>,
    n: nat,
    segments: Seq<Seq<char>>,
    written: Seq<char>,
) -> bool {
    exists|other: Seq<Seq<char>>| #[trigger]
        combination(axes, n, segments, other) && written == path::path_text(other)
}

/// A facet's choices in combinations give combinations again.
proof fn lemma_across_combinations(
    axes: Seq<PlacedAxis>,
    n: nat,
    segments: Seq<Seq<char>>,
    paths: Seq<Seq<char>>,
    m: nat,
)
    requires
        n < axes.len(),
        m <= paths.len(),
        path::valid_segments(segments),
        forall|j: int| 0 <= j < n + 1 ==> fits(#[trigger] axes[j], segments),
        forall|i: int|
            0 <= i < paths.len() ==> combination_text(axes, n, segments, #[trigger] paths[i]),
    ensures
        across(axes[n as int], paths, m) is Ok,
        forall|i: int|
            0 <= i < across(axes[n as int], paths, m)->Ok_0.len() ==> combination_text(
                axes,
                n + 1,
                segments,
                #[trigger] across(axes[n as int], paths, m)->Ok_0[i],
            ),
    decreases m,
{
    if m > 0 {
        lemma_across_combinations(axes, n, segments, paths, (m - 1) as nat);
        let axis = axes[n as int];
        let at = axis.place.index as int;
        assert(fits(axis, segments));
        assert(combination_text(axes, n, segments, paths[m - 1]));
        let other = choose|other: Seq<Seq<char>>| #[trigger]
            combination(axes, n, segments, other) && paths[m - 1] == path::path_text(other);
        lemma_combination_valid(axes, n, segments, other);
        lemma_choices_at(axis, other, axis.choices.len());
        let done = across(axis, paths, (m - 1) as nat)->Ok_0;
        let more = with_choices(axis, paths[m - 1], axis.choices.len())->Ok_0;
        let all = across(axis, paths, m)->Ok_0;
        assert(all == done + more);
        assert forall|i: int| 0 <= i < all.len() implies combination_text(
            axes,
            n + 1,
            segments,
            #[trigger] all[i],
        ) by {
            if i < done.len() {
                assert(all[i] == done[i]);
            } else {
                let c = i - done.len();
                let choice = axis.choices[c];
                let changed = other.update(at, pattern::render_value(axis.place.prefix, choice));
                assert(all[i] == more[c]);
                assert(combination(axes, n + 1, segments, changed)) by {
                    assert forall|k: int|
                        #![trigger changed[k]]
                        0 <= k < segments.len() implies match decider(axes, n + 1, k) {
                        Some(j) => is_choice(axes[j], changed[k]),
                        None => changed[k] == segments[k],
                    } by {
                        if k == at {
                            assert(decider(axes, n + 1, k) == Some(n as int));
                            assert(is_choice(axis, changed[k]));
                        } else {
                            assert(changed[k] == other[k]);
                            assert(decider(axes, n + 1, k) == decider(axes, n, k));
                        }
                    }
                }
            }
        }
    }
}

/// Every expanded path is a combination: each facet's segment is one of its
/// choices behind the capture's prefix, and all else stays.
pub proof fn law_expansion_holds_only_combinations(
    axes: Seq<PlacedAxis>,
    segments: Seq<Seq<char>>,
    n: nat,
)
    requires
        path::valid_segments(segments),
        n <= axes.len(),
        forall|j: int| 0 <= j < n ==> fits(#[trigger] axes[j], segments),
    ensures
        expanded(axes, path::path_text(segments), n) is Ok,
        forall|i: int|
            0 <= i < expanded(axes, path::path_text(segments), n)->Ok_0.len()
                ==> combination_text(
                axes,
                n,
                segments,
                #[trigger] expanded(axes, path::path_text(segments), n)->Ok_0[i],
            ),
    decreases n,
{
    let written = path::path_text(segments);
    if n == 0 {
        assert(combination(axes, 0, segments, segments));
    } else {
        law_expansion_holds_only_combinations(axes, segments, (n - 1) as nat);
        let paths = expanded(axes, written, (n - 1) as nat)->Ok_0;
        lemma_across_combinations(axes, (n - 1) as nat, segments, paths, paths.len());
        law_expansion_is_cross_product(axes, written, (n - 1) as nat);
        lemma_across_count(axes[n - 1], paths, paths.len());
        let choices = axes[n - 1].choices.len();
        if choices == 0 {
            assert(paths.len() * choices == 0) by (nonlinear_arith)
                requires
                    choices == 0,
            ;
            assert forall|i: int| 0 <= i < paths.len() implies combination_text(
                axes,
                n,
                segments,
                #[trigger] paths[i],
            ) by {
                assert(combination_text(axes, (n - 1) as nat, segments, paths[i]));
                let other = choose|other: Seq<Seq<char>>| #[trigger]
                    combination(axes, (n - 1) as nat, segments, other) && paths[i]
                        == path::path_text(other);
                assert(combination(axes, n, segments, other)) by {
                    assert(forall|k: int|
                        #![trigger other[k]]
                        decider(axes, n, k) == decider(axes, (n - 1) as nat, k));
                }
            }
        } else {
            assert(paths.len() * choices > 0) by (nonlinear_arith)
                requires
                    paths.len() > 0,
                    choices > 0,
            ;
        }
    }
}

/// `x` and `y` agree where `a` and `b` do and where one of the first `n`
/// facets decides.
spec fn alike(
    axes: Seq<PlacedAxis>,
    n: nat,
    a: Seq<Seq<char>>,
    b: Seq<Seq<char>>,
    x: Seq<Seq<char>>,
    y: Seq<Seq<char>>,
) -> bool {
    &&& path::valid_segments(x)
    &&& path::valid_segments(y)
    &&& x.len() == a.len()
    &&& y.len() == a.len()
    &&& forall|k: int|
        #![trigger x[k]]
        0 <= k < a.len() && (decider(axes, n, k) is Some || a[k] == b[k]) ==> x[k] == y[k]
}

/// Two lists hold the texts of paths that are pairwise alike.
spec fn alike_lists(
    axes: Seq<PlacedAxis>,
    n: nat,
    a: Seq<Seq<char>>,
    b: Seq<Seq<char>>,
    left: Seq<Seq<char>>,
    right: Seq<Seq<char>>,
) -> bool {
    left.len() == right.len() && forall|i: int|
        #![trigger left[i]]
        0 <= i < left.len() ==> alike_texts(axes, n, a, b, left[i], right[i])
}

spec fn alike_texts(
    axes: Seq<PlacedAxis>,
    n: nat,
    a: Seq<Seq<char>>,
    b: Seq<Seq<char>>,
    left: Seq<char>,
    right: Seq<char>,
) -> bool {
    exists|x: Seq<Seq<char>>, y: Seq<Seq<char>>| #[trigger]
        alike(axes, n, a, b, x, y) && left == path::path_text(x) && right == path::path_text(y)
}

/// A facet's choices in paths that are alike give paths that are alike.
proof fn lemma_across_alike(
    axes: Seq<PlacedAxis>,
    n: nat,
    a: Seq<Seq<char>>,
    b: Seq<Seq<char>>,
    left: Seq<Seq<char>>,
    right: Seq<Seq<char>>,
    m: nat,
)
    requires
        n < axes.len(),
        fits(axes[n as int], a),
        m <= left.len(),
        alike_lists(axes, n, a, b, left, right),
    ensures
        across(axes[n as int], left, m) is Ok,
        across(axes[n as int], right, m) is Ok,
        alike_lists(
            axes,
            n + 1,
            a,
            b,
            across(axes[n as int], left, m)->Ok_0,
            across(axes[n as int], right, m)->Ok_0,
        ),
    decreases m,
{
    if m > 0 {
        lemma_across_alike(axes, n, a, b, left, right, (m - 1) as nat);
        let axis = axes[n as int];
        let at = axis.place.index as int;
        let count = axis.choices.len();
        assert(alike_texts(axes, n, a, b, left[m - 1], right[m - 1]));
        let (x, y) = choose|x: Seq<Seq<char>>, y: Seq<Seq<char>>| #[trigger]
            alike(axes, n, a, b, x, y) && left[m - 1] == path::path_text(x) && right[m - 1]
                == path::path_text(y);
        lemma_choices_at(axis, x, count);
        lemma_choices_at(axis, y, count);
        let done = across(axis, left, (m - 1) as nat)->Ok_0;
        let other_done = across(axis, right, (m - 1) as nat)->Ok_0;
        let more = with_choices(axis, left[m - 1], count)->Ok_0;
        let other_more = with_choices(axis, right[m - 1], count)->Ok_0;
        let all = across(axis, left, m)->Ok_0;
        let others = across(axis, right, m)->Ok_0;
        assert(all == done + more);
        assert(others == other_done + other_more);
        assert forall|i: int|
            #![trigger all[i]]
            0 <= i < all.len() implies alike_texts(axes, n + 1, a, b, all[i], others[i]) by {
            if i < done.len() {
                assert(all[i] == done[i]);
                assert(others[i] == other_done[i]);
            } else {
                let c = i - done.len();
                let segment = pattern::render_value(axis.place.prefix, axis.choices[c]);
                assert(path::valid_segment(segment));
                let (v, w) = (x.update(at, segment), y.update(at, segment));
                assert(all[i] == more[c] && more[c] == path::path_text(v));
                assert(others[i] == other_more[c] && other_more[c] == path::path_text(w));
                assert(alike(axes, n + 1, a, b, v, w)) by {
                    assert forall|k: int| 0 <= k < v.len() implies path::valid_segment(
                        #[trigger] v[k],
                    ) by {
                        assert(k == at || v[k] == x[k]);
                    }
                    assert forall|k: int| 0 <= k < w.len() implies path::valid_segment(
                        #[trigger] w[k],
                    ) by {
                        assert(k == at || w[k] == y[k]);
                    }
                    assert forall|k: int|
                        #![trigger v[k]]
                        0 <= k < a.len() && (decider(axes, n + 1, k) is Some || a[k]
                            == b[k]) implies v[k] == w[k] by {
                        if k != at {
                            assert(decider(axes, n + 1, k) == decider(axes, n, k));
                            assert(x[k] == y[k]);
                        }
                    }
                }
            }
        }
    }
}

/// Expanding paths that differ at most in the places of facets gives paths
/// that are alike.
proof fn lemma_expanded_alike(
    axes: Seq<PlacedAxis>,
    n: nat,
    a: Seq<Seq<char>>,
    b: Seq<Seq<char>>,
)
    requires
        n <= axes.len(),
        path::valid_segments(a),
        path::valid_segments(b),
        a.len() == b.len(),
        forall|j: int| 0 <= j < n ==> fits(#[trigger] axes[j], a),
    ensures
        expanded(axes, path::path_text(a), n) is Ok,
        expanded(axes, path::path_text(b), n) is Ok,
        alike_lists(
            axes,
            n,
            a,
            b,
            expanded(axes, path::path_text(a), n)->Ok_0,
            expanded(axes, path::path_text(b), n)->Ok_0,
        ),
    decreases n,
{
    if n == 0 {
        assert(alike(axes, 0, a, b, a, b));
        assert(alike_texts(axes, 0, a, b, path::path_text(a), path::path_text(b)));
    } else {
        lemma_expanded_alike(axes, (n - 1) as nat, a, b);
        let left = expanded(axes, path::path_text(a), (n - 1) as nat)->Ok_0;
        let right = expanded(axes, path::path_text(b), (n - 1) as nat)->Ok_0;
        assert(fits(axes[n - 1], a));
        lemma_across_alike(axes, (n - 1) as nat, a, b, left, right, left.len());
        law_expansion_is_cross_product(axes, path::path_text(a), (n - 1) as nat);
        lemma_across_count(axes[n - 1], left, left.len());
        let choices = axes[n - 1].choices.len();
        if choices == 0 {
            assert(left.len() * choices == 0) by (nonlinear_arith)
                requires
                    choices == 0,
            ;
            assert forall|i: int|
                #![trigger left[i]]
                0 <= i < left.len() implies alike_texts(axes, n, a, b, left[i], right[i]) by {
                assert(alike_texts(axes, (n - 1) as nat, a, b, left[i], right[i]));
                let (x, y) = choose|x: Seq<Seq<char>>, y: Seq<Seq<char>>| #[trigger]
                    alike(axes, (n - 1) as nat, a, b, x, y) && left[i] == path::path_text(x)
                        && right[i] == path::path_text(y);
                assert(alike(axes, n, a, b, x, y)) by {
                    assert(forall|k: int|
                        #![trigger x[k]]
                        decider(axes, n, k) == decider(axes, (n - 1) as nat, k));
                }
            }
        } else {
            assert(left.len() * choices > 0) by (nonlinear_arith)
                requires
                    left.len() > 0,
                    choices > 0,
            ;
        }
    }
}

/// All aliases of a path expand to one and the same list, so the host learns
/// the same paths whichever of them was read.
pub proof fn law_aliases_expand_alike(
    axes: Seq<PlacedAxis>,
    segments: Seq<Seq<char>>,
    n: nat,
    i: int,
)
    requires
        path::valid_segments(segments),
        n <= axes.len(),
        forall|j: int| 0 <= j < n ==> fits(#[trigger] axes[j], segments),
        expanded(axes, path::path_text(segments), n) matches Ok(paths) && 0 <= i < paths.len(),
    ensures
        expanded(axes, expanded(axes, path::path_text(segments), n)->Ok_0[i], n) == expanded(
            axes,
            path::path_text(segments),
            n,
        ),
{
    let all = expanded(axes, path::path_text(segments), n)->Ok_0;
    law_expansion_holds_only_combinations(axes, segments, n);
    assert(combination_text(axes, n, segments, all[i]));
    let other = choose|other: Seq<Seq<char>>| #[trigger]
        combination(axes, n, segments, other) && all[i] == path::path_text(other);
    lemma_combination_valid(axes, n, segments, other);
    lemma_expanded_alike(axes, n, segments, other);
    let others = expanded(axes, all[i], n)->Ok_0;
    assert forall|k: int| 0 <= k < all.len() implies #[trigger] all[k] == others[k] by {
        assert(alike_texts(axes, n, segments, other, all[k], others[k]));
        let (x, y) = choose|x: Seq<Seq<char>>, y: Seq<Seq<char>>| #[trigger]
            alike(axes, n, segments, other, x, y) && all[k] == path::path_text(x) && others[k]
                == path::path_text(y);
        assert forall|p: int| 0 <= p < x.len() implies #[trigger] x[p] == y[p] by {
            if decider(axes, n, p) is None {
                assert(other[p] == segments[p]);
            }
        }
        assert(x =~= y);
    }
    assert(all =~= others);
}

/// The facets that a template resolves stand in every path that the template
/// matches, and in every path below one; facets of different names stand in
/// different places, and each decides its own.
pub proof fn law_facets_stand_in_matched_paths(
    shapes: Seq<Shape>,
    axes: Seq<AxisModel>,
    segments: Seq<Seq<char>>,
    m: int,
    j: int,
)
    requires
        pattern::valid_shapes(shapes),
        placed(shapes, axes, axes.len()) is Ok,
        0 <= m <= segments.len(),
        pattern::path_matches(shapes, segments.take(m)),
        0 <= j < axes.len(),
    ensures
        ({
            let found = placed(shapes, axes, axes.len())->Ok_0;
            &&& found.len() == axes.len()
            &&& found[j].choices == axes[j].choices
            &&& pattern::place_of(shapes, axes[j].name) == Some(found[j].place)
            &&& found[j].place.index < segments.len()
            &&& (axes[j].choices.len() > 0 && forall|i: int|
                0 <= i < axes.len() && i != j ==> (#[trigger] axes[i]).name != axes[j].name)
                ==> decider(found, found.len(), found[j].place.index as int) == Some(j)
        }),
{
    let found = placed(shapes, axes, axes.len())->Ok_0;
    lemma_placed_at(shapes, axes, axes.len(), j);
    pattern_laws::lemma_place_from(shapes, axes[j].name, 0);
    if axes[j].choices.len() > 0 && forall|i: int|
        0 <= i < axes.len() && i != j ==> (#[trigger] axes[i]).name != axes[j].name {
        let at = found[j].place.index as int;
        assert forall|i: int| 0 <= i < axes.len() && i != j implies (
        #[trigger] found[i]).place.index != at by {
            lemma_placed_at(shapes, axes, axes.len(), i);
            pattern_laws::lemma_place_from(shapes, axes[i].name, 0);
            assert(axes[i].name != axes[j].name);
        }
        lemma_decider(found, found.len(), at);
        assert(found[j].place.index == at);
    }
}

/// Each facet is resolved on its own.
proof fn lemma_placed_at(shapes: Seq<Shape>, axes: Seq<AxisModel>, n: nat, j: int)
    requires
        n <= axes.len(),
        placed(shapes, axes, n) is Ok,
    ensures
        placed(shapes, axes, n)->Ok_0.len() == n,
        0 <= j < n ==> ({
            let found = placed(shapes, axes, n)->Ok_0[j];
            &&& found.choices == axes[j].choices
            &&& pattern::place_of(shapes, axes[j].name) == Some(found.place)
        }),
    decreases n,
{
    if n > 0 {
        lemma_placed_at(shapes, axes, (n - 1) as nat, j);
    }
}

} // verus!
