//! What holds of every route template: grammar, precedence, ambiguity and
//! captures.

use vstd::prelude::*;

use crate::captures;
use crate::path;
use crate::router::pattern;
use crate::router::pattern::{PrecedenceKey, Shape};
use crate::text;

verus! {

/// The template segments that stand for shapes.
pub open spec fn templates(shapes: Seq<Shape>) -> Seq<Seq<char>> {
    shapes.map_values(|s: Shape| s.template())
}

/// The template that stands for shapes.
pub open spec fn template_text(shapes: Seq<Shape>) -> Seq<char> {
    path::path_text(templates(shapes))
}

/// Before its first occurrence, `c` does not occur.
proof fn lemma_first_index(s: Seq<char>, c: char)
    ensures
        0 <= pattern::first_index(s, c) <= s.len(),
        pattern::first_index(s, c) < s.len() ==> s[pattern::first_index(s, c)] == c,
        forall|k: int| 0 <= k < pattern::first_index(s, c) ==> s[k] != c,
        s.contains(c) == (pattern::first_index(s, c) < s.len()),
    decreases s.len(),
{
    if s.len() > 0 && s[0] != c {
        lemma_first_index(s.drop_first(), c);
        let i = pattern::first_index(s.drop_first(), c);
        assert forall|k: int| 0 <= k < 1 + i implies s[k] != c by {
            if k > 0 {
                assert(s.drop_first()[k - 1] == s[k]);
            }
        }
        if 1 + i < s.len() {
            assert(s.drop_first()[i] == s[1 + i]);
        }
        if s.contains(c) {
            let k = choose|k: int| 0 <= k < s.len() && s[k] == c;
            assert(k > i);
            assert(s.drop_first()[k - 1] == c);
        }
    }
}

/// The first occurrence is the one before which there is none.
proof fn lemma_first_index_unique(s: Seq<char>, c: char, i: int)
    requires
        0 <= i < s.len(),
        s[i] == c,
        forall|k: int| 0 <= k < i ==> s[k] != c,
    ensures
        pattern::first_index(s, c) == i,
{
    lemma_first_index(s, c);
}

/// The template segment of an accepted shape is the segment it was read from.
proof fn lemma_shape_template(raw: Seq<char>, last: bool)
    requires
        pattern::shape_of(raw, last) is Ok,
        !raw.contains('/'),
    ensures
        pattern::shape_of(raw, last)->Ok_0.valid(),
        pattern::shape_of(raw, last)->Ok_0.template() == raw,
        pattern::shape_of(raw, last)->Ok_0 is Rest ==> last,
{
    reveal_strlit("{*");
    reveal_strlit("{");
    reveal_strlit("}");
    reveal_strlit(".");
    reveal_strlit("..");
    let shape = pattern::shape_of(raw, last)->Ok_0;
    lemma_first_index(raw, '{');
    if text::has_prefix(raw, "{*"@) {
        assert(raw.subrange(0, 2) =~= "{*"@);
        assert(raw[0] == raw.subrange(0, 2)[0]);
        assert(raw[1] == raw.subrange(0, 2)[1]);
        assert(shape.template() =~= raw);
    } else if raw[0] == '{' && raw.last() == '}' {
        assert(shape.template() =~= raw);
    } else if raw.contains('{') {
        let start = pattern::first_index(raw, '{');
        let prefix = raw.subrange(0, start);
        assert(shape.template() =~= raw);
        assert forall|k: int| 0 <= k < prefix.len() implies prefix[k] != '{' && prefix[k]
            != '/' by {
            assert(prefix[k] == raw[k]);
        }
    }
}

/// A valid shape is read back from its template segment.
proof fn lemma_template_shape(shape: Shape, last: bool)
    requires
        shape.valid(),
        shape is Rest ==> last,
    ensures
        pattern::shape_of(shape.template(), last) == Ok::<Shape, Seq<char>>(shape),
        path::valid_segment(shape.template()),
{
    reveal_strlit("{*");
    reveal_strlit("{");
    reveal_strlit("}");
    reveal_strlit(".");
    reveal_strlit("..");
    let raw = shape.template();
    match shape {
        Shape::Literal(value) => {
            assert(!raw.contains('{'));
            if text::has_prefix(raw, "{*"@) {
                assert(raw.subrange(0, 2)[0] == '{');
                assert(raw[0] == '{');
                assert(raw.contains('{'));
            }
        },
        Shape::Capture { name, prefix } => {
            let head = match prefix {
                None => Seq::empty(),
                Some(prefix) => prefix,
            };
            assert(raw.len() == head.len() + name.len() + 2);
            assert(raw.last() == '}');
            assert(raw[head.len() as int] == '{');
            assert(raw.subrange(head.len() as int + 1, raw.len() - 1) =~= name);
            assert(raw.subrange(0, head.len() as int) =~= head);
            assert forall|k: int| 0 <= k < head.len() implies raw[k] != '{' by {
                assert(raw[k] == head[k]);
            }
            lemma_first_index_unique(raw, '{', head.len() as int);
            assert forall|k: int| 0 <= k < name.len() implies name[k] != '{' && name[k] != '/' && (
            k == 0 ==> name[k] != '*') by {
                if k > 0 {
                    assert(pattern::continues_name(name[k]));
                }
            }
            if text::has_prefix(raw, "{*"@) {
                assert(raw.subrange(0, 2)[0] == '{');
                assert(raw.subrange(0, 2)[1] == '*');
                assert(raw[0] == '{' && raw[1] == '*');
                assert(head.len() == 0);
                assert(raw[1] == name[0]);
            }
            assert(raw.contains('{'));
            assert(!raw.contains('/')) by {
                if raw.contains('/') {
                    let k = choose|k: int| 0 <= k < raw.len() && raw[k] == '/';
                    if k < head.len() {
                        assert(head[k] == '/');
                    } else if head.len() < k < raw.len() - 1 {
                        assert(name[k - head.len() - 1] == '/');
                    }
                }
            }
            if prefix is Some {
                assert(raw[0] == head[0]);
            }
        },
        Shape::Rest { name } => {
            assert(raw.len() == name.len() + 3);
            assert(raw.subrange(0, 2) =~= "{*"@);
            assert(raw.subrange(2, raw.len() - 1) =~= name);
            assert(raw.last() == '}');
            assert(!raw.contains('/')) by {
                if raw.contains('/') {
                    let k = choose|k: int| 0 <= k < raw.len() && raw[k] == '/';
                    if 2 <= k < raw.len() - 1 {
                        assert(name[k - 2] == '/');
                        if k > 2 {
                            assert(pattern::continues_name(name[k - 2]));
                        }
                    }
                }
            }
        },
    }
}

/// The shapes read so far come from the segments read so far.
proof fn lemma_shapes_upto(raws: Seq<Seq<char>>, n: nat)
    requires
        n <= raws.len(),
        pattern::shapes_upto(raws, n) is Ok,
    ensures
        pattern::shapes_upto(raws, n)->Ok_0.len() == n,
        forall|i: int|
            0 <= i < n ==> pattern::shape_of(raws[i], i + 1 == raws.len()) == Ok::<
                Shape,
                Seq<char>,
            >(#[trigger] pattern::shapes_upto(raws, n)->Ok_0[i]),
    decreases n,
{
    if n > 0 {
        lemma_shapes_upto(raws, (n - 1) as nat);
    }
}

/// Shapes whose template segments were read are the result of the reading.
proof fn lemma_shapes_upto_of(raws: Seq<Seq<char>>, shapes: Seq<Shape>, n: nat)
    requires
        n <= raws.len(),
        shapes.len() == raws.len(),
        forall|i: int|
            0 <= i < raws.len() ==> pattern::shape_of(#[trigger] raws[i], i + 1 == raws.len())
                == Ok::<Shape, Seq<char>>(shapes[i]),
    ensures
        pattern::shapes_upto(raws, n) == Ok::<Seq<Shape>, Seq<char>>(shapes.take(n as int)),
    decreases n,
{
    if n > 0 {
        lemma_shapes_upto_of(raws, shapes, (n - 1) as nat);
        assert(raws[n - 1] == raws[n - 1]);
        assert(shapes.take(n as int) =~= shapes.take(n - 1).push(shapes[n - 1]));
    } else {
        assert(shapes.take(0) =~= Seq::empty());
    }
}

/// Joined non-empty pieces without a slash hold no two slashes in a row, and
/// neither begin nor end with one.
proof fn lemma_joined_slashes(parts: Seq<Seq<char>>)
    requires
        parts.len() > 0,
        path::valid_segments(parts),
    ensures
        text::joined(parts, "/"@).len() > 0,
        text::joined(parts, "/"@)[0] != '/',
        text::joined(parts, "/"@).last() != '/',
        !pattern::double_slash(text::joined(parts, "/"@)),
    decreases parts.len(),
{
    reveal_strlit("/");
    let s = text::joined(parts, "/"@);
    let tail = parts.last();
    assert(path::valid_segment(tail));
    assert(tail.contains(tail[0]));
    assert(tail.contains(tail.last()));
    assert forall|k: int| 0 <= k < tail.len() implies tail[k] != '/' by {
        assert(tail.contains(tail[k]));
    }
    if parts.len() == 1 {
        assert(s == tail);
    } else {
        let rest = parts.drop_last();
        assert forall|i: int| 0 <= i < rest.len() implies path::valid_segment(
            #[trigger] rest[i],
        ) by {
            assert(rest[i] == parts[i]);
        }
        lemma_joined_slashes(rest);
        let head = text::joined(rest, "/"@);
        assert(s == head + "/"@ + tail);
        assert(s[0] == head[0]);
        assert(s.last() == tail.last());
        if pattern::double_slash(s) {
            let i = choose|i: int|
                0 <= i && i + 1 < s.len() && #[trigger] s[i] == '/' && s[i + 1] == '/';
            if i + 1 < head.len() {
                assert(head[i] == '/' && head[i + 1] == '/');
            } else if i + 1 == head.len() {
                assert(s[i] == head.last());
            } else {
                assert(s[i + 1] == tail[i + 1 - head.len() - 1]);
            }
        }
    }
}

/// Every list of valid shapes is written as a template that compiles to it.
pub proof fn law_template_round_trip(shapes: Seq<Shape>)
    requires
        pattern::valid_shapes(shapes),
    ensures
        pattern::template_of(template_text(shapes)) == Ok::<Seq<Shape>, Seq<char>>(shapes),
{
    reveal_strlit("/");
    let raws = templates(shapes);
    let template = template_text(shapes);
    if shapes.len() == 0 {
        assert(shapes =~= Seq::empty());
    } else {
        assert forall|i: int| 0 <= i < raws.len() implies pattern::shape_of(
            #[trigger] raws[i],
            i + 1 == raws.len(),
        ) == Ok::<Shape, Seq<char>>(shapes[i]) && path::valid_segment(raws[i]) by {
            assert(shapes[i].valid());
            lemma_template_shape(shapes[i], i + 1 == raws.len());
        }
        let body = text::joined(raws, "/"@);
        lemma_joined_slashes(raws);
        assert("/"@ =~= seq!['/']);
        assert(template.drop_first() =~= body);
        assert forall|i: int| 0 <= i < raws.len() implies !(#[trigger] raws[i]).contains('/') by {
            assert(path::valid_segment(raws[i]));
        }
        text::lemma_split_join(raws, '/');
        assert(template.len() >= 2);
        assert(template.last() == body.last());
        if pattern::double_slash(template) {
            let i = choose|i: int|
                0 <= i && i + 1 < template.len() && #[trigger] template[i] == '/' && template[i
                    + 1] == '/';
            if i == 0 {
                assert(template[1] == body[0]);
            } else {
                assert(body[i - 1] == '/' && body[i] == '/');
            }
        }
        lemma_shapes_upto_of(raws, shapes, raws.len());
        assert(shapes.take(raws.len() as int) =~= shapes);
    }
}

/// A template that compiles holds only valid shapes, and it is the only one
/// that compiles to them.
pub proof fn law_template_unique(template: Seq<char>)
    requires
        pattern::template_of(template) is Ok,
    ensures
        pattern::valid_shapes(pattern::template_of(template)->Ok_0),
        template_text(pattern::template_of(template)->Ok_0) == template,
{
    reveal_strlit("/");
    let shapes = pattern::template_of(template)->Ok_0;
    if template == "/"@ {
        assert(templates(shapes) =~= Seq::empty());
    } else {
        let raws = text::split_at(template.drop_first(), '/');
        text::lemma_split_pieces(template.drop_first(), '/');
        text::lemma_join_split(template.drop_first(), '/');
        lemma_shapes_upto(raws, raws.len());
        assert forall|i: int| 0 <= i < shapes.len() implies (#[trigger] shapes[i]).valid() && (
        shapes[i] is Rest ==> i == shapes.len() - 1) && shapes[i].template() == raws[i] by {
            lemma_shape_template(raws[i], i + 1 == raws.len());
        }
        assert(templates(shapes) =~= raws);
        assert("/"@ =~= seq!['/']);
        assert(seq!['/'] + template.drop_first() =~= template);
    }
}

/// Precedence is a strict order: no key is below itself, and below is
/// transitive.
pub proof fn law_precedence_order(a: PrecedenceKey, b: PrecedenceKey, c: PrecedenceKey)
    ensures
        !a.below(a),
        a.below(b) && b.below(c) ==> a.below(c),
{
}

/// Of two different keys one is below the other.
pub proof fn law_precedence_total(a: PrecedenceKey, b: PrecedenceKey)
    ensures
        a.below(b) || b.below(a) || a == b,
{
}

/// Any pattern without a rest capture beats any pattern with one.
pub proof fn law_rest_has_lowest_precedence(rest: Seq<Shape>, other: Seq<Shape>)
    requires
        pattern::has_rest(rest),
        !pattern::has_rest(other),
    ensures
        pattern::precedence(rest).below(pattern::precedence(other)),
{
}

/// Two shapes overlap whichever comes first.
proof fn lemma_overlap_symmetric(left: Shape, right: Shape)
    ensures
        left.overlaps(right) == right.overlaps(left),
{
}

/// Ambiguity does not depend on which of two patterns is asked.
pub proof fn law_ambiguity_symmetric(left: Seq<Shape>, right: Seq<Shape>)
    ensures
        pattern::ambiguous(left, right) == pattern::ambiguous(right, left),
{
    assert forall|l: Seq<Shape>, r: Seq<Shape>, n: int| l.len() >= n && r.len() >= n
        && pattern::overlap_upto(l, r, n) implies pattern::overlap_upto(r, l, n) by {
        assert forall|i: int| 0 <= i < n && i < r.len() && i < l.len() implies (
        #[trigger] r[i]).overlaps(l[i]) by {
            lemma_overlap_symmetric(l[i], r[i]);
            assert(l[i].overlaps(r[i]));
        }
    }
}

/// A rest pattern is never ambiguous with a pattern without a rest capture.
pub proof fn law_rest_never_ambiguous_with_fixed(rest: Seq<Shape>, fixed: Seq<Shape>)
    requires
        pattern::has_rest(rest),
        !pattern::has_rest(fixed),
    ensures
        !pattern::ambiguous(rest, fixed),
        !pattern::ambiguous(fixed, rest),
{
}

/// Two shapes that both match a segment overlap.
proof fn lemma_common_segment_overlaps(left: Shape, right: Shape, segment: Seq<char>)
    requires
        left.matches(segment),
        right.matches(segment),
    ensures
        left.overlaps(right),
{
    match (left, right) {
        (
            Shape::Capture { prefix: Some(l), .. },
            Shape::Capture { prefix: Some(r), .. },
        ) => {
            if l.len() <= r.len() {
                assert(r.subrange(0, l.len() as int) =~= segment.subrange(0, l.len() as int));
            } else {
                assert(l.subrange(0, r.len() as int) =~= segment.subrange(0, r.len() as int));
            }
        },
        _ => {},
    }
}

/// Two patterns of equal precedence that both match some path are ambiguous:
/// the startup check misses no pair that could leave dispatch undecided.
pub proof fn law_equal_precedence_overlap_is_ambiguous(
    left: Seq<Shape>,
    right: Seq<Shape>,
    segments: Seq<Seq<char>>,
)
    requires
        pattern::path_matches(left, segments),
        pattern::path_matches(right, segments),
        pattern::precedence(left) == pattern::precedence(right),
    ensures
        pattern::ambiguous(left, right),
{
    let n = pattern::fixed_len(left);
    assert forall|i: int| 0 <= i < n && i < left.len() && i < right.len() implies (
    #[trigger] left[i]).overlaps(right[i]) by {
        assert(left[i].matches(segments[i]));
        assert(right[i].matches(segments[i]));
        lemma_common_segment_overlaps(left[i], right[i], segments[i]);
    }
}

/// A segment that both of two overlapping shapes match.
spec fn common_segment(left: Shape, right: Shape) -> Seq<char> {
    match (left, right) {
        (Shape::Literal(value), _) => value,
        (_, Shape::Literal(value)) => value,
        (Shape::Capture { prefix: Some(l), .. }, Shape::Capture { prefix: Some(r), .. }) => if text::has_prefix(l, r) {
            l.push('x')
        } else {
            r.push('x')
        },
        (Shape::Capture { prefix: Some(l), .. }, _) => l.push('x'),
        (_, Shape::Capture { prefix: Some(r), .. }) => r.push('x'),
        _ => seq!['x'],
    }
}

/// A prefix with one more letter is a valid segment that extends the prefix.
proof fn lemma_extended_prefix(prefix: Seq<char>)
    requires
        !prefix.contains('/'),
    ensures
        path::valid_segment(prefix.push('x')),
        text::extends(prefix.push('x'), prefix),
{
    reveal_strlit(".");
    reveal_strlit("..");
    let s = prefix.push('x');
    assert(s.last() == 'x');
    assert(s.subrange(0, prefix.len() as int) =~= prefix);
    if s.contains('/') {
        let k = choose|k: int| 0 <= k < s.len() && s[k] == '/';
        assert(prefix[k] == '/');
    }
}

/// Two valid overlapping shapes have a valid segment in common.
proof fn lemma_overlap_common_segment(left: Shape, right: Shape)
    requires
        left.valid(),
        right.valid(),
        !(left is Rest),
        !(right is Rest),
        left.overlaps(right),
    ensures
        path::valid_segment(common_segment(left, right)),
        left.matches(common_segment(left, right)),
        right.matches(common_segment(left, right)),
{
    reveal_strlit(".");
    reveal_strlit("..");
    let s = common_segment(left, right);
    match (left, right) {
        (Shape::Literal(value), _) => {},
        (_, Shape::Literal(value)) => {},
        (
            Shape::Capture { prefix: Some(l), .. },
            Shape::Capture { prefix: Some(r), .. },
        ) => {
            if text::has_prefix(l, r) {
                lemma_extended_prefix(l);
                assert(s.subrange(0, r.len() as int) =~= l.subrange(0, r.len() as int));
            } else {
                lemma_extended_prefix(r);
                assert(s.subrange(0, l.len() as int) =~= r.subrange(0, l.len() as int));
            }
        },
        (Shape::Capture { prefix: Some(l), .. }, _) => {
            lemma_extended_prefix(l);
        },
        (_, Shape::Capture { prefix: Some(r), .. }) => {
            lemma_extended_prefix(r);
        },
        _ => {
            assert(s[0] == 'x');
        },
    }
}

/// The path on which two ambiguous patterns collide.
pub open spec fn collide(
    left: Seq<Shape>,
    right: Seq<Shape>,
    segments: Seq<Seq<char>>,
) -> bool {
    path::valid_segments(segments) && pattern::path_matches(left, segments)
        && pattern::path_matches(right, segments)
}

/// The startup check rejects nothing needlessly: two ambiguous patterns both
/// match some valid path.
pub proof fn law_ambiguous_patterns_collide(left: Seq<Shape>, right: Seq<Shape>)
    requires
        pattern::valid_shapes(left),
        pattern::valid_shapes(right),
        pattern::ambiguous(left, right),
    ensures
        exists|segments: Seq<Seq<char>>| #[trigger] collide(left, right, segments),
{
    let n = pattern::fixed_len(left);
    let segments = Seq::new(n as nat, |i: int| common_segment(left[i], right[i]));
    assert forall|i: int| 0 <= i < n implies path::valid_segment(#[trigger] segments[i])
        && left[i].matches(segments[i]) && right[i].matches(segments[i]) by {
        assert(left[i].valid());
        assert(right[i].valid());
        assert(left[i].overlaps(right[i]));
        lemma_overlap_common_segment(left[i], right[i]);
    }
    assert(collide(left, right, segments));
}

/// Every ancestor of a matching path matches as a prefix, and above the
/// pattern's own length it is a strict ancestor.
pub proof fn law_ancestors_match(shapes: Seq<Shape>, segments: Seq<Seq<char>>, n: int)
    requires
        pattern::path_matches(shapes, segments),
        0 <= n <= segments.len(),
    ensures
        pattern::prefix_matches(shapes, segments.take(n)),
        n < pattern::fixed_len(shapes) ==> pattern::strict_ancestor(shapes, segments.take(n)),
{
    let head = segments.take(n);
    assert forall|i: int| 0 <= i < pattern::fixed_len(shapes) && i < head.len() implies (
    #[trigger] shapes[i]).matches(head[i]) by {
        assert(head[i] == segments[i]);
    }
}

/// The bindings of the first shapes stay at the front.
proof fn lemma_captures_prefix(shapes: Seq<Shape>, segments: Seq<Seq<char>>, n: nat, m: nat)
    requires
        n <= m,
    ensures
        pattern::captures_upto(shapes, segments, n).len() <= pattern::captures_upto(
            shapes,
            segments,
            m,
        ).len(),
        pattern::captures_upto(shapes, segments, m).take(
            pattern::captures_upto(shapes, segments, n).len() as int,
        ) == pattern::captures_upto(shapes, segments, n),
    decreases m,
{
    let small = pattern::captures_upto(shapes, segments, n);
    let big = pattern::captures_upto(shapes, segments, m);
    if n < m {
        lemma_captures_prefix(shapes, segments, n, (m - 1) as nat);
        let middle = pattern::captures_upto(shapes, segments, (m - 1) as nat);
        assert(big.take(small.len() as int) =~= middle.take(small.len() as int));
    } else {
        assert(big.take(small.len() as int) =~= small);
    }
}

/// The first binding of a name is found whatever follows.
proof fn lemma_lookup_prefix(bindings: captures::Bindings, name: Seq<char>, n: int)
    requires
        0 <= n <= bindings.len(),
        captures::lookup(bindings.take(n), name) is Some,
    ensures
        captures::lookup(bindings, name) == captures::lookup(bindings.take(n), name),
    decreases bindings.len(),
{
    assert(n > 0);
    assert(bindings.take(n)[0] == bindings[0]);
    if bindings[0].0 != name {
        assert(bindings.take(n).drop_first() =~= bindings.drop_first().take(n - 1));
        lemma_lookup_prefix(bindings.drop_first(), name, n - 1);
    }
}

/// A binding at the end is found if there was none before it.
proof fn lemma_lookup_push(
    bindings: captures::Bindings,
    name: Seq<char>,
    binding: (Seq<char>, Seq<char>),
)
    ensures
        captures::lookup(bindings.push(binding), name) == (match captures::lookup(
            bindings,
            name,
        ) {
            Some(value) => Some(value),
            None => if binding.0 == name {
                Some(binding.1)
            } else {
                None
            },
        }),
    decreases bindings.len(),
{
    let all = bindings.push(binding);
    if bindings.len() == 0 {
        assert(all.drop_first() =~= Seq::empty());
        assert(captures::lookup(all.drop_first(), name) is None);
    } else {
        assert(all[0] == bindings[0]);
        assert(all.drop_first() =~= bindings.drop_first().push(binding));
        lemma_lookup_push(bindings.drop_first(), name, binding);
    }
}

/// Before its place a capture has no binding.
proof fn lemma_unbound_before(
    shapes: Seq<Shape>,
    segments: Seq<Seq<char>>,
    name: Seq<char>,
    n: nat,
)
    requires
        n <= shapes.len(),
        pattern::valid_shapes(shapes),
        n < shapes.len() || !pattern::has_rest(shapes),
        forall|i: int|
            0 <= i < n ==> !((#[trigger] shapes[i]) matches Shape::Capture { name: other, .. }
                && other == name),
    ensures
        captures::lookup(pattern::captures_upto(shapes, segments, n), name) is None,
    decreases n,
{
    if n > 0 {
        lemma_unbound_before(shapes, segments, name, (n - 1) as nat);
        let head = pattern::captures_upto(shapes, segments, (n - 1) as nat);
        assert(shapes[n - 1].valid());
        if let Some(binding) = pattern::binding_at(shapes[n - 1], n - 1, segments) {
            lemma_lookup_push(head, name, binding);
        }
    }
}

/// The place that is found is the first capture of that name.
pub proof fn lemma_place_from(shapes: Seq<Shape>, name: Seq<char>, i: nat)
    requires
        pattern::place_from(shapes, name, i) is Some,
    ensures
        i <= pattern::place_from(shapes, name, i)->0.index < shapes.len(),
        ({
            let place = pattern::place_from(shapes, name, i)->0;
            shapes[place.index as int] == (Shape::Capture { name, prefix: place.prefix })
        }),
        forall|k: int|
            i <= k < pattern::place_from(shapes, name, i)->0.index ==> !((#[trigger] shapes[k])
                matches Shape::Capture { name: other, .. } && other == name),
    decreases shapes.len() - i,
{
    let place = pattern::place_from(shapes, name, i)->0;
    if !(shapes[i as int] matches Shape::Capture { name: other, .. } && other == name) {
        lemma_place_from(shapes, name, i + 1);
        assert(place == pattern::place_from(shapes, name, i + 1)->0);
    }
}

/// A located capture binds the value behind its prefix in its segment.
pub proof fn lemma_located_value(shapes: Seq<Shape>, segments: Seq<Seq<char>>, name: Seq<char>)
    requires
        pattern::valid_shapes(shapes),
        pattern::place_of(shapes, name) is Some,
        pattern::place_of(shapes, name)->0.index < segments.len(),
    ensures
        ({
            let place = pattern::place_of(shapes, name)->0;
            captures::lookup(pattern::captures_of(shapes, segments), name) == Some(
                pattern::capture_value(place.prefix, segments[place.index as int]),
            )
        }),
{
    let place = pattern::place_of(shapes, name)->0;
    lemma_place_from(shapes, name, 0);
    lemma_unbound_before(shapes, segments, name, place.index);
    let before = pattern::captures_upto(shapes, segments, place.index);
    let value = pattern::capture_value(place.prefix, segments[place.index as int]);
    let upto = pattern::captures_upto(shapes, segments, place.index + 1);
    assert(upto == before.push((name, value)));
    lemma_lookup_push(before, name, (name, value));
    lemma_captures_prefix(shapes, segments, place.index + 1, shapes.len());
    lemma_lookup_prefix(
        pattern::captures_of(shapes, segments),
        name,
        upto.len() as int,
    );
}

/// Rendering a captured value at its location gives the path segment back.
pub proof fn law_capture_render_round_trip(
    shapes: Seq<Shape>,
    segments: Seq<Seq<char>>,
    name: Seq<char>,
)
    requires
        pattern::valid_shapes(shapes),
        pattern::path_matches(shapes, segments),
        pattern::place_of(shapes, name) is Some,
    ensures
        ({
            let place = pattern::place_of(shapes, name)->0;
            captures::lookup(pattern::captures_of(shapes, segments), name) matches Some(value)
                && pattern::render_value(place.prefix, value) == segments[place.index as int]
        }),
{
    let place = pattern::place_of(shapes, name)->0;
    lemma_place_from(shapes, name, 0);
    assert(shapes[place.index as int].matches(segments[place.index as int]));
    lemma_located_value(shapes, segments, name);
    if let Some(prefix) = place.prefix {
        let raw = segments[place.index as int];
        assert(prefix + text::after_prefix(raw, prefix) =~= raw);
    }
}

/// Putting a non-empty value in a capture's place keeps the path matching,
/// and the capture then has that value.
pub proof fn law_capture_substitution(
    shapes: Seq<Shape>,
    segments: Seq<Seq<char>>,
    name: Seq<char>,
    value: Seq<char>,
)
    requires
        pattern::valid_shapes(shapes),
        pattern::path_matches(shapes, segments),
        pattern::place_of(shapes, name) is Some,
        value.len() > 0,
    ensures
        ({
            let place = pattern::place_of(shapes, name)->0;
            let changed = segments.update(
                place.index as int,
                pattern::render_value(place.prefix, value),
            );
            &&& pattern::path_matches(shapes, changed)
            &&& captures::lookup(pattern::captures_of(shapes, changed), name) == Some(value)
        }),
{
    let place = pattern::place_of(shapes, name)->0;
    lemma_place_from(shapes, name, 0);
    let written = pattern::render_value(place.prefix, value);
    let changed = segments.update(place.index as int, written);
    if let Some(prefix) = place.prefix {
        assert(written.subrange(0, prefix.len() as int) =~= prefix);
        assert(text::after_prefix(written, prefix) =~= value);
    }
    assert(shapes[place.index as int].matches(written));
    assert forall|i: int|
        0 <= i < pattern::fixed_len(shapes) && i < shapes.len() && i < changed.len() implies (
    #[trigger] shapes[i]).matches(changed[i]) by {
        assert(shapes[i].matches(segments[i]));
    }
    lemma_located_value(shapes, changed, name);
}

/// Two matching paths with the same captures are the same path.
pub proof fn law_captures_determine_path(
    shapes: Seq<Shape>,
    left: Seq<Seq<char>>,
    right: Seq<Seq<char>>,
)
    requires
        pattern::valid_shapes(shapes),
        path::valid_segments(left),
        path::valid_segments(right),
        pattern::path_matches(shapes, left),
        pattern::path_matches(shapes, right),
        pattern::captures_of(shapes, left) == pattern::captures_of(shapes, right),
    ensures
        left == right,
{
    let n = pattern::fixed_len(shapes);
    assert forall|i: int| 0 <= i < n implies #[trigger] left[i] == right[i] by {
        lemma_same_bindings(shapes, left, right, i);
        assert(shapes[i].matches(left[i]));
        assert(shapes[i].matches(right[i]));
        assert(shapes[i].valid());
        if let Shape::Capture { name, prefix: Some(prefix) } = shapes[i] {
            assert(left[i] =~= prefix + text::after_prefix(left[i], prefix));
            assert(right[i] =~= prefix + text::after_prefix(right[i], prefix));
        }
    }
    if pattern::has_rest(shapes) {
        lemma_same_bindings(shapes, left, right, n);
        lemma_joined_injective(left.skip(n), right.skip(n));
        assert(left =~= left.take(n) + left.skip(n));
        assert(right =~= right.take(n) + right.skip(n));
        assert(left.take(n) =~= right.take(n));
    } else {
        assert(left =~= right);
    }
}

/// Valid segments are determined by their joined text.
proof fn lemma_joined_injective(left: Seq<Seq<char>>, right: Seq<Seq<char>>)
    requires
        path::valid_segments(left),
        path::valid_segments(right),
        text::joined(left, "/"@) == text::joined(right, "/"@),
    ensures
        left == right,
{
    reveal_strlit("/");
    assert("/"@ =~= seq!['/']);
    if left.len() > 0 {
        lemma_joined_slashes(left);
    }
    if right.len() > 0 {
        lemma_joined_slashes(right);
    }
    if left.len() > 0 && right.len() > 0 {
        assert forall|i: int| 0 <= i < left.len() implies !(#[trigger] left[i]).contains('/') by {
            assert(path::valid_segment(left[i]));
        }
        assert forall|i: int| 0 <= i < right.len() implies !(
        #[trigger] right[i]).contains('/') by {
            assert(path::valid_segment(right[i]));
        }
        text::lemma_split_join(left, '/');
        text::lemma_split_join(right, '/');
    } else {
        assert(left =~= right);
    }
}

/// Paths that are bound alike are bound alike at each position, when each
/// shape finds its segments in both.
proof fn lemma_same_bindings(
    shapes: Seq<Shape>,
    left: Seq<Seq<char>>,
    right: Seq<Seq<char>>,
    i: int,
)
    requires
        pattern::path_matches(shapes, left),
        pattern::path_matches(shapes, right),
        pattern::captures_of(shapes, left) == pattern::captures_of(shapes, right),
        0 <= i < shapes.len(),
    ensures
        pattern::binding_at(shapes[i], i, left) == pattern::binding_at(shapes[i], i, right),
{
    lemma_bindings_count(shapes, left, right, i as nat);
    lemma_bindings_count(shapes, left, right, i as nat + 1);
    lemma_captures_prefix(shapes, left, i as nat + 1, shapes.len());
    lemma_captures_prefix(shapes, right, i as nat + 1, shapes.len());
    let l = pattern::captures_upto(shapes, left, i as nat + 1);
    let r = pattern::captures_upto(shapes, right, i as nat + 1);
    assert(l =~= r);
    if pattern::binding_at(shapes[i], i, left) is Some {
        assert(l.last() == r.last());
    }
}

/// How many captures the first shapes bind does not depend on the path.
proof fn lemma_bindings_count(
    shapes: Seq<Shape>,
    left: Seq<Seq<char>>,
    right: Seq<Seq<char>>,
    n: nat,
)
    requires
        pattern::path_matches(shapes, left),
        pattern::path_matches(shapes, right),
        n <= shapes.len(),
    ensures
        pattern::captures_upto(shapes, left, n).len() == pattern::captures_upto(
            shapes,
            right,
            n,
        ).len(),
    decreases n,
{
    if n > 0 {
        lemma_bindings_count(shapes, left, right, (n - 1) as nat);
    }
}

/// Which segments a shape asks for: a literal asks for itself, a capture for
/// any segment that is not empty, a prefix capture for its prefix with
/// something behind it, and a rest capture for anything.
pub proof fn law_shape_asks_for_its_segments(shape: Shape, segment: Seq<char>)
    ensures
        shape.matches(segment) <==> match shape {
            Shape::Literal(value) => segment == value,
            Shape::Capture { prefix: None, .. } => segment.len() > 0,
            Shape::Capture { prefix: Some(prefix), .. } => exists|value: Seq<char>|
                value.len() > 0 && segment == #[trigger] (prefix + value),
            Shape::Rest { .. } => true,
        },
{
    if let Shape::Capture { prefix: Some(prefix), .. } = shape {
        if text::extends(segment, prefix) {
            let value = text::after_prefix(segment, prefix);
            assert(prefix + value =~= segment);
        }
        if exists|value: Seq<char>| value.len() > 0 && segment == #[trigger] (prefix + value) {
            let value = choose|value: Seq<char>|
                value.len() > 0 && segment == #[trigger] (prefix + value);
            assert(segment.subrange(0, prefix.len() as int) =~= prefix);
        }
    }
}

/// A path matches a pattern segment by segment: as many segments as shapes, or
/// at least as many as there are before a rest capture.
pub proof fn law_path_matches_segment_by_segment(shapes: Seq<Shape>, segments: Seq<Seq<char>>)
    requires
        pattern::valid_shapes(shapes),
    ensures
        pattern::path_matches(shapes, segments) <==> {
            &&& if shapes.len() > 0 && shapes.last() is Rest {
                segments.len() >= shapes.len() - 1
            } else {
                segments.len() == shapes.len()
            }
            &&& forall|i: int|
                0 <= i < shapes.len() && i < segments.len() ==> (#[trigger] shapes[i]).matches(
                    segments[i],
                )
        },
{
}

/// Every capture of a matching path binds its name: a plain one to its whole
/// segment, a prefix capture to what its segment has behind the prefix, a rest
/// capture to the segments from its place on, joined by slashes.
pub proof fn law_captures_bind_their_segments(
    shapes: Seq<Shape>,
    segments: Seq<Seq<char>>,
    i: int,
)
    requires
        pattern::valid_shapes(shapes),
        pattern::path_matches(shapes, segments),
        0 <= i < shapes.len(),
    ensures
        match shapes[i] {
            Shape::Literal(_) => true,
            Shape::Capture { name, prefix: None } => pattern::captures_of(
                shapes,
                segments,
            ).contains((name, segments[i])),
            Shape::Capture { name, prefix: Some(prefix) } => exists|value: Seq<char>|
                segments[i] == prefix + value && #[trigger] pattern::captures_of(
                    shapes,
                    segments,
                ).contains((name, value)),
            Shape::Rest { name } => pattern::captures_of(shapes, segments).contains(
                (name, text::joined(segments.skip(i), "/"@)),
            ),
        },
{
    assert(shapes[i].valid());
    if i < segments.len() && i < pattern::fixed_len(shapes) {
        assert(shapes[i].matches(segments[i]));
    }
    if let Some(binding) = pattern::binding_at(shapes[i], i, segments) {
        lemma_binding_stays(shapes, segments, shapes.len(), i, binding);
        assert(pattern::captures_of(shapes, segments).contains(binding));
        if let Shape::Capture { name, prefix: Some(prefix) } = shapes[i] {
            assert(segments[i] =~= prefix + binding.1);
            assert(binding == (name, binding.1));
        }
    }
}

proof fn lemma_binding_stays(
    shapes: Seq<Shape>,
    segments: Seq<Seq<char>>,
    n: nat,
    i: int,
    binding: (Seq<char>, Seq<char>),
)
    requires
        0 <= i < n <= shapes.len(),
        pattern::binding_at(shapes[i], i, segments) == Some(binding),
    ensures
        pattern::captures_upto(shapes, segments, n).contains(binding),
    decreases n,
{
    let last = n - 1;
    let head = pattern::captures_upto(shapes, segments, last as nat);
    let all = pattern::captures_upto(shapes, segments, n);
    if i < last {
        lemma_binding_stays(shapes, segments, last as nat, i, binding);
        let k = choose|k: int| 0 <= k < head.len() && head[k] == binding;
        assert(all[k] == binding);
    } else {
        assert(all[head.len() as int] == binding);
    }
}

/// A pattern binds as many names as it has captures, and a pattern of literals
/// binds none.
pub proof fn law_only_captures_bind(shapes: Seq<Shape>, segments: Seq<Seq<char>>)
    requires
        pattern::valid_shapes(shapes),
        pattern::path_matches(shapes, segments),
    ensures
        pattern::captures_of(shapes, segments).len() + pattern::literals(shapes) == shapes.len(),
{
    lemma_bindings_counted(shapes, segments, shapes.len());
    assert(shapes.take(shapes.len() as int) =~= shapes);
}

proof fn lemma_bindings_counted(shapes: Seq<Shape>, segments: Seq<Seq<char>>, n: nat)
    requires
        pattern::valid_shapes(shapes),
        pattern::path_matches(shapes, segments),
        n <= shapes.len(),
    ensures
        pattern::captures_upto(shapes, segments, n).len() + pattern::literals(shapes.take(n as int))
            == n,
    decreases n,
{
    if n > 0 {
        lemma_bindings_counted(shapes, segments, (n - 1) as nat);
        assert(shapes.take(n as int).drop_last() =~= shapes.take(n - 1));
        assert(shapes.take(n as int).last() == shapes[n - 1]);
        assert(shapes[n - 1].valid());
    }
}

/// Precedence compares what patterns pin down, in this order: a pattern
/// without a rest capture wins, then the one with more literals, then the one
/// with more prefix captures, then the longer one.
pub proof fn law_precedence_compares_in_order(a: Seq<Shape>, b: Seq<Shape>)
    ensures
        ({
            let plain = |s: Shape| s is Literal;
            let prefixed = |s: Shape| s matches Shape::Capture { prefix: Some(_), .. };
            let rest = |s: Seq<Shape>| s.len() > 0 && s.last() is Rest;
            pattern::precedence(a).below(pattern::precedence(b)) <==> if rest(a) != rest(b) {
                rest(a)
            } else if a.filter(plain).len() != b.filter(plain).len() {
                a.filter(plain).len() < b.filter(plain).len()
            } else if a.filter(prefixed).len() != b.filter(prefixed).len() {
                a.filter(prefixed).len() < b.filter(prefixed).len()
            } else {
                a.len() < b.len()
            }
        }),
{
    lemma_counts(a);
    lemma_counts(b);
}

proof fn lemma_counts(shapes: Seq<Shape>)
    ensures
        shapes.filter(|s: Shape| s is Literal).len() == pattern::literals(shapes),
        shapes.filter(|s: Shape| s matches Shape::Capture { prefix: Some(_), .. }).len()
            == pattern::prefix_captures(shapes),
    decreases shapes.len(),
{
    reveal(Seq::filter);
    if shapes.len() > 0 {
        lemma_counts(shapes.drop_last());
    }
}

/// A path on the way to a pattern can be completed: where a path matches as
/// far as it goes, some path below it, or itself, matches the pattern.
pub proof fn law_prefix_match_can_be_completed(shapes: Seq<Shape>, segments: Seq<Seq<char>>)
    requires
        pattern::valid_shapes(shapes),
        pattern::prefix_matches(shapes, segments),
    ensures
        exists|below: Seq<Seq<char>>| #[trigger]
            pattern::path_matches(shapes, segments + below),
        pattern::strict_ancestor(shapes, segments) ==> segments.len() < shapes.len(),
{
    let n = pattern::fixed_len(shapes);
    let missing = if segments.len() < n {
        n - segments.len()
    } else {
        0
    };
    let below = Seq::new(
        missing as nat,
        |i: int| common_segment(shapes[segments.len() + i], shapes[segments.len() + i]),
    );
    let full = segments + below;
    assert forall|i: int| 0 <= i < n && i < full.len() implies (#[trigger] shapes[i]).matches(
        full[i],
    ) by {
        if i < segments.len() {
            assert(full[i] == segments[i]);
        } else {
            assert(shapes[i].valid());
            assert(shapes[i].overlaps(shapes[i])) by {
                lemma_overlaps_itself(shapes[i]);
            }
            lemma_overlap_common_segment(shapes[i], shapes[i]);
            assert(full[i] == below[i - segments.len()]);
        }
    }
    assert(pattern::path_matches(shapes, full));
}

proof fn lemma_overlaps_itself(shape: Shape)
    ensures
        shape.overlaps(shape),
{
    if let Shape::Capture { prefix: Some(prefix), .. } = shape {
        assert(prefix.subrange(0, prefix.len() as int) =~= prefix);
    }
}

/// The part of a path that a pattern covers: as many segments as the pattern
/// has, or the whole path for a rest capture, and none where those segments do
/// not match.
pub proof fn law_anchor_is_the_covered_part(shapes: Seq<Shape>, segments: Seq<Seq<char>>)
    requires
        pattern::valid_shapes(shapes),
    ensures
        match pattern::anchor_of(shapes, segments) {
            Some(anchor) => {
                &&& pattern::path_matches(shapes, anchor)
                &&& anchor.len() <= segments.len()
                &&& anchor == segments.take(anchor.len() as int)
                &&& shapes.len() > 0 && shapes.last() is Rest ==> anchor == segments
            },
            None => forall|n: int|
                0 <= n <= segments.len() ==> !pattern::path_matches(
                    shapes,
                    #[trigger] segments.take(n),
                ),
        },
{
    match pattern::anchor_of(shapes, segments) {
        Some(anchor) => {
            assert(anchor =~= segments.take(anchor.len() as int));
            assert forall|i: int|
                0 <= i < pattern::fixed_len(shapes) && i < anchor.len() implies (
            #[trigger] shapes[i]).matches(anchor[i]) by {
                assert(anchor[i] == segments[i]);
            }
        },
        None => {
            assert forall|n: int| 0 <= n <= segments.len() implies !pattern::path_matches(
                shapes,
                #[trigger] segments.take(n),
            ) by {
                let head = segments.take(n);
                if pattern::path_matches(shapes, head) {
                    assert forall|i: int|
                        0 <= i < pattern::fixed_len(shapes) && i < shapes.len() && i
                            < segments.len() implies (#[trigger] shapes[i]).matches(
                        segments[i],
                    ) by {
                        assert(head[i] == segments[i]);
                    }
                }
            }
        },
    }
}

/// A name of a letter or an underscore, with letters, digits and underscores
/// behind it.
pub open spec fn capture_name(name: Seq<char>) -> bool {
    &&& name.len() > 0
    &&& !('0' <= name[0] <= '9')
    &&& forall|i: int|
        0 <= i < name.len() ==> ('a' <= (#[trigger] name[i]) <= 'z' || 'A' <= name[i] <= 'Z' || '0'
            <= name[i] <= '9' || name[i] == '_')
}

proof fn lemma_capture_name(name: Seq<char>)
    ensures
        pattern::identifier(name) == capture_name(name),
{
    if pattern::identifier(name) {
        assert forall|i: int| 0 <= i < name.len() implies ('a' <= (#[trigger] name[i]) <= 'z' || 'A'
            <= name[i] <= 'Z' || '0' <= name[i] <= '9' || name[i] == '_') by {
            if i > 0 {
                assert(pattern::continues_name(name[i]));
            }
        }
    }
    if capture_name(name) {
        assert('a' <= name[0] <= 'z' || 'A' <= name[0] <= 'Z' || name[0] == '_');
        assert forall|i: int| 1 <= i < name.len() implies pattern::continues_name(
            #[trigger] name[i],
        ) by {}
    }
}

/// A template segment without braces is a literal that stands for itself.
pub proof fn law_plain_segment_is_a_literal(raw: Seq<char>)
    requires
        path::valid_segment(raw),
        !raw.contains('{'),
    ensures
        pattern::template_of("/"@ + raw) == Ok::<Seq<Shape>, Seq<char>>(
            seq![Shape::Literal(raw)],
        ),
{
    let shapes = seq![Shape::Literal(raw)];
    law_template_round_trip(shapes);
    assert(templates(shapes) =~= seq![raw]);
}

/// A segment in braces is a capture of that name, one with a text in front of
/// the braces a prefix capture, and one with a star behind the opening brace a
/// rest capture, wherever the name is a capture name.
pub proof fn law_braces_make_captures(prefix: Seq<char>, name: Seq<char>)
    requires
        capture_name(name),
    ensures
        pattern::template_of("/"@ + (Seq::<char>::empty() + "{"@ + name + "}"@)) == Ok::<
            Seq<Shape>,
            Seq<char>,
        >(seq![Shape::Capture { name, prefix: None }]),
        pattern::template_of("/"@ + ("{*"@ + name + "}"@)) == Ok::<Seq<Shape>, Seq<char>>(
            seq![Shape::Rest { name }],
        ),
        prefix.len() > 0 && !prefix.contains('{') && !prefix.contains('/') ==> pattern::template_of(
            "/"@ + (prefix + "{"@ + name + "}"@),
        ) == Ok::<Seq<Shape>, Seq<char>>(seq![Shape::Capture { name, prefix: Some(prefix) }]),
{
    lemma_capture_name(name);
    let plain = seq![Shape::Capture { name, prefix: None }];
    let rest = seq![Shape::Rest { name }];
    law_template_round_trip(plain);
    law_template_round_trip(rest);
    assert(templates(plain) =~= seq![Seq::<char>::empty() + "{"@ + name + "}"@]);
    assert(templates(rest) =~= seq!["{*"@ + name + "}"@]);
    if prefix.len() > 0 && !prefix.contains('{') && !prefix.contains('/') {
        let prefixed = seq![Shape::Capture { name, prefix: Some(prefix) }];
        law_template_round_trip(prefixed);
        assert(templates(prefixed) =~= seq![prefix + "{"@ + name + "}"@]);
    }
}

/// A template that compiles has only literals that are segments without
/// braces, only captures with capture names, and a rest capture only at its
/// end.
pub proof fn law_compiled_templates_are_well_formed(template: Seq<char>, i: int)
    requires
        pattern::template_of(template) is Ok,
        0 <= i < pattern::template_of(template)->Ok_0.len(),
    ensures
        ({
            let shapes = pattern::template_of(template)->Ok_0;
            match shapes[i] {
                Shape::Literal(value) => path::valid_segment(value) && !value.contains('{'),
                Shape::Capture { name, prefix } => capture_name(name) && (prefix matches Some(p)
                    ==> p.len() > 0 && !p.contains('{') && !p.contains('/')),
                Shape::Rest { name } => capture_name(name) && i == shapes.len() - 1,
            }
        }),
{
    law_template_unique(template);
    let shapes = pattern::template_of(template)->Ok_0;
    assert(shapes[i].valid());
    match shapes[i] {
        Shape::Capture { name, .. } => {
            lemma_capture_name(name);
        },
        Shape::Rest { name } => {
            lemma_capture_name(name);
        },
        _ => {},
    }
}

} // verus!
