//! Route template grammar, matching, precedence, and ambiguity.
//!
//! # Template grammar
//!
//! A template is an absolute path (`/` alone is the empty pattern). No
//! trailing slash, no empty segments, no `.` or `..`. Each segment is one of:
//!
//! - a literal: `issues`, `repo.json`
//! - a bare capture: `{owner}` (matches any non-empty segment)
//! - a prefix capture: `@{resolver}`, `v{version}` (a non-empty literal
//!   prefix glued to a capture in one segment; matches segments that start
//!   with the prefix and have a non-empty remainder, and the capture value
//!   is the remainder with the prefix stripped)
//! - a rest capture: `{*rest}` (multi-segment; only legal as the final
//!   segment, and matches zero or more trailing segments joined by `/`)
//!
//! Capture names must be non-empty identifiers: `[A-Za-z_][A-Za-z0-9_]*`.
//!
//! # Precedence
//!
//! [`Pattern::precedence_key`] orders candidate routes when several match the
//! same concrete path: any non-rest pattern beats any rest pattern, then more
//! literal segments, then more prefix captures, then more segments.
//!
//! # Ambiguity
//!
//! [`Pattern::is_ambiguous_with`] detects two leaf claims that can bind the
//! same concrete path with equal precedence, where neither could reliably win.

use vstd::prelude::*;
use vstd::string::*;

use crate::captures;
use crate::captures::{Bindings, Capture};
use crate::path;
use crate::path::Path;
use crate::text;

verus! {

/// What one template segment asks of a path segment.
pub enum Shape {
    Literal(Seq<char>),
    Capture { name: Seq<char>, prefix: Option<Seq<char>> },
    Rest { name: Seq<char> },
}

/// A letter or an underscore.
pub open spec fn starts_name(c: char) -> bool {
    c == '_' || 'a' <= c <= 'z' || 'A' <= c <= 'Z'
}

/// A character that may follow in a capture name.
pub open spec fn continues_name(c: char) -> bool {
    starts_name(c) || '0' <= c <= '9'
}

/// `[A-Za-z_][A-Za-z0-9_]*`.
pub open spec fn identifier(name: Seq<char>) -> bool {
    &&& name.len() > 0
    &&& starts_name(name[0])
    &&& forall|i: int| 1 <= i < name.len() ==> continues_name(#[trigger] name[i])
}

/// The position of the first `c` in `s`, or the length of `s`.
pub open spec fn first_index(s: Seq<char>, c: char) -> int
    decreases s.len(),
{
    if s.len() == 0 || s[0] == c {
        0
    } else {
        1 + first_index(s.drop_first(), c)
    }
}

/// A shape with a capture name, if the name is an identifier.
pub open spec fn named(name: Seq<char>, shape: Shape) -> Result<Shape, Seq<char>> {
    if name.len() == 0 {
        Err("capture names cannot be empty"@)
    } else if identifier(name) {
        Ok(shape)
    } else {
        Err("invalid capture name "@ + text::quoted(name))
    }
}

/// The text between the first `from` characters and the last one.
pub open spec fn inner(raw: Seq<char>, from: int) -> Seq<char> {
    raw.subrange(from, raw.len() - 1)
}

/// The shape that a template segment stands for, or why it is rejected.
pub open spec fn shape_of(raw: Seq<char>, last: bool) -> Result<Shape, Seq<char>> {
    if raw.len() == 0 || raw == "."@ || raw == ".."@ {
        Err("invalid path template segment "@ + text::quoted(raw))
    } else if text::has_prefix(raw, "{*"@) {
        if raw.last() != '}' || raw.len() < 4 {
            Err("invalid rest-capture segment "@ + text::quoted(raw))
        } else if !last {
            Err(
                "rest-capture segment "@ + text::quoted(raw)
                    + " must be the last segment of the pattern"@,
            )
        } else {
            named(inner(raw, 2), Shape::Rest { name: inner(raw, 2) })
        }
    } else if raw[0] == '{' && raw.last() == '}' {
        named(inner(raw, 1), Shape::Capture { name: inner(raw, 1), prefix: None })
    } else if raw.contains('{') {
        let start = first_index(raw, '{');
        if raw.last() != '}' || inner(raw, start + 1).contains('{') {
            Err("invalid capture segment "@ + text::quoted(raw))
        } else {
            named(
                inner(raw, start + 1),
                Shape::Capture {
                    name: inner(raw, start + 1),
                    prefix: Some(raw.subrange(0, start)),
                },
            )
        }
    } else {
        Ok(Shape::Literal(raw))
    }
}

/// The shapes of the first `n` template segments, or why the first rejected
/// one is rejected.
pub open spec fn shapes_upto(raws: Seq<Seq<char>>, n: nat) -> Result<Seq<Shape>, Seq<char>>
    decreases n,
{
    if n == 0 {
        Ok(Seq::empty())
    } else {
        match shapes_upto(raws, (n - 1) as nat) {
            Err(e) => Err(e),
            Ok(shapes) => match shape_of(raws[n - 1], n == raws.len()) {
                Err(e) => Err(e),
                Ok(shape) => Ok(shapes.push(shape)),
            },
        }
    }
}

/// Two slashes stand next to each other.
pub open spec fn double_slash(s: Seq<char>) -> bool {
    exists|i: int| 0 <= i && i + 1 < s.len() && #[trigger] s[i] == '/' && s[i + 1] == '/'
}

/// The shapes that a template stands for, or why it is rejected.
pub open spec fn template_of(template: Seq<char>) -> Result<Seq<Shape>, Seq<char>> {
    if template == "/"@ {
        Ok(Seq::empty())
    } else if template.len() == 0 || template[0] != '/' || template.last() == '/' || double_slash(
        template,
    ) {
        Err("invalid path template "@ + text::quoted(template))
    } else {
        let raws = text::split_at(template.drop_first(), '/');
        shapes_upto(raws, raws.len())
    }
}

impl Shape {
    /// A shape that some template segment stands for.
    pub open spec fn valid(self) -> bool {
        match self {
            Shape::Literal(value) => path::valid_segment(value) && !value.contains('{'),
            Shape::Capture { name, prefix } => identifier(name) && match prefix {
                None => true,
                Some(prefix) => prefix.len() > 0 && !prefix.contains('{') && !prefix.contains(
                    '/',
                ),
            },
            Shape::Rest { name } => identifier(name),
        }
    }

    /// The template segment that stands for a shape.
    pub open spec fn template(self) -> Seq<char> {
        match self {
            Shape::Literal(value) => value,
            Shape::Capture { name, prefix } => (match prefix {
                None => Seq::empty(),
                Some(prefix) => prefix,
            }) + "{"@ + name + "}"@,
            Shape::Rest { name } => "{*"@ + name + "}"@,
        }
    }

    /// Whether a path segment is what this shape asks for.
    pub open spec fn matches(self, segment: Seq<char>) -> bool {
        match self {
            Shape::Literal(value) => segment == value,
            Shape::Capture { name, prefix } => match prefix {
                None => segment.len() > 0,
                Some(prefix) => text::extends(segment, prefix),
            },
            Shape::Rest { name } => true,
        }
    }

    /// Literals before prefix captures before everything else, and the longer
    /// of two of the same sort first. Lengths are counted in bytes.
    pub open spec fn specificity(self) -> (u8, usize) {
        match self {
            Shape::Literal(value) => (2, text::byte_len(value)),
            Shape::Capture { name, prefix } => match prefix {
                None => (0, 0),
                Some(prefix) => (1, text::byte_len(prefix)),
            },
            Shape::Rest { name } => (0, 0),
        }
    }

    /// The shape's part in a signature; capture names do not count.
    pub open spec fn signature(self) -> Seq<char> {
        match self {
            Shape::Literal(value) => "l:"@ + value,
            Shape::Capture { name, prefix } => match prefix {
                None => "c"@,
                Some(prefix) => "p:"@ + prefix,
            },
            Shape::Rest { name } => "r"@,
        }
    }

    /// Whether some path segment is what both shapes ask for.
    pub open spec fn overlaps(self, other: Shape) -> bool {
        match (self, other) {
            (Shape::Rest { .. }, _) | (_, Shape::Rest { .. }) => true,
            (Shape::Literal(left), Shape::Literal(right)) => left == right,
            (Shape::Capture { prefix: None, .. }, _) | (_, Shape::Capture { prefix: None, .. }) => {
                true
            },
            (Shape::Literal(literal), Shape::Capture { prefix: Some(prefix), .. }) => text::extends(
                literal,
                prefix,
            ),
            (Shape::Capture { prefix: Some(prefix), .. }, Shape::Literal(literal)) => text::extends(
                literal,
                prefix,
            ),
            (
                Shape::Capture { prefix: Some(left), .. },
                Shape::Capture { prefix: Some(right), .. },
            ) => text::has_prefix(left, right) || text::has_prefix(right, left),
        }
    }
}

/// One segment of a compiled template.
#[derive(Debug, PartialEq, Eq)]
enum PatternSegment {
    Literal(String),
    Capture { name: String, prefix: Option<String> },
    Rest { name: String },
}

impl Clone for PatternSegment {
    fn clone(&self) -> (r: Self)
        ensures
            r == *self,
    {
        match self {
            PatternSegment::Literal(value) => PatternSegment::Literal(value.clone()),
            PatternSegment::Capture { name, prefix } => PatternSegment::Capture {
                name: name.clone(),
                prefix: match prefix {
                    Some(prefix) => Some(prefix.clone()),
                    None => None,
                },
            },
            PatternSegment::Rest { name } => PatternSegment::Rest { name: name.clone() },
        }
    }
}

impl View for PatternSegment {
    type V = Shape;

    closed spec fn view(&self) -> Shape {
        match self {
            PatternSegment::Literal(value) => Shape::Literal(value@),
            PatternSegment::Capture { name, prefix } => Shape::Capture {
                name: name@,
                prefix: match prefix {
                    None => None,
                    Some(prefix) => Some(prefix@),
                },
            },
            PatternSegment::Rest { name } => Shape::Rest { name: name@ },
        }
    }
}

/// A pattern parse or match error.
#[derive(Debug, PartialEq, Eq)]
pub struct Error {
    message: String,
}

impl View for Error {
    type V = Seq<char>;

    closed spec fn view(&self) -> Seq<char> {
        self.message@
    }
}

impl Clone for Error {
    fn clone(&self) -> (r: Self)
        ensures
            r@ == self@,
    {
        Error { message: self.message.clone() }
    }
}

impl Error {
    fn new(message: String) -> (r: Self)
        ensures
            r@ == message@,
    {
        Error { message }
    }

    /// Why the template or the path was rejected.
    #[must_use]
    pub fn message(&self) -> (r: &str)
        ensures
            r@ == self@,
    {
        self.message.as_str()
    }
}

/// An error that quotes the rejected text behind `what`.
fn rejected(what: &str, raw: &str) -> (r: Error)
    ensures
        r@ == what@ + text::quoted(raw@),
{
    let quoted = text::debug_quoted(raw);
    Error::new(text::concat(what, quoted.as_str()))
}

fn validate_capture_name(name: &str) -> (r: core::result::Result<(), Error>)
    ensures
        r is Ok == identifier(name@),
        r matches Err(e) ==> e@ == (if name@.len() == 0 {
            "capture names cannot be empty"@
        } else {
            "invalid capture name "@ + text::quoted(name@)
        }),
{
    let chars = text::chars_of(name);
    if chars.len() == 0 {
        return Err(Error::new("capture names cannot be empty".to_owned()));
    }
    let first = chars[0];
    if !(first == '_' || ('a' <= first && first <= 'z') || ('A' <= first && first <= 'Z')) {
        return Err(rejected("invalid capture name ", name));
    }
    let mut i: usize = 1;
    while i < chars.len()
        invariant
            chars@ == name@,
            1 <= i <= chars@.len(),
            starts_name(chars@[0]),
            forall|k: int| 1 <= k < i ==> continues_name(#[trigger] chars@[k]),
        decreases chars@.len() - i,
    {
        let ch = chars[i];
        if !(ch == '_' || ('a' <= ch && ch <= 'z') || ('A' <= ch && ch <= 'Z') || ('0' <= ch && ch
            <= '9')) {
            assert(!continues_name(chars@[i as int]));
            return Err(rejected("invalid capture name ", name));
        }
        i = i + 1;
    }
    Ok(())
}

/// The position of the first `c`, or the length.
fn find(chars: &[char], c: char) -> (r: usize)
    ensures
        r <= chars@.len(),
        r == first_index(chars@, c),
        (r < chars@.len()) == chars@.contains(c),
        r < chars@.len() ==> chars@[r as int] == c,
        forall|k: int| 0 <= k < r ==> chars@[k] != c,
{
    let mut i: usize = 0;
    assert(chars@.skip(0) =~= chars@);
    while i < chars.len()
        invariant
            i <= chars@.len(),
            forall|k: int| 0 <= k < i ==> chars@[k] != c,
            first_index(chars@, c) == i + first_index(chars@.skip(i as int), c),
        decreases chars@.len() - i,
    {
        if chars[i] == c {
            return i;
        }
        assert(chars@.skip(i as int).drop_first() =~= chars@.skip(i as int + 1));
        i = i + 1;
    }
    i
}

/// Reads one template segment.
fn parse_segment(raw: &str, last: bool) -> (r: core::result::Result<PatternSegment, Error>)
    requires
        !raw@.contains('/'),
    ensures
        match shape_of(raw@, last) {
            Ok(shape) => r matches Ok(segment) && segment@ == shape && shape.valid(),
            Err(message) => r matches Err(e) && e@ == message,
        },
{
    proof {
        reveal_strlit("{*");
        reveal_strlit(".");
        reveal_strlit("..");
    }
    let chars = text::chars_of(raw);
    let length: usize = chars.len();
    if length == 0 || text::same(raw, ".") || text::same(raw, "..") {
        return Err(rejected("invalid path template segment ", raw));
    }
    let closed = chars[length - 1] == '}';
    if text::starts_with(raw, "{*") {
        if !closed || length < 4 {
            return Err(rejected("invalid rest-capture segment ", raw));
        }
        if !last {
            let quoted = text::debug_quoted(raw);
            return Err(
                Error::new(
                    text::concat3(
                        "rest-capture segment ",
                        quoted.as_str(),
                        " must be the last segment of the pattern",
                    ),
                ),
            );
        }
        let name = text::string_of(chars.as_slice(), 2, length - 1);
        match validate_capture_name(name.as_str()) {
            Ok(_) => {},
            Err(e) => {
                return Err(e);
            },
        }
        return Ok(PatternSegment::Rest { name });
    }
    if chars[0] == '{' && closed {
        let name = text::string_of(chars.as_slice(), 1, length - 1);
        match validate_capture_name(name.as_str()) {
            Ok(_) => {},
            Err(e) => {
                return Err(e);
            },
        }
        return Ok(PatternSegment::Capture { name, prefix: None });
    }
    let start: usize = find(chars.as_slice(), '{');
    if start < length {
        if !closed {
            return Err(rejected("invalid capture segment ", raw));
        }
        let name = text::string_of(chars.as_slice(), start + 1, length - 1);
        if text::contains_char(name.as_str(), '{') {
            return Err(rejected("invalid capture segment ", raw));
        }
        let prefix = text::string_of(chars.as_slice(), 0, start);
        match validate_capture_name(name.as_str()) {
            Ok(_) => {},
            Err(e) => {
                return Err(e);
            },
        }
        assert(prefix@ =~= raw@.subrange(0, start as int));
        assert(!prefix@.contains('{'));
        assert(!prefix@.contains('/')) by {
            if prefix@.contains('/') {
                let k = choose|k: int| 0 <= k < prefix@.len() && prefix@[k] == '/';
                assert(raw@[k] == '/');
            }
        }
        return Ok(PatternSegment::Capture { name, prefix: Some(prefix) });
    }
    Ok(PatternSegment::Literal(raw.to_owned()))
}

/// How many of the shapes are literals.
pub open spec fn literals(shapes: Seq<Shape>) -> nat
    decreases shapes.len(),
{
    if shapes.len() == 0 {
        0
    } else {
        literals(shapes.drop_last()) + if shapes.last() is Literal {
            1nat
        } else {
            0nat
        }
    }
}

/// A capture with a literal prefix.
pub open spec fn is_prefix_capture(shape: Shape) -> bool {
    shape matches Shape::Capture { prefix: Some(_), .. }
}

/// How many of the shapes are captures with a literal prefix.
pub open spec fn prefix_captures(shapes: Seq<Shape>) -> nat
    decreases shapes.len(),
{
    if shapes.len() == 0 {
        0
    } else {
        prefix_captures(shapes.drop_last()) + if is_prefix_capture(shapes.last()) {
            1nat
        } else {
            0nat
        }
    }
}

/// The pattern ends in a rest capture.
pub open spec fn has_rest(shapes: Seq<Shape>) -> bool {
    shapes.len() > 0 && shapes.last() is Rest
}

/// How many segments any matching path must have at least.
pub open spec fn fixed_len(shapes: Seq<Shape>) -> int {
    if has_rest(shapes) {
        shapes.len() - 1
    } else {
        shapes.len() as int
    }
}

/// The shapes of some template: each one valid, and a rest capture only at
/// the end.
pub open spec fn valid_shapes(shapes: Seq<Shape>) -> bool {
    forall|i: int|
        0 <= i < shapes.len() ==> (#[trigger] shapes[i]).valid() && (shapes[i] is Rest ==> i
            == shapes.len() - 1)
}

/// The first `n` segments are what the first `n` shapes ask for, as far as
/// there are both.
pub open spec fn matches_upto(shapes: Seq<Shape>, segments: Seq<Seq<char>>, n: int) -> bool {
    forall|i: int|
        0 <= i < n && i < shapes.len() && i < segments.len() ==> (#[trigger] shapes[i]).matches(
            segments[i],
        )
}

/// A whole path matches.
pub open spec fn path_matches(shapes: Seq<Shape>, segments: Seq<Seq<char>>) -> bool {
    if has_rest(shapes) {
        segments.len() >= fixed_len(shapes) && matches_upto(shapes, segments, fixed_len(shapes))
    } else {
        segments.len() == shapes.len() && matches_upto(shapes, segments, shapes.len() as int)
    }
}

/// A path that may stop partway through the pattern matches as far as it
/// goes.
pub open spec fn prefix_matches(shapes: Seq<Shape>, segments: Seq<Seq<char>>) -> bool {
    if has_rest(shapes) {
        matches_upto(shapes, segments, fixed_len(shapes))
    } else {
        segments.len() <= shapes.len() && matches_upto(shapes, segments, segments.len() as int)
    }
}

/// The paths some way above a path that the pattern matches.
pub open spec fn strict_ancestor(shapes: Seq<Shape>, segments: Seq<Seq<char>>) -> bool {
    segments.len() < shapes.len() && matches_upto(shapes, segments, segments.len() as int)
}

/// The value that a single-segment capture takes from a segment.
pub open spec fn capture_value(prefix: Option<Seq<char>>, raw: Seq<char>) -> Seq<char> {
    match prefix {
        Some(prefix) => if text::has_prefix(raw, prefix) {
            text::after_prefix(raw, prefix)
        } else {
            raw
        },
        None => raw,
    }
}

/// The binding that the shape at position `i` contributes, if any.
pub open spec fn binding_at(shape: Shape, i: int, segments: Seq<Seq<char>>) -> Option<
    (Seq<char>, Seq<char>),
> {
    match shape {
        Shape::Literal(_) => None,
        Shape::Capture { name, prefix } => if i < segments.len() {
            Some((name, capture_value(prefix, segments[i])))
        } else {
            None
        },
        Shape::Rest { name } => if i <= segments.len() {
            Some((name, text::joined(segments.skip(i), "/"@)))
        } else {
            None
        },
    }
}

/// The bindings that the first `n` shapes contribute.
pub open spec fn captures_upto(
    shapes: Seq<Shape>,
    segments: Seq<Seq<char>>,
    n: nat,
) -> Bindings
    decreases n,
{
    if n == 0 {
        Seq::empty()
    } else {
        let head = captures_upto(shapes, segments, (n - 1) as nat);
        match binding_at(shapes[n - 1], n - 1, segments) {
            Some(binding) => head.push(binding),
            None => head,
        }
    }
}

/// The bindings of a matched path, in template order.
pub open spec fn captures_of(shapes: Seq<Shape>, segments: Seq<Seq<char>>) -> Bindings {
    captures_upto(shapes, segments, shapes.len())
}

/// The route-ordering key: whether the pattern has no rest capture, and how
/// many literals, prefix captures and segments it has.
pub struct PrecedenceKey {
    pub fixed: nat,
    pub literals: nat,
    pub prefix_captures: nat,
    pub segments: nat,
}

/// The key of a pattern.
pub open spec fn precedence(shapes: Seq<Shape>) -> PrecedenceKey {
    PrecedenceKey {
        fixed: if has_rest(shapes) {
            0
        } else {
            1
        },
        literals: literals(shapes),
        prefix_captures: prefix_captures(shapes),
        segments: shapes.len(),
    }
}

impl PrecedenceKey {
    /// This key loses against the other.
    pub open spec fn below(self, other: PrecedenceKey) -> bool {
        ||| self.fixed < other.fixed
        ||| self.fixed == other.fixed && self.literals < other.literals
        ||| self.fixed == other.fixed && self.literals == other.literals && self.prefix_captures
            < other.prefix_captures
        ||| self.fixed == other.fixed && self.literals == other.literals && self.prefix_captures
            == other.prefix_captures && self.segments < other.segments
    }
}

/// The first `n` shapes of two patterns overlap pairwise.
pub open spec fn overlap_upto(left: Seq<Shape>, right: Seq<Shape>, n: int) -> bool {
    forall|i: int|
        0 <= i < n && i < left.len() && i < right.len() ==> (#[trigger] left[i]).overlaps(
            right[i],
        )
}

/// Two patterns can bind the same path and precedence does not separate them.
pub open spec fn ambiguous(left: Seq<Shape>, right: Seq<Shape>) -> bool {
    if has_rest(left) && has_rest(right) {
        fixed_len(left) == fixed_len(right) && overlap_upto(left, right, fixed_len(left))
    } else if has_rest(left) || has_rest(right) {
        false
    } else {
        precedence(left) == precedence(right) && left.len() == right.len() && overlap_upto(
            left,
            right,
            left.len() as int,
        )
    }
}

/// Where a named capture lives within a [`Pattern`] and what prefix (if any)
/// it strips from the raw segment before yielding the capture value.
///
/// [`Self::render_segment`] re-applies the prefix when a capture value is
/// substituted back into a concrete path.
#[derive(Debug, PartialEq, Eq)]
pub struct CaptureLocation {
    segment_index: usize,
    prefix: Option<String>,
}

/// The place of a capture: its segment and its prefix.
pub struct Place {
    pub index: nat,
    pub prefix: Option<Seq<char>>,
}

/// The segment that a capture value is written as.
pub open spec fn render_value(prefix: Option<Seq<char>>, value: Seq<char>) -> Seq<char> {
    match prefix {
        Some(prefix) => prefix + value,
        None => value,
    }
}

impl View for CaptureLocation {
    type V = Place;

    closed spec fn view(&self) -> Place {
        Place { index: self.segment_index as nat, prefix: text::text_of(self.prefix) }
    }
}

impl Clone for CaptureLocation {
    fn clone(&self) -> (r: Self)
        ensures
            r@ == self@,
    {
        CaptureLocation {
            segment_index: self.segment_index,
            prefix: match &self.prefix {
                Some(prefix) => Some(prefix.clone()),
                None => None,
            },
        }
    }
}

impl CaptureLocation {
    #[must_use]
    pub fn segment_index(&self) -> (r: usize)
        ensures
            r == self@.index,
    {
        self.segment_index
    }

    #[must_use]
    pub fn render_segment(&self, value: &str) -> (r: String)
        ensures
            r@ == render_value(self@.prefix, value@),
    {
        match &self.prefix {
            Some(prefix) => text::concat(prefix.as_str(), value),
            None => value.to_owned(),
        }
    }
}

/// What a [`Match`] holds: the path and the bindings in template order.
pub struct Matched {
    pub path: Seq<Seq<char>>,
    pub captures: Bindings,
}

/// The result of a successful pattern match: the matched path plus its
/// decoded captures in template order. Prefix-capture values arrive with the
/// prefix already stripped (`@google` yields `google`); a rest capture yields
/// the trailing segments joined by `/` (empty string for zero segments).
#[derive(Debug, PartialEq, Eq)]
pub struct Match {
    path: Path,
    captures: Vec<Capture>,
}

impl View for Match {
    type V = Matched;

    closed spec fn view(&self) -> Matched {
        Matched { path: self.path@, captures: captures::bindings_of(self.captures@) }
    }
}

impl Clone for Match {
    fn clone(&self) -> (r: Self)
        ensures
            r@ == self@,
    {
        Match {
            path: self.path.clone(),
            captures: captures::copy_captures(self.captures.as_slice()),
        }
    }
}

impl Match {
    #[must_use]
    pub fn path(&self) -> (r: &Path)
        ensures
            r@ == self@.path,
    {
        &self.path
    }

    /// The value of the first capture of that name.
    #[must_use]
    pub fn get(&self, name: &str) -> (r: Option<&str>)
        ensures
            match captures::lookup(self@.captures, name@) {
                Some(value) => r matches Some(v) && v@ == value,
                None => r is None,
            },
    {
        captures::find_capture(self.captures.as_slice(), name)
    }

    /// The captures in template order.
    pub fn captures(&self) -> (r: &[Capture])
        ensures
            captures::bindings_of(r@) == self@.captures,
    {
        self.captures.as_slice()
    }

    #[must_use]
    pub fn into_path(self) -> (r: Path)
        ensures
            r@ == self@.path,
    {
        self.path
    }
}

/// The shapes of compiled segments.
spec fn shapes(segments: Seq<PatternSegment>) -> Seq<Shape> {
    segments.map_values(|s: PatternSegment| s@)
}

/// The specificities of shapes.
pub open spec fn specificities(shapes: Seq<Shape>) -> Seq<(u8, usize)> {
    shapes.map_values(|s: Shape| s.specificity())
}

/// A compiled route template, e.g. `/{owner}/{repo}/issues/{number}`.
///
/// Compilation precomputes the counts that feed [`Self::precedence_key`] and
/// the per-segment [`Self::specificity`] vector, so matching and ordering are
/// comparisons over prebuilt data.
#[derive(Debug, PartialEq, Eq)]
pub struct Pattern {
    segments: Vec<PatternSegment>,
    literal_count: usize,
    prefix_capture_count: usize,
    has_rest: bool,
    specificity: Vec<(u8, usize)>,
}

impl View for Pattern {
    type V = Seq<Shape>;

    closed spec fn view(&self) -> Seq<Shape> {
        shapes(self.segments@)
    }
}

impl Clone for Pattern {
    fn clone(&self) -> (r: Self)
        ensures
            r@ == self@,
    {
        proof {
            use_type_invariant(self);
        }
        let mut segments: Vec<PatternSegment> = Vec::new();
        let mut specificity: Vec<(u8, usize)> = Vec::new();
        let mut i: usize = 0;
        while i < self.segments.len()
            invariant
                i <= self.segments@.len(),
                self.specificity@ == specificities(shapes(self.segments@)),
                segments@ == self.segments@.take(i as int),
                specificity@ == self.specificity@.take(i as int),
            decreases self.segments@.len() - i,
        {
            segments.push(self.segments[i].clone());
            specificity.push(self.specificity[i]);
            i = i + 1;
        }
        assert(segments@ =~= self.segments@);
        assert(specificity@ =~= self.specificity@);
        Pattern {
            segments,
            literal_count: self.literal_count,
            prefix_capture_count: self.prefix_capture_count,
            has_rest: self.has_rest,
            specificity,
        }
    }
}

fn segment_specificity(segment: &PatternSegment) -> (r: (u8, usize))
    ensures
        r == segment@.specificity(),
{
    match segment {
        PatternSegment::Literal(value) => (2, value.as_str().len()),
        PatternSegment::Capture { name: _, prefix } => match prefix {
            Some(prefix) => (1, prefix.as_str().len()),
            None => (0, 0),
        },
        PatternSegment::Rest { .. } => (0, 0),
    }
}

fn segment_signature(segment: &PatternSegment) -> (r: String)
    ensures
        r@ == segment@.signature(),
{
    match segment {
        PatternSegment::Literal(value) => text::concat("l:", value.as_str()),
        PatternSegment::Capture { name: _, prefix } => match prefix {
            Some(prefix) => text::concat("p:", prefix.as_str()),
            None => "c".to_owned(),
        },
        PatternSegment::Rest { .. } => "r".to_owned(),
    }
}

fn segments_overlap(left: &PatternSegment, right: &PatternSegment) -> (r: bool)
    ensures
        r == left@.overlaps(right@),
{
    match (left, right) {
        (PatternSegment::Rest { .. }, _) | (_, PatternSegment::Rest { .. }) => true,
        (PatternSegment::Literal(left), PatternSegment::Literal(right)) => text::same(
            left.as_str(),
            right.as_str(),
        ),
        (PatternSegment::Capture { prefix: None, .. }, _)
        | (_, PatternSegment::Capture { prefix: None, .. }) => true,
        (PatternSegment::Literal(literal), PatternSegment::Capture { prefix: Some(prefix), .. })
        | (
            PatternSegment::Capture { prefix: Some(prefix), .. },
            PatternSegment::Literal(literal),
        ) => extends(literal.as_str(), prefix.as_str()),
        (
            PatternSegment::Capture { prefix: Some(left), .. },
            PatternSegment::Capture { prefix: Some(right), .. },
        ) => text::starts_with(left.as_str(), right.as_str()) || text::starts_with(
            right.as_str(),
            left.as_str(),
        ),
    }
}

/// Whether `s` continues `prefix` with at least one more character.
fn extends(s: &str, prefix: &str) -> (r: bool)
    ensures
        r == text::extends(s@, prefix@),
{
    match text::strip_prefix(s, prefix) {
        Some(rest) => {
            let left: usize = rest.as_str().unicode_len();
            left > 0
        },
        None => false,
    }
}

fn segment_matches(segment: &PatternSegment, actual: &str) -> (r: bool)
    ensures
        r == segment@.matches(actual@),
{
    match segment {
        PatternSegment::Literal(expected) => text::same(actual, expected.as_str()),
        PatternSegment::Capture { name: _, prefix } => match prefix {
            None => {
                let length: usize = actual.unicode_len();
                length > 0
            },
            Some(prefix) => extends(actual, prefix.as_str()),
        },
        PatternSegment::Rest { .. } => true,
    }
}

/// An error among the first segments is the error of the whole.
proof fn lemma_shapes_upto_error(raws: Seq<Seq<char>>, n: nat, m: nat)
    requires
        n <= m,
        shapes_upto(raws, n) is Err,
    ensures
        shapes_upto(raws, m) == shapes_upto(raws, n),
    decreases m,
{
    if n < m {
        lemma_shapes_upto_error(raws, n, (m - 1) as nat);
    }
}

impl Pattern {
    #[verifier::type_invariant]
    spec fn inv(self) -> bool {
        &&& valid_shapes(shapes(self.segments@))
        &&& self.literal_count == literals(shapes(self.segments@))
        &&& self.prefix_capture_count == prefix_captures(shapes(self.segments@))
        &&& self.has_rest == has_rest(shapes(self.segments@))
        &&& self.specificity@ == specificities(shapes(self.segments@))
    }

    /// Compile a template (see the module docs for the grammar).
    ///
    /// Rejects: relative templates, trailing `/`, empty segments (`//`),
    /// `.`/`..` segments, non-identifier capture names, a `{*rest}` capture
    /// anywhere but last, and malformed capture syntax (nested or unclosed
    /// braces). `"/"` compiles to the empty pattern that matches only the
    /// root path.
    pub fn parse(template: &str) -> (r: core::result::Result<Self, Error>)
        ensures
            match template_of(template@) {
                Ok(shapes) => r matches Ok(p) && p@ == shapes,
                Err(message) => r matches Err(e) && e@ == message,
            },
    {
        let mut segments: Vec<PatternSegment> = Vec::new();
        if text::same(template, "/") {
            assert(shapes(segments@) =~= Seq::<Shape>::empty());
            let specificity: Vec<(u8, usize)> = Vec::new();
            assert(specificity@ =~= specificities(shapes(segments@)));
            return Ok(
                Pattern {
                    segments,
                    literal_count: 0,
                    prefix_capture_count: 0,
                    has_rest: false,
                    specificity,
                },
            );
        }
        let chars = text::chars_of(template);
        let length: usize = chars.len();
        if length == 0 || chars[0] != '/' || chars[length - 1] == '/' || has_double_slash(
            chars.as_slice(),
        ) {
            return Err(rejected("invalid path template ", template));
        }
        let tail = text::string_of(chars.as_slice(), 1, length);
        assert(tail@ =~= template@.drop_first());
        let raw_segments = text::split(tail.as_str(), '/');
        let ghost raws = text::split_at(template@.drop_first(), '/');
        proof {
            text::lemma_split_pieces(template@.drop_first(), '/');
        }
        let total: usize = raw_segments.len();
        let mut literal_count: usize = 0;
        let mut prefix_capture_count: usize = 0;
        let mut ends_in_rest = false;
        let mut specificity: Vec<(u8, usize)> = Vec::new();
        let mut index: usize = 0;
        assert(shapes(segments@) =~= Seq::<Shape>::empty());
        while index < total
            invariant
                total == raw_segments@.len(),
                text::views(raw_segments@) == raws,
                index <= total,
                forall|i: int| 0 <= i < raws.len() ==> !(#[trigger] raws[i]).contains('/'),
                shapes_upto(raws, index as nat) == Ok::<Seq<Shape>, Seq<char>>(
                    shapes(segments@),
                ),
                segments@.len() == index,
                literal_count == literals(shapes(segments@)),
                literal_count <= index,
                prefix_capture_count == prefix_captures(shapes(segments@)),
                prefix_capture_count <= index,
                ends_in_rest == has_rest(shapes(segments@)),
                specificity@ == specificities(shapes(segments@)),
                valid_shapes(shapes(segments@)),
                index < total ==> !ends_in_rest,
                template_of(template@) == shapes_upto(raws, raws.len()),
            decreases total - index,
        {
            let raw = raw_segments[index].as_str();
            assert(raw@ == raws[index as int]);
            let segment = match parse_segment(raw, index == total - 1) {
                Ok(segment) => segment,
                Err(e) => {
                    proof {
                        lemma_shapes_upto_error(raws, (index + 1) as nat, raws.len());
                    }
                    return Err(e);
                },
            };
            let ghost before = shapes(segments@);
            let ghost shape = segment@;
            match &segment {
                PatternSegment::Literal(_) => {
                    literal_count = literal_count + 1;
                },
                PatternSegment::Capture { name: _, prefix } => {
                    if prefix.is_some() {
                        prefix_capture_count = prefix_capture_count + 1;
                    }
                },
                PatternSegment::Rest { .. } => {
                    ends_in_rest = true;
                },
            }
            specificity.push(segment_specificity(&segment));
            segments.push(segment);
            let ghost after = shapes(segments@);
            assert(after =~= before.push(shape));
            assert(after.drop_last() =~= before);
            assert(specificities(after) =~= specificities(before).push(shape.specificity()));
            assert(valid_shapes(after)) by {
                assert forall|i: int| 0 <= i < after.len() implies (#[trigger] after[i]).valid()
                    && (after[i] is Rest ==> i == after.len() - 1) by {
                    if i < before.len() {
                        assert(after[i] == before[i]);
                    }
                }
            }
            index = index + 1;
        }
        Ok(
            Pattern {
                segments,
                literal_count,
                prefix_capture_count,
                has_rest: ends_in_rest,
                specificity,
            },
        )
    }

    /// Whether the pattern ends in a rest capture.
    #[must_use]
    pub fn has_rest(&self) -> (r: bool)
        ensures
            r == has_rest(self@),
            valid_shapes(self@),
    {
        proof {
            use_type_invariant(self);
        }
        self.has_rest
    }

    /// The route-ordering key, compared descending by dispatch: non-rest
    /// beats rest, then literal-segment count, then prefix-capture count,
    /// then segment count. Patterns with equal keys cannot be ordered, which
    /// is exactly the case [`Self::is_ambiguous_with`] exists to reject.
    #[must_use]
    pub fn precedence_key(&self) -> (r: (u8, usize, usize, usize))
        ensures
            precedence(self@) == (PrecedenceKey {
                fixed: r.0 as nat,
                literals: r.1 as nat,
                prefix_captures: r.2 as nat,
                segments: r.3 as nat,
            }),
    {
        proof {
            use_type_invariant(self);
        }
        let is_not_rest: u8 = if self.has_rest {
            0
        } else {
            1
        };
        (is_not_rest, self.literal_count, self.prefix_capture_count, self.segments.len())
    }

    /// Whether this pattern loses against the other when both match.
    pub fn loses_to(&self, other: &Self) -> (r: bool)
        ensures
            r == precedence(self@).below(precedence(other@)),
    {
        let left = self.precedence_key();
        let right = other.precedence_key();
        left.0 < right.0 || (left.0 == right.0 && (left.1 < right.1 || (left.1 == right.1 && (
        left.2 < right.2 || (left.2 == right.2 && left.3 < right.3)))))
    }

    /// Match a whole concrete path. Non-rest patterns require an exact
    /// segment-count match; a rest pattern matches its fixed prefix plus zero
    /// or more trailing segments (so `/ipfs/{cid}/{*path}` matches
    /// `/ipfs/Qm123` itself).
    pub fn match_path(&self, path: &Path) -> (r: core::result::Result<Match, Error>)
        ensures
            r is Ok == path_matches(self@, path@),
            r matches Ok(m) ==> m@ == (Matched {
                path: path@,
                captures: captures_of(self@, path@),
            }),
            r matches Err(e) ==> e@ == "path "@ + text::quoted(path::path_text(path@))
                + " does not match pattern"@,
    {
        if !self.matches_path(path) {
            return Err(unmatched(path, " does not match pattern"));
        }
        Ok(Match { path: path.clone(), captures: self.captures_from_segments(path.segments()) })
    }

    /// Match a path that may stop partway through the pattern (an ancestor
    /// probe). Captures are decoded only for the segments actually present;
    /// callers must tolerate missing captures.
    pub fn match_prefix(&self, path: &Path) -> (r: core::result::Result<Match, Error>)
        ensures
            r is Ok == prefix_matches(self@, path@),
            r matches Ok(m) ==> m@ == (Matched {
                path: path@,
                captures: captures_of(self@, path@),
            }),
            r matches Err(e) ==> e@ == "path "@ + text::quoted(path::path_text(path@)) + (
            if !has_rest(self@) && path@.len() > self@.len() {
                " is longer than pattern prefix"@
            } else {
                " does not match pattern prefix"@
            }),
    {
        proof {
            use_type_invariant(self);
        }
        let segments = path.segments();
        if !self.has_rest && segments.len() > self.segments.len() {
            return Err(unmatched(path, " is longer than pattern prefix"));
        }
        let comparable: usize = if self.has_rest && segments.len() > self.fixed_prefix_len() {
            self.fixed_prefix_len()
        } else {
            segments.len()
        };
        if !self.matches_segments(segments, comparable) {
            return Err(unmatched(path, " does not match pattern prefix"));
        }
        Ok(Match { path: path.clone(), captures: self.captures_from_segments(segments) })
    }

    /// Whether a whole concrete path matches.
    #[must_use]
    pub fn matches_path(&self, path: &Path) -> (r: bool)
        ensures
            r == path_matches(self@, path@),
    {
        proof {
            use_type_invariant(self);
        }
        let segments = path.segments();
        let fixed: usize = self.fixed_prefix_len();
        if self.has_rest {
            segments.len() >= fixed && self.matches_segments(segments, fixed)
        } else {
            segments.len() == fixed && self.matches_segments(segments, fixed)
        }
    }

    /// Whether `parent_segments` is a proper ancestor of paths this pattern
    /// can match, i.e. the pattern extends at least one segment below it.
    /// This is the candidacy test for auto-navigable intermediate
    /// directories.
    #[must_use]
    pub fn accepts_as_strict_ancestor(&self, parent_segments: &[String]) -> (r: bool)
        ensures
            r == strict_ancestor(self@, text::views(parent_segments@)),
    {
        parent_segments.len() < self.segments.len() && self.matches_segments(
            parent_segments,
            parent_segments.len(),
        )
    }

    /// Whether `path` is the immediate parent of a path this pattern matches.
    /// For a rest pattern any path at or below the fixed prefix qualifies,
    /// because the rest tail makes every descendant a potential child.
    #[must_use]
    pub fn matches_parent_path(&self, path: &Path) -> (r: bool)
        ensures
            r == (if has_rest(self@) {
                path_matches(self@, path@)
            } else {
                path@.len() + 1 == self@.len() && matches_upto(
                    self@,
                    path@,
                    path@.len() as int,
                )
            }),
    {
        proof {
            use_type_invariant(self);
        }
        let segments = path.segments();
        if self.has_rest {
            self.matches_path(path)
        } else {
            segments.len() < self.segments.len() && segments.len() == self.segments.len() - 1
                && self.matches_segments(segments, segments.len())
        }
    }

    /// The final segment's literal name, or `None` when the leaf is dynamic
    /// (a capture or rest segment).
    #[must_use]
    pub fn static_child(&self) -> (r: Option<&str>)
        ensures
            match r {
                Some(name) => self@.len() > 0 && self@.last() == Shape::Literal(name@),
                None => self@.len() == 0 || !(self@.last() is Literal),
            },
    {
        if self.segments.len() == 0 {
            return None;
        }
        assert(self@.last() == self.segments@.last()@);
        match &self.segments[self.segments.len() - 1] {
            PatternSegment::Literal(name) => Some(name.as_str()),
            PatternSegment::Capture { .. } | PatternSegment::Rest { .. } => None,
        }
    }

    /// The literal child name this pattern contributes directly under
    /// `parent_segments`, plus whether the pattern continues below that child
    /// (`true` means the child is an intermediate directory, not this
    /// pattern's leaf). `None` when the next segment is dynamic or the parent
    /// is not a proper ancestor. This is how static directory discovery
    /// synthesizes literal entries without running any handler.
    #[must_use]
    pub fn literal_child_after(&self, parent_segments: &[String]) -> (r: Option<(&str, bool)>)
        ensures
            match r {
                Some((name, continues)) => literal_child(self@, text::views(parent_segments@))
                    == Some((name@, continues)),
                None => literal_child(self@, text::views(parent_segments@)) is None,
            },
    {
        if !self.accepts_as_strict_ancestor(parent_segments) {
            return None;
        }
        let parent_depth: usize = parent_segments.len();
        assert(self@[parent_depth as int] == self.segments@[parent_depth as int]@);
        match &self.segments[parent_depth] {
            PatternSegment::Literal(name) => Some(
                (name.as_str(), self.segments.len() - parent_depth > 1),
            ),
            PatternSegment::Capture { .. } | PatternSegment::Rest { .. } => None,
        }
    }

    /// Whether the segment directly under `parent_segments` is a capture or
    /// rest segment. A `true` from any route at a given depth makes that
    /// directory's static listing non-exhaustive: names this pattern would
    /// accept cannot be enumerated.
    #[must_use]
    pub fn has_dynamic_child_after(&self, parent_segments: &[String]) -> (r: bool)
        ensures
            r == dynamic_child(self@, text::views(parent_segments@)),
    {
        if !self.accepts_as_strict_ancestor(parent_segments) {
            return false;
        }
        let parent_depth: usize = parent_segments.len();
        assert(self@[parent_depth as int] == self.segments@[parent_depth as int]@);
        match &self.segments[parent_depth] {
            PatternSegment::Literal(_) => false,
            PatternSegment::Capture { .. } | PatternSegment::Rest { .. } => true,
        }
    }

    /// A shape signature of all segments but the last (`l:<lit>`, `p:<prefix>`,
    /// `c`, `r` joined by `/`). Used only for human-readable overlap
    /// diagnostics; capture names are deliberately erased because they do not
    /// affect matching.
    #[must_use]
    pub fn parent_signature(&self) -> (r: String)
        ensures
            r@ == signature(self@),
    {
        let mut parts: Vec<String> = Vec::new();
        let mut i: usize = 0;
        let ghost head = if self@.len() > 0 {
            self@.drop_last()
        } else {
            self@
        };
        while self.segments.len() - i > 1
            invariant
                head == (if self@.len() > 0 {
                    self@.drop_last()
                } else {
                    self@
                }),
                self@ == shapes(self.segments@),
                i <= head.len(),
                text::views(parts@) == head.take(i as int).map_values(
                    |s: Shape| s.signature(),
                ),
            decreases head.len() - i,
        {
            let ghost before = parts@;
            assert(head[i as int] == self.segments@[i as int]@);
            parts.push(segment_signature(&self.segments[i]));
            assert(text::views(parts@) =~= text::views(before).push(
                head[i as int].signature(),
            ));
            assert(head.take(i as int + 1) =~= head.take(i as int).push(head[i as int]));
            assert(text::views(parts@) =~= head.take(i as int + 1).map_values(
                |s: Shape| s.signature(),
            ));
            i = i + 1;
        }
        assert(head.take(i as int) =~= head);
        text::join(parts.as_slice(), "/")
    }

    /// The pattern-length prefix of `concrete_path` when this pattern matches
    /// that prefix: the anchor path of the route instance a descendant path
    /// belongs to. A rest pattern returns the whole path (the tail is part of
    /// the match).
    #[must_use]
    pub fn concrete_path_for(&self, concrete_path: &Path) -> (r: Option<Path>)
        ensures
            match anchor_of(self@, concrete_path@) {
                Some(anchor) => r matches Some(p) && p@ == anchor,
                None => r is None,
            },
    {
        proof {
            use_type_invariant(self);
        }
        let segments = concrete_path.segments();
        let fixed: usize = self.fixed_prefix_len();
        if segments.len() < fixed || !self.matches_segments(segments, fixed) {
            return None;
        }
        if self.has_rest {
            return Some(concrete_path.clone());
        }
        let head = vstd::slice::slice_subrange(segments, 0, fixed);
        assert(text::views(head@) =~= concrete_path@.take(fixed as int));
        Some(Path::from_segments(head))
    }

    /// Whether the whole concrete path is its own anchor.
    #[must_use]
    pub fn matches_exact_path(&self, concrete_path: &Path) -> (r: bool)
        ensures
            r == path_matches(self@, concrete_path@),
    {
        match self.concrete_path_for(concrete_path) {
            Some(matched) => {
                let r = matched.same(concrete_path);
                assert(concrete_path@.take(concrete_path@.len() as int) =~= concrete_path@);
                r
            },
            None => false,
        }
    }

    /// The number of segments.
    #[must_use]
    pub fn pattern_len(&self) -> (r: usize)
        ensures
            r == self@.len(),
    {
        self.segments.len()
    }

    /// Locate a named single-segment capture. Rest captures have no location:
    /// they span a variable number of segments and cannot be substituted.
    #[must_use]
    pub fn capture_location(&self, name: &str) -> (r: Option<CaptureLocation>)
        ensures
            match place_of(self@, name@) {
                Some(place) => r matches Some(location) && location@ == place,
                None => r is None,
            },
    {
        let mut i: usize = 0;
        while i < self.segments.len()
            invariant
                self@ == shapes(self.segments@),
                i <= self.segments@.len(),
                place_of(self@, name@) == place_from(self@, name@, i as nat),
            decreases self.segments@.len() - i,
        {
            assert(self@[i as int] == self.segments@[i as int]@);
            if let PatternSegment::Capture { name: capture_name, prefix } = &self.segments[i] {
                if text::same(capture_name.as_str(), name) {
                    let prefix: Option<String> = match prefix {
                        Some(prefix) => Some(prefix.clone()),
                        None => None,
                    };
                    return Some(CaptureLocation { segment_index: i, prefix });
                }
            }
            i = i + 1;
        }
        None
    }

    /// Segment count excluding a trailing rest capture: the part of the
    /// pattern that must be present for any match.
    #[must_use]
    pub fn fixed_prefix_len(&self) -> (r: usize)
        ensures
            r == fixed_len(self@),
    {
        proof {
            use_type_invariant(self);
        }
        if self.has_rest {
            self.segments.len() - 1
        } else {
            self.segments.len()
        }
    }

    /// Per-segment specificity: literal `(2, len)` beats prefix capture
    /// `(1, prefix len)` beats bare capture and rest `(0, 0)`. Lexicographic
    /// slice comparison gives a segmentwise ordering finer than
    /// [`Self::precedence_key`].
    #[must_use]
    pub fn specificity(&self) -> (r: &[(u8, usize)])
        ensures
            r@ == specificities(self@),
    {
        proof {
            use_type_invariant(self);
        }
        self.specificity.as_slice()
    }

    /// Whether two leaf claims can bind the same concrete path with equal
    /// precedence, so neither would reliably win dispatch.
    ///
    /// Two non-rest patterns are ambiguous when they have equal
    /// [`Self::precedence_key`]s and every segment pair overlaps (literal vs
    /// equal literal, anything vs bare capture, literal vs prefix capture
    /// whose prefix it extends, prefix captures where one prefix extends the
    /// other). Two rest patterns are ambiguous when their fixed prefixes have
    /// equal length and overlap pairwise. A rest pattern is never ambiguous
    /// with a non-rest pattern: precedence always separates them.
    ///
    /// Routes that merely overlap but have different precedence keys
    /// (`/{owner}` vs `/resolvers`) are legal and resolve by specificity; only
    /// equal-precedence overlap is rejected.
    #[must_use]
    pub fn is_ambiguous_with(&self, other: &Self) -> (r: bool)
        ensures
            r == ambiguous(self@, other@),
    {
        proof {
            use_type_invariant(self);
            use_type_invariant(other);
        }
        if self.has_rest != other.has_rest {
            return false;
        }
        if !self.has_rest {
            let left = self.precedence_key();
            let right = other.precedence_key();
            if left.0 != right.0 || left.1 != right.1 || left.2 != right.2 || left.3 != right.3 {
                return false;
            }
        }
        let fixed: usize = self.fixed_prefix_len();
        if fixed != other.fixed_prefix_len() {
            return false;
        }
        let mut i: usize = 0;
        while i < fixed
            invariant
                self@ == shapes(self.segments@),
                other@ == shapes(other.segments@),
                fixed <= self.segments@.len(),
                fixed <= other.segments@.len(),
                i <= fixed,
                forall|k: int| 0 <= k < i ==> (#[trigger] self@[k]).overlaps(other@[k]),
            decreases fixed - i,
        {
            assert(self@[i as int] == self.segments@[i as int]@);
            assert(other@[i as int] == other.segments@[i as int]@);
            if !segments_overlap(&self.segments[i], &other.segments[i]) {
                assert(!overlap_upto(self@, other@, fixed as int));
                return false;
            }
            i = i + 1;
        }
        true
    }

    /// The trailing segments a rest pattern captures from `path`, joined by
    /// `/` (empty string when the path ends at the fixed prefix). `None` for
    /// non-rest patterns or non-matching paths.
    #[must_use]
    pub fn rest_of(&self, path: &Path) -> (r: Option<String>)
        ensures
            r is Some == (has_rest(self@) && path_matches(self@, path@)),
            r matches Some(rest) ==> rest@ == text::joined(
                path@.skip(fixed_len(self@)),
                "/"@,
            ),
    {
        proof {
            use_type_invariant(self);
        }
        if !self.has_rest || !self.matches_path(path) {
            return None;
        }
        let segments = path.segments();
        let fixed: usize = self.fixed_prefix_len();
        let tail = vstd::slice::slice_subrange(segments, fixed, segments.len());
        assert(text::views(tail@) =~= path@.skip(fixed as int));
        Some(text::join(tail, "/"))
    }

    fn captures_from_segments(&self, concrete: &[String]) -> (r: Vec<Capture>)
        ensures
            captures::bindings_of(r@) == captures_of(self@, text::views(concrete@)),
    {
        let mut out: Vec<Capture> = Vec::new();
        let mut index: usize = 0;
        let ghost segments = text::views(concrete@);
        assert(captures::bindings_of(out@) =~= captures_upto(self@, segments, 0));
        while index < self.segments.len()
            invariant
                self@ == shapes(self.segments@),
                segments == text::views(concrete@),
                index <= self.segments@.len(),
                captures::bindings_of(out@) == captures_upto(self@, segments, index as nat),
            decreases self.segments@.len() - index,
        {
            assert(self@[index as int] == self.segments@[index as int]@);
            let ghost before = out@;
            match &self.segments[index] {
                PatternSegment::Literal(_) => {},
                PatternSegment::Capture { name, prefix } => {
                    if index < concrete.len() {
                        let raw = concrete[index].as_str();
                        assert(raw@ == segments[index as int]);
                        let value = match prefix {
                            Some(prefix) => match text::strip_prefix(raw, prefix.as_str()) {
                                Some(rest) => rest,
                                None => raw.to_owned(),
                            },
                            None => raw.to_owned(),
                        };
                        let capture = Capture { name: name.clone(), value };
                        let ghost binding = capture@;
                        out.push(capture);
                        assert(captures::bindings_of(out@) =~= captures::bindings_of(
                            before,
                        ).push(binding));
                    }
                },
                PatternSegment::Rest { name } => {
                    if index <= concrete.len() {
                        let tail = vstd::slice::slice_subrange(concrete, index, concrete.len());
                        assert(text::views(tail@) =~= segments.skip(index as int));
                        let capture = Capture { name: name.clone(), value: text::join(tail, "/") };
                        let ghost binding = capture@;
                        out.push(capture);
                        assert(captures::bindings_of(out@) =~= captures::bindings_of(
                            before,
                        ).push(binding));
                    }
                },
            }
            index = index + 1;
        }
        out
    }

    /// Whether the first `count` segments are what the pattern asks for, as
    /// far as it goes.
    fn matches_segments(&self, concrete: &[String], count: usize) -> (r: bool)
        requires
            count <= concrete@.len(),
        ensures
            r == matches_upto(self@, text::views(concrete@), count as int),
    {
        let ghost segments = text::views(concrete@);
        let mut i: usize = 0;
        while i < count && i < self.segments.len()
            invariant
                self@ == shapes(self.segments@),
                segments == text::views(concrete@),
                i <= count <= concrete@.len(),
                i <= self.segments@.len(),
                forall|k: int| 0 <= k < i ==> (#[trigger] self@[k]).matches(segments[k]),
            decreases count - i,
        {
            assert(self@[i as int] == self.segments@[i as int]@);
            assert(segments[i as int] == concrete@[i as int]@);
            if !segment_matches(&self.segments[i], concrete[i].as_str()) {
                assert(!matches_upto(self@, segments, count as int));
                return false;
            }
            i = i + 1;
        }
        true
    }
}

/// The error for a path that does not match.
fn unmatched(path: &Path, why: &str) -> (r: Error)
    ensures
        r@ == "path "@ + text::quoted(path::path_text(path@)) + why@,
{
    let quoted = text::debug_quoted(path.as_str());
    Error::new(text::concat3("path ", quoted.as_str(), why))
}

fn has_double_slash(chars: &[char]) -> (r: bool)
    ensures
        r == double_slash(chars@),
{
    let mut i: usize = 0;
    while chars.len() - i > 1
        invariant
            i <= chars@.len(),
            forall|k: int|
                0 <= k < i && k + 1 < chars@.len() ==> !(#[trigger] chars@[k] == '/' && chars@[k
                    + 1] == '/'),
        decreases chars@.len() - i,
    {
        if chars[i] == '/' && chars[i + 1] == '/' {
            assert(chars@[i as int] == '/');
            return true;
        }
        i = i + 1;
    }
    false
}

/// The literal child that a pattern contributes directly under a path, and
/// whether the pattern goes on below it.
pub open spec fn literal_child(shapes: Seq<Shape>, parent: Seq<Seq<char>>) -> Option<
    (Seq<char>, bool),
> {
    if strict_ancestor(shapes, parent) {
        match shapes[parent.len() as int] {
            Shape::Literal(name) => Some((name, shapes.len() > parent.len() + 1)),
            _ => None,
        }
    } else {
        None
    }
}

/// The child that a pattern has directly under a path is not a literal one.
pub open spec fn dynamic_child(shapes: Seq<Shape>, parent: Seq<Seq<char>>) -> bool {
    strict_ancestor(shapes, parent) && !(shapes[parent.len() as int] is Literal)
}

/// The signature of all shapes but the last.
pub open spec fn signature(shapes: Seq<Shape>) -> Seq<char> {
    text::joined(
        (if shapes.len() > 0 {
            shapes.drop_last()
        } else {
            shapes
        }).map_values(|s: Shape| s.signature()),
        "/"@,
    )
}

/// The part of a path that the pattern covers, if it matches that far.
pub open spec fn anchor_of(shapes: Seq<Shape>, segments: Seq<Seq<char>>) -> Option<
    Seq<Seq<char>>,
> {
    if segments.len() < fixed_len(shapes) || !matches_upto(shapes, segments, fixed_len(shapes)) {
        None
    } else if has_rest(shapes) {
        Some(segments)
    } else {
        Some(segments.take(shapes.len() as int))
    }
}

/// The place of the first single-segment capture of that name, from position
/// `i` on.
pub open spec fn place_from(shapes: Seq<Shape>, name: Seq<char>, i: nat) -> Option<Place>
    decreases shapes.len() - i,
{
    if i >= shapes.len() {
        None
    } else {
        match shapes[i as int] {
            Shape::Capture { name: found, prefix } => if found == name {
                Some(Place { index: i, prefix })
            } else {
                place_from(shapes, name, i + 1)
            },
            _ => place_from(shapes, name, i + 1),
        }
    }
}

/// The place of the first single-segment capture of that name.
pub open spec fn place_of(shapes: Seq<Shape>, name: Seq<char>) -> Option<Place> {
    place_from(shapes, name, 0)
}

} // verus!
