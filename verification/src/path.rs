//! Absolute protocol paths and their segments.
//!
//! A path is `/` alone or a `/` in front of each of its segments. A segment is
//! not empty, holds no `/`, and is neither `.` nor `..`.

use vstd::prelude::*;
use vstd::string::*;

use crate::text;

verus! {

/// A name that can stand between two slashes.
pub open spec fn valid_segment(s: Seq<char>) -> bool {
    &&& s.len() > 0
    &&& !s.contains('/')
    &&& s != "."@
    &&& s != ".."@
}

/// Only valid segments.
pub open spec fn valid_segments(segments: Seq<Seq<char>>) -> bool {
    forall|i: int| 0 <= i < segments.len() ==> valid_segment(#[trigger] segments[i])
}

/// A path as it is written.
pub open spec fn path_text(segments: Seq<Seq<char>>) -> Seq<char> {
    if segments.len() == 0 {
        "/"@
    } else {
        "/"@ + text::joined(segments, "/"@)
    }
}

/// The segments of a written path, if it is one.
pub open spec fn path_of(s: Seq<char>) -> Option<Seq<Seq<char>>> {
    if s == "/"@ {
        Some(Seq::empty())
    } else if s.len() > 0 && s[0] == '/' && valid_segments(text::split_at(s.drop_first(), '/')) {
        Some(text::split_at(s.drop_first(), '/'))
    } else {
        None
    }
}

/// What a rejected path or segment is answered with.
pub open spec fn path_error(s: Seq<char>) -> Seq<char> {
    "invalid path "@ + text::quoted(s)
}

/// What a rejected segment is answered with.
pub open spec fn segment_error(s: Seq<char>) -> Seq<char> {
    "invalid path segment "@ + text::quoted(s)
}

/// Writing a path and reading it back gives the same segments.
pub proof fn law_path_round_trip(segments: Seq<Seq<char>>)
    requires
        valid_segments(segments),
    ensures
        path_of(path_text(segments)) == Some(segments),
{
    reveal_strlit("/");
    let slash = seq!['/'];
    assert("/"@ =~= slash);
    if segments.len() == 0 {
        assert(segments =~= Seq::empty());
    } else {
        let s = path_text(segments);
        assert(s.drop_first() =~= text::joined(segments, slash));
        assert forall|i: int| 0 <= i < segments.len() implies !(
        #[trigger] segments[i]).contains('/') by {
            assert(valid_segment(segments[i]));
        }
        text::lemma_split_join(segments, '/');
        assert(s[0] == '/');
        if s == "/"@ {
            assert(s.drop_first() =~= Seq::empty());
            reveal_with_fuel(text::split_at, 2);
            assert(text::split_at(s.drop_first(), '/')[0].len() == 0);
            assert(valid_segment(segments[0]));
        }
    }
}

/// Only the text of a path reads as that path.
pub proof fn law_path_text_unique(s: Seq<char>)
    requires
        path_of(s) is Some,
    ensures
        valid_segments(path_of(s)->0),
        path_text(path_of(s)->0) == s,
{
    reveal_strlit("/");
    assert("/"@ =~= seq!['/']);
    if s != "/"@ {
        text::lemma_join_split(s.drop_first(), '/');
        text::lemma_split_pieces(s.drop_first(), '/');
        assert(seq!['/'] + s.drop_first() =~= s);
    }
}

/// A rejected path or segment.
#[derive(Debug, PartialEq, Eq)]
pub struct PathError {
    message: String,
}

impl View for PathError {
    type V = Seq<char>;

    closed spec fn view(&self) -> Seq<char> {
        self.message@
    }
}

impl PathError {
    /// Why the text was rejected.
    pub fn message(&self) -> (r: &str)
        ensures
            r@ == self@,
    {
        self.message.as_str()
    }
}

fn is_valid_segment(s: &str) -> (r: bool)
    ensures
        r == valid_segment(s@),
{
    let length: usize = s.unicode_len();
    length > 0 && !text::contains_char(s, '/') && !text::same(s, ".") && !text::same(s, "..")
}

/// One path segment.
#[derive(Debug, PartialEq, Eq)]
pub struct Segment {
    name: String,
}

impl View for Segment {
    type V = Seq<char>;

    closed spec fn view(&self) -> Seq<char> {
        self.name@
    }
}

impl Segment {
    #[verifier::type_invariant]
    spec fn inv(self) -> bool {
        valid_segment(self.name@)
    }

    /// Reads a segment.
    pub fn parse(name: &str) -> (r: core::result::Result<Self, PathError>)
        ensures
            r is Ok == valid_segment(name@),
            r matches Ok(s) ==> s@ == name@,
            r matches Err(e) ==> e@ == segment_error(name@),
    {
        if is_valid_segment(name) {
            Ok(Segment { name: name.to_owned() })
        } else {
            let quoted = text::debug_quoted(name);
            Err(PathError { message: text::concat("invalid path segment ", quoted.as_str()) })
        }
    }

    pub fn as_str(&self) -> (r: &str)
        ensures
            r@ == self@,
            valid_segment(self@),
    {
        proof {
            use_type_invariant(self);
        }
        self.name.as_str()
    }
}

/// An absolute path.
#[derive(Debug, PartialEq, Eq)]
pub struct Path {
    written: String,
    segments: Vec<String>,
}

impl View for Path {
    type V = Seq<Seq<char>>;

    closed spec fn view(&self) -> Seq<Seq<char>> {
        text::views(self.segments@)
    }
}

impl Clone for Path {
    fn clone(&self) -> (r: Self)
        ensures
            r@ == self@,
            valid_segments(self@),
    {
        proof {
            use_type_invariant(self);
        }
        Path {
            written: self.written.clone(),
            segments: text::copied(self.segments.as_slice()),
        }
    }
}

impl Path {
    #[verifier::type_invariant]
    spec fn inv(self) -> bool {
        &&& valid_segments(text::views(self.segments@))
        &&& self.written@ == path_text(text::views(self.segments@))
    }

    /// The path `/`.
    pub fn root() -> (r: Self)
        ensures
            r@ == Seq::<Seq<char>>::empty(),
    {
        let segments: Vec<String> = Vec::new();
        assert(text::views(segments@) =~= Seq::<Seq<char>>::empty());
        Path { written: "/".to_owned(), segments }
    }

    /// Reads a path.
    pub fn parse(s: &str) -> (r: core::result::Result<Self, PathError>)
        ensures
            r is Ok == (path_of(s@) is Some),
            r matches Ok(p) ==> Some(p@) == path_of(s@),
            r matches Err(e) ==> e@ == path_error(s@),
    {
        if text::same(s, "/") {
            return Ok(Self::root());
        }
        let chars = text::chars_of(s);
        if chars.len() > 0 && chars[0] == '/' {
            let tail = text::string_of(chars.as_slice(), 1, chars.len());
            assert(tail@ =~= s@.drop_first());
            let segments = text::split(tail.as_str(), '/');
            if Self::all_valid(&segments) {
                proof {
                    law_path_text_unique(s@);
                }
                return Ok(Path { written: s.to_owned(), segments });
            }
        }
        let quoted = text::debug_quoted(s);
        Err(PathError { message: text::concat("invalid path ", quoted.as_str()) })
    }

    fn all_valid(segments: &Vec<String>) -> (r: bool)
        ensures
            r == valid_segments(text::views(segments@)),
    {
        let mut i: usize = 0;
        while i < segments.len()
            invariant
                i <= segments@.len(),
                forall|k: int|
                    0 <= k < i ==> valid_segment(#[trigger] text::views(segments@)[k]),
            decreases segments@.len() - i,
        {
            if !is_valid_segment(segments[i].as_str()) {
                assert(!valid_segment(text::views(segments@)[i as int]));
                return false;
            }
            i = i + 1;
        }
        true
    }

    /// The path with these segments, which must be valid.
    pub fn from_segments(segments: &[String]) -> (r: Self)
        requires
            valid_segments(text::views(segments@)),
        ensures
            r@ == text::views(segments@),
    {
        if segments.len() == 0 {
            assert(text::views(segments@) =~= Seq::<Seq<char>>::empty());
            return Self::root();
        }
        let tail = text::join(segments, "/");
        Path { written: text::concat("/", tail.as_str()), segments: text::copied(segments) }
    }

    /// The segments in order.
    pub fn segments(&self) -> (r: &[String])
        ensures
            text::views(r@) == self@,
            valid_segments(self@),
    {
        proof {
            use_type_invariant(self);
        }
        self.segments.as_slice()
    }

    /// The path as it is written.
    pub fn as_str(&self) -> (r: &str)
        ensures
            r@ == path_text(self@),
            valid_segments(self@),
    {
        proof {
            use_type_invariant(self);
        }
        self.written.as_str()
    }

    /// Whether this is the path `/`.
    pub fn is_root(&self) -> (r: bool)
        ensures
            r == (self@.len() == 0),
    {
        self.segments.len() == 0
    }

    /// The last segment, or the empty string for `/`.
    pub fn name(&self) -> (r: &str)
        ensures
            r@ == (if self@.len() == 0 {
                ""@
            } else {
                self@.last()
            }),
    {
        if self.segments.len() == 0 {
            ""
        } else {
            self.segments[self.segments.len() - 1].as_str()
        }
    }

    /// The path one segment below.
    pub fn join_segment(&self, segment: &Segment) -> (r: Self)
        ensures
            r@ == self@.push(segment@),
    {
        proof {
            use_type_invariant(self);
            use_type_invariant(segment);
        }
        let mut segments = text::copied(self.segments.as_slice());
        segments.push(segment.name.clone());
        assert(text::views(segments@) =~= self@.push(segment@));
        Self::from_segments(segments.as_slice())
    }

    /// The path one named segment below.
    pub fn join(&self, name: &str) -> (r: core::result::Result<Self, PathError>)
        ensures
            r is Ok == valid_segment(name@),
            r matches Ok(p) ==> p@ == self@.push(name@),
            r matches Err(e) ==> e@ == segment_error(name@),
    {
        match Segment::parse(name) {
            Ok(segment) => Ok(self.join_segment(&segment)),
            Err(error) => Err(error),
        }
    }

    /// The path one segment above, and the name of this path in it. There is
    /// none for `/`.
    pub fn parent_and_name(&self) -> (r: Option<(Self, String)>)
        ensures
            r is Some == (self@.len() > 0),
            r matches Some((parent, name)) ==> {
                &&& parent@ == self@.drop_last()
                &&& name@ == self@.last()
            },
    {
        proof {
            use_type_invariant(self);
        }
        if self.segments.len() == 0 {
            return None;
        }
        let mut segments = text::copied(self.segments.as_slice());
        let name = segments.pop();
        assert(text::views(segments@) =~= self@.drop_last());
        match name {
            Some(name) => {
                let parent = Self::from_segments(segments.as_slice());
                Some((parent, name))
            },
            None => None,
        }
    }

    /// Whether two paths are the same.
    pub fn same(&self, other: &Self) -> (r: bool)
        ensures
            r == (self@ == other@),
    {
        proof {
            use_type_invariant(self);
            use_type_invariant(other);
            law_path_round_trip(self@);
            law_path_round_trip(other@);
        }
        text::same(self.written.as_str(), other.written.as_str())
    }
}

/// A path segment is any text without a slash but the empty one and the two
/// that stand for a directory and its parent; a child path is made of its
/// parent and one more segment.
pub proof fn law_child_path_is_parent_and_segment(parent: Seq<Seq<char>>, name: Seq<char>)
    requires
        valid_segments(parent),
    ensures
        path_of(path_text(parent.push(name))) == Some(parent.push(name)) <== valid_segment(name),
        valid_segment(name) <==> name.len() > 0 && name != "."@ && name != ".."@ && forall|i: int|
            0 <= i < name.len() ==> #[trigger] name[i] != '/',
{
    if valid_segment(name) {
        assert(valid_segments(parent.push(name)));
        law_path_round_trip(parent.push(name));
        assert forall|i: int| 0 <= i < name.len() implies #[trigger] name[i] != '/' by {
            if name[i] == '/' {
                assert(name.contains('/'));
            }
        }
    }
}

} // verus!
