//! Logical object identity.
//!
//! A logical id names an object by its kind and its identity captures. Facets
//! (captures that only select a view of the same object) are left out, which
//! is how several route aliases share one cached object.

use vstd::prelude::*;
use vstd::string::*;

use crate::captures;
use crate::captures::Bindings;
use crate::object::ObjectKind;
use crate::text;
use crate::wire;

verus! {

/// A key field that does not contribute to the identity.
#[derive(Debug, PartialEq, Eq)]
pub struct Facet<T>(pub T);

/// The identity part of a key.
pub trait IdentityCaptures {
    /// The identity captures with their values, in declaration order.
    open spec fn identity(&self) -> Bindings {
        vstd::pervasive::arbitrary()
    }

    fn identity_captures(&self) -> (r: Vec<(&'static str, String)>)
        ensures
            pairs(r@) == self.identity(),
    ;
}

/// The text of named values.
pub open spec fn pairs(items: Seq<(&'static str, String)>) -> Bindings {
    items.map_values(|p: (&'static str, String)| (p.0@, p.1@))
}

/// An object's kind and its identity captures.
pub struct IdModel {
    pub kind: Seq<char>,
    pub captures: Bindings,
}

/// The logical id of an object.
#[derive(Debug, PartialEq, Eq)]
pub struct LogicalId {
    pub kind: ObjectKind,
    pub captures: Vec<(&'static str, String)>,
}

impl View for LogicalId {
    type V = IdModel;

    open spec fn view(&self) -> IdModel {
        IdModel { kind: self.kind.0@, captures: pairs(self.captures@) }
    }
}

/// The model of an optional id.
pub open spec fn id_of(id: Option<LogicalId>) -> Option<IdModel> {
    match id {
        Some(id) => Some(id@),
        None => None,
    }
}

impl Clone for LogicalId {
    fn clone(&self) -> (r: Self)
        ensures
            r@ == self@,
    {
        let mut captures: Vec<(&'static str, String)> = Vec::new();
        let mut i: usize = 0;
        while i < self.captures.len()
            invariant
                i <= self.captures@.len(),
                captures@ == self.captures@.take(i as int),
            decreases self.captures@.len() - i,
        {
            captures.push((self.captures[i].0, self.captures[i].1.clone()));
            i = i + 1;
        }
        assert(captures@ =~= self.captures@);
        LogicalId { kind: self.kind, captures }
    }
}

impl LogicalId {
    pub fn new(kind: ObjectKind, captures: Vec<(&'static str, String)>) -> (r: Self)
        ensures
            r.kind == kind,
            r.captures == captures,
            r@ == (IdModel { kind: kind.0@, captures: pairs(captures@) }),
    {
        LogicalId { kind, captures }
    }

    /// Whether an id from the wire names the same object: the same kind, and
    /// the same captures in the same order.
    pub fn matches_wire(&self, id: &wire::LogicalId) -> (r: bool)
        ensures
            r == (self@ == id@),
    {
        if !text::same(self.kind.0, id.kind.as_str()) {
            return false;
        }
        if self.captures.len() != id.captures.len() {
            assert(self@.captures.len() != id@.captures.len());
            return false;
        }
        let mut i: usize = 0;
        while i < self.captures.len()
            invariant
                i <= self.captures@.len(),
                self.captures@.len() == id.captures@.len(),
                forall|k: int| 0 <= k < i ==> self@.captures[k] == id@.captures[k],
            decreases self.captures@.len() - i,
        {
            if !text::same(self.captures[i].0, id.captures[i].name.as_str()) || !text::same(
                self.captures[i].1.as_str(),
                id.captures[i].value.as_str(),
            ) {
                assert(self@.captures[i as int] != id@.captures[i as int]);
                return false;
            }
            i = i + 1;
        }
        assert(self@.captures =~= id@.captures);
        true
    }

    /// Lowers the id onto the wire.
    pub fn to_wire(&self) -> (r: wire::LogicalId)
        ensures
            r@ == self@,
    {
        let mut out: Vec<captures::Capture> = Vec::new();
        let mut i: usize = 0;
        while i < self.captures.len()
            invariant
                i <= self.captures@.len(),
                captures::bindings_of(out@) == self@.captures.take(i as int),
            decreases self.captures@.len() - i,
        {
            let ghost before = out@;
            let capture = captures::Capture {
                name: self.captures[i].0.to_owned(),
                value: self.captures[i].1.clone(),
            };
            let ghost binding = capture@;
            out.push(capture);
            assert(captures::bindings_of(out@) =~= captures::bindings_of(before).push(binding));
            assert(self@.captures.take(i as int + 1) =~= self@.captures.take(i as int).push(
                self@.captures[i as int],
            ));
            i = i + 1;
        }
        assert(self@.captures.take(self@.captures.len() as int) =~= self@.captures);
        wire::LogicalId { kind: self.kind.0.to_owned(), captures: out }
    }
}

} // verus!
