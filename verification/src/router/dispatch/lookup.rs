//! `lookup_child` dispatch.

use vstd::prelude::*;
use vstd::string::*;

use crate::browse;
use crate::browse::{Entry, Lookup, LookupModel};
use crate::captures::{Bindings, Captures};
use crate::error;
use crate::error::{Failure, ProviderErrorKind, Result};
use crate::file_attrs::FileProj;
use crate::handler::DirIntent;
use crate::object::ObjectShape;
use crate::path;
use crate::path::Path;
use crate::router::dispatch::route_shape;
use crate::router::dispatch::static_shape;
use crate::router::handlers;
use crate::router::pattern;
use crate::router::register::{Router, RouterModel};

verus! {

/// What is to be done for a lookup.
pub enum LookupStep<'a, H> {
    /// Nothing: this is the answer.
    Answered(Lookup),
    /// Run this treeref handler; the child is the subtree it hands over.
    TreeRef { handler: &'a H, captures: Captures },
    /// Run this dir handler with that intent and resolve the name against its
    /// projection with [`Router::projection_lookup`].
    Enumerate { handler: &'a H, captures: Captures, parent: Path, intent: DirIntent },
}

/// What a [`LookupStep`] says.
pub enum LookupPlan<H> {
    Answered(LookupModel),
    TreeRef { handler: H, captures: Bindings },
    Enumerate { handler: H, captures: Bindings, parent: Seq<Seq<char>>, child: Seq<char> },
}

/// A step does what the plan says.
pub open spec fn follows<H>(step: LookupStep<'_, H>, plan: LookupPlan<H>) -> bool {
    match step {
        LookupStep::Answered(lookup) => plan == LookupPlan::<H>::Answered(lookup@),
        LookupStep::TreeRef { handler, captures } => plan == (LookupPlan::TreeRef {
            handler: *handler,
            captures: captures@,
        }),
        LookupStep::Enumerate { handler, captures, parent, intent } => {
            &&& intent matches DirIntent::Lookup { child }
            &&& plan == (LookupPlan::Enumerate {
                handler: *handler,
                captures: captures@,
                parent: parent@,
                child: child@,
            })
        },
    }
}

/// A file route claims the name over a dir route: it has the higher
/// precedence.
pub open spec fn file_claims<H>(m: RouterModel<H>, child: Seq<Seq<char>>) -> bool {
    &&& route_shape::chosen_row(m.files + m.handler_files, false, child) matches Some(file)
    &&& route_shape::chosen_row(m.dirs, true, child) matches Some(dir)
    &&& pattern::precedence(dir.row.shapes).below(pattern::precedence(file.row.shapes))
}

/// The leaf of an object anchored at the parent that has that name.
pub open spec fn parent_leaf<H>(
    m: RouterModel<H>,
    parent: Seq<Seq<char>>,
    name: Seq<char>,
) -> LookupModel {
    match route_shape::chosen_object(m.objects, parent) {
        Some(route) => route_shape::leaf_lookup(route.row, parent, name),
        None => LookupModel::NotFound(None),
    }
}

/// How a child name is resolved.
pub open spec fn lookup_plan<H>(
    m: RouterModel<H>,
    parent: Seq<Seq<char>>,
    name: Seq<char>,
) -> LookupPlan<H> {
    let child = parent.push(name);
    let as_dir = LookupPlan::<H>::Answered(
        route_shape::static_lookup(m, parent, browse::dir_entry(name)),
    );
    match route_shape::chosen_row(m.treerefs, true, child) {
        Some(route) => LookupPlan::TreeRef {
            handler: route.row.handler,
            captures: route.captures,
        },
        None => if route_shape::chosen_row(m.dirs, true, child) is Some && !file_claims(
            m,
            child,
        ) {
            as_dir
        } else {
            match route_shape::chosen_object(m.objects, child) {
                Some(route) => match route.row.shape {
                    ObjectShape::Dir => as_dir,
                    ObjectShape::File => LookupPlan::Answered(
                        browse::found(route_shape::listed_file(name)),
                    ),
                },
                None => if !(parent_leaf(m, parent, name) is NotFound) {
                    LookupPlan::Answered(parent_leaf(m, parent, name))
                } else if route_shape::chosen_row(m.files + m.handler_files, false, child) is Some {
                    LookupPlan::Answered(
                        route_shape::static_lookup(m, parent, route_shape::listed_file(name)),
                    )
                } else if static_shape::implicit_dir(m, child) {
                    as_dir
                } else {
                    match route_shape::chosen_row(m.dirs + m.handler_dirs, true, parent) {
                        Some(route) => LookupPlan::Enumerate {
                            handler: route.row.handler,
                            captures: route.captures,
                            parent,
                            child: name,
                        },
                        None => LookupPlan::Answered(LookupModel::NotFound(None)),
                    }
                },
            }
        },
    }
}

/// Why a lookup is rejected, if it is.
pub open spec fn lookup_failure(parent: Seq<char>, name: Seq<char>) -> Option<Failure> {
    if path::path_of(parent) is None {
        Some(error::failure(ProviderErrorKind::InvalidInput, path::path_error(parent)))
    } else if !path::valid_segment(name) {
        Some(error::failure(ProviderErrorKind::InvalidInput, path::segment_error(name)))
    } else {
        None
    }
}

impl<H> Router<H> {
    /// Resolve one child name under an absolute parent path.
    ///
    /// Lookup is the authoritative name oracle: a found result here is
    /// binding even when the name never appeared in a listing, which is what
    /// lets capture routes resolve arbitrary names (`cd /github/torvalds`)
    /// without enumeration. Resolution order:
    ///
    /// 1. A treeref route at the child path: run the handler and hand the
    ///    subtree to the host.
    /// 2. A dir route at the child path: answer statically, without running
    ///    the child's handler, unless a file route also matches with
    ///    strictly higher precedence (then the file claims the name).
    /// 3. An object anchored at the child path: a dir-shaped anchor answers
    ///    as a static directory; a file-shaped one as its file entry.
    /// 4. A representation or field leaf of an object anchored at the
    ///    parent.
    /// 5. A file route at the child path: answer statically.
    /// 6. An auto-navigable literal prefix: a directory synthesized from the
    ///    route table alone.
    /// 7. Fallback: run the parent's dir handler with
    ///    [`DirIntent::Lookup`] and resolve the name against its enumeration
    ///    merged with static siblings; this is how dynamically enumerated
    ///    children (which match no route of their own) resolve.
    ///
    /// Static answers carry their sibling entries and an `exhaustive` flag
    /// that is false whenever a capture sibling exists at this depth, so the
    /// host knows the names it cached are not the whole story.
    pub fn lookup_child(&self, parent: &str, name: &str) -> (r: Result<LookupStep<'_, H>>)
        ensures
            match lookup_failure(parent@, name@) {
                Some(f) => r matches Err(e) && e@ == f,
                None => r matches Ok(step) && follows(
                    step,
                    lookup_plan(self@, path::path_of(parent@)->0, name@),
                ),
            },
    {
        let parent_abs = handlers::parse_provider_path(parent)?;
        let child = handlers::parse_child_segment(name)?;
        let child_abs = parent_abs.join_segment(&child);

        if let Some(route) = self.treeref_route(&child_abs) {
            return Ok(
                LookupStep::TreeRef { handler: &route.entry.handler, captures: route.captures },
            );
        }

        let file_match = self.file_route(&child_abs);
        if let Some(dir_route) = self.direct_dir_route(&child_abs) {
            let file_wins = match &file_match {
                Some(file_route) => dir_route.entry.pattern.loses_to(&file_route.entry.pattern),
                None => false,
            };
            if !file_wins {
                return Ok(LookupStep::Answered(self.static_dir_lookup(&parent_abs, name)));
            }
        }

        if let Some(route) = self.object_route(&child_abs) {
            return match route.entry.shape {
                ObjectShape::Dir => Ok(
                    LookupStep::Answered(self.static_dir_lookup(&parent_abs, name)),
                ),
                ObjectShape::File => Ok(
                    LookupStep::Answered(
                        Lookup::entry(Entry::file(name, FileProj::listing_shape())),
                    ),
                ),
            };
        }

        let object_file_lookup = self.object_leaf_lookup(&parent_abs, name);
        if object_file_lookup.is_found() {
            return Ok(LookupStep::Answered(object_file_lookup));
        }

        if file_match.is_some() {
            return Ok(LookupStep::Answered(self.static_file_lookup(&parent_abs, name)));
        }

        if self.is_implicit_prefix_dir(&child_abs) {
            return Ok(LookupStep::Answered(self.static_dir_lookup(&parent_abs, name)));
        }

        if let Some(route) = self.list_dir_route(&parent_abs) {
            return Ok(
                LookupStep::Enumerate {
                    handler: &route.entry.handler,
                    captures: route.captures,
                    parent: parent_abs,
                    intent: DirIntent::Lookup { child: name.to_owned() },
                },
            );
        }

        Ok(LookupStep::Answered(Lookup::not_found()))
    }
}

} // verus!
