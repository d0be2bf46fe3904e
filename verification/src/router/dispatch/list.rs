//! `list_children` dispatch.

use vstd::prelude::*;

use crate::browse;
use crate::browse::{Effects, EffectsModel, List, ListModel, ListingModel};
use crate::captures::{Bindings, Captures};
use crate::error;
use crate::error::{Failure, ProviderError, ProviderErrorKind, Result};
use crate::handler::{Cursor, DirIntent};
use crate::object::ObjectShape;
use crate::path;
use crate::path::Path;
use crate::router::dispatch::route_shape;
use crate::router::dispatch::route_shape::Chosen;
use crate::router::dispatch::static_shape;
use crate::router::handlers;
use crate::router::handlers::RouteMatch;
use crate::router::mount::ObjectEntry;
use crate::router::register;
use crate::router::register::{ObjectRow, Router, RouterModel};
use crate::text;

verus! {

/// What is to be done for a listing.
pub enum ListStep<'a, H> {
    /// Nothing: this is the answer.
    Answered(List),
    /// Run this treeref handler; the path is the subtree it hands over.
    TreeRef { handler: &'a H, captures: Captures },
    /// Run this dir handler with that intent and lower its projection with
    /// [`Router::dir_projection_into_list`].
    Enumerate { handler: &'a H, captures: Captures, path: Path, intent: DirIntent },
    /// Run this object's listing and answer with
    /// [`Router::finish_object_list`].
    Object { route: RouteMatch<'a, ObjectEntry<H>>, path: Path },
}

/// What a [`ListStep`] says.
pub enum ListPlan<H> {
    Answered(ListModel),
    TreeRef { handler: H, captures: Bindings },
    Enumerate { handler: H, captures: Bindings, path: Seq<Seq<char>>, cursor: Option<Cursor> },
    Object { route: Chosen<ObjectRow<H>>, path: Seq<Seq<char>> },
}

/// A step does what the plan says.
pub open spec fn follows<H>(step: ListStep<'_, H>, plan: ListPlan<H>) -> bool {
    match step {
        ListStep::Answered(list) => plan == ListPlan::<H>::Answered(list@),
        ListStep::TreeRef { handler, captures } => plan == (ListPlan::TreeRef {
            handler: *handler,
            captures: captures@,
        }),
        ListStep::Enumerate { handler, captures, path, intent } => {
            &&& intent matches DirIntent::List { cursor }
            &&& plan == (ListPlan::Enumerate {
                handler: *handler,
                captures: captures@,
                path: path@,
                cursor,
            })
        },
        ListStep::Object { route, path } => {
            &&& route_shape::object_choice(Some(route)) matches Some(chosen)
            &&& plan == (ListPlan::Object { route: chosen, path: path@ })
        },
    }
}

/// The failure that reports a file where a directory was asked for.
pub open spec fn is_a_file(path: Seq<char>) -> Failure {
    error::failure(ProviderErrorKind::NotADirectory, path + " is a file"@)
}

/// The failure that reports a path that nothing serves.
pub open spec fn no_such_path(path: Seq<char>) -> Failure {
    error::failure(ProviderErrorKind::NotFound, "path not found: "@ + path)
}

/// How a path is listed, or why it is not.
pub open spec fn list_plan<H>(
    m: RouterModel<H>,
    path: Seq<char>,
    cursor: Option<Cursor>,
) -> core::result::Result<ListPlan<H>, Failure> {
    match path::path_of(path) {
        None => Err(error::failure(ProviderErrorKind::InvalidInput, path::path_error(path))),
        Some(segments) => match route_shape::chosen_row(m.treerefs, true, segments) {
            Some(route) => Ok(
                ListPlan::TreeRef { handler: route.row.handler, captures: route.captures },
            ),
            None => match route_shape::chosen_row(m.dirs + m.handler_dirs, true, segments) {
                Some(route) => Ok(
                    ListPlan::Enumerate {
                        handler: route.row.handler,
                        captures: route.captures,
                        path: segments,
                        cursor,
                    },
                ),
                None => match route_shape::chosen_object(m.objects, segments) {
                    Some(route) => match route.row.shape {
                        ObjectShape::Dir => Ok(ListPlan::Object { route, path: segments }),
                        ObjectShape::File => Err(is_a_file(path)),
                    },
                    None => if static_shape::implicit_dir(m, segments) {
                        Ok(ListPlan::Answered(ListModel::Entries(implicit_listing(m, segments))))
                    } else if route_shape::chosen_row(
                        m.files + m.handler_files,
                        false,
                        segments,
                    ) is Some {
                        Err(is_a_file(path))
                    } else {
                        Err(no_such_path(path))
                    },
                },
            },
        },
    }
}

/// The listing of an auto-navigable literal prefix.
pub open spec fn implicit_listing<H>(m: RouterModel<H>, segments: Seq<Seq<char>>) -> ListingModel {
    browse::plain_listing(
        static_shape::static_entries(m, segments),
        !static_shape::capture_child(static_shape::all_routes(m), segments),
    )
}

/// The listing of an object's anchor with the effects of its load.
pub open spec fn object_listing<H>(
    m: RouterModel<H>,
    row: ObjectRow<H>,
    segments: Seq<Seq<char>>,
    effects: EffectsModel,
) -> ListingModel {
    ListingModel { effects, ..route_shape::anchor_listing(m, row, segments) }
}

pub(crate) fn file_not_directory(path: &str) -> (r: ProviderError)
    ensures
        r@ == is_a_file(path@),
{
    ProviderError::not_a_directory(text::concat(path, " is a file").as_str())
}

pub(crate) fn path_not_found(path: &str) -> (r: ProviderError)
    ensures
        r@ == no_such_path(path@),
{
    ProviderError::not_found(text::concat("path not found: ", path).as_str())
}

impl<H> Router<H> {
    /// List an absolute directory path.
    ///
    /// Resolution order: treeref handoff; a dir route (including object
    /// handler dirs) run with [`DirIntent::List`] and the resume cursor; a
    /// dir-shaped object anchor (precomputed leaf names, with the load's
    /// canonical-store and eager-preload effects attached); an
    /// auto-navigable literal prefix listed from the route table alone.
    /// File routes and file-shaped anchors report not-a-directory.
    ///
    /// Handler and anchor listings are merged with the literal sibling
    /// routes registered at that depth, ordered by name, the handler winning
    /// name collisions. Exhaustiveness: a handler listing reports the
    /// handler's own flag; an object anchor listing is complete (its leaves
    /// are statically known); an implicit prefix listing is partial whenever
    /// a capture sibling at the next depth can bind names that cannot be
    /// enumerated. Lookup remains the authority for names a listing
    /// omitted.
    ///
    /// `cached_validator` is accepted for the protocol's sake but unused
    /// here: the listing validator reaches handlers through their context,
    /// and they opt in by returning the unchanged projection when it still
    /// holds.
    pub fn list_children(
        &self,
        path: &str,
        cached_validator: Option<String>,
        cursor: Option<Cursor>,
    ) -> (r: Result<ListStep<'_, H>>)
        ensures
            match list_plan(self@, path@, cursor) {
                Ok(plan) => r matches Ok(step) && follows(step, plan),
                Err(f) => r matches Err(e) && e@ == f,
            },
    {
        let _ = cached_validator;
        let abs = handlers::parse_provider_path(path)?;

        if let Some(route) = self.treeref_route(&abs) {
            return Ok(
                ListStep::TreeRef { handler: &route.entry.handler, captures: route.captures },
            );
        }

        if let Some(route) = self.list_dir_route(&abs) {
            return Ok(
                ListStep::Enumerate {
                    handler: &route.entry.handler,
                    captures: route.captures,
                    path: abs,
                    intent: DirIntent::List { cursor },
                },
            );
        }

        if let Some(route) = self.object_route(&abs) {
            return match route.entry.shape {
                ObjectShape::Dir => Ok(ListStep::Object { route, path: abs }),
                ObjectShape::File => Err(file_not_directory(path)),
            };
        }

        if let Some(listing) = self.implicit_dir_listing(&abs) {
            return Ok(ListStep::Answered(List::entries(listing)));
        }

        if self.file_route(&abs).is_some() {
            return Err(file_not_directory(path));
        }

        Err(path_not_found(path))
    }

    /// Answer a listing with an object's anchor, once its load has given the
    /// effects.
    pub fn finish_object_list(
        &self,
        entry: &ObjectEntry<H>,
        abs: &Path,
        effects: Effects,
    ) -> (r: List)
        ensures
            r@ == ListModel::Entries(
                object_listing(self@, register::object_row(*entry), abs@, effects@),
            ),
    {
        proof {
            browse::law_effects_extend(effects@, effects@, effects@);
        }
        List::entries(self.object_dir_listing(entry, abs).with_effects(effects))
    }
}

} // verus!
