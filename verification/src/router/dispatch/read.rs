//! `read_file` and `open_file` dispatch.

use vstd::prelude::*;

use crate::browse::{OutcomeModel, ReadOutcome};
use crate::error;
use crate::error::{Failure, ProviderError, ProviderErrorKind, Result};
use crate::handler::OpenedFile;
use crate::path;
use crate::projection;
use crate::projection::{FileProjection, FileSource};
use crate::router::dispatch::list;
use crate::router::dispatch::route_shape;
use crate::router::dispatch::route_shape::{Chosen, ReadPlan, ReadRoute};
use crate::router::handlers;
use crate::router::handlers::{FileEntry, RouteMatch};
use crate::router::register::{Router, RouterModel, Row};
use crate::text;

verus! {

/// How a read is answered, or why it is not.
pub open spec fn read_planned<H>(
    m: RouterModel<H>,
    path: Seq<char>,
    mime: Seq<char>,
) -> core::result::Result<ReadPlan<H>, Failure> {
    match path::path_of(path) {
        None => Err(error::failure(ProviderErrorKind::InvalidInput, path::path_error(path))),
        Some(segments) => match route_shape::read_plan(m, segments, mime) {
            Some(plan) => Ok(plan),
            None => Err(list::no_such_path(path)),
        },
    }
}

/// The file route that opens a path, or why there is none.
pub open spec fn open_planned<H>(m: RouterModel<H>, path: Seq<char>) -> core::result::Result<
    Chosen<Row<H>>,
    Failure,
> {
    match path::path_of(path) {
        None => Err(error::failure(ProviderErrorKind::InvalidInput, path::path_error(path))),
        Some(segments) => match route_shape::chosen_row(
            m.files + m.handler_files,
            false,
            segments,
        ) {
            Some(chosen) => Ok(chosen),
            None => Err(list::no_such_path(path)),
        },
    }
}

/// The failure that reports a projection that cannot be read in ranges.
pub open spec fn not_ranged(path: Seq<char>) -> Failure {
    error::failure(
        ProviderErrorKind::InvalidInput,
        "open_file requires a ranged projection; path "@ + text::quoted(path)
            + " returned a non-ranged source"@,
    )
}

impl<H> Router<H> {
    /// Read the bytes at an absolute file path.
    ///
    /// A plain file route (including object handler files) wins first: its
    /// handler runs and [`finish_read_file`] lowers the projection to a
    /// one-shot content terminal. Otherwise the path resolves through the
    /// object read path: either the path is an object anchor (`content_type`
    /// selects the representation, falling back to octet-stream when the
    /// mime string is unknown) or a leaf under a dir-shaped anchor
    /// (representation by `stem.ext` name, projected field by name).
    ///
    /// A host-pushed canonical concerns the object path alone, which uses it
    /// to re-render without an upstream call; plain file routes have no
    /// canonical identity.
    pub fn read_file(&self, path: &str, content_type: &str) -> (r: Result<ReadRoute<'_, H>>)
        ensures
            match read_planned(self@, path@, content_type@) {
                Ok(plan) => r matches Ok(route) && route_shape::read_choice(Some(route)) == Some(
                    plan,
                ),
                Err(f) => r matches Err(e) && e@ == f,
            },
    {
        let abs = handlers::parse_provider_path(path)?;
        match self.read_route(&abs, content_type) {
            Some(route) => Ok(route),
            None => Err(list::path_not_found(path)),
        }
    }

    /// Open a ranged read session at an absolute file path.
    ///
    /// Only file routes participate, including object handler file leaves
    /// (representation and projected leaves are whole-byte reads), and the
    /// handler must return a [`FileSource::Ranged`] projection, which
    /// [`finish_open_file`] checks; anything else is an input error.
    pub fn open_file(&self, path: &str) -> (r: Result<RouteMatch<'_, FileEntry<H>>>)
        ensures
            match open_planned(self@, path@) {
                Ok(chosen) => r matches Ok(route) && route_shape::file_choice(Some(route)) == Some(
                    chosen,
                ),
                Err(f) => r matches Err(e) && e@ == f,
            },
    {
        let abs = handlers::parse_provider_path(path)?;
        match self.file_route(&abs) {
            Some(route) => Ok(route),
            None => Err(list::path_not_found(path)),
        }
    }
}

/// Answer a read with the projection that a file handler returned.
///
/// Projection limits on this path: a `Deferred` source cannot answer the
/// read it deferred to (the handler must return real bytes here), and
/// `Ranged` sources are served through an opened file, not a read.
pub fn finish_read_file<R>(projection: &FileProjection<R>) -> (r: Result<ReadOutcome>)
    ensures
        match projection::answer_of(projection@) {
            Ok(answer) => r matches Ok(outcome) && outcome@ == OutcomeModel::Found(answer),
            Err(f) => r matches Err(e) && e@ == f,
        },
{
    match projection.into_browse_content() {
        Ok(content) => Ok(ReadOutcome::Found(content)),
        Err(e) => Err(e),
    }
}

/// Open a session on the projection that a file handler returned for `path`.
/// The returned reader serves the chunk reads.
pub fn finish_open_file<R>(path: &str, projection: FileProjection<R>) -> (r: Result<
    OpenedFile<R>,
>)
    ensures
        match projection@.source {
            FileSource::Ranged(reader) => r matches Ok(opened) && opened.attrs == projection@.attrs
                && opened.reader == reader,
            _ => r matches Err(e) && e@ == not_ranged(path@),
        },
{
    match projection.into_source() {
        (attrs, FileSource::Ranged(reader)) => Ok(OpenedFile::new(attrs, reader)),
        _ => {
            let quoted = text::debug_quoted(path);
            let message = text::concat3(
                "open_file requires a ranged projection; path ",
                quoted.as_str(),
                " returned a non-ranged source",
            );
            Err(ProviderError::invalid_input(message.as_str()))
        },
    }
}

} // verus!
