//! Handler intent, pagination cursor, subtree handles, and ranged-read
//! session types.

use vstd::prelude::*;
use std::rc::Rc;

use crate::error::Result;
use crate::file_attrs;
use crate::file_attrs::FileAttrs;

verus! {

/// A pagination cursor for non-exhaustive listings: an upstream-issued
/// opaque token, or a plain page number. Return the next cursor with a
/// paged listing and the host echoes it back on the continuation call;
/// the provider holds no pagination state between calls.
#[derive(Debug, PartialEq, Eq)]
pub enum Cursor {
    Opaque(String),
    Page(u32),
}

impl Clone for Cursor {
    fn clone(&self) -> (r: Self)
        ensures
            r == *self,
    {
        match self {
            Cursor::Opaque(token) => Cursor::Opaque(token.clone()),
            Cursor::Page(page) => Cursor::Page(*page),
        }
    }
}

/// A copy of an optional cursor.
pub fn copy_cursor(cursor: &Option<Cursor>) -> (r: Option<Cursor>)
    ensures
        r == *cursor,
{
    match cursor {
        Some(cursor) => Some(cursor.clone()),
        None => None,
    }
}

/// The operation a directory handler is being invoked for.
///
/// One dir handler serves lookup and list (the same route knows the same
/// names), so check the intent when the answers should differ in cost: a
/// `Lookup` asks about one named child and should not trigger a full
/// upstream enumeration when a point query exists; a `List` enumerates.
#[derive(Debug, PartialEq, Eq)]
pub enum DirIntent {
    Lookup { child: String },
    List { cursor: Option<Cursor> },
    ReadFile { name: String },
}

impl Clone for DirIntent {
    fn clone(&self) -> (r: Self)
        ensures
            r == *self,
    {
        match self {
            DirIntent::Lookup { child } => DirIntent::Lookup { child: child.clone() },
            DirIntent::List { cursor } => DirIntent::List { cursor: copy_cursor(cursor) },
            DirIntent::ReadFile { name } => DirIntent::ReadFile { name: name.clone() },
        }
    }
}

/// Directory handler context: a provider context paired with the request
/// intent.
pub struct DirCx<C> {
    cx: C,
    intent: DirIntent,
}

impl<C> DirCx<C> {
    pub closed spec fn intent_spec(&self) -> DirIntent {
        self.intent
    }

    pub closed spec fn cx_spec(&self) -> C {
        self.cx
    }

    pub fn new(cx: C, intent: DirIntent) -> (r: Self)
        ensures
            r.cx_spec() == cx,
            r.intent_spec() == intent,
    {
        DirCx { cx, intent }
    }

    pub fn intent(&self) -> (r: &DirIntent)
        ensures
            *r == self.intent_spec(),
    {
        &self.intent
    }

    /// The provider context.
    pub fn cx(&self) -> (r: &C)
        ensures
            *r == self.cx_spec(),
    {
        &self.cx
    }

    /// The host-supplied pagination cursor for a listing call. `None` on the
    /// first page or for non-list intents; the handler resumes from it.
    pub fn cursor(&self) -> (r: Option<&Cursor>)
        ensures
            match self.intent_spec() {
                DirIntent::List { cursor: Some(cursor) } => r matches Some(c) && *c == cursor,
                _ => r is None,
            },
    {
        match &self.intent {
            DirIntent::List { cursor } => match cursor {
                Some(cursor) => Some(cursor),
                None => None,
            },
            _ => None,
        }
    }

    /// The `Cursor::Page` value, or `default` when no page cursor is present.
    pub fn page_cursor(&self, default: u32) -> (r: u32)
        ensures
            r == (match self.intent_spec() {
                DirIntent::List { cursor: Some(Cursor::Page(n)) } => n,
                _ => default,
            }),
    {
        match self.cursor() {
            Some(Cursor::Page(n)) => *n,
            _ => default,
        }
    }
}

/// One ranged-read answer: the bytes plus an `eof` flag meaning "this
/// chunk reaches the end of the content as of this read".
#[derive(Debug, PartialEq, Eq)]
pub struct FileChunk {
    pub content: Vec<u8>,
    pub eof: bool,
}

impl Clone for FileChunk {
    fn clone(&self) -> (r: Self)
        ensures
            r.content@ == self.content@,
            r.eof == self.eof,
    {
        FileChunk { content: file_attrs::copy_bytes(self.content.as_slice()), eof: self.eof }
    }
}

impl FileChunk {
    pub fn new(content: Vec<u8>, eof: bool) -> (r: Self)
        ensures
            r.content == content,
            r.eof == eof,
    {
        FileChunk { content, eof }
    }
}

/// Byte server for an open ranged-read session.
///
/// The contract: return up to `length` bytes starting at `offset`, with
/// `eof = true` when the chunk reaches the current end of content. An
/// `offset` at or past the end yields an empty chunk with `eof = true`,
/// not an error. Short chunks are legal; the host keeps reading.
pub trait RangeReader {
    fn read_chunk(&self, offset: u64, length: u32) -> (r: Result<FileChunk>)
        ensures
            r matches Ok(chunk) ==> chunk.content@.len() <= length,
    ;
}

/// The position behind a chunk of a payload of `total` bytes.
pub open spec fn chunk_end(total: nat, offset: nat, length: nat) -> nat {
    if offset + length < total {
        offset + length
    } else {
        total
    }
}

/// Up to `length` bytes from `offset` on.
pub open spec fn chunk_bytes(bytes: Seq<u8>, offset: nat, length: nat) -> Seq<u8> {
    if offset >= bytes.len() {
        Seq::empty()
    } else {
        bytes.subrange(offset as int, chunk_end(bytes.len(), offset, length) as int)
    }
}

/// Whether that chunk reaches the end.
pub open spec fn chunk_eof(bytes: Seq<u8>, offset: nat, length: nat) -> bool {
    offset + length >= bytes.len()
}

/// A [`RangeReader`] over a fully buffered in-memory payload.
///
/// Fine when the content is small or was already materialized anyway
/// (a rendered report, a decoded field). For large remote content it
/// defeats the purpose of ranged reads, since the whole payload is held
/// in guest memory up front.
#[derive(Debug)]
pub struct MemoryRangeReader {
    bytes: Rc<Vec<u8>>,
}

impl View for MemoryRangeReader {
    type V = Seq<u8>;

    closed spec fn view(&self) -> Seq<u8> {
        (*self.bytes)@
    }
}

impl Clone for MemoryRangeReader {
    fn clone(&self) -> (r: Self)
        ensures
            r@ == self@,
    {
        MemoryRangeReader { bytes: self.bytes.clone() }
    }
}

impl MemoryRangeReader {
    pub fn new(bytes: Vec<u8>) -> (r: Self)
        ensures
            r@ == bytes@,
    {
        MemoryRangeReader { bytes: Rc::new(bytes) }
    }
}

impl RangeReader for MemoryRangeReader {
    fn read_chunk(&self, offset: u64, length: u32) -> (r: Result<FileChunk>)
        ensures
            r matches Ok(chunk) && chunk.content@ == chunk_bytes(
                self@,
                offset as nat,
                length as nat,
            ) && chunk.eof == chunk_eof(self@, offset as nat, length as nat),
    {
        let total: usize = self.bytes.len();
        if offset >= total as u64 {
            let content: Vec<u8> = Vec::new();
            assert(content@ =~= Seq::<u8>::empty());
            return Ok(FileChunk::new(content, true));
        }
        let start: usize = offset as usize;
        let left: usize = total - start;
        let end: usize = if (length as u64) < left as u64 {
            start + length as usize
        } else {
            total
        };
        let part = vstd::slice::slice_subrange(self.bytes.as_slice(), start, end);
        Ok(FileChunk::new(vstd::slice::slice_to_vec(part), end == total))
    }
}

/// A chunk and the chunk that starts where it ends are one longer chunk, so
/// reading on until the end gives the whole payload.
pub proof fn law_chunks_concatenate(bytes: Seq<u8>, offset: nat, first: nat, second: nat)
    ensures
        ({
            let head = chunk_bytes(bytes, offset, first);
            head + chunk_bytes(bytes, offset + head.len(), second) == chunk_bytes(
                bytes,
                offset,
                head.len() + second,
            )
        }),
{
    let head = chunk_bytes(bytes, offset, first);
    assert(head + chunk_bytes(bytes, offset + head.len(), second) =~= chunk_bytes(
        bytes,
        offset,
        head.len() + second,
    ));
}

/// A chunk from the beginning that reaches the end is the whole payload, and
/// a chunk that does not reach it has the full length that was asked for.
pub proof fn law_chunk_reaches_end(bytes: Seq<u8>, offset: nat, length: nat)
    ensures
        chunk_eof(bytes, 0, length) ==> chunk_bytes(bytes, 0, length) == bytes,
        !chunk_eof(bytes, offset, length) ==> chunk_bytes(bytes, offset, length).len() == length,
        offset >= bytes.len() ==> chunk_bytes(bytes, offset, length).len() == 0 && chunk_eof(
            bytes,
            offset,
            length,
        ),
{
    if chunk_eof(bytes, 0, length) {
        assert(chunk_bytes(bytes, 0, length) =~= bytes);
    }
}

/// An open ranged-read session: the file's attrs plus the reader that
/// serves its chunks. Produced by router `open_file` dispatch from a
/// ranged projection; held until the file is closed.
pub struct OpenedFile<R> {
    pub attrs: FileAttrs,
    pub reader: R,
}

impl<R: Clone> Clone for OpenedFile<R> {
    fn clone(&self) -> (r: Self)
        ensures
            r.attrs == self.attrs,
            cloned(self.reader, r.reader),
    {
        OpenedFile { attrs: self.attrs.clone(), reader: self.reader.clone() }
    }
}

impl<R> OpenedFile<R> {
    pub fn new(attrs: FileAttrs, reader: R) -> (r: Self)
        ensures
            r.attrs == attrs,
            r.reader == reader,
    {
        OpenedFile { attrs, reader }
    }
}

/// The subtree handoff token a `treeref` handler returns: a host-issued
/// tree handle (from a git-open or open-archive callout) that the host
/// resolves to a bind-mounted directory. Provider dispatch stops at the
/// handoff point; paths below it never reach the provider.
#[derive(Clone, Copy, Debug, PartialEq, Eq, Structural)]
pub struct TreeRef {
    pub tree_ref: u64,
}

impl TreeRef {
    pub fn new(tree_ref: u64) -> (r: Self)
        ensures
            r.tree_ref == tree_ref,
    {
        TreeRef { tree_ref }
    }
}

} // verus!
