//! What a handler's projection hands over: the bytes of a read, and the
//! preloads that come with it.

use vstd::prelude::*;

use crate::browse;
use crate::browse::EffectsModel;
use crate::content_type;
use crate::error::{Failure, ProviderErrorKind};
use crate::file_attrs;
use crate::file_attrs::{BytesModel, FileModel, ReadMode, Size};
use crate::identity::IdModel;
use crate::path;
use crate::projection;
use crate::projection::{DirModel, FileProjection, FileSource, ProjModel};
use crate::text;
use crate::wire;
use crate::wire::{KindModel, SourceModel, StoreModel, WriteModel};

verus! {

/// A read hands over what the handler projected: its bytes as they are, be
/// they inline, a body or a blob, with its attributes and its content type. A
/// source that is only promised cannot answer a read.
pub proof fn law_read_hands_over_the_projection<R>(p: ProjModel<R>)
    ensures
        match p.source {
            FileSource::Deferred(_) => projection::answer_of(p) matches Err(f) && f.kind
                == ProviderErrorKind::NotFound,
            FileSource::Ranged(_) => projection::answer_of(p) matches Err(f) && f.kind
                == ProviderErrorKind::Unimplemented,
            _ => true,
        },
        projection::answer_of(p) matches Ok(answer) ==> {
            &&& match p.source {
                FileSource::Inline(bytes) => answer.bytes == SourceModel::Inline(bytes@),
                FileSource::Body(bytes) => answer.bytes == SourceModel::Inline(bytes@),
                FileSource::Blob(blob) => answer.bytes == SourceModel::Blob(blob.0),
                _ => false,
            }
            &&& answer.attrs == p.attrs
            &&& answer.content_type == p.content_type
        },
        p.extra_files.len() == 0 && !(p.source is Deferred) && !(p.source is Ranged) ==> (
        projection::answer_of(p) matches Ok(answer) && answer.effects == browse::no_effects()),
{
}

/// A staged write is the preload of a projection: a file without an identity,
/// at the path in protocol form, with the projection's attributes, its content
/// type and its bytes, or its way of reading them later.
pub open spec fn preloads<R>(write: WriteModel, path: Seq<char>, p: ProjModel<R>) -> bool {
    &&& write.id is None
    &&& browse::wire_path_of(path) == Ok::<Seq<char>, Failure>(write.path)
    &&& write.kind matches KindModel::File(file)
    &&& file.attrs.size == p.attrs.size
    &&& file.attrs.stability == p.attrs.stability
    &&& match p.attrs.version {
        Some(version) => file.attrs.version_token == Some(version.0),
        None => file.attrs.version_token is None,
    }
    &&& match p.content_type {
        Some(ct) => file.content_type == Some(ct.mime()),
        None => file.content_type is None,
    }
    &&& match p.source {
        FileSource::Inline(bytes) => file.bytes == SourceModel::Inline(bytes@),
        FileSource::Deferred(read) => file.bytes == SourceModel::Deferred(read),
        _ => false,
    }
}

/// A projection that a listing or a read can preload: inline bytes, or bytes
/// that are read later.
pub open spec fn preloadable<R>(p: ProjModel<R>) -> bool {
    p.source is Inline || p.source is Deferred
}

/// Every preload that has a place in the filesystem is staged, behind what was
/// staged before and in order, and nothing else is.
pub proof fn law_every_preload_is_staged<R>(
    before: EffectsModel,
    files: Seq<(Seq<char>, FileProjection<R>)>,
    i: int,
)
    requires
        projection::stage_files(before, files, files.len()) is Ok,
    ensures
        ({
            let after = projection::stage_files(before, files, files.len())->Ok_0;
            &&& after.canonical == before.canonical
            &&& after.invalidations == before.invalidations
            &&& before.fs.len() <= after.fs.len()
            &&& forall|w: int| 0 <= w < before.fs.len() ==> #[trigger] after.fs[w] == before.fs[w]
            &&& 0 <= i < files.len() && preloadable(files[i].1@) ==> exists|w: int|
                before.fs.len() <= w < after.fs.len() && preloads(
                    #[trigger] after.fs[w],
                    files[i].0,
                    files[i].1@,
                )
            &&& forall|w: int|
                before.fs.len() <= w < after.fs.len() ==> exists|k: int|
                    0 <= k < files.len() && preloads(
                        #[trigger] after.fs[w],
                        (#[trigger] files[k]).0,
                        files[k].1@,
                    )
        }),
{
    lemma_staged(before, files, files.len(), i);
}

proof fn lemma_staged<R>(
    before: EffectsModel,
    files: Seq<(Seq<char>, FileProjection<R>)>,
    n: nat,
    i: int,
)
    requires
        n <= files.len(),
        projection::stage_files(before, files, n) is Ok,
    ensures
        ({
            let after = projection::stage_files(before, files, n)->Ok_0;
            &&& after.canonical == before.canonical
            &&& after.invalidations == before.invalidations
            &&& before.fs.len() <= after.fs.len()
            &&& forall|w: int| 0 <= w < before.fs.len() ==> #[trigger] after.fs[w] == before.fs[w]
            &&& 0 <= i < n && preloadable(files[i].1@) ==> exists|w: int|
                before.fs.len() <= w < after.fs.len() && preloads(
                    #[trigger] after.fs[w],
                    files[i].0,
                    files[i].1@,
                )
            &&& forall|w: int|
                before.fs.len() <= w < after.fs.len() ==> exists|k: int|
                    0 <= k < n && preloads(
                        #[trigger] after.fs[w],
                        (#[trigger] files[k]).0,
                        files[k].1@,
                    )
        }),
    decreases n,
{
    if n > 0 {
        let last = n - 1;
        lemma_staged(before, files, last as nat, i);
        let head = projection::stage_files(before, files, last as nat)->Ok_0;
        let after = projection::stage_files(before, files, n)->Ok_0;
        if preloadable(files[last].1@) {
            assert(after.fs == head.fs.push(after.fs.last()));
            assert(preloads(after.fs[head.fs.len() as int], files[last].0, files[last].1@));
        } else {
            assert(after == head);
        }
        if 0 <= i < last && preloadable(files[i].1@) {
            let w = choose|w: int|
                before.fs.len() <= w < head.fs.len() && preloads(
                    #[trigger] head.fs[w],
                    files[i].0,
                    files[i].1@,
                );
            assert(after.fs[w] == head.fs[w]);
        }
        assert forall|w: int| before.fs.len() <= w < after.fs.len() implies exists|k: int|
            0 <= k < n && preloads(
                #[trigger] after.fs[w],
                (#[trigger] files[k]).0,
                files[k].1@,
            ) by {
            if w < head.fs.len() {
                assert(after.fs[w] == head.fs[w]);
                let k = choose|k: int|
                    0 <= k < last && preloads(
                        head.fs[w],
                        (#[trigger] files[k]).0,
                        files[k].1@,
                    );
                assert(preloads(after.fs[w], files[k].0, files[k].1@));
            } else {
                assert(preloads(after.fs[w], files[last].0, files[last].1@));
            }
        }
    }
}

/// A directory projection stages its directories first, in order and each with
/// its own claim of completeness, then its files; and it stores exactly the
/// canonicals that it was given, and evicts nothing.
pub proof fn law_directory_preloads_come_first<R>(p: DirModel<R>, i: int)
    requires
        projection::effects_of(p) is Ok,
    ensures
        ({
            let effects = projection::effects_of(p)->Ok_0;
            &&& effects.canonical == p.extra_canonical
            &&& effects.invalidations.len() == 0
            &&& p.extra_dirs.len() <= effects.fs.len()
            &&& 0 <= i < p.extra_dirs.len() ==> {
                &&& effects.fs[i].id is None
                &&& browse::wire_path_of(p.extra_dirs[i].0) == Ok::<Seq<char>, Failure>(
                    effects.fs[i].path,
                )
                &&& effects.fs[i].kind == KindModel::Directory(p.extra_dirs[i].1)
            }
            &&& forall|w: int|
                p.extra_dirs.len() <= w < effects.fs.len() ==> (#[trigger] effects.fs[w]).kind
                    is File
        }),
{
    let dirs = projection::stage_dirs(
        browse::no_effects(),
        p.extra_dirs,
        p.extra_dirs.len(),
    )->Ok_0;
    lemma_dirs_staged(p.extra_dirs, p.extra_dirs.len(), i);
    lemma_staged(dirs, p.extra_files, p.extra_files.len(), 0);
    let effects = projection::effects_of(p)->Ok_0;
    assert(Seq::<StoreModel>::empty() + p.extra_canonical =~= p.extra_canonical);
    if 0 <= i < p.extra_dirs.len() {
        assert(effects.fs[i] == dirs.fs[i]);
    }
}

proof fn lemma_dirs_staged(dirs: Seq<(Seq<char>, bool)>, n: nat, i: int)
    requires
        n <= dirs.len(),
        projection::stage_dirs(browse::no_effects(), dirs, n) is Ok,
    ensures
        ({
            let after = projection::stage_dirs(browse::no_effects(), dirs, n)->Ok_0;
            &&& after.canonical.len() == 0
            &&& after.invalidations.len() == 0
            &&& after.fs.len() == n
            &&& 0 <= i < n ==> {
                &&& after.fs[i].id is None
                &&& browse::wire_path_of(dirs[i].0) == Ok::<Seq<char>, Failure>(after.fs[i].path)
                &&& after.fs[i].kind == KindModel::Directory(dirs[i].1)
            }
        }),
    decreases n,
{
    if n > 0 {
        lemma_dirs_staged(dirs, (n - 1) as nat, i);
    }
}

/// A preload lies below its directory, unless it names an absolute path.
pub proof fn law_preload_path_is_below_its_directory(base: Seq<char>, leaf: Seq<char>)
    ensures
        leaf.len() > 0 && leaf[0] == '/' ==> projection::joined_path(base, leaf) == leaf,
        !(leaf.len() > 0 && leaf[0] == '/') && !(base.len() > 0 && base.last() == '/')
            ==> projection::joined_path(base, leaf) == base + "/"@ + leaf,
        !(leaf.len() > 0 && leaf[0] == '/') ==> projection::joined_path(base + "/"@, leaf)
            == projection::joined_path(base, leaf),
{
    reveal_strlit("/");
    assert((base + "/"@).last() == '/');
    assert((base + "/"@).drop_last() =~= base);
}

/// An effect path is put in protocol form by a slash in front where there is
/// none, and rejected as invalid input where that is no path.
pub proof fn law_effect_paths_are_absolute(s: Seq<char>)
    ensures
        match browse::wire_path_of(s) {
            Ok(p) => path::path_of(p) is Some && (p == s || p == "/"@ + s) && (s.len() > 0 && s[0]
                == '/' ==> p == s),
            Err(f) => f.kind == ProviderErrorKind::InvalidInput && path::path_of(s) is None,
        },
{
    reveal_strlit("/");
    if path::path_of(s) is Some {
        path::law_path_text_unique(s);
    }
}

/// Which projected files the host accepts: a version token that is neither
/// empty nor over its limit, volatile bytes only where they are read in ranges,
/// and inline bytes only up to the limit and with their exact number as the
/// size.
pub proof fn law_legal_files(file: FileModel)
    ensures
        file_attrs::file_failure(file) is None <==> {
            &&& file.attrs.version matches Some(token) ==> token.0@.len() > 0 && text::byte_len(
                token.0@,
            ) <= 256
            &&& file.attrs.stability is Volatile ==> file.bytes == BytesModel::Deferred(
                ReadMode::Ranged,
            )
            &&& file.bytes matches BytesModel::Inline(bytes) ==> bytes.len() <= 65536 && (
            file.attrs.size matches Size::Exact(size) && size == bytes.len())
        },
        file_attrs::file_failure(file) matches Some(f) ==> (f.kind == ProviderErrorKind::TooLarge
            || f.kind == ProviderErrorKind::InvalidInput),
        file_attrs::file_failure(file) matches Some(f) && f.kind == ProviderErrorKind::TooLarge
            ==> (file.bytes matches BytesModel::Inline(bytes) && bytes.len() > 65536),
{
}

/// A preloaded answer must carry its bytes and not be volatile.
pub proof fn law_preload_needs_stable_inline_bytes(content: browse::AnswerModel)
    ensures
        projection::preload_failure(content) is None <==> content.bytes is Inline
            && !(content.attrs.stability is Volatile),
        projection::preload_failure(content) matches Some(f) ==> f.kind
            == ProviderErrorKind::Internal,
{
}

/// A file goes onto the wire as it is: its bytes, or its way of reading them,
/// its size, its stability, its version and the mime text of its type.
pub proof fn law_lowering_keeps_the_file(a: FileModel, b: FileModel)
    requires
        !(a.content_type matches Some(ct) && ct is Custom),
        !(b.content_type matches Some(ct) && ct is Custom),
        wire::lowered_file(a) == wire::lowered_file(b),
    ensures
        a.bytes == b.bytes,
        a.attrs.size == b.attrs.size,
        a.attrs.stability == b.attrs.stability,
        a.content_type == b.content_type,
{
    if let (Some(left), Some(right)) = (a.content_type, b.content_type) {
        content_type::law_mime_round_trip(left);
        content_type::law_mime_round_trip(right);
    }
}

/// An entry goes onto the wire as it is: its name, its identity, and whether
/// it is a file.
pub proof fn law_entries_reach_the_wire(entries: Seq<browse::EntryModel>, i: int)
    requires
        0 <= i < entries.len(),
    ensures
        browse::lowered_entries(entries).len() == entries.len(),
        ({
            let lowered = browse::lowered_entries(entries)[i];
            &&& lowered.name == entries[i].name
            &&& lowered.id == entries[i].id
            &&& lowered.file is Some <==> entries[i].file is Some
            &&& entries[i].file matches Some(file) ==> (lowered.file matches Some(out)
                && out.attrs.size == file.attrs.size && out.attrs.stability
                == file.attrs.stability)
        }),
{
}

/// Effects are appended behind those that are there, channel by channel.
pub proof fn law_effects_are_appended(a: EffectsModel, b: EffectsModel)
    ensures
        a.then_also(b).fs.len() == a.fs.len() + b.fs.len(),
        a.then_also(b).canonical.len() == a.canonical.len() + b.canonical.len(),
        a.then_also(b).invalidations.len() == a.invalidations.len() + b.invalidations.len(),
        forall|i: int| 0 <= i < a.fs.len() ==> #[trigger] a.then_also(b).fs[i] == a.fs[i],
        forall|i: int|
            0 <= i < b.fs.len() ==> #[trigger] b.fs[i] == a.then_also(b).fs[a.fs.len() + i],
        forall|i: int|
            0 <= i < b.canonical.len() ==> #[trigger] b.canonical[i] == a.then_also(b).canonical[
            a.canonical.len() + i],
        forall|i: int|
            0 <= i < b.invalidations.len() ==> #[trigger] b.invalidations[i] == a.then_also(
                b,
            ).invalidations[a.invalidations.len() + i],
{
}

/// A write that is rejected stages nothing and says why; one that is accepted
/// adds itself and changes nothing else.
pub proof fn law_write_is_staged_or_rejected(
    before: EffectsModel,
    path: Seq<char>,
    failure: Option<Failure>,
    id: Option<IdModel>,
    kind: KindModel,
)
    ensures
        match browse::staged_write(before, path, failure, id, kind) {
            Ok(after) => {
                &&& failure is None
                &&& after.fs.len() == before.fs.len() + 1
                &&& after.fs.drop_last() == before.fs
                &&& after.fs.last().id == id
                &&& after.fs.last().kind == kind
                &&& browse::wire_path_of(path) == Ok::<Seq<char>, Failure>(after.fs.last().path)
                &&& after.canonical == before.canonical
                &&& after.invalidations == before.invalidations
            },
            Err(f) => failure == Some(f) || (failure is None && browse::wire_path_of(path)
                == Err::<Seq<char>, Failure>(f)),
        },
{
    if let Ok(after) = browse::staged_write(before, path, failure, id, kind) {
        assert(after.fs.drop_last() =~= before.fs);
    }
}

/// A listing goes onto the wire as it is: its entries in order, whether it is
/// complete, its validator and its cursor.
pub proof fn law_listing_reaches_the_wire(
    listing: browse::ListingModel,
    r: wire::DirListing,
    i: int,
)
    requires
        browse::listing_lowered(listing, r),
    ensures
        r.entries@.len() == listing.entries.len(),
        0 <= i < listing.entries.len() ==> r.entries@[i]@.name == listing.entries[i].name && (
        r.entries@[i]@.file is Some <==> listing.entries[i].file is Some),
        r.exhaustive == listing.exhaustive,
        r.next_cursor == listing.next_cursor,
        match listing.validator {
            Some(token) => r.validator matches Some(given) && given@ == token,
            None => r.validator is None,
        },
{
    let lowered = browse::lowered_entries(listing.entries);
    assert(wire::dir_entries(r.entries@).len() == lowered.len());
    if 0 <= i < listing.entries.len() {
        assert(wire::dir_entries(r.entries@)[i] == lowered[i]);
    }
}

/// The content of a read goes onto the wire as it is: its bytes, its size, its
/// stability and the mime text of its type.
pub proof fn law_content_reaches_the_wire(
    answer: browse::AnswerModel,
    r: wire::ReadFileResult,
)
    requires
        browse::answer_lowered(answer, r),
    ensures
        r.bytes@ == answer.bytes,
        r.attrs.size == answer.attrs.size,
        r.attrs.stability == answer.attrs.stability,
        match answer.content_type {
            Some(ct) => r.content_type matches Some(given) && given@ == ct.mime(),
            None => r.content_type is None,
        },
{
}

/// A store and an eviction are added behind those that are there and change no
/// other channel.
pub proof fn law_stores_and_evictions_are_added(
    before: EffectsModel,
    store: StoreModel,
    evict: wire::EvictModel,
)
    ensures
        before.with_store(store).canonical.len() == before.canonical.len() + 1,
        before.with_store(store).canonical.last() == store,
        before.with_store(store).canonical.drop_last() == before.canonical,
        before.with_store(store).fs == before.fs,
        before.with_store(store).invalidations == before.invalidations,
        before.with_eviction(evict).invalidations.len() == before.invalidations.len() + 1,
        before.with_eviction(evict).invalidations.last() == evict,
        before.with_eviction(evict).invalidations.drop_last() == before.invalidations,
        before.with_eviction(evict).fs == before.fs,
        before.with_eviction(evict).canonical == before.canonical,
{
    assert(before.with_store(store).canonical.drop_last() =~= before.canonical);
    assert(before.with_eviction(evict).invalidations.drop_last() =~= before.invalidations);
}

} // verus!
