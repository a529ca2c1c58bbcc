//! Archive creation and extraction: save entries are packed into a tar
//! archive and compressed with zstd at a fixed high level; extraction
//! reverses both steps. The tar and zstd calls stand behind trusted wrappers;
//! everything around them is verified, and extraction of what was archived
//! yields back exactly the entries that went in.

use crate::errors::GgError;
use crate::strutil::{
    contains_sub, ends_with_pat, has_sub, spec_ends_with, spec_starts_with, starts_with_pat,
    str_eq,
};
use vstd::prelude::*;

verus! {

/// The compression level archives are written with: high ratio over speed,
/// for an infrequent, manual operation.
pub const COMPRESSION_LEVEL: i32 = 9;

/// One entry of a save archive: a relative path and the file's bytes.
#[derive(Debug)]
pub struct SaveEntry {
    pub path: String,
    pub data: Vec<u8>,
}

/// The mathematical content of one archive entry.
pub struct SaveEntryView {
    pub path: Seq<char>,
    pub data: Seq<u8>,
}

impl View for SaveEntry {
    type V = SaveEntryView;

    open spec fn view(&self) -> SaveEntryView {
        SaveEntryView { path: self.path@, data: self.data@ }
    }
}

/// The views of a sequence of entries.
pub open spec fn entry_views(entries: Seq<SaveEntry>) -> Seq<SaveEntryView> {
    entries.map_values(|e: SaveEntry| e@)
}

/// A clean relative path, the form tar stores verbatim: non-empty components
/// separated by single slashes, none of them `.` or `..`, free of the NUL
/// character that terminates a tar header field.
pub open spec fn clean_rel_path(p: Seq<char>) -> bool {
    &&& p.len() > 0
    &&& forall|i: int| 0 <= i < p.len() ==> p[i] != '\0'
    &&& p[0] != '/'
    &&& p[p.len() - 1] != '/'
    &&& !has_sub(p, "//"@)
    &&& p != "."@
    &&& p != ".."@
    &&& !spec_starts_with(p, "./"@)
    &&& !spec_starts_with(p, "../"@)
    &&& !spec_ends_with(p, "/."@)
    &&& !spec_ends_with(p, "/.."@)
    &&& !has_sub(p, "/./"@)
    &&& !has_sub(p, "/../"@)
}

/// Whether `p` is a clean relative path that an archive stores verbatim.
pub fn is_clean_rel_path(p: &str) -> (r: bool)
    ensures
        r == clean_rel_path(p@),
{
    let plen = p.unicode_len();
    if plen == 0 {
        return false;
    }
    let mut i: usize = 0;
    while i < plen
        invariant
            i <= plen,
            plen == p@.len(),
            forall|j: int| 0 <= j < i ==> p@[j] != '\0',
        decreases plen - i,
    {
        if p.get_char(i) == '\0' {
            return false;
        }
        i = i + 1;
    }
    let first = p.get_char(0);
    let last = p.get_char(plen - 1);
    if first == '/' || last == '/' {
        return false;
    }
    if contains_sub(p, "//") {
        return false;
    }
    if str_eq(p, ".") || str_eq(p, "..") {
        proof {
            reveal_strlit(".");
            reveal_strlit("..");
        }
        return false;
    }
    if starts_with_pat(p, "./") || starts_with_pat(p, "../") {
        return false;
    }
    if ends_with_pat(p, "/.") || ends_with_pat(p, "/..") {
        return false;
    }
    if contains_sub(p, "/./") || contains_sub(p, "/../") {
        return false;
    }
    proof {
        reveal_strlit(".");
        reveal_strlit("..");
    }
    true
}

/// The entries an archive's bytes stand for, read back in order; nothing for
/// bytes that are not a well-formed archive.
pub uninterp spec fn tar_entries(bytes: Seq<u8>) -> Option<Seq<SaveEntryView>>;

/// An archive being built in memory; its contents are visible to
/// verification only through `builder_entries`.
#[verifier::external_body]
pub struct TarBuilder {
    inner: tar::Builder<Vec<u8>>,
}

/// The entries appended so far to an archive being built in memory.
pub uninterp spec fn builder_entries(b: TarBuilder) -> Seq<SaveEntryView>;

/// What a compressed frame decompresses to; nothing for bytes that are not a
/// well-formed frame.
pub uninterp spec fn zstd_decompressed(bytes: Seq<u8>) -> Option<Seq<u8>>;

/// What extracting archive bytes yields: zstd decompression, then reading
/// the tar entries.
pub open spec fn spec_extract(bytes: Seq<u8>) -> Option<Seq<SaveEntryView>> {
    match zstd_decompressed(bytes) {
        None => None,
        Some(t) => tar_entries(t),
    }
}

/// Relies on tar::Builder::new: a fresh builder over an empty in-memory
/// buffer holds no entries yet.
#[verifier::external_body]
fn tar_builder_new() -> (b: TarBuilder)
    ensures
        builder_entries(b) == Seq::<SaveEntryView>::empty(),
{
    TarBuilder { inner: tar::Builder::new(Vec::new()) }
}

/// Relies on tar::Builder::append_data: appending an entry under a clean
/// relative path stores it verbatim, and writing into the in-memory buffer
/// always succeeds (long names go through the GNU long-name extension).
#[verifier::external_body]
fn tar_append(b: &mut TarBuilder, path: &str, data: &Vec<u8>) -> (r: Result<(), String>)
    requires
        clean_rel_path(path@),
    ensures
        r is Ok,
        builder_entries(*final (b)) == builder_entries(*old(b)).push(
            SaveEntryView { path: path@, data: data@ },
        ),
{
    let mut header = tar::Header::new_gnu();
    header.set_size(data.len() as u64);
    header.set_mode(0o644);
    header.set_cksum();
    b.inner.append_data(&mut header, path, data.as_slice()).map_err(|e| e.to_string())
}

/// Relies on tar::Builder::into_inner: finishing only writes the zero-block
/// terminator into the in-memory buffer, which always succeeds, and the bytes
/// read back as exactly the entries appended, in order.
#[verifier::external_body]
fn tar_finish(b: TarBuilder) -> (r: Result<Vec<u8>, String>)
    ensures
        r is Ok,
        r matches Ok(v) ==> tar_entries(v@) == Some(builder_entries(b)),
{
    b.inner.into_inner().map_err(|e| e.to_string())
}

/// Relies on tar::Archive: reading an in-memory archive yields its entries
/// with their paths and contents; malformed bytes are refused.
#[verifier::external_body]
fn tar_unpack(bytes: &Vec<u8>) -> (r: Result<Vec<SaveEntry>, String>)
    ensures
        match r {
            Ok(v) => tar_entries(bytes@) == Some(entry_views(v@)),
            Err(_) => tar_entries(bytes@) is None,
        },
{
    let mut archive = tar::Archive::new(bytes.as_slice());
    let mut out = Vec::new();
    for entry in archive.entries().map_err(|e| e.to_string())? {
        let mut entry = entry.map_err(|e| e.to_string())?;
        let path = entry.path().map_err(|e| e.to_string())?.to_string_lossy().into_owned();
        let mut data = Vec::new();
        std::io::Read::read_to_end(&mut entry, &mut data).map_err(|e| e.to_string())?;
        out.push(SaveEntry { path, data });
    }
    Ok(out)
}

/// Relies on zstd::stream::encode_all: compressing in-memory data at a valid
/// level always succeeds and yields a frame that decompresses to exactly the
/// input.
#[verifier::external_body]
fn zstd_compress(data: &Vec<u8>, level: i32) -> (r: Result<Vec<u8>, String>)
    requires
        1 <= level <= 19,
    ensures
        r is Ok,
        r matches Ok(v) ==> zstd_decompressed(v@) == Some(data@),
{
    zstd::stream::encode_all(data.as_slice(), level).map_err(|e| e.to_string())
}

/// Relies on zstd::stream::decode_all: decompression of in-memory bytes is a
/// function of those bytes alone; malformed frames are refused.
#[verifier::external_body]
fn zstd_decompress(bytes: &Vec<u8>) -> (r: Result<Vec<u8>, String>)
    ensures
        match r {
            Ok(v) => zstd_decompressed(bytes@) == Some(v@),
            Err(_) => zstd_decompressed(bytes@) is None,
        },
{
    zstd::stream::decode_all(bytes.as_slice()).map_err(|e| e.to_string())
}

/// Packs the save entries into a compressed archive. Entries whose paths are
/// all clean relative paths are always archived, and the bytes produced
/// extract back to exactly the entries given, so archiving and then
/// restoring reproduces every file's contents and relative path.
pub fn archive_entries(entries: &Vec<SaveEntry>) -> (r: Result<Vec<u8>, GgError>)
    ensures
        match r {
            Ok(v) => spec_extract(v@) == Some(entry_views(entries@)) && (forall|i: int|
                0 <= i < entries@.len() ==> clean_rel_path(#[trigger] entries@[i].path@)),
            Err(e) => e is ArchiveError,
        },
        (forall|i: int| 0 <= i < entries@.len() ==> clean_rel_path(#[trigger] entries@[i].path@))
            ==> r is Ok,
{
    let n = entries.len();
    let mut b = tar_builder_new();
    let mut i: usize = 0;
    proof {
        assert(entry_views(entries@.subrange(0, 0)) =~= Seq::<SaveEntryView>::empty());
    }
    while i < n
        invariant
            n == entries@.len(),
            i <= n,
            builder_entries(b) == entry_views(entries@.subrange(0, i as int)),
            forall|j: int| 0 <= j < i ==> clean_rel_path(#[trigger] entries@[j].path@),
        decreases n - i,
    {
        let e = &entries[i];
        if !is_clean_rel_path(e.path.as_str()) {
            return Err(GgError::ArchiveError { detail: e.path.clone() });
        }
        match tar_append(&mut b, e.path.as_str(), &e.data) {
            Ok(_) => {},
            Err(_) => {
                return Err(GgError::ArchiveError { detail: e.path.clone() });
            },
        }
        proof {
            assert(entry_views(entries@.subrange(0, i as int + 1)) =~= entry_views(
                entries@.subrange(0, i as int),
            ).push(SaveEntryView { path: entries@[i as int].path@, data: entries@[i as int].data@ }));
        }
        i = i + 1;
    }
    proof {
        assert(entries@.subrange(0, n as int) =~= entries@);
    }
    let tar_bytes = match tar_finish(b) {
        Ok(v) => v,
        Err(m) => {
            return Err(GgError::ArchiveError { detail: m });
        },
    };
    match zstd_compress(&tar_bytes, COMPRESSION_LEVEL) {
        Ok(v) => Ok(v),
        Err(m) => Err(GgError::ArchiveError { detail: m }),
    }
}

/// Unpacks a compressed archive back into its save entries; refuses bytes
/// that are not a well-formed archive.
pub fn extract_entries(bytes: &Vec<u8>) -> (r: Result<Vec<SaveEntry>, GgError>)
    ensures
        match r {
            Ok(v) => spec_extract(bytes@) == Some(entry_views(v@)),
            Err(e) => e is ArchiveError && spec_extract(bytes@) is None,
        },
{
    let tar_bytes = match zstd_decompress(bytes) {
        Ok(v) => v,
        Err(m) => {
            return Err(GgError::ArchiveError { detail: m });
        },
    };
    match tar_unpack(&tar_bytes) {
        Ok(v) => Ok(v),
        Err(m) => Err(GgError::ArchiveError { detail: m }),
    }
}

} // verus!
