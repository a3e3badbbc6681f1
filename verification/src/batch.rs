//! Batch export and single-download resolution.
//!
//! The planner walks the requested identifiers in order: absent identifiers
//! are skipped silently and duplicates are processed independently. Entry
//! names: this deliberately diverges from the reference behavior of letting
//! a colliding name silently overwrite an earlier archive entry, because the
//! archive encoder in use refuses duplicate entry names outright. Instead, a
//! name that would collide is extended with "-" and the batch position,
//! repeatedly, until it differs from every earlier entry's name, so planned
//! names are pairwise distinct and the duplicate still yields its own entry.
//! The caller reads the planned files from disk (a missing file is skipped)
//! and the archive builder bundles what was found. An entry the encoder
//! refuses (a name over the format's bound, an oversized file) is skipped
//! and the rest of the batch goes on, as the reference behaved; a run that
//! adds nothing reports that as its own condition, distinct from failure;
//! a failed close surfaces the encoder's own diagnostic. Callers only ever
//! see a finished archive or an error.

use vstd::prelude::*;
use std::io::Write;
use crate::naming::{decimal_string, file_stem, spec_decimal, spec_stem, spec_svg_name, svg_name_for};
use crate::registry::{FileMetadata, MetaView, Registry};

verus! {

/// One planned archive entry: where its bytes live and the name it gets.
pub struct BatchItem {
    pub output_path: String,
    pub entry_name: String,
}

impl View for BatchItem {
    type V = (Seq<char>, Seq<char>);

    open spec fn view(&self) -> (Seq<char>, Seq<char>) {
        (self.output_path@, self.entry_name@)
    }
}

pub open spec fn views_of_items(items: Seq<BatchItem>) -> Seq<(Seq<char>, Seq<char>)> {
    items.map_values(|b: BatchItem| b@)
}

/// Some already planned entry carries this name.
pub open spec fn names_has(items: Seq<(Seq<char>, Seq<char>)>, nm: Seq<char>) -> bool {
    exists|t: int| 0 <= t < items.len() && (#[trigger] items[t]).1 == nm
}

/// The longest entry name planned so far.
pub open spec fn spec_names_maxlen(acc: Seq<(Seq<char>, Seq<char>)>) -> int
    decreases acc.len(),
{
    if acc.len() == 0 {
        0
    } else {
        let m = spec_names_maxlen(acc.drop_last());
        if acc.last().1.len() > m {
            acc.last().1.len() as int
        } else {
            m
        }
    }
}

proof fn lemma_names_maxlen(acc: Seq<(Seq<char>, Seq<char>)>, nm: Seq<char>)
    requires
        names_has(acc, nm),
    ensures
        nm.len() <= spec_names_maxlen(acc),
    decreases acc.len(),
{
    let t = choose|t: int| 0 <= t < acc.len() && (#[trigger] acc[t]).1 == nm;
    if t == acc.len() - 1 {
    } else {
        assert(acc.drop_last()[t] == acc[t]);
        assert(names_has(acc.drop_last(), nm));
        lemma_names_maxlen(acc.drop_last(), nm);
    }
}

/// Termination measure for the renaming scan: each extension lengthens the
/// candidate, and a colliding candidate is never longer than the longest
/// planned name.
pub open spec fn uniq_measure(acc: Seq<(Seq<char>, Seq<char>)>, stem: Seq<char>) -> int {
    if spec_names_maxlen(acc) + 5 - stem.len() > 0 {
        spec_names_maxlen(acc) + 5 - stem.len()
    } else {
        0
    }
}

/// The planned entry name: the stem (fallback applied) with the vector
/// extension, extended with the tag until it differs from every earlier
/// entry's name.
pub open spec fn spec_uniquify(
    acc: Seq<(Seq<char>, Seq<char>)>,
    stem: Seq<char>,
    tag: Seq<char>,
) -> Seq<char>
    decreases uniq_measure(acc, stem),
    via spec_uniquify_dec
{
    if names_has(acc, stem + ".svg"@) {
        spec_uniquify(
            acc,
            stem + (if tag.len() == 0 {
                seq!['-']
            } else {
                tag
            }),
            tag,
        )
    } else {
        stem + ".svg"@
    }
}

#[via_fn]
proof fn spec_uniquify_dec(acc: Seq<(Seq<char>, Seq<char>)>, stem: Seq<char>, tag: Seq<char>) {
    reveal_strlit(".svg");
    if names_has(acc, stem + ".svg"@) {
        lemma_names_maxlen(acc, stem + ".svg"@);
    }
}

/// The export plan from position `i` on, with `acc` already planned.
pub open spec fn spec_plan(
    m: Map<Seq<char>, MetaView>,
    ids: Seq<Seq<char>>,
    i: int,
    acc: Seq<(Seq<char>, Seq<char>)>,
) -> Seq<(Seq<char>, Seq<char>)>
    decreases ids.len() - i,
{
    if i < 0 || i >= ids.len() {
        acc
    } else if m.contains_key(ids[i]) {
        let stem0 = if spec_stem(m[ids[i]].original_name).len() == 0 {
            "image"@
        } else {
            spec_stem(m[ids[i]].original_name)
        };
        let nm = spec_uniquify(acc, stem0, seq!['-'] + spec_decimal(i as nat));
        spec_plan(m, ids, i + 1, acc.push((m[ids[i]].output_path, nm)))
    } else {
        spec_plan(m, ids, i + 1, acc)
    }
}

fn contains_name(items: &Vec<BatchItem>, nm: &String) -> (r: bool)
    ensures
        r == names_has(views_of_items(items@), nm@),
{
    let n = items.len();
    let mut i: usize = 0;
    while i < n
        invariant
            n == items@.len(),
            i <= n,
            forall|t: int| 0 <= t < i ==> (#[trigger] items@[t])@.1 != nm@,
        decreases n - i,
    {
        if items[i].entry_name == *nm {
            proof {
                assert(views_of_items(items@)[i as int].1 == nm@);
            }
            return true;
        }
        i = i + 1;
    }
    proof {
        assert forall|t: int| 0 <= t < views_of_items(items@).len() implies (#[trigger] views_of_items(
            items@,
        )[t]).1 != nm@ by {
            assert(views_of_items(items@)[t] == items@[t]@);
        }
    }
    false
}

/// Plan a batch export: for each requested identifier in order, the record's
/// artifact location and archive entry name; identifiers without a record
/// contribute nothing. Duplicate names get the batch position appended.
pub fn plan_batch(reg: &Registry, ids: &Vec<String>) -> (items: Vec<BatchItem>)
    requires
        reg.wf(),
    ensures
        views_of_items(items@) == spec_plan(
            reg@,
            ids@.map_values(|s: String| s@),
            0,
            Seq::<(Seq<char>, Seq<char>)>::empty(),
        ),
        forall|a: int, b: int|
            0 <= a < b < items@.len() ==> (#[trigger] items@[a])@.1 != (#[trigger] items@[b])@.1,
{
    let ghost m = reg@;
    let ghost idsv = ids@.map_values(|s: String| s@);
    let n = ids.len();
    let mut items: Vec<BatchItem> = Vec::new();
    let mut i: usize = 0;
    proof {
        assert(views_of_items(items@) =~= Seq::<(Seq<char>, Seq<char>)>::empty());
    }
    while i < n
        invariant
            reg.wf(),
            m == reg@,
            idsv == ids@.map_values(|s: String| s@),
            n == ids@.len(),
            i <= n,
            spec_plan(m, idsv, i as int, views_of_items(items@)) == spec_plan(
                m,
                idsv,
                0,
                Seq::<(Seq<char>, Seq<char>)>::empty(),
            ),
            forall|a: int, b: int|
                0 <= a < b < items@.len() ==> (#[trigger] items@[a])@.1 != (#[trigger] items@[b])@.1,
        decreases n - i,
    {
        let ghost acc0 = views_of_items(items@);
        proof {
            assert(idsv[i as int] == ids@[i as int]@);
        }
        match reg.get_file_metadata(&ids[i]) {
            Some(meta) => {
                let st = file_stem(meta.original_name.as_str());
                let mut stem = String::new();
                if st.as_str().unicode_len() == 0 {
                    stem.append("image");
                } else {
                    stem.append(st.as_str());
                }
                let ghost stem0 = stem@;
                let ghost tagv: Seq<char> = seq!['-'] + crate::naming::spec_decimal(i as nat);
                let mut cand = stem.clone().concat(".svg");
                while contains_name(&items, &cand)
                    invariant
                        i < n,
                        acc0 == views_of_items(items@),
                        cand@ == stem@ + ".svg"@,
                        spec_uniquify(acc0, stem@, tagv) == spec_uniquify(acc0, stem0, tagv),
                        tagv == seq!['-'] + crate::naming::spec_decimal(i as nat),
                    decreases uniq_measure(acc0, stem@),
                {
                    proof {
                        reveal_strlit(".svg");
                        reveal_strlit("-");
                        lemma_names_maxlen(acc0, cand@);
                    }
                    let ghost stem_before = stem@;
                    stem.append("-");
                    stem.append(decimal_string(i as u64).as_str());
                    proof {
                        assert("-"@ =~= seq!['-']);
                        assert(stem@ =~= stem_before + tagv);
                        assert(spec_uniquify(acc0, stem_before, tagv) == spec_uniquify(
                            acc0,
                            stem@,
                            tagv,
                        ));
                    }
                    cand = stem.clone().concat(".svg");
                }
                proof {
                    reveal_strlit(".svg");
                    assert(!names_has(acc0, stem@ + ".svg"@));
                    assert(spec_uniquify(acc0, stem@, tagv) == stem@ + ".svg"@);
                    assert(cand@ == spec_uniquify(acc0, stem0, tagv));
                }
                let item = BatchItem { output_path: meta.output_path, entry_name: cand };
                items.push(item);
                proof {
                    assert(m[idsv[i as int]] == meta@);
                    assert(stem0 == (if spec_stem(m[idsv[i as int]].original_name).len() == 0 {
                        "image"@
                    } else {
                        spec_stem(m[idsv[i as int]].original_name)
                    }));
                    assert(views_of_items(items@) =~= acc0.push(
                        (m[idsv[i as int]].output_path, items@.last()@.1),
                    ));
                    assert forall|a: int, b: int|
                        0 <= a < b < items@.len() implies (#[trigger] items@[a])@.1 != (
                    #[trigger] items@[b])@.1 by {
                        if b == items@.len() - 1 {
                            assert(acc0[a] == items@[a]@);
                            assert(!names_has(acc0, items@[b]@.1));
                        }
                    }
                }
            },
            None => {
            },
        }
        i = i + 1;
    }
    items
}

/// One file handed back by the caller for archiving: its planned entry name
/// and its bytes, or `None` when the backing file was missing.
pub struct BatchFile {
    pub entry_name: String,
    pub data: Option<Vec<u8>>,
}

impl View for BatchFile {
    type V = (Seq<char>, Option<Seq<u8>>);

    open spec fn view(&self) -> (Seq<char>, Option<Seq<u8>>) {
        (self.entry_name@, match self.data {
            Option::Some(ref d) => Option::Some(d@),
            Option::None => Option::None,
        })
    }
}

pub open spec fn views_of_files(fs: Seq<BatchFile>) -> Seq<(Seq<char>, Option<Seq<u8>>)> {
    fs.map_values(|f: BatchFile| f@)
}

/// The entries that actually make it into the archive: the files whose bytes
/// were found, in order.
pub open spec fn spec_entries(
    fs: Seq<(Seq<char>, Option<Seq<u8>>)>,
    i: int,
    acc: Seq<(Seq<char>, Seq<u8>)>,
) -> Seq<(Seq<char>, Seq<u8>)>
    decreases fs.len() - i,
{
    if i < 0 || i >= fs.len() {
        acc
    } else {
        match fs[i].1 {
            Option::Some(d) => spec_entries(fs, i + 1, acc.push((fs[i].0, d))),
            Option::None => spec_entries(fs, i + 1, acc),
        }
    }
}

pub open spec fn spec_archive_entries(fs: Seq<(Seq<char>, Option<Seq<u8>>)>) -> Seq<
    (Seq<char>, Seq<u8>),
> {
    spec_entries(fs, 0, Seq::<(Seq<char>, Seq<u8>)>::empty())
}

/// Entries the archive encoder accepts as a whole: names pairwise distinct,
/// each name at most 65535 bytes once encoded, each entry's data comfortably
/// below the format's plain 4 GiB size bound, so that even the encoder's
/// worst-case compression expansion stays within it.
pub open spec fn archivable(entries: Seq<(Seq<char>, Seq<u8>)>) -> bool {
    &&& forall|a: int, b: int|
        0 <= a < b < entries.len() ==> (#[trigger] entries[a]).0 != (#[trigger] entries[b]).0
    &&& forall|j: int|
        0 <= j < entries.len() ==> vstd::utf8::encode_utf8((#[trigger] entries[j]).0).len()
            <= 65535 && entries[j].1.len() < 0xF0000000
}

proof fn lemma_entries_app(
    fs: Seq<(Seq<char>, Option<Seq<u8>>)>,
    i: int,
    acc: Seq<(Seq<char>, Seq<u8>)>,
)
    ensures
        spec_entries(fs, i, acc) == acc + spec_entries(fs, i, Seq::<(Seq<char>, Seq<u8>)>::empty()),
    decreases fs.len() - i,
{
    if 0 <= i < fs.len() {
        match fs[i].1 {
            Option::Some(d) => {
                lemma_entries_app(fs, i + 1, acc.push((fs[i].0, d)));
                lemma_entries_app(
                    fs,
                    i + 1,
                    Seq::<(Seq<char>, Seq<u8>)>::empty().push((fs[i].0, d)),
                );
                assert(acc.push((fs[i].0, d)) + spec_entries(
                    fs,
                    i + 1,
                    Seq::<(Seq<char>, Seq<u8>)>::empty(),
                ) =~= acc + (Seq::<(Seq<char>, Seq<u8>)>::empty().push((fs[i].0, d)) + spec_entries(
                    fs,
                    i + 1,
                    Seq::<(Seq<char>, Seq<u8>)>::empty(),
                )));
            },
            Option::None => {
                lemma_entries_app(fs, i + 1, acc);
            },
        }
    } else {
        assert(acc + Seq::<(Seq<char>, Seq<u8>)>::empty() =~= acc);
    }
}

/// Why a batch export produced no archive.
#[derive(Debug)]
pub enum BatchError {
    /// No requested identifier resolved to an existing artifact file.
    NothingFound,
    /// The archive could not be closed; carries the encoder's diagnostic.
    ArchiveFailure(String),
}

/// Bundle the found files into a single archive. The archive only exists as
/// a finished value: a complete archive or an error, never a partial stream.
/// An entry the encoder refuses is skipped and the rest are still bundled;
/// a batch the encoder accepts whole (`archivable`: names distinct, sizes in
/// bounds) is owed an archive holding exactly the found entries, and then
/// "nothing found" comes back precisely when no file was found.
pub fn build_archive(files: &Vec<BatchFile>) -> (r: Result<Vec<u8>, BatchError>)
    ensures
        spec_archive_entries(views_of_files(files@)).len() == 0 ==> (r matches Err(e) && e matches
            BatchError::NothingFound),
        archivable(spec_archive_entries(views_of_files(files@))) ==> ((r matches Err(e2)
            && e2 matches BatchError::NothingFound) <==> spec_archive_entries(
            views_of_files(files@),
        ).len() == 0),
        (archivable(spec_archive_entries(views_of_files(files@))) && spec_archive_entries(
            views_of_files(files@),
        ).len() > 0) ==> (r matches Ok(b) && b@ == zip_of(
            spec_archive_entries(views_of_files(files@)),
        )),
{
    let ghost fv = views_of_files(files@);
    let ghost ent = spec_archive_entries(fv);
    let n = files.len();
    let mut w = new_zip_writer();
    let mut count: usize = 0;
    let mut i: usize = 0;
    while i < n
        invariant
            fv == views_of_files(files@),
            ent == spec_archive_entries(fv),
            n == files@.len(),
            i <= n,
            count <= i,
            archivable(ent) ==> spec_entries(fv, i as int, zip_entries(w)) == ent && count
                == zip_entries(w).len(),
        decreases n - i,
    {
        let ghost entries0 = zip_entries(w);
        proof {
            assert(fv[i as int] == files@[i as int]@);
        }
        match files[i].data {
            Some(ref data) => {
                let ghost x = (fv[i as int].0, fv[i as int].1.unwrap());
                let ghost ln = entries0.len() as int;
                proof {
                    if archivable(ent) {
                        lemma_entries_app(fv, i as int + 1, entries0.push(x));
                        assert(ent == entries0.push(x) + spec_entries(
                            fv,
                            i as int + 1,
                            Seq::<(Seq<char>, Seq<u8>)>::empty(),
                        ));
                        assert(ent[ln] == x);
                        assert(forall|k: int| 0 <= k < ln ==> ent[k] == entries0[k]);
                        assert forall|j: int| 0 <= j < entries0.len() implies (
                        #[trigger] entries0[j]).0 != files@[i as int].entry_name@ by {
                            assert(ent[j] == entries0[j]);
                            assert(ent[j].0 != ent[ln].0);
                        }
                        assert forall|j: int| 0 <= j < entries0.len() implies (
                        #[trigger] entries0[j]).1.len() < 0xF0000000 by {
                            assert(ent[j] == entries0[j]);
                        }
                        assert(vstd::utf8::encode_utf8(x.0).len() <= 65535 && x.1.len()
                            < 0xF0000000);
                    }
                }
                // the encoder's bounds, checked here so that the writer never
                // sees an entry it would fail on mid-write
                let name_ok = files[i].entry_name.as_str().as_bytes().len() <= 65535;
                let data_ok = data.len() < 0xF0000000;
                if name_ok && data_ok {
                    let ok = zip_add_entry(&mut w, &files[i].entry_name, data);
                    if ok {
                        proof {
                            assert(zip_entries(w) == entries0.push(
                                (files@[i as int].entry_name@, fv[i as int].1.unwrap()),
                            ));
                        }
                        count = count + 1;
                    } else {
                        proof {
                            if archivable(ent) {
                                assert(false);
                            }
                        }
                    }
                } else {
                    proof {
                        if archivable(ent) {
                            assert(false);
                        }
                    }
                }
            },
            None => {
            },
        }
        i = i + 1;
    }
    proof {
        if archivable(ent) {
            assert(spec_entries(fv, n as int, zip_entries(w)) == zip_entries(w));
        }
        if ent.len() == 0 {
            assert(archivable(ent));
        }
    }
    if count == 0 {
        return Err(BatchError::NothingFound);
    }
    match zip_finish(w) {
        Ok(bytes) => Ok(bytes),
        Err(e) => {
            proof {
                if archivable(ent) {
                    assert(false);
                }
            }
            Err(BatchError::ArchiveFailure(e))
        },
    }
}

/// How a single-artifact download request resolves.
pub struct ReadyDownload {
    pub output_path: String,
    pub download_name: String,
}

pub enum DownloadOutcome {
    /// The identifier was never registered (or already evicted).
    NoRecord,
    /// The record exists but its artifact file does not: reportable, and
    /// distinct from an unknown identifier.
    FileMissing,
    /// The artifact can be served from `output_path` under `download_name`.
    Ready(ReadyDownload),
}

/// Classify a download request from the registry lookup and the existence of
/// the backing file; the suggested name is the original stem with a forced
/// vector extension, "download" standing in for an empty stem.
pub fn resolve_download(found: &Option<FileMetadata>, file_exists: bool) -> (r: DownloadOutcome)
    ensures
        (match found {
            Option::None => r matches DownloadOutcome::NoRecord,
            Option::Some(m) => if file_exists {
                r matches DownloadOutcome::Ready(d) && d.output_path@ == m@.output_path
                    && d.download_name@ == spec_svg_name(m@.original_name, "download"@)
            } else {
                r matches DownloadOutcome::FileMissing
            },
        }),
{
    match found {
        None => DownloadOutcome::NoRecord,
        Some(meta) => {
            if !file_exists {
                DownloadOutcome::FileMissing
            } else {
                DownloadOutcome::Ready(
                    ReadyDownload {
                        output_path: meta.output_path.clone(),
                        download_name: svg_name_for(meta.original_name.as_str(), "download"),
                    },
                )
            }
        },
    }
}

/// In-memory archive writer of the archive encoder, held opaquely; every
/// operation on it goes through the trusted wrappers below.
#[verifier::external_body]
pub struct ArchiveWriter {
    inner: zip::ZipWriter<std::io::Cursor<Vec<u8>>>,
}

/// The entries the archive writer holds: (name, bytes), in order.
pub uninterp spec fn zip_entries(w: ArchiveWriter) -> Seq<(Seq<char>, Seq<u8>)>;

/// The finished archive bytes for a sequence of entries: with the options
/// the wrappers fix (deflate, mode 644, a constant entry timestamp), a
/// function of the entries alone.
pub uninterp spec fn zip_of(entries: Seq<(Seq<char>, Seq<u8>)>) -> Seq<u8>;

/// Relies on zip::ZipWriter::new over an in-memory cursor: a fresh archive
/// holding no entries.
#[verifier::external_body]
fn new_zip_writer() -> (w: ArchiveWriter)
    ensures
        zip_entries(w) == Seq::<(Seq<char>, Seq<u8>)>::empty(),
{
    ArchiveWriter { inner: zip::ZipWriter::new(std::io::Cursor::new(Vec::new())) }
}

/// Relies on zip::ZipWriter::start_file, std::io::Write::write_all,
/// is_writing_file and abort_file. On success the archive gains exactly one
/// entry, deflated, mode 644, with a constant timestamp, under this name
/// with these bytes. Within the format's bounds — name at most 65535 encoded
/// bytes, data comfortably below 4 GiB so worst-case deflate expansion still
/// fits the format's size field, the already-held entries likewise (starting
/// an entry finalizes the previous one) — a fresh entry succeeds, and the
/// only refusal left is a duplicate name, which the encoder rejects before
/// touching the archive. Nothing is claimed of the writer after an
/// out-of-bounds failure (the encoder can drop state then), so the caller
/// screens the bounds before calling.
#[verifier::external_body]
fn zip_add_entry(w: &mut ArchiveWriter, name: &String, data: &Vec<u8>) -> (r: bool)
    ensures
        r ==> zip_entries(*final(w)) == zip_entries(*old(w)).push((name@, data@)),
        (vstd::utf8::encode_utf8(name@).len() <= 65535 && data@.len() < 0xF0000000 && (forall|
            j: int,
        |
            0 <= j < zip_entries(*old(w)).len() ==> (#[trigger] zip_entries(*old(w))[j]).0
                != name@) && (forall|j: int|
            0 <= j < zip_entries(*old(w)).len() ==> (#[trigger] zip_entries(*old(w))[j]).1.len()
                < 0xF0000000)) ==> r,
{
    let opts = zip::write::SimpleFileOptions::default().compression_method(
        zip::CompressionMethod::Deflated,
    ).unix_permissions(0o644).last_modified_time(zip::DateTime::DEFAULT);
    if w.inner.start_file(name.as_str(), opts).is_err() {
        return false;
    }
    if w.inner.write_all(data).is_ok() {
        return true;
    }
    if w.inner.is_writing_file() {
        let _ = w.inner.abort_file();
    }
    false
}

/// Relies on zip::ZipWriter::finish and Cursor::into_inner: closes the
/// archive and hands back its bytes, which the fixed options make a
/// function of the entries. Every entry of the writer was completed or
/// aborted by the wrapper above and the sink is in-memory, so with every
/// entry's data comfortably below the format's 4 GiB bound (finalizing an
/// entry needs its worst-case deflated size to fit the format's field)
/// closing succeeds.
#[verifier::external_body]
fn zip_finish(w: ArchiveWriter) -> (r: Result<Vec<u8>, String>)
    ensures
        r matches Ok(b) ==> b@ == zip_of(zip_entries(w)),
        (forall|j: int|
            0 <= j < zip_entries(w).len() ==> (#[trigger] zip_entries(w)[j]).1.len()
                < 0xF0000000) ==> r is Ok,
{
    match w.inner.finish() {
        Ok(c) => Ok(c.into_inner()),
        Err(e) => Err(format!("{}", e)),
    }
}

} // verus!
