//! The in-memory artifact registry: request identifier -> artifact record.
//!
//! A record is registered once at upload time and never mutated; it leaves the
//! registry only through eviction, which removes every record older than the
//! retention window. Lookups hand out snapshot copies, never references into
//! the store. The registry's abstract value is a map from identifier to
//! record, with re-registration of an identifier behaving as last-write-wins.

use vstd::prelude::*;
use vstd::map::*;

verus! {

/// Abstract value of one artifact record.
pub ghost struct MetaView {
    pub original_name: Seq<char>,
    pub input_path: Seq<char>,
    pub output_path: Seq<char>,
    pub timestamp: u64,
}

/// One artifact record: the client-supplied name (untrusted, may be empty),
/// the two backing file locations, and the registration time in Unix seconds.
pub struct FileMetadata {
    pub original_name: String,
    pub input_path: String,
    pub output_path: String,
    pub timestamp: u64,
}

impl View for FileMetadata {
    type V = MetaView;

    open spec fn view(&self) -> MetaView {
        MetaView {
            original_name: self.original_name@,
            input_path: self.input_path@,
            output_path: self.output_path@,
            timestamp: self.timestamp,
        }
    }
}

/// Snapshot copy of a record.
pub fn clone_metadata(m: &FileMetadata) -> (r: FileMetadata)
    ensures
        r@ == m@,
{
    FileMetadata {
        original_name: m.original_name.clone(),
        input_path: m.input_path.clone(),
        output_path: m.output_path.clone(),
        timestamp: m.timestamp,
    }
}

struct RegEntry {
    id: String,
    meta: FileMetadata,
}

spec fn seq_has(s: Seq<RegEntry>, k: Seq<char>) -> bool {
    exists|i: int| 0 <= i < s.len() && s[i].id@ == k
}

spec fn seq_idx(s: Seq<RegEntry>, k: Seq<char>) -> int {
    choose|i: int| 0 <= i < s.len() && s[i].id@ == k
}

spec fn seq_wf(s: Seq<RegEntry>) -> bool {
    forall|i: int, j: int| 0 <= i < j < s.len() ==> s[i].id@ != s[j].id@
}

spec fn seq_view(s: Seq<RegEntry>) -> Map<Seq<char>, MetaView> {
    Map::new(|k: Seq<char>| seq_has(s, k), |k: Seq<char>| s[seq_idx(s, k)].meta@)
}

proof fn lemma_unique_index(s: Seq<RegEntry>, k: Seq<char>, i: int)
    requires
        seq_wf(s),
        0 <= i < s.len(),
        s[i].id@ == k,
    ensures
        seq_has(s, k),
        seq_idx(s, k) == i,
        seq_view(s).contains_key(k),
        seq_view(s)[k] == s[i].meta@,
{
    assert(seq_has(s, k));
    let c = seq_idx(s, k);
    assert(0 <= c < s.len() && s[c].id@ == k);
    if c < i {
        assert(s[c].id@ != s[i].id@);
    } else if i < c {
        assert(s[i].id@ != s[c].id@);
    }
}

/// A record is expired when its age strictly exceeds the retention window.
pub open spec fn is_expired(timestamp: u64, now: u64, retention_secs: u64) -> bool {
    now > timestamp + retention_secs
}

/// The registry. Its view is a map from identifier to record view.
pub struct Registry {
    entries: Vec<RegEntry>,
}

impl View for Registry {
    type V = Map<Seq<char>, MetaView>;

    closed spec fn view(&self) -> Map<Seq<char>, MetaView> {
        seq_view(self.entries@)
    }
}

impl Registry {
    /// Identifiers are pairwise distinct in the backing store.
    pub closed spec fn wf(&self) -> bool {
        seq_wf(self.entries@)
    }

    /// An empty registry.
    pub fn new() -> (r: Registry)
        ensures
            r.wf(),
            r@ == Map::<Seq<char>, MetaView>::empty(),
    {
        let r = Registry { entries: Vec::new() };
        proof {
            assert(r@ =~= Map::<Seq<char>, MetaView>::empty());
        }
        r
    }

    fn find_index(&self, file_id: &String) -> (r: Option<usize>)
        ensures
            match r {
                Some(j) => j < self.entries@.len() && self.entries@[j as int].id@ == file_id@,
                None => !seq_has(self.entries@, file_id@),
            },
    {
        let n = self.entries.len();
        let mut i: usize = 0;
        while i < n
            invariant
                n == self.entries@.len(),
                i <= n,
                forall|j: int| 0 <= j < i ==> self.entries@[j].id@ != file_id@,
            decreases n - i,
        {
            if self.entries[i].id == *file_id {
                return Some(i);
            }
            i = i + 1;
        }
        None
    }

    /// Remove a record; used by the eviction path. Returns the removed
    /// record's snapshot when the identifier was present.
    pub fn remove(&mut self, file_id: &String) -> (r: Option<FileMetadata>)
        requires
            old(self).wf(),
        ensures
            final(self).wf(),
            final(self)@ == old(self)@.remove(file_id@),
            match r {
                Some(m) => old(self)@.contains_key(file_id@) && m@ == old(self)@[file_id@],
                None => !old(self)@.contains_key(file_id@),
            },
    {
        let found = self.find_index(file_id);
        match found {
            None => {
                proof {
                    assert(!seq_has(self.entries@, file_id@));
                    assert(self@ =~= self@.remove(file_id@));
                }
                None
            },
            Some(j) => {
                let ghost s1 = self.entries@;
                let e = self.entries.remove(j);
                let ghost s2 = self.entries@;
                proof {
                    lemma_unique_index(s1, file_id@, j as int);
                    assert(forall|x: int| 0 <= x < s2.len() ==> s2[x] == (if x < j {
                        s1[x]
                    } else {
                        s1[x + 1]
                    }));
                    assert(seq_wf(s2));
                    assert forall|k: Seq<char>| #[trigger] seq_has(s2, k) implies k != file_id@
                        && seq_has(s1, k) && seq_view(s2)[k] == seq_view(s1)[k] by {
                        let x = seq_idx(s2, k);
                        assert(0 <= x < s2.len() && s2[x].id@ == k);
                        let y: int = if x < j {
                            x
                        } else {
                            x + 1
                        };
                        assert(s1[y].id@ == k);
                        if y == j as int {
                            assert(false);
                        }
                        lemma_unique_index(s1, k, y);
                        lemma_unique_index(s2, k, x);
                    }
                    assert forall|k: Seq<char>| seq_has(s1, k) && k != file_id@ implies seq_has(
                        s2,
                        k,
                    ) by {
                        let y = seq_idx(s1, k);
                        assert(0 <= y < s1.len() && s1[y].id@ == k);
                        assert(y != j as int);
                        if y < j {
                            assert(s2[y].id@ == k);
                        } else {
                            assert(s2[y - 1].id@ == k);
                        }
                    }
                    assert(seq_view(s2) =~= seq_view(s1).remove(file_id@));
                }
                Some(e.meta)
            },
        }
    }

    /// Register a record under a freshly generated identifier; if the
    /// identifier is somehow already present, the new record wins.
    pub fn store_file_metadata(
        &mut self,
        file_id: &String,
        original_name: &String,
        input_path: &String,
        output_path: &String,
        now: u64,
    )
        requires
            old(self).wf(),
        ensures
            final(self).wf(),
            final(self)@ == old(self)@.insert(
                file_id@,
                (MetaView {
                    original_name: original_name@,
                    input_path: input_path@,
                    output_path: output_path@,
                    timestamp: now,
                }),
            ),
    {
        let ghost m0 = self@;
        let _ = self.remove(file_id);
        let ghost s1 = self.entries@;
        let meta = FileMetadata {
            original_name: original_name.clone(),
            input_path: input_path.clone(),
            output_path: output_path.clone(),
            timestamp: now,
        };
        self.entries.push(RegEntry { id: file_id.clone(), meta });
        let ghost s2 = self.entries@;
        proof {
            let n = s1.len() as int;
            assert(seq_view(s1) == m0.remove(file_id@));
            assert(!m0.remove(file_id@).contains_key(file_id@));
            assert(!seq_view(s1).contains_key(file_id@));
            assert(!seq_has(s1, file_id@));
            assert(seq_wf(s2));
            lemma_unique_index(s2, file_id@, n);
            assert forall|k: Seq<char>| #[trigger] seq_has(s2, k) && k != file_id@ implies seq_has(
                s1,
                k,
            ) && seq_view(s2)[k] == seq_view(s1)[k] by {
                let x = seq_idx(s2, k);
                assert(0 <= x < s2.len() && s2[x].id@ == k);
                assert(x != n);
                lemma_unique_index(s1, k, x);
                lemma_unique_index(s2, k, x);
            }
            assert forall|k: Seq<char>| #[trigger] seq_has(s1, k) implies seq_has(s2, k) by {
                let y = seq_idx(s1, k);
                assert(s2[y].id@ == k);
            }
            assert(seq_view(s2) =~= seq_view(s1).insert(
                file_id@,
                (MetaView {
                    original_name: original_name@,
                    input_path: input_path@,
                    output_path: output_path@,
                    timestamp: now,
                }),
            ));
            assert(seq_view(s1) =~= m0.remove(file_id@));
            assert(self@ =~= m0.insert(
                file_id@,
                (MetaView {
                    original_name: original_name@,
                    input_path: input_path@,
                    output_path: output_path@,
                    timestamp: now,
                }),
            ));
        }
    }

    /// Look up a record; the caller receives a snapshot copy, never a
    /// reference into the store. An identifier never registered (or already
    /// evicted) yields `None`.
    pub fn get_file_metadata(&self, file_id: &String) -> (r: Option<FileMetadata>)
        requires
            self.wf(),
        ensures
            match r {
                Some(m) => self@.contains_key(file_id@) && m@ == self@[file_id@],
                None => !self@.contains_key(file_id@),
            },
    {
        let found = self.find_index(file_id);
        match found {
            None => None,
            Some(j) => {
                proof {
                    lemma_unique_index(self.entries@, file_id@, j as int);
                }
                Some(clone_metadata(&self.entries[j].meta))
            },
        }
    }
}

spec fn entry_like(a: RegEntry, b: RegEntry) -> bool {
    a.id@ == b.id@ && a.meta@ == b.meta@
}

/// `v` is the view of some expired record of `m`.
pub open spec fn expired_snapshot(
    m: Map<Seq<char>, MetaView>,
    v: MetaView,
    now: u64,
    retention_secs: u64,
) -> bool {
    exists|k: Seq<char>|
        #[trigger] m.contains_key(k) && m[k] == v && is_expired(v.timestamp, now, retention_secs)
}

/// Kept entry `i` mirrors some unexpired entry of the scanned prefix.
spec fn kept_witness(
    orig: Seq<RegEntry>,
    kept: Seq<RegEntry>,
    bound: int,
    i: int,
    now: u64,
    ret: u64,
) -> bool {
    exists|j: int|
        0 <= j < bound && entry_like(kept[i], #[trigger] orig[j]) && !is_expired(
            orig[j].meta@.timestamp,
            now,
            ret,
        )
}

/// Entry `j` of the original store survives somewhere in `kept`.
spec fn kept_covers(orig: Seq<RegEntry>, kept: Seq<RegEntry>, j: int) -> bool {
    exists|i: int| 0 <= i < kept.len() && entry_like(#[trigger] kept[i], orig[j])
}

/// Removed snapshot `i` is the view of some expired entry of the prefix.
spec fn removed_witness(
    orig: Seq<RegEntry>,
    removed: Seq<FileMetadata>,
    bound: int,
    i: int,
    now: u64,
    ret: u64,
) -> bool {
    exists|j: int|
        0 <= j < bound && removed[i]@ == (#[trigger] orig[j]).meta@ && is_expired(
            orig[j].meta@.timestamp,
            now,
            ret,
        )
}

/// Entry `j` of the original store was snapshotted into `removed`.
spec fn removed_covers(orig: Seq<RegEntry>, removed: Seq<FileMetadata>, j: int) -> bool {
    exists|i: int| 0 <= i < removed.len() && (#[trigger] removed[i])@ == orig[j].meta@
}

spec fn inv_kept(orig: Seq<RegEntry>, kept: Seq<RegEntry>, bound: int, now: u64, ret: u64) -> bool {
    &&& forall|i: int| 0 <= i < kept.len() ==> #[trigger] kept_witness(orig, kept, bound, i, now, ret)
    &&& forall|j: int|
        0 <= j < bound && !is_expired((#[trigger] orig[j]).meta@.timestamp, now, ret) ==> kept_covers(
            orig,
            kept,
            j,
        )
}

spec fn inv_removed(
    orig: Seq<RegEntry>,
    removed: Seq<FileMetadata>,
    bound: int,
    now: u64,
    ret: u64,
) -> bool {
    &&& forall|i: int|
        0 <= i < removed.len() ==> #[trigger] removed_witness(orig, removed, bound, i, now, ret)
    &&& forall|j: int|
        0 <= j < bound && is_expired((#[trigger] orig[j]).meta@.timestamp, now, ret)
            ==> removed_covers(orig, removed, j)
}

proof fn lemma_kept_extend(orig: Seq<RegEntry>, kept: Seq<RegEntry>, idx: int, now: u64, ret: u64)
    requires
        0 <= idx < orig.len(),
        inv_kept(orig, kept, idx, now, ret),
        is_expired(orig[idx].meta@.timestamp, now, ret),
    ensures
        inv_kept(orig, kept, idx + 1, now, ret),
{
    assert forall|i: int| 0 <= i < kept.len() implies #[trigger] kept_witness(
        orig,
        kept,
        idx + 1,
        i,
        now,
        ret,
    ) by {
        assert(kept_witness(orig, kept, idx, i, now, ret));
        let j = choose|j: int|
            0 <= j < idx && entry_like(kept[i], #[trigger] orig[j]) && !is_expired(
                orig[j].meta@.timestamp,
                now,
                ret,
            );
        assert(0 <= j < idx + 1 && entry_like(kept[i], orig[j]) && !is_expired(
            orig[j].meta@.timestamp,
            now,
            ret,
        ));
    }
    assert forall|j: int|
        0 <= j < idx + 1 && !is_expired((#[trigger] orig[j]).meta@.timestamp, now, ret) implies
        kept_covers(orig, kept, j) by {
        assert(j < idx);
    }
}

proof fn lemma_removed_extend(
    orig: Seq<RegEntry>,
    removed: Seq<FileMetadata>,
    idx: int,
    now: u64,
    ret: u64,
)
    requires
        0 <= idx < orig.len(),
        inv_removed(orig, removed, idx, now, ret),
        !is_expired(orig[idx].meta@.timestamp, now, ret),
    ensures
        inv_removed(orig, removed, idx + 1, now, ret),
{
    assert forall|i: int| 0 <= i < removed.len() implies #[trigger] removed_witness(
        orig,
        removed,
        idx + 1,
        i,
        now,
        ret,
    ) by {
        assert(removed_witness(orig, removed, idx, i, now, ret));
        let j = choose|j: int|
            0 <= j < idx && removed[i]@ == (#[trigger] orig[j]).meta@ && is_expired(
                orig[j].meta@.timestamp,
                now,
                ret,
            );
        assert(0 <= j < idx + 1 && removed[i]@ == orig[j].meta@ && is_expired(
            orig[j].meta@.timestamp,
            now,
            ret,
        ));
    }
    assert forall|j: int|
        0 <= j < idx + 1 && is_expired((#[trigger] orig[j]).meta@.timestamp, now, ret) implies
        removed_covers(orig, removed, j) by {
        assert(j < idx);
    }
}

proof fn lemma_removed_push(
    orig: Seq<RegEntry>,
    removed0: Seq<FileMetadata>,
    removed1: Seq<FileMetadata>,
    idx: int,
    now: u64,
    ret: u64,
)
    requires
        0 <= idx < orig.len(),
        inv_removed(orig, removed0, idx, now, ret),
        is_expired(orig[idx].meta@.timestamp, now, ret),
        removed1.len() == removed0.len() + 1,
        forall|i: int| 0 <= i < removed0.len() ==> removed1[i] == removed0[i],
        removed1[removed0.len() as int]@ == orig[idx].meta@,
    ensures
        inv_removed(orig, removed1, idx + 1, now, ret),
{
    assert forall|i: int| 0 <= i < removed1.len() implies #[trigger] removed_witness(
        orig,
        removed1,
        idx + 1,
        i,
        now,
        ret,
    ) by {
        if i < removed0.len() {
            assert(removed_witness(orig, removed0, idx, i, now, ret));
            let j = choose|j: int|
                0 <= j < idx && removed0[i]@ == (#[trigger] orig[j]).meta@ && is_expired(
                    orig[j].meta@.timestamp,
                    now,
                    ret,
                );
            assert(removed1[i] == removed0[i]);
            assert(0 <= j < idx + 1 && removed1[i]@ == orig[j].meta@ && is_expired(
                orig[j].meta@.timestamp,
                now,
                ret,
            ));
        } else {
            assert(0 <= idx < idx + 1 && removed1[i]@ == orig[idx].meta@ && is_expired(
                orig[idx].meta@.timestamp,
                now,
                ret,
            ));
        }
    }
    assert forall|j: int|
        0 <= j < idx + 1 && is_expired((#[trigger] orig[j]).meta@.timestamp, now, ret) implies
        removed_covers(orig, removed1, j) by {
        if j < idx {
            assert(removed_covers(orig, removed0, j));
            let i = choose|i: int|
                0 <= i < removed0.len() && (#[trigger] removed0[i])@ == orig[j].meta@;
            assert(removed1[i] == removed0[i]);
            assert(0 <= i < removed1.len() && removed1[i]@ == orig[j].meta@);
        } else {
            let i = removed0.len() as int;
            assert(0 <= i < removed1.len() && removed1[i]@ == orig[j].meta@);
        }
    }
}

proof fn lemma_kept_push(
    orig: Seq<RegEntry>,
    kept0: Seq<RegEntry>,
    kept1: Seq<RegEntry>,
    idx: int,
    now: u64,
    ret: u64,
)
    requires
        0 <= idx < orig.len(),
        seq_wf(orig),
        seq_wf(kept0),
        inv_kept(orig, kept0, idx, now, ret),
        !is_expired(orig[idx].meta@.timestamp, now, ret),
        kept1.len() == kept0.len() + 1,
        forall|i: int| 0 <= i < kept0.len() ==> kept1[i] == kept0[i],
        entry_like(kept1[kept0.len() as int], orig[idx]),
    ensures
        seq_wf(kept1),
        inv_kept(orig, kept1, idx + 1, now, ret),
{
    let n0 = kept0.len() as int;
    assert forall|i: int| 0 <= i < n0 implies kept0[i].id@ != orig[idx].id@ by {
        assert(kept_witness(orig, kept0, idx, i, now, ret));
        let j = choose|j: int|
            0 <= j < idx && entry_like(kept0[i], #[trigger] orig[j]) && !is_expired(
                orig[j].meta@.timestamp,
                now,
                ret,
            );
        assert(orig[j].id@ != orig[idx].id@);
    }
    assert forall|a: int, b: int| 0 <= a < b < kept1.len() implies kept1[a].id@ != kept1[b].id@ by {
        if b < n0 {
            assert(kept1[a] == kept0[a] && kept1[b] == kept0[b]);
        } else {
            assert(kept1[a] == kept0[a] && kept1[b].id@ == orig[idx].id@);
        }
    }
    assert forall|i: int| 0 <= i < kept1.len() implies #[trigger] kept_witness(
        orig,
        kept1,
        idx + 1,
        i,
        now,
        ret,
    ) by {
        if i < n0 {
            assert(kept_witness(orig, kept0, idx, i, now, ret));
            let j = choose|j: int|
                0 <= j < idx && entry_like(kept0[i], #[trigger] orig[j]) && !is_expired(
                    orig[j].meta@.timestamp,
                    now,
                    ret,
                );
            assert(kept1[i] == kept0[i]);
            assert(0 <= j < idx + 1 && entry_like(kept1[i], orig[j]) && !is_expired(
                orig[j].meta@.timestamp,
                now,
                ret,
            ));
        } else {
            assert(0 <= idx < idx + 1 && entry_like(kept1[i], orig[idx]) && !is_expired(
                orig[idx].meta@.timestamp,
                now,
                ret,
            ));
        }
    }
    assert forall|j: int|
        0 <= j < idx + 1 && !is_expired((#[trigger] orig[j]).meta@.timestamp, now, ret) implies
        kept_covers(orig, kept1, j) by {
        if j < idx {
            assert(kept_covers(orig, kept0, j));
            let i = choose|i: int| 0 <= i < kept0.len() && entry_like(#[trigger] kept0[i], orig[j]);
            assert(kept1[i] == kept0[i]);
            assert(0 <= i < kept1.len() && entry_like(kept1[i], orig[j]));
        } else {
            assert(0 <= n0 < kept1.len() && entry_like(kept1[n0], orig[j]));
        }
    }
}

proof fn lemma_evict_final(
    orig: Seq<RegEntry>,
    kept: Seq<RegEntry>,
    removed: Seq<FileMetadata>,
    now: u64,
    ret: u64,
)
    requires
        seq_wf(orig),
        seq_wf(kept),
        inv_kept(orig, kept, orig.len() as int, now, ret),
        inv_removed(orig, removed, orig.len() as int, now, ret),
    ensures
        forall|k: Seq<char>|
            #[trigger] seq_view(kept).contains_key(k) ==> seq_view(orig).contains_key(k)
                && !is_expired(seq_view(orig)[k].timestamp, now, ret) && seq_view(kept)[k]
                == seq_view(orig)[k],
        forall|k: Seq<char>|
            #[trigger] seq_view(orig).contains_key(k) && !is_expired(
                seq_view(orig)[k].timestamp,
                now,
                ret,
            ) ==> seq_view(kept).contains_key(k),
        forall|i: int|
            0 <= i < removed.len() ==> expired_snapshot(
                seq_view(orig),
                #[trigger] removed[i]@,
                now,
                ret,
            ),
        forall|k: Seq<char>|
            #[trigger] seq_view(orig).contains_key(k) && is_expired(
                seq_view(orig)[k].timestamp,
                now,
                ret,
            ) ==> exists|i: int| 0 <= i < removed.len() && removed[i]@ == seq_view(orig)[k],
{
    let n = orig.len() as int;
    assert forall|k: Seq<char>| #[trigger] seq_has(kept, k) implies seq_has(orig, k) && !is_expired(
        seq_view(orig)[k].timestamp,
        now,
        ret,
    ) && seq_view(kept)[k] == seq_view(orig)[k] by {
        let i = seq_idx(kept, k);
        assert(0 <= i < kept.len() && kept[i].id@ == k);
        assert(kept_witness(orig, kept, n, i, now, ret));
        let j = choose|j: int|
            0 <= j < n && entry_like(kept[i], #[trigger] orig[j]) && !is_expired(
                orig[j].meta@.timestamp,
                now,
                ret,
            );
        lemma_unique_index(orig, k, j);
        lemma_unique_index(kept, k, i);
    }
    assert forall|k: Seq<char>| #[trigger] seq_has(orig, k) && !is_expired(
        seq_view(orig)[k].timestamp,
        now,
        ret,
    ) implies seq_has(kept, k) by {
        let j = seq_idx(orig, k);
        assert(0 <= j < orig.len() && orig[j].id@ == k);
        lemma_unique_index(orig, k, j);
        assert(kept_covers(orig, kept, j));
        let i = choose|i: int| 0 <= i < kept.len() && entry_like(#[trigger] kept[i], orig[j]);
        assert(kept[i].id@ == k);
    }
    assert forall|i: int| 0 <= i < removed.len() implies expired_snapshot(
        seq_view(orig),
        #[trigger] removed[i]@,
        now,
        ret,
    ) by {
        assert(removed_witness(orig, removed, n, i, now, ret));
        let j = choose|j: int|
            0 <= j < n && removed[i]@ == (#[trigger] orig[j]).meta@ && is_expired(
                orig[j].meta@.timestamp,
                now,
                ret,
            );
        lemma_unique_index(orig, orig[j].id@, j);
        assert(seq_view(orig).contains_key(orig[j].id@) && seq_view(orig)[orig[j].id@]
            == removed[i]@ && is_expired(removed[i]@.timestamp, now, ret));
    }
    assert forall|k: Seq<char>| #[trigger] seq_has(orig, k) && is_expired(
        seq_view(orig)[k].timestamp,
        now,
        ret,
    ) implies exists|i: int| 0 <= i < removed.len() && removed[i]@ == seq_view(orig)[k] by {
        let j = seq_idx(orig, k);
        assert(0 <= j < orig.len() && orig[j].id@ == k);
        lemma_unique_index(orig, k, j);
        assert(removed_covers(orig, removed, j));
        let i = choose|i: int| 0 <= i < removed.len() && (#[trigger] removed[i])@ == orig[j].meta@;
        assert(0 <= i < removed.len() && removed[i]@ == seq_view(orig)[k]);
    }
}

impl Registry {
    /// One eviction pass: every record whose age strictly exceeds the
    /// retention window leaves the registry; every younger record stays,
    /// unchanged. The removed records come back as snapshots so the caller
    /// can delete their backing files best-effort.
    pub fn evict_expired(&mut self, now: u64, retention_secs: u64) -> (removed: Vec<
        FileMetadata,
    >)
        requires
            old(self).wf(),
        ensures
            final(self).wf(),
            forall|k: Seq<char>|
                #[trigger] final(self)@.contains_key(k) ==> old(self)@.contains_key(k)
                    && !is_expired(old(self)@[k].timestamp, now, retention_secs) && final(self)@[k]
                    == old(self)@[k],
            forall|k: Seq<char>|
                #[trigger] old(self)@.contains_key(k) && !is_expired(
                    old(self)@[k].timestamp,
                    now,
                    retention_secs,
                ) ==> final(self)@.contains_key(k),
            forall|i: int|
                0 <= i < removed@.len() ==> expired_snapshot(
                    old(self)@,
                    #[trigger] removed@[i]@,
                    now,
                    retention_secs,
                ),
            forall|k: Seq<char>|
                #[trigger] old(self)@.contains_key(k) && is_expired(
                    old(self)@[k].timestamp,
                    now,
                    retention_secs,
                ) ==> exists|i: int| 0 <= i < removed@.len() && removed@[i]@ == old(self)@[k],
    {
        let ghost orig = self.entries@;
        let n = self.entries.len();
        let mut kept: Vec<RegEntry> = Vec::new();
        let mut removed: Vec<FileMetadata> = Vec::new();
        let mut idx: usize = 0;
        while idx < n
            invariant
                self.entries@ == orig,
                n == orig.len(),
                seq_wf(orig),
                idx <= n,
                seq_wf(kept@),
                inv_kept(orig, kept@, idx as int, now, retention_secs),
                inv_removed(orig, removed@, idx as int, now, retention_secs),
            decreases n - idx,
        {
            let ts = self.entries[idx].meta.timestamp;
            let expired = now > ts && now - ts > retention_secs;
            proof {
                assert(expired == is_expired(orig[idx as int].meta@.timestamp, now, retention_secs));
            }
            if expired {
                let snap = clone_metadata(&self.entries[idx].meta);
                let ghost removed0 = removed@;
                removed.push(snap);
                proof {
                    lemma_kept_extend(orig, kept@, idx as int, now, retention_secs);
                    lemma_removed_push(
                        orig,
                        removed0,
                        removed@,
                        idx as int,
                        now,
                        retention_secs,
                    );
                }
            } else {
                let ke = RegEntry {
                    id: self.entries[idx].id.clone(),
                    meta: clone_metadata(&self.entries[idx].meta),
                };
                let ghost kept0 = kept@;
                kept.push(ke);
                proof {
                    lemma_kept_push(orig, kept0, kept@, idx as int, now, retention_secs);
                    lemma_removed_extend(orig, removed@, idx as int, now, retention_secs);
                }
            }
            idx = idx + 1;
        }
        self.entries = kept;
        proof {
            lemma_evict_final(orig, self.entries@, removed@, now, retention_secs);
        }
        removed
    }
}


/// Registering a record and then looking the identifier up returns exactly
/// the record that was registered, fields included.
pub proof fn lemma_register_then_lookup(
    before: Map<Seq<char>, MetaView>,
    id: Seq<char>,
    m: MetaView,
)
    ensures
        before.insert(id, m).contains_key(id),
        before.insert(id, m)[id] == m,
{
}

/// Relies on uuid::Uuid::new_v4 and its Display form: a fresh version-4
/// identifier rendered in the hyphenated format, which is 36 characters.
/// Nothing else is assumed of the value.
#[verifier::external_body]
pub fn generate_file_id() -> (r: String)
    ensures
        r@.len() == 36,
{
    uuid::Uuid::new_v4().to_string()
}

/// Relies on chrono::Utc::now / DateTime::timestamp: the current wall-clock
/// time as whole Unix seconds. Nothing is assumed of the value.
#[verifier::external_body]
fn now_unix_raw() -> i64 {
    chrono::Utc::now().timestamp()
}

/// The current time in Unix seconds, clamped below at zero so registration
/// timestamps are always representable.
pub fn now_unix_seconds() -> u64 {
    let t = now_unix_raw();
    if t < 0 {
        0
    } else {
        t as u64
    }
}

} // verus!
