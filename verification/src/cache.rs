//! The song cache rows: one row per source URL, holding the resolved title,
//! the cached file's path and size, and the access times that drive
//! retention cleanup. Rows are created on successful downloads, read on
//! every request, and only `last_accessed` is ever touched afterwards.

use vstd::prelude::*;

use crate::text::str_eq;

verus! {

/// One cached source: the stable metadata of a URL and where its audio
/// file lies.
pub struct CacheEntry {
    pub url: String,
    pub title: String,
    pub duration_seconds: Option<u32>,
    pub thumbnail_url: Option<String>,
    pub file_path: Option<String>,
    pub file_size: Option<u32>,
    pub last_accessed: i64,
    pub created_at: i64,
}

fn clone_opt_string(o: &Option<String>) -> (r: Option<String>)
    ensures
        r == *o,
{
    match o {
        Some(s) => Some(s.clone()),
        None => None,
    }
}

impl CacheEntry {
    /// A field-for-field copy.
    pub fn cloned(&self) -> (r: CacheEntry)
        ensures
            r == *self,
    {
        CacheEntry {
            url: self.url.clone(),
            title: self.title.clone(),
            duration_seconds: self.duration_seconds,
            thumbnail_url: clone_opt_string(&self.thumbnail_url),
            file_path: clone_opt_string(&self.file_path),
            file_size: self.file_size,
            last_accessed: self.last_accessed,
            created_at: self.created_at,
        }
    }
}

/// The entry of URL `u` in a row list, reading the first row whose key
/// matches.
pub open spec fn entry_in(rs: Seq<CacheEntry>, u: Seq<char>) -> Option<CacheEntry>
    decreases rs.len(),
{
    if rs.len() == 0 {
        None
    } else if rs.first().url@ == u {
        Some(rs.first())
    } else {
        entry_in(rs.drop_first(), u)
    }
}

proof fn lemma_entry_in_skip(rs: Seq<CacheEntry>, u: Seq<char>, k: int)
    requires
        0 <= k <= rs.len(),
        forall|j: int| 0 <= j < k ==> (#[trigger] rs[j]).url@ != u,
    ensures
        entry_in(rs, u) == entry_in(rs.skip(k), u),
    decreases k,
{
    if k == 0 {
        assert(rs.skip(0) =~= rs);
    } else {
        lemma_entry_in_skip(rs.drop_first(), u, k - 1);
        assert(rs.drop_first().skip(k - 1) =~= rs.skip(k));
    }
}

proof fn lemma_entry_in_update(rs: Seq<CacheEntry>, i: int, e: CacheEntry, h: Seq<char>)
    requires
        0 <= i < rs.len(),
        e.url@ == rs[i].url@,
        forall|j: int| 0 <= j < i ==> (#[trigger] rs[j]).url@ != rs[i].url@,
    ensures
        entry_in(rs.update(i, e), h) == if h == e.url@ {
            Some(e)
        } else {
            entry_in(rs, h)
        },
    decreases i,
{
    let rs2 = rs.update(i, e);
    if i == 0 {
        assert(rs2.first() == e);
        if h != e.url@ {
            assert(rs2.drop_first() =~= rs.drop_first());
        }
    } else {
        assert(rs2.first() == rs.first());
        assert(rs2.drop_first() =~= rs.drop_first().update(i - 1, e));
        lemma_entry_in_update(rs.drop_first(), i - 1, e, h);
    }
}

proof fn lemma_entry_in_push(rs: Seq<CacheEntry>, e: CacheEntry, h: Seq<char>)
    requires
        entry_in(rs, e.url@) is None,
    ensures
        entry_in(rs.push(e), h) == if h == e.url@ {
            Some(e)
        } else {
            entry_in(rs, h)
        },
    decreases rs.len(),
{
    if rs.len() == 0 {
        assert(rs.push(e).first() == e);
        assert(rs.push(e).drop_first() =~= Seq::<CacheEntry>::empty());
        if h == e.url@ {
            assert(entry_in(rs.push(e), h) == Some(e));
        } else {
            assert(entry_in(rs.push(e), h) == entry_in(rs.push(e).drop_first(), h));
        }
    } else {
        assert(rs.push(e).first() == rs.first());
        assert(rs.push(e).drop_first() =~= rs.drop_first().push(e));
        assert(rs.first().url@ != e.url@);
        lemma_entry_in_push(rs.drop_first(), e, h);
        if rs.first().url@ == h {
            assert(entry_in(rs.push(e), h) == Some(rs.first()));
        }
    }
}

/// The rows that survive a cleanup with this cutoff: those accessed at or
/// after it, in their original order.
pub open spec fn kept_rows(rs: Seq<CacheEntry>, cutoff: i64) -> Seq<CacheEntry>
    decreases rs.len(),
{
    if rs.len() == 0 {
        Seq::empty()
    } else if rs.first().last_accessed >= cutoff {
        seq![rs.first()] + kept_rows(rs.drop_first(), cutoff)
    } else {
        kept_rows(rs.drop_first(), cutoff)
    }
}

/// The byte total of the cached files; a row without a recorded size
/// counts as zero.
pub open spec fn cache_total_size(rs: Seq<CacheEntry>) -> int
    decreases rs.len(),
{
    if rs.len() == 0 {
        0
    } else {
        cache_total_size(rs.drop_last()) + match rs.last().file_size {
            Some(n) => n as int,
            None => 0,
        }
    }
}

/// The song-cache store.
pub struct SongCacheStore {
    pub entries: Vec<CacheEntry>,
}

impl SongCacheStore {
    /// URLs are unique across rows.
    pub open spec fn wf(self) -> bool {
        forall|i: int, j: int|
            0 <= i < self.entries@.len() && 0 <= j < self.entries@.len() && i != j ==> (
            #[trigger] self.entries@[i]).url@ != (#[trigger] self.entries@[j]).url@
    }

    /// The entry of URL `u`, if one exists.
    pub open spec fn entry_of(self, u: Seq<char>) -> Option<CacheEntry> {
        entry_in(self.entries@, u)
    }

    pub fn new() -> (r: SongCacheStore)
        ensures
            r.wf(),
            forall|u: Seq<char>| #[trigger] r.entry_of(u) is None,
            r.entries@.len() == 0,
    {
        SongCacheStore { entries: Vec::new() }
    }

    fn find_index(&self, url: &str) -> (r: Option<usize>)
        ensures
            r matches Some(i) ==> i < self.entries@.len() && self.entries@[i as int].url@ == url@
                && (forall|j: int| 0 <= j < i ==> (#[trigger] self.entries@[j]).url@ != url@)
                && self.entry_of(url@) == Some(self.entries@[i as int]),
            r is None ==> self.entry_of(url@) is None && (forall|j: int|
                0 <= j < self.entries@.len() ==> (#[trigger] self.entries@[j]).url@ != url@),
    {
        let n = self.entries.len();
        let mut i: usize = 0;
        while i < n
            invariant
                0 <= i <= n,
                n == self.entries@.len(),
                forall|j: int| 0 <= j < i ==> (#[trigger] self.entries@[j]).url@ != url@,
            decreases n - i,
        {
            if str_eq(self.entries[i].url.as_str(), url) {
                proof {
                    lemma_entry_in_skip(self.entries@, url@, i as int);
                    assert(self.entries@.skip(i as int).first() == self.entries@[i as int]);
                }
                return Some(i);
            }
            i = i + 1;
        }
        proof {
            lemma_entry_in_skip(self.entries@, url@, n as int);
            assert(self.entries@.skip(n as int) =~= Seq::<CacheEntry>::empty());
        }
        None
    }

    /// Looks a URL's entry up.
    pub fn find_by_url(&self, url: &str) -> (r: Option<CacheEntry>)
        ensures
            r == self.entry_of(url@),
    {
        match self.find_index(url) {
            Some(i) => Some(self.entries[i].cloned()),
            None => None,
        }
    }

    /// Upserts a URL's metadata: every field is replaced and
    /// `last_accessed` stamped; only `created_at` of an existing row
    /// survives. A fresh row is created at `now`.
    pub fn create_or_update(
        &mut self,
        url: &str,
        title: &str,
        duration_seconds: Option<u32>,
        thumbnail_url: Option<&str>,
        file_path: Option<&str>,
        file_size: Option<u32>,
        now: i64,
    ) -> (r: usize)
        requires
            old(self).wf(),
        ensures
            final(self).wf(),
            r == 1,
            final(self).entry_of(url@) matches Some(e) && {
                &&& e.url@ == url@
                &&& e.title@ == title@
                &&& e.duration_seconds == duration_seconds
                &&& (thumbnail_url is None ==> e.thumbnail_url is None)
                &&& (thumbnail_url matches Some(t0) ==> e.thumbnail_url matches Some(t) && t@
                    == t0@)
                &&& (file_path is None ==> e.file_path is None)
                &&& (file_path matches Some(p0) ==> e.file_path matches Some(p) && p@ == p0@)
                &&& e.file_size == file_size
                &&& e.last_accessed == now
                &&& (old(self).entry_of(url@) matches Some(prev) ==> e.created_at
                    == prev.created_at)
                &&& (old(self).entry_of(url@) is None ==> e.created_at == now)
            },
            forall|h: Seq<char>|
                h != url@ ==> #[trigger] final(self).entry_of(h) == old(self).entry_of(h),
    {
        let created_at = match self.find_index(url) {
            Some(i) => self.entries[i].created_at,
            None => now,
        };
        let e = CacheEntry {
            url: url.to_owned(),
            title: title.to_owned(),
            duration_seconds,
            thumbnail_url: match thumbnail_url {
                Some(t) => Some(t.to_owned()),
                None => None,
            },
            file_path: match file_path {
                Some(p) => Some(p.to_owned()),
                None => None,
            },
            file_size,
            last_accessed: now,
            created_at,
        };
        match self.find_index(url) {
            Some(i) => {
                let ghost old_rs = self.entries@;
                self.entries[i] = e;
                proof {
                    let e2 = self.entries@[i as int];
                    assert(self.entries@ =~= old_rs.update(i as int, e2));
                    lemma_entry_in_update(old_rs, i as int, e2, url@);
                    assert forall|h: Seq<char>| h != url@ implies #[trigger] entry_in(
                        self.entries@,
                        h,
                    ) == entry_in(old_rs, h) by {
                        lemma_entry_in_update(old_rs, i as int, e2, h);
                    }
                }
                1
            },
            None => {
                let ghost old_rs = self.entries@;
                self.entries.push(e);
                proof {
                    let e2 = self.entries@.last();
                    lemma_entry_in_push(old_rs, e2, url@);
                    assert forall|h: Seq<char>| h != url@ implies #[trigger] entry_in(
                        self.entries@,
                        h,
                    ) == entry_in(old_rs, h) by {
                        lemma_entry_in_push(old_rs, e2, h);
                    }
                    assert forall|i: int, j: int|
                        0 <= i < self.entries@.len() && 0 <= j < self.entries@.len() && i
                            != j implies (#[trigger] self.entries@[i]).url@ != (
                    #[trigger] self.entries@[j]).url@ by {
                        if i < old_rs.len() && j < old_rs.len() {
                        } else if j == old_rs.len() {
                            if self.entries@[i].url@ == url@ {
                                lemma_entry_in_skip(old_rs, url@, i);
                                assert(old_rs.skip(i).first() == old_rs[i]);
                            }
                        } else {
                            if self.entries@[j].url@ == url@ {
                                lemma_entry_in_skip(old_rs, url@, j);
                                assert(old_rs.skip(j).first() == old_rs[j]);
                            }
                        }
                    }
                }
                1
            },
        }
    }

    /// Stamps `last_accessed` on a URL's row; returns how many rows that
    /// touched (0 or 1).
    pub fn update_last_accessed(&mut self, url: &str, now: i64) -> (r: usize)
        requires
            old(self).wf(),
        ensures
            final(self).wf(),
            old(self).entry_of(url@) is None ==> r == 0 && *final(self) == *old(self),
            old(self).entry_of(url@) matches Some(prev) ==> r == 1 && final(self).entry_of(url@)
                == Some((CacheEntry { last_accessed: now, ..prev })),
            forall|h: Seq<char>|
                h != url@ ==> #[trigger] final(self).entry_of(h) == old(self).entry_of(h),
    {
        match self.find_index(url) {
            Some(i) => {
                let prev = &self.entries[i];
                let e = CacheEntry {
                    url: prev.url.clone(),
                    title: prev.title.clone(),
                    duration_seconds: prev.duration_seconds,
                    thumbnail_url: clone_opt_string(&prev.thumbnail_url),
                    file_path: clone_opt_string(&prev.file_path),
                    file_size: prev.file_size,
                    last_accessed: now,
                    created_at: prev.created_at,
                };
                let ghost old_rs = self.entries@;
                self.entries[i] = e;
                proof {
                    let e2 = self.entries@[i as int];
                    assert(self.entries@ =~= old_rs.update(i as int, e2));
                    lemma_entry_in_update(old_rs, i as int, e2, url@);
                    assert forall|h: Seq<char>| h != url@ implies #[trigger] entry_in(
                        self.entries@,
                        h,
                    ) == entry_in(old_rs, h) by {
                        lemma_entry_in_update(old_rs, i as int, e2, h);
                    }
                }
                1
            },
            None => 0,
        }
    }

    /// Removes every row last accessed before `cutoff`; returns how many
    /// went. The survivors keep their order.
    pub fn cleanup_older_than(&mut self, cutoff: i64) -> (r: usize)
        requires
            old(self).wf(),
        ensures
            final(self).wf(),
            final(self).entries@ == kept_rows(old(self).entries@, cutoff),
            r == old(self).entries@.len() - final(self).entries@.len(),
    {
        let n = self.entries.len();
        let mut out: Vec<CacheEntry> = Vec::new();
        let ghost mut src_idx: Seq<int> = Seq::empty();
        let mut i: usize = 0;
        proof {
            assert(self.entries@.skip(0) =~= self.entries@);
        }
        while i < n
            invariant
                0 <= i <= n,
                n == self.entries@.len(),
                self.wf(),
                src_idx.len() == out@.len(),
                out@.len() <= i,
                forall|k: int|
                    0 <= k < out@.len() ==> 0 <= #[trigger] src_idx[k] < i && out@[k]
                        == self.entries@[src_idx[k]],
                forall|k: int, l: int| 0 <= k < l < src_idx.len() ==> src_idx[k] < src_idx[l],
                kept_rows(self.entries@, cutoff) == out@ + kept_rows(
                    self.entries@.skip(i as int),
                    cutoff,
                ),
            decreases n - i,
        {
            proof {
                assert(self.entries@.skip(i as int).first() == self.entries@[i as int]);
                assert(self.entries@.skip(i as int).drop_first() =~= self.entries@.skip(
                    i + 1 as int,
                ));
            }
            if self.entries[i].last_accessed >= cutoff {
                out.push(self.entries[i].cloned());
                proof {
                    src_idx = src_idx.push(i as int);
                    assert(out@.drop_last() + (seq![self.entries@[i as int]] + kept_rows(
                        self.entries@.skip(i + 1 as int),
                        cutoff,
                    )) =~= out@ + kept_rows(self.entries@.skip(i + 1 as int), cutoff));
                }
            }
            i = i + 1;
        }
        proof {
            assert(self.entries@.skip(n as int) =~= Seq::<CacheEntry>::empty());
            assert(out@ + Seq::<CacheEntry>::empty() =~= out@);
        }
        let removed = n - out.len();
        let ghost old_rs = self.entries@;
        self.entries = out;
        proof {
            assert forall|k: int, l: int|
                0 <= k < self.entries@.len() && 0 <= l < self.entries@.len() && k != l implies (
            #[trigger] self.entries@[k]).url@ != (#[trigger] self.entries@[l]).url@ by {
                assert(self.entries@[k] == old_rs[src_idx[k]]);
                assert(self.entries@[l] == old_rs[src_idx[l]]);
                if k < l {
                    assert(src_idx[k] < src_idx[l]);
                } else {
                    assert(src_idx[l] < src_idx[k]);
                }
            }
        }
        removed
    }

    /// The byte total of every cached file, saturating at the counter's
    /// capacity.
    pub fn get_cache_size(&self) -> (r: u64)
        ensures
            r == (if cache_total_size(self.entries@) <= u64::MAX {
                cache_total_size(self.entries@)
            } else {
                u64::MAX as int
            }),
    {
        let n = self.entries.len();
        let mut total: u64 = 0;
        let mut i: usize = 0;
        while i < n
            invariant
                0 <= i <= n,
                n == self.entries@.len(),
                total == (if cache_total_size(self.entries@.take(i as int)) <= u64::MAX {
                    cache_total_size(self.entries@.take(i as int))
                } else {
                    u64::MAX as int
                }),
            decreases n - i,
        {
            proof {
                assert(self.entries@.take(i + 1 as int).drop_last() =~= self.entries@.take(
                    i as int,
                ));
                assert(self.entries@.take(i + 1 as int).last() == self.entries@[i as int]);
            }
            let add: u64 = match self.entries[i].file_size {
                Some(s) => s as u64,
                None => 0,
            };
            total = total.saturating_add(add);
            i = i + 1;
        }
        proof {
            assert(self.entries@.take(n as int) =~= self.entries@);
        }
        total
    }
}

} // verus!
