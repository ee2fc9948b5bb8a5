//! The cache of remuxed MP4 files: which files are too old to keep, and in
//! which order the others give way when the cache grows past its size limit.
use crate::assets::opt_view;
use crate::text::str_eq;
use vstd::prelude::*;

verus! {

/// How long an unused remux stays in the cache: seven days, in nanoseconds.
pub const REMUX_CACHE_MAX_AGE_NANOS: u128 = 7 * 24 * 60 * 60 * 1_000_000_000;

/// The size the cache is brought back under: 5 GiB.
pub const REMUX_CACHE_MAX_BYTES: u64 = 5 * 1024 * 1024 * 1024;

/// A file found in the cache directory, as the file system reports it.
#[derive(Debug)]
pub struct CacheFile {
    pub path: String,
    /// The file's extension, when it has one that is valid UTF-8.
    pub extension: Option<String>,
    /// Its size in bytes.
    pub len: u64,
    /// When it was last read (or, where the system keeps no access time,
    /// last written), in nanoseconds since the Unix epoch; 0 when unknown.
    pub accessed: u128,
}

/// What a cleanup does: remove the expired files, then remove the others,
/// oldest first, while the cache holds more than its limit.
#[derive(Debug)]
pub struct CachePlan {
    /// The remuxes unused for longer than the maximum age.
    pub expired: Vec<String>,
    /// The remaining remuxes, least recently used first.
    pub evictable: Vec<CacheFile>,
    /// The bytes the remaining remuxes take.
    pub total: u128,
}

/// Only MP4 files are remuxes.
pub open spec fn is_remux(f: CacheFile) -> bool {
    opt_view(f.extension) == Some("mp4"@)
}

/// A file unused for longer than the maximum age at time `now`.
pub open spec fn is_expired(f: CacheFile, now: int) -> bool {
    now > f.accessed + REMUX_CACHE_MAX_AGE_NANOS
}

/// The paths of the expired remuxes, in listing order.
pub open spec fn expired_paths(files: Seq<CacheFile>, now: int) -> Seq<String>
    decreases files.len(),
{
    if files.len() == 0 {
        seq![]
    } else {
        let rest = expired_paths(files.drop_last(), now);
        if is_remux(files.last()) && is_expired(files.last(), now) {
            rest.push(files.last().path)
        } else {
            rest
        }
    }
}

/// The remuxes that are not expired, in listing order.
pub open spec fn fresh_remuxes(files: Seq<CacheFile>, now: int) -> Seq<CacheFile>
    decreases files.len(),
{
    if files.len() == 0 {
        seq![]
    } else {
        let rest = fresh_remuxes(files.drop_last(), now);
        if is_remux(files.last()) && !is_expired(files.last(), now) {
            rest.push(files.last())
        } else {
            rest
        }
    }
}

/// The bytes that files take together.
pub open spec fn total_len(files: Seq<CacheFile>) -> int
    decreases files.len(),
{
    if files.len() == 0 {
        0
    } else {
        total_len(files.drop_last()) + files.last().len
    }
}

/// `f` placed into `sorted` after every file used no later.
pub open spec fn insert_by_access(sorted: Seq<CacheFile>, f: CacheFile) -> Seq<CacheFile>
    decreases sorted.len(),
{
    if sorted.len() == 0 {
        seq![f]
    } else if sorted.last().accessed <= f.accessed {
        sorted.push(f)
    } else {
        insert_by_access(sorted.drop_last(), f).push(sorted.last())
    }
}

/// The files in stable order of their last use, least recent first.
pub open spec fn by_access(files: Seq<CacheFile>) -> Seq<CacheFile>
    decreases files.len(),
{
    if files.len() == 0 {
        files
    } else {
        insert_by_access(by_access(files.drop_last()), files.last())
    }
}

proof fn lemma_insert_at(s: Seq<CacheFile>, f: CacheFile, j: int)
    requires
        0 <= j <= s.len(),
        j == 0 || s[j - 1].accessed <= f.accessed,
        forall|k: int| j <= k < s.len() ==> (#[trigger] s[k]).accessed > f.accessed,
    ensures
        insert_by_access(s, f) == s.insert(j, f),
    decreases s.len(),
{
    if s.len() == 0 {
        assert(s.insert(j, f) =~= seq![f]);
    } else if s.last().accessed <= f.accessed {
        assert(s.insert(j, f) =~= s.push(f));
    } else {
        let t = s.drop_last();
        lemma_insert_at(t, f, j);
        assert(s.insert(j, f) =~= t.insert(j, f).push(s.last()));
    }
}

proof fn lemma_total_bound(files: Seq<CacheFile>, now: int)
    ensures
        0 <= total_len(fresh_remuxes(files, now)) <= files.len() * 0xffff_ffff_ffff_ffff,
    decreases files.len(),
{
    if files.len() > 0 {
        lemma_total_bound(files.drop_last(), now);
        let rest = fresh_remuxes(files.drop_last(), now);
        if is_remux(files.last()) && !is_expired(files.last(), now) {
            assert(rest.push(files.last()).drop_last() =~= rest);
        }
    }
}

fn is_mp4(f: &CacheFile) -> (r: bool)
    ensures
        r == is_remux(*f),
{
    proof {
        reveal_strlit("mp4");
    }
    match &f.extension {
        Some(e) => str_eq(e.as_str(), "mp4"),
        None => false,
    }
}

/// Sorts the files of the cache directory at time `now`: the expired remuxes
/// to remove, and the others least recently used first with their total size.
/// Files that are not MP4 are left alone.
pub fn remux_cache_plan(files: Vec<CacheFile>, now: u128) -> (r: CachePlan)
    ensures
        r.expired@ == expired_paths(files@, now as int),
        r.evictable@ == by_access(fresh_remuxes(files@, now as int)),
        r.total == total_len(fresh_remuxes(files@, now as int)),
{
    let ghost orig = files@;
    let mut expired: Vec<String> = Vec::new();
    let mut sorted: Vec<CacheFile> = Vec::new();
    let mut total: u128 = 0;
    let n = files.len();
    for f in it: files.into_iter()
        invariant
            it.seq() == orig,
            orig.len() == n,
            it.index() <= orig.len(),
            expired@ == expired_paths(orig.take(it.index() as int), now as int),
            sorted@ == by_access(fresh_remuxes(orig.take(it.index() as int), now as int)),
            total == total_len(fresh_remuxes(orig.take(it.index() as int), now as int)),
    {
        let ghost t = orig.take(it.index() + 1);
        let ghost before = sorted@;
        proof {
            assert(t.drop_last() =~= orig.take(it.index() as int));
            assert(t.last() == f);
            lemma_total_bound(t, now as int);
            assert(t.len() <= usize::MAX);
            assert(t.len() * 0xffff_ffff_ffff_ffff <= 0xffff_ffff_ffff_ffff * 0xffff_ffff_ffff_ffff)
                by (nonlinear_arith)
                requires
                    t.len() <= 0xffff_ffff_ffff_ffff,
            ;
        }
        if is_mp4(&f) {
            if now > f.accessed && now - f.accessed > REMUX_CACHE_MAX_AGE_NANOS {
                expired.push(f.path);
            } else {
                let ghost fresh = fresh_remuxes(orig.take(it.index() as int), now as int);
                proof {
                    assert(fresh.push(f).drop_last() =~= fresh);
                }
                total = total + f.len as u128;
                let key = f.accessed;
                let mut j = sorted.len();
                while j > 0 && sorted[j - 1].accessed > key
                    invariant
                        j <= sorted.len(),
                        sorted@ == before,
                        key == f.accessed,
                        forall|k: int| j <= k < sorted.len() ==> (#[trigger] sorted@[k]).accessed > key,
                    decreases j,
                {
                    j -= 1;
                }
                proof {
                    lemma_insert_at(before, f, j as int);
                }
                sorted.insert(j, f);
            }
        }
    }
    proof {
        assert(orig.take(orig.len() as int) =~= orig);
    }
    CachePlan { expired, evictable: sorted, total }
}

/// Whether the cache still holds more than its limit.
pub fn needs_eviction(total: u128) -> (r: bool)
    ensures
        r == (total > REMUX_CACHE_MAX_BYTES),
{
    total > REMUX_CACHE_MAX_BYTES as u128
}

/// The cache's size after trying to remove a file of `len` bytes: smaller by
/// `len` (never below zero) when the removal succeeded, unchanged otherwise.
pub fn after_removal(total: u128, len: u64, removed: bool) -> (r: u128)
    ensures
        r == if removed {
            if total >= len {
                total - len
            } else {
                0
            }
        } else {
            total as int
        },
{
    if !removed {
        total
    } else if total >= len as u128 {
        total - len as u128
    } else {
        0
    }
}

} // verus!
