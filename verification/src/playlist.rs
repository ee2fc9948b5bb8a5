//! The playlist: its entries, how the player moves between them, and the
//! rows the list shows.
use crate::media::{Media, MediaOrigin, MediaType};
use crate::sys::random_u128;
use crate::text::str_eq;
use vstd::prelude::*;

verus! {

/// A member of the playlist: one media item at one position.
#[derive(Debug)]
pub struct PlaylistEntry {
    pub id: String,
    pub media_id: String,
    pub added_at: u64,
}

#[derive(Clone, Copy, Debug, PartialEq, Eq, Structural)]
pub enum DownloadStatus {
    NotDownloaded,
    Downloaded,
}

/// A row of the playlist as shown; never accepted as a write command.
#[derive(Debug)]
pub struct PlaylistItemView {
    pub id: String,
    pub media_id: String,
    pub canonical_key: String,
    pub title: String,
    pub media_type: MediaType,
    pub origin: MediaOrigin,
    pub cached_path: Option<String>,
    pub download_status: DownloadStatus,
    pub added_at: u64,
}

impl PlaylistItemView {
    /// The row of `entry`, whose media is `media`; `local_file_present` tells
    /// whether the media's local path names an existing file.
    pub fn new(entry: PlaylistEntry, media: Media, local_file_present: bool) -> (r: Self)
        ensures
            r.id == entry.id,
            r.media_id == media.id,
            r.canonical_key == media.canonical_key,
            r.title == media.title,
            r.media_type == media.media_type,
            r.origin == media.origin,
            r.cached_path == media.cached_path_spec(),
            r.download_status == (if media.local_path_spec() is Some && local_file_present {
                DownloadStatus::Downloaded
            } else {
                DownloadStatus::NotDownloaded
            }),
            r.added_at == entry.added_at,
    {
        let cached_path = match media.cached_path() {
            Some(p) => Some(p.clone()),
            None => None,
        };
        let status = if media.local_path().is_some() && local_file_present {
            DownloadStatus::Downloaded
        } else {
            DownloadStatus::NotDownloaded
        };
        PlaylistItemView {
            id: entry.id,
            media_id: media.id,
            canonical_key: media.canonical_key,
            title: media.title,
            media_type: media.media_type,
            origin: media.origin,
            cached_path,
            download_status: status,
            added_at: entry.added_at,
        }
    }
}

/// The refusal of a write whose playlist revision is no longer the stored one.
pub open spec fn playlist_changed() -> Seq<char> {
    "Playlist changed in another process; restart to reload it"@
}

/// A write made from revision `expected` may go on only while `stored` is
/// still that revision.
pub fn check_revision(stored: u64, expected: u64) -> (r: Result<(), String>)
    ensures
        r is Ok <==> stored == expected,
        r matches Err(e) ==> e@ == playlist_changed(),
{
    if stored != expected {
        proof {
            reveal_strlit("Playlist changed in another process; restart to reload it");
        }
        return Err(String::from_str("Playlist changed in another process; restart to reload it"));
    }
    Ok(())
}

/// The stored revision after a write made from revision `expected`.
pub open spec fn advance_revision_spec(stored: u64, expected: u64) -> Result<u64, Seq<char>> {
    if expected == u64::MAX {
        Err("Playlist revision overflow"@)
    } else if stored != expected {
        Err(playlist_changed())
    } else {
        Ok((expected + 1) as u64)
    }
}

/// Commits a write made from revision `expected` over the stored revision;
/// see [`advance_revision_spec`].
pub fn advance_revision(stored: u64, expected: u64) -> (r: Result<u64, String>)
    ensures
        match (r, advance_revision_spec(stored, expected)) {
            (Ok(n), Ok(m)) => n == m,
            (Err(e), Err(m)) => e@ == m,
            _ => false,
        },
{
    if expected == u64::MAX {
        proof {
            reveal_strlit("Playlist revision overflow");
        }
        return Err(String::from_str("Playlist revision overflow"));
    }
    match check_revision(stored, expected) {
        Err(e) => Err(e),
        Ok(()) => Ok(expected + 1),
    }
}

/// The playlist as shown, with the number of the snapshot.
#[derive(Debug)]
pub struct PlaylistSnapshot {
    pub revision: u64,
    pub items: Vec<PlaylistItemView>,
}

/// Position of the first entry with identifier `id`.
pub open spec fn position_of(ids: Seq<Seq<char>>, id: Seq<char>) -> Option<int>
    decreases ids.len(),
{
    if ids.len() == 0 {
        None
    } else if ids[0] == id {
        Some(0)
    } else {
        match position_of(ids.drop_first(), id) {
            Some(i) => Some(i + 1),
            None => None,
        }
    }
}

/// `position_of` finds the first entry with the identifier.
pub proof fn lemma_position_of(ids: Seq<Seq<char>>, id: Seq<char>)
    ensures
        match position_of(ids, id) {
            Some(i) => 0 <= i < ids.len() && ids[i] == id && forall|j: int|
                0 <= j < i ==> ids[j] != id,
            None => forall|j: int| 0 <= j < ids.len() ==> ids[j] != id,
        },
    decreases ids.len(),
{
    if ids.len() > 0 && ids[0] != id {
        let t = ids.drop_first();
        lemma_position_of(t, id);
        assert(forall|j: int| 0 <= j < t.len() ==> t[j] == ids[j + 1]);
        match position_of(t, id) {
            Some(i) => {
                assert forall|j: int| 0 <= j < i + 1 implies ids[j] != id by {
                    if j > 0 {
                        assert(ids[j] == t[j - 1]);
                    }
                }
            },
            None => {
                assert forall|j: int| 0 <= j < ids.len() implies ids[j] != id by {
                    if j > 0 {
                        assert(ids[j] == t[j - 1]);
                    }
                }
            },
        }
    }
}

pub open spec fn entry_ids(entries: Seq<PlaylistEntry>) -> Seq<Seq<char>> {
    entries.map_values(|e: PlaylistEntry| e.id@)
}

/// The index of the entry that follows the entry at `index` (or, with no
/// current entry, the first or last one) in play mode `mode`; `random`
/// chooses the entry of the random mode.
pub open spec fn next_index(
    len: int,
    index: Option<int>,
    mode: Seq<char>,
    backwards: bool,
    random: u128,
) -> Option<int> {
    if len <= 0 {
        None
    } else {
        match index {
            None => Some(if backwards { len - 1 } else { 0 }),
            Some(i) => if mode == "repeat_one"@ {
                Some(i)
            } else if mode == "random"@ && len > 1 {
                Some((i + (random % ((len - 1) as u128)) as int + 1) % len)
            } else if mode == "random"@ {
                Some(i)
            } else if mode == "repeat_all"@ {
                Some((i + if backwards { len - 1 } else { 1 }) % len)
            } else if backwards {
                if i == 0 {
                    None
                } else {
                    Some(i - 1)
                }
            } else if i + 1 < len {
                Some(i + 1)
            } else {
                None
            },
        }
    }
}

/// Where the current entry stands, if it is in the list.
pub open spec fn current_index(entries: Seq<PlaylistEntry>, current: Option<&str>) -> Option<int> {
    match current {
        Some(id) => position_of(entry_ids(entries), id@),
        None => None,
    }
}

fn find_entry(entries: &[PlaylistEntry], id: &str) -> (r: Option<usize>)
    ensures
        match (r, position_of(entry_ids(entries@), id@)) {
            (Some(i), Some(j)) => i as int == j,
            (None, None) => true,
            _ => false,
        },
{
    let ghost ids = entry_ids(entries@);
    let mut i: usize = 0;
    while i < entries.len()
        invariant
            ids == entry_ids(entries@),
            i <= entries@.len(),
            forall|j: int| 0 <= j < i ==> ids[j] != id@,
        decreases entries@.len() - i,
    {
        if str_eq(entries[i].id.as_str(), id) {
            proof {
                lemma_position_of(ids, id@);
                assert(ids[i as int] == id@);
                match position_of(ids, id@) {
                    Some(k) => {
                        if k > i {
                            assert(ids[i as int] != id@);
                        }
                    },
                    None => {},
                }
            }
            return Some(i);
        }
        i += 1;
    }
    proof {
        lemma_position_of(ids, id@);
    }
    None
}

/// The entry that follows `current` in play mode `mode`, with the random
/// choice given by `random`.
pub fn adjacent_entry_with(
    entries: &[PlaylistEntry],
    current: Option<&str>,
    mode: &str,
    backwards: bool,
    random: u128,
) -> (r: Option<String>)
    ensures
        match next_index(
            entries@.len() as int,
            current_index(entries@, current),
            mode@,
            backwards,
            random,
        ) {
            Some(k) => 0 <= k < entries@.len() && (r matches Some(id) && id == entries@[k].id),
            None => r is None,
        },
{
    proof {
        reveal_strlit("repeat_one");
        reveal_strlit("random");
        reveal_strlit("repeat_all");
    }
    let len = entries.len();
    if len == 0 {
        return None;
    }
    let index = match current {
        Some(id) => find_entry(entries, id),
        None => None,
    };
    proof {
        if let Some(id) = current {
            lemma_position_of(entry_ids(entries@), id@);
        }
    }
    let next: usize = match index {
        None => if backwards {
            len - 1
        } else {
            0
        },
        Some(i) => {
            if str_eq(mode, "repeat_one") {
                i
            } else if str_eq(mode, "random") && len > 1 {
                let offset = (random % ((len - 1) as u128)) as usize + 1;
                assert(offset <= len - 1);
                ((i as u128 + offset as u128) % (len as u128)) as usize
            } else if str_eq(mode, "random") {
                i
            } else if str_eq(mode, "repeat_all") {
                let step = if backwards {
                    len - 1
                } else {
                    1
                };
                ((i as u128 + step as u128) % (len as u128)) as usize
            } else if backwards {
                if i == 0 {
                    return None;
                }
                i - 1
            } else if i + 1 < len {
                i + 1
            } else {
                return None;
            }
        },
    };
    Some(entries[next].id.clone())
}

/// The entry that follows `current` in play mode `mode`; the random mode
/// draws a fresh random number.
pub fn adjacent_entry(entries: &[PlaylistEntry], current: Option<&str>, mode: &str, backwards: bool) -> (r:
    Option<String>)
    ensures
        exists|random: u128|
            #![trigger next_index(entries@.len() as int, current_index(entries@, current), mode@, backwards, random)]
            match next_index(
                entries@.len() as int,
                current_index(entries@, current),
                mode@,
                backwards,
                random,
            ) {
                Some(k) => 0 <= k < entries@.len() && (r matches Some(id) && id == entries@[k].id),
                None => r is None,
            },
{
    let random = random_u128();
    adjacent_entry_with(entries, current, mode, backwards, random)
}

} // verus!
