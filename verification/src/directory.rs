//! The download directory that the playlist mirrors, and which paths lie
//! inside it.
use crate::media::Media;
use crate::settings::AppSettings;
use crate::sys::windows_host;
use crate::text::{chars_of, lowercase, push_chars, starts_with, string_of, to_lowercase};
use vstd::prelude::*;

verus! {

/// The current download directory and the number of its last change.
#[derive(Debug)]
pub struct DirectorySnapshot {
    pub path: String,
    pub revision: u64,
}

/// The media files found under a directory.
#[derive(Debug)]
pub struct DirectoryScan {
    pub path: String,
    pub media: Vec<Media>,
}

/// The outcome of changing or refreshing the directory.
#[derive(Debug)]
pub struct DirectoryUpdate {
    pub settings: AppSettings,
    pub playback_error: Option<String>,
}

/// A path with a Windows verbatim-disk prefix removed where that is safe
/// (`dunce::simplified`): the path itself, or it without its leading `\\?\`.
/// Other platforms never strip.
#[verifier::external_body]
pub(crate) fn simplified_path(path: &str) -> (r: String)
    ensures
        r@ == path@ || (starts_with(path@, "\\\\?\\"@) && r@ == path@.skip(4)),
{
    dunce::simplified(std::path::Path::new(path)).to_string_lossy().into_owned()
}

/// Forward slashes for backslashes.
pub open spec fn slashes(s: Seq<char>) -> Seq<char> {
    s.map_values(|c: char| if c == '\\' { '/' } else { c })
}

/// The form in which two paths are compared: forward slashes, and on
/// Windows lower case.
pub open spec fn key_of(text: Seq<char>, windows: bool) -> Seq<char> {
    if windows {
        lowercase(slashes(text))
    } else {
        slashes(text)
    }
}

/// `s` without trailing slashes.
pub open spec fn trim_slashes(s: Seq<char>) -> Seq<char>
    decreases s.len(),
{
    if s.len() > 0 && s.last() == '/' {
        trim_slashes(s.drop_last())
    } else {
        s
    }
}

/// A path key lies strictly below a directory key.
pub open spec fn below(root_key: Seq<char>, key: Seq<char>) -> bool {
    starts_with(key, trim_slashes(root_key).push('/'))
}

/// The comparison key of an already simplified path.
pub fn path_key_of(text: &str, windows: bool) -> (r: String)
    ensures
        r@ == key_of(text@, windows),
{
    let c = chars_of(text);
    let mut out: Vec<char> = Vec::new();
    let mut i: usize = 0;
    while i < c.len()
        invariant
            i <= c.len(),
            out@ == slashes(c@.take(i as int)),
        decreases c.len() - i,
    {
        out.push(if c[i] == '\\' {
            '/'
        } else {
            c[i]
        });
        i += 1;
        assert(out@ =~= slashes(c@.take(i as int)));
    }
    assert(c@.take(c.len() as int) =~= c@);
    let s = string_of(&out);
    if windows {
        to_lowercase(s.as_str())
    } else {
        s
    }
}

/// Whether the key `key` lies strictly below the directory key `root_key`.
pub fn key_below(root_key: &str, key: &str) -> (r: bool)
    ensures
        r == below(root_key@, key@),
{
    let mut root = chars_of(root_key);
    let ghost r0 = root@;
    while root.len() > 0 && root[root.len() - 1] == '/'
        invariant
            trim_slashes(root@) == trim_slashes(r0),
        decreases root.len(),
    {
        assert(root@.drop_last() == root@.take(root.len() - 1));
        root.pop();
    }
    root.push('/');
    let k = chars_of(key);
    crate::text::seq_starts_with(&k, &root)
}

/// Whether `path` lies strictly below `root`; both must already be canonical
/// paths or generated descendants of one. Paths compare after the host's
/// simplification, with forward slashes, and without case on Windows.
pub fn contains_path(root: &str, path: &str) -> (r: Result<bool, String>)
    ensures
        r matches Ok(b) && exists|windows: bool, sr: Seq<char>, sp: Seq<char>|
            {
                &&& (sr == root@ || (starts_with(root@, "\\\\?\\"@) && sr == root@.skip(4)))
                &&& (sp == path@ || (starts_with(path@, "\\\\?\\"@) && sp == path@.skip(4)))
                &&& b == below(key_of(sr, windows), key_of(sp, windows))
            },
{
    let windows = windows_host();
    let sr = simplified_path(root);
    let sp = simplified_path(path);
    let kr = path_key_of(sr.as_str(), windows);
    let kp = path_key_of(sp.as_str(), windows);
    let b = key_below(kr.as_str(), kp.as_str());
    assert(b == below(key_of(sr@, windows), key_of(sp@, windows)));
    Ok(b)
}

/// Whether `c` separates path components: `'/'` everywhere, `'\\'` on Windows.
pub open spec fn is_separator(c: char, windows: bool) -> bool {
    c == '/' || (windows && c == '\\')
}

/// A file name placed in a directory: the directory, a separator unless it
/// already ends with one, and the name; an empty directory adds nothing. A
/// Unix name that starts at the root replaces the directory. (Windows
/// names are placed as they are: callers give plain names there.)
pub open spec fn joined(dir: Seq<char>, file: Seq<char>, windows: bool) -> Seq<char> {
    if !windows && file.len() > 0 && file[0] == '/' {
        file
    } else if dir.len() == 0 {
        file
    } else if is_separator(dir.last(), windows) {
        dir + file
    } else {
        dir.push(if windows { '\\' } else { '/' }) + file
    }
}

/// `file` placed in directory `dir`.
pub fn join_path(dir: &str, file: &str, windows: bool) -> (r: String)
    ensures
        r@ == joined(dir@, file@, windows),
{
    let f = chars_of(file);
    if !windows && f.len() > 0 && f[0] == '/' {
        return String::from_str(file);
    }
    let d = chars_of(dir);
    if d.len() == 0 {
        return String::from_str(file);
    }
    let last = d[d.len() - 1];
    let mut r = String::from_str(dir);
    if !(last == '/' || (windows && last == '\\')) {
        if windows {
            r.append("\\");
            proof {
                reveal_strlit("\\");
            }
        } else {
            r.append("/");
            proof {
                reveal_strlit("/");
            }
        }
    }
    r.append(file);
    assert(d@.last() == dir@.last());
    r
}

/// What a directory scan does with one entry it meets.
#[derive(Clone, Copy, Debug, PartialEq, Eq, Structural)]
pub enum ScanStep {
    Skip,
    /// Scan the directory too.
    Descend,
    /// A media file of the playlist.
    Collect,
}

/// The names at the top of the download directory that hold the
/// application's own unpublished files.
pub open spec fn reserved_entry(name: Option<Seq<char>>) -> bool {
    name == Some("downloading"@) || name == Some("remux"@)
}

/// An entry passed over before its path is resolved: the application's own
/// areas at the top level, and links.
pub open spec fn passed_over(at_root: bool, name: Option<Seq<char>>, is_symlink: bool) -> bool {
    (at_root && reserved_entry(name)) || is_symlink
}

/// Whether an entry is passed over before its path is resolved; see
/// [`passed_over`].
pub fn scan_entry_skipped(at_root: bool, name: Option<&str>, is_symlink: bool) -> (r: bool)
    ensures
        r == passed_over(
            at_root,
            match name {
                Some(n) => Some(n@),
                None => None,
            },
            is_symlink,
        ),
{
    proof {
        reveal_strlit("downloading");
        reveal_strlit("remux");
    }
    let reserved = match name {
        Some(n) => crate::text::str_eq(n, "downloading") || crate::text::str_eq(n, "remux"),
        None => false,
    };
    (at_root && reserved) || is_symlink
}

/// The step for an entry of a scanned directory: the application's own
/// areas at the top level, links and whatever resolves outside the download
/// directory are skipped; directories are scanned and media files collected.
pub open spec fn scan_step_spec(
    at_root: bool,
    name: Option<Seq<char>>,
    is_symlink: bool,
    inside: bool,
    is_dir: bool,
    is_file: bool,
    extension: Option<Seq<char>>,
) -> ScanStep {
    if passed_over(at_root, name, is_symlink) || !inside {
        ScanStep::Skip
    } else if is_dir {
        ScanStep::Descend
    } else if is_file && crate::capabilities::supported_ext(
        match extension {
            Some(e) => Some(lowercase(e)),
            None => None,
        },
    ) {
        ScanStep::Collect
    } else {
        ScanStep::Skip
    }
}

/// The step for one entry; `name` is its file name when that is UTF-8,
/// `inside` whether its canonical path lies in the download directory, and
/// `extension` the extension of that canonical path.
pub fn scan_step(
    at_root: bool,
    name: Option<&str>,
    is_symlink: bool,
    inside: bool,
    is_dir: bool,
    is_file: bool,
    extension: Option<&str>,
) -> (r: ScanStep)
    ensures
        r == scan_step_spec(
            at_root,
            match name {
                Some(n) => Some(n@),
                None => None,
            },
            is_symlink,
            inside,
            is_dir,
            is_file,
            match extension {
                Some(e) => Some(e@),
                None => None,
            },
        ),
{
    if scan_entry_skipped(at_root, name, is_symlink) || !inside {
        return ScanStep::Skip;
    }
    if is_dir {
        return ScanStep::Descend;
    }
    let lower = match extension {
        Some(e) => Some(to_lowercase(e)),
        None => None,
    };
    let ext = match &lower {
        Some(e) => Some(e.as_str()),
        None => None,
    };
    if is_file && (crate::capabilities::is_audio_extension(ext)
        || crate::capabilities::is_browser_video_extension(ext)
        || crate::capabilities::is_external_video_extension(ext)) {
        ScanStep::Collect
    } else {
        ScanStep::Skip
    }
}

/// A playlist entry as stored: its identity, its media, its place and when
/// it was first added.
#[derive(Debug)]
pub struct PlaylistRow {
    pub id: String,
    pub media_id: String,
    pub position: usize,
    pub added_at: u64,
}

/// An entry of the playlist before a rebuild.
#[derive(Debug)]
pub struct OldEntry {
    pub media_id: String,
    pub entry_id: String,
    pub added_at: u64,
}

/// The media identifiers in order, each kept at its first occurrence only.
pub open spec fn first_occurrences(ids: Seq<Seq<char>>) -> Seq<Seq<char>>
    decreases ids.len(),
{
    if ids.len() == 0 {
        seq![]
    } else {
        let d = first_occurrences(ids.drop_last());
        if d.contains(ids.last()) {
            d
        } else {
            d.push(ids.last())
        }
    }
}

pub open spec fn old_views(old: Seq<OldEntry>) -> Seq<(Seq<char>, Seq<char>, u64)> {
    old.map_values(|e: OldEntry| (e.media_id@, e.entry_id@, e.added_at))
}

/// The previous entry of a media item; of several, the last one listed wins.
pub open spec fn previous_entry(old: Seq<(Seq<char>, Seq<char>, u64)>, media_id: Seq<char>) -> Option<(Seq<char>, u64)>
    decreases old.len(),
{
    if old.len() == 0 {
        None
    } else if old.last().0 == media_id {
        Some((old.last().1, old.last().2))
    } else {
        previous_entry(old.drop_last(), media_id)
    }
}

/// The rebuilt row at `position` for `media_id`: it keeps the identity and
/// time of the media's previous entry, or is new as of `now`.
pub open spec fn row_matches(row: PlaylistRow, media_id: Seq<char>, position: int, old: Seq<(Seq<char>, Seq<char>, u64)>, now: u64) -> bool {
    &&& row.media_id@ == media_id
    &&& row.position == position
    &&& match previous_entry(old, media_id) {
        Some((id, added_at)) => row.id@ == id && row.added_at == added_at,
        None => row.added_at == now,
    }
}

fn vec_has(v: &Vec<String>, s: &String) -> (r: bool)
    ensures
        r == v@.map_values(|x: String| x@).contains(s@),
{
    let ghost w = v@.map_values(|x: String| x@);
    let mut i: usize = 0;
    while i < v.len()
        invariant
            i <= v.len(),
            w == v@.map_values(|x: String| x@),
            forall|j: int| 0 <= j < i ==> w[j] != s@,
        decreases v.len() - i,
    {
        if crate::text::str_eq(v[i].as_str(), s.as_str()) {
            assert(w[i as int] == s@);
            return true;
        }
        i += 1;
    }
    false
}

fn previous_of(old: &Vec<OldEntry>, media_id: &String) -> (r: Option<(String, u64)>)
    ensures
        match (r, previous_entry(old_views(old@), media_id@)) {
            (Some((a, t)), Some((b, u))) => a@ == b && t == u,
            (None, None) => true,
            _ => false,
        },
{
    let ghost w = old_views(old@);
    let mut i = old.len();
    assert(w.take(i as int) =~= w);
    while i > 0
        invariant
            i <= old.len(),
            w == old_views(old@),
            previous_entry(w, media_id@) == previous_entry(w.take(i as int), media_id@),
        decreases i,
    {
        assert(w.take(i as int).drop_last() =~= w.take(i - 1));
        if crate::text::str_eq(old[i - 1].media_id.as_str(), media_id.as_str()) {
            return Some((old[i - 1].entry_id.clone(), old[i - 1].added_at));
        }
        i -= 1;
    }
    None
}

/// The playlist after a directory rebuild: each selected media item once,
/// at its first place, keeping the identity and time of its previous entry;
/// an item that had none gets a fresh identifier and the time `now`.
pub fn rebuild_playlist(selected: &Vec<String>, old: &Vec<OldEntry>, now: u64) -> (r: Vec<PlaylistRow>)
    ensures
        r@.len() == first_occurrences(selected@.map_values(|x: String| x@)).len(),
        forall|i: int|
            0 <= i < r@.len() ==> row_matches(
                #[trigger] r@[i],
                first_occurrences(selected@.map_values(|x: String| x@))[i],
                i,
                old_views(old@),
                now,
            ),
{
    let ghost ids = selected@.map_values(|x: String| x@);
    let mut kept: Vec<String> = Vec::new();
    let mut i: usize = 0;
    while i < selected.len()
        invariant
            i <= selected.len(),
            ids == selected@.map_values(|x: String| x@),
            kept@.map_values(|x: String| x@) == first_occurrences(ids.take(i as int)),
        decreases selected.len() - i,
    {
        proof {
            let t = ids.take(i + 1);
            assert(t.drop_last() =~= ids.take(i as int));
        }
        if !vec_has(&kept, &selected[i]) {
            kept.push(selected[i].clone());
            assert(kept@.map_values(|x: String| x@) =~= first_occurrences(ids.take(i + 1)));
        }
        i += 1;
    }
    assert(ids.take(selected.len() as int) =~= ids);
    let ghost d = kept@.map_values(|x: String| x@);
    let mut rows: Vec<PlaylistRow> = Vec::new();
    let mut k: usize = 0;
    while k < kept.len()
        invariant
            k <= kept.len(),
            d == kept@.map_values(|x: String| x@),
            rows@.len() == k,
            forall|j: int| 0 <= j < k ==> row_matches(#[trigger] rows@[j], d[j], j, old_views(old@), now),
        decreases kept.len() - k,
    {
        let row = match previous_of(old, &kept[k]) {
            Some((id, added_at)) => PlaylistRow {
                id,
                media_id: kept[k].clone(),
                position: k,
                added_at,
            },
            None => PlaylistRow {
                id: crate::sys::new_uuid(),
                media_id: kept[k].clone(),
                position: k,
                added_at: now,
            },
        };
        rows.push(row);
        k += 1;
    }
    rows
}

/// How a rebuild may commit the directory: with new settings, their
/// directory must be the scanned one and the directory's revision moves on;
/// a plain refresh must scan the current directory.
pub fn directory_commit(scan_path: &str, expected: &DirectorySnapshot, settings_directory: Option<&str>) -> (r: Result<Option<u64>, String>)
    ensures
        match settings_directory {
            Some(d) => if d@ != scan_path@ {
                r matches Err(e) && e@ == "目录与设置不一致"@
            } else if expected.revision == u64::MAX {
                r matches Err(e) && e@ == "Directory revision overflow"@
            } else {
                r == Ok::<Option<u64>, String>(Some((expected.revision + 1) as u64))
            },
            None => if scan_path@ != expected.path@ {
                r matches Err(e) && e@ == "刷新目录与当前设置不一致"@
            } else {
                r == Ok::<Option<u64>, String>(None)
            },
        },
{
    match settings_directory {
        Some(d) => {
            if !crate::text::str_eq(d, scan_path) {
                return Err(String::from_str("目录与设置不一致"));
            }
            if expected.revision == u64::MAX {
                return Err(String::from_str("Directory revision overflow"));
            }
            Ok(Some(expected.revision + 1))
        },
        None => {
            if !crate::text::str_eq(scan_path, expected.path.as_str()) {
                return Err(String::from_str("刷新目录与当前设置不一致"));
            }
            Ok(None)
        },
    }
}

/// The error of a directory change whose commit failed: when running
/// downloads were stopped for the change, it says that the directory and the
/// list stayed as they were and that those downloads were interrupted.
pub fn directory_failure(error: String, interrupted_downloads: bool) -> (r: String)
    ensures
        interrupted_downloads ==> r@ == error@ + "；目录和列表未更改，进行中的下载已中断"@,
        !interrupted_downloads ==> r@ == error@,
{
    if interrupted_downloads {
        let mut message = error;
        message.append("；目录和列表未更改，进行中的下载已中断");
        message
    } else {
        error
    }
}

/// The subtitles of a scanned file that belongs to an existing download:
/// they become that download's, found by the downloader.
pub fn rebind_subtitles(assets: &Vec<crate::media::MediaAsset>, owner_id: &str) -> (r: Vec<crate::media::MediaAsset>)
    ensures
        r@.len() == assets@.len(),
        forall|i: int|
            0 <= i < r@.len() ==> {
                &&& (#[trigger] r@[i]).id == assets@[i].id
                &&& r@[i].media_id@ == owner_id@
                &&& r@[i].kind == assets@[i].kind
                &&& r@[i].path == assets@[i].path
                &&& r@[i].language == assets@[i].language
                &&& r@[i].source == crate::media::AssetSource::Download
            },
{
    let mut out: Vec<crate::media::MediaAsset> = Vec::new();
    let mut i: usize = 0;
    while i < assets.len()
        invariant
            i <= assets.len(),
            out@.len() == i,
            forall|j: int|
                0 <= j < i ==> {
                    &&& (#[trigger] out@[j]).id == assets@[j].id
                    &&& out@[j].media_id@ == owner_id@
                    &&& out@[j].kind == assets@[j].kind
                    &&& out@[j].path == assets@[j].path
                    &&& out@[j].language == assets@[j].language
                    &&& out@[j].source == crate::media::AssetSource::Download
                },
        decreases assets.len() - i,
    {
        let a = assets[i].clone();
        out.push(crate::media::MediaAsset {
            id: a.id,
            media_id: String::from_str(owner_id),
            kind: a.kind,
            path: a.path,
            language: a.language,
            source: crate::media::AssetSource::Download,
        });
        i += 1;
    }
    out
}

} // verus!
