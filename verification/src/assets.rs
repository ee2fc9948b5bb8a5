//! Subtitle files beside a local media file: which ones belong to it and in
//! which language they are.
use crate::capabilities::{after_last_slash, last_dot};
use crate::media::{AssetKind, AssetSource, MediaAsset, Media, MediaOrigin};
use crate::subtitles::subtitle_extension;
use crate::sys::{new_uuid, path_is_file};
use crate::text::{lowercase, seq_starts_with, starts_with, str_eq, string_of, to_lowercase, chars_of};
use vstd::prelude::*;

verus! {

/// An entry of a directory listing, as the file system reports it.
#[derive(Debug)]
pub struct DirEntry {
    /// The entry's full path.
    pub path: String,
    /// Its file name, when that is valid UTF-8.
    pub name: Option<String>,
    /// Its extension, when it has one that is valid UTF-8.
    pub extension: Option<String>,
    pub is_file: bool,
}

pub ghost struct EntryView {
    pub path: Seq<char>,
    pub name: Option<Seq<char>>,
    pub extension: Option<Seq<char>>,
    pub is_file: bool,
}

pub open spec fn opt_view(o: Option<String>) -> Option<Seq<char>> {
    match o {
        Some(s) => Some(s@),
        None => None,
    }
}

impl View for DirEntry {
    type V = EntryView;

    open spec fn view(&self) -> EntryView {
        EntryView {
            path: self.path@,
            name: opt_view(self.name),
            extension: opt_view(self.extension),
            is_file: self.is_file,
        }
    }
}

/// Index of the last `'.'` in `s`.
pub open spec fn last_dot_of(s: Seq<char>) -> Option<int>
    decreases s.len(),
{
    if s.len() == 0 {
        None
    } else if s.last() == '.' {
        Some(s.len() - 1)
    } else {
        last_dot_of(s.drop_last())
    }
}

/// The language part of what follows `stem.` in a sidecar's name: all before
/// its last dot, or "und" when there is no dot.
pub open spec fn sidecar_language(suffix: Seq<char>) -> Seq<char> {
    match last_dot_of(suffix) {
        Some(i) => suffix.take(i),
        None => "und"@,
    }
}

/// What an entry of the media file's directory is: not a subtitle of this
/// media (`None`), one in the given language, or an error for a subtitle
/// file whose name is not UTF-8.
pub open spec fn entry_language(e: EntryView, stem: Seq<char>) -> Result<Option<Seq<char>>, Seq<char>> {
    let ext = lowercase(
        match e.extension {
            Some(x) => x,
            None => Seq::empty(),
        },
    );
    if !e.is_file || !subtitle_extension(ext) {
        Ok(None)
    } else {
        match e.name {
            None => Err("Subtitle filename is not UTF-8"@),
            Some(n) => if starts_with(n, stem + "."@) {
                Ok(Some(sidecar_language(n.skip(stem.len() as int + 1))))
            } else {
                Ok(None)
            },
        }
    }
}

/// The subtitle files among directory entries, as (path, language), in
/// listing order; the first entry that cannot be read decides the error.
pub open spec fn sidecars(entries: Seq<EntryView>, stem: Seq<char>) -> Result<Seq<(Seq<char>, Seq<char>)>, Seq<char>>
    decreases entries.len(),
{
    if entries.len() == 0 {
        Ok(seq![])
    } else {
        match sidecars(entries.drop_last(), stem) {
            Err(m) => Err(m),
            Ok(found) => match entry_language(entries.last(), stem) {
                Err(m) => Err(m),
                Ok(None) => Ok(found),
                Ok(Some(l)) => Ok(found.push((entries.last().path, l))),
            },
        }
    }
}

pub open spec fn entry_views(entries: Seq<DirEntry>) -> Seq<EntryView> {
    entries.map_values(|e: DirEntry| e@)
}

/// The asset of `media_id` for a subtitle at `path` in `language`; its own
/// identifier is not part of this view.
pub open spec fn subtitle_asset_matches(a: MediaAsset, media_id: Seq<char>, found: (Seq<char>, Seq<char>), source: AssetSource) -> bool {
    &&& a.media_id@ == media_id
    &&& a.kind == AssetKind::Subtitle
    &&& a.path@ == found.0
    &&& opt_view(a.language) == Some(found.1)
    &&& a.source == source
}

fn language_of(suffix: &Vec<char>) -> (r: String)
    ensures
        r@ == sidecar_language(suffix@),
{
    let mut i = suffix.len();
    assert(suffix@.take(i as int) =~= suffix@);
    while i > 0
        invariant
            i <= suffix.len(),
            last_dot_of(suffix@) == last_dot_of(suffix@.take(i as int)),
        decreases i,
    {
        assert(suffix@.take(i as int).drop_last() =~= suffix@.take(i - 1));
        if suffix[i - 1] == '.' {
            let l = crate::text::slice(suffix, 0, i - 1);
            return string_of(&l);
        }
        i -= 1;
    }
    proof {
        reveal_strlit("und");
    }
    String::from_str("und")
}

fn entry_language_of(e: &DirEntry, stem: &str) -> (r: Result<Option<String>, String>)
    ensures
        match (r, entry_language(e@, stem@)) {
            (Ok(None), Ok(None)) => true,
            (Ok(Some(a)), Ok(Some(b))) => a@ == b,
            (Err(x), Err(y)) => x@ == y,
            _ => false,
        },
{
    proof {
        reveal_strlit("");
        reveal_strlit(".");
        reveal_strlit("srt");
        reveal_strlit("vtt");
        reveal_strlit("ass");
        reveal_strlit("ssa");
    }
    let ext = match &e.extension {
        Some(x) => to_lowercase(x.as_str()),
        None => {
            assert(""@ =~= Seq::<char>::empty());
            to_lowercase("")
        },
    };
    let is_subtitle = str_eq(ext.as_str(), "srt") || str_eq(ext.as_str(), "vtt") || str_eq(
        ext.as_str(),
        "ass",
    ) || str_eq(ext.as_str(), "ssa");
    assert(ext@ == lowercase(
        match e@.extension {
            Some(x) => x,
            None => Seq::empty(),
        },
    ));
    assert(is_subtitle == subtitle_extension(ext@));
    if !e.is_file || !is_subtitle {
        return Ok(None);
    }
    let name = match &e.name {
        Some(n) => n,
        None => return Err(String::from_str("Subtitle filename is not UTF-8")),
    };
    let mut prefix = String::from_str(stem);
    prefix.append(".");
    let n = chars_of(name.as_str());
    let p = chars_of(prefix.as_str());
    if !seq_starts_with(&n, &p) {
        return Ok(None);
    }
    let suffix = crate::text::slice(&n, p.len(), n.len());
    assert(suffix@ =~= n@.skip(stem@.len() as int + 1));
    Ok(Some(language_of(&suffix)))
}

/// The subtitle assets of `media_id` among the entries of its directory: each
/// subtitle file whose name starts with `stem` and a dot, in listing order,
/// with its language taken from the name. Each asset gets a fresh identifier.
pub fn subtitle_assets(media_id: &str, stem: &str, entries: &Vec<DirEntry>, source: AssetSource) -> (r: Result<Vec<MediaAsset>, String>)
    ensures
        match (r, sidecars(entry_views(entries@), stem@)) {
            (Ok(a), Ok(found)) => a@.len() == found.len() && forall|i: int|
                0 <= i < found.len() ==> subtitle_asset_matches(
                    #[trigger] a@[i],
                    media_id@,
                    found[i],
                    source,
                ),
            (Err(e), Err(m)) => e@ == m,
            _ => false,
        },
{
    let ghost v = entry_views(entries@);
    let mut out: Vec<MediaAsset> = Vec::new();
    let mut i: usize = 0;
    assert(v.take(0) =~= Seq::<EntryView>::empty());
    while i < entries.len()
        invariant
            i <= entries.len(),
            v == entry_views(entries@),
            sidecars(v.take(i as int), stem@) matches Ok(found) && out@.len() == found.len()
                && forall|k: int|
                0 <= k < found.len() ==> subtitle_asset_matches(
                    #[trigger] out@[k],
                    media_id@,
                    found[k],
                    source,
                ),
        decreases entries.len() - i,
    {
        let ghost t = v.take(i + 1);
        assert(t.drop_last() =~= v.take(i as int));
        assert(t.last() == entries@[i as int]@);
        match entry_language_of(&entries[i], stem) {
            Err(e) => {
                proof {
                    lemma_sidecars_error_stays(v, stem@, i as int + 1);
                }
                return Err(e);
            },
            Ok(None) => {},
            Ok(Some(language)) => {
                let asset = MediaAsset {
                    id: new_uuid(),
                    media_id: String::from_str(media_id),
                    kind: AssetKind::Subtitle,
                    path: entries[i].path.clone(),
                    language: Some(language),
                    source,
                };
                out.push(asset);
            },
        }
        i += 1;
    }
    assert(v.take(entries.len() as int) =~= v);
    Ok(out)
}

proof fn lemma_sidecars_error_stays(v: Seq<EntryView>, stem: Seq<char>, n: int)
    requires
        0 <= n <= v.len(),
        sidecars(v.take(n), stem) is Err,
    ensures
        sidecars(v, stem) == sidecars(v.take(n), stem),
    decreases v.len() - n,
{
    if n == v.len() {
        assert(v.take(n) =~= v);
    } else {
        let t = v.take(n + 1);
        assert(t.drop_last() =~= v.take(n));
        lemma_sidecars_error_stays(v, stem, n + 1);
    }
}

/// `p` is `dir/name` where `name` is a plain file name and `dir` ends in a
/// named component (or is empty, for a name under the root): no backslash,
/// colon or leading double slash, so no platform reads a prefix into it,
/// and no trailing `.` or `/` on `dir` that path parsing would drop.
pub open spec fn plain_split(p: Seq<char>, dir: Seq<char>, name: Seq<char>) -> bool {
    &&& p == dir + "/"@ + name
    &&& name.len() > 0
    &&& name != "."@
    &&& name != ".."@
    &&& forall|i: int| 0 <= i < name.len() ==> #[trigger] name[i] != '/' && name[i] != '\\' && name[i] != ':'
    &&& forall|i: int| 0 <= i < dir.len() ==> #[trigger] dir[i] != '\\' && dir[i] != ':'
    &&& !(dir.len() >= 2 && dir[0] == '/' && dir[1] == '/')
    &&& dir.len() > 0 ==> dir.last() != '/' && dir.last() != '.'
}

/// The file name of `p`: what follows its last `/`.
pub open spec fn plain_name(p: Seq<char>) -> Seq<char> {
    after_last_slash(p)
}

/// The directory part of `p`: what precedes its last `/`.
pub open spec fn plain_dir(p: Seq<char>) -> Seq<char> {
    p.take(p.len() - after_last_slash(p).len() - 1)
}

/// `p` is `dir/name` as [`plain_split`] describes it.
pub open spec fn plain_path(p: Seq<char>) -> bool {
    after_last_slash(p).len() < p.len() && plain_split(p, plain_dir(p), plain_name(p))
}

/// The parent of such a path: its directory part, or `/` when that is empty.
pub open spec fn plain_parent(p: Seq<char>) -> Seq<char> {
    if plain_dir(p).len() == 0 {
        "/"@
    } else {
        plain_dir(p)
    }
}

/// The stem of a file name: the name without the part from its last dot,
/// unless that dot starts the name or there is none.
pub open spec fn name_stem(name: Seq<char>) -> Seq<char> {
    match last_dot(name) {
        Some(k) if k > 0 => name.take(k),
        _ => name,
    }
}

/// `std::path::Path::new(path).parent()`, as text. For `dir/name` as
/// [`plain_split`] describes it, the documentation gives the path without
/// its final component: `dir`, or `/` when `dir` is empty. Other paths are
/// left to the platform's separator and prefix rules, and nothing is stated
/// of them.
#[verifier::external_body]
pub(crate) fn parent_of(path: &str) -> (r: Option<String>)
    ensures
        plain_path(path@) ==> match r {
            Some(d) => d@ == plain_parent(path@),
            None => false,
        },
{
    std::path::Path::new(path).parent().map(|d| d.to_string_lossy().into_owned())
}

/// `std::path::Path::new(path).file_stem()`, read with `to_str`. For
/// `dir/name` as [`plain_split`] describes it, the file name is `name` and
/// the documentation gives its stem as [`name_stem`]; text read from a
/// `&str` is always valid UTF-8. Other paths are left to the platform's
/// rules, and nothing is stated of them.
#[verifier::external_body]
fn stem_of(path: &str) -> (r: Option<Option<String>>)
    ensures
        plain_path(path@) ==> match r {
            Some(Some(s)) => s@ == name_stem(plain_name(path@)),
            _ => false,
        },
{
    std::path::Path::new(path).file_stem().map(|s| s.to_str().map(|t| t.to_string()))
}

/// `std::path::Path::new(path).file_name()`, as text. For `dir/name` as
/// [`plain_split`] describes it, the documentation gives the final
/// component, `name`. Other paths are left to the platform's separator and
/// prefix rules, and nothing is stated of them.
#[verifier::external_body]
pub(crate) fn file_name_of(path: &str) -> (r: Option<String>)
    ensures
        plain_path(path@) ==> match r {
            Some(n) => n@ == plain_name(path@),
            None => false,
        },
{
    std::path::Path::new(path).file_name().map(|n| n.to_string_lossy().into_owned())
}

/// Where the subtitles of a media item are looked for: the directory and
/// file stem of a local file, as the platform's path rules give them; a
/// remote item has none.
pub fn subtitle_directory(media: &Media) -> (r: Result<Option<(String, String)>, String>)
    ensures
        match media.origin {
            MediaOrigin::Remote { .. } => r matches Ok(None),
            MediaOrigin::Local { path } => {
                &&& (r matches Ok(Some(_)) || (r matches Err(e) && (e@
                    == "Media has no parent directory"@ || e@ == "Media filename is not UTF-8"@)))
                &&& plain_path(path@) ==> (r matches Ok(Some((d, s))) && d@ == plain_parent(path@)
                    && s@ == name_stem(plain_name(path@)))
            },
        },
{
    match &media.origin {
        MediaOrigin::Remote { .. } => Ok(None),
        MediaOrigin::Local { path } => {
            let dir = match parent_of(path.as_str()) {
                Some(d) => d,
                None => {
                    proof {
                        reveal_strlit("Media has no parent directory");
                    }
                    return Err(String::from_str("Media has no parent directory"));
                },
            };
            match stem_of(path.as_str()) {
                Some(Some(s)) => Ok(Some((dir, s))),
                _ => Err(String::from_str("Media filename is not UTF-8")),
            }
        },
    }
}

/// The subtitle assets among `assets`, in order.
pub open spec fn subtitles_of(assets: Seq<MediaAsset>) -> Seq<MediaAsset>
    decreases assets.len(),
{
    if assets.len() == 0 {
        seq![]
    } else {
        let rest = subtitles_of(assets.drop_last());
        if assets.last().kind == AssetKind::Subtitle {
            rest.push(assets.last())
        } else {
            rest
        }
    }
}

/// The subtitles of a media item, each of which must still be a file on
/// disk; the first one missing is named in the error.
pub fn get_media_subtitles(media: &Media) -> (r: Result<Vec<MediaAsset>, String>)
    ensures
        r matches Ok(v) ==> v@ == subtitles_of(media.assets@),
        r matches Err(e) ==> exists|i: int|
            0 <= i < subtitles_of(media.assets@).len() && e@ == "Subtitle file is unavailable: "@
                + (#[trigger] subtitles_of(media.assets@)[i]).path@,
{
    let ghost all = media.assets@;
    let mut subtitles: Vec<MediaAsset> = Vec::new();
    let mut i: usize = 0;
    while i < media.assets.len()
        invariant
            i <= media.assets.len(),
            all == media.assets@,
            subtitles@ == subtitles_of(all.take(i as int)),
        decreases media.assets.len() - i,
    {
        let ghost t = all.take(i + 1);
        proof {
            assert(t.drop_last() =~= all.take(i as int));
        }
        if media.assets[i].kind == AssetKind::Subtitle {
            subtitles.push(media.assets[i].clone());
        }
        i += 1;
    }
    assert(all.take(media.assets.len() as int) =~= all);
    let mut k: usize = 0;
    while k < subtitles.len()
        invariant
            k <= subtitles.len(),
            subtitles@ == subtitles_of(media.assets@),
        decreases subtitles.len() - k,
    {
        if !path_is_file(subtitles[k].path.as_str()) {
            let mut e = String::from_str("Subtitle file is unavailable: ");
            e.append(subtitles[k].path.as_str());
            proof {
                reveal_strlit("Subtitle file is unavailable: ");
            }
            return Err(e);
        }
        k += 1;
    }
    Ok(subtitles)
}

} // verus!
