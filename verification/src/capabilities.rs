//! Which file extensions the player handles, and how.
use crate::media::MediaType;
use crate::text::{lowercase, to_lowercase};
use vstd::prelude::*;

verus! {

pub open spec fn audio_extensions() -> Seq<Seq<char>> {
    seq!["mp3"@, "wav"@, "ogg"@, "flac"@, "m4a"@, "aac"@, "opus"@]
}

pub open spec fn browser_video_extensions() -> Seq<Seq<char>> {
    seq!["mp4"@, "m4v"@, "webm"@]
}

pub open spec fn external_video_extensions() -> Seq<Seq<char>> {
    seq!["mkv"@, "avi"@, "mov"@, "flv"@, "wmv"@, "ts"@, "m2ts"@, "mpg"@, "mpeg"@, "3gp"@]
}

/// `p` without its trailing slashes.
pub open spec fn without_trailing_slashes(p: Seq<char>) -> Seq<char>
    decreases p.len(),
{
    if p.len() > 0 && p.last() == '/' {
        without_trailing_slashes(p.drop_last())
    } else {
        p
    }
}

/// The part of `p` after its last slash.
pub open spec fn after_last_slash(p: Seq<char>) -> Seq<char>
    decreases p.len(),
{
    if p.len() == 0 {
        p
    } else if p.last() == '/' {
        seq![]
    } else {
        after_last_slash(p.drop_last()).push(p.last())
    }
}

/// The last component of a slash-separated path.
pub open spec fn last_component(p: Seq<char>) -> Seq<char> {
    after_last_slash(without_trailing_slashes(p))
}

/// A path that every platform splits at its slashes alike: no backslash, no
/// drive or stream colon, no leading double slash, and a last component that
/// is a file name rather than `.` or `..`.
pub open spec fn portable_path(p: Seq<char>) -> bool {
    &&& forall|i: int| 0 <= i < p.len() ==> #[trigger] p[i] != '\\' && p[i] != ':'
    &&& !(p.len() >= 2 && p[0] == '/' && p[1] == '/')
    &&& last_component(p).len() > 0
    &&& last_component(p) != "."@
    &&& last_component(p) != ".."@
}

/// Index of the last `'.'` of `p`, if any.
pub open spec fn last_dot(p: Seq<char>) -> Option<int>
    decreases p.len(),
{
    if p.len() == 0 {
        None
    } else if p.last() == '.' {
        Some(p.len() - 1)
    } else {
        last_dot(p.drop_last())
    }
}

/// The extension of a plain file name: the text after its last dot, unless
/// that dot starts the name.
pub open spec fn name_extension(p: Seq<char>) -> Option<Seq<char>> {
    match last_dot(p) {
        Some(k) if k > 0 => Some(p.skip(k + 1)),
        _ => None,
    }
}

/// Whether `c` separates path components on some platform.
pub open spec fn any_separator(c: char) -> bool {
    c == '/' || c == '\\'
}

/// The part of `p` after its last `/` or `\`.
pub open spec fn after_last_separator(p: Seq<char>) -> Seq<char>
    decreases p.len(),
{
    if p.len() == 0 {
        p
    } else if any_separator(p.last()) {
        seq![]
    } else {
        after_last_separator(p.drop_last()).push(p.last())
    }
}

/// A path whose file name, and so its extension, reads the same under Unix
/// and Windows rules: it does not end with a separator or start with two
/// (no network or device prefix); its name after the last `/` or `\` has no
/// colon (no drive prefix) and is not `.` or `..`; and the name after its
/// last `/` has the same extension. Windows paths such as `C:\Music\a.mp3`
/// are of this kind.
pub open spec fn same_on_every_platform(p: Seq<char>) -> bool {
    let n = after_last_separator(p);
    &&& p.len() > 0
    &&& !any_separator(p.last())
    &&& !(p.len() >= 2 && any_separator(p[0]) && any_separator(p[1]))
    &&& forall|i: int| 0 <= i < n.len() ==> #[trigger] n[i] != ':'
    &&& n != "."@
    &&& n != ".."@
    &&& name_extension(after_last_slash(p)) == name_extension(n)
}

/// The extension of such a path: the text after the last dot of its name,
/// unless that dot starts the name.
pub open spec fn file_extension(p: Seq<char>) -> Option<Seq<char>> {
    name_extension(after_last_separator(p))
}

/// `Path::new(path).extension()` as text. For a portable path (see
/// `portable_path`) this is the `name_extension` of its last component, and
/// for a path that reads the same on every platform (see
/// `same_on_every_platform`) that of its name after the last `/` or `\`;
/// for other paths the platform's separator rules decide, and nothing is
/// stated.
#[verifier::external_body]
pub(crate) fn path_extension(path: &str) -> (r: Option<String>)
    ensures
        portable_path(path@) ==> match (r, name_extension(last_component(path@))) {
            (Some(e), Some(x)) => e@ == x,
            (None, None) => true,
            _ => false,
        },
        same_on_every_platform(path@) ==> match (r, file_extension(path@)) {
            (Some(e), Some(x)) => e@ == x,
            (None, None) => true,
            _ => false,
        },
{
    std::path::Path::new(path).extension().map(|ext| ext.to_string_lossy().into_owned())
}

pub open spec fn in_list(e: Seq<char>, list: Seq<Seq<char>>) -> bool {
    exists|i: int| 0 <= i < list.len() && list[i] == e
}

pub open spec fn audio_ext(e: Option<Seq<char>>) -> bool {
    e matches Some(x) && in_list(x, audio_extensions())
}

pub open spec fn browser_video_ext(e: Option<Seq<char>>) -> bool {
    e matches Some(x) && in_list(x, browser_video_extensions())
}

pub open spec fn external_video_ext(e: Option<Seq<char>>) -> bool {
    e matches Some(x) && in_list(x, external_video_extensions())
}

pub open spec fn video_ext(e: Option<Seq<char>>) -> bool {
    browser_video_ext(e) || external_video_ext(e)
}

pub open spec fn supported_ext(e: Option<Seq<char>>) -> bool {
    audio_ext(e) || video_ext(e)
}

/// The lower-cased extension of a portable path.
pub open spec fn lower_extension(p: Seq<char>) -> Option<Seq<char>> {
    match name_extension(last_component(p)) {
        Some(e) => Some(lowercase(e)),
        None => None,
    }
}

/// The lower-cased extension of a path that reads the same on every
/// platform.
pub open spec fn lower_file_extension(p: Seq<char>) -> Option<Seq<char>> {
    match file_extension(p) {
        Some(e) => Some(lowercase(e)),
        None => None,
    }
}

pub open spec fn opt_string_view(o: Option<String>) -> Option<Seq<char>> {
    match o {
        Some(s) => Some(s@),
        None => None,
    }
}

fn list_contains(e: &str, list: &[&str]) -> (r: bool)
    ensures
        r == exists|i: int| 0 <= i < list@.len() && list@[i]@ == e@,
{
    let mut i: usize = 0;
    while i < list.len()
        invariant
            i <= list@.len(),
            forall|j: int| 0 <= j < i ==> list@[j]@ != e@,
        decreases list@.len() - i,
    {
        if crate::text::str_eq(list[i], e) {
            return true;
        }
        i += 1;
    }
    false
}

/// Whether a lower-cased extension names an audio format.
pub fn is_audio_extension(ext: Option<&str>) -> (r: bool)
    ensures
        r == (ext matches Some(e) && in_list(e@, audio_extensions())),
{
    proof {
        reveal_strlit("mp3");
        reveal_strlit("wav");
        reveal_strlit("ogg");
        reveal_strlit("flac");
        reveal_strlit("m4a");
        reveal_strlit("aac");
        reveal_strlit("opus");
    }
    match ext {
        Some(e) => {
            let list: [&str; 7] = ["mp3", "wav", "ogg", "flac", "m4a", "aac", "opus"];
            let r = list_contains(e, &list);
            proof {
                assert(list@.len() == audio_extensions().len());
                assert forall|i: int| 0 <= i < 7 implies list@[i]@ == audio_extensions()[i] by {}
            }
            r
        },
        None => false,
    }
}

/// Whether a lower-cased extension names a video the embedded player opens.
pub fn is_browser_video_extension(ext: Option<&str>) -> (r: bool)
    ensures
        r == (ext matches Some(e) && in_list(e@, browser_video_extensions())),
{
    proof {
        reveal_strlit("mp4");
        reveal_strlit("m4v");
        reveal_strlit("webm");
    }
    match ext {
        Some(e) => {
            let list: [&str; 3] = ["mp4", "m4v", "webm"];
            let r = list_contains(e, &list);
            proof {
                assert forall|i: int| 0 <= i < 3 implies list@[i]@
                    == browser_video_extensions()[i] by {}
            }
            r
        },
        None => false,
    }
}

/// Whether a lower-cased extension names a video that needs probing or an
/// external player.
pub fn is_external_video_extension(ext: Option<&str>) -> (r: bool)
    ensures
        r == (ext matches Some(e) && in_list(e@, external_video_extensions())),
{
    proof {
        reveal_strlit("mkv");
        reveal_strlit("avi");
        reveal_strlit("mov");
        reveal_strlit("flv");
        reveal_strlit("wmv");
        reveal_strlit("ts");
        reveal_strlit("m2ts");
        reveal_strlit("mpg");
        reveal_strlit("mpeg");
        reveal_strlit("3gp");
    }
    match ext {
        Some(e) => {
            let list: [&str; 10] = [
                "mkv",
                "avi",
                "mov",
                "flv",
                "wmv",
                "ts",
                "m2ts",
                "mpg",
                "mpeg",
                "3gp",
            ];
            let r = list_contains(e, &list);
            proof {
                assert forall|i: int| 0 <= i < 10 implies list@[i]@
                    == external_video_extensions()[i] by {}
            }
            r
        },
        None => false,
    }
}

/// The lower-cased extension of `path`.
pub fn extension_lower(path: &str) -> (r: Option<String>)
    ensures
        portable_path(path@) ==> opt_string_view(r) == lower_extension(path@),
        same_on_every_platform(path@) ==> opt_string_view(r) == lower_file_extension(path@),
{
    match path_extension(path) {
        Some(e) => Some(to_lowercase(e.as_str())),
        None => None,
    }
}

fn as_str_opt(o: &Option<String>) -> (r: Option<&str>)
    ensures
        match r {
            Some(s) => *o matches Some(x) && s@ == x@,
            None => o is None,
        },
{
    match o {
        Some(s) => Some(s.as_str()),
        None => None,
    }
}

pub fn is_audio_path(path: &str) -> (r: bool)
    ensures
        portable_path(path@) ==> r == audio_ext(lower_extension(path@)),
        same_on_every_platform(path@) ==> r == audio_ext(lower_file_extension(path@)),
{
    let e = extension_lower(path);
    is_audio_extension(as_str_opt(&e))
}

pub fn is_browser_video_path(path: &str) -> (r: bool)
    ensures
        portable_path(path@) ==> r == browser_video_ext(lower_extension(path@)),
        same_on_every_platform(path@) ==> r == browser_video_ext(lower_file_extension(path@)),
{
    let e = extension_lower(path);
    is_browser_video_extension(as_str_opt(&e))
}

pub fn is_external_video_path(path: &str) -> (r: bool)
    ensures
        portable_path(path@) ==> r == external_video_ext(lower_extension(path@)),
        same_on_every_platform(path@) ==> r == external_video_ext(lower_file_extension(path@)),
{
    let e = extension_lower(path);
    is_external_video_extension(as_str_opt(&e))
}

pub fn is_video_path(path: &str) -> (r: bool)
    ensures
        portable_path(path@) ==> r == video_ext(lower_extension(path@)),
        same_on_every_platform(path@) ==> r == video_ext(lower_file_extension(path@)),
{
    is_browser_video_path(path) || is_external_video_path(path)
}

pub fn is_supported_media_path(path: &str) -> (r: bool)
    ensures
        portable_path(path@) ==> r == supported_ext(lower_extension(path@)),
        same_on_every_platform(path@) ==> r == supported_ext(lower_file_extension(path@)),
{
    is_audio_path(path) || is_video_path(path)
}

pub fn media_type_from_path(path: &str) -> (r: MediaType)
    ensures
        portable_path(path@) ==> r == (if video_ext(lower_extension(path@)) {
            MediaType::Video
        } else {
            MediaType::Audio
        }),
        same_on_every_platform(path@) ==> r == (if video_ext(lower_file_extension(path@)) {
            MediaType::Video
        } else {
            MediaType::Audio
        }),
{
    if is_video_path(path) {
        MediaType::Video
    } else {
        MediaType::Audio
    }
}

} // verus!
