//! Online video sites: which site a link belongs to, how its downloads are
//! named, and how the downloader's sign-in failures are reported.
use crate::download::DownloadAuth;
use crate::toolchain::{bundled_tool, find_tool, tool_dir_for, tool_path};
use crate::text::{
    chars_of, contains, is_control, is_control_char, is_space, is_whitespace, lowercase,
    seq_contains, slice, str_contains, str_eq, str_trim, string_of, to_lowercase, trim, trim_chars,
};
use vstd::prelude::*;

verus! {

/// The video sites the player knows.
#[derive(Clone, Copy, Debug, PartialEq, Eq, Structural)]
pub enum VideoPlatform {
    Bilibili,
    YouTube,
    Douyin,
    TencentVideo,
    Weixin,
    Generic,
}

fn lit_in(hay: &Vec<char>, lit: &str) -> (r: bool)
    ensures
        r == contains(hay@, lit@),
{
    let n = chars_of(lit);
    seq_contains(hay, &n)
}

impl VideoPlatform {
    pub open spec fn from_url_spec(url: Seq<char>) -> VideoPlatform {
        let l = lowercase(url);
        if contains(l, "bilibili.com"@) || contains(l, "b23.tv"@) {
            VideoPlatform::Bilibili
        } else if contains(l, "youtube.com"@) || contains(l, "youtu.be"@) {
            VideoPlatform::YouTube
        } else if contains(l, "douyin.com"@) || contains(l, "iesdouyin.com"@) {
            VideoPlatform::Douyin
        } else if contains(l, "v.qq.com"@) || contains(l, "qq.com/x/cover"@) {
            VideoPlatform::TencentVideo
        } else if contains(l, "channels.weixin.qq.com"@) || contains(l, "finder.video.qq.com"@) {
            VideoPlatform::Weixin
        } else {
            VideoPlatform::Generic
        }
    }

    /// The site a link belongs to, by the domains it mentions.
    pub fn from_url(url: &str) -> (r: VideoPlatform)
        ensures
            r == Self::from_url_spec(url@),
    {
        let lower = to_lowercase(url);
        let l = chars_of(lower.as_str());
        if lit_in(&l, "bilibili.com") || lit_in(&l, "b23.tv") {
            VideoPlatform::Bilibili
        } else if lit_in(&l, "youtube.com") || lit_in(&l, "youtu.be") {
            VideoPlatform::YouTube
        } else if lit_in(&l, "douyin.com") || lit_in(&l, "iesdouyin.com") {
            VideoPlatform::Douyin
        } else if lit_in(&l, "v.qq.com") || lit_in(&l, "qq.com/x/cover") {
            VideoPlatform::TencentVideo
        } else if lit_in(&l, "channels.weixin.qq.com") || lit_in(&l, "finder.video.qq.com") {
            VideoPlatform::Weixin
        } else {
            VideoPlatform::Generic
        }
    }

    pub open spec fn referer_spec(self) -> Option<Seq<char>> {
        match self {
            VideoPlatform::Bilibili => Some("https://www.bilibili.com/"@),
            VideoPlatform::Douyin => Some("https://www.douyin.com/"@),
            VideoPlatform::TencentVideo => Some("https://v.qq.com/"@),
            VideoPlatform::Weixin => Some("https://channels.weixin.qq.com/"@),
            VideoPlatform::YouTube => None,
            VideoPlatform::Generic => None,
        }
    }

    /// The referer header the site's media servers expect, if any.
    pub fn get_referer(&self) -> (r: Option<&'static str>)
        ensures
            match r {
                Some(s) => self.referer_spec() == Some(s@),
                None => self.referer_spec() is None,
            },
    {
        proof {
            reveal_strlit("https://www.bilibili.com/");
            reveal_strlit("https://www.douyin.com/");
            reveal_strlit("https://v.qq.com/");
            reveal_strlit("https://channels.weixin.qq.com/");
        }
        match self {
            VideoPlatform::Bilibili => Some("https://www.bilibili.com/"),
            VideoPlatform::Douyin => Some("https://www.douyin.com/"),
            VideoPlatform::TencentVideo => Some("https://v.qq.com/"),
            VideoPlatform::Weixin => Some("https://channels.weixin.qq.com/"),
            VideoPlatform::YouTube => None,
            VideoPlatform::Generic => None,
        }
    }

    pub open spec fn display_name_spec(self) -> Seq<char> {
        match self {
            VideoPlatform::Bilibili => "哔哩哔哩"@,
            VideoPlatform::YouTube => "YouTube"@,
            VideoPlatform::Douyin => "抖音"@,
            VideoPlatform::TencentVideo => "腾讯视频"@,
            VideoPlatform::Weixin => "微信视频号"@,
            VideoPlatform::Generic => "通用"@,
        }
    }

    /// The site's name as shown to the user.
    pub fn display_name(&self) -> (r: &'static str)
        ensures
            r@ == self.display_name_spec(),
    {
        proof {
            reveal_strlit("哔哩哔哩");
            reveal_strlit("YouTube");
            reveal_strlit("抖音");
            reveal_strlit("腾讯视频");
            reveal_strlit("微信视频号");
            reveal_strlit("通用");
        }
        match self {
            VideoPlatform::Bilibili => "哔哩哔哩",
            VideoPlatform::YouTube => "YouTube",
            VideoPlatform::Douyin => "抖音",
            VideoPlatform::TencentVideo => "腾讯视频",
            VideoPlatform::Weixin => "微信视频号",
            VideoPlatform::Generic => "通用",
        }
    }

    pub open spec fn login_url_spec(self) -> Seq<char> {
        match self {
            VideoPlatform::Bilibili => "https://passport.bilibili.com/login"@,
            VideoPlatform::YouTube => "https://accounts.google.com/ServiceLogin?service=youtube"@,
            VideoPlatform::Douyin => "https://www.douyin.com/login"@,
            VideoPlatform::TencentVideo => "https://v.qq.com/"@,
            VideoPlatform::Weixin => "https://channels.weixin.qq.com/"@,
            VideoPlatform::Generic => ""@,
        }
    }

    /// Where the user signs in to the site; empty when there is no such page.
    pub fn get_login_url(&self) -> (r: &'static str)
        ensures
            r@ == self.login_url_spec(),
    {
        proof {
            reveal_strlit("https://passport.bilibili.com/login");
            reveal_strlit("https://accounts.google.com/ServiceLogin?service=youtube");
            reveal_strlit("https://www.douyin.com/login");
            reveal_strlit("https://v.qq.com/");
            reveal_strlit("https://channels.weixin.qq.com/");
            reveal_strlit("");
        }
        match self {
            VideoPlatform::Bilibili => "https://passport.bilibili.com/login",
            VideoPlatform::YouTube => "https://accounts.google.com/ServiceLogin?service=youtube",
            VideoPlatform::Douyin => "https://www.douyin.com/login",
            VideoPlatform::TencentVideo => "https://v.qq.com/",
            VideoPlatform::Weixin => "https://channels.weixin.qq.com/",
            VideoPlatform::Generic => "",
        }
    }

    pub open spec fn stream_spec(url: Seq<char>) -> Option<VideoPlatform> {
        let l = lowercase(url);
        if contains(l, "bilivideo"@) || contains(l, "bilibili"@) {
            Some(VideoPlatform::Bilibili)
        } else if contains(l, "googlevideo.com"@) || contains(l, "youtube"@) {
            Some(VideoPlatform::YouTube)
        } else if contains(l, "douyinvod"@) || contains(l, "bytedance"@) || contains(l, "amemv"@) {
            Some(VideoPlatform::Douyin)
        } else if contains(l, "v.qq.com"@) || contains(l, "gtimg.com"@) {
            Some(VideoPlatform::TencentVideo)
        } else {
            None
        }
    }

    /// The site whose media servers a stream link points to, if known.
    pub fn matches_stream_url(url: &str) -> (r: Option<VideoPlatform>)
        ensures
            r == Self::stream_spec(url@),
    {
        let lower = to_lowercase(url);
        let l = chars_of(lower.as_str());
        if lit_in(&l, "bilivideo") || lit_in(&l, "bilibili") {
            Some(VideoPlatform::Bilibili)
        } else if lit_in(&l, "googlevideo.com") || lit_in(&l, "youtube") {
            Some(VideoPlatform::YouTube)
        } else if lit_in(&l, "douyinvod") || lit_in(&l, "bytedance") || lit_in(&l, "amemv") {
            Some(VideoPlatform::Douyin)
        } else if lit_in(&l, "v.qq.com") || lit_in(&l, "gtimg.com") {
            Some(VideoPlatform::TencentVideo)
        } else {
            None
        }
    }
}

/// Characters that file names may not hold on common platforms.
pub open spec fn forbidden(c: char) -> bool {
    c == '<' || c == '>' || c == ':' || c == '"' || c == '/' || c == '\\' || c == '|' || c == '?'
        || c == '*'
}

pub open spec fn replace_forbidden(s: Seq<char>) -> Seq<char> {
    s.map_values(|c: char| if forbidden(c) { '-' } else { c })
}

pub open spec fn drop_controls(s: Seq<char>) -> Seq<char> {
    s.filter(|c: char| !is_control_char(c))
}

/// Each run of white space becomes one plain space.
pub open spec fn collapse_spaces(s: Seq<char>) -> Seq<char>
    decreases s.len(),
{
    if s.len() == 0 {
        seq![]
    } else {
        let prev = collapse_spaces(s.drop_last());
        if is_space(s.last()) {
            if prev.len() > 0 && prev.last() == ' ' {
                prev
            } else {
                prev.push(' ')
            }
        } else {
            prev.push(s.last())
        }
    }
}

/// Keeps a long name within 100 characters by cutting out its middle: its
/// first 49 characters, an ellipsis, and its last 50.
pub open spec fn shorten(s: Seq<char>) -> Seq<char> {
    if s.len() <= 100 {
        s
    } else {
        s.take(49) + seq!['…'] + s.skip(s.len() - 50)
    }
}

/// Drops trailing spaces and dots.
pub open spec fn strip_trailing(s: Seq<char>) -> Seq<char>
    decreases s.len(),
{
    if s.len() > 0 && (s.last() == ' ' || s.last() == '.') {
        strip_trailing(s.drop_last())
    } else {
        s
    }
}

pub open spec fn sanitized(name: Seq<char>) -> Seq<char> {
    let s = strip_trailing(
        shorten(trim(collapse_spaces(drop_controls(replace_forbidden(trim(name)))))),
    );
    if s.len() == 0 {
        "untitled"@
    } else {
        s
    }
}

fn forbidden_char(c: char) -> (r: bool)
    ensures
        r == forbidden(c),
{
    c == '<' || c == '>' || c == ':' || c == '"' || c == '/' || c == '\\' || c == '|' || c == '?'
        || c == '*'
}

/// Collapses white space after replacing forbidden characters and
/// dropping control characters.
fn clean_chars(s: &Vec<char>) -> (r: Vec<char>)
    ensures
        r@ == collapse_spaces(drop_controls(replace_forbidden(s@))),
{
    let ghost rep = replace_forbidden(s@);
    let mut kept: Vec<char> = Vec::new();
    let mut i: usize = 0;
    while i < s.len()
        invariant
            rep == replace_forbidden(s@),
            i <= s.len(),
            kept@ == drop_controls(rep.take(i as int)),
        decreases s.len() - i,
    {
        let c = if forbidden_char(s[i]) {
            '-'
        } else {
            s[i]
        };
        assert(rep[i as int] == c);
        assert(rep.take(i + 1).drop_last() =~= rep.take(i as int));
        if !is_control(c) {
            kept.push(c);
        }
        proof {
            reveal(Seq::filter);
            assert(drop_controls(rep.take(i + 1)) == (if !is_control_char(c) {
                drop_controls(rep.take(i as int)).push(c)
            } else {
                drop_controls(rep.take(i as int))
            }));
        }
        i += 1;
    }
    assert(rep.take(s.len() as int) =~= rep);
    let ghost d = kept@;
    let mut out: Vec<char> = Vec::new();
    let mut j: usize = 0;
    while j < kept.len()
        invariant
            d == kept@,
            j <= kept.len(),
            out@ == collapse_spaces(d.take(j as int)),
        decreases kept.len() - j,
    {
        let c = kept[j];
        assert(d.take(j + 1).drop_last() =~= d.take(j as int));
        if is_whitespace(c) {
            if !(out.len() > 0 && out[out.len() - 1] == ' ') {
                out.push(' ');
            }
        } else {
            out.push(c);
        }
        j += 1;
    }
    assert(d.take(kept.len() as int) =~= d);
    out
}

impl OnlineResolver {
    /// A file-system safe file name for a title: forbidden characters become
    /// `-`, control characters go, white space collapses, long names lose
    /// their middle, trailing spaces and dots go; an empty result is
    /// `untitled`.
    pub fn sanitize_filename(name: &str) -> (r: String)
        ensures
            r@ == sanitized(name@),
    {
        proof {
            reveal_strlit("untitled");
        }
        let c = chars_of(name);
        let t = trim_chars(&c);
        let cleaned = clean_chars(&t);
        let mut out = trim_chars(&cleaned);
        if out.len() > 100 {
            let n = out.len();
            let mut short = slice(&out, 0, 49);
            short.push('…');
            let end = slice(&out, n - 50, n);
            short.extend_from_slice(end.as_slice());
            proof {
                assert(short@ =~= out@.take(49) + seq!['…'] + out@.skip(n - 50));
            }
            out = short;
        }
        let ghost shortened = out@;
        while out.len() > 0 && (out[out.len() - 1] == ' ' || out[out.len() - 1] == '.')
            invariant
                strip_trailing(out@) == strip_trailing(shortened),
            decreases out.len(),
        {
            assert(out@.drop_last() == out@.take(out.len() - 1));
            out.pop();
        }
        if out.len() == 0 {
            String::from_str("untitled")
        } else {
            string_of(&out)
        }
    }
}

/// The sign-in page of a site named in the settings, by its lower-cased
/// English or Chinese name.
pub open spec fn login_page(name: Seq<char>) -> Option<Seq<char>> {
    if name == "youtube"@ {
        Some("https://accounts.google.com/ServiceLogin?service=youtube"@)
    } else if name == "bilibili"@ || name == "哔哩哔哩"@ {
        Some("https://passport.bilibili.com/login"@)
    } else if name == "douyin"@ || name == "抖音"@ {
        Some("https://www.douyin.com/login"@)
    } else if name == "tencent"@ || name == "腾讯视频"@ {
        Some("https://v.qq.com/"@)
    } else if name == "weixin"@ || name == "微信视频号"@ {
        Some("https://channels.weixin.qq.com/"@)
    } else {
        None
    }
}

/// The sign-in page to open for `platform`, or why there is none.
pub fn platform_login_url(platform: &str) -> (r: Result<String, String>)
    ensures
        match login_page(lowercase(platform@)) {
            Some(u) => r matches Ok(x) && x@ == u,
            None => r matches Err(e) && e@ == "Unknown platform: "@ + platform@,
        },
{
    proof {
        reveal_strlit("youtube");
        reveal_strlit("bilibili");
        reveal_strlit("哔哩哔哩");
        reveal_strlit("douyin");
        reveal_strlit("抖音");
        reveal_strlit("tencent");
        reveal_strlit("腾讯视频");
        reveal_strlit("weixin");
        reveal_strlit("微信视频号");
    }
    let lower = to_lowercase(platform);
    let n = lower.as_str();
    if str_eq(n, "youtube") {
        Ok(String::from_str("https://accounts.google.com/ServiceLogin?service=youtube"))
    } else if str_eq(n, "bilibili") || str_eq(n, "哔哩哔哩") {
        Ok(String::from_str("https://passport.bilibili.com/login"))
    } else if str_eq(n, "douyin") || str_eq(n, "抖音") {
        Ok(String::from_str("https://www.douyin.com/login"))
    } else if str_eq(n, "tencent") || str_eq(n, "腾讯视频") {
        Ok(String::from_str("https://v.qq.com/"))
    } else if str_eq(n, "weixin") || str_eq(n, "微信视频号") {
        Ok(String::from_str("https://channels.weixin.qq.com/"))
    } else {
        let mut e = String::from_str("Unknown platform: ");
        e.append(platform);
        proof {
            reveal_strlit("Unknown platform: ");
        }
        Err(e)
    }
}

/// Resolves online links and names their downloads.
#[derive(Debug)]
pub struct OnlineResolver;

/// Index of the first `c` in `s`.
pub open spec fn index_of(s: Seq<char>, c: char) -> Option<int>
    decreases s.len(),
{
    if s.len() == 0 {
        None
    } else if s[0] == c {
        Some(0)
    } else {
        match index_of(s.drop_first(), c) {
            Some(i) => Some(i + 1),
            None => None,
        }
    }
}

/// In `a`, `c` and then `b`, with no `c` in `a`, the first `c` is the one
/// after `a`.
pub proof fn lemma_index_after(a: Seq<char>, c: char, b: Seq<char>)
    requires
        forall|i: int| 0 <= i < a.len() ==> a[i] != c,
    ensures
        index_of(a + seq![c] + b, c) == Some(a.len() as int),
    decreases a.len(),
{
    let s = a + seq![c] + b;
    if a.len() > 0 {
        let t = a.drop_first();
        assert(s.drop_first() =~= t + seq![c] + b);
        assert(s[0] == a[0]);
        lemma_index_after(t, c, b);
    } else {
        assert(s[0] == c);
    }
}

/// `index_of` finds the first occurrence of a character.
pub proof fn lemma_index_of(s: Seq<char>, c: char)
    ensures
        match index_of(s, c) {
            Some(i) => 0 <= i < s.len() && s[i] == c && forall|j: int| 0 <= j < i ==> s[j] != c,
            None => forall|j: int| 0 <= j < s.len() ==> s[j] != c,
        },
    decreases s.len(),
{
    if s.len() > 0 && s[0] != c {
        lemma_index_of(s.drop_first(), c);
        let t = s.drop_first();
        assert(forall|j: int| 0 <= j < t.len() ==> t[j] == s[j + 1]);
        match index_of(t, c) {
            Some(i) => {
                assert forall|j: int| 0 <= j < i + 1 implies s[j] != c by {
                    if j > 0 {
                        assert(s[j] == t[j - 1]);
                    }
                }
            },
            None => {
                assert forall|j: int| 0 <= j < s.len() implies s[j] != c by {
                    if j > 0 {
                        assert(s[j] == t[j - 1]);
                    }
                }
            },
        }
    }
}

pub(crate) fn find_char(s: &Vec<char>, from: usize, c: char) -> (r: Option<usize>)
    requires
        from <= s.len(),
    ensures
        match (r, index_of(s@.skip(from as int), c)) {
            (Some(i), Some(j)) => i as int == from + j,
            (None, None) => true,
            _ => false,
        },
        r matches Some(i) ==> from <= i < s.len(),
{
    let mut i = from;
    while i < s.len()
        invariant
            from <= i <= s.len(),
            forall|j: int| from <= j < i ==> s@[j] != c,
        decreases s.len() - i,
    {
        if s[i] == c {
            proof {
                let t = s@.skip(from as int);
                lemma_index_of(t, c);
                assert(t[i - from] == c);
                match index_of(t, c) {
                    Some(k) => {
                        if k < i - from {
                            assert(t[k] == s@[from + k]);
                        }
                        if k > i - from {
                            assert(t[i - from] != c);
                        }
                    },
                    None => {},
                }
            }
            return Some(i);
        }
        i += 1;
    }
    proof {
        let t = s@.skip(from as int);
        lemma_index_of(t, c);
        match index_of(t, c) {
            Some(k) => {
                assert(t[k] == s@[from + k]);
            },
            None => {},
        }
    }
    None
}

/// The sign-in failure that a "LOGIN_REQUIRED:site:url:message" text carries:
/// the site runs to the first colon; the sign-in page is an address whose
/// only colon is its scheme's, so it runs to the colon after that; the
/// message, colons and all, is the rest.
pub open spec fn login_parts(s: Seq<char>) -> Option<(Seq<char>, Seq<char>, Seq<char>)> {
    if !crate::text::starts_with(s, "LOGIN_REQUIRED:"@) {
        None
    } else {
        let rest = s.skip(15);
        match index_of(rest, ':') {
            None => None,
            Some(i) => {
                let after = rest.skip(i + 1);
                match index_of(after, ':') {
                    None => None,
                    Some(j) => {
                        let tail = after.skip(j + 1);
                        match index_of(tail, ':') {
                            None => None,
                            Some(k) => Some((rest.take(i), after.take(j + 1 + k), tail.skip(k + 1))),
                        }
                    },
                }
            },
        }
    }
}

pub open spec fn login_required_text(
    platform: VideoPlatform,
    stderr: Seq<char>,
) -> Seq<char> {
    "LOGIN_REQUIRED:"@ + platform.display_name_spec() + ":"@ + platform.login_url_spec() + ":"@
        + trim(stderr)
}

/// The message of a failed metadata lookup, from the downloader's error output.
pub open spec fn metadata_failure(url: Seq<char>, stderr: Seq<char>) -> Seq<char> {
    let platform = VideoPlatform::from_url_spec(url);
    let l = lowercase(stderr);
    if platform.login_url_spec().len() > 0 && (contains(l, "sign in"@) || contains(l, "login"@)
        || contains(l, "log in"@)) {
        login_required_text(platform, stderr)
    } else {
        "yt-dlp: "@ + trim(stderr)
    }
}

impl OnlineResolver {
    /// The downloader's command and, when FFmpeg is bundled, the directory
    /// that holds it.
    pub fn get_tools_paths(lib_dir: &str, windows: bool) -> (r: (String, Option<String>))
        ensures
            r.0@ == bundled_tool("yt-dlp"@, lib_dir@, windows),
            r.1 matches Some(d) ==> d@ == lib_dir@,
    {
        proof {
            reveal_strlit("yt-dlp");
            reveal_strlit("ffmpeg");
        }
        (tool_path("yt-dlp", lib_dir, windows), tool_dir_for("ffmpeg", lib_dir, windows))
    }

    /// The bundled FFplay, when present.
    pub fn get_ffplay_path(lib_dir: &str, windows: bool) -> (r: Option<String>)
        ensures
            r matches Some(p) ==> p@ == bundled_tool("ffplay"@, lib_dir@, windows),
    {
        proof {
            reveal_strlit("ffplay");
        }
        find_tool("ffplay", lib_dir, windows)
    }

    /// The bundled MPV, when present.
    pub fn get_mpv_path(lib_dir: &str, windows: bool) -> (r: Option<String>)
        ensures
            r matches Some(p) ==> p@ == bundled_tool("mpv"@, lib_dir@, windows),
    {
        proof {
            reveal_strlit("mpv");
        }
        find_tool("mpv", lib_dir, windows)
    }

    /// The bundled FFmpeg, when present.
    pub fn get_ffmpeg_path(lib_dir: &str, windows: bool) -> (r: Option<String>)
        ensures
            r matches Some(p) ==> p@ == bundled_tool("ffmpeg"@, lib_dir@, windows),
    {
        proof {
            reveal_strlit("ffmpeg");
        }
        find_tool("ffmpeg", lib_dir, windows)
    }

    /// Splits a sign-in failure into site name, sign-in page and message.
    pub fn parse_login_error(error: &str) -> (r: Option<(String, String, String)>)
        ensures
            match (r, login_parts(error@)) {
                (Some((a, b, c)), Some((x, y, z))) => a@ == x && b@ == y && c@ == z,
                (None, None) => true,
                _ => false,
            },
    {
        proof {
            reveal_strlit("LOGIN_REQUIRED:");
        }
        let s = chars_of(error);
        let prefix = chars_of("LOGIN_REQUIRED:");
        if !crate::text::seq_starts_with(&s, &prefix) {
            return None;
        }
        assert(s@.skip(15).skip(0) =~= s@.skip(15));
        let i = match find_char(&s, 15, ':') {
            Some(i) => i,
            None => return None,
        };
        assert(s@.skip(i + 1) =~= s@.skip(15).skip(i - 15 + 1));
        let j = match find_char(&s, i + 1, ':') {
            Some(j) => j,
            None => return None,
        };
        assert(s@.skip(j + 1) =~= s@.skip(i + 1).skip(j - (i + 1) + 1));
        let k = match find_char(&s, j + 1, ':') {
            Some(k) => k,
            None => return None,
        };
        let a = slice(&s, 15, i);
        let b = slice(&s, i + 1, k);
        let c = slice(&s, k + 1, s.len());
        proof {
            let rest = s@.skip(15);
            let after = rest.skip(i - 15 + 1);
            let tail = after.skip(j - (i + 1) + 1);
            assert(tail =~= s@.skip(j + 1));
            assert(a@ =~= rest.take(i - 15));
            assert(b@ =~= after.take(k - (i + 1)));
            assert(c@ =~= tail.skip(k - (j + 1) + 1));
        }
        Some((string_of(&a), string_of(&b), string_of(&c)))
    }

    /// The error of a failed metadata lookup of `url`: a sign-in failure for
    /// sites that have a sign-in page when the output mentions signing in,
    /// otherwise the downloader's own message.
    pub fn metadata_failure(url: &str, stderr: &str) -> (r: String)
        ensures
            r@ == metadata_failure(url@, stderr@),
    {
        proof {
            reveal_strlit("sign in");
            reveal_strlit("login");
            reveal_strlit("log in");
            reveal_strlit("LOGIN_REQUIRED:");
            reveal_strlit(":");
            reveal_strlit("yt-dlp: ");
        }
        let platform = VideoPlatform::from_url(url);
        let lower = to_lowercase(stderr);
        let l = chars_of(lower.as_str());
        let login = platform.get_login_url();
        let trimmed = str_trim(stderr);
        if !login.is_empty() && (lit_in(&l, "sign in") || lit_in(&l, "login") || lit_in(&l, "log in")) {
            let mut m = String::from_str("LOGIN_REQUIRED:");
            m.append(platform.display_name());
            m.append(":");
            m.append(login);
            m.append(":");
            m.append(trimmed.as_str());
            m
        } else {
            let mut m = String::from_str("yt-dlp: ");
            m.append(trimmed.as_str());
            m
        }
    }
}

/// A sign-in request to show the user: the site, its sign-in page and the
/// downloader's message.
#[derive(Debug)]
pub struct LoginRequiredInfo {
    pub platform: String,
    pub login_url: String,
    pub message: String,
}

/// The sign-in request that an error text carries, if it carries one.
pub fn check_login_required(error: &str) -> (r: Option<LoginRequiredInfo>)
    ensures
        match (r, login_parts(error@)) {
            (Some(i), Some((x, y, z))) => i.platform@ == x && i.login_url@ == y && i.message@ == z,
            (None, None) => true,
            _ => false,
        },
{
    match OnlineResolver::parse_login_error(error) {
        Some((platform, login_url, message)) => Some(LoginRequiredInfo { platform, login_url, message }),
        None => None,
    }
}

/// A character a file name may safely hold.
pub open spec fn safe_char(c: char) -> bool {
    !forbidden(c) && !is_control_char(c)
}

pub open spec fn all_chars(s: Seq<char>, q: spec_fn(char) -> bool) -> bool {
    forall|i: int| 0 <= i < s.len() ==> q(#[trigger] s[i])
}

proof fn lemma_filter_keeps(s: Seq<char>, pred: spec_fn(char) -> bool, q: spec_fn(char) -> bool)
    requires
        all_chars(s, q),
    ensures
        all_chars(s.filter(pred), q),
    decreases s.len(),
{
    reveal(Seq::filter);
    if s.len() > 0 {
        let t = s.drop_last();
        assert(all_chars(t, q)) by {
            assert forall|i: int| 0 <= i < t.len() implies q(#[trigger] t[i]) by {
                assert(t[i] == s[i]);
            }
        }
        lemma_filter_keeps(t, pred, q);
        let f = t.filter(pred);
        if pred(s.last()) {
            assert forall|i: int| 0 <= i < f.push(s.last()).len() implies q(#[trigger] f.push(s.last())[i]) by {
                if i == f.len() {
                    assert(q(s[s.len() - 1]));
                }
            }
        }
    }
}

proof fn lemma_collapse_keeps(s: Seq<char>, q: spec_fn(char) -> bool)
    requires
        all_chars(s, q),
        q(' '),
    ensures
        all_chars(collapse_spaces(s), q),
    decreases s.len(),
{
    if s.len() > 0 {
        let t = s.drop_last();
        assert(all_chars(t, q)) by {
            assert forall|i: int| 0 <= i < t.len() implies q(#[trigger] t[i]) by {
                assert(t[i] == s[i]);
            }
        }
        lemma_collapse_keeps(t, q);
        let prev = collapse_spaces(t);
        assert(q(s[s.len() - 1]));
        assert forall|i: int| 0 <= i < prev.push(s.last()).len() implies q(#[trigger] prev.push(s.last())[i]) by {}
        assert forall|i: int| 0 <= i < prev.push(' ').len() implies q(#[trigger] prev.push(' ')[i]) by {}
    }
}

proof fn lemma_trim_keeps(s: Seq<char>, q: spec_fn(char) -> bool)
    requires
        all_chars(s, q),
    ensures
        all_chars(trim(s), q),
{
    crate::text::lemma_leading_space_bound(s);
    let a = crate::text::trim_start(s);
    assert forall|i: int| 0 <= i < a.len() implies q(#[trigger] a[i]) by {
        assert(a[i] == s[i + crate::text::leading_space(s)]);
    }
    crate::text::lemma_trailing_space_bound(a);
    let b = crate::text::trim_end(a);
    assert forall|i: int| 0 <= i < b.len() implies q(#[trigger] b[i]) by {
        assert(b[i] == a[i]);
    }
}

proof fn lemma_strip_trailing(s: Seq<char>, q: spec_fn(char) -> bool)
    requires
        all_chars(s, q),
    ensures
        all_chars(strip_trailing(s), q),
        strip_trailing(s).len() > 0 ==> strip_trailing(s).last() != ' ' && strip_trailing(s).last()
            != '.',
        strip_trailing(s).len() <= s.len(),
        strip_trailing(s) =~= s.take(strip_trailing(s).len() as int),
    decreases s.len(),
{
    if s.len() > 0 && (s.last() == ' ' || s.last() == '.') {
        let t = s.drop_last();
        assert forall|i: int| 0 <= i < t.len() implies q(#[trigger] t[i]) by {
            assert(t[i] == s[i]);
        }
        lemma_strip_trailing(t, q);
    }
}

/// No two white-space characters stand next to each other in `s`.
pub open spec fn single_spaced(s: Seq<char>) -> bool {
    forall|i: int| 0 <= i < s.len() - 1 ==> !(is_space(#[trigger] s[i]) && is_space(s[i + 1]))
}

proof fn lemma_collapse_single(s: Seq<char>)
    ensures
        single_spaced(collapse_spaces(s)),
        forall|i: int|
            0 <= i < collapse_spaces(s).len() && is_space(#[trigger] collapse_spaces(s)[i])
                ==> collapse_spaces(s)[i] == ' ',
    decreases s.len(),
{
    if s.len() > 0 {
        let t = s.drop_last();
        lemma_collapse_single(t);
        let prev = collapse_spaces(t);
        if prev.len() > 0 {
            assert(is_space(prev.last()) ==> prev[prev.len() - 1] == ' ');
        }
        let c = collapse_spaces(s);
        assert forall|i: int| 0 <= i < c.len() - 1 implies !(is_space(#[trigger] c[i]) && is_space(c[i + 1])) by {
            if i + 1 < prev.len() {
                assert(c[i] == prev[i] && c[i + 1] == prev[i + 1]);
            } else {
                assert(c[i] == prev[i]);
            }
        }
        assert forall|i: int| 0 <= i < c.len() && is_space(#[trigger] c[i]) implies c[i] == ' ' by {
            if i < prev.len() {
                assert(c[i] == prev[i]);
            }
        }
    }
}

proof fn lemma_single_spaced_part(s: Seq<char>, from: int, to: int)
    requires
        single_spaced(s),
        0 <= from <= to <= s.len(),
    ensures
        single_spaced(s.subrange(from, to)),
{
    let p = s.subrange(from, to);
    assert forall|i: int| 0 <= i < p.len() - 1 implies !(is_space(#[trigger] p[i]) && is_space(p[i + 1])) by {
        assert(p[i] == s[from + i] && p[i + 1] == s[from + i + 1]);
    }
}

/// A sanitized name is never empty, holds no character that a file system
/// forbids and no control character, does not start or end with white
/// space, holds no white space but plain spaces, does not end with a dot,
/// has at most 100 characters, and never has two white-space characters in
/// a row.
pub proof fn lemma_sanitized_is_safe(name: Seq<char>)
    ensures
        sanitized(name).len() > 0,
        sanitized(name).len() <= 100,
        all_chars(sanitized(name), |c: char| safe_char(c)),
        !is_space(sanitized(name)[0]),
        sanitized(name).last() != ' ' && sanitized(name).last() != '.',
        !is_space(sanitized(name).last()),
        all_chars(sanitized(name), |c: char| is_space(c) ==> c == ' '),
        single_spaced(sanitized(name)),
{
    let q = |c: char| safe_char(c);
    let nf = |c: char| !forbidden(c);
    let t0 = trim(name);
    let r = replace_forbidden(t0);
    assert(all_chars(r, nf));
    let keep = |c: char| !is_control_char(c);
    lemma_filter_keeps(r, keep, nf);
    let d = drop_controls(r);
    assert(d == r.filter(keep));
    reveal(Seq::filter);
    assert(all_chars(d, q)) by {
        assert forall|i: int| 0 <= i < d.len() implies q(#[trigger] d[i]) by {
            r.lemma_filter_pred(keep, i);
        }
    }
    lemma_collapse_keeps(d, q);
    let c = collapse_spaces(d);
    lemma_trim_keeps(c, q);
    let t = trim(c);
    let sh = shorten(t);
    assert(safe_char('…'));
    assert(all_chars(sh, q)) by {
        if t.len() > 100 {
            let head = 49int;
            let tail = 50int;
            assert forall|i: int| 0 <= i < sh.len() implies q(#[trigger] sh[i]) by {
                if i < head {
                    assert(sh[i] == t[i]);
                } else if i > head {
                    assert(sh[i] == t[t.len() - tail + (i - head - 1)]);
                }
            }
        }
    }
    lemma_strip_trailing(sh, q);
    reveal_strlit("untitled");
    let u = "untitled"@;
    assert forall|i: int| 0 <= i < u.len() implies q(#[trigger] u[i]) by {}
    let st = strip_trailing(sh);
    if st.len() > 0 {
        crate::text::lemma_leading_space_bound(c);
        let lead = crate::text::leading_space(c) as int;
        let ts = c.skip(lead);
        crate::text::lemma_trailing_space_bound(ts);
        assert(t =~= ts.take(ts.len() - crate::text::trailing_space(ts)));
        assert(t.len() > 0);
        assert(t[0] == ts[0]);
        assert(ts[0] == c[lead]);
        assert(sh[0] == t[0]);
        assert(st[0] == sh[0]);
        lemma_collapse_single(d);
        lemma_single_spaced_part(c, lead, lead + t.len());
        assert(t =~= c.subrange(lead, lead + t.len()));
        assert(single_spaced(sh)) by {
            if t.len() > 100 {
                assert forall|i: int| 0 <= i < sh.len() - 1 implies !(is_space(#[trigger] sh[i]) && is_space(sh[i + 1])) by {
                    if i + 1 < 49 {
                        assert(sh[i] == t[i] && sh[i + 1] == t[i + 1]);
                    } else if i > 49 {
                        assert(sh[i] == t[t.len() - 50 + (i - 50)]);
                        assert(sh[i + 1] == t[t.len() - 50 + (i - 49)]);
                    } else if i == 48 {
                        assert(sh[i + 1] == '…');
                    } else {
                        assert(sh[i] == '…');
                    }
                }
            }
        }
        lemma_single_spaced_part(sh, 0, st.len() as int);
        assert(st =~= sh.subrange(0, st.len() as int));
        let plain = |x: char| is_space(x) ==> x == ' ';
        assert(all_chars(c, plain));
        lemma_trim_keeps(c, plain);
        assert(all_chars(sh, plain)) by {
            if t.len() > 100 {
                assert forall|i: int| 0 <= i < sh.len() implies plain(#[trigger] sh[i]) by {
                    if i < 49 {
                        assert(sh[i] == t[i]);
                    } else if i > 49 {
                        assert(sh[i] == t[t.len() - 50 + (i - 50)]);
                    }
                }
            }
        }
        lemma_strip_trailing(sh, plain);
    } else {
        assert forall|i: int| 0 <= i < u.len() implies !is_space(#[trigger] u[i]) by {}
    }
}

} // verus!
