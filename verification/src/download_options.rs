//! The download choices offered for a resolved online video: one per
//! resolution, plus audio downloads.
//!
//! Durations are seconds held as binary64 bit patterns. Whether a format's
//! duration falls short of the video's expected duration by more than the
//! tolerance (a float comparison) arrives with each format as `limited`.
use crate::capabilities::{
    audio_ext, is_audio_path, is_video_path, lower_extension, portable_path, video_ext,
};
use crate::media::{clone_string, MediaType};
use crate::text::{
    chars_of, decimal, decimal_chars, is_alnum, is_ascii_alnum, lowercase, push_chars,
    seq_starts_with, starts_with, str_eq, str_trim, string_of, to_lowercase, to_uppercase, trim,
    uppercase,
};
use vstd::prelude::*;

verus! {

/// A format that the site offers, as the downloader describes it.
#[derive(Debug)]
pub struct RemoteFormat {
    pub format_id: String,
    pub vcodec: Option<String>,
    pub acodec: Option<String>,
    pub ext: Option<String>,
    pub height: Option<u32>,
    pub width: Option<u32>,
    /// Seconds, as binary64 bits.
    pub duration: Option<u64>,
    pub has_drm: Option<bool>,
    /// `duration` is known and shorter than the video's expected duration by
    /// more than the tolerance: the format is a preview.
    pub limited: bool,
}

/// One download choice.
#[derive(Debug)]
pub struct DownloadOption {
    pub id: String,
    pub media_type: MediaType,
    pub height: Option<u32>,
    pub width: Option<u32>,
    pub format_selector: String,
    pub extract_audio: bool,
    pub requires_audio: bool,
    /// Seconds, as binary64 bits.
    pub limited_duration: Option<u64>,
    pub video_codec: Option<String>,
}

impl Clone for DownloadOption {
    fn clone(&self) -> (r: Self)
        ensures
            r == *self,
    {
        DownloadOption {
            id: self.id.clone(),
            media_type: self.media_type,
            height: self.height,
            width: self.width,
            format_selector: self.format_selector.clone(),
            extract_audio: self.extract_audio,
            requires_audio: self.requires_audio,
            limited_duration: self.limited_duration,
            video_codec: crate::media::clone_opt_string(&self.video_codec),
        }
    }
}

pub ghost struct OptionView {
    pub id: Seq<char>,
    pub media_type: MediaType,
    pub height: Option<u32>,
    pub width: Option<u32>,
    pub format_selector: Seq<char>,
    pub extract_audio: bool,
    pub requires_audio: bool,
    pub limited_duration: Option<u64>,
    pub video_codec: Option<Seq<char>>,
}

pub open spec fn sv(o: Option<String>) -> Option<Seq<char>> {
    match o {
        Some(s) => Some(s@),
        None => None,
    }
}

impl View for DownloadOption {
    type V = OptionView;

    open spec fn view(&self) -> OptionView {
        OptionView {
            id: self.id@,
            media_type: self.media_type,
            height: self.height,
            width: self.width,
            format_selector: self.format_selector@,
            extract_audio: self.extract_audio,
            requires_audio: self.requires_audio,
            limited_duration: self.limited_duration,
            video_codec: sv(self.video_codec),
        }
    }
}

/// The properties of a format that the choice rules read.
pub ghost struct Traits {
    pub eligible: bool,
    pub video: bool,
    pub audio_only: bool,
    pub aac: bool,
    pub audio_none: bool,
    pub audio_named: bool,
    pub codec: Option<Seq<char>>,
    pub limit: Option<u64>,
    pub selector_ok: bool,
    pub height: Option<u32>,
    pub width: Option<u32>,
    pub id: Seq<char>,
}

pub open spec fn ext_of(f: RemoteFormat) -> Option<Seq<char>> {
    match f.ext {
        Some(e) => lower_extension("media."@ + e@),
        None => None,
    }
}

/// The extension reads alike on every platform.
pub open spec fn plain_ext(f: RemoteFormat) -> bool {
    f.ext matches Some(e) ==> portable_path("media."@ + e@)
}

pub open spec fn has_video_spec(f: RemoteFormat) -> bool {
    &&& sv(f.vcodec) != Some("none"@)
    &&& {
        ||| (f.vcodec matches Some(c) && c@.len() > 0)
        ||| (f.height matches Some(h) && h > 0)
        ||| (f.width matches Some(w) && w > 0)
        ||| (f.ext is Some && video_ext(ext_of(f)))
    }
}

pub open spec fn audio_only_spec(f: RemoteFormat) -> bool {
    &&& !has_video_spec(f)
    &&& sv(f.acodec) != Some("none"@)
    &&& (sv(f.vcodec) == Some("none"@) || (f.ext is Some && audio_ext(ext_of(f))))
}

pub open spec fn has_aac_spec(f: RemoteFormat) -> bool {
    f.acodec matches Some(c) && (c@ == "aac"@ || starts_with(c@, "mp4a"@))
}

pub open spec fn selector_char(c: char) -> bool {
    is_ascii_alnum(c) || c == '-' || c == '_' || c == '.'
}

pub open spec fn selector_ok_spec(id: Seq<char>) -> bool {
    id.len() > 0 && forall|i: int| 0 <= i < id.len() ==> selector_char(#[trigger] id[i])
}

/// The display name of a video codec.
pub open spec fn codec_name_spec(vcodec: Option<Seq<char>>) -> Option<Seq<char>> {
    match vcodec {
        None => None,
        Some(c) => {
            let l = lowercase(c);
            if l.len() == 0 || l == "none"@ {
                None
            } else if starts_with(l, "avc1"@) || starts_with(l, "avc3"@) || l == "h264"@ {
                Some("H.264"@)
            } else if starts_with(l, "hev1"@) || starts_with(l, "hvc1"@) || l == "hevc"@ || l
                == "h265"@ {
                Some("HEVC"@)
            } else if starts_with(l, "av01"@) || l == "av1"@ {
                Some("AV1"@)
            } else if starts_with(l, "vp09"@) || l == "vp9"@ {
                Some("VP9"@)
            } else {
                Some(uppercase(l))
            }
        },
    }
}

pub open spec fn traits_of(f: RemoteFormat) -> Traits {
    Traits {
        eligible: f.has_drm != Some(true),
        video: has_video_spec(f),
        audio_only: audio_only_spec(f),
        aac: has_aac_spec(f),
        audio_none: sv(f.acodec) == Some("none"@),
        audio_named: f.acodec matches Some(c) && c@ != "none"@ && c@.len() > 0,
        codec: codec_name_spec(sv(f.vcodec)),
        limit: if f.limited { f.duration } else { None },
        selector_ok: selector_ok_spec(f.format_id@),
        height: match f.height {
            Some(h) if h > 0 => Some(h),
            _ => None,
        },
        width: match f.width {
            Some(w) if w > 0 => Some(w),
            _ => None,
        },
        id: f.format_id@,
    }
}

/// A format that can be offered as a video of some resolution.
pub open spec fn video_cand(t: Seq<Traits>, i: int) -> bool {
    t[i].eligible && t[i].video
}

pub open spec fn audio_cand(t: Seq<Traits>, i: int) -> bool {
    t[i].eligible && t[i].audio_only
}

/// Index of the last format among the first `n` that satisfies `p`.
pub open spec fn last_where(n: int, p: spec_fn(int) -> bool) -> Option<int>
    decreases n,
{
    if n <= 0 {
        None
    } else if p(n - 1) {
        Some(n - 1)
    } else {
        last_where(n - 1, p)
    }
}

/// How good an audio-only format is as the sound of a video download.
pub open spec fn audio_key(t: Traits) -> int {
    (if t.limit is None { 2int } else { 0int }) + (if t.aac { 1int } else { 0int })
}

/// The audio-only format with the best key among the first `n`, the last
/// one of equally good ones.
pub open spec fn best_audio(t: Seq<Traits>, n: int) -> Option<int>
    decreases n,
{
    if n <= 0 {
        None
    } else {
        let prev = best_audio(t, n - 1);
        if audio_cand(t, n - 1) && (prev matches Some(p) ==> audio_key(t[n - 1]) >= audio_key(
            t[p],
        )) {
            Some(n - 1)
        } else {
            prev
        }
    }
}

/// The audio format that accompanies video format `i`, if it has no sound.
pub open spec fn companion(t: Seq<Traits>, i: int) -> Option<int> {
    if t[i].audio_none {
        best_audio(t, t.len() as int)
    } else {
        None
    }
}

pub open spec fn video_limit(t: Seq<Traits>, i: int) -> Option<u64> {
    match t[i].limit {
        Some(d) => Some(d),
        None => match companion(t, i) {
            Some(c) => t[c].limit,
            None => None,
        },
    }
}

/// The preference among video formats of one resolution: complete length,
/// then H.264, then AAC sound.
pub open spec fn video_rank(t: Seq<Traits>, i: int) -> int {
    (if video_limit(t, i) is None { 4int } else { 0int }) + (if t[i].codec == Some("H.264"@) {
        2int
    } else {
        0int
    }) + (if (match companion(t, i) {
        Some(c) => t[c].aac,
        None => t[i].aac,
    }) {
        1int
    } else {
        0int
    })
}

pub open spec fn video_id(h: Option<u32>) -> Seq<char> {
    match h {
        Some(h) => "video:"@ + decimal(h as nat),
        None => "video:original"@,
    }
}

#[verifier::opaque]
pub open spec fn video_option(t: Seq<Traits>, i: int) -> OptionView {
    OptionView {
        id: video_id(t[i].height),
        media_type: MediaType::Video,
        height: t[i].height,
        width: t[i].width,
        format_selector: match companion(t, i) {
            Some(c) => t[i].id + "+"@ + t[c].id,
            None => t[i].id,
        },
        extract_audio: false,
        requires_audio: companion(t, i) is Some || t[i].audio_named,
        limited_duration: video_limit(t, i),
        video_codec: t[i].codec,
    }
}

/// Ordering of resolutions: unknown below any known height.
pub open spec fn height_lt(a: Option<u32>, b: Option<u32>) -> bool {
    match (a, b) {
        (None, Some(_)) => true,
        (Some(x), Some(y)) => x < y,
        _ => false,
    }
}

/// Format `w` is the one chosen for its resolution among the first `n`:
/// it ranks best, and no later format of that resolution ranks as well.
#[verifier::opaque]
pub open spec fn chosen(t: Seq<Traits>, w: int, n: int) -> bool {
    &&& 0 <= w < n
    &&& video_cand(t, w)
    &&& forall|j: int|
        0 <= j < n && video_cand(t, j) && #[trigger] t[j].height == t[w].height ==> video_rank(t, j)
            <= video_rank(t, w) && (j > w ==> video_rank(t, j) < video_rank(t, w))
}

/// `opts` offers, from the highest resolution down, the chosen video format
/// of every resolution that the formats have.
pub open spec fn video_choices(t: Seq<Traits>, opts: Seq<OptionView>) -> bool {
    &&& forall|a: int, b: int|
        0 <= a < b < opts.len() ==> height_lt(#[trigger] opts[b].height, #[trigger] opts[a].height)
    &&& forall|k: int|
        0 <= k < opts.len() ==> exists|w: int|
            chosen(t, w, t.len() as int) && #[trigger] opts[k] == video_option(t, w)
    &&& forall|i: int|
        0 <= i < t.len() && video_cand(t, i) ==> exists|k: int|
            0 <= k < opts.len() && #[trigger] opts[k].height == t[i].height
}

pub open spec fn audio_option(t: Traits, id: Seq<char>, extract: bool) -> OptionView {
    OptionView {
        id,
        media_type: MediaType::Audio,
        height: None,
        width: None,
        format_selector: t.id,
        extract_audio: extract,
        requires_audio: true,
        limited_duration: t.limit,
        video_codec: None,
    }
}

pub open spec fn any_video(t: Seq<Traits>) -> bool {
    exists|i: int| 0 <= i < t.len() && video_cand(t, i)
}

pub open spec fn last_audio(t: Seq<Traits>) -> Option<int> {
    last_where(t.len() as int, |i: int| audio_cand(t, i))
}

/// Where the audio for an MP3 conversion comes from.
pub open spec fn mp3_source(t: Seq<Traits>) -> Option<int> {
    match last_audio(t) {
        Some(a) => Some(a),
        None => last_where(t.len() as int, |i: int| video_cand(t, i) && !t[i].audio_none),
    }
}

/// Some format that would be offered has an identifier the downloader
/// cannot be given.
pub open spec fn bad_selector(t: Seq<Traits>) -> bool {
    ||| exists|i: int|
        0 <= i < t.len() && video_cand(t, i) && (!t[i].selector_ok || (companion(t, i) matches Some(
            c,
        ) && !t[c].selector_ok))
    ||| (!any_video(t) && (last_audio(t) matches Some(a) && !t[a].selector_ok))
    ||| (mp3_source(t) matches Some(m) && !t[m].selector_ok)
}

/// `sel` names a format of `t` that may be offered, alone or followed by
/// `+` and another such format.
pub open spec fn selects_eligible(t: Seq<Traits>, sel: Seq<char>) -> bool {
    exists|w: int|
        #![trigger t[w]]
        0 <= w < t.len() && t[w].eligible && (sel == t[w].id || exists|c: int|
            #![trigger t[c]]
            0 <= c < t.len() && t[c].eligible && sel == t[w].id + "+"@ + t[c].id)
}

/// `sel` names formats of `formats` that are free of DRM: one, or two joined
/// by `+`.
pub open spec fn selects_drm_free(formats: Seq<RemoteFormat>, sel: Seq<char>) -> bool {
    exists|w: int|
        #![trigger formats[w]]
        0 <= w < formats.len() && formats[w].has_drm != Some(true) && (sel == formats[w].format_id@
            || exists|c: int|
            #![trigger formats[c]]
            0 <= c < formats.len() && formats[c].has_drm != Some(true) && sel
                == formats[w].format_id@ + "+"@ + formats[c].format_id@)
}

/// The complete list of choices, given its video part `v`: the videos,
/// then the original audio where there is no video, then the MP3
/// conversion where some format has sound.
pub open spec fn choices_with(t: Seq<Traits>, v: Seq<OptionView>, opts: Seq<OptionView>) -> bool {
    &&& video_choices(t, v)
    &&& (any_video(t) ==> v.len() > 0)
    &&& (!any_video(t) ==> v.len() == 0)
    &&& {
        let with_original = if v.len() == 0 && last_audio(t) is Some {
            v.push(audio_option(t[last_audio(t)->0], "audio:original"@, false))
        } else {
            v
        };
        opts == match mp3_source(t) {
            Some(m) => with_original.push(audio_option(t[m], "audio:mp3"@, true)),
            None => with_original,
        }
    }
}

/// The complete list of choices.
pub open spec fn choices(t: Seq<Traits>, opts: Seq<OptionView>) -> bool {
    exists|v: Seq<OptionView>| #[trigger] choices_with(t, v, opts)
}

/// The properties of one format, computed.
#[derive(Debug)]
pub struct FormatTraits {
    pub eligible: bool,
    pub video: bool,
    pub audio_only: bool,
    pub aac: bool,
    pub audio_none: bool,
    pub audio_named: bool,
    pub codec: Option<String>,
    pub limit: Option<u64>,
    pub selector_ok: bool,
    pub height: Option<u32>,
    pub width: Option<u32>,
    pub id: String,
}

impl View for FormatTraits {
    type V = Traits;

    open spec fn view(&self) -> Traits {
        Traits {
            eligible: self.eligible,
            video: self.video,
            audio_only: self.audio_only,
            aac: self.aac,
            audio_none: self.audio_none,
            audio_named: self.audio_named,
            codec: sv(self.codec),
            limit: self.limit,
            selector_ok: self.selector_ok,
            height: self.height,
            width: self.width,
            id: self.id@,
        }
    }
}

fn opt_is(o: &Option<String>, lit: &str) -> (r: bool)
    ensures
        r == (sv(*o) == Some(lit@)),
{
    match o {
        Some(s) => str_eq(s.as_str(), lit),
        None => false,
    }
}

fn starts_with_lit(s: &Vec<char>, lit: &str) -> (r: bool)
    ensures
        r == starts_with(s@, lit@),
{
    let p = chars_of(lit);
    seq_starts_with(s, &p)
}

fn lit_eq(s: &Vec<char>, lit: &str) -> (r: bool)
    ensures
        r == (s@ == lit@),
{
    let p = chars_of(lit);
    crate::text::seq_eq(s, &p)
}

/// The display name of a video codec.
pub fn codec_name(vcodec: &Option<String>) -> (r: Option<String>)
    ensures
        sv(r) == codec_name_spec(sv(*vcodec)),
{
    proof {
        reveal_strlit("none");
        reveal_strlit("H.264");
        reveal_strlit("HEVC");
        reveal_strlit("AV1");
        reveal_strlit("VP9");
    }
    let c = match vcodec {
        Some(c) => c,
        None => return None,
    };
    let lower = to_lowercase(c.as_str());
    let l = chars_of(lower.as_str());
    if l.len() == 0 || lit_eq(&l, "none") {
        None
    } else if starts_with_lit(&l, "avc1") || starts_with_lit(&l, "avc3") || lit_eq(&l, "h264") {
        Some(String::from_str("H.264"))
    } else if starts_with_lit(&l, "hev1") || starts_with_lit(&l, "hvc1") || lit_eq(&l, "hevc")
        || lit_eq(&l, "h265") {
        Some(String::from_str("HEVC"))
    } else if starts_with_lit(&l, "av01") || lit_eq(&l, "av1") {
        Some(String::from_str("AV1"))
    } else if starts_with_lit(&l, "vp09") || lit_eq(&l, "vp9") {
        Some(String::from_str("VP9"))
    } else {
        Some(to_uppercase(lower.as_str()))
    }
}

/// Whether a format identifier can be handed to the downloader unchanged.
pub fn selector_ok(id: &str) -> (r: bool)
    ensures
        r == selector_ok_spec(id@),
{
    let c = chars_of(id);
    if c.len() == 0 {
        return false;
    }
    let mut i: usize = 0;
    while i < c.len()
        invariant
            c@ == id@,
            i <= c.len(),
            forall|j: int| 0 <= j < i ==> selector_char(#[trigger] c@[j]),
        decreases c.len() - i,
    {
        let ch = c[i];
        if !(is_alnum(ch) || ch == '-' || ch == '_' || ch == '.') {
            return false;
        }
        i += 1;
    }
    true
}

fn media_name(ext: &String) -> (r: String)
    ensures
        r@ == "media."@ + ext@,
{
    let mut s = String::from_str("media.");
    s.append(ext.as_str());
    proof {
        reveal_strlit("media.");
    }
    s
}

/// The two trait lists agree on everything but whether a format is video
/// or audio only, the two traits that read the extension.
pub open spec fn same_but_kind(a: Traits, b: Traits) -> bool {
    &&& a.eligible == b.eligible
    &&& a.aac == b.aac
    &&& a.audio_none == b.audio_none
    &&& a.audio_named == b.audio_named
    &&& a.codec == b.codec
    &&& a.limit == b.limit
    &&& a.selector_ok == b.selector_ok
    &&& a.height == b.height
    &&& a.width == b.width
    &&& a.id == b.id
}

/// The properties of `f` that the choice rules read: all of them exactly
/// when its extension reads alike on every platform, and all but its kind
/// otherwise.
pub fn format_traits(f: &RemoteFormat) -> (r: FormatTraits)
    ensures
        plain_ext(*f) ==> r@ == traits_of(*f),
        same_but_kind(r@, traits_of(*f)),
{
    proof {
        reveal_strlit("none");
        reveal_strlit("aac");
        reveal_strlit("mp4a");
    }
    let vnone = opt_is(&f.vcodec, "none");
    let anone = opt_is(&f.acodec, "none");
    let ext_video = match &f.ext {
        Some(e) => is_video_path(media_name(e).as_str()),
        None => false,
    };
    let ext_audio = match &f.ext {
        Some(e) => is_audio_path(media_name(e).as_str()),
        None => false,
    };
    let vnamed = match &f.vcodec {
        Some(c) => !c.as_str().is_empty(),
        None => false,
    };
    let video = !vnone && (vnamed || (match f.height {
        Some(h) => h > 0,
        None => false,
    }) || (match f.width {
        Some(w) => w > 0,
        None => false,
    }) || ext_video);
    let audio_only = !video && !anone && (vnone || ext_audio);
    let aac = match &f.acodec {
        Some(c) => {
            let cv = chars_of(c.as_str());
            lit_eq(&cv, "aac") || starts_with_lit(&cv, "mp4a")
        },
        None => false,
    };
    let audio_named = match &f.acodec {
        Some(c) => !anone && !c.as_str().is_empty(),
        None => false,
    };
    FormatTraits {
        eligible: match f.has_drm {
            Some(d) => !d,
            None => true,
        },
        video,
        audio_only,
        aac,
        audio_none: anone,
        audio_named,
        codec: codec_name(&f.vcodec),
        limit: if f.limited {
            f.duration
        } else {
            None
        },
        selector_ok: selector_ok(f.format_id.as_str()),
        height: match f.height {
            Some(h) => if h > 0 {
                Some(h)
            } else {
                None
            },
            None => None,
        },
        width: match f.width {
            Some(w) => if w > 0 {
                Some(w)
            } else {
                None
            },
            None => None,
        },
        id: clone_string(&f.format_id),
    }
}

pub open spec fn views(v: Seq<FormatTraits>) -> Seq<Traits> {
    v.map_values(|x: FormatTraits| x@)
}

pub open spec fn option_views(v: Seq<DownloadOption>) -> Seq<OptionView> {
    v.map_values(|x: DownloadOption| x@)
}

/// The best audio format is an audio candidate that no other beats, and
/// the first of its kind.
pub proof fn lemma_best_audio(t: Seq<Traits>, n: int)
    requires
        0 <= n <= t.len(),
    ensures
        match best_audio(t, n) {
            Some(p) => {
                &&& 0 <= p < n
                &&& audio_cand(t, p)
                &&& forall|j: int|
                    0 <= j < n && audio_cand(t, j) ==> audio_key(t[j]) <= audio_key(t[p]) && (j
                        > p ==> audio_key(t[j]) < audio_key(t[p]))
            },
            None => forall|j: int| 0 <= j < n ==> !audio_cand(t, j),
        },
    decreases n,
{
    if n > 0 {
        lemma_best_audio(t, n - 1);
    }
}

/// `last_where` finds the last index that satisfies the predicate.
pub proof fn lemma_last_where(n: int, p: spec_fn(int) -> bool)
    requires
        0 <= n,
    ensures
        match last_where(n, p) {
            Some(i) => 0 <= i < n && p(i) && forall|j: int| i < j < n ==> !#[trigger] p(j),
            None => forall|j: int| 0 <= j < n ==> !#[trigger] p(j),
        },
    decreases n,
{
    if n > 0 {
        lemma_last_where(n - 1, p);
    }
}

fn best_audio_index(tv: &Vec<FormatTraits>) -> (r: Option<usize>)
    ensures
        match (r, best_audio(views(tv@), tv@.len() as int)) {
            (Some(a), Some(b)) => a as int == b,
            (None, None) => true,
            _ => false,
        },
{
    let ghost t = views(tv@);
    let mut best: Option<usize> = None;
    let mut i: usize = 0;
    while i < tv.len()
        invariant
            t == views(tv@),
            i <= tv.len(),
            match (best, best_audio(t, i as int)) {
                (Some(a), Some(b)) => a as int == b,
                (None, None) => true,
                _ => false,
            },
            best matches Some(b) ==> b < i,
        decreases tv.len() - i,
    {
        let f = &tv[i];
        let key_i: u8 = (if f.limit.is_none() { 2 } else { 0 }) + (if f.aac { 1 } else { 0 });
        let take = f.eligible && f.audio_only && match best {
            Some(b) => {
                let g = &tv[b];
                let key_b: u8 = (if g.limit.is_none() { 2 } else { 0 }) + (if g.aac { 1 } else { 0 });
                key_i >= key_b
            },
            None => true,
        };
        if take {
            best = Some(i);
        }
        i += 1;
    }
    best
}

fn last_audio_index(tv: &Vec<FormatTraits>) -> (r: Option<usize>)
    ensures
        match (r, last_audio(views(tv@))) {
            (Some(a), Some(b)) => a as int == b,
            (None, None) => true,
            _ => false,
        },
{
    let ghost t = views(tv@);
    let ghost p = |i: int| audio_cand(t, i);
    let mut last: Option<usize> = None;
    let mut i: usize = 0;
    while i < tv.len()
        invariant
            t == views(tv@),
            p == (|i: int| audio_cand(t, i)),
            i <= tv.len(),
            match (last, last_where(i as int, p)) {
                (Some(a), Some(b)) => a as int == b,
                (None, None) => true,
                _ => false,
            },
        decreases tv.len() - i,
    {
        if tv[i].eligible && tv[i].audio_only {
            last = Some(i);
        }
        i += 1;
    }
    last
}

fn last_sounding_video(tv: &Vec<FormatTraits>) -> (r: Option<usize>)
    ensures
        match (r, last_where(tv@.len() as int, |i: int| video_cand(views(tv@), i) && !views(tv@)[i].audio_none)) {
            (Some(a), Some(b)) => a as int == b,
            (None, None) => true,
            _ => false,
        },
{
    let ghost t = views(tv@);
    let ghost p = |i: int| video_cand(t, i) && !t[i].audio_none;
    let mut last: Option<usize> = None;
    let mut i: usize = 0;
    while i < tv.len()
        invariant
            t == views(tv@),
            p == (|i: int| video_cand(t, i) && !t[i].audio_none),
            i <= tv.len(),
            match (last, last_where(i as int, p)) {
                (Some(a), Some(b)) => a as int == b,
                (None, None) => true,
                _ => false,
            },
        decreases tv.len() - i,
    {
        if tv[i].eligible && tv[i].video && !tv[i].audio_none {
            last = Some(i);
        }
        i += 1;
    }
    last
}

/// The chosen format of one resolution so far, with its rank.
#[derive(Debug)]
pub struct Entry {
    pub height: Option<u32>,
    pub rank: u8,
    pub idx: usize,
}

pub open spec fn entries_ok(t: Seq<Traits>, e: Seq<Entry>, n: int) -> bool {
    &&& forall|a: int, b: int|
        0 <= a < b < e.len() ==> height_lt(#[trigger] e[b].height, #[trigger] e[a].height)
    &&& forall|k: int|
        0 <= k < e.len() ==> {
            &&& chosen(t, #[trigger] e[k].idx as int, n)
            &&& e[k].height == t[e[k].idx as int].height
            &&& e[k].rank == video_rank(t, e[k].idx as int)
        }
    &&& forall|i: int|
        0 <= i < n && video_cand(t, i) ==> exists|k: int|
            0 <= k < e.len() && #[trigger] e[k].height == t[i].height
}

/// A chosen video format is a video candidate within range.
pub proof fn lemma_chosen_basic(t: Seq<Traits>, w: int, n: int)
    requires
        chosen(t, w, n),
    ensures
        0 <= w < n,
        video_cand(t, w),
{
    reveal(chosen);
}

proof fn lemma_height_total(a: Option<u32>, b: Option<u32>)
    ensures
        a == b || height_lt(a, b) || height_lt(b, a),
        !(height_lt(a, b) && height_lt(b, a)),
        !height_lt(a, a),
{
}

proof fn lemma_height_trans(a: Option<u32>, b: Option<u32>, c: Option<u32>)
    requires
        height_lt(a, b),
        height_lt(b, c),
    ensures
        height_lt(a, c),
{
}

proof fn lemma_entries_skip(t: Seq<Traits>, e: Seq<Entry>, n: int)
    requires
        0 <= n < t.len(),
        entries_ok(t, e, n),
        !video_cand(t, n),
    ensures
        entries_ok(t, e, n + 1),
{
    reveal(chosen);
    assert forall|k: int| 0 <= k < e.len() implies chosen(t, #[trigger] e[k].idx as int, n + 1) by {
        assert(chosen(t, e[k].idx as int, n));
    }
}

fn height_less(a: Option<u32>, b: Option<u32>) -> (r: bool)
    ensures
        r == height_lt(a, b),
{
    match (a, b) {
        (None, Some(_)) => true,
        (Some(x), Some(y)) => x < y,
        _ => false,
    }
}

fn place(entries: &mut Vec<Entry>, Ghost(t): Ghost<Seq<Traits>>, n: usize, h: Option<u32>, rank: u8)
    requires
        (n as int) < t.len(),
        entries_ok(t, old(entries)@, n as int),
        video_cand(t, n as int),
        h == t[n as int].height,
        rank == video_rank(t, n as int),
    ensures
        entries_ok(t, final(entries)@, n + 1),
{
    reveal(chosen);
    let ghost e0 = entries@;
    let mut p: usize = 0;
    while p < entries.len() && height_less(h, entries[p].height)
        invariant
            entries@ == e0,
            p <= entries.len(),
            forall|k: int| 0 <= k < p ==> height_lt(h, #[trigger] e0[k].height),
        decreases entries.len() - p,
    {
        p += 1;
    }
    if p < entries.len() && entries[p].height == h {
        if rank >= entries[p].rank {
            let ghost w = e0[p as int].idx as int;
            entries.set(p, Entry { height: h, rank, idx: n });
            proof {
                let e1 = entries@;
                assert forall|a: int, b: int| 0 <= a < b < e1.len() implies height_lt(
                    #[trigger] e1[b].height,
                    #[trigger] e1[a].height,
                ) by {
                    assert(height_lt(e0[b].height, e0[a].height));
                }
                assert forall|k: int| 0 <= k < e1.len() implies {
                    &&& chosen(t, #[trigger] e1[k].idx as int, n + 1)
                    &&& e1[k].height == t[e1[k].idx as int].height
                    &&& e1[k].rank == video_rank(t, e1[k].idx as int)
                } by {
                    if k == p {
                        assert(chosen(t, w, n as int));
                        assert forall|j: int|
                            0 <= j < n + 1 && video_cand(t, j) && #[trigger] t[j].height
                                == t[n as int].height implies video_rank(t, j) <= video_rank(
                            t,
                            n as int,
                        ) && (j > n ==> video_rank(t, j) < video_rank(t, n as int)) by {
                            if j < n {
                                assert(t[j].height == t[w].height);
                            }
                        }
                    } else {
                        assert(chosen(t, e0[k].idx as int, n as int));
                        if k < p {
                            assert(height_lt(e0[p as int].height, e0[k].height));
                        } else {
                            assert(height_lt(e0[k].height, e0[p as int].height));
                        }
                        lemma_height_total(e0[k].height, h);
                    }
                }
                assert forall|i: int| 0 <= i < n + 1 && video_cand(t, i) implies exists|k: int|
                    0 <= k < e1.len() && #[trigger] e1[k].height == t[i].height by {
                    if i == n {
                        assert(e1[p as int].height == t[i].height);
                    } else {
                        let k = choose|k: int| 0 <= k < e0.len() && #[trigger] e0[k].height == t[i].height;
                        assert(e1[k].height == t[i].height);
                    }
                }
            }
        } else {
            proof {
                let w = e0[p as int].idx as int;
                assert forall|k: int| 0 <= k < e0.len() implies chosen(t, #[trigger] e0[k].idx as int, n + 1) by {
                    assert(chosen(t, e0[k].idx as int, n as int));
                    if k != p {
                        if k < p {
                            assert(height_lt(e0[p as int].height, e0[k].height));
                        } else {
                            assert(height_lt(e0[k].height, e0[p as int].height));
                        }
                        lemma_height_total(e0[k].height, h);
                    }
                }
                assert forall|i: int| 0 <= i < n + 1 && video_cand(t, i) implies exists|k: int|
                    0 <= k < e0.len() && #[trigger] e0[k].height == t[i].height by {
                    if i == n {
                        assert(e0[p as int].height == t[i].height);
                    }
                }
            }
        }
    } else {
        proof {
            if p < e0.len() {
                lemma_height_total(e0[p as int].height, h);
            }
        }
        entries.insert(p, Entry { height: h, rank, idx: n });
        proof {
            let e1 = entries@;
            assert(e1 == e0.insert(p as int, Entry { height: h, rank, idx: n }));
            assert forall|a: int, b: int| 0 <= a < b < e1.len() implies height_lt(
                #[trigger] e1[b].height,
                #[trigger] e1[a].height,
            ) by {
                if b < p {
                    assert(height_lt(e0[b].height, e0[a].height));
                } else if b == p {
                    assert(height_lt(h, e0[a].height));
                } else if a < p {
                    assert(height_lt(e0[b - 1].height, e0[p as int].height) || b - 1 == p);
                    assert(height_lt(e0[p as int].height, h));
                    if b - 1 > p {
                        lemma_height_trans(e0[b - 1].height, e0[p as int].height, h);
                    }
                    assert(height_lt(h, e0[a].height));
                    lemma_height_trans(e0[b - 1].height, h, e0[a].height);
                } else if a == p {
                    assert(height_lt(e0[p as int].height, h));
                    if b - 1 > p {
                        assert(height_lt(e0[b - 1].height, e0[p as int].height));
                        lemma_height_trans(e0[b - 1].height, e0[p as int].height, h);
                    }
                } else {
                    assert(height_lt(e0[b - 1].height, e0[a - 1].height));
                }
            }
            assert forall|k: int| 0 <= k < e1.len() implies {
                &&& chosen(t, #[trigger] e1[k].idx as int, n + 1)
                &&& e1[k].height == t[e1[k].idx as int].height
                &&& e1[k].rank == video_rank(t, e1[k].idx as int)
            } by {
                if k == p {
                    assert forall|j: int|
                        0 <= j < n + 1 && video_cand(t, j) && #[trigger] t[j].height
                            == t[n as int].height implies video_rank(t, j) <= video_rank(
                        t,
                        n as int,
                    ) && (j > n ==> video_rank(t, j) < video_rank(t, n as int)) by {
                        if j < n {
                            let q = choose|q: int| 0 <= q < e0.len() && #[trigger] e0[q].height == t[j].height;
                            if q < p {
                                assert(height_lt(h, e0[q].height));
                            } else {
                                assert(height_lt(e0[q].height, h)) by {
                                    if q > p {
                                        lemma_height_trans(e0[q].height, e0[p as int].height, h);
                                    }
                                }
                            }
                            lemma_height_total(e0[q].height, h);
                        }
                    }
                } else {
                    let q = if k < p { k } else { k - 1 };
                    assert(e1[k] == e0[q]);
                    assert(chosen(t, e0[q].idx as int, n as int));
                    if q < p {
                        assert(height_lt(h, e0[q].height));
                    } else {
                        assert(height_lt(e0[q].height, h)) by {
                            if q > p {
                                lemma_height_trans(e0[q].height, e0[p as int].height, h);
                            }
                        }
                    }
                    lemma_height_total(e0[q].height, h);
                }
            }
            assert forall|i: int| 0 <= i < n + 1 && video_cand(t, i) implies exists|k: int|
                0 <= k < e1.len() && #[trigger] e1[k].height == t[i].height by {
                if i == n {
                    assert(e1[p as int].height == t[i].height);
                } else {
                    let q = choose|q: int| 0 <= q < e0.len() && #[trigger] e0[q].height == t[i].height;
                    if q < p {
                        assert(e1[q].height == t[i].height);
                    } else {
                        assert(e1[q + 1].height == t[i].height);
                    }
                }
            }
        }
    }
}

pub open spec fn same_opt_index(a: Option<usize>, b: Option<int>) -> bool {
    match (a, b) {
        (Some(x), Some(y)) => x as int == y,
        (None, None) => true,
        _ => false,
    }
}

fn companion_of(tv: &Vec<FormatTraits>, i: usize, best: Option<usize>) -> (r: Option<usize>)
    requires
        i < tv.len(),
        same_opt_index(best, best_audio(views(tv@), tv@.len() as int)),
    ensures
        same_opt_index(r, companion(views(tv@), i as int)),
        r matches Some(c) ==> c < tv.len(),
{
    proof {
        lemma_best_audio(views(tv@), tv@.len() as int);
    }
    if tv[i].audio_none {
        best
    } else {
        None
    }
}

fn rank_of(tv: &Vec<FormatTraits>, i: usize, comp: Option<usize>) -> (r: u8)
    requires
        i < tv.len(),
        same_opt_index(comp, companion(views(tv@), i as int)),
        comp matches Some(c) ==> c < tv.len(),
    ensures
        r as int == video_rank(views(tv@), i as int),
{
    proof {
        reveal_strlit("H.264");
    }
    let f = &tv[i];
    let complete = f.limit.is_none() && match comp {
        Some(c) => tv[c].limit.is_none(),
        None => true,
    };
    let h264 = opt_is(&f.codec, "H.264");
    let aac = match comp {
        Some(c) => tv[c].aac,
        None => f.aac,
    };
    (if complete { 4 } else { 0 }) + (if h264 { 2 } else { 0 }) + (if aac { 1 } else { 0 })
}

fn video_choice(tv: &Vec<FormatTraits>, i: usize, comp: Option<usize>) -> (r: DownloadOption)
    requires
        i < tv.len(),
        same_opt_index(comp, companion(views(tv@), i as int)),
        comp matches Some(c) ==> c < tv.len(),
    ensures
        r@ == video_option(views(tv@), i as int),
{
    proof {
        reveal_strlit("video:");
        reveal_strlit("video:original");
        reveal_strlit("+");
    }
    let f = &tv[i];
    let id = match f.height {
        Some(h) => {
            let mut s = String::from_str("video:");
            push_chars(&mut s, &decimal_chars(h as u64));
            s
        },
        None => String::from_str("video:original"),
    };
    let mut selector = clone_string(&f.id);
    match comp {
        Some(c) => {
            selector.append("+");
            selector.append(tv[c].id.as_str());
        },
        None => {},
    }
    proof {
        reveal(video_option);
    }
    let limit = match f.limit {
        Some(d) => Some(d),
        None => match comp {
            Some(c) => tv[c].limit,
            None => None,
        },
    };
    DownloadOption {
        id,
        media_type: MediaType::Video,
        height: f.height,
        width: f.width,
        format_selector: selector,
        extract_audio: false,
        requires_audio: comp.is_some() || f.audio_named,
        limited_duration: limit,
        video_codec: match &f.codec {
            Some(c) => Some(clone_string(c)),
            None => None,
        },
    }
}

fn audio_choice(f: &FormatTraits, id: &str, extract: bool) -> (r: DownloadOption)
    ensures
        r@ == audio_option(f@, id@, extract),
{
    DownloadOption {
        id: String::from_str(id),
        media_type: MediaType::Audio,
        height: None,
        width: None,
        format_selector: clone_string(&f.id),
        extract_audio: extract,
        requires_audio: true,
        limited_duration: f.limit,
        video_codec: None,
    }
}

/// Why no choices could be offered.
#[derive(Debug)]
pub enum ChoiceError {
    /// Some format that would be offered has an identifier that cannot be
    /// handed to the downloader.
    BadSelector,
    /// No format has a known audio or video type.
    NoFormats,
}

fn video_entries(tv: &Vec<FormatTraits>, best: Option<usize>) -> (r: Option<Vec<Entry>>)
    requires
        same_opt_index(best, best_audio(views(tv@), tv@.len() as int)),
    ensures
        match r {
            Some(e) => {
                &&& entries_ok(views(tv@), e@, tv@.len() as int)
                &&& forall|j: int|
                    0 <= j < tv@.len() && video_cand(views(tv@), j) ==> views(tv@)[j].selector_ok
                        && (companion(views(tv@), j) matches Some(c) ==> views(tv@)[c].selector_ok)
            },
            None => exists|i: int|
                0 <= i < tv@.len() && video_cand(views(tv@), i) && (!views(tv@)[i].selector_ok
                    || (companion(views(tv@), i) matches Some(c) && !views(tv@)[c].selector_ok)),
        },
{
    let ghost t = views(tv@);
    let mut entries: Vec<Entry> = Vec::new();
    let mut i: usize = 0;
    while i < tv.len()
        invariant
            t == views(tv@),
            i <= tv.len(),
            same_opt_index(best, best_audio(t, t.len() as int)),
            entries_ok(t, entries@, i as int),
            forall|j: int|
                0 <= j < i && video_cand(t, j) ==> t[j].selector_ok && (companion(t, j) matches Some(
                    c,
                ) ==> t[c].selector_ok),
        decreases tv.len() - i,
    {
        if tv[i].eligible && tv[i].video {
            let comp = companion_of(tv, i, best);
            let bad = !tv[i].selector_ok || match comp {
                Some(c) => !tv[c].selector_ok,
                None => false,
            };
            if bad {
                assert(video_cand(t, i as int));
                return None;
            }
            let rank = rank_of(tv, i, comp);
            place(&mut entries, Ghost(t), i, tv[i].height, rank);
        } else {
            proof {
                lemma_entries_skip(t, entries@, i as int);
            }
        }
        i += 1;
    }
    Some(entries)
}

/// A video option has the height of its format.
pub proof fn lemma_video_option_height(t: Seq<Traits>, i: int)
    ensures
        video_option(t, i).height == t[i].height,
{
    reveal(video_option);
}

proof fn lemma_video_choices(t: Seq<Traits>, e: Seq<Entry>, v: Seq<OptionView>)
    requires
        entries_ok(t, e, t.len() as int),
        v.len() == e.len(),
        forall|q: int| 0 <= q < e.len() ==> #[trigger] v[q] == video_option(t, e[q].idx as int),
    ensures
        video_choices(t, v),
        any_video(t) <==> v.len() > 0,
{
    assert forall|q: int| 0 <= q < v.len() implies #[trigger] v[q].height == e[q].height by {
        assert(v[q] == video_option(t, e[q].idx as int));
        lemma_video_option_height(t, e[q].idx as int);
    }
    assert forall|a: int, b: int| 0 <= a < b < v.len() implies height_lt(
        #[trigger] v[b].height,
        #[trigger] v[a].height,
    ) by {
        assert(v[a].height == e[a].height);
        assert(v[b].height == e[b].height);
        assert(height_lt(e[b].height, e[a].height));
    }
    assert forall|q: int| 0 <= q < v.len() implies exists|w: int|
        chosen(t, w, t.len() as int) && #[trigger] v[q] == video_option(t, w) by {
        assert(chosen(t, e[q].idx as int, t.len() as int));
    }
    assert forall|j: int| 0 <= j < t.len() && video_cand(t, j) implies exists|q: int|
        0 <= q < v.len() && #[trigger] v[q].height == t[j].height by {
        let q = choose|q: int| 0 <= q < e.len() && #[trigger] e[q].height == t[j].height;
        assert(v[q].height == e[q].height);
    }
    if any_video(t) {
        let j = choose|j: int| 0 <= j < t.len() && video_cand(t, j);
        let q = choose|q: int| 0 <= q < e.len() && #[trigger] e[q].height == t[j].height;
    }
    if e.len() > 0 {
        assert(chosen(t, e[0].idx as int, t.len() as int));
        lemma_chosen_basic(t, e[0].idx as int, t.len() as int);
    }
}

fn video_options(tv: &Vec<FormatTraits>, best: Option<usize>, entries: &Vec<Entry>) -> (r: Vec<
    DownloadOption,
>)
    requires
        same_opt_index(best, best_audio(views(tv@), tv@.len() as int)),
        entries_ok(views(tv@), entries@, tv@.len() as int),
    ensures
        video_choices(views(tv@), option_views(r@)),
        any_video(views(tv@)) <==> r@.len() > 0,
{
    let ghost t = views(tv@);
    let mut options: Vec<DownloadOption> = Vec::new();
    let mut k: usize = 0;
    while k < entries.len()
        invariant
            t == views(tv@),
            same_opt_index(best, best_audio(t, t.len() as int)),
            entries_ok(t, entries@, t.len() as int),
            k <= entries.len(),
            options@.len() == k,
            forall|q: int|
                0 <= q < k ==> #[trigger] options@[q]@ == video_option(t, entries@[q].idx as int),
        decreases entries.len() - k,
    {
        let idx = entries[k].idx;
        proof {
            lemma_chosen_basic(t, entries@[k as int].idx as int, t.len() as int);
        }
        let comp = companion_of(tv, idx, best);
        let o = video_choice(tv, idx, comp);
        options.push(o);
        k += 1;
    }
    proof {
        lemma_video_choices(t, entries@, option_views(options@));
    }
    options
}

/// The choices that a list of format properties yields.
pub fn choose_options(tv: &Vec<FormatTraits>) -> (r: Result<Vec<DownloadOption>, ChoiceError>)
    ensures
        match r {
            Ok(v) => !bad_selector(views(tv@)) && choices(views(tv@), option_views(v@)) && v@.len()
                > 0,
            Err(ChoiceError::BadSelector) => bad_selector(views(tv@)),
            Err(ChoiceError::NoFormats) => !bad_selector(views(tv@)) && !any_video(views(tv@))
                && mp3_source(views(tv@)) is None,
        },
{
    let ghost t = views(tv@);
    let best = best_audio_index(tv);
    let entries = match video_entries(tv, best) {
        Some(e) => e,
        None => return Err(ChoiceError::BadSelector),
    };
    let mut options = video_options(tv, best, &entries);
    let ghost v = option_views(options@);
    let last = last_audio_index(tv);
    let ghost with_original = if v.len() == 0 && last_audio(t) is Some {
        v.push(audio_option(t[last_audio(t)->0], "audio:original"@, false))
    } else {
        v
    };
    proof {
        lemma_last_where(t.len() as int, |i: int| audio_cand(t, i));
        lemma_last_where(t.len() as int, |i: int| video_cand(t, i) && !t[i].audio_none);
    }
    if options.len() == 0 {
        match last {
            Some(a) => {
                if !tv[a].selector_ok {
                    return Err(ChoiceError::BadSelector);
                }
                let o = audio_choice(&tv[a], "audio:original", false);
                options.push(o);
                proof {
                    reveal_strlit("audio:original");
                    assert(option_views(options@) =~= with_original);
                }
            },
            None => {},
        }
    }
    assert(option_views(options@) =~= with_original);
    let source = match last {
        Some(a) => Some(a),
        None => last_sounding_video(tv),
    };
    match source {
        Some(m) => {
            if !tv[m].selector_ok {
                return Err(ChoiceError::BadSelector);
            }
            let o = audio_choice(&tv[m], "audio:mp3", true);
            options.push(o);
            proof {
                reveal_strlit("audio:mp3");
                assert(option_views(options@) =~= with_original.push(
                    audio_option(t[m as int], "audio:mp3"@, true),
                ));
            }
        },
        None => {},
    }
    if options.len() == 0 {
        return Err(ChoiceError::NoFormats);
    }
    assert(choices_with(t, v, option_views(options@)));
    Ok(options)
}

/// What the downloader reports about a video.
#[derive(Debug)]
pub struct VideoMetadata {
    pub title: String,
    pub id: String,
    pub season: Option<String>,
    pub series: Option<String>,
    pub is_live: Option<bool>,
    pub formats: Vec<RemoteFormat>,
}

pub open spec fn format_views(f: Seq<RemoteFormat>) -> Seq<Traits> {
    f.map_values(|x: RemoteFormat| traits_of(x))
}

pub open spec fn all_plain(f: Seq<RemoteFormat>) -> bool {
    forall|i: int| 0 <= i < f.len() ==> plain_ext(#[trigger] f[i])
}

/// Adds each trimmed, non-empty candidate that is not already there.
pub open spec fn title_parts(cands: Seq<Seq<char>>) -> Seq<Seq<char>>
    decreases cands.len(),
{
    if cands.len() == 0 {
        seq![]
    } else {
        let prev = title_parts(cands.drop_last());
        let part = trim(cands.last());
        if part.len() > 0 && !prev.contains(part) {
            prev.push(part)
        } else {
            prev
        }
    }
}

/// The parts joined with `sep` between each two.
pub open spec fn join(parts: Seq<Seq<char>>, sep: Seq<char>) -> Seq<char>
    decreases parts.len(),
{
    if parts.len() == 0 {
        seq![]
    } else if parts.len() == 1 {
        parts[0]
    } else {
        join(parts.drop_last(), sep) + sep + parts.last()
    }
}

pub open spec fn title_candidates(m: VideoMetadata) -> Seq<Seq<char>> {
    let a: Seq<Seq<char>> = match m.series {
        Some(s) => seq![s@],
        None => seq![],
    };
    let b: Seq<Seq<char>> = match m.season {
        Some(s) => seq![s@],
        None => seq![],
    };
    a + b + seq![m.title@]
}

pub open spec fn live_message() -> Seq<char> {
    "当前是直播链接，请使用已结束的视频链接"@
}

pub open spec fn selector_message() -> Seq<char> {
    "站点返回了无法选择的格式标识"@
}

pub open spec fn empty_message() -> Seq<char> {
    "没有可下载的音视频格式；缺少类型信息或当前账号没有可用格式"@
}

fn seqs_contain(parts: &Vec<Vec<char>>, x: &Vec<char>) -> (r: bool)
    ensures
        r == parts@.map_values(|p: Vec<char>| p@).contains(x@),
{
    let ghost pv = parts@.map_values(|p: Vec<char>| p@);
    let mut i: usize = 0;
    while i < parts.len()
        invariant
            pv == parts@.map_values(|p: Vec<char>| p@),
            i <= parts.len(),
            forall|j: int| 0 <= j < i ==> pv[j] != x@,
        decreases parts.len() - i,
    {
        if crate::text::seq_eq(&parts[i], x) {
            assert(pv[i as int] == x@);
            return true;
        }
        i += 1;
    }
    false
}

impl VideoMetadata {
    /// Series, season and title, trimmed, without repeats, joined by " - ".
    pub fn display_title(&self) -> (r: String)
        ensures
            r@ == join(title_parts(title_candidates(*self)), " - "@),
    {
        proof {
            reveal_strlit(" - ");
        }
        let mut cands: Vec<&String> = Vec::new();
        match &self.series {
            Some(s) => cands.push(s),
            None => {},
        }
        match &self.season {
            Some(s) => cands.push(s),
            None => {},
        }
        cands.push(&self.title);
        let ghost cs = cands@.map_values(|c: &String| c@);
        assert(cs =~= title_candidates(*self));
        let mut parts: Vec<Vec<char>> = Vec::new();
        let mut i: usize = 0;
        while i < cands.len()
            invariant
                cs == cands@.map_values(|c: &String| c@),
                i <= cands.len(),
                parts@.map_values(|p: Vec<char>| p@) == title_parts(cs.take(i as int)),
            decreases cands.len() - i,
        {
            let c = chars_of(cands[i].as_str());
            let part = crate::text::trim_chars(&c);
            assert(cs.take(i + 1).drop_last() =~= cs.take(i as int));
            if part.len() > 0 && !seqs_contain(&parts, &part) {
                parts.push(part);
                assert(parts@.map_values(|p: Vec<char>| p@) =~= title_parts(cs.take(i as int)).push(
                    trim(cs[i as int]),
                ));
            }
            i += 1;
        }
        assert(cs.take(cands.len() as int) =~= cs);
        let ghost pv = parts@.map_values(|p: Vec<char>| p@);
        let mut out: Vec<char> = Vec::new();
        let sep = chars_of(" - ");
        let mut k: usize = 0;
        while k < parts.len()
            invariant
                pv == parts@.map_values(|p: Vec<char>| p@),
                sep@ == " - "@,
                k <= parts.len(),
                out@ == join(pv.take(k as int), " - "@),
            decreases parts.len() - k,
        {
            if k > 0 {
                out.extend_from_slice(sep.as_slice());
            }
            out.extend_from_slice(parts[k].as_slice());
            assert(pv.take(k + 1).drop_last() =~= pv.take(k as int));
            if k == 0 {
                assert(out@ =~= join(pv.take(1), " - "@));
            } else {
                assert(out@ =~= join(pv.take(k + 1), " - "@));
            }
            k += 1;
        }
        assert(pv.take(parts.len() as int) =~= pv);
        string_of(&out)
    }

    /// The download choices, from the highest resolution down, then audio.
    pub fn download_options(&self) -> (r: Result<Vec<DownloadOption>, String>)
        ensures
            self.is_live == Some(true) ==> (r matches Err(e) && e@ == live_message()),
            r matches Ok(v) ==> v@.len() > 0,
            r matches Ok(v) ==> forall|a: int, b: int|
                0 <= a < b < v@.len() ==> #[trigger] v@[a].id@ != #[trigger] v@[b].id@,
            r matches Ok(v) ==> forall|k: int|
                0 <= k < v@.len() ==> selects_drm_free(self.formats@, #[trigger] v@[k].format_selector@),
            r matches Ok(v) ==> exists|t: Seq<Traits>|
                #[trigger] choices(t, option_views(v@)) && t.len() == self.formats@.len() && (forall|i: int|
                    0 <= i < t.len() && plain_ext(self.formats@[i]) ==> t[i] == traits_of(
                        #[trigger] self.formats@[i],
                    )) && (forall|i: int|
                    0 <= i < t.len() ==> same_but_kind(t[i], traits_of(#[trigger] self.formats@[i]))),
            self.is_live != Some(true) && all_plain(self.formats@) ==> {
                let t = format_views(self.formats@);
                match r {
                    Ok(v) => !bad_selector(t) && choices(t, option_views(v@)),
                    Err(e) => if bad_selector(t) {
                        e@ == selector_message()
                    } else {
                        !any_video(t) && mp3_source(t) is None && e@ == empty_message()
                    },
                }
            },
    {
        proof {
            reveal_strlit("当前是直播链接，请使用已结束的视频链接");
            reveal_strlit("站点返回了无法选择的格式标识");
            reveal_strlit("没有可下载的音视频格式；缺少类型信息或当前账号没有可用格式");
        }
        if self.is_live == Some(true) {
            return Err(String::from_str("当前是直播链接，请使用已结束的视频链接"));
        }
        let mut tv: Vec<FormatTraits> = Vec::new();
        let mut i: usize = 0;
        while i < self.formats.len()
            invariant
                i <= self.formats.len(),
                tv@.len() == i,
                forall|j: int|
                    0 <= j < i && plain_ext(self.formats@[j]) ==> #[trigger] tv@[j]@ == traits_of(
                        self.formats@[j],
                    ),
                forall|j: int| 0 <= j < i ==> same_but_kind(#[trigger] tv@[j]@, traits_of(self.formats@[j])),
            decreases self.formats.len() - i,
        {
            tv.push(format_traits(&self.formats[i]));
            i += 1;
        }
        proof {
            if all_plain(self.formats@) {
                assert(views(tv@) =~= format_views(self.formats@));
            }
        }
        match choose_options(&tv) {
            Ok(v) => {
                proof {
                    crate::laws::download_choices_are_well_formed(views(tv@), option_views(v@));
                    let t = views(tv@);
                    let fs = self.formats@;
                    assert forall|k: int| 0 <= k < v@.len() implies selects_drm_free(fs, #[trigger] v@[k].format_selector@) by {
                        assert(option_views(v@)[k].format_selector == v@[k].format_selector@);
                        let sel = v@[k].format_selector@;
                        assert(selects_eligible(t, sel));
                        let w = choose|w: int| #![trigger t[w]] 0 <= w < t.len() && t[w].eligible && (sel == t[w].id || exists|c: int|
                            #![trigger t[c]]
                            0 <= c < t.len() && t[c].eligible && sel == t[w].id + "+"@ + t[c].id);
                        assert(same_but_kind(tv@[w]@, traits_of(fs[w])));
                        assert(fs[w].has_drm != Some(true));
                        if sel != t[w].id {
                            let c = choose|c: int| #![trigger t[c]] 0 <= c < t.len() && t[c].eligible && sel == t[w].id + "+"@ + t[c].id;
                            assert(same_but_kind(tv@[c]@, traits_of(fs[c])));
                            assert(fs[c].has_drm != Some(true));
                            assert(sel == fs[w].format_id@ + "+"@ + fs[c].format_id@);
                        } else {
                            assert(sel == fs[w].format_id@);
                        }
                    }
                    assert forall|a: int, b: int| 0 <= a < b < v@.len() implies #[trigger] v@[a].id@
                        != #[trigger] v@[b].id@ by {
                        assert(option_views(v@)[a].id == v@[a].id@);
                        assert(option_views(v@)[b].id == v@[b].id@);
                    }
                }
                assert(views(tv@).len() == self.formats@.len());
                assert(forall|i: int|
                    0 <= i < self.formats@.len() && plain_ext(self.formats@[i]) ==> views(tv@)[i]
                        == traits_of(#[trigger] self.formats@[i]));
                assert(forall|i: int|
                    0 <= i < self.formats@.len() ==> same_but_kind(views(tv@)[i], traits_of(#[trigger] self.formats@[i])));
                Ok(v)
            },
            Err(ChoiceError::BadSelector) => Err(String::from_str("站点返回了无法选择的格式标识")),
            Err(ChoiceError::NoFormats) => Err(
                String::from_str("没有可下载的音视频格式；缺少类型信息或当前账号没有可用格式"),
            ),
        }
    }
}

} // verus!
