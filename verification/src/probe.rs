//! What a media probe found in a file, and the playback path chosen from it.
use crate::media::{clone_string, Media, MediaType};
use crate::playback::PlaybackPlan;
use crate::sys::path_is_file;
use crate::text::{chars_of, contains, slice, str_contains, str_eq, trim, trim_chars};
use vstd::prelude::*;

verus! {

/// One stream that the probe lists.
#[derive(Debug)]
pub struct ProbeStream {
    pub codec_type: Option<String>,
    pub codec_name: Option<String>,
    pub height: Option<u32>,
    pub width: Option<u32>,
    /// The stream's `disposition.attached_pic` flag, if reported.
    pub attached_pic: Option<u8>,
}

/// The probe's report of a file: its container name and streams.
#[derive(Debug)]
pub struct ProbeOutput {
    pub format_name: Option<String>,
    /// Bit pattern of the binary64 number that the format's duration text
    /// parsed to, if it parsed.
    pub duration_bits: Option<u64>,
    pub streams: Vec<ProbeStream>,
}

/// What the player needs to know about a file's streams.
#[derive(Debug)]
pub struct MediaInfo {
    pub media_type: MediaType,
    /// Bit pattern of the duration in seconds, kept only when finite and positive.
    pub duration_bits: Option<u64>,
    pub container: Option<String>,
    pub video_codec: Option<String>,
    pub audio_codec: Option<String>,
    pub has_video: bool,
    pub has_audio: bool,
    pub video_height: Option<u32>,
    pub video_width: Option<u32>,
}

/// A binary64 bit pattern of a finite number greater than zero.
pub open spec fn positive_finite(bits: u64) -> bool {
    0 < bits < 0x7ff0_0000_0000_0000u64
}

pub open spec fn sv(o: Option<String>) -> Option<Seq<char>> {
    match o {
        Some(s) => Some(s@),
        None => None,
    }
}

/// A picture stream (cover art) does not count as video.
pub open spec fn is_video_stream(s: ProbeStream) -> bool {
    sv(s.codec_type) == Some("video"@) && s.attached_pic != Some(1u8)
}

pub open spec fn is_audio_stream(s: ProbeStream) -> bool {
    sv(s.codec_type) == Some("audio"@)
}

/// Index of the first stream satisfying `p`.
pub open spec fn first_where(s: Seq<ProbeStream>, p: spec_fn(ProbeStream) -> bool) -> Option<int>
    decreases s.len(),
{
    if s.len() == 0 {
        None
    } else if p(s[0]) {
        Some(0)
    } else {
        match first_where(s.drop_first(), p) {
            Some(i) => Some(i + 1),
            None => None,
        }
    }
}

/// `first_where` finds the first stream that satisfies the predicate.
pub proof fn lemma_first_where(s: Seq<ProbeStream>, p: spec_fn(ProbeStream) -> bool)
    ensures
        match first_where(s, p) {
            Some(i) => 0 <= i < s.len() && p(s[i]) && forall|j: int| 0 <= j < i ==> !p(#[trigger] s[j]),
            None => forall|j: int| 0 <= j < s.len() ==> !p(#[trigger] s[j]),
        },
    decreases s.len(),
{
    if s.len() > 0 && !p(s[0]) {
        let t = s.drop_first();
        lemma_first_where(t, p);
        assert(forall|j: int| 0 <= j < t.len() ==> t[j] == s[j + 1]);
        match first_where(t, p) {
            Some(i) => {
                assert forall|j: int| 0 <= j < i + 1 implies !p(#[trigger] s[j]) by {
                    if j > 0 {
                        assert(s[j] == t[j - 1]);
                    }
                }
            },
            None => {
                assert forall|j: int| 0 <= j < s.len() implies !p(#[trigger] s[j]) by {
                    if j > 0 {
                        assert(s[j] == t[j - 1]);
                    }
                }
            },
        }
    }
}

pub ghost struct InfoView {
    pub media_type: MediaType,
    pub duration_bits: Option<u64>,
    pub container: Option<Seq<char>>,
    pub video_codec: Option<Seq<char>>,
    pub audio_codec: Option<Seq<char>>,
    pub has_video: bool,
    pub has_audio: bool,
    pub video_height: Option<u32>,
    pub video_width: Option<u32>,
}

impl View for MediaInfo {
    type V = InfoView;

    open spec fn view(&self) -> InfoView {
        InfoView {
            media_type: self.media_type,
            duration_bits: self.duration_bits,
            container: sv(self.container),
            video_codec: sv(self.video_codec),
            audio_codec: sv(self.audio_codec),
            has_video: self.has_video,
            has_audio: self.has_audio,
            video_height: self.video_height,
            video_width: self.video_width,
        }
    }
}

/// The information of a probe report: its first video stream and first audio
/// stream decide; a file with neither has no usable media.
pub open spec fn info_of(o: ProbeOutput) -> Option<InfoView> {
    let s = o.streams@;
    let v = first_where(s, |x: ProbeStream| is_video_stream(x));
    let a = first_where(s, |x: ProbeStream| is_audio_stream(x));
    if v is None && a is None {
        None
    } else {
        Some(
            InfoView {
                media_type: if v is Some {
                    MediaType::Video
                } else {
                    MediaType::Audio
                },
                duration_bits: match o.duration_bits {
                    Some(b) if positive_finite(b) => Some(b),
                    _ => None,
                },
                container: sv(o.format_name),
                video_codec: match v {
                    Some(i) => sv(s[i].codec_name),
                    None => None,
                },
                audio_codec: match a {
                    Some(i) => sv(s[i].codec_name),
                    None => None,
                },
                has_video: v is Some,
                has_audio: a is Some,
                video_height: match v {
                    Some(i) => s[i].height,
                    None => None,
                },
                video_width: match v {
                    Some(i) => s[i].width,
                    None => None,
                },
            },
        )
    }
}

fn opt_is(o: &Option<String>, lit: &str) -> (r: bool)
    ensures
        r == (sv(*o) == Some(lit@)),
{
    match o {
        Some(s) => str_eq(s.as_str(), lit),
        None => false,
    }
}

fn clone_opt(o: &Option<String>) -> (r: Option<String>)
    ensures
        r == *o,
{
    match o {
        Some(s) => Some(clone_string(s)),
        None => None,
    }
}

/// The information of a probe report, or why the file cannot be played.
pub fn media_info(output: &ProbeOutput) -> (r: Result<MediaInfo, String>)
    ensures
        match (r, info_of(*output)) {
            (Ok(i), Some(v)) => i@ == v,
            (Err(e), None) => e@ == "No audio or video streams found"@,
            _ => false,
        },
{
    proof {
        reveal_strlit("video");
        reveal_strlit("audio");
        reveal_strlit("No audio or video streams found");
    }
    let ghost s = output.streams@;
    let ghost pv = |x: ProbeStream| is_video_stream(x);
    let ghost pa = |x: ProbeStream| is_audio_stream(x);
    let mut video: Option<usize> = None;
    let mut audio: Option<usize> = None;
    let mut i: usize = 0;
    while i < output.streams.len()
        invariant
            s == output.streams@,
            pv == (|x: ProbeStream| is_video_stream(x)),
            pa == (|x: ProbeStream| is_audio_stream(x)),
            i <= s.len(),
            match video {
                Some(k) => k < i && pv(s[k as int]) && forall|j: int| 0 <= j < k ==> !pv(#[trigger] s[j]),
                None => forall|j: int| 0 <= j < i ==> !pv(#[trigger] s[j]),
            },
            match audio {
                Some(k) => k < i && pa(s[k as int]) && forall|j: int| 0 <= j < k ==> !pa(#[trigger] s[j]),
                None => forall|j: int| 0 <= j < i ==> !pa(#[trigger] s[j]),
            },
        decreases s.len() - i,
    {
        let st = &output.streams[i];
        if video.is_none() && opt_is(&st.codec_type, "video") && st.attached_pic != Some(1u8) {
            video = Some(i);
        }
        if audio.is_none() && opt_is(&st.codec_type, "audio") {
            audio = Some(i);
        }
        i += 1;
    }
    proof {
        lemma_first_where(s, pv);
        lemma_first_where(s, pa);
        match (video, first_where(s, pv)) {
            (Some(k), Some(m)) => {
                if m < k {
                    assert(!pv(s[m]));
                }
                if k < m {
                    assert(!pv(s[k as int]));
                }
            },
            (Some(k), None) => {
                assert(!pv(s[k as int]));
            },
            (None, Some(m)) => {
                assert(!pv(s[m]));
            },
            _ => {},
        }
        match (audio, first_where(s, pa)) {
            (Some(k), Some(m)) => {
                if m < k {
                    assert(!pa(s[m]));
                }
                if k < m {
                    assert(!pa(s[k as int]));
                }
            },
            (Some(k), None) => {
                assert(!pa(s[k as int]));
            },
            (None, Some(m)) => {
                assert(!pa(s[m]));
            },
            _ => {},
        }
    }
    let media_type = match (video, audio) {
        (Some(_), _) => MediaType::Video,
        (None, Some(_)) => MediaType::Audio,
        (None, None) => return Err(String::from_str("No audio or video streams found")),
    };
    Ok(
        MediaInfo {
            media_type,
            duration_bits: match output.duration_bits {
                Some(b) if 0 < b && b < 0x7ff0_0000_0000_0000u64 => Some(b),
                _ => None,
            },
            container: clone_opt(&output.format_name),
            video_codec: match video {
                Some(k) => clone_opt(&output.streams[k].codec_name),
                None => None,
            },
            audio_codec: match audio {
                Some(k) => clone_opt(&output.streams[k].codec_name),
                None => None,
            },
            has_video: video.is_some(),
            has_audio: audio.is_some(),
            video_height: match video {
                Some(k) => output.streams[k].height,
                None => None,
            },
            video_width: match video {
                Some(k) => output.streams[k].width,
                None => None,
            },
        },
    )
}

/// The comma-separated parts of `s`.
pub open spec fn split_commas(s: Seq<char>) -> Seq<Seq<char>>
    decreases s.len(),
{
    match crate::online::index_of(s, ',') {
        None => seq![s],
        Some(i) => {
            proof {
                crate::online::lemma_index_of(s, ',');
            }
            seq![s.take(i)] + split_commas(s.skip(i + 1))
        },
    }
}

pub open spec fn mp4_family_name(p: Seq<char>) -> bool {
    p == "mp4"@ || p == "mov"@ || p == "m4a"@ || p == "m4v"@ || p == "3gp"@ || p == "3g2"@ || p
        == "mj2"@
}

/// A container name of the MP4 family, such as FFmpeg's "mov,mp4,m4a,3gp,3g2,mj2".
pub open spec fn mp4_family(container: Seq<char>) -> bool {
    exists|k: int|
        0 <= k < split_commas(container).len() && mp4_family_name(
            trim(#[trigger] split_commas(container)[k]),
        )
}

fn mp4_name(p: &Vec<char>) -> (r: bool)
    ensures
        r == mp4_family_name(p@),
{
    let lits = ["mp4", "mov", "m4a", "m4v", "3gp", "3g2", "mj2"];
    proof {
        reveal_strlit("mp4");
        reveal_strlit("mov");
        reveal_strlit("m4a");
        reveal_strlit("m4v");
        reveal_strlit("3gp");
        reveal_strlit("3g2");
        reveal_strlit("mj2");
    }
    let mut i: usize = 0;
    while i < 7
        invariant
            i <= 7,
            lits@ == seq!["mp4", "mov", "m4a", "m4v", "3gp", "3g2", "mj2"],
            forall|j: int| 0 <= j < i ==> p@ != (#[trigger] lits@[j])@,
        decreases 7 - i,
    {
        let l = chars_of(lits[i]);
        if crate::text::seq_eq(p, &l) {
            return true;
        }
        i += 1;
    }
    assert(!mp4_family_name(p@)) by {
        assert(p@ != lits@[0]@);
        assert(p@ != lits@[1]@);
        assert(p@ != lits@[2]@);
        assert(p@ != lits@[3]@);
        assert(p@ != lits@[4]@);
        assert(p@ != lits@[5]@);
        assert(p@ != lits@[6]@);
    }
    false
}

/// Whether a container name is of the MP4 family.
pub fn is_mp4_family_container(container: &str) -> (r: bool)
    ensures
        r == mp4_family(container@),
{
    let c = chars_of(container);
    let mut start: usize = 0;
    let ghost parts = split_commas(c@);
    assert(c@.skip(0) =~= c@);
    assert(parts.skip(0) =~= parts);
    loop
        invariant
            c@ == container@,
            parts == split_commas(c@),
            start <= c.len(),
            exists|m: int|
                0 <= m <= parts.len() && parts.skip(m) == split_commas(c@.skip(start as int)) && (
                forall|k: int| 0 <= k < m ==> !mp4_family_name(trim(#[trigger] parts[k]))),
        decreases c.len() - start,
    {
        let ghost m = choose|m: int|
            0 <= m <= parts.len() && parts.skip(m) == split_commas(c@.skip(start as int)) && (
            forall|k: int| 0 <= k < m ==> !mp4_family_name(trim(#[trigger] parts[k])));
        let ghost rest = c@.skip(start as int);
        let found = crate::online::find_char(&c, start, ',');
        let end = match found {
            Some(e) => e,
            None => c.len(),
        };
        let part = slice(&c, start, end);
        let t = trim_chars(&part);
        proof {
            crate::online::lemma_index_of(rest, ',');
            match crate::online::index_of(rest, ',') {
                Some(i) => {
                    assert(part@ =~= rest.take(i));
                    assert(split_commas(rest) == seq![rest.take(i)] + split_commas(rest.skip(i + 1)));
                    assert(parts.skip(m)[0] == parts[m]);
                },
                None => {
                    assert(part@ =~= rest);
                    assert(split_commas(rest) == seq![rest]);
                    assert(parts.skip(m)[0] == parts[m]);
                },
            }
        }
        if mp4_name(&t) {
            return true;
        }
        match found {
            Some(e) => {
                proof {
                    let i = crate::online::index_of(rest, ',')->0;
                    assert(c@.skip(e + 1) =~= rest.skip(i + 1));
                    assert(parts.skip(m + 1) =~= parts.skip(m).drop_first());
                    assert forall|k: int| 0 <= k < m + 1 implies !mp4_family_name(trim(#[trigger] parts[k])) by {
                    }
                }
                start = e + 1;
            },
            None => {
                proof {
                    assert(parts.skip(m).len() == 1);
                    assert forall|k: int| 0 <= k < parts.len() implies !mp4_family_name(trim(#[trigger] parts[k])) by {
                    }
                }
                return false;
            },
        }
    }
}

pub open spec fn or_empty(o: Option<Seq<char>>) -> Seq<char> {
    match o {
        Some(s) => s,
        None => Seq::empty(),
    }
}

/// Whether the embedded browser player can play the file as it is: a WebM
/// file with VP8, VP9 or AV1 video and Opus or Vorbis audio, or a file of the
/// MP4 family with H.264, AV1 or HEVC video and AAC, MP3, ALAC or Opus audio.
/// HEVC support is left to the platform's decoder, which reports failure itself.
pub open spec fn browser_native(i: InfoView) -> bool {
    let c = or_empty(i.container);
    let v = or_empty(i.video_codec);
    let a = or_empty(i.audio_codec);
    if contains(c, "webm"@) {
        (v == "vp8"@ || v == "vp9"@ || v == "av1"@) && (a.len() == 0 || a == "opus"@ || a
            == "vorbis"@)
    } else {
        mp4_family(c) && (v == "h264"@ || v == "av1"@ || v == "hevc"@) && (a.len() == 0 || a
            == "aac"@ || a == "mp3"@ || a == "alac"@ || a == "opus"@)
    }
}

/// Whether copying the streams into an MP4 container makes the file playable
/// in the browser: H.264 or HEVC video with no audio, or AAC, MP3 or Opus audio.
pub open spec fn remuxable(i: InfoView) -> bool {
    (i.video_codec == Some("h264"@) || i.video_codec == Some("hevc"@)) && (i.audio_codec is None
        || i.audio_codec == Some("aac"@) || i.audio_codec == Some("mp3"@) || i.audio_codec == Some(
        "opus"@,
    ))
}

fn text_or_empty(o: &Option<String>) -> (r: &str)
    ensures
        r@ == or_empty(sv(*o)),
{
    proof {
        reveal_strlit("");
    }
    match o {
        Some(s) => s.as_str(),
        None => "",
    }
}

/// Whether the browser player plays the probed file without conversion.
pub fn is_browser_native(info: &MediaInfo) -> (r: bool)
    ensures
        r == browser_native(info@),
{
    proof {
        reveal_strlit("webm");
        reveal_strlit("vp8");
        reveal_strlit("vp9");
        reveal_strlit("av1");
        reveal_strlit("opus");
        reveal_strlit("vorbis");
        reveal_strlit("h264");
        reveal_strlit("hevc");
        reveal_strlit("aac");
        reveal_strlit("mp3");
        reveal_strlit("alac");
    }
    let container = text_or_empty(&info.container);
    let video = text_or_empty(&info.video_codec);
    let audio = text_or_empty(&info.audio_codec);
    if str_contains(container, "webm") {
        return (str_eq(video, "vp8") || str_eq(video, "vp9") || str_eq(video, "av1")) && (
        audio.is_empty() || str_eq(audio, "opus") || str_eq(audio, "vorbis"));
    }
    is_mp4_family_container(container) && (str_eq(video, "h264") || str_eq(video, "av1")
        || str_eq(video, "hevc")) && (audio.is_empty() || str_eq(audio, "aac") || str_eq(
        audio,
        "mp3",
    ) || str_eq(audio, "alac") || str_eq(audio, "opus"))
}

/// Whether the probed file becomes playable in the browser once its streams
/// are copied into an MP4 container.
pub fn can_remux_to_browser_mp4(info: &MediaInfo) -> (r: bool)
    ensures
        r == remuxable(info@),
{
    proof {
        reveal_strlit("h264");
        reveal_strlit("hevc");
        reveal_strlit("aac");
        reveal_strlit("mp3");
        reveal_strlit("opus");
    }
    (opt_is(&info.video_codec, "h264") || opt_is(&info.video_codec, "hevc")) && (
    info.audio_codec.is_none() || opt_is(&info.audio_codec, "aac") || opt_is(
        &info.audio_codec,
        "mp3",
    ) || opt_is(&info.audio_codec, "opus"))
}

/// The next step towards playing a probed file.
#[derive(Debug)]
pub enum PlanStep {
    /// Playback can start with this plan.
    Ready(PlaybackPlan),
    /// The file's streams must first be copied into an MP4 file; the browser
    /// then plays that copy, whose video has the codec given here.
    Remux { source: String, video_codec: String },
}

/// The playback path for the file at `path` from what its probe found: the
/// browser player where it plays the file directly or after a remux, the
/// external player for other video, the audio engine for audio alone.
pub fn plan_from_probe(path: &str, info: &MediaInfo) -> (r: Result<PlanStep, String>)
    ensures
        info.has_video && browser_native(info@) ==> (r matches Ok(
            PlanStep::Ready(PlaybackPlan::BrowserVideo { path: p, video_codec: c }),
        ) && p@ == path@ && info@.video_codec == Some(c@)),
        info.has_video && !browser_native(info@) && remuxable(info@) ==> (r matches Ok(
            PlanStep::Remux { source, video_codec },
        ) && source@ == path@ && info@.video_codec == Some(video_codec@)),
        info.has_video && !browser_native(info@) && !remuxable(info@) ==> (r matches Ok(
            PlanStep::Ready(PlaybackPlan::ExternalVideo { path: p }),
        ) && p@ == path@),
        !info.has_video && info.has_audio ==> (r matches Ok(
            PlanStep::Ready(PlaybackPlan::Audio { path: p }),
        ) && p@ == path@),
        !info.has_video && !info.has_audio ==> (r matches Err(e) && e@
            == "Unsupported media stream layout: "@ + path@),
{
    proof {
        reveal_strlit("");
        reveal_strlit("Unsupported media stream layout: ");
    }
    if info.has_video {
        if is_browser_native(info) {
            let codec = match &info.video_codec {
                Some(c) => clone_string(c),
                None => {
                    proof {
                        reveal_strlit("vp8");
                        reveal_strlit("vp9");
                        reveal_strlit("av1");
                        reveal_strlit("h264");
                        reveal_strlit("hevc");
                        let v = or_empty(sv(info.video_codec));
                        assert(v.len() == 0);
                        assert(v != "vp8"@ && v != "vp9"@ && v != "av1"@);
                        assert(v != "h264"@ && v != "hevc"@);
                    }
                    return Err(String::from_str("视频缺少编码信息"));
                },
            };
            return Ok(
                PlanStep::Ready(
                    PlaybackPlan::BrowserVideo { path: String::from_str(path), video_codec: codec },
                ),
            );
        }
        if can_remux_to_browser_mp4(info) {
            let codec = match &info.video_codec {
                Some(c) => clone_string(c),
                None => return Err(String::from_str("视频缺少编码信息")),
            };
            return Ok(PlanStep::Remux { source: String::from_str(path), video_codec: codec });
        }
        return Ok(PlanStep::Ready(PlaybackPlan::ExternalVideo { path: String::from_str(path) }));
    }
    if info.has_audio {
        return Ok(PlanStep::Ready(PlaybackPlan::Audio { path: String::from_str(path) }));
    }
    let mut m = String::from_str("Unsupported media stream layout: ");
    m.append(path);
    Err(m)
}

/// The plan once the remux of a file has produced the MP4 copy at `output`.
pub fn remuxed_plan(output: String, video_codec: String) -> (r: PlaybackPlan)
    ensures
        r == (PlaybackPlan::BrowserVideo { path: output, video_codec }),
{
    PlaybackPlan::BrowserVideo { path: output, video_codec }
}

/// The file to probe before playing a media item: its local or cached file,
/// once that file is found on disk.
pub fn prepare(media: &Media) -> (r: Result<String, String>)
    ensures
        match media.local_path_spec() {
            None => r matches Err(e) && e@ == "Media has no local playback asset"@,
            Some(p) => (r matches Ok(q) && q@ == p@) || (r matches Err(e) && e@
                == "Media file is unavailable: "@ + p@),
        },
{
    let path = match media.local_path() {
        Some(p) => p,
        None => return Err(String::from_str("Media has no local playback asset")),
    };
    if !path_is_file(path.as_str()) {
        let mut m = String::from_str("Media file is unavailable: ");
        m.append(path.as_str());
        proof {
            reveal_strlit("Media file is unavailable: ");
        }
        return Err(m);
    }
    Ok(clone_string(path))
}

/// The file a playback session plays: the media's local or cached file,
/// which must exist and, for a download, lie inside the current download
/// directory `directory`.
pub fn session_file(media: &Media, directory: &str) -> (r: Result<String, String>)
    ensures
        match media.local_path_spec() {
            None => r matches Err(e) && e@ == "媒体尚未下载，请在下载窗口创建任务"@,
            Some(p) => (r matches Ok(q) && q@ == p@) || (r matches Err(e) && e@ == "媒体文件不可用："@
                + p@) || (media.origin is Remote && (r matches Err(e) && e@
                == "媒体文件不在当前保存目录中，请刷新播放列表"@)),
        },
{
    let path = match media.local_path() {
        Some(p) => p,
        None => return Err(String::from_str("媒体尚未下载，请在下载窗口创建任务")),
    };
    if !path_is_file(path.as_str()) {
        let mut m = String::from_str("媒体文件不可用：");
        m.append(path.as_str());
        proof {
            reveal_strlit("媒体文件不可用：");
        }
        return Err(m);
    }
    if let crate::media::MediaOrigin::Remote { .. } = &media.origin {
        match crate::directory::contains_path(directory, path.as_str()) {
            Ok(true) => {},
            _ => return Err(String::from_str("媒体文件不在当前保存目录中，请刷新播放列表")),
        }
    }
    Ok(clone_string(path))
}

} // verus!
