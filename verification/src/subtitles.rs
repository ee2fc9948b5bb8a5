//! Subtitle text: SubRip and WebVTT cues, read with the `subtp` crate.
use crate::text::{ascii_lower, chars_of, str_eq, string_of};
use subtp::vtt::VttBlock;
use vstd::prelude::*;

verus! {

/// A cue time as the subtitle file writes it.
#[derive(Clone, Copy, Debug, PartialEq, Eq, Structural)]
pub struct Timestamp {
    pub hours: u8,
    pub minutes: u8,
    pub seconds: u8,
    pub milliseconds: u16,
}

impl Timestamp {
    pub open spec fn parts(self) -> (u8, u8, u8, u16) {
        (self.hours, self.minutes, self.seconds, self.milliseconds)
    }

    /// The time in whole milliseconds.
    pub open spec fn millis(self) -> int {
        ((self.hours * 60 + self.minutes) * 60 + self.seconds) * 1000 + self.milliseconds
    }
}

/// A cue as the parser hands it out: its times and its text lines.
#[derive(Debug)]
pub struct SubtitleBlock {
    pub start: Timestamp,
    pub end: Timestamp,
    pub lines: Vec<String>,
}

pub open spec fn line_views(lines: Seq<String>) -> Seq<Seq<char>> {
    lines.map_values(|l: String| l@)
}

pub open spec fn block_view(b: SubtitleBlock) -> ((u8, u8, u8, u16), (u8, u8, u8, u16), Seq<Seq<char>>) {
    (b.start.parts(), b.end.parts(), line_views(b.lines@))
}

pub open spec fn block_views(bs: Seq<SubtitleBlock>) -> Seq<((u8, u8, u8, u16), (u8, u8, u8, u16), Seq<Seq<char>>)> {
    bs.map_values(|b: SubtitleBlock| block_view(b))
}

impl SubtitleBlock {
    /// A block from the parser's fields.
    pub fn new(
        start_hours: u8,
        start_minutes: u8,
        start_seconds: u8,
        start_milliseconds: u16,
        end_hours: u8,
        end_minutes: u8,
        end_seconds: u8,
        end_milliseconds: u16,
        lines: Vec<String>,
    ) -> (r: SubtitleBlock)
        ensures
            r.start == (Timestamp {
                hours: start_hours,
                minutes: start_minutes,
                seconds: start_seconds,
                milliseconds: start_milliseconds,
            }),
            r.end == (Timestamp {
                hours: end_hours,
                minutes: end_minutes,
                seconds: end_seconds,
                milliseconds: end_milliseconds,
            }),
            r.lines == lines,
    {
        SubtitleBlock {
            start: Timestamp {
                hours: start_hours,
                minutes: start_minutes,
                seconds: start_seconds,
                milliseconds: start_milliseconds,
            },
            end: Timestamp {
                hours: end_hours,
                minutes: end_minutes,
                seconds: end_seconds,
                milliseconds: end_milliseconds,
            },
            lines,
        }
    }
}

/// A block of a WebVTT file: a cue, or a comment, style or region block.
#[derive(Debug)]
pub enum VttItem {
    Cue(SubtitleBlock),
    Other,
}

pub open spec fn item_views(items: Seq<VttItem>) -> Seq<Option<((u8, u8, u8, u16), (u8, u8, u8, u16), Seq<Seq<char>>)>> {
    items.map_values(
        |i: VttItem|
            match i {
                VttItem::Cue(b) => Some(block_view(b)),
                VttItem::Other => None,
            },
    )
}

/// What `subtp::srt::SubRip::parse` reads from a text: each subtitle's start,
/// end and text lines, or the parser's error message.
pub uninterp spec fn srt_blocks(text: Seq<char>) -> Result<Seq<((u8, u8, u8, u16), (u8, u8, u8, u16), Seq<Seq<char>>)>, Seq<char>>;

/// What `subtp::vtt::WebVtt::parse` reads from a text: for each block, its
/// start, end and payload lines when it is a cue, or the parser's error message.
pub uninterp spec fn vtt_blocks(text: Seq<char>) -> Result<Seq<Option<((u8, u8, u8, u16), (u8, u8, u8, u16), Seq<Seq<char>>)>>, Seq<char>>;

/// `subtp::srt::SubRip::parse(text)`, its subtitles converted one for one;
/// an error is given by its `Display` text.
#[verifier::external_body]
pub(crate) fn parse_srt(text: &str) -> (r: Result<Vec<SubtitleBlock>, String>)
    ensures
        match (r, srt_blocks(text@)) {
            (Ok(b), Ok(v)) => block_views(b@) == v,
            (Err(e), Err(m)) => e@ == m,
            _ => false,
        },
{
    let parsed = subtp::srt::SubRip::parse(text).map_err(|e| e.to_string())?;
    Ok(parsed.subtitles.into_iter().map(|c| SubtitleBlock::new(c.start.hours, c.start.minutes,
        c.start.seconds, c.start.milliseconds, c.end.hours, c.end.minutes, c.end.seconds,
        c.end.milliseconds, c.text)).collect())
}

/// `subtp::vtt::WebVtt::parse(text)`, its blocks converted one for one;
/// an error is given by its `Display` text.
#[verifier::external_body]
pub(crate) fn parse_vtt(text: &str) -> (r: Result<Vec<VttItem>, String>)
    ensures
        match (r, vtt_blocks(text@)) {
            (Ok(b), Ok(v)) => item_views(b@) == v,
            (Err(e), Err(m)) => e@ == m,
            _ => false,
        },
{
    let parsed = subtp::vtt::WebVtt::parse(text).map_err(|e| e.to_string())?;
    Ok(parsed.blocks.into_iter().map(|b| match b {
        VttBlock::Que(c) => VttItem::Cue(SubtitleBlock::new(c.timings.start.hours, c.timings.start.minutes,
            c.timings.start.seconds, c.timings.start.milliseconds, c.timings.end.hours,
            c.timings.end.minutes, c.timings.end.seconds, c.timings.end.milliseconds, c.payload)),
        VttBlock::Comment(_) => VttItem::Other,
        VttBlock::Style(_) => VttItem::Other,
        VttBlock::Region(_) => VttItem::Other,
    }).collect())
}

/// The text without its leading byte-order marks.
pub open spec fn strip_boms(s: Seq<char>) -> Seq<char>
    decreases s.len(),
{
    if s.len() > 0 && s[0] == '\u{feff}' {
        strip_boms(s.drop_first())
    } else {
        s
    }
}

/// The text with each CR LF pair replaced by LF, left to right.
pub open spec fn crlf_to_lf(s: Seq<char>) -> Seq<char>
    decreases s.len(),
{
    if s.len() == 0 {
        s
    } else if s.len() >= 2 && s[0] == '\r' && s[1] == '\n' {
        seq!['\n'] + crlf_to_lf(s.skip(2))
    } else {
        seq![s[0]] + crlf_to_lf(s.drop_first())
    }
}

/// The lines joined with LF between them.
pub open spec fn join_lines(lines: Seq<Seq<char>>) -> Seq<char>
    decreases lines.len(),
{
    if lines.len() == 0 {
        seq![]
    } else if lines.len() == 1 {
        lines[0]
    } else {
        join_lines(lines.drop_last()) + seq!['\n'] + lines.last()
    }
}

/// A cue read from a subtitle file: its times and its text.
#[derive(Debug)]
pub struct SubtitleCue {
    pub start: Timestamp,
    pub end: Timestamp,
    pub text: String,
}

pub open spec fn cue_views(cues: Seq<SubtitleCue>) -> Seq<((u8, u8, u8, u16), (u8, u8, u8, u16), Seq<char>)> {
    cues.map_values(|c: SubtitleCue| (c.start.parts(), c.end.parts(), c.text@))
}

pub open spec fn joined_block(b: ((u8, u8, u8, u16), (u8, u8, u8, u16), Seq<Seq<char>>)) -> ((u8, u8, u8, u16), (u8, u8, u8, u16), Seq<char>) {
    (b.0, b.1, join_lines(b.2))
}

/// The cues among WebVTT blocks, in order.
pub open spec fn vtt_cues(items: Seq<Option<((u8, u8, u8, u16), (u8, u8, u8, u16), Seq<Seq<char>>)>>) -> Seq<((u8, u8, u8, u16), (u8, u8, u8, u16), Seq<char>)>
    decreases items.len(),
{
    if items.len() == 0 {
        seq![]
    } else {
        vtt_cues(items.drop_last()) + match items.last() {
            Some(b) => seq![joined_block(b)],
            None => seq![],
        }
    }
}

/// The cues of a subtitle text: SubRip for the extension "srt", WebVTT
/// otherwise, after leading byte-order marks are dropped and CR LF line ends
/// become LF.
pub open spec fn subtitle_cues(text: Seq<char>, extension: Seq<char>) -> Result<Seq<((u8, u8, u8, u16), (u8, u8, u8, u16), Seq<char>)>, Seq<char>> {
    let source = crlf_to_lf(strip_boms(text));
    if extension == "srt"@ {
        match srt_blocks(source) {
            Ok(v) => Ok(v.map_values(|b: ((u8, u8, u8, u16), (u8, u8, u8, u16), Seq<Seq<char>>)| joined_block(b))),
            Err(m) => Err("SRT 解析失败: "@ + m),
        }
    } else {
        match vtt_blocks(source) {
            Ok(v) => Ok(vtt_cues(v)),
            Err(m) => Err("VTT 解析失败: "@ + m),
        }
    }
}

fn source_text(text: &str) -> (r: String)
    ensures
        r@ == crlf_to_lf(strip_boms(text@)),
{
    let c = chars_of(text);
    let mut start: usize = 0;
    assert(c@.skip(0) =~= c@);
    while start < c.len() && c[start] == '\u{feff}'
        invariant
            start <= c.len(),
            strip_boms(c@.skip(start as int)) == strip_boms(c@),
        decreases c.len() - start,
    {
        assert(c@.skip(start as int).drop_first() =~= c@.skip(start + 1));
        start += 1;
    }
    let ghost rest = c@.skip(start as int);
    assert(strip_boms(rest) == rest);
    let mut out: Vec<char> = Vec::new();
    let mut i: usize = start;
    while i < c.len()
        invariant
            start <= i <= c.len(),
            rest == c@.skip(start as int),
            out@ + crlf_to_lf(c@.skip(i as int)) == crlf_to_lf(rest),
        decreases c.len() - i,
    {
        let ghost t = c@.skip(i as int);
        if c[i] == '\r' && i + 1 < c.len() && c[i + 1] == '\n' {
            assert(t.skip(2) =~= c@.skip(i + 2));
            out.push('\n');
            assert(out@ + crlf_to_lf(c@.skip(i + 2)) =~= (out@.drop_last() + crlf_to_lf(t)));
            i += 2;
        } else {
            assert(t.drop_first() =~= c@.skip(i + 1));
            out.push(c[i]);
            assert(out@ + crlf_to_lf(c@.skip(i + 1)) =~= (out@.drop_last() + crlf_to_lf(t)));
            i += 1;
        }
    }
    assert(crlf_to_lf(c@.skip(i as int)) =~= Seq::<char>::empty());
    assert(out@ =~= out@ + crlf_to_lf(c@.skip(i as int)));
    string_of(&out)
}

fn join_with_lf(lines: &Vec<String>) -> (r: String)
    ensures
        r@ == join_lines(line_views(lines@)),
{
    let ghost views = line_views(lines@);
    let mut out = String::new();
    let mut i: usize = 0;
    while i < lines.len()
        invariant
            i <= lines.len(),
            views == line_views(lines@),
            out@ == join_lines(views.take(i as int)),
        decreases lines.len() - i,
    {
        proof {
            reveal_strlit("\n");
            let t = views.take(i + 1);
            assert(t.drop_last() =~= views.take(i as int));
            assert(t.last() == lines@[i as int]@);
        }
        if i > 0 {
            out.append("\n");
        }
        out.append(lines[i].as_str());
        proof {
            let t = views.take(i + 1);
            if i == 0 {
                assert(t.len() == 1);
                assert(join_lines(views.take(0)) =~= Seq::<char>::empty());
            }
        }
        i += 1;
    }
    assert(views.take(lines.len() as int) =~= views);
    out
}

fn cue_of(b: &SubtitleBlock) -> (r: SubtitleCue)
    ensures
        (r.start.parts(), r.end.parts(), r.text@) == joined_block(block_view(*b)),
{
    SubtitleCue { start: b.start, end: b.end, text: join_with_lf(&b.lines) }
}

/// The cues of parsed SRT blocks, their lines joined, in order.
pub fn srt_cues(blocks: &Vec<SubtitleBlock>) -> (r: Vec<SubtitleCue>)
    ensures
        cue_views(r@) == block_views(blocks@).map_values(
            |b: ((u8, u8, u8, u16), (u8, u8, u8, u16), Seq<Seq<char>>)| joined_block(b),
        ),
{
    let mut out: Vec<SubtitleCue> = Vec::new();
    let ghost v = block_views(blocks@);
    let mut i: usize = 0;
    while i < blocks.len()
        invariant
            i <= blocks.len(),
            v == block_views(blocks@),
            cue_views(out@) == v.take(i as int).map_values(
                |b: ((u8, u8, u8, u16), (u8, u8, u8, u16), Seq<Seq<char>>)| joined_block(b),
            ),
        decreases blocks.len() - i,
    {
        let ghost before = cue_views(out@);
        let c = cue_of(&blocks[i]);
        out.push(c);
        proof {
            let f = |b: ((u8, u8, u8, u16), (u8, u8, u8, u16), Seq<Seq<char>>)| joined_block(b);
            assert(v[i as int] == block_view(blocks@[i as int]));
            assert(cue_views(out@) =~= before.push(f(v[i as int])));
            assert(v.take(i + 1).map_values(f) =~= v.take(i as int).map_values(f).push(f(v[i as int])));
        }
        i += 1;
    }
    assert(v.take(blocks.len() as int) =~= v);
    out
}

/// The cues among parsed WebVTT blocks, their lines joined, in order.
pub fn webvtt_cues(items: &Vec<VttItem>) -> (r: Vec<SubtitleCue>)
    ensures
        cue_views(r@) == vtt_cues(item_views(items@)),
{
    let mut out: Vec<SubtitleCue> = Vec::new();
    let ghost v = item_views(items@);
    let mut i: usize = 0;
    while i < items.len()
        invariant
            i <= items.len(),
            v == item_views(items@),
            cue_views(out@) == vtt_cues(v.take(i as int)),
        decreases items.len() - i,
    {
        proof {
            let t = v.take(i + 1);
            assert(t.drop_last() =~= v.take(i as int));
        }
        match &items[i] {
            VttItem::Cue(b) => {
                let c = cue_of(b);
                out.push(c);
                proof {
                    assert(cue_views(out@) =~= vtt_cues(v.take(i + 1)));
                }
            },
            VttItem::Other => {
                proof {
                    assert(cue_views(out@) =~= vtt_cues(v.take(i + 1)));
                }
            },
        }
        i += 1;
    }
    assert(v.take(items.len() as int) =~= v);
    out
}

/// The cues of a subtitle text, or why it cannot be read; see [`subtitle_cues`].
pub fn parse_subtitle_cues(text: &str, extension: &str) -> (r: Result<Vec<SubtitleCue>, String>)
    ensures
        match (r, subtitle_cues(text@, extension@)) {
            (Ok(c), Ok(v)) => cue_views(c@) == v,
            (Err(e), Err(m)) => e@ == m,
            _ => false,
        },
{
    proof {
        reveal_strlit("srt");
        reveal_strlit("SRT 解析失败: ");
        reveal_strlit("VTT 解析失败: ");
    }
    let source = source_text(text);
    if str_eq(extension, "srt") {
        match parse_srt(source.as_str()) {
            Ok(b) => Ok(srt_cues(&b)),
            Err(e) => {
                let mut m = String::from_str("SRT 解析失败: ");
                m.append(e.as_str());
                Err(m)
            },
        }
    } else {
        match parse_vtt(source.as_str()) {
            Ok(b) => Ok(webvtt_cues(&b)),
            Err(e) => {
                let mut m = String::from_str("VTT 解析失败: ");
                m.append(e.as_str());
                Err(m)
            },
        }
    }
}

/// Largest subtitle file accepted for import: 10 MiB.
pub const MAX_SUBTITLE_BYTES: u64 = 10485760;

pub open spec fn ascii_lower_text(s: Seq<char>) -> Seq<char> {
    s.map_values(|c: char| ascii_lower(c))
}

pub open spec fn subtitle_extension(e: Seq<char>) -> bool {
    e == "srt"@ || e == "vtt"@ || e == "ass"@ || e == "ssa"@
}

/// Whether a subtitle file of `size` bytes whose name has `extension` may be
/// imported.
pub open spec fn subtitle_file_problem(size: u64, extension: Seq<char>) -> Option<Seq<char>> {
    if size > MAX_SUBTITLE_BYTES {
        Some("字幕文件不能超过 10 MB"@)
    } else if !subtitle_extension(ascii_lower_text(extension)) {
        Some("请选择 SRT、VTT、ASS 或 SSA 字幕"@)
    } else {
        None
    }
}

/// Checks the size and extension of a subtitle file before it is imported.
pub fn check_subtitle_file(size: u64, extension: &str) -> (r: Result<(), String>)
    ensures
        match subtitle_file_problem(size, extension@) {
            None => r is Ok,
            Some(m) => r matches Err(e) && e@ == m,
        },
{
    if size > MAX_SUBTITLE_BYTES {
        return Err(String::from_str("字幕文件不能超过 10 MB"));
    }
    let c = chars_of(extension);
    let mut lower: Vec<char> = Vec::new();
    let mut i: usize = 0;
    while i < c.len()
        invariant
            i <= c.len(),
            lower@ == ascii_lower_text(c@.take(i as int)),
        decreases c.len() - i,
    {
        lower.push(crate::text::ascii_lower_char(c[i]));
        assert(lower@ =~= ascii_lower_text(c@.take(i + 1)));
        i += 1;
    }
    assert(c@.take(c.len() as int) =~= c@);
    let l = string_of(&lower);
    proof {
        reveal_strlit("srt");
        reveal_strlit("vtt");
        reveal_strlit("ass");
        reveal_strlit("ssa");
    }
    if str_eq(l.as_str(), "srt") || str_eq(l.as_str(), "vtt") || str_eq(l.as_str(), "ass")
        || str_eq(l.as_str(), "ssa") {
        Ok(())
    } else {
        Err(String::from_str("请选择 SRT、VTT、ASS 或 SSA 字幕"))
    }
}

} // verus!
