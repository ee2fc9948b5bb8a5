//! The downloader's command line for one download, and what its output says
//! about the file it produced.
use crate::directory::{join_path, joined};
use crate::download::DownloadAuth;
use crate::download_options::DownloadOption;
use crate::online::{sanitized, OnlineResolver, VideoPlatform};
use crate::text::{chars_of, starts_with, str_trim, string_of, trim};
use vstd::prelude::*;

verus! {

/// The text of each argument.
pub open spec fn texts(v: Seq<String>) -> Seq<Seq<char>> {
    v.map_values(|s: String| s@)
}

pub open spec fn str_opt(o: Option<&str>) -> Option<Seq<char>> {
    match o {
        Some(s) => Some(s@),
        None => None,
    }
}

/// `s` with each `%` doubled, so the downloader's output template reads it
/// literally.
pub open spec fn escape_percent(s: Seq<char>) -> Seq<char>
    decreases s.len(),
{
    if s.len() == 0 {
        seq![]
    } else if s.last() == '%' {
        escape_percent(s.drop_last()) + seq!['%', '%']
    } else {
        escape_percent(s.drop_last()).push(s.last())
    }
}

/// The browser identity the downloader presents.
pub open spec fn downloader_agent() -> Seq<char> {
    "Mozilla/5.0 (Windows NT 10.0; Win64; x64) AppleWebKit/537.36 (KHTML, like Gecko) Chrome/120.0.0.0 Safari/537.36"@
}

/// The arguments that present the download to its site: the browser
/// identity, the referer the site expects, and the browser whose sign-in
/// cookies are used.
pub open spec fn source_arguments(platform: VideoPlatform, auth: DownloadAuth) -> Seq<Seq<char>> {
    seq!["--user-agent"@, downloader_agent()] + match platform.referer_spec() {
        Some(r) => seq!["--referer"@, r],
        None => seq![],
    } + match auth.browser_spec() {
        Some(b) => seq!["--cookies-from-browser"@, b],
        None => seq![],
    }
}

/// The format arguments: the chosen selector, then MP3 conversion for an
/// audio-only choice that asks for it, otherwise merging into MP4.
pub open spec fn format_arguments(option: DownloadOption) -> Seq<Seq<char>> {
    seq!["-f"@, option.format_selector@] + if option.extract_audio {
        seq!["-x"@, "--audio-format"@, "mp3"@, "--audio-quality"@, "192K"@]
    } else {
        seq!["--merge-output-format"@, "mp4"@]
    }
}

/// The fixed arguments: no user configuration, UTF-8, metadata, one
/// progress line every half second, and the finished file's path printed
/// after it is moved into place.
pub open spec fn fixed_arguments() -> Seq<Seq<char>> {
    seq![
        "--ignore-config"@,
        "--encoding"@,
        "utf-8"@,
        "--embed-metadata"@,
        "--newline"@,
        "--continue"@,
        "--no-simulate"@,
        "--progress"@,
        "--progress-delta"@,
        "0.5"@,
        "--progress-template"@,
        "download:__SHADOW_PROGRESS__%(progress)j"@,
        "--print"@,
        "after_move:__SHADOW_FILE__%(filepath)j"@,
    ]
}

/// The subtitle languages fetched: Chinese and English, and one more when
/// asked for.
pub open spec fn subtitle_languages(extra: Option<Seq<char>>) -> Seq<char> {
    match extra {
        Some(l) => "zh,en,"@ + l,
        None => "zh,en"@,
    }
}

/// Where the download is written: the cleaned title, with `%` doubled, and
/// the extension the downloader picks, in the output directory.
pub open spec fn output_template(title: Seq<char>, output_dir: Seq<char>, windows: bool) -> Seq<char> {
    joined(output_dir, escape_percent(sanitized(title)) + ".%(ext)s"@, windows)
}

/// The downloader's arguments for one download.
pub open spec fn download_arguments_spec(
    url: Seq<char>,
    title: Seq<char>,
    output_dir: Seq<char>,
    option: DownloadOption,
    auth: DownloadAuth,
    platform: VideoPlatform,
    extra_subtitle_lang: Option<Seq<char>>,
    ffmpeg_dir: Seq<char>,
    windows: bool,
) -> Seq<Seq<char>> {
    format_arguments(option) + fixed_arguments() + source_arguments(platform, auth) + seq![
        "--write-subs"@,
        "--sub-langs"@,
        subtitle_languages(extra_subtitle_lang),
        "-o"@,
        output_template(title, output_dir, windows),
        "--ffmpeg-location"@,
        ffmpeg_dir,
        "--no-playlist"@,
        "--no-warnings"@,
        url,
    ]
}

fn push_text(v: &mut Vec<String>, s: &str)
    ensures
        texts(final(v)@) == texts(old(v)@).push(s@),
{
    v.push(String::from_str(s));
    proof {
        assert(texts(v@) =~= texts(old(v)@).push(s@));
    }
}

fn escape_percent_of(s: &str) -> (r: String)
    ensures
        r@ == escape_percent(s@),
{
    let c = chars_of(s);
    let mut out: Vec<char> = Vec::new();
    let mut i: usize = 0;
    while i < c.len()
        invariant
            i <= c.len(),
            out@ == escape_percent(c@.take(i as int)),
        decreases c.len() - i,
    {
        let ghost t = c@.take(i + 1);
        assert(t.drop_last() =~= c@.take(i as int));
        if c[i] == '%' {
            out.push('%');
            out.push('%');
            assert(out@ =~= escape_percent(t));
        } else {
            out.push(c[i]);
            assert(out@ =~= escape_percent(t));
        }
        i += 1;
    }
    assert(c@.take(c.len() as int) =~= c@);
    string_of(&out)
}

fn push_format_arguments(v: &mut Vec<String>, option: &DownloadOption)
    ensures
        texts(final(v)@) == texts(old(v)@) + format_arguments(*option),
{
    proof {
        reveal_strlit("-f");
        reveal_strlit("-x");
        reveal_strlit("--audio-format");
        reveal_strlit("mp3");
        reveal_strlit("--audio-quality");
        reveal_strlit("192K");
        reveal_strlit("--merge-output-format");
        reveal_strlit("mp4");
    }
    let ghost a = texts(v@);
    push_text(v, "-f");
    push_text(v, option.format_selector.as_str());
    if option.extract_audio {
        push_text(v, "-x");
        push_text(v, "--audio-format");
        push_text(v, "mp3");
        push_text(v, "--audio-quality");
        push_text(v, "192K");
    } else {
        push_text(v, "--merge-output-format");
        push_text(v, "mp4");
    }
    assert(texts(v@) =~= a + format_arguments(*option));
}

fn push_fixed_arguments(v: &mut Vec<String>)
    ensures
        texts(final(v)@) == texts(old(v)@) + fixed_arguments(),
{
    proof {
        reveal_strlit("--ignore-config");
        reveal_strlit("--encoding");
        reveal_strlit("utf-8");
        reveal_strlit("--embed-metadata");
        reveal_strlit("--newline");
        reveal_strlit("--continue");
        reveal_strlit("--no-simulate");
        reveal_strlit("--progress");
        reveal_strlit("--progress-delta");
        reveal_strlit("0.5");
        reveal_strlit("--progress-template");
        reveal_strlit("download:__SHADOW_PROGRESS__%(progress)j");
        reveal_strlit("--print");
        reveal_strlit("after_move:__SHADOW_FILE__%(filepath)j");
    }
    let ghost a = texts(v@);
    push_text(v, "--ignore-config");
    push_text(v, "--encoding");
    push_text(v, "utf-8");
    push_text(v, "--embed-metadata");
    push_text(v, "--newline");
    push_text(v, "--continue");
    push_text(v, "--no-simulate");
    push_text(v, "--progress");
    push_text(v, "--progress-delta");
    push_text(v, "0.5");
    push_text(v, "--progress-template");
    push_text(v, "download:__SHADOW_PROGRESS__%(progress)j");
    push_text(v, "--print");
    push_text(v, "after_move:__SHADOW_FILE__%(filepath)j");
    assert(texts(v@) =~= a + fixed_arguments());
}

fn push_source_arguments(v: &mut Vec<String>, platform: VideoPlatform, auth: DownloadAuth)
    ensures
        texts(final(v)@) == texts(old(v)@) + source_arguments(platform, auth),
{
    proof {
        reveal_strlit("--user-agent");
        reveal_strlit("--referer");
        reveal_strlit("--cookies-from-browser");
        reveal_strlit(
            "Mozilla/5.0 (Windows NT 10.0; Win64; x64) AppleWebKit/537.36 (KHTML, like Gecko) Chrome/120.0.0.0 Safari/537.36",
        );
    }
    let ghost a = texts(v@);
    push_text(v, "--user-agent");
    push_text(
        v,
        "Mozilla/5.0 (Windows NT 10.0; Win64; x64) AppleWebKit/537.36 (KHTML, like Gecko) Chrome/120.0.0.0 Safari/537.36",
    );
    let ghost b = texts(v@);
    match platform.get_referer() {
        Some(r) => {
            push_text(v, "--referer");
            push_text(v, r);
        },
        None => {},
    }
    let ghost c = texts(v@);
    assert(c =~= b + match platform.referer_spec() {
        Some(r) => seq!["--referer"@, r],
        None => seq![],
    });
    match auth.browser() {
        Some(br) => {
            push_text(v, "--cookies-from-browser");
            push_text(v, br);
        },
        None => {},
    }
    assert(texts(v@) =~= a + source_arguments(platform, auth));
}

fn push_output_arguments(
    v: &mut Vec<String>,
    url: &str,
    title: &str,
    output_dir: &str,
    extra_subtitle_lang: Option<&str>,
    ffmpeg_dir: &str,
    windows: bool,
)
    ensures
        texts(final(v)@) == texts(old(v)@) + seq![
            "--write-subs"@,
            "--sub-langs"@,
            subtitle_languages(str_opt(extra_subtitle_lang)),
            "-o"@,
            output_template(title@, output_dir@, windows),
            "--ffmpeg-location"@,
            ffmpeg_dir@,
            "--no-playlist"@,
            "--no-warnings"@,
            url@,
        ],
{
    proof {
        reveal_strlit("--write-subs");
        reveal_strlit("--sub-langs");
        reveal_strlit("zh,en,");
        reveal_strlit("zh,en");
        reveal_strlit("-o");
        reveal_strlit(".%(ext)s");
        reveal_strlit("--ffmpeg-location");
        reveal_strlit("--no-playlist");
        reveal_strlit("--no-warnings");
    }
    let ghost a = texts(v@);
    let langs = match extra_subtitle_lang {
        Some(l) => {
            let mut s = String::from_str("zh,en,");
            s.append(l);
            s
        },
        None => String::from_str("zh,en"),
    };
    let clean = OnlineResolver::sanitize_filename(title);
    let mut file = escape_percent_of(clean.as_str());
    file.append(".%(ext)s");
    let template = join_path(output_dir, file.as_str(), windows);
    push_text(v, "--write-subs");
    push_text(v, "--sub-langs");
    push_text(v, langs.as_str());
    push_text(v, "-o");
    push_text(v, template.as_str());
    push_text(v, "--ffmpeg-location");
    push_text(v, ffmpeg_dir);
    push_text(v, "--no-playlist");
    push_text(v, "--no-warnings");
    push_text(v, url);
    assert(texts(v@) =~= a + seq![
        "--write-subs"@,
        "--sub-langs"@,
        subtitle_languages(str_opt(extra_subtitle_lang)),
        "-o"@,
        output_template(title@, output_dir@, windows),
        "--ffmpeg-location"@,
        ffmpeg_dir@,
        "--no-playlist"@,
        "--no-warnings"@,
        url@,
    ]);
}

/// The downloader's arguments for one download; see
/// [`download_arguments_spec`].
pub fn download_arguments(
    url: &str,
    title: &str,
    output_dir: &str,
    option: &DownloadOption,
    auth: DownloadAuth,
    platform: VideoPlatform,
    extra_subtitle_lang: Option<&str>,
    ffmpeg_dir: &str,
    windows: bool,
) -> (r: Vec<String>)
    ensures
        texts(r@) == download_arguments_spec(
            url@,
            title@,
            output_dir@,
            *option,
            auth,
            platform,
            str_opt(extra_subtitle_lang),
            ffmpeg_dir@,
            windows,
        ),
{
    let mut v: Vec<String> = Vec::new();
    assert(texts(v@) =~= Seq::<Seq<char>>::empty());
    push_format_arguments(&mut v, option);
    push_fixed_arguments(&mut v);
    push_source_arguments(&mut v, platform, auth);
    push_output_arguments(&mut v, url, title, output_dir, extra_subtitle_lang, ffmpeg_dir, windows);
    assert(texts(v@) =~= download_arguments_spec(
        url@,
        title@,
        output_dir@,
        *option,
        auth,
        platform,
        str_opt(extra_subtitle_lang),
        ffmpeg_dir@,
        windows,
    ));
    v
}

/// What `serde_json::from_str::<String>` reads from `text`: the string, or
/// the decoder's message.
pub uninterp spec fn json_string_value(text: Seq<char>) -> Result<Seq<char>, Seq<char>>;

/// `serde_json::from_str::<String>(text)`, its error shown as text.
#[verifier::external_body]
fn json_string(text: &str) -> (r: Result<String, String>)
    ensures
        match (r, json_string_value(text@)) {
            (Ok(s), Ok(v)) => s@ == v,
            (Err(e), Err(m)) => e@ == m,
            _ => false,
        },
{
    serde_json::from_str::<String>(text).map_err(|error| error.to_string())
}

/// The marker of the line on which the downloader names its finished file.
pub open spec fn file_marker() -> Seq<char> {
    "__SHADOW_FILE__"@
}

/// The file the output lines name, read in order: each marked line names a
/// file as a JSON string and the last one counts; a marked line that is
/// not a JSON string stops the download.
pub open spec fn named_file(lines: Seq<Seq<char>>) -> Result<Option<Seq<char>>, Seq<char>>
    decreases lines.len(),
{
    if lines.len() == 0 {
        Ok(None)
    } else {
        match named_file(lines.drop_last()) {
            Err(e) => Err(e),
            Ok(found) => {
                let l = lines.last();
                if starts_with(l, file_marker()) {
                    match json_string_value(l.skip(15)) {
                        Ok(p) => Ok(Some(p)),
                        Err(m) => Err("Invalid download output path: "@ + m),
                    }
                } else {
                    Ok(found)
                }
            },
        }
    }
}

/// The downloaded file: the last one the output named, once the downloader
/// succeeded; its trimmed error output when it failed.
pub open spec fn downloaded_path_spec(lines: Seq<Seq<char>>, success: bool, stderr: Seq<char>) -> Result<Seq<char>, Seq<char>> {
    downloaded_file_spec(named_file(lines), success, stderr)
}

/// The downloaded file, given what the output lines named (see
/// [`named_file`]) and how the downloader ended.
pub open spec fn downloaded_file_spec(named: Result<Option<Seq<char>>, Seq<char>>, success: bool, stderr: Seq<char>) -> Result<Seq<char>, Seq<char>> {
    match named {
        Err(e) => Err(e),
        Ok(found) => if !success {
            Err("yt-dlp: "@ + trim(stderr))
        } else {
            match found {
                Some(p) => Ok(p),
                None => Err("下载进程未返回处理完成的文件路径"@),
            }
        },
    }
}

proof fn lemma_named_file_error_stays(lines: Seq<Seq<char>>, n: int)
    requires
        0 <= n <= lines.len(),
        named_file(lines.take(n)) is Err,
    ensures
        named_file(lines) == named_file(lines.take(n)),
    decreases lines.len() - n,
{
    if n == lines.len() {
        assert(lines.take(n) =~= lines);
    } else {
        let t = lines.take(n + 1);
        assert(t.drop_last() =~= lines.take(n));
        lemma_named_file_error_stays(lines, n + 1);
    }
}

/// The downloaded file from the downloader's output lines, whether it
/// succeeded, and its error output; see [`downloaded_path_spec`].
pub fn downloaded_path(lines: &Vec<String>, success: bool, stderr: &str) -> (r: Result<String, String>)
    ensures
        match (r, downloaded_path_spec(texts(lines@), success, stderr@)) {
            (Ok(p), Ok(q)) => p@ == q,
            (Err(e), Err(m)) => e@ == m,
            _ => false,
        },
{
    proof {
        reveal_strlit("__SHADOW_FILE__");
        reveal_strlit("Invalid download output path: ");
        reveal_strlit("yt-dlp: ");
        reveal_strlit("下载进程未返回处理完成的文件路径");
    }
    let ghost ls = texts(lines@);
    let marker = chars_of("__SHADOW_FILE__");
    let mut found: Option<String> = None;
    let mut i: usize = 0;
    assert(ls.take(0) =~= Seq::<Seq<char>>::empty());
    while i < lines.len()
        invariant
            i <= lines.len(),
            ls == texts(lines@),
            marker@ == file_marker(),
            marker@.len() == 15,
            named_file(ls.take(i as int)) == Ok::<Option<Seq<char>>, Seq<char>>(
                match found {
                    Some(f) => Some(f@),
                    None => None,
                },
            ),
        decreases lines.len() - i,
    {
        let ghost t = ls.take(i + 1);
        proof {
            assert(t.drop_last() =~= ls.take(i as int));
            assert(t.last() == lines@[i as int]@);
        }
        let l = chars_of(lines[i].as_str());
        if crate::text::seq_starts_with(&l, &marker) {
            let rest = string_of(&crate::text::slice(&l, 15, l.len()));
            assert(rest@ =~= lines@[i as int]@.skip(15));
            match json_string(rest.as_str()) {
                Ok(p) => {
                    found = Some(p);
                },
                Err(m) => {
                    let mut e = String::from_str("Invalid download output path: ");
                    e.append(m.as_str());
                    proof {
                        lemma_named_file_error_stays(ls, i + 1);
                    }
                    return Err(e);
                },
            }
        }
        i += 1;
    }
    assert(ls.take(lines.len() as int) =~= ls);
    downloaded_file(Ok(found), success, stderr)
}

/// The downloaded file, given what the output lines named and how the
/// downloader ended; see [`downloaded_file_spec`].
pub fn downloaded_file(named: Result<Option<String>, String>, success: bool, stderr: &str) -> (r: Result<String, String>)
    ensures
        match (
            r,
            downloaded_file_spec(
                match named {
                    Ok(Some(p)) => Ok(Some(p@)),
                    Ok(None) => Ok(None),
                    Err(e) => Err(e@),
                },
                success,
                stderr@,
            ),
        ) {
            (Ok(p), Ok(q)) => p@ == q,
            (Err(e), Err(m)) => e@ == m,
            _ => false,
        },
{
    proof {
        reveal_strlit("yt-dlp: ");
        reveal_strlit("下载进程未返回处理完成的文件路径");
    }
    let found = match named {
        Err(e) => return Err(e),
        Ok(f) => f,
    };
    if !success {
        let mut e = String::from_str("yt-dlp: ");
        let t = str_trim(stderr);
        e.append(t.as_str());
        return Err(e);
    }
    match found {
        Some(p) => Ok(p),
        None => Err(String::from_str("下载进程未返回处理完成的文件路径")),
    }
}


/// What the process runner does with one line the downloader printed.
#[derive(Clone, Copy, Debug, PartialEq, Eq, Structural)]
pub enum LineAction {
    /// The line is not kept.
    Ignore,
    /// The line is added to what is kept.
    Append,
    /// What was kept is dropped first: the error output keeps only its
    /// latest part.
    ClearThenAppend,
    /// The standard output grew beyond what metadata may take; the run
    /// stops with an error.
    TooLarge,
}

/// The error output is cut back once it holds more than 16 KiB.
pub const ERROR_OUTPUT_LIMIT: usize = 16384;

/// Captured standard output may hold at most 16 MiB.
pub const CAPTURED_OUTPUT_LIMIT: usize = 16777216;

pub open spec fn output_line_spec(kept_len: usize, is_error: bool, capture_stdout: bool) -> LineAction {
    if !is_error && !capture_stdout {
        LineAction::Ignore
    } else if is_error {
        if kept_len > ERROR_OUTPUT_LIMIT {
            LineAction::ClearThenAppend
        } else {
            LineAction::Append
        }
    } else if kept_len > CAPTURED_OUTPUT_LIMIT {
        LineAction::TooLarge
    } else {
        LineAction::Append
    }
}

/// What to do with a line of error output (`is_error`) or of standard
/// output, given how many bytes of that stream are kept so far and whether
/// standard output is captured at all.
pub fn output_line_step(kept_len: usize, is_error: bool, capture_stdout: bool) -> (r: LineAction)
    ensures
        r == output_line_spec(kept_len, is_error, capture_stdout),
{
    if !is_error && !capture_stdout {
        LineAction::Ignore
    } else if is_error {
        if kept_len > ERROR_OUTPUT_LIMIT {
            LineAction::ClearThenAppend
        } else {
            LineAction::Append
        }
    } else if kept_len > CAPTURED_OUTPUT_LIMIT {
        LineAction::TooLarge
    } else {
        LineAction::Append
    }
}

/// The error a run stops with when its captured output is too large.
pub fn output_too_large() -> (r: String)
    ensures
        r@ == "媒体元数据过大"@,
{
    String::from_str("媒体元数据过大")
}


/// The lines of `lines` that hold more than white space.
pub open spec fn filled_lines(lines: Seq<Seq<char>>) -> Seq<Seq<char>> {
    lines.filter(|l: Seq<char>| trim(l).len() > 0)
}

/// The metadata line of a lookup's output lines: the first that holds more
/// than white space, and whether another such line follows it (a link to
/// several episodes); none is an error.
pub fn metadata_line(lines: &Vec<String>) -> (r: Result<(String, bool), String>)
    ensures
        ({
            let f = filled_lines(texts(lines@));
            match r {
                Ok((first, more)) => f.len() > 0 && first@ == f[0] && more == (f.len() > 1),
                Err(e) => f.len() == 0 && e@ == "No media metadata returned"@,
            }
        }),
{
    let ghost ls = texts(lines@);
    let ghost keep = |l: Seq<char>| trim(l).len() > 0;
    let mut first: Option<String> = None;
    let mut count: usize = 0;
    let mut i: usize = 0;
    proof {
        reveal(Seq::filter);
        assert(ls.take(0) =~= Seq::<Seq<char>>::empty());
    }
    while i < lines.len()
        invariant
            i <= lines.len(),
            ls == texts(lines@),
            keep == (|l: Seq<char>| trim(l).len() > 0),
            count <= 2,
            count == (if ls.take(i as int).filter(keep).len() > 2 { 2 } else { ls.take(i as int).filter(keep).len() }),
            match first {
                Some(f) => ls.take(i as int).filter(keep).len() > 0 && f@ == ls.take(i as int).filter(keep)[0],
                None => ls.take(i as int).filter(keep).len() == 0,
            },
        decreases lines.len() - i,
    {
        proof {
            reveal(Seq::filter);
            let t = ls.take(i + 1);
            assert(t.drop_last() =~= ls.take(i as int));
            assert(t.last() == lines@[i as int]@);
        }
        let trimmed = str_trim(lines[i].as_str());
        if !trimmed.as_str().is_empty() {
            if first.is_none() {
                first = Some(lines[i].clone());
            }
            if count < 2 {
                count += 1;
            }
        }
        i += 1;
    }
    assert(ls.take(lines.len() as int) =~= ls);
    match first {
        Some(f) => Ok((f, count > 1)),
        None => Err(String::from_str("No media metadata returned")),
    }
}

/// A metadata lookup must name one episode: a second metadata line refuses
/// the link.
pub fn single_episode(more: bool) -> (r: Result<(), String>)
    ensures
        !more ==> r is Ok,
        more ==> (r matches Err(e) && e@ == "The URL contains multiple episodes; use a single episode URL"@),
{
    if more {
        Err(String::from_str("The URL contains multiple episodes; use a single episode URL"))
    } else {
        Ok(())
    }
}


/// The downloader's arguments for a metadata lookup of `url`: no user
/// configuration, UTF-8, the metadata as JSON, one item only, no warnings,
/// the site's arguments, then the link.
pub open spec fn lookup_arguments_spec(url: Seq<char>, platform: VideoPlatform, auth: DownloadAuth) -> Seq<Seq<char>> {
    seq!["--ignore-config"@, "--encoding"@, "utf-8"@, "--dump-json"@, "--no-playlist"@, "--no-warnings"@]
        + source_arguments(platform, auth) + seq![url]
}

/// The arguments of a metadata lookup; see [`lookup_arguments_spec`].
pub fn lookup_arguments(url: &str, platform: VideoPlatform, auth: DownloadAuth) -> (r: Vec<String>)
    ensures
        texts(r@) == lookup_arguments_spec(url@, platform, auth),
{
    proof {
        reveal_strlit("--ignore-config");
        reveal_strlit("--encoding");
        reveal_strlit("utf-8");
        reveal_strlit("--dump-json");
        reveal_strlit("--no-playlist");
        reveal_strlit("--no-warnings");
    }
    let mut v: Vec<String> = Vec::new();
    push_text(&mut v, "--ignore-config");
    push_text(&mut v, "--encoding");
    push_text(&mut v, "utf-8");
    push_text(&mut v, "--dump-json");
    push_text(&mut v, "--no-playlist");
    push_text(&mut v, "--no-warnings");
    let ghost a = texts(v@);
    assert(a =~= seq!["--ignore-config"@, "--encoding"@, "utf-8"@, "--dump-json"@, "--no-playlist"@, "--no-warnings"@]);
    push_source_arguments(&mut v, platform, auth);
    push_text(&mut v, url);
    assert(texts(v@) =~= lookup_arguments_spec(url@, platform, auth));
    v
}

} // verus!
