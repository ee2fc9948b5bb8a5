use shadow_player::downloader::{output_line_step, output_too_large, LineAction};
use shadow_player::download::DownloadAuth;
use shadow_player::download_options::DownloadOption;
use shadow_player::downloader::{downloaded_file, lookup_arguments, metadata_line, single_episode, download_arguments, downloaded_path};
use shadow_player::media::MediaType;
use shadow_player::online::VideoPlatform;

fn option(selector: &str, extract_audio: bool) -> DownloadOption {
    DownloadOption {
        id: if extract_audio { "audio:mp3" } else { "video:720" }.to_string(),
        media_type: if extract_audio { MediaType::Audio } else { MediaType::Video },
        height: None,
        width: None,
        format_selector: selector.to_string(),
        extract_audio,
        requires_audio: true,
        limited_duration: None,
        video_codec: None,
    }
}

const AGENT: &str = "Mozilla/5.0 (Windows NT 10.0; Win64; x64) AppleWebKit/537.36 (KHTML, like Gecko) Chrome/120.0.0.0 Safari/537.36";

fn fixed() -> Vec<&'static str> {
    vec![
        "--ignore-config",
        "--encoding",
        "utf-8",
        "--embed-metadata",
        "--newline",
        "--continue",
        "--no-simulate",
        "--progress",
        "--progress-delta",
        "0.5",
        "--progress-template",
        "download:__SHADOW_PROGRESS__%(progress)j",
        "--print",
        "after_move:__SHADOW_FILE__%(filepath)j",
    ]
}

#[test]
fn a_video_download_merges_into_mp4_with_the_site_referer_and_cookies() {
    let args = download_arguments(
        "https://www.bilibili.com/video/BV1",
        "Clip 100% / final",
        "/d/downloading/j",
        &option("137+140", false),
        DownloadAuth::Chrome,
        VideoPlatform::Bilibili,
        Some("ja"),
        "/app/lib",
        false,
    );
    let mut expected = vec!["-f", "137+140", "--merge-output-format", "mp4"];
    expected.extend(fixed());
    expected.extend([
        "--user-agent",
        AGENT,
        "--referer",
        "https://www.bilibili.com/",
        "--cookies-from-browser",
        "chrome",
        "--write-subs",
        "--sub-langs",
        "zh,en,ja",
        "-o",
        "/d/downloading/j/Clip 100%% - final.%(ext)s",
        "--ffmpeg-location",
        "/app/lib",
        "--no-playlist",
        "--no-warnings",
        "https://www.bilibili.com/video/BV1",
    ]);
    assert_eq!(args, expected);
}

#[test]
fn mp3_conversion_comes_only_with_an_audio_only_choice() {
    let args = download_arguments(
        "https://youtu.be/x",
        "Song",
        "C:\\d",
        &option("bestaudio", true),
        DownloadAuth::Public,
        VideoPlatform::YouTube,
        None,
        "C:\\lib",
        true,
    );
    let mut expected = vec!["-f", "bestaudio", "-x", "--audio-format", "mp3", "--audio-quality", "192K"];
    expected.extend(fixed());
    expected.extend([
        "--user-agent",
        AGENT,
        "--write-subs",
        "--sub-langs",
        "zh,en",
        "-o",
        "C:\\d\\Song.%(ext)s",
        "--ffmpeg-location",
        "C:\\lib",
        "--no-playlist",
        "--no-warnings",
        "https://youtu.be/x",
    ]);
    assert_eq!(args, expected);
}

fn lines(items: &[&str]) -> Vec<String> {
    items.iter().map(|s| s.to_string()).collect()
}

#[test]
fn the_last_named_file_is_the_download() {
    let out = lines(&[
        "__SHADOW_PROGRESS__{}",
        "__SHADOW_FILE__\"/d/a.webm\"",
        "__SHADOW_FILE__\"/d/a \\u4e2d.mp4\"",
    ]);
    assert_eq!(downloaded_path(&out, true, ""), Ok("/d/a 中.mp4".to_string()));
    assert_eq!(
        downloaded_path(&out, false, "  ERROR: gone \n"),
        Err("yt-dlp: ERROR: gone".to_string())
    );
    assert_eq!(
        downloaded_path(&lines(&["progress"]), true, ""),
        Err("下载进程未返回处理完成的文件路径".to_string())
    );
    let bad = downloaded_path(&lines(&["__SHADOW_FILE__/d/a.mp4"]), true, "");
    assert!(bad.unwrap_err().starts_with("Invalid download output path: "));
}

#[test]
fn the_finished_file_needs_a_successful_run_and_a_named_file() {
    assert_eq!(downloaded_file(Ok(Some("/d/a.mp4".to_string())), true, ""), Ok("/d/a.mp4".to_string()));
    assert_eq!(
        downloaded_file(Ok(Some("/d/a.mp4".to_string())), false, "  ERROR: gone \n"),
        Err("yt-dlp: ERROR: gone".to_string())
    );
    assert_eq!(downloaded_file(Ok(None), true, ""), Err("下载进程未返回处理完成的文件路径".to_string()));
    assert_eq!(downloaded_file(Err("bad".to_string()), false, "x"), Err("bad".to_string()));
}

#[test]
fn kept_output_is_cut_back_or_refused_past_its_limits() {
    assert_eq!(output_line_step(10, false, false), LineAction::Ignore);
    assert_eq!(output_line_step(16 * 1024, true, false), LineAction::Append);
    assert_eq!(output_line_step(16 * 1024 + 1, true, false), LineAction::ClearThenAppend);
    assert_eq!(output_line_step(16 * 1024 * 1024, false, true), LineAction::Append);
    assert_eq!(output_line_step(16 * 1024 * 1024 + 1, false, true), LineAction::TooLarge);
    assert_eq!(output_line_step(16 * 1024 * 1024 + 1, true, true), LineAction::ClearThenAppend);
    assert_eq!(output_too_large(), "媒体元数据过大");
}

#[test]
fn a_lookup_reads_one_metadata_line() {
    let lines = |v: &[&str]| v.iter().map(|s| s.to_string()).collect::<Vec<_>>();
    assert_eq!(metadata_line(&lines(&["", "  ", "{\"id\":1}", " "])), Ok(("{\"id\":1}".to_string(), false)));
    assert_eq!(metadata_line(&lines(&["{}", "", "{}"])), Ok(("{}".to_string(), true)));
    assert_eq!(metadata_line(&lines(&["", "\t"])).unwrap_err(), "No media metadata returned");
    assert!(single_episode(false).is_ok());
    assert_eq!(
        single_episode(true).unwrap_err(),
        "The URL contains multiple episodes; use a single episode URL"
    );
    let args = lookup_arguments("https://www.bilibili.com/video/x", VideoPlatform::Bilibili, DownloadAuth::Public);
    assert_eq!(&args[..6], ["--ignore-config", "--encoding", "utf-8", "--dump-json", "--no-playlist", "--no-warnings"]);
    assert_eq!(args[6], "--user-agent");
    assert!(args.iter().any(|a| a == "--referer"));
    assert_eq!(args.last().unwrap(), "https://www.bilibili.com/video/x");
}
