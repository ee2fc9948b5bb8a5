use shadow_player::download_options::{RemoteFormat, VideoMetadata};

struct F<'a> {
    id: &'a str,
    ext: Option<&'a str>,
    height: Option<u32>,
    vcodec: Option<&'a str>,
    acodec: Option<&'a str>,
    duration: Option<f64>,
    has_drm: Option<bool>,
}

fn f(id: &str) -> F<'_> {
    F { id, ext: None, height: None, vcodec: None, acodec: None, duration: None, has_drm: None }
}

// A format is a preview when both durations are known and it is shorter than
// the expected one by more than 2 % of it, kept between 2 and 30 seconds.
fn format(x: F<'_>, expected: Option<f64>) -> RemoteFormat {
    let actual = x.duration.filter(|v| v.is_finite() && *v > 0.0);
    let limited = match (expected.filter(|v| v.is_finite() && *v > 0.0), actual) {
        (Some(e), Some(a)) => e - a > (e * 0.02).clamp(2.0, 30.0),
        _ => false,
    };
    RemoteFormat {
        format_id: x.id.to_string(),
        vcodec: x.vcodec.map(|s| s.to_string()),
        acodec: x.acodec.map(|s| s.to_string()),
        ext: x.ext.map(|s| s.to_string()),
        height: x.height,
        width: None,
        duration: x.duration.map(|d| d.to_bits()),
        has_drm: x.has_drm,
        limited,
    }
}

fn metadata(id: &str, title: &str, series: Option<&str>, season: Option<&str>, duration: Option<f64>, formats: Vec<F<'_>>) -> VideoMetadata {
    VideoMetadata {
        title: title.to_string(),
        id: id.to_string(),
        season: season.map(|s| s.to_string()),
        series: series.map(|s| s.to_string()),
        is_live: None,
        formats: formats.into_iter().map(|x| format(x, duration)).collect(),
    }
}

#[test]
fn bilibili_null_codecs_keep_video_and_film_context() {
    let metadata = metadata(
        "747309",
        "正片",
        Some("理查德·柯蒂斯三部曲"),
        Some("时空恋旅人"),
        Some(7403.0),
        vec![F { ext: Some("mp4"), height: Some(480), ..f("32") }],
    );
    assert_eq!(metadata.display_title(), "理查德·柯蒂斯三部曲 - 时空恋旅人 - 正片");
    let options = metadata.download_options().unwrap();
    assert_eq!(options[0].id, "video:480");
    assert_eq!(options[0].format_selector, "32");
    assert!(!options[0].extract_audio);
    assert_eq!(options[1].id, "audio:mp3");
}

#[test]
fn resolutions_use_available_formats_and_merge_separate_audio() {
    let metadata = metadata(
        "clip",
        "Clip",
        None,
        None,
        Some(60.0),
        vec![
            F { vcodec: Some("none"), acodec: Some("aac"), ext: Some("m4a"), ..f("a") },
            F { height: Some(480), vcodec: Some("avc1"), acodec: Some("none"), ..f("v480") },
            F { height: Some(720), vcodec: Some("avc1"), acodec: Some("none"), ..f("v720old") },
            F { height: Some(720), vcodec: Some("avc1"), acodec: Some("none"), ..f("v720") },
            F { height: Some(1080), vcodec: Some("avc1"), has_drm: Some(true), ..f("drm") },
        ],
    );
    let options = metadata.download_options().unwrap();
    assert_eq!(
        options.iter().map(|option| option.id.as_str()).collect::<Vec<_>>(),
        ["video:720", "video:480", "audio:mp3"]
    );
    assert_eq!(options[0].format_selector, "v720+a");
    assert!(options[0].requires_audio);
}

#[test]
fn audio_keeps_original_format_and_known_previews_are_marked() {
    let metadata = metadata(
        "audio",
        "Audio",
        None,
        None,
        Some(7403.0),
        vec![F { ext: Some("wav"), duration: Some(360.0), ..f("a") }],
    );
    let options = metadata.download_options().unwrap();
    assert_eq!(options[0].id, "audio:original");
    assert!(!options[0].extract_audio);
    assert_eq!(options[0].limited_duration.map(f64::from_bits), Some(360.0));
    let unknown = metadata_without_duration();
    assert!(unknown.download_options().is_err());
}

fn metadata_without_duration() -> VideoMetadata {
    metadata("x", "x", None, None, None, vec![f("x")])
}

#[test]
fn same_resolution_prefers_complete_h264_and_aac_without_lowering_quality() {
    let metadata = metadata(
        "film",
        "Film",
        None,
        None,
        Some(5000.0),
        vec![
            F { vcodec: Some("none"), acodec: Some("mp4a.40.2"), ext: Some("m4a"), ..f("30280") },
            F { vcodec: Some("none"), acodec: Some("flac"), ext: Some("flac"), ..f("30251") },
            F { height: Some(720), vcodec: Some("avc1.64001f"), acodec: Some("none"), ..f("avc720") },
            F { height: Some(1080), vcodec: Some("avc1.640028"), acodec: Some("none"), ..f("avc1080") },
            F { height: Some(1080), vcodec: Some("hev1.1.6.L120"), acodec: Some("none"), ..f("30077") },
            F { height: Some(2160), vcodec: Some("hvc1.1.6.L150"), acodec: Some("none"), ..f("hevc2160") },
            F {
                height: Some(2160),
                duration: Some(360.0),
                vcodec: Some("avc1.640033"),
                acodec: Some("none"),
                ..f("avc2160preview")
            },
        ],
    );
    let options = metadata.download_options().unwrap();
    assert_eq!(options[0].id, "video:2160");
    assert_eq!(options[0].format_selector, "hevc2160+30280");
    assert_eq!(options[0].video_codec.as_deref(), Some("HEVC"));
    assert!(options[0].limited_duration.is_none());
    assert_eq!(options[1].id, "video:1080");
    assert_eq!(options[1].format_selector, "avc1080+30280");
    assert_eq!(options[1].video_codec.as_deref(), Some("H.264"));
    assert_eq!(options[2].format_selector, "avc720+30280");
    assert_eq!(options[3].format_selector, "30251");
}

#[test]
fn live_streams_have_no_download_options() {
    let mut m = metadata("live", "Live", None, None, None, vec![F { height: Some(720), vcodec: Some("avc1"), ..f("v") }]);
    m.is_live = Some(true);
    assert!(m.download_options().is_err());
}

#[test]
fn display_title_skips_blank_and_repeated_parts() {
    let m = metadata("x", " Film ", Some("Film"), Some("  "), None, vec![]);
    assert_eq!(m.display_title(), "Film");
}

#[test]
fn choices_have_distinct_ids_videos_first_and_one_conversion_last() {
    let metadata = metadata(
        "clip",
        "Clip",
        None,
        None,
        None,
        vec![
            F { vcodec: Some("none"), acodec: Some("opus"), ext: Some("we\\bm"), ..f("a") },
            F { height: Some(1080), vcodec: Some("vp9"), acodec: Some("opus"), ..f("v1080") },
            F { vcodec: Some("avc1"), acodec: Some("aac"), ext: Some("C:mp4"), ..f("orig") },
            F { height: Some(360), vcodec: Some("avc1"), acodec: Some("aac"), ..f("v360") },
        ],
    );
    let options = metadata.download_options().unwrap();
    let ids: Vec<&str> = options.iter().map(|option| option.id.as_str()).collect();
    assert_eq!(ids, ["video:1080", "video:360", "video:original", "audio:mp3"]);
    for (a, x) in ids.iter().enumerate() {
        for y in &ids[a + 1..] {
            assert_ne!(x, y);
        }
    }
    assert_eq!(options.iter().filter(|o| o.extract_audio).count(), 1);
    assert!(options.last().unwrap().extract_audio);
}

#[test]
fn formats_with_drm_are_never_offered_whatever_their_extension() {
    let metadata = metadata(
        "clip",
        "Clip",
        None,
        None,
        None,
        vec![
            F { height: Some(1080), vcodec: Some("avc1"), acodec: Some("aac"), ext: Some("m\\p4"), has_drm: Some(true), ..f("drm") },
            F { vcodec: Some("none"), acodec: Some("aac"), ext: Some("C:m4a"), has_drm: Some(true), ..f("drmaudio") },
            F { height: Some(720), vcodec: Some("avc1"), acodec: Some("aac"), ext: Some("mp4"), ..f("v720") },
        ],
    );
    let options = metadata.download_options().unwrap();
    assert!(options.iter().all(|o| !o.format_selector.contains("drm")));
    assert_eq!(options[0].id, "video:720");
    assert_eq!(options[0].format_selector, "v720");
}
