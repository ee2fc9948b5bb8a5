use shadow_player::media::MediaType;
use shadow_player::playback::PlaybackPlan;
use shadow_player::probe::{
    can_remux_to_browser_mp4, is_browser_native, is_mp4_family_container, media_info,
    plan_from_probe, MediaInfo, PlanStep, ProbeOutput, ProbeStream,
};

fn stream(kind: &str, codec: &str, size: Option<(u32, u32)>) -> ProbeStream {
    ProbeStream {
        codec_type: Some(kind.to_string()),
        codec_name: Some(codec.to_string()),
        width: size.map(|s| s.0),
        height: size.map(|s| s.1),
        attached_pic: None,
    }
}

fn info(container: &str, video: Option<&str>, audio: Option<&str>) -> MediaInfo {
    MediaInfo {
        media_type: if video.is_some() { MediaType::Video } else { MediaType::Audio },
        duration_bits: Some(60.0f64.to_bits()),
        container: Some(container.to_string()),
        video_codec: video.map(|v| v.to_string()),
        audio_codec: audio.map(|a| a.to_string()),
        has_video: video.is_some(),
        has_audio: audio.is_some(),
        video_height: None,
        video_width: None,
    }
}

#[test]
fn h264_with_opus_can_be_remuxed_for_browser_playback() {
    let info = MediaInfo {
        media_type: MediaType::Video,
        duration_bits: Some(60.0f64.to_bits()),
        container: Some("matroska,webm".to_string()),
        video_codec: Some("h264".to_string()),
        audio_codec: Some("opus".to_string()),
        has_video: true,
        has_audio: true,
        video_height: None,
        video_width: None,
    };
    assert!(can_remux_to_browser_mp4(&info));
}

#[test]
fn hevc_mp4_uses_the_embedded_player_without_mpv_or_transcoding() {
    for codec in ["h264", "hevc", "av1"] {
        let output = ProbeOutput {
            format_name: Some("mov,mp4,m4a,3gp,3g2,mj2".to_string()),
            duration_bits: Some(5096.45f64.to_bits()),
            streams: vec![stream("video", codec, Some((1920, 1080))), stream("audio", "aac", None)],
        };
        let info = media_info(&output).unwrap();
        match plan_from_probe("film.mp4", &info).unwrap() {
            PlanStep::Ready(PlaybackPlan::BrowserVideo { path, video_codec }) => {
                assert_eq!(path, "film.mp4");
                assert_eq!(video_codec, codec);
            }
            _ => panic!("expected the embedded player"),
        }
    }
}

#[test]
fn probe_report_keeps_first_streams_and_ignores_cover_art() {
    let mut cover = stream("video", "mjpeg", Some((600, 600)));
    cover.attached_pic = Some(1);
    let output = ProbeOutput {
        format_name: Some("mp3".to_string()),
        duration_bits: Some(f64::INFINITY.to_bits()),
        streams: vec![cover, stream("audio", "mp3", None)],
    };
    let info = media_info(&output).unwrap();
    assert_eq!(info.media_type, MediaType::Audio);
    assert!(!info.has_video);
    assert_eq!(info.audio_codec.as_deref(), Some("mp3"));
    assert_eq!(info.duration_bits, None);
    match plan_from_probe("song.mp3", &info).unwrap() {
        PlanStep::Ready(PlaybackPlan::Audio { path }) => assert_eq!(path, "song.mp3"),
        _ => panic!("expected the audio engine"),
    }
}

#[test]
fn a_report_without_streams_is_refused() {
    let output = ProbeOutput { format_name: None, duration_bits: None, streams: vec![] };
    assert_eq!(media_info(&output).err().unwrap(), "No audio or video streams found");
    let none = MediaInfo {
        media_type: MediaType::Audio,
        duration_bits: None,
        container: None,
        video_codec: None,
        audio_codec: None,
        has_video: false,
        has_audio: false,
        video_height: None,
        video_width: None,
    };
    assert_eq!(
        plan_from_probe("x.bin", &none).err().unwrap(),
        "Unsupported media stream layout: x.bin"
    );
}

#[test]
fn webm_and_remux_and_external_routes() {
    assert!(is_browser_native(&info("matroska,webm", Some("vp9"), Some("opus"))));
    assert!(!is_browser_native(&info("matroska,webm", Some("h264"), Some("opus"))));
    assert!(!is_browser_native(&info("flv", Some("h264"), Some("aac"))));
    match plan_from_probe("a.flv", &info("flv", Some("h264"), Some("aac"))).unwrap() {
        PlanStep::Remux { source, video_codec } => {
            assert_eq!(source, "a.flv");
            assert_eq!(video_codec, "h264");
        }
        _ => panic!("expected a remux"),
    }
    match plan_from_probe("a.avi", &info("avi", Some("mpeg4"), Some("mp3"))).unwrap() {
        PlanStep::Ready(PlaybackPlan::ExternalVideo { path }) => assert_eq!(path, "a.avi"),
        _ => panic!("expected the external player"),
    }
}

#[test]
fn mp4_family_is_read_from_comma_separated_names() {
    assert!(is_mp4_family_container("mov,mp4,m4a,3gp,3g2,mj2"));
    assert!(is_mp4_family_container("matroska, mp4"));
    assert!(!is_mp4_family_container("matroska,webm"));
    assert!(!is_mp4_family_container(""));
}
