use shadow_player::assets::subtitle_directory;
use shadow_player::media::{
    canonical_local_key, canonical_remote_key, provider_key_for_url, remote_media, Media, MediaOrigin, MediaType,
};
use shadow_player::probe::{prepare, session_file};

#[test]
fn remote_media_identity_does_not_depend_on_url_shape() {
    let long = provider_key_for_url("https://www.youtube.com/watch?v=ysaGeSbcnJA").unwrap();
    let short = provider_key_for_url("https://youtu.be/ysaGeSbcnJA").unwrap();
    assert_eq!(
        canonical_remote_key(&long, "ysaGeSbcnJA"),
        canonical_remote_key(&short, "ysaGeSbcnJA")
    );
}

#[test]
fn provider_keys_follow_the_site_and_fall_back_to_the_host() {
    assert_eq!(provider_key_for_url("https://m.bilibili.com/video/BV1").unwrap(), "bilibili");
    assert_eq!(provider_key_for_url("http://b23.tv/x").unwrap(), "bilibili");
    assert_eq!(provider_key_for_url("https://www.iesdouyin.com/share").unwrap(), "douyin");
    assert_eq!(provider_key_for_url("https://channels.weixin.qq.com/x").unwrap(), "weixin");
    assert_eq!(provider_key_for_url("https://v.qq.com/x").unwrap(), "tencent");
    assert_eq!(provider_key_for_url("https://Example.ORG/a").unwrap(), "example.org");
    assert_eq!(provider_key_for_url("https://notyoutube.com/a").unwrap(), "notyoutube.com");
}

#[test]
fn provider_keys_need_an_http_address_with_a_host() {
    assert_eq!(
        provider_key_for_url("ftp://example.org/a").unwrap_err(),
        "Expected an HTTP(S) media URL"
    );
    assert!(provider_key_for_url("not a url").is_err());
}

#[test]
fn remote_keys_lower_case_the_provider() {
    assert_eq!(canonical_remote_key("YouTube", "Ab"), "remote:youtube:Ab");
}

fn local(path: &str) -> Media {
    Media {
        id: "m".to_string(),
        canonical_key: "k".to_string(),
        title: "T".to_string(),
        media_type: MediaType::Video,
        origin: MediaOrigin::Local { path: path.to_string() },
        assets: vec![],
    }
}

#[test]
fn remote_media_gets_its_provider_identity() {
    let media = remote_media(
        "https://youtu.be/abc".to_string(),
        "Clip".to_string(),
        "abc".to_string(),
        MediaType::Video,
    )
    .unwrap();
    assert_eq!(media.canonical_key, "remote:youtube:abc");
    assert!(media.assets.is_empty());
    match &media.origin {
        MediaOrigin::Remote { provider, .. } => assert_eq!(provider, "youtube"),
        MediaOrigin::Local { .. } => panic!("expected a remote item"),
    }
    assert!(remote_media("ftp://x/y".to_string(), "t".to_string(), "y".to_string(), MediaType::Audio).is_err());
}

#[test]
fn playback_needs_an_existing_local_file() {
    let file = tempfile::NamedTempFile::new().unwrap();
    let path = file.path().to_str().unwrap().to_string();
    assert_eq!(prepare(&local(&path)).unwrap(), path);
    assert_eq!(session_file(&local(&path), "/nowhere").unwrap(), path);
    let missing = local("/definitely/missing/file.mp4");
    assert_eq!(
        prepare(&missing).unwrap_err(),
        "Media file is unavailable: /definitely/missing/file.mp4"
    );
    let remote = Media {
        origin: MediaOrigin::Remote {
            url: "https://x".to_string(),
            provider: "p".to_string(),
            external_id: "1".to_string(),
        },
        ..local("")
    };
    assert_eq!(prepare(&remote).unwrap_err(), "Media has no local playback asset");
    assert_eq!(session_file(&remote, "/d").unwrap_err(), "媒体尚未下载，请在下载窗口创建任务");
}

#[test]
fn subtitles_are_looked_for_beside_local_files() {
    let (directory, stem) = subtitle_directory(&local("/d/film.mp4")).unwrap().unwrap();
    assert_eq!(directory, "/d");
    assert_eq!(stem, "film");
    let (directory, stem) = subtitle_directory(&local("/d/课程/my.film.en.mp4")).unwrap().unwrap();
    assert_eq!(directory, "/d/课程");
    assert_eq!(stem, "my.film.en");
    let (directory, stem) = subtitle_directory(&local("/.hidden")).unwrap().unwrap();
    assert_eq!(directory, "/");
    assert_eq!(stem, ".hidden");
    let remote = Media {
        origin: MediaOrigin::Remote {
            url: "https://x".to_string(),
            provider: "p".to_string(),
            external_id: "1".to_string(),
        },
        ..local("")
    };
    assert!(subtitle_directory(&remote).unwrap().is_none());
}

#[test]
fn a_local_file_has_one_key_whatever_the_separators_and_case_on_windows() {
    assert_eq!(canonical_local_key("C:\\Media\\A.mp4", true), "local:c:/media/a.mp4");
    assert_eq!(canonical_local_key("C:/media/a.MP4", true), "local:c:/media/a.mp4");
    assert_eq!(canonical_local_key("/m/A.mp4", false), "local:/m/A.mp4");
}
