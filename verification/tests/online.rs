use shadow_player::download::DownloadAuth;
use shadow_player::online::{
    check_login_required, platform_login_url, OnlineResolver, VideoPlatform,
};
use shadow_player::proxy::{forwarded_header, upstream_headers};

#[test]
fn platforms_are_recognised_by_their_domains() {
    assert_eq!(VideoPlatform::from_url("https://www.BiliBili.com/video/x"), VideoPlatform::Bilibili);
    assert_eq!(VideoPlatform::from_url("https://youtu.be/x"), VideoPlatform::YouTube);
    assert_eq!(VideoPlatform::from_url("https://v.qq.com/x"), VideoPlatform::TencentVideo);
    assert_eq!(VideoPlatform::from_url("https://example.org/x"), VideoPlatform::Generic);
    assert_eq!(VideoPlatform::Generic.get_login_url(), "");
    assert!(VideoPlatform::Bilibili.get_referer().is_some());
    assert!(VideoPlatform::matches_stream_url("https://example.org/x").is_none());
}

#[test]
fn file_names_lose_forbidden_characters_and_never_end_empty() {
    assert_eq!(OnlineResolver::sanitize_filename("a/b:c*d?"), "a-b-c-d-");
    assert_eq!(OnlineResolver::sanitize_filename("  many   spaces  "), "many spaces");
    assert_eq!(OnlineResolver::sanitize_filename("..."), "untitled");
    assert_eq!(OnlineResolver::sanitize_filename(""), "untitled");
    assert_eq!(OnlineResolver::sanitize_filename("name. "), "name");
    let long = "x".repeat(300);
    let short = OnlineResolver::sanitize_filename(&long);
    assert_eq!(short.chars().count(), 100);
    assert_eq!(short, format!("{}…{}", "x".repeat(49), "x".repeat(50)));
    let cjk = "中".repeat(60);
    assert_eq!(OnlineResolver::sanitize_filename(&cjk), cjk);
    let exactly = "y".repeat(100);
    assert_eq!(OnlineResolver::sanitize_filename(&exactly), exactly);
    assert_eq!(OnlineResolver::sanitize_filename("a \t\n\u{3000} b\u{7}c"), "a bc");
    let spaced = format!("{} {}", "w".repeat(48), "z ".repeat(40));
    let cut = OnlineResolver::sanitize_filename(&spaced);
    assert!(cut.chars().count() <= 100);
    assert!(!cut.contains("  "));
}

#[test]
fn sign_in_failures_are_parsed_into_site_page_and_message() {
    let (site, page, message) =
        OnlineResolver::parse_login_error("LOGIN_REQUIRED:Bilibili:https://passport.bilibili.com/login:Sign in: needed").unwrap();
    assert_eq!(site, "Bilibili");
    assert_eq!(page, "https://passport.bilibili.com/login");
    assert_eq!(message, "Sign in: needed");
    let e = format!(
        "LOGIN_REQUIRED:{}:{}:{}",
        VideoPlatform::Bilibili.display_name(),
        VideoPlatform::Bilibili.get_login_url(),
        "Sign in to confirm"
    );
    assert_eq!(
        OnlineResolver::parse_login_error(&e),
        Some((
            "哔哩哔哩".to_string(),
            "https://passport.bilibili.com/login".to_string(),
            "Sign in to confirm".to_string()
        ))
    );
    assert!(OnlineResolver::parse_login_error("plain error").is_none());
    assert!(OnlineResolver::parse_login_error("yt-dlp: error").is_none());
    let info = check_login_required("LOGIN_REQUIRED:a:http://b:c").unwrap();
    assert_eq!((info.platform.as_str(), info.login_url.as_str(), info.message.as_str()), ("a", "http://b", "c"));
    assert!(check_login_required("LOGIN_REQUIRED:a").is_none());
}

#[test]
fn metadata_failures_name_sign_in_only_for_sites_with_a_sign_in_page() {
    let m = OnlineResolver::metadata_failure("https://www.bilibili.com/x", "  Please LOGIN first ");
    assert!(m.starts_with("LOGIN_REQUIRED:"));
    assert!(m.ends_with(":Please LOGIN first"));
    assert_eq!(
        OnlineResolver::metadata_failure("https://example.org/x", " login "),
        "yt-dlp: login"
    );
}

#[test]
fn browser_sign_in_sources() {
    assert_eq!(DownloadAuth::Public.browser(), None);
    assert_eq!(DownloadAuth::Chrome.browser(), Some("chrome"));
}

#[test]
fn proxied_requests_carry_identity_referer_and_range() {
    let headers = upstream_headers("https://upos.bilivideo.com/x.m4s", Some("bytes=1-3"));
    let names: Vec<&str> = headers.iter().map(|(k, _)| k.as_str()).collect();
    assert_eq!(names, ["User-Agent", "Referer", "Range"]);
    assert_eq!(headers[1].1, "https://www.bilibili.com/");
    assert_eq!(headers[2].1, "bytes=1-3");
    let plain = upstream_headers("http://127.0.0.1/video", None);
    assert_eq!(plain.len(), 1);
    assert!(forwarded_header("content-range"));
    assert!(!forwarded_header("set-cookie"));
}

#[test]
fn sign_in_pages_are_found_by_english_or_chinese_site_names() {
    assert_eq!(
        platform_login_url("YouTube"),
        Ok("https://accounts.google.com/ServiceLogin?service=youtube".to_string())
    );
    assert_eq!(platform_login_url("哔哩哔哩"), Ok("https://passport.bilibili.com/login".to_string()));
    assert_eq!(platform_login_url("DOUYIN"), Ok("https://www.douyin.com/login".to_string()));
    assert_eq!(platform_login_url("腾讯视频"), Ok("https://v.qq.com/".to_string()));
    assert_eq!(platform_login_url("weixin"), Ok("https://channels.weixin.qq.com/".to_string()));
    assert_eq!(platform_login_url("Vimeo"), Err("Unknown platform: Vimeo".to_string()));
}
