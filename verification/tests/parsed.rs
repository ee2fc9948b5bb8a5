use shadow_player::learning::{result_address, scores_summary, source_address, XmlNode};
use shadow_player::media::provider_key_from;
use shadow_player::subtitles::{srt_cues, webvtt_cues, SubtitleBlock, VttItem};
use shadow_player::web::UrlParts;

fn url(text: &str, scheme: &str, host: Option<&str>, username: &str, password: Option<&str>) -> UrlParts {
    UrlParts {
        text: text.to_string(),
        scheme: scheme.to_string(),
        host: host.map(str::to_string),
        username: username.to_string(),
        password: password.map(str::to_string),
    }
}

fn node(name: &str, attributes: &[(&str, &str)]) -> XmlNode {
    XmlNode {
        is_element: true,
        name: name.to_string(),
        attributes: attributes.iter().map(|(k, v)| (k.to_string(), v.to_string())).collect(),
    }
}

#[test]
fn scores_come_from_the_first_scored_sentence() {
    let nodes = vec![
        node("xml_result", &[]),
        node("read_sentence", &[("content", "x")]),
        node("read_sentence", &[("total_score", "88"), ("fluency_score", "70")]),
        node("read_sentence", &[("total_score", "10")]),
    ];
    assert_eq!(scores_summary(&nodes), Ok("总分：88 · 流利度：70".to_string()));
    let rejected = vec![node("read_sentence", &[("total_score", "0"), ("is_rejected", "true")])];
    assert!(scores_summary(&rejected).unwrap_err().starts_with("评测拒识"));
    assert_eq!(scores_summary(&vec![]), Err("评测结果缺少句子得分".to_string()));
}

#[test]
fn parsed_addresses_are_checked_by_scheme_host_and_credentials() {
    assert_eq!(result_address(url("https://r/x", "https", Some("r"), "", None)), Ok("https://r/x".to_string()));
    assert_eq!(
        result_address(url("http://r/x", "http", Some("r"), "", None)),
        Err("服务返回了非 HTTPS 结果地址".to_string())
    );
    assert_eq!(source_address(url("http://m/a.mp3", "http", Some("m"), "", None)), Ok("http://m/a.mp3".to_string()));
    assert_eq!(
        source_address(url("http://u@m/a.mp3", "http", Some("m"), "u", None)),
        Err("转写地址必须是 HTTP/HTTPS 文件链接".to_string())
    );
    assert_eq!(provider_key_from(&url("https://m.bilibili.com/v", "https", Some("M.Bilibili.com"), "", None)), Ok("bilibili".to_string()));
    assert_eq!(provider_key_from(&url("https://a.example/v", "https", Some("a.example"), "", None)), Ok("a.example".to_string()));
    assert_eq!(
        provider_key_from(&url("ftp://a/v", "ftp", Some("a"), "", None)),
        Err("Expected an HTTP(S) media URL".to_string())
    );
    assert_eq!(
        provider_key_from(&url("https:x", "https", None, "", None)),
        Err("Media URL has no host".to_string())
    );
}

#[test]
fn parsed_subtitle_blocks_become_cues_with_joined_lines() {
    let block = || SubtitleBlock::new(0, 0, 1, 500, 0, 0, 2, 0, vec!["a".to_string(), "b".to_string()]);
    let cues = srt_cues(&vec![block()]);
    assert_eq!(cues.len(), 1);
    assert_eq!(cues[0].text, "a\nb");
    assert_eq!(cues[0].start.milliseconds, 500);
    let cues = webvtt_cues(&vec![VttItem::Other, VttItem::Cue(block()), VttItem::Other]);
    assert_eq!(cues.len(), 1);
    assert_eq!(cues[0].end.seconds, 2);
}
