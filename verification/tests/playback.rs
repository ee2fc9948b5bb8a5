use shadow_player::media::{Media, MediaOrigin, MediaType};
use shadow_player::playback::{
    plan_media_type, AudioSnapshot, BrowserPlaybackReport, PlaybackController, PlaybackPlan,
    PlaybackStatus,
};

fn fixture_media() -> Media {
    Media {
        id: "m".to_string(),
        canonical_key: "test".to_string(),
        title: "Fixture".to_string(),
        media_type: MediaType::Video,
        origin: MediaOrigin::Local { path: "fixture.mp4".to_string() },
        assets: vec![],
    }
}

fn report(id: u64, sequence: u64, owner: &str, position: f64, status: PlaybackStatus) -> BrowserPlaybackReport {
    BrowserPlaybackReport {
        session_id: id,
        owner: owner.to_string(),
        sequence,
        position: position.to_bits(),
        duration: 8.0f64.to_bits(),
        status,
    }
}

#[test]
fn browser_can_repeat_after_end_but_stale_owners_and_sequences_are_rejected() {
    let mut controller = PlaybackController::new();
    let media = fixture_media();
    let id = controller.begin(media.clone(), None).unwrap();
    assert!(controller.activate(
        id,
        media,
        PlaybackPlan::BrowserVideo { path: "fixture.mp4".to_string(), video_codec: "h264".to_string() },
    ));
    controller.attach_browser(id, "owner".to_string()).unwrap();
    controller.report_browser(report(id, 1, "owner", 8.0, PlaybackStatus::Ended)).unwrap();
    controller.report_browser(report(id, 2, "owner", 1.0, PlaybackStatus::Playing)).unwrap();
    assert_eq!(controller.snapshot().session.unwrap().status, PlaybackStatus::Playing);
    controller.report_browser(report(id, 1, "owner", 8.0, PlaybackStatus::Ended)).unwrap();
    controller.report_browser(report(id, 3, "old-owner", 8.0, PlaybackStatus::Ended)).unwrap();
    assert_eq!(f64::from_bits(controller.snapshot().session.unwrap().position), 1.0);
    controller.fail(id, "decode error".to_string());
    controller.report_browser(report(id, 4, "owner", 2.0, PlaybackStatus::Playing)).unwrap();
    assert_eq!(controller.snapshot().session.unwrap().status, PlaybackStatus::Failed);
}

#[test]
fn a_later_request_makes_the_earlier_one_stale() {
    let mut controller = PlaybackController::new();
    let first = controller.begin(fixture_media(), None).unwrap();
    let second = controller.begin(fixture_media(), Some("entry".to_string())).unwrap();
    assert_eq!(second, first + 1);
    assert!(!controller.matches(first));
    assert!(controller.matches(second));
    assert!(!controller.activate(
        first,
        fixture_media(),
        PlaybackPlan::Audio { path: "a.mp3".to_string() },
    ));
    assert_eq!(controller.snapshot().session.unwrap().status, PlaybackStatus::Preparing);
}

#[test]
fn reserve_numbers_requests_and_advances_the_revision() {
    let mut controller = PlaybackController::new();
    assert_eq!(controller.revision(), 0);
    let id = controller.reserve().unwrap();
    assert_eq!(id, 1);
    assert!(controller.is_requested(1));
    assert!(!controller.matches(1));
    assert_eq!(controller.revision(), 1);
}

#[test]
fn browser_reports_with_invalid_times_or_statuses_are_refused() {
    let bad_time = BrowserPlaybackReport {
        session_id: 1,
        owner: "o".to_string(),
        sequence: 1,
        position: f64::NAN.to_bits(),
        duration: 0,
        status: PlaybackStatus::Playing,
    };
    assert_eq!(bad_time.validate().unwrap_err(), "Invalid playback time");
    let bad_status = report(1, 1, "o", 1.0, PlaybackStatus::Failed);
    assert_eq!(bad_status.validate().unwrap_err(), "Invalid browser playback status");
    assert!(report(1, 1, "o", 1.0, PlaybackStatus::Paused).validate().is_ok());
}

#[test]
fn audio_engine_snapshots_update_only_their_audio_session() {
    let mut controller = PlaybackController::new();
    let id = controller.begin(fixture_media(), Some("e".to_string())).unwrap();
    assert!(controller.activate(id, fixture_media(), PlaybackPlan::Audio { path: "a.mp3".to_string() }));
    assert!(controller.audio_for_session(id).is_ok());
    assert!(controller.audio_for_session(id + 1).is_err());
    let before = controller.revision();
    controller.sync_audio(Some(AudioSnapshot {
        session_id: id,
        status: PlaybackStatus::Playing,
        position: 2.0f64.to_bits(),
        duration: 9.0f64.to_bits(),
        error: None,
    }));
    assert_eq!(controller.revision(), before + 1);
    let session = controller.snapshot().session.unwrap();
    assert_eq!(session.status, PlaybackStatus::Playing);
    assert_eq!(f64::from_bits(session.position), 2.0);
    controller.sync_audio(Some(AudioSnapshot {
        session_id: id + 7,
        status: PlaybackStatus::Paused,
        position: 0,
        duration: 0,
        error: None,
    }));
    assert_eq!(controller.snapshot().session.unwrap().status, PlaybackStatus::Playing);
}

#[test]
fn removal_and_advance_decisions_follow_the_current_session() {
    let mut controller = PlaybackController::new();
    assert!(controller.stops_for_removal(None));
    assert!(!controller.stops_for_removal(Some("e")));
    let id = controller.begin(fixture_media(), Some("e".to_string())).unwrap();
    assert!(controller.stops_for_removal(Some("e")));
    assert!(!controller.stops_for_removal(Some("other")));
    assert!(controller.plays_media("m"));
    assert!(!controller.plays_media("x"));
    assert_eq!(controller.advance_from(id, false), Some(Some("e".to_string())));
    assert_eq!(controller.advance_from(id, true), None);
    assert_eq!(controller.advance_from(id + 1, false), None);
    assert!(controller.activate(
        id,
        fixture_media(),
        PlaybackPlan::ExternalVideo { path: "a.mkv".to_string() },
    ));
    controller.external_exited();
    assert_eq!(controller.snapshot().session.unwrap().status, PlaybackStatus::Stopped);
    controller.external_failed("crashed".to_string());
    let session = controller.snapshot().session.unwrap();
    assert_eq!(session.status, PlaybackStatus::Failed);
    assert_eq!(session.error.as_deref(), Some("crashed"));
    controller.stop().unwrap();
}

#[test]
fn plans_reveal_the_media_type() {
    assert_eq!(plan_media_type(&PlaybackPlan::Audio { path: "a".to_string() }), MediaType::Audio);
    assert_eq!(plan_media_type(&PlaybackPlan::ExternalVideo { path: "a".to_string() }), MediaType::Video);
}
