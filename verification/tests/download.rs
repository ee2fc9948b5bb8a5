use shadow_player::download::{download_step, DownloadEvent, DownloadStage, WorkerAction};
use shadow_player::download_options::DownloadOption;
use shadow_player::media::{AssetKind, AssetSource, MediaAsset, MediaType};
use shadow_player::directory::{directory_commit, directory_failure, DirectorySnapshot};
use shadow_player::download::{attempt_failure, bundle_assets, in_staging, bundle_paths, bundle_paths_on, restore_step, submit_target, DownloadJob, DownloadPhase, DownloadProgress, RuntimeTask};

fn job() -> DownloadJob {
    DownloadJob::with_identity("id".to_string(), "https://x".to_string(), 7)
}

#[test]
fn a_new_job_waits_interrupted_under_its_url() {
    let j = job();
    assert_eq!(j.attempt, 0);
    assert_eq!(j.phase, DownloadPhase::Interrupted);
    assert_eq!(j.title, "https://x");
    let fresh = DownloadJob::new("https://y".to_string()).unwrap();
    assert_eq!(fresh.url, "https://y");
    assert_ne!(fresh.id, DownloadJob::new("https://y".to_string()).unwrap().id);
}

#[test]
fn old_attempts_cannot_overwrite_a_newer_attempt() {
    let first = job().start_attempt("/d".to_string()).unwrap();
    assert_eq!(first.attempt, 1);
    assert_eq!(first.phase, DownloadPhase::Resolving);
    assert_eq!(first.directory.as_deref(), Some("/d"));
    let (stopped, changed) = first.finish_attempt(1, DownloadPhase::Interrupted, None, Some("x".to_string()));
    assert!(changed);
    let second = stopped.start_attempt("/e".to_string()).unwrap();
    assert_eq!(second.attempt, 2);
    let (same, changed) = second.finish_attempt(1, DownloadPhase::Completed, None, None);
    assert!(!changed);
    assert_eq!(same.phase, DownloadPhase::Resolving);
    assert!(second.start_attempt("/f".to_string()).is_err());
    assert!(second.media_resolved(1, "m".to_string(), "T".to_string(), false).is_err());
}

#[test]
fn a_resolved_attempt_downloads_and_then_publishes() {
    let started = job().start_attempt("/d".to_string()).unwrap();
    assert_eq!(
        started.media_resolved(1, "m".to_string(), "T".to_string(), true).err().unwrap(),
        "该媒体已有正在进行的下载任务"
    );
    let downloading = started.media_resolved(1, "m".to_string(), "Title".to_string(), false).unwrap();
    assert_eq!(downloading.phase, DownloadPhase::Downloading);
    assert_eq!(downloading.title, "Title");
    assert_eq!(downloading.media_id.as_deref(), Some("m"));
    assert_eq!(downloading.publishing(2, None).err().unwrap(), "下载任务已停止");
    let publishing = downloading.publishing(1, Some("/d/media/m/id/a.mp4".to_string())).unwrap();
    assert_eq!(publishing.phase, DownloadPhase::Publishing);
    assert!(publishing.publication_pending());
    let (failed, error) = publishing.publication_failed("disk".to_string(), Ok(()));
    assert_eq!(failed.phase, DownloadPhase::Failed);
    assert_eq!(failed.output_path, None);
    assert_eq!(error, "disk");
    let (stuck, error) = publishing.publication_failed("disk".to_string(), Err("busy".to_string()));
    assert_eq!(stuck.phase, DownloadPhase::RecoveryRequired);
    assert_eq!(error, "disk; busy");
    assert_eq!(stuck.error.as_deref(), Some("disk; busy"));
}

#[test]
fn startup_recovery_interrupts_unfinished_jobs() {
    let running = job().start_attempt("/d".to_string()).unwrap();
    let recovered = running.recovered().unwrap();
    assert_eq!(recovered.phase, DownloadPhase::Interrupted);
    assert_eq!(recovered.interrupt_reason.as_deref(), Some("app_closed"));
    assert!(job().recovered().is_none());
}

#[test]
fn failed_workers_finish_only_their_own_attempt() {
    let running = job().start_attempt("/d".to_string()).unwrap();
    assert_eq!(attempt_failure(&running, 2, "e".to_string(), None), None);
    assert_eq!(
        attempt_failure(&running, 1, "e".to_string(), None),
        Some((DownloadPhase::Failed, "e".to_string()))
    );
    let publishing = running
        .media_resolved(1, "m".to_string(), "T".to_string(), false)
        .unwrap()
        .publishing(1, None)
        .unwrap();
    assert_eq!(
        attempt_failure(&publishing, 1, "e".to_string(), Some(Err("r".to_string()))),
        Some((DownloadPhase::RecoveryRequired, "e; r".to_string()))
    );
}

#[test]
fn runtime_errors_show_recovery_for_the_current_attempt_only() {
    let running = job().start_attempt("/d".to_string()).unwrap();
    let progress = DownloadProgress { percent: Some(50.0f64.to_bits()), speed: None, eta: None };
    let task = RuntimeTask { attempt: 1, progress: Some(progress), error: Some("x".to_string()) };
    let shown = running.shown(Some(&task));
    assert_eq!(shown.phase, DownloadPhase::RecoveryRequired);
    assert_eq!(shown.error.as_deref(), Some("x"));
    assert_eq!(shown.progress, Some(progress));
    let old = RuntimeTask { attempt: 0, progress: Some(progress), error: Some("x".to_string()) };
    let shown = running.shown(Some(&old));
    assert_eq!(shown.phase, DownloadPhase::Resolving);
    assert_eq!(shown.progress, None);
}

#[test]
fn publication_completes_with_the_playback_file_and_the_chosen_kind() {
    let mut base = job();
    base.options = vec![DownloadOption {
        id: "audio:mp3".to_string(),
        media_type: MediaType::Audio,
        height: None,
        width: None,
        format_selector: "a".to_string(),
        extract_audio: true,
        requires_audio: true,
        limited_duration: None,
        video_codec: None,
    }];
    base.selection = Some("audio:mp3".to_string());
    let publishing = base
        .start_attempt("/d".to_string())
        .unwrap()
        .media_resolved(1, "m".to_string(), "T".to_string(), false)
        .unwrap()
        .publishing(1, None)
        .unwrap();
    let asset = |kind, path: &str| MediaAsset {
        id: "x".to_string(),
        media_id: "m".to_string(),
        kind,
        path: path.to_string(),
        language: None,
        source: AssetSource::Download,
    };
    let assets = vec![asset(AssetKind::Subtitle, "/d/a.srt"), asset(AssetKind::Playback, "/d/a.mp3")];
    let (done, kind) = publishing.completed(1, "m", "/d", &assets, true).unwrap();
    assert_eq!(done.phase, DownloadPhase::Completed);
    assert_eq!(done.output_path.as_deref(), Some("/d/a.mp3"));
    assert_eq!(kind, MediaType::Audio);
    assert_eq!(publishing.completed(1, "other", "/d", &assets, true).err().unwrap(), "下载任务与文件目录不一致");
    assert_eq!(publishing.completed(1, "m", "/d", &assets, false).err().unwrap(), "下载文件不在当前保存目录中");
    assert_eq!(publishing.completed(2, "m", "/d", &assets, true).err().unwrap(), "下载任务已停止或已开始新的尝试");
    assert_eq!(
        publishing.completed(1, "m", "/d", &vec![], true).err().unwrap(),
        "Download has no playback file"
    );
}

const JOB_ID: &str = "550e8400-e29b-41d4-a716-446655440000";
const MEDIA_ID: &str = "6ba7b810-9dad-11d1-80b4-00c04fd430c8";

fn resolved(directory: &str) -> DownloadJob {
    let mut j = DownloadJob::with_identity(JOB_ID.to_string(), "https://x".to_string(), 7);
    j.media_id = Some(MEDIA_ID.to_string());
    j.directory = Some(directory.to_string());
    j
}

#[test]
fn an_attempt_stages_and_publishes_under_its_directory() {
    assert_eq!(
        bundle_paths_on(&resolved("/d"), false),
        Ok((
            format!("/d/downloading/{JOB_ID}"),
            format!("/d/media/{MEDIA_ID}/{JOB_ID}")
        ))
    );
    assert_eq!(
        bundle_paths_on(&resolved("C:\\d\\"), true),
        Ok((
            format!("C:\\d\\downloading\\{JOB_ID}"),
            format!("C:\\d\\media\\{MEDIA_ID}\\{JOB_ID}")
        ))
    );
    assert!(bundle_paths(&resolved("/d")).is_ok());
}

#[test]
fn bundle_paths_need_valid_identities_and_a_directory() {
    let mut bad_id = resolved("/d");
    bad_id.id = "id".to_string();
    assert_eq!(bundle_paths(&bad_id), Err("Invalid download identity".to_string()));
    let mut unresolved = resolved("/d");
    unresolved.media_id = None;
    assert_eq!(bundle_paths(&unresolved), Err("Download media is unresolved".to_string()));
    let mut bad_media = resolved("/d");
    bad_media.media_id = Some("m".to_string());
    assert_eq!(bundle_paths(&bad_media), Err("Invalid media identity".to_string()));
    let mut no_directory = resolved("/d");
    no_directory.directory = None;
    assert_eq!(bundle_paths(&no_directory), Err("Download directory is missing".to_string()));
    let mut fresh = DownloadJob::new("https://y".to_string()).unwrap();
    assert_eq!(bundle_paths(&fresh), Err("Download media is unresolved".to_string()));
    fresh.media_id = Some(MEDIA_ID.to_string());
    assert_eq!(bundle_paths(&fresh), Err("Download directory is missing".to_string()));
}

#[test]
fn submitting_a_link_already_downloading_reuses_its_task() {
    let url = "https://www.youtube.com/watch?v=abc";
    let mut running = DownloadJob::with_identity("run".to_string(), url.to_string(), 1);
    running.phase = DownloadPhase::Downloading;
    let mut done = DownloadJob::with_identity("done".to_string(), url.to_string(), 2);
    done.phase = DownloadPhase::Completed;
    let other = DownloadJob::with_identity("other".to_string(), "https://b23.tv/x".to_string(), 3);
    let jobs = vec![done, other, running];
    assert_eq!(
        submit_target(&jobs, &format!("  {url}\n")),
        Ok((url.to_string(), Some("run".to_string())))
    );
    assert_eq!(
        submit_target(&jobs[..2].iter().map(|j| DownloadJob::with_identity(j.id.clone(), j.url.clone(), j.created_at)).collect(), url),
        Ok((url.to_string(), None))
    );
    assert_eq!(
        submit_target(&jobs, "ftp://example.com/a"),
        Err("Expected an HTTP(S) media URL".to_string())
    );
}

#[test]
fn restoring_a_publication_moves_the_bundle_back_only_when_staging_is_gone() {
    assert_eq!(restore_step(true, false), Ok(true));
    assert_eq!(restore_step(false, true), Ok(false));
    assert_eq!(
        restore_step(true, true),
        Err("下载恢复失败：临时目录和目标目录同时存在".to_string())
    );
    assert_eq!(
        restore_step(false, false),
        Err("下载恢复失败：临时文件和目标文件均不存在".to_string())
    );
}

fn chosen_job() -> DownloadJob {
    let mut base = DownloadJob::with_identity(JOB_ID.to_string(), "https://x".to_string(), 7);
    base.options = vec![DownloadOption {
        id: "video:720".to_string(),
        media_type: MediaType::Video,
        height: Some(720),
        width: None,
        format_selector: "v".to_string(),
        extract_audio: false,
        requires_audio: false,
        limited_duration: None,
        video_codec: None,
    }];
    base.selection = Some("video:720".to_string());
    base
}

#[test]
fn publication_failure_rolls_back_files_assets_playlist_and_completion() {
    let first = chosen_job()
        .start_attempt("/d".to_string())
        .unwrap()
        .media_resolved(1, MEDIA_ID.to_string(), "T".to_string(), false)
        .unwrap();
    let (staging, bundle) = bundle_paths_on(&first, false).unwrap();
    assert_eq!(staging, format!("/d/downloading/{JOB_ID}"));
    assert_eq!(bundle, format!("/d/media/{MEDIA_ID}/{JOB_ID}"));
    let publishing = first.publishing(1, Some(format!("{bundle}/a.mp4"))).unwrap();
    let (failed, error) = publishing.publication_failed("publication fixture".to_string(), Ok(()));
    assert!(error.contains("publication fixture"));
    assert_eq!(failed.phase, DownloadPhase::Failed);
    assert_eq!(failed.output_path, None);
    assert_eq!(restore_step(true, false), Ok(true));
    let next = failed
        .start_attempt("/d".to_string())
        .unwrap()
        .media_resolved(2, MEDIA_ID.to_string(), "T".to_string(), false)
        .unwrap();
    assert_eq!(bundle_paths_on(&next, false).unwrap().0, staging);
    let asset = |kind, path: String| MediaAsset {
        id: "x".to_string(),
        media_id: MEDIA_ID.to_string(),
        kind,
        path,
        language: None,
        source: AssetSource::Download,
    };
    let assets = vec![asset(AssetKind::Playback, format!("{bundle}/a.mp4"))];
    let (done, kind) = next
        .publishing(2, Some(format!("{bundle}/a.mp4")))
        .unwrap()
        .completed(2, MEDIA_ID, "/d", &assets, true)
        .unwrap();
    assert_eq!(done.phase, DownloadPhase::Completed);
    assert_eq!(kind, MediaType::Video);
}

#[test]
fn failed_directory_commit_preserves_the_directory_and_reports_interruption() {
    let running = chosen_job().start_attempt("/a".to_string()).unwrap();
    let expected = DirectorySnapshot { path: "/a".to_string(), revision: 3 };
    assert_eq!(directory_commit("/b", &expected, Some("/b")), Ok(Some(4)));
    let (stopped, changed) =
        running.finish_attempt(1, DownloadPhase::Interrupted, None, Some("directory_changed".to_string()));
    assert!(changed);
    assert_eq!(stopped.phase, DownloadPhase::Interrupted);
    assert_eq!(stopped.interrupt_reason.as_deref(), Some("directory_changed"));
    let error = directory_failure("directory fixture".to_string(), true);
    assert!(error.contains("directory fixture"));
    assert!(error.contains("进行中的下载已中断"));
    assert_eq!(directory_failure("directory fixture".to_string(), false), "directory fixture");
    assert_eq!(expected.path, "/a");
    assert_eq!(directory_commit("/b", &expected, None).unwrap_err(), "刷新目录与当前设置不一致");
}

#[test]
fn recovery_interrupts_jobs_awaiting_recovery_and_keeps_idle_ones() {
    let stuck = chosen_job()
        .start_attempt("/d".to_string())
        .unwrap()
        .media_resolved(1, MEDIA_ID.to_string(), "T".to_string(), false)
        .unwrap()
        .publishing(1, Some("/d/a.mp4".to_string()))
        .unwrap()
        .publication_failed("e".to_string(), Err("busy".to_string()))
        .0;
    let after = stuck.recovered().unwrap();
    assert_eq!(after.phase, DownloadPhase::Interrupted);
    assert_eq!(after.interrupt_reason.as_deref(), Some("app_closed"));
    assert_eq!(after.attempt, 1);
    assert_eq!(after.output_path, None);
    let (failed, _) = stuck.publication_failed("e".to_string(), Ok(()));
    assert!(failed.recovered().is_none());
}

#[test]
fn published_assets_move_into_the_bundle_under_their_names() {
    let asset = |kind, path: &str| MediaAsset {
        id: format!("id:{path}"),
        media_id: "m".to_string(),
        kind,
        path: path.to_string(),
        language: None,
        source: AssetSource::Download,
    };
    let subtitles = vec![asset(AssetKind::Subtitle, "/d/downloading/j/a.en.srt")];
    let (moved, playback) =
        bundle_assets(&subtitles, asset(AssetKind::Playback, "/d/downloading/j/a.mp4"), "/d/media/m/j", false)
            .unwrap();
    assert_eq!(moved.len(), 2);
    assert_eq!(moved[0].path, "/d/media/m/j/a.en.srt");
    assert_eq!(moved[0].id, "id:/d/downloading/j/a.en.srt");
    assert_eq!(moved[1].path, "/d/media/m/j/a.mp4");
    assert_eq!(moved[1].kind, AssetKind::Playback);
    assert_eq!(playback, moved[1].path);
    assert_eq!(
        bundle_assets(&vec![], asset(AssetKind::Playback, "/"), "/x", false).unwrap_err(),
        "Missing download filename"
    );
    assert!(in_staging("/d/downloading/j/a.mp4", "/d/downloading/j"));
    assert!(!in_staging("/d/other/a.mp4", "/d/downloading/j"));
    assert!(!in_staging("/d/downloading/j/sub/a.mp4", "/d/downloading/j"));
}

#[test]
fn a_worker_reuses_a_finished_file_in_the_current_directory_and_downloads_otherwise() {
    let (stage, action) = download_step(DownloadStage::Idle, DownloadEvent::Started);
    assert_eq!(stage, DownloadStage::Resolving);
    assert!(matches!(action, WorkerAction::ResolveMetadata));
    let (stage, _) = download_step(stage, DownloadEvent::MetadataResolved);
    assert_eq!(stage, DownloadStage::Registering);
    let (cached, action) = download_step(
        stage,
        DownloadEvent::MediaRegistered { cached: Some("/d/media/m/j/a.mp4".to_string()), inside: true },
    );
    assert_eq!(cached, DownloadStage::PublishingCached);
    assert!(matches!(action, WorkerAction::PublishCached { path } if path == "/d/media/m/j/a.mp4"));
    let (stage, action) = download_step(
        DownloadStage::Registering,
        DownloadEvent::MediaRegistered { cached: Some("/old/a.mp4".to_string()), inside: false },
    );
    assert_eq!(stage, DownloadStage::Staging);
    assert!(matches!(action, WorkerAction::PrepareStaging));
    let (failed, action) = download_step(stage, DownloadEvent::StagingReady { remote: false });
    assert_eq!(failed, DownloadStage::Failed);
    assert!(matches!(action, WorkerAction::Fail { error } if error == "Expected remote media"));
    let (stage, action) = download_step(stage, DownloadEvent::StagingReady { remote: true });
    assert_eq!(stage, DownloadStage::Downloading);
    assert!(matches!(action, WorkerAction::RunDownloader));
    let (stage, action) = download_step(stage, DownloadEvent::Downloaded { path: "/s/a.mp4".to_string() });
    assert_eq!(stage, DownloadStage::Publishing);
    assert!(matches!(action, WorkerAction::PublishBundle { path } if path == "/s/a.mp4"));
    let (stage, action) = download_step(stage, DownloadEvent::Published);
    assert_eq!(stage, DownloadStage::Done);
    assert!(matches!(action, WorkerAction::Finish));
    let (stage, action) = download_step(stage, DownloadEvent::Failed { error: "late".to_string() });
    assert_eq!(stage, DownloadStage::Done);
    assert!(matches!(action, WorkerAction::Wait));
    let (stage, action) = download_step(DownloadStage::Downloading, DownloadEvent::Failed { error: "e".to_string() });
    assert_eq!(stage, DownloadStage::Failed);
    assert!(matches!(action, WorkerAction::Fail { error } if error == "e"));
}
