use shadow_player::directory::{
    contains_path, directory_commit, rebind_subtitles, rebuild_playlist, scan_entry_skipped,
    scan_step, DirectorySnapshot, OldEntry, ScanStep,
};
use shadow_player::assets::get_media_subtitles;
use shadow_player::media::{AssetKind, AssetSource, Media, MediaAsset, MediaOrigin, MediaType};
use shadow_player::playlist::{
    advance_revision, check_revision,
};
use shadow_player::playlist::{adjacent_entry, adjacent_entry_with, DownloadStatus, PlaylistEntry, PlaylistItemView};
use shadow_player::settings::{AppSettings, AppSettingsPatch};

fn entries(ids: &[&str]) -> Vec<PlaylistEntry> {
    ids.iter()
        .map(|id| PlaylistEntry { id: id.to_string(), media_id: format!("m-{id}"), added_at: 1 })
        .collect()
}

#[test]
fn sequential_order_stops_at_the_ends() {
    let list = entries(&["a", "b", "c"]);
    assert_eq!(adjacent_entry_with(&list, Some("a"), "sequential", false, 0).as_deref(), Some("b"));
    assert_eq!(adjacent_entry_with(&list, Some("c"), "sequential", false, 0), None);
    assert_eq!(adjacent_entry_with(&list, Some("a"), "sequential", true, 0), None);
    assert_eq!(adjacent_entry_with(&list, None, "sequential", true, 0).as_deref(), Some("c"));
    assert_eq!(adjacent_entry_with(&list, Some("c"), "repeat_all", false, 0).as_deref(), Some("a"));
    assert_eq!(adjacent_entry_with(&list, Some("a"), "repeat_all", true, 0).as_deref(), Some("c"));
    assert_eq!(adjacent_entry_with(&list, Some("b"), "repeat_one", false, 0).as_deref(), Some("b"));
    assert_eq!(adjacent_entry_with(&[], None, "sequential", false, 0), None);
}

#[test]
fn random_order_never_repeats_the_current_entry() {
    let list = entries(&["a", "b", "c"]);
    for random in [0u128, 1, 2, 3, 99, u128::MAX] {
        let next = adjacent_entry_with(&list, Some("b"), "random", false, random).unwrap();
        assert_ne!(next, "b");
    }
    let single = entries(&["only"]);
    assert_eq!(adjacent_entry_with(&single, Some("only"), "random", false, 7).as_deref(), Some("only"));
    for _ in 0..20 {
        assert_ne!(adjacent_entry(&list, Some("a"), "random", false).unwrap(), "a");
    }
}

fn media(origin: MediaOrigin, assets: Vec<MediaAsset>) -> Media {
    Media {
        id: "m".to_string(),
        canonical_key: "k".to_string(),
        title: "T".to_string(),
        media_type: MediaType::Audio,
        origin,
        assets,
    }
}

fn playback_asset(path: &str) -> MediaAsset {
    MediaAsset {
        id: "a".to_string(),
        media_id: "m".to_string(),
        kind: AssetKind::Playback,
        path: path.to_string(),
        language: None,
        source: AssetSource::Download,
    }
}

#[test]
fn playlist_rows_show_the_cached_file_and_download_state() {
    let entry = PlaylistEntry { id: "e".to_string(), media_id: "m".to_string(), added_at: 5 };
    let remote = MediaOrigin::Remote {
        url: "https://x".to_string(),
        provider: "youtube".to_string(),
        external_id: "1".to_string(),
    };
    let row = PlaylistItemView::new(entry, media(remote, vec![playback_asset("/d/a.mp3")]), true);
    assert_eq!(row.cached_path.as_deref(), Some("/d/a.mp3"));
    assert_eq!(row.download_status, DownloadStatus::Downloaded);
    assert_eq!(row.added_at, 5);
    let entry = PlaylistEntry { id: "e".to_string(), media_id: "m".to_string(), added_at: 5 };
    let remote = MediaOrigin::Remote {
        url: "https://x".to_string(),
        provider: "youtube".to_string(),
        external_id: "1".to_string(),
    };
    let row = PlaylistItemView::new(entry, media(remote, vec![]), true);
    assert_eq!(row.download_status, DownloadStatus::NotDownloaded);
}

#[test]
fn local_media_plays_its_own_file() {
    let m = media(MediaOrigin::Local { path: "/d/x.mp3".to_string() }, vec![playback_asset("/d/y.mp3")]);
    assert_eq!(m.local_path().map(|p| p.as_str()), Some("/d/x.mp3"));
    assert_eq!(m.cached_path().map(|p| p.as_str()), Some("/d/y.mp3"));
}

#[test]
fn refresh_keeps_entry_identities_and_lists_each_media_once() {
    let selected = vec!["m1".to_string(), "m2".to_string(), "m1".to_string(), "m3".to_string()];
    let old = vec![
        OldEntry { media_id: "m2".to_string(), entry_id: "e2".to_string(), added_at: 10 },
        OldEntry { media_id: "gone".to_string(), entry_id: "e9".to_string(), added_at: 3 },
    ];
    let rows = rebuild_playlist(&selected, &old, 99);
    assert_eq!(rows.iter().map(|r| r.media_id.as_str()).collect::<Vec<_>>(), ["m1", "m2", "m3"]);
    assert_eq!(rows.iter().map(|r| r.position).collect::<Vec<_>>(), [0, 1, 2]);
    assert_eq!(rows[1].id, "e2");
    assert_eq!(rows[1].added_at, 10);
    assert_eq!(rows[0].added_at, 99);
    assert_ne!(rows[0].id, rows[2].id);
}

#[test]
fn directory_changes_commit_only_when_consistent() {
    let current = DirectorySnapshot { path: "/media".to_string(), revision: 4 };
    assert_eq!(directory_commit("/media", &current, None), Ok(None));
    assert_eq!(
        directory_commit("/other", &current, None).unwrap_err(),
        "刷新目录与当前设置不一致"
    );
    assert_eq!(directory_commit("/new", &current, Some("/new")), Ok(Some(5)));
    assert_eq!(directory_commit("/new", &current, Some("/x")).unwrap_err(), "目录与设置不一致");
    let full = DirectorySnapshot { path: "/media".to_string(), revision: u64::MAX };
    assert_eq!(
        directory_commit("/new", &full, Some("/new")).unwrap_err(),
        "Directory revision overflow"
    );
}

#[test]
fn subtitles_of_a_known_download_are_rebound_to_it() {
    let subtitle = MediaAsset {
        id: "s".to_string(),
        media_id: "local".to_string(),
        kind: AssetKind::Subtitle,
        path: "/d/a.en.srt".to_string(),
        language: Some("en".to_string()),
        source: AssetSource::Local,
    };
    let rebound = rebind_subtitles(&vec![subtitle], "owner");
    assert_eq!(rebound[0].media_id, "owner");
    assert_eq!(rebound[0].source, AssetSource::Download);
    assert_eq!(rebound[0].path, "/d/a.en.srt");
}

fn settings() -> AppSettings {
    AppSettings {
        revision: 3,
        theme: "auto".to_string(),
        language: "zh".to_string(),
        play_mode: "sequential".to_string(),
        minimize_to_tray: false,
        download_directory: "/media".to_string(),
    }
}

#[test]
fn settings_patches_apply_field_by_field() {
    let next = settings()
        .patched(AppSettingsPatch {
            theme: Some("dark".to_string()),
            language: None,
            play_mode: Some("random".to_string()),
            minimize_to_tray: Some(true),
        })
        .unwrap();
    assert_eq!(next.revision, 4);
    assert_eq!(next.theme, "dark");
    assert_eq!(next.language, "zh");
    assert_eq!(next.play_mode, "random");
    assert!(next.minimize_to_tray);
    let same = settings().patched(AppSettingsPatch::empty()).unwrap();
    assert_eq!(same.revision, 4);
    assert_eq!((same.theme.as_str(), same.language.as_str()), ("auto", "zh"));
    let bad = AppSettingsPatch { theme: Some("pink".to_string()), ..AppSettingsPatch::empty() };
    assert_eq!(settings().patched(bad).err().unwrap(), "Invalid theme");
    let bad = AppSettingsPatch { play_mode: Some("shuffle".to_string()), ..AppSettingsPatch::empty() };
    assert_eq!(settings().patched(bad).err().unwrap(), "Invalid play mode");
    let mut full = settings();
    full.revision = u64::MAX;
    assert_eq!(full.patched(AppSettingsPatch::empty()).err().unwrap(), "Settings revision overflow");
}

#[test]
fn paths_below_the_directory_are_inside_it() {
    assert_eq!(contains_path("/media", "/media/a.mp3"), Ok(true));
    assert_eq!(contains_path("/media/", "/media/sub/a.mp3"), Ok(true));
    assert_eq!(contains_path("/media", "/mediax/a.mp3"), Ok(false));
    assert_eq!(contains_path("/media", "/media"), Ok(false));
}

#[test]
fn a_scan_skips_the_download_areas_links_and_outside_paths() {
    assert!(scan_entry_skipped(true, Some("downloading"), false));
    assert!(scan_entry_skipped(true, Some("remux"), false));
    assert!(!scan_entry_skipped(false, Some("remux"), false));
    assert!(scan_entry_skipped(false, Some("a.mp4"), true));
    assert!(!scan_entry_skipped(true, None, false));
    assert_eq!(scan_step(true, Some("remux"), false, true, true, false, None), ScanStep::Skip);
    assert_eq!(scan_step(false, Some("remux"), false, true, true, false, None), ScanStep::Descend);
    assert_eq!(scan_step(false, Some("a.MKV"), false, true, false, true, Some("MKV")), ScanStep::Collect);
    assert_eq!(scan_step(false, Some("a.mp3"), false, false, false, true, Some("mp3")), ScanStep::Skip);
    assert_eq!(scan_step(false, Some("a.txt"), false, true, false, true, Some("txt")), ScanStep::Skip);
    assert_eq!(scan_step(false, Some("a"), false, true, false, true, None), ScanStep::Skip);
}

#[test]
fn only_the_first_writer_of_a_playlist_revision_commits() {
    assert_eq!(check_revision(3, 3), Ok(()));
    let changed = "Playlist changed in another process; restart to reload it".to_string();
    assert_eq!(check_revision(4, 3), Err(changed.clone()));
    assert_eq!(advance_revision(3, 3), Ok(4));
    assert_eq!(advance_revision(4, 3), Err(changed));
    assert_eq!(
        advance_revision(u64::MAX, u64::MAX),
        Err("Playlist revision overflow".to_string())
    );
}

fn subtitle_asset(path: &str) -> MediaAsset {
    MediaAsset {
        id: path.to_string(),
        media_id: "m".to_string(),
        kind: AssetKind::Subtitle,
        path: path.to_string(),
        language: Some("en".to_string()),
        source: AssetSource::Local,
    }
}

#[test]
fn media_subtitles_are_listed_only_while_their_files_exist() {
    let dir = tempfile::tempdir().unwrap();
    let present = tempfile::Builder::new()
        .prefix("a.en.srt")
        .rand_bytes(0)
        .tempfile_in(dir.path())
        .unwrap();
    let present_path = present.path().to_string_lossy().to_string();
    let missing_path = format!("{}/a.fr.srt", dir.path().to_string_lossy());
    let m = media(
        MediaOrigin::Local { path: "/d/x.mp3".to_string() },
        vec![playback_asset("/d/y.mp3"), subtitle_asset(&present_path)],
    );
    let subtitles = get_media_subtitles(&m).unwrap();
    assert_eq!(subtitles.len(), 1);
    assert_eq!(subtitles[0].path, present_path);
    let m = media(
        MediaOrigin::Local { path: "/d/x.mp3".to_string() },
        vec![subtitle_asset(&present_path), subtitle_asset(&missing_path)],
    );
    assert_eq!(
        get_media_subtitles(&m).unwrap_err(),
        format!("Subtitle file is unavailable: {missing_path}")
    );
}
