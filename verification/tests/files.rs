use shadow_player::directory::join_path;
use shadow_player::assets::{subtitle_assets, DirEntry};
use shadow_player::capabilities::{
    extension_lower, is_audio_path, is_browser_video_path, is_external_video_path,
    is_supported_media_path, is_video_path, media_type_from_path,
};
use shadow_player::media::{AssetKind, AssetSource, MediaType};
use shadow_player::directory::{rebuild_playlist, OldEntry};
use shadow_player::download::{DownloadJob, DownloadPhase};
use shadow_player::playlist_files::{
    check_file_operation, path_after_moves, rename_names, rename_plan, rename_plan_with, rollback,
    undo_moves,
    validate_name_on, PlaylistFile,
};
use shadow_player::online::OnlineResolver;
use shadow_player::toolchain::{
    bundled_tool_if, bundled_tool_path, executable_name, ffprobe_path, find_tool, tool_dir_for, tool_path,
};

#[test]
fn media_kinds_follow_the_extension_in_any_case() {
    assert_eq!(extension_lower("Song.MP3").as_deref(), Some("mp3"));
    assert!(is_audio_path("song.FLAC"));
    assert!(is_browser_video_path("clip.webm"));
    assert!(is_external_video_path("clip.MKV"));
    assert!(is_video_path("clip.mp4"));
    assert!(!is_supported_media_path("notes.txt"));
    assert!(!is_supported_media_path("README"));
    assert_eq!(media_type_from_path("a.mov"), MediaType::Video);
    assert_eq!(media_type_from_path("a.txt"), MediaType::Audio);
}

#[test]
fn new_names_are_checked_for_both_platforms() {
    assert!(validate_name_on("Lesson 1", "mp4", false).is_ok());
    assert_eq!(
        validate_name_on(" Lesson", "mp4", false).unwrap_err(),
        "名称不能为空，不能包含路径、特殊字符或首尾空格"
    );
    assert!(validate_name_on("a/b", "mp4", false).is_err());
    assert!(validate_name_on("name.", "mp4", false).is_err());
    assert_eq!(validate_name_on("con.txt", "mp4", false).unwrap_err(), "不能使用系统保留的文件名");
    assert_eq!(validate_name_on("LPT9", "mp4", true).unwrap_err(), "不能使用系统保留的文件名");
    assert!(validate_name_on("COM0", "mp4", true).is_ok());
    assert_eq!(validate_name_on(&"x".repeat(252), "mp4", false).unwrap_err(), "文件名过长");
    assert!(validate_name_on(&"x".repeat(251), "mp4", false).is_ok());
    assert!(validate_name_on(&"中".repeat(100), "mp4", true).is_ok());
    assert!(validate_name_on(&"中".repeat(100), "mp4", false).is_err());
}

#[test]
fn renames_carry_their_sidecar_subtitles() {
    let files = vec!["old.en.srt".to_string(), "other.srt".to_string(), "old.vtt".to_string()];
    let moves = rename_names("new", "old", "mp4", &files, false).unwrap();
    assert_eq!(
        moves,
        vec![
            ("old.mp4".to_string(), "new.mp4".to_string()),
            ("old.en.srt".to_string(), "new.en.srt".to_string()),
            ("old.vtt".to_string(), "new.vtt".to_string()),
        ]
    );
    assert!(rename_names("a:b", "old", "mp4", &files, false).is_err());
    assert_eq!(
        rollback("copy failed".to_string(), &vec!["busy".to_string()]),
        "copy failed；恢复原文件名失败：busy"
    );
    assert_eq!(rollback("e".to_string(), &vec![]), "e");
}

fn entry(path: &str, name: Option<&str>, extension: Option<&str>, is_file: bool) -> DirEntry {
    DirEntry {
        path: path.to_string(),
        name: name.map(|s| s.to_string()),
        extension: extension.map(|s| s.to_string()),
        is_file,
    }
}

#[test]
fn sidecar_subtitles_are_found_with_their_languages() {
    let entries = vec![
        entry("/d/film.en.srt", Some("film.en.srt"), Some("srt"), true),
        entry("/d/film.VTT", Some("film.VTT"), Some("VTT"), true),
        entry("/d/film.mp4", Some("film.mp4"), Some("mp4"), true),
        entry("/d/other.srt", Some("other.srt"), Some("srt"), true),
        entry("/d/film.x.ass", Some("film.x.ass"), Some("ass"), false),
    ];
    let assets = subtitle_assets("m", "film", &entries, AssetSource::Local).unwrap();
    assert_eq!(assets.len(), 2);
    assert_eq!(assets[0].path, "/d/film.en.srt");
    assert_eq!(assets[0].language.as_deref(), Some("en"));
    assert_eq!(assets[0].kind, AssetKind::Subtitle);
    assert_eq!(assets[0].media_id, "m");
    assert_eq!(assets[1].language.as_deref(), Some("und"));
    assert_ne!(assets[0].id, assets[1].id);
    let broken = vec![entry("/d/x.srt", None, Some("srt"), true)];
    assert_eq!(
        subtitle_assets("m", "film", &broken, AssetSource::Local).unwrap_err(),
        "Subtitle filename is not UTF-8"
    );
}

#[test]
fn tool_names_gain_the_windows_suffix_once() {
    assert_eq!(executable_name("ffprobe", true), "ffprobe.exe");
    assert_eq!(executable_name("ffprobe.exe", true), "ffprobe.exe");
    assert_eq!(executable_name("ffprobe", false), "ffprobe");
}

#[test]
fn file_operations_need_the_confirmed_file_and_no_running_download() {
    let file = || PlaylistFile {
        item_id: "i".to_string(),
        media_id: "m".to_string(),
        path: "/d/a.mp4".to_string(),
        stamp: "1".to_string(),
        directory_revision: 2,
        stem: "a".to_string(),
        extension: "mp4".to_string(),
    };
    assert!(check_file_operation(&file(), &file(), &vec![], "m").is_ok());
    let mut changed = file();
    changed.stamp = "2".to_string();
    assert_eq!(
        check_file_operation(&changed, &file(), &vec![], "m").unwrap_err(),
        "文件或保存目录已变化，请关闭弹窗并重新操作"
    );
    let mut running = DownloadJob::with_identity("j".to_string(), "https://x".to_string(), 1)
        .start_attempt("/d".to_string())
        .unwrap();
    running.media_id = Some("m".to_string());
    assert_eq!(
        check_file_operation(&file(), &file(), &vec![running], "m").unwrap_err(),
        "此媒体有进行中或待恢复的下载任务，请先处理下载任务"
    );
    let moves = vec![
        ("/d/a.mp4".to_string(), "/d/.tmp".to_string()),
        ("/d/.tmp".to_string(), "/d/A.mp4".to_string()),
    ];
    assert_eq!(path_after_moves("/d/a.mp4", &moves), "/d/A.mp4");
    assert_eq!(path_after_moves("/d/b.mp4", &moves), "/d/b.mp4");
}

#[test]
fn bundled_tools_are_looked_up_in_the_tool_directory_only() {
    assert_eq!(bundled_tool_path("mpv", "/app/lib", false), "/app/lib/mpv");
    assert_eq!(bundled_tool_path("mpv", "/app/lib/", false), "/app/lib/mpv");
    assert_eq!(bundled_tool_path("mpv", "C:\\app\\lib", true), "C:\\app\\lib\\mpv.exe");
    assert_eq!(bundled_tool_path("mpv", "", false), "mpv");

    let dir = tempfile::tempdir().unwrap();
    let lib = dir.path().to_string_lossy().to_string();
    assert_eq!(find_tool("mpv", &lib, false), None);
    assert_eq!(tool_path("ffmpeg", &lib, false), format!("{lib}/ffmpeg"));
    assert_eq!(ffprobe_path(&lib, false), format!("{lib}/ffprobe"));
    assert_eq!(OnlineResolver::get_tools_paths(&lib, false), (format!("{lib}/yt-dlp"), None));

    let _ffmpeg = tempfile::Builder::new()
        .prefix("ffmpeg")
        .rand_bytes(0)
        .tempfile_in(dir.path())
        .unwrap();
    let bundled = format!("{lib}/ffmpeg");
    assert_eq!(find_tool("ffmpeg", &lib, false), Some(bundled.clone()));
    assert_eq!(tool_path("ffmpeg", &lib, false), bundled);
    assert_eq!(tool_dir_for("ffmpeg", &lib, false), Some(lib.clone()));
    assert_eq!(OnlineResolver::get_ffmpeg_path(&lib, false), Some(bundled));
    assert_eq!(OnlineResolver::get_tools_paths(&lib, false).1, Some(lib.clone()));
    assert_eq!(OnlineResolver::get_mpv_path(&lib, false), None);
    assert_eq!(OnlineResolver::get_ffplay_path(&lib, false), None);
}

fn pairs(items: &[(&str, &str)]) -> Vec<(String, String)> {
    items.iter().map(|(a, b)| (a.to_string(), b.to_string())).collect()
}

#[test]
fn a_rename_moves_each_changed_file_and_passes_case_changes_through_a_temporary_name() {
    let names = pairs(&[("a.mp4", "b.mp4"), ("a.en.srt", "b.en.srt"), ("same.mp4", "same.mp4")]);
    let temps = vec!["t1".to_string(), "t2".to_string(), "t3".to_string()];
    assert_eq!(
        rename_plan_with("/d", &names, false, &vec![false; 3], &temps),
        Ok(pairs(&[("/d/a.mp4", "/d/b.mp4"), ("/d/a.en.srt", "/d/b.en.srt")]))
    );
    assert_eq!(
        rename_plan_with("C:\\d", &pairs(&[("a.mp4", "A.mp4")]), true, &vec![true], &vec!["u".to_string()]),
        Ok(pairs(&[
            ("C:\\d\\a.mp4", "C:\\d\\.shadow-rename-u"),
            ("C:\\d\\.shadow-rename-u", "C:\\d\\A.mp4"),
        ]))
    );
    assert_eq!(
        rename_plan_with("/d", &pairs(&[("a.mp4", "A.mp4")]), false, &vec![false], &vec!["u".to_string()]),
        Ok(pairs(&[("/d/a.mp4", "/d/A.mp4")]))
    );
}

#[test]
fn a_rename_never_overwrites_an_existing_file() {
    let names = pairs(&[("a.mp4", "b.mp4"), ("a.srt", "b.srt")]);
    let temps = vec!["t".to_string(), "t".to_string()];
    assert_eq!(
        rename_plan_with("/d", &names, false, &vec![false, true], &temps),
        Err("同名文件已存在：/d/b.srt".to_string())
    );
    let dir = tempfile::tempdir().unwrap();
    let root = dir.path().to_string_lossy().to_string();
    assert_eq!(
        rename_plan(&root, &pairs(&[("a.mp4", "b.mp4")])),
        Ok(vec![(format!("{root}/a.mp4"), format!("{root}/b.mp4"))])
    );
    let _taken = tempfile::Builder::new()
        .prefix("b.mp4")
        .rand_bytes(0)
        .tempfile_in(dir.path())
        .unwrap();
    assert_eq!(
        rename_plan(&root, &pairs(&[("a.mp4", "b.mp4")])),
        Err(format!("同名文件已存在：{root}/b.mp4"))
    );
}

#[test]
fn a_present_tool_is_found_at_its_bundled_path() {
    assert_eq!(bundled_tool_if("mpv", "/app/lib", false, true), Some("/app/lib/mpv".to_string()));
    assert_eq!(bundled_tool_if("mpv", "C:\\lib", true, true), Some("C:\\lib\\mpv.exe".to_string()));
    assert_eq!(bundled_tool_if("mpv", "/app/lib", false, false), None);
}

#[test]
fn windows_paths_are_judged_by_their_extension() {
    assert!(is_audio_path("C:\\Music\\a.MP3"));
    assert!(is_browser_video_path("D:\\v\\clip.mp4"));
    assert!(is_external_video_path("C:/v/clip.mkv"));
    assert!(is_video_path("C:\\v\\clip.MKV"));
    assert!(!is_video_path("C:\\Music\\a.mp3"));
    assert!(is_supported_media_path("C:\\Music\\a.flac"));
    assert!(!is_supported_media_path("C:\\Music\\a.srt"));
    assert!(!is_supported_media_path("C:\\Music\\a"));
    assert_eq!(media_type_from_path("C:\\v\\a.mkv"), MediaType::Video);
    assert_eq!(media_type_from_path("C:\\v\\a.txt"), MediaType::Audio);
    assert_eq!(extension_lower("C:\\v\\a.MP4").as_deref(), Some("mp4"));
}

fn confirmed(name: &str) -> PlaylistFile {
    PlaylistFile {
        item_id: "item".to_string(),
        media_id: "media".to_string(),
        path: format!("/d/{name}.mp4"),
        stamp: "7:1".to_string(),
        directory_revision: 1,
        stem: name.to_string(),
        extension: "mp4".to_string(),
    }
}

#[test]
fn rename_preserves_identity_subtitles_learning_and_refresh_membership() {
    let target = confirmed("原片");
    assert!(check_file_operation(&target, &target, &vec![], "media").is_ok());
    let files = vec!["原片.en.srt".to_string(), "其他.srt".to_string()];
    let names = rename_names("新的片名", &target.stem, &target.extension, &files, false).unwrap();
    assert_eq!(names, pairs(&[("原片.mp4", "新的片名.mp4"), ("原片.en.srt", "新的片名.en.srt")]));
    let temps = vec!["t0".to_string(), "t1".to_string()];
    let moves = rename_plan_with("/d", &names, false, &vec![false, false], &temps).unwrap();
    let renamed = path_after_moves(&target.path, &moves);
    assert_eq!(renamed, "/d/新的片名.mp4");
    assert_eq!(path_after_moves("/d/原片.en.srt", &moves), "/d/新的片名.en.srt");
    assert_eq!(path_after_moves("/d/其他.srt", &moves), "/d/其他.srt");
    let old = vec![OldEntry { media_id: target.media_id.clone(), entry_id: target.item_id.clone(), added_at: 5 }];
    let rows = rebuild_playlist(&vec![target.media_id.clone()], &old, 9);
    assert_eq!(rows.len(), 1);
    assert_eq!(rows[0].id, target.item_id);
    assert_eq!(rows[0].media_id, target.media_id);
    assert_eq!(rows[0].added_at, 5);
}

#[test]
fn database_failures_restore_renamed_files_and_do_not_delete_files() {
    let target = confirmed("原片");
    let names = rename_names("不能保存", "原片", "mp4", &vec!["原片.en.srt".to_string()], false).unwrap();
    let moves = rename_plan_with("/d", &names, false, &vec![false, false], &vec!["a".to_string(), "b".to_string()]).unwrap();
    let back = undo_moves(&moves);
    assert_eq!(back, pairs(&[("/d/不能保存.en.srt", "/d/原片.en.srt"), ("/d/不能保存.mp4", "/d/原片.mp4")]));
    let after = path_after_moves(&target.path, &moves);
    assert_eq!(after, "/d/不能保存.mp4");
    assert_eq!(path_after_moves(&after, &back), target.path);
    assert_eq!(path_after_moves("/d/不能保存.en.srt", &back), "/d/原片.en.srt");
    assert_eq!(rollback("injected failure".to_string(), &vec![]), "injected failure");
    assert!(rollback("injected failure".to_string(), &vec!["busy".to_string()]).contains("injected failure"));
    assert!(check_file_operation(&target, &target, &vec![], "media").is_ok());
}

#[test]
fn active_download_blocks_file_mutations() {
    let target = confirmed("原片");
    let downloading = DownloadJob::with_identity("job".to_string(), "https://x".to_string(), 1)
        .start_attempt("/d".to_string())
        .unwrap()
        .media_resolved(1, "media".to_string(), "原片".to_string(), false)
        .unwrap();
    assert_eq!(downloading.phase, DownloadPhase::Downloading);
    let blocked = "此媒体有进行中或待恢复的下载任务，请先处理下载任务";
    assert_eq!(check_file_operation(&target, &target, &vec![downloading], "media").unwrap_err(), blocked);
    let stuck = DownloadJob::with_identity("job".to_string(), "https://x".to_string(), 1)
        .start_attempt("/d".to_string())
        .unwrap()
        .media_resolved(1, "media".to_string(), "原片".to_string(), false)
        .unwrap()
        .publishing(1, Some("/d/原片.mp4".to_string()))
        .unwrap()
        .publication_failed("e".to_string(), Err("busy".to_string()))
        .0;
    assert_eq!(stuck.phase, DownloadPhase::RecoveryRequired);
    assert_eq!(check_file_operation(&target, &target, &vec![stuck], "media").unwrap_err(), blocked);
    let elsewhere = DownloadJob::with_identity("job".to_string(), "https://x".to_string(), 1)
        .start_attempt("/d".to_string())
        .unwrap()
        .media_resolved(1, "other".to_string(), "x".to_string(), false)
        .unwrap();
    assert!(check_file_operation(&target, &target, &vec![elsewhere], "media").is_ok());
}

#[test]
fn a_name_from_the_root_replaces_the_directory_on_unix() {
    assert_eq!(join_path("/d", "/abs/x", false), "/abs/x");
    assert_eq!(join_path("/d/", "x", false), "/d/x");
    assert_eq!(join_path("/d", "x", false), "/d/x");
    assert_eq!(join_path("C:\\d", "x", true), "C:\\d\\x");
}
