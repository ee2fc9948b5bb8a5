use shadow_player::library::{get_folder_tree, FsNode, LibraryItem, LibrarySource};
use shadow_player::media::MediaType;

fn file(dir: &str, name: &str) -> FsNode {
    let (stem, extension) = match name.rsplit_once('.') {
        Some((stem, ext)) => (stem.to_string(), Some(ext.to_string())),
        None => (name.to_string(), None),
    };
    FsNode {
        name: Some(name.to_string()),
        path: format!("{dir}/{name}"),
        is_dir: false,
        is_file: true,
        extension,
        stem,
        parent: Some(dir.to_string()),
        children: Vec::new(),
    }
}

fn folder(parent: &str, name: &str, children: Vec<FsNode>) -> FsNode {
    FsNode {
        name: Some(name.to_string()),
        path: format!("{parent}/{name}"),
        is_dir: true,
        is_file: false,
        extension: None,
        stem: name.to_string(),
        parent: Some(parent.to_string()),
        children,
    }
}

fn names(item: &LibraryItem) -> Vec<String> {
    match item {
        LibraryItem::Folder { children, .. } => children
            .iter()
            .map(|child| match child {
                LibraryItem::Folder { name, .. } => format!("{name}/"),
                LibraryItem::Track { title, .. } => title.clone(),
            })
            .collect(),
        LibraryItem::Track { .. } => Vec::new(),
    }
}

#[test]
fn folder_tree_lists_folders_first_by_name_and_drops_folders_without_media() {
    let root = folder(
        "/m",
        "lib",
        vec![
            file("/m/lib", "b.MP3"),
            folder("/m/lib", "Zed", vec![file("/m/lib/Zed", "z.flac")]),
            folder("/m/lib", "empty", vec![file("/m/lib/empty", "note.txt")]),
            file("/m/lib", "a.mp4"),
            folder("/m/lib", "A", vec![file("/m/lib/A", "x.mkv")]),
            file("/m/lib", "cover.jpg"),
        ],
    );
    let tree = get_folder_tree(&root).unwrap();
    assert_eq!(names(&tree), vec!["A/", "Zed/", "a", "b"]);
    match &tree {
        LibraryItem::Folder { name, path, children } => {
            assert_eq!(name, "lib");
            assert_eq!(path, "/m/lib");
            match &children[2] {
                LibraryItem::Track { id, media_type, source, parent, .. } => {
                    assert_eq!(id, "/m/lib/a.mp4");
                    assert_eq!(*media_type, MediaType::Video);
                    assert!(matches!(source, LibrarySource::Local { path } if path == "/m/lib/a.mp4"));
                    assert_eq!(parent.as_deref(), Some("/m/lib"));
                }
                other => panic!("unexpected {other:?}"),
            }
            match &children[3] {
                LibraryItem::Track { media_type, .. } => assert_eq!(*media_type, MediaType::Audio),
                other => panic!("unexpected {other:?}"),
            }
            assert_eq!(names(&children[0]), vec!["x"]);
        }
        other => panic!("unexpected {other:?}"),
    }
}

#[test]
fn a_folder_without_media_or_without_a_name_has_no_tree() {
    let plain = folder("/m", "docs", vec![file("/m/docs", "a.txt")]);
    assert_eq!(get_folder_tree(&plain).unwrap_err(), "No media files found");
    let mut nameless = folder("", "", vec![file("/", "a.mp3")]);
    nameless.name = None;
    assert_eq!(get_folder_tree(&nameless).unwrap_err(), "No media files found");
}
