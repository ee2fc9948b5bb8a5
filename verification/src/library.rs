//! The library tree the sidebar shows: folders and tracks, local or remote.
use crate::capabilities::{
    is_audio_extension, is_browser_video_extension, is_external_video_extension, supported_ext,
    video_ext,
};
use crate::media::{clone_opt_string, MediaType};
use crate::text::{chars_of, lowercase, to_lowercase};
use vstd::prelude::*;

verus! {

/// The media type assumed for a remote item stored without one.
pub fn default_media_type() -> (r: MediaType)
    ensures
        r == MediaType::Audio,
{
    MediaType::Audio
}

/// How far a remote resource has been fetched.
#[derive(Clone, Copy, Debug, PartialEq, Eq, Structural)]
pub enum DownloadStatus {
    NotDownloaded,
    Downloading,
    Downloaded,
}

/// Where a library item comes from.
#[derive(Debug)]
pub enum LibrarySource {
    Local { path: String },
    Remote {
        url: String,
        id: String,
        cached_path: Option<String>,
        media_type: MediaType,
        download_status: DownloadStatus,
    },
}

/// A folder or a track of the library.
#[derive(Debug)]
pub enum LibraryItem {
    Track {
        id: String,
        title: String,
        media_type: MediaType,
        source: LibrarySource,
        parent: Option<String>,
    },
    Folder { name: String, path: String, children: Vec<LibraryItem> },
}

/// An entry of a directory listing shown by the file browser.
#[derive(Debug)]
pub struct FsEntry {
    pub name: String,
    pub path: String,
    pub is_dir: bool,
}

/// What a library source holds, as values.
pub ghost enum SourceView {
    Local { path: Seq<char> },
    Remote {
        url: Seq<char>,
        id: Seq<char>,
        cached_path: Option<Seq<char>>,
        media_type: MediaType,
        download_status: DownloadStatus,
    },
}

/// What a library item holds, as values.
pub ghost enum ItemView {
    Track {
        id: Seq<char>,
        title: Seq<char>,
        media_type: MediaType,
        source: SourceView,
        parent: Option<Seq<char>>,
    },
    Folder { name: Seq<char>, path: Seq<char>, children: Seq<ItemView> },
}

pub open spec fn text_opt(o: Option<String>) -> Option<Seq<char>> {
    match o {
        Some(s) => Some(s@),
        None => None,
    }
}

pub open spec fn source_view(s: LibrarySource) -> SourceView {
    match s {
        LibrarySource::Local { path } => SourceView::Local { path: path@ },
        LibrarySource::Remote { url, id, cached_path, media_type, download_status } =>
            SourceView::Remote {
            url: url@,
            id: id@,
            cached_path: text_opt(cached_path),
            media_type,
            download_status,
        },
    }
}

/// The value of an item, its folders' children included.
pub open spec fn item_view(i: LibraryItem) -> ItemView
    decreases i,
{
    match i {
        LibraryItem::Track { id, title, media_type, source, parent } => ItemView::Track {
            id: id@,
            title: title@,
            media_type,
            source: source_view(source),
            parent: text_opt(parent),
        },
        LibraryItem::Folder { name, path, children } => ItemView::Folder {
            name: name@,
            path: path@,
            children: Seq::new(
                children@.len(),
                |k: int|
                    if 0 <= k < children@.len() {
                        item_view(children[k])
                    } else {
                        ItemView::Folder { name: seq![], path: seq![], children: seq![] }
                    },
            ),
        },
    }
}

impl View for LibraryItem {
    type V = ItemView;

    open spec fn view(&self) -> ItemView {
        item_view(*self)
    }
}

/// A file-system entry and, for a directory, what it holds, as the file
/// system reports them. Names are converted lossily to text.
#[derive(Debug)]
pub struct FsNode {
    /// Its file name, when its path has one.
    pub name: Option<String>,
    pub path: String,
    pub is_dir: bool,
    pub is_file: bool,
    /// Its extension, when it has one.
    pub extension: Option<String>,
    /// Its file stem; empty when it has none.
    pub stem: String,
    /// Its parent directory, when its path has one.
    pub parent: Option<String>,
    /// For a directory that could be read, its entries in listing order.
    pub children: Vec<FsNode>,
}

/// `a` precedes or equals `b` character by character.
pub open spec fn lex_le(a: Seq<char>, b: Seq<char>) -> bool
    decreases a.len(),
{
    if a.len() == 0 {
        true
    } else if b.len() == 0 {
        false
    } else if a[0] != b[0] {
        a[0] < b[0]
    } else {
        lex_le(a.drop_first(), b.drop_first())
    }
}

/// The name an entry is sorted by: its lower-cased file name, or nothing.
pub open spec fn sort_name(n: FsNode) -> Seq<char> {
    lowercase(
        match n.name {
            Some(s) => s@,
            None => seq![],
        },
    )
}

/// Entries sort folders first, then by lower-cased name.
pub open spec fn entry_le(a: FsNode, b: FsNode) -> bool {
    (a.is_dir && !b.is_dir) || (a.is_dir == b.is_dir && lex_le(sort_name(a), sort_name(b)))
}

/// Index `i` placed into `order` after every entry that sorts no later.
pub open spec fn insert_entry(order: Seq<usize>, entries: Seq<FsNode>, i: usize) -> Seq<usize>
    decreases order.len(),
{
    if order.len() == 0 {
        seq![i]
    } else if entry_le(entries[order.last() as int], entries[i as int]) {
        order.push(i)
    } else {
        insert_entry(order.drop_last(), entries, i).push(order.last())
    }
}

/// The first `n` entries' indices in stable sorted order.
pub open spec fn entry_order(entries: Seq<FsNode>, n: nat) -> Seq<usize>
    decreases n,
{
    if n == 0 {
        seq![]
    } else {
        insert_entry(entry_order(entries, (n - 1) as nat), entries, (n - 1) as usize)
    }
}

/// The lower-cased extension of an entry.
pub open spec fn entry_extension(n: FsNode) -> Option<Seq<char>> {
    match n.extension {
        Some(e) => Some(lowercase(e@)),
        None => None,
    }
}

/// A file the player can open.
pub open spec fn media_file(n: FsNode) -> bool {
    n.is_file && supported_ext(entry_extension(n))
}

/// The track a media file becomes, identified by its path.
pub open spec fn track_view(n: FsNode) -> ItemView {
    ItemView::Track {
        id: n.path@,
        title: n.stem@,
        media_type: if video_ext(entry_extension(n)) {
            MediaType::Video
        } else {
            MediaType::Audio
        },
        source: SourceView::Local { path: n.path@ },
        parent: text_opt(n.parent),
    }
}

/// The folder a directory becomes: its sub-folders that hold media and its
/// media files, folders first and then by lower-cased name; nothing when it
/// holds no media or its path has no file name.
pub open spec fn folder_view(n: FsNode) -> Option<ItemView>
    decreases n, n.children@.len() + 1,
{
    match n.name {
        None => None,
        Some(name) => {
            let items = folder_items(
                n,
                entry_order(n.children@, n.children@.len()),
                n.children@.len() as int,
            );
            if items.len() == 0 {
                None
            } else {
                Some(ItemView::Folder { name: name@, path: n.path@, children: items })
            }
        },
    }
}

/// The items of the first `k` entries of `n` in `order`.
pub open spec fn folder_items(n: FsNode, order: Seq<usize>, k: int) -> Seq<ItemView>
    decreases n, if k > 0 { k } else { 0 },
{
    if k <= 0 {
        seq![]
    } else {
        let rest = folder_items(n, order, k - 1);
        let j = order[k - 1] as int;
        if 0 <= j < n.children@.len() {
            let c = n.children[j];
            if c.is_dir {
                match folder_view(c) {
                    Some(v) => rest.push(v),
                    None => rest,
                }
            } else if media_file(c) {
                rest.push(track_view(c))
            } else {
                rest
            }
        } else {
            rest
        }
    }
}

fn lex_le_of(a: &Vec<char>, b: &Vec<char>) -> (r: bool)
    ensures
        r == lex_le(a@, b@),
{
    let mut i: usize = 0;
    assert(a@.skip(0) =~= a@);
    assert(b@.skip(0) =~= b@);
    while i < a.len() && i < b.len()
        invariant
            i <= a.len(),
            i <= b.len(),
            lex_le(a@, b@) == lex_le(a@.skip(i as int), b@.skip(i as int)),
        decreases a.len() - i,
    {
        let ghost sa = a@.skip(i as int);
        let ghost sb = b@.skip(i as int);
        assert(sa[0] == a@[i as int]);
        assert(sb[0] == b@[i as int]);
        if a[i] != b[i] {
            return a[i] < b[i];
        }
        assert(sa.drop_first() =~= a@.skip(i + 1));
        assert(sb.drop_first() =~= b@.skip(i + 1));
        i += 1;
    }
    if i == a.len() {
        assert(a@.skip(i as int).len() == 0);
        true
    } else {
        assert(b@.skip(i as int).len() == 0);
        false
    }
}

fn sort_name_of(n: &FsNode) -> (r: Vec<char>)
    ensures
        r@ == sort_name(*n),
{
    match &n.name {
        Some(s) => chars_of(to_lowercase(s.as_str()).as_str()),
        None => {
            proof {
                reveal_strlit("");
            }
            assert(""@ =~= Seq::<char>::empty());
            chars_of(to_lowercase("").as_str())
        },
    }
}

proof fn lemma_insert_entry_at(order: Seq<usize>, entries: Seq<FsNode>, i: usize, j: int)
    requires
        0 <= j <= order.len(),
        j == 0 || entry_le(entries[order[j - 1] as int], entries[i as int]),
        forall|k: int| j <= k < order.len() ==> !entry_le(entries[#[trigger] order[k] as int], entries[i as int]),
    ensures
        insert_entry(order, entries, i) == order.insert(j, i),
    decreases order.len(),
{
    if order.len() == 0 {
        assert(order.insert(j, i) =~= seq![i]);
    } else if entry_le(entries[order.last() as int], entries[i as int]) {
        assert(j == order.len());
        assert(order.insert(j, i) =~= order.push(i));
    } else {
        let t = order.drop_last();
        assert(j < order.len());
        lemma_insert_entry_at(t, entries, i, j);
        assert(order.insert(j, i) =~= t.insert(j, i).push(order.last()));
    }
}

/// The sorted order of `n` entries holds `n` indices, each below `n`.
pub proof fn lemma_order_in_range(entries: Seq<FsNode>, n: nat)
    ensures
        entry_order(entries, n).len() == n,
        forall|k: int| 0 <= k < n ==> (#[trigger] entry_order(entries, n)[k]) < n,
    decreases n,
{
    if n > 0 {
        let m = (n - 1) as nat;
        lemma_order_in_range(entries, m);
        lemma_insert_in_range(entry_order(entries, m), entries, (n - 1) as usize, n);
    }
}

proof fn lemma_insert_in_range(order: Seq<usize>, entries: Seq<FsNode>, i: usize, n: nat)
    requires
        i < n,
        forall|k: int| 0 <= k < order.len() ==> (#[trigger] order[k]) < n,
    ensures
        insert_entry(order, entries, i).len() == order.len() + 1,
        forall|k: int|
            0 <= k < insert_entry(order, entries, i).len() ==> (#[trigger] insert_entry(order, entries, i)[k]) < n,
    decreases order.len(),
{
    if order.len() > 0 && !entry_le(entries[order.last() as int], entries[i as int]) {
        let t = order.drop_last();
        lemma_insert_in_range(t, entries, i, n);
        let r = insert_entry(t, entries, i);
        assert forall|k: int| 0 <= k < r.push(order.last()).len() implies (#[trigger] r.push(order.last())[k]) < n by {
            if k < r.len() {
                assert(r.push(order.last())[k] == r[k]);
            }
        }
    } else if order.len() > 0 {
        assert forall|k: int| 0 <= k < order.push(i).len() implies (#[trigger] order.push(i)[k]) < n by {
            if k < order.len() {
                assert(order.push(i)[k] == order[k]);
            }
        }
    }
}

/// The entries' indices in stable sorted order: folders first, then by
/// lower-cased name.
fn sorted_entries(children: &Vec<FsNode>) -> (r: Vec<usize>)
    ensures
        r@ == entry_order(children@, children@.len()),
        forall|k: int| 0 <= k < r@.len() ==> (#[trigger] r@[k]) < children@.len(),
{
    let mut names: Vec<Vec<char>> = Vec::new();
    let mut i: usize = 0;
    while i < children.len()
        invariant
            i <= children.len(),
            names@.len() == i,
            forall|k: int| 0 <= k < i ==> (#[trigger] names@[k])@ == sort_name(children@[k]),
        decreases children.len() - i,
    {
        names.push(sort_name_of(&children[i]));
        i += 1;
    }
    let mut order: Vec<usize> = Vec::new();
    let mut i: usize = 0;
    while i < children.len()
        invariant
            i <= children.len(),
            names@.len() == children@.len(),
            forall|k: int| 0 <= k < children@.len() ==> (#[trigger] names@[k])@ == sort_name(children@[k]),
            order@ == entry_order(children@, i as nat),
            forall|k: int| 0 <= k < order@.len() ==> (#[trigger] order@[k]) < i,
            order@.len() == i,
        decreases children.len() - i,
    {
        let ghost before = order@;
        let mut j = order.len();
        while j > 0 && !(
            (children[order[j - 1]].is_dir && !children[i].is_dir)
            || (children[order[j - 1]].is_dir == children[i].is_dir
                && lex_le_of(&names[order[j - 1]], &names[i]))
        )
            invariant
                j <= order.len(),
                order@ == before,
                i < children.len(),
                names@.len() == children@.len(),
                forall|k: int| 0 <= k < children@.len() ==> (#[trigger] names@[k])@ == sort_name(children@[k]),
                forall|k: int| 0 <= k < order@.len() ==> (#[trigger] order@[k]) < i,
                forall|k: int| j <= k < order@.len() ==> !entry_le(children@[#[trigger] order@[k] as int], children@[i as int]),
            decreases j,
        {
            j -= 1;
        }
        proof {
            if j > 0 {
                assert(entry_le(children@[order@[j - 1] as int], children@[i as int]));
            }
            lemma_insert_entry_at(before, children@, i, j as int);
            lemma_insert_in_range(before, children@, i, (i + 1) as nat);
        }
        order.insert(j, i);
        i += 1;
    }
    order
}

fn lower_extension_of(n: &FsNode) -> (r: Option<String>)
    ensures
        text_opt(r) == entry_extension(*n),
{
    match &n.extension {
        Some(e) => Some(to_lowercase(e.as_str())),
        None => None,
    }
}

fn as_str_opt(o: &Option<String>) -> (r: Option<&str>)
    ensures
        match r {
            Some(s) => *o matches Some(x) && s@ == x@,
            None => o is None,
        },
{
    match o {
        Some(s) => Some(s.as_str()),
        None => None,
    }
}

fn is_media_entry(n: &FsNode) -> (r: bool)
    ensures
        r == media_file(*n),
{
    let e = lower_extension_of(n);
    let ext = as_str_opt(&e);
    n.is_file && (is_audio_extension(ext) || is_browser_video_extension(ext)
        || is_external_video_extension(ext))
}

fn track_of(n: &FsNode) -> (r: LibraryItem)
    ensures
        item_view(r) == track_view(*n),
{
    let e = lower_extension_of(n);
    let ext = as_str_opt(&e);
    let media_type = if is_browser_video_extension(ext) || is_external_video_extension(ext) {
        MediaType::Video
    } else {
        MediaType::Audio
    };
    LibraryItem::Track {
        id: n.path.clone(),
        title: n.stem.clone(),
        media_type,
        source: LibrarySource::Local { path: n.path.clone() },
        parent: clone_opt_string(&n.parent),
    }
}

/// The library folder of a directory tree; see [`folder_view`].
pub fn scan_directory_tree(n: &FsNode) -> (r: Option<LibraryItem>)
    ensures
        match r {
            Some(item) => folder_view(*n) == Some(item_view(item)),
            None => folder_view(*n) is None,
        },
    decreases n,
{
    let name = match &n.name {
        None => return None,
        Some(s) => s,
    };
    let order = sorted_entries(&n.children);
    let ghost ord = order@;
    proof {
        lemma_order_in_range(n.children@, n.children@.len());
    }
    let mut items: Vec<LibraryItem> = Vec::new();
    let mut k: usize = 0;
    while k < order.len()
        invariant
            k <= order.len(),
            order@ == ord,
            ord == entry_order(n.children@, n.children@.len()),
            ord.len() == n.children@.len(),
            forall|m: int| 0 <= m < ord.len() ==> (#[trigger] ord[m]) < n.children@.len(),
            items@.len() == folder_items(*n, ord, k as int).len(),
            forall|m: int|
                0 <= m < items@.len() ==> item_view(#[trigger] items@[m]) == folder_items(
                    *n,
                    ord,
                    k as int,
                )[m],
        decreases order.len() - k,
    {
        let j = order[k];
        assert(ord[k as int] == j);
        let c = &n.children[j];
        let ghost before = items@;
        let ghost rest = folder_items(*n, ord, k as int);
        if c.is_dir {
            match scan_directory_tree(c) {
                Some(item) => {
                    items.push(item);
                },
                None => {},
            }
        } else if is_media_entry(c) {
            items.push(track_of(c));
        }
        proof {
            let next = folder_items(*n, ord, k + 1);
            assert forall|m: int| 0 <= m < items@.len() implies item_view(#[trigger] items@[m])
                == next[m] by {
                if m < before.len() {
                    assert(items@[m] == before[m]);
                }
            }
        }
        k += 1;
    }
    if items.len() == 0 {
        None
    } else {
        let ghost fi = folder_items(*n, ord, ord.len() as int);
        let item = LibraryItem::Folder { name: name.clone(), path: n.path.clone(), children: items };
        proof {
            if let ItemView::Folder { children, .. } = item_view(item) {
                assert(children =~= fi);
            }
        }
        Some(item)
    }
}

/// The library tree under a folder: its sub-folders that hold media and its
/// media files, folders first and then by lower-cased name, or an error when
/// it holds no media.
pub fn get_folder_tree(root: &FsNode) -> (r: Result<LibraryItem, String>)
    ensures
        match (r, folder_view(*root)) {
            (Ok(item), Some(v)) => item_view(item) == v,
            (Err(e), None) => e@ == "No media files found"@,
            _ => false,
        },
{
    match scan_directory_tree(root) {
        Some(item) => Ok(item),
        None => Err(String::from_str("No media files found")),
    }
}

} // verus!
