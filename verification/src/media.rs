//! Media identity: a media item, where it comes from and the files attached
//! to it. Paths are held as text.
use crate::text::{chars_of, ends_with, lowercase, seq_ends_with, to_lowercase, string_of};
use crate::web::{parse_url, parsed_url, UrlParts};
use vstd::prelude::*;

verus! {

#[derive(Clone, Copy, Debug, PartialEq, Eq, Structural)]
pub enum MediaType {
    Audio,
    Video,
}

#[derive(Debug)]
pub enum MediaOrigin {
    Local { path: String },
    Remote { url: String, provider: String, external_id: String },
}

#[derive(Clone, Copy, Debug, PartialEq, Eq, Structural)]
pub enum AssetKind {
    Playback,
    Subtitle,
}

#[derive(Clone, Copy, Debug, PartialEq, Eq, Structural)]
pub enum AssetSource {
    Local,
    Download,
}

/// A file that belongs to a media item: its playback file or a subtitle.
#[derive(Debug)]
pub struct MediaAsset {
    pub id: String,
    pub media_id: String,
    pub kind: AssetKind,
    pub path: String,
    pub language: Option<String>,
    pub source: AssetSource,
}

/// A media item with a stable identity and its attached files.
#[derive(Debug)]
pub struct Media {
    pub id: String,
    pub canonical_key: String,
    pub title: String,
    pub media_type: MediaType,
    pub origin: MediaOrigin,
    pub assets: Vec<MediaAsset>,
}

pub fn clone_string(s: &String) -> (r: String)
    ensures
        r == *s,
{
    s.clone()
}

pub fn clone_opt_string(s: &Option<String>) -> (r: Option<String>)
    ensures
        r == *s,
{
    match s {
        Some(v) => Some(v.clone()),
        None => None,
    }
}

impl Clone for MediaOrigin {
    fn clone(&self) -> (r: Self)
        ensures
            r == *self,
    {
        match self {
            MediaOrigin::Local { path } => MediaOrigin::Local { path: path.clone() },
            MediaOrigin::Remote { url, provider, external_id } => MediaOrigin::Remote {
                url: url.clone(),
                provider: provider.clone(),
                external_id: external_id.clone(),
            },
        }
    }
}

impl Clone for MediaAsset {
    fn clone(&self) -> (r: Self)
        ensures
            r == *self,
    {
        MediaAsset {
            id: self.id.clone(),
            media_id: self.media_id.clone(),
            kind: self.kind,
            path: self.path.clone(),
            language: clone_opt_string(&self.language),
            source: self.source,
        }
    }
}

pub fn clone_assets(v: &Vec<MediaAsset>) -> (r: Vec<MediaAsset>)
    ensures
        r@ == v@,
{
    let mut r: Vec<MediaAsset> = Vec::new();
    let mut i: usize = 0;
    while i < v.len()
        invariant
            i <= v.len(),
            r@ == v@.take(i as int),
        decreases v.len() - i,
    {
        r.push(v[i].clone());
        i += 1;
        assert(r@ =~= v@.take(i as int));
    }
    assert(v@.take(v.len() as int) =~= v@);
    r
}

/// Two media values hold the same data (their asset lists compared by view).
pub open spec fn same_media(a: Media, b: Media) -> bool {
    &&& a.id == b.id
    &&& a.canonical_key == b.canonical_key
    &&& a.title == b.title
    &&& a.media_type == b.media_type
    &&& a.origin == b.origin
    &&& a.assets@ == b.assets@
}

impl Clone for Media {
    fn clone(&self) -> (r: Self)
        ensures
            same_media(r, *self),
    {
        let r = Media {
            id: self.id.clone(),
            canonical_key: self.canonical_key.clone(),
            title: self.title.clone(),
            media_type: self.media_type,
            origin: self.origin.clone(),
            assets: clone_assets(&self.assets),
        };
        assert(r.assets@ == self.assets@);
        r
    }
}

/// Index of the first playback asset, if any.
pub open spec fn first_playback(assets: Seq<MediaAsset>) -> Option<int>
    decreases assets.len(),
{
    if assets.len() == 0 {
        None
    } else if assets[0].kind == AssetKind::Playback {
        Some(0)
    } else {
        match first_playback(assets.drop_first()) {
            Some(i) => Some(i + 1),
            None => None,
        }
    }
}

/// `first_playback` finds the first playback asset, if there is one.
pub proof fn lemma_first_playback(assets: Seq<MediaAsset>)
    ensures
        match first_playback(assets) {
            Some(i) => 0 <= i < assets.len() && assets[i].kind == AssetKind::Playback && forall|
                j: int,
            |
                0 <= j < i ==> assets[j].kind != AssetKind::Playback,
            None => forall|j: int| 0 <= j < assets.len() ==> assets[j].kind != AssetKind::Playback,
        },
    decreases assets.len(),
{
    if assets.len() > 0 && assets[0].kind != AssetKind::Playback {
        let t = assets.drop_first();
        lemma_first_playback(t);
        assert(forall|j: int| 0 <= j < t.len() ==> t[j] == assets[j + 1]);
        match first_playback(t) {
            Some(k) => {
                assert(first_playback(assets) == Some(k + 1));
                assert forall|j: int| 0 <= j < k + 1 implies assets[j].kind != AssetKind::Playback by {
                    if j > 0 {
                        assert(assets[j] == t[j - 1]);
                    }
                }
            },
            None => {
                assert(first_playback(assets) is None);
                assert forall|j: int| 0 <= j < assets.len() implies assets[j].kind != AssetKind::Playback by {
                    if j > 0 {
                        assert(assets[j] == t[j - 1]);
                    }
                }
            },
        }
    }
}

impl Media {
    /// The path of the first playback asset, if there is one.
    pub open spec fn cached_path_spec(self) -> Option<String> {
        match first_playback(self.assets@) {
            Some(i) => Some(self.assets@[i].path),
            None => None,
        }
    }

    /// A local origin's own path; otherwise the downloaded playback file.
    pub open spec fn local_path_spec(self) -> Option<String> {
        match self.origin {
            MediaOrigin::Local { path } => Some(path),
            MediaOrigin::Remote { .. } => self.cached_path_spec(),
        }
    }

    pub fn cached_path(&self) -> (r: Option<&String>)
        ensures
            match r {
                Some(p) => self.cached_path_spec() == Some(*p),
                None => self.cached_path_spec() is None,
            },
    {
        proof {
            lemma_first_playback(self.assets@);
        }
        let mut i: usize = 0;
        while i < self.assets.len()
            invariant
                i <= self.assets.len(),
                forall|j: int| 0 <= j < i ==> self.assets@[j].kind != AssetKind::Playback,
            decreases self.assets.len() - i,
        {
            if self.assets[i].kind == AssetKind::Playback {
                proof {
                    lemma_first_playback(self.assets@);
                    match first_playback(self.assets@) {
                        Some(k) => {
                            if k < i {
                                assert(self.assets@[k].kind != AssetKind::Playback);
                            }
                            if k > i {
                                assert(self.assets@[i as int].kind != AssetKind::Playback);
                            }
                        },
                        None => {
                            assert(self.assets@[i as int].kind != AssetKind::Playback);
                        },
                    }
                }
                return Some(&self.assets[i].path);
            }
            i += 1;
        }
        proof {
            lemma_first_playback(self.assets@);
        }
        None
    }

    pub fn local_path(&self) -> (r: Option<&String>)
        ensures
            match r {
                Some(p) => self.local_path_spec() == Some(*p),
                None => self.local_path_spec() is None,
            },
    {
        match &self.origin {
            MediaOrigin::Local { path } => Some(path),
            MediaOrigin::Remote { .. } => self.cached_path(),
        }
    }
}

/// The identity key of a local media file from its canonical path: forward
/// slashes, and on Windows lower case, so that one file has one key.
pub open spec fn local_key(path: Seq<char>, windows: bool) -> Seq<char> {
    "local:"@ + crate::directory::key_of(path, windows)
}

pub fn canonical_local_key(path: &str, windows: bool) -> (r: String)
    ensures
        r@ == local_key(path@, windows),
{
    let k = crate::directory::path_key_of(path, windows);
    let mut key = String::from_str("local:");
    key.append(k.as_str());
    proof {
        reveal_strlit("local:");
    }
    key
}

/// The identity key of a remote media item: provider (lower-cased) and the
/// provider's own id.
pub open spec fn remote_key(provider: Seq<char>, external_id: Seq<char>) -> Seq<char> {
    "remote:"@ + lowercase(provider) + ":"@ + external_id
}

pub fn canonical_remote_key(provider: &str, external_id: &str) -> (r: String)
    ensures
        r@ == remote_key(provider@, external_id@),
{
    let lower = to_lowercase(provider);
    let mut key = String::from_str("remote:");
    key.append(lower.as_str());
    key.append(":");
    key.append(external_id);
    proof {
        reveal_strlit("remote:");
        reveal_strlit(":");
    }
    key
}

/// `host` is the domain `d` or one of its subdomains.
pub open spec fn on_domain(host: Seq<char>, d: Seq<char>) -> bool {
    host == d || ends_with(host, "."@ + d)
}

/// The provider a lower-case host belongs to, or the host itself.
pub open spec fn provider_of(host: Seq<char>) -> Seq<char> {
    if on_domain(host, "bilibili.com"@) || on_domain(host, "b23.tv"@) {
        "bilibili"@
    } else if on_domain(host, "youtube.com"@) || on_domain(host, "youtu.be"@) {
        "youtube"@
    } else if on_domain(host, "douyin.com"@) || on_domain(host, "iesdouyin.com"@) {
        "douyin"@
    } else if on_domain(host, "channels.weixin.qq.com"@) || on_domain(host, "finder.video.qq.com"@) {
        "weixin"@
    } else if on_domain(host, "v.qq.com"@) {
        "tencent"@
    } else {
        host
    }
}

/// The provider key of a media address: the provider its HTTP(S) host
/// belongs to, so that long and short links of one site agree.
pub open spec fn provider_key(value: Seq<char>) -> Result<Seq<char>, Seq<char>> {
    match parsed_url(value) {
        Err(m) => Err(m),
        Ok(p) => provider_key_of_parts(p),
    }
}

/// The provider key of a parsed address: only HTTP(S) addresses with a host
/// have one.
pub open spec fn provider_key_of_parts(p: (Seq<char>, Seq<char>, Option<Seq<char>>, Seq<char>, Option<Seq<char>>)) -> Result<Seq<char>, Seq<char>> {
    if !(p.1 == "https"@ || p.1 == "http"@) {
        Err("Expected an HTTP(S) media URL"@)
    } else {
        match p.2 {
            None => Err("Media URL has no host"@),
            Some(h) => Ok(provider_of(lowercase(h))),
        }
    }
}

fn on_domain_exec(host: &Vec<char>, d: &str) -> (r: bool)
    ensures
        r == on_domain(host@, d@),
{
    let whole = chars_of(d);
    if crate::text::seq_eq(host, &whole) {
        return true;
    }
    let mut dotted = String::from_str(".");
    dotted.append(d);
    proof {
        reveal_strlit(".");
    }
    let suffix = chars_of(dotted.as_str());
    seq_ends_with(host, &suffix)
}

pub fn provider_key_for_url(value: &str) -> (r: Result<String, String>)
    ensures
        match (r, provider_key(value@)) {
            (Ok(k), Ok(v)) => k@ == v,
            (Err(e), Err(m)) => e@ == m,
            _ => false,
        },
{
    match parse_url(value) {
        Ok(u) => provider_key_from(&u),
        Err(e) => Err(e),
    }
}

/// The provider key of a parsed address; see [`provider_key_of_parts`].
pub fn provider_key_from(url: &UrlParts) -> (r: Result<String, String>)
    ensures
        match (r, provider_key_of_parts(url.parts())) {
            (Ok(k), Ok(v)) => k@ == v,
            (Err(e), Err(m)) => e@ == m,
            _ => false,
        },
{
    proof {
        reveal_strlit("https");
        reveal_strlit("http");
    }
    if !(crate::text::str_eq(url.scheme.as_str(), "https") || crate::text::str_eq(
        url.scheme.as_str(),
        "http",
    )) {
        return Err(String::from_str("Expected an HTTP(S) media URL"));
    }
    let host = match &url.host {
        Some(h) => to_lowercase(h.as_str()),
        None => return Err(String::from_str("Media URL has no host")),
    };
    let h = chars_of(host.as_str());
    if on_domain_exec(&h, "bilibili.com") || on_domain_exec(&h, "b23.tv") {
        return Ok(String::from_str("bilibili"));
    }
    if on_domain_exec(&h, "youtube.com") || on_domain_exec(&h, "youtu.be") {
        return Ok(String::from_str("youtube"));
    }
    if on_domain_exec(&h, "douyin.com") || on_domain_exec(&h, "iesdouyin.com") {
        return Ok(String::from_str("douyin"));
    }
    if on_domain_exec(&h, "channels.weixin.qq.com") || on_domain_exec(&h, "finder.video.qq.com") {
        return Ok(String::from_str("weixin"));
    }
    if on_domain_exec(&h, "v.qq.com") {
        return Ok(String::from_str("tencent"));
    }
    Ok(host)
}

/// A new remote media item for `url`: its identity is the provider of the
/// address and the site's own identifier, so that different links to one
/// video give one item. It gets a fresh identifier and no files yet.
pub fn remote_media(url: String, title: String, external_id: String, media_type: MediaType) -> (r: Result<Media, String>)
    ensures
        match (r, provider_key(url@)) {
            (Ok(m), Ok(provider)) => {
                &&& m.canonical_key@ == remote_key(provider, external_id@)
                &&& m.title == title
                &&& m.media_type == media_type
                &&& m.origin matches MediaOrigin::Remote { url: u, provider: p, external_id: e }
                &&& u == url
                &&& p@ == provider
                &&& e == external_id
                &&& m.assets@.len() == 0
            },
            (Err(e), Err(m)) => e@ == m,
            _ => false,
        },
{
    let provider = match provider_key_for_url(url.as_str()) {
        Ok(p) => p,
        Err(e) => return Err(e),
    };
    let key = canonical_remote_key(provider.as_str(), external_id.as_str());
    Ok(Media {
        id: crate::sys::new_uuid(),
        canonical_key: key,
        title,
        media_type,
        origin: MediaOrigin::Remote { url, provider, external_id },
        assets: Vec::new(),
    })
}

} // verus!
