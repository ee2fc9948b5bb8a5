//! The local stream proxy: which headers go to a site's media server and
//! which of its answer come back to the player.
use crate::online::VideoPlatform;
use crate::text::str_eq;
use vstd::prelude::*;

verus! {

/// The browser identity the proxy presents to media servers.
pub open spec fn user_agent() -> Seq<char> {
    "Mozilla/5.0 (Windows NT 10.0; Win64; x64) AppleWebKit/537.36 (KHTML, like Gecko) Chrome/120.0.0.0 Safari/537.36"@
}

/// The headers of the request to `target`: the browser identity, the
/// referer the stream's site expects, and the player's byte range.
pub open spec fn upstream_headers_spec(target: Seq<char>, range: Option<Seq<char>>) -> Seq<(Seq<char>, Seq<char>)> {
    let referer = match VideoPlatform::stream_spec(target) {
        Some(p) => match p.referer_spec() {
            Some(r) => seq![("Referer"@, r)],
            None => seq![],
        },
        None => seq![],
    };
    let ranged = match range {
        Some(r) => seq![("Range"@, r)],
        None => seq![],
    };
    seq![("User-Agent"@, user_agent())] + referer + ranged
}

pub open spec fn header_views(h: Seq<(String, String)>) -> Seq<(Seq<char>, Seq<char>)> {
    h.map_values(|p: (String, String)| (p.0@, p.1@))
}

fn push_header(h: &mut Vec<(String, String)>, name: &str, value: &str)
    ensures
        header_views(final(h)@) == header_views(old(h)@).push((name@, value@)),
{
    h.push((String::from_str(name), String::from_str(value)));
    assert(header_views(h@) =~= header_views(old(h)@).push((name@, value@)));
}

/// The headers of the proxied request to `target`; `range` is the player's
/// `Range` header when it is readable text.
pub fn upstream_headers(target: &str, range: Option<&str>) -> (r: Vec<(String, String)>)
    ensures
        header_views(r@) == upstream_headers_spec(
            target@,
            match range {
                Some(x) => Some(x@),
                None => None,
            },
        ),
{
    let mut h: Vec<(String, String)> = Vec::new();
    push_header(
        &mut h,
        "User-Agent",
        "Mozilla/5.0 (Windows NT 10.0; Win64; x64) AppleWebKit/537.36 (KHTML, like Gecko) Chrome/120.0.0.0 Safari/537.36",
    );
    match VideoPlatform::matches_stream_url(target) {
        Some(p) => match p.get_referer() {
            Some(r) => push_header(&mut h, "Referer", r),
            None => {},
        },
        None => {},
    }
    match range {
        Some(r) => push_header(&mut h, "Range", r),
        None => {},
    }
    proof {
        let v = header_views(h@);
        assert(v =~= upstream_headers_spec(
            target@,
            match range {
                Some(x) => Some(x@),
                None => None,
            },
        ));
    }
    h
}

/// The answer headers the player receives: length, type, range and
/// range support.
pub open spec fn forwarded_spec(name: Seq<char>) -> bool {
    name == "content-length"@ || name == "content-type"@ || name == "content-range"@ || name
        == "accept-ranges"@
}

/// Whether an answer header (by its lower-case name) is passed on.
pub fn forwarded_header(name: &str) -> (r: bool)
    ensures
        r == forwarded_spec(name@),
{
    str_eq(name, "content-length") || str_eq(name, "content-type") || str_eq(name, "content-range")
        || str_eq(name, "accept-ranges")
}

} // verus!
