//! The bundled external tools (FFmpeg, FFprobe, the downloader, MPV): their
//! executable names and where in the bundled tool directory they are found.
use crate::directory::{join_path, joined};
use crate::sys::path_exists;
use crate::text::{ends_with, seq_ends_with, chars_of};
use vstd::prelude::*;

verus! {

/// The executable file name of a tool: Windows adds ".exe" unless present.
pub open spec fn executable_name_spec(name: Seq<char>, windows: bool) -> Seq<char> {
    if windows && !ends_with(name, ".exe"@) {
        name + ".exe"@
    } else {
        name
    }
}

pub fn executable_name(name: &str, windows: bool) -> (r: String)
    ensures
        r@ == executable_name_spec(name@, windows),
{
    proof {
        reveal_strlit(".exe");
    }
    let n = chars_of(name);
    let suffix = chars_of(".exe");
    let mut r = String::from_str(name);
    if windows && !seq_ends_with(&n, &suffix) {
        r.append(".exe");
    }
    r
}

/// A tool is named by a plain file name: no separator and no drive colon,
/// so that its path always lies in the bundled tool directory.
pub open spec fn plain_tool_name(name: Seq<char>) -> bool {
    forall|i: int| 0 <= i < name.len() ==> #[trigger] name[i] != '/' && name[i] != '\\' && name[i] != ':'
}

/// Where the bundled copy of a tool would be: its executable name in the
/// bundled tool directory.
pub open spec fn bundled_tool(name: Seq<char>, lib_dir: Seq<char>, windows: bool) -> Seq<char> {
    joined(lib_dir, executable_name_spec(name, windows), windows)
}

/// The path of the bundled copy of tool `name` in `lib_dir`.
pub fn bundled_tool_path(name: &str, lib_dir: &str, windows: bool) -> (r: String)
    requires
        plain_tool_name(name@),
    ensures
        r@ == bundled_tool(name@, lib_dir@, windows),
{
    let file = executable_name(name, windows);
    join_path(lib_dir, file.as_str(), windows)
}

/// The bundled copy of tool `name` in `lib_dir`, given whether something is
/// at that path: its path when present, nothing otherwise.
pub fn bundled_tool_if(name: &str, lib_dir: &str, windows: bool, present: bool) -> (r: Option<String>)
    requires
        plain_tool_name(name@),
    ensures
        present ==> (r matches Some(p) && p@ == bundled_tool(name@, lib_dir@, windows)),
        !present ==> r is None,
{
    if present {
        Some(bundled_tool_path(name, lib_dir, windows))
    } else {
        None
    }
}

/// The bundled copy of tool `name` when it is present in `lib_dir`; the tools
/// are read from the bundled directory only. Whether it is present is asked
/// of the disk; see [`bundled_tool_if`] for the answer's effect.
pub fn find_tool(name: &str, lib_dir: &str, windows: bool) -> (r: Option<String>)
    requires
        plain_tool_name(name@),
    ensures
        r matches Some(p) ==> p@ == bundled_tool(name@, lib_dir@, windows),
{
    let path = bundled_tool_path(name, lib_dir, windows);
    let present = path_exists(path.as_str());
    bundled_tool_if(name, lib_dir, windows, present)
}

/// The bundled tool directory when tool `name` is present in it.
pub fn tool_dir_for(name: &str, lib_dir: &str, windows: bool) -> (r: Option<String>)
    requires
        plain_tool_name(name@),
    ensures
        r matches Some(d) ==> d@ == lib_dir@,
{
    match find_tool(name, lib_dir, windows) {
        Some(_) => Some(String::from_str(lib_dir)),
        None => None,
    }
}

/// The command that starts tool `name`: always its copy in the bundled tool
/// directory, which is the only place tools are taken from.
pub fn tool_path(name: &str, lib_dir: &str, windows: bool) -> (r: String)
    requires
        plain_tool_name(name@),
    ensures
        r@ == bundled_tool(name@, lib_dir@, windows),
{
    bundled_tool_path(name, lib_dir, windows)
}

/// The command that starts FFprobe.
pub fn ffprobe_path(lib_dir: &str, windows: bool) -> (r: String)
    ensures
        r@ == bundled_tool("ffprobe"@, lib_dir@, windows),
{
    proof {
        reveal_strlit("ffprobe");
    }
    tool_path("ffprobe", lib_dir, windows)
}

} // verus!
