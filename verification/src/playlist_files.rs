//! Renaming and deleting the files behind playlist entries: the identity a
//! confirmation is bound to, and which new names are allowed.
use crate::directory::{join_path, joined};
use crate::sys::{new_uuid, path_exists, windows_host};
use crate::text::{
    ascii_upper, chars_of, ends_with, is_control, is_control_char, is_space, is_whitespace,
    lowercase, slice, starts_with, str_eq, to_lowercase, trim,
};
use vstd::prelude::*;

verus! {

/// The file a confirmation dialog was opened for: this entry, in this
/// directory revision, at this file version.
#[derive(Debug)]
pub struct PlaylistFile {
    pub item_id: String,
    pub media_id: String,
    pub path: String,
    pub stamp: String,
    pub directory_revision: u64,
    pub stem: String,
    pub extension: String,
}

impl PlaylistFile {
    pub open spec fn same(self, other: Self) -> bool {
        &&& self.item_id@ == other.item_id@
        &&& self.media_id@ == other.media_id@
        &&& self.path@ == other.path@
        &&& self.stamp@ == other.stamp@
        &&& self.directory_revision == other.directory_revision
        &&& self.stem@ == other.stem@
        &&& self.extension@ == other.extension@
    }

    /// The file is still the one the confirmation was made for.
    pub fn same_as(&self, other: &PlaylistFile) -> (r: bool)
        ensures
            r == self.same(*other),
    {
        str_eq(self.item_id.as_str(), other.item_id.as_str()) && str_eq(
            self.media_id.as_str(),
            other.media_id.as_str(),
        ) && str_eq(self.path.as_str(), other.path.as_str()) && str_eq(
            self.stamp.as_str(),
            other.stamp.as_str(),
        ) && self.directory_revision == other.directory_revision && str_eq(
            self.stem.as_str(),
            other.stem.as_str(),
        ) && str_eq(self.extension.as_str(), other.extension.as_str())
    }
}

/// Characters that no file name may hold.
pub open spec fn name_forbidden(c: char) -> bool {
    is_control_char(c) || c == '<' || c == '>' || c == ':' || c == '"' || c == '/' || c == '\\'
        || c == '|' || c == '?' || c == '*'
}

/// The part of a name before its first dot.
pub open spec fn before_dot(s: Seq<char>) -> Seq<char>
    decreases s.len(),
{
    if s.len() == 0 {
        seq![]
    } else if s[0] == '.' {
        seq![]
    } else {
        seq![s[0]] + before_dot(s.drop_first())
    }
}

pub open spec fn reserved_base(b: Seq<char>) -> bool {
    ||| b == "CON"@ || b == "PRN"@ || b == "AUX"@ || b == "NUL"@
    ||| b == "COM¹"@ || b == "COM²"@ || b == "COM³"@
    ||| b == "LPT¹"@ || b == "LPT²"@ || b == "LPT³"@
    ||| (b.len() == 4 && (starts_with(b, "COM"@) || starts_with(b, "LPT"@)) && '1' <= b[3] <= '9')
}

/// The device-name base of a file name: before its first dot, without
/// trailing white space, in ASCII upper case.
pub open spec fn device_base(name: Seq<char>) -> Seq<char> {
    crate::text::trim_end(before_dot(name)).map_values(|c: char| ascii_upper(c))
}

/// Length units of a file name: UTF-16 code units on Windows, UTF-8 bytes
/// elsewhere.
pub open spec fn utf16_len(s: Seq<char>) -> nat
    decreases s.len(),
{
    if s.len() == 0 {
        0
    } else {
        utf16_len(s.drop_last()) + if (s.last() as u32) >= 0x10000 { 2nat } else { 1nat }
    }
}

pub open spec fn name_length(s: Seq<char>, windows: bool) -> nat {
    if windows {
        utf16_len(s)
    } else {
        vstd::utf8::encode_utf8(s).len()
    }
}

/// What is wrong with `name` as the new name of a file with `extension`.
pub open spec fn name_problem(name: Seq<char>, extension: Seq<char>, windows: bool) -> Option<
    Seq<char>,
> {
    if name.len() == 0 || name != trim(name) || ends_with(name, "."@) || exists|i: int|
        0 <= i < name.len() && name_forbidden(#[trigger] name[i]) {
        Some("名称不能为空，不能包含路径、特殊字符或首尾空格"@)
    } else if reserved_base(device_base(name)) {
        Some("不能使用系统保留的文件名"@)
    } else if name_length(name + "."@ + extension, windows) > 255 {
        Some("文件名过长"@)
    } else {
        None
    }
}

fn trim_end_chars(s: &Vec<char>) -> (r: Vec<char>)
    ensures
        r@ == crate::text::trim_end(s@),
{
    let mut end: usize = s.len();
    while end > 0 && is_whitespace(s[end - 1])
        invariant
            end <= s.len(),
            forall|i: int| end <= i < s.len() ==> is_space(#[trigger] s@[i]),
        decreases end,
    {
        end -= 1;
    }
    proof {
        crate::text::lemma_trailing_space_exact(s@, (s.len() - end) as int);
    }
    slice(s, 0, end)
}

fn device_base_of(name: &Vec<char>) -> (r: Vec<char>)
    ensures
        r@ == device_base(name@),
{
    let mut i: usize = 0;
    assert(name@.skip(0) =~= name@);
    assert(name@.take(0) =~= seq![]);
    while i < name.len() && name[i] != '.'
        invariant
            i <= name.len(),
            forall|j: int| 0 <= j < i ==> name@[j] != '.',
            before_dot(name@) == name@.take(i as int) + before_dot(name@.skip(i as int)),
        decreases name.len() - i,
    {
        assert(name@.skip(i as int).drop_first() =~= name@.skip(i + 1));
        assert(name@.take(i + 1) =~= name@.take(i as int) + seq![name@[i as int]]);
        i += 1;
    }
    proof {
        if i < name.len() {
            assert(before_dot(name@.skip(i as int)) =~= seq![]);
        } else {
            assert(name@.skip(i as int) =~= seq![]);
        }
        assert(before_dot(name@) =~= name@.take(i as int));
    }
    let b = slice(name, 0, i);
    let t = trim_end_chars(&b);
    let mut out: Vec<char> = Vec::new();
    let mut k: usize = 0;
    while k < t.len()
        invariant
            k <= t.len(),
            out@ == t@.take(k as int).map_values(|c: char| ascii_upper(c)),
        decreases t.len() - k,
    {
        let c = t[k];
        let u = if 'a' <= c && c <= 'z' {
            let v: u8 = ((c as u32) - 32) as u8;
            v as char
        } else {
            c
        };
        out.push(u);
        k += 1;
        assert(out@ =~= t@.take(k as int).map_values(|c: char| ascii_upper(c)));
    }
    assert(t@.take(t.len() as int) =~= t@);
    out
}

fn utf16_length(s: &Vec<char>) -> (r: u64)
    requires
        s.len() < 0x1000_0000,
    ensures
        r as nat == utf16_len(s@),
{
    let mut n: u64 = 0;
    let mut i: usize = 0;
    while i < s.len()
        invariant
            i <= s.len() < 0x1000_0000,
            n as nat == utf16_len(s@.take(i as int)),
            n <= 2 * i,
        decreases s.len() - i,
    {
        assert(s@.take(i + 1).drop_last() =~= s@.take(i as int));
        n = n + if (s[i] as u32) >= 0x10000 {
            2
        } else {
            1
        };
        i += 1;
    }
    assert(s@.take(s.len() as int) =~= s@);
    n
}

fn lits_eq(b: &Vec<char>, lit: &str) -> (r: bool)
    ensures
        r == (b@ == lit@),
{
    let l = chars_of(lit);
    crate::text::seq_eq(b, &l)
}

/// Checks a new file name on the given platform rules.
pub fn validate_name_on(name: &str, extension: &str, windows: bool) -> (r: Result<(), String>)
    ensures
        match (r, name_problem(name@, extension@, windows)) {
            (Ok(()), None) => true,
            (Err(e), Some(m)) => e@ == m,
            _ => false,
        },
{
    proof {
        reveal_strlit("名称不能为空，不能包含路径、特殊字符或首尾空格");
        reveal_strlit("不能使用系统保留的文件名");
        reveal_strlit("文件名过长");
        reveal_strlit(".");
        reveal_strlit("CON");
        reveal_strlit("PRN");
        reveal_strlit("AUX");
        reveal_strlit("NUL");
        reveal_strlit("COM¹");
        reveal_strlit("COM²");
        reveal_strlit("COM³");
        reveal_strlit("LPT¹");
        reveal_strlit("LPT²");
        reveal_strlit("LPT³");
        reveal_strlit("COM");
        reveal_strlit("LPT");
    }
    let c = chars_of(name);
    let t = crate::text::trim_chars(&c);
    let mut bad = c.len() == 0 || !crate::text::seq_eq(&c, &t) || c[c.len() - 1] == '.';
    proof {
        if c.len() > 0 {
            assert("."@ =~= seq!['.']);
            assert(ends_with(c@, "."@) == (c@[c.len() - 1] == '.')) by {
                if c@[c.len() - 1] == '.' {
                    assert(c@.skip(c.len() - 1) =~= "."@);
                }
                if ends_with(c@, "."@) {
                    assert(c@.skip(c.len() - 1)[0] == c@[c.len() - 1]);
                }
            }
        }
    }
    let mut i: usize = 0;
    while i < c.len()
        invariant
            i <= c.len(),
            c@ == name@,
            !bad ==> forall|j: int| 0 <= j < i ==> !name_forbidden(#[trigger] c@[j]),
            bad == (c.len() == 0 || c@ != trim(c@) || ends_with(c@, "."@) || exists|j: int|
                0 <= j < i && name_forbidden(#[trigger] c@[j])),
        decreases c.len() - i,
    {
        let ch = c[i];
        if is_control(ch) || ch == '<' || ch == '>' || ch == ':' || ch == '"' || ch == '/' || ch
            == '\\' || ch == '|' || ch == '?' || ch == '*' {
            bad = true;
        }
        i += 1;
    }
    if bad {
        return Err(String::from_str("名称不能为空，不能包含路径、特殊字符或首尾空格"));
    }
    let base = device_base_of(&c);
    let reserved = lits_eq(&base, "CON") || lits_eq(&base, "PRN") || lits_eq(&base, "AUX")
        || lits_eq(&base, "NUL") || lits_eq(&base, "COM¹") || lits_eq(&base, "COM²") || lits_eq(
        &base,
        "COM³",
    ) || lits_eq(&base, "LPT¹") || lits_eq(&base, "LPT²") || lits_eq(&base, "LPT³") || (
    base.len() == 4 && ({
        let com = chars_of("COM");
        let lpt = chars_of("LPT");
        crate::text::seq_starts_with(&base, &com) || crate::text::seq_starts_with(&base, &lpt)
    }) && '1' <= base[3] && base[3] <= '9');
    if reserved {
        return Err(String::from_str("不能使用系统保留的文件名"));
    }
    let mut full = c.clone();
    full.push('.');
    let e = chars_of(extension);
    full.extend_from_slice(e.as_slice());
    assert(full@ =~= name@ + "."@ + extension@);
    let too_long = if windows {
        if full.len() >= 0x1000_0000 {
            proof {
                lemma_utf16_at_least(full@);
            }
            true
        } else {
            utf16_length(&full) > 255
        }
    } else {
        let s = crate::text::string_of(&full);
        s.as_str().as_bytes().len() > 255
    };
    if too_long {
        return Err(String::from_str("文件名过长"));
    }
    Ok(())
}

proof fn lemma_utf16_at_least(s: Seq<char>)
    ensures
        utf16_len(s) >= s.len(),
    decreases s.len(),
{
    if s.len() > 0 {
        lemma_utf16_at_least(s.drop_last());
    }
}

/// Checks a new file name on this host's rules.
pub fn validate_name(name: &str, extension: &str) -> (r: Result<(), String>)
    ensures
        exists|windows: bool|
            #![trigger name_problem(name@, extension@, windows)]
            match (r, name_problem(name@, extension@, windows)) {
                (Ok(()), None) => true,
                (Err(e), Some(m)) => e@ == m,
                _ => false,
            },
{
    let windows = windows_host();
    validate_name_on(name, extension, windows)
}

/// The subtitle renames that go with renaming a media file whose stem is
/// `stem` to `name`: each sidecar named `stem.suffix` becomes `name.suffix`,
/// once that name is allowed; the first name refused decides the error.
pub open spec fn sidecar_renames(name: Seq<char>, stem: Seq<char>, files: Seq<Seq<char>>, windows: bool) -> Result<Seq<(Seq<char>, Seq<char>)>, Seq<char>>
    decreases files.len(),
{
    if files.len() == 0 {
        Ok(seq![])
    } else {
        match sidecar_renames(name, stem, files.drop_last(), windows) {
            Err(m) => Err(m),
            Ok(done) => {
                let f = files.last();
                if starts_with(f, stem + "."@) {
                    let suffix = f.skip(stem.len() as int + 1);
                    match name_problem(name, suffix, windows) {
                        Some(m) => Err(m),
                        None => Ok(done.push((f, name + "."@ + suffix))),
                    }
                } else {
                    Ok(done)
                }
            },
        }
    }
}

/// The file-name changes of renaming a media file (`stem.extension`) to
/// `name`: the media file first, then its sidecar subtitles among `files`
/// (the names of its subtitle files in the same directory).
pub open spec fn rename_names_spec(name: Seq<char>, stem: Seq<char>, extension: Seq<char>, files: Seq<Seq<char>>, windows: bool) -> Result<Seq<(Seq<char>, Seq<char>)>, Seq<char>> {
    match name_problem(name, extension, windows) {
        Some(m) => Err(m),
        None => match sidecar_renames(name, stem, files, windows) {
            Err(m) => Err(m),
            Ok(rest) => Ok(seq![(stem + "."@ + extension, name + "."@ + extension)] + rest),
        },
    }
}

pub open spec fn pair_views(v: Seq<(String, String)>) -> Seq<(Seq<char>, Seq<char>)> {
    v.map_values(|p: (String, String)| (p.0@, p.1@))
}

fn dotted(a: &str, b: &str) -> (r: String)
    ensures
        r@ == a@ + "."@ + b@,
{
    let mut s = String::from_str(a);
    s.append(".");
    s.append(b);
    s
}

/// The (old, new) file names of a rename; see [`rename_names_spec`].
pub fn rename_names(name: &str, stem: &str, extension: &str, files: &Vec<String>, windows: bool) -> (r: Result<Vec<(String, String)>, String>)
    ensures
        match (r, rename_names_spec(name@, stem@, extension@, files@.map_values(|f: String| f@), windows)) {
            (Ok(v), Ok(w)) => pair_views(v@) == w,
            (Err(e), Err(m)) => e@ == m,
            _ => false,
        },
{
    proof {
        reveal_strlit(".");
    }
    match validate_name_on(name, extension, windows) {
        Ok(()) => {},
        Err(e) => return Err(e),
    }
    let ghost fs = files@.map_values(|f: String| f@);
    let mut out: Vec<(String, String)> = Vec::new();
    out.push((dotted(stem, extension), dotted(name, extension)));
    let ghost first = (stem@ + "."@ + extension@, name@ + "."@ + extension@);
    let prefix = dotted(stem, "");
    proof {
        reveal_strlit("");
        assert(prefix@ =~= stem@ + "."@);
    }
    let p = chars_of(prefix.as_str());
    let mut i: usize = 0;
    assert(fs.take(0) =~= Seq::<Seq<char>>::empty());
    assert(pair_views(out@) =~= seq![first] + Seq::<(Seq<char>, Seq<char>)>::empty());
    while i < files.len()
        invariant
            i <= files.len(),
            fs == files@.map_values(|f: String| f@),
            p@ == stem@ + "."@,
            name_problem(name@, extension@, windows) is None,
            sidecar_renames(name@, stem@, fs.take(i as int), windows) matches Ok(done)
                && pair_views(out@) == seq![first] + done,
        decreases files.len() - i,
    {
        proof {
            let t = fs.take(i + 1);
            assert(t.drop_last() =~= fs.take(i as int));
            assert(t.last() == files@[i as int]@);
        }
        let f = chars_of(files[i].as_str());
        if crate::text::seq_starts_with(&f, &p) {
            let suffix_chars = slice(&f, p.len(), f.len());
            let suffix = crate::text::string_of(&suffix_chars);
            proof {
                reveal_strlit(".");
                assert(p@.len() == stem@.len() + 1);
            }
            assert(suffix@ =~= files@[i as int]@.skip(stem@.len() as int + 1));
            match validate_name_on(name, suffix.as_str(), windows) {
                Ok(()) => {},
                Err(e) => {
                    proof {
                        lemma_sidecar_error_stays(name@, stem@, fs, windows, i as int + 1);
                    }
                    return Err(e);
                },
            }
            let ghost before = pair_views(out@);
            out.push((files[i].clone(), dotted(name, suffix.as_str())));
            assert(pair_views(out@) =~= before.push((files@[i as int]@, name@ + "."@ + suffix@)));
        }
        i += 1;
    }
    assert(fs.take(files.len() as int) =~= fs);
    Ok(out)
}

proof fn lemma_sidecar_error_stays(name: Seq<char>, stem: Seq<char>, fs: Seq<Seq<char>>, windows: bool, n: int)
    requires
        0 <= n <= fs.len(),
        sidecar_renames(name, stem, fs.take(n), windows) is Err,
    ensures
        sidecar_renames(name, stem, fs, windows) == sidecar_renames(name, stem, fs.take(n), windows),
    decreases fs.len() - n,
{
    if n == fs.len() {
        assert(fs.take(n) =~= fs);
    } else {
        let t = fs.take(n + 1);
        assert(t.drop_last() =~= fs.take(n));
        lemma_sidecar_error_stays(name, stem, fs, windows, n + 1);
    }
}

/// The error of an undone rename: the original error, then one note for
/// each file that could not be moved back, joined with "；".
pub open spec fn rollback_message(error: Seq<char>, failures: Seq<Seq<char>>) -> Seq<char>
    decreases failures.len(),
{
    if failures.len() == 0 {
        error
    } else {
        rollback_message(error, failures.drop_last()) + "；恢复原文件名失败："@ + failures.last()
    }
}

/// The error reported after moving renamed files back; `failures` are the
/// errors of the moves back that failed, in the order they were tried.
pub fn rollback(error: String, failures: &Vec<String>) -> (r: String)
    ensures
        r@ == rollback_message(error@, failures@.map_values(|f: String| f@)),
{
    let ghost fs = failures@.map_values(|f: String| f@);
    let mut out = error;
    let mut i: usize = 0;
    while i < failures.len()
        invariant
            i <= failures.len(),
            fs == failures@.map_values(|f: String| f@),
            out@ == rollback_message(error@, fs.take(i as int)),
        decreases failures.len() - i,
    {
        proof {
            let t = fs.take(i + 1);
            assert(t.drop_last() =~= fs.take(i as int));
            reveal_strlit("；恢复原文件名失败：");
        }
        out.append("；恢复原文件名失败：");
        out.append(failures[i].as_str());
        i += 1;
    }
    assert(fs.take(failures.len() as int) =~= fs);
    out
}

/// A download that still works on, or awaits recovery of, media `media_id`.
pub open spec fn blocks_file_operation(job: crate::download::DownloadJob, media_id: Seq<char>) -> bool {
    crate::playback::opt_view(job.media_id) == Some(media_id) && (job.phase.active() || job.phase
        == crate::download::DownloadPhase::RecoveryRequired)
}

/// Checks a confirmed rename or deletion before it touches a file: the file
/// must still be the one the confirmation was made for, and no download may
/// be working on or awaiting recovery of its media.
pub fn check_file_operation(current: &PlaylistFile, target: &PlaylistFile, jobs: &Vec<crate::download::DownloadJob>, media_id: &str) -> (r: Result<(), String>)
    ensures
        !current.same(*target) ==> (r matches Err(e) && e@
            == "文件或保存目录已变化，请关闭弹窗并重新操作"@),
        current.same(*target) && (exists|i: int| 0 <= i < jobs@.len() && blocks_file_operation(#[trigger] jobs@[i], media_id@)) ==> (r matches Err(e) && e@
            == "此媒体有进行中或待恢复的下载任务，请先处理下载任务"@),
        current.same(*target) && !(exists|i: int| 0 <= i < jobs@.len() && blocks_file_operation(#[trigger] jobs@[i], media_id@)) ==> r is Ok,
{
    if !current.same_as(target) {
        return Err(String::from_str("文件或保存目录已变化，请关闭弹窗并重新操作"));
    }
    let mut i: usize = 0;
    while i < jobs.len()
        invariant
            i <= jobs.len(),
            current.same(*target),
            forall|k: int| 0 <= k < i ==> !blocks_file_operation(#[trigger] jobs@[k], media_id@),
        decreases jobs.len() - i,
    {
        let job = &jobs[i];
        let same = match &job.media_id {
            Some(m) => str_eq(m.as_str(), media_id),
            None => false,
        };
        if same && (job.phase.is_active() || job.phase == crate::download::DownloadPhase::RecoveryRequired) {
            assert(blocks_file_operation(jobs@[i as int], media_id@));
            return Err(String::from_str("此媒体有进行中或待恢复的下载任务，请先处理下载任务"));
        }
        i += 1;
    }
    Ok(())
}

/// Where a stored path is after the moves of a rename, applied in order.
pub open spec fn moved_path(path: Seq<char>, moves: Seq<(Seq<char>, Seq<char>)>) -> Seq<char>
    decreases moves.len(),
{
    if moves.len() == 0 {
        path
    } else {
        let p = moved_path(path, moves.drop_last());
        if p == moves.last().0 {
            moves.last().1
        } else {
            p
        }
    }
}

/// The stored path after the moves of a rename; `moves` are (from, to).
pub fn path_after_moves(path: &str, moves: &Vec<(String, String)>) -> (r: String)
    ensures
        r@ == moved_path(path@, pair_views(moves@)),
{
    let ghost m = pair_views(moves@);
    let mut p = String::from_str(path);
    let mut i: usize = 0;
    while i < moves.len()
        invariant
            i <= moves.len(),
            m == pair_views(moves@),
            p@ == moved_path(path@, m.take(i as int)),
        decreases moves.len() - i,
    {
        proof {
            let t = m.take(i + 1);
            assert(t.drop_last() =~= m.take(i as int));
        }
        if str_eq(p.as_str(), moves[i].0.as_str()) {
            p = moves[i].1.clone();
        }
        i += 1;
    }
    assert(m.take(moves.len() as int) =~= m);
    p
}

/// The moves that undo `moves`: each one backwards, the last first.
pub open spec fn undo_spec(moves: Seq<(Seq<char>, Seq<char>)>) -> Seq<(Seq<char>, Seq<char>)> {
    Seq::new(moves.len(), |i: int| (moves[moves.len() - 1 - i].1, moves[moves.len() - 1 - i].0))
}

/// The moves that put renamed files back after a later step failed; see
/// [`undo_spec`].
pub fn undo_moves(moves: &Vec<(String, String)>) -> (r: Vec<(String, String)>)
    ensures
        pair_views(r@) == undo_spec(pair_views(moves@)),
{
    let ghost m = pair_views(moves@);
    let mut out: Vec<(String, String)> = Vec::new();
    let mut k: usize = moves.len();
    while k > 0
        invariant
            k <= moves.len(),
            m == pair_views(moves@),
            out@.len() == moves.len() - k,
            forall|i: int| 0 <= i < out@.len() ==> #[trigger] pair_views(out@)[i] == undo_spec(m)[i],
        decreases k,
    {
        k -= 1;
        let ghost before = out@;
        let to = moves[k].1.clone();
        let from = moves[k].0.clone();
        out.push((to, from));
        assert forall|i: int| 0 <= i < out@.len() implies #[trigger] pair_views(out@)[i] == undo_spec(m)[i] by {
            if i < before.len() {
                assert(out@[i] == before[i]);
                assert(pair_views(before)[i] == undo_spec(m)[i]);
            } else {
                assert(i == moves.len() - 1 - k);
                assert(m[k as int] == (moves@[k as int].0@, moves@[k as int].1@));
            }
        }
    }
    assert(pair_views(out@) =~= undo_spec(m));
    out
}

/// Applying `a` and then `b` moves a path as applying them in one list.
pub proof fn lemma_moved_path_concat(
    path: Seq<char>,
    a: Seq<(Seq<char>, Seq<char>)>,
    b: Seq<(Seq<char>, Seq<char>)>,
)
    ensures
        moved_path(path, a + b) == moved_path(moved_path(path, a), b),
    decreases b.len(),
{
    if b.len() == 0 {
        assert(a + b =~= a);
    } else {
        assert((a + b).drop_last() =~= a + b.drop_last());
        lemma_moved_path_concat(path, a, b.drop_last());
    }
}

/// The temporary path a case-only rename passes through.
pub open spec fn rename_temp(directory: Seq<char>, id: Seq<char>, windows: bool) -> Seq<char> {
    joined(directory, ".shadow-rename-"@ + id, windows)
}

/// Two paths that differ in letter case only, on Windows, where the file
/// system would take them for one file.
pub open spec fn case_only(from: Seq<char>, to: Seq<char>, windows: bool) -> bool {
    windows && lowercase(from) == lowercase(to)
}

/// The moves (from, to) that carry out the renames `names` (old and new file
/// names in `directory`): unchanged names are skipped, a case-only rename
/// passes through the temporary name `temps[k]`, and a rename onto an
/// existing file (`exists[k]`) is refused.
pub open spec fn rename_plan_spec(
    directory: Seq<char>,
    names: Seq<(Seq<char>, Seq<char>)>,
    windows: bool,
    exists: Seq<bool>,
    temps: Seq<Seq<char>>,
) -> Result<Seq<(Seq<char>, Seq<char>)>, Seq<char>>
    decreases names.len(),
{
    if names.len() == 0 {
        Ok(seq![])
    } else {
        let k = names.len() - 1;
        match rename_plan_spec(directory, names.drop_last(), windows, exists, temps) {
            Err(e) => Err(e),
            Ok(done) => {
                let from = joined(directory, names[k].0, windows);
                let to = joined(directory, names[k].1, windows);
                if from == to {
                    Ok(done)
                } else if case_only(from, to, windows) {
                    let t = rename_temp(directory, temps[k], windows);
                    Ok(done.push((from, t)).push((t, to)))
                } else if exists[k] {
                    Err("同名文件已存在："@ + to)
                } else {
                    Ok(done.push((from, to)))
                }
            },
        }
    }
}

proof fn lemma_plan_error_stays(
    directory: Seq<char>,
    names: Seq<(Seq<char>, Seq<char>)>,
    windows: bool,
    exists: Seq<bool>,
    temps: Seq<Seq<char>>,
    n: int,
)
    requires
        0 <= n <= names.len(),
        rename_plan_spec(directory, names.take(n), windows, exists, temps) is Err,
    ensures
        rename_plan_spec(directory, names, windows, exists, temps) == rename_plan_spec(
            directory,
            names.take(n),
            windows,
            exists,
            temps,
        ),
    decreases names.len() - n,
{
    if n == names.len() {
        assert(names.take(n) =~= names);
    } else {
        let t = names.take(n + 1);
        assert(t.drop_last() =~= names.take(n));
        lemma_plan_error_stays(directory, names, windows, exists, temps, n + 1);
    }
}

/// The moves of a rename, given whether each target exists and the
/// identifier of each temporary name; see [`rename_plan_spec`].
pub fn rename_plan_with(
    directory: &str,
    names: &Vec<(String, String)>,
    windows: bool,
    exists: &Vec<bool>,
    temps: &Vec<String>,
) -> (r: Result<Vec<(String, String)>, String>)
    requires
        exists@.len() == names@.len(),
        temps@.len() == names@.len(),
    ensures
        match (r, rename_plan_spec(directory@, pair_views(names@), windows, exists@, temps@.map_values(|t: String| t@))) {
            (Ok(v), Ok(w)) => pair_views(v@) == w,
            (Err(e), Err(m)) => e@ == m,
            _ => false,
        },
{
    let ghost nv = pair_views(names@);
    let ghost tv = temps@.map_values(|t: String| t@);
    let mut out: Vec<(String, String)> = Vec::new();
    let mut k: usize = 0;
    assert(nv.take(0) =~= Seq::<(Seq<char>, Seq<char>)>::empty());
    while k < names.len()
        invariant
            k <= names.len(),
            nv == pair_views(names@),
            tv == temps@.map_values(|t: String| t@),
            exists@.len() == names@.len(),
            temps@.len() == names@.len(),
            rename_plan_spec(directory@, nv.take(k as int), windows, exists@, tv) matches Ok(done)
                && pair_views(out@) == done,
        decreases names.len() - k,
    {
        let ghost t = nv.take(k + 1);
        proof {
            assert(t.drop_last() =~= nv.take(k as int));
            assert(t[k as int] == nv[k as int]);
        }
        let from = join_path(directory, names[k].0.as_str(), windows);
        let to = join_path(directory, names[k].1.as_str(), windows);
        let ghost before = pair_views(out@);
        if str_eq(from.as_str(), to.as_str()) {
        } else if windows && str_eq(to_lowercase(from.as_str()).as_str(), to_lowercase(to.as_str()).as_str()) {
            let mut name = String::from_str(".shadow-rename-");
            name.append(temps[k].as_str());
            proof {
                reveal_strlit(".shadow-rename-");
            }
            let temp = join_path(directory, name.as_str(), windows);
            out.push((from, temp.clone()));
            out.push((temp, to));
            assert(pair_views(out@) =~= before.push((from@, temp@)).push((temp@, to@)));
        } else if exists[k] {
            let mut message = String::from_str("同名文件已存在：");
            message.append(to.as_str());
            proof {
                reveal_strlit("同名文件已存在：");
                lemma_plan_error_stays(directory@, nv, windows, exists@, tv, k + 1);
            }
            return Err(message);
        } else {
            out.push((from, to));
            assert(pair_views(out@) =~= before.push((from@, to@)));
        }
        k += 1;
    }
    assert(nv.take(names.len() as int) =~= nv);
    Ok(out)
}

/// The moves of a rename in `directory` under this host's rules, asking the
/// disk whether each target exists and drawing a fresh temporary name for
/// each case-only rename; see [`rename_plan_spec`].
pub fn rename_plan(directory: &str, names: &Vec<(String, String)>) -> (r: Result<Vec<(String, String)>, String>)
    ensures
        exists|windows: bool, answers: Seq<bool>, temps: Seq<Seq<char>>|
            answers.len() == names@.len() && temps.len() == names@.len() && match (
                r,
                #[trigger] rename_plan_spec(directory@, pair_views(names@), windows, answers, temps),
            ) {
                (Ok(v), Ok(w)) => pair_views(v@) == w,
                (Err(e), Err(m)) => e@ == m,
                _ => false,
            },
{
    let windows = windows_host();
    let mut exists: Vec<bool> = Vec::new();
    let mut temps: Vec<String> = Vec::new();
    let mut k: usize = 0;
    while k < names.len()
        invariant
            k <= names.len(),
            exists@.len() == k,
            temps@.len() == k,
        decreases names.len() - k,
    {
        let to = join_path(directory, names[k].1.as_str(), windows);
        exists.push(path_exists(to.as_str()));
        temps.push(new_uuid());
        k += 1;
    }
    let r = rename_plan_with(directory, names, windows, &exists, &temps);
    assert(temps@.map_values(|t: String| t@).len() == names@.len());
    r
}

} // verus!
