//! Properties that hold across the library's operations.
use crate::capabilities::{
    audio_ext, audio_extensions, browser_video_ext, browser_video_extensions, external_video_ext,
    external_video_extensions, supported_ext, video_ext,
};
use crate::audio::{on_command_spec, settle_spec, AudioAction, AudioEvent, AudioWorker, Settle};
use crate::directory::first_occurrences;
use crate::download_options::{
    audio_option, chosen, choices, choices_with, height_lt, last_audio, mp3_source, video_id,
    video_option, OptionView, Traits, selects_eligible, best_audio, video_cand, audio_cand,
    lemma_best_audio, lemma_last_where, last_where, companion,
};
use crate::media::MediaType;
use crate::playlist_files::{lemma_moved_path_concat, moved_path, undo_spec};
use crate::download::{DownloadJob, DownloadPhase};
use crate::learning::{
    first_invalid, MAX_CUES,
    cue_valid, insert_by_start, numbered, saved_settings_spec, settings_problem, sorted_by_start,
    total_key,
    transcript_cues_spec, with_notes, Cue, CueNote, LearningSettings, ONE_BITS,
};
use crate::library::{entry_le, entry_order, folder_view, insert_entry, lex_le, FsNode, ItemView};
use crate::online::{lemma_index_after, login_parts, login_required_text, metadata_failure, VideoPlatform};
use crate::text::{contains, decimal, lemma_decimal_injective, lemma_decimal_shape, lowercase, trim};
use crate::playback::{accepts_report, BrowserPlaybackReport, PlaybackController, PlaybackSession};
use crate::playlist::{advance_revision_spec, next_index};
use crate::remux_cache::{
    by_access, fresh_remuxes, insert_by_access, is_expired, is_remux, CacheFile,
};
use crate::settings::{apply_patch, patch_error, AppSettings, AppSettingsPatch};
use crate::probe::{browser_native, mp4_family, remuxable, split_commas, InfoView};
use crate::subtitles::{join_lines, joined_block, vtt_cues};
use crate::directory::{passed_over, scan_step_spec, ScanStep};
use vstd::prelude::*;

verus! {

/// A playback request older than the latest one is never current: it cannot
/// start, activate or report into the session a later request owns.
pub proof fn superseded_request_is_stale(c: PlaybackController, id: u64)
    requires
        id < c.generation_spec(),
    ensures
        !c.requested(id),
        !c.matches_spec(id),
{
}

/// Reserving a request makes every request made before it stale.
pub proof fn reserve_supersedes_earlier_requests(before: PlaybackController, after: PlaybackController, earlier: u64)
    requires
        after.generation_spec() == before.generation_spec() + 1,
        earlier <= before.generation_spec(),
    ensures
        !after.requested(earlier),
        !after.matches_spec(earlier),
{
}

/// The browser player cannot report twice with the same or an older
/// sequence number, nor for a session it does not own.
pub proof fn stale_or_foreign_reports_are_refused(session: PlaybackSession, report: BrowserPlaybackReport)
    requires
        report.sequence <= session.browser_sequence || session.id != report.session_id
            || crate::playback::opt_view(session.browser_owner) != Some(report.owner@),
    ensures
        !accepts_report(session, report),
{
}

/// Once a new attempt of a download has started, the worker of any earlier
/// attempt can no longer finish it.
pub proof fn earlier_attempt_cannot_finish(job: DownloadJob, attempt: u64)
    requires
        attempt < job.attempt,
    ensures
        !(job.attempt == attempt && job.phase.active()),
{
}

/// A finished or failed download cannot be started again while it is
/// completed or awaiting recovery, and a running one cannot start twice.
pub proof fn running_or_completed_download_cannot_restart(job: DownloadJob)
    requires
        job.phase.active() || job.phase == DownloadPhase::Completed || job.phase
            == DownloadPhase::RecoveryRequired,
    ensures
        !job.can_start(),
{
}

/// The default learning settings are valid.
pub proof fn default_learning_settings_are_valid(s: LearningSettings)
    requires
        s.revision == 0,
        s.workspace_id@ == Seq::<char>::empty(),
        s.text_model@ == "qwen-plus"@,
        s.transcription_model@ == "paraformer-v2"@,
        s.subtitle_display@ == "bilingual"@,
        s.translation_language@ == "zh"@,
        s.subtitle_font_size == 18,
        s.playback_rate_bits == ONE_BITS,
        s.repetitions == 2,
        s.gap_seconds_bits == ONE_BITS,
        s.recording_device@ == "default"@,
        s.recording_directory@ == Seq::<char>::empty(),
        s.playback_order@ == "original_first"@,
    ensures
        settings_problem(s, false) is None,
        settings_problem(s, true) is None,
{
    reveal_strlit("qwen-plus");
    reveal_strlit("paraformer-v2");
    reveal_strlit("bilingual");
    reveal_strlit("original");
    reveal_strlit("zh");
    reveal_strlit("original_first");
    reveal_strlit("recording_first");
    reveal_strlit("default");
    let t = s.text_model@;
    assert(crate::text::trim(t).len() > 0) by {
        crate::text::lemma_leading_space_exact(t, 0);
        assert(t.skip(0) =~= t);
        crate::text::lemma_trailing_space_exact(t, 0);
        assert(t.take(t.len() as int) =~= t);
    }
    crate::learning::lemma_utf8_size_bound(t);
}

/// In random order with more than one entry, the next entry is never the
/// current one; every move stays inside the playlist.
pub proof fn random_order_moves_elsewhere(len: int, i: int, backwards: bool, random: u128)
    requires
        1 < len <= usize::MAX,
        0 <= i < len,
    ensures
        next_index(len, Some(i), "random"@, backwards, random) matches Some(k) && 0 <= k < len && k
            != i,
{
    reveal_strlit("random");
    reveal_strlit("repeat_one");
    let m = (len - 1) as u128;
    assert(m as int == len - 1);
    let step = (random % m) as int;
    assert(0 <= step < len - 1);
    let k = (i + step + 1) % len;
    assert("random"@.len() != "repeat_one"@.len());
    assert(next_index(len, Some(i), "random"@, backwards, random) == Some(k));
    assert(0 <= k < len);
    assert(k != i) by {
        let x = i + step + 1;
        if x < len {
            vstd::arithmetic::div_mod::lemma_small_mod(x as nat, len as nat);
        } else {
            vstd::arithmetic::div_mod::lemma_mod_add_multiples_vanish(x - len, len);
            vstd::arithmetic::div_mod::lemma_small_mod((x - len) as nat, len as nat);
        }
    }
}

/// Repeat-one keeps playing the current entry.
pub proof fn repeat_one_stays(len: int, i: int, backwards: bool, random: u128)
    requires
        0 <= i < len,
    ensures
        next_index(len, Some(i), "repeat_one"@, backwards, random) == Some(i),
{
}

/// An update that changes nothing is accepted and keeps every setting; only
/// the revision advances.
pub proof fn empty_patch_keeps_settings(s: AppSettings, p: AppSettingsPatch)
    requires
        p.theme is None,
        p.language is None,
        p.play_mode is None,
        p.minimize_to_tray is None,
    ensures
        patch_error(p) is None,
        apply_patch(s, p) == (AppSettings { revision: (s.revision + 1) as u64, ..s }),
{
}

/// Applying the same update again changes nothing but the revision.
pub proof fn patches_are_idempotent(s: AppSettings, p: AppSettingsPatch)
    ensures
        apply_patch(apply_patch(s, p), p) == (AppSettings {
            revision: (apply_patch(s, p).revision + 1) as u64,
            ..apply_patch(s, p)
        }),
{
}

/// A rebuilt playlist lists each media item once.
pub proof fn rebuilt_playlist_has_no_duplicates(ids: Seq<Seq<char>>)
    ensures
        forall|i: int, j: int|
            0 <= i < j < first_occurrences(ids).len() ==> first_occurrences(ids)[i]
                != first_occurrences(ids)[j],
        forall|k: int| 0 <= k < ids.len() ==> first_occurrences(ids).contains(#[trigger] ids[k]),
        forall|k: int|
            0 <= k < first_occurrences(ids).len() ==> ids.contains(#[trigger] first_occurrences(ids)[k]),
    decreases ids.len(),
{
    if ids.len() > 0 {
        let t = ids.drop_last();
        rebuilt_playlist_has_no_duplicates(t);
        let d = first_occurrences(t);
        assert forall|k: int| 0 <= k < ids.len() implies first_occurrences(ids).contains(
            #[trigger] ids[k],
        ) by {
            if k < ids.len() - 1 {
                assert(t[k] == ids[k]);
                assert(d.contains(t[k]));
                if !d.contains(ids.last()) {
                    let j = choose|j: int| 0 <= j < d.len() && d[j] == t[k];
                    assert(d.push(ids.last())[j] == t[k]);
                }
            } else if !d.contains(ids.last()) {
                assert(d.push(ids.last())[d.len() as int] == ids.last());
            }
        }
        assert forall|k: int| 0 <= k < first_occurrences(ids).len() implies ids.contains(
            #[trigger] first_occurrences(ids)[k],
        ) by {
            if k < d.len() {
                assert(first_occurrences(ids)[k] == d[k]);
                assert(t.contains(d[k]));
                let j = choose|j: int| 0 <= j < t.len() && t[j] == d[k];
                assert(ids[j] == t[j]);
            } else {
                assert(first_occurrences(ids)[k] == ids.last());
                assert(ids[ids.len() - 1] == ids.last());
            }
        }
    }
}

/// Inserting a cue into start-sorted cues keeps them sorted by start time.
proof fn insert_keeps_sorted(s: Seq<Cue>, c: Cue)
    requires
        forall|i: int, j: int| 0 <= i < j < s.len() ==> total_key(s[i].start_bits) <= total_key(
            s[j].start_bits,
        ),
    ensures
        insert_by_start(s, c).len() == s.len() + 1,
        forall|i: int, j: int|
            0 <= i < j < insert_by_start(s, c).len() ==> total_key(insert_by_start(s, c)[i].start_bits)
                <= total_key(insert_by_start(s, c)[j].start_bits),
        forall|i: int|
            0 <= i < insert_by_start(s, c).len() ==> #[trigger] insert_by_start(s, c)[i] == c
                || s.contains(insert_by_start(s, c)[i]),
    decreases s.len(),
{
    if s.len() > 0 && total_key(s.last().start_bits) > total_key(c.start_bits) {
        let t = s.drop_last();
        insert_keeps_sorted(t, c);
        let r = insert_by_start(t, c);
        assert forall|i: int| 0 <= i < r.len() implies total_key(#[trigger] r[i].start_bits) <= total_key(
            s.last().start_bits,
        ) by {
            if r[i] != c {
                let j = choose|j: int| 0 <= j < t.len() && t[j] == r[i];
                assert(t[j] == s[j]);
            }
        }
        assert forall|i: int| 0 <= i < insert_by_start(s, c).len() implies #[trigger] insert_by_start(
            s,
            c,
        )[i] == c || s.contains(insert_by_start(s, c)[i]) by {
            if i < r.len() {
                if r[i] != c {
                    let j = choose|j: int| 0 <= j < t.len() && t[j] == r[i];
                    assert(s[j] == t[j]);
                }
            } else {
                assert(s[s.len() - 1] == s.last());
            }
        }
    } else if s.len() > 0 {
        assert forall|i: int| 0 <= i < insert_by_start(s, c).len() implies #[trigger] insert_by_start(
            s,
            c,
        )[i] == c || s.contains(insert_by_start(s, c)[i]) by {
            if i < s.len() {
                assert(insert_by_start(s, c)[i] == s[i]);
            }
        }
    }
}

/// Cues in stable start order are sorted by their start times.
proof fn sorted_cues_are_ordered(cues: Seq<Cue>)
    ensures
        sorted_by_start(cues).len() == cues.len(),
        forall|i: int, j: int|
            0 <= i < j < sorted_by_start(cues).len() ==> total_key(sorted_by_start(cues)[i].start_bits)
                <= total_key(sorted_by_start(cues)[j].start_bits),
    decreases cues.len(),
{
    if cues.len() > 0 {
        sorted_cues_are_ordered(cues.drop_last());
        insert_keeps_sorted(sorted_by_start(cues.drop_last()), cues.last());
    }
}

/// A new transcript lists its cues in order of their start times, numbered
/// from zero, each with a valid time span and text.
pub proof fn transcript_cues_are_ordered_and_numbered(cues: Seq<Cue>)
    requires
        transcript_cues_spec(cues) is Ok,
    ensures
        transcript_cues_spec(cues) matches Ok(out) && out.len() == cues.len() && (forall|i: int|
            0 <= i < out.len() ==> (#[trigger] out[i]).id == i && cue_valid(out[i])) && (forall|
            i: int,
            j: int,
        |
            0 <= i < j < out.len() ==> total_key(out[i].start_bits) <= total_key(
                out[j].start_bits,
            )),
{
    let s = sorted_by_start(cues);
    sorted_cues_are_ordered(cues);
    crate::learning::lemma_no_invalid(s);
    let out = numbered(s);
    assert forall|i: int, j: int| 0 <= i < j < out.len() implies total_key(out[i].start_bits)
        <= total_key(out[j].start_bits) by {
        assert(out[i].start_bits == s[i].start_bits);
        assert(out[j].start_bits == s[j].start_bits);
    }
    assert forall|i: int| 0 <= i < out.len() implies (#[trigger] out[i]).id == i && cue_valid(
        out[i],
    ) by {
        assert(cue_valid(s[i]));
    }
}

/// Learning settings saved from a snapshot older than the stored settings
/// are refused; after a save succeeds, saving the same snapshot again is
/// refused too.
pub proof fn stale_learning_settings_are_refused(stored: u64, value: LearningSettings, directory_exists: bool)
    requires
        saved_settings_spec(stored, value, directory_exists) is Ok,
    ensures
        saved_settings_spec(stored, value, directory_exists) matches Ok(next) && next == stored + 1
            && saved_settings_spec(next, value, directory_exists) is Err,
{
}

proof fn insert_by_access_keeps_order(s: Seq<CacheFile>, f: CacheFile)
    requires
        forall|i: int, j: int| 0 <= i < j < s.len() ==> s[i].accessed <= s[j].accessed,
    ensures
        insert_by_access(s, f).to_multiset() =~= s.to_multiset().insert(f),
        forall|i: int, j: int|
            0 <= i < j < insert_by_access(s, f).len() ==> insert_by_access(s, f)[i].accessed
                <= insert_by_access(s, f)[j].accessed,
    decreases s.len(),
{
    broadcast use vstd::seq_lib::group_to_multiset_ensures;

    if s.len() == 0 {
        assert(seq![f] =~= Seq::<CacheFile>::empty().push(f));
    } else if s.last().accessed <= f.accessed {
    } else {
        let t = s.drop_last();
        insert_by_access_keeps_order(t, f);
        let r = insert_by_access(t, f);
        assert(t.push(s.last()) =~= s);
        assert forall|i: int| 0 <= i < r.len() implies (#[trigger] r[i]).accessed <= s.last().accessed by {
            assert(r.to_multiset().count(r[i]) > 0);
            if r[i] != f {
                assert(t.to_multiset().count(r[i]) > 0);
                let j = choose|j: int| 0 <= j < t.len() && t[j] == r[i];
                assert(s[j] == t[j]);
            }
        }
    }
}

proof fn fresh_remuxes_qualify(files: Seq<CacheFile>, now: int)
    ensures
        forall|i: int|
            0 <= i < fresh_remuxes(files, now).len() ==> is_remux(#[trigger] fresh_remuxes(files, now)[i])
                && !is_expired(fresh_remuxes(files, now)[i], now),
    decreases files.len(),
{
    if files.len() > 0 {
        fresh_remuxes_qualify(files.drop_last(), now);
        let rest = fresh_remuxes(files.drop_last(), now);
        if is_remux(files.last()) && !is_expired(files.last(), now) {
            assert forall|i: int| 0 <= i < rest.len() implies rest.push(files.last())[i] == rest[i] by {}
        }
    }
}

proof fn by_access_is_ordered_permutation(files: Seq<CacheFile>)
    ensures
        by_access(files).to_multiset() =~= files.to_multiset(),
        forall|i: int, j: int|
            0 <= i < j < by_access(files).len() ==> by_access(files)[i].accessed
                <= by_access(files)[j].accessed,
    decreases files.len(),
{
    broadcast use vstd::seq_lib::group_to_multiset_ensures;

    if files.len() > 0 {
        by_access_is_ordered_permutation(files.drop_last());
        insert_by_access_keeps_order(by_access(files.drop_last()), files.last());
        assert(files.drop_last().push(files.last()) =~= files);
    }
}

/// The cache gives way least recently used first: the files it may evict are
/// exactly the remuxes that are not expired, each once, ordered by their last
/// use.
pub proof fn cache_evicts_least_recently_used_first(files: Seq<CacheFile>, now: int)
    ensures
        by_access(fresh_remuxes(files, now)).to_multiset() =~= fresh_remuxes(files, now).to_multiset(),
        forall|i: int, j: int|
            0 <= i < j < by_access(fresh_remuxes(files, now)).len() ==> by_access(
                fresh_remuxes(files, now),
            )[i].accessed <= by_access(fresh_remuxes(files, now))[j].accessed,
        forall|f: CacheFile|
            by_access(fresh_remuxes(files, now)).contains(f) ==> is_remux(f) && !is_expired(f, now),
{
    let fresh = fresh_remuxes(files, now);
    by_access_is_ordered_permutation(fresh);
    fresh_remuxes_qualify(files, now);
    assert forall|f: CacheFile| #[trigger] by_access(fresh).contains(f) implies is_remux(f) && !is_expired(f, now) by {
        broadcast use vstd::seq_lib::group_to_multiset_ensures;

        assert(by_access(fresh).to_multiset().count(f) > 0);
        assert(fresh.to_multiset().count(f) > 0);
        assert(fresh.contains(f));
        let j = choose|j: int| 0 <= j < fresh.len() && fresh[j] == f;
        assert(is_remux(fresh[j]));
    }
}

proof fn lex_le_total(a: Seq<char>, b: Seq<char>)
    ensures
        lex_le(a, b) || lex_le(b, a),
    decreases a.len(),
{
    if a.len() > 0 && b.len() > 0 && a[0] == b[0] {
        lex_le_total(a.drop_first(), b.drop_first());
    }
}

proof fn lex_le_transitive(a: Seq<char>, b: Seq<char>, c: Seq<char>)
    requires
        lex_le(a, b),
        lex_le(b, c),
    ensures
        lex_le(a, c),
    decreases a.len(),
{
    if a.len() > 0 && b.len() > 0 && c.len() > 0 && a[0] == b[0] && b[0] == c[0] {
        lex_le_transitive(a.drop_first(), b.drop_first(), c.drop_first());
    }
}

proof fn entry_le_total(a: FsNode, b: FsNode)
    ensures
        entry_le(a, b) || entry_le(b, a),
{
    lex_le_total(crate::library::sort_name(a), crate::library::sort_name(b));
}

proof fn entry_le_transitive(a: FsNode, b: FsNode, c: FsNode)
    requires
        entry_le(a, b),
        entry_le(b, c),
    ensures
        entry_le(a, c),
{
    if a.is_dir == b.is_dir && b.is_dir == c.is_dir {
        lex_le_transitive(
            crate::library::sort_name(a),
            crate::library::sort_name(b),
            crate::library::sort_name(c),
        );
    }
}

proof fn insert_entry_keeps_order(order: Seq<usize>, entries: Seq<FsNode>, i: usize)
    requires
        forall|p: int, q: int|
            0 <= p < q < order.len() ==> entry_le(entries[order[p] as int], entries[order[q] as int]),
    ensures
        insert_entry(order, entries, i).len() == order.len() + 1,
        insert_entry(order, entries, i).to_multiset() =~= order.to_multiset().insert(i),
        forall|p: int, q: int|
            0 <= p < q < insert_entry(order, entries, i).len() ==> entry_le(
                entries[insert_entry(order, entries, i)[p] as int],
                entries[insert_entry(order, entries, i)[q] as int],
            ),
    decreases order.len(),
{
    broadcast use vstd::seq_lib::group_to_multiset_ensures;

    if order.len() == 0 {
        assert(seq![i] =~= Seq::<usize>::empty().push(i));
    } else if entry_le(entries[order.last() as int], entries[i as int]) {
        let r = order.push(i);
        assert forall|p: int, q: int| 0 <= p < q < r.len() implies entry_le(
            entries[r[p] as int],
            entries[r[q] as int],
        ) by {
            if q == order.len() && p < order.len() - 1 {
                entry_le_transitive(
                    entries[order[p] as int],
                    entries[order.last() as int],
                    entries[i as int],
                );
            }
        }
    } else {
        let t = order.drop_last();
        insert_entry_keeps_order(t, entries, i);
        let r = insert_entry(t, entries, i);
        assert(t.push(order.last()) =~= order);
        entry_le_total(entries[order.last() as int], entries[i as int]);
        assert forall|p: int| 0 <= p < r.len() implies entry_le(
            entries[#[trigger] r[p] as int],
            entries[order.last() as int],
        ) by {
            assert(r.to_multiset().count(r[p]) > 0);
            if r[p] != i {
                assert(t.to_multiset().count(r[p]) > 0);
                let j = choose|j: int| 0 <= j < t.len() && t[j] == r[p];
                assert(order[j] == t[j]);
            }
        }
        let f = r.push(order.last());
        assert forall|p: int, q: int| 0 <= p < q < f.len() implies entry_le(
            entries[f[p] as int],
            entries[f[q] as int],
        ) by {
            if q < r.len() {
                assert(f[p] == r[p] && f[q] == r[q]);
            } else {
                assert(f[p] == r[p]);
            }
        }
    }
}

proof fn entry_order_sorted(entries: Seq<FsNode>, n: nat)
    ensures
        entry_order(entries, n).to_multiset() =~= Seq::new(n, |k: int| k as usize).to_multiset(),
        forall|p: int, q: int|
            0 <= p < q < entry_order(entries, n).len() ==> entry_le(
                entries[entry_order(entries, n)[p] as int],
                entries[entry_order(entries, n)[q] as int],
            ),
    decreases n,
{
    broadcast use vstd::seq_lib::group_to_multiset_ensures;

    if n == 0 {
        assert(Seq::new(0, |k: int| k as usize) =~= Seq::<usize>::empty());
    } else {
        let m = (n - 1) as nat;
        entry_order_sorted(entries, m);
        insert_entry_keeps_order(entry_order(entries, m), entries, m as usize);
        assert(Seq::new(m, |k: int| k as usize).push(m as usize) =~= Seq::new(n, |k: int| k as usize));
    }
}

/// A directory's entries are each considered once, folders first and then
/// by lower-cased name.
pub proof fn folder_entries_are_sorted(entries: Seq<FsNode>)
    ensures
        entry_order(entries, entries.len()).to_multiset() =~= Seq::new(
            entries.len(),
            |k: int| k as usize,
        ).to_multiset(),
        forall|p: int, q: int|
            0 <= p < q < entries.len() ==> entry_le(
                entries[entry_order(entries, entries.len())[p] as int],
                entries[entry_order(entries, entries.len())[q] as int],
            ),
        forall|a: FsNode, b: FsNode| a.is_dir && !b.is_dir ==> #[trigger] entry_le(a, b) && !entry_le(b, a),
{
    entry_order_sorted(entries, entries.len());
    crate::library::lemma_order_in_range(entries, entries.len());
}

/// The library tree never shows an empty folder.
pub proof fn library_folders_are_never_empty(root: FsNode)
    ensures
        folder_view(root) matches Some(ItemView::Folder { children, .. }) ==> children.len() > 0,
{
}

/// Notes change only a cue's translation, its language and whether it is a
/// favorite: the cues keep their number, order, identifiers, times and text.
pub proof fn cue_notes_keep_timing_and_text(cues: Seq<Cue>, notes: Seq<CueNote>)
    ensures
        with_notes(cues, notes) matches Ok(out) ==> out.len() == cues.len() && forall|i: int|
            0 <= i < out.len() ==> {
                &&& (#[trigger] out[i]).id == cues[i].id
                &&& out[i].start_bits == cues[i].start_bits
                &&& out[i].end_bits == cues[i].end_bits
                &&& out[i].text == cues[i].text
            },
    decreases notes.len(),
{
    if notes.len() > 0 {
        cue_notes_keep_timing_and_text(cues, notes.drop_last());
    }
}

/// Commands for a session the player no longer wants change nothing: a
/// load of another session is ignored, and a control for a session that is
/// not the loaded, wanted and healthy one is refused.
pub proof fn stale_audio_commands_change_nothing(w: AudioWorker, event: AudioEvent, target: u64)
    requires
        match event {
            AudioEvent::Load(id) => id != target,
            AudioEvent::Control(id) => id != w.loaded || id != target || w.failed,
            _ => false,
        },
    ensures
        on_command_spec(w, event, target).0 == w,
        on_command_spec(w, event, target).1 == AudioAction::Nothing || on_command_spec(
            w,
            event,
            target,
        ).1 == AudioAction::RefuseControl,
{
}

/// Once the loaded session has failed it reports nothing more and accepts
/// no control until a new load of a wanted session clears the failure.
pub proof fn failed_audio_session_stays_failed(w: AudioWorker, event: AudioEvent, target: u64, result: Result<(), String>)
    requires
        w.failed,
    ensures
        on_command_spec(w, event, target).0.failed || (event matches AudioEvent::Load(id) && id
            == target),
        on_command_spec(w, event, target).1 != AudioAction::ApplyControl,
        settle_spec(w, target, result).0.failed,
        settle_spec(w, target, result).1 != Settle::Report,
{
}

/// Of two writers that read the same playlist revision, only the first to
/// commit succeeds: the second is refused, and so is any later write from
/// that revision.
pub proof fn stale_playlist_writes_are_refused(stored: u64, expected: u64)
    requires
        advance_revision_spec(stored, expected) is Ok,
    ensures
        advance_revision_spec(stored, expected) matches Ok(next) && next == expected + 1
            && advance_revision_spec(next, expected) is Err,
{
}

/// A sign-in failure reads back as it was written: the site's name, its
/// sign-in page and the trimmed downloader message.
pub proof fn sign_in_failures_read_back(p: VideoPlatform, stderr: Seq<char>)
    requires
        p.login_url_spec().len() > 0,
    ensures
        login_parts(login_required_text(p, stderr)) == Some(
            (p.display_name_spec(), p.login_url_spec(), trim(stderr)),
        ),
{
    reveal_strlit("LOGIN_REQUIRED:");
    reveal_strlit(":");
    reveal_strlit("哔哩哔哩");
    reveal_strlit("YouTube");
    reveal_strlit("抖音");
    reveal_strlit("腾讯视频");
    reveal_strlit("微信视频号");
    reveal_strlit("通用");
    reveal_strlit("https://passport.bilibili.com/login");
    reveal_strlit("https://accounts.google.com/ServiceLogin?service=youtube");
    reveal_strlit("https://www.douyin.com/login");
    reveal_strlit("https://v.qq.com/");
    reveal_strlit("https://channels.weixin.qq.com/");
    reveal_strlit("");
    let name = p.display_name_spec();
    let url = p.login_url_spec();
    let m = trim(stderr);
    let text = login_required_text(p, stderr);
    let prefix = "LOGIN_REQUIRED:"@;
    assert(text =~= prefix + (name + seq![':'] + (url + ":"@ + m)));
    let rest = text.skip(15);
    assert(rest =~= name + seq![':'] + (url + ":"@ + m));
    assert(crate::text::starts_with(text, prefix)) by {
        assert(text.take(15) =~= prefix);
    }
    assert forall|i: int| 0 <= i < name.len() implies name[i] != ':' by {}
    lemma_index_after(name, ':', url + ":"@ + m);
    let after = rest.skip(name.len() as int + 1);
    assert(after =~= url + ":"@ + m);
    reveal_strlit("https");
    let scheme = "https"@;
    let page = url.skip(6);
    assert(url =~= scheme + seq![':'] + page) by {
        match p {
            VideoPlatform::Bilibili => {},
            VideoPlatform::YouTube => {},
            VideoPlatform::Douyin => {},
            VideoPlatform::TencentVideo => {},
            VideoPlatform::Weixin => {},
            VideoPlatform::Generic => {},
        }
    }
    assert(after =~= scheme + seq![':'] + (page + ":"@ + m));
    assert forall|i: int| 0 <= i < scheme.len() implies scheme[i] != ':' by {}
    lemma_index_after(scheme, ':', page + ":"@ + m);
    let tail = after.skip(6);
    assert(tail =~= page + seq![':'] + m);
    assert forall|i: int| 0 <= i < page.len() implies page[i] != ':' by {}
    lemma_index_after(page, ':', m);
    assert(rest.take(name.len() as int) =~= name);
    assert(after.take(6 + page.len() as int) =~= url);
    assert(tail.skip(page.len() as int + 1) =~= m);
}

/// An extension names at most one kind of media: audio, video for the
/// embedded player, or video that needs probing; a supported file is
/// audio or video.
pub proof fn media_kinds_are_disjoint(e: Option<Seq<char>>)
    ensures
        !(browser_video_ext(e) && external_video_ext(e)),
        video_ext(e) ==> !audio_ext(e),
        video_ext(e) == (browser_video_ext(e) || external_video_ext(e)),
        supported_ext(e) == (audio_ext(e) || video_ext(e)),
{
    reveal_strlit("mp3");
    reveal_strlit("wav");
    reveal_strlit("ogg");
    reveal_strlit("flac");
    reveal_strlit("m4a");
    reveal_strlit("aac");
    reveal_strlit("opus");
    reveal_strlit("mp4");
    reveal_strlit("m4v");
    reveal_strlit("webm");
    reveal_strlit("mkv");
    reveal_strlit("avi");
    reveal_strlit("mov");
    reveal_strlit("flv");
    reveal_strlit("wmv");
    reveal_strlit("ts");
    reveal_strlit("m2ts");
    reveal_strlit("mpg");
    reveal_strlit("mpeg");
    reveal_strlit("3gp");
    let a = audio_extensions();
    let b = browser_video_extensions();
    let x = external_video_extensions();
    assert forall|i: int, j: int| 0 <= i < b.len() && 0 <= j < x.len() implies b[i] != x[j] by {
        assert(b[i].len() != x[j].len() || b[i][0] != x[j][0] || b[i][1] != x[j][1] || b[i][2] != x[j][2] || b[i][b[i].len() - 1] != x[j][x[j].len() - 1]);
    }
    assert forall|i: int, j: int| 0 <= i < b.len() && 0 <= j < a.len() implies b[i] != a[j] by {
        assert(b[i].len() != a[j].len() || b[i][0] != a[j][0] || b[i][1] != a[j][1] || b[i][2] != a[j][2] || b[i][b[i].len() - 1] != a[j][a[j].len() - 1]);
    }
    assert forall|i: int, j: int| 0 <= i < x.len() && 0 <= j < a.len() implies x[i] != a[j] by {
        assert(x[i].len() != a[j].len() || x[i][0] != a[j][0] || x[i][1] != a[j][1] || x[i][x[i].len() - 1] != a[j][a[j].len() - 1]);
    }
}


/// Video identifiers name their resolution: two of them are equal only for
/// the same height.
proof fn video_id_names_its_height(x: Option<u32>, y: Option<u32>)
    requires
        video_id(x) == video_id(y),
    ensures
        x == y,
{
    reveal_strlit("video:");
    reveal_strlit("video:original");
    match (x, y) {
        (Some(a), Some(b)) => {
            assert(video_id(x).skip(6) =~= decimal(a as nat));
            assert(video_id(y).skip(6) =~= decimal(b as nat));
            lemma_decimal_injective(a as nat, b as nat);
        },
        (Some(a), None) => {
            lemma_decimal_shape(a as nat);
            assert(video_id(x)[6] == decimal(a as nat)[0]);
        },
        (None, Some(b)) => {
            lemma_decimal_shape(b as nat);
            assert(video_id(y)[6] == decimal(b as nat)[0]);
        },
        (None, None) => {},
    }
}

/// Every offered video option is named after its own height.
proof fn video_options_name_their_height(t: Seq<Traits>, v: Seq<OptionView>, opts: Seq<OptionView>, k: int)
    requires
        choices_with(t, v, opts),
        0 <= k < v.len(),
    ensures
        v[k].id == video_id(v[k].height),
        v[k].media_type == MediaType::Video,
        !v[k].extract_audio,
        selects_eligible(t, v[k].format_selector),
{
    let w = choose|w: int| chosen(t, w, t.len() as int) && #[trigger] v[k] == video_option(t, w);
    reveal(video_option);
    reveal(chosen);
    assert(video_cand(t, w));
    assert(t[w].eligible);
    match companion(t, w) {
        Some(c) => {
            lemma_best_audio(t, t.len() as int);
            assert(audio_cand(t, c));
            assert(t[c].eligible);
            assert(v[k].format_selector == t[w].id + "+"@ + t[c].id);
        },
        None => {
            assert(v[k].format_selector == t[w].id);
        },
    }
}

/// The download choices are a well-formed menu, whatever the formats: no
/// two share an identifier; the videos come first, from the highest
/// resolution down; only the last, the MP3 conversion, extracts audio; the
/// original audio is offered only when no video is; and every option names
/// only formats that may be offered (none with DRM).
pub proof fn download_choices_are_well_formed(t: Seq<Traits>, opts: Seq<OptionView>)
    requires
        choices(t, opts),
    ensures
        forall|a: int, b: int|
            #![trigger opts[a], opts[b]]
            0 <= a < b < opts.len() ==> opts[a].id != opts[b].id,
        forall|a: int, b: int|
            #![trigger opts[a], opts[b]]
            0 <= a < b < opts.len() && opts[b].media_type == MediaType::Video ==> opts[a].media_type
                == MediaType::Video && height_lt(opts[b].height, opts[a].height),
        forall|k: int|
            0 <= k < opts.len() && #[trigger] opts[k].extract_audio ==> k == opts.len() - 1
                && opts[k].id == "audio:mp3"@,
        forall|k: int, j: int|
            #![trigger opts[k], opts[j]]
            0 <= k < opts.len() && 0 <= j < opts.len() && opts[k].id == "audio:original"@
                ==> opts[j].media_type == MediaType::Audio,
        forall|k: int| 0 <= k < opts.len() ==> selects_eligible(t, #[trigger] opts[k].format_selector),
{
    reveal_strlit("video:");
    reveal_strlit("video:original");
    reveal_strlit("audio:original");
    reveal_strlit("audio:mp3");
    let v = choose|v: Seq<OptionView>| #[trigger] choices_with(t, v, opts);
    assert forall|k: int| 0 <= k < v.len() implies v[k].id == video_id(v[k].height) && v[k].media_type
        == MediaType::Video && !v[k].extract_audio && v[k].id[0] == 'v' && selects_eligible(
        t,
        v[k].format_selector,
    ) by {
        video_options_name_their_height(t, v, opts, k);
    }
    assert forall|k: int| v.len() <= k < opts.len() implies opts[k].media_type == MediaType::Audio
        && opts[k].id[0] == 'a' && (opts[k].extract_audio ==> k == opts.len() - 1 && opts[k].id
        == "audio:mp3"@) && (opts[k].id == "audio:original"@ ==> v.len() == 0) && selects_eligible(
        t,
        opts[k].format_selector,
    ) by {
        lemma_last_where(t.len() as int, |i: int| audio_cand(t, i));
        lemma_last_where(t.len() as int, |i: int| video_cand(t, i) && !t[i].audio_none);
        if let Some(a) = last_audio(t) {
            assert(t[a].eligible);
        }
        if let Some(m) = mp3_source(t) {
            assert(t[m].eligible);
        }
        let with_original = if v.len() == 0 && last_audio(t) is Some {
            v.push(audio_option(t[last_audio(t)->0], "audio:original"@, false))
        } else {
            v
        };
        assert(with_original.len() <= v.len() + 1);
        match mp3_source(t) {
            Some(m) => {
                assert(opts == with_original.push(audio_option(t[m], "audio:mp3"@, true)));
                if k < with_original.len() {
                    assert(with_original.len() == v.len() + 1 && v.len() == 0);
                    assert(opts[k].id == "audio:original"@);
                    assert(opts[k].id != "audio:mp3"@);
                } else {
                    assert(opts[k].id == "audio:mp3"@);
                    assert("audio:mp3"@.len() != "audio:original"@.len());
                }
            },
            None => {
                assert(opts == with_original);
                assert(with_original.len() == v.len() + 1 && v.len() == 0);
            },
        }
    }
    assert forall|k: int| 0 <= k < v.len() implies opts[k] == v[k] by {}
    assert forall|k: int| 0 <= k < opts.len() implies selects_eligible(t, #[trigger] opts[k].format_selector) by {
        if k < v.len() {
            assert(opts[k] == v[k]);
        }
    }
    assert forall|a: int, b: int| #![trigger opts[a], opts[b]] 0 <= a < b < opts.len() implies opts[a].id
        != opts[b].id by {
        if b < v.len() {
            assert(height_lt(v[b].height, v[a].height));
            if opts[a].id == opts[b].id {
                video_id_names_its_height(v[a].height, v[b].height);
            }
        } else if a < v.len() {
            assert(opts[a].id[0] != opts[b].id[0]);
        } else {
            assert(opts[a].id[6] != opts[b].id[6]);
        }
    }
}


/// Undoing a rename puts every file back: a path moved by `moves`, and then
/// by the moves that undo them, is where it started, provided that no move
/// sent a file onto the place where that path stood at the time (a rename
/// never overwrites a file).
pub proof fn undone_renames_restore_paths(path: Seq<char>, moves: Seq<(Seq<char>, Seq<char>)>)
    requires
        forall|k: int|
            0 <= k < moves.len() ==> #[trigger] moves[k].0 != moves[k].1 && moved_path(
                path,
                moves.take(k),
            ) != moves[k].1,
    ensures
        moved_path(moved_path(path, moves), undo_spec(moves)) == path,
    decreases moves.len(),
{
    if moves.len() > 0 {
        let n = moves.len() - 1;
        let rest = moves.drop_last();
        let last = moves[n];
        assert forall|k: int| 0 <= k < rest.len() implies #[trigger] rest[k].0 != rest[k].1 && moved_path(
            path,
            rest.take(k),
        ) != rest[k].1 by {
            assert(rest.take(k) =~= moves.take(k));
            assert(rest[k] == moves[k]);
        }
        undone_renames_restore_paths(path, rest);
        assert(moves.take(n) =~= rest);
        let y = moved_path(path, rest);
        let z = moved_path(path, moves);
        let back = seq![(last.1, last.0)];
        assert(undo_spec(moves) =~= back + undo_spec(rest));
        lemma_moved_path_concat(z, back, undo_spec(rest));
        assert(back.drop_last() =~= Seq::<(Seq<char>, Seq<char>)>::empty());
        assert(moved_path(z, back.drop_last()) == z);
        assert(back.last() == (last.1, last.0));
        assert(z == (if y == last.0 { last.1 } else { y }));
        assert(moves[n].0 != moves[n].1 && y != moves[n].1);
        assert(moved_path(z, back) == y);
    }
}


/// After startup recovery no download is left running or awaiting
/// recovery: each job is either kept, being idle already, or waits
/// interrupted; its identity and attempt stay.
pub proof fn recovery_leaves_no_download_running(jobs: Seq<DownloadJob>, results: Seq<Option<DownloadJob>>)
    requires
        jobs.len() == results.len(),
        forall|i: int| 0 <= i < jobs.len() ==> #[trigger] jobs[i].recovery_of(results[i]),
    ensures
        forall|i: int|
            0 <= i < jobs.len() ==> {
                let after = match #[trigger] results[i] {
                    Some(job) => job,
                    None => jobs[i],
                };
                &&& !after.phase.active()
                &&& after.phase != DownloadPhase::RecoveryRequired
                &&& after.id == jobs[i].id
                &&& after.attempt == jobs[i].attempt
            },
{
    assert forall|i: int| 0 <= i < jobs.len() implies {
        let after = match #[trigger] results[i] {
            Some(job) => job,
            None => jobs[i],
        };
        &&& !after.phase.active()
        &&& after.phase != DownloadPhase::RecoveryRequired
        &&& after.id == jobs[i].id
        &&& after.attempt == jobs[i].attempt
    } by {
        assert(jobs[i].recovery_of(results[i]));
    }
}


proof fn push_members(s: Seq<Cue>, c: Cue)
    ensures
        forall|x: Cue| s.push(c).contains(x) <==> (s.contains(x) || x == c),
{
    assert forall|x: Cue| s.push(c).contains(x) implies (s.contains(x) || x == c) by {
        let i = choose|i: int| 0 <= i < s.push(c).len() && s.push(c)[i] == x;
        if i < s.len() {
            assert(s[i] == x);
        }
    }
    assert forall|x: Cue| (s.contains(x) || x == c) implies s.push(c).contains(x) by {
        if s.contains(x) {
            let i = choose|i: int| 0 <= i < s.len() && s[i] == x;
            assert(s.push(c)[i] == x);
        } else {
            assert(s.push(c)[s.len() as int] == x);
        }
    }
}

proof fn insert_keeps_members(s: Seq<Cue>, c: Cue)
    ensures
        insert_by_start(s, c).len() == s.len() + 1,
        forall|x: Cue| insert_by_start(s, c).contains(x) <==> (s.contains(x) || x == c),
    decreases s.len(),
{
    if s.len() == 0 {
        push_members(s, c);
        assert(s.push(c) =~= seq![c]);
    } else if total_key(s.last().start_bits) <= total_key(c.start_bits) {
        push_members(s, c);
    } else {
        let t = s.drop_last();
        insert_keeps_members(t, c);
        let i = insert_by_start(t, c);
        push_members(i, s.last());
        push_members(t, s.last());
        assert(t.push(s.last()) =~= s);
        assert forall|x: Cue| insert_by_start(s, c).contains(x) <==> (s.contains(x) || x == c) by {
            assert(insert_by_start(s, c) == i.push(s.last()));
            assert(i.push(s.last()).contains(x) <==> (i.contains(x) || x == s.last()));
            assert(i.contains(x) <==> (t.contains(x) || x == c));
            assert(t.push(s.last()).contains(x) <==> (t.contains(x) || x == s.last()));
        }
    }
}

proof fn sorting_keeps_members(cues: Seq<Cue>)
    ensures
        sorted_by_start(cues).len() == cues.len(),
        forall|x: Cue| sorted_by_start(cues).contains(x) <==> cues.contains(x),
    decreases cues.len(),
{
    if cues.len() > 0 {
        let t = cues.drop_last();
        sorting_keeps_members(t);
        let st = sorted_by_start(t);
        insert_keeps_members(st, cues.last());
        push_members(t, cues.last());
        assert(t.push(cues.last()) =~= cues);
        assert forall|x: Cue| sorted_by_start(cues).contains(x) <==> cues.contains(x) by {
            assert(sorted_by_start(cues) == insert_by_start(st, cues.last()));
            assert(insert_by_start(st, cues.last()).contains(x) <==> (st.contains(x) || x == cues.last()));
            assert(st.contains(x) <==> t.contains(x));
            assert(t.push(cues.last()).contains(x) <==> (t.contains(x) || x == cues.last()));
        }
    }
}

proof fn first_invalid_is_invalid(s: Seq<Cue>)
    ensures
        first_invalid(s) matches Some(i) ==> 0 <= i < s.len() && !cue_valid(s[i]),
    decreases s.len(),
{
    if s.len() > 0 {
        first_invalid_is_invalid(s.drop_last());
    }
}

/// A new transcript is refused exactly when it has no cues, too many, or a
/// cue whose timing or text is invalid.
pub proof fn transcript_refusals(cues: Seq<Cue>)
    ensures
        transcript_cues_spec(cues) is Err <==> (cues.len() == 0 || cues.len() > MAX_CUES || exists|i: int|
            0 <= i < cues.len() && !cue_valid(#[trigger] cues[i])),
{
    let s = sorted_by_start(cues);
    sorting_keeps_members(cues);
    first_invalid_is_invalid(s);
    if first_invalid(s) is None {
        crate::learning::lemma_no_invalid(s);
        assert forall|i: int| 0 <= i < cues.len() implies cue_valid(#[trigger] cues[i]) by {
            assert(cues.contains(cues[i]));
            assert(s.contains(cues[i]));
            let j = choose|j: int| 0 <= j < s.len() && s[j] == cues[i];
            assert(cue_valid(s[j]));
        }
    } else {
        let i = first_invalid(s)->0;
        assert(s.contains(s[i]));
        assert(cues.contains(s[i]));
        let j = choose|j: int| 0 <= j < cues.len() && cues[j] == s[i];
        assert(!cue_valid(cues[j]));
    }
}


/// A failed metadata lookup reads back as a sign-in failure exactly when
/// the site has a sign-in page and the output mentions signing in: then
/// with the site's name, its sign-in page and the trimmed output; any other
/// failure is the downloader's message, which is no sign-in failure.
pub proof fn failed_lookups_read_back(url: Seq<char>, stderr: Seq<char>)
    ensures
        ({
            let p = VideoPlatform::from_url_spec(url);
            let l = lowercase(stderr);
            if p.login_url_spec().len() > 0 && (contains(l, "sign in"@) || contains(l, "login"@)
                || contains(l, "log in"@)) {
                login_parts(metadata_failure(url, stderr)) == Some(
                    (p.display_name_spec(), p.login_url_spec(), trim(stderr)),
                )
            } else {
                login_parts(metadata_failure(url, stderr)) is None
            }
        }),
{
    let p = VideoPlatform::from_url_spec(url);
    let l = lowercase(stderr);
    if p.login_url_spec().len() > 0 && (contains(l, "sign in"@) || contains(l, "login"@) || contains(
        l,
        "log in"@,
    )) {
        sign_in_failures_read_back(p, stderr);
    } else {
        reveal_strlit("yt-dlp: ");
        reveal_strlit("LOGIN_REQUIRED:");
        let m = metadata_failure(url, stderr);
        assert(m == "yt-dlp: "@ + trim(stderr));
        assert(m[0] == 'y');
        assert(!crate::text::starts_with(m, "LOGIN_REQUIRED:"@)) by {
            if m.len() >= 15 {
                assert(m.take(15)[0] != "LOGIN_REQUIRED:"@[0]);
            }
        }
    }
}


/// A video file that the browser cannot play as it is, with H.264 or HEVC
/// video and no sound or AAC, MP3 or Opus sound, is remuxed into MP4 (its
/// streams kept); and only H.264 or HEVC video is ever remuxed.
pub proof fn h264_and_hevc_files_are_remuxed(i: InfoView)
    ensures
        (i.video_codec == Some("h264"@) || i.video_codec == Some("hevc"@)) && (i.audio_codec is None
            || i.audio_codec == Some("aac"@) || i.audio_codec == Some("mp3"@) || i.audio_codec
            == Some("opus"@)) ==> remuxable(i),
        remuxable(i) ==> i.video_codec == Some("h264"@) || i.video_codec == Some("hevc"@),
        remuxable(i) ==> i.audio_codec is None || i.audio_codec == Some("aac"@) || i.audio_codec
            == Some("mp3"@) || i.audio_codec == Some("opus"@),
{
}

/// In sequential order, Previous from any entry but the first goes to the
/// entry before it and Next from any entry but the last to the entry after
/// it, so the two undo each other; at the ends there is nowhere to go. In
/// the repeating order they wrap around and also undo each other.
pub proof fn previous_and_next_are_neighbours(len: int, i: int, random: u128)
    requires
        0 <= i < len,
    ensures
        i > 0 ==> next_index(len, Some(i), "sequential"@, true, random) == Some(i - 1),
        i + 1 < len ==> next_index(len, Some(i), "sequential"@, false, random) == Some(i + 1),
        i == 0 ==> next_index(len, Some(i), "sequential"@, true, random) is None,
        i + 1 == len ==> next_index(len, Some(i), "sequential"@, false, random) is None,
        next_index(len, Some(i), "repeat_all"@, true, random) matches Some(p) && 0 <= p < len
            && next_index(len, Some(p), "repeat_all"@, false, random) == Some(i),
        next_index(len, Some(i), "repeat_all"@, false, random) matches Some(n) && 0 <= n < len
            && next_index(len, Some(n), "repeat_all"@, true, random) == Some(i),
        forall|mode: Seq<char>| #[trigger] next_index(len, None, mode, false, random) == Some(0int),
        forall|mode: Seq<char>| #[trigger] next_index(len, None, mode, true, random) == Some(len - 1),
{
    reveal_strlit("sequential");
    reveal_strlit("repeat_one");
    reveal_strlit("random");
    reveal_strlit("repeat_all");
    assert("sequential"@[0] != "repeat_one"@[0]);
    assert("sequential"@[0] != "random"@[0]);
    assert("sequential"@[0] != "repeat_all"@[0]);
    assert("repeat_all"@[7] != "repeat_one"@[7]);
    assert("repeat_all"@[2] != "random"@[2]);
    let p = (i + (len - 1)) % len;
    let n = (i + 1) % len;
    assert(p == if i == 0 { len - 1 } else { i - 1 }) by (nonlinear_arith)
        requires 0 <= i < len, p == (i + (len - 1)) % len;
    assert(n == if i + 1 == len { 0 } else { i + 1 }) by (nonlinear_arith)
        requires 0 <= i < len, n == (i + 1) % len;
    assert((p + 1) % len == i) by (nonlinear_arith)
        requires 0 <= i < len, p == if i == 0 { len - 1 } else { i - 1 };
    assert((n + (len - 1)) % len == i) by (nonlinear_arith)
        requires 0 <= i < len, n == if i + 1 == len { 0 } else { i + 1 };
}

/// A link is taken for the site whose domain it names, whatever its case:
/// Bilibili for "bilibili.com" or its short links "b23.tv"; YouTube for
/// "youtube.com" or "youtu.be" unless it names Bilibili; a link that names
/// none of the known domains is generic.
pub proof fn links_name_their_site(url: Seq<char>)
    ensures
        contains(lowercase(url), "bilibili.com"@) || contains(lowercase(url), "b23.tv"@)
            ==> VideoPlatform::from_url_spec(url) == VideoPlatform::Bilibili,
        !(contains(lowercase(url), "bilibili.com"@) || contains(lowercase(url), "b23.tv"@))
            && (contains(lowercase(url), "youtube.com"@) || contains(lowercase(url), "youtu.be"@))
            ==> VideoPlatform::from_url_spec(url) == VideoPlatform::YouTube,
        VideoPlatform::from_url_spec(url) == VideoPlatform::Bilibili ==> contains(lowercase(url),
            "bilibili.com"@) || contains(lowercase(url), "b23.tv"@),
        !contains(lowercase(url), "bilibili.com"@) && !contains(lowercase(url), "b23.tv"@)
            && !contains(lowercase(url), "youtube.com"@) && !contains(lowercase(url), "youtu.be"@)
            && (contains(lowercase(url), "douyin.com"@) || contains(lowercase(url), "iesdouyin.com"@))
            ==> VideoPlatform::from_url_spec(url) == VideoPlatform::Douyin,
        !contains(lowercase(url), "bilibili.com"@) && !contains(lowercase(url), "b23.tv"@)
            && !contains(lowercase(url), "youtube.com"@) && !contains(lowercase(url), "youtu.be"@)
            && !contains(lowercase(url), "douyin.com"@) && !contains(lowercase(url), "iesdouyin.com"@)
            && (contains(lowercase(url), "v.qq.com"@) || contains(lowercase(url), "qq.com/x/cover"@))
            ==> VideoPlatform::from_url_spec(url) == VideoPlatform::TencentVideo,
        !contains(lowercase(url), "bilibili.com"@) && !contains(lowercase(url), "b23.tv"@)
            && !contains(lowercase(url), "youtube.com"@) && !contains(lowercase(url), "youtu.be"@)
            && !contains(lowercase(url), "douyin.com"@) && !contains(lowercase(url), "iesdouyin.com"@)
            && !contains(lowercase(url), "v.qq.com"@) && !contains(lowercase(url), "qq.com/x/cover"@)
            && (contains(lowercase(url), "channels.weixin.qq.com"@) || contains(
            lowercase(url),
            "finder.video.qq.com"@,
        )) ==> VideoPlatform::from_url_spec(url) == VideoPlatform::Weixin,
        !contains(lowercase(url), "bilibili.com"@) && !contains(lowercase(url), "b23.tv"@)
            && !contains(lowercase(url), "youtube.com"@) && !contains(lowercase(url), "youtu.be"@)
            && !contains(lowercase(url), "douyin.com"@) && !contains(lowercase(url), "iesdouyin.com"@)
            && !contains(lowercase(url), "v.qq.com"@) && !contains(lowercase(url), "qq.com/x/cover"@)
            && !contains(lowercase(url), "channels.weixin.qq.com"@) && !contains(
            lowercase(url),
            "finder.video.qq.com"@,
        ) ==> VideoPlatform::from_url_spec(url) == VideoPlatform::Generic,
        VideoPlatform::Bilibili.referer_spec() == Some("https://www.bilibili.com/"@),
        VideoPlatform::Bilibili.login_url_spec() == "https://passport.bilibili.com/login"@,
{
}

/// Where the `k`-th of `lines` starts in their text joined with line feeds.
pub open spec fn line_offset(lines: Seq<Seq<char>>, k: int) -> int
    decreases k,
{
    if k <= 0 {
        0
    } else {
        line_offset(lines, k - 1) + lines[k - 1].len() + 1
    }
}

proof fn joined_length(lines: Seq<Seq<char>>)
    requires
        lines.len() > 0,
    ensures
        join_lines(lines).len() == line_offset(lines, lines.len() as int) - 1,
    decreases lines.len(),
{
    if lines.len() > 1 {
        let t = lines.drop_last();
        joined_length(t);
        lemma_offsets_agree(t, lines, t.len() as int);
    } else {
        assert(line_offset(lines, 0) == 0);
    }
}

proof fn joined_line_at(lines: Seq<Seq<char>>, k: int)
    requires
        0 <= k < lines.len(),
    ensures
        line_offset(lines, k) + lines[k].len() <= join_lines(lines).len(),
        join_lines(lines).subrange(line_offset(lines, k), line_offset(lines, k) + lines[k].len())
            == lines[k],
        k < lines.len() - 1 ==> join_lines(lines)[line_offset(lines, k) + lines[k].len()] == '\n',
    decreases lines.len(),
{
    let whole = join_lines(lines);
    if lines.len() == 1 {
        assert(line_offset(lines, 0) == 0);
        assert(whole.subrange(0, lines[0].len() as int) =~= lines[0]);
    } else {
        let t = lines.drop_last();
        let j = join_lines(t);
        assert(whole == j + seq!['\n'] + lines.last());
        joined_length(t);
        lemma_offsets_agree(t, lines, t.len() as int);
        if k == lines.len() - 1 {
            assert(line_offset(lines, k) == j.len() + 1);
            assert(whole.subrange(line_offset(lines, k), line_offset(lines, k) + lines[k].len())
                =~= lines.last());
        } else {
            joined_line_at(t, k);
            lemma_offsets_agree(t, lines, k);
            lemma_offset_nonneg(t, k);
            assert(t[k] == lines[k]);
            assert(whole.subrange(line_offset(lines, k), line_offset(lines, k) + lines[k].len())
                =~= j.subrange(line_offset(t, k), line_offset(t, k) + t[k].len()));
            if k < t.len() - 1 {
                joined_line_at(t, k + 1);
                assert(line_offset(t, k + 1) == line_offset(t, k) + t[k].len() + 1);
                assert(whole[line_offset(lines, k) + lines[k].len()] == j[line_offset(t, k) + t[k].len()]);
            } else {
                lemma_offsets_agree(t, lines, k + 1);
                assert(line_offset(lines, k) + lines[k].len() == j.len());
            }
        }
    }
}

proof fn joined_lines_hold_every_line(lines: Seq<Seq<char>>)
    requires
        lines.len() > 0,
    ensures
        join_lines(lines).len() == line_offset(lines, lines.len() as int) - 1,
        forall|k: int|
            0 <= k < lines.len() ==> join_lines(lines).subrange(
                line_offset(lines, k),
                line_offset(lines, k) + lines[k].len(),
            ) == #[trigger] lines[k],
        forall|k: int|
            0 <= k < lines.len() - 1 ==> join_lines(lines)[line_offset(lines, k) + #[trigger] lines[k].len()]
                == '\n',
{
    joined_length(lines);
    assert forall|k: int| 0 <= k < lines.len() implies join_lines(lines).subrange(
        line_offset(lines, k),
        line_offset(lines, k) + lines[k].len(),
    ) == #[trigger] lines[k] by {
        joined_line_at(lines, k);
    }
    assert forall|k: int| 0 <= k < lines.len() - 1 implies join_lines(lines)[line_offset(lines, k)
        + #[trigger] lines[k].len()] == '\n' by {
        joined_line_at(lines, k);
    }
}

proof fn lemma_offset_nonneg(lines: Seq<Seq<char>>, k: int)
    requires
        0 <= k,
    ensures
        line_offset(lines, k) >= k,
    decreases k,
{
    if k > 0 {
        lemma_offset_nonneg(lines, k - 1);
    }
}

proof fn lemma_offsets_agree(t: Seq<Seq<char>>, lines: Seq<Seq<char>>, k: int)
    requires
        t.len() <= lines.len(),
        forall|i: int| 0 <= i < t.len() ==> t[i] == lines[i],
        0 <= k <= t.len(),
    ensures
        line_offset(t, k) == line_offset(lines, k),
    decreases k,
{
    if k > 0 {
        lemma_offsets_agree(t, lines, k - 1);
    }
}

proof fn vtt_cues_count(items: Seq<Option<((u8, u8, u8, u16), (u8, u8, u8, u16), Seq<Seq<char>>)>>, k: int)
    requires
        0 <= k <= items.len(),
    ensures
        vtt_cues(items.take(k)).len() <= vtt_cues(items).len(),
        vtt_cues(items.take(k)) == vtt_cues(items).take(vtt_cues(items.take(k)).len() as int),
    decreases items.len() - k,
{
    if k == items.len() {
        assert(items.take(k) =~= items);
        assert(vtt_cues(items).take(vtt_cues(items).len() as int) =~= vtt_cues(items));
    } else {
        vtt_cues_count(items, k + 1);
        let a = items.take(k);
        let b = items.take(k + 1);
        assert(b.drop_last() =~= a);
        let va = vtt_cues(a);
        let vb = vtt_cues(b);
        assert(vb.take(va.len() as int) =~= va);
        assert(vtt_cues(items).take(va.len() as int) =~= vb.take(va.len() as int));
    }
}

/// WebVTT cues are read as SubRip cues are: each cue block, in order, gives
/// one cue with its own times, and its text holds every payload line, one
/// after another with a line feed between them and nothing else; blocks
/// that are no cues give nothing.
pub proof fn webvtt_cues_keep_every_line(
    items: Seq<Option<((u8, u8, u8, u16), (u8, u8, u8, u16), Seq<Seq<char>>)>>,
    k: int,
)
    requires
        0 <= k < items.len(),
        items[k] is Some,
    ensures
        ({
            let b = items[k]->0;
            let n = vtt_cues(items.take(k)).len() as int;
            let cue = vtt_cues(items)[n];
            &&& n < vtt_cues(items).len()
            &&& cue.0 == b.0
            &&& cue.1 == b.1
            &&& cue.2 == joined_block(b).2
            &&& (b.2.len() > 0 ==> {
                &&& cue.2.len() == line_offset(b.2, b.2.len() as int) - 1
                &&& forall|j: int|
                    0 <= j < b.2.len() ==> cue.2.subrange(
                        line_offset(b.2, j),
                        line_offset(b.2, j) + b.2[j].len(),
                    ) == #[trigger] b.2[j]
                &&& forall|j: int|
                    0 <= j < b.2.len() - 1 ==> cue.2[line_offset(b.2, j) + #[trigger] b.2[j].len()]
                        == '\n'
            })
            &&& (b.2.len() == 0 ==> cue.2.len() == 0)
        }),
        items[k] is None ==> vtt_cues(items.take(k + 1)) == vtt_cues(items.take(k)),
{
    let b = items[k]->0;
    let a = items.take(k);
    let c = items.take(k + 1);
    assert(c.drop_last() =~= a);
    assert(c.last() == items[k]);
    vtt_cues_count(items, k + 1);
    let n = vtt_cues(a).len() as int;
    assert(vtt_cues(c) == vtt_cues(a) + seq![joined_block(b)]);
    assert(vtt_cues(c)[n] == joined_block(b));
    assert(vtt_cues(items)[n] == vtt_cues(c)[n]);
    if b.2.len() > 0 {
        joined_lines_hold_every_line(b.2);
    }
}

/// The scan collects every regular file inside the download directory, not
/// passed over, whose lower-cased extension is a media extension (audio:
/// mp3 wav ogg flac m4a aac opus; browser video: mp4 m4v webm; other video:
/// mkv avi mov flv wmv ts m2ts mpg mpeg 3gp), and collects nothing else.
pub proof fn scans_collect_every_media_file(
    at_root: bool,
    name: Option<Seq<char>>,
    is_symlink: bool,
    inside: bool,
    is_dir: bool,
    is_file: bool,
    extension: Option<Seq<char>>,
)
    ensures
        ({
            let media = extension matches Some(e) && {
                let x = lowercase(e);
                ||| x == "mp3"@ || x == "wav"@ || x == "ogg"@ || x == "flac"@ || x == "m4a"@
                ||| x == "aac"@ || x == "opus"@ || x == "mp4"@ || x == "m4v"@ || x == "webm"@
                ||| x == "mkv"@ || x == "avi"@ || x == "mov"@ || x == "flv"@ || x == "wmv"@
                ||| x == "ts"@ || x == "m2ts"@ || x == "mpg"@ || x == "mpeg"@ || x == "3gp"@
            };
            (scan_step_spec(at_root, name, is_symlink, inside, is_dir, is_file, extension)
                == ScanStep::Collect) <==> (!passed_over(at_root, name, is_symlink) && inside
                && !is_dir && is_file && media)
        }),
        (scan_step_spec(at_root, name, is_symlink, inside, is_dir, is_file, extension)
            == ScanStep::Descend) <==> (!passed_over(at_root, name, is_symlink) && inside && is_dir),
        passed_over(at_root, name, is_symlink) <==> (is_symlink || (at_root && (name == Some(
            "downloading"@,
        ) || name == Some("remux"@)))),
{
    reveal_strlit("mp3");
    reveal_strlit("wav");
    reveal_strlit("ogg");
    reveal_strlit("flac");
    reveal_strlit("m4a");
    reveal_strlit("aac");
    reveal_strlit("opus");
    reveal_strlit("mp4");
    reveal_strlit("m4v");
    reveal_strlit("webm");
    reveal_strlit("mkv");
    reveal_strlit("avi");
    reveal_strlit("mov");
    reveal_strlit("flv");
    reveal_strlit("wmv");
    reveal_strlit("ts");
    reveal_strlit("m2ts");
    reveal_strlit("mpg");
    reveal_strlit("mpeg");
    reveal_strlit("3gp");
    let a = audio_extensions();
    let b = browser_video_extensions();
    let x = external_video_extensions();
    assert(a[0] == "mp3"@ && a[1] == "wav"@ && a[2] == "ogg"@ && a[3] == "flac"@ && a[4] == "m4a"@
        && a[5] == "aac"@ && a[6] == "opus"@);
    assert(b[0] == "mp4"@ && b[1] == "m4v"@ && b[2] == "webm"@);
    assert(x[0] == "mkv"@ && x[1] == "avi"@ && x[2] == "mov"@ && x[3] == "flv"@ && x[4] == "wmv"@
        && x[5] == "ts"@ && x[6] == "m2ts"@ && x[7] == "mpg"@ && x[8] == "mpeg"@ && x[9] == "3gp"@);
}


/// The MP4 copy that a remux makes plays in the browser: the same streams
/// in an "mp4" container are browser-native. WebM files with VP8, VP9 or
/// AV1 video and Opus, Vorbis or no sound play as they are.
pub proof fn remuxed_copies_play_in_the_browser(i: InfoView)
    ensures
        remuxable(i) ==> browser_native(InfoView { container: Some("mp4"@), ..i }),
        i.container == Some("webm"@) && (i.video_codec == Some("vp8"@) || i.video_codec == Some(
            "vp9"@,
        ) || i.video_codec == Some("av1"@)) && (i.audio_codec is None || i.audio_codec == Some(
            "opus"@,
        ) || i.audio_codec == Some("vorbis"@)) ==> browser_native(i),
{
    reveal_strlit("mp4");
    reveal_strlit("webm");
    reveal_strlit("h264");
    reveal_strlit("hevc");
    reveal_strlit("aac");
    reveal_strlit("mp3");
    reveal_strlit("opus");
    reveal_strlit("vp8");
    reveal_strlit("vp9");
    reveal_strlit("av1");
    reveal_strlit("vorbis");
    reveal_strlit("");
    let m = "mp4"@;
    assert(crate::online::index_of(m, ',') is None) by {
        let m3 = m.drop_first().drop_first().drop_first();
        assert(m3.len() == 0);
        assert(crate::online::index_of(m3, ',') is None);
        assert(m.drop_first().drop_first()[0] == '4');
        assert(m.drop_first().drop_first().drop_first() == m3);
        assert(crate::online::index_of(m.drop_first().drop_first(), ',') is None);
        assert(m.drop_first()[0] == 'p');
        assert(m[0] == 'm');
        assert(crate::online::index_of(m.drop_first(), ',') is None);
    }
    assert(split_commas(m) == seq![m]);
    assert(crate::text::leading_space(m) == 0);
    assert(crate::text::trailing_space(m) == 0);
    assert(m.skip(0) =~= m);
    assert(m.take(3) =~= m);
    assert(trim(m) == m);
    assert(split_commas(m)[0] == m);
    assert(mp4_family(m));
    assert(!contains(m, "webm"@)) by {
        assert forall|k: int| !#[trigger] crate::text::occurs_at(m, "webm"@, k) by {}
    }
    assert(crate::text::occurs_at("webm"@, "webm"@, 0)) by {
        assert("webm"@.subrange(0, 4) =~= "webm"@);
    }
}


/// A subtitle cue keeps its block's times, and its text holds every line
/// of the block, one after another with a line feed between them and
/// nothing else; a block without lines gives an empty text. SubRip cues
/// are read this way, and so are WebVTT cues.
pub proof fn cue_text_holds_every_line(b: ((u8, u8, u8, u16), (u8, u8, u8, u16), Seq<Seq<char>>))
    ensures
        joined_block(b).0 == b.0,
        joined_block(b).1 == b.1,
        b.2.len() > 0 ==> {
            let text = joined_block(b).2;
            &&& text.len() == line_offset(b.2, b.2.len() as int) - 1
            &&& forall|j: int|
                0 <= j < b.2.len() ==> text.subrange(line_offset(b.2, j), line_offset(b.2, j)
                    + b.2[j].len()) == #[trigger] b.2[j]
            &&& forall|j: int|
                0 <= j < b.2.len() - 1 ==> text[line_offset(b.2, j) + #[trigger] b.2[j].len()]
                    == '\n'
        },
        b.2.len() == 0 ==> joined_block(b).2.len() == 0,
{
    if b.2.len() > 0 {
        joined_lines_hold_every_line(b.2);
    }
}

} // verus!
