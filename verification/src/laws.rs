//! Properties that hold across the library's operations.
use vstd::prelude::*;
use crate::formats::{
    compress_format_alias, name_or_empty, numeric_split_volume_number, rar_part_number,
    spec_normalize_compress_format,
};
use crate::names::{
    sanitize_char, sanitized, spec_archive_output_folder_name, spec_sanitize_path_segment,
};
use crate::paths::{file_name, join_all, normal_pieces, path_pieces};
use crate::entries::normal_names;
use crate::task::{
    cancel_effect, finish_effect, pause_effect, reported_completed_bytes, resume_effect,
    same_counts, spec_wait_decision, ExtractTaskError, ExtractTaskState, TaskKind, TaskStatus,
    WaitDecision,
};
use crate::text::{
    all_digits, ascii_lower, decimal, digit_char, digit_value, digits_value, ends_with, is_digit,
    last_index_of, last_index_of_before, lower_char, parse_unsigned, rsplit_once, split, trim,
    trim_end_char,
};
use crate::volumes::{decimal3, spec_is_numbered_volume_of};
use crate::compress::spec_check_compress_request;
use crate::commands::{
    spec_conflict_action, spec_normalize_extract_conflict_strategy, ConflictAction,
    ExtractConflictStrategy,
};
use crate::names::{first_suffix, folder_suffixes, spec_sanitize_archive_name};
use crate::formats::compressed_tar_format;
use crate::contents::ArchiveEntry;
use crate::listing::{listing_detail_at, listing_entry_matches, listing_matches, listing_rows};
use crate::text::{lines, words};
use crate::entries::{hidden_piece, spec_archive_entry_is_executable, unsafe_piece};
use crate::text::replace_char;
use crate::formats::{spec_archive_format, spec_single_stream_decompress_command};
use crate::text::{trim_end, trim_start};
use crate::plans::{spec_compress_entry, TaskEntryView};
use crate::sources::{spec_is_ds_store_path, spec_is_macos_metadata_path};
use crate::task::{byte_cap, compress_line_effect, min_u64, min_usize, sat_add, sat_add_usize};

verus! {

// ---------------------------------------------------------------------------
// Tasks
// ---------------------------------------------------------------------------

/// A task that has ended stays as it is, whatever is asked of it: pausing, resuming and
/// canceling change nothing and name no process.
pub proof fn law_finished_task_ignores_requests(
    s: ExtractTaskState,
    s1: ExtractTaskState,
    kind: TaskKind,
    pid: Option<u32>,
)
    requires
        s.finished(),
        pause_effect(s, s1, kind, pid) || resume_effect(s, s1, kind, pid) || cancel_effect(
            s,
            s1,
            kind,
            pid,
        ),
    ensures
        s1 == s,
        pid is None,
{
}

/// Canceling wins over pausing and resuming: once a running task is asked to cancel, a later
/// request to pause or to resume it still leaves its worker stopping.
pub proof fn law_cancel_survives_pause_and_resume(
    s0: ExtractTaskState,
    s1: ExtractTaskState,
    s2: ExtractTaskState,
    kind: TaskKind,
    p1: Option<u32>,
    p2: Option<u32>,
)
    requires
        !s0.finished(),
        cancel_effect(s0, s1, kind, p1),
        pause_effect(s1, s2, kind, p2) || resume_effect(s1, s2, kind, p2),
    ensures
        spec_wait_decision(s1) == WaitDecision::Cancel,
        spec_wait_decision(s2) == WaitDecision::Cancel,
{
}

/// Pausing a running task that is not being canceled makes its worker wait, and resuming it
/// lets the worker go on, with its counts as they were.
pub proof fn law_pause_then_resume(
    s0: ExtractTaskState,
    s1: ExtractTaskState,
    s2: ExtractTaskState,
    kind: TaskKind,
    p1: Option<u32>,
    p2: Option<u32>,
)
    requires
        !s0.finished(),
        !s0.cancel_requested,
        pause_effect(s0, s1, kind, p1),
        resume_effect(s1, s2, kind, p2),
    ensures
        spec_wait_decision(s1) == WaitDecision::Wait,
        spec_wait_decision(s2) == WaitDecision::Proceed,
        s2.status == TaskStatus::Running,
        same_counts(s2, s0),
        p2 == p1,
{
}

/// What a task reports never exceeds its totals: no more items than it has and no more
/// bytes than its total.
pub proof fn law_reported_progress_within_totals(s: ExtractTaskState)
    requires
        s.wf(),
    ensures
        s.completed <= s.total,
        reported_completed_bytes(s) <= s.total_bytes,
{
}

/// A task that ends well (and was not canceled) reports every item and every byte as done.
pub proof fn law_completed_task_reports_everything(
    s0: ExtractTaskState,
    s1: ExtractTaskState,
    kind: TaskKind,
)
    requires
        s0.status != TaskStatus::Canceled,
        finish_effect(s0, s1, kind, Ok::<(), ExtractTaskError>(())),
    ensures
        s1.status == TaskStatus::Completed,
        s1.completed == s1.total,
        reported_completed_bytes(s1) == s1.total_bytes,
{
}

/// Requests to pause, resume or cancel never end a task that is still running: it stays
/// paused, running or canceling until its worker finishes it.
pub proof fn law_requests_never_end_a_task(
    s: ExtractTaskState,
    s1: ExtractTaskState,
    kind: TaskKind,
    pid: Option<u32>,
)
    requires
        !s.finished(),
        pause_effect(s, s1, kind, pid) || resume_effect(s, s1, kind, pid) || cancel_effect(
            s,
            s1,
            kind,
            pid,
        ),
    ensures
        !s1.finished(),
{
}

/// However a run ends (done, canceled or failed), finishing a task leaves it ended. A run that
/// failed or was canceled ends so, with no process attached. A run that was done ends completed,
/// with every item and byte counted, nothing current and no process attached, unless the task
/// had already been marked canceled: then it stays as it was. A failed task's error is its
/// message.
pub proof fn law_finished_run_is_settled(
    s: ExtractTaskState,
    s1: ExtractTaskState,
    kind: TaskKind,
    outcome: Result<(), ExtractTaskError>,
)
    requires
        finish_effect(s, s1, kind, outcome),
    ensures
        s1.finished(),
        outcome is Err ==> s1.child_pid is None,
        outcome is Ok && s.status != TaskStatus::Canceled ==> s1.status == TaskStatus::Completed
            && s1.child_pid is None,
        outcome is Ok && s.status == TaskStatus::Canceled ==> s1 == s,
        s.child_pid is None ==> s1.child_pid is None,
        outcome matches Err(ExtractTaskError::Canceled) ==> s1.status == TaskStatus::Canceled,
        outcome matches Err(ExtractTaskError::Failed(_)) ==> s1.status == TaskStatus::Failed,
        s1.status == TaskStatus::Completed ==> {
            &&& s1.completed == s1.total
            &&& s1.completed_bytes == s1.total_bytes
            &&& s1.current_bytes == 0
            &&& s1.current_item@.len() == 0
        },
        s1.status == TaskStatus::Failed ==> (s1.error matches Some(e) && e@ == s1.message@),
{
}

/// Finishing a task that has not ended yet, or whose process was detached, leaves it ended
/// with no process attached, whatever the outcome.
pub proof fn law_settled_run_has_no_process(
    s: ExtractTaskState,
    s1: ExtractTaskState,
    kind: TaskKind,
    outcome: Result<(), ExtractTaskError>,
)
    requires
        !s.finished() || s.child_pid is None,
        finish_effect(s, s1, kind, outcome),
    ensures
        s1.finished(),
        s1.child_pid is None,
{
}

// ---------------------------------------------------------------------------
// Names
// ---------------------------------------------------------------------------

/// A sanitized path segment holds none of `/ \ : * ? " < > |` and is not blank.
pub proof fn law_sanitized_segment_is_safe(v: Seq<char>)
    ensures
        forall|i: int|
            0 <= i < spec_sanitize_path_segment(v).len() ==> sanitize_char(
                #[trigger] spec_sanitize_path_segment(v)[i],
            ) == spec_sanitize_path_segment(v)[i],
        trim(spec_sanitize_path_segment(v)).len() > 0,
{
    reveal_strlit("archive");
    if trim(sanitized(v)).len() == 0 {
        let a = "archive"@;
        assert(a.len() > 0 && !crate::text::is_ws(a[0]) && !crate::text::is_ws(a.last()));
        lemma_trim_keeps_nonspace_ends(a);
    }
}

/// A sequence whose first and last characters are not whitespace is its own trim.
proof fn lemma_trim_keeps_nonspace_ends(a: Seq<char>)
    requires
        a.len() > 0,
        !crate::text::is_ws(a[0]),
        !crate::text::is_ws(a.last()),
    ensures
        trim(a) == a,
{
}

/// Sanitizing a segment twice gives what sanitizing it once gives.
pub proof fn law_sanitize_idempotent(v: Seq<char>)
    ensures
        spec_sanitize_path_segment(spec_sanitize_path_segment(v)) == spec_sanitize_path_segment(v),
{
    law_sanitized_segment_is_safe(v);
    let s = spec_sanitize_path_segment(v);
    assert(sanitized(s) =~= s);
}

// ---------------------------------------------------------------------------
// Formats
// ---------------------------------------------------------------------------

/// RAR archives are only extracted: no format name normalizes to RAR.
pub proof fn law_rar_is_never_created(format: Seq<char>)
    ensures
        spec_normalize_compress_format(format) != Ok::<Seq<char>, Seq<char>>("RAR"@),
{
    reveal_strlit("RAR");
    reveal_strlit("ZIP");
    reveal_strlit("7Z");
    reveal_strlit("TAR");
    reveal_strlit("TGZ");
    reveal_strlit("TBZ");
    reveal_strlit("TXZ");
    reveal_strlit("GZ");
    reveal_strlit("BZ2");
    reveal_strlit("XZ");
    reveal_strlit("Z");
    reveal_strlit("ZSTD");
    reveal_strlit("LZMA");
    reveal_strlit("LZMA2");
    reveal_strlit("LZ4");
    let u = crate::text::unicode_uppercase(trim(format));
    if let Some(f) = compress_format_alias(u) {
        if f == "RAR"@ {
            assert(f.len() == 3 && f[0] == 'R' && f[1] == 'A');
            assert(false);
        }
    }
}

// ---------------------------------------------------------------------------
// Output folders of split archives
// ---------------------------------------------------------------------------

/// `str::split` of a text without the separator is the text itself.
proof fn lemma_split_without_separator(s: Seq<char>, c: char)
    requires
        !s.contains(c),
    ensures
        split(s, c) == seq![s],
    decreases s.len(),
{
    if s.len() > 0 {
        assert(!s.drop_last().contains(c)) by {
            if s.drop_last().contains(c) {
                let k = choose|k: int| 0 <= k < s.drop_last().len() && s.drop_last()[k] == c;
                assert(s[k] == c);
            }
        }
        lemma_split_without_separator(s.drop_last(), c);
        assert(s.last() != c) by {
            assert(s[s.len() - 1] == s.last());
        }
        assert(s.drop_last().push(s.last()) =~= s);
    } else {
        assert(s =~= Seq::<char>::empty());
    }
}

/// The name of a file in the current folder is its own file name.
proof fn lemma_file_name_of_plain_name(p: Seq<char>)
    requires
        !p.contains('/'),
        p.len() > 2,
    ensures
        file_name(p) == Some(p),
        name_or_empty(p) == p,
{
    lemma_split_without_separator(p, '/');
    assert(seq![p].drop_last() =~= Seq::<Seq<char>>::empty());
    assert(normal_pieces(seq![p]) == seq![p]) by {
        assert(normal_pieces(Seq::<Seq<char>>::empty()) == Seq::<Seq<char>>::empty());
        assert(p != seq!['.']);
        assert(Seq::<Seq<char>>::empty().push(p) =~= seq![p]);
    }
    assert(path_pieces(p) == seq![p]);
    assert(p != seq!['.', '.']);
}

/// A numbered volume of an archive (the archive's name, a dot and three digits, in the
/// current folder or any other) is extracted into the folder that the archive itself is.
pub proof fn law_numbered_volume_folder(n: Seq<char>, d: Seq<char>)
    requires
        !n.contains('/'),
        d.len() == 3,
        all_digits(d),
    ensures
        spec_archive_output_folder_name(n + seq!['.'] + d) == spec_archive_output_folder_name(n),
{
    reveal_strlit(".rar");
    let p = n + seq!['.'] + d;
    assert(!p.contains('/')) by {
        if p.contains('/') {
            let k = choose|k: int| 0 <= k < p.len() && p[k] == '/';
            if k < n.len() {
                assert(n[k] == '/');
            } else if k > n.len() {
                assert(is_digit(d[k - n.len() - 1]));
            }
        }
    }
    lemma_file_name_of_plain_name(p);
    let lower = ascii_lower(p);
    let m = n.len() as int;
    assert(is_digit(d[0]) && is_digit(d[1]) && is_digit(d[2]));
    assert(lower[m] == '.');
    assert(lower[m + 1] == d[0] && lower[m + 2] == d[1] && lower[m + 3] == d[2]);
    assert(rar_part_number(lower) is None) by {
        if ends_with(lower, ".rar"@) {
            assert(lower.skip(lower.len() - 4)[3] == 'r');
        }
    }
    assert(last_index_of(lower, '.') == m) by {
        assert(last_index_of_before(lower, '.', m + 1) == m);
        assert(last_index_of_before(lower, '.', m + 2) == m);
        assert(last_index_of_before(lower, '.', m + 3) == m);
        assert(last_index_of_before(lower, '.', m + 4) == m);
    }
    let base = lower.take(m);
    let ext = lower.skip(m + 1);
    assert(ext =~= d);
    assert(rsplit_once(lower, '.') == Some((base, ext)));
    assert(crate::text::digits_value(d) <= 999) by {
        let d1 = d.drop_last();
        let d2 = d1.drop_last();
        assert(crate::text::digit_value(d[0]) <= 9 && crate::text::digit_value(d[1]) <= 9
            && crate::text::digit_value(d[2]) <= 9);
        assert(d2.drop_last() =~= Seq::<char>::empty());
        assert(d2.last() == d[0] && d1.last() == d[1] && d.last() == d[2]);
        assert(crate::text::digits_value(d2.drop_last()) == 0);
        assert(crate::text::digits_value(d2) == crate::text::digit_value(d[0]));
        assert(crate::text::digits_value(d1) == crate::text::digits_value(d2) * 10
            + crate::text::digit_value(d[1]));
        assert(crate::text::digits_value(d) == crate::text::digits_value(d1) * 10
            + crate::text::digit_value(d[2]));
    }
    assert(d[0] != '+');
    assert(parse_unsigned(d, u32::MAX as nat) == Some(crate::text::digits_value(d)));
    assert(numeric_split_volume_number(lower) == Some((base, crate::text::digits_value(d))));
    assert(p.take(base.len() as int) =~= n);
}


// ---------------------------------------------------------------------------
// Volumes
// ---------------------------------------------------------------------------

proof fn lemma_three_digits_value(x: char, y: char, z: char)
    ensures
        digits_value(seq![x, y, z]) == (digit_value(x) * 10 + digit_value(y)) * 10 + digit_value(z),
{
    let s = seq![x, y, z];
    assert(s.drop_last() =~= seq![x, y]);
    assert(seq![x, y].drop_last() =~= seq![x]);
    assert(seq![x].drop_last() =~= Seq::<char>::empty());
    assert(digits_value(Seq::<char>::empty()) == 0);
    assert(seq![x].last() == x);
    assert(digits_value(seq![x]) == digits_value(Seq::<char>::empty()) * 10 + digit_value(x));
    assert(digits_value(seq![x]) == digit_value(x));
    assert(digits_value(seq![x, y]) == digit_value(x) * 10 + digit_value(y));
}

proof fn lemma_digit_char(k: nat)
    requires
        k < 10,
    ensures
        digit_value(digit_char(k)) == k,
        is_digit(digit_char(k)),
{
}

proof fn lemma_decimal3_digits(index: nat)
    requires
        1 <= index <= 999,
    ensures
        decimal3(index).len() == 3,
        all_digits(decimal3(index)),
        digits_value(decimal3(index)) == index,
{
    reveal_with_fuel(decimal, 3);
    let a = index / 100;
    let b = (index / 10) % 10;
    let c = index % 10;
    assert(index == a * 100 + b * 10 + c);
    lemma_digit_char(a);
    lemma_digit_char(b);
    lemma_digit_char(c);
    lemma_digit_char(0);
    let d = decimal3(index);
    if index < 10 {
        assert(d =~= seq![digit_char(0), digit_char(0), digit_char(c)]);
        lemma_three_digits_value(digit_char(0), digit_char(0), digit_char(c));
    } else if index < 100 {
        assert(decimal(index) =~= seq![digit_char(index / 10), digit_char(index % 10)]);
        assert(d =~= seq![digit_char(0), digit_char(b), digit_char(c)]);
        lemma_three_digits_value(digit_char(0), digit_char(b), digit_char(c));
    } else {
        assert(decimal(index / 10) =~= seq![digit_char(index / 100), digit_char((index / 10) % 10)]);
        assert(d =~= seq![digit_char(a), digit_char(b), digit_char(c)]);
        lemma_three_digits_value(digit_char(a), digit_char(b), digit_char(c));
    }
}

/// A volume written as `<base>.<number in three digits>` (numbers 1 to 999) is read back as a
/// numbered volume of that base, with that number, when names are matched ignoring ASCII case.
pub proof fn law_volume_names_are_read_back(base: Seq<char>, index: nat)
    requires
        1 <= index <= 999,
    ensures
        numeric_split_volume_number(ascii_lower(base + seq!['.'] + decimal3(index))) == Some(
            (ascii_lower(base), index),
        ),
        spec_is_numbered_volume_of(ascii_lower(base), base + seq!['.'] + decimal3(index)),
{
    lemma_decimal3_digits(index);
    let d = decimal3(index);
    let name = base + seq!['.'] + d;
    let l = ascii_lower(name);
    assert(forall|k: int| 0 <= k < 3 ==> lower_char(#[trigger] d[k]) == d[k]) by {
        assert(forall|k: int| 0 <= k < 3 ==> is_digit(#[trigger] d[k]));
    }
    assert(l =~= ascii_lower(base) + seq!['.'] + d);
    let i = base.len() as int;
    assert(l[i] == '.');
    assert(forall|k: int| i < k < l.len() ==> l[k] != '.') by {
        assert(forall|k: int| 0 <= k < 3 ==> is_digit(#[trigger] d[k]));
        assert forall|k: int| i < k < l.len() implies l[k] != '.' by {
            assert(l[k] == d[k - i - 1]);
        }
    }
    assert(last_index_of(l, '.') == i) by {
        reveal_with_fuel(last_index_of_before, 4);
    }
    assert(l.take(i) =~= ascii_lower(base));
    assert(l.skip(i + 1) =~= d);
    assert(d[0] != '+') by {
        assert(is_digit(d[0]));
    }
}

// ---------------------------------------------------------------------------
// Compressing
// ---------------------------------------------------------------------------

/// Finder's `.DS_Store` files and macOS metadata (`__MACOSX` folders, `._` files) are never
/// counted as entries of an archive when they are to be left out.
pub proof fn law_left_out_metadata_is_never_an_entry(
    path: Seq<char>,
    common_parent: Seq<char>,
    excluded: Seq<Seq<char>>,
    skip_ds_store: bool,
    skip_macos_metadata: bool,
    exists: bool,
    is_file: bool,
    is_dir: bool,
    len: u64,
)
    requires
        spec_is_ds_store_path(path, skip_ds_store) || spec_is_macos_metadata_path(
            path,
            skip_macos_metadata,
        ),
    ensures
        !(spec_compress_entry(
            path,
            common_parent,
            excluded,
            skip_ds_store,
            skip_macos_metadata,
            exists,
            is_file,
            is_dir,
            len,
        ) matches Ok(Some(_))),
{
}

/// A request to compress that is accepted with a password or with volumes is one for ZIP or
/// 7Z.
pub proof fn law_passwords_and_volumes_need_zip_or_7z(
    source_count: nat,
    format: Seq<char>,
    output_dir_is_dir: bool,
    password: Option<Seq<char>>,
    volume_size_mb: Option<u64>,
    archive_name: Seq<char>,
)
    ensures
        spec_check_compress_request(
            source_count,
            format,
            output_dir_is_dir,
            password,
            volume_size_mb,
            archive_name,
        ) matches Ok((f, pw, _, vol)) ==> ((pw.len() > 0 || vol is Some) ==> (f == "ZIP"@ || f
            == "7Z"@)),
{
}

// ---------------------------------------------------------------------------
// Progress
// ---------------------------------------------------------------------------

/// Progress never goes back while a task with a byte total runs: finishing items (one or
/// several), watching the output grow and reading a tool's progress lines never lower the
/// items or bytes done.
pub proof fn law_progress_never_goes_back(
    s: ExtractTaskState,
    k: usize,
    entry_bytes: u64,
    output_size: u64,
    s1: ExtractTaskState,
    line: Seq<char>,
    entries: Seq<crate::contents::ExtractTaskEntry>,
    seen: Seq<Seq<char>>,
    seen1: Seq<Seq<char>>,
)
    requires
        s.wf(),
        s.total_bytes > 0,
        compress_line_effect(s, s1, line, entries, seen, seen1),
    ensures
        min_usize(sat_add_usize(s.completed, k), s.total) >= s.completed,
        min_u64(sat_add(s.completed_bytes, entry_bytes), s.total_bytes) >= s.completed_bytes,
        ({
            let limit = if s.total_bytes <= 1 {
                1
            } else {
                (s.total_bytes - 1) as u64
            };
            let running = min_u64(output_size, limit);
            (if s.completed_bytes < running {
                running
            } else {
                s.completed_bytes
            }) >= s.completed_bytes
        }),
        s1.completed >= s.completed,
        s1.completed_bytes >= s.completed_bytes,
{
}

/// An entry that a compressing tool names more than once is counted once: reading the same
/// progress line again changes neither the items nor the bytes done.
pub proof fn law_entries_are_counted_once(
    s0: ExtractTaskState,
    s1: ExtractTaskState,
    s2: ExtractTaskState,
    line: Seq<char>,
    entries: Seq<crate::contents::ExtractTaskEntry>,
    seen0: Seq<Seq<char>>,
    seen1: Seq<Seq<char>>,
    seen2: Seq<Seq<char>>,
)
    requires
        compress_line_effect(s0, s1, line, entries, seen0, seen1),
        compress_line_effect(s1, s2, line, entries, seen1, seen2),
    ensures
        s2.completed == s1.completed,
        s2.completed_bytes == s1.completed_bytes,
        seen2 == seen1,
{
    match crate::commands::spec_parse_compress_progress_line(line) {
        None => {},
        Some(path) => {
            let key = crate::entries::spec_normalize_archive_entry_key(path);
            if !seen0.contains(key) {
                assert(seen1 == seen0.push(key) || crate::task::keyed_entry(entries, key) is None);
                if crate::task::keyed_entry(entries, key) is Some {
                    assert(seen1[seen0.len() as int] == key);
                    assert(seen1.contains(key));
                }
            }
        },
    }
}

// ---------------------------------------------------------------------------
// Extracting stays inside the target folder
// ---------------------------------------------------------------------------

proof fn lemma_split_pieces_lack_separator(s: Seq<char>, c: char)
    ensures
        forall|i: int| 0 <= i < split(s, c).len() ==> !(#[trigger] split(s, c)[i]).contains(c),
    decreases s.len(),
{
    if s.len() > 0 {
        lemma_split_pieces_lack_separator(s.drop_last(), c);
        crate::text::lemma_split_nonempty(s.drop_last(), c);
        let p = split(s.drop_last(), c);
        if s.last() != c {
            let q = p.last().push(s.last());
            assert(!q.contains(c)) by {
                assert(!p[p.len() - 1].contains(c));
                if q.contains(c) {
                    let k = choose|k: int| 0 <= k < q.len() && q[k] == c;
                    if k < p.last().len() {
                        assert(p.last()[k] == c);
                    }
                }
            }
            assert forall|i: int| 0 <= i < split(s, c).len() implies !(#[trigger] split(s, c)[i]).contains(c) by {
                if i < p.len() - 1 {
                    assert(split(s, c)[i] == p[i]);
                }
            }
        } else {
            assert forall|i: int| 0 <= i < split(s, c).len() implies !(#[trigger] split(s, c)[i]).contains(c) by {
                if i < p.len() {
                    assert(split(s, c)[i] == p[i]);
                } else {
                    assert(split(s, c)[i] =~= Seq::<char>::empty());
                }
            }
        }
    }
}

/// A plain name: not empty, not `.` or `..`, and without a slash.
pub open spec fn plain_name(n: Seq<char>) -> bool {
    n.len() > 0 && n != seq!['.'] && n != seq!['.', '.'] && !n.contains('/')
}

proof fn lemma_normal_pieces_keep(p: Seq<Seq<char>>)
    requires
        forall|i: int| 0 <= i < p.len() ==> !(#[trigger] p[i]).contains('/'),
    ensures
        forall|j: int| 0 <= j < normal_pieces(p).len() ==> {
            let n = #[trigger] normal_pieces(p)[j];
            n.len() > 0 && n != seq!['.'] && !n.contains('/')
        },
    decreases p.len(),
{
    if p.len() > 0 {
        assert forall|i: int| 0 <= i < p.drop_last().len() implies !(#[trigger] p.drop_last()[i]).contains('/') by {
            assert(p.drop_last()[i] == p[i]);
        }
        lemma_normal_pieces_keep(p.drop_last());
        let r = normal_pieces(p.drop_last());
        assert(!p[p.len() - 1].contains('/'));
        assert forall|j: int| 0 <= j < normal_pieces(p).len() implies {
            let n = #[trigger] normal_pieces(p)[j];
            n.len() > 0 && n != seq!['.'] && !n.contains('/')
        } by {
            if j < r.len() {
                assert(normal_pieces(p)[j] == r[j]);
            }
        }
    }
}

proof fn lemma_normal_names_plain(p: Seq<Seq<char>>)
    requires
        forall|i: int| 0 <= i < p.len() ==> {
            let n = #[trigger] p[i];
            n.len() > 0 && n != seq!['.'] && !n.contains('/')
        },
    ensures
        forall|j: int| 0 <= j < normal_names(p).len() ==> plain_name(#[trigger] normal_names(p)[j]),
    decreases p.len(),
{
    if p.len() > 0 {
        assert forall|i: int| 0 <= i < p.drop_last().len() implies {
            let n = #[trigger] p.drop_last()[i];
            n.len() > 0 && n != seq!['.'] && !n.contains('/')
        } by {
            assert(p.drop_last()[i] == p[i]);
        }
        lemma_normal_names_plain(p.drop_last());
        let r = normal_names(p.drop_last());
        let n = p[p.len() - 1];
        assert(n.len() > 0 && n != seq!['.'] && !n.contains('/'));
        assert forall|j: int| 0 <= j < normal_names(p).len() implies plain_name(#[trigger] normal_names(p)[j]) by {
            if j < r.len() {
                assert(normal_names(p)[j] == r[j]);
            }
        }
    }
}

proof fn lemma_join_plain_is_relative(cs: Seq<Seq<char>>)
    requires
        forall|i: int| 0 <= i < cs.len() ==> plain_name(#[trigger] cs[i]),
    ensures
        join_all(cs).len() == 0 || join_all(cs)[0] != '/',
    decreases cs.len(),
{
    if cs.len() > 0 {
        assert forall|i: int| 0 <= i < cs.drop_last().len() implies plain_name(#[trigger] cs.drop_last()[i]) by {
            assert(cs.drop_last()[i] == cs[i]);
        }
        lemma_join_plain_is_relative(cs.drop_last());
        let last = cs[cs.len() - 1];
        assert(plain_name(last));
        assert(last[0] != '/') by {
            if last[0] == '/' {
                assert(last.contains('/'));
            }
        }
    }
}

/// Whatever an entry's path says, the path it is extracted to is relative and made of plain
/// names only (no `.`, `..` or empty parts), so extracting it writes inside the target folder.
pub proof fn law_extracted_paths_stay_inside(entry: Seq<char>)
    ensures
        crate::entries::spec_strip_archive_entry_prefix(entry) == join_all(
            normal_names(path_pieces(trim_end_char(entry, '/'))),
        ),
        forall|j: int|
            0 <= j < normal_names(path_pieces(trim_end_char(entry, '/'))).len() ==> plain_name(
                #[trigger] normal_names(path_pieces(trim_end_char(entry, '/')))[j],
            ),
        crate::entries::spec_strip_archive_entry_prefix(entry).len() == 0
            || crate::entries::spec_strip_archive_entry_prefix(entry)[0] != '/',
{
    let t = trim_end_char(entry, '/');
    lemma_split_pieces_lack_separator(t, '/');
    lemma_normal_pieces_keep(split(t, '/'));
    lemma_normal_names_plain(path_pieces(t));
    lemma_join_plain_is_relative(normal_names(path_pieces(t)));
}

// ---------------------------------------------------------------------------
// The folder tree of a listing
// ---------------------------------------------------------------------------

proof fn lemma_components_nonempty(p: Seq<char>)
    ensures
        forall|k: int|
            0 <= k < crate::paths::components(p).len() ==> (#[trigger] crate::paths::components(
                p,
            )[k]).len() > 0,
{
    lemma_split_pieces_lack_separator(p, '/');
    lemma_normal_pieces_keep(split(p, '/'));
    let head = (if crate::paths::has_root(p) {
        seq![seq!['/']]
    } else {
        Seq::<Seq<char>>::empty()
    }) + (if crate::paths::has_leading_cur(p) {
        seq![seq!['.']]
    } else {
        Seq::<Seq<char>>::empty()
    });
    let cs = crate::paths::components(p);
    assert(cs == head + path_pieces(p));
    assert forall|k: int| 0 <= k < cs.len() implies (#[trigger] cs[k]).len() > 0 by {
        if k < head.len() {
            assert(cs[k] == head[k]);
        } else {
            assert(cs[k] == path_pieces(p)[k - head.len()]);
        }
    }
}

proof fn lemma_join_nonempty(cs: Seq<Seq<char>>)
    requires
        cs.len() > 0,
        cs.last().len() > 0,
    ensures
        join_all(cs).len() > 0,
{
}

/// The folders of a listing form a tree: the folder made of the first `j` components of an
/// entry's path (for `j` from 2 on) has its parent, the first `j - 1` components, listed too.
pub proof fn law_listed_folders_have_listed_parents(
    es: Seq<crate::contents::ArchiveEntry>,
    i: int,
    j: int,
)
    requires
        0 <= i < es.len(),
        2 <= j <= crate::contents::folder_depth(
            crate::paths::components(es[i].path@).len(),
            crate::contents::is_folder_kind(es[i]),
        ),
    ensures
        crate::contents::is_listed_folder(es, join_all(crate::paths::components(es[i].path@).take(j))),
        crate::contents::is_listed_folder(
            es,
            join_all(crate::paths::components(es[i].path@).take(j - 1)),
        ),
{
    let cs = crate::paths::components(es[i].path@);
    lemma_components_nonempty(es[i].path@);
    assert(cs.take(j).last() == cs[j - 1]);
    assert(cs.take(j - 1).last() == cs[j - 2]);
    lemma_join_nonempty(cs.take(j));
    lemma_join_nonempty(cs.take(j - 1));
    let f = join_all(cs.take(j));
    let g = join_all(cs.take(j - 1));
    assert(crate::contents::entry_folder_at(es[i].path@, crate::contents::is_folder_kind(es[i]), f, j));
    assert(crate::contents::is_entry_folder(es[i], f));
    assert(crate::contents::entry_folder_at(
        es[i].path@,
        crate::contents::is_folder_kind(es[i]),
        g,
        j - 1,
    ));
    assert(crate::contents::is_entry_folder(es[i], g));
}

// ---------------------------------------------------------------------------
// Dragging entries out
// ---------------------------------------------------------------------------

proof fn lemma_kept_drag_items_come_from_items(items: Seq<crate::contents::ArchivePromiseDragItem>)
    ensures
        forall|a: int|
            0 <= a < crate::contents::kept_drag_items(items).len() ==> exists|j: int|
                0 <= j < items.len() && (#[trigger] crate::contents::kept_drag_items(items)[a]).0
                    == crate::contents::drag_path(items[j])
                    && crate::contents::kept_drag_items(items)[a].2 == items[j].is_dir,
    decreases items.len(),
{
    if items.len() > 0 {
        let p = items.drop_last();
        lemma_kept_drag_items_come_from_items(p);
        let r = crate::contents::kept_drag_items(p);
        let k = crate::contents::kept_drag_items(items);
        assert forall|a: int| 0 <= a < k.len() implies exists|j: int|
            0 <= j < items.len() && (#[trigger] k[a]).0 == crate::contents::drag_path(items[j])
                && k[a].2 == items[j].is_dir by {
            if a < r.len() {
                assert(k[a] == r[a]);
                let j = choose|j: int|
                    0 <= j < p.len() && r[a].0 == crate::contents::drag_path(p[j]) && r[a].2
                        == p[j].is_dir;
                assert(items[j] == p[j]);
            } else {
                assert(k[a] == crate::contents::kept_drag_item(items.last()));
                assert(items[items.len() - 1] == items.last());
            }
        }
    }
}

/// A drag keeps each entry once: no two kept entries have the same path and kind.
pub proof fn law_dragged_entries_are_kept_once(items: Seq<crate::contents::ArchivePromiseDragItem>)
    ensures
        forall|a: int, b: int|
            0 <= a < b < crate::contents::kept_drag_items(items).len() ==> !((#[trigger] crate::contents::kept_drag_items(
                items,
            )[a]).0 == (#[trigger] crate::contents::kept_drag_items(items)[b]).0
                && crate::contents::kept_drag_items(items)[a].2
                == crate::contents::kept_drag_items(items)[b].2),
    decreases items.len(),
{
    if items.len() > 0 {
        let p = items.drop_last();
        law_dragged_entries_are_kept_once(p);
        lemma_kept_drag_items_come_from_items(p);
        let r = crate::contents::kept_drag_items(p);
        let k = crate::contents::kept_drag_items(items);
        let n = items.len() - 1;
        assert forall|a: int, b: int| 0 <= a < b < k.len() implies !((#[trigger] k[a]).0 == (#[trigger] k[b]).0
            && k[a].2 == k[b].2) by {
            if b < r.len() {
                assert(k[a] == r[a] && k[b] == r[b]);
            } else {
                assert(k[a] == r[a]);
                assert(k[b] == crate::contents::kept_drag_item(items.last()));
                assert(!crate::contents::seen_before(items, n));
                if k[a].0 == k[b].0 && k[a].2 == k[b].2 {
                    let j = choose|j: int|
                        0 <= j < p.len() && r[a].0 == crate::contents::drag_path(p[j]) && r[a].2
                            == p[j].is_dir;
                    assert(items[j] == p[j]);
                    assert(items[n] == items.last());
                    assert(0 <= j < n && crate::contents::drag_path(items[j]) == crate::contents::drag_path(
                        items[n],
                    ) && items[j].is_dir == items[n].is_dir);
                }
            }
        }
    }
}

// ---------------------------------------------------------------------------
// Requests and choices
// ---------------------------------------------------------------------------

/// ZIP and 7Z archives can be split into volumes (and protected by a password): a request with
/// sources, a folder to save in that exists, a format that names ZIP or 7Z and an acceptable
/// name is accepted, with the volume size it asks for and that format.
pub proof fn law_zip_and_7z_accept_volumes(
    source_count: nat,
    format: Seq<char>,
    password: Option<Seq<char>>,
    volume_size_mb: u64,
    archive_name: Seq<char>,
)
    requires
        source_count > 0,
        spec_normalize_compress_format(format) == Ok::<Seq<char>, Seq<char>>("ZIP"@)
            || spec_normalize_compress_format(format) == Ok::<Seq<char>, Seq<char>>("7Z"@),
        spec_sanitize_archive_name(archive_name) is Ok,
    ensures
        spec_check_compress_request(
            source_count,
            format,
            true,
            password,
            Some(volume_size_mb),
            archive_name,
        ) matches Ok((f, _, n, vol)) && Ok::<Seq<char>, Seq<char>>(f) == spec_normalize_compress_format(
            format,
        ) && Ok::<Seq<char>, Seq<char>>(n) == spec_sanitize_archive_name(archive_name) && vol == (
        if volume_size_mb > 0 {
            Some(volume_size_mb)
        } else {
            None
        }),
{
    reveal_strlit("ZIP");
    reveal_strlit("7Z");
}

/// The ways of handling an existing file name three distinct strategies: `rename`,
/// `auto_rename` and `auto-rename` keep the existing file and put the new one beside it;
/// `skip` keeps the existing file alone; only `overwrite`, `cover`, `replace` (or no choice at
/// all) overwrite it. Case and surrounding blanks do not matter, and any other name is refused.
pub proof fn law_conflict_strategies_are_distinct(strategy: Option<Seq<char>>)
    ensures
        (strategy matches Some(x) && (ascii_lower(trim(x)) == "rename"@ || ascii_lower(trim(x))
            == "auto_rename"@ || ascii_lower(trim(x)) == "auto-rename"@))
            <==> spec_normalize_extract_conflict_strategy(strategy) == Ok::<
            ExtractConflictStrategy,
            Seq<char>,
        >(ExtractConflictStrategy::Rename),
        (strategy matches Some(x) && ascii_lower(trim(x)) == "skip"@)
            <==> spec_normalize_extract_conflict_strategy(strategy) == Ok::<
            ExtractConflictStrategy,
            Seq<char>,
        >(ExtractConflictStrategy::Skip),
        (strategy is None || (strategy matches Some(x) && (ascii_lower(trim(x)) == "overwrite"@
            || ascii_lower(trim(x)) == "cover"@ || ascii_lower(trim(x)) == "replace"@)))
            <==> spec_normalize_extract_conflict_strategy(strategy) == Ok::<
            ExtractConflictStrategy,
            Seq<char>,
        >(ExtractConflictStrategy::Overwrite),
{
    reveal_strlit("overwrite");
    reveal_strlit("cover");
    reveal_strlit("replace");
    reveal_strlit("skip");
    reveal_strlit("rename");
    reveal_strlit("auto_rename");
    reveal_strlit("auto-rename");
    let o = "overwrite"@;
    assert(trim_start(o) == o);
    assert(trim_end(o) == o);
    assert(ascii_lower(o) =~= o);
    assert("rename"@.len() == 6 && "skip"@.len() == 4 && "overwrite"@.len() == 9);
    assert("cover"@.len() == 5 && "replace"@.len() == 7 && "auto_rename"@.len() == 11);
    assert("auto-rename"@.len() == 11);
}

/// A request to compress needs sources and a folder to save in that exists: without either it
/// is refused, whatever else it asks for.
pub proof fn law_compress_requests_need_sources_and_folder(
    source_count: nat,
    format: Seq<char>,
    output_dir_is_dir: bool,
    password: Option<Seq<char>>,
    volume_size_mb: Option<u64>,
    archive_name: Seq<char>,
)
    requires
        source_count == 0 || !output_dir_is_dir,
    ensures
        spec_check_compress_request(
            source_count,
            format,
            output_dir_is_dir,
            password,
            volume_size_mb,
            archive_name,
        ) is Err,
{
}

/// An existing file is kept unless overwriting was chosen: skipping leaves it and extracts
/// nothing in its place, renaming puts the new file beside it, and only overwriting writes in
/// its place. Where nothing exists yet, every strategy writes in place.
pub proof fn law_existing_files_are_kept_unless_overwriting(
    strategy: ExtractConflictStrategy,
    is_dir: bool,
    target_exists: bool,
)
    ensures
        !target_exists ==> spec_conflict_action(strategy, is_dir, target_exists)
            == ConflictAction::InPlace,
        strategy == ExtractConflictStrategy::Overwrite ==> spec_conflict_action(
            strategy,
            is_dir,
            target_exists,
        ) == ConflictAction::InPlace,
        target_exists && strategy == ExtractConflictStrategy::Skip ==> spec_conflict_action(
            strategy,
            is_dir,
            target_exists,
        ) == ConflictAction::Skip,
        target_exists && !is_dir && strategy == ExtractConflictStrategy::Rename
            ==> spec_conflict_action(strategy, is_dir, target_exists) == ConflictAction::Aside,
{
}

/// Whether a format is one of the given names.
pub open spec fn format_among(f: Seq<char>, names: Seq<Seq<char>>) -> bool {
    names.contains(f)
}

/// A single compressed stream is decompressed by the tool of its own compression: bzip2 for
/// BZ2, gzip for GZ and Z, xz for XZ and LZMA (raw LZMA asked for as such), zstd for ZSTD and
/// lz4 for LZ4, always to standard output (`-dc`) with the file last. Only these formats are
/// single streams.
pub proof fn law_streams_use_their_own_decompressor(path: Seq<char>, is_zip_container: bool)
    ensures
        ({
            let f = spec_archive_format(path, is_zip_container);
            &&& spec_single_stream_decompress_command(path, is_zip_container) is Ok
                <==> format_among(
                f,
                seq!["GZ"@, "GZIP"@, "Z"@, "BZ2"@, "BZIP2"@, "XZ"@, "LZMA2"@, "LZMA"@, "ZSTD"@, "LZ4"@],
            )
            &&& spec_single_stream_decompress_command(path, is_zip_container) matches Ok((prog, args))
                ==> {
                &&& args.len() >= 2
                &&& args.last() == path
                &&& args[args.len() - 2] == "-dc"@
                &&& format_among(f, seq!["BZ2"@, "BZIP2"@]) ==> prog == "bzip2"@
                &&& format_among(f, seq!["GZ"@, "GZIP"@, "Z"@]) ==> prog == "gzip"@
                &&& format_among(f, seq!["XZ"@, "LZMA2"@]) ==> prog == "xz"@ && args.len() == 2
                &&& f == "LZMA"@ ==> prog == "xz"@ && args[0] == "--format=lzma"@
                &&& f == "ZSTD"@ ==> prog == "zstd"@
                &&& f == "LZ4"@ ==> prog == "lz4"@
            }
        }),
{
    reveal_strlit("GZ");
    reveal_strlit("GZIP");
    reveal_strlit("Z");
    reveal_strlit("BZ2");
    reveal_strlit("BZIP2");
    reveal_strlit("XZ");
    reveal_strlit("LZMA2");
    reveal_strlit("LZMA");
    reveal_strlit("ZSTD");
    reveal_strlit("LZ4");
    assert("GZ"@[0] != "XZ"@[0] && "BZ2"@[0] != "LZ4"@[0] && "BZIP2"@[0] != "LZMA2"@[0]);
    assert("GZIP"@[0] != "LZMA"@[0] && "GZIP"@[0] != "ZSTD"@[0] && "LZMA"@[0] != "ZSTD"@[0]);
    assert("GZ"@ != "XZ"@ && "BZ2"@ != "LZ4"@ && "BZIP2"@ != "LZMA2"@);
    assert("GZIP"@ != "LZMA"@ && "GZIP"@ != "ZSTD"@ && "LZMA"@ != "ZSTD"@);
    let f = spec_archive_format(path, is_zip_container);
    let all = seq!["GZ"@, "GZIP"@, "Z"@, "BZ2"@, "BZIP2"@, "XZ"@, "LZMA2"@, "LZMA"@, "ZSTD"@, "LZ4"@];
    if format_among(f, all) {
        let k = choose|k: int| 0 <= k < all.len() && all[k] == f;
        assert(all[k] == f);
    } else {
        assert(f != all[0] && f != all[1] && f != all[2] && f != all[3] && f != all[4]);
        assert(f != all[5] && f != all[6] && f != all[7] && f != all[8] && f != all[9]);
    }
    assert(format_among(f, seq!["BZ2"@, "BZIP2"@]) ==> f == "BZ2"@ || f == "BZIP2"@);
    assert(format_among(f, seq!["GZ"@, "GZIP"@, "Z"@]) ==> f == "GZ"@ || f == "GZIP"@ || f == "Z"@);
    assert(format_among(f, seq!["XZ"@, "LZMA2"@]) ==> f == "XZ"@ || f == "LZMA2"@);
}

// ---------------------------------------------------------------------------
// Listings
// ---------------------------------------------------------------------------

/// The line of the listings that the `k`-th entry of a listing comes from.
pub open spec fn entry_line(path_output: Seq<char>, k: int) -> int {
    listing_rows(lines(path_output), lines(path_output).len() as int)[k].0
}

/// The permission string of the verbose listing's line `i`: its first word.
pub open spec fn listed_permissions(detail_output: Seq<char>, i: int) -> Seq<char> {
    words(lines(detail_output)[i])[0]
}

/// What a verbose listing says of an entry decides its kind and its executable flag: an entry
/// whose permission string starts with `d` is a folder, and a folder is never executable; an
/// entry that is not a folder and whose permission string has an execute bit (`x` or `s`
/// among its characters 2 to 10) is executable.
pub proof fn law_listed_permissions_decide_kind_and_execution(
    r: Seq<ArchiveEntry>,
    path_output: Seq<char>,
    detail_output: Seq<char>,
    current_year: int,
    k: int,
    j: int,
)
    requires
        listing_matches(r, path_output, detail_output, current_year),
        0 <= k < r.len(),
        0 <= entry_line(path_output, k) < lines(detail_output).len(),
        words(lines(detail_output)[entry_line(path_output, k)]).len() > 0,
    ensures
        ({
            let perm = listed_permissions(detail_output, entry_line(path_output, k));
            &&& perm.len() > 0 && perm[0] == 'd' ==> r[k].kind@ == "folder"@ && !r[k].is_executable
            &&& (perm[0] != 'd' && !(r[k].path@.len() > 0 && r[k].path@.last() == '/') && 1 <= j
                < 10 && j < perm.len() && (perm[j] == 'x' || perm[j] == 's'))
                ==> r[k].is_executable
        }),
{
    let i = entry_line(path_output, k);
    let rows = listing_rows(lines(path_output), lines(path_output).len() as int);
    assert(listing_entry_matches(r[k], rows[k].1, listing_detail_at(detail_output, i, current_year)));
    let perm = listed_permissions(detail_output, i);
    assert(listing_detail_at(detail_output, i, current_year) matches Some(d) && d.0 == perm);
    if perm[0] != 'd' && !(r[k].path@.len() > 0 && r[k].path@.last() == '/') && 1 <= j < 10
        && j < perm.len() && (perm[j] == 'x' || perm[j] == 's') {
        assert(perm[j] == 'x' || perm[j] == 's');
        assert(spec_archive_entry_is_executable(trim_end_char(rows[k].1, '/'), perm));
    }
}

/// What is left of a text without its trailing `c`s is a prefix of it.
proof fn lemma_trim_end_char_prefix(s: Seq<char>, c: char)
    ensures
        trim_end_char(s, c).len() <= s.len(),
        forall|i: int| 0 <= i < trim_end_char(s, c).len() ==> #[trigger] trim_end_char(s, c)[i] == s[i],
    decreases s.len(),
{
    if s.len() > 0 && s.last() == c {
        lemma_trim_end_char_prefix(s.drop_last(), c);
    }
}

/// A path without backslashes is left as it is when backslashes are turned into slashes.
proof fn lemma_no_backslash(p: Seq<char>)
    requires
        !p.contains('\\'),
    ensures
        replace_char(p, '\\', '/') == p,
{
    assert forall|i: int| 0 <= i < p.len() implies replace_char(p, '\\', '/')[i] == p[i] by {
        if p[i] == '\\' {
            assert(p.contains('\\'));
        }
    }
    assert(replace_char(p, '\\', '/') =~= p);
}

/// The safety flags of a listed entry follow its path: an absolute path, or one with a `..`
/// or `.` part or a colon in a part, is unsafe; a path with a part that starts with a dot (and
/// is more than the dot) names a hidden entry.
pub proof fn law_listed_paths_decide_safety_flags(
    r: Seq<ArchiveEntry>,
    path_output: Seq<char>,
    detail_output: Seq<char>,
    current_year: int,
    k: int,
    part: Seq<char>,
)
    requires
        listing_matches(r, path_output, detail_output, current_year),
        0 <= k < r.len(),
    ensures
        r[k].path@.len() > 0 && r[k].path@[0] == '/' ==> r[k].is_unsafe_path,
        !r[k].path@.contains('\\') && split(r[k].path@, '/').contains(part) && (part
            == ".."@ || part == "."@ || part.contains(':')) ==> r[k].is_unsafe_path,
        !r[k].path@.contains('\\') && split(trim_end_char(r[k].path@, '/'), '/').contains(part)
            && part.len() > 1 && part[0] == '.' ==> r[k].is_hidden,
{
    let rows = listing_rows(lines(path_output), lines(path_output).len() as int);
    let i = entry_line(path_output, k);
    assert(listing_entry_matches(r[k], rows[k].1, listing_detail_at(detail_output, i, current_year)));
    let p = r[k].path@;
    reveal_strlit("..");
    reveal_strlit(".");
    assert(".."@ =~= seq!['.', '.']);
    assert("."@ =~= seq!['.']);
    if p.len() > 0 && p[0] == '/' {
        assert(replace_char(p, '\\', '/')[0] == '/');
    }
    if !p.contains('\\') {
        lemma_no_backslash(p);
        let d = trim_end_char(p, '/');
        if split(d, '/').contains(part) && part.len() > 1 && part[0] == '.' {
            if d.contains('\\') {
                let w = choose|w: int| 0 <= w < d.len() && d[w] == '\\';
                lemma_trim_end_char_prefix(p, '/');
                assert(p[w] == '\\');
            }
            lemma_no_backslash(d);
            let j = choose|j: int| 0 <= j < split(d, '/').len() && split(d, '/')[j] == part;
            assert(hidden_piece(split(d, '/')[j]));
        }
        if split(p, '/').contains(part) && (part == ".."@ || part == "."@ || part.contains(':')) {
            let j = choose|j: int| 0 <= j < split(p, '/').len() && split(p, '/')[j] == part;
            assert(unsafe_piece(split(p, '/')[j]));
        }
    }
}

// ---------------------------------------------------------------------------
// Output folders of compressed TAR archives
// ---------------------------------------------------------------------------

/// The suffixes (in lower case) of compressed TAR archives whose whole suffix is dropped from
/// the name of the folder they are extracted into.
pub open spec fn compressed_tar_suffixes() -> Seq<Seq<char>> {
    seq![
        ".tar.gz"@,
        ".tar.gzip"@,
        ".tar.bz2"@,
        ".tar.bzip2"@,
        ".tar.xz"@,
        ".tar.zst"@,
        ".tar.zstd"@,
        ".tar.lzma2"@,
        ".tar.lzma"@,
        ".tar.lz4"@,
        ".tgz"@,
        ".tbz2"@,
        ".tbz"@,
        ".txz"@,
        ".tzst"@,
        ".tlzma"@,
        ".tlz4"@,
    ]
}

/// A text that ends with `t` does not end with `u` when the two differ `d` characters from
/// their ends.
proof fn lemma_suffixes_apart(s: Seq<char>, t: Seq<char>, u: Seq<char>, d: int)
    requires
        ends_with(s, t),
        0 <= d < t.len(),
        d < u.len(),
        t[t.len() - 1 - d] != u[u.len() - 1 - d],
    ensures
        !ends_with(s, u),
{
    if ends_with(s, u) {
        assert(s.skip(s.len() - t.len())[t.len() - 1 - d] == t[t.len() - 1 - d]);
        assert(s.skip(s.len() - u.len())[u.len() - 1 - d] == u[u.len() - 1 - d]);
    }
}

/// The characters of a suffix are those at the end of the text.
proof fn lemma_tail_char(s: Seq<char>, t: Seq<char>, i: int)
    requires
        ends_with(s, t),
        0 <= i < t.len(),
    ensures
        s[s.len() - t.len() + i] == t[i],
{
    assert(s.skip(s.len() - t.len())[i] == t[i]);
}

/// The first of `exts` that `s` ends with is the `k`-th when none before it is one.
proof fn lemma_first_suffix_at(s: Seq<char>, exts: Seq<&'static str>, k: int)
    requires
        0 <= k < exts.len(),
        ends_with(s, exts[k]@),
        forall|j: int| 0 <= j < k ==> !ends_with(s, #[trigger] exts[j]@),
    ensures
        first_suffix(s, exts) == Some(exts[k]@),
    decreases k,
{
    if k > 0 {
        assert(!ends_with(s, exts[0]@));
        assert forall|j: int| 0 <= j < k - 1 implies !ends_with(s, #[trigger] exts.drop_first()[j]@) by {
            assert(exts.drop_first()[j] == exts[j + 1]);
        }
        lemma_first_suffix_at(s, exts.drop_first(), k - 1);
    }
}

/// The facts that make the `m`-th compressed TAR suffix the one a folder name drops: it is the
/// first of the dropped suffixes that a name ending with it ends with, such a name is no RAR
/// volume, and one of its last three characters is not a digit.
proof fn lemma_compressed_tar_suffix_facts(lower: Seq<char>, m: int)
    requires
        0 <= m < compressed_tar_suffixes().len(),
        ends_with(lower, compressed_tar_suffixes()[m]),
    ensures
        first_suffix(lower, folder_suffixes()) == Some(compressed_tar_suffixes()[m]),
        !ends_with(lower, ".rar"@),
        exists|w: int| 0 <= w < 3 && !is_digit(#[trigger] lower[lower.len() - 3 + w]),
        compressed_tar_suffixes()[m].len() >= 3,
{
    let fs = folder_suffixes();
    let l = compressed_tar_suffixes();
    reveal_strlit(".rar");
    reveal_strlit(".tar.gz");
    reveal_strlit(".tar.gzip");
    reveal_strlit(".tar.bz2");
    reveal_strlit(".tar.bzip2");
    reveal_strlit(".tar.xz");
    reveal_strlit(".tar.zst");
    reveal_strlit(".tar.zstd");
    reveal_strlit(".tar.lzma2");
    reveal_strlit(".tar.lzma");
    reveal_strlit(".tar.lz4");
    reveal_strlit(".tgz");
    reveal_strlit(".tbz2");
    reveal_strlit(".tbz");
    reveal_strlit(".txz");
    reveal_strlit(".tzst");
    reveal_strlit(".tlzma");
    reveal_strlit(".tlz4");
    if m == 0 {
        let t = ".tar.gz"@;
        assert(l[0] == t && fs[0]@ == t);
        lemma_suffixes_apart(lower, t, ".rar"@, 0);
        lemma_tail_char(lower, t, 4);
        assert(!is_digit(lower[lower.len() - 3 + 0]));
        assert forall|j: int| 0 <= j < 0 implies !ends_with(lower, #[trigger] fs[j]@) by {}
        lemma_first_suffix_at(lower, fs, 0);
    } else if m == 1 {
        let t = ".tar.gzip"@;
        assert(l[1] == t && fs[1]@ == t);
        assert(fs[0]@ == ".tar.gz"@);
        lemma_suffixes_apart(lower, t, ".tar.gz"@, 0);
        lemma_suffixes_apart(lower, t, ".rar"@, 0);
        lemma_tail_char(lower, t, 6);
        assert(!is_digit(lower[lower.len() - 3 + 0]));
        assert forall|j: int| 0 <= j < 1 implies !ends_with(lower, #[trigger] fs[j]@) by {
            if j == 0 {}
        }
        lemma_first_suffix_at(lower, fs, 1);
    } else if m == 2 {
        let t = ".tar.bz2"@;
        assert(l[2] == t && fs[2]@ == t);
        assert(fs[0]@ == ".tar.gz"@);
        lemma_suffixes_apart(lower, t, ".tar.gz"@, 0);
        assert(fs[1]@ == ".tar.gzip"@);
        lemma_suffixes_apart(lower, t, ".tar.gzip"@, 0);
        lemma_suffixes_apart(lower, t, ".rar"@, 0);
        lemma_tail_char(lower, t, 5);
        assert(!is_digit(lower[lower.len() - 3 + 0]));
        assert forall|j: int| 0 <= j < 2 implies !ends_with(lower, #[trigger] fs[j]@) by {
            if j == 0 {} else if j == 1 {}
        }
        lemma_first_suffix_at(lower, fs, 2);
    } else if m == 3 {
        let t = ".tar.bzip2"@;
        assert(l[3] == t && fs[3]@ == t);
        assert(fs[0]@ == ".tar.gz"@);
        lemma_suffixes_apart(lower, t, ".tar.gz"@, 0);
        assert(fs[1]@ == ".tar.gzip"@);
        lemma_suffixes_apart(lower, t, ".tar.gzip"@, 0);
        assert(fs[2]@ == ".tar.bz2"@);
        lemma_suffixes_apart(lower, t, ".tar.bz2"@, 1);
        lemma_suffixes_apart(lower, t, ".rar"@, 0);
        lemma_tail_char(lower, t, 7);
        assert(!is_digit(lower[lower.len() - 3 + 0]));
        assert forall|j: int| 0 <= j < 3 implies !ends_with(lower, #[trigger] fs[j]@) by {
            if j == 0 {} else if j == 1 {} else if j == 2 {}
        }
        lemma_first_suffix_at(lower, fs, 3);
    } else if m == 4 {
        let t = ".tar.xz"@;
        assert(l[4] == t && fs[4]@ == t);
        assert(fs[0]@ == ".tar.gz"@);
        lemma_suffixes_apart(lower, t, ".tar.gz"@, 1);
        assert(fs[1]@ == ".tar.gzip"@);
        lemma_suffixes_apart(lower, t, ".tar.gzip"@, 0);
        assert(fs[2]@ == ".tar.bz2"@);
        lemma_suffixes_apart(lower, t, ".tar.bz2"@, 0);
        assert(fs[3]@ == ".tar.bzip2"@);
        lemma_suffixes_apart(lower, t, ".tar.bzip2"@, 0);
        lemma_suffixes_apart(lower, t, ".rar"@, 0);
        lemma_tail_char(lower, t, 4);
        assert(!is_digit(lower[lower.len() - 3 + 0]));
        assert forall|j: int| 0 <= j < 4 implies !ends_with(lower, #[trigger] fs[j]@) by {
            if j == 0 {} else if j == 1 {} else if j == 2 {} else if j == 3 {}
        }
        lemma_first_suffix_at(lower, fs, 4);
    } else if m == 5 {
        let t = ".tar.zst"@;
        assert(l[5] == t && fs[5]@ == t);
        assert(fs[0]@ == ".tar.gz"@);
        lemma_suffixes_apart(lower, t, ".tar.gz"@, 0);
        assert(fs[1]@ == ".tar.gzip"@);
        lemma_suffixes_apart(lower, t, ".tar.gzip"@, 0);
        assert(fs[2]@ == ".tar.bz2"@);
        lemma_suffixes_apart(lower, t, ".tar.bz2"@, 0);
        assert(fs[3]@ == ".tar.bzip2"@);
        lemma_suffixes_apart(lower, t, ".tar.bzip2"@, 0);
        assert(fs[4]@ == ".tar.xz"@);
        lemma_suffixes_apart(lower, t, ".tar.xz"@, 0);
        lemma_suffixes_apart(lower, t, ".rar"@, 0);
        lemma_tail_char(lower, t, 5);
        assert(!is_digit(lower[lower.len() - 3 + 0]));
        assert forall|j: int| 0 <= j < 5 implies !ends_with(lower, #[trigger] fs[j]@) by {
            if j == 0 {} else if j == 1 {} else if j == 2 {} else if j == 3 {} else if j == 4 {}
        }
        lemma_first_suffix_at(lower, fs, 5);
    } else if m == 6 {
        let t = ".tar.zstd"@;
        assert(l[6] == t && fs[6]@ == t);
        assert(fs[0]@ == ".tar.gz"@);
        lemma_suffixes_apart(lower, t, ".tar.gz"@, 0);
        assert(fs[1]@ == ".tar.gzip"@);
        lemma_suffixes_apart(lower, t, ".tar.gzip"@, 0);
        assert(fs[2]@ == ".tar.bz2"@);
        lemma_suffixes_apart(lower, t, ".tar.bz2"@, 0);
        assert(fs[3]@ == ".tar.bzip2"@);
        lemma_suffixes_apart(lower, t, ".tar.bzip2"@, 0);
        assert(fs[4]@ == ".tar.xz"@);
        lemma_suffixes_apart(lower, t, ".tar.xz"@, 0);
        assert(fs[5]@ == ".tar.zst"@);
        lemma_suffixes_apart(lower, t, ".tar.zst"@, 0);
        lemma_suffixes_apart(lower, t, ".rar"@, 0);
        lemma_tail_char(lower, t, 6);
        assert(!is_digit(lower[lower.len() - 3 + 0]));
        assert forall|j: int| 0 <= j < 6 implies !ends_with(lower, #[trigger] fs[j]@) by {
            if j == 0 {} else if j == 1 {} else if j == 2 {} else if j == 3 {} else if j == 4 {} else if j == 5 {}
        }
        lemma_first_suffix_at(lower, fs, 6);
    } else if m == 7 {
        let t = ".tar.lzma2"@;
        assert(l[7] == t && fs[7]@ == t);
        assert(fs[0]@ == ".tar.gz"@);
        lemma_suffixes_apart(lower, t, ".tar.gz"@, 0);
        assert(fs[1]@ == ".tar.gzip"@);
        lemma_suffixes_apart(lower, t, ".tar.gzip"@, 0);
        assert(fs[2]@ == ".tar.bz2"@);
        lemma_suffixes_apart(lower, t, ".tar.bz2"@, 1);
        assert(fs[3]@ == ".tar.bzip2"@);
        lemma_suffixes_apart(lower, t, ".tar.bzip2"@, 1);
        assert(fs[4]@ == ".tar.xz"@);
        lemma_suffixes_apart(lower, t, ".tar.xz"@, 0);
        assert(fs[5]@ == ".tar.zst"@);
        lemma_suffixes_apart(lower, t, ".tar.zst"@, 0);
        assert(fs[6]@ == ".tar.zstd"@);
        lemma_suffixes_apart(lower, t, ".tar.zstd"@, 0);
        lemma_suffixes_apart(lower, t, ".rar"@, 0);
        lemma_tail_char(lower, t, 7);
        assert(!is_digit(lower[lower.len() - 3 + 0]));
        assert forall|j: int| 0 <= j < 7 implies !ends_with(lower, #[trigger] fs[j]@) by {
            if j == 0 {} else if j == 1 {} else if j == 2 {} else if j == 3 {} else if j == 4 {} else if j == 5 {} else if j == 6 {}
        }
        lemma_first_suffix_at(lower, fs, 7);
    } else if m == 8 {
        let t = ".tar.lzma"@;
        assert(l[8] == t && fs[8]@ == t);
        assert(fs[0]@ == ".tar.gz"@);
        lemma_suffixes_apart(lower, t, ".tar.gz"@, 0);
        assert(fs[1]@ == ".tar.gzip"@);
        lemma_suffixes_apart(lower, t, ".tar.gzip"@, 0);
        assert(fs[2]@ == ".tar.bz2"@);
        lemma_suffixes_apart(lower, t, ".tar.bz2"@, 0);
        assert(fs[3]@ == ".tar.bzip2"@);
        lemma_suffixes_apart(lower, t, ".tar.bzip2"@, 0);
        assert(fs[4]@ == ".tar.xz"@);
        lemma_suffixes_apart(lower, t, ".tar.xz"@, 0);
        assert(fs[5]@ == ".tar.zst"@);
        lemma_suffixes_apart(lower, t, ".tar.zst"@, 0);
        assert(fs[6]@ == ".tar.zstd"@);
        lemma_suffixes_apart(lower, t, ".tar.zstd"@, 0);
        assert(fs[7]@ == ".tar.lzma2"@);
        lemma_suffixes_apart(lower, t, ".tar.lzma2"@, 0);
        lemma_suffixes_apart(lower, t, ".rar"@, 0);
        lemma_tail_char(lower, t, 6);
        assert(!is_digit(lower[lower.len() - 3 + 0]));
        assert forall|j: int| 0 <= j < 8 implies !ends_with(lower, #[trigger] fs[j]@) by {
            if j == 0 {} else if j == 1 {} else if j == 2 {} else if j == 3 {} else if j == 4 {} else if j == 5 {} else if j == 6 {} else if j == 7 {}
        }
        lemma_first_suffix_at(lower, fs, 8);
    } else if m == 9 {
        let t = ".tar.lz4"@;
        assert(l[9] == t && fs[9]@ == t);
        assert(fs[0]@ == ".tar.gz"@);
        lemma_suffixes_apart(lower, t, ".tar.gz"@, 0);
        assert(fs[1]@ == ".tar.gzip"@);
        lemma_suffixes_apart(lower, t, ".tar.gzip"@, 0);
        assert(fs[2]@ == ".tar.bz2"@);
        lemma_suffixes_apart(lower, t, ".tar.bz2"@, 0);
        assert(fs[3]@ == ".tar.bzip2"@);
        lemma_suffixes_apart(lower, t, ".tar.bzip2"@, 0);
        assert(fs[4]@ == ".tar.xz"@);
        lemma_suffixes_apart(lower, t, ".tar.xz"@, 0);
        assert(fs[5]@ == ".tar.zst"@);
        lemma_suffixes_apart(lower, t, ".tar.zst"@, 0);
        assert(fs[6]@ == ".tar.zstd"@);
        lemma_suffixes_apart(lower, t, ".tar.zstd"@, 0);
        assert(fs[7]@ == ".tar.lzma2"@);
        lemma_suffixes_apart(lower, t, ".tar.lzma2"@, 0);
        assert(fs[8]@ == ".tar.lzma"@);
        lemma_suffixes_apart(lower, t, ".tar.lzma"@, 0);
        lemma_suffixes_apart(lower, t, ".rar"@, 0);
        lemma_tail_char(lower, t, 5);
        assert(!is_digit(lower[lower.len() - 3 + 0]));
        assert forall|j: int| 0 <= j < 9 implies !ends_with(lower, #[trigger] fs[j]@) by {
            if j == 0 {} else if j == 1 {} else if j == 2 {} else if j == 3 {} else if j == 4 {} else if j == 5 {} else if j == 6 {} else if j == 7 {} else if j == 8 {}
        }
        lemma_first_suffix_at(lower, fs, 9);
    } else if m == 10 {
        let t = ".tgz"@;
        assert(l[10] == t && fs[10]@ == t);
        assert(fs[0]@ == ".tar.gz"@);
        lemma_suffixes_apart(lower, t, ".tar.gz"@, 2);
        assert(fs[1]@ == ".tar.gzip"@);
        lemma_suffixes_apart(lower, t, ".tar.gzip"@, 0);
        assert(fs[2]@ == ".tar.bz2"@);
        lemma_suffixes_apart(lower, t, ".tar.bz2"@, 0);
        assert(fs[3]@ == ".tar.bzip2"@);
        lemma_suffixes_apart(lower, t, ".tar.bzip2"@, 0);
        assert(fs[4]@ == ".tar.xz"@);
        lemma_suffixes_apart(lower, t, ".tar.xz"@, 1);
        assert(fs[5]@ == ".tar.zst"@);
        lemma_suffixes_apart(lower, t, ".tar.zst"@, 0);
        assert(fs[6]@ == ".tar.zstd"@);
        lemma_suffixes_apart(lower, t, ".tar.zstd"@, 0);
        assert(fs[7]@ == ".tar.lzma2"@);
        lemma_suffixes_apart(lower, t, ".tar.lzma2"@, 0);
        assert(fs[8]@ == ".tar.lzma"@);
        lemma_suffixes_apart(lower, t, ".tar.lzma"@, 0);
        assert(fs[9]@ == ".tar.lz4"@);
        lemma_suffixes_apart(lower, t, ".tar.lz4"@, 0);
        lemma_suffixes_apart(lower, t, ".rar"@, 0);
        lemma_tail_char(lower, t, 1);
        assert(!is_digit(lower[lower.len() - 3 + 0]));
        assert forall|j: int| 0 <= j < 10 implies !ends_with(lower, #[trigger] fs[j]@) by {
            if j == 0 {} else if j == 1 {} else if j == 2 {} else if j == 3 {} else if j == 4 {} else if j == 5 {} else if j == 6 {} else if j == 7 {} else if j == 8 {} else if j == 9 {}
        }
        lemma_first_suffix_at(lower, fs, 10);
    } else if m == 11 {
        let t = ".tbz2"@;
        assert(l[11] == t && fs[11]@ == t);
        assert(fs[0]@ == ".tar.gz"@);
        lemma_suffixes_apart(lower, t, ".tar.gz"@, 0);
        assert(fs[1]@ == ".tar.gzip"@);
        lemma_suffixes_apart(lower, t, ".tar.gzip"@, 0);
        assert(fs[2]@ == ".tar.bz2"@);
        lemma_suffixes_apart(lower, t, ".tar.bz2"@, 3);
        assert(fs[3]@ == ".tar.bzip2"@);
        lemma_suffixes_apart(lower, t, ".tar.bzip2"@, 1);
        assert(fs[4]@ == ".tar.xz"@);
        lemma_suffixes_apart(lower, t, ".tar.xz"@, 0);
        assert(fs[5]@ == ".tar.zst"@);
        lemma_suffixes_apart(lower, t, ".tar.zst"@, 0);
        assert(fs[6]@ == ".tar.zstd"@);
        lemma_suffixes_apart(lower, t, ".tar.zstd"@, 0);
        assert(fs[7]@ == ".tar.lzma2"@);
        lemma_suffixes_apart(lower, t, ".tar.lzma2"@, 1);
        assert(fs[8]@ == ".tar.lzma"@);
        lemma_suffixes_apart(lower, t, ".tar.lzma"@, 0);
        assert(fs[9]@ == ".tar.lz4"@);
        lemma_suffixes_apart(lower, t, ".tar.lz4"@, 0);
        assert(fs[10]@ == ".tgz"@);
        lemma_suffixes_apart(lower, t, ".tgz"@, 0);
        lemma_suffixes_apart(lower, t, ".rar"@, 0);
        lemma_tail_char(lower, t, 2);
        assert(!is_digit(lower[lower.len() - 3 + 0]));
        assert forall|j: int| 0 <= j < 11 implies !ends_with(lower, #[trigger] fs[j]@) by {
            if j == 0 {} else if j == 1 {} else if j == 2 {} else if j == 3 {} else if j == 4 {} else if j == 5 {} else if j == 6 {} else if j == 7 {} else if j == 8 {} else if j == 9 {} else if j == 10 {}
        }
        lemma_first_suffix_at(lower, fs, 11);
    } else if m == 12 {
        let t = ".tbz"@;
        assert(l[12] == t && fs[12]@ == t);
        assert(fs[0]@ == ".tar.gz"@);
        lemma_suffixes_apart(lower, t, ".tar.gz"@, 1);
        assert(fs[1]@ == ".tar.gzip"@);
        lemma_suffixes_apart(lower, t, ".tar.gzip"@, 0);
        assert(fs[2]@ == ".tar.bz2"@);
        lemma_suffixes_apart(lower, t, ".tar.bz2"@, 0);
        assert(fs[3]@ == ".tar.bzip2"@);
        lemma_suffixes_apart(lower, t, ".tar.bzip2"@, 0);
        assert(fs[4]@ == ".tar.xz"@);
        lemma_suffixes_apart(lower, t, ".tar.xz"@, 1);
        assert(fs[5]@ == ".tar.zst"@);
        lemma_suffixes_apart(lower, t, ".tar.zst"@, 0);
        assert(fs[6]@ == ".tar.zstd"@);
        lemma_suffixes_apart(lower, t, ".tar.zstd"@, 0);
        assert(fs[7]@ == ".tar.lzma2"@);
        lemma_suffixes_apart(lower, t, ".tar.lzma2"@, 0);
        assert(fs[8]@ == ".tar.lzma"@);
        lemma_suffixes_apart(lower, t, ".tar.lzma"@, 0);
        assert(fs[9]@ == ".tar.lz4"@);
        lemma_suffixes_apart(lower, t, ".tar.lz4"@, 0);
        assert(fs[10]@ == ".tgz"@);
        lemma_suffixes_apart(lower, t, ".tgz"@, 1);
        assert(fs[11]@ == ".tbz2"@);
        lemma_suffixes_apart(lower, t, ".tbz2"@, 0);
        lemma_suffixes_apart(lower, t, ".rar"@, 0);
        lemma_tail_char(lower, t, 1);
        assert(!is_digit(lower[lower.len() - 3 + 0]));
        assert forall|j: int| 0 <= j < 12 implies !ends_with(lower, #[trigger] fs[j]@) by {
            if j == 0 {} else if j == 1 {} else if j == 2 {} else if j == 3 {} else if j == 4 {} else if j == 5 {} else if j == 6 {} else if j == 7 {} else if j == 8 {} else if j == 9 {} else if j == 10 {} else if j == 11 {}
        }
        lemma_first_suffix_at(lower, fs, 12);
    } else if m == 13 {
        let t = ".txz"@;
        assert(l[13] == t && fs[13]@ == t);
        assert(fs[0]@ == ".tar.gz"@);
        lemma_suffixes_apart(lower, t, ".tar.gz"@, 1);
        assert(fs[1]@ == ".tar.gzip"@);
        lemma_suffixes_apart(lower, t, ".tar.gzip"@, 0);
        assert(fs[2]@ == ".tar.bz2"@);
        lemma_suffixes_apart(lower, t, ".tar.bz2"@, 0);
        assert(fs[3]@ == ".tar.bzip2"@);
        lemma_suffixes_apart(lower, t, ".tar.bzip2"@, 0);
        assert(fs[4]@ == ".tar.xz"@);
        lemma_suffixes_apart(lower, t, ".tar.xz"@, 2);
        assert(fs[5]@ == ".tar.zst"@);
        lemma_suffixes_apart(lower, t, ".tar.zst"@, 0);
        assert(fs[6]@ == ".tar.zstd"@);
        lemma_suffixes_apart(lower, t, ".tar.zstd"@, 0);
        assert(fs[7]@ == ".tar.lzma2"@);
        lemma_suffixes_apart(lower, t, ".tar.lzma2"@, 0);
        assert(fs[8]@ == ".tar.lzma"@);
        lemma_suffixes_apart(lower, t, ".tar.lzma"@, 0);
        assert(fs[9]@ == ".tar.lz4"@);
        lemma_suffixes_apart(lower, t, ".tar.lz4"@, 0);
        assert(fs[10]@ == ".tgz"@);
        lemma_suffixes_apart(lower, t, ".tgz"@, 1);
        assert(fs[11]@ == ".tbz2"@);
        lemma_suffixes_apart(lower, t, ".tbz2"@, 0);
        assert(fs[12]@ == ".tbz"@);
        lemma_suffixes_apart(lower, t, ".tbz"@, 1);
        lemma_suffixes_apart(lower, t, ".rar"@, 0);
        lemma_tail_char(lower, t, 1);
        assert(!is_digit(lower[lower.len() - 3 + 0]));
        assert forall|j: int| 0 <= j < 13 implies !ends_with(lower, #[trigger] fs[j]@) by {
            if j == 0 {} else if j == 1 {} else if j == 2 {} else if j == 3 {} else if j == 4 {} else if j == 5 {} else if j == 6 {} else if j == 7 {} else if j == 8 {} else if j == 9 {} else if j == 10 {} else if j == 11 {} else if j == 12 {}
        }
        lemma_first_suffix_at(lower, fs, 13);
    } else if m == 14 {
        let t = ".tzst"@;
        assert(l[14] == t && fs[14]@ == t);
        assert(fs[0]@ == ".tar.gz"@);
        lemma_suffixes_apart(lower, t, ".tar.gz"@, 0);
        assert(fs[1]@ == ".tar.gzip"@);
        lemma_suffixes_apart(lower, t, ".tar.gzip"@, 0);
        assert(fs[2]@ == ".tar.bz2"@);
        lemma_suffixes_apart(lower, t, ".tar.bz2"@, 0);
        assert(fs[3]@ == ".tar.bzip2"@);
        lemma_suffixes_apart(lower, t, ".tar.bzip2"@, 0);
        assert(fs[4]@ == ".tar.xz"@);
        lemma_suffixes_apart(lower, t, ".tar.xz"@, 0);
        assert(fs[5]@ == ".tar.zst"@);
        lemma_suffixes_apart(lower, t, ".tar.zst"@, 3);
        assert(fs[6]@ == ".tar.zstd"@);
        lemma_suffixes_apart(lower, t, ".tar.zstd"@, 0);
        assert(fs[7]@ == ".tar.lzma2"@);
        lemma_suffixes_apart(lower, t, ".tar.lzma2"@, 0);
        assert(fs[8]@ == ".tar.lzma"@);
        lemma_suffixes_apart(lower, t, ".tar.lzma"@, 0);
        assert(fs[9]@ == ".tar.lz4"@);
        lemma_suffixes_apart(lower, t, ".tar.lz4"@, 0);
        assert(fs[10]@ == ".tgz"@);
        lemma_suffixes_apart(lower, t, ".tgz"@, 0);
        assert(fs[11]@ == ".tbz2"@);
        lemma_suffixes_apart(lower, t, ".tbz2"@, 0);
        assert(fs[12]@ == ".tbz"@);
        lemma_suffixes_apart(lower, t, ".tbz"@, 0);
        assert(fs[13]@ == ".txz"@);
        lemma_suffixes_apart(lower, t, ".txz"@, 0);
        lemma_suffixes_apart(lower, t, ".rar"@, 0);
        lemma_tail_char(lower, t, 2);
        assert(!is_digit(lower[lower.len() - 3 + 0]));
        assert forall|j: int| 0 <= j < 14 implies !ends_with(lower, #[trigger] fs[j]@) by {
            if j == 0 {} else if j == 1 {} else if j == 2 {} else if j == 3 {} else if j == 4 {} else if j == 5 {} else if j == 6 {} else if j == 7 {} else if j == 8 {} else if j == 9 {} else if j == 10 {} else if j == 11 {} else if j == 12 {} else if j == 13 {}
        }
        lemma_first_suffix_at(lower, fs, 14);
    } else if m == 15 {
        let t = ".tlzma"@;
        assert(l[15] == t && fs[15]@ == t);
        assert(fs[0]@ == ".tar.gz"@);
        lemma_suffixes_apart(lower, t, ".tar.gz"@, 0);
        assert(fs[1]@ == ".tar.gzip"@);
        lemma_suffixes_apart(lower, t, ".tar.gzip"@, 0);
        assert(fs[2]@ == ".tar.bz2"@);
        lemma_suffixes_apart(lower, t, ".tar.bz2"@, 0);
        assert(fs[3]@ == ".tar.bzip2"@);
        lemma_suffixes_apart(lower, t, ".tar.bzip2"@, 0);
        assert(fs[4]@ == ".tar.xz"@);
        lemma_suffixes_apart(lower, t, ".tar.xz"@, 0);
        assert(fs[5]@ == ".tar.zst"@);
        lemma_suffixes_apart(lower, t, ".tar.zst"@, 0);
        assert(fs[6]@ == ".tar.zstd"@);
        lemma_suffixes_apart(lower, t, ".tar.zstd"@, 0);
        assert(fs[7]@ == ".tar.lzma2"@);
        lemma_suffixes_apart(lower, t, ".tar.lzma2"@, 0);
        assert(fs[8]@ == ".tar.lzma"@);
        lemma_suffixes_apart(lower, t, ".tar.lzma"@, 4);
        assert(fs[9]@ == ".tar.lz4"@);
        lemma_suffixes_apart(lower, t, ".tar.lz4"@, 0);
        assert(fs[10]@ == ".tgz"@);
        lemma_suffixes_apart(lower, t, ".tgz"@, 0);
        assert(fs[11]@ == ".tbz2"@);
        lemma_suffixes_apart(lower, t, ".tbz2"@, 0);
        assert(fs[12]@ == ".tbz"@);
        lemma_suffixes_apart(lower, t, ".tbz"@, 0);
        assert(fs[13]@ == ".txz"@);
        lemma_suffixes_apart(lower, t, ".txz"@, 0);
        assert(fs[14]@ == ".tzst"@);
        lemma_suffixes_apart(lower, t, ".tzst"@, 0);
        lemma_suffixes_apart(lower, t, ".rar"@, 0);
        lemma_tail_char(lower, t, 3);
        assert(!is_digit(lower[lower.len() - 3 + 0]));
        assert forall|j: int| 0 <= j < 15 implies !ends_with(lower, #[trigger] fs[j]@) by {
            if j == 0 {} else if j == 1 {} else if j == 2 {} else if j == 3 {} else if j == 4 {} else if j == 5 {} else if j == 6 {} else if j == 7 {} else if j == 8 {} else if j == 9 {} else if j == 10 {} else if j == 11 {} else if j == 12 {} else if j == 13 {} else if j == 14 {}
        }
        lemma_first_suffix_at(lower, fs, 15);
    } else if m == 16 {
        let t = ".tlz4"@;
        assert(l[16] == t && fs[16]@ == t);
        assert(fs[0]@ == ".tar.gz"@);
        lemma_suffixes_apart(lower, t, ".tar.gz"@, 0);
        assert(fs[1]@ == ".tar.gzip"@);
        lemma_suffixes_apart(lower, t, ".tar.gzip"@, 0);
        assert(fs[2]@ == ".tar.bz2"@);
        lemma_suffixes_apart(lower, t, ".tar.bz2"@, 0);
        assert(fs[3]@ == ".tar.bzip2"@);
        lemma_suffixes_apart(lower, t, ".tar.bzip2"@, 0);
        assert(fs[4]@ == ".tar.xz"@);
        lemma_suffixes_apart(lower, t, ".tar.xz"@, 0);
        assert(fs[5]@ == ".tar.zst"@);
        lemma_suffixes_apart(lower, t, ".tar.zst"@, 0);
        assert(fs[6]@ == ".tar.zstd"@);
        lemma_suffixes_apart(lower, t, ".tar.zstd"@, 0);
        assert(fs[7]@ == ".tar.lzma2"@);
        lemma_suffixes_apart(lower, t, ".tar.lzma2"@, 0);
        assert(fs[8]@ == ".tar.lzma"@);
        lemma_suffixes_apart(lower, t, ".tar.lzma"@, 0);
        assert(fs[9]@ == ".tar.lz4"@);
        lemma_suffixes_apart(lower, t, ".tar.lz4"@, 3);
        assert(fs[10]@ == ".tgz"@);
        lemma_suffixes_apart(lower, t, ".tgz"@, 0);
        assert(fs[11]@ == ".tbz2"@);
        lemma_suffixes_apart(lower, t, ".tbz2"@, 0);
        assert(fs[12]@ == ".tbz"@);
        lemma_suffixes_apart(lower, t, ".tbz"@, 0);
        assert(fs[13]@ == ".txz"@);
        lemma_suffixes_apart(lower, t, ".txz"@, 0);
        assert(fs[14]@ == ".tzst"@);
        lemma_suffixes_apart(lower, t, ".tzst"@, 0);
        assert(fs[15]@ == ".tlzma"@);
        lemma_suffixes_apart(lower, t, ".tlzma"@, 0);
        lemma_suffixes_apart(lower, t, ".rar"@, 0);
        lemma_tail_char(lower, t, 2);
        assert(!is_digit(lower[lower.len() - 3 + 0]));
        assert forall|j: int| 0 <= j < 16 implies !ends_with(lower, #[trigger] fs[j]@) by {
            if j == 0 {} else if j == 1 {} else if j == 2 {} else if j == 3 {} else if j == 4 {} else if j == 5 {} else if j == 6 {} else if j == 7 {} else if j == 8 {} else if j == 9 {} else if j == 10 {} else if j == 11 {} else if j == 12 {} else if j == 13 {} else if j == 14 {} else if j == 15 {}
        }
        lemma_first_suffix_at(lower, fs, 16);
    }
}

/// A compressed TAR archive is extracted into a folder named after it without its whole
/// suffix (`.tar.gz`, `.tgz`, `.tar.xz` and the others, in any ASCII case), not only without
/// the last extension: `backup.tar.xz` goes into `backup`.
pub proof fn law_compressed_tars_lose_their_whole_suffix(path: Seq<char>, m: int)
    requires
        0 <= m < compressed_tar_suffixes().len(),
        ends_with(ascii_lower(name_or_empty(path)), compressed_tar_suffixes()[m]),
    ensures
        spec_archive_output_folder_name(path) == spec_sanitize_path_segment(
            name_or_empty(path).take(
                name_or_empty(path).len() - compressed_tar_suffixes()[m].len(),
            ),
        ),
{
    let name = name_or_empty(path);
    let lower = ascii_lower(name);
    lemma_compressed_tar_suffix_facts(lower, m);
    assert(rar_part_number(lower) is None);
    if numeric_split_volume_number(lower) is Some {
        let i = last_index_of(lower, '.');
        crate::text::lemma_last_index_of_before_bounds(lower, '.', lower.len() as int);
        let ext = lower.skip(i + 1);
        assert(ext.len() == 3 && all_digits(ext));
        assert(i + 1 == lower.len() - 3);
        let w = choose|w: int| 0 <= w < 3 && !is_digit(#[trigger] lower[lower.len() - 3 + w]);
        assert(ext[w] == lower[lower.len() - 3 + w]);
        assert(false);
    }
}

/// The facts that make the `m`-th plain archive suffix the one a folder name drops: it is the
/// first of the dropped suffixes that a name ending with it ends with, such a name is no RAR
/// volume, and one of its last three characters is not a digit.
proof fn lemma_plain_archive_suffix_facts(lower: Seq<char>, m: int)
    requires
        0 <= m < plain_archive_suffixes().len(),
        ends_with(lower, plain_archive_suffixes()[m]),
    ensures
        first_suffix(lower, folder_suffixes()) == Some(plain_archive_suffixes()[m]),
        !ends_with(lower, ".rar"@),
        exists|w: int| 0 <= w < 3 && !is_digit(#[trigger] lower[lower.len() - 3 + w]),
        plain_archive_suffixes()[m].len() >= 3,
{
    let fs = folder_suffixes();
    let l = plain_archive_suffixes();
    reveal_strlit(".7z");
    reveal_strlit(".bz2");
    reveal_strlit(".bzip2");
    reveal_strlit(".gz");
    reveal_strlit(".gzip");
    reveal_strlit(".iso");
    reveal_strlit(".lha");
    reveal_strlit(".lz4");
    reveal_strlit(".lzh");
    reveal_strlit(".lzma");
    reveal_strlit(".lzma2");
    reveal_strlit(".rar");
    reveal_strlit(".tar");
    reveal_strlit(".tar.bz2");
    reveal_strlit(".tar.bzip2");
    reveal_strlit(".tar.gz");
    reveal_strlit(".tar.gzip");
    reveal_strlit(".tar.lz4");
    reveal_strlit(".tar.lzma");
    reveal_strlit(".tar.lzma2");
    reveal_strlit(".tar.xz");
    reveal_strlit(".tar.zst");
    reveal_strlit(".tar.zstd");
    reveal_strlit(".tbz");
    reveal_strlit(".tbz2");
    reveal_strlit(".tgz");
    reveal_strlit(".tlz4");
    reveal_strlit(".tlzma");
    reveal_strlit(".txz");
    reveal_strlit(".tzst");
    reveal_strlit(".xz");
    reveal_strlit(".z");
    reveal_strlit(".zip");
    reveal_strlit(".zst");
    reveal_strlit(".zstd");
    if m == 0 {
        let t = ".zip"@;
        assert(l[0] == t && fs[17]@ == t);
        assert(fs[0]@ == ".tar.gz"@);
        lemma_suffixes_apart(lower, t, ".tar.gz"@, 0);
        assert(fs[1]@ == ".tar.gzip"@);
        lemma_suffixes_apart(lower, t, ".tar.gzip"@, 3);
        assert(fs[2]@ == ".tar.bz2"@);
        lemma_suffixes_apart(lower, t, ".tar.bz2"@, 0);
        assert(fs[3]@ == ".tar.bzip2"@);
        lemma_suffixes_apart(lower, t, ".tar.bzip2"@, 0);
        assert(fs[4]@ == ".tar.xz"@);
        lemma_suffixes_apart(lower, t, ".tar.xz"@, 0);
        assert(fs[5]@ == ".tar.zst"@);
        lemma_suffixes_apart(lower, t, ".tar.zst"@, 0);
        assert(fs[6]@ == ".tar.zstd"@);
        lemma_suffixes_apart(lower, t, ".tar.zstd"@, 0);
        assert(fs[7]@ == ".tar.lzma2"@);
        lemma_suffixes_apart(lower, t, ".tar.lzma2"@, 0);
        assert(fs[8]@ == ".tar.lzma"@);
        lemma_suffixes_apart(lower, t, ".tar.lzma"@, 0);
        assert(fs[9]@ == ".tar.lz4"@);
        lemma_suffixes_apart(lower, t, ".tar.lz4"@, 0);
        assert(fs[10]@ == ".tgz"@);
        lemma_suffixes_apart(lower, t, ".tgz"@, 0);
        assert(fs[11]@ == ".tbz2"@);
        lemma_suffixes_apart(lower, t, ".tbz2"@, 0);
        assert(fs[12]@ == ".tbz"@);
        lemma_suffixes_apart(lower, t, ".tbz"@, 0);
        assert(fs[13]@ == ".txz"@);
        lemma_suffixes_apart(lower, t, ".txz"@, 0);
        assert(fs[14]@ == ".tzst"@);
        lemma_suffixes_apart(lower, t, ".tzst"@, 0);
        assert(fs[15]@ == ".tlzma"@);
        lemma_suffixes_apart(lower, t, ".tlzma"@, 0);
        assert(fs[16]@ == ".tlz4"@);
        lemma_suffixes_apart(lower, t, ".tlz4"@, 0);
        lemma_suffixes_apart(lower, t, ".rar"@, 0);
        lemma_tail_char(lower, t, 1);
        assert(!is_digit(lower[lower.len() - 3 + 0]));
        assert forall|j: int| 0 <= j < 17 implies !ends_with(lower, #[trigger] fs[j]@) by {
            if j == 0 {} else if j == 1 {} else if j == 2 {} else if j == 3 {} else if j == 4 {} else if j == 5 {} else if j == 6 {} else if j == 7 {} else if j == 8 {} else if j == 9 {} else if j == 10 {} else if j == 11 {} else if j == 12 {} else if j == 13 {} else if j == 14 {} else if j == 15 {} else if j == 16 {}
        }
        lemma_first_suffix_at(lower, fs, 17);
    } else if m == 1 {
        let t = ".7z"@;
        assert(l[1] == t && fs[19]@ == t);
        assert(fs[0]@ == ".tar.gz"@);
        lemma_suffixes_apart(lower, t, ".tar.gz"@, 1);
        assert(fs[1]@ == ".tar.gzip"@);
        lemma_suffixes_apart(lower, t, ".tar.gzip"@, 0);
        assert(fs[2]@ == ".tar.bz2"@);
        lemma_suffixes_apart(lower, t, ".tar.bz2"@, 0);
        assert(fs[3]@ == ".tar.bzip2"@);
        lemma_suffixes_apart(lower, t, ".tar.bzip2"@, 0);
        assert(fs[4]@ == ".tar.xz"@);
        lemma_suffixes_apart(lower, t, ".tar.xz"@, 1);
        assert(fs[5]@ == ".tar.zst"@);
        lemma_suffixes_apart(lower, t, ".tar.zst"@, 0);
        assert(fs[6]@ == ".tar.zstd"@);
        lemma_suffixes_apart(lower, t, ".tar.zstd"@, 0);
        assert(fs[7]@ == ".tar.lzma2"@);
        lemma_suffixes_apart(lower, t, ".tar.lzma2"@, 0);
        assert(fs[8]@ == ".tar.lzma"@);
        lemma_suffixes_apart(lower, t, ".tar.lzma"@, 0);
        assert(fs[9]@ == ".tar.lz4"@);
        lemma_suffixes_apart(lower, t, ".tar.lz4"@, 0);
        assert(fs[10]@ == ".tgz"@);
        lemma_suffixes_apart(lower, t, ".tgz"@, 1);
        assert(fs[11]@ == ".tbz2"@);
        lemma_suffixes_apart(lower, t, ".tbz2"@, 0);
        assert(fs[12]@ == ".tbz"@);
        lemma_suffixes_apart(lower, t, ".tbz"@, 1);
        assert(fs[13]@ == ".txz"@);
        lemma_suffixes_apart(lower, t, ".txz"@, 1);
        assert(fs[14]@ == ".tzst"@);
        lemma_suffixes_apart(lower, t, ".tzst"@, 0);
        assert(fs[15]@ == ".tlzma"@);
        lemma_suffixes_apart(lower, t, ".tlzma"@, 0);
        assert(fs[16]@ == ".tlz4"@);
        lemma_suffixes_apart(lower, t, ".tlz4"@, 0);
        assert(fs[17]@ == ".zip"@);
        lemma_suffixes_apart(lower, t, ".zip"@, 0);
        assert(fs[18]@ == ".rar"@);
        lemma_suffixes_apart(lower, t, ".rar"@, 0);
        lemma_suffixes_apart(lower, t, ".rar"@, 0);
        lemma_tail_char(lower, t, 0);
        assert(!is_digit(lower[lower.len() - 3 + 0]));
        assert forall|j: int| 0 <= j < 19 implies !ends_with(lower, #[trigger] fs[j]@) by {
            if j == 0 {} else if j == 1 {} else if j == 2 {} else if j == 3 {} else if j == 4 {} else if j == 5 {} else if j == 6 {} else if j == 7 {} else if j == 8 {} else if j == 9 {} else if j == 10 {} else if j == 11 {} else if j == 12 {} else if j == 13 {} else if j == 14 {} else if j == 15 {} else if j == 16 {} else if j == 17 {} else if j == 18 {}
        }
        lemma_first_suffix_at(lower, fs, 19);
    } else if m == 2 {
        let t = ".tar"@;
        assert(l[2] == t && fs[20]@ == t);
        assert(fs[0]@ == ".tar.gz"@);
        lemma_suffixes_apart(lower, t, ".tar.gz"@, 0);
        assert(fs[1]@ == ".tar.gzip"@);
        lemma_suffixes_apart(lower, t, ".tar.gzip"@, 0);
        assert(fs[2]@ == ".tar.bz2"@);
        lemma_suffixes_apart(lower, t, ".tar.bz2"@, 0);
        assert(fs[3]@ == ".tar.bzip2"@);
        lemma_suffixes_apart(lower, t, ".tar.bzip2"@, 0);
        assert(fs[4]@ == ".tar.xz"@);
        lemma_suffixes_apart(lower, t, ".tar.xz"@, 0);
        assert(fs[5]@ == ".tar.zst"@);
        lemma_suffixes_apart(lower, t, ".tar.zst"@, 0);
        assert(fs[6]@ == ".tar.zstd"@);
        lemma_suffixes_apart(lower, t, ".tar.zstd"@, 0);
        assert(fs[7]@ == ".tar.lzma2"@);
        lemma_suffixes_apart(lower, t, ".tar.lzma2"@, 0);
        assert(fs[8]@ == ".tar.lzma"@);
        lemma_suffixes_apart(lower, t, ".tar.lzma"@, 0);
        assert(fs[9]@ == ".tar.lz4"@);
        lemma_suffixes_apart(lower, t, ".tar.lz4"@, 0);
        assert(fs[10]@ == ".tgz"@);
        lemma_suffixes_apart(lower, t, ".tgz"@, 0);
        assert(fs[11]@ == ".tbz2"@);
        lemma_suffixes_apart(lower, t, ".tbz2"@, 0);
        assert(fs[12]@ == ".tbz"@);
        lemma_suffixes_apart(lower, t, ".tbz"@, 0);
        assert(fs[13]@ == ".txz"@);
        lemma_suffixes_apart(lower, t, ".txz"@, 0);
        assert(fs[14]@ == ".tzst"@);
        lemma_suffixes_apart(lower, t, ".tzst"@, 0);
        assert(fs[15]@ == ".tlzma"@);
        lemma_suffixes_apart(lower, t, ".tlzma"@, 0);
        assert(fs[16]@ == ".tlz4"@);
        lemma_suffixes_apart(lower, t, ".tlz4"@, 0);
        assert(fs[17]@ == ".zip"@);
        lemma_suffixes_apart(lower, t, ".zip"@, 0);
        assert(fs[18]@ == ".rar"@);
        lemma_suffixes_apart(lower, t, ".rar"@, 2);
        assert(fs[19]@ == ".7z"@);
        lemma_suffixes_apart(lower, t, ".7z"@, 0);
        lemma_suffixes_apart(lower, t, ".rar"@, 2);
        lemma_tail_char(lower, t, 1);
        assert(!is_digit(lower[lower.len() - 3 + 0]));
        assert forall|j: int| 0 <= j < 20 implies !ends_with(lower, #[trigger] fs[j]@) by {
            if j == 0 {} else if j == 1 {} else if j == 2 {} else if j == 3 {} else if j == 4 {} else if j == 5 {} else if j == 6 {} else if j == 7 {} else if j == 8 {} else if j == 9 {} else if j == 10 {} else if j == 11 {} else if j == 12 {} else if j == 13 {} else if j == 14 {} else if j == 15 {} else if j == 16 {} else if j == 17 {} else if j == 18 {} else if j == 19 {}
        }
        lemma_first_suffix_at(lower, fs, 20);
    } else if m == 3 {
        let t = ".iso"@;
        assert(l[3] == t && fs[33]@ == t);
        assert(fs[0]@ == ".tar.gz"@);
        lemma_suffixes_apart(lower, t, ".tar.gz"@, 0);
        assert(fs[1]@ == ".tar.gzip"@);
        lemma_suffixes_apart(lower, t, ".tar.gzip"@, 0);
        assert(fs[2]@ == ".tar.bz2"@);
        lemma_suffixes_apart(lower, t, ".tar.bz2"@, 0);
        assert(fs[3]@ == ".tar.bzip2"@);
        lemma_suffixes_apart(lower, t, ".tar.bzip2"@, 0);
        assert(fs[4]@ == ".tar.xz"@);
        lemma_suffixes_apart(lower, t, ".tar.xz"@, 0);
        assert(fs[5]@ == ".tar.zst"@);
        lemma_suffixes_apart(lower, t, ".tar.zst"@, 0);
        assert(fs[6]@ == ".tar.zstd"@);
        lemma_suffixes_apart(lower, t, ".tar.zstd"@, 0);
        assert(fs[7]@ == ".tar.lzma2"@);
        lemma_suffixes_apart(lower, t, ".tar.lzma2"@, 0);
        assert(fs[8]@ == ".tar.lzma"@);
        lemma_suffixes_apart(lower, t, ".tar.lzma"@, 0);
        assert(fs[9]@ == ".tar.lz4"@);
        lemma_suffixes_apart(lower, t, ".tar.lz4"@, 0);
        assert(fs[10]@ == ".tgz"@);
        lemma_suffixes_apart(lower, t, ".tgz"@, 0);
        assert(fs[11]@ == ".tbz2"@);
        lemma_suffixes_apart(lower, t, ".tbz2"@, 0);
        assert(fs[12]@ == ".tbz"@);
        lemma_suffixes_apart(lower, t, ".tbz"@, 0);
        assert(fs[13]@ == ".txz"@);
        lemma_suffixes_apart(lower, t, ".txz"@, 0);
        assert(fs[14]@ == ".tzst"@);
        lemma_suffixes_apart(lower, t, ".tzst"@, 0);
        assert(fs[15]@ == ".tlzma"@);
        lemma_suffixes_apart(lower, t, ".tlzma"@, 0);
        assert(fs[16]@ == ".tlz4"@);
        lemma_suffixes_apart(lower, t, ".tlz4"@, 0);
        assert(fs[17]@ == ".zip"@);
        lemma_suffixes_apart(lower, t, ".zip"@, 0);
        assert(fs[18]@ == ".rar"@);
        lemma_suffixes_apart(lower, t, ".rar"@, 0);
        assert(fs[19]@ == ".7z"@);
        lemma_suffixes_apart(lower, t, ".7z"@, 0);
        assert(fs[20]@ == ".tar"@);
        lemma_suffixes_apart(lower, t, ".tar"@, 0);
        assert(fs[21]@ == ".gzip"@);
        lemma_suffixes_apart(lower, t, ".gzip"@, 0);
        assert(fs[22]@ == ".bzip2"@);
        lemma_suffixes_apart(lower, t, ".bzip2"@, 0);
        assert(fs[23]@ == ".gz"@);
        lemma_suffixes_apart(lower, t, ".gz"@, 0);
        assert(fs[24]@ == ".bz2"@);
        lemma_suffixes_apart(lower, t, ".bz2"@, 0);
        assert(fs[25]@ == ".xz"@);
        lemma_suffixes_apart(lower, t, ".xz"@, 0);
        assert(fs[26]@ == ".lzh"@);
        lemma_suffixes_apart(lower, t, ".lzh"@, 0);
        assert(fs[27]@ == ".lha"@);
        lemma_suffixes_apart(lower, t, ".lha"@, 0);
        assert(fs[28]@ == ".zstd"@);
        lemma_suffixes_apart(lower, t, ".zstd"@, 0);
        assert(fs[29]@ == ".zst"@);
        lemma_suffixes_apart(lower, t, ".zst"@, 0);
        assert(fs[30]@ == ".lzma2"@);
        lemma_suffixes_apart(lower, t, ".lzma2"@, 0);
        assert(fs[31]@ == ".lzma"@);
        lemma_suffixes_apart(lower, t, ".lzma"@, 0);
        assert(fs[32]@ == ".lz4"@);
        lemma_suffixes_apart(lower, t, ".lz4"@, 0);
        lemma_suffixes_apart(lower, t, ".rar"@, 0);
        lemma_tail_char(lower, t, 1);
        assert(!is_digit(lower[lower.len() - 3 + 0]));
        assert forall|j: int| 0 <= j < 33 implies !ends_with(lower, #[trigger] fs[j]@) by {
            if j == 0 {} else if j == 1 {} else if j == 2 {} else if j == 3 {} else if j == 4 {} else if j == 5 {} else if j == 6 {} else if j == 7 {} else if j == 8 {} else if j == 9 {} else if j == 10 {} else if j == 11 {} else if j == 12 {} else if j == 13 {} else if j == 14 {} else if j == 15 {} else if j == 16 {} else if j == 17 {} else if j == 18 {} else if j == 19 {} else if j == 20 {} else if j == 21 {} else if j == 22 {} else if j == 23 {} else if j == 24 {} else if j == 25 {} else if j == 26 {} else if j == 27 {} else if j == 28 {} else if j == 29 {} else if j == 30 {} else if j == 31 {} else if j == 32 {}
        }
        lemma_first_suffix_at(lower, fs, 33);
    } else if m == 4 {
        let t = ".lzh"@;
        assert(l[4] == t && fs[26]@ == t);
        assert(fs[0]@ == ".tar.gz"@);
        lemma_suffixes_apart(lower, t, ".tar.gz"@, 0);
        assert(fs[1]@ == ".tar.gzip"@);
        lemma_suffixes_apart(lower, t, ".tar.gzip"@, 0);
        assert(fs[2]@ == ".tar.bz2"@);
        lemma_suffixes_apart(lower, t, ".tar.bz2"@, 0);
        assert(fs[3]@ == ".tar.bzip2"@);
        lemma_suffixes_apart(lower, t, ".tar.bzip2"@, 0);
        assert(fs[4]@ == ".tar.xz"@);
        lemma_suffixes_apart(lower, t, ".tar.xz"@, 0);
        assert(fs[5]@ == ".tar.zst"@);
        lemma_suffixes_apart(lower, t, ".tar.zst"@, 0);
        assert(fs[6]@ == ".tar.zstd"@);
        lemma_suffixes_apart(lower, t, ".tar.zstd"@, 0);
        assert(fs[7]@ == ".tar.lzma2"@);
        lemma_suffixes_apart(lower, t, ".tar.lzma2"@, 0);
        assert(fs[8]@ == ".tar.lzma"@);
        lemma_suffixes_apart(lower, t, ".tar.lzma"@, 0);
        assert(fs[9]@ == ".tar.lz4"@);
        lemma_suffixes_apart(lower, t, ".tar.lz4"@, 0);
        assert(fs[10]@ == ".tgz"@);
        lemma_suffixes_apart(lower, t, ".tgz"@, 0);
        assert(fs[11]@ == ".tbz2"@);
        lemma_suffixes_apart(lower, t, ".tbz2"@, 0);
        assert(fs[12]@ == ".tbz"@);
        lemma_suffixes_apart(lower, t, ".tbz"@, 0);
        assert(fs[13]@ == ".txz"@);
        lemma_suffixes_apart(lower, t, ".txz"@, 0);
        assert(fs[14]@ == ".tzst"@);
        lemma_suffixes_apart(lower, t, ".tzst"@, 0);
        assert(fs[15]@ == ".tlzma"@);
        lemma_suffixes_apart(lower, t, ".tlzma"@, 0);
        assert(fs[16]@ == ".tlz4"@);
        lemma_suffixes_apart(lower, t, ".tlz4"@, 0);
        assert(fs[17]@ == ".zip"@);
        lemma_suffixes_apart(lower, t, ".zip"@, 0);
        assert(fs[18]@ == ".rar"@);
        lemma_suffixes_apart(lower, t, ".rar"@, 0);
        assert(fs[19]@ == ".7z"@);
        lemma_suffixes_apart(lower, t, ".7z"@, 0);
        assert(fs[20]@ == ".tar"@);
        lemma_suffixes_apart(lower, t, ".tar"@, 0);
        assert(fs[21]@ == ".gzip"@);
        lemma_suffixes_apart(lower, t, ".gzip"@, 0);
        assert(fs[22]@ == ".bzip2"@);
        lemma_suffixes_apart(lower, t, ".bzip2"@, 0);
        assert(fs[23]@ == ".gz"@);
        lemma_suffixes_apart(lower, t, ".gz"@, 0);
        assert(fs[24]@ == ".bz2"@);
        lemma_suffixes_apart(lower, t, ".bz2"@, 0);
        assert(fs[25]@ == ".xz"@);
        lemma_suffixes_apart(lower, t, ".xz"@, 0);
        lemma_suffixes_apart(lower, t, ".rar"@, 0);
        lemma_tail_char(lower, t, 1);
        assert(!is_digit(lower[lower.len() - 3 + 0]));
        assert forall|j: int| 0 <= j < 26 implies !ends_with(lower, #[trigger] fs[j]@) by {
            if j == 0 {} else if j == 1 {} else if j == 2 {} else if j == 3 {} else if j == 4 {} else if j == 5 {} else if j == 6 {} else if j == 7 {} else if j == 8 {} else if j == 9 {} else if j == 10 {} else if j == 11 {} else if j == 12 {} else if j == 13 {} else if j == 14 {} else if j == 15 {} else if j == 16 {} else if j == 17 {} else if j == 18 {} else if j == 19 {} else if j == 20 {} else if j == 21 {} else if j == 22 {} else if j == 23 {} else if j == 24 {} else if j == 25 {}
        }
        lemma_first_suffix_at(lower, fs, 26);
    } else if m == 5 {
        let t = ".lha"@;
        assert(l[5] == t && fs[27]@ == t);
        assert(fs[0]@ == ".tar.gz"@);
        lemma_suffixes_apart(lower, t, ".tar.gz"@, 0);
        assert(fs[1]@ == ".tar.gzip"@);
        lemma_suffixes_apart(lower, t, ".tar.gzip"@, 0);
        assert(fs[2]@ == ".tar.bz2"@);
        lemma_suffixes_apart(lower, t, ".tar.bz2"@, 0);
        assert(fs[3]@ == ".tar.bzip2"@);
        lemma_suffixes_apart(lower, t, ".tar.bzip2"@, 0);
        assert(fs[4]@ == ".tar.xz"@);
        lemma_suffixes_apart(lower, t, ".tar.xz"@, 0);
        assert(fs[5]@ == ".tar.zst"@);
        lemma_suffixes_apart(lower, t, ".tar.zst"@, 0);
        assert(fs[6]@ == ".tar.zstd"@);
        lemma_suffixes_apart(lower, t, ".tar.zstd"@, 0);
        assert(fs[7]@ == ".tar.lzma2"@);
        lemma_suffixes_apart(lower, t, ".tar.lzma2"@, 0);
        assert(fs[8]@ == ".tar.lzma"@);
        lemma_suffixes_apart(lower, t, ".tar.lzma"@, 1);
        assert(fs[9]@ == ".tar.lz4"@);
        lemma_suffixes_apart(lower, t, ".tar.lz4"@, 0);
        assert(fs[10]@ == ".tgz"@);
        lemma_suffixes_apart(lower, t, ".tgz"@, 0);
        assert(fs[11]@ == ".tbz2"@);
        lemma_suffixes_apart(lower, t, ".tbz2"@, 0);
        assert(fs[12]@ == ".tbz"@);
        lemma_suffixes_apart(lower, t, ".tbz"@, 0);
        assert(fs[13]@ == ".txz"@);
        lemma_suffixes_apart(lower, t, ".txz"@, 0);
        assert(fs[14]@ == ".tzst"@);
        lemma_suffixes_apart(lower, t, ".tzst"@, 0);
        assert(fs[15]@ == ".tlzma"@);
        lemma_suffixes_apart(lower, t, ".tlzma"@, 1);
        assert(fs[16]@ == ".tlz4"@);
        lemma_suffixes_apart(lower, t, ".tlz4"@, 0);
        assert(fs[17]@ == ".zip"@);
        lemma_suffixes_apart(lower, t, ".zip"@, 0);
        assert(fs[18]@ == ".rar"@);
        lemma_suffixes_apart(lower, t, ".rar"@, 0);
        assert(fs[19]@ == ".7z"@);
        lemma_suffixes_apart(lower, t, ".7z"@, 0);
        assert(fs[20]@ == ".tar"@);
        lemma_suffixes_apart(lower, t, ".tar"@, 0);
        assert(fs[21]@ == ".gzip"@);
        lemma_suffixes_apart(lower, t, ".gzip"@, 0);
        assert(fs[22]@ == ".bzip2"@);
        lemma_suffixes_apart(lower, t, ".bzip2"@, 0);
        assert(fs[23]@ == ".gz"@);
        lemma_suffixes_apart(lower, t, ".gz"@, 0);
        assert(fs[24]@ == ".bz2"@);
        lemma_suffixes_apart(lower, t, ".bz2"@, 0);
        assert(fs[25]@ == ".xz"@);
        lemma_suffixes_apart(lower, t, ".xz"@, 0);
        assert(fs[26]@ == ".lzh"@);
        lemma_suffixes_apart(lower, t, ".lzh"@, 0);
        lemma_suffixes_apart(lower, t, ".rar"@, 0);
        lemma_tail_char(lower, t, 1);
        assert(!is_digit(lower[lower.len() - 3 + 0]));
        assert forall|j: int| 0 <= j < 27 implies !ends_with(lower, #[trigger] fs[j]@) by {
            if j == 0 {} else if j == 1 {} else if j == 2 {} else if j == 3 {} else if j == 4 {} else if j == 5 {} else if j == 6 {} else if j == 7 {} else if j == 8 {} else if j == 9 {} else if j == 10 {} else if j == 11 {} else if j == 12 {} else if j == 13 {} else if j == 14 {} else if j == 15 {} else if j == 16 {} else if j == 17 {} else if j == 18 {} else if j == 19 {} else if j == 20 {} else if j == 21 {} else if j == 22 {} else if j == 23 {} else if j == 24 {} else if j == 25 {} else if j == 26 {}
        }
        lemma_first_suffix_at(lower, fs, 27);
    }
}

/// The plain archive suffixes whose archives are extracted into a folder named without them.
pub open spec fn plain_archive_suffixes() -> Seq<Seq<char>> {
    seq![".zip"@, ".7z"@, ".tar"@, ".iso"@, ".lzh"@, ".lha"@]
}

/// A ZIP, 7Z, TAR, ISO or LZH/LHA archive is extracted into a folder named after it without
/// its extension (in any ASCII case): `photos.ZIP` goes into `photos`.
pub proof fn law_plain_archives_lose_their_extension(path: Seq<char>, m: int)
    requires
        0 <= m < plain_archive_suffixes().len(),
        ends_with(ascii_lower(name_or_empty(path)), plain_archive_suffixes()[m]),
    ensures
        spec_archive_output_folder_name(path) == spec_sanitize_path_segment(
            name_or_empty(path).take(
                name_or_empty(path).len() - plain_archive_suffixes()[m].len(),
            ),
        ),
{
    let name = name_or_empty(path);
    let lower = ascii_lower(name);
    lemma_plain_archive_suffix_facts(lower, m);
    assert(rar_part_number(lower) is None);
    if numeric_split_volume_number(lower) is Some {
        let i = last_index_of(lower, '.');
        crate::text::lemma_last_index_of_before_bounds(lower, '.', lower.len() as int);
        let ext = lower.skip(i + 1);
        assert(ext.len() == 3 && all_digits(ext));
        assert(i + 1 == lower.len() - 3);
        let w = choose|w: int| 0 <= w < 3 && !is_digit(#[trigger] lower[lower.len() - 3 + w]);
        assert(ext[w] == lower[lower.len() - 3 + w]);
        assert(false);
    }
}

/// Every name that reads as a compressed TAR archive (except `.tar.Z`, whose folder only loses
/// `.Z`) ends with one of the suffixes that its folder name loses whole.
pub proof fn law_compressed_tar_names_have_a_dropped_suffix(lower: Seq<char>)
    requires
        compressed_tar_format(lower) is Some,
        !ends_with(lower, ".tar.z"@),
    ensures
        exists|m: int|
            0 <= m < compressed_tar_suffixes().len() && ends_with(
                lower,
                #[trigger] compressed_tar_suffixes()[m],
            ),
{
    let l = compressed_tar_suffixes();
    if ends_with(lower, l[0]) {
    } else if ends_with(lower, l[1]) {
    } else if ends_with(lower, l[2]) {
    } else if ends_with(lower, l[3]) {
    } else if ends_with(lower, l[4]) {
    } else if ends_with(lower, l[5]) {
    } else if ends_with(lower, l[6]) {
    } else if ends_with(lower, l[7]) {
    } else if ends_with(lower, l[8]) {
    } else if ends_with(lower, l[9]) {
    } else if ends_with(lower, l[10]) {
    } else if ends_with(lower, l[11]) {
    } else if ends_with(lower, l[12]) {
    } else if ends_with(lower, l[13]) {
    } else if ends_with(lower, l[14]) {
    } else if ends_with(lower, l[15]) {
    } else {
        assert(ends_with(lower, l[16]));
    }
}

} // verus!

