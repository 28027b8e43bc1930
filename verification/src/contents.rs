//! The entries of an archive, and what is derived from a list of them: its folders, a summary
//! of what deserves a warning, and the entries that an extraction or a drag works on.
use vstd::prelude::*;
use crate::entries::{
    spec_archive_entry_has_unsafe_path, spec_promised_archive_entry_name,
    spec_strip_archive_entry_prefix, archive_entry_has_unsafe_path, promised_archive_entry_name,
    strip_archive_entry_prefix,
};
use crate::formats::{single_stream_output_name, spec_single_stream_output_name};
use crate::paths::{components, components_of, join_all, push_path, push_path_chars};
use crate::text::{
    chars_eq, chars_of, extend_chars, insert_sorted, is_blank, push_string, slice_chars,
    starts_with, starts_with_chars, str_eq, string_of, string_views, strictly_sorted, trim,
    trim_chars, trim_end_char, trim_end_char_chars, views,
};

verus! {

/// An entry of an archive, as its listing shows it.
#[derive(Debug)]
pub struct ArchiveEntry {
    pub name: String,
    pub path: String,
    /// `folder`, or the kind of file its extension names.
    pub kind: String,
    pub type_label: String,
    pub size: u64,
    pub modified_label: String,
    pub crc: Option<String>,
    pub method: Option<String>,
    pub is_encrypted: bool,
    pub is_hidden: bool,
    pub is_executable: bool,
    pub is_unsafe_path: bool,
}

/// An entry that an extraction works on.
#[derive(Debug)]
pub struct ExtractTaskEntry {
    /// The entry's path inside the archive.
    pub path: String,
    /// The relative path it is shown and written under.
    pub display_path: String,
    pub size: u64,
    pub is_dir: bool,
    pub is_unsafe_path: bool,
}

/// How many entries of an archive deserve a warning, and the first few of them.
#[derive(Debug)]
pub struct ArchiveSafetySummary {
    pub unsafe_paths: usize,
    pub hidden_files: usize,
    pub executables: usize,
    pub samples: Vec<String>,
}

// ---------------------------------------------------------------------------
// Unsafe entries
// ---------------------------------------------------------------------------

/// The shown path of the first entry whose path is unsafe.
pub open spec fn first_unsafe_display_path(es: Seq<ExtractTaskEntry>) -> Option<Seq<char>>
    decreases es.len(),
{
    if es.len() == 0 {
        None
    } else if es[0].is_unsafe_path {
        Some(es[0].display_path@)
    } else {
        first_unsafe_display_path(es.drop_first())
    }
}

/// Without a first unsafe entry, no entry is unsafe.
pub proof fn lemma_no_unsafe_display_path(es: Seq<ExtractTaskEntry>)
    ensures
        first_unsafe_display_path(es) is None ==> forall|k: int|
            0 <= k < es.len() ==> !(#[trigger] es[k]).is_unsafe_path,
    decreases es.len(),
{
    if es.len() > 0 {
        lemma_no_unsafe_display_path(es.drop_first());
        if first_unsafe_display_path(es) is None {
            assert forall|k: int| 0 <= k < es.len() implies !(#[trigger] es[k]).is_unsafe_path by {
                if k > 0 {
                    assert(es[k] == es.drop_first()[k - 1]);
                }
            }
        }
    }
}

/// Extraction is refused when an entry's path is unsafe; the error names the first such entry.
pub open spec fn spec_ensure_safe_archive_entry_paths(es: Seq<ExtractTaskEntry>) -> Result<
    (),
    Seq<char>,
> {
    match first_unsafe_display_path(es) {
        Some(d) => Err("压缩包包含不安全路径，已阻止解压："@ + d),
        None => Ok(()),
    }
}

/// Refuses a list of entries to extract when one of them has an unsafe path.
pub fn ensure_safe_archive_entry_paths(entries: &[ExtractTaskEntry]) -> (r: Result<(), String>)
    ensures
        match r {
            Ok(()) => spec_ensure_safe_archive_entry_paths(entries@) == Ok::<(), Seq<char>>(()),
            Err(m) => spec_ensure_safe_archive_entry_paths(entries@) == Err::<(), Seq<char>>(m@),
        },
        r is Ok ==> forall|k: int| 0 <= k < entries@.len() ==> !(#[trigger] entries@[k]).is_unsafe_path,
{
    proof {
        lemma_no_unsafe_display_path(entries@);
    }
    let mut i: usize = 0;
    assert(entries@.skip(0) == entries@);
    while i < entries.len()
        invariant
            i <= entries.len(),
            first_unsafe_display_path(entries@) == first_unsafe_display_path(
                entries@.skip(i as int),
            ),
        decreases entries.len() - i,
    {
        assert(entries@.skip(i as int).drop_first() == entries@.skip(i + 1));
        if entries[i].is_unsafe_path {
            let mut m = chars_of("压缩包包含不安全路径，已阻止解压：");
            let d = chars_of(entries[i].display_path.as_str());
            extend_chars(&mut m, &d);
            return Err(string_of(&m));
        }
        i = i + 1;
    }
    Ok(())
}

// ---------------------------------------------------------------------------
// Safety summary
// ---------------------------------------------------------------------------

/// Whether an entry deserves a warning.
pub open spec fn is_flagged(e: ArchiveEntry) -> bool {
    e.is_unsafe_path || e.is_hidden || e.is_executable
}

/// The number of entries with an unsafe path.
pub open spec fn count_unsafe(es: Seq<ArchiveEntry>) -> nat
    decreases es.len(),
{
    if es.len() == 0 {
        0
    } else {
        count_unsafe(es.drop_last()) + if es.last().is_unsafe_path {
            1nat
        } else {
            0nat
        }
    }
}

/// The number of hidden entries.
pub open spec fn count_hidden(es: Seq<ArchiveEntry>) -> nat
    decreases es.len(),
{
    if es.len() == 0 {
        0
    } else {
        count_hidden(es.drop_last()) + if es.last().is_hidden {
            1nat
        } else {
            0nat
        }
    }
}

/// The number of executable entries.
pub open spec fn count_executable(es: Seq<ArchiveEntry>) -> nat
    decreases es.len(),
{
    if es.len() == 0 {
        0
    } else {
        count_executable(es.drop_last()) + if es.last().is_executable {
            1nat
        } else {
            0nat
        }
    }
}

/// The paths of the entries that deserve a warning, in order.
pub open spec fn flagged_paths(es: Seq<ArchiveEntry>) -> Seq<Seq<char>>
    decreases es.len(),
{
    if es.len() == 0 {
        Seq::<Seq<char>>::empty()
    } else if is_flagged(es.last()) {
        flagged_paths(es.drop_last()).push(es.last().path@)
    } else {
        flagged_paths(es.drop_last())
    }
}

proof fn lemma_counts_bounded(es: Seq<ArchiveEntry>)
    ensures
        count_unsafe(es) <= es.len(),
        count_hidden(es) <= es.len(),
        count_executable(es) <= es.len(),
    decreases es.len(),
{
    if es.len() > 0 {
        lemma_counts_bounded(es.drop_last());
    }
}

/// How many entries have an unsafe path, are hidden or are executable, and the paths of the
/// first four entries that are any of these.
pub fn archive_safety_summary(entries: &[ArchiveEntry]) -> (r: ArchiveSafetySummary)
    ensures
        r.unsafe_paths == count_unsafe(entries@),
        r.hidden_files == count_hidden(entries@),
        r.executables == count_executable(entries@),
        string_views(r.samples@) == flagged_paths(entries@).take(
            if flagged_paths(entries@).len() < 4 {
                flagged_paths(entries@).len() as int
            } else {
                4
            },
        ),
{
    let mut unsafe_paths: usize = 0;
    let mut hidden_files: usize = 0;
    let mut executables: usize = 0;
    let mut samples: Vec<String> = Vec::new();
    let mut i: usize = 0;
    while i < entries.len()
        invariant
            i <= entries.len(),
            unsafe_paths == count_unsafe(entries@.take(i as int)),
            hidden_files == count_hidden(entries@.take(i as int)),
            executables == count_executable(entries@.take(i as int)),
            string_views(samples@) == flagged_paths(entries@.take(i as int)).take(
                if flagged_paths(entries@.take(i as int)).len() < 4 {
                    flagged_paths(entries@.take(i as int)).len() as int
                } else {
                    4
                },
            ),
        decreases entries.len() - i,
    {
        let ghost before = entries@.take(i as int);
        proof {
            assert(entries@.take(i + 1).drop_last() == before);
            lemma_counts_bounded(before);
        }
        let e = &entries[i];
        if e.is_unsafe_path {
            unsafe_paths = unsafe_paths + 1;
        }
        if e.is_hidden {
            hidden_files = hidden_files + 1;
        }
        if e.is_executable {
            executables = executables + 1;
        }
        if (e.is_unsafe_path || e.is_hidden || e.is_executable) && samples.len() < 4 {
            push_string(&mut samples, e.path.clone());
        }
        proof {
            let after = entries@.take(i + 1);
            let fb = flagged_paths(before);
            let fa = flagged_paths(after);
            if is_flagged(entries@[i as int]) {
                assert(fa == fb.push(entries@[i as int].path@));
            } else {
                assert(fa == fb);
            }
            assert(string_views(samples@) =~= fa.take(
                if fa.len() < 4 {
                    fa.len() as int
                } else {
                    4
                },
            ));
        }
        i = i + 1;
    }
    assert(entries@.take(entries.len() as int) == entries@);
    ArchiveSafetySummary { unsafe_paths, hidden_files, executables, samples }
}

// ---------------------------------------------------------------------------
// Folders
// ---------------------------------------------------------------------------

/// How many leading components of an entry's path name folders: all of them for a folder,
/// all but the last for a file.
pub open spec fn folder_depth(n: nat, is_folder: bool) -> nat {
    if is_folder {
        n
    } else if n > 0 {
        (n - 1) as nat
    } else {
        0
    }
}

/// `f` is the folder made of the first `j` components of `path`.
pub open spec fn entry_folder_at(path: Seq<char>, is_folder: bool, f: Seq<char>, j: int) -> bool {
    1 <= j <= folder_depth(components(path).len(), is_folder) && f == join_all(
        components(path).take(j),
    ) && f.len() > 0
}

/// Whether an entry is a folder.
pub open spec fn is_folder_kind(e: ArchiveEntry) -> bool {
    e.kind@ == "folder"@
}

/// `f` is a folder that the entry `e` lies in (or, for a folder entry, is).
pub open spec fn is_entry_folder(e: ArchiveEntry, f: Seq<char>) -> bool {
    exists|j: int| #[trigger] entry_folder_at(e.path@, is_folder_kind(e), f, j)
}

/// `f` is a folder of one of the entries.
pub open spec fn is_listed_folder(es: Seq<ArchiveEntry>, f: Seq<char>) -> bool {
    exists|i: int| 0 <= i < es.len() && #[trigger] is_entry_folder(es[i], f)
}

/// Every folder of the archive, once each and sorted: the folders that its entries lie in and
/// its folder entries.
pub fn collect_folders(entries: &[ArchiveEntry]) -> (r: Vec<String>)
    ensures
        strictly_sorted(string_views(r@)),
        forall|f: Seq<char>| #[trigger]
            string_views(r@).contains(f) <==> is_listed_folder(entries@, f),
{
    let mut folders: Vec<Vec<char>> = Vec::new();
    let mut i: usize = 0;
    while i < entries.len()
        invariant
            i <= entries.len(),
            strictly_sorted(views(folders@)),
            forall|f: Seq<char>| #[trigger]
                views(folders@).contains(f) <==> exists|k: int|
                    0 <= k < i && #[trigger] is_entry_folder(entries@[k], f),
        decreases entries.len() - i,
    {
        let e = &entries[i];
        let p = chars_of(e.path.as_str());
        let comps = components_of(&p);
        let is_folder = str_eq(e.kind.as_str(), "folder");
        let depth = if is_folder {
            comps.len()
        } else if comps.len() > 0 {
            comps.len() - 1
        } else {
            0
        };
        let ghost cs = views(comps@);
        let mut current: Vec<char> = Vec::new();
        let mut j: usize = 0;
        assert(cs.take(0) =~= Seq::<Seq<char>>::empty());
        while j < depth
            invariant
                i < entries.len(),
                j <= depth,
                depth == folder_depth(cs.len(), is_folder),
                cs == views(comps@),
                cs == components(entries@[i as int].path@),
                is_folder == is_folder_kind(entries@[i as int]),
                current@ == join_all(cs.take(j as int)),
                strictly_sorted(views(folders@)),
                forall|f: Seq<char>| #[trigger]
                    views(folders@).contains(f) <==> (exists|k: int|
                        0 <= k < i && #[trigger] is_entry_folder(entries@[k], f)) || (exists|jj: int|
                        1 <= jj <= j && #[trigger] entry_folder_at(
                            entries@[i as int].path@,
                            is_folder,
                            f,
                            jj,
                        )),
            decreases depth - j,
        {
            assert(cs.take(j + 1).drop_last() == cs.take(j as int));
            assert(cs.take(j + 1).last() == comps@[j as int]@);
            push_path_chars(&mut current, &comps[j]);
            assert(current@ == join_all(cs.take(j + 1)));
            let ghost old_folders = views(folders@);
            let ghost cur = current@;
            if current.len() > 0 {
                let copy = slice_chars(&current, 0, current.len());
                assert(copy@ == current@);
                insert_sorted(&mut folders, copy);
            }
            proof {
                let path = entries@[i as int].path@;
                assert(cur.len() > 0 ==> entry_folder_at(path, is_folder, cur, j + 1));
                assert forall|f: Seq<char>| #[trigger]
                    views(folders@).contains(f) <==> (exists|k: int|
                        0 <= k < i && #[trigger] is_entry_folder(entries@[k], f)) || (exists|jj: int|
                        1 <= jj <= j + 1 && #[trigger] entry_folder_at(path, is_folder, f, jj)) by {
                    if exists|jj: int| 1 <= jj <= j + 1 && #[trigger] entry_folder_at(
                        path,
                        is_folder,
                        f,
                        jj,
                    ) {
                        let jj = choose|jj: int|
                            1 <= jj <= j + 1 && #[trigger] entry_folder_at(path, is_folder, f, jj);
                        if jj <= j {
                            assert(old_folders.contains(f));
                        } else {
                            assert(f == cur);
                        }
                    }
                }
            }
            j = j + 1;
        }
        proof {
            assert forall|f: Seq<char>| #[trigger]
                views(folders@).contains(f) <==> exists|k: int|
                    0 <= k < i + 1 && #[trigger] is_entry_folder(entries@[k], f) by {
                if is_entry_folder(entries@[i as int], f) {
                    let jj = choose|jj: int|
                        #[trigger] entry_folder_at(entries@[i as int].path@, is_folder, f, jj);
                    assert(1 <= jj <= j);
                }
                if exists|jj: int|
                    1 <= jj <= j && #[trigger] entry_folder_at(
                        entries@[i as int].path@,
                        is_folder,
                        f,
                        jj,
                    ) {
                    assert(is_entry_folder(entries@[i as int], f));
                }
            }
        }
        i = i + 1;
    }
    let mut r: Vec<String> = Vec::new();
    let mut k: usize = 0;
    while k < folders.len()
        invariant
            k <= folders.len(),
            string_views(r@) == views(folders@).take(k as int),
        decreases folders.len() - k,
    {
        push_string(&mut r, string_of(&folders[k]));
        assert(views(folders@).take(k + 1) == views(folders@).take(k as int).push(folders@[k as int]@));
        k = k + 1;
    }
    assert(views(folders@).take(folders.len() as int) == views(folders@));
    proof {
        assert forall|f: Seq<char>| #[trigger]
            string_views(r@).contains(f) <==> is_listed_folder(entries@, f) by {
            if is_listed_folder(entries@, f) {
                let k = choose|k: int| 0 <= k < entries@.len() && #[trigger] is_entry_folder(entries@[k], f);
                assert(0 <= k < entries.len());
            }
        }
    }
    r
}

// ---------------------------------------------------------------------------
// Entries that an extraction works on
// ---------------------------------------------------------------------------

/// A copy of an extraction entry.
pub fn copy_task_entry(e: &ExtractTaskEntry) -> (r: ExtractTaskEntry)
    ensures
        r == *e,
{
    ExtractTaskEntry {
        path: e.path.clone(),
        display_path: e.display_path.clone(),
        size: e.size,
        is_dir: e.is_dir,
        is_unsafe_path: e.is_unsafe_path,
    }
}

/// `t` is the extraction entry for the listed entry `e`: a folder counts one byte, a file its
/// size but at least one byte.
pub open spec fn is_task_entry_of(t: ExtractTaskEntry, e: ArchiveEntry) -> bool {
    &&& t.path@ == e.path@
    &&& t.display_path@ == spec_strip_archive_entry_prefix(e.path@)
    &&& t.size == if is_folder_kind(e) || e.size == 0 {
        1
    } else {
        e.size
    }
    &&& t.is_dir == is_folder_kind(e)
    &&& t.is_unsafe_path == e.is_unsafe_path
}

/// The extraction entry for a listed entry.
pub fn task_entry_from_listing(e: &ArchiveEntry) -> (t: ExtractTaskEntry)
    ensures
        is_task_entry_of(t, *e),
{
    let is_dir = str_eq(e.kind.as_str(), "folder");
    ExtractTaskEntry {
        path: e.path.clone(),
        display_path: strip_archive_entry_prefix(e.path.as_str()),
        size: if is_dir || e.size == 0 {
            1
        } else {
            e.size
        },
        is_dir,
        is_unsafe_path: e.is_unsafe_path,
    }
}

/// The extraction entries for a listing.
pub fn task_entries_from_listing(entries: &[ArchiveEntry]) -> (r: Vec<ExtractTaskEntry>)
    ensures
        r@.len() == entries@.len(),
        forall|k: int| 0 <= k < r@.len() ==> is_task_entry_of(#[trigger] r@[k], entries@[k]),
{
    let mut r: Vec<ExtractTaskEntry> = Vec::new();
    let mut i: usize = 0;
    while i < entries.len()
        invariant
            i <= entries.len(),
            r@.len() == i,
            forall|k: int| 0 <= k < i ==> is_task_entry_of(#[trigger] r@[k], entries@[k]),
        decreases entries.len() - i,
    {
        r.push(task_entry_from_listing(&entries[i]));
        i = i + 1;
    }
    r
}

/// The extraction entry for a file compressed as a single stream: the file it decompresses to.
pub fn single_stream_task_entry(archive_path: &str, archive_size: u64) -> (t: ExtractTaskEntry)
    ensures
        t.path@ == spec_single_stream_output_name(archive_path@),
        t.display_path@ == spec_single_stream_output_name(archive_path@),
        t.size == if archive_size == 0 {
            1
        } else {
            archive_size
        },
        !t.is_dir,
        !t.is_unsafe_path,
{
    let name = single_stream_output_name(archive_path);
    ExtractTaskEntry {
        path: name.clone(),
        display_path: name,
        size: if archive_size == 0 {
            1
        } else {
            archive_size
        },
        is_dir: false,
        is_unsafe_path: false,
    }
}

/// The requested paths that are not blank, in order.
pub open spec fn nonblank_paths(rs: Seq<String>) -> Seq<Seq<char>>
    decreases rs.len(),
{
    if rs.len() == 0 {
        Seq::<Seq<char>>::empty()
    } else if trim(rs.last()@).len() > 0 {
        nonblank_paths(rs.drop_last()).push(rs.last()@)
    } else {
        nonblank_paths(rs.drop_last())
    }
}

/// The first listed entry whose path is `p`.
pub open spec fn find_listed(listing: Seq<ExtractTaskEntry>, p: Seq<char>) -> Option<ExtractTaskEntry>
    decreases listing.len(),
{
    if listing.len() == 0 {
        None
    } else if listing[0].path@ == p {
        Some(listing[0])
    } else {
        find_listed(listing.drop_first(), p)
    }
}

/// `t` is the extraction entry for the requested path `p`: its size and kind come from the
/// listed entry with that path, or are one byte and "a folder when it ends with `/`" when none
/// is listed.
pub open spec fn is_selected_entry(t: ExtractTaskEntry, listing: Seq<ExtractTaskEntry>, p: Seq<char>) -> bool {
    &&& t.path@ == p
    &&& t.display_path@ == spec_strip_archive_entry_prefix(p)
    &&& t.is_unsafe_path == spec_archive_entry_has_unsafe_path(p)
    &&& match find_listed(listing, p) {
        Some(l) => t.size == (if l.size == 0 {
            1
        } else {
            l.size
        }) && t.is_dir == l.is_dir,
        None => t.size == 1 && t.is_dir == (p.len() > 0 && p.last() == '/'),
    }
}

/// The shown path of the first requested path that is unsafe.
pub open spec fn first_unsafe_request(req: Seq<Seq<char>>) -> Option<Seq<char>>
    decreases req.len(),
{
    if req.len() == 0 {
        None
    } else if spec_archive_entry_has_unsafe_path(req[0]) {
        Some(spec_strip_archive_entry_prefix(req[0]))
    } else {
        first_unsafe_request(req.drop_first())
    }
}

/// Without a first unsafe requested path, no requested path is unsafe.
pub proof fn lemma_no_unsafe_request(req: Seq<Seq<char>>)
    ensures
        first_unsafe_request(req) is None ==> forall|k: int|
            0 <= k < req.len() ==> !spec_archive_entry_has_unsafe_path(#[trigger] req[k]),
    decreases req.len(),
{
    if req.len() > 0 {
        lemma_no_unsafe_request(req.drop_first());
        if first_unsafe_request(req) is None {
            assert forall|k: int|
                0 <= k < req.len() implies !spec_archive_entry_has_unsafe_path(#[trigger] req[k]) by {
                if k > 0 {
                    assert(req[k] == req.drop_first()[k - 1]);
                }
            }
        }
    }
}

/// Why an extraction is refused: an unsafe requested path when paths are requested, else an
/// unsafe listed entry.
pub open spec fn plan_extract_error(requested: Seq<String>, listing: Seq<ExtractTaskEntry>) -> Option<
    Seq<char>,
> {
    let req = nonblank_paths(requested);
    let unsafe_shown = if req.len() > 0 {
        first_unsafe_request(req)
    } else if listing.len() == 0 {
        None
    } else {
        first_unsafe_display_path(listing)
    };
    match unsafe_shown {
        Some(d) => Some("压缩包包含不安全路径，已阻止解压："@ + d),
        None => None,
    }
}

fn find_listed_of(listing: &[ExtractTaskEntry], p: &str) -> (r: Option<usize>)
    ensures
        match r {
            Some(k) => k < listing@.len() && find_listed(listing@, p@) == Some(listing@[k as int]),
            None => find_listed(listing@, p@) is None,
        },
{
    let mut k: usize = 0;
    assert(listing@.skip(0) == listing@);
    while k < listing.len()
        invariant
            k <= listing.len(),
            find_listed(listing@, p@) == find_listed(listing@.skip(k as int), p@),
        decreases listing.len() - k,
    {
        assert(listing@.skip(k as int).drop_first() == listing@.skip(k + 1));
        if str_eq(listing[k].path.as_str(), p) {
            return Some(k);
        }
        k = k + 1;
    }
    None
}

/// The entries an extraction works on. When paths are requested (blank ones ignored), one
/// entry for each, sized and typed from the listing; else the listing; else, for an archive
/// whose listing is empty, the archive file itself (`archive_size` is its size, when known).
/// Refused when one of the chosen entries has an unsafe path.
pub fn plan_extract_task_entries(
    requested: &[String],
    listing: Vec<ExtractTaskEntry>,
    archive_name: &str,
    archive_size: Option<u64>,
) -> (r: Result<Vec<ExtractTaskEntry>, String>)
    ensures
        r is Err <==> plan_extract_error(requested@, listing@) is Some,
        r matches Ok(v) ==> forall|k: int| 0 <= k < v@.len() ==> !(#[trigger] v@[k]).is_unsafe_path,
        match r {
            Err(m) => plan_extract_error(requested@, listing@) == Some(m@),
            Ok(v) => if nonblank_paths(requested@).len() > 0 {
                &&& v@.len() == nonblank_paths(requested@).len()
                &&& forall|k: int|
                    0 <= k < v@.len() ==> is_selected_entry(
                        #[trigger] v@[k],
                        listing@,
                        nonblank_paths(requested@)[k],
                    )
            } else if listing@.len() == 0 {
                &&& v@.len() == 1
                &&& v@[0].path@ == archive_name@
                &&& v@[0].display_path@ == archive_name@
                &&& v@[0].size == match archive_size {
                    Some(s) => if s == 0 {
                        1
                    } else {
                        s
                    },
                    None => 1,
                }
                &&& !v@[0].is_dir
                &&& !v@[0].is_unsafe_path
            } else {
                v@ == listing@
            },
        },
{
    let mut req: Vec<String> = Vec::new();
    let mut i: usize = 0;
    while i < requested.len()
        invariant
            i <= requested.len(),
            string_views(req@) == nonblank_paths(requested@.take(i as int)),
        decreases requested.len() - i,
    {
        assert(requested@.take(i + 1).drop_last() == requested@.take(i as int));
        if !is_blank(requested[i].as_str()) {
            push_string(&mut req, requested[i].clone());
        }
        i = i + 1;
    }
    assert(requested@.take(requested.len() as int) == requested@);
    let ghost reqv = string_views(req@);
    if req.len() > 0 {
        let mut selected: Vec<ExtractTaskEntry> = Vec::new();
        let mut k: usize = 0;
        while k < req.len()
            invariant
                k <= req.len(),
                reqv == string_views(req@),
                selected@.len() == k,
                forall|j: int|
                    0 <= j < k ==> is_selected_entry(#[trigger] selected@[j], listing@, reqv[j]),
            decreases req.len() - k,
        {
            let p = req[k].as_str();
            assert(p@ == reqv[k as int]);
            let (size, is_dir) = match find_listed_of(&listing, p) {
                Some(at) => (
                    if listing[at].size == 0 {
                        1
                    } else {
                        listing[at].size
                    },
                    listing[at].is_dir,
                ),
                None => {
                    let c = chars_of(p);
                    (1, c.len() > 0 && c[c.len() - 1] == '/')
                },
            };
            selected.push(
                ExtractTaskEntry {
                    path: req[k].clone(),
                    display_path: strip_archive_entry_prefix(p),
                    size,
                    is_dir,
                    is_unsafe_path: archive_entry_has_unsafe_path(p),
                },
            );
            k = k + 1;
        }
        let mut j: usize = 0;
        assert(reqv.skip(0) == reqv);
        while j < selected.len()
            invariant
                j <= selected.len(),
                reqv == nonblank_paths(requested@),
                reqv.len() > 0,
                selected@.len() == reqv.len(),
                forall|t: int|
                    0 <= t < selected@.len() ==> is_selected_entry(
                        #[trigger] selected@[t],
                        listing@,
                        reqv[t],
                    ),
                first_unsafe_request(reqv) == first_unsafe_request(reqv.skip(j as int)),
            decreases selected.len() - j,
        {
            assert(reqv.skip(j as int).drop_first() == reqv.skip(j + 1));
            assert(is_selected_entry(selected@[j as int], listing@, reqv[j as int]));
            if selected[j].is_unsafe_path {
                let mut m = chars_of("压缩包包含不安全路径，已阻止解压：");
                let d = chars_of(selected[j].display_path.as_str());
                extend_chars(&mut m, &d);
                return Err(string_of(&m));
            }
            j = j + 1;
        }
        proof {
            lemma_no_unsafe_request(reqv);
            assert forall|k: int| 0 <= k < selected@.len() implies !(#[trigger] selected@[k]).is_unsafe_path by {
                assert(is_selected_entry(selected@[k], listing@, reqv[k]));
            }
        }
        return Ok(selected);
    }
    if listing.len() == 0 {
        let mut v: Vec<ExtractTaskEntry> = Vec::new();
        v.push(
            ExtractTaskEntry {
                path: String::from_str(archive_name),
                display_path: String::from_str(archive_name),
                size: match archive_size {
                    Some(s) => if s == 0 {
                        1
                    } else {
                        s
                    },
                    None => 1,
                },
                is_dir: false,
                is_unsafe_path: false,
            },
        );
        return Ok(v);
    }
    match ensure_safe_archive_entry_paths(&listing) {
        Err(m) => Err(m),
        Ok(()) => Ok(listing),
    }
}

/// Whether an entry lies in (or is) the folder `folder`: its path, without trailing slashes,
/// is the folder or starts with the folder and a slash.
pub open spec fn in_promised_folder(e: ExtractTaskEntry, folder: Seq<char>) -> bool {
    let clean = trim_end_char(e.path@, '/');
    clean == folder || starts_with(clean, folder + seq!['/'])
}

/// The listed entries that lie in (or are) the folder `folder`, in order.
pub open spec fn promised_folder_entries(listing: Seq<ExtractTaskEntry>, folder: Seq<char>) -> Seq<
    ExtractTaskEntry,
>
    decreases listing.len(),
{
    if listing.len() == 0 {
        Seq::<ExtractTaskEntry>::empty()
    } else if in_promised_folder(listing.last(), folder) {
        promised_folder_entries(listing.drop_last(), folder).push(listing.last())
    } else {
        promised_folder_entries(listing.drop_last(), folder)
    }
}

/// The paths of the entries that dragging the folder at `folder_path` out of an archive
/// extracts: the listed entries in it (its path trimmed, without trailing slashes). Refused
/// when there are none or one of them is unsafe.
pub open spec fn spec_promised_folder_entry_paths(
    listing: Seq<ExtractTaskEntry>,
    folder_path: Seq<char>,
) -> Result<Seq<Seq<char>>, Seq<char>> {
    let es = promised_folder_entries(listing, trim_end_char(trim(folder_path), '/'));
    if es.len() == 0 {
        Err("找不到要拖出的文件夹。"@)
    } else {
        match spec_ensure_safe_archive_entry_paths(es) {
            Err(m) => Err(m),
            Ok(()) => Ok(Seq::new(es.len(), |k: int| es[k].path@)),
        }
    }
}

/// The paths of the entries that dragging a folder out of an archive extracts.
pub fn promised_folder_entry_paths(listing: &[ExtractTaskEntry], folder_path: &str) -> (r: Result<
    Vec<String>,
    String,
>)
    ensures
        match r {
            Ok(v) => spec_promised_folder_entry_paths(listing@, folder_path@) == Ok::<
                Seq<Seq<char>>,
                Seq<char>,
            >(string_views(v@)),
            Err(m) => spec_promised_folder_entry_paths(listing@, folder_path@) == Err::<
                Seq<Seq<char>>,
                Seq<char>,
            >(m@),
        },
{
    let fc = chars_of(folder_path);
    let ft = trim_chars(&fc);
    let folder = trim_end_char_chars(&ft, '/');
    let mut prefix = slice_chars(&folder, 0, folder.len());
    prefix.push('/');
    assert(prefix@ == folder@ + seq!['/']);
    let mut es: Vec<ExtractTaskEntry> = Vec::new();
    let mut i: usize = 0;
    while i < listing.len()
        invariant
            i <= listing.len(),
            prefix@ == folder@ + seq!['/'],
            es@ == promised_folder_entries(listing@.take(i as int), folder@),
        decreases listing.len() - i,
    {
        assert(listing@.take(i + 1).drop_last() == listing@.take(i as int));
        assert(listing@.take(i + 1).last() == listing@[i as int]);
        let pc = chars_of(listing[i].path.as_str());
        let clean = trim_end_char_chars(&pc, '/');
        if chars_eq(&clean, &folder) || starts_with_chars(&clean, &prefix) {
            es.push(copy_task_entry(&listing[i]));
        }
        i = i + 1;
    }
    assert(listing@.take(listing.len() as int) == listing@);
    if es.len() == 0 {
        return Err(String::from_str("找不到要拖出的文件夹。"));
    }
    match ensure_safe_archive_entry_paths(&es) {
        Err(m) => Err(m),
        Ok(()) => {
            let mut r: Vec<String> = Vec::new();
            let mut k: usize = 0;
            while k < es.len()
                invariant
                    k <= es.len(),
                    string_views(r@) == Seq::new(k as nat, |t: int| es@[t].path@),
                decreases es.len() - k,
            {
                push_string(&mut r, es[k].path.clone());
                assert(string_views(r@) =~= Seq::new((k + 1) as nat, |t: int| es@[t].path@));
                k = k + 1;
            }
            Ok(r)
        },
    }
}

// ---------------------------------------------------------------------------
// Entries dragged out of an archive
// ---------------------------------------------------------------------------

/// What dragging a folder out copies from the folder it was extracted into: for each of its
/// entries other than the folder itself (paths without trailing slashes), the entry's place in
/// the extraction and its place under the folder, both stripped to plain names.
pub open spec fn promised_folder_copies(folder: Seq<char>, entries: Seq<Seq<char>>) -> Seq<
    (Seq<char>, Seq<char>),
>
    decreases entries.len(),
{
    if entries.len() == 0 {
        Seq::empty()
    } else {
        let before = promised_folder_copies(folder, entries.drop_last());
        let clean = trim_end_char(entries.last(), '/');
        let prefix = folder + seq!['/'];
        if clean == folder || !starts_with(clean, prefix) {
            before
        } else {
            before.push(
                (
                    spec_strip_archive_entry_prefix(clean),
                    spec_strip_archive_entry_prefix(clean.skip(prefix.len() as int)),
                ),
            )
        }
    }
}

/// The view of a list of pairs of strings.
pub open spec fn string_pairs_view(v: Seq<(String, String)>) -> Seq<(Seq<char>, Seq<char>)> {
    Seq::new(v.len(), |i: int| (v[i].0@, v[i].1@))
}

/// What dragging the folder at `folder_path` out copies, given the paths of its entries: the
/// folder's path is trimmed and loses its trailing slashes first.
pub fn promised_folder_copy_paths(folder_path: &str, entries: &Vec<String>) -> (r: Vec<(String, String)>)
    ensures
        string_pairs_view(r@) == promised_folder_copies(
            trim_end_char(trim(folder_path@), '/'),
            string_views(entries@),
        ),
{
    let fc = chars_of(folder_path);
    let ft = trim_chars(&fc);
    let folder = trim_end_char_chars(&ft, '/');
    let mut prefix = slice_chars(&folder, 0, folder.len());
    prefix.push('/');
    assert(prefix@ =~= folder@ + seq!['/']);
    let ghost ev = string_views(entries@);
    let mut r: Vec<(String, String)> = Vec::new();
    let mut i: usize = 0;
    while i < entries.len()
        invariant
            i <= entries.len(),
            ev == string_views(entries@),
            prefix@ == folder@ + seq!['/'],
            folder@ == trim_end_char(trim(folder_path@), '/'),
            string_pairs_view(r@) == promised_folder_copies(folder@, ev.take(i as int)),
        decreases entries.len() - i,
    {
        assert(ev.take(i + 1).drop_last() == ev.take(i as int));
        assert(ev.take(i + 1).last() == entries@[i as int]@);
        let ec = chars_of(entries[i].as_str());
        let clean = trim_end_char_chars(&ec, '/');
        if !chars_eq(&clean, &folder) && starts_with_chars(&clean, &prefix) {
            let rest = slice_chars(&clean, prefix.len(), clean.len());
            let source = strip_archive_entry_prefix(string_of(&clean).as_str());
            let target = strip_archive_entry_prefix(string_of(&rest).as_str());
            let ghost before = string_pairs_view(r@);
            r.push((source, target));
            assert(string_pairs_view(r@) =~= before.push(
                (
                    spec_strip_archive_entry_prefix(clean@),
                    spec_strip_archive_entry_prefix(clean@.skip(prefix@.len() as int)),
                ),
            ));
        }
        i = i + 1;
    }
    assert(ev.take(entries.len() as int) == ev);
    r
}

/// An entry to drag out of an archive, and the name it is to be given.
#[derive(Debug)]
pub struct ArchivePromiseDragItem {
    pub entry_path: String,
    pub promised_name: String,
    pub is_dir: bool,
}

/// The path of a dragged entry, trimmed and without trailing slashes.
pub open spec fn drag_path(item: ArchivePromiseDragItem) -> Seq<char> {
    trim_end_char(trim(item.entry_path@), '/')
}

/// Why a dragged entry is refused: an empty or an unsafe path.
pub open spec fn drag_item_error(item: ArchivePromiseDragItem) -> Option<Seq<char>> {
    if drag_path(item).len() == 0 {
        Some("请选择要拖出的项目。"@)
    } else if spec_archive_entry_has_unsafe_path(drag_path(item)) {
        Some("该条目路径不安全，已阻止拖出。"@)
    } else {
        None
    }
}

/// Why the first refused entry of a drag is refused.
pub open spec fn first_drag_error(items: Seq<ArchivePromiseDragItem>) -> Option<Seq<char>>
    decreases items.len(),
{
    if items.len() == 0 {
        None
    } else if drag_item_error(items[0]) is Some {
        drag_item_error(items[0])
    } else {
        first_drag_error(items.drop_first())
    }
}

/// Whether an earlier item has the same path and kind as the `i`-th.
pub open spec fn seen_before(items: Seq<ArchivePromiseDragItem>, i: int) -> bool {
    exists|j: int|
        0 <= j < i && drag_path(#[trigger] items[j]) == drag_path(items[i]) && items[j].is_dir
            == items[i].is_dir
}

/// A dragged entry as it is kept: its path, the name it is given, and whether it is a folder.
pub open spec fn kept_drag_item(item: ArchivePromiseDragItem) -> (Seq<char>, Seq<char>, bool) {
    (
        drag_path(item),
        spec_promised_archive_entry_name(drag_path(item), item.promised_name@),
        item.is_dir,
    )
}

/// The dragged entries that are kept: the first of each path and kind, in order.
pub open spec fn kept_drag_items(items: Seq<ArchivePromiseDragItem>) -> Seq<
    (Seq<char>, Seq<char>, bool),
>
    decreases items.len(),
{
    if items.len() == 0 {
        Seq::<(Seq<char>, Seq<char>, bool)>::empty()
    } else if seen_before(items, items.len() - 1) {
        kept_drag_items(items.drop_last())
    } else {
        kept_drag_items(items.drop_last()).push(kept_drag_item(items.last()))
    }
}

/// The entries of a drag, checked: refused when one has an empty or unsafe path (the first
/// such decides the error) or when there are none; else the kept entries.
pub open spec fn spec_normalize_archive_promise_drag_items(
    items: Seq<ArchivePromiseDragItem>,
) -> Result<Seq<(Seq<char>, Seq<char>, bool)>, Seq<char>> {
    match first_drag_error(items) {
        Some(e) => Err(e),
        None => if kept_drag_items(items).len() == 0 {
            Err("请选择要拖出的项目。"@)
        } else {
            Ok(kept_drag_items(items))
        },
    }
}

/// The views of dragged entries.
pub open spec fn drag_views(v: Seq<ArchivePromiseDragItem>) -> Seq<(Seq<char>, Seq<char>, bool)> {
    Seq::new(v.len(), |k: int| (v[k].entry_path@, v[k].promised_name@, v[k].is_dir))
}

/// An item before the `i`-th has the path `p` and the kind `d`.
pub open spec fn key_before(items: Seq<ArchivePromiseDragItem>, i: int, p: Seq<char>, d: bool) -> bool {
    exists|j: int| 0 <= j < i && drag_path(#[trigger] items[j]) == p && items[j].is_dir == d
}

/// One of the recorded keys is the path `p` with the kind `d`.
pub open spec fn key_recorded(paths: Seq<Vec<char>>, dirs: Seq<bool>, p: Seq<char>, d: bool) -> bool {
    exists|u: int| 0 <= u < paths.len() && u < dirs.len() && #[trigger] paths[u]@ == p && dirs[u] == d
}

proof fn lemma_key_before_step(items: Seq<ArchivePromiseDragItem>, i: int, p: Seq<char>, d: bool)
    requires
        0 <= i < items.len(),
    ensures
        key_before(items, i + 1, p, d) <==> key_before(items, i, p, d) || (drag_path(items[i]) == p
            && items[i].is_dir == d),
{
    if key_before(items, i + 1, p, d) {
        let j = choose|j: int| 0 <= j < i + 1 && drag_path(#[trigger] items[j]) == p && items[j].is_dir == d;
        if j < i {
            assert(key_before(items, i, p, d));
        }
    }
}

proof fn lemma_key_recorded_push(paths: Seq<Vec<char>>, dirs: Seq<bool>, x: Vec<char>, e: bool, p: Seq<char>, d: bool)
    requires
        paths.len() == dirs.len(),
    ensures
        key_recorded(paths.push(x), dirs.push(e), p, d) <==> key_recorded(paths, dirs, p, d) || (
        x@ == p && e == d),
{
    if key_recorded(paths.push(x), dirs.push(e), p, d) {
        let u = choose|u: int|
            0 <= u < paths.push(x).len() && u < dirs.push(e).len() && #[trigger] paths.push(x)[u]@
                == p && dirs.push(e)[u] == d;
        if u < paths.len() {
            assert(paths[u] == paths.push(x)[u]);
            assert(key_recorded(paths, dirs, p, d));
        }
    }
    if key_recorded(paths, dirs, p, d) {
        let u = choose|u: int| 0 <= u < paths.len() && u < dirs.len() && #[trigger] paths[u]@ == p && dirs[u] == d;
        assert(paths.push(x)[u] == paths[u]);
        assert(key_recorded(paths.push(x), dirs.push(e), p, d));
    }
    if x@ == p && e == d {
        assert(paths.push(x)[paths.len() as int] == x);
        assert(key_recorded(paths.push(x), dirs.push(e), p, d));
    }
}

proof fn lemma_seen_before_prefix(items: Seq<ArchivePromiseDragItem>, i: int)
    requires
        0 <= i < items.len(),
    ensures
        seen_before(items.take(i + 1), i) == key_before(items, i, drag_path(items[i]), items[i].is_dir),
{
    let t = items.take(i + 1);
    if seen_before(t, i) {
        let j = choose|j: int|
            0 <= j < i && drag_path(#[trigger] t[j]) == drag_path(t[i]) && t[j].is_dir == t[i].is_dir;
        assert(t[j] == items[j]);
    }
    if key_before(items, i, drag_path(items[i]), items[i].is_dir) {
        let j = choose|j: int|
            0 <= j < i && drag_path(#[trigger] items[j]) == drag_path(items[i]) && items[j].is_dir
                == items[i].is_dir;
        assert(t[j] == items[j]);
        assert(seen_before(t, i));
    }
}

/// Whether a key is among the recorded ones.
fn is_key_recorded(paths: &Vec<Vec<char>>, dirs: &Vec<bool>, p: &[char], d: bool) -> (r: bool)
    requires
        paths@.len() == dirs@.len(),
    ensures
        r == key_recorded(paths@, dirs@, p@, d),
{
    let mut t: usize = 0;
    while t < paths.len()
        invariant
            t <= paths@.len(),
            paths@.len() == dirs@.len(),
            forall|u: int| 0 <= u < t ==> !(#[trigger] paths@[u]@ == p@ && dirs@[u] == d),
        decreases paths@.len() - t,
    {
        if chars_eq(&paths[t], p) && dirs[t] == d {
            assert(paths@[t as int]@ == p@ && dirs@[t as int] == d);
            return true;
        }
        t = t + 1;
    }
    false
}

/// The entries of a drag, checked and with duplicates dropped.
pub fn normalize_archive_promise_drag_items(items: Vec<ArchivePromiseDragItem>) -> (r: Result<
    Vec<ArchivePromiseDragItem>,
    String,
>)
    ensures
        match r {
            Ok(v) => spec_normalize_archive_promise_drag_items(items@) == Ok::<
                Seq<(Seq<char>, Seq<char>, bool)>,
                Seq<char>,
            >(drag_views(v@)),
            Err(m) => spec_normalize_archive_promise_drag_items(items@) == Err::<
                Seq<(Seq<char>, Seq<char>, bool)>,
                Seq<char>,
            >(m@),
        },
{
    let mut out: Vec<ArchivePromiseDragItem> = Vec::new();
    let mut seen_paths: Vec<Vec<char>> = Vec::new();
    let mut seen_dirs: Vec<bool> = Vec::new();
    let mut i: usize = 0;
    assert(items@.skip(0) == items@);
    while i < items.len()
        invariant
            i <= items.len(),
            first_drag_error(items@) == first_drag_error(items@.skip(i as int)),
            drag_views(out@) == kept_drag_items(items@.take(i as int)),
            seen_paths@.len() == seen_dirs@.len(),
            forall|p: Seq<char>, d: bool|
                #[trigger] key_recorded(seen_paths@, seen_dirs@, p, d) <==> key_before(items@, i as int, p, d),
        decreases items.len() - i,
    {
        assert(items@.skip(i as int).drop_first() == items@.skip(i + 1));
        assert(items@.skip(i as int)[0] == items@[i as int]);
        let item = &items[i];
        let pc = chars_of(item.entry_path.as_str());
        let pt = trim_chars(&pc);
        let path = trim_end_char_chars(&pt, '/');
        assert(path@ == drag_path(items@[i as int]));
        if path.len() == 0 {
            return Err(String::from_str("请选择要拖出的项目。"));
        }
        let ps = string_of(&path);
        if archive_entry_has_unsafe_path(ps.as_str()) {
            return Err(String::from_str("该条目路径不安全，已阻止拖出。"));
        }
        let found = is_key_recorded(&seen_paths, &seen_dirs, &path, item.is_dir);
        proof {
            assert(items@.take(i + 1).drop_last() == items@.take(i as int));
            assert(items@.take(i + 1).last() == items@[i as int]);
            lemma_seen_before_prefix(items@, i as int);
            assert(found == key_recorded(seen_paths@, seen_dirs@, path@, item.is_dir));
        }
        let ghost old_paths = seen_paths@;
        let ghost old_dirs = seen_dirs@;
        let ghost pv = path@;
        let d = item.is_dir;
        if !found {
            let name = promised_archive_entry_name(ps.as_str(), item.promised_name.as_str());
            let ghost old_out = out@;
            out.push(ArchivePromiseDragItem { entry_path: ps, promised_name: name, is_dir: d });
            assert(drag_views(out@) =~= drag_views(old_out).push(kept_drag_item(items@[i as int])));
            seen_paths.push(path);
            seen_dirs.push(d);
        }
        proof {
            assert forall|p: Seq<char>, e: bool|
                #[trigger] key_recorded(seen_paths@, seen_dirs@, p, e) <==> key_before(items@, i + 1, p, e) by {
                lemma_key_before_step(items@, i as int, p, e);
                if !found {
                    lemma_key_recorded_push(old_paths, old_dirs, seen_paths@.last(), d, p, e);
                    assert(seen_paths@ == old_paths.push(seen_paths@.last()));
                    assert(seen_dirs@ == old_dirs.push(d));
                }
            }
        }
        i = i + 1;
    }
    assert(items@.take(items.len() as int) == items@);
    if out.len() == 0 {
        return Err(String::from_str("请选择要拖出的项目。"));
    }
    Ok(out)
}

} // verus!
