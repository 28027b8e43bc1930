//! The volumes of split archives: which files belong together, what they are called, and
//! what a split archive adds up to; and where results go by default.
use vstd::prelude::*;
use crate::contents::ExtractTaskEntry;
use crate::formats::{
    archive_format, numeric_split_volume_number, numeric_split_volume_number_of,
    spec_archive_format, zip_split_main_name, zip_split_main_name_of,
};
use crate::names::{is_split_7z_sibling, spec_is_split_7z_sibling, spec_split_7z_stem, split_7z_stem};
use crate::paths::{
    extension, extension_of, file_name, file_name_of, file_stem, file_stem_of, join_all,
    join_all_of, parent_components, components, components_of,
};
use crate::text::{
    all_digits, ascii_lower, ascii_lower_chars, chars_eq, chars_of, decimal, ends_with,
    ends_with_str, extend_str, insert_sorted, is_digit, push_decimal, push_string, slice_chars,
    str_eq, strictly_sorted, string_of, string_views, views,
};

verus! {

// ---------------------------------------------------------------------------
// Which files are volumes of the same archive
// ---------------------------------------------------------------------------

/// Whether an extension (ignoring ASCII case) is that of a ZIP split part: `z` and two ASCII
/// digits.
pub open spec fn is_zip_part_extension(e: Seq<char>) -> bool {
    let l = ascii_lower(e);
    l.len() == 3 && l[0] == 'z' && is_digit(l[1]) && is_digit(l[2])
}

/// Whether the file at `candidate` is a split part of the ZIP archive whose stem is `stem`:
/// the same stem, and a ZIP part's extension.
pub open spec fn spec_is_zip_split_part(stem: Seq<char>, candidate: Seq<char>) -> bool {
    file_stem(candidate) == Some(stem) && match extension(candidate) {
        Some(e) => is_zip_part_extension(e),
        None => false,
    }
}

/// Whether the file at `candidate` is a split part of the ZIP archive whose stem is `stem`.
pub fn is_zip_split_part(stem: &str, candidate: &str) -> (r: bool)
    ensures
        r == spec_is_zip_split_part(stem@, candidate@),
{
    let c = chars_of(candidate);
    let s = chars_of(stem);
    let same_stem = match file_stem_of(&c) {
        Some(cs) => chars_eq(&cs, &s),
        None => false,
    };
    if !same_stem {
        return false;
    }
    match extension_of(&c) {
        Some(e) => {
            let l = ascii_lower_chars(&e);
            l.len() == 3 && l[0] == 'z' && '0' <= l[1] && l[1] <= '9' && '0' <= l[2] && l[2] <= '9'
        },
        None => false,
    }
}

/// Whether a file called `name` is a numbered volume of the archive whose name (ASCII
/// lowercased) is `base`.
pub open spec fn spec_is_numbered_volume_of(base: Seq<char>, name: Seq<char>) -> bool {
    match numeric_split_volume_number(ascii_lower(name)) {
        Some((b, _)) => b == base,
        None => false,
    }
}

/// Whether a file called `name` is a numbered volume of the archive whose name is `base`.
pub fn is_numbered_volume_of(base: &str, name: &str) -> (r: bool)
    ensures
        r == spec_is_numbered_volume_of(base@, name@),
{
    let n = chars_of(name);
    let l = ascii_lower_chars(&n);
    match numeric_split_volume_number_of(&l) {
        Some((b, _)) => {
            let bc = chars_of(base);
            chars_eq(&b, &bc)
        },
        None => false,
    }
}

// ---------------------------------------------------------------------------
// Names of volumes
// ---------------------------------------------------------------------------

/// `n` with at least three digits, as `{:03}` writes it.
pub open spec fn decimal3(n: nat) -> Seq<char> {
    if n < 10 {
        seq!['0', '0'] + decimal(n)
    } else if n < 100 {
        seq!['0'] + decimal(n)
    } else {
        decimal(n)
    }
}

/// The name of the `index`-th volume of a split archive: `<base>.<index, three digits>`.
pub fn volume_file_name(base: &str, index: u64) -> (r: String)
    ensures
        r@ == base@ + seq!['.'] + decimal3(index as nat),
{
    let mut v = chars_of(base);
    v.push('.');
    if index < 10 {
        v.push('0');
        v.push('0');
    } else if index < 100 {
        v.push('0');
    }
    push_decimal(&mut v, index);
    let ghost b = base@;
    assert(v@ =~= b + seq!['.'] + decimal3(index as nat));
    string_of(&v)
}

/// How a 7Z archive is cut into volumes: the volume size in bytes and the name that every
/// volume starts with (the first volume's name without `.001`). Refused for a size of zero,
/// a size too large to count in bytes, and a first volume not named `.001`.
pub open spec fn spec_split_volume_plan(first_volume: Seq<char>, volume_size_mb: u64) -> Result<
    (u64, Seq<char>),
    Seq<char>,
> {
    if volume_size_mb == 0 {
        Err("分卷大小至少为 1 MB。"@)
    } else if volume_size_mb * 1048576 > u64::MAX {
        Err("分卷大小过大。"@)
    } else {
        match file_name(first_volume) {
            Some(n) => if ends_with(n, ".001"@) {
                Ok(((volume_size_mb * 1048576) as u64, n.take(n.len() - 4)))
            } else {
                Err("无法生成 7Z 分卷文件名。"@)
            },
            None => Err("无法生成 7Z 分卷文件名。"@),
        }
    }
}

/// How a 7Z archive is cut into volumes.
pub fn split_volume_plan(first_volume: &str, volume_size_mb: u64) -> (r: Result<(u64, String), String>)
    ensures
        match r {
            Ok((size, base)) => spec_split_volume_plan(first_volume@, volume_size_mb) == Ok::<
                (u64, Seq<char>),
                Seq<char>,
            >((size, base@)),
            Err(m) => spec_split_volume_plan(first_volume@, volume_size_mb) == Err::<
                (u64, Seq<char>),
                Seq<char>,
            >(m@),
        },
{
    proof {
        reveal_strlit(".001");
    }
    if volume_size_mb == 0 {
        return Err(String::from_str("分卷大小至少为 1 MB。"));
    }
    if volume_size_mb > 17592186044415 {
        return Err(String::from_str("分卷大小过大。"));
    }
    let size = volume_size_mb * 1048576;
    let p = chars_of(first_volume);
    match file_name_of(&p) {
        Some(n) => {
            if ends_with_str(&n, ".001") {
                Ok((size, string_of(&slice_chars(&n, 0, n.len() - 4))))
            } else {
                Err(String::from_str("无法生成 7Z 分卷文件名。"))
            }
        },
        None => Err(String::from_str("无法生成 7Z 分卷文件名。")),
    }
}

/// The error for a ZIP split part whose main `.zip` file cannot be found.
pub open spec fn spec_missing_zip_main_message(main_name: Seq<char>) -> Seq<char> {
    "这是 ZIP 分卷片段，但找不到同名主文件 "@ + main_name
        + "。请把 .z01/.z02 和 .zip 放在同一文件夹后再打开。"@
}

/// The error for a ZIP split part whose main `.zip` file cannot be found; the main file is
/// named by its file name, or generically when it has none.
pub fn missing_zip_main_message(main_path: &str) -> (r: String)
    ensures
        r@ == spec_missing_zip_main_message(
            match file_name(main_path@) {
                Some(n) => n,
                None => "同名 .zip 主文件"@,
            },
        ),
{
    let p = chars_of(main_path);
    let name = match file_name_of(&p) {
        Some(n) => n,
        None => chars_of("同名 .zip 主文件"),
    };
    let mut m = chars_of("这是 ZIP 分卷片段，但找不到同名主文件 ");
    crate::text::extend_chars(&mut m, &name);
    extend_str(&mut m, "。请把 .z01/.z02 和 .zip 放在同一文件夹后再打开。");
    string_of(&m)
}

// ---------------------------------------------------------------------------
// What a split archive adds up to
// ---------------------------------------------------------------------------

/// What a split archive adds up to.
#[derive(Debug)]
pub struct ArchiveSplitSummary {
    pub is_split: bool,
    pub volume_count: usize,
    pub total_size: u64,
    pub first_volume: String,
}

/// The sum of the sizes of the volumes that could be read.
pub open spec fn known_sizes(sizes: Seq<Option<u64>>) -> nat
    decreases sizes.len(),
{
    if sizes.len() == 0 {
        0
    } else {
        known_sizes(sizes.drop_last()) + match sizes.last() {
            Some(s) => s as nat,
            None => 0,
        }
    }
}

proof fn lemma_known_sizes_prefix(sizes: Seq<Option<u64>>, i: int)
    requires
        0 <= i <= sizes.len(),
    ensures
        known_sizes(sizes.take(i)) <= known_sizes(sizes),
    decreases sizes.len() - i,
{
    if i < sizes.len() {
        lemma_known_sizes_prefix(sizes, i + 1);
        assert(sizes.take(i + 1).drop_last() == sizes.take(i));
    } else {
        assert(sizes.take(i) == sizes);
    }
}

/// What a split archive adds up to, from its volumes (their paths and sizes, when they could
/// be read), the archive's own path and size, and whether its name marks it as split: it is
/// split when it has several volumes or its name says so; it counts at least one volume; its
/// size is that of its volumes or of the archive, whichever is larger; its first volume is the
/// first found, or the archive itself.
pub fn archive_split_summary(
    volumes: &Vec<String>,
    sizes: &Vec<Option<u64>>,
    archive_path: &str,
    archive_size: u64,
    name_marks_split: bool,
) -> (r: ArchiveSplitSummary)
    requires
        known_sizes(sizes@) <= u64::MAX,
    ensures
        r.is_split == (volumes@.len() > 1 || name_marks_split),
        r.volume_count == if volumes@.len() == 0 {
            1
        } else {
            volumes@.len()
        },
        r.total_size == if known_sizes(sizes@) < archive_size {
            archive_size as nat
        } else {
            known_sizes(sizes@)
        },
        r.first_volume@ == if volumes@.len() > 0 {
            volumes@[0]@
        } else {
            archive_path@
        },
{
    let mut total: u64 = 0;
    let mut i: usize = 0;
    while i < sizes.len()
        invariant
            i <= sizes.len(),
            known_sizes(sizes@) <= u64::MAX,
            total == known_sizes(sizes@.take(i as int)),
        decreases sizes.len() - i,
    {
        proof {
            lemma_known_sizes_prefix(sizes@, i + 1);
            assert(sizes@.take(i + 1).drop_last() == sizes@.take(i as int));
        }
        if let Some(s) = sizes[i] {
            total = total + s;
        }
        i = i + 1;
    }
    assert(sizes@.take(sizes.len() as int) == sizes@);
    ArchiveSplitSummary {
        is_split: volumes.len() > 1 || name_marks_split,
        volume_count: if volumes.len() == 0 {
            1
        } else {
            volumes.len()
        },
        total_size: if total < archive_size {
            archive_size
        } else {
            total
        },
        first_volume: if volumes.len() > 0 {
            volumes[0].clone()
        } else {
            String::from_str(archive_path)
        },
    }
}

// ---------------------------------------------------------------------------
// Batches and defaults
// ---------------------------------------------------------------------------

/// The entries of one archive of a batch, each shown under the archive's name:
/// `<archive> / <path>`.
pub fn label_batch_entries(entries: &mut Vec<ExtractTaskEntry>, archive_label: &str)
    ensures
        final(entries)@.len() == old(entries)@.len(),
        forall|k: int|
            0 <= k < final(entries)@.len() ==> {
                &&& (#[trigger] final(entries)@[k]).display_path@ == archive_label@ + " / "@ + old(
                    entries,
                )@[k].display_path@
                &&& final(entries)@[k].path == old(entries)@[k].path
                &&& final(entries)@[k].size == old(entries)@[k].size
                &&& final(entries)@[k].is_dir == old(entries)@[k].is_dir
                &&& final(entries)@[k].is_unsafe_path == old(entries)@[k].is_unsafe_path
            },
{
    let mut k: usize = 0;
    while k < entries.len()
        invariant
            k <= entries@.len(),
            entries@.len() == old(entries)@.len(),
            forall|t: int|
                0 <= t < k ==> {
                    &&& (#[trigger] entries@[t]).display_path@ == archive_label@ + " / "@ + old(
                        entries,
                    )@[t].display_path@
                    &&& entries@[t].path == old(entries)@[t].path
                    &&& entries@[t].size == old(entries)@[t].size
                    &&& entries@[t].is_dir == old(entries)@[t].is_dir
                    &&& entries@[t].is_unsafe_path == old(entries)@[t].is_unsafe_path
                },
            forall|t: int| k <= t < entries@.len() ==> #[trigger] entries@[t] == old(entries)@[t],
        decreases entries@.len() - k,
    {
        let mut d = chars_of(archive_label);
        extend_str(&mut d, " / ");
        extend_str(&mut d, entries[k].display_path.as_str());
        let e = ExtractTaskEntry {
            path: entries[k].path.clone(),
            display_path: string_of(&d),
            size: entries[k].size,
            is_dir: entries[k].is_dir,
            is_unsafe_path: entries[k].is_unsafe_path,
        };
        entries.set(k, e);
        k = k + 1;
    }
}

/// The folder results go to by default: the given path when it is a folder, else its parent;
/// without a usable path, the desktop in the home folder, or the current folder without one.
/// The parent is given as its components joined with slashes.
pub open spec fn spec_default_output_dir(
    path: Option<Seq<char>>,
    path_is_dir: bool,
    home: Option<Seq<char>>,
) -> Seq<char> {
    let fallback = match home {
        Some(h) => h + "/Desktop"@,
        None => "."@,
    };
    match path {
        Some(p) => if path_is_dir {
            p
        } else {
            match parent_components(components(p)) {
                Some(cs) => join_all(cs),
                None => fallback,
            }
        },
        None => fallback,
    }
}

/// The folder results go to by default; `path_is_dir` says whether the path is a folder, and
/// `home` is the home folder when it is known.
pub fn default_output_dir(path: Option<&str>, path_is_dir: bool, home: Option<&str>) -> (r: String)
    ensures
        r@ == spec_default_output_dir(crate::text::opt_str(path), path_is_dir, crate::text::opt_str(home)),
{
    let fallback = match home {
        Some(h) => {
            let mut v = chars_of(h);
            extend_str(&mut v, "/Desktop");
            string_of(&v)
        },
        None => String::from_str("."),
    };
    match path {
        Some(p) => {
            if path_is_dir {
                return String::from_str(p);
            }
            let pc = chars_of(p);
            let cs = components_of(&pc);
            match crate::sources::parent_components_of(&cs) {
                Some(parent) => string_of(&join_all_of(&parent)),
                None => fallback,
            }
        },
        None => fallback,
    }
}

/// The paths the system asked to open, each once (the first time it comes), leaving out empty
/// ones and those that do not exist (`exists` says which do).
pub open spec fn spec_normalize_existing_system_paths(paths: Seq<Seq<char>>, exists: Seq<bool>) -> Seq<
    Seq<char>,
>
    decreases paths.len(),
{
    if paths.len() == 0 {
        Seq::<Seq<char>>::empty()
    } else {
        let before = spec_normalize_existing_system_paths(paths.drop_last(), exists);
        let p = paths.last();
        let i = paths.len() - 1;
        if p.len() == 0 || !(i < exists.len() && exists[i]) || before.contains(p) {
            before
        } else {
            before.push(p)
        }
    }
}

/// The paths the system asked to open, each once, leaving out empty and missing ones.
pub fn normalize_existing_system_paths(paths: &Vec<String>, exists: &Vec<bool>) -> (r: Vec<String>)
    ensures
        string_views(r@) == spec_normalize_existing_system_paths(string_views(paths@), exists@),
{
    let mut r: Vec<String> = Vec::new();
    let mut i: usize = 0;
    while i < paths.len()
        invariant
            i <= paths.len(),
            string_views(r@) == spec_normalize_existing_system_paths(
                string_views(paths@).take(i as int),
                exists@,
            ),
        decreases paths.len() - i,
    {
        let ghost pv = string_views(paths@);
        assert(pv.take(i + 1).drop_last() == pv.take(i as int));
        assert(pv.take(i + 1).last() == paths@[i as int]@);
        let p = paths[i].as_str();
        let ok = chars_of(p).len() > 0 && i < exists.len() && exists[i];
        if ok {
            let mut seen = false;
            let mut k: usize = 0;
            while k < r.len()
                invariant
                    k <= r.len(),
                    !seen ==> forall|j: int| 0 <= j < k ==> #[trigger] string_views(r@)[j] != p@,
                    seen ==> string_views(r@).contains(p@),
                decreases r.len() - k,
            {
                if str_eq(r[k].as_str(), p) {
                    assert(string_views(r@)[k as int] == p@);
                    seen = true;
                }
                k = k + 1;
            }
            if !seen {
                push_string(&mut r, paths[i].clone());
            }
        }
        i = i + 1;
    }
    assert(string_views(paths@).take(paths.len() as int) == string_views(paths@));
    r
}


// ---------------------------------------------------------------------------
// The volumes beside an archive
// ---------------------------------------------------------------------------

/// `v` holds, strictly sorted, exactly the paths of `paths` that `keep` marks.
pub open spec fn sorted_selection(v: Seq<Seq<char>>, paths: Seq<Seq<char>>, keep: Seq<bool>) -> bool {
    &&& strictly_sorted(v)
    &&& forall|f: Seq<char>| #[trigger]
        v.contains(f) <==> exists|i: int| 0 <= i < paths.len() && keep[i] && paths[i] == f
}

fn strings_of(v: &Vec<Vec<char>>) -> (r: Vec<String>)
    ensures
        string_views(r@) == views(v@),
{
    let mut r: Vec<String> = Vec::new();
    let mut k: usize = 0;
    while k < v.len()
        invariant
            k <= v.len(),
            string_views(r@) == views(v@).take(k as int),
        decreases v.len() - k,
    {
        push_string(&mut r, string_of(&v[k]));
        assert(views(v@).take(k + 1) == views(v@).take(k as int).push(v@[k as int]@));
        k = k + 1;
    }
    assert(views(v@).take(v.len() as int) == views(v@));
    r
}

/// The marked paths, strictly sorted (each once).
fn sorted_where(paths: &Vec<String>, keep: &Vec<bool>) -> (r: Vec<String>)
    requires
        keep@.len() == paths@.len(),
    ensures
        sorted_selection(string_views(r@), string_views(paths@), keep@),
{
    let ghost ps = string_views(paths@);
    let mut acc: Vec<Vec<char>> = Vec::new();
    let mut i: usize = 0;
    while i < paths.len()
        invariant
            i <= paths.len(),
            keep@.len() == paths@.len(),
            ps == string_views(paths@),
            strictly_sorted(views(acc@)),
            forall|f: Seq<char>| #[trigger]
                views(acc@).contains(f) <==> exists|j: int| 0 <= j < i && keep@[j] && ps[j] == f,
        decreases paths.len() - i,
    {
        let ghost before = views(acc@);
        if keep[i] {
            let c = chars_of(paths[i].as_str());
            insert_sorted(&mut acc, c);
            assert forall|f: Seq<char>| #[trigger]
                views(acc@).contains(f) <==> exists|j: int| 0 <= j < i + 1 && keep@[j] && ps[j]
                    == f by {
                if exists|j: int| 0 <= j < i + 1 && keep@[j] && ps[j] == f {
                    let j = choose|j: int| 0 <= j < i + 1 && keep@[j] && ps[j] == f;
                    if j < i {
                        assert(before.contains(f));
                    }
                }
                if before.contains(f) {
                    let j = choose|j: int| 0 <= j < i && keep@[j] && ps[j] == f;
                    assert(0 <= j < i + 1 && keep@[j] && ps[j] == f);
                }
                if f == ps[i as int] {
                    assert(0 <= i < i + 1 && keep@[i as int] && ps[i as int] == f);
                }
            }
        } else {
            assert forall|f: Seq<char>| #[trigger]
                views(acc@).contains(f) <==> exists|j: int| 0 <= j < i + 1 && keep@[j] && ps[j]
                    == f by {
                if exists|j: int| 0 <= j < i + 1 && keep@[j] && ps[j] == f {
                    let j = choose|j: int| 0 <= j < i + 1 && keep@[j] && ps[j] == f;
                    assert(j != i);
                    assert(before.contains(f));
                }
                if before.contains(f) {
                    let j = choose|j: int| 0 <= j < i && keep@[j] && ps[j] == f;
                    assert(0 <= j < i + 1 && keep@[j] && ps[j] == f);
                }
            }
        }
        i = i + 1;
    }
    strings_of(&acc)
}

/// Whether the file at `path` is a numbered volume whose (lowercase) base is `base`.
pub open spec fn is_numbered_sibling(base: Seq<char>, path: Seq<char>) -> bool {
    match file_name(path) {
        Some(n) => spec_is_numbered_volume_of(base, n),
        None => false,
    }
}

/// The stem of a path's file name, or nothing.
pub open spec fn stem_or_empty(path: Seq<char>) -> Seq<char> {
    match file_stem(path) {
        Some(s) => s,
        None => Seq::<char>::empty(),
    }
}

/// The volumes of the archive at `archive_path`, given the paths of the files in its folder
/// (`siblings`) and whether the archive itself exists:
/// - a numbered volume (`<base>.001`, ignoring ASCII case): every numbered volume of the same
///   base, sorted;
/// - a ZIP archive: its split parts (`.z01`, ...), sorted, then the archive itself when it
///   exists; just the archive when that gives nothing;
/// - otherwise just the archive.
pub open spec fn is_split_volume_list(
    r: Seq<Seq<char>>,
    archive_path: Seq<char>,
    is_zip_container: bool,
    siblings: Seq<Seq<char>>,
    archive_exists: bool,
) -> bool {
    match numeric_split_volume_number(ascii_lower(crate::formats::name_or_empty(archive_path))) {
        Some((base, _)) => sorted_selection(
            r,
            siblings,
            Seq::new(siblings.len(), |i: int| is_numbered_sibling(base, siblings[i])),
        ),
        None => if spec_archive_format(archive_path, is_zip_container) == "ZIP"@ {
            let stem = stem_or_empty(archive_path);
            let keep = Seq::new(
                siblings.len(),
                |i: int| spec_is_zip_split_part(stem, siblings[i]),
            );
            if !archive_exists && (forall|i: int| 0 <= i < siblings.len() ==> !keep[i]) {
                r == seq![archive_path]
            } else {
                let body = if archive_exists {
                    r.drop_last()
                } else {
                    r
                };
                &&& r.len() > 0
                &&& sorted_selection(body, siblings, keep)
                &&& archive_exists ==> r.last() == archive_path
            }
        } else {
            r == seq![archive_path]
        },
    }
}

/// The volumes of the archive at `archive_path`, from the files in its folder.
pub fn archive_split_volumes(
    archive_path: &str,
    is_zip_container: bool,
    siblings: &Vec<String>,
    archive_exists: bool,
) -> (r: Vec<String>)
    ensures
        is_split_volume_list(
            string_views(r@),
            archive_path@,
            is_zip_container,
            string_views(siblings@),
            archive_exists,
        ),
{
    let ghost sv = string_views(siblings@);
    let p = chars_of(archive_path);
    let name = crate::formats::name_or_empty_of(&p);
    let lower = ascii_lower_chars(&name);
    if let Some((base, _)) = numeric_split_volume_number_of(&lower) {
        let mut keep: Vec<bool> = Vec::new();
        let mut i: usize = 0;
        while i < siblings.len()
            invariant
                i <= siblings.len(),
                keep@.len() == i,
                sv == string_views(siblings@),
                forall|j: int| 0 <= j < i ==> keep@[j] == is_numbered_sibling(base@, #[trigger] sv[j]),
            decreases siblings.len() - i,
        {
            let c = chars_of(siblings[i].as_str());
            let k = match file_name_of(&c) {
                Some(n) => {
                    let bs = string_of(&base);
                    let ns = string_of(&n);
                    is_numbered_volume_of(bs.as_str(), ns.as_str())
                },
                None => false,
            };
            keep.push(k);
            i = i + 1;
        }
        let r = sorted_where(siblings, &keep);
        assert(keep@ =~= Seq::new(sv.len(), |i: int| is_numbered_sibling(base@, sv[i])));
        return r;
    }
    let f = archive_format(archive_path, is_zip_container);
    if str_eq(f.as_str(), "ZIP") {
        let stem = match file_stem_of(&p) {
            Some(s) => s,
            None => Vec::new(),
        };
        let stem_s = string_of(&stem);
        let ghost keep_spec = Seq::new(
            sv.len(),
            |i: int| spec_is_zip_split_part(stem_or_empty(archive_path@), sv[i]),
        );
        let mut keep: Vec<bool> = Vec::new();
        let mut i: usize = 0;
        while i < siblings.len()
            invariant
                i <= siblings.len(),
                keep@.len() == i,
                sv == string_views(siblings@),
                stem_s@ == stem_or_empty(archive_path@),
                keep_spec == Seq::new(
                    sv.len(),
                    |i: int| spec_is_zip_split_part(stem_or_empty(archive_path@), sv[i]),
                ),
                forall|j: int| 0 <= j < i ==> keep@[j] == #[trigger] keep_spec[j],
            decreases siblings.len() - i,
        {
            let k = is_zip_split_part(stem_s.as_str(), siblings[i].as_str());
            keep.push(k);
            i = i + 1;
        }
        assert(keep@ =~= keep_spec);
        let mut r = sorted_where(siblings, &keep);
        if archive_exists {
            let ghost body = string_views(r@);
            push_string(&mut r, String::from_str(archive_path));
            assert(string_views(r@).drop_last() == body);
        }
        if r.len() == 0 {
            proof {
                if exists|j: int| 0 <= j < sv.len() && keep_spec[j] {
                    let j = choose|j: int| 0 <= j < sv.len() && keep_spec[j];
                    assert(string_views(r@).contains(sv[j]));
                }
            }
            let mut one: Vec<String> = Vec::new();
            push_string(&mut one, String::from_str(archive_path));
            assert(string_views(one@) =~= seq![archive_path@]);
            return one;
        }
        proof {
            if !archive_exists && (forall|i: int| 0 <= i < sv.len() ==> !keep_spec[i]) {
                let v = string_views(r@);
                assert(v.contains(v[0]));
            }
        }
        return r;
    }
    let mut one: Vec<String> = Vec::new();
    push_string(&mut one, String::from_str(archive_path));
    assert(string_views(one@) =~= seq![archive_path@]);
    one
}

/// The size of a compressor's output so far: the file's size, plus, for a `.zip` (ignoring
/// ASCII case), the sizes of its split parts beside it; none when that is zero. Sizes add up
/// saturating, and a file whose size cannot be read counts as zero.
pub open spec fn output_size_after(
    path: Seq<char>,
    own_size: Option<u64>,
    siblings: Seq<(Seq<char>, Option<u64>)>,
    n: int,
) -> u64
    decreases n,
{
    if n <= 0 {
        match own_size {
            Some(s) => s,
            None => 0,
        }
    } else {
        let before = output_size_after(path, own_size, siblings, n - 1);
        let (p, size) = siblings[n - 1];
        if spec_is_zip_split_part(stem_or_empty(path), p) {
            let s = match size {
                Some(s) => s,
                None => 0u64,
            };
            if before + s > u64::MAX {
                u64::MAX
            } else {
                (before + s) as u64
            }
        } else {
            before
        }
    }
}

/// Whether a path's extension is `zip`, ignoring ASCII case.
pub open spec fn has_zip_extension(path: Seq<char>) -> bool {
    match extension(path) {
        Some(e) => ascii_lower(e) == "zip"@,
        None => false,
    }
}

/// The size of a compressor's output so far.
pub open spec fn spec_compress_output_size(
    path: Seq<char>,
    own_size: Option<u64>,
    siblings: Seq<(Seq<char>, Option<u64>)>,
) -> Option<u64> {
    let total = if has_zip_extension(path) {
        output_size_after(path, own_size, siblings, siblings.len() as int)
    } else {
        output_size_after(path, own_size, siblings, 0)
    };
    if total == 0 {
        None
    } else {
        Some(total)
    }
}

/// The view of a list of paths with sizes.
pub open spec fn sized_paths_view(v: Seq<(String, Option<u64>)>) -> Seq<(Seq<char>, Option<u64>)> {
    Seq::new(v.len(), |i: int| (v[i].0@, v[i].1))
}

/// The size of a compressor's output so far, from its own size and the files beside it (each
/// with its size, when it can be read).
pub fn compress_output_size(
    path: &str,
    own_size: Option<u64>,
    siblings: &Vec<(String, Option<u64>)>,
) -> (r: Option<u64>)
    ensures
        r == spec_compress_output_size(path@, own_size, sized_paths_view(siblings@)),
{
    let ghost sv = sized_paths_view(siblings@);
    let mut total: u64 = match own_size {
        Some(s) => s,
        None => 0,
    };
    let p = chars_of(path);
    let is_zip = match extension_of(&p) {
        Some(e) => {
            let l = ascii_lower_chars(&e);
            crate::text::chars_eq_str(&l, "zip")
        },
        None => false,
    };
    if is_zip {
        let stem = match file_stem_of(&p) {
            Some(s) => s,
            None => Vec::new(),
        };
        let stem_s = string_of(&stem);
        let mut i: usize = 0;
        while i < siblings.len()
            invariant
                i <= siblings.len(),
                sv == sized_paths_view(siblings@),
                stem_s@ == stem_or_empty(path@),
                total == output_size_after(path@, own_size, sv, i as int),
            decreases siblings.len() - i,
        {
            if is_zip_split_part(stem_s.as_str(), siblings[i].0.as_str()) {
                let s = match siblings[i].1 {
                    Some(s) => s,
                    None => 0,
                };
                total = total.saturating_add(s);
            }
            i = i + 1;
        }
    }
    if total == 0 {
        None
    } else {
        Some(total)
    }
}

/// The path of the main `.zip` file of a ZIP split part: the part's name with its extension
/// replaced by `.zip` (`archive.zip` for a path without a name), in the part's folder; when
/// that file does not exist, the first file in the folder whose name matches it ignoring ASCII
/// case; and otherwise the expected path.
pub open spec fn spec_zip_split_main_path(
    part_path: Seq<char>,
    exact_exists: bool,
    sibling_names: Seq<Seq<char>>,
    sibling_paths: Seq<Seq<char>>,
) -> Seq<char> {
    let desired = match file_name(part_path) {
        Some(n) => zip_split_main_name(n),
        None => "archive.zip"@,
    };
    let parent = match parent_components(components(part_path)) {
        Some(cs) => join_all(cs),
        None => Seq::<char>::empty(),
    };
    let exact = crate::paths::push_path(parent, desired);
    if exact_exists {
        exact
    } else {
        match first_named(sibling_names, ascii_lower(desired), 0) {
            Some(i) => sibling_paths[i],
            None => exact,
        }
    }
}

/// The first index from `i` on whose name matches `lower` ignoring ASCII case.
pub open spec fn first_named(names: Seq<Seq<char>>, lower: Seq<char>, i: int) -> Option<int>
    decreases names.len() - i,
{
    if i < 0 || i >= names.len() {
        None
    } else if ascii_lower(names[i]) == lower {
        Some(i)
    } else {
        first_named(names, lower, i + 1)
    }
}

/// The path of the main `.zip` file of a ZIP split part; `exact_exists` says whether the
/// expected file exists, and the folder's files are given by name and path, in the order the
/// folder lists them.
pub fn zip_split_main_path(
    part_path: &str,
    exact_exists: bool,
    sibling_names: &Vec<String>,
    sibling_paths: &Vec<String>,
) -> (r: String)
    requires
        sibling_names@.len() == sibling_paths@.len(),
    ensures
        r@ == spec_zip_split_main_path(
            part_path@,
            exact_exists,
            string_views(sibling_names@),
            string_views(sibling_paths@),
        ),
{
    let p = chars_of(part_path);
    let desired = match file_name_of(&p) {
        Some(n) => zip_split_main_name_of(&n),
        None => chars_of("archive.zip"),
    };
    let pc = components_of(&p);
    let mut exact = match crate::sources::parent_components_of(&pc) {
        Some(cs) => join_all_of(&cs),
        None => Vec::new(),
    };
    crate::paths::push_path_chars(&mut exact, &desired);
    if exact_exists {
        return string_of(&exact);
    }
    let lower = ascii_lower_chars(&desired);
    let ghost names = string_views(sibling_names@);
    let mut i: usize = sibling_names.len();
    let mut found: Option<usize> = None;
    // Walk backwards so that the last match seen is the first one.
    while i > 0
        invariant
            i <= sibling_names@.len(),
            names == string_views(sibling_names@),
            match found {
                Some(j) => i <= j < names.len() && first_named(names, lower@, i as int) == Some(
                    j as int,
                ),
                None => first_named(names, lower@, i as int) is None,
            },
        decreases i,
    {
        let n = chars_of(sibling_names[i - 1].as_str());
        let nl = ascii_lower_chars(&n);
        if chars_eq(&nl, &lower) {
            found = Some(i - 1);
        }
        i = i - 1;
    }
    match found {
        Some(j) => sibling_paths[j].clone(),
        None => string_of(&exact),
    }
}

/// Whether a file beside the first volume of a split 7Z archive already belongs to one with
/// the same stem.
pub open spec fn spec_split_7z_sibling_exists(first_volume: Seq<char>, sibling_names: Seq<Seq<char>>) -> bool {
    match spec_split_7z_stem(first_volume) {
        None => false,
        Some(stem) => exists|i: int|
            0 <= i < sibling_names.len() && spec_is_split_7z_sibling(stem, #[trigger] sibling_names[i]),
    }
}

/// Whether a file beside the first volume of a split 7Z archive already belongs to one with
/// the same stem, given the names of the files in its folder.
pub fn split_7z_sibling_exists(first_volume: &str, sibling_names: &Vec<String>) -> (r: bool)
    ensures
        r == spec_split_7z_sibling_exists(first_volume@, string_views(sibling_names@)),
{
    let stem = match split_7z_stem(first_volume) {
        Some(s) => s,
        None => return false,
    };
    let ghost names = string_views(sibling_names@);
    let mut i: usize = 0;
    while i < sibling_names.len()
        invariant
            i <= sibling_names@.len(),
            names == string_views(sibling_names@),
            spec_split_7z_stem(first_volume@) == Some(stem@),
            forall|j: int| 0 <= j < i ==> !spec_is_split_7z_sibling(stem@, #[trigger] names[j]),
        decreases sibling_names.len() - i,
    {
        if is_split_7z_sibling(stem.as_str(), sibling_names[i].as_str()) {
            assert(spec_is_split_7z_sibling(stem@, names[i as int]));
            return true;
        }
        i = i + 1;
    }
    false
}


// ---------------------------------------------------------------------------
// Batches of archives
// ---------------------------------------------------------------------------

/// The trimmed paths that are not blank.
pub open spec fn trimmed_nonblank(paths: Seq<Seq<char>>) -> Seq<Seq<char>>
    decreases paths.len(),
{
    if paths.len() == 0 {
        Seq::<Seq<char>>::empty()
    } else if crate::text::trim(paths.last()).len() > 0 {
        trimmed_nonblank(paths.drop_last()).push(crate::text::trim(paths.last()))
    } else {
        trimmed_nonblank(paths.drop_last())
    }
}

/// The archives a batch extracts: the given paths, trimmed, blank ones left out; refused when
/// none is left.
pub fn batch_archive_paths(paths: &Vec<String>) -> (r: Result<Vec<String>, String>)
    ensures
        match r {
            Ok(v) => string_views(v@) == trimmed_nonblank(string_views(paths@))
                && trimmed_nonblank(string_views(paths@)).len() > 0,
            Err(m) => trimmed_nonblank(string_views(paths@)).len() == 0 && m@
                == "请选择要解压的压缩包。"@,
        },
{
    let ghost pv = string_views(paths@);
    let mut r: Vec<String> = Vec::new();
    let mut i: usize = 0;
    while i < paths.len()
        invariant
            i <= paths.len(),
            pv == string_views(paths@),
            string_views(r@) == trimmed_nonblank(pv.take(i as int)),
        decreases paths.len() - i,
    {
        assert(pv.take(i + 1).drop_last() == pv.take(i as int));
        assert(pv.take(i + 1).last() == paths@[i as int]@);
        let c = chars_of(paths[i].as_str());
        let t = crate::text::trim_chars(&c);
        if t.len() > 0 {
            push_string(&mut r, string_of(&t));
        }
        i = i + 1;
    }
    assert(pv.take(paths.len() as int) == pv);
    if r.len() == 0 {
        return Err(String::from_str("请选择要解压的压缩包。"));
    }
    Ok(r)
}

/// The items and bytes a batch counts after one more archive with these entries: at least
/// one item and one byte for each archive, added saturating.
pub open spec fn batch_totals_after(totals: (usize, u64), entries: Seq<ExtractTaskEntry>) -> (
    usize,
    u64,
) {
    let items = if entries.len() == 0 {
        1
    } else {
        entries.len()
    };
    let bytes = if crate::compress::entries_size(entries) == 0 {
        1
    } else {
        crate::compress::entries_size(entries)
    };
    (
        if totals.0 + items > usize::MAX {
            usize::MAX
        } else {
            (totals.0 + items) as usize
        },
        if totals.1 + bytes > u64::MAX {
            u64::MAX
        } else {
            (totals.1 + bytes) as u64
        },
    )
}

/// The items and bytes a batch counts after one more archive with these entries.
pub fn add_batch_totals(totals: (usize, u64), entries: &[ExtractTaskEntry]) -> (r: (usize, u64))
    requires
        crate::compress::entries_size(entries@) <= u64::MAX,
    ensures
        r == batch_totals_after(totals, entries@),
{
    let items = crate::compress::task_total_items(entries);
    let bytes = crate::compress::task_total_bytes(entries);
    (totals.0.saturating_add(items), totals.1.saturating_add(bytes))
}

// ---------------------------------------------------------------------------
// What a failed compression leaves behind
// ---------------------------------------------------------------------------

/// Whether a file beside an output that was being written belongs to it: a split part of a
/// `.zip` output (its extension matched ignoring ASCII case), or a numbered volume with the
/// same base as a numbered output (names compared as they are).
pub open spec fn is_partial_output_part(output: Seq<char>, candidate: Seq<char>) -> bool {
    ||| has_zip_extension(output) && spec_is_zip_split_part(stem_or_empty(output), candidate)
    ||| match numeric_split_volume_number(crate::formats::name_or_empty(output)) {
        Some((base, _)) => match file_name(candidate) {
            Some(n) => match numeric_split_volume_number(n) {
                Some((b, _)) => b == base,
                None => false,
            },
            None => false,
        },
        None => false,
    }
}

/// The files of a folder that belong to an output, in the folder's order.
pub open spec fn partial_parts(output: Seq<char>, siblings: Seq<Seq<char>>) -> Seq<Seq<char>>
    decreases siblings.len(),
{
    if siblings.len() == 0 {
        Seq::<Seq<char>>::empty()
    } else if is_partial_output_part(output, siblings.last()) {
        partial_parts(output, siblings.drop_last()).push(siblings.last())
    } else {
        partial_parts(output, siblings.drop_last())
    }
}

/// The files beside an output that are removed with it when writing it failed, given the
/// paths of the files in its folder.
pub fn partial_compress_outputs(output: &str, siblings: &Vec<String>) -> (r: Vec<String>)
    ensures
        string_views(r@) == partial_parts(output@, string_views(siblings@)),
{
    let p = chars_of(output);
    let is_zip = match extension_of(&p) {
        Some(e) => {
            let l = ascii_lower_chars(&e);
            crate::text::chars_eq_str(&l, "zip")
        },
        None => false,
    };
    let stem = match file_stem_of(&p) {
        Some(s) => s,
        None => Vec::new(),
    };
    let stem_s = string_of(&stem);
    let name = crate::formats::name_or_empty_of(&p);
    let base = match numeric_split_volume_number_of(&name) {
        Some((b, _)) => Some(b),
        None => None,
    };
    let ghost sv = string_views(siblings@);
    let mut r: Vec<String> = Vec::new();
    let mut i: usize = 0;
    while i < siblings.len()
        invariant
            i <= siblings.len(),
            sv == string_views(siblings@),
            is_zip == has_zip_extension(output@),
            stem_s@ == stem_or_empty(output@),
            match base {
                Some(b) => numeric_split_volume_number(crate::formats::name_or_empty(output@))
                    matches Some((bb, _)) && bb == b@,
                None => numeric_split_volume_number(crate::formats::name_or_empty(output@)) is None,
            },
            string_views(r@) == partial_parts(output@, sv.take(i as int)),
        decreases siblings.len() - i,
    {
        assert(sv.take(i + 1).drop_last() == sv.take(i as int));
        assert(sv.take(i + 1).last() == sv[i as int]);
        let c = chars_of(siblings[i].as_str());
        let zip_part = is_zip && is_zip_split_part(stem_s.as_str(), siblings[i].as_str());
        let numbered = match &base {
            Some(b) => match file_name_of(&c) {
                Some(n) => match numeric_split_volume_number_of(&n) {
                    Some((cb, _)) => chars_eq(&cb, b),
                    None => false,
                },
                None => false,
            },
            None => false,
        };
        if zip_part || numbered {
            push_string(&mut r, siblings[i].clone());
        }
        i = i + 1;
    }
    assert(sv.take(siblings.len() as int) == sv);
    r
}

} // verus!
