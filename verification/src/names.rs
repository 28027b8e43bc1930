//! Names of the archives, folders and files that compressing and extracting create.
use vstd::prelude::*;
use crate::formats::{
    all_digits_of, compress_output_extension, spec_compress_output_extension, name_or_empty, name_or_empty_of, numeric_split_volume_number, numeric_split_volume_number_of,
    rar_part_number, rar_part_number_of,
};
use crate::paths::{
    extension, extension_of, file_name, file_name_of, file_stem, file_stem_of, lemma_file_name_len,
};
use crate::text::{
    all_digits, decimal, extend_chars, extend_str, push_decimal, rsplit_once_chars, starts_with,
    starts_with_chars, ascii_lower, ascii_lower_chars, chars_eq_str, chars_of, ends_with, ends_with_str, has_char,
    last_index_of, lemma_last_index_of_before_bounds, lemma_last_occurrence_before_bounds, rsplit_once, rsplit_once_str,
    rsplit_once_str_chars, slice_chars, string_of, trim, trim_chars,
};

verus! {

// ---------------------------------------------------------------------------
// Path segments
// ---------------------------------------------------------------------------

/// The character that stands for `c` in a path segment: characters that file systems refuse
/// or treat as separators become `-`.
pub open spec fn sanitize_char(c: char) -> char {
    if c == '/' || c == '\\' || c == ':' || c == '*' || c == '?' || c == '"' || c == '<' || c
        == '>' || c == '|' {
        '-'
    } else {
        c
    }
}

/// `v` with each character replaced as `sanitize_char` says.
pub open spec fn sanitized(v: Seq<char>) -> Seq<char> {
    v.map_values(|c: char| sanitize_char(c))
}

/// A safe path segment made of `v`: its characters sanitized, or `archive` when nothing but
/// whitespace would be left.
pub open spec fn spec_sanitize_path_segment(v: Seq<char>) -> Seq<char> {
    if trim(sanitized(v)).len() == 0 {
        "archive"@
    } else {
        sanitized(v)
    }
}

/// A safe path segment made of the characters `v`.
pub fn sanitize_chars(v: &[char]) -> (r: Vec<char>)
    ensures
        r@ == spec_sanitize_path_segment(v@),
{
    let mut cleaned: Vec<char> = Vec::new();
    let mut i: usize = 0;
    while i < v.len()
        invariant
            i <= v.len(),
            cleaned@ == sanitized(v@.take(i as int)),
        decreases v.len() - i,
    {
        let c = v[i];
        let d = if c == '/' || c == '\\' || c == ':' || c == '*' || c == '?' || c == '"' || c
            == '<' || c == '>' || c == '|' {
            '-'
        } else {
            c
        };
        cleaned.push(d);
        assert(cleaned@ =~= sanitized(v@.take(i + 1)));
        i = i + 1;
    }
    assert(v@.take(v.len() as int) == v@);
    let t = trim_chars(&cleaned);
    if t.len() == 0 {
        chars_of("archive")
    } else {
        cleaned
    }
}

/// A safe path segment made of `value`.
pub fn sanitize_path_segment(value: &str) -> (r: String)
    ensures
        r@ == spec_sanitize_path_segment(value@),
{
    let v = chars_of(value);
    let s = sanitize_chars(&v);
    string_of(&s)
}

// ---------------------------------------------------------------------------
// Names of new archives
// ---------------------------------------------------------------------------

/// The archive name a user typed, trimmed; refused when empty or when it is or holds a path.
pub open spec fn spec_sanitize_archive_name(name: Seq<char>) -> Result<Seq<char>, Seq<char>> {
    let t = trim(name);
    if t.len() == 0 {
        Err("请输入压缩包名称。"@)
    } else if t.contains('/') || t.contains('\\') || t == seq!['.'] || t == seq!['.', '.'] {
        Err("压缩包名称不能包含路径分隔符。"@)
    } else {
        Ok(t)
    }
}

/// The archive name a user typed, checked.
pub fn sanitize_archive_name(name: &str) -> (r: Result<String, String>)
    ensures
        match r {
            Ok(n) => spec_sanitize_archive_name(name@) == Ok::<Seq<char>, Seq<char>>(n@),
            Err(m) => spec_sanitize_archive_name(name@) == Err::<Seq<char>, Seq<char>>(m@),
        },
{
    let c = chars_of(name);
    let t = trim_chars(&c);
    if t.len() == 0 {
        return Err(String::from_str("请输入压缩包名称。"));
    }
    let is_dot = t.len() == 1 && t[0] == '.';
    let is_dot_dot = t.len() == 2 && t[0] == '.' && t[1] == '.';
    assert(is_dot == (t@ == seq!['.'])) by {
        if is_dot {
            assert(t@ =~= seq!['.']);
        }
    }
    assert(is_dot_dot == (t@ == seq!['.', '.'])) by {
        if is_dot_dot {
            assert(t@ =~= seq!['.', '.']);
        }
    }
    if has_char(&t, '/') || has_char(&t, '\\') || is_dot || is_dot_dot {
        return Err(String::from_str("压缩包名称不能包含路径分隔符。"));
    }
    Ok(string_of(&t))
}

/// The file name of a source path, or `未命名` when it has none.
pub open spec fn source_name(path: Seq<char>) -> Seq<char> {
    match file_name(path) {
        Some(n) => n,
        None => "未命名"@,
    }
}

/// The default name of an archive made of one source: its file name without a compressed-tar
/// suffix (matched ignoring ASCII case) or else without its extension, made safe.
pub open spec fn spec_default_archive_name_for_source(path: Seq<char>) -> Seq<char> {
    let name = source_name(path);
    let lower = ascii_lower(name);
    let trimmed = if ends_with(lower, ".tar.gz"@) {
        name.take(name.len() - 7)
    } else if ends_with(lower, ".tar.bz2"@) {
        name.take(name.len() - 8)
    } else if ends_with(lower, ".tar.xz"@) {
        name.take(name.len() - 7)
    } else {
        match file_stem(name) {
            Some(s) => s,
            None => name,
        }
    };
    spec_sanitize_path_segment(trimmed)
}

/// The default name of an archive made of the source at `path`.
pub fn default_archive_name_for_source(path: &str) -> (r: String)
    ensures
        r@ == spec_default_archive_name_for_source(path@),
{
    proof {
        reveal_strlit(".tar.gz");
        reveal_strlit(".tar.bz2");
        reveal_strlit(".tar.xz");
    }
    let p = chars_of(path);
    let name = match file_name_of(&p) {
        Some(n) => n,
        None => chars_of("未命名"),
    };
    let lower = ascii_lower_chars(&name);
    let trimmed = if ends_with_str(&lower, ".tar.gz") {
        slice_chars(&name, 0, name.len() - 7)
    } else if ends_with_str(&lower, ".tar.bz2") {
        slice_chars(&name, 0, name.len() - 8)
    } else if ends_with_str(&lower, ".tar.xz") {
        slice_chars(&name, 0, name.len() - 7)
    } else {
        match file_stem_of(&name) {
            Some(s) => s,
            None => name,
        }
    };
    let s = sanitize_chars(&trimmed);
    string_of(&s)
}

// ---------------------------------------------------------------------------
// Folders that archives are extracted into
// ---------------------------------------------------------------------------

/// The archive suffixes that an output folder's name drops, in the order they are tried.
pub open spec fn folder_suffixes() -> Seq<&'static str> {
    seq![
        ".tar.gz",
        ".tar.gzip",
        ".tar.bz2",
        ".tar.bzip2",
        ".tar.xz",
        ".tar.zst",
        ".tar.zstd",
        ".tar.lzma2",
        ".tar.lzma",
        ".tar.lz4",
        ".tgz",
        ".tbz2",
        ".tbz",
        ".txz",
        ".tzst",
        ".tlzma",
        ".tlz4",
        ".zip",
        ".rar",
        ".7z",
        ".tar",
        ".gzip",
        ".bzip2",
        ".gz",
        ".bz2",
        ".xz",
        ".lzh",
        ".lha",
        ".zstd",
        ".zst",
        ".lzma2",
        ".lzma",
        ".lz4",
        ".iso",
        ".z",
    ]
}

/// The first of `exts` that `s` ends with.
pub open spec fn first_suffix(s: Seq<char>, exts: Seq<&'static str>) -> Option<Seq<char>>
    decreases exts.len(),
{
    if exts.len() == 0 {
        None
    } else if ends_with(s, exts[0]@) {
        Some(exts[0]@)
    } else {
        first_suffix(s, exts.drop_first())
    }
}

/// A suffix that `first_suffix` finds is one that `s` ends with.
pub proof fn lemma_first_suffix(s: Seq<char>, exts: Seq<&'static str>)
    ensures
        first_suffix(s, exts) is Some ==> ends_with(s, first_suffix(s, exts)->0),
    decreases exts.len(),
{
    if exts.len() > 0 {
        lemma_first_suffix(s, exts.drop_first());
    }
}

/// The suffixes that an output folder's name drops.
fn folder_suffix_list() -> (r: Vec<&'static str>)
    ensures
        r@ == folder_suffixes(),
{
    let r = vec![
        ".tar.gz",
        ".tar.gzip",
        ".tar.bz2",
        ".tar.bzip2",
        ".tar.xz",
        ".tar.zst",
        ".tar.zstd",
        ".tar.lzma2",
        ".tar.lzma",
        ".tar.lz4",
        ".tgz",
        ".tbz2",
        ".tbz",
        ".txz",
        ".tzst",
        ".tlzma",
        ".tlz4",
        ".zip",
        ".rar",
        ".7z",
        ".tar",
        ".gzip",
        ".bzip2",
        ".gz",
        ".bz2",
        ".xz",
        ".lzh",
        ".lha",
        ".zstd",
        ".zst",
        ".lzma2",
        ".lzma",
        ".lz4",
        ".iso",
        ".z",
    ];
    assert(r@ =~= folder_suffixes());
    r
}

/// The first of `exts` that `s` ends with.
pub fn first_suffix_of(s: &[char], exts: &Vec<&'static str>) -> (r: Option<Vec<char>>)
    ensures
        match r {
            Some(e) => first_suffix(s@, exts@) == Some(e@),
            None => first_suffix(s@, exts@) is None,
        },
{
    let mut i: usize = 0;
    assert(exts@.skip(0) == exts@);
    while i < exts.len()
        invariant
            i <= exts.len(),
            first_suffix(s@, exts@) == first_suffix(s@, exts@.skip(i as int)),
        decreases exts.len() - i,
    {
        assert(exts@.skip(i as int)[0] == exts@[i as int]);
        assert(exts@.skip(i as int).drop_first() == exts@.skip(i + 1));
        if ends_with_str(s, exts[i]) {
            return Some(chars_of(exts[i]));
        }
        i = i + 1;
    }
    None
}

/// The name of the folder that an archive is extracted into: for a RAR volume, the name
/// before `.part`; for a numbered volume, that of the archive it belongs to; else the file
/// name without its archive suffix (matched ignoring ASCII case) or without its extension.
/// The result is made safe as a path segment.
pub open spec fn spec_archive_output_folder_name(path: Seq<char>) -> Seq<char>
    decreases path.len(),
{
    let name = name_or_empty(path);
    let lower = ascii_lower(name);
    let rar_base = if rar_part_number(lower) is Some {
        rsplit_once_str(lower, ".part"@)
    } else {
        None
    };
    match rar_base {
        Some((base, _)) => spec_sanitize_path_segment(name.take(base.len() as int)),
        None => match numeric_split_volume_number(lower) {
            Some((base, _)) => {
                proof {
                    lemma_file_name_len(path);
                    lemma_last_index_of_before_bounds(lower, '.', lower.len() as int);
                }
                spec_archive_output_folder_name(name.take(base.len() as int))
            },
            None => match first_suffix(lower, folder_suffixes()) {
                Some(e) => spec_sanitize_path_segment(name.take(name.len() - e.len())),
                None => spec_sanitize_path_segment(
                    match file_stem(path) {
                        Some(s) => s,
                        None => name,
                    },
                ),
            },
        },
    }
}

/// The name of the folder that the archive at `path` is extracted into.
pub fn archive_output_folder_name(path: &str) -> (r: String)
    ensures
        r@ == spec_archive_output_folder_name(path@),
    decreases path@.len(),
{
    let p = chars_of(path);
    let name = name_or_empty_of(&p);
    let lower = ascii_lower_chars(&name);
    proof {
        lemma_last_occurrence_before_bounds(lower@, ".part"@, lower@.len() as int + 1);
        lemma_first_suffix(lower@, folder_suffixes());
    }
    if rar_part_number_of(&lower).is_some() {
        if let Some((base, _)) = rsplit_once_str_chars(&lower, ".part") {
            let s = sanitize_chars(&slice_chars(&name, 0, base.len()));
            return string_of(&s);
        }
    }
    if let Some((base, _)) = numeric_split_volume_number_of(&lower) {
        proof {
            lemma_file_name_len(path@);
            lemma_last_index_of_before_bounds(lower@, '.', lower@.len() as int);
        }
        let inner = string_of(&slice_chars(&name, 0, base.len()));
        return archive_output_folder_name(inner.as_str());
    }
    let exts = folder_suffix_list();
    match first_suffix_of(&lower, &exts) {
        Some(e) => {
            let s = sanitize_chars(&slice_chars(&name, 0, name.len() - e.len()));
            string_of(&s)
        },
        None => {
            let stem = match file_stem_of(&p) {
                Some(s) => s,
                None => name,
            };
            let s = sanitize_chars(&stem);
            string_of(&s)
        },
    }
}

// ---------------------------------------------------------------------------
// Candidate names for new files and folders
// ---------------------------------------------------------------------------

/// The `index`-th candidate for a folder called `name`: the name itself first, then
/// `<name> <index>` from index 2 on.
pub open spec fn spec_numbered_name(name: Seq<char>, index: nat) -> Seq<char> {
    if index < 2 {
        name
    } else {
        name + seq![' '] + decimal(index)
    }
}

/// The `index`-th candidate for a folder called `name`.
pub fn numbered_name(name: &str, index: u64) -> (r: String)
    ensures
        r@ == spec_numbered_name(name@, index as nat),
{
    let mut v = chars_of(name);
    if index >= 2 {
        v.push(' ');
        push_decimal(&mut v, index);
    }
    string_of(&v)
}

/// The `index`-th candidate for a new archive: `<name>.<ext>`, then `<name> <index>.<ext>`
/// from index 2 on, where `ext` is the extension of the compression format.
pub open spec fn spec_output_archive_file_name(
    archive_name: Seq<char>,
    format: Seq<char>,
    index: nat,
) -> Seq<char> {
    let ext = spec_compress_output_extension(format);
    if index < 2 {
        archive_name + seq!['.'] + ext
    } else {
        archive_name + seq![' '] + decimal(index) + seq!['.'] + ext
    }
}

/// The `index`-th candidate for a new archive.
pub fn output_archive_file_name(archive_name: &str, format: &str, index: u64) -> (r: String)
    ensures
        r@ == spec_output_archive_file_name(archive_name@, format@, index as nat),
{
    let ext = compress_output_extension(format);
    let mut v = chars_of(archive_name);
    if index >= 2 {
        v.push(' ');
        push_decimal(&mut v, index);
    }
    v.push('.');
    extend_str(&mut v, ext.as_str());
    string_of(&v)
}

/// The `index`-th candidate for the first volume of a split 7Z archive: `<name>.7z.001`,
/// then `<name> <index>.7z.001` from index 2 on.
pub open spec fn spec_split_7z_first_volume_name(archive_name: Seq<char>, index: nat) -> Seq<
    char,
> {
    if index < 2 {
        archive_name + ".7z.001"@
    } else {
        archive_name + seq![' '] + decimal(index) + ".7z.001"@
    }
}

/// The `index`-th candidate for the first volume of a split 7Z archive.
pub fn split_7z_first_volume_name(archive_name: &str, index: u64) -> (r: String)
    ensures
        r@ == spec_split_7z_first_volume_name(archive_name@, index as nat),
{
    let mut v = chars_of(archive_name);
    if index >= 2 {
        v.push(' ');
        push_decimal(&mut v, index);
    }
    extend_str(&mut v, ".7z.001");
    string_of(&v)
}

/// The `index`-th candidate for the hidden file an archive is written to before it is
/// moved into place: `.<name>.packo-<seed>.<ext>`, then `.<name>.packo-<seed>-<index>.<ext>`
/// from index 2 on.
pub open spec fn spec_temp_output_file_name(
    archive_name: Seq<char>,
    seed: nat,
    format: Seq<char>,
    index: nat,
) -> Seq<char> {
    let ext = spec_compress_output_extension(format);
    let head = seq!['.'] + archive_name + ".packo-"@ + decimal(seed);
    if index < 2 {
        head + seq!['.'] + ext
    } else {
        head + seq!['-'] + decimal(index) + seq!['.'] + ext
    }
}

/// The `index`-th candidate for the hidden file an archive is written to.
pub fn temp_output_file_name(archive_name: &str, seed: u64, format: &str, index: u64) -> (r:
    String)
    ensures
        r@ == spec_temp_output_file_name(archive_name@, seed as nat, format@, index as nat),
{
    let ext = compress_output_extension(format);
    let mut v: Vec<char> = Vec::new();
    v.push('.');
    extend_str(&mut v, archive_name);
    extend_str(&mut v, ".packo-");
    push_decimal(&mut v, seed);
    if index >= 2 {
        v.push('-');
        push_decimal(&mut v, index);
    }
    v.push('.');
    extend_str(&mut v, ext.as_str());
    string_of(&v)
}

/// The `index`-th candidate for a file called `file_name`: the name itself first, then
/// `<stem> <index>.<ext>` (or `<stem> <index>` when the extension is missing or empty) from
/// index 2 on; `fallback_stem` stands for a stem that the name does not have.
pub open spec fn spec_numbered_file_name(
    file_name: Seq<char>,
    index: nat,
    fallback_stem: Seq<char>,
) -> Seq<char> {
    let stem = match file_stem(file_name) {
        Some(s) => s,
        None => fallback_stem,
    };
    if index < 2 {
        file_name
    } else {
        match extension(file_name) {
            Some(e) => if e.len() > 0 {
                stem + seq![' '] + decimal(index) + seq!['.'] + e
            } else {
                stem + seq![' '] + decimal(index)
            },
            None => stem + seq![' '] + decimal(index),
        }
    }
}

/// The `index`-th candidate for a file called `file_name`.
pub fn numbered_file_name(file_name: &str, index: u64, fallback_stem: &str) -> (r: String)
    ensures
        r@ == spec_numbered_file_name(file_name@, index as nat, fallback_stem@),
{
    let n = chars_of(file_name);
    if index < 2 {
        return string_of(&n);
    }
    let mut v = match file_stem_of(&n) {
        Some(s) => s,
        None => chars_of(fallback_stem),
    };
    v.push(' ');
    push_decimal(&mut v, index);
    if let Some(e) = extension_of(&n) {
        if e.len() > 0 {
            v.push('.');
            extend_chars(&mut v, &e);
        }
    }
    string_of(&v)
}

/// The name that every volume of a split 7Z archive starts with: the first volume's file name
/// without `.001`.
pub open spec fn spec_split_7z_stem(first_volume: Seq<char>) -> Option<Seq<char>> {
    match file_name(first_volume) {
        Some(n) => if ends_with(n, ".001"@) {
            Some(n.take(n.len() - 4))
        } else {
            None
        },
        None => None,
    }
}

/// The name that every volume of the split 7Z archive at `first_volume` starts with.
pub fn split_7z_stem(first_volume: &str) -> (r: Option<String>)
    ensures
        match r {
            Some(s) => spec_split_7z_stem(first_volume@) == Some(s@),
            None => spec_split_7z_stem(first_volume@) is None,
        },
{
    proof {
        reveal_strlit(".001");
    }
    let p = chars_of(first_volume);
    match file_name_of(&p) {
        Some(n) => {
            if ends_with_str(&n, ".001") {
                Some(string_of(&slice_chars(&n, 0, n.len() - 4)))
            } else {
                None
            }
        },
        None => None,
    }
}

/// Whether a file called `name` is a volume of the split 7Z archive whose volumes start with
/// `stem`: it starts with `stem` and its extension is three ASCII digits.
pub open spec fn spec_is_split_7z_sibling(stem: Seq<char>, name: Seq<char>) -> bool {
    starts_with(name, stem) && match rsplit_once(name, '.') {
        Some((_, ext)) => ext.len() == 3 && all_digits(ext),
        None => false,
    }
}

/// Whether a file called `name` is a volume of the split 7Z archive whose volumes start with
/// `stem`.
pub fn is_split_7z_sibling(stem: &str, name: &str) -> (r: bool)
    ensures
        r == spec_is_split_7z_sibling(stem@, name@),
{
    let n = chars_of(name);
    let s = chars_of(stem);
    if !starts_with_chars(&n, &s) {
        return false;
    }
    match rsplit_once_chars(&n, '.') {
        Some((_, ext)) => ext.len() == 3 && all_digits_of(&ext),
        None => false,
    }
}

} // verus!
