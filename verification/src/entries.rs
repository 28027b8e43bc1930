//! Paths of the entries inside an archive: what makes one unsafe, hidden or executable, and the
//! relative paths and names that extracting an entry uses.
use vstd::prelude::*;
use crate::names::{first_suffix, first_suffix_of, lemma_first_suffix, sanitize_chars, spec_sanitize_path_segment};
use crate::paths::{file_name, file_name_of, join_all, join_all_of, path_pieces, path_pieces_of};
use crate::text::{
    ascii_lower, ascii_lower_chars, chars_of, has_char, lemma_views_snoc, replace_char,
    replace_char_chars, slice_chars, split, split_chars, string_of, trim, trim_chars,
    trim_end_char, trim_end_char_chars, trim_start_char, views,
};

verus! {

// ---------------------------------------------------------------------------
// What an entry's path says about it
// ---------------------------------------------------------------------------

/// A piece of an entry path that leaves or stays in its folder, or names a drive.
pub open spec fn unsafe_piece(p: Seq<char>) -> bool {
    p == seq!['.', '.'] || p == seq!['.'] || p.contains(':')
}

/// Whether extracting an entry could write outside the target folder: with backslashes read as
/// slashes, its path is absolute, holds a NUL, or has a `..`, `.` or drive-like piece.
pub open spec fn spec_archive_entry_has_unsafe_path(path: Seq<char>) -> bool {
    let n = replace_char(path, '\\', '/');
    let parts = split(n, '/');
    (n.len() > 0 && n[0] == '/') || n.contains('\0') || exists|i: int|
        0 <= i < parts.len() && unsafe_piece(#[trigger] parts[i])
}

fn is_unsafe_piece(p: &[char]) -> (r: bool)
    ensures
        r == unsafe_piece(p@),
{
    let dot_dot = p.len() == 2 && p[0] == '.' && p[1] == '.';
    let dot = p.len() == 1 && p[0] == '.';
    assert(dot_dot == (p@ == seq!['.', '.'])) by {
        if dot_dot {
            assert(p@ =~= seq!['.', '.']);
        }
    }
    assert(dot == (p@ == seq!['.'])) by {
        if dot {
            assert(p@ =~= seq!['.']);
        }
    }
    dot_dot || dot || has_char(p, ':')
}

/// Whether extracting the entry at `path` could write outside the target folder.
pub fn archive_entry_has_unsafe_path(path: &str) -> (r: bool)
    ensures
        r == spec_archive_entry_has_unsafe_path(path@),
{
    let c = chars_of(path);
    let n = replace_char_chars(&c, '\\', '/');
    if (n.len() > 0 && n[0] == '/') || has_char(&n, '\0') {
        return true;
    }
    let parts = split_chars(&n, '/');
    let mut i: usize = 0;
    while i < parts.len()
        invariant
            i <= parts.len(),
            views(parts@) == split(n@, '/'),
            n@ == replace_char(path@, '\\', '/'),
            forall|j: int| 0 <= j < i ==> !unsafe_piece(#[trigger] split(n@, '/')[j]),
        decreases parts.len() - i,
    {
        assert(parts@[i as int]@ == split(n@, '/')[i as int]);
        if is_unsafe_piece(&parts[i]) {
            assert(unsafe_piece(split(n@, '/')[i as int]));
            return true;
        }
        i = i + 1;
    }
    false
}

/// A piece of a path that names a hidden file or folder: a dot and at least one more character.
pub open spec fn hidden_piece(p: Seq<char>) -> bool {
    p.len() > 1 && p[0] == '.'
}

/// Whether an entry is hidden: with backslashes read as slashes, a piece of its path is hidden.
pub open spec fn spec_archive_entry_is_hidden(path: Seq<char>) -> bool {
    let parts = split(replace_char(path, '\\', '/'), '/');
    exists|i: int| 0 <= i < parts.len() && hidden_piece(#[trigger] parts[i])
}

/// Whether the entry at `path` is hidden.
pub fn archive_entry_is_hidden(path: &str) -> (r: bool)
    ensures
        r == spec_archive_entry_is_hidden(path@),
{
    let c = chars_of(path);
    let n = replace_char_chars(&c, '\\', '/');
    let parts = split_chars(&n, '/');
    let mut i: usize = 0;
    while i < parts.len()
        invariant
            i <= parts.len(),
            views(parts@) == split(n@, '/'),
            n@ == replace_char(path@, '\\', '/'),
            forall|j: int| 0 <= j < i ==> !hidden_piece(#[trigger] split(n@, '/')[j]),
        decreases parts.len() - i,
    {
        assert(parts@[i as int]@ == split(n@, '/')[i as int]);
        let p = &parts[i];
        if p.len() > 1 && p[0] == '.' {
            assert(hidden_piece(split(n@, '/')[i as int]));
            return true;
        }
        i = i + 1;
    }
    false
}

/// The endings (matched ignoring ASCII case) of files that run as programs or scripts.
pub open spec fn executable_suffixes() -> Seq<&'static str> {
    seq![
        ".app",
        ".command",
        ".exe",
        ".bat",
        ".cmd",
        ".com",
        ".msi",
        ".pkg",
        ".dmg",
        ".sh",
        ".bash",
        ".zsh",
        ".fish",
        ".ps1",
        ".py",
        ".rb",
        ".pl",
        ".jar",
    ]
}

fn executable_suffix_list() -> (r: Vec<&'static str>)
    ensures
        r@ == executable_suffixes(),
{
    let r = vec![
        ".app",
        ".command",
        ".exe",
        ".bat",
        ".cmd",
        ".com",
        ".msi",
        ".pkg",
        ".dmg",
        ".sh",
        ".bash",
        ".zsh",
        ".fish",
        ".ps1",
        ".py",
        ".rb",
        ".pl",
        ".jar",
    ];
    assert(r@ =~= executable_suffixes());
    r
}

/// Whether an entry is executable: one of the characters after the first in its permission
/// string, up to the tenth, is `x` or `s`, or its path ends (ignoring ASCII case) in the
/// extension of a program or script.
pub open spec fn spec_archive_entry_is_executable(path: Seq<char>, permissions: Seq<char>) -> bool {
    (exists|i: int|
        1 <= i < 10 && i < permissions.len() && (#[trigger] permissions[i] == 'x' || permissions[i]
            == 's')) || first_suffix(ascii_lower(path), executable_suffixes()) is Some
}

/// Whether the entry at `path`, with the permission string `permissions`, is executable.
pub fn archive_entry_is_executable(path: &str, permissions: &str) -> (r: bool)
    ensures
        r == spec_archive_entry_is_executable(path@, permissions@),
{
    let p = chars_of(permissions);
    let mut i: usize = 1;
    while i < 10 && i < p.len()
        invariant
            1 <= i <= 10,
            p@ == permissions@,
            forall|j: int| 1 <= j < i && j < p@.len() ==> !(#[trigger] p@[j] == 'x' || p@[j] == 's'),
        decreases 10 - i,
    {
        if p[i] == 'x' || p[i] == 's' {
            assert(p@[i as int] == 'x' || p@[i as int] == 's');
            return true;
        }
        i = i + 1;
    }
    let c = chars_of(path);
    let lower = ascii_lower_chars(&c);
    let exts = executable_suffix_list();
    first_suffix_of(&lower, &exts).is_some()
}

// ---------------------------------------------------------------------------
// Relative paths of entries
// ---------------------------------------------------------------------------

/// The pieces of a path that are names: all but `..`.
pub open spec fn normal_names(p: Seq<Seq<char>>) -> Seq<Seq<char>>
    decreases p.len(),
{
    if p.len() == 0 {
        p
    } else if p.last() == seq!['.', '.'] {
        normal_names(p.drop_last())
    } else {
        normal_names(p.drop_last()).push(p.last())
    }
}

/// The relative path made of the named components of an entry's path: its root, `.` and `..`
/// components left out.
pub open spec fn spec_strip_archive_entry_prefix(entry: Seq<char>) -> Seq<char> {
    join_all(normal_names(path_pieces(trim_end_char(entry, '/'))))
}

/// The relative path made of the named components of an entry's path.
pub fn strip_archive_entry_prefix_chars(entry: &[char]) -> (r: Vec<char>)
    ensures
        r@ == spec_strip_archive_entry_prefix(entry@),
{
    let t = trim_end_char_chars(entry, '/');
    let pieces = path_pieces_of(&t);
    let mut names: Vec<Vec<char>> = Vec::new();
    let mut i: usize = 0;
    while i < pieces.len()
        invariant
            i <= pieces.len(),
            views(names@) == normal_names(views(pieces@).take(i as int)),
        decreases pieces.len() - i,
    {
        let piece = &pieces[i];
        assert(views(pieces@).take(i + 1).drop_last() == views(pieces@).take(i as int));
        assert(views(pieces@).take(i + 1).last() == piece@);
        let dot_dot = piece.len() == 2 && piece[0] == '.' && piece[1] == '.';
        assert(dot_dot == (piece@ == seq!['.', '.'])) by {
            if dot_dot {
                assert(piece@ =~= seq!['.', '.']);
            }
        }
        if !dot_dot {
            let ghost old_names = names@;
            let copy = slice_chars(piece, 0, piece.len());
            assert(copy@ == piece@);
            names.push(copy);
            proof {
                assert(names@.drop_last() == old_names);
                lemma_views_snoc(names@);
            }
        }
        i = i + 1;
    }
    assert(views(pieces@).take(pieces.len() as int) == views(pieces@));
    join_all_of(&names)
}

/// The relative path made of the named components of an entry's path.
pub fn strip_archive_entry_prefix(entry: &str) -> (r: String)
    ensures
        r@ == spec_strip_archive_entry_prefix(entry@),
{
    let c = chars_of(entry);
    let s = strip_archive_entry_prefix_chars(&c);
    string_of(&s)
}

/// Whether a name is `.` or `..`.
pub open spec fn is_dot_name(n: Seq<char>) -> bool {
    n == seq!['.'] || n == seq!['.', '.']
}

fn is_dot_name_of(n: &[char]) -> (r: bool)
    ensures
        r == is_dot_name(n@),
{
    let dot = n.len() == 1 && n[0] == '.';
    let dot_dot = n.len() == 2 && n[0] == '.' && n[1] == '.';
    assert(dot == (n@ == seq!['.'])) by {
        if dot {
            assert(n@ =~= seq!['.']);
        }
    }
    assert(dot_dot == (n@ == seq!['.', '.'])) by {
        if dot_dot {
            assert(n@ =~= seq!['.', '.']);
        }
    }
    dot || dot_dot
}

/// The name an entry dragged out of an archive is given: the suggested name, trimmed and made
/// safe, unless that is empty, `.` or `..`; else the entry's own file name made safe, unless
/// that is `.` or `..`; else `archive-entry`.
pub open spec fn spec_promised_archive_entry_name(entry_path: Seq<char>, suggested: Seq<char>) -> Seq<
    char,
> {
    let t = trim(suggested);
    if t.len() > 0 && !is_dot_name(spec_sanitize_path_segment(t)) {
        spec_sanitize_path_segment(t)
    } else {
        match file_name(spec_strip_archive_entry_prefix(entry_path)) {
            Some(n) => if !is_dot_name(spec_sanitize_path_segment(n)) {
                spec_sanitize_path_segment(n)
            } else {
                "archive-entry"@
            },
            None => "archive-entry"@,
        }
    }
}

/// The name an entry dragged out of an archive is given.
pub fn promised_archive_entry_name(entry_path: &str, suggested_name: &str) -> (r: String)
    ensures
        r@ == spec_promised_archive_entry_name(entry_path@, suggested_name@),
{
    let s = chars_of(suggested_name);
    let t = trim_chars(&s);
    if t.len() > 0 {
        let sanitized = sanitize_chars(&t);
        if !is_dot_name_of(&sanitized) {
            return string_of(&sanitized);
        }
    }
    let e = chars_of(entry_path);
    let stripped = strip_archive_entry_prefix_chars(&e);
    match file_name_of(&stripped) {
        Some(n) => {
            let sanitized = sanitize_chars(&n);
            if !is_dot_name_of(&sanitized) {
                string_of(&sanitized)
            } else {
                String::from_str("archive-entry")
            }
        },
        None => String::from_str("archive-entry"),
    }
}

/// The relative path that an edit of an archive names: trimmed, without trailing slashes, and
/// refused when empty or unsafe; what is returned is its named components.
pub open spec fn spec_safe_archive_relative_path(value: Seq<char>) -> Result<Seq<char>, Seq<char>> {
    let t = trim_end_char(trim(value), '/');
    if t.len() == 0 {
        Err("路径不能为空。"@)
    } else if spec_archive_entry_has_unsafe_path(t) {
        Err("路径不安全："@ + t)
    } else if spec_strip_archive_entry_prefix(t).len() == 0 {
        Err("路径不能为空。"@)
    } else {
        Ok(spec_strip_archive_entry_prefix(t))
    }
}

/// The relative path that an edit of an archive names.
pub fn safe_archive_relative_path(value: &str) -> (r: Result<String, String>)
    ensures
        match r {
            Ok(p) => spec_safe_archive_relative_path(value@) == Ok::<Seq<char>, Seq<char>>(p@),
            Err(m) => spec_safe_archive_relative_path(value@) == Err::<Seq<char>, Seq<char>>(m@),
        },
{
    let v = chars_of(value);
    let tv = trim_chars(&v);
    let t = trim_end_char_chars(&tv, '/');
    if t.len() == 0 {
        return Err(String::from_str("路径不能为空。"));
    }
    let ts = string_of(&t);
    if archive_entry_has_unsafe_path(ts.as_str()) {
        let mut m = chars_of("路径不安全：");
        crate::text::extend_chars(&mut m, &t);
        return Err(string_of(&m));
    }
    let p = strip_archive_entry_prefix_chars(&t);
    if p.len() == 0 {
        return Err(String::from_str("路径不能为空。"));
    }
    Ok(string_of(&p))
}

/// `s` without its leading `./` pairs, as `str::trim_start_matches("./")` gives it.
pub open spec fn trim_leading_dot_slash(s: Seq<char>) -> Seq<char>
    decreases s.len(),
{
    if s.len() >= 2 && s[0] == '.' && s[1] == '/' {
        trim_leading_dot_slash(s.skip(2))
    } else {
        s
    }
}

/// The key an entry path is matched by: trimmed, without leading `./` and trailing slashes,
/// and with backslashes turned into slashes.
pub open spec fn spec_normalize_archive_entry_key(path: Seq<char>) -> Seq<char> {
    replace_char(trim_end_char(trim_leading_dot_slash(trim(path)), '/'), '\\', '/')
}

/// The key an entry path is matched by.
pub fn normalize_archive_entry_key(path: &str) -> (r: String)
    ensures
        r@ == spec_normalize_archive_entry_key(path@),
{
    let c = chars_of(path);
    let t = trim_chars(&c);
    let mut start: usize = 0;
    assert(t@.skip(0) == t@);
    while t.len() >= 2 && start <= t.len() - 2 && t[start] == '.' && t[start + 1] == '/'
        invariant
            start <= t.len(),
            trim_leading_dot_slash(t@) == trim_leading_dot_slash(t@.skip(start as int)),
        decreases t.len() - start,
    {
        assert(t@.skip(start as int).skip(2) == t@.skip(start + 2));
        start = start + 2;
    }
    let rest = slice_chars(&t, start, t.len());
    let e = trim_end_char_chars(&rest, '/');
    let r = replace_char_chars(&e, '\\', '/');
    string_of(&r)
}

/// Where inside an edited archive new files are added: nowhere (the archive's top folder)
/// when the target, trimmed of whitespace and slashes, is empty; else the target as a safe
/// relative path.
pub open spec fn spec_archive_add_target(target_dir: Seq<char>) -> Result<Option<Seq<char>>, Seq<
    char,
>> {
    let t = trim_start_char(trim_end_char(trim(target_dir), '/'), '/');
    if t.len() == 0 {
        Ok(None)
    } else {
        match spec_safe_archive_relative_path(t) {
            Ok(p) => Ok(Some(p)),
            Err(m) => Err(m),
        }
    }
}

/// Where inside an edited archive new files are added.
pub fn archive_add_target(target_dir: &str) -> (r: Result<Option<String>, String>)
    ensures
        match r {
            Ok(Some(p)) => spec_archive_add_target(target_dir@) == Ok::<
                Option<Seq<char>>,
                Seq<char>,
            >(Some(p@)),
            Ok(None) => spec_archive_add_target(target_dir@) == Ok::<Option<Seq<char>>, Seq<char>>(
                None,
            ),
            Err(m) => spec_archive_add_target(target_dir@) == Err::<Option<Seq<char>>, Seq<char>>(
                m@,
            ),
        },
{
    let c = chars_of(target_dir);
    let t0 = trim_chars(&c);
    let t1 = trim_end_char_chars(&t0, '/');
    let t = crate::text::trim_start_char_chars(&t1, '/');
    if t.len() == 0 {
        return Ok(None);
    }
    let ts = string_of(&t);
    match safe_archive_relative_path(ts.as_str()) {
        Ok(p) => Ok(Some(p)),
        Err(m) => Err(m),
    }
}

// ---------------------------------------------------------------------------
// Requests that name an entry
// ---------------------------------------------------------------------------

/// The entry a drag out of an archive names: its path trimmed and without trailing slashes;
/// refused when that is empty (asking for a folder or a file, as dragged) or unsafe.
pub open spec fn spec_promised_entry_path(entry_path: Seq<char>, is_dir: bool) -> Result<
    Seq<char>,
    Seq<char>,
> {
    let p = trim_end_char(trim(entry_path), '/');
    if p.len() == 0 {
        Err(
            if is_dir {
                "请选择要拖出的文件夹。"@
            } else {
                "请选择要拖出的文件。"@
            },
        )
    } else if spec_archive_entry_has_unsafe_path(p) {
        Err("该条目路径不安全，已阻止拖出。"@)
    } else {
        Ok(p)
    }
}

/// The entry a drag out of an archive names.
pub fn promised_entry_path(entry_path: &str, is_dir: bool) -> (r: Result<String, String>)
    ensures
        match r {
            Ok(p) => spec_promised_entry_path(entry_path@, is_dir) == Ok::<Seq<char>, Seq<char>>(p@),
            Err(m) => spec_promised_entry_path(entry_path@, is_dir) == Err::<Seq<char>, Seq<char>>(
                m@,
            ),
        },
{
    let c = chars_of(entry_path);
    let t = trim_chars(&c);
    let p = trim_end_char_chars(&t, '/');
    if p.len() == 0 {
        return Err(
            if is_dir {
                String::from_str("请选择要拖出的文件夹。")
            } else {
                String::from_str("请选择要拖出的文件。")
            },
        );
    }
    let ps = string_of(&p);
    if archive_entry_has_unsafe_path(ps.as_str()) {
        return Err(String::from_str("该条目路径不安全，已阻止拖出。"));
    }
    Ok(ps)
}

/// Whether an entry can be previewed: a request must name a file (not blank, not ending with
/// `/`).
pub open spec fn spec_check_preview_entry(entry_path: Seq<char>) -> Result<(), Seq<char>> {
    if trim(entry_path).len() == 0 || (entry_path.len() > 0 && entry_path.last() == '/') {
        Err("请选择要预览的文件。"@)
    } else {
        Ok(())
    }
}

/// Whether an entry can be previewed.
pub fn check_preview_entry(entry_path: &str) -> (r: Result<(), String>)
    ensures
        match r {
            Ok(()) => spec_check_preview_entry(entry_path@) == Ok::<(), Seq<char>>(()),
            Err(m) => spec_check_preview_entry(entry_path@) == Err::<(), Seq<char>>(m@),
        },
{
    let c = chars_of(entry_path);
    if trim_chars(&c).len() == 0 || (c.len() > 0 && c[c.len() - 1] == '/') {
        Err(String::from_str("请选择要预览的文件。"))
    } else {
        Ok(())
    }
}

/// The folder an extraction writes to: the given one, trimmed; refused when that is empty.
pub open spec fn spec_extract_output_dir(output_dir: Seq<char>) -> Result<Seq<char>, Seq<char>> {
    if trim(output_dir).len() == 0 {
        Err("请选择解压位置。"@)
    } else {
        Ok(trim(output_dir))
    }
}

/// The folder an extraction writes to.
pub fn extract_output_dir(output_dir: &str) -> (r: Result<String, String>)
    ensures
        match r {
            Ok(d) => spec_extract_output_dir(output_dir@) == Ok::<Seq<char>, Seq<char>>(d@),
            Err(m) => spec_extract_output_dir(output_dir@) == Err::<Seq<char>, Seq<char>>(m@),
        },
{
    let c = chars_of(output_dir);
    let t = trim_chars(&c);
    if t.len() == 0 {
        Err(String::from_str("请选择解压位置。"))
    } else {
        Ok(string_of(&t))
    }
}

} // verus!
