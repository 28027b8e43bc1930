//! The files chosen for compressing: the folder they share, their paths relative to it, and
//! which of them are left out.
use vstd::prelude::*;
use crate::paths::{
    components, components_of, components_start_with, file_name, file_name_of, join_all,
    join_all_of, parent_components, path_starts_with, path_starts_with_chars,
};
use crate::text::{
    ascii_lower, chars_eq_str, chars_of, eq_ignore_ascii_case, extend_str, lemma_views_snoc,
    push_string, replace_char, replace_char_chars, slice_chars, starts_with, starts_with_str,
    string_of, string_views, views,
};

verus! {

// ---------------------------------------------------------------------------
// Relative paths
// ---------------------------------------------------------------------------

/// `Path::strip_prefix`: the components of `s` after those of `base`, when `s` starts with
/// `base`, joined with slashes.
pub open spec fn spec_strip_path_prefix(s: Seq<char>, base: Seq<char>) -> Option<Seq<char>> {
    if path_starts_with(s, base) {
        Some(join_all(components(s).skip(components(base).len() as int)))
    } else {
        None
    }
}

fn skip_components(a: &Vec<Vec<char>>, k: usize) -> (r: Vec<Vec<char>>)
    requires
        k <= a@.len(),
    ensures
        views(r@) == views(a@).skip(k as int),
{
    let mut r: Vec<Vec<char>> = Vec::new();
    let mut i: usize = k;
    while i < a.len()
        invariant
            k <= i <= a@.len(),
            views(r@) == views(a@).subrange(k as int, i as int),
        decreases a.len() - i,
    {
        let ghost old_r = r@;
        let copy = slice_chars(&a[i], 0, a[i].len());
        assert(copy@ == a@[i as int]@);
        r.push(copy);
        proof {
            assert(r@.drop_last() == old_r);
            lemma_views_snoc(r@);
            assert(views(a@).subrange(k as int, i + 1) == views(a@).subrange(k as int, i as int).push(
                a@[i as int]@,
            ));
        }
        i = i + 1;
    }
    assert(views(a@).subrange(k as int, a@.len() as int) == views(a@).skip(k as int));
    r
}

/// `Path::strip_prefix`.
pub fn strip_path_prefix(s: &str, base: &str) -> (r: Option<String>)
    ensures
        crate::text::opt_view(r) == spec_strip_path_prefix(s@, base@),
{
    let sc = chars_of(s);
    let bc = chars_of(base);
    let a = components_of(&sc);
    let b = components_of(&bc);
    if !components_start_with(&a, &b) {
        return None;
    }
    let rest = skip_components(&a, b.len());
    let j = join_all_of(&rest);
    Some(string_of(&j))
}

// ---------------------------------------------------------------------------
// The folder that the sources share
// ---------------------------------------------------------------------------

/// Whether the components `b` are a prefix of the components `a`.
pub open spec fn components_prefix(a: Seq<Seq<char>>, b: Seq<Seq<char>>) -> bool {
    b.len() <= a.len() && a.take(b.len() as int) == b
}

/// `parent`, popped (as `PathBuf::pop` does) until it is a prefix of `cp`; none when it can no
/// longer be popped.
pub open spec fn pop_until_prefix(parent: Seq<Seq<char>>, cp: Seq<Seq<char>>) -> Option<
    Seq<Seq<char>>,
>
    decreases parent.len(),
{
    if components_prefix(cp, parent) {
        Some(parent)
    } else {
        match parent_components(parent) {
            None => None,
            Some(p) => pop_until_prefix(p, cp),
        }
    }
}

/// The shared folder of the first `n + 1` paths, as components.
pub open spec fn common_parent_after(paths: Seq<Seq<char>>, n: int) -> Result<
    Seq<Seq<char>>,
    Seq<char>,
>
    decreases n,
{
    if n <= 0 {
        match parent_components(components(paths[0])) {
            None => Err("无法确定文件所在目录。"@),
            Some(p) => Ok(p),
        }
    } else {
        match common_parent_after(paths, n - 1) {
            Err(e) => Err(e),
            Ok(parent) => match parent_components(components(paths[n])) {
                None => Err("无法确定文件所在目录。"@),
                Some(cp) => match pop_until_prefix(parent, cp) {
                    None => Err("无法计算公共目录。"@),
                    Some(p) => Ok(p),
                },
            },
        }
    }
}

/// The folder that the sources share: the first one's parent, shortened until every other
/// source's parent lies in it. Refused without sources, for a source without a parent (the
/// root or an empty path), and when no shared folder remains. The folder is given as its
/// components joined with slashes.
pub open spec fn spec_common_parent(paths: Seq<Seq<char>>) -> Result<Seq<char>, Seq<char>> {
    if paths.len() == 0 {
        Err("请先选择文件。"@)
    } else {
        match common_parent_after(paths, paths.len() - 1) {
            Err(e) => Err(e),
            Ok(p) => Ok(join_all(p)),
        }
    }
}

proof fn lemma_common_parent_error(paths: Seq<Seq<char>>, i: int, n: int)
    requires
        0 <= i <= n,
        common_parent_after(paths, i) is Err,
    ensures
        common_parent_after(paths, n) == common_parent_after(paths, i),
    decreases n - i,
{
    if n > i {
        lemma_common_parent_error(paths, i, n - 1);
    }
}

pub fn parent_components_of(cs: &Vec<Vec<char>>) -> (r: Option<Vec<Vec<char>>>)
    ensures
        match r {
            Some(p) => parent_components(views(cs@)) == Some(views(p@)),
            None => parent_components(views(cs@)) is None,
        },
{
    if cs.len() == 0 {
        return None;
    }
    let last = &cs[cs.len() - 1];
    let is_root = last.len() == 1 && last[0] == '/';
    assert(is_root == (views(cs@).last() == seq!['/'])) by {
        if is_root {
            assert(last@ =~= seq!['/']);
        }
    }
    if is_root {
        return None;
    }
    let mut r: Vec<Vec<char>> = Vec::new();
    let mut i: usize = 0;
    while i + 1 < cs.len()
        invariant
            i < cs.len(),
            views(r@) == views(cs@).take(i as int),
        decreases cs.len() - i,
    {
        let ghost old_r = r@;
        let copy = slice_chars(&cs[i], 0, cs[i].len());
        assert(copy@ == cs@[i as int]@);
        r.push(copy);
        proof {
            assert(r@.drop_last() == old_r);
            lemma_views_snoc(r@);
            assert(views(cs@).take(i + 1) == views(cs@).take(i as int).push(cs@[i as int]@));
        }
        i = i + 1;
    }
    assert(views(cs@).take(i as int) == views(cs@).drop_last());
    Some(r)
}

fn pop_until_prefix_of(parent: Vec<Vec<char>>, cp: &Vec<Vec<char>>) -> (r: Option<Vec<Vec<char>>>)
    ensures
        match r {
            Some(p) => pop_until_prefix(views(parent@), views(cp@)) == Some(views(p@)),
            None => pop_until_prefix(views(parent@), views(cp@)) is None,
        },
    decreases parent@.len(),
{
    if components_start_with(cp, &parent) {
        return Some(parent);
    }
    match parent_components_of(&parent) {
        None => None,
        Some(p) => {
            assert(views(p@).len() < views(parent@).len());
            pop_until_prefix_of(p, cp)
        },
    }
}

/// The folder that the sources share.
pub fn common_parent(paths: &Vec<String>) -> (r: Result<String, String>)
    ensures
        match r {
            Ok(p) => spec_common_parent(string_views(paths@)) == Ok::<Seq<char>, Seq<char>>(p@),
            Err(m) => spec_common_parent(string_views(paths@)) == Err::<Seq<char>, Seq<char>>(m@),
        },
{
    let ghost ps = string_views(paths@);
    if paths.len() == 0 {
        return Err(String::from_str("请先选择文件。"));
    }
    let first = chars_of(paths[0].as_str());
    let fc = components_of(&first);
    let mut parent = match parent_components_of(&fc) {
        Some(p) => p,
        None => {
            proof {
                lemma_common_parent_error(ps, 0, ps.len() - 1);
            }
            return Err(String::from_str("无法确定文件所在目录。"));
        },
    };
    let mut i: usize = 1;
    while i < paths.len()
        invariant
            1 <= i <= paths.len(),
            ps == string_views(paths@),
            common_parent_after(ps, i - 1) == Ok::<Seq<Seq<char>>, Seq<char>>(views(parent@)),
        decreases paths.len() - i,
    {
        let pc = chars_of(paths[i].as_str());
        let cc = components_of(&pc);
        assert(pc@ == ps[i as int]);
        let cp = match parent_components_of(&cc) {
            Some(p) => p,
            None => {
                proof {
                    lemma_common_parent_error(ps, i as int, ps.len() - 1);
                }
                return Err(String::from_str("无法确定文件所在目录。"));
            },
        };
        parent = match pop_until_prefix_of(parent, &cp) {
            Some(p) => p,
            None => {
                proof {
                    lemma_common_parent_error(ps, i as int, ps.len() - 1);
                }
                return Err(String::from_str("无法计算公共目录。"));
            },
        };
        i = i + 1;
    }
    let j = join_all_of(&parent);
    Ok(string_of(&j))
}

// ---------------------------------------------------------------------------
// What is left out
// ---------------------------------------------------------------------------

/// Whether a path is one of the excluded paths or lies inside one.
pub open spec fn spec_is_path_excluded(path: Seq<char>, excluded: Seq<Seq<char>>) -> bool {
    exists|i: int| 0 <= i < excluded.len() && path_starts_with(path, #[trigger] excluded[i])
}

/// Whether a path is one of the excluded paths or lies inside one.
pub fn is_path_excluded(path: &str, excluded_paths: &Vec<String>) -> (r: bool)
    ensures
        r == spec_is_path_excluded(path@, string_views(excluded_paths@)),
{
    let p = chars_of(path);
    let mut i: usize = 0;
    while i < excluded_paths.len()
        invariant
            i <= excluded_paths.len(),
            p@ == path@,
            forall|j: int|
                0 <= j < i ==> !path_starts_with(path@, #[trigger] string_views(excluded_paths@)[j]),
        decreases excluded_paths.len() - i,
    {
        let e = chars_of(excluded_paths[i].as_str());
        if path_starts_with_chars(&p, &e) {
            assert(path_starts_with(path@, string_views(excluded_paths@)[i as int]));
            return true;
        }
        i = i + 1;
    }
    false
}

/// Whether a path is a Finder `.DS_Store` file (its name matched ignoring ASCII case) that is
/// to be left out.
pub open spec fn spec_is_ds_store_path(path: Seq<char>, enabled: bool) -> bool {
    enabled && match file_name(path) {
        Some(n) => ascii_lower(n) == ascii_lower(".DS_Store"@),
        None => false,
    }
}

/// Whether a path is a Finder `.DS_Store` file that is to be left out.
pub fn is_ds_store_path(path: &str, enabled: bool) -> (r: bool)
    ensures
        r == spec_is_ds_store_path(path@, enabled),
{
    if !enabled {
        return false;
    }
    let p = chars_of(path);
    match file_name_of(&p) {
        Some(n) => eq_ignore_ascii_case(&n, ".DS_Store"),
        None => false,
    }
}

/// A component that is macOS metadata: a `__MACOSX` folder or a `._` file.
pub open spec fn is_metadata_component(c: Seq<char>) -> bool {
    c == "__MACOSX"@ || starts_with(c, "._"@)
}

/// Whether a path is (or lies in) macOS metadata that is to be left out.
pub open spec fn spec_is_macos_metadata_path(path: Seq<char>, enabled: bool) -> bool {
    enabled && exists|i: int|
        0 <= i < components(path).len() && is_metadata_component(#[trigger] components(path)[i])
}

/// Whether a path is (or lies in) macOS metadata that is to be left out.
pub fn is_macos_metadata_path(path: &str, enabled: bool) -> (r: bool)
    ensures
        r == spec_is_macos_metadata_path(path@, enabled),
{
    if !enabled {
        return false;
    }
    let p = chars_of(path);
    let cs = components_of(&p);
    let mut i: usize = 0;
    while i < cs.len()
        invariant
            i <= cs.len(),
            enabled,
            views(cs@) == components(path@),
            forall|j: int| 0 <= j < i ==> !is_metadata_component(#[trigger] components(path@)[j]),
        decreases cs.len() - i,
    {
        assert(cs@[i as int]@ == components(path@)[i as int]);
        if chars_eq_str(&cs[i], "__MACOSX") || starts_with_str(&cs[i], "._") {
            assert(is_metadata_component(components(path@)[i as int]));
            return true;
        }
        i = i + 1;
    }
    false
}

/// The patterns that leave the excluded paths out, relative to the shared folder: for each
/// excluded path inside it (other than the folder itself), its relative path with backslashes
/// turned into slashes, and that path followed by `/*`.
pub open spec fn spec_excluded_relative_patterns(excluded: Seq<Seq<char>>, parent: Seq<char>) -> Seq<
    Seq<char>,
>
    decreases excluded.len(),
{
    if excluded.len() == 0 {
        Seq::<Seq<char>>::empty()
    } else {
        let before = spec_excluded_relative_patterns(excluded.drop_last(), parent);
        match spec_strip_path_prefix(excluded.last(), parent) {
            None => before,
            Some(rel) => {
                let r = replace_char(rel, '\\', '/');
                if r.len() == 0 {
                    before
                } else {
                    before + seq![r, r + "/*"@]
                }
            },
        }
    }
}

/// The patterns that leave the excluded paths out, relative to the shared folder.
pub fn excluded_relative_patterns(excluded_paths: &Vec<String>, common_parent: &str) -> (r: Vec<
    String,
>)
    ensures
        string_views(r@) == spec_excluded_relative_patterns(
            string_views(excluded_paths@),
            common_parent@,
        ),
{
    let mut r: Vec<String> = Vec::new();
    let mut i: usize = 0;
    while i < excluded_paths.len()
        invariant
            i <= excluded_paths.len(),
            string_views(r@) == spec_excluded_relative_patterns(
                string_views(excluded_paths@).take(i as int),
                common_parent@,
            ),
        decreases excluded_paths.len() - i,
    {
        let ghost ex = string_views(excluded_paths@);
        assert(ex.take(i + 1).drop_last() == ex.take(i as int));
        assert(ex.take(i + 1).last() == excluded_paths@[i as int]@);
        if let Some(rel) = strip_path_prefix(excluded_paths[i].as_str(), common_parent) {
            let rc = chars_of(rel.as_str());
            let rr = replace_char_chars(&rc, '\\', '/');
            if rr.len() > 0 {
                let ghost before = string_views(r@);
                push_string(&mut r, string_of(&rr));
                let mut star = slice_chars(&rr, 0, rr.len());
                assert(star@ == rr@);
                extend_str(&mut star, "/*");
                push_string(&mut r, string_of(&star));
                assert(string_views(r@) =~= before + seq![rr@, rr@ + "/*"@]);
            }
        }
        i = i + 1;
    }
    assert(string_views(excluded_paths@).take(excluded_paths.len() as int) == string_views(
        excluded_paths@,
    ));
    r
}

} // verus!
