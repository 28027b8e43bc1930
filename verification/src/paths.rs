//! Unix path semantics (as `std::path` gives them) over character sequences.
use vstd::prelude::*;
use crate::text::{
    chars_eq, chars_of, extend_chars, last_index_of, last_index_of_before,
    lemma_last_index_of_before_bounds, lemma_split_nonempty, lemma_views_snoc, rfind_char, slice_chars, split, split_chars,
    starts_with, string_of, views,
};

verus! {

/// The pieces of a path between separators that are components: neither empty nor `.`.
pub open spec fn normal_pieces(p: Seq<Seq<char>>) -> Seq<Seq<char>>
    decreases p.len(),
{
    if p.len() == 0 {
        p
    } else {
        let r = normal_pieces(p.drop_last());
        if p.last().len() > 0 && p.last() != seq!['.'] {
            r.push(p.last())
        } else {
            r
        }
    }
}

/// The `Normal` and `ParentDir` components of a path, as text.
pub open spec fn path_pieces(s: Seq<char>) -> Seq<Seq<char>> {
    normal_pieces(split(s, '/'))
}

/// Whether a path has a root (`/`) component.
pub open spec fn has_root(s: Seq<char>) -> bool {
    s.len() > 0 && s[0] == '/'
}

/// Whether a path begins with a `CurDir` component: it is `.` or begins with `./`.
pub open spec fn has_leading_cur(s: Seq<char>) -> bool {
    s == seq!['.'] || starts_with(s, seq!['.', '/'])
}

/// `Path::components`, each component as its text (`/`, `.`, `..` or a name).
pub open spec fn components(s: Seq<char>) -> Seq<Seq<char>> {
    (if has_root(s) {
        seq![seq!['/']]
    } else {
        Seq::<Seq<char>>::empty()
    }) + (if has_leading_cur(s) {
        seq![seq!['.']]
    } else {
        Seq::<Seq<char>>::empty()
    }) + path_pieces(s)
}

/// `Path::file_name`.
pub open spec fn file_name(s: Seq<char>) -> Option<Seq<char>> {
    let p = path_pieces(s);
    if p.len() > 0 && p.last() != seq!['.', '.'] {
        Some(p.last())
    } else {
        None
    }
}

/// The parts of a file name before and after its last dot, as `Path::file_stem` and
/// `Path::extension` split it: a name without a dot, or whose only dot is the first character,
/// has no extension.
pub open spec fn split_name_at_dot(n: Seq<char>) -> (Seq<char>, Option<Seq<char>>) {
    let i = last_index_of(n, '.');
    if i <= 0 {
        (n, None)
    } else {
        (n.take(i), Some(n.skip(i + 1)))
    }
}

/// `Path::file_stem`.
pub open spec fn file_stem(s: Seq<char>) -> Option<Seq<char>> {
    match file_name(s) {
        Some(n) => Some(split_name_at_dot(n).0),
        None => None,
    }
}

/// `Path::extension`.
pub open spec fn extension(s: Seq<char>) -> Option<Seq<char>> {
    match file_name(s) {
        Some(n) => split_name_at_dot(n).1,
        None => None,
    }
}

/// `PathBuf::push` on Unix: an absolute `p` replaces `base`; otherwise `p` is appended, with a
/// separator when `base` does not already end with one.
pub open spec fn push_path(base: Seq<char>, p: Seq<char>) -> Seq<char> {
    if p.len() > 0 && p[0] == '/' {
        p
    } else if base.len() > 0 && base.last() != '/' {
        base + seq!['/'] + p
    } else {
        base + p
    }
}

/// The path built by pushing each of `cs` onto an empty `PathBuf`.
pub open spec fn join_all(cs: Seq<Seq<char>>) -> Seq<char>
    decreases cs.len(),
{
    if cs.len() == 0 {
        Seq::<char>::empty()
    } else {
        push_path(join_all(cs.drop_last()), cs.last())
    }
}

/// `Path::starts_with`: the components of `base` are a prefix of the components of `s`.
pub open spec fn path_starts_with(s: Seq<char>, base: Seq<char>) -> bool {
    let a = components(s);
    let b = components(base);
    b.len() <= a.len() && a.take(b.len() as int) == b
}

/// `Path::parent`, as components: `None` for an empty path or a root.
pub open spec fn parent_components(cs: Seq<Seq<char>>) -> Option<Seq<Seq<char>>> {
    if cs.len() == 0 || cs.last() == seq!['/'] {
        None
    } else {
        Some(cs.drop_last())
    }
}

// ---------------------------------------------------------------------------

/// The pieces of `p` that are neither empty nor `.`.
fn normal_pieces_of(p: &Vec<Vec<char>>) -> (r: Vec<Vec<char>>)
    ensures
        views(r@) == normal_pieces(views(p@)),
{
    let mut r: Vec<Vec<char>> = Vec::new();
    let mut i: usize = 0;
    while i < p.len()
        invariant
            i <= p.len(),
            views(r@) == normal_pieces(views(p@).take(i as int)),
        decreases p.len() - i,
    {
        let piece = &p[i];
        let ghost before = views(p@).take(i as int);
        assert(views(p@).take(i + 1).drop_last() == before);
        assert(views(p@).take(i + 1).last() == piece@);
        let is_dot = piece.len() == 1 && piece[0] == '.';
        assert(is_dot == (piece@ == seq!['.'])) by {
            if is_dot {
                assert(piece@ =~= seq!['.']);
            }
        }
        if piece.len() > 0 && !is_dot {
            let copy = slice_chars(piece, 0, piece.len());
            assert(copy@ == piece@);
            let ghost old_r = r@;
            r.push(copy);
            proof {
                assert(r@.drop_last() == old_r);
                lemma_views_snoc(r@);
            }
        }
        i = i + 1;
    }
    assert(views(p@).take(p.len() as int) == views(p@));
    r
}

/// The `Normal` and `ParentDir` components of a path.
pub fn path_pieces_of(s: &[char]) -> (r: Vec<Vec<char>>)
    ensures
        views(r@) == path_pieces(s@),
{
    let parts = split_chars(s, '/');
    normal_pieces_of(&parts)
}

/// `Path::components`, each component as its text.
pub fn components_of(s: &[char]) -> (r: Vec<Vec<char>>)
    ensures
        views(r@) == components(s@),
{
    let mut r: Vec<Vec<char>> = Vec::new();
    let ghost head_spec = (if has_root(s@) {
        seq![seq!['/']]
    } else {
        Seq::<Seq<char>>::empty()
    }) + (if has_leading_cur(s@) {
        seq![seq!['.']]
    } else {
        Seq::<Seq<char>>::empty()
    });
    if s.len() > 0 && s[0] == '/' {
        let root = vec!['/'];
        assert(root@ =~= seq!['/']);
        r.push(root);
        assert(!has_leading_cur(s@));
        assert(views(r@) =~= head_spec);
    } else {
        let lead = (s.len() == 1 && s[0] == '.') || (s.len() >= 2 && s[0] == '.' && s[1] == '/');
        assert(lead == has_leading_cur(s@)) by {
            if s.len() >= 2 && s[0] == '.' && s[1] == '/' {
                assert(s@.take(2) == seq!['.', '/']);
            }
            if s.len() == 1 && s[0] == '.' {
                assert(s@ == seq!['.']);
            }
        }
        if lead {
            let cur = vec!['.'];
            assert(cur@ =~= seq!['.']);
            r.push(cur);
        }
        assert(views(r@) =~= head_spec);
    }
    assert(has_root(s@) ==> !has_leading_cur(s@));
    let pieces = path_pieces_of(s);
    let ghost head = views(r@);
    let mut i: usize = 0;
    while i < pieces.len()
        invariant
            i <= pieces.len(),
            views(r@) == head + views(pieces@).take(i as int),
        decreases pieces.len() - i,
    {
        let copy = slice_chars(&pieces[i], 0, pieces[i].len());
        assert(copy@ == views(pieces@)[i as int]);
        let ghost old_r = r@;
        r.push(copy);
        proof {
            assert(r@.drop_last() == old_r);
            lemma_views_snoc(r@);
            assert(views(pieces@).take(i + 1) == views(pieces@).take(i as int).push(
                views(pieces@)[i as int],
            ));
        }
        i = i + 1;
    }
    assert(views(pieces@).take(pieces.len() as int) == views(pieces@));
    r
}

/// `Path::file_name`.
pub fn file_name_of(s: &[char]) -> (r: Option<Vec<char>>)
    ensures
        match r {
            Some(n) => file_name(s@) == Some(n@),
            None => file_name(s@) is None,
        },
{
    let pieces = path_pieces_of(s);
    if pieces.len() == 0 {
        return None;
    }
    let last = &pieces[pieces.len() - 1];
    assert(last@ == views(pieces@).last());
    let is_dotdot = last.len() == 2 && last[0] == '.' && last[1] == '.';
    assert(is_dotdot == (last@ == seq!['.', '.'])) by {
        if is_dotdot {
            assert(last@ =~= seq!['.', '.']);
        }
    }
    if is_dotdot {
        None
    } else {
        Some(slice_chars(last, 0, last.len()))
    }
}

/// The file name of a path as a `String`, or an empty string when it has none, as
/// `path.file_name().and_then(|name| name.to_str()).unwrap_or("")` gives it.
pub fn file_name_string(path: &str) -> (r: String)
    ensures
        r@ == match file_name(path@) {
            Some(n) => n,
            None => Seq::<char>::empty(),
        },
{
    let c = chars_of(path);
    match file_name_of(&c) {
        Some(n) => string_of(&n),
        None => String::new(),
    }
}

/// The parts of a file name before and after its last dot.
pub fn split_name_at_dot_of(n: &[char]) -> (r: (Vec<char>, Option<Vec<char>>))
    ensures
        r.0@ == split_name_at_dot(n@).0,
        match r.1 {
            Some(e) => split_name_at_dot(n@).1 == Some(e@),
            None => split_name_at_dot(n@).1 is None,
        },
{
    proof {
        lemma_last_index_of_before_bounds(n@, '.', n@.len() as int);
    }
    match rfind_char(n, '.') {
        Some(i) => {
            assert(last_index_of(n@, '.') == last_index_of_before(n@, '.', n@.len() as int));
            assert(i < n.len());
            if i == 0 {
                (slice_chars(n, 0, n.len()), None)
            } else {
                (slice_chars(n, 0, i), Some(slice_chars(n, i + 1, n.len())))
            }
        },
        None => {
            assert(n@.subrange(0, n@.len() as int) == n@);
            (slice_chars(n, 0, n.len()), None)
        },
    }
}

/// `Path::file_stem`.
pub fn file_stem_of(s: &[char]) -> (r: Option<Vec<char>>)
    ensures
        match r {
            Some(n) => file_stem(s@) == Some(n@),
            None => file_stem(s@) is None,
        },
{
    match file_name_of(s) {
        Some(n) => {
            let (stem, _) = split_name_at_dot_of(&n);
            Some(stem)
        },
        None => None,
    }
}

/// `Path::extension`.
pub fn extension_of(s: &[char]) -> (r: Option<Vec<char>>)
    ensures
        match r {
            Some(n) => extension(s@) == Some(n@),
            None => extension(s@) is None,
        },
{
    match file_name_of(s) {
        Some(n) => {
            let (_, ext) = split_name_at_dot_of(&n);
            ext
        },
        None => None,
    }
}

/// `PathBuf::push`.
pub fn push_path_chars(base: &mut Vec<char>, p: &[char])
    ensures
        final(base)@ == push_path(old(base)@, p@),
{
    if p.len() > 0 && p[0] == '/' {
        base.clear();
        extend_chars(base, p);
        assert(base@ == p@);
    } else {
        if base.len() > 0 && base[base.len() - 1] != '/' {
            base.push('/');
        }
        extend_chars(base, p);
    }
}

/// The path built by pushing each of `cs` onto an empty `PathBuf`.
pub fn join_all_of(cs: &Vec<Vec<char>>) -> (r: Vec<char>)
    ensures
        r@ == join_all(views(cs@)),
{
    let mut r: Vec<char> = Vec::new();
    let mut i: usize = 0;
    while i < cs.len()
        invariant
            i <= cs.len(),
            r@ == join_all(views(cs@).take(i as int)),
        decreases cs.len() - i,
    {
        assert(views(cs@).take(i + 1).drop_last() == views(cs@).take(i as int));
        assert(views(cs@).take(i + 1).last() == cs@[i as int]@);
        push_path_chars(&mut r, &cs[i]);
        i = i + 1;
    }
    assert(views(cs@).take(cs.len() as int) == views(cs@));
    r
}

/// Whether the components of `base` are a prefix of the components of `s`.
pub fn components_start_with(a: &Vec<Vec<char>>, b: &Vec<Vec<char>>) -> (r: bool)
    ensures
        r == (views(b@).len() <= views(a@).len() && views(a@).take(views(b@).len() as int)
            == views(b@)),
{
    if b.len() > a.len() {
        return false;
    }
    let mut i: usize = 0;
    while i < b.len()
        invariant
            i <= b.len() <= a.len(),
            forall|j: int| 0 <= j < i ==> a@[j]@ == b@[j]@,
        decreases b.len() - i,
    {
        if !chars_eq(&a[i], &b[i]) {
            assert(views(a@).take(b.len() as int)[i as int] != views(b@)[i as int]);
            return false;
        }
        i = i + 1;
    }
    assert(views(a@).take(views(b@).len() as int) =~= views(b@));
    true
}

/// `Path::starts_with`.
pub fn path_starts_with_chars(s: &[char], base: &[char]) -> (r: bool)
    ensures
        r == path_starts_with(s@, base@),
{
    let a = components_of(s);
    let b = components_of(base);
    components_start_with(&a, &b)
}

/// Every piece of `split(s, c)` is no longer than `s`.
proof fn lemma_split_piece_len(s: Seq<char>, c: char)
    ensures
        forall|i: int| 0 <= i < split(s, c).len() ==> #[trigger] split(s, c)[i].len() <= s.len(),
    decreases s.len(),
{
    if s.len() > 0 {
        lemma_split_piece_len(s.drop_last(), c);
        lemma_split_nonempty(s.drop_last(), c);
    }
}

/// The pieces kept by `normal_pieces` are pieces of the input.
proof fn lemma_normal_pieces_len(p: Seq<Seq<char>>, n: nat)
    requires
        forall|i: int| 0 <= i < p.len() ==> #[trigger] p[i].len() <= n,
    ensures
        forall|i: int|
            0 <= i < normal_pieces(p).len() ==> #[trigger] normal_pieces(p)[i].len() <= n,
    decreases p.len(),
{
    if p.len() > 0 {
        assert forall|i: int| 0 <= i < p.drop_last().len() implies #[trigger] p.drop_last()[i].len()
            <= n by {
            assert(p.drop_last()[i] == p[i]);
        }
        lemma_normal_pieces_len(p.drop_last(), n);
        let r = normal_pieces(p.drop_last());
        assert(p.last().len() <= n);
        if p.last().len() > 0 && p.last() != seq!['.'] {
            assert forall|i: int| 0 <= i < r.push(p.last()).len() implies #[trigger] r.push(
                p.last(),
            )[i].len() <= n by {
                if i < r.len() {
                    assert(r.push(p.last())[i] == r[i]);
                }
            }
        }
    }
}

/// A file name is no longer than the path it is taken from.
pub proof fn lemma_file_name_len(s: Seq<char>)
    ensures
        file_name(s) is Some ==> file_name(s)->0.len() <= s.len(),
{
    lemma_split_piece_len(s, '/');
    lemma_normal_pieces_len(split(s, '/'), s.len());
}

} // verus!
