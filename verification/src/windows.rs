//! The work windows that open for archives and files: their titles and labels.
use vstd::prelude::*;
use crate::paths::{file_name, file_name_of};
use crate::text::{chars_of, decimal, extend_chars, extend_str, push_decimal, push_string, string_of, string_views, trim, trim_chars};

verus! {

// ---------------------------------------------------------------------------
// Hexadecimal
// ---------------------------------------------------------------------------

/// A lowercase hexadecimal digit.
pub open spec fn hex_digit(d: nat) -> char {
    if d < 10 {
        (('0' as u32) + d) as char
    } else {
        (('a' as u32) + (d - 10)) as char
    }
}

/// `n` in lowercase hexadecimal, as `{:x}` writes it.
pub open spec fn hex(n: nat) -> Seq<char>
    decreases n,
{
    if n < 16 {
        seq![hex_digit(n)]
    } else {
        hex(n / 16).push(hex_digit(n % 16))
    }
}

/// The last `k` hexadecimal digits of `n`, with leading zeros.
pub open spec fn hex_fixed(n: nat, k: nat) -> Seq<char>
    decreases k,
{
    if k == 0 {
        Seq::<char>::empty()
    } else {
        hex_fixed(n / 16, (k - 1) as nat).push(hex_digit(n % 16))
    }
}

fn hex_digit_of(d: u64) -> (r: char)
    requires
        d < 16,
    ensures
        r == hex_digit(d as nat),
{
    if d < 10 {
        crate::text::char_from_ascii(48 + d as u32)
    } else {
        crate::text::char_from_ascii(87 + d as u32)
    }
}

/// Appends `n` in lowercase hexadecimal.
pub fn push_hex(v: &mut Vec<char>, n: u64)
    ensures
        final(v)@ == old(v)@ + hex(n as nat),
    decreases n,
{
    if n >= 16 {
        push_hex(v, n / 16);
    }
    v.push(hex_digit_of(n % 16));
}

/// Appends the last `k` hexadecimal digits of `n`, with leading zeros.
pub fn push_hex_fixed(v: &mut Vec<char>, n: u64, k: u64)
    ensures
        final(v)@ == old(v)@ + hex_fixed(n as nat, k as nat),
    decreases k,
{
    if k > 0 {
        push_hex_fixed(v, n / 16, k - 1);
        v.push(hex_digit_of(n % 16));
    }
}

// ---------------------------------------------------------------------------
// Labels and titles
// ---------------------------------------------------------------------------

/// What `Hash::hash` of a `str` into `std::collections::hash_map::DefaultHasher::new()`
/// finishes with. `DefaultHasher::new()` starts from fixed keys, so within one build the value
/// depends on the text alone (the algorithm is that of the Rust release the crate is built with).
pub uninterp spec fn default_str_hash(s: Seq<char>) -> u64;

/// `DefaultHasher::new()`, `str::hash` and `finish`: the hash of a text, as `default_str_hash`
/// names it.
#[verifier::external_body]
fn default_hash(value: &str) -> (r: u64)
    ensures
        r == default_str_hash(value@),
{
    let mut hasher = std::collections::hash_map::DefaultHasher::new();
    std::hash::Hash::hash(value, &mut hasher);
    std::hash::Hasher::finish(&hasher)
}

/// A text's hash in sixteen lowercase hexadecimal digits.
pub fn work_window_hash(value: &str) -> (r: String)
    ensures
        r@ == hex_fixed(default_str_hash(value@) as nat, 16),
{
    let h = default_hash(value);
    let mut v: Vec<char> = Vec::new();
    push_hex_fixed(&mut v, h, 16);
    string_of(&v)
}

/// The label of the window that shows the archive at `path`: one per path.
pub fn extract_window_label(path: &str) -> (r: String)
    ensures
        r@ == "packo-extract-"@ + hex_fixed(default_str_hash(path@) as nat, 16),
{
    let mut v = chars_of("packo-extract-");
    let h = work_window_hash(path);
    extend_str(&mut v, h.as_str());
    string_of(&v)
}

/// The title of the window that shows the archive at `path`: its file name (or `压缩包`) and
/// the application's name.
pub fn extract_window_title(path: &str) -> (r: String)
    ensures
        r@ == match file_name(path@) {
            Some(n) => n,
            None => "压缩包"@,
        } + " - Packo"@,
{
    let p = chars_of(path);
    let mut v = match file_name_of(&p) {
        Some(n) => n,
        None => chars_of("压缩包"),
    };
    extend_str(&mut v, " - Packo");
    string_of(&v)
}

/// The label of a new window that compresses files, from the time (in milliseconds) and a
/// counter: `packo-compress-<time>-<counter>`, both in hexadecimal.
pub fn compress_window_label(millis: u64, counter: u64) -> (r: String)
    ensures
        r@ == "packo-compress-"@ + hex(millis as nat) + seq!['-'] + hex(counter as nat),
{
    let mut v = chars_of("packo-compress-");
    push_hex(&mut v, millis);
    v.push('-');
    push_hex(&mut v, counter);
    string_of(&v)
}

/// The paths that are not blank.
pub open spec fn nonblank(paths: Seq<Seq<char>>) -> Seq<Seq<char>>
    decreases paths.len(),
{
    if paths.len() == 0 {
        Seq::<Seq<char>>::empty()
    } else if trim(paths.last()).len() > 0 {
        nonblank(paths.drop_last()).push(paths.last())
    } else {
        nonblank(paths.drop_last())
    }
}

/// The paths that are not blank.
pub fn nonblank_paths(paths: &Vec<String>) -> (r: Vec<String>)
    ensures
        string_views(r@) == nonblank(string_views(paths@)),
{
    let mut r: Vec<String> = Vec::new();
    let mut i: usize = 0;
    while i < paths.len()
        invariant
            i <= paths.len(),
            string_views(r@) == nonblank(string_views(paths@).take(i as int)),
        decreases paths.len() - i,
    {
        let ghost pv = string_views(paths@);
        assert(pv.take(i + 1).drop_last() == pv.take(i as int));
        assert(pv.take(i + 1).last() == paths@[i as int]@);
        let c = chars_of(paths[i].as_str());
        if trim_chars(&c).len() > 0 {
            push_string(&mut r, paths[i].clone());
        }
        i = i + 1;
    }
    assert(string_views(paths@).take(paths.len() as int) == string_views(paths@));
    r
}

/// The title of a new window that compresses files: for no files a new archive, for one its
/// file name (or a new archive), and otherwise how many items it has.
pub open spec fn spec_compress_window_title(paths: Seq<Seq<char>>) -> Seq<char> {
    if paths.len() == 0 {
        "新建压缩包 - Packo"@
    } else if paths.len() == 1 {
        "压缩 "@ + match file_name(paths[0]) {
            Some(n) => n,
            None => "新建压缩包"@,
        } + " - Packo"@
    } else {
        "压缩 "@ + decimal(paths.len()) + " 个项目 - Packo"@
    }
}

/// The title of a new window that compresses the given files (blank paths already left out).
pub fn compress_window_title(paths: &Vec<String>) -> (r: String)
    ensures
        r@ == spec_compress_window_title(string_views(paths@)),
{
    if paths.len() == 0 {
        return String::from_str("新建压缩包 - Packo");
    }
    if paths.len() == 1 {
        let p = chars_of(paths[0].as_str());
        let name = match file_name_of(&p) {
            Some(n) => n,
            None => chars_of("新建压缩包"),
        };
        let mut v = chars_of("压缩 ");
        extend_chars(&mut v, &name);
        extend_str(&mut v, " - Packo");
        assert(string_views(paths@)[0] == paths@[0]@);
        return string_of(&v);
    }
    let mut v = chars_of("压缩 ");
    push_decimal(&mut v, paths.len() as u64);
    extend_str(&mut v, " 个项目 - Packo");
    string_of(&v)
}

} // verus!
