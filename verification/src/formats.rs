//! Archive formats: how a file name (and, for ZIP containers, the file's signature) determines
//! the format, split volumes, single-stream compression and output names.
use vstd::prelude::*;
use crate::paths::{extension, extension_of, file_name, file_name_of};
use crate::text::{
    all_digits, ascii_lower, ascii_lower_chars, chars_eq_str, chars_of, ends_with, ends_with_str,
    extend_chars, extend_str, is_digit, lowercase_chars, owned, parse_u32, parse_unsigned,
    rsplit_once, rsplit_once_chars, rsplit_once_str, rsplit_once_str_chars, slice_chars,
    string_of, string_views, push_string, strip_suffix_chars, trim, trim_chars, unicode_lowercase, unicode_uppercase,
    uppercase_chars,
};

verus! {

/// The file name of a path, or empty when it has none.
pub open spec fn name_or_empty(path: Seq<char>) -> Seq<char> {
    match file_name(path) {
        Some(n) => n,
        None => Seq::<char>::empty(),
    }
}

/// The extension of a path, or empty when it has none.
pub open spec fn extension_or_empty(path: Seq<char>) -> Seq<char> {
    match extension(path) {
        Some(e) => e,
        None => Seq::<char>::empty(),
    }
}

/// The file name of a path, or empty when it has none.
pub fn name_or_empty_of(path: &[char]) -> (r: Vec<char>)
    ensures
        r@ == name_or_empty(path@),
{
    match file_name_of(path) {
        Some(n) => n,
        None => Vec::new(),
    }
}

/// The extension of a path, or empty when it has none.
pub fn extension_or_empty_of(path: &[char]) -> (r: Vec<char>)
    ensures
        r@ == extension_or_empty(path@),
{
    match extension_of(path) {
        Some(e) => e,
        None => Vec::new(),
    }
}

// ---------------------------------------------------------------------------
// Split volumes
// ---------------------------------------------------------------------------

/// The part number of a RAR volume named `<base>.part<digits>.rar`.
pub open spec fn rar_part_number(name: Seq<char>) -> Option<nat> {
    if ends_with(name, ".rar"@) {
        let stem = name.take(name.len() - 4);
        match rsplit_once_str(stem, ".part"@) {
            Some((_, part)) => if part.len() > 0 && all_digits(part) {
                parse_unsigned(part, u32::MAX as nat)
            } else {
                None
            },
            None => None,
        }
    } else {
        None
    }
}

/// The number of a ZIP split part named `<base>.z<two digits>`.
pub open spec fn zip_z_volume_number(name: Seq<char>) -> Option<nat> {
    match rsplit_once(name, '.') {
        Some((_, ext)) => if ext.len() == 3 && ext[0] == 'z' && is_digit(ext[1]) && is_digit(
            ext[2],
        ) {
            parse_unsigned(ext.skip(1), u32::MAX as nat)
        } else {
            None
        },
        None => None,
    }
}

/// The base name and volume number of a volume named `<base>.<three digits>`.
pub open spec fn numeric_split_volume_number(name: Seq<char>) -> Option<(Seq<char>, nat)> {
    match rsplit_once(name, '.') {
        Some((base, ext)) => if ext.len() == 3 && all_digits(ext) {
            match parse_unsigned(ext, u32::MAX as nat) {
                Some(v) => Some((base, v)),
                None => None,
            }
        } else {
            None
        },
        None => None,
    }
}

/// The part number of a RAR volume named `<base>.part<digits>.rar`.
pub fn rar_part_number_of(name: &[char]) -> (r: Option<u32>)
    ensures
        match r {
            Some(v) => rar_part_number(name@) == Some(v as nat),
            None => rar_part_number(name@) is None,
        },
{
    let stem = match strip_suffix_chars(name, ".rar") {
        Some(s) => s,
        None => return None,
    };
    proof {
        vstd::string::axiom_str_literal_len(".rar");
        reveal_strlit(".rar");
    }
    match rsplit_once_str_chars(&stem, ".part") {
        Some((_, part)) => {
            if part.len() == 0 || !all_digits_of(&part) {
                return None;
            }
            parse_u32(&part)
        },
        None => None,
    }
}

/// Whether every character is an ASCII digit.
pub fn all_digits_of(s: &[char]) -> (r: bool)
    ensures
        r == all_digits(s@),
{
    let mut i: usize = 0;
    while i < s.len()
        invariant
            i <= s.len(),
            forall|j: int| 0 <= j < i ==> is_digit(#[trigger] s@[j]),
        decreases s.len() - i,
    {
        if !('0' <= s[i] && s[i] <= '9') {
            assert(!is_digit(s@[i as int]));
            return false;
        }
        i = i + 1;
    }
    true
}

/// The number of a ZIP split part named `<base>.z<two digits>`.
pub fn zip_z_volume_number_of(name: &[char]) -> (r: Option<u32>)
    ensures
        match r {
            Some(v) => zip_z_volume_number(name@) == Some(v as nat),
            None => zip_z_volume_number(name@) is None,
        },
{
    match rsplit_once_chars(name, '.') {
        Some((_, ext)) => {
            if ext.len() == 3 && ext[0] == 'z' && '0' <= ext[1] && ext[1] <= '9' && '0' <= ext[2]
                && ext[2] <= '9' {
                let digits = slice_chars(&ext, 1, 3);
                assert(digits@ == ext@.skip(1));
                parse_u32(&digits)
            } else {
                None
            }
        },
        None => None,
    }
}

/// The base name and volume number of a volume named `<base>.<three digits>`.
pub fn numeric_split_volume_number_of(name: &[char]) -> (r: Option<(Vec<char>, u32)>)
    ensures
        match r {
            Some((base, v)) => numeric_split_volume_number(name@) == Some((base@, v as nat)),
            None => numeric_split_volume_number(name@) is None,
        },
{
    match rsplit_once_chars(name, '.') {
        Some((base, ext)) => {
            if ext.len() == 3 && all_digits_of(&ext) {
                match parse_u32(&ext) {
                    Some(v) => Some((base, v)),
                    None => None,
                }
            } else {
                None
            }
        },
        None => None,
    }
}

/// The name of the main `.zip` file of a ZIP split part: its name up to the last dot, then `.zip`.
pub open spec fn zip_split_main_name(name: Seq<char>) -> Seq<char> {
    match rsplit_once(name, '.') {
        Some((base, _)) => base + ".zip"@,
        None => name + ".zip"@,
    }
}

/// The name of the main `.zip` file of a ZIP split part.
pub fn zip_split_main_name_of(name: &[char]) -> (r: Vec<char>)
    ensures
        r@ == zip_split_main_name(name@),
{
    let mut r = match rsplit_once_chars(name, '.') {
        Some((base, _)) => base,
        None => slice_chars(name, 0, name.len()),
    };
    assert(name@.subrange(0, name@.len() as int) == name@);
    extend_str(&mut r, ".zip");
    r
}

/// The format that the name of the first volume's base (`<base>` of `<base>.001`) implies.
pub open spec fn split_base_archive_format(base: Seq<char>) -> Seq<char> {
    if ends_with(base, ".tar.gz"@) || ends_with(base, ".tar.gzip"@) || ends_with(base, ".tgz"@) {
        "TGZ"@
    } else if ends_with(base, ".tar.bz2"@) || ends_with(base, ".tar.bzip2"@) || ends_with(
        base,
        ".tbz"@,
    ) || ends_with(base, ".tbz2"@) {
        "TBZ"@
    } else if ends_with(base, ".tar.xz"@) || ends_with(base, ".txz"@) {
        "TXZ"@
    } else if ends_with(base, ".tar.zst"@) || ends_with(base, ".tar.zstd"@) || ends_with(
        base,
        ".tzst"@,
    ) {
        "ZSTD"@
    } else if ends_with(base, ".tar.lzma2"@) {
        "LZMA2"@
    } else if ends_with(base, ".tar.lzma"@) || ends_with(base, ".tlzma"@) {
        "LZMA"@
    } else if ends_with(base, ".tar.lz4"@) || ends_with(base, ".tlz4"@) {
        "LZ4"@
    } else if ends_with(base, ".tar.z"@) {
        "Z"@
    } else if ends_with(base, ".zip"@) {
        "ZIP"@
    } else if ends_with(base, ".rar"@) {
        "RAR"@
    } else if ends_with(base, ".7z"@) {
        "7Z"@
    } else if ends_with(base, ".tar"@) {
        "TAR"@
    } else {
        "7Z"@
    }
}

/// The format that the base name of a numbered split volume implies.
pub fn split_base_archive_format_of(base: &[char]) -> (r: String)
    ensures
        r@ == split_base_archive_format(base@),
{
    if ends_with_str(base, ".tar.gz") || ends_with_str(base, ".tar.gzip") || ends_with_str(
        base,
        ".tgz",
    ) {
        owned("TGZ")
    } else if ends_with_str(base, ".tar.bz2") || ends_with_str(base, ".tar.bzip2")
        || ends_with_str(base, ".tbz") || ends_with_str(base, ".tbz2") {
        owned("TBZ")
    } else if ends_with_str(base, ".tar.xz") || ends_with_str(base, ".txz") {
        owned("TXZ")
    } else if ends_with_str(base, ".tar.zst") || ends_with_str(base, ".tar.zstd")
        || ends_with_str(base, ".tzst") {
        owned("ZSTD")
    } else if ends_with_str(base, ".tar.lzma2") {
        owned("LZMA2")
    } else if ends_with_str(base, ".tar.lzma") || ends_with_str(base, ".tlzma") {
        owned("LZMA")
    } else if ends_with_str(base, ".tar.lz4") || ends_with_str(base, ".tlz4") {
        owned("LZ4")
    } else if ends_with_str(base, ".tar.z") {
        owned("Z")
    } else if ends_with_str(base, ".zip") {
        owned("ZIP")
    } else if ends_with_str(base, ".rar") {
        owned("RAR")
    } else if ends_with_str(base, ".7z") {
        owned("7Z")
    } else if ends_with_str(base, ".tar") {
        owned("TAR")
    } else {
        owned("7Z")
    }
}

/// The format of a split volume, by its ASCII-lowercased name: RAR parts, ZIP `.zNN` parts and
/// numbered volumes.
pub open spec fn split_archive_format(path: Seq<char>) -> Option<Seq<char>> {
    let name = ascii_lower(name_or_empty(path));
    if rar_part_number(name) is Some {
        Some("RAR"@)
    } else if zip_z_volume_number(name) is Some {
        Some("ZIP"@)
    } else {
        match numeric_split_volume_number(name) {
            Some((base, _)) => Some(split_base_archive_format(base)),
            None => None,
        }
    }
}

/// The format of a split volume, if the path names one.
pub fn split_archive_format_of(path: &[char]) -> (r: Option<String>)
    ensures
        match r {
            Some(f) => split_archive_format(path@) == Some(f@),
            None => split_archive_format(path@) is None,
        },
{
    let n = name_or_empty_of(path);
    let name = ascii_lower_chars(&n);
    if rar_part_number_of(&name).is_some() {
        return Some(owned("RAR"));
    }
    if zip_z_volume_number_of(&name).is_some() {
        return Some(owned("ZIP"));
    }
    match numeric_split_volume_number_of(&name) {
        Some((base, _)) => Some(split_base_archive_format_of(&base)),
        None => None,
    }
}


// ---------------------------------------------------------------------------
// Formats by name
// ---------------------------------------------------------------------------

/// The format of a compressed TAR by the (lowercased) name's compound suffix.
pub open spec fn compressed_tar_format(name: Seq<char>) -> Option<Seq<char>> {
    if ends_with(name, ".tar.gz"@) || ends_with(name, ".tar.gzip"@) || ends_with(name, ".tgz"@) {
        Some("TGZ"@)
    } else if ends_with(name, ".tar.bz2"@) || ends_with(name, ".tar.bzip2"@) || ends_with(
        name,
        ".tbz"@,
    ) || ends_with(name, ".tbz2"@) {
        Some("TBZ"@)
    } else if ends_with(name, ".tar.xz"@) || ends_with(name, ".txz"@) {
        Some("TXZ"@)
    } else if ends_with(name, ".tar.zst"@) || ends_with(name, ".tar.zstd"@) || ends_with(
        name,
        ".tzst"@,
    ) {
        Some("ZSTD"@)
    } else if ends_with(name, ".tar.lzma2"@) {
        Some("LZMA2"@)
    } else if ends_with(name, ".tar.lzma"@) || ends_with(name, ".tlzma"@) {
        Some("LZMA"@)
    } else if ends_with(name, ".tar.lz4"@) || ends_with(name, ".tlz4"@) {
        Some("LZ4"@)
    } else if ends_with(name, ".tar.z"@) {
        Some("Z"@)
    } else {
        None
    }
}

/// The format named by a (lowercased) extension.
pub open spec fn extension_format(ext: Seq<char>) -> Option<Seq<char>> {
    if ext == "gz"@ {
        Some("GZ"@)
    } else if ext == "gzip"@ {
        Some("GZIP"@)
    } else if ext == "bz2"@ {
        Some("BZ2"@)
    } else if ext == "bzip2"@ {
        Some("BZIP2"@)
    } else if ext == "xz"@ {
        Some("XZ"@)
    } else if ext == "z"@ {
        Some("Z"@)
    } else if ext == "zst"@ || ext == "zstd"@ {
        Some("ZSTD"@)
    } else if ext == "lzma"@ {
        Some("LZMA"@)
    } else if ext == "lzma2"@ {
        Some("LZMA2"@)
    } else if ext == "lz4"@ {
        Some("LZ4"@)
    } else if ext == "tgz"@ {
        Some("TGZ"@)
    } else if ext == "tbz"@ || ext == "tbz2"@ {
        Some("TBZ"@)
    } else if ext == "txz"@ {
        Some("TXZ"@)
    } else if ext == "lha"@ {
        Some("LHA"@)
    } else if ext == "lzh"@ {
        Some("LZH"@)
    } else {
        None
    }
}

/// The format of an archive: that of a split volume, else of a compressed TAR by the Unicode
/// lowercased name, else of the lowercased extension; for other extensions `ZIP` when the file
/// begins with a ZIP signature, else the extension in upper case.
pub open spec fn spec_archive_format(path: Seq<char>, is_zip_container: bool) -> Seq<char> {
    match split_archive_format(path) {
        Some(f) => f,
        None => match compressed_tar_format(unicode_lowercase(name_or_empty(path))) {
            Some(f) => f,
            None => {
                let ext = unicode_lowercase(extension_or_empty(path));
                match extension_format(ext) {
                    Some(f) => f,
                    None => if is_zip_container {
                        "ZIP"@
                    } else {
                        unicode_uppercase(ext)
                    },
                }
            },
        },
    }
}

fn compressed_tar_format_of(name: &[char]) -> (r: Option<String>)
    ensures
        match r {
            Some(f) => compressed_tar_format(name@) == Some(f@),
            None => compressed_tar_format(name@) is None,
        },
{
    if ends_with_str(name, ".tar.gz") || ends_with_str(name, ".tar.gzip") || ends_with_str(
        name,
        ".tgz",
    ) {
        Some(owned("TGZ"))
    } else if ends_with_str(name, ".tar.bz2") || ends_with_str(name, ".tar.bzip2")
        || ends_with_str(name, ".tbz") || ends_with_str(name, ".tbz2") {
        Some(owned("TBZ"))
    } else if ends_with_str(name, ".tar.xz") || ends_with_str(name, ".txz") {
        Some(owned("TXZ"))
    } else if ends_with_str(name, ".tar.zst") || ends_with_str(name, ".tar.zstd")
        || ends_with_str(name, ".tzst") {
        Some(owned("ZSTD"))
    } else if ends_with_str(name, ".tar.lzma2") {
        Some(owned("LZMA2"))
    } else if ends_with_str(name, ".tar.lzma") || ends_with_str(name, ".tlzma") {
        Some(owned("LZMA"))
    } else if ends_with_str(name, ".tar.lz4") || ends_with_str(name, ".tlz4") {
        Some(owned("LZ4"))
    } else if ends_with_str(name, ".tar.z") {
        Some(owned("Z"))
    } else {
        None
    }
}

fn extension_format_of(ext: &[char]) -> (r: Option<String>)
    ensures
        match r {
            Some(f) => extension_format(ext@) == Some(f@),
            None => extension_format(ext@) is None,
        },
{
    if chars_eq_str(ext, "gz") {
        Some(owned("GZ"))
    } else if chars_eq_str(ext, "gzip") {
        Some(owned("GZIP"))
    } else if chars_eq_str(ext, "bz2") {
        Some(owned("BZ2"))
    } else if chars_eq_str(ext, "bzip2") {
        Some(owned("BZIP2"))
    } else if chars_eq_str(ext, "xz") {
        Some(owned("XZ"))
    } else if chars_eq_str(ext, "z") {
        Some(owned("Z"))
    } else if chars_eq_str(ext, "zst") || chars_eq_str(ext, "zstd") {
        Some(owned("ZSTD"))
    } else if chars_eq_str(ext, "lzma") {
        Some(owned("LZMA"))
    } else if chars_eq_str(ext, "lzma2") {
        Some(owned("LZMA2"))
    } else if chars_eq_str(ext, "lz4") {
        Some(owned("LZ4"))
    } else if chars_eq_str(ext, "tgz") {
        Some(owned("TGZ"))
    } else if chars_eq_str(ext, "tbz") || chars_eq_str(ext, "tbz2") {
        Some(owned("TBZ"))
    } else if chars_eq_str(ext, "txz") {
        Some(owned("TXZ"))
    } else if chars_eq_str(ext, "lha") {
        Some(owned("LHA"))
    } else if chars_eq_str(ext, "lzh") {
        Some(owned("LZH"))
    } else {
        None
    }
}

/// The format of the archive at `path`; `is_zip_container` tells whether the file begins with
/// a ZIP signature (see `is_zip_signature`), which decides for unlisted extensions.
pub fn archive_format(path: &str, is_zip_container: bool) -> (r: String)
    ensures
        r@ == spec_archive_format(path@, is_zip_container),
{
    let p = chars_of(path);
    archive_format_chars(&p, is_zip_container)
}

/// The format of the archive at `path`.
pub fn archive_format_chars(p: &[char], is_zip_container: bool) -> (r: String)
    ensures
        r@ == spec_archive_format(p@, is_zip_container),
{
    if let Some(f) = split_archive_format_of(p) {
        return f;
    }
    let n = name_or_empty_of(p);
    let lower_name = lowercase_chars(&n);
    if let Some(f) = compressed_tar_format_of(&lower_name) {
        return f;
    }
    let e = extension_or_empty_of(p);
    let ext = lowercase_chars(&e);
    if let Some(f) = extension_format_of(&ext) {
        return f;
    }
    if is_zip_container {
        owned("ZIP")
    } else {
        let up = uppercase_chars(&ext);
        string_of(&up)
    }
}

/// Whether the first bytes of a file are a ZIP signature (`PK\x03\x04`, `PK\x05\x06` or
/// `PK\x07\x08`).
pub open spec fn spec_is_zip_signature(b: Seq<u8>) -> bool {
    b.len() >= 4 && b[0] == 0x50 && b[1] == 0x4b && ((b[2] == 0x03 && b[3] == 0x04) || (b[2]
        == 0x05 && b[3] == 0x06) || (b[2] == 0x07 && b[3] == 0x08))
}

/// Whether the first four bytes read from a file make a ZIP signature.
pub fn is_zip_signature(b: &[u8]) -> (r: bool)
    ensures
        r == spec_is_zip_signature(b@),
{
    b.len() >= 4 && b[0] == 0x50 && b[1] == 0x4b && ((b[2] == 0x03 && b[3] == 0x04) || (b[2]
        == 0x05 && b[3] == 0x06) || (b[2] == 0x07 && b[3] == 0x08))
}

/// Whether a (Unicode lowercased) file name ends with a compressed TAR suffix.
pub open spec fn has_compressed_tar_suffix(name: Seq<char>) -> bool {
    ||| ends_with(name, ".tar.gz"@)
    ||| ends_with(name, ".tar.gzip"@)
    ||| ends_with(name, ".tgz"@)
    ||| ends_with(name, ".tar.bz2"@)
    ||| ends_with(name, ".tar.bzip2"@)
    ||| ends_with(name, ".tbz"@)
    ||| ends_with(name, ".tbz2"@)
    ||| ends_with(name, ".tar.xz"@)
    ||| ends_with(name, ".txz"@)
    ||| ends_with(name, ".tar.z"@)
    ||| ends_with(name, ".tar.zst"@)
    ||| ends_with(name, ".tar.zstd"@)
    ||| ends_with(name, ".tzst"@)
    ||| ends_with(name, ".tar.lzma"@)
    ||| ends_with(name, ".tar.lzma2"@)
    ||| ends_with(name, ".tlzma"@)
    ||| ends_with(name, ".tar.lz4"@)
    ||| ends_with(name, ".tlz4"@)
}

/// Whether the path names a compressed TAR (`.tar.gz`, `.tgz`, ...).
pub open spec fn spec_has_compressed_tar_extension(path: Seq<char>) -> bool {
    has_compressed_tar_suffix(unicode_lowercase(name_or_empty(path)))
}

/// Whether the path names a compressed TAR (`.tar.gz`, `.tgz`, ...).
pub fn has_compressed_tar_extension(path: &str) -> (r: bool)
    ensures
        r == spec_has_compressed_tar_extension(path@),
{
    let p = chars_of(path);
    has_compressed_tar_extension_chars(&p)
}

fn has_compressed_tar_extension_chars(p: &[char]) -> (r: bool)
    ensures
        r == spec_has_compressed_tar_extension(p@),
{
    let n = name_or_empty_of(p);
    let name = lowercase_chars(&n);
    ends_with_str(&name, ".tar.gz") || ends_with_str(&name, ".tar.gzip") || ends_with_str(
        &name,
        ".tgz",
    ) || ends_with_str(&name, ".tar.bz2") || ends_with_str(&name, ".tar.bzip2")
        || ends_with_str(&name, ".tbz") || ends_with_str(&name, ".tbz2") || ends_with_str(
        &name,
        ".tar.xz",
    ) || ends_with_str(&name, ".txz") || ends_with_str(&name, ".tar.z") || ends_with_str(
        &name,
        ".tar.zst",
    ) || ends_with_str(&name, ".tar.zstd") || ends_with_str(&name, ".tzst") || ends_with_str(
        &name,
        ".tar.lzma",
    ) || ends_with_str(&name, ".tar.lzma2") || ends_with_str(&name, ".tlzma") || ends_with_str(
        &name,
        ".tar.lz4",
    ) || ends_with_str(&name, ".tlz4")
}

/// Whether a format is one that compresses a single file (no TAR inside).
pub open spec fn is_single_stream_format_name(f: Seq<char>) -> bool {
    f == "GZ"@ || f == "GZIP"@ || f == "BZ2"@ || f == "BZIP2"@ || f == "XZ"@ || f == "Z"@ || f
        == "ZSTD"@ || f == "LZMA"@ || f == "LZMA2"@ || f == "LZ4"@
}

/// Whether the archive is a single compressed stream rather than an archive of entries: its
/// format is a stream format and its name is not that of a compressed TAR.
pub open spec fn spec_is_single_stream_format(path: Seq<char>, is_zip_container: bool) -> bool {
    !spec_has_compressed_tar_extension(path) && is_single_stream_format_name(
        spec_archive_format(path, is_zip_container),
    )
}

fn is_single_stream_format_name_of(f: &[char]) -> (r: bool)
    ensures
        r == is_single_stream_format_name(f@),
{
    chars_eq_str(f, "GZ") || chars_eq_str(f, "GZIP") || chars_eq_str(f, "BZ2") || chars_eq_str(
        f,
        "BZIP2",
    ) || chars_eq_str(f, "XZ") || chars_eq_str(f, "Z") || chars_eq_str(f, "ZSTD")
        || chars_eq_str(f, "LZMA") || chars_eq_str(f, "LZMA2") || chars_eq_str(f, "LZ4")
}

/// Whether the archive at `path` is a single compressed stream.
pub fn is_single_stream_format(path: &str, is_zip_container: bool) -> (r: bool)
    ensures
        r == spec_is_single_stream_format(path@, is_zip_container),
{
    let p = chars_of(path);
    if has_compressed_tar_extension_chars(&p) {
        return false;
    }
    let f = archive_format_chars(&p, is_zip_container);
    let fc = chars_of(f.as_str());
    is_single_stream_format_name_of(&fc)
}


// ---------------------------------------------------------------------------
// Opening split volumes and supported formats
// ---------------------------------------------------------------------------

/// The message that points from a later split volume to the one to open, if the path names one.
pub open spec fn spec_split_archive_open_error(path: Seq<char>) -> Option<Seq<char>> {
    let name = ascii_lower(name_or_empty(path));
    if zip_z_volume_number(name) is Some {
        Some("这是 ZIP 分卷片段，请选择同名主文件 "@ + zip_split_main_name(name) + " 打开。"@)
    } else if rar_part_number(name) is Some && rar_part_number(name)->0 > 1 {
        Some("这是 RAR 分卷片段，请选择 .part1.rar 第一卷打开。"@)
    } else {
        match numeric_split_volume_number(name) {
            Some((_, volume)) => if volume > 1 {
                Some("这是分卷片段，请选择 .001 第一卷打开。"@)
            } else {
                None
            },
            None => None,
        }
    }
}

/// The message that points from a later split volume to the one to open.
pub fn split_archive_open_error(path: &str) -> (r: Option<String>)
    ensures
        match r {
            Some(m) => spec_split_archive_open_error(path@) == Some(m@),
            None => spec_split_archive_open_error(path@) is None,
        },
{
    let p = chars_of(path);
    split_archive_open_error_chars(&p)
}

fn split_archive_open_error_chars(p: &[char]) -> (r: Option<String>)
    ensures
        match r {
            Some(m) => spec_split_archive_open_error(p@) == Some(m@),
            None => spec_split_archive_open_error(p@) is None,
        },
{
    let n = name_or_empty_of(p);
    let name = ascii_lower_chars(&n);
    if zip_z_volume_number_of(&name).is_some() {
        let mut m = chars_of("这是 ZIP 分卷片段，请选择同名主文件 ");
        let main = zip_split_main_name_of(&name);
        extend_chars(&mut m, &main);
        extend_str(&mut m, " 打开。");
        return Some(string_of(&m));
    }
    if let Some(part) = rar_part_number_of(&name) {
        if part > 1 {
            return Some(owned("这是 RAR 分卷片段，请选择 .part1.rar 第一卷打开。"));
        }
    }
    if let Some((_, volume)) = numeric_split_volume_number_of(&name) {
        if volume > 1 {
            return Some(owned("这是分卷片段，请选择 .001 第一卷打开。"));
        }
    }
    None
}

/// The formats that can be extracted.
pub open spec fn spec_is_supported_extract_format(f: Seq<char>) -> bool {
    ||| f == "ZIP"@
    ||| f == "RAR"@
    ||| f == "7Z"@
    ||| f == "GZ"@
    ||| f == "GZIP"@
    ||| f == "BZ2"@
    ||| f == "BZIP2"@
    ||| f == "XZ"@
    ||| f == "TAR"@
    ||| f == "TGZ"@
    ||| f == "TBZ"@
    ||| f == "TXZ"@
    ||| f == "LZH"@
    ||| f == "LHA"@
    ||| f == "Z"@
    ||| f == "ZSTD"@
    ||| f == "LZMA"@
    ||| f == "LZMA2"@
    ||| f == "LZ4"@
    ||| f == "ISO"@
}

pub fn is_supported_extract_format(f: &[char]) -> (r: bool)
    ensures
        r == spec_is_supported_extract_format(f@),
{
    chars_eq_str(f, "ZIP") || chars_eq_str(f, "RAR") || chars_eq_str(f, "7Z") || chars_eq_str(
        f,
        "GZ",
    ) || chars_eq_str(f, "GZIP") || chars_eq_str(f, "BZ2") || chars_eq_str(f, "BZIP2")
        || chars_eq_str(f, "XZ") || chars_eq_str(f, "TAR") || chars_eq_str(f, "TGZ")
        || chars_eq_str(f, "TBZ") || chars_eq_str(f, "TXZ") || chars_eq_str(f, "LZH")
        || chars_eq_str(f, "LHA") || chars_eq_str(f, "Z") || chars_eq_str(f, "ZSTD")
        || chars_eq_str(f, "LZMA") || chars_eq_str(f, "LZMA2") || chars_eq_str(f, "LZ4")
        || chars_eq_str(f, "ISO")
}

/// The error for an archive that cannot be extracted.
pub open spec fn unsupported_extract_message() -> Seq<char> {
    "当前仅支持解压 ZIP、RAR、7Z、GZ/GZIP、BZ2/BZIP2、XZ、TAR、TGZ、TBZ、TXZ、LZH/LHA、Z、ZSTD、LZMA/LZMA2、LZ4、ISO、DOCX/PPTX/XLSX 等 ZIP 容器、分卷压缩包。"@
}

/// Whether an archive can be extracted: a later split volume is refused with its message, and
/// otherwise the format must be a supported one.
pub open spec fn spec_ensure_supported_extract_format(path: Seq<char>, is_zip_container: bool) -> Result<
    (),
    Seq<char>,
> {
    match spec_split_archive_open_error(path) {
        Some(m) => Err(m),
        None => if spec_is_supported_extract_format(spec_archive_format(path, is_zip_container)) {
            Ok(())
        } else {
            Err(unsupported_extract_message())
        },
    }
}

/// Whether the archive at `path` can be extracted.
pub fn ensure_supported_extract_format(path: &str, is_zip_container: bool) -> (r: Result<
    (),
    String,
>)
    ensures
        match r {
            Ok(()) => spec_ensure_supported_extract_format(path@, is_zip_container) == Ok::<
                (),
                Seq<char>,
            >(()),
            Err(m) => spec_ensure_supported_extract_format(path@, is_zip_container) == Err::<
                (),
                Seq<char>,
            >(m@),
        },
{
    let p = chars_of(path);
    if let Some(m) = split_archive_open_error_chars(&p) {
        return Err(m);
    }
    let f = archive_format_chars(&p, is_zip_container);
    let fc = chars_of(f.as_str());
    if is_supported_extract_format(&fc) {
        Ok(())
    } else {
        Err(
            owned(
                "当前仅支持解压 ZIP、RAR、7Z、GZ/GZIP、BZ2/BZIP2、XZ、TAR、TGZ、TBZ、TXZ、LZH/LHA、Z、ZSTD、LZMA/LZMA2、LZ4、ISO、DOCX/PPTX/XLSX 等 ZIP 容器、分卷压缩包。",
            ),
        )
    }
}

// ---------------------------------------------------------------------------
// Single-stream compression
// ---------------------------------------------------------------------------

/// The length of the stream suffix that a (Unicode lowercased) name ends with, in the order
/// in which they are tried.
pub open spec fn stream_suffix_len(lower: Seq<char>) -> Option<nat> {
    if ends_with(lower, ".bzip2"@) {
        Some(6)
    } else if ends_with(lower, ".gzip"@) {
        Some(5)
    } else if ends_with(lower, ".lzma2"@) {
        Some(6)
    } else if ends_with(lower, ".zstd"@) {
        Some(5)
    } else if ends_with(lower, ".lzma"@) {
        Some(5)
    } else if ends_with(lower, ".bz2"@) {
        Some(4)
    } else if ends_with(lower, ".gz"@) {
        Some(3)
    } else if ends_with(lower, ".xz"@) {
        Some(3)
    } else if ends_with(lower, ".zst"@) {
        Some(4)
    } else if ends_with(lower, ".lz4"@) {
        Some(4)
    } else if ends_with(lower, ".z"@) {
        Some(2)
    } else {
        None
    }
}

/// The first `n` characters of `s` with `k` removed from its end (none when `k` is longer).
pub open spec fn drop_end(s: Seq<char>, k: nat) -> Seq<char> {
    if k <= s.len() {
        s.take(s.len() - k)
    } else {
        Seq::<char>::empty()
    }
}

/// The name of the file that a single compressed stream holds: the archive's name without its
/// stream suffix, or with `.out` added when it has none.
pub open spec fn spec_single_stream_output_name(path: Seq<char>) -> Seq<char> {
    let name = name_or_empty(path);
    match stream_suffix_len(unicode_lowercase(name)) {
        Some(k) => drop_end(name, k),
        None => name + ".out"@,
    }
}

proof fn lemma_literal_lengths()
    ensures
        ".bzip2"@.len() == 6,
        ".gzip"@.len() == 5,
        ".lzma2"@.len() == 6,
        ".zstd"@.len() == 5,
        ".lzma"@.len() == 5,
        ".bz2"@.len() == 4,
        ".gz"@.len() == 3,
        ".xz"@.len() == 3,
        ".zst"@.len() == 4,
        ".lz4"@.len() == 4,
        ".z"@.len() == 2,
{
    reveal_strlit(".bzip2");
    reveal_strlit(".gzip");
    reveal_strlit(".lzma2");
    reveal_strlit(".zstd");
    reveal_strlit(".lzma");
    reveal_strlit(".bz2");
    reveal_strlit(".gz");
    reveal_strlit(".xz");
    reveal_strlit(".zst");
    reveal_strlit(".lz4");
    reveal_strlit(".z");
}

fn stream_suffix_len_of(lower: &[char]) -> (r: Option<usize>)
    ensures
        match r {
            Some(k) => stream_suffix_len(lower@) == Some(k as nat),
            None => stream_suffix_len(lower@) is None,
        },
{
    proof {
        lemma_literal_lengths();
    }
    if ends_with_str(lower, ".bzip2") {
        Some(6)
    } else if ends_with_str(lower, ".gzip") {
        Some(5)
    } else if ends_with_str(lower, ".lzma2") {
        Some(6)
    } else if ends_with_str(lower, ".zstd") {
        Some(5)
    } else if ends_with_str(lower, ".lzma") {
        Some(5)
    } else if ends_with_str(lower, ".bz2") {
        Some(4)
    } else if ends_with_str(lower, ".gz") {
        Some(3)
    } else if ends_with_str(lower, ".xz") {
        Some(3)
    } else if ends_with_str(lower, ".zst") {
        Some(4)
    } else if ends_with_str(lower, ".lz4") {
        Some(4)
    } else if ends_with_str(lower, ".z") {
        Some(2)
    } else {
        None
    }
}

/// `s` with `k` characters removed from its end (empty when `k` is longer).
pub fn drop_end_of(s: &[char], k: usize) -> (r: Vec<char>)
    ensures
        r@ == drop_end(s@, k as nat),
{
    if k <= s.len() {
        slice_chars(s, 0, s.len() - k)
    } else {
        Vec::new()
    }
}

/// The name of the file that a single compressed stream holds.
pub fn single_stream_output_name(path: &str) -> (r: String)
    ensures
        r@ == spec_single_stream_output_name(path@),
{
    let p = chars_of(path);
    let name = name_or_empty_of(&p);
    let lower = lowercase_chars(&name);
    match stream_suffix_len_of(&lower) {
        Some(k) => {
            let t = drop_end_of(&name, k);
            string_of(&t)
        },
        None => {
            let mut t = name;
            extend_str(&mut t, ".out");
            string_of(&t)
        },
    }
}

/// The program and arguments that decompress a single compressed stream to standard output.
pub open spec fn spec_single_stream_decompress_command(path: Seq<char>, is_zip_container: bool) -> Result<
    (Seq<char>, Seq<Seq<char>>),
    Seq<char>,
> {
    let f = spec_archive_format(path, is_zip_container);
    if f == "GZ"@ || f == "GZIP"@ || f == "Z"@ {
        Ok(("gzip"@, seq!["-dc"@, path]))
    } else if f == "BZ2"@ || f == "BZIP2"@ {
        Ok(("bzip2"@, seq!["-dc"@, path]))
    } else if f == "XZ"@ || f == "LZMA2"@ {
        Ok(("xz"@, seq!["-dc"@, path]))
    } else if f == "ZSTD"@ {
        Ok(("zstd"@, seq!["-q"@, "-dc"@, path]))
    } else if f == "LZMA"@ {
        Ok(("xz"@, seq!["--format=lzma"@, "-dc"@, path]))
    } else if f == "LZ4"@ {
        Ok(("lz4"@, seq!["-q"@, "-dc"@, path]))
    } else {
        Err("当前文件不是单文件压缩流。"@)
    }
}

/// The program and arguments that decompress a single compressed stream to standard output.
pub fn single_stream_decompress_command(path: &str, is_zip_container: bool) -> (r: Result<
    (String, Vec<String>),
    String,
>)
    ensures
        match r {
            Ok((prog, args)) => spec_single_stream_decompress_command(path@, is_zip_container) == Ok::<
                (Seq<char>, Seq<Seq<char>>),
                Seq<char>,
            >((prog@, string_views(args@))),
            Err(m) => spec_single_stream_decompress_command(path@, is_zip_container) == Err::<
                (Seq<char>, Seq<Seq<char>>),
                Seq<char>,
            >(m@),
        },
{
    let f = archive_format(path, is_zip_container);
    let fc = chars_of(f.as_str());
    if chars_eq_str(&fc, "GZ") || chars_eq_str(&fc, "GZIP") || chars_eq_str(&fc, "Z") {
        Ok((owned("gzip"), strings2("-dc", path)))
    } else if chars_eq_str(&fc, "BZ2") || chars_eq_str(&fc, "BZIP2") {
        Ok((owned("bzip2"), strings2("-dc", path)))
    } else if chars_eq_str(&fc, "XZ") || chars_eq_str(&fc, "LZMA2") {
        Ok((owned("xz"), strings2("-dc", path)))
    } else if chars_eq_str(&fc, "ZSTD") {
        Ok((owned("zstd"), strings3("-q", "-dc", path)))
    } else if chars_eq_str(&fc, "LZMA") {
        Ok((owned("xz"), strings3("--format=lzma", "-dc", path)))
    } else if chars_eq_str(&fc, "LZ4") {
        Ok((owned("lz4"), strings3("-q", "-dc", path)))
    } else {
        Err(owned("当前文件不是单文件压缩流。"))
    }
}

/// A vector of two strings.
pub fn strings2(a: &str, b: &str) -> (r: Vec<String>)
    ensures
        string_views(r@) == seq![a@, b@],
{
    let mut r: Vec<String> = Vec::new();
    push_string(&mut r, owned(a));
    push_string(&mut r, owned(b));
    assert(string_views(r@) =~= seq![a@, b@]);
    r
}

/// A vector of three strings.
pub fn strings3(a: &str, b: &str, c: &str) -> (r: Vec<String>)
    ensures
        string_views(r@) == seq![a@, b@, c@],
{
    let mut r: Vec<String> = Vec::new();
    push_string(&mut r, owned(a));
    push_string(&mut r, owned(b));
    push_string(&mut r, owned(c));
    assert(string_views(r@) =~= seq![a@, b@, c@]);
    r
}


// ---------------------------------------------------------------------------
// Compression formats
// ---------------------------------------------------------------------------

/// The file extension of an archive created in a (normalized) compression format.
pub open spec fn spec_compress_output_extension(format: Seq<char>) -> Seq<char> {
    if format == "ZIP"@ {
        "zip"@
    } else if format == "7Z"@ {
        "7z"@
    } else if format == "TAR"@ {
        "tar"@
    } else if format == "TGZ"@ {
        "tgz"@
    } else if format == "TBZ"@ {
        "tbz"@
    } else if format == "TXZ"@ {
        "txz"@
    } else if format == "GZ"@ {
        "tar.gz"@
    } else if format == "BZ2"@ {
        "tar.bz2"@
    } else if format == "XZ"@ {
        "tar.xz"@
    } else if format == "Z"@ {
        "tar.Z"@
    } else if format == "ZSTD"@ {
        "tar.zst"@
    } else if format == "LZMA"@ {
        "tar.lzma"@
    } else if format == "LZMA2"@ {
        "tar.lzma2"@
    } else if format == "LZ4"@ {
        "tar.lz4"@
    } else {
        "tar"@
    }
}

/// The file extension of an archive created in a (normalized) compression format.
pub fn compress_output_extension(format: &str) -> (r: String)
    ensures
        r@ == spec_compress_output_extension(format@),
{
    let f = chars_of(format);
    if chars_eq_str(&f, "ZIP") {
        owned("zip")
    } else if chars_eq_str(&f, "7Z") {
        owned("7z")
    } else if chars_eq_str(&f, "TAR") {
        owned("tar")
    } else if chars_eq_str(&f, "TGZ") {
        owned("tgz")
    } else if chars_eq_str(&f, "TBZ") {
        owned("tbz")
    } else if chars_eq_str(&f, "TXZ") {
        owned("txz")
    } else if chars_eq_str(&f, "GZ") {
        owned("tar.gz")
    } else if chars_eq_str(&f, "BZ2") {
        owned("tar.bz2")
    } else if chars_eq_str(&f, "XZ") {
        owned("tar.xz")
    } else if chars_eq_str(&f, "Z") {
        owned("tar.Z")
    } else if chars_eq_str(&f, "ZSTD") {
        owned("tar.zst")
    } else if chars_eq_str(&f, "LZMA") {
        owned("tar.lzma")
    } else if chars_eq_str(&f, "LZMA2") {
        owned("tar.lzma2")
    } else if chars_eq_str(&f, "LZ4") {
        owned("tar.lz4")
    } else {
        owned("tar")
    }
}

/// The compression format that a (Unicode uppercased, trimmed) name normalizes to.
pub open spec fn compress_format_alias(u: Seq<char>) -> Option<Seq<char>> {
    if u == "GZIP"@ || u == "TAR.GZ"@ || u == "TARGZ"@ {
        Some("GZ"@)
    } else if u == "BZIP2"@ || u == "TAR.BZ2"@ || u == "TARBZ2"@ {
        Some("BZ2"@)
    } else if u == "TBZ2"@ || u == "TAR.BZIP2"@ || u == "TARBZIP2"@ {
        Some("TBZ"@)
    } else if u == "TAR.XZ"@ || u == "TARXZ"@ {
        Some("TXZ"@)
    } else if u == "ZST"@ || u == "TAR.ZST"@ || u == "TAR.ZSTD"@ || u == "TARZST"@ || u
        == "TARZSTD"@ {
        Some("ZSTD"@)
    } else if u == "TAR.LZMA"@ || u == "TARLZMA"@ {
        Some("LZMA"@)
    } else if u == "TAR.LZMA2"@ || u == "TARLZMA2"@ {
        Some("LZMA2"@)
    } else if u == "TAR.LZ4"@ || u == "TARLZ4"@ {
        Some("LZ4"@)
    } else if u == "ZIP"@ || u == "7Z"@ || u == "TAR"@ || u == "TGZ"@ || u == "TBZ"@ || u
        == "TXZ"@ || u == "GZ"@ || u == "BZ2"@ || u == "XZ"@ || u == "Z"@ || u == "ZSTD"@ || u
        == "LZMA"@ || u == "LZMA2"@ || u == "LZ4"@ {
        Some(u)
    } else {
        None
    }
}

/// The error for a format that cannot be created.
pub open spec fn unsupported_compress_message() -> Seq<char> {
    "当前仅支持压缩为 ZIP、7Z、TAR、TGZ、TBZ、TXZ、GZ/GZIP、BZ2/BZIP2、XZ、Z、ZSTD、LZMA/LZMA2、LZ4。"@
}

/// The compression format that a user's format name normalizes to: trimmed, Unicode
/// uppercased, with aliases mapped to their canonical name.
pub open spec fn spec_normalize_compress_format(format: Seq<char>) -> Result<Seq<char>, Seq<char>> {
    match compress_format_alias(unicode_uppercase(trim(format))) {
        Some(f) => Ok(f),
        None => Err(unsupported_compress_message()),
    }
}

/// The compression format that a user's format name normalizes to.
pub fn normalize_compress_format(format: &str) -> (r: Result<String, String>)
    ensures
        match r {
            Ok(f) => spec_normalize_compress_format(format@) == Ok::<Seq<char>, Seq<char>>(f@),
            Err(m) => spec_normalize_compress_format(format@) == Err::<Seq<char>, Seq<char>>(m@),
        },
{
    let f = chars_of(format);
    let t = trim_chars(&f);
    let u = uppercase_chars(&t);
    if chars_eq_str(&u, "GZIP") || chars_eq_str(&u, "TAR.GZ") || chars_eq_str(&u, "TARGZ") {
        Ok(owned("GZ"))
    } else if chars_eq_str(&u, "BZIP2") || chars_eq_str(&u, "TAR.BZ2") || chars_eq_str(
        &u,
        "TARBZ2",
    ) {
        Ok(owned("BZ2"))
    } else if chars_eq_str(&u, "TBZ2") || chars_eq_str(&u, "TAR.BZIP2") || chars_eq_str(
        &u,
        "TARBZIP2",
    ) {
        Ok(owned("TBZ"))
    } else if chars_eq_str(&u, "TAR.XZ") || chars_eq_str(&u, "TARXZ") {
        Ok(owned("TXZ"))
    } else if chars_eq_str(&u, "ZST") || chars_eq_str(&u, "TAR.ZST") || chars_eq_str(
        &u,
        "TAR.ZSTD",
    ) || chars_eq_str(&u, "TARZST") || chars_eq_str(&u, "TARZSTD") {
        Ok(owned("ZSTD"))
    } else if chars_eq_str(&u, "TAR.LZMA") || chars_eq_str(&u, "TARLZMA") {
        Ok(owned("LZMA"))
    } else if chars_eq_str(&u, "TAR.LZMA2") || chars_eq_str(&u, "TARLZMA2") {
        Ok(owned("LZMA2"))
    } else if chars_eq_str(&u, "TAR.LZ4") || chars_eq_str(&u, "TARLZ4") {
        Ok(owned("LZ4"))
    } else if chars_eq_str(&u, "ZIP") || chars_eq_str(&u, "7Z") || chars_eq_str(&u, "TAR")
        || chars_eq_str(&u, "TGZ") || chars_eq_str(&u, "TBZ") || chars_eq_str(&u, "TXZ")
        || chars_eq_str(&u, "GZ") || chars_eq_str(&u, "BZ2") || chars_eq_str(&u, "XZ")
        || chars_eq_str(&u, "Z") || chars_eq_str(&u, "ZSTD") || chars_eq_str(&u, "LZMA")
        || chars_eq_str(&u, "LZMA2") || chars_eq_str(&u, "LZ4") {
        Ok(string_of(&u))
    } else {
        Err(
            owned(
                "当前仅支持压缩为 ZIP、7Z、TAR、TGZ、TBZ、TXZ、GZ/GZIP、BZ2/BZIP2、XZ、Z、ZSTD、LZMA/LZMA2、LZ4。",
            ),
        )
    }
}

/// Whether a (normalized) compression format can be protected by a password.
pub open spec fn spec_supports_compress_password(format: Seq<char>) -> bool {
    format == "ZIP"@ || format == "7Z"@
}

/// Whether a (normalized) compression format can be protected by a password.
pub fn supports_compress_password(format: &str) -> (r: bool)
    ensures
        r == spec_supports_compress_password(format@),
{
    let f = chars_of(format);
    chars_eq_str(&f, "ZIP") || chars_eq_str(&f, "7Z")
}

/// Whether an archive can be edited and rebuilt: not a split archive, and in a format that can
/// be created again.
pub open spec fn spec_ensure_archive_is_editable(
    path: Seq<char>,
    is_zip_container: bool,
    split_volume_count: nat,
) -> Result<(), Seq<char>> {
    if split_volume_count > 1 || split_archive_format(path) is Some {
        Err("暂不支持直接编辑分卷压缩包，请先合并或解压后重新压缩。"@)
    } else if spec_normalize_compress_format(spec_archive_format(path, is_zip_container)) is Ok {
        Ok(())
    } else {
        Err("当前格式暂不支持编辑后重建。"@)
    }
}

/// Whether an archive can be edited and rebuilt; `split_volume_count` is the number of volumes
/// found beside it (see `zip_volume_names`).
pub fn ensure_archive_is_editable(path: &str, is_zip_container: bool, split_volume_count: usize) -> (r:
    Result<(), String>)
    ensures
        match r {
            Ok(()) => spec_ensure_archive_is_editable(
                path@,
                is_zip_container,
                split_volume_count as nat,
            ) == Ok::<(), Seq<char>>(()),
            Err(m) => spec_ensure_archive_is_editable(
                path@,
                is_zip_container,
                split_volume_count as nat,
            ) == Err::<(), Seq<char>>(m@),
        },
{
    let p = chars_of(path);
    if split_volume_count > 1 || split_archive_format_of(&p).is_some() {
        return Err(owned("暂不支持直接编辑分卷压缩包，请先合并或解压后重新压缩。"));
    }
    let f = archive_format_chars(&p, is_zip_container);
    match normalize_compress_format(f.as_str()) {
        Ok(_) => Ok(()),
        Err(_) => Err(owned("当前格式暂不支持编辑后重建。")),
    }
}

/// The format to rebuild an edited archive in: that of a non-empty output path when it is a
/// format that can be created, else that of the archive itself.
pub open spec fn spec_normalize_edit_archive_format(
    archive_path: Seq<char>,
    archive_is_zip_container: bool,
    output_path: Option<Seq<char>>,
    output_is_zip_container: bool,
) -> Result<Seq<char>, Seq<char>> {
    let out = match output_path {
        Some(o) => if trim(o).len() > 0 {
            spec_normalize_compress_format(spec_archive_format(trim(o), output_is_zip_container))
        } else {
            Err(Seq::<char>::empty())
        },
        None => Err(Seq::<char>::empty()),
    };
    match out {
        Ok(f) => Ok(f),
        Err(_) => spec_normalize_compress_format(
            spec_archive_format(archive_path, archive_is_zip_container),
        ),
    }
}

/// The format to rebuild an edited archive in.
pub fn normalize_edit_archive_format(
    archive_path: &str,
    archive_is_zip_container: bool,
    output_path: Option<&str>,
    output_is_zip_container: bool,
) -> (r: Result<String, String>)
    ensures
        match r {
            Ok(f) => spec_normalize_edit_archive_format(
                archive_path@,
                archive_is_zip_container,
                match output_path {
                    Some(o) => Some(o@),
                    None => None,
                },
                output_is_zip_container,
            ) == Ok::<Seq<char>, Seq<char>>(f@),
            Err(m) => spec_normalize_edit_archive_format(
                archive_path@,
                archive_is_zip_container,
                match output_path {
                    Some(o) => Some(o@),
                    None => None,
                },
                output_is_zip_container,
            ) == Err::<Seq<char>, Seq<char>>(m@),
        },
{
    if let Some(o) = output_path {
        let oc = chars_of(o);
        let t = trim_chars(&oc);
        if t.len() > 0 {
            let ts = string_of(&t);
            let of = archive_format(ts.as_str(), output_is_zip_container);
            if let Ok(f) = normalize_compress_format(of.as_str()) {
                return Ok(f);
            }
        }
    }
    let af = archive_format(archive_path, archive_is_zip_container);
    normalize_compress_format(af.as_str())
}

// ---------------------------------------------------------------------------
// Kinds and labels
// ---------------------------------------------------------------------------

/// The kind of file that a (Unicode lowercased) extension names.
pub open spec fn kind_of_extension(e: Seq<char>) -> Seq<char> {
    if e == "zip"@ || e == "rar"@ || e == "7z"@ || e == "tar"@ || e == "gz"@ || e == "gzip"@ || e
        == "bz2"@ || e == "bzip2"@ || e == "xz"@ || e == "tgz"@ || e == "tbz"@ || e == "tbz2"@ || e
        == "txz"@ || e == "lzh"@ || e == "lha"@ || e == "z"@ || e == "zst"@ || e == "zstd"@ || e
        == "tzst"@ || e == "lzma"@ || e == "lzma2"@ || e == "tlzma"@ || e == "lz4"@ || e
        == "tlz4"@ || e == "iso"@ {
        "archive"@
    } else if e == "pdf"@ {
        "pdf"@
    } else if e == "doc"@ || e == "docx"@ {
        "word"@
    } else if e == "xls"@ || e == "xlsx"@ {
        "excel"@
    } else if e == "png"@ || e == "jpg"@ || e == "jpeg"@ || e == "gif"@ || e == "webp"@ {
        "image"@
    } else if e == "txt"@ || e == "md"@ || e == "json"@ || e == "csv"@ {
        "text"@
    } else {
        "file"@
    }
}

/// The kind of a file, by its Unicode lowercased extension.
pub open spec fn spec_file_kind(path: Seq<char>) -> Seq<char> {
    kind_of_extension(unicode_lowercase(extension_or_empty(path)))
}

/// The kind of a file, by its extension.
pub fn file_kind(path: &str) -> (r: String)
    ensures
        r@ == spec_file_kind(path@),
{
    let p = chars_of(path);
    let x = extension_or_empty_of(&p);
    let e = lowercase_chars(&x);
    if chars_eq_str(&e, "zip") || chars_eq_str(&e, "rar") || chars_eq_str(&e, "7z")
        || chars_eq_str(&e, "tar") || chars_eq_str(&e, "gz") || chars_eq_str(&e, "gzip")
        || chars_eq_str(&e, "bz2") || chars_eq_str(&e, "bzip2") || chars_eq_str(&e, "xz")
        || chars_eq_str(&e, "tgz") || chars_eq_str(&e, "tbz") || chars_eq_str(&e, "tbz2")
        || chars_eq_str(&e, "txz") || chars_eq_str(&e, "lzh") || chars_eq_str(&e, "lha")
        || chars_eq_str(&e, "z") || chars_eq_str(&e, "zst") || chars_eq_str(&e, "zstd")
        || chars_eq_str(&e, "tzst") || chars_eq_str(&e, "lzma") || chars_eq_str(&e, "lzma2")
        || chars_eq_str(&e, "tlzma") || chars_eq_str(&e, "lz4") || chars_eq_str(&e, "tlz4")
        || chars_eq_str(&e, "iso") {
        owned("archive")
    } else if chars_eq_str(&e, "pdf") {
        owned("pdf")
    } else if chars_eq_str(&e, "doc") || chars_eq_str(&e, "docx") {
        owned("word")
    } else if chars_eq_str(&e, "xls") || chars_eq_str(&e, "xlsx") {
        owned("excel")
    } else if chars_eq_str(&e, "png") || chars_eq_str(&e, "jpg") || chars_eq_str(&e, "jpeg")
        || chars_eq_str(&e, "gif") || chars_eq_str(&e, "webp") {
        owned("image")
    } else if chars_eq_str(&e, "txt") || chars_eq_str(&e, "md") || chars_eq_str(&e, "json")
        || chars_eq_str(&e, "csv") {
        owned("text")
    } else {
        owned("file")
    }
}

/// The label of a file's type: its extension in upper case, or `文件` when it has none.
pub open spec fn spec_extension_label(path: Seq<char>) -> Seq<char> {
    match extension(path) {
        Some(e) => unicode_uppercase(e),
        None => unicode_uppercase("文件"@),
    }
}

/// The label of a file's type.
pub fn extension_label(path: &str) -> (r: String)
    ensures
        r@ == spec_extension_label(path@),
{
    let p = chars_of(path);
    let e = match extension_of(&p) {
        Some(e) => e,
        None => chars_of("文件"),
    };
    let u = uppercase_chars(&e);
    string_of(&u)
}

} // verus!
