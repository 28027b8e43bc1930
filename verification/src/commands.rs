//! The command lines of the archive tools: passwords, conflict handling, compression levels,
//! the arguments of `zip` and `bsdtar`, where a program is looked for, and the progress lines
//! that the tools print while compressing.
use vstd::prelude::*;
use crate::text::{
    ascii_lower, ascii_lower_chars, before_first, before_first_chars, chars_eq_str, chars_of,
    decimal, extend_str, has_char, opt_str, opt_view, push_decimal, push_string, starts_with,
    string_of, string_views, strip_prefix_chars, trim, trim_chars,
};

verus! {

// ---------------------------------------------------------------------------
// Passwords
// ---------------------------------------------------------------------------

/// A password as given: trimmed, and none when that leaves nothing.
pub open spec fn given_password(password: Option<Seq<char>>) -> Option<Seq<char>> {
    match password {
        Some(p) => if trim(p).len() > 0 {
            Some(trim(p))
        } else {
            None
        },
        None => None,
    }
}

fn given_password_of(password: Option<&str>) -> (r: Option<String>)
    ensures
        opt_view(r) == given_password(opt_str(password)),
{
    match password {
        Some(p) => {
            let c = chars_of(p);
            let t = trim_chars(&c);
            if t.len() > 0 {
                Some(string_of(&t))
            } else {
                None
            }
        },
        None => None,
    }
}

/// A password as given: trimmed, and none when that leaves nothing.
pub fn normalize_archive_password(password: Option<String>) -> (r: Option<String>)
    ensures
        opt_view(r) == given_password(opt_view(password)),
{
    match password {
        Some(p) => given_password_of(Some(p.as_str())),
        None => None,
    }
}

/// The arguments that give `bsdtar` a password to read an archive with, when one is given.
pub open spec fn spec_password_args(password: Option<Seq<char>>) -> Seq<Seq<char>> {
    match given_password(password) {
        Some(p) => seq!["--passphrase"@, p],
        None => Seq::<Seq<char>>::empty(),
    }
}

/// Appends the arguments that give `bsdtar` a password to read an archive with.
pub fn append_archive_password_args(args: &mut Vec<String>, password: Option<&str>)
    ensures
        string_views(final(args)@) == string_views(old(args)@) + spec_password_args(opt_str(password)),
{
    let ghost before = string_views(args@);
    match given_password_of(password) {
        Some(p) => {
            push_string(args, String::from_str("--passphrase"));
            push_string(args, p);
            assert(string_views(args@) =~= before + spec_password_args(opt_str(password)));
        },
        None => {
            assert(string_views(args@) =~= before + spec_password_args(opt_str(password)));
        },
    }
}

/// The word given as the password when extracting without one: an archive that needs a
/// password then fails in a way that says so.
pub open spec fn password_probe() -> Seq<char> {
    "__PACKO_PASSWORD_REQUIRED__"@
}

/// The arguments that give `bsdtar` a password to extract with: the given password, or the
/// probe word.
pub open spec fn spec_extract_password_args(password: Option<Seq<char>>) -> Seq<Seq<char>> {
    seq![
        "--passphrase"@,
        match given_password(password) {
            Some(p) => p,
            None => password_probe(),
        },
    ]
}

/// Appends the arguments that give `bsdtar` a password to extract with.
pub fn append_archive_extract_password_args(args: &mut Vec<String>, password: Option<&str>)
    ensures
        string_views(final(args)@) == string_views(old(args)@) + spec_extract_password_args(
            opt_str(password),
        ),
{
    let ghost before = string_views(args@);
    push_string(args, String::from_str("--passphrase"));
    let p = match given_password_of(password) {
        Some(p) => p,
        None => String::from_str("__PACKO_PASSWORD_REQUIRED__"),
    };
    push_string(args, p);
    assert(string_views(args@) =~= before + spec_extract_password_args(opt_str(password)));
}

// ---------------------------------------------------------------------------
// Conflicts when extracting
// ---------------------------------------------------------------------------

/// What extracting does with a file that is already there.
#[derive(PartialEq, Eq, Structural, Clone, Copy, Debug)]
pub enum ExtractConflictStrategy {
    Overwrite,
    Skip,
    Rename,
}

/// The conflict strategy a user chose (`overwrite` when none), trimmed and matched ignoring
/// ASCII case.
pub open spec fn spec_normalize_extract_conflict_strategy(strategy: Option<Seq<char>>) -> Result<
    ExtractConflictStrategy,
    Seq<char>,
> {
    let s = ascii_lower(
        trim(
            match strategy {
                Some(s) => s,
                None => "overwrite"@,
            },
        ),
    );
    if s == "overwrite"@ || s == "cover"@ || s == "replace"@ {
        Ok(ExtractConflictStrategy::Overwrite)
    } else if s == "skip"@ {
        Ok(ExtractConflictStrategy::Skip)
    } else if s == "rename"@ || s == "auto_rename"@ || s == "auto-rename"@ {
        Ok(ExtractConflictStrategy::Rename)
    } else {
        Err("未知的解压冲突处理方式。"@)
    }
}

/// The conflict strategy a user chose.
pub fn normalize_extract_conflict_strategy(strategy: Option<String>) -> (r: Result<
    ExtractConflictStrategy,
    String,
>)
    ensures
        match r {
            Ok(s) => spec_normalize_extract_conflict_strategy(opt_view(strategy)) == Ok::<
                ExtractConflictStrategy,
                Seq<char>,
            >(s),
            Err(m) => spec_normalize_extract_conflict_strategy(opt_view(strategy)) == Err::<
                ExtractConflictStrategy,
                Seq<char>,
            >(m@),
        },
{
    let raw = match &strategy {
        Some(s) => chars_of(s.as_str()),
        None => chars_of("overwrite"),
    };
    let t = trim_chars(&raw);
    let s = ascii_lower_chars(&t);
    if chars_eq_str(&s, "overwrite") || chars_eq_str(&s, "cover") || chars_eq_str(&s, "replace") {
        Ok(ExtractConflictStrategy::Overwrite)
    } else if chars_eq_str(&s, "skip") {
        Ok(ExtractConflictStrategy::Skip)
    } else if chars_eq_str(&s, "rename") || chars_eq_str(&s, "auto_rename") || chars_eq_str(
        &s,
        "auto-rename",
    ) {
        Ok(ExtractConflictStrategy::Rename)
    } else {
        Err(String::from_str("未知的解压冲突处理方式。"))
    }
}

/// What extracting one entry does about what is already at its place.
#[derive(PartialEq, Eq, Structural, Clone, Copy, Debug)]
pub enum ConflictAction {
    /// Leave what is there and count the entry as done.
    Skip,
    /// Extract into the output folder.
    InPlace,
    /// Extract into a folder of its own, then move it beside what is there under a new name.
    Aside,
}

/// What extracting one entry does: skip it when skipping was chosen and its place is taken;
/// extract a file aside when renaming was chosen and its place is taken; otherwise extract in
/// place (overwriting).
pub open spec fn spec_conflict_action(
    strategy: ExtractConflictStrategy,
    is_dir: bool,
    target_exists: bool,
) -> ConflictAction {
    if strategy == ExtractConflictStrategy::Skip && target_exists {
        ConflictAction::Skip
    } else if strategy == ExtractConflictStrategy::Rename && !is_dir && target_exists {
        ConflictAction::Aside
    } else {
        ConflictAction::InPlace
    }
}

/// What extracting one entry does about what is already at its place.
pub fn conflict_action(strategy: ExtractConflictStrategy, is_dir: bool, target_exists: bool) -> (r:
    ConflictAction)
    ensures
        r == spec_conflict_action(strategy, is_dir, target_exists),
{
    if strategy == ExtractConflictStrategy::Skip && target_exists {
        ConflictAction::Skip
    } else if strategy == ExtractConflictStrategy::Rename && !is_dir && target_exists {
        ConflictAction::Aside
    } else {
        ConflictAction::InPlace
    }
}

/// The message of an entry that was skipped because its place was taken.
pub fn skipped_entry_message(display_path: &str) -> (r: String)
    ensures
        r@ == "已跳过已存在项目："@ + display_path@,
{
    let mut m = chars_of("已跳过已存在项目：");
    extend_str(&mut m, display_path);
    string_of(&m)
}

/// The message of a decompressed file that was skipped because its place was taken.
pub fn skipped_file_message(name: &str) -> (r: String)
    ensures
        r@ == "已跳过已存在文件："@ + name@,
{
    let mut m = chars_of("已跳过已存在文件：");
    extend_str(&mut m, name);
    string_of(&m)
}

// ---------------------------------------------------------------------------
// Compression levels
// ---------------------------------------------------------------------------

/// The `bsdtar` filter module of a compression format and the range of levels it takes.
pub open spec fn level_module(format: Seq<char>) -> Option<(Seq<char>, nat, nat)> {
    if format == "7Z"@ {
        Some(("7zip"@, 0nat, 9nat))
    } else if format == "TGZ"@ || format == "GZ"@ {
        Some(("gzip"@, 1nat, 9nat))
    } else if format == "TBZ"@ || format == "BZ2"@ {
        Some(("bzip2"@, 1nat, 9nat))
    } else if format == "TXZ"@ || format == "XZ"@ {
        Some(("xz"@, 0nat, 9nat))
    } else if format == "ZSTD"@ {
        Some(("zstd"@, 1nat, 22nat))
    } else if format == "LZMA"@ {
        Some(("lzma"@, 0nat, 9nat))
    } else if format == "LZ4"@ {
        Some(("lz4"@, 1nat, 2nat))
    } else {
        None
    }
}

/// The `--options` value that sets a compression level for `bsdtar`: none without a level or
/// for a format without levels; refused outside the format's range.
pub open spec fn spec_compression_level_option(format: Seq<char>, level: Option<u8>) -> Result<
    Option<Seq<char>>,
    Seq<char>,
> {
    match level {
        None => Ok(None),
        Some(l) => match level_module(format) {
            None => Ok(None),
            Some((m, lo, hi)) => if l < lo || l > hi {
                Err(
                    format + " 压缩级别必须在 "@ + decimal(lo) + " 到 "@ + decimal(hi)
                        + " 之间。"@,
                )
            } else {
                Ok(Some(m + ":compression-level="@ + decimal(l as nat)))
            },
        },
    }
}

/// The `--options` value that sets a compression level for `bsdtar`.
pub fn compression_level_option(format: &str, level: Option<u8>) -> (r: Result<
    Option<String>,
    String,
>)
    ensures
        match r {
            Ok(o) => spec_compression_level_option(format@, level) == Ok::<
                Option<Seq<char>>,
                Seq<char>,
            >(opt_view(o)),
            Err(m) => spec_compression_level_option(format@, level) == Err::<
                Option<Seq<char>>,
                Seq<char>,
            >(m@),
        },
{
    let l = match level {
        Some(l) => l,
        None => return Ok(None),
    };
    let f = chars_of(format);
    let (module, lo, hi): (&str, u8, u8) = if chars_eq_str(&f, "7Z") {
        ("7zip", 0, 9)
    } else if chars_eq_str(&f, "TGZ") || chars_eq_str(&f, "GZ") {
        ("gzip", 1, 9)
    } else if chars_eq_str(&f, "TBZ") || chars_eq_str(&f, "BZ2") {
        ("bzip2", 1, 9)
    } else if chars_eq_str(&f, "TXZ") || chars_eq_str(&f, "XZ") {
        ("xz", 0, 9)
    } else if chars_eq_str(&f, "ZSTD") {
        ("zstd", 1, 22)
    } else if chars_eq_str(&f, "LZMA") {
        ("lzma", 0, 9)
    } else if chars_eq_str(&f, "LZ4") {
        ("lz4", 1, 2)
    } else {
        return Ok(None);
    };
    if l < lo || l > hi {
        let mut m = chars_of(format);
        extend_str(&mut m, " 压缩级别必须在 ");
        push_decimal(&mut m, lo as u64);
        extend_str(&mut m, " 到 ");
        push_decimal(&mut m, hi as u64);
        extend_str(&mut m, " 之间。");
        return Err(string_of(&m));
    }
    let mut o = chars_of(module);
    extend_str(&mut o, ":compression-level=");
    push_decimal(&mut o, l as u64);
    Ok(Some(string_of(&o)))
}

// ---------------------------------------------------------------------------
// Arguments of `zip` and `bsdtar`
// ---------------------------------------------------------------------------

/// Appends strings to a vector of strings.
fn extend_strings(v: &mut Vec<String>, more: &Vec<String>)
    ensures
        string_views(final(v)@) == string_views(old(v)@) + string_views(more@),
{
    let ghost before = string_views(v@);
    let mut i: usize = 0;
    while i < more.len()
        invariant
            i <= more.len(),
            string_views(v@) == before + string_views(more@).take(i as int),
        decreases more.len() - i,
    {
        push_string(v, more[i].clone());
        assert(string_views(more@).take(i + 1) == string_views(more@).take(i as int).push(
            more@[i as int]@,
        ));
        i = i + 1;
    }
    assert(string_views(more@).take(more.len() as int) == string_views(more@));
}

/// The arguments of `zip` that write `output` from the sources (relative to the folder it
/// runs in): recursive, with the level, the password, the volume size (in MB, `<n>m`) and
/// the excluded patterns when given; refused for a level above 9.
pub open spec fn spec_zip_compress_args(
    output: Seq<char>,
    sources: Seq<Seq<char>>,
    excludes: Seq<Seq<char>>,
    level: Option<u8>,
    password: Seq<char>,
    volume_size_mb: Option<u64>,
) -> Result<Seq<Seq<char>>, Seq<char>> {
    if level matches Some(l) && l > 9 {
        Err("ZIP 压缩级别必须在 0 到 9 之间。"@)
    } else {
        Ok(
            seq!["-r"@] + match level {
                Some(l) => seq!["-"@ + decimal(l as nat)],
                None => Seq::<Seq<char>>::empty(),
            } + if password.len() > 0 {
                seq!["-P"@, password]
            } else {
                Seq::<Seq<char>>::empty()
            } + match volume_size_mb {
                Some(v) => if v > 0 {
                    seq!["-s"@, decimal(v as nat) + seq!['m']]
                } else {
                    Seq::<Seq<char>>::empty()
                },
                None => Seq::<Seq<char>>::empty(),
            } + seq![output] + sources + if excludes.len() > 0 {
                seq!["-x"@] + excludes
            } else {
                Seq::<Seq<char>>::empty()
            },
        )
    }
}

/// The arguments of `zip` that write `output_path` from the sources.
pub fn zip_compress_args(
    output_path: &str,
    relative_sources: &Vec<String>,
    exclude_patterns: &Vec<String>,
    compression_level: Option<u8>,
    password: &str,
    volume_size_mb: Option<u64>,
) -> (r: Result<Vec<String>, String>)
    ensures
        match r {
            Ok(a) => spec_zip_compress_args(
                output_path@,
                string_views(relative_sources@),
                string_views(exclude_patterns@),
                compression_level,
                password@,
                volume_size_mb,
            ) == Ok::<Seq<Seq<char>>, Seq<char>>(string_views(a@)),
            Err(m) => spec_zip_compress_args(
                output_path@,
                string_views(relative_sources@),
                string_views(exclude_patterns@),
                compression_level,
                password@,
                volume_size_mb,
            ) == Err::<Seq<Seq<char>>, Seq<char>>(m@),
        },
{
    let mut args: Vec<String> = Vec::new();
    assert(string_views(args@) =~= Seq::<Seq<char>>::empty());
    push_string(&mut args, String::from_str("-r"));
    let ghost a0 = string_views(args@);
    assert(a0 =~= seq!["-r"@]);
    if let Some(level) = compression_level {
        if level > 9 {
            return Err(String::from_str("ZIP 压缩级别必须在 0 到 9 之间。"));
        }
        let mut l = chars_of("-");
        push_decimal(&mut l, level as u64);
        push_string(&mut args, string_of(&l));
    }
    let ghost a1 = string_views(args@);
    let pc = chars_of(password);
    if pc.len() > 0 {
        push_string(&mut args, String::from_str("-P"));
        push_string(&mut args, String::from_str(password));
    }
    let ghost a2 = string_views(args@);
    if let Some(v) = volume_size_mb {
        if v > 0 {
            push_string(&mut args, String::from_str("-s"));
            let mut s: Vec<char> = Vec::new();
            push_decimal(&mut s, v);
            s.push('m');
            assert(s@ =~= decimal(v as nat) + seq!['m']);
            push_string(&mut args, string_of(&s));
            assert(string_views(args@) =~= a2 + seq!["-s"@, decimal(v as nat) + seq!['m']]);
        }
    }
    let ghost a3 = string_views(args@);
    push_string(&mut args, String::from_str(output_path));
    extend_strings(&mut args, relative_sources);
    let ghost a4 = string_views(args@);
    if exclude_patterns.len() > 0 {
        push_string(&mut args, String::from_str("-x"));
        extend_strings(&mut args, exclude_patterns);
    }
    proof {
        let level_part = match compression_level {
            Some(l) => seq!["-"@ + decimal(l as nat)],
            None => Seq::<Seq<char>>::empty(),
        };
        assert(a1 =~= seq!["-r"@] + level_part);
        let pw_part = if password@.len() > 0 {
            seq!["-P"@, password@]
        } else {
            Seq::<Seq<char>>::empty()
        };
        assert(a2 =~= a1 + pw_part);
        let vol_part = match volume_size_mb {
            Some(v) => if v > 0 {
                seq!["-s"@, decimal(v as nat) + seq!['m']]
            } else {
                Seq::<Seq<char>>::empty()
            },
            None => Seq::<Seq<char>>::empty(),
        };
        assert(a3 =~= a2 + vol_part);
        assert(a4 =~= a3 + seq![output_path@] + string_views(relative_sources@));
        let ex_part = if exclude_patterns@.len() > 0 {
            seq!["-x"@] + string_views(exclude_patterns@)
        } else {
            Seq::<Seq<char>>::empty()
        };
        assert(string_views(args@) =~= a4 + ex_part);
        assert(string_views(args@) =~= seq!["-r"@] + level_part + pw_part + vol_part + seq![
            output_path@,
        ] + string_views(relative_sources@) + ex_part);
    }
    Ok(args)
}

/// `--exclude <pattern>` for each pattern.
pub open spec fn exclude_args(excludes: Seq<Seq<char>>) -> Seq<Seq<char>>
    decreases excludes.len(),
{
    if excludes.len() == 0 {
        Seq::<Seq<char>>::empty()
    } else {
        exclude_args(excludes.drop_last()) + seq!["--exclude"@, excludes.last()]
    }
}

/// The arguments of `bsdtar` that write `output` in `format` from the sources, relative to
/// `parent`: the 7-Zip format when asked for, the level option, the excluded patterns, `-cvf`
/// for TAR and 7Z (`-cvaf`, which picks the compression by the output's name, otherwise);
/// refused when the level is out of range.
pub open spec fn spec_bsdtar_compress_args(
    format: Seq<char>,
    output: Seq<char>,
    parent: Seq<char>,
    sources: Seq<Seq<char>>,
    excludes: Seq<Seq<char>>,
    level: Option<u8>,
) -> Result<Seq<Seq<char>>, Seq<char>> {
    match spec_compression_level_option(format, level) {
        Err(m) => Err(m),
        Ok(opt) => Ok(
            (if format == "7Z"@ {
                seq!["--format"@, "7zip"@]
            } else {
                Seq::<Seq<char>>::empty()
            }) + match opt {
                Some(o) => seq!["--options"@, o],
                None => Seq::<Seq<char>>::empty(),
            } + exclude_args(excludes) + seq![
                if format == "TAR"@ || format == "7Z"@ {
                    "-cvf"@
                } else {
                    "-cvaf"@
                },
                output,
                "-C"@,
                parent,
            ] + sources,
        ),
    }
}

/// The arguments of `bsdtar` that write `output_path` in `format` from the sources.
pub fn bsdtar_compress_args(
    format: &str,
    output_path: &str,
    common_parent: &str,
    relative_sources: &Vec<String>,
    exclude_patterns: &Vec<String>,
    compression_level: Option<u8>,
) -> (r: Result<Vec<String>, String>)
    ensures
        match r {
            Ok(a) => spec_bsdtar_compress_args(
                format@,
                output_path@,
                common_parent@,
                string_views(relative_sources@),
                string_views(exclude_patterns@),
                compression_level,
            ) == Ok::<Seq<Seq<char>>, Seq<char>>(string_views(a@)),
            Err(m) => spec_bsdtar_compress_args(
                format@,
                output_path@,
                common_parent@,
                string_views(relative_sources@),
                string_views(exclude_patterns@),
                compression_level,
            ) == Err::<Seq<Seq<char>>, Seq<char>>(m@),
        },
{
    let f = chars_of(format);
    let is_7z = chars_eq_str(&f, "7Z");
    let option = match compression_level_option(format, compression_level) {
        Ok(o) => o,
        Err(m) => return Err(m),
    };
    let mut args: Vec<String> = Vec::new();
    if is_7z {
        push_string(&mut args, String::from_str("--format"));
        push_string(&mut args, String::from_str("7zip"));
    }
    let ghost a0 = string_views(args@);
    let ghost opt_view_v = opt_view(option);
    if let Some(o) = option {
        push_string(&mut args, String::from_str("--options"));
        push_string(&mut args, o);
    }
    let ghost a1 = string_views(args@);
    let mut i: usize = 0;
    while i < exclude_patterns.len()
        invariant
            i <= exclude_patterns.len(),
            string_views(args@) == a1 + exclude_args(string_views(exclude_patterns@).take(i as int)),
        decreases exclude_patterns.len() - i,
    {
        let ghost before = string_views(args@);
        push_string(&mut args, String::from_str("--exclude"));
        push_string(&mut args, exclude_patterns[i].clone());
        proof {
            let ex = string_views(exclude_patterns@);
            assert(ex.take(i + 1).drop_last() == ex.take(i as int));
            assert(ex.take(i + 1).last() == exclude_patterns@[i as int]@);
            assert(string_views(args@) =~= before + seq!["--exclude"@, exclude_patterns@[i as int]@]);
        }
        i = i + 1;
    }
    assert(string_views(exclude_patterns@).take(exclude_patterns.len() as int) == string_views(
        exclude_patterns@,
    ));
    let ghost a2 = string_views(args@);
    if chars_eq_str(&f, "TAR") || is_7z {
        push_string(&mut args, String::from_str("-cvf"));
    } else {
        push_string(&mut args, String::from_str("-cvaf"));
    }
    push_string(&mut args, String::from_str(output_path));
    push_string(&mut args, String::from_str("-C"));
    push_string(&mut args, String::from_str(common_parent));
    let ghost a3 = string_views(args@);
    extend_strings(&mut args, relative_sources);
    proof {
        let fmt_part = if format@ == "7Z"@ {
            seq!["--format"@, "7zip"@]
        } else {
            Seq::<Seq<char>>::empty()
        };
        assert(a0 =~= fmt_part);
        let opt_part = match opt_view_v {
            Some(o) => seq!["--options"@, o],
            None => Seq::<Seq<char>>::empty(),
        };
        assert(a1 =~= a0 + opt_part);
        let mid = seq![
            if format@ == "TAR"@ || format@ == "7Z"@ {
                "-cvf"@
            } else {
                "-cvaf"@
            },
            output_path@,
            "-C"@,
            common_parent@,
        ];
        assert(a3 =~= a2 + mid);
        assert(string_views(args@) =~= fmt_part + opt_part + exclude_args(
            string_views(exclude_patterns@),
        ) + mid + string_views(relative_sources@));
    }
    Ok(args)
}

/// The patterns that leave out Finder's `.DS_Store` files.
pub open spec fn ds_store_patterns() -> Seq<Seq<char>> {
    seq![".DS_Store"@, "*/.DS_Store"@]
}

/// Appends the patterns that leave out Finder's `.DS_Store` files.
pub fn append_ds_store_exclude_patterns(patterns: &mut Vec<String>)
    ensures
        string_views(final(patterns)@) == string_views(old(patterns)@) + ds_store_patterns(),
{
    let ghost before = string_views(patterns@);
    push_string(patterns, String::from_str(".DS_Store"));
    push_string(patterns, String::from_str("*/.DS_Store"));
    assert(string_views(patterns@) =~= before + ds_store_patterns());
}

/// The patterns that leave out macOS metadata: `__MACOSX` folders and `._` files.
pub open spec fn macos_metadata_patterns() -> Seq<Seq<char>> {
    seq!["__MACOSX"@, "__MACOSX/*"@, "*/__MACOSX"@, "*/__MACOSX/*"@, "._*"@, "*/._*"@]
}

/// Appends the patterns that leave out macOS metadata.
pub fn append_macos_metadata_exclude_patterns(patterns: &mut Vec<String>)
    ensures
        string_views(final(patterns)@) == string_views(old(patterns)@) + macos_metadata_patterns(),
{
    let ghost before = string_views(patterns@);
    push_string(patterns, String::from_str("__MACOSX"));
    push_string(patterns, String::from_str("__MACOSX/*"));
    push_string(patterns, String::from_str("*/__MACOSX"));
    push_string(patterns, String::from_str("*/__MACOSX/*"));
    push_string(patterns, String::from_str("._*"));
    push_string(patterns, String::from_str("*/._*"));
    assert(string_views(patterns@) =~= before + macos_metadata_patterns());
}

// ---------------------------------------------------------------------------
// Programs
// ---------------------------------------------------------------------------

/// Where a program is looked for: a name with a slash as it is; else the name, then the name in
/// `/usr/bin`, `/bin`, `/opt/homebrew/bin` and `/usr/local/bin`.
pub open spec fn spec_command_candidates(program: Seq<char>) -> Seq<Seq<char>> {
    if program.contains('/') {
        seq![program]
    } else {
        seq![
            program,
            "/usr/bin/"@ + program,
            "/bin/"@ + program,
            "/opt/homebrew/bin/"@ + program,
            "/usr/local/bin/"@ + program,
        ]
    }
}

fn prefixed(prefix: &str, program: &str) -> (r: String)
    ensures
        r@ == prefix@ + program@,
{
    let mut v = chars_of(prefix);
    extend_str(&mut v, program);
    string_of(&v)
}

/// Where a program is looked for.
pub fn command_candidates(program: &str) -> (r: Vec<String>)
    ensures
        string_views(r@) == spec_command_candidates(program@),
{
    let p = chars_of(program);
    let mut r: Vec<String> = Vec::new();
    if has_char(&p, '/') {
        push_string(&mut r, String::from_str(program));
        assert(string_views(r@) =~= spec_command_candidates(program@));
        return r;
    }
    push_string(&mut r, String::from_str(program));
    push_string(&mut r, prefixed("/usr/bin/", program));
    push_string(&mut r, prefixed("/bin/", program));
    push_string(&mut r, prefixed("/opt/homebrew/bin/", program));
    push_string(&mut r, prefixed("/usr/local/bin/", program));
    assert(string_views(r@) =~= spec_command_candidates(program@));
    r
}

// ---------------------------------------------------------------------------
// Progress lines
// ---------------------------------------------------------------------------

/// The path in a line of `zip`'s progress after its `adding:` (or similar) word: the rest,
/// trimmed, up to ` (`, trimmed again.
pub open spec fn zip_progress_path(rest: Seq<char>) -> Seq<char> {
    trim(before_first(trim(rest), " ("@))
}

/// The path that a compressing tool's progress line names: `a <path>` and `+ <path>` (from
/// `bsdtar`), `adding:`, `updating:` and `freshening:` (from `zip`), and `Compressing ` and
/// `Adding ` (from 7-Zip tools), each with a path that is not blank.
pub open spec fn spec_parse_compress_progress_line(line: Seq<char>) -> Option<Seq<char>> {
    let t = trim(line);
    if t.len() == 0 {
        None
    } else if starts_with(t, "a "@) {
        Some(trim(t.skip("a "@.len() as int)))
    } else if starts_with(t, "+ "@) {
        Some(trim(t.skip("+ "@.len() as int)))
    } else if starts_with(t, "adding:"@) && zip_progress_path(t.skip("adding:"@.len() as int)).len()
        > 0 {
        Some(zip_progress_path(t.skip("adding:"@.len() as int)))
    } else if starts_with(t, "updating:"@) && zip_progress_path(
        t.skip("updating:"@.len() as int),
    ).len() > 0 {
        Some(zip_progress_path(t.skip("updating:"@.len() as int)))
    } else if starts_with(t, "freshening:"@) && zip_progress_path(
        t.skip("freshening:"@.len() as int),
    ).len() > 0 {
        Some(zip_progress_path(t.skip("freshening:"@.len() as int)))
    } else if starts_with(t, "Compressing  "@) && trim(t.skip("Compressing  "@.len() as int)).len()
        > 0 {
        Some(trim(t.skip("Compressing  "@.len() as int)))
    } else if starts_with(t, "Compressing "@) && trim(t.skip("Compressing "@.len() as int)).len()
        > 0 {
        Some(trim(t.skip("Compressing "@.len() as int)))
    } else if starts_with(t, "Adding  "@) && trim(t.skip("Adding  "@.len() as int)).len() > 0 {
        Some(trim(t.skip("Adding  "@.len() as int)))
    } else if starts_with(t, "Adding "@) && trim(t.skip("Adding "@.len() as int)).len() > 0 {
        Some(trim(t.skip("Adding "@.len() as int)))
    } else {
        None
    }
}

fn zip_progress_path_of(rest: &[char]) -> (r: Vec<char>)
    ensures
        r@ == zip_progress_path(rest@),
{
    let t = trim_chars(rest);
    let b = before_first_chars(&t, " (");
    trim_chars(&b)
}

/// The path after `prefix` when `t` starts with it and the trimmed rest is not blank.
fn trimmed_after(t: &[char], prefix: &str) -> (r: Option<Vec<char>>)
    ensures
        match r {
            Some(p) => starts_with(t@, prefix@) && p@ == trim(t@.skip(prefix@.len() as int))
                && p@.len() > 0,
            None => !(starts_with(t@, prefix@) && trim(t@.skip(prefix@.len() as int)).len() > 0),
        },
{
    match strip_prefix_chars(t, prefix) {
        Some(rest) => {
            let p = trim_chars(&rest);
            if p.len() > 0 {
                Some(p)
            } else {
                None
            }
        },
        None => None,
    }
}

/// The path after `prefix` in a line of `zip`'s progress.
fn zip_path_after(t: &[char], prefix: &str) -> (r: Option<Vec<char>>)
    ensures
        match r {
            Some(p) => starts_with(t@, prefix@) && p@ == zip_progress_path(
                t@.skip(prefix@.len() as int),
            ) && p@.len() > 0,
            None => !(starts_with(t@, prefix@) && zip_progress_path(
                t@.skip(prefix@.len() as int),
            ).len() > 0),
        },
{
    match strip_prefix_chars(t, prefix) {
        Some(rest) => {
            let p = zip_progress_path_of(&rest);
            if p.len() > 0 {
                Some(p)
            } else {
                None
            }
        },
        None => None,
    }
}

/// The path that a compressing tool's progress line names.
pub fn parse_compress_progress_line(line: &str) -> (r: Option<String>)
    ensures
        opt_view(r) == spec_parse_compress_progress_line(line@),
{
    let c = chars_of(line);
    let t = trim_chars(&c);
    if t.len() == 0 {
        return None;
    }
    if let Some(rest) = strip_prefix_chars(&t, "a ") {
        return Some(string_of(&trim_chars(&rest)));
    }
    if let Some(rest) = strip_prefix_chars(&t, "+ ") {
        return Some(string_of(&trim_chars(&rest)));
    }
    if let Some(p) = zip_path_after(&t, "adding:") {
        return Some(string_of(&p));
    }
    if let Some(p) = zip_path_after(&t, "updating:") {
        return Some(string_of(&p));
    }
    if let Some(p) = zip_path_after(&t, "freshening:") {
        return Some(string_of(&p));
    }
    if let Some(p) = trimmed_after(&t, "Compressing  ") {
        return Some(string_of(&p));
    }
    if let Some(p) = trimmed_after(&t, "Compressing ") {
        return Some(string_of(&p));
    }
    if let Some(p) = trimmed_after(&t, "Adding  ") {
        return Some(string_of(&p));
    }
    if let Some(p) = trimmed_after(&t, "Adding ") {
        return Some(string_of(&p));
    }
    None
}

} // verus!
