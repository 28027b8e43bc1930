//! What a request to compress asks for, checked: the format, password, volumes and name of
//! each archive to create, the settings of the 7Z encoder, and the sizes a task counts.
use vstd::prelude::*;
use crate::contents::ExtractTaskEntry;
use crate::formats::{
    normalize_compress_format, spec_normalize_compress_format, spec_supports_compress_password,
    supports_compress_password,
};
use crate::names::{
    default_archive_name_for_source, sanitize_archive_name, spec_default_archive_name_for_source,
    spec_sanitize_archive_name,
};
use crate::text::{
    ascii_upper, ascii_upper_chars, chars_eq_str, chars_of, opt_view, push_string, str_eq,
    string_of, string_views, trim, trim_chars,
};

verus! {

/// The finer settings of a request to compress.
#[derive(Debug)]
pub struct CompressAdvancedOptions {
    pub batch_queue: bool,
    pub dictionary_size_mb: Option<u32>,
    pub solid: Option<bool>,
    pub threads: Option<u32>,
    pub method: Option<String>,
    pub test_after_compress: bool,
    pub skip_macos_metadata: bool,
}

/// Whether a new archive is tested after it is written, when the request does not say.
pub fn default_test_after_compress() -> (r: bool)
    ensures
        r,
{
    true
}

impl Default for CompressAdvancedOptions {
    fn default() -> (r: Self)
        ensures
            !r.batch_queue,
            r.dictionary_size_mb is None,
            r.solid is None,
            r.threads is None,
            r.method is None,
            r.test_after_compress,
            !r.skip_macos_metadata,
    {
        CompressAdvancedOptions {
            batch_queue: false,
            dictionary_size_mb: None,
            solid: None,
            threads: None,
            method: None,
            test_after_compress: default_test_after_compress(),
            skip_macos_metadata: false,
        }
    }
}

/// A request to compress.
#[derive(Debug)]
pub struct CompressOptions {
    pub source_paths: Vec<String>,
    pub output_dir: String,
    pub archive_name: String,
    pub format: String,
    pub compression_level: Option<u8>,
    pub password: Option<String>,
    pub volume_size_mb: Option<u64>,
    pub excluded_paths: Vec<String>,
    pub skip_ds_store: bool,
    pub advanced: CompressAdvancedOptions,
}

// ---------------------------------------------------------------------------
// The archives a request creates
// ---------------------------------------------------------------------------

/// The archives a request creates, each as its sources and its name: in a batch of several
/// sources, one archive per source named after it; otherwise one archive of all sources.
pub open spec fn spec_compress_batches(
    sources: Seq<Seq<char>>,
    archive_name: Seq<char>,
    batch_queue: bool,
) -> Seq<(Seq<Seq<char>>, Seq<char>)> {
    if batch_queue && sources.len() > 1 {
        Seq::new(
            sources.len(),
            |i: int| (seq![sources[i]], spec_default_archive_name_for_source(sources[i])),
        )
    } else {
        seq![(sources, archive_name)]
    }
}

/// The view of a list of batches.
pub open spec fn batches_view(v: Seq<(Vec<String>, String)>) -> Seq<(Seq<Seq<char>>, Seq<char>)> {
    Seq::new(v.len(), |i: int| (string_views(v[i].0@), v[i].1@))
}

fn copy_strings(v: &Vec<String>) -> (r: Vec<String>)
    ensures
        string_views(r@) == string_views(v@),
{
    let mut r: Vec<String> = Vec::new();
    let mut i: usize = 0;
    while i < v.len()
        invariant
            i <= v.len(),
            string_views(r@) == string_views(v@).take(i as int),
        decreases v.len() - i,
    {
        push_string(&mut r, v[i].clone());
        assert(string_views(v@).take(i + 1) == string_views(v@).take(i as int).push(v@[i as int]@));
        i = i + 1;
    }
    assert(string_views(v@).take(v.len() as int) == string_views(v@));
    r
}

/// The archives a request creates.
pub fn compress_batches(options: &CompressOptions) -> (r: Vec<(Vec<String>, String)>)
    ensures
        batches_view(r@) == spec_compress_batches(
            string_views(options.source_paths@),
            options.archive_name@,
            options.advanced.batch_queue,
        ),
{
    let sources = &options.source_paths;
    let mut r: Vec<(Vec<String>, String)> = Vec::new();
    if options.advanced.batch_queue && sources.len() > 1 {
        let mut i: usize = 0;
        while i < sources.len()
            invariant
                i <= sources.len(),
                sources == &options.source_paths,
                options.advanced.batch_queue && sources@.len() > 1,
                batches_view(r@) == spec_compress_batches(
                    string_views(sources@),
                    options.archive_name@,
                    true,
                ).take(i as int),
            decreases sources.len() - i,
        {
            let mut one: Vec<String> = Vec::new();
            assert(string_views(one@) =~= Seq::<Seq<char>>::empty());
            push_string(&mut one, sources[i].clone());
            assert(string_views(one@) =~= seq![sources@[i as int]@]);
            let name = default_archive_name_for_source(sources[i].as_str());
            let ghost before = batches_view(r@);
            r.push((one, name));
            assert(batches_view(r@) =~= before.push(
                (seq![sources@[i as int]@], spec_default_archive_name_for_source(sources@[i as int]@)),
            ));
            assert(batches_view(r@) =~= spec_compress_batches(
                string_views(sources@),
                options.archive_name@,
                true,
            ).take(i + 1));
            i = i + 1;
        }
        assert(spec_compress_batches(string_views(sources@), options.archive_name@, true).take(
            sources.len() as int,
        ) =~= spec_compress_batches(string_views(sources@), options.archive_name@, true));
        r
    } else {
        r.push((copy_strings(sources), options.archive_name.clone()));
        assert(batches_view(r@) =~= seq![(string_views(sources@), options.archive_name@)]);
        r
    }
}

// ---------------------------------------------------------------------------
// Checking a request
// ---------------------------------------------------------------------------

/// A request to compress, checked: the format, the password (trimmed, empty when none), the
/// archive's name, and the volume size when volumes are asked for.
#[derive(Debug)]
pub struct CompressRequest {
    pub format: String,
    pub password: String,
    pub archive_name: String,
    pub volume_size_mb: Option<u64>,
}

/// A request to compress, checked in order: there are sources; the format is one that can be
/// created; the folder to save in exists; a password only for ZIP and 7Z; volumes only for ZIP
/// and 7Z; and the archive's name is acceptable.
pub open spec fn spec_check_compress_request(
    source_count: nat,
    format: Seq<char>,
    output_dir_is_dir: bool,
    password: Option<Seq<char>>,
    volume_size_mb: Option<u64>,
    archive_name: Seq<char>,
) -> Result<(Seq<char>, Seq<char>, Seq<char>, Option<u64>), Seq<char>> {
    let pw = trim(
        match password {
            Some(p) => p,
            None => Seq::<char>::empty(),
        },
    );
    let vol = match volume_size_mb {
        Some(v) => v,
        None => 0,
    };
    if source_count == 0 {
        Err("请先选择要压缩的文件或文件夹。"@)
    } else {
        match spec_normalize_compress_format(format) {
            Err(m) => Err(m),
            Ok(f) => if !output_dir_is_dir {
                Err("保存位置不存在。"@)
            } else if pw.len() > 0 && !spec_supports_compress_password(f) {
                Err("当前仅 ZIP 和 7Z 支持压缩密码。"@)
            } else if vol > 0 && !(f == "ZIP"@ || f == "7Z"@) {
                Err("当前仅 ZIP 和 7Z 支持分卷压缩。"@)
            } else {
                match spec_sanitize_archive_name(archive_name) {
                    Err(m) => Err(m),
                    Ok(n) => Ok(
                        (
                            f,
                            pw,
                            n,
                            if vol > 0 {
                                Some(vol)
                            } else {
                                None
                            },
                        ),
                    ),
                }
            },
        }
    }
}

/// A request to compress, checked; `output_dir_is_dir` says whether the folder to save in
/// exists.
pub fn check_compress_request(options: &CompressOptions, output_dir_is_dir: bool) -> (r: Result<
    CompressRequest,
    String,
>)
    ensures
        match r {
            Ok(q) => spec_check_compress_request(
                options.source_paths@.len(),
                options.format@,
                output_dir_is_dir,
                opt_view(options.password),
                options.volume_size_mb,
                options.archive_name@,
            ) == Ok::<(Seq<char>, Seq<char>, Seq<char>, Option<u64>), Seq<char>>(
                (q.format@, q.password@, q.archive_name@, q.volume_size_mb),
            ),
            Err(m) => spec_check_compress_request(
                options.source_paths@.len(),
                options.format@,
                output_dir_is_dir,
                opt_view(options.password),
                options.volume_size_mb,
                options.archive_name@,
            ) == Err::<(Seq<char>, Seq<char>, Seq<char>, Option<u64>), Seq<char>>(m@),
        },
{
    if options.source_paths.len() == 0 {
        return Err(String::from_str("请先选择要压缩的文件或文件夹。"));
    }
    let format = match normalize_compress_format(options.format.as_str()) {
        Ok(f) => f,
        Err(m) => return Err(m),
    };
    if !output_dir_is_dir {
        return Err(String::from_str("保存位置不存在。"));
    }
    let raw = match &options.password {
        Some(p) => chars_of(p.as_str()),
        None => Vec::new(),
    };
    let pw = trim_chars(&raw);
    if pw.len() > 0 && !supports_compress_password(format.as_str()) {
        return Err(String::from_str("当前仅 ZIP 和 7Z 支持压缩密码。"));
    }
    let vol = match options.volume_size_mb {
        Some(v) => v,
        None => 0,
    };
    if vol > 0 && !(str_eq(format.as_str(), "ZIP") || str_eq(format.as_str(), "7Z")) {
        return Err(String::from_str("当前仅 ZIP 和 7Z 支持分卷压缩。"));
    }
    let name = match sanitize_archive_name(options.archive_name.as_str()) {
        Ok(n) => n,
        Err(m) => return Err(m),
    };
    Ok(
        CompressRequest {
            format,
            password: string_of(&pw),
            archive_name: name,
            volume_size_mb: if vol > 0 {
                Some(vol)
            } else {
                None
            },
        },
    )
}

/// The tool that writes an archive in a format.
#[derive(PartialEq, Eq, Structural, Clone, Copy, Debug)]
pub enum CompressTool {
    Zip,
    SevenZip,
    Bsdtar,
}

/// The tool that writes an archive in a (normalized) format: `zip` for ZIP, the 7Z encoder for
/// 7Z, and `bsdtar` for the others.
pub fn compress_tool(format: &str) -> (r: CompressTool)
    ensures
        r == if format@ == "ZIP"@ {
            CompressTool::Zip
        } else if format@ == "7Z"@ {
            CompressTool::SevenZip
        } else {
            CompressTool::Bsdtar
        },
{
    if str_eq(format, "ZIP") {
        CompressTool::Zip
    } else if str_eq(format, "7Z") {
        CompressTool::SevenZip
    } else {
        CompressTool::Bsdtar
    }
}

// ---------------------------------------------------------------------------
// Sizes
// ---------------------------------------------------------------------------

/// The sum of the sizes of a list of entries.
pub open spec fn entries_size(es: Seq<ExtractTaskEntry>) -> nat
    decreases es.len(),
{
    if es.len() == 0 {
        0
    } else {
        entries_size(es.drop_last()) + es.last().size as nat
    }
}

proof fn lemma_entries_size_prefix(es: Seq<ExtractTaskEntry>, i: int)
    requires
        0 <= i <= es.len(),
    ensures
        entries_size(es.take(i)) <= entries_size(es),
    decreases es.len() - i,
{
    if i < es.len() {
        lemma_entries_size_prefix(es, i + 1);
        assert(es.take(i + 1).drop_last() == es.take(i));
    } else {
        assert(es.take(i) == es);
    }
}

/// The bytes a task over these entries counts: their sizes added up, and at least one byte.
pub fn task_total_bytes(entries: &[ExtractTaskEntry]) -> (r: u64)
    requires
        entries_size(entries@) <= u64::MAX,
    ensures
        r == if entries_size(entries@) == 0 {
            1
        } else {
            entries_size(entries@)
        },
{
    let mut total: u64 = 0;
    let mut i: usize = 0;
    while i < entries.len()
        invariant
            i <= entries.len(),
            entries_size(entries@) <= u64::MAX,
            total == entries_size(entries@.take(i as int)),
        decreases entries.len() - i,
    {
        proof {
            lemma_entries_size_prefix(entries@, i + 1);
            assert(entries@.take(i + 1).drop_last() == entries@.take(i as int));
        }
        total = total + entries[i].size;
        i = i + 1;
    }
    assert(entries@.take(entries.len() as int) == entries@);
    if total == 0 {
        1
    } else {
        total
    }
}

/// Whether the sizes of a list of entries add up to at most the largest `u64`.
pub fn entries_size_fits(entries: &[ExtractTaskEntry]) -> (r: bool)
    ensures
        r == (entries_size(entries@) <= u64::MAX),
{
    let mut total: u64 = 0;
    let mut i: usize = 0;
    while i < entries.len()
        invariant
            i <= entries.len(),
            total == entries_size(entries@.take(i as int)),
        decreases entries.len() - i,
    {
        assert(entries@.take(i + 1).drop_last() == entries@.take(i as int));
        match total.checked_add(entries[i].size) {
            Some(t) => total = t,
            None => {
                proof {
                    lemma_entries_size_prefix(entries@, i + 1);
                }
                return false;
            },
        }
        i = i + 1;
    }
    assert(entries@.take(entries.len() as int) == entries@);
    true
}

/// The items a task over these entries counts: their number, and at least one.
pub fn task_total_items(entries: &[ExtractTaskEntry]) -> (r: usize)
    ensures
        r == if entries@.len() == 0 {
            1
        } else {
            entries@.len()
        },
{
    if entries.len() == 0 {
        1
    } else {
        entries.len()
    }
}

// ---------------------------------------------------------------------------
// The 7Z encoder
// ---------------------------------------------------------------------------

/// The compression method of a 7Z archive.
#[derive(PartialEq, Eq, Structural, Clone, Copy, Debug)]
pub enum SevenZipMethod {
    Lzma2,
    Lzma,
}

/// The settings of the 7Z encoder.
#[derive(Debug)]
pub struct SevenZipCompressSettings {
    pub password: Option<String>,
    pub compression_level: u8,
    pub dictionary_size_mb: Option<u32>,
    pub threads: u32,
    pub solid: bool,
    pub method: SevenZipMethod,
}

/// The settings of the 7Z encoder that a request asks for: level 6 by default and at most 9;
/// LZMA2 (the default, also for a blank method) or LZMA, matched ignoring ASCII case; one to
/// 32 threads (one by default); a dictionary of 1 to 1024 MB when given; not solid by default;
/// and the password when it is not empty.
pub open spec fn spec_seven_zip_settings(
    level: Option<u8>,
    method: Option<Seq<char>>,
    threads: Option<u32>,
    dictionary_size_mb: Option<u32>,
    solid: Option<bool>,
    password: Seq<char>,
) -> Result<(Option<Seq<char>>, u8, Option<u32>, u32, bool, SevenZipMethod), Seq<char>> {
    let l = match level {
        Some(l) => l,
        None => 6u8,
    };
    let m = ascii_upper(
        trim(
            match method {
                Some(m) => m,
                None => "LZMA2"@,
            },
        ),
    );
    let t = match threads {
        Some(t) => t,
        None => 1u32,
    };
    if l > 9 {
        Err("7Z 压缩级别必须在 0 到 9 之间。"@)
    } else if !(m.len() == 0 || m == "LZMA2"@ || m == "LZMA"@) {
        Err("7Z 当前支持 LZMA2 和 LZMA 压缩方法。"@)
    } else if dictionary_size_mb matches Some(d) && !(1 <= d <= 1024) {
        Err("7Z 字典大小必须在 1 到 1024 MB 之间。"@)
    } else {
        Ok(
            (
                if password.len() > 0 {
                    Some(password)
                } else {
                    None
                },
                l,
                dictionary_size_mb,
                if t < 1 {
                    1u32
                } else if t > 32 {
                    32u32
                } else {
                    t
                },
                match solid {
                    Some(s) => s,
                    None => false,
                },
                if m == "LZMA"@ {
                    SevenZipMethod::Lzma
                } else {
                    SevenZipMethod::Lzma2
                },
            ),
        )
    }
}

/// The view of the 7Z encoder's settings.
pub open spec fn settings_view(s: SevenZipCompressSettings) -> (
    Option<Seq<char>>,
    u8,
    Option<u32>,
    u32,
    bool,
    SevenZipMethod,
) {
    (opt_view(s.password), s.compression_level, s.dictionary_size_mb, s.threads, s.solid, s.method)
}

/// The settings of the 7Z encoder that a request asks for.
pub fn seven_zip_settings(options: &CompressOptions, password: &str) -> (r: Result<
    SevenZipCompressSettings,
    String,
>)
    ensures
        match r {
            Ok(s) => spec_seven_zip_settings(
                options.compression_level,
                opt_view(options.advanced.method),
                options.advanced.threads,
                options.advanced.dictionary_size_mb,
                options.advanced.solid,
                password@,
            ) == Ok::<(Option<Seq<char>>, u8, Option<u32>, u32, bool, SevenZipMethod), Seq<char>>(
                settings_view(s),
            ),
            Err(e) => spec_seven_zip_settings(
                options.compression_level,
                opt_view(options.advanced.method),
                options.advanced.threads,
                options.advanced.dictionary_size_mb,
                options.advanced.solid,
                password@,
            ) == Err::<(Option<Seq<char>>, u8, Option<u32>, u32, bool, SevenZipMethod), Seq<char>>(
                e@,
            ),
        },
{
    let level = match options.compression_level {
        Some(l) => l,
        None => 6,
    };
    if level > 9 {
        return Err(String::from_str("7Z 压缩级别必须在 0 到 9 之间。"));
    }
    let raw = match &options.advanced.method {
        Some(m) => chars_of(m.as_str()),
        None => chars_of("LZMA2"),
    };
    let t = trim_chars(&raw);
    let m = ascii_upper_chars(&t);
    let method = if m.len() == 0 || chars_eq_str(&m, "LZMA2") {
        SevenZipMethod::Lzma2
    } else if chars_eq_str(&m, "LZMA") {
        SevenZipMethod::Lzma
    } else {
        return Err(String::from_str("7Z 当前支持 LZMA2 和 LZMA 压缩方法。"));
    };
    let threads = match options.advanced.threads {
        Some(t) => t,
        None => 1,
    };
    let threads = if threads < 1 {
        1
    } else if threads > 32 {
        32
    } else {
        threads
    };
    if let Some(d) = options.advanced.dictionary_size_mb {
        if !(1 <= d && d <= 1024) {
            return Err(String::from_str("7Z 字典大小必须在 1 到 1024 MB 之间。"));
        }
    }
    let pc = chars_of(password);
    proof {
        if m@ == "LZMA"@ {
            reveal_strlit("LZMA");
            reveal_strlit("LZMA2");
            assert(m@ != "LZMA2"@) by {
                assert(m@.len() != "LZMA2"@.len());
            }
        }
    }
    Ok(
        SevenZipCompressSettings {
            password: if pc.len() > 0 {
                Some(String::from_str(password))
            } else {
                None
            },
            compression_level: level,
            dictionary_size_mb: options.advanced.dictionary_size_mb,
            threads,
            solid: match options.advanced.solid {
                Some(s) => s,
                None => false,
            },
            method,
        },
    )
}

/// One coder of a 7Z archive, in the order they are applied: AES encryption with a password,
/// LZMA2 at a level (on several threads, in chunks of a size, when more than one thread is
/// asked for; with a dictionary size when one is given), or LZMA at a level.
#[derive(Debug)]
pub enum SevenZipCoder {
    Aes(String),
    Lzma2 { level: u32, threads: Option<(u32, u64)>, dictionary_size: Option<u32> },
    Lzma { level: u32 },
}

/// The view of a coder.
pub enum CoderView {
    Aes(Seq<char>),
    Lzma2 { level: u32, threads: Option<(u32, u64)>, dictionary_size: Option<u32> },
    Lzma { level: u32 },
}

pub open spec fn coder_view(c: SevenZipCoder) -> CoderView {
    match c {
        SevenZipCoder::Aes(p) => CoderView::Aes(p@),
        SevenZipCoder::Lzma2 { level, threads, dictionary_size } => CoderView::Lzma2 {
            level,
            threads,
            dictionary_size,
        },
        SevenZipCoder::Lzma { level } => CoderView::Lzma { level },
    }
}

pub open spec fn coders_view(v: Seq<SevenZipCoder>) -> Seq<CoderView> {
    Seq::new(v.len(), |i: int| coder_view(v[i]))
}

/// `mb` megabytes in bytes, or the largest `u32` when that overflows.
pub open spec fn mb_to_bytes_u32(mb: u32) -> u32 {
    if mb * 1048576 > u32::MAX {
        u32::MAX
    } else {
        (mb * 1048576) as u32
    }
}

/// The coders of a 7Z archive with these settings: AES first when there is a password, then
/// the compression method. LZMA2 on more than one thread works in chunks of the dictionary's
/// size (16 MB without one).
pub open spec fn spec_seven_zip_coders(
    password: Option<Seq<char>>,
    level: u8,
    dictionary_size_mb: Option<u32>,
    threads: u32,
    method: SevenZipMethod,
) -> Seq<CoderView> {
    let aes = match password {
        Some(p) => seq![CoderView::Aes(p)],
        None => Seq::<CoderView>::empty(),
    };
    let main = match method {
        SevenZipMethod::Lzma2 => CoderView::Lzma2 {
            level: level as u32,
            threads: if threads > 1 {
                Some(
                    (
                        threads,
                        match dictionary_size_mb {
                            Some(mb) => (mb as u64 * 1048576) as u64,
                            None => 16777216u64,
                        },
                    ),
                )
            } else {
                None
            },
            dictionary_size: match dictionary_size_mb {
                Some(mb) => Some(mb_to_bytes_u32(mb)),
                None => None,
            },
        },
        SevenZipMethod::Lzma => CoderView::Lzma { level: level as u32 },
    };
    aes.push(main)
}

/// The coders of a 7Z archive with these settings.
pub fn seven_zip_coders(settings: &SevenZipCompressSettings) -> (r: Vec<SevenZipCoder>)
    ensures
        coders_view(r@) == spec_seven_zip_coders(
            opt_view(settings.password),
            settings.compression_level,
            settings.dictionary_size_mb,
            settings.threads,
            settings.method,
        ),
{
    let mut r: Vec<SevenZipCoder> = Vec::new();
    if let Some(p) = &settings.password {
        r.push(SevenZipCoder::Aes(p.clone()));
    }
    let main = match settings.method {
        SevenZipMethod::Lzma2 => {
            let threads = if settings.threads > 1 {
                let chunk: u64 = match settings.dictionary_size_mb {
                    Some(mb) => mb as u64 * 1048576,
                    None => 16777216,
                };
                Some((settings.threads, chunk))
            } else {
                None
            };
            let dictionary_size = match settings.dictionary_size_mb {
                Some(mb) => Some(
                    if mb as u64 * 1048576 > u32::MAX as u64 {
                        u32::MAX
                    } else {
                        mb * 1048576
                    },
                ),
                None => None,
            };
            SevenZipCoder::Lzma2 { level: settings.compression_level as u32, threads, dictionary_size }
        },
        SevenZipMethod::Lzma => SevenZipCoder::Lzma { level: settings.compression_level as u32 },
    };
    r.push(main);
    assert(coders_view(r@) =~= spec_seven_zip_coders(
        opt_view(settings.password),
        settings.compression_level,
        settings.dictionary_size_mb,
        settings.threads,
        settings.method,
    ));
    r
}

#[verifier::external_type_specification]
#[verifier::external_body]
pub struct ExEncoderConfiguration(sevenz_rust2::EncoderConfiguration);

#[verifier::external_type_specification]
#[verifier::external_body]
pub struct ExLzma2Options(sevenz_rust2::encoder_options::Lzma2Options);

/// LZMA2 options of sevenz_rust2 together with the coder they were made from: the arguments
/// that were handed to sevenz_rust2 (which itself clamps the level to 0..=9, the chunk size to
/// at least the dictionary's and the dictionary size to its range).
pub struct Lzma2Setup {
    options: sevenz_rust2::encoder_options::Lzma2Options,
    model: Ghost<CoderView>,
}

impl Lzma2Setup {
    /// The coder these options were made from.
    pub closed spec fn coder(&self) -> CoderView {
        self.model@
    }
}

/// An encoder configuration of sevenz_rust2 together with the coder it was made from (see
/// `Lzma2Setup` for what sevenz_rust2 does with the numbers).
pub struct EncoderSetup {
    config: sevenz_rust2::EncoderConfiguration,
    model: Ghost<CoderView>,
}

impl EncoderSetup {
    /// The coder this configuration was made from.
    pub closed spec fn coder(&self) -> CoderView {
        self.model@
    }

    /// The encoder configuration.
    pub fn config(&self) -> &sevenz_rust2::EncoderConfiguration {
        &self.config
    }

    /// The encoder configuration, for an archive writer to take.
    pub fn into_config(self) -> sevenz_rust2::EncoderConfiguration {
        self.config
    }
}

/// `AesEncoderOptions::new(Password::new(password))` made into an encoder configuration
/// (`From<AesEncoderOptions>`): AES-256 with this password. Its salt and initialization vector
/// are random, so only the password is stated.
#[verifier::external_body]
fn aes_configuration(password: &str) -> (r: EncoderSetup)
    ensures
        r.coder() == CoderView::Aes(password@),
{
    EncoderSetup {
        config: sevenz_rust2::encoder_options::AesEncoderOptions::new(sevenz_rust2::Password::new(password)).into(),
        model: Ghost(CoderView::Aes(password@)),
    }
}

/// `Lzma2Options::from_level(level)`: single-threaded LZMA2 at a level.
#[verifier::external_body]
fn lzma2_options(level: u32) -> (r: Lzma2Setup)
    ensures
        r.coder() == (CoderView::Lzma2 { level, threads: None, dictionary_size: None }),
{
    Lzma2Setup {
        options: sevenz_rust2::encoder_options::Lzma2Options::from_level(level),
        model: Ghost(CoderView::Lzma2 { level, threads: None, dictionary_size: None }),
    }
}

/// `Lzma2Options::from_level_mt(level, threads, chunk_size)`: LZMA2 at a level on several
/// threads, in chunks of a size.
#[verifier::external_body]
fn lzma2_options_mt(level: u32, threads: u32, chunk_size: u64) -> (r: Lzma2Setup)
    ensures
        r.coder() == (CoderView::Lzma2 {
            level,
            threads: Some((threads, chunk_size)),
            dictionary_size: None,
        }),
{
    Lzma2Setup {
        options: sevenz_rust2::encoder_options::Lzma2Options::from_level_mt(level, threads, chunk_size),
        model: Ghost(CoderView::Lzma2 {
            level,
            threads: Some((threads, chunk_size)),
            dictionary_size: None,
        }),
    }
}

/// `Lzma2Options::set_dictionary_size(size)`: the options now use a dictionary of this size;
/// level and threads stay.
#[verifier::external_body]
fn set_lzma2_dictionary_size(setup: &mut Lzma2Setup, size: u32)
    requires
        old(setup).coder() is Lzma2,
    ensures
        final(setup).coder() == (CoderView::Lzma2 {
            level: old(setup).coder()->Lzma2_level,
            threads: old(setup).coder()->Lzma2_threads,
            dictionary_size: Some(size),
        }),
{
    let before = setup.model;
    setup.options.set_dictionary_size(size);
    setup.model = Ghost(CoderView::Lzma2 {
        level: before@->Lzma2_level,
        threads: before@->Lzma2_threads,
        dictionary_size: Some(size),
    });
}

/// LZMA2 options made into an encoder configuration (`From<Lzma2Options>`), for the same
/// coder.
#[verifier::external_body]
fn lzma2_configuration(setup: Lzma2Setup) -> (r: EncoderSetup)
    ensures
        r.coder() == setup.coder(),
{
    EncoderSetup { config: setup.options.into(), model: Ghost(setup.model@) }
}

/// `EncoderConfiguration::new(EncoderMethod::LZMA)` with `LzmaOptions::from_level(level)`:
/// LZMA at a level.
#[verifier::external_body]
fn lzma_configuration(level: u32) -> (r: EncoderSetup)
    ensures
        r.coder() == (CoderView::Lzma { level }),
{
    EncoderSetup {
        config: sevenz_rust2::EncoderConfiguration::new(sevenz_rust2::EncoderMethod::LZMA).with_options(
            sevenz_rust2::encoder_options::EncoderOptions::Lzma(
                sevenz_rust2::encoder_options::LzmaOptions::from_level(level),
            ),
        ),
        model: Ghost(CoderView::Lzma { level }),
    }
}

/// The encoder configurations of a 7Z archive with these settings: one for each of its coders,
/// in order, each made from that coder (see `spec_seven_zip_coders`).
pub fn seven_zip_content_methods(settings: &SevenZipCompressSettings) -> (r: Vec<EncoderSetup>)
    ensures
        r@.len() == spec_seven_zip_coders(
            opt_view(settings.password),
            settings.compression_level,
            settings.dictionary_size_mb,
            settings.threads,
            settings.method,
        ).len(),
        forall|i: int|
            0 <= i < r@.len() ==> #[trigger] r@[i].coder() == spec_seven_zip_coders(
                opt_view(settings.password),
                settings.compression_level,
                settings.dictionary_size_mb,
                settings.threads,
                settings.method,
            )[i],
{
    let coders = seven_zip_coders(settings);
    let mut r: Vec<EncoderSetup> = Vec::new();
    let mut i: usize = 0;
    while i < coders.len()
        invariant
            i <= coders.len(),
            r@.len() == i,
            forall|k: int| 0 <= k < i ==> #[trigger] r@[k].coder() == coder_view(coders@[k]),
        decreases coders.len() - i,
    {
        let c = match &coders[i] {
            SevenZipCoder::Aes(p) => aes_configuration(p.as_str()),
            SevenZipCoder::Lzma2 { level, threads, dictionary_size } => {
                let mut o = match threads {
                    Some((t, chunk)) => lzma2_options_mt(*level, *t, *chunk),
                    None => lzma2_options(*level),
                };
                if let Some(size) = dictionary_size {
                    set_lzma2_dictionary_size(&mut o, *size);
                }
                lzma2_configuration(o)
            },
            SevenZipCoder::Lzma { level } => lzma_configuration(*level),
        };
        assert(c.coder() == coder_view(coders@[i as int]));
        r.push(c);
        i = i + 1;
    }
    assert(coders_view(coders@).len() == coders@.len());
    r
}

} // verus!
