//! The plan of a compression: the entries it counts, the sources relative to the folder they
//! share, and the tool that runs with its arguments.
use vstd::prelude::*;
use crate::commands::{
    append_ds_store_exclude_patterns, append_macos_metadata_exclude_patterns,
    bsdtar_compress_args, ds_store_patterns, macos_metadata_patterns, spec_bsdtar_compress_args,
    spec_zip_compress_args, zip_compress_args,
};
use crate::compress::{
    entries_size, seven_zip_settings, settings_view, spec_seven_zip_settings, task_total_bytes,
    CompressOptions, CompressRequest, SevenZipCompressSettings,
};
use crate::contents::{copy_task_entry, ExtractTaskEntry};
use crate::entries::{normalize_archive_entry_key, spec_normalize_archive_entry_key};
use crate::sources::{
    is_ds_store_path, is_macos_metadata_path, is_path_excluded, spec_is_ds_store_path,
    spec_is_macos_metadata_path, spec_is_path_excluded, spec_strip_path_prefix, strip_path_prefix,
};
use crate::text::{
    chars_of, extend_str, opt_view, push_string, replace_char, replace_char_chars, str_eq,
    string_of, string_views,
};

verus! {

/// The view of an entry: its path, the path it is shown under, its size, whether it is a
/// folder, and whether its path is unsafe.
pub type TaskEntryView = (Seq<char>, Seq<char>, u64, bool, bool);

pub open spec fn task_entry_view(e: ExtractTaskEntry) -> TaskEntryView {
    (e.path@, e.display_path@, e.size, e.is_dir, e.is_unsafe_path)
}

pub open spec fn task_entries_view(v: Seq<ExtractTaskEntry>) -> Seq<TaskEntryView> {
    Seq::new(v.len(), |i: int| task_entry_view(v[i]))
}

// ---------------------------------------------------------------------------
// The entries a compression counts
// ---------------------------------------------------------------------------

/// The entry that a path to compress gives: refused when it does not exist; none when it is
/// excluded, a `.DS_Store` file or macOS metadata that is to be left out; refused when it does
/// not lie in the shared folder; otherwise shown under its path relative to that folder (with
/// `/` for `\`), keyed by that path, one byte for anything but a file (a file counts its
/// length, at least one byte).
pub open spec fn spec_compress_entry(
    path: Seq<char>,
    common_parent: Seq<char>,
    excluded: Seq<Seq<char>>,
    skip_ds_store: bool,
    skip_macos_metadata: bool,
    exists: bool,
    is_file: bool,
    is_dir: bool,
    len: u64,
) -> Result<Option<TaskEntryView>, Seq<char>> {
    if !exists {
        Err("找不到文件："@ + path)
    } else if spec_is_path_excluded(path, excluded) || spec_is_ds_store_path(path, skip_ds_store)
        || spec_is_macos_metadata_path(path, skip_macos_metadata) {
        Ok(None)
    } else {
        match spec_strip_path_prefix(path, common_parent) {
            None => Err("无法计算压缩路径。"@),
            Some(rel) => {
                let d = replace_char(rel, '\\', '/');
                Ok(
                    Some(
                        (
                            spec_normalize_archive_entry_key(d),
                            d,
                            if is_file {
                                if len == 0 {
                                    1u64
                                } else {
                                    len
                                }
                            } else {
                                1u64
                            },
                            is_dir,
                            false,
                        ),
                    ),
                )
            },
        }
    }
}

/// The entry that a path to compress gives; `exists`, `is_file`, `is_dir` and `len` say what
/// is on disk at the path (without following a link). A folder's children are then looked at
/// the same way, when the folder gives an entry.
pub fn compress_entry(
    path: &str,
    common_parent: &str,
    excluded_paths: &Vec<String>,
    skip_ds_store: bool,
    skip_macos_metadata: bool,
    exists: bool,
    is_file: bool,
    is_dir: bool,
    len: u64,
) -> (r: Result<Option<ExtractTaskEntry>, String>)
    ensures
        match r {
            Ok(Some(e)) => spec_compress_entry(
                path@,
                common_parent@,
                string_views(excluded_paths@),
                skip_ds_store,
                skip_macos_metadata,
                exists,
                is_file,
                is_dir,
                len,
            ) == Ok::<Option<TaskEntryView>, Seq<char>>(Some(task_entry_view(e))),
            Ok(None) => spec_compress_entry(
                path@,
                common_parent@,
                string_views(excluded_paths@),
                skip_ds_store,
                skip_macos_metadata,
                exists,
                is_file,
                is_dir,
                len,
            ) == Ok::<Option<TaskEntryView>, Seq<char>>(None),
            Err(m) => spec_compress_entry(
                path@,
                common_parent@,
                string_views(excluded_paths@),
                skip_ds_store,
                skip_macos_metadata,
                exists,
                is_file,
                is_dir,
                len,
            ) == Err::<Option<TaskEntryView>, Seq<char>>(m@),
        },
{
    if !exists {
        let mut m = chars_of("找不到文件：");
        extend_str(&mut m, path);
        return Err(string_of(&m));
    }
    if is_path_excluded(path, excluded_paths) || is_ds_store_path(path, skip_ds_store)
        || is_macos_metadata_path(path, skip_macos_metadata) {
        return Ok(None);
    }
    let rel = match strip_path_prefix(path, common_parent) {
        Some(r) => r,
        None => return Err(String::from_str("无法计算压缩路径。")),
    };
    let rc = chars_of(rel.as_str());
    let d = string_of(&replace_char_chars(&rc, '\\', '/'));
    let key = normalize_archive_entry_key(d.as_str());
    let size: u64 = if is_file {
        if len == 0 {
            1
        } else {
            len
        }
    } else {
        1
    };
    Ok(Some(ExtractTaskEntry { path: key, display_path: d, size, is_dir, is_unsafe_path: false }))
}

/// The entries a compression counts: those collected, or one placeholder (`压缩包`, one byte)
/// when there are none.
pub open spec fn spec_compress_entries_or_placeholder(es: Seq<TaskEntryView>) -> Seq<
    TaskEntryView,
> {
    if es.len() == 0 {
        seq![("压缩包"@, "压缩包"@, 1u64, false, false)]
    } else {
        es
    }
}

/// The entries a compression counts: those collected, or one placeholder.
pub fn compress_entries_or_placeholder(entries: Vec<ExtractTaskEntry>) -> (r: Vec<
    ExtractTaskEntry,
>)
    ensures
        task_entries_view(r@) == spec_compress_entries_or_placeholder(task_entries_view(entries@)),
{
    if entries.len() == 0 {
        let mut r: Vec<ExtractTaskEntry> = Vec::new();
        r.push(
            ExtractTaskEntry {
                path: String::from_str("压缩包"),
                display_path: String::from_str("压缩包"),
                size: 1,
                is_dir: false,
                is_unsafe_path: false,
            },
        );
        assert(task_entries_view(r@) =~= seq![("压缩包"@, "压缩包"@, 1u64, false, false)]);
        r
    } else {
        entries
    }
}

// ---------------------------------------------------------------------------
// The sources relative to the folder they share
// ---------------------------------------------------------------------------

/// The sources relative to the folder they share, in order: refused at the first source that
/// does not exist (naming it) or does not lie in that folder.
pub open spec fn relative_sources_after(
    sources: Seq<Seq<char>>,
    exists: Seq<bool>,
    common_parent: Seq<char>,
    n: int,
) -> Result<Seq<Seq<char>>, Seq<char>>
    decreases n,
{
    if n <= 0 {
        Ok(Seq::<Seq<char>>::empty())
    } else {
        match relative_sources_after(sources, exists, common_parent, n - 1) {
            Err(m) => Err(m),
            Ok(rs) => if !exists[n - 1] {
                Err("找不到文件："@ + sources[n - 1])
            } else {
                match spec_strip_path_prefix(sources[n - 1], common_parent) {
                    None => Err("无法计算压缩路径。"@),
                    Some(rel) => Ok(rs.push(rel)),
                }
            },
        }
    }
}

proof fn lemma_relative_error_stays(
    sources: Seq<Seq<char>>,
    exists: Seq<bool>,
    common_parent: Seq<char>,
    k: int,
    n: int,
)
    requires
        0 <= k <= n,
        relative_sources_after(sources, exists, common_parent, k) is Err,
    ensures
        relative_sources_after(sources, exists, common_parent, n) == relative_sources_after(
            sources,
            exists,
            common_parent,
            k,
        ),
    decreases n - k,
{
    if k < n {
        lemma_relative_error_stays(sources, exists, common_parent, k, n - 1);
    }
}

/// The sources relative to the folder they share.
pub open spec fn spec_relative_source_paths(
    sources: Seq<Seq<char>>,
    exists: Seq<bool>,
    common_parent: Seq<char>,
) -> Result<Seq<Seq<char>>, Seq<char>> {
    relative_sources_after(sources, exists, common_parent, sources.len() as int)
}

/// The sources relative to the folder they share; `exists` says, for each source, whether it
/// exists.
pub fn relative_source_paths(
    sources: &Vec<String>,
    exists: &Vec<bool>,
    common_parent: &str,
) -> (r: Result<Vec<String>, String>)
    requires
        exists@.len() == sources@.len(),
    ensures
        match r {
            Ok(v) => spec_relative_source_paths(string_views(sources@), exists@, common_parent@)
                == Ok::<Seq<Seq<char>>, Seq<char>>(string_views(v@)),
            Err(m) => spec_relative_source_paths(string_views(sources@), exists@, common_parent@)
                == Err::<Seq<Seq<char>>, Seq<char>>(m@),
        },
{
    let ghost sv = string_views(sources@);
    let mut r: Vec<String> = Vec::new();
    assert(string_views(r@) =~= Seq::<Seq<char>>::empty());
    let mut i: usize = 0;
    while i < sources.len()
        invariant
            i <= sources.len(),
            r@.len() == i,
            exists@.len() == sources@.len(),
            sv == string_views(sources@),
            relative_sources_after(sv, exists@, common_parent@, i as int) == Ok::<
                Seq<Seq<char>>,
                Seq<char>,
            >(string_views(r@)),
        decreases sources.len() - i,
    {
        if !exists[i] {
            let mut m = chars_of("找不到文件：");
            extend_str(&mut m, sources[i].as_str());
            proof {
                lemma_relative_error_stays(sv, exists@, common_parent@, i + 1, sv.len() as int);
            }
            return Err(string_of(&m));
        }
        match strip_path_prefix(sources[i].as_str(), common_parent) {
            None => {
                proof {
                    lemma_relative_error_stays(sv, exists@, common_parent@, i + 1, sv.len() as int);
                }
                return Err(String::from_str("无法计算压缩路径。"));
            },
            Some(rel) => {
                let ghost before = string_views(r@);
                push_string(&mut r, rel);
                assert(string_views(r@) =~= before.push(r@[i as int]@));
            },
        }
        i = i + 1;
    }
    Ok(r)
}

// ---------------------------------------------------------------------------
// The plan
// ---------------------------------------------------------------------------

/// The tool a compression runs: a program with its arguments (run in a folder when given, and
/// told not to write macOS metadata when asked), or the 7Z encoder over the sources.
#[derive(Debug)]
pub enum CompressRunner {
    Command {
        program: String,
        args: Vec<String>,
        current_dir: Option<String>,
        disable_macos_metadata: bool,
    },
    SevenZip { common_parent: String, source_paths: Vec<String>, settings: SevenZipCompressSettings },
}

/// A compression, ready to run.
#[derive(Debug)]
pub struct CompressPlan {
    pub runner: CompressRunner,
    /// Where the archive ends up.
    pub output_path: String,
    /// Where the tool writes it.
    pub work_output_path: String,
    pub entries: Vec<ExtractTaskEntry>,
    pub total_bytes: u64,
    pub format: String,
    pub password: Option<String>,
    pub volume_size_mb: Option<u64>,
    pub test_after_compress: bool,
}

/// The patterns that leave things out of the archive: the excluded paths', then `.DS_Store`
/// files' and macOS metadata's when those are to be left out.
pub open spec fn plan_patterns(
    excluded: Seq<Seq<char>>,
    skip_ds_store: bool,
    skip_macos_metadata: bool,
) -> Seq<Seq<char>> {
    excluded + (if skip_ds_store {
        ds_store_patterns()
    } else {
        Seq::<Seq<char>>::empty()
    }) + (if skip_macos_metadata {
        macos_metadata_patterns()
    } else {
        Seq::<Seq<char>>::empty()
    })
}

/// The view of a runner: `Ok` with a program, its arguments, its folder and whether macOS
/// metadata is left out; `Err` with the 7Z encoder's shared folder, sources and settings.
pub type RunnerView = Result<
    (Seq<char>, Seq<Seq<char>>, Option<Seq<char>>, bool),
    (Seq<char>, Seq<Seq<char>>, (Option<Seq<char>>, u8, Option<u32>, u32, bool, crate::compress::SevenZipMethod)),
>;

pub open spec fn runner_view(r: CompressRunner) -> RunnerView {
    match r {
        CompressRunner::Command { program, args, current_dir, disable_macos_metadata } => Ok(
            (program@, string_views(args@), opt_view(current_dir), disable_macos_metadata),
        ),
        CompressRunner::SevenZip { common_parent, source_paths, settings } => Err(
            (common_parent@, string_views(source_paths@), settings_view(settings)),
        ),
    }
}

/// The tool that a checked request runs: `zip` in the shared folder for ZIP, the 7Z encoder
/// for 7Z, and `bsdtar` for the others, each writing to `work_output`; refused when the
/// tool's settings are.
pub open spec fn spec_plan_runner(
    format: Seq<char>,
    password: Seq<char>,
    volume_size_mb: Option<u64>,
    level: Option<u8>,
    sources: Seq<Seq<char>>,
    method: Option<Seq<char>>,
    threads: Option<u32>,
    dictionary_size_mb: Option<u32>,
    solid: Option<bool>,
    skip_macos_metadata: bool,
    work_output: Seq<char>,
    common_parent: Seq<char>,
    relative_sources: Seq<Seq<char>>,
    patterns: Seq<Seq<char>>,
) -> Result<RunnerView, Seq<char>> {
    if format == "ZIP"@ {
        match spec_zip_compress_args(work_output, relative_sources, patterns, level, password, volume_size_mb) {
            Err(m) => Err(m),
            Ok(a) => Ok(Ok(("zip"@, a, Some(common_parent), skip_macos_metadata))),
        }
    } else if format == "7Z"@ {
        match spec_seven_zip_settings(level, method, threads, dictionary_size_mb, solid, password) {
            Err(m) => Err(m),
            Ok(s) => Ok(Err((common_parent, sources, s))),
        }
    } else {
        match spec_bsdtar_compress_args(format, work_output, common_parent, relative_sources, patterns, level) {
            Err(m) => Err(m),
            Ok(a) => Ok(Ok(("bsdtar"@, a, None, skip_macos_metadata))),
        }
    }
}

/// A checked request made into a plan, given where the archive goes (`output_path`) and is
/// written (`work_output_path`), the folder the sources share, the entries to count, the
/// sources relative to that folder, and the excluded paths' patterns.
pub fn build_compress_plan(
    options: &CompressOptions,
    request: CompressRequest,
    output_path: String,
    work_output_path: String,
    common_parent: String,
    entries: Vec<ExtractTaskEntry>,
    relative_sources: &Vec<String>,
    excluded_patterns: Vec<String>,
) -> (r: Result<CompressPlan, String>)
    requires
        entries_size(entries@) <= u64::MAX,
    ensures
        match r {
            Ok(p) => {
                &&& spec_plan_runner(
                    request.format@,
                    request.password@,
                    request.volume_size_mb,
                    options.compression_level,
                    string_views(options.source_paths@),
                    opt_view(options.advanced.method),
                    options.advanced.threads,
                    options.advanced.dictionary_size_mb,
                    options.advanced.solid,
                    options.advanced.skip_macos_metadata,
                    work_output_path@,
                    common_parent@,
                    string_views(relative_sources@),
                    plan_patterns(
                        string_views(excluded_patterns@),
                        options.skip_ds_store,
                        options.advanced.skip_macos_metadata,
                    ),
                ) == Ok::<RunnerView, Seq<char>>(runner_view(p.runner))
                &&& p.output_path@ == output_path@
                &&& p.work_output_path@ == work_output_path@
                &&& p.entries@ == entries@
                &&& p.total_bytes == if entries_size(entries@) == 0 {
                    1
                } else {
                    entries_size(entries@)
                }
                &&& p.format@ == request.format@
                &&& opt_view(p.password) == if request.password@.len() > 0 {
                    Some(request.password@)
                } else {
                    None
                }
                &&& p.volume_size_mb == request.volume_size_mb
                &&& p.test_after_compress == options.advanced.test_after_compress
            },
            Err(m) => spec_plan_runner(
                request.format@,
                request.password@,
                request.volume_size_mb,
                options.compression_level,
                string_views(options.source_paths@),
                opt_view(options.advanced.method),
                options.advanced.threads,
                options.advanced.dictionary_size_mb,
                options.advanced.solid,
                options.advanced.skip_macos_metadata,
                work_output_path@,
                common_parent@,
                string_views(relative_sources@),
                plan_patterns(
                    string_views(excluded_patterns@),
                    options.skip_ds_store,
                    options.advanced.skip_macos_metadata,
                ),
            ) == Err::<RunnerView, Seq<char>>(m@),
        },
{
    let skip_mac = options.advanced.skip_macos_metadata;
    let mut patterns = excluded_patterns;
    let ghost ex = string_views(patterns@);
    if options.skip_ds_store {
        append_ds_store_exclude_patterns(&mut patterns);
    }
    let ghost mid = string_views(patterns@);
    if skip_mac {
        append_macos_metadata_exclude_patterns(&mut patterns);
    }
    assert(string_views(patterns@) =~= plan_patterns(ex, options.skip_ds_store, skip_mac)) by {
        assert(mid =~= ex + (if options.skip_ds_store {
            ds_store_patterns()
        } else {
            Seq::<Seq<char>>::empty()
        }));
    }
    let total_bytes = task_total_bytes(entries.as_slice());
    let has_password = chars_of(request.password.as_str()).len() > 0;
    let password = if has_password {
        Some(request.password.clone())
    } else {
        None
    };
    let runner = if str_eq(request.format.as_str(), "ZIP") {
        let args = match zip_compress_args(
            work_output_path.as_str(),
            relative_sources,
            &patterns,
            options.compression_level,
            request.password.as_str(),
            request.volume_size_mb,
        ) {
            Ok(a) => a,
            Err(m) => return Err(m),
        };
        CompressRunner::Command {
            program: String::from_str("zip"),
            args,
            current_dir: Some(common_parent),
            disable_macos_metadata: skip_mac,
        }
    } else if str_eq(request.format.as_str(), "7Z") {
        let settings = match seven_zip_settings(options, request.password.as_str()) {
            Ok(s) => s,
            Err(m) => return Err(m),
        };
        let mut sources: Vec<String> = Vec::new();
        let mut i: usize = 0;
        while i < options.source_paths.len()
            invariant
                i <= options.source_paths.len(),
                string_views(sources@) == string_views(options.source_paths@).take(i as int),
            decreases options.source_paths.len() - i,
        {
            push_string(&mut sources, options.source_paths[i].clone());
            assert(string_views(options.source_paths@).take(i + 1) == string_views(
                options.source_paths@,
            ).take(i as int).push(options.source_paths@[i as int]@));
            i = i + 1;
        }
        assert(string_views(options.source_paths@).take(options.source_paths.len() as int)
            == string_views(options.source_paths@));
        CompressRunner::SevenZip { common_parent, source_paths: sources, settings }
    } else {
        let args = match bsdtar_compress_args(
            request.format.as_str(),
            work_output_path.as_str(),
            common_parent.as_str(),
            relative_sources,
            &patterns,
            options.compression_level,
        ) {
            Ok(a) => a,
            Err(m) => return Err(m),
        };
        CompressRunner::Command {
            program: String::from_str("bsdtar"),
            args,
            current_dir: None,
            disable_macos_metadata: skip_mac,
        }
    };
    Ok(
        CompressPlan {
            runner,
            output_path,
            work_output_path,
            entries,
            total_bytes,
            format: request.format,
            password,
            volume_size_mb: request.volume_size_mb,
            test_after_compress: options.advanced.test_after_compress,
        },
    )
}

// ---------------------------------------------------------------------------
// The task of a compression
// ---------------------------------------------------------------------------

/// The items a compression of several plans counts: each plan's entries, at least one.
pub open spec fn plans_items(ps: Seq<CompressPlan>) -> nat
    decreases ps.len(),
{
    if ps.len() == 0 {
        0
    } else {
        plans_items(ps.drop_last()) + if ps.last().entries@.len() == 0 {
            1
        } else {
            ps.last().entries@.len()
        }
    }
}

/// The bytes a compression of several plans counts: each plan's bytes, at least one.
pub open spec fn plans_bytes(ps: Seq<CompressPlan>) -> nat
    decreases ps.len(),
{
    if ps.len() == 0 {
        0
    } else {
        plans_bytes(ps.drop_last()) + if ps.last().total_bytes == 0 {
            1
        } else {
            ps.last().total_bytes as nat
        }
    }
}

proof fn lemma_plan_totals_prefix(ps: Seq<CompressPlan>, i: int)
    requires
        0 <= i <= ps.len(),
    ensures
        plans_items(ps.take(i)) <= plans_items(ps),
        plans_bytes(ps.take(i)) <= plans_bytes(ps),
    decreases ps.len() - i,
{
    if i < ps.len() {
        lemma_plan_totals_prefix(ps, i + 1);
        assert(ps.take(i + 1).drop_last() == ps.take(i));
    } else {
        assert(ps.take(i) == ps);
    }
}

/// Whether the items and bytes of several plans can be counted.
pub fn compress_totals_fit(plans: &Vec<CompressPlan>) -> (r: bool)
    ensures
        r == (plans_items(plans@) <= usize::MAX && plans_bytes(plans@) <= u64::MAX),
{
    let mut items: usize = 0;
    let mut bytes: u64 = 0;
    let mut i: usize = 0;
    while i < plans.len()
        invariant
            i <= plans.len(),
            items == plans_items(plans@.take(i as int)),
            bytes == plans_bytes(plans@.take(i as int)),
        decreases plans.len() - i,
    {
        assert(plans@.take(i + 1).drop_last() == plans@.take(i as int));
        let n = plans[i].entries.len();
        let k = if n == 0 {
            1
        } else {
            n
        };
        let b = if plans[i].total_bytes == 0 {
            1
        } else {
            plans[i].total_bytes
        };
        match (items.checked_add(k), bytes.checked_add(b)) {
            (Some(x), Some(y)) => {
                items = x;
                bytes = y;
            },
            _ => {
                proof {
                    lemma_plan_totals_prefix(plans@, i + 1);
                }
                return false;
            },
        }
        i = i + 1;
    }
    assert(plans@.take(plans.len() as int) == plans@);
    true
}

/// Where a compression of several plans reports its output: the one plan's archive, or the
/// folder they are saved in.
pub open spec fn compress_task_output(ps: Seq<CompressPlan>, output_dir: Seq<char>) -> Seq<char> {
    if ps.len() == 1 {
        ps[0].output_path@
    } else {
        crate::text::trim(output_dir)
    }
}

/// A compression task over several plans, as it starts: its items and bytes counted (at least
/// one each), its output, and the output's file name (`压缩包` without one) as the current
/// item with all the bytes as its size.
pub fn new_compress_task(plans: &Vec<CompressPlan>, output_dir: &str) -> (s: crate::task::ExtractTaskState)
    requires
        plans_items(plans@) <= usize::MAX,
        plans_bytes(plans@) <= u64::MAX,
    ensures
        s.wf(),
        s.status == crate::task::TaskStatus::Running,
        s.total == if plans_items(plans@) == 0 {
            1
        } else {
            plans_items(plans@)
        },
        s.total_bytes == if plans_bytes(plans@) == 0 {
            1
        } else {
            plans_bytes(plans@)
        },
        s.completed == 0,
        s.completed_bytes == 0,
        s.current_bytes == 0,
        s.current_total_bytes == s.total_bytes,
        s.output_path@ == compress_task_output(plans@, output_dir@),
        s.current_item@ == match crate::paths::file_name(compress_task_output(plans@, output_dir@)) {
            Some(n) => n,
            None => "压缩包"@,
        },
        s.message@ == "正在创建压缩任务。"@,
        s.error is None,
        !s.cancel_requested,
        !s.pause_requested,
        s.child_pid is None,
{
    let mut items: usize = 0;
    let mut bytes: u64 = 0;
    let mut i: usize = 0;
    while i < plans.len()
        invariant
            i <= plans.len(),
            plans_items(plans@) <= usize::MAX,
            plans_bytes(plans@) <= u64::MAX,
            items == plans_items(plans@.take(i as int)),
            bytes == plans_bytes(plans@.take(i as int)),
        decreases plans.len() - i,
    {
        proof {
            lemma_plan_totals_prefix(plans@, i + 1);
        }
        assert(plans@.take(i + 1).drop_last() == plans@.take(i as int));
        let n = plans[i].entries.len();
        items = items + if n == 0 {
            1
        } else {
            n
        };
        bytes = bytes + if plans[i].total_bytes == 0 {
            1
        } else {
            plans[i].total_bytes
        };
        i = i + 1;
    }
    assert(plans@.take(plans.len() as int) == plans@);
    let output = if plans.len() == 1 {
        plans[0].output_path.clone()
    } else {
        crate::text::trim_str(output_dir)
    };
    let oc = chars_of(output.as_str());
    let item = match crate::paths::file_name_of(&oc) {
        Some(n) => string_of(&n),
        None => String::from_str("压缩包"),
    };
    let total = if items == 0 {
        1
    } else {
        items
    };
    let total_bytes = if bytes == 0 {
        1
    } else {
        bytes
    };
    crate::task::ExtractTaskState::new_compress(total, total_bytes, output, item)
}

} // verus!
