//! How an archive's integrity is tested, and the names of the temporary folders that work on
//! an archive uses.
use vstd::prelude::*;
use crate::commands::{
    append_archive_extract_password_args, append_archive_password_args, given_password,
    spec_extract_password_args, spec_password_args,
};
use crate::formats::{
    archive_format, is_single_stream_format, name_or_empty, name_or_empty_of,
    single_stream_decompress_command, spec_archive_format, spec_is_single_stream_format,
    spec_single_stream_decompress_command,
};
use crate::names::{sanitize_chars, spec_sanitize_path_segment};
use crate::text::{
    chars_of, decimal, extend_str, opt_str, opt_view, push_decimal, push_string, str_eq,
    string_of, string_views, trim_chars,
};

verus! {

/// A test of an archive: a tool to run (with the words its failure is reported under, when it
/// has them), extracting everything into a temporary folder, or opening it with the 7Z reader
/// (with the password, when there is one).
#[derive(Debug)]
pub enum IntegrityTest {
    Command { program: String, args: Vec<String>, failure: Option<String> },
    ExtractToTemp,
    SevenZip { password: Option<String> },
}

/// The view of a test.
pub enum IntegrityTestView {
    Command { program: Seq<char>, args: Seq<Seq<char>>, failure: Option<Seq<char>> },
    ExtractToTemp,
    SevenZip { password: Option<Seq<char>> },
}

pub open spec fn integrity_test_view(t: IntegrityTest) -> IntegrityTestView {
    match t {
        IntegrityTest::Command { program, args, failure } => IntegrityTestView::Command {
            program: program@,
            args: string_views(args@),
            failure: opt_view(failure),
        },
        IntegrityTest::ExtractToTemp => IntegrityTestView::ExtractToTemp,
        IntegrityTest::SevenZip { password } => IntegrityTestView::SevenZip {
            password: opt_view(password),
        },
    }
}

/// How an archive that a user asks about is tested: a single compressed stream by
/// decompressing it; a split ZIP archive by extracting it; a ZIP archive with `unzip -t`
/// (given the password, or the probe word); a 7Z archive by opening it; anything else by
/// listing it with `bsdtar` (given the password, or the probe word).
pub open spec fn spec_archive_integrity_test(
    path: Seq<char>,
    is_zip_container: bool,
    split_volume_count: nat,
    password: Option<Seq<char>>,
) -> Result<IntegrityTestView, Seq<char>> {
    if spec_is_single_stream_format(path, is_zip_container) {
        match spec_single_stream_decompress_command(path, is_zip_container) {
            Err(m) => Err(m),
            Ok((p, a)) => Ok(IntegrityTestView::Command { program: p, args: a, failure: None }),
        }
    } else {
        let f = spec_archive_format(path, is_zip_container);
        if f == "ZIP"@ && split_volume_count > 1 {
            Ok(IntegrityTestView::ExtractToTemp)
        } else if f == "ZIP"@ {
            Ok(
                IntegrityTestView::Command {
                    program: "unzip"@,
                    args: seq!["-t"@, "-P"@, spec_extract_password_args(password)[1], path],
                    failure: None,
                },
            )
        } else if f == "7Z"@ {
            Ok(IntegrityTestView::SevenZip { password })
        } else {
            Ok(
                IntegrityTestView::Command {
                    program: "bsdtar"@,
                    args: spec_extract_password_args(password) + seq!["-tf"@, path],
                    failure: None,
                },
            )
        }
    }
}

/// How an archive that a user asks about is tested; `split_volume_count` is the number of its
/// volumes.
pub fn archive_integrity_test(
    path: &str,
    is_zip_container: bool,
    split_volume_count: usize,
    password: Option<&str>,
) -> (r: Result<IntegrityTest, String>)
    ensures
        match r {
            Ok(t) => spec_archive_integrity_test(
                path@,
                is_zip_container,
                split_volume_count as nat,
                opt_str(password),
            ) == Ok::<IntegrityTestView, Seq<char>>(integrity_test_view(t)),
            Err(m) => spec_archive_integrity_test(
                path@,
                is_zip_container,
                split_volume_count as nat,
                opt_str(password),
            ) == Err::<IntegrityTestView, Seq<char>>(m@),
        },
{
    if is_single_stream_format(path, is_zip_container) {
        return match single_stream_decompress_command(path, is_zip_container) {
            Err(m) => Err(m),
            Ok((program, args)) => Ok(IntegrityTest::Command { program, args, failure: None }),
        };
    }
    let f = archive_format(path, is_zip_container);
    if str_eq(f.as_str(), "ZIP") && split_volume_count > 1 {
        Ok(IntegrityTest::ExtractToTemp)
    } else if str_eq(f.as_str(), "ZIP") {
        let mut pw: Vec<String> = Vec::new();
        append_archive_extract_password_args(&mut pw, password);
        assert(string_views(pw@) =~= spec_extract_password_args(opt_str(password)));
        let mut args: Vec<String> = Vec::new();
        push_string(&mut args, String::from_str("-t"));
        push_string(&mut args, String::from_str("-P"));
        let value = pw[1].clone();
        push_string(&mut args, value);
        push_string(&mut args, String::from_str(path));
        assert(string_views(args@) =~= seq![
            "-t"@,
            "-P"@,
            spec_extract_password_args(opt_str(password))[1],
            path@,
        ]);
        Ok(IntegrityTest::Command { program: String::from_str("unzip"), args, failure: None })
    } else if str_eq(f.as_str(), "7Z") {
        let password = match password {
            Some(p) => Some(String::from_str(p)),
            None => None,
        };
        Ok(IntegrityTest::SevenZip { password })
    } else {
        let mut args: Vec<String> = Vec::new();
        append_archive_extract_password_args(&mut args, password);
        let ghost before = string_views(args@);
        push_string(&mut args, String::from_str("-tf"));
        push_string(&mut args, String::from_str(path));
        assert(string_views(args@) =~= before + seq!["-tf"@, path@]);
        Ok(IntegrityTest::Command { program: String::from_str("bsdtar"), args, failure: None })
    }
}

/// How a new archive is tested: a ZIP archive with `unzip -t` (with `-P` and the password when
/// there is one), or, when it was written in volumes, by checking its structure with
/// `zip -sf`; a 7Z archive by opening it; anything else by listing it with `bsdtar` (with the
/// password when one is given). A tool's failure is reported under words naming the test.
pub open spec fn spec_compress_output_test(
    format: Seq<char>,
    path: Seq<char>,
    password: Option<Seq<char>>,
    has_volumes: bool,
) -> IntegrityTestView {
    if format == "ZIP"@ {
        if !has_volumes {
            IntegrityTestView::Command {
                program: "unzip"@,
                args: seq!["-t"@] + match password {
                    Some(p) => seq!["-P"@, p],
                    None => Seq::<Seq<char>>::empty(),
                } + seq![path],
                failure: Some("ZIP 完整性测试失败"@),
            }
        } else {
            IntegrityTestView::Command {
                program: "zip"@,
                args: seq!["-sf"@, path],
                failure: Some("ZIP 分卷结构测试失败"@),
            }
        }
    } else if format == "7Z"@ {
        IntegrityTestView::SevenZip { password }
    } else {
        IntegrityTestView::Command {
            program: "bsdtar"@,
            args: spec_password_args(password) + seq!["-tf"@, path],
            failure: Some("压缩包完整性测试失败"@),
        }
    }
}

/// How a new archive is tested.
pub fn compress_output_test(
    format: &str,
    path: &str,
    password: Option<&str>,
    has_volumes: bool,
) -> (r: IntegrityTest)
    ensures
        integrity_test_view(r) == spec_compress_output_test(format@, path@, opt_str(password), has_volumes),
{
    if str_eq(format, "ZIP") {
        if !has_volumes {
            let mut args: Vec<String> = Vec::new();
            push_string(&mut args, String::from_str("-t"));
            if let Some(p) = password {
                push_string(&mut args, String::from_str("-P"));
                push_string(&mut args, String::from_str(p));
            }
            push_string(&mut args, String::from_str(path));
            assert(string_views(args@) =~= seq!["-t"@] + match opt_str(password) {
                Some(p) => seq!["-P"@, p],
                None => Seq::<Seq<char>>::empty(),
            } + seq![path@]);
            IntegrityTest::Command {
                program: String::from_str("unzip"),
                args,
                failure: Some(String::from_str("ZIP 完整性测试失败")),
            }
        } else {
            let mut args: Vec<String> = Vec::new();
            push_string(&mut args, String::from_str("-sf"));
            push_string(&mut args, String::from_str(path));
            assert(string_views(args@) =~= seq!["-sf"@, path@]);
            IntegrityTest::Command {
                program: String::from_str("zip"),
                args,
                failure: Some(String::from_str("ZIP 分卷结构测试失败")),
            }
        }
    } else if str_eq(format, "7Z") {
        let password = match password {
            Some(p) => Some(String::from_str(p)),
            None => None,
        };
        IntegrityTest::SevenZip { password }
    } else {
        let mut args: Vec<String> = Vec::new();
        append_archive_password_args(&mut args, password);
        let ghost before = string_views(args@);
        push_string(&mut args, String::from_str("-tf"));
        push_string(&mut args, String::from_str(path));
        assert(string_views(args@) =~= before + seq!["-tf"@, path@]);
        IntegrityTest::Command {
            program: String::from_str("bsdtar"),
            args,
            failure: Some(String::from_str("压缩包完整性测试失败")),
        }
    }
}

// ---------------------------------------------------------------------------
// Temporary folders
// ---------------------------------------------------------------------------

/// The name of a temporary folder for work on the archive at `path`: its file name made safe,
/// then the time `seed` and a counter `index`: `<name>-<seed>-<index>`.
pub open spec fn spec_temp_work_folder_name(path: Seq<char>, seed: nat, index: nat) -> Seq<char> {
    spec_sanitize_path_segment(name_or_empty(path)) + seq!['-'] + decimal(seed) + seq!['-']
        + decimal(index)
}

/// The name of a temporary folder for work on the archive at `path`.
pub fn temp_work_folder_name(path: &str, seed: u64, index: u64) -> (r: String)
    ensures
        r@ == spec_temp_work_folder_name(path@, seed as nat, index as nat),
{
    let p = chars_of(path);
    let n = name_or_empty_of(&p);
    let mut v = sanitize_chars(&n);
    v.push('-');
    push_decimal(&mut v, seed);
    v.push('-');
    push_decimal(&mut v, index);
    string_of(&v)
}

/// The name of the folder that previews of the archive at `path` go to: its file name made
/// safe and the time it was last changed, `<name>-<modified>`, so that a changed archive gets
/// a new folder.
pub open spec fn spec_preview_folder_name(path: Seq<char>, modified: nat) -> Seq<char> {
    spec_sanitize_path_segment(name_or_empty(path)) + seq!['-'] + decimal(modified)
}

/// The name of the folder that previews of the archive at `path` go to.
pub fn preview_folder_name(path: &str, modified: u64) -> (r: String)
    ensures
        r@ == spec_preview_folder_name(path@, modified as nat),
{
    let p = chars_of(path);
    let n = name_or_empty_of(&p);
    let mut v = sanitize_chars(&n);
    v.push('-');
    push_decimal(&mut v, modified);
    string_of(&v)
}

/// The permission bits a temporary file or folder is given so that its owner can copy it out:
/// none when it already has all of `required`, otherwise its bits with `required` added. The
/// new bits always hold `required` and keep every bit it had.
pub fn owner_permissions_fix(mode: u32, required: u32) -> (r: Option<u32>)
    ensures
        match r {
            None => mode & required == required,
            Some(m) => mode & required != required && m == mode | required && m & required
                == required && m & mode == mode,
        },
{
    if mode & required == required {
        None
    } else {
        let m = mode | required;
        assert(m & required == required && m & mode == mode) by (bit_vector)
            requires
                m == mode | required,
        ;
        Some(m)
    }
}

} // verus!
