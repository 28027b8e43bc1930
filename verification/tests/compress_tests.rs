use packo::compress::{
    check_compress_request, compress_batches, compress_tool, default_test_after_compress,
    seven_zip_coders, seven_zip_content_methods, seven_zip_settings, task_total_bytes,
    task_total_items, CompressAdvancedOptions, CompressOptions, CompressTool, SevenZipCoder,
    SevenZipMethod,
};
use packo::contents::ExtractTaskEntry;

fn options(sources: &[&str], format: &str, name: &str) -> CompressOptions {
    CompressOptions {
        source_paths: sources.iter().map(|s| s.to_string()).collect(),
        output_dir: "/out".to_string(),
        archive_name: name.to_string(),
        format: format.to_string(),
        compression_level: None,
        password: None,
        volume_size_mb: None,
        excluded_paths: Vec::new(),
        skip_ds_store: false,
        advanced: CompressAdvancedOptions::default(),
    }
}

fn task_entry(path: &str, size: u64) -> ExtractTaskEntry {
    ExtractTaskEntry {
        path: path.to_string(),
        display_path: path.to_string(),
        size,
        is_dir: false,
        is_unsafe_path: false,
    }
}

#[test]
fn advanced_options_default_to_testing_the_archive() {
    let a = CompressAdvancedOptions::default();
    assert!(a.test_after_compress);
    assert!(default_test_after_compress());
    assert!(!a.batch_queue);
    assert!(a.method.is_none());
}

#[test]
fn batch_queues_make_one_archive_per_source() {
    let mut o = options(&["/src/alpha.txt", "/src/beta.tar.gz"], "ZIP", "bundle");
    let single = compress_batches(&o);
    assert_eq!(single.len(), 1);
    assert_eq!(single[0].1, "bundle");
    assert_eq!(single[0].0.len(), 2);

    o.advanced.batch_queue = true;
    let batches = compress_batches(&o);
    assert_eq!(batches.len(), 2);
    assert_eq!(batches[0].0, vec!["/src/alpha.txt".to_string()]);
    assert_eq!(batches[0].1, "alpha");
    assert_eq!(batches[1].1, "beta");

    let lone = options(&["/src/only.txt"], "ZIP", "only");
    let mut lone = lone;
    lone.advanced.batch_queue = true;
    assert_eq!(compress_batches(&lone).len(), 1);
}

#[test]
fn compress_requests_are_checked_in_order() {
    let empty = options(&[], "ZIP", "a");
    assert_eq!(
        check_compress_request(&empty, true).unwrap_err(),
        "请先选择要压缩的文件或文件夹。"
    );
    let rar = options(&["/a"], "RAR", "a");
    assert!(check_compress_request(&rar, true).unwrap_err().starts_with("当前仅支持压缩为"));
    let ok = options(&["/a"], " tar.gz ", "  name  ");
    assert_eq!(check_compress_request(&ok, false).unwrap_err(), "保存位置不存在。");
    let q = check_compress_request(&ok, true).unwrap();
    assert_eq!(q.format, "GZ");
    assert_eq!(q.archive_name, "name");
    assert_eq!(q.password, "");
    assert_eq!(q.volume_size_mb, None);

    let mut pw = options(&["/a"], "tar", "n");
    pw.password = Some(" x ".to_string());
    assert_eq!(check_compress_request(&pw, true).unwrap_err(), "当前仅 ZIP 和 7Z 支持压缩密码。");
    let mut vol = options(&["/a"], "tgz", "n");
    vol.volume_size_mb = Some(5);
    assert_eq!(check_compress_request(&vol, true).unwrap_err(), "当前仅 ZIP 和 7Z 支持分卷压缩。");
    let mut zip = options(&["/a"], "zip", "n");
    zip.password = Some(" x ".to_string());
    zip.volume_size_mb = Some(5);
    let q = check_compress_request(&zip, true).unwrap();
    assert_eq!(q.password, "x");
    assert_eq!(q.volume_size_mb, Some(5));
    let bad_name = options(&["/a"], "7z", "a/b");
    assert_eq!(
        check_compress_request(&bad_name, true).unwrap_err(),
        "压缩包名称不能包含路径分隔符。"
    );
}

#[test]
fn tools_follow_formats() {
    assert_eq!(compress_tool("ZIP"), CompressTool::Zip);
    assert_eq!(compress_tool("7Z"), CompressTool::SevenZip);
    assert_eq!(compress_tool("TGZ"), CompressTool::Bsdtar);
}

#[test]
fn task_totals_never_start_at_zero() {
    assert_eq!(task_total_bytes(&[]), 1);
    assert_eq!(task_total_bytes(&[task_entry("a", 3), task_entry("b", 4)]), 7);
    assert_eq!(task_total_items(&[]), 1);
    assert_eq!(task_total_items(&[task_entry("a", 0), task_entry("b", 0)]), 2);
}

#[test]
fn seven_zip_settings_clamp_and_check() {
    let mut o = options(&["/a"], "7Z", "a");
    let s = seven_zip_settings(&o, "").unwrap();
    assert_eq!(s.compression_level, 6);
    assert_eq!(s.threads, 1);
    assert_eq!(s.method, SevenZipMethod::Lzma2);
    assert!(!s.solid);
    assert!(s.password.is_none());

    o.advanced.threads = Some(64);
    o.advanced.method = Some(" lzma ".to_string());
    o.advanced.solid = Some(true);
    let s = seven_zip_settings(&o, "pw").unwrap();
    assert_eq!(s.threads, 32);
    assert_eq!(s.method, SevenZipMethod::Lzma);
    assert!(s.solid);
    assert_eq!(s.password.as_deref(), Some("pw"));

    o.advanced.threads = Some(0);
    assert_eq!(seven_zip_settings(&o, "").unwrap().threads, 1);

    o.compression_level = Some(10);
    assert_eq!(seven_zip_settings(&o, "").unwrap_err(), "7Z 压缩级别必须在 0 到 9 之间。");
    o.compression_level = Some(5);
    o.advanced.method = Some("bzip2".to_string());
    assert_eq!(seven_zip_settings(&o, "").unwrap_err(), "7Z 当前支持 LZMA2 和 LZMA 压缩方法。");
    o.advanced.method = None;
    o.advanced.dictionary_size_mb = Some(2048);
    assert_eq!(
        seven_zip_settings(&o, "").unwrap_err(),
        "7Z 字典大小必须在 1 到 1024 MB 之间。"
    );
}

#[test]
fn seven_zip_coders_put_encryption_first() {
    let mut o = options(&["/a"], "7Z", "a");
    o.advanced.threads = Some(4);
    o.advanced.dictionary_size_mb = Some(64);
    let s = seven_zip_settings(&o, "pw").unwrap();
    let coders = seven_zip_coders(&s);
    assert_eq!(coders.len(), 2);
    assert!(matches!(&coders[0], SevenZipCoder::Aes(p) if p == "pw"));
    match &coders[1] {
        SevenZipCoder::Lzma2 { level, threads, dictionary_size } => {
            assert_eq!(*level, 6);
            assert_eq!(*threads, Some((4, 64 * 1048576)));
            assert_eq!(*dictionary_size, Some(64 * 1048576));
        }
        other => panic!("unexpected coder {other:?}"),
    }
    let methods = seven_zip_content_methods(&s);
    assert_eq!(methods.len(), 2);
    assert_eq!(methods[0].config().method.name(), "AES256_SHA256");
    assert_eq!(methods[1].config().method.name(), "LZMA2");
    let lzma2 = format!("{:?}", methods[1].config().options);
    assert!(lzma2.contains("threads: 4"), "{lzma2}");
    assert!(lzma2.contains(&format!("dict_size: {}", 64 * 1048576)), "{lzma2}");

    o.advanced.method = Some("LZMA".to_string());
    o.advanced.threads = None;
    o.advanced.dictionary_size_mb = None;
    let plain = seven_zip_settings(&o, "").unwrap();
    let coders = seven_zip_coders(&plain);
    assert_eq!(coders.len(), 1);
    assert!(matches!(coders[0], SevenZipCoder::Lzma { level: 6 }));
    let methods = seven_zip_content_methods(&plain);
    assert_eq!(methods.len(), 1);
    assert_eq!(methods[0].config().method.name(), "LZMA");
}
