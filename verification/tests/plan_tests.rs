use packo::compress::{check_compress_request, CompressAdvancedOptions, CompressOptions};
use packo::contents::ArchiveEntry;
use packo::listing::single_stream_entry;
use packo::plans::{
    build_compress_plan, compress_entries_or_placeholder, compress_entry, relative_source_paths,
    CompressRunner,
};
use packo::properties::{count_entry_kinds, mark_encrypted_files};

fn strings(v: &[&str]) -> Vec<String> {
    v.iter().map(|s| s.to_string()).collect()
}

fn options(sources: &[&str], format: &str) -> CompressOptions {
    CompressOptions {
        source_paths: strings(sources),
        output_dir: "/out".to_string(),
        archive_name: "bundle".to_string(),
        format: format.to_string(),
        compression_level: None,
        password: None,
        volume_size_mb: None,
        excluded_paths: Vec::new(),
        skip_ds_store: false,
        advanced: CompressAdvancedOptions::default(),
    }
}

#[test]
fn compress_entries_follow_the_shared_folder() {
    let excluded = strings(&["/src/dir/skip"]);
    let e = compress_entry("/src/dir/a.txt", "/src", &excluded, false, false, true, true, false, 0)
        .unwrap()
        .unwrap();
    assert_eq!(e.path, "dir/a.txt");
    assert_eq!(e.display_path, "dir/a.txt");
    assert_eq!(e.size, 1);
    assert!(!e.is_dir);
    let d = compress_entry("/src/dir", "/src", &excluded, false, false, true, false, true, 4096)
        .unwrap()
        .unwrap();
    assert_eq!(d.size, 1);
    assert!(d.is_dir);
    assert!(compress_entry("/src/dir/skip/x", "/src", &excluded, false, false, true, true, false, 3)
        .unwrap()
        .is_none());
    assert!(compress_entry("/src/.DS_Store", "/src", &excluded, true, false, true, true, false, 3)
        .unwrap()
        .is_none());
    assert!(compress_entry("/src/__MACOSX", "/src", &excluded, false, true, true, false, true, 0)
        .unwrap()
        .is_none());
    assert_eq!(
        compress_entry("/src/gone", "/src", &excluded, false, false, false, false, false, 0)
            .unwrap_err(),
        "找不到文件：/src/gone"
    );
    assert_eq!(
        compress_entry("/elsewhere/x", "/src", &excluded, false, false, true, true, false, 9)
            .unwrap_err(),
        "无法计算压缩路径。"
    );
    let none = compress_entries_or_placeholder(Vec::new());
    assert_eq!(none.len(), 1);
    assert_eq!(none[0].path, "压缩包");
    assert_eq!(none[0].size, 1);
    let kept = compress_entries_or_placeholder(vec![e]);
    assert_eq!(kept[0].path, "dir/a.txt");
}

#[test]
fn sources_are_made_relative() {
    assert_eq!(
        relative_source_paths(&strings(&["/s/a", "/s/b/c"]), &vec![true, true], "/s"),
        Ok(strings(&["a", "b/c"]))
    );
    assert_eq!(
        relative_source_paths(&strings(&["/s/a", "/s/b"]), &vec![true, false], "/s"),
        Err("找不到文件：/s/b".to_string())
    );
    assert_eq!(
        relative_source_paths(&strings(&["/t/a"]), &vec![true], "/s"),
        Err("无法计算压缩路径。".to_string())
    );
}

#[test]
fn plans_pick_the_tool_for_the_format() {
    let mut o = options(&["/s/a"], "zip");
    o.skip_ds_store = true;
    o.password = Some(" pw ".to_string());
    let q = check_compress_request(&o, true).unwrap();
    let entries = vec![compress_entry("/s/a", "/s", &Vec::new(), false, false, true, true, false, 9)
        .unwrap()
        .unwrap()];
    let plan = build_compress_plan(
        &o,
        q,
        "/out/bundle.zip".to_string(),
        "/out/bundle.zip".to_string(),
        "/s".to_string(),
        entries,
        &strings(&["a"]),
        strings(&["x", "x/*"]),
    )
    .unwrap();
    assert_eq!(plan.total_bytes, 9);
    assert_eq!(plan.format, "ZIP");
    assert_eq!(plan.password.as_deref(), Some("pw"));
    assert!(plan.test_after_compress);
    match &plan.runner {
        CompressRunner::Command { program, args, current_dir, disable_macos_metadata } => {
            assert_eq!(program, "zip");
            assert_eq!(
                args,
                &strings(&["-r", "-P", "pw", "/out/bundle.zip", "a", "-x", "x", "x/*", ".DS_Store", "*/.DS_Store"])
            );
            assert_eq!(current_dir.as_deref(), Some("/s"));
            assert!(!disable_macos_metadata);
        }
        other => panic!("unexpected runner {other:?}"),
    }

    let mut t = options(&["/s/a"], "tgz");
    t.advanced.skip_macos_metadata = true;
    let q = check_compress_request(&t, true).unwrap();
    let plan = build_compress_plan(
        &t,
        q,
        "/out/bundle.tar.gz".to_string(),
        "/out/bundle.tar.gz".to_string(),
        "/s".to_string(),
        Vec::new(),
        &strings(&["a"]),
        Vec::new(),
    )
    .unwrap();
    assert_eq!(plan.total_bytes, 1);
    assert_eq!(plan.password, None);
    match &plan.runner {
        CompressRunner::Command { program, args, current_dir, disable_macos_metadata } => {
            assert_eq!(program, "bsdtar");
            assert_eq!(args[0], "--exclude");
            assert_eq!(args[1], "__MACOSX");
            assert_eq!(args.len(), 12 + 5);
            assert!(current_dir.is_none());
            assert!(*disable_macos_metadata);
        }
        other => panic!("unexpected runner {other:?}"),
    }

    let s = options(&["/s/a", "/s/b"], "7z");
    let q = check_compress_request(&s, true).unwrap();
    let plan = build_compress_plan(
        &s,
        q,
        "/out/bundle.7z".to_string(),
        "/out/bundle.7z".to_string(),
        "/s".to_string(),
        Vec::new(),
        &strings(&["a", "b"]),
        Vec::new(),
    )
    .unwrap();
    match &plan.runner {
        CompressRunner::SevenZip { common_parent, source_paths, settings } => {
            assert_eq!(common_parent, "/s");
            assert_eq!(source_paths, &strings(&["/s/a", "/s/b"]));
            assert_eq!(settings.compression_level, 6);
        }
        other => panic!("unexpected runner {other:?}"),
    }

    let mut bad = options(&["/s/a"], "zip");
    bad.compression_level = Some(11);
    let q = check_compress_request(&bad, true).unwrap();
    assert_eq!(
        build_compress_plan(&bad, q, String::new(), String::new(), "/s".to_string(), Vec::new(), &Vec::new(), Vec::new())
            .unwrap_err(),
        "ZIP 压缩级别必须在 0 到 9 之间。"
    );
}

fn entry(path: &str, kind: &str) -> ArchiveEntry {
    ArchiveEntry {
        name: path.to_string(),
        path: path.to_string(),
        kind: kind.to_string(),
        type_label: String::new(),
        size: 1,
        modified_label: "-".to_string(),
        crc: None,
        method: None,
        is_encrypted: false,
        is_hidden: false,
        is_executable: false,
        is_unsafe_path: false,
    }
}

#[test]
fn listings_are_counted_and_marked() {
    let mut entries = vec![entry("d/", "folder"), entry("d/a.txt", "text"), entry("b.png", "image")];
    assert_eq!(count_entry_kinds(&entries), (2, 1));
    mark_encrypted_files(&mut entries, false);
    assert!(entries.iter().all(|e| !e.is_encrypted));
    mark_encrypted_files(&mut entries, true);
    assert!(!entries[0].is_encrypted);
    assert!(entries[1].is_encrypted);
    assert!(entries[2].is_encrypted);
}

#[test]
fn single_streams_list_their_output() {
    let e = single_stream_entry("/x/note.txt.gz", false, 42, "2024年5月6日 00:00".to_string());
    assert_eq!(e.name, "note.txt");
    assert_eq!(e.path, "note.txt");
    assert_eq!(e.size, 42);
    assert_eq!(e.method.as_deref(), Some("GZ"));
    assert_eq!(e.modified_label, "2024年5月6日 00:00");
    assert!(!e.is_executable);
}

#[test]
fn compression_tasks_count_every_plan() {
    let o = options(&["/s/a"], "tar");
    let make = |name: &str, entries: Vec<packo::contents::ExtractTaskEntry>| {
        let q = check_compress_request(&o, true).unwrap();
        build_compress_plan(
            &o,
            q,
            format!("/out/{name}"),
            format!("/out/{name}"),
            "/s".to_string(),
            entries,
            &strings(&["a"]),
            Vec::new(),
        )
        .unwrap()
    };
    let e = |size: u64| {
        compress_entry("/s/a", "/s", &Vec::new(), false, false, true, true, false, size)
            .unwrap()
            .unwrap()
    };
    let plans = vec![make("a.tar", vec![e(5), e(7)]), make("b.tar", Vec::new())];
    assert!(packo::plans::compress_totals_fit(&plans));
    let s = packo::plans::new_compress_task(&plans, " /out ");
    assert_eq!(s.total, 3);
    assert_eq!(s.total_bytes, 13);
    assert_eq!(s.output_path, "/out");
    assert_eq!(s.current_item, "out");
    assert_eq!(s.current_total_bytes, 13);
    assert_eq!(s.message, "正在创建压缩任务。");

    let one = vec![make("c.tar", vec![e(3)])];
    let s = packo::plans::new_compress_task(&one, "/out");
    assert_eq!(s.output_path, "/out/c.tar");
    assert_eq!(s.current_item, "c.tar");
    assert_eq!((s.total, s.total_bytes), (1, 3));
}
