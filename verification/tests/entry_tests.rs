use packo::contents::{
    archive_safety_summary, collect_folders, ensure_safe_archive_entry_paths,
    normalize_archive_promise_drag_items, plan_extract_task_entries, promised_folder_entry_paths,
    single_stream_task_entry, task_entries_from_listing, task_entry_from_listing, ArchiveEntry,
    ArchivePromiseDragItem, ExtractTaskEntry,
};
use packo::entries::{
    check_preview_entry, extract_output_dir, promised_entry_path,
    archive_add_target, archive_entry_has_unsafe_path, archive_entry_is_executable,
    archive_entry_is_hidden, normalize_archive_entry_key, promised_archive_entry_name,
    safe_archive_relative_path, strip_archive_entry_prefix,
};

fn entry(path: &str, kind: &str, size: u64) -> ArchiveEntry {
    ArchiveEntry {
        name: path.to_string(),
        path: path.to_string(),
        kind: kind.to_string(),
        type_label: String::new(),
        size,
        modified_label: "-".to_string(),
        crc: None,
        method: None,
        is_encrypted: false,
        is_hidden: archive_entry_is_hidden(path),
        is_executable: kind != "folder" && archive_entry_is_executable(path, ""),
        is_unsafe_path: archive_entry_has_unsafe_path(path),
    }
}

fn task(path: &str, unsafe_path: bool) -> ExtractTaskEntry {
    ExtractTaskEntry {
        path: path.to_string(),
        display_path: path.to_string(),
        size: 1,
        is_dir: false,
        is_unsafe_path: unsafe_path,
    }
}

#[test]
fn detects_archive_entry_safety_warnings() {
    assert!(archive_entry_is_hidden(".env"));
    assert!(archive_entry_is_hidden("folder/.secret/file.txt"));
    assert!(archive_entry_is_executable("script.sh", "-rw-r--r--"));
    assert!(archive_entry_is_executable("plain.txt", "-rwxr-xr-x"));
    assert!(archive_entry_has_unsafe_path("../escape.txt"));
    assert!(archive_entry_has_unsafe_path("/tmp/escape.txt"));
    assert!(!archive_entry_has_unsafe_path("safe/folder/file.txt"));
}

#[test]
fn rejects_unsafe_extract_task_entries() {
    let entries = vec![ExtractTaskEntry {
        path: "../escape.txt".to_string(),
        display_path: "../escape.txt".to_string(),
        size: 1,
        is_dir: false,
        is_unsafe_path: true,
    }];

    let error = ensure_safe_archive_entry_paths(&entries).expect_err("unsafe path");
    assert!(error.contains("不安全路径"));
}

#[test]
fn entry_flags_cover_edge_cases() {
    assert!(!archive_entry_is_hidden("a/./b"));
    assert!(archive_entry_is_hidden("a\\.git\\config"));
    assert!(!archive_entry_is_executable("x", "-rw-r--r--x"));
    assert!(archive_entry_is_executable("x", "-rwSr-sr--"));
    assert!(archive_entry_is_executable("Tool.APP", ""));
    assert!(!archive_entry_is_executable("tool.apps", ""));
    assert!(archive_entry_has_unsafe_path("a\\..\\b"));
    assert!(archive_entry_has_unsafe_path("c:evil"));
    assert!(archive_entry_has_unsafe_path("a/./b"));
    assert!(archive_entry_has_unsafe_path("nul\0byte"));
    assert!(!archive_entry_has_unsafe_path("a//b"));
}

#[test]
fn entry_paths_strip_to_named_components() {
    assert_eq!(strip_archive_entry_prefix("/abs/../x/./y/"), "abs/x/y");
    assert_eq!(strip_archive_entry_prefix("./a//b"), "a/b");
    assert_eq!(strip_archive_entry_prefix("../.."), "");
    assert_eq!(normalize_archive_entry_key("  ././dir\\sub///  "), "dir/sub");
    assert_eq!(normalize_archive_entry_key("./"), "");
}

#[test]
fn promised_names_prefer_the_suggestion() {
    assert_eq!(promised_archive_entry_name("a/b.txt", " Report? "), "Report-");
    assert_eq!(promised_archive_entry_name("a/b.txt", "  "), "b.txt");
    assert_eq!(promised_archive_entry_name("a/b.txt", ".."), "b.txt");
    assert_eq!(promised_archive_entry_name("..", ""), "archive-entry");
    assert_eq!(promised_archive_entry_name("dir/x:y", ""), "x-y");
}

#[test]
fn relative_paths_for_edits_are_checked() {
    assert_eq!(safe_archive_relative_path(" docs/new/ ").unwrap(), "docs/new");
    assert_eq!(safe_archive_relative_path("  /// ").unwrap_err(), "路径不能为空。");
    assert_eq!(safe_archive_relative_path("../x").unwrap_err(), "路径不安全：../x");
    assert_eq!(safe_archive_relative_path("a//").unwrap(), "a");
    assert_eq!(archive_add_target(" /docs/ ").unwrap(), Some("docs".to_string()));
    assert_eq!(archive_add_target(" // ").unwrap(), None);
    assert!(archive_add_target("a/../b").is_err());
}

#[test]
fn folders_are_collected_once_in_order() {
    let entries = vec![
        entry("b/c/d.txt", "text", 1),
        entry("a/", "folder", 0),
        entry("b/c", "folder", 0),
        entry("top.txt", "text", 1),
        entry("a/z/y.txt", "text", 1),
    ];
    assert_eq!(collect_folders(&entries), vec!["a", "a/z", "b", "b/c"]);
    assert!(collect_folders(&[]).is_empty());
}

#[test]
fn safety_summary_counts_and_samples() {
    let entries = vec![
        entry(".a", "file", 1),
        entry("ok.txt", "text", 1),
        entry("../b", "file", 1),
        entry("run.sh", "file", 1),
        entry(".c/.d", "file", 1),
        entry("/abs", "file", 1),
        entry("x.exe", "file", 1),
    ];
    let s = archive_safety_summary(&entries);
    assert_eq!(s.unsafe_paths, 2);
    // `..` is a part that starts with a dot and is longer than one character.
    assert_eq!(s.hidden_files, 3);
    assert_eq!(s.executables, 2);
    assert_eq!(s.samples, vec![".a", "../b", "run.sh", ".c/.d"]);
}

#[test]
fn extraction_entries_come_from_request_or_listing() {
    let listing = task_entries_from_listing(&[entry("dir/", "folder", 9), entry("dir/f.txt", "text", 0)]);
    assert_eq!(listing[0].size, 1);
    assert!(listing[0].is_dir);
    assert_eq!(listing[0].display_path, "dir");
    assert_eq!(listing[1].size, 1);

    let picked = plan_extract_task_entries(
        &[" ".to_string(), "dir/f.txt".to_string(), "other/".to_string()],
        task_entries_from_listing(&[entry("dir/f.txt", "text", 42)]),
        "a.zip",
        Some(5),
    )
    .unwrap();
    assert_eq!(picked.len(), 2);
    assert_eq!(picked[0].size, 42);
    assert!(!picked[0].is_dir);
    assert_eq!(picked[1].size, 1);
    assert!(picked[1].is_dir);
    assert_eq!(picked[1].display_path, "other");

    let whole = plan_extract_task_entries(&[], Vec::new(), "a.zip", Some(0)).unwrap();
    assert_eq!(whole.len(), 1);
    assert_eq!(whole[0].path, "a.zip");
    assert_eq!(whole[0].size, 1);

    let err = plan_extract_task_entries(&["../up".to_string()], Vec::new(), "a.zip", None).unwrap_err();
    assert_eq!(err, "压缩包包含不安全路径，已阻止解压：up");

    let listed = vec![task("ok", false), task("../bad", true)];
    let err = plan_extract_task_entries(&[], listed, "a.zip", None).unwrap_err();
    assert_eq!(err, "压缩包包含不安全路径，已阻止解压：../bad");

    let one = task_entry_from_listing(&entry("x/y.bin", "file", 7));
    assert_eq!((one.size, one.is_dir, one.display_path.as_str()), (7, false, "x/y.bin"));
    let stream = single_stream_task_entry("/d/note.txt.gz", 0);
    assert_eq!(stream.path, "note.txt");
    assert_eq!(stream.size, 1);
}

#[test]
fn promised_folders_take_their_entries() {
    let listing = vec![task("pics/", false), task("pics/a.png", false), task("picsx/b", false), task("other", false)];
    assert_eq!(promised_folder_entry_paths(&listing, " pics/ ").unwrap(), vec!["pics/", "pics/a.png"]);
    assert_eq!(promised_folder_entry_paths(&listing, "none").unwrap_err(), "找不到要拖出的文件夹。");
    let bad = vec![task("p/../x", true)];
    assert!(promised_folder_entry_paths(&bad, "p").is_err());
}

#[test]
fn drag_items_are_checked_and_deduplicated() {
    let item = |p: &str, n: &str, d: bool| ArchivePromiseDragItem {
        entry_path: p.to_string(),
        promised_name: n.to_string(),
        is_dir: d,
    };
    let out = normalize_archive_promise_drag_items(vec![
        item(" a/b.txt ", "", false),
        item("a/b.txt/", "x", false),
        item("a/b.txt", "Folder", true),
    ])
    .unwrap();
    assert_eq!(out.len(), 2);
    assert_eq!(out[0].entry_path, "a/b.txt");
    assert_eq!(out[0].promised_name, "b.txt");
    assert!(out[1].is_dir);
    assert_eq!(out[1].promised_name, "Folder");
    assert_eq!(normalize_archive_promise_drag_items(vec![]).unwrap_err(), "请选择要拖出的项目。");
    assert_eq!(
        normalize_archive_promise_drag_items(vec![item("ok", "", false), item(" / ", "", false)]).unwrap_err(),
        "请选择要拖出的项目。"
    );
    assert_eq!(
        normalize_archive_promise_drag_items(vec![item("../x", "", false)]).unwrap_err(),
        "该条目路径不安全，已阻止拖出。"
    );
}

#[test]
fn requests_naming_entries_are_checked() {
    assert_eq!(promised_entry_path(" dir/a.txt/ ", false), Ok("dir/a.txt".to_string()));
    assert_eq!(promised_entry_path(" / ", true), Err("请选择要拖出的文件夹。".to_string()));
    assert_eq!(promised_entry_path("", false), Err("请选择要拖出的文件。".to_string()));
    assert_eq!(
        promised_entry_path("../x", false),
        Err("该条目路径不安全，已阻止拖出。".to_string())
    );
    assert_eq!(check_preview_entry("a/b.txt"), Ok(()));
    assert_eq!(check_preview_entry("a/"), Err("请选择要预览的文件。".to_string()));
    assert_eq!(check_preview_entry("  "), Err("请选择要预览的文件。".to_string()));
    assert_eq!(extract_output_dir("  /out "), Ok("/out".to_string()));
    assert_eq!(extract_output_dir("   "), Err("请选择解压位置。".to_string()));
}

#[test]
fn dragged_folders_copy_what_lies_inside() {
    let entries: Vec<String> = ["docs/", "docs/a.txt", "docs/sub/b.txt", "other/c.txt", "docsx/d.txt"]
        .iter()
        .map(|s| s.to_string())
        .collect();
    let copies = packo::contents::promised_folder_copy_paths(" docs/ ", &entries);
    assert_eq!(
        copies,
        vec![
            ("docs/a.txt".to_string(), "a.txt".to_string()),
            ("docs/sub/b.txt".to_string(), "sub/b.txt".to_string()),
        ]
    );
}
