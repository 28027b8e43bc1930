use packo::desktop::{
    application_name, file_promise_type, icon_file_type, kept_icon, open_failure_message,
    open_file_with_application, open_with_choices, open_with_command, png_data_url, push_application,
    suggest_open_with_apps, system_file_icons, OpenWithApplication, SystemIconRequest,
};
use packo::windows::{
    compress_window_label, compress_window_title, extract_window_label, extract_window_title,
    nonblank_paths, work_window_hash,
};

#[test]
fn icons_are_not_read_on_this_platform() {
    let items = vec![SystemIconRequest {
        key: "k1".to_string(),
        path: Some("/a.txt".to_string()),
        name: "a.txt".to_string(),
        kind: "text".to_string(),
    }];
    let r = system_file_icons(items);
    assert_eq!(r.len(), 1);
    assert_eq!(r[0].key, "k1");
    assert!(r[0].data_url.is_none());
}

#[test]
fn generic_icons_are_dropped_for_files_only() {
    let generic = Some("data:generic".to_string());
    assert_eq!(kept_icon("text", Some("data:generic".to_string()), &generic), None);
    assert_eq!(
        kept_icon("folder", Some("data:generic".to_string()), &generic),
        Some("data:generic".to_string())
    );
    assert_eq!(
        kept_icon("text", Some("data:own".to_string()), &generic),
        Some("data:own".to_string())
    );
    assert_eq!(kept_icon("text", None, &generic), None);
}

#[test]
fn icon_types_come_from_extensions() {
    assert_eq!(icon_file_type("report.pdf"), "pdf");
    assert_eq!(icon_file_type("README"), "public.data");
    assert_eq!(icon_file_type(".hidden"), "public.data");
}

#[test]
fn png_bytes_become_data_urls() {
    assert_eq!(png_data_url(&[1, 2, 3]), "data:image/png;base64,AQID");
    assert_eq!(png_data_url(&[0xff]), "data:image/png;base64,/w==");
    assert_eq!(png_data_url(&[]), "data:image/png;base64,");
}

#[test]
fn applications_are_named_and_listed_once() {
    assert_eq!(application_name("/Applications/Preview.app"), "Preview");
    assert_eq!(application_name("/"), "应用程序");

    let mut apps: Vec<OpenWithApplication> = Vec::new();
    let mut seen: Vec<String> = Vec::new();
    push_application(&mut apps, &mut seen, " /Applications/TextEdit.app ", true);
    push_application(&mut apps, &mut seen, "/Applications/TextEdit.app", false);
    push_application(&mut apps, &mut seen, "  ", false);
    assert_eq!(apps.len(), 1);
    assert_eq!(apps[0].name, "TextEdit");
    assert_eq!(apps[0].path, "/Applications/TextEdit.app");
    assert!(apps[0].is_default);

    let choices = open_with_choices(
        Some("/A/Preview.app".to_string()),
        &vec!["/A/Preview.app".to_string(), "/A/Other.app".to_string(), "".to_string()],
    );
    assert_eq!(choices.len(), 2);
    assert!(choices[0].is_default);
    assert_eq!(choices[1].name, "Other");
    assert!(!choices[1].is_default);
    assert!(suggest_open_with_apps("/tmp/a.txt").is_empty());
    assert_eq!(
        open_file_with_application("/tmp/a.txt", None),
        Err("当前平台暂不支持选择打开方式。".to_string())
    );
}

#[test]
fn open_failures_report_the_tool_or_a_default() {
    assert_eq!(open_failure_message("  no app  "), "no app");
    assert_eq!(open_failure_message(" "), "无法用所选应用打开文件。");
}

#[test]
fn promised_files_carry_uniform_types() {
    assert_eq!(file_promise_type("notes.TXT", false), "public.plain-text");
    assert_eq!(file_promise_type("photo.jpeg", false), "public.jpeg");
    assert_eq!(file_promise_type("folder", true), "public.folder");
    assert_eq!(file_promise_type("data.json", false), "public.json");
}

#[test]
fn window_labels_and_titles() {
    let a = extract_window_label("/tmp/a.zip");
    assert!(a.starts_with("packo-extract-"));
    assert_eq!(a.len(), "packo-extract-".len() + 16);
    assert_eq!(a, extract_window_label("/tmp/a.zip"));
    assert_ne!(a, extract_window_label("/tmp/b.zip"));
    assert_eq!(work_window_hash("x"), work_window_hash("x"));
    assert!(work_window_hash("x").chars().all(|c| c.is_ascii_hexdigit() && !c.is_ascii_uppercase()));
    assert_eq!(extract_window_title("/tmp/a.zip"), "a.zip - Packo");
    assert_eq!(extract_window_title("/"), "压缩包 - Packo");
    assert_eq!(compress_window_label(255, 16), "packo-compress-ff-10");
    assert_eq!(compress_window_label(0, 0), "packo-compress-0-0");

    let paths = nonblank_paths(&vec![" ".to_string(), "/x/a.txt".to_string(), "/x/b".to_string()]);
    assert_eq!(paths, vec!["/x/a.txt".to_string(), "/x/b".to_string()]);
    assert_eq!(compress_window_title(&paths), "压缩 2 个项目 - Packo");
    assert_eq!(compress_window_title(&vec!["/x/a.txt".to_string()]), "压缩 a.txt - Packo");
    assert_eq!(compress_window_title(&Vec::new()), "新建压缩包 - Packo");
}

#[test]
fn opened_files_are_routed_by_kind() {
    let all = packo::desktop::route_open_paths(
        vec!["/a.zip".to_string(), "/b.7z".to_string()],
        &vec![true, true],
    );
    assert!(matches!(all, packo::desktop::OpenRoute::ExtractEach(ref v) if v.len() == 2));
    let mixed = packo::desktop::route_open_paths(
        vec!["/a.zip".to_string(), "/notes.txt".to_string()],
        &vec![true, false],
    );
    assert!(matches!(mixed, packo::desktop::OpenRoute::Compress(ref v) if v[1] == "/notes.txt"));
    assert!(matches!(
        packo::desktop::route_open_paths(Vec::new(), &Vec::new()),
        packo::desktop::OpenRoute::FocusMain
    ));
}

#[test]
fn app_bundles_are_found_above_their_executables() {
    assert_eq!(
        packo::desktop::macos_app_bundle_path("/Applications/Packo.app/Contents/MacOS/packo"),
        Some("/Applications/Packo.app".to_string())
    );
    assert_eq!(
        packo::desktop::macos_app_bundle_path("/A/Outer.app/Contents/Inner.app/x"),
        Some("/A/Outer.app/Contents/Inner.app".to_string())
    );
    assert_eq!(packo::desktop::macos_app_bundle_path("/usr/bin/packo"), None);
}

#[test]
fn files_are_described_for_the_interface() {
    let f = packo::desktop::describe_path("/x/notes.txt", false, true, 12, 0, "t".to_string());
    assert_eq!(f.name, "notes.txt");
    assert_eq!(f.size, 12);
    assert_eq!(f.kind, packo::formats::file_kind("/x/notes.txt"));
    let d = packo::desktop::describe_path("/x/dir", true, false, 4096, 300, "t".to_string());
    assert_eq!(d.kind, "folder");
    assert_eq!(d.size, 300);
    let c = packo::desktop::describe_compress_path("/x/dir", true, false, 4096, "t".to_string());
    assert_eq!(c.size, 0);
    let excluded = vec!["/x/skip".to_string()];
    assert!(packo::desktop::is_listed_compress_source("/x/a.txt", true, &excluded, true, true));
    assert!(!packo::desktop::is_listed_compress_source("/x/a.txt", false, &excluded, true, true));
    assert!(!packo::desktop::is_listed_compress_source("/x/skip/a", true, &excluded, false, false));
    assert!(!packo::desktop::is_listed_compress_source("/x/.DS_Store", true, &excluded, true, false));
    assert!(!packo::desktop::is_listed_compress_source("/x/._a", true, &excluded, false, true));
}

#[test]
fn plain_listed_paths_decode_to_themselves() {
    for p in ["dir/file.txt", "开发A2501.mp4", "a b/c"] {
        assert_eq!(packo::listing::decode_archive_listing_path(p), p);
    }
    assert_eq!(packo::entries::strip_archive_entry_prefix("../../etc/passwd"), "etc/passwd");
    assert_eq!(packo::entries::strip_archive_entry_prefix("/abs/./x/"), "abs/x");
}

#[test]
fn files_open_with_the_chosen_application() {
    let (program, args) = open_with_command("/tmp/a b.zip", Some("/Applications/Preview.app"));
    assert_eq!(program, "/usr/bin/open");
    assert_eq!(args, vec!["-a", "/Applications/Preview.app", "/tmp/a b.zip"]);
    let (program, args) = open_with_command("/tmp/a.zip", None);
    assert_eq!(program, "/usr/bin/open");
    assert_eq!(args, vec!["/tmp/a.zip"]);
}
