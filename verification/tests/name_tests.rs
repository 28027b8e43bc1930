use packo::names::{
    archive_output_folder_name, default_archive_name_for_source, is_split_7z_sibling,
    numbered_file_name, numbered_name, output_archive_file_name, sanitize_archive_name,
    sanitize_path_segment, split_7z_first_volume_name, split_7z_stem, temp_output_file_name,
};

#[test]
fn names_split_archive_output_folders_from_base_archive() {
    assert_eq!(archive_output_folder_name("bundle.7z.001"), "bundle");
    assert_eq!(archive_output_folder_name("bundle.tar.gz.001"), "bundle");
    assert_eq!(archive_output_folder_name("bundle.part1.rar"), "bundle");
}

#[test]
fn output_folders_drop_archive_suffixes() {
    assert_eq!(archive_output_folder_name("/tmp/Photos.TAR.GZ"), "Photos");
    assert_eq!(archive_output_folder_name("dir/report.zip"), "report");
    assert_eq!(archive_output_folder_name("a:b.rar"), "a-b");
    assert_eq!(archive_output_folder_name("notes.txt"), "notes");
    assert_eq!(archive_output_folder_name("x.7z.001.002"), "x");
    assert_eq!(archive_output_folder_name(".zip"), "archive");
    assert_eq!(archive_output_folder_name("/"), "archive");
}

#[test]
fn path_segments_are_made_safe() {
    assert_eq!(sanitize_path_segment("a/b\\c:d*e?f\"g<h>i|j"), "a-b-c-d-e-f-g-h-i-j");
    assert_eq!(sanitize_path_segment("   "), "archive");
    assert_eq!(sanitize_path_segment(""), "archive");
    assert_eq!(sanitize_path_segment(" 名字 "), " 名字 ");
    let once = sanitize_path_segment("x/y");
    assert_eq!(sanitize_path_segment(&once), once);
}

#[test]
fn archive_names_are_checked() {
    assert_eq!(sanitize_archive_name("  backup  ").unwrap(), "backup");
    assert_eq!(sanitize_archive_name(" ").unwrap_err(), "请输入压缩包名称。");
    assert_eq!(sanitize_archive_name("a/b").unwrap_err(), "压缩包名称不能包含路径分隔符。");
    assert_eq!(sanitize_archive_name("a\\b").unwrap_err(), "压缩包名称不能包含路径分隔符。");
    assert_eq!(sanitize_archive_name("..").unwrap_err(), "压缩包名称不能包含路径分隔符。");
    assert_eq!(sanitize_archive_name(".").unwrap_err(), "压缩包名称不能包含路径分隔符。");
}

#[test]
fn default_names_drop_one_extension() {
    assert_eq!(default_archive_name_for_source("/data/site.TAR.GZ"), "site");
    assert_eq!(default_archive_name_for_source("/data/site.tar.bz2"), "site");
    assert_eq!(default_archive_name_for_source("logs.tar.xz"), "logs");
    assert_eq!(default_archive_name_for_source("photo.jpeg"), "photo");
    assert_eq!(default_archive_name_for_source("folder/"), "folder");
    assert_eq!(default_archive_name_for_source("/"), "未命名");
    assert_eq!(default_archive_name_for_source(".bashrc"), ".bashrc");
}

#[test]
fn candidates_count_from_two() {
    assert_eq!(numbered_name("out", 1), "out");
    assert_eq!(numbered_name("out", 3), "out 3");
    assert_eq!(output_archive_file_name("a", "ZIP", 0), "a.zip");
    assert_eq!(output_archive_file_name("a", "TGZ", 2), "a 2.tgz");
    assert_eq!(output_archive_file_name("a", "GZ", 10), "a 10.tar.gz");
    assert_eq!(split_7z_first_volume_name("a", 1), "a.7z.001");
    assert_eq!(split_7z_first_volume_name("a", 2), "a 2.7z.001");
    assert_eq!(temp_output_file_name("a", 1700, "7Z", 1), ".a.packo-1700.7z");
    assert_eq!(temp_output_file_name("a", 1700, "7Z", 4), ".a.packo-1700-4.7z");
    assert_eq!(numbered_file_name("same.txt", 1, "未命名"), "same.txt");
    assert_eq!(numbered_file_name("same.txt", 2, "未命名"), "same 2.txt");
    assert_eq!(numbered_file_name("archive.tar.gz", 2, "x"), "archive.tar 2.gz");
    assert_eq!(numbered_file_name("noext", 5, "x"), "noext 5");
    assert_eq!(numbered_file_name("dot.", 2, "x"), "dot 2");
    assert_eq!(numbered_file_name("..", 2, "未命名"), "未命名 2");
}

#[test]
fn split_7z_volumes_share_a_stem() {
    assert_eq!(split_7z_stem("/out/a.7z.001"), Some("a.7z".to_string()));
    assert_eq!(split_7z_stem("/out/a.7z"), None);
    assert!(is_split_7z_sibling("a.7z", "a.7z.002"));
    assert!(!is_split_7z_sibling("a.7z", "a.7z.02"));
    assert!(!is_split_7z_sibling("a.7z", "b.7z.002"));
    assert!(!is_split_7z_sibling("a.7z", "a.7z.0x2"));
}
