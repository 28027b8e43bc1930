use packo::contents::ExtractTaskEntry;
use packo::sources::{
    common_parent, excluded_relative_patterns, is_ds_store_path, is_macos_metadata_path,
    is_path_excluded, strip_path_prefix,
};
use packo::volumes::{
    add_batch_totals, archive_split_summary, archive_split_volumes, batch_archive_paths,
    compress_output_size, default_output_dir, is_numbered_volume_of, is_zip_split_part,
    label_batch_entries, missing_zip_main_message, normalize_existing_system_paths,
    split_7z_sibling_exists, split_volume_plan, volume_file_name, zip_split_main_path,
};

fn strings(v: &[&str]) -> Vec<String> {
    v.iter().map(|s| s.to_string()).collect()
}

#[test]
fn zip_parts_share_the_main_stem() {
    assert!(is_zip_split_part("bundle", "/x/bundle.z01"));
    assert!(is_zip_split_part("bundle", "/x/bundle.Z12"));
    assert!(!is_zip_split_part("bundle", "/x/bundle.zip"));
    assert!(!is_zip_split_part("bundle", "/x/other.z01"));
    assert!(!is_zip_split_part("bundle", "/x/bundle.z1"));
}

#[test]
fn numbered_volumes_are_matched_by_base() {
    assert!(is_numbered_volume_of("bundle.7z", "bundle.7z.002"));
    assert!(is_numbered_volume_of("bundle.7z", "BUNDLE.7Z.010"));
    assert!(!is_numbered_volume_of("bundle.7z", "bundle.7z"));
    assert!(!is_numbered_volume_of("bundle.7z", "other.7z.001"));
}

#[test]
fn volume_names_use_three_digits() {
    assert_eq!(volume_file_name("a.7z", 1), "a.7z.001");
    assert_eq!(volume_file_name("a.7z", 42), "a.7z.042");
    assert_eq!(volume_file_name("a.7z", 1234), "a.7z.1234");
}

#[test]
fn split_plans_need_a_size_and_a_first_volume() {
    assert_eq!(split_volume_plan("/out/a.7z.001", 2), Ok((2 * 1048576, "a.7z".to_string())));
    assert_eq!(split_volume_plan("/out/a.7z.001", 0), Err("分卷大小至少为 1 MB。".to_string()));
    assert_eq!(split_volume_plan("/out/a.7z", 1), Err("无法生成 7Z 分卷文件名。".to_string()));
    assert_eq!(split_volume_plan("/out/a.7z.001", u64::MAX), Err("分卷大小过大。".to_string()));
}

#[test]
fn missing_main_files_are_named() {
    assert_eq!(
        missing_zip_main_message("/x/bundle.zip"),
        "这是 ZIP 分卷片段，但找不到同名主文件 bundle.zip。请把 .z01/.z02 和 .zip 放在同一文件夹后再打开。"
    );
}

#[test]
fn split_summaries_add_known_sizes() {
    let s = archive_split_summary(
        &strings(&["/x/a.7z.001", "/x/a.7z.002"]),
        &vec![Some(10), None, Some(5)],
        "/x/a.7z.001",
        3,
        true,
    );
    assert!(s.is_split);
    assert_eq!(s.volume_count, 2);
    assert_eq!(s.total_size, 15);
    assert_eq!(s.first_volume, "/x/a.7z.001");

    let single = archive_split_summary(&Vec::new(), &Vec::new(), "/x/a.zip", 7, false);
    assert!(!single.is_split);
    assert_eq!(single.volume_count, 1);
    assert_eq!(single.total_size, 7);
    assert_eq!(single.first_volume, "/x/a.zip");
}

#[test]
fn batch_entries_are_shown_under_their_archive() {
    let mut entries = vec![ExtractTaskEntry {
        path: "dir/a.txt".to_string(),
        display_path: "dir/a.txt".to_string(),
        size: 3,
        is_dir: false,
        is_unsafe_path: false,
    }];
    label_batch_entries(&mut entries, "alpha.zip");
    assert_eq!(entries[0].display_path, "alpha.zip / dir/a.txt");
    assert_eq!(entries[0].path, "dir/a.txt");
    assert_eq!(entries[0].size, 3);
}

#[test]
fn results_go_next_to_the_source_by_default() {
    assert_eq!(default_output_dir(Some("/a/b/c.zip"), false, Some("/home/u")), "/a/b");
    assert_eq!(default_output_dir(Some("/a/b"), true, Some("/home/u")), "/a/b");
    assert_eq!(default_output_dir(None, false, Some("/home/u")), "/home/u/Desktop");
    assert_eq!(default_output_dir(None, false, None), ".");
    assert_eq!(default_output_dir(Some("/"), false, None), ".");
}

#[test]
fn system_paths_keep_existing_ones_once() {
    let r = normalize_existing_system_paths(
        &strings(&["/a", "", "/b", "/a", "/c"]),
        &vec![true, true, true, true, false],
    );
    assert_eq!(r, strings(&["/a", "/b"]));
}

#[test]
fn paths_are_stripped_by_components() {
    assert_eq!(strip_path_prefix("/a/b/c.txt", "/a"), Some("b/c.txt".to_string()));
    assert_eq!(strip_path_prefix("/a/b", "/a/b"), Some(String::new()));
    assert_eq!(strip_path_prefix("/ab/c", "/a"), None);
}

#[test]
fn sources_share_their_closest_common_folder() {
    assert_eq!(common_parent(&strings(&["/a/b/c.txt", "/a/b/d.txt"])), Ok("/a/b".to_string()));
    assert_eq!(common_parent(&strings(&["/a/b/c.txt", "/a/x/d.txt"])), Ok("/a".to_string()));
    assert_eq!(common_parent(&Vec::new()), Err("请先选择文件。".to_string()));
    assert_eq!(common_parent(&strings(&["/"])), Err("无法确定文件所在目录。".to_string()));
    assert_eq!(common_parent(&strings(&["a.txt", "/b/c.txt"])), Ok(String::new()));
    assert_eq!(common_parent(&strings(&["/a/f", "b/x"])), Err("无法计算公共目录。".to_string()));
}

#[test]
fn excluded_and_metadata_paths_are_recognized() {
    let excluded = strings(&["/a/b/skip", "/other"]);
    assert!(is_path_excluded("/a/b/skip/x.txt", &excluded));
    assert!(is_path_excluded("/a/b/skip", &excluded));
    assert!(!is_path_excluded("/a/b/skipped", &excluded));
    assert_eq!(
        excluded_relative_patterns(&excluded, "/a"),
        strings(&["b/skip", "b/skip/*"])
    );
    assert!(is_ds_store_path("/a/.ds_store", true));
    assert!(!is_ds_store_path("/a/.DS_Store", false));
    assert!(is_macos_metadata_path("/a/__MACOSX/x", true));
    assert!(is_macos_metadata_path("/a/._keep.txt", true));
    assert!(!is_macos_metadata_path("/a/keep.txt", true));
}

#[test]
fn numbered_volumes_are_found_beside_the_first() {
    let siblings = strings(&["/x/a.7z.002", "/x/b.txt", "/x/A.7Z.001", "/x/a.7z.010", "/x/a.7z"]);
    let v = archive_split_volumes("/x/a.7z.001", false, &siblings, true);
    assert_eq!(v, strings(&["/x/A.7Z.001", "/x/a.7z.002", "/x/a.7z.010"]));
}

#[test]
fn zip_parts_come_before_the_main_file() {
    let siblings = strings(&["/x/a.zip", "/x/a.z02", "/x/a.z01", "/x/b.z01"]);
    let v = archive_split_volumes("/x/a.zip", false, &siblings, true);
    assert_eq!(v, strings(&["/x/a.z01", "/x/a.z02", "/x/a.zip"]));
    let lone = archive_split_volumes("/x/a.zip", false, &strings(&["/x/a.zip"]), true);
    assert_eq!(lone, strings(&["/x/a.zip"]));
    let missing = archive_split_volumes("/x/a.zip", false, &Vec::new(), false);
    assert_eq!(missing, strings(&["/x/a.zip"]));
    let plain = archive_split_volumes("/x/a.tar", false, &strings(&["/x/a.z01"]), true);
    assert_eq!(plain, strings(&["/x/a.tar"]));
}

#[test]
fn output_sizes_count_zip_parts() {
    let siblings = vec![
        ("/o/a.z01".to_string(), Some(10)),
        ("/o/a.z02".to_string(), None),
        ("/o/b.z01".to_string(), Some(100)),
        ("/o/a.zip".to_string(), Some(1000)),
    ];
    assert_eq!(compress_output_size("/o/a.zip", Some(5), &siblings), Some(15));
    assert_eq!(compress_output_size("/o/a.ZIP", None, &siblings), Some(10));
    assert_eq!(compress_output_size("/o/a.7z", Some(7), &siblings), Some(7));
    assert_eq!(compress_output_size("/o/a.7z", None, &siblings), None);
    assert_eq!(
        compress_output_size("/o/a.zip", Some(u64::MAX), &siblings),
        Some(u64::MAX)
    );
}

#[test]
fn split_parts_lead_to_their_main_file() {
    let names = strings(&["a.z01", "A.ZIP"]);
    let paths = strings(&["/x/a.z01", "/x/A.ZIP"]);
    assert_eq!(zip_split_main_path("/x/a.z01", true, &names, &paths), "/x/a.zip");
    assert_eq!(zip_split_main_path("/x/a.z01", false, &names, &paths), "/x/A.ZIP");
    assert_eq!(zip_split_main_path("/x/a.z01", false, &Vec::new(), &Vec::new()), "/x/a.zip");
    assert_eq!(zip_split_main_path("a.z01", true, &Vec::new(), &Vec::new()), "a.zip");
}

#[test]
fn split_7z_names_in_use_are_detected() {
    assert!(split_7z_sibling_exists("/o/a.7z.001", &strings(&["a.7z.003"])));
    assert!(!split_7z_sibling_exists("/o/a.7z.001", &strings(&["a.7z", "b.7z.001"])));
    assert!(!split_7z_sibling_exists("/o/a.7z", &strings(&["a.7z.001"])));
}

#[test]
fn batches_need_an_archive_and_count_each_one() {
    assert_eq!(
        batch_archive_paths(&strings(&["  /a.zip ", " ", "/b.7z"])),
        Ok(strings(&["/a.zip", "/b.7z"]))
    );
    assert_eq!(
        batch_archive_paths(&strings(&["  "])),
        Err("请选择要解压的压缩包。".to_string())
    );
    let entries = vec![
        ExtractTaskEntry {
            path: "a".to_string(),
            display_path: "a".to_string(),
            size: 4,
            is_dir: false,
            is_unsafe_path: false,
        },
        ExtractTaskEntry {
            path: "b".to_string(),
            display_path: "b".to_string(),
            size: 6,
            is_dir: false,
            is_unsafe_path: false,
        },
    ];
    assert_eq!(add_batch_totals((0, 0), &entries), (2, 10));
    assert_eq!(add_batch_totals((2, 10), &[]), (3, 11));
    assert_eq!(add_batch_totals((usize::MAX, u64::MAX), &entries), (usize::MAX, u64::MAX));
}

#[test]
fn written_volume_names_are_read_back() {
    for index in [1u64, 9, 10, 99, 100, 999] {
        let name = volume_file_name("Bundle.7Z", index);
        assert!(is_numbered_volume_of("bundle.7z", &name), "{name}");
    }
}

#[test]
fn failed_outputs_take_their_parts_with_them() {
    let siblings = strings(&["/o/a.z01", "/o/a.Z02", "/o/b.z01", "/o/a.zip", "/o/a.txt"]);
    assert_eq!(
        packo::volumes::partial_compress_outputs("/o/a.ZIP", &siblings),
        strings(&["/o/a.z01", "/o/a.Z02"])
    );
    let volumes = strings(&["/o/x.7z.001", "/o/x.7z.002", "/o/X.7z.003", "/o/y.7z.001"]);
    assert_eq!(
        packo::volumes::partial_compress_outputs("/o/x.7z.001", &volumes),
        strings(&["/o/x.7z.001", "/o/x.7z.002"])
    );
    assert!(packo::volumes::partial_compress_outputs("/o/a.tar", &siblings).is_empty());
}
