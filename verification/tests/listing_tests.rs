use chrono::Datelike;
use packo::listing::{
    archive_listing_time_label, archive_listing_time_label_in_year, archive_month_number,
    decode_archive_listing_path, format_system_time, format_time_label, is_archive_month,
    parse_archive_listing, parse_archive_listing_detail, parse_archive_listing_in_year,
    parse_hour_minute,
};

#[test]
fn formats_archive_listing_time_for_chinese_ui() {
    let current_year = chrono::Local::now().year();
    assert_eq!(
        archive_listing_time_label("Jun", "13", "19:34"),
        format!("{current_year}年6月13日 19:34")
    );
    assert_eq!(
        archive_listing_time_label("May", "6", "2024"),
        "2024年5月6日 00:00"
    );
}

#[test]
fn parses_archive_paths_from_plain_listing_output() {
    let path_output = "\
开发A2501-清风润学子，廉洁启新程/
开发A2501-清风润学子，廉洁启新程/开发A2501.mp4
开发A2501-清风润学子，廉洁启新程/开发A2501-清风润学子，廉洁启新程.pptx
";
    let detail_output = "\
drwxr-xr-x  0 501    20          0 Jun 17 11:08 开发A2501-清风润学子，廉洁启新程/
-r--r--r--  0 501    20    6556043 Jun 16 20:55 开发A2501-清风润学子，廉洁启新程/开发A2501.mp4
-rw-r--r--  0 501    20   17013269 Jun 17 09:33 开发A2501-清风润学子，廉洁启新程/开发A2501-清风润学子，廉洁启新程.pptx
";

    let entries = parse_archive_listing(path_output, detail_output);

    assert_eq!(entries.len(), 3);
    assert_eq!(entries[0].name, "开发A2501-清风润学子，廉洁启新程");
    assert_eq!(
        entries[1].path,
        "开发A2501-清风润学子，廉洁启新程/开发A2501.mp4"
    );
    assert_eq!(entries[1].size, 6_556_043);
    assert_eq!(entries[2].name, "开发A2501-清风润学子，廉洁启新程.pptx");
}

#[test]
fn decodes_octal_escaped_archive_paths() {
    let path_output = "\
\\345\\274\\200\\345\\217\\221A2501-清风润学子，廉洁启新程/
\\345\\274\\200\\345\\217\\221A2501-清风润学子，廉洁启新程/\\345\\274\\200\\345\\217\\221A2501.mp4
";
    let detail_output = "\
drwxr-xr-x  0 501    20          0 Jun 17 11:08 \\345\\274\\200\\345\\217\\221A2501-清风润学子，廉洁启新程/
-r--r--r--  0 501    20    6556043 Jun 16 20:55 \\345\\274\\200\\345\\217\\221A2501-清风润学子，廉洁启新程/\\345\\274\\200\\345\\217\\221A2501.mp4
";

    let entries = parse_archive_listing(path_output, detail_output);

    assert_eq!(entries.len(), 2);
    assert_eq!(entries[0].name, "开发A2501-清风润学子，廉洁启新程");
    assert_eq!(
        entries[1].path,
        "开发A2501-清风润学子，廉洁启新程/开发A2501.mp4"
    );
    assert_eq!(entries[1].name, "开发A2501.mp4");
}

#[test]
fn listing_entries_carry_kind_labels_and_flags() {
    let path_output = "docs/\ndocs/readme.md\nrun.sh\n../evil.txt\n.hidden\n\n";
    let detail_output = "drwxr-xr-x  0 501 20 0 Jan 2 2023 docs/\n-rw-r--r--  0 501 20 12 Feb 3 04:05 docs/readme.md\n-rwxr-xr-x  0 501 20 7 Dec 31 1999 run.sh\n";
    let entries = parse_archive_listing_in_year(path_output, detail_output, 2030);
    assert_eq!(entries.len(), 5);
    assert_eq!(entries[0].kind, "folder");
    assert_eq!(entries[0].type_label, "文件夹");
    assert_eq!(entries[0].name, "docs");
    assert_eq!(entries[0].modified_label, "2023年1月2日 00:00");
    assert_eq!(entries[1].kind, "text");
    assert_eq!(entries[1].type_label, "MD 文件");
    assert_eq!(entries[1].size, 12);
    assert_eq!(entries[1].modified_label, "2030年2月3日 04:05");
    assert!(entries[2].is_executable);
    assert_eq!(entries[2].modified_label, "1999年12月31日 00:00");
    assert!(entries[3].is_unsafe_path);
    assert_eq!(entries[3].size, 0);
    assert_eq!(entries[3].modified_label, "-");
    assert!(entries[4].is_hidden);
    assert!(entries[4].crc.is_none() && entries[4].method.is_none() && !entries[4].is_encrypted);
}

#[test]
fn listing_detail_needs_month_and_two_more_words() {
    let d = parse_archive_listing_detail("-rw-r--r-- 0 501 20 99 Mar 7", 2025).unwrap();
    assert_eq!(d.permissions, "-rw-r--r--");
    assert_eq!(d.size, 0);
    assert_eq!(d.modified_label, "-");
    let d = parse_archive_listing_detail("Mar 1 2 3", 2025).unwrap();
    assert_eq!(d.permissions, "Mar");
    assert_eq!(d.size, 0);
    assert_eq!(d.modified_label, "-");
    let d = parse_archive_listing_detail("-rw x Apr 9 8:07", 2025).unwrap();
    assert_eq!(d.size, 0);
    assert_eq!(d.modified_label, "2025年4月9日 08:07");
    assert!(parse_archive_listing_detail("   ", 2025).is_none());
}

#[test]
fn listing_time_falls_back_for_unknown_parts() {
    assert_eq!(archive_listing_time_label_in_year("Foo", "x", "later", 2021), "2021年1月1日 00:00");
    assert_eq!(archive_listing_time_label_in_year("Oct", "31", "-44", 2021), "-44年10月31日 00:00");
    assert_eq!(archive_listing_time_label_in_year("Nov", "+5", "123:4", 2021), "2021年11月5日 123:04");
}

#[test]
fn months_and_times_parse_like_listings_print_them() {
    assert_eq!(archive_month_number("Jan"), Some(1));
    assert_eq!(archive_month_number("Dec"), Some(12));
    assert_eq!(archive_month_number("jan"), None);
    assert!(is_archive_month("Sep"));
    assert!(!is_archive_month("Sept"));
    assert_eq!(parse_hour_minute("09:05"), Some((9, 5)));
    assert_eq!(parse_hour_minute("9:5:1"), None);
    assert_eq!(parse_hour_minute("2024"), None);
}

#[test]
fn decodes_escapes_only_for_valid_bytes() {
    assert_eq!(decode_archive_listing_path("a\\101b"), "aAb");
    assert_eq!(decode_archive_listing_path("\\400"), "\\400");
    assert_eq!(decode_archive_listing_path("\\12x"), "\\12x");
    assert_eq!(decode_archive_listing_path("\\\\101"), "\\A");
    assert_eq!(decode_archive_listing_path("\\377"), "\u{FFFD}");
    assert_eq!(decode_archive_listing_path("plain/路径"), "plain/路径");
}

#[test]
fn formats_time_labels_with_padded_clock() {
    assert_eq!(format_time_label(2024, 1, 2, 3, 4), "2024年1月2日 03:04");
    assert_eq!(format_time_label(-1, 12, 31, 23, 59), "-1年12月31日 23:59");
    let label = format_system_time(0).expect("epoch is representable");
    assert!(label.contains('年') && label.contains(':'));
    assert!(label.starts_with("1970年") || label.starts_with("1969年"));
}
