use packo::commands::{
    conflict_action, skipped_entry_message, skipped_file_message, ConflictAction,
    append_archive_extract_password_args, append_archive_password_args,
    append_ds_store_exclude_patterns, append_macos_metadata_exclude_patterns,
    bsdtar_compress_args, command_candidates, compression_level_option,
    normalize_archive_password, normalize_extract_conflict_strategy,
    parse_compress_progress_line, zip_compress_args, ExtractConflictStrategy,
};

fn strings(v: &[&str]) -> Vec<String> {
    v.iter().map(|s| s.to_string()).collect()
}

#[test]
fn passwords_are_trimmed_and_blank_ones_dropped() {
    assert_eq!(normalize_archive_password(Some("  secret ".to_string())), Some("secret".to_string()));
    assert_eq!(normalize_archive_password(Some("   ".to_string())), None);
    assert_eq!(normalize_archive_password(None), None);

    let mut args = strings(&["-tf", "a.zip"]);
    append_archive_password_args(&mut args, Some(" pw "));
    assert_eq!(args, strings(&["-tf", "a.zip", "--passphrase", "pw"]));
    let mut args = strings(&["-tf"]);
    append_archive_password_args(&mut args, Some(" "));
    assert_eq!(args, strings(&["-tf"]));
}

#[test]
fn extraction_always_passes_a_passphrase() {
    let mut args = Vec::new();
    append_archive_extract_password_args(&mut args, None);
    assert_eq!(args, strings(&["--passphrase", "__PACKO_PASSWORD_REQUIRED__"]));
    let mut args = Vec::new();
    append_archive_extract_password_args(&mut args, Some(" open "));
    assert_eq!(args, strings(&["--passphrase", "open"]));
}

#[test]
fn conflict_strategies_accept_their_aliases() {
    assert_eq!(normalize_extract_conflict_strategy(None), Ok(ExtractConflictStrategy::Overwrite));
    assert_eq!(
        normalize_extract_conflict_strategy(Some(" Replace ".to_string())),
        Ok(ExtractConflictStrategy::Overwrite)
    );
    assert_eq!(
        normalize_extract_conflict_strategy(Some("SKIP".to_string())),
        Ok(ExtractConflictStrategy::Skip)
    );
    assert_eq!(
        normalize_extract_conflict_strategy(Some("auto-rename".to_string())),
        Ok(ExtractConflictStrategy::Rename)
    );
    assert_eq!(
        normalize_extract_conflict_strategy(Some("merge".to_string())),
        Err("未知的解压冲突处理方式。".to_string())
    );
}

#[test]
fn compression_levels_stay_in_each_range() {
    assert_eq!(compression_level_option("TGZ", None), Ok(None));
    assert_eq!(compression_level_option("TAR", Some(5)), Ok(None));
    assert_eq!(
        compression_level_option("ZSTD", Some(19)),
        Ok(Some("zstd:compression-level=19".to_string()))
    );
    assert_eq!(
        compression_level_option("TGZ", Some(0)),
        Err("TGZ 压缩级别必须在 1 到 9 之间。".to_string())
    );
    assert_eq!(
        compression_level_option("LZ4", Some(3)),
        Err("LZ4 压缩级别必须在 1 到 2 之间。".to_string())
    );
}

#[test]
fn zip_arguments_carry_every_option() {
    let args = zip_compress_args(
        "/out/a.zip",
        &strings(&["one", "two"]),
        &strings(&["*.tmp"]),
        Some(3),
        "pw",
        Some(10),
    )
    .unwrap();
    assert_eq!(
        args,
        strings(&["-r", "-3", "-P", "pw", "-s", "10m", "/out/a.zip", "one", "two", "-x", "*.tmp"])
    );
    let plain = zip_compress_args("a.zip", &strings(&["x"]), &Vec::new(), None, "", Some(0)).unwrap();
    assert_eq!(plain, strings(&["-r", "a.zip", "x"]));
    assert_eq!(
        zip_compress_args("a.zip", &strings(&["x"]), &Vec::new(), Some(10), "", None),
        Err("ZIP 压缩级别必须在 0 到 9 之间。".to_string())
    );
}

#[test]
fn bsdtar_arguments_pick_filters_by_format() {
    let args = bsdtar_compress_args(
        "TGZ",
        "/out/a.tar.gz",
        "/src",
        &strings(&["dir"]),
        &strings(&[".DS_Store"]),
        Some(9),
    )
    .unwrap();
    assert_eq!(
        args,
        strings(&[
            "--options",
            "gzip:compression-level=9",
            "--exclude",
            ".DS_Store",
            "-cvaf",
            "/out/a.tar.gz",
            "-C",
            "/src",
            "dir",
        ])
    );
    let seven = bsdtar_compress_args("7Z", "a.7z", "/p", &strings(&["f"]), &Vec::new(), None).unwrap();
    assert_eq!(seven, strings(&["--format", "7zip", "-cvf", "a.7z", "-C", "/p", "f"]));
    let tar = bsdtar_compress_args("TAR", "a.tar", "/p", &strings(&["f"]), &Vec::new(), Some(4)).unwrap();
    assert_eq!(tar, strings(&["-cvf", "a.tar", "-C", "/p", "f"]));
    assert!(bsdtar_compress_args("TXZ", "a.txz", "/p", &Vec::new(), &Vec::new(), Some(12)).is_err());
}

#[test]
fn metadata_patterns_are_appended() {
    let mut p = strings(&["keep"]);
    append_ds_store_exclude_patterns(&mut p);
    assert_eq!(p, strings(&["keep", ".DS_Store", "*/.DS_Store"]));
    let mut m = Vec::new();
    append_macos_metadata_exclude_patterns(&mut m);
    assert_eq!(
        m,
        strings(&["__MACOSX", "__MACOSX/*", "*/__MACOSX", "*/__MACOSX/*", "._*", "*/._*"])
    );
}

#[test]
fn programs_are_looked_for_in_known_folders() {
    assert_eq!(
        command_candidates("bsdtar"),
        strings(&[
            "bsdtar",
            "/usr/bin/bsdtar",
            "/bin/bsdtar",
            "/opt/homebrew/bin/bsdtar",
            "/usr/local/bin/bsdtar",
        ])
    );
    assert_eq!(command_candidates("/opt/zip"), strings(&["/opt/zip"]));
}

#[test]
fn progress_lines_name_their_paths() {
    assert_eq!(parse_compress_progress_line("a folder/file.txt"), Some("folder/file.txt".to_string()));
    assert_eq!(parse_compress_progress_line("  + x "), Some("x".to_string()));
    assert_eq!(
        parse_compress_progress_line("  adding: dir/a.txt (deflated 40%)"),
        Some("dir/a.txt".to_string())
    );
    assert_eq!(parse_compress_progress_line("updating: b.txt"), Some("b.txt".to_string()));
    assert_eq!(parse_compress_progress_line("Compressing  big.bin"), Some("big.bin".to_string()));
    assert_eq!(parse_compress_progress_line("Adding x"), Some("x".to_string()));
    assert_eq!(parse_compress_progress_line("adding: "), None);
    assert_eq!(parse_compress_progress_line("   "), None);
    assert_eq!(parse_compress_progress_line("total 3 files"), None);
}

#[test]
fn conflicts_decide_each_entry() {
    assert_eq!(conflict_action(ExtractConflictStrategy::Skip, false, true), ConflictAction::Skip);
    assert_eq!(conflict_action(ExtractConflictStrategy::Skip, false, false), ConflictAction::InPlace);
    assert_eq!(conflict_action(ExtractConflictStrategy::Rename, false, true), ConflictAction::Aside);
    assert_eq!(conflict_action(ExtractConflictStrategy::Rename, true, true), ConflictAction::InPlace);
    assert_eq!(conflict_action(ExtractConflictStrategy::Overwrite, false, true), ConflictAction::InPlace);
    assert_eq!(skipped_entry_message("a/b.txt"), "已跳过已存在项目：a/b.txt");
    assert_eq!(skipped_file_message("b.txt"), "已跳过已存在文件：b.txt");
}
