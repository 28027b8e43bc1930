use packo::formats::{
    archive_format, compress_output_extension, ensure_archive_is_editable,
    ensure_supported_extract_format, extension_label, file_kind, has_compressed_tar_extension,
    is_single_stream_format, is_zip_signature, normalize_compress_format,
    normalize_edit_archive_format, single_stream_decompress_command, single_stream_output_name,
    split_archive_open_error, supports_compress_password,
};

#[test]
fn recognizes_expanded_archive_format_aliases() {
    for (name, expected) in [
        ("bundle.tar.gz", "TGZ"),
        ("bundle.tgz", "TGZ"),
        ("bundle.tar.bz2", "TBZ"),
        ("bundle.tbz", "TBZ"),
        ("bundle.tbz2", "TBZ"),
        ("bundle.tar.xz", "TXZ"),
        ("bundle.txz", "TXZ"),
        ("bundle.tar.zst", "ZSTD"),
        ("bundle.zstd", "ZSTD"),
        ("bundle.lha", "LHA"),
        ("bundle.lzh", "LZH"),
        ("bundle.Z", "Z"),
        ("bundle.lzma2", "LZMA2"),
        ("bundle.lz4", "LZ4"),
        ("bundle.7z.001", "7Z"),
        ("bundle.zip.001", "ZIP"),
        ("bundle.tar.gz.001", "TGZ"),
        ("bundle.part1.rar", "RAR"),
        ("bundle.z01", "ZIP"),
    ] {
        assert_eq!(archive_format(name, false), expected);
    }
}

#[test]
fn guides_users_to_open_first_split_archive_volume() {
    assert_eq!(split_archive_open_error("bundle.7z.001"), None);
    assert_eq!(split_archive_open_error("bundle.part1.rar"), None);
    assert!(split_archive_open_error("bundle.7z.002")
        .expect("numeric split error")
        .contains(".001"));
    assert!(split_archive_open_error("bundle.part2.rar")
        .expect("rar split error")
        .contains(".part1.rar"));
    assert!(split_archive_open_error("bundle.z01")
        .expect("zip split error")
        .contains("bundle.zip"));
}

#[test]
fn treats_compressed_tar_files_as_archives() {
    for name in [
        "bundle.tar.gz",
        "bundle.tgz",
        "bundle.tar.bz2",
        "bundle.tbz",
        "bundle.tar.xz",
        "bundle.txz",
        "bundle.tar.zst",
        "bundle.tar.lz4",
    ] {
        assert!(!is_single_stream_format(name, false), "{name}");
    }

    for name in ["note.txt.gz", "note.txt.gzip", "note.txt.zst", "note.txt.lz4"] {
        assert!(is_single_stream_format(name, false), "{name}");
    }
}

#[test]
fn zip_containers_are_zip_archives() {
    assert_eq!(archive_format("report.docx", true), "ZIP");
    assert_eq!(archive_format("report.docx", false), "DOCX");
    assert!(is_zip_signature(&[0x50, 0x4b, 0x03, 0x04, 0]));
    assert!(!is_zip_signature(&[0x50, 0x4b]));
    assert!(ensure_supported_extract_format("report.docx", true).is_ok());
    assert!(ensure_supported_extract_format("report.docx", false).is_err());
}

#[test]
fn compress_format_names_normalize_to_canonical_ones() {
    for (name, expected) in [
        ("zip", "ZIP"),
        (" 7z ", "7Z"),
        ("gzip", "GZ"),
        ("tar.gz", "GZ"),
        ("bzip2", "BZ2"),
        ("tbz2", "TBZ"),
        ("tar.xz", "TXZ"),
        ("zst", "ZSTD"),
        ("tar.lzma2", "LZMA2"),
        ("lz4", "LZ4"),
        ("z", "Z"),
    ] {
        assert_eq!(normalize_compress_format(name).unwrap(), expected);
    }
    let err = normalize_compress_format("rar").unwrap_err();
    assert!(err.starts_with("当前仅支持压缩为"));
}

#[test]
fn output_extensions_follow_formats() {
    assert_eq!(compress_output_extension("ZIP"), "zip");
    assert_eq!(compress_output_extension("GZ"), "tar.gz");
    assert_eq!(compress_output_extension("Z"), "tar.Z");
    assert_eq!(compress_output_extension("ZSTD"), "tar.zst");
    assert_eq!(compress_output_extension("unknown"), "tar");
    assert!(supports_compress_password("ZIP"));
    assert!(supports_compress_password("7Z"));
    assert!(!supports_compress_password("TGZ"));
}

#[test]
fn single_streams_decompress_to_their_stem() {
    assert_eq!(single_stream_output_name("dir/note.txt.gz"), "note.txt");
    assert_eq!(single_stream_output_name("note.TXT.BZ2"), "note.TXT");
    let (program, args) = single_stream_decompress_command("note.txt.gz", false).unwrap();
    assert_eq!(program, "gzip");
    assert_eq!(args, vec!["-dc".to_string(), "note.txt.gz".to_string()]);
    assert!(single_stream_decompress_command("bundle.tar.gz", false).is_err());
    assert!(has_compressed_tar_extension("x.TAR.GZ"));
    assert!(!has_compressed_tar_extension("x.gz"));
}

#[test]
fn editing_refuses_split_and_unbuildable_archives() {
    assert!(ensure_archive_is_editable("a.zip", false, 1).is_ok());
    assert_eq!(
        ensure_archive_is_editable("a.zip", false, 2).unwrap_err(),
        "暂不支持直接编辑分卷压缩包，请先合并或解压后重新压缩。"
    );
    assert_eq!(
        ensure_archive_is_editable("a.7z.001", false, 1).unwrap_err(),
        "暂不支持直接编辑分卷压缩包，请先合并或解压后重新压缩。"
    );
    assert_eq!(ensure_archive_is_editable("a.rar", false, 1).unwrap_err(), "当前格式暂不支持编辑后重建。");
    assert_eq!(normalize_edit_archive_format("a.zip", false, Some("b.7z"), false).unwrap(), "7Z");
    assert_eq!(normalize_edit_archive_format("a.zip", false, Some("  "), false).unwrap(), "ZIP");
    assert_eq!(normalize_edit_archive_format("a.zip", false, Some("b.rar"), false).unwrap(), "ZIP");
    assert!(normalize_edit_archive_format("a.rar", false, None, false).is_err());
}

#[test]
fn kinds_and_labels_come_from_extensions() {
    assert_eq!(file_kind("A.ZIP"), "archive");
    assert_eq!(file_kind("doc.PDF"), "pdf");
    assert_eq!(file_kind("x.docx"), "word");
    assert_eq!(file_kind("pic.jpeg"), "image");
    assert_eq!(file_kind("notes"), "file");
    assert_eq!(extension_label("report.pdf"), "PDF");
    assert_eq!(extension_label("README"), "文件");
    assert_eq!(extension_label("straße.gz"), "GZ");
}

#[test]
fn every_created_archive_opens_for_extraction() {
    for (format, read_back) in [
        ("ZIP", "ZIP"),
        ("7Z", "7Z"),
        ("TAR", "TAR"),
        ("TGZ", "TGZ"),
        ("TBZ", "TBZ"),
        ("TXZ", "TXZ"),
        ("GZ", "TGZ"),
        ("BZ2", "TBZ"),
        ("XZ", "TXZ"),
        ("Z", "Z"),
        ("ZSTD", "ZSTD"),
        ("LZMA", "LZMA"),
        ("LZMA2", "LZMA2"),
        ("LZ4", "LZ4"),
    ] {
        let name = format!("Backup 2024.{}", compress_output_extension(format));
        assert_eq!(archive_format(&name, false), read_back);
        assert!(ensure_supported_extract_format(&name, false).is_ok());
    }
}
