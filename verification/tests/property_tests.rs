use packo::contents::ArchiveEntry;
use packo::properties::{
    apply_archive_entry_details, archive_properties, encryption_check,
    is_archive_password_error_message, parse_zip_entry_details, EncryptionCheck,
};

fn entry(path: &str, kind: &str, size: u64) -> ArchiveEntry {
    ArchiveEntry {
        name: path.rsplit('/').next().unwrap_or(path).to_string(),
        path: path.to_string(),
        kind: kind.to_string(),
        type_label: String::new(),
        size,
        modified_label: String::new(),
        crc: None,
        method: None,
        is_encrypted: false,
        is_hidden: false,
        is_executable: false,
        is_unsafe_path: false,
    }
}

const ZIPINFO: &str = "Archive:  bundle.zip\n\
There is no zipfile comment.\n\
\n\
Central directory entry #1:\n\
---------------------------\n\
\n\
  docs/\n\
\n\
  compression method:                             none (stored)\n\
\n\
Central directory entry #2:\n\
---------------------------\n\
\n\
  docs/a.txt\n\
\n\
  compression method:                             deflated\n\
  file security status:                           Encrypted\n\
  32-bit CRC value (hex):                         1a2b3c4d\n";

#[test]
fn zipinfo_details_are_read_by_entry() {
    let details = parse_zip_entry_details(ZIPINFO);
    assert_eq!(details.len(), 2);
    assert_eq!(details[0].0, "docs");
    assert_eq!(details[0].1.method.as_deref(), Some("none (stored)"));
    assert_eq!(details[0].1.crc, None);
    assert!(!details[0].1.is_encrypted);
    assert_eq!(details[1].0, "docs/a.txt");
    assert_eq!(details[1].1.method.as_deref(), Some("deflated"));
    assert_eq!(details[1].1.crc.as_deref(), Some("1A2B3C4D"));
    assert!(details[1].1.is_encrypted);
    assert!(parse_zip_entry_details("no entries here").is_empty());
}

#[test]
fn details_reach_the_entries_they_name() {
    let details = parse_zip_entry_details(ZIPINFO);
    let mut entries = vec![entry("docs/", "folder", 0), entry("docs/a.txt", "text", 5), entry("b.txt", "text", 1)];
    apply_archive_entry_details(&mut entries, &details);
    assert_eq!(entries[0].method.as_deref(), Some("none (stored)"));
    assert_eq!(entries[1].crc.as_deref(), Some("1A2B3C4D"));
    assert!(entries[1].is_encrypted);
    assert_eq!(entries[2].method, None);
    assert!(!entries[2].is_encrypted);
    assert_eq!(entries[1].size, 5);
}

#[test]
fn password_errors_are_recognized() {
    assert!(is_archive_password_error_message("Incorrect passphrase"));
    assert!(is_archive_password_error_message("ZIP entry is ENCRYPTED"));
    assert!(is_archive_password_error_message("Decryption failed"));
    assert!(is_archive_password_error_message("密码错误"));
    assert!(!is_archive_password_error_message("Truncated input file"));
}

#[test]
fn encryption_is_known_or_probed() {
    let mut locked = entry("a.txt", "text", 1);
    locked.is_encrypted = true;
    assert!(matches!(encryption_check(&[entry("x", "text", 1), locked], false, "ZIP", false), EncryptionCheck::Known(true)));
    assert!(matches!(encryption_check(&[entry("x", "text", 1)], true, "7Z", false), EncryptionCheck::Known(true)));
    assert!(matches!(encryption_check(&[entry("d/", "folder", 0)], false, "ZIP", false), EncryptionCheck::Known(false)));
    assert!(matches!(encryption_check(&[entry("x", "text", 1)], false, "GZIP", true), EncryptionCheck::Known(false)));
    match encryption_check(&[entry("d/", "folder", 0), entry("d/f.txt", "text", 1)], true, "ZIP", false) {
        EncryptionCheck::Probe(p) => assert_eq!(p, "d/f.txt"),
        other => panic!("unexpected check {other:?}"),
    }
}

#[test]
fn properties_sum_files_and_summarize_methods() {
    let mut a = entry("a", "text", 10);
    a.method = Some("deflated".to_string());
    a.crc = Some("AB".to_string());
    let mut b = entry("b", "text", 20);
    b.method = Some("stored".to_string());
    b.is_encrypted = true;
    let mut c = entry("c", "text", 5);
    c.method = Some("deflated".to_string());
    let mut d = entry("d/", "folder", 99);
    d.is_encrypted = true;
    let p = archive_properties(&[a, b, c, d], "ZIP", true);
    assert_eq!(p.uncompressed_size, 35);
    assert_eq!(p.method_summary, "deflated、stored");
    assert!(p.crc_available);
    assert!(p.is_encrypted);
    assert_eq!(p.encrypted_count, 1);

    let none = archive_properties(&[entry("x", "text", 1)], "TAR", false);
    assert_eq!(none.method_summary, "TAR");
    assert!(!none.crc_available);

    let mut many = Vec::new();
    for m in ["lzma", "bzip2", "ppmd"] {
        let mut e = entry(m, "text", 1);
        e.method = Some(m.to_string());
        many.push(e);
    }
    assert_eq!(archive_properties(&many, "7Z", false).method_summary, "bzip2 等 3 种");
}
