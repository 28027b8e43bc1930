use packo::integrity::{
    archive_integrity_test, compress_output_test, preview_folder_name, temp_work_folder_name,
    IntegrityTest,
};

fn command(t: &IntegrityTest) -> (String, Vec<String>, Option<String>) {
    match t {
        IntegrityTest::Command { program, args, failure } => {
            (program.clone(), args.clone(), failure.clone())
        }
        other => panic!("unexpected test {other:?}"),
    }
}

#[test]
fn archives_are_tested_by_their_format() {
    let zip = archive_integrity_test("/a/b.zip", false, 1, None).unwrap();
    assert_eq!(
        command(&zip),
        (
            "unzip".to_string(),
            vec!["-t".to_string(), "-P".to_string(), "__PACKO_PASSWORD_REQUIRED__".to_string(), "/a/b.zip".to_string()],
            None
        )
    );
    let with_pw = archive_integrity_test("/a/b.zip", false, 1, Some(" pw ")).unwrap();
    assert_eq!(command(&with_pw).1[2], "pw");
    assert!(matches!(
        archive_integrity_test("/a/b.zip", false, 3, None).unwrap(),
        IntegrityTest::ExtractToTemp
    ));
    match archive_integrity_test("/a/b.7z", false, 1, Some("x")).unwrap() {
        IntegrityTest::SevenZip { password } => assert_eq!(password.as_deref(), Some("x")),
        other => panic!("unexpected test {other:?}"),
    }
    let stream = archive_integrity_test("/a/n.txt.gz", false, 1, None).unwrap();
    assert_eq!(command(&stream).0, "gzip");
    assert_eq!(command(&stream).1, vec!["-dc".to_string(), "/a/n.txt.gz".to_string()]);
    let tar = archive_integrity_test("/a/b.tar", false, 1, None).unwrap();
    assert_eq!(
        command(&tar).1,
        vec![
            "--passphrase".to_string(),
            "__PACKO_PASSWORD_REQUIRED__".to_string(),
            "-tf".to_string(),
            "/a/b.tar".to_string()
        ]
    );
}

#[test]
fn new_archives_are_tested_by_their_format() {
    let zip = compress_output_test("ZIP", "/o/a.zip", Some("pw"), false);
    assert_eq!(
        command(&zip),
        (
            "unzip".to_string(),
            vec!["-t".to_string(), "-P".to_string(), "pw".to_string(), "/o/a.zip".to_string()],
            Some("ZIP 完整性测试失败".to_string())
        )
    );
    let split = compress_output_test("ZIP", "/o/a.zip", None, true);
    assert_eq!(command(&split).0, "zip");
    assert_eq!(command(&split).1, vec!["-sf".to_string(), "/o/a.zip".to_string()]);
    let tgz = compress_output_test("TGZ", "/o/a.tar.gz", None, false);
    assert_eq!(command(&tgz).1, vec!["-tf".to_string(), "/o/a.tar.gz".to_string()]);
    assert_eq!(command(&tgz).2.as_deref(), Some("压缩包完整性测试失败"));
    assert!(matches!(
        compress_output_test("7Z", "/o/a.7z", None, false),
        IntegrityTest::SevenZip { password: None }
    ));
}

#[test]
fn temporary_folders_are_named_after_the_archive() {
    assert_eq!(temp_work_folder_name("/x/my:archive.zip", 1700, 3), "my-archive.zip-1700-3");
    assert_eq!(preview_folder_name("/x/a.zip", 42), "a.zip-42");
    assert_eq!(preview_folder_name("/", 0), "archive-0");
}

#[test]
fn temporary_permissions_are_only_widened() {
    assert_eq!(packo::integrity::owner_permissions_fix(0o755, 0o700), None);
    assert_eq!(packo::integrity::owner_permissions_fix(0o000, 0o400), Some(0o400));
    assert_eq!(packo::integrity::owner_permissions_fix(0o644, 0o700), Some(0o744));
}
