use portmate_ssh::remote_path::{
    remote_join_path, remote_parent_path, remote_resume_part_path,
    validate_sftp_directory_entry_name, MAX_SFTP_DIRECTORY_ENTRY_NAME_BYTES,
};

#[test]
fn sftp_directory_entry_names_cannot_escape_the_listed_directory() {
    for name in [
        "",
        ".",
        "..",
        "../escape",
        "child/file",
        "child\\file",
        "line\nfeed",
        "nul\0name",
    ] {
        assert!(
            validate_sftp_directory_entry_name(name).is_err(),
            "{name:?}"
        );
    }
    assert!(validate_sftp_directory_entry_name("normal file.txt").is_ok());
    assert!(validate_sftp_directory_entry_name(
        &"a".repeat(MAX_SFTP_DIRECTORY_ENTRY_NAME_BYTES + 1)
    )
    .is_err());
}

#[test]
fn entry_name_limit_counts_utf8_bytes() {
    assert!(validate_sftp_directory_entry_name(&"a".repeat(MAX_SFTP_DIRECTORY_ENTRY_NAME_BYTES)).is_ok());
    // 1366 three-byte characters are 4098 bytes.
    assert!(validate_sftp_directory_entry_name(&"故".repeat(1366)).is_err());
    assert!(validate_sftp_directory_entry_name(&"故".repeat(1365)).is_ok());
    assert!(validate_sftp_directory_entry_name("...").is_ok());
    assert!(validate_sftp_directory_entry_name("del\u{7f}").is_err());
    assert_eq!(
        validate_sftp_directory_entry_name("a/b").unwrap_err(),
        "SFTP 服务端返回了不安全的目录项名称"
    );
}

#[test]
fn resume_part_path_appends_suffix() {
    assert_eq!(remote_resume_part_path("/tmp/a.txt"), "/tmp/a.txt.portmate-part");
    assert_eq!(remote_resume_part_path("a.txt"), "a.txt.portmate-part");
    assert_eq!(remote_resume_part_path("dir/"), "dir/.portmate-part");
}

#[test]
fn parent_paths_ignore_trailing_slashes() {
    assert_eq!(remote_parent_path("/a/b/c"), Some("/a/b".to_string()));
    assert_eq!(remote_parent_path("/a/b/"), Some("/a".to_string()));
    assert_eq!(remote_parent_path("/a"), Some("/".to_string()));
    assert_eq!(remote_parent_path("a"), None);
    assert_eq!(remote_parent_path("a/b"), Some("a".to_string()));
    assert_eq!(remote_parent_path("/"), None);
}

#[test]
fn joined_paths_have_one_separator() {
    assert_eq!(remote_join_path("", "/x/"), "x");
    assert_eq!(remote_join_path(".", "x"), "x");
    assert_eq!(remote_join_path("/", "x"), "/x");
    assert_eq!(remote_join_path("/srv//", "//x"), "/srv/x");
    assert_eq!(remote_join_path("srv", "x"), "srv/x");
}
