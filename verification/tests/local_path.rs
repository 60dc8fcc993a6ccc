use portmate_ssh::local_path::{
    expand_identity_path_with_home, local_destination_file_path, has_local_home_prefix, local_home_relative_path,
    preferred_native_home_path, truncate_for_log,
};

#[test]
fn home_prefixes_are_recognized() {
    assert!(has_local_home_prefix("~", false));
    assert!(has_local_home_prefix("~/.ssh/id", false));
    assert!(!has_local_home_prefix("~\\.ssh\\id", false));
    assert!(has_local_home_prefix("~\\.ssh\\id", true));
    assert!(!has_local_home_prefix("~user/x", true));
    assert!(!has_local_home_prefix("/home/u", false));
    assert!(!has_local_home_prefix("", false));
}

#[test]
fn home_relative_parts_drop_separators_and_drives() {
    assert_eq!(local_home_relative_path("~/.ssh/id", false).as_deref(), Some(".ssh/id"));
    assert_eq!(local_home_relative_path("~", false).as_deref(), Some(""));
    assert_eq!(local_home_relative_path("~//x", false).as_deref(), Some("x"));
    assert_eq!(local_home_relative_path("~/\\x", false).as_deref(), Some("\\x"));
    assert_eq!(local_home_relative_path("~/\\x", true).as_deref(), Some("x"));
    assert_eq!(local_home_relative_path("~\\x", false), None);
    assert_eq!(local_home_relative_path("~\\x", true).as_deref(), Some("x"));
    assert_eq!(local_home_relative_path("~/C:/x", true), None);
    assert_eq!(local_home_relative_path("~/C:/x", false).as_deref(), Some("C:/x"));
    assert_eq!(local_home_relative_path("/etc/ssh", false), None);
}

#[test]
fn home_directory_preference_follows_the_platform() {
    let home = Some("/home/u".to_string());
    let profile = Some("C:\\Users\\u".to_string());
    assert_eq!(preferred_native_home_path(home.clone(), profile.clone(), false), home);
    assert_eq!(preferred_native_home_path(home.clone(), profile.clone(), true), profile);
    assert_eq!(preferred_native_home_path(None, profile.clone(), false), profile);
    assert_eq!(preferred_native_home_path(home.clone(), None, true), home);
    assert_eq!(preferred_native_home_path(None, None, true), None);
}

#[test]
fn identity_paths_expand_against_home() {
    assert_eq!(
        expand_identity_path_with_home("~/.ssh/id_ed25519", Some("/home/u"), false),
        "/home/u/.ssh/id_ed25519"
    );
    assert_eq!(expand_identity_path_with_home("/etc/key", Some("/home/u"), false), "/etc/key");
    assert_eq!(expand_identity_path_with_home("~/key", None, false), "~/key");
}

#[test]
fn log_text_is_trimmed_and_cut_on_character_boundaries() {
    assert_eq!(truncate_for_log("  hello  ", 10), "hello");
    assert_eq!(truncate_for_log("hello world", 5), "hello...");
    assert_eq!(truncate_for_log("héllo", 2), "h...");
    assert_eq!(truncate_for_log("héllo", 3), "hé...");
    assert_eq!(truncate_for_log("héllo", 6), "héllo");
    assert_eq!(truncate_for_log("abc", 0), "...");
}

#[test]
fn home_expansion_joins_below_the_home_directory() {
    assert_eq!(expand_identity_path_with_home("~/.ssh/id", Some("/home/u"), false), "/home/u/.ssh/id");
    assert_eq!(expand_identity_path_with_home("~///.ssh/id", Some("/home/u/"), false), "/home/u/.ssh/id");
    assert_eq!(expand_identity_path_with_home("~", Some("/home/u"), false), "/home/u/");
    assert_eq!(expand_identity_path_with_home("~/k", Some(""), false), "k");
    assert_eq!(expand_identity_path_with_home("~root/k", Some("/home/u"), false), "~root/k");
}

#[test]
fn downloads_land_in_directories_or_at_the_named_file() {
    assert_eq!(
        local_destination_file_path("  ", Some("/home/u"), false, "a.txt", false),
        Err("本地目标路径不能为空".to_string())
    );
    assert_eq!(
        local_destination_file_path(" /tmp/out ", Some("/home/u"), false, "a.txt", false),
        Ok("/tmp/out".to_string())
    );
    assert_eq!(
        local_destination_file_path("/tmp/out", Some("/home/u"), false, "a.txt", true),
        Ok("/tmp/out/a.txt".to_string())
    );
    assert_eq!(
        local_destination_file_path("/tmp/out/", None, false, "a.txt", false),
        Ok("/tmp/out/a.txt".to_string())
    );
    assert_eq!(
        local_destination_file_path("~/dl/", Some("/home/u"), false, "a.txt", false),
        Ok("/home/u/dl/a.txt".to_string())
    );
}
