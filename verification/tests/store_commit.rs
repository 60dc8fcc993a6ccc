use portmate_ssh::store_commit::store_commit_after_save_error;

#[test]
fn a_failed_save_keeps_the_mutation_only_when_verified_on_disk() {
    assert_eq!(store_commit_after_save_error("disk full".to_string(), Ok(true)), Ok(()));
    assert_eq!(
        store_commit_after_save_error("disk full".to_string(), Ok(false)),
        Err("disk full".to_string())
    );
    assert_eq!(
        store_commit_after_save_error("disk full".to_string(), Err("unreadable".to_string())),
        Err("disk full; 无法判定 Store 提交是否生效，请重启应用: unreadable".to_string())
    );
}
