use portmate_ssh::sftp_walk::{
    remote_directories_to_create, remote_symlink_check_paths,
    sftp_directory_create_failure_verdict, sftp_directory_step_verdict,
    symlink_component_verdict, DirectoryStep, SymlinkStep, WalkStepMetadata,
};

fn strings(v: &[&str]) -> Vec<String> {
    v.iter().map(|s| s.to_string()).collect()
}

#[test]
fn paths_are_walked_from_the_root() {
    assert_eq!(remote_symlink_check_paths("/srv//data/file"), strings(&["/srv", "/srv/data", "/srv/data/file"]));
    assert_eq!(remote_symlink_check_paths("a/b/"), strings(&["a", "a/b"]));
    assert_eq!(remote_symlink_check_paths("./a"), strings(&[".", "a"]));
    assert_eq!(remote_symlink_check_paths("/"), Vec::<String>::new());
    assert_eq!(remote_symlink_check_paths(""), Vec::<String>::new());
}

#[test]
fn directories_are_created_parent_first() {
    assert_eq!(remote_directories_to_create("/srv/in/"), strings(&["/srv", "/srv/in"]));
    assert_eq!(remote_directories_to_create("a/./b"), strings(&["a", "a/b"]));
    assert_eq!(remote_directories_to_create("./a"), strings(&["a"]));
    assert_eq!(remote_directories_to_create("."), Vec::<String>::new());
    assert_eq!(remote_directories_to_create("///"), Vec::<String>::new());
    assert_eq!(remote_directories_to_create(""), Vec::<String>::new());
}

#[test]
fn directory_steps_are_judged() {
    let dir = WalkStepMetadata::Found { is_dir: true, is_symlink: false };
    assert_eq!(sftp_directory_step_verdict("/srv", &dir), Ok(DirectoryStep::Exists));
    let link = WalkStepMetadata::Found { is_dir: true, is_symlink: true };
    assert_eq!(
        sftp_directory_step_verdict("/srv", &link),
        Err("SFTP 创建远端目录失败 /srv: 路径已存在但不是普通目录".to_string())
    );
    let missing = WalkStepMetadata::Failed { error: "no such file".to_string(), exists: Ok(false) };
    assert_eq!(sftp_directory_step_verdict("/srv", &missing), Ok(DirectoryStep::Create));
    let unreadable = WalkStepMetadata::Failed { error: "denied".to_string(), exists: Ok(true) };
    assert_eq!(
        sftp_directory_step_verdict("/srv", &unreadable),
        Err("SFTP 创建远端目录失败 /srv: denied".to_string())
    );
    let unknown = WalkStepMetadata::Failed {
        error: "denied".to_string(),
        exists: Err("closed".to_string()),
    };
    assert_eq!(
        sftp_directory_step_verdict("/srv", &unknown),
        Err("SFTP 创建远端目录失败 /srv: denied; existence check failed: closed".to_string())
    );
    assert_eq!(sftp_directory_create_failure_verdict("/srv", "exists", Some((true, false))), Ok(()));
    assert_eq!(
        sftp_directory_create_failure_verdict("/srv", "denied", Some((true, true))),
        Err("SFTP 创建远端目录失败 /srv: denied".to_string())
    );
    assert_eq!(
        sftp_directory_create_failure_verdict("/srv", "denied", None),
        Err("SFTP 创建远端目录失败 /srv: denied".to_string())
    );
}

#[test]
fn symbolic_links_are_refused_along_a_path() {
    let link = WalkStepMetadata::Found { is_dir: false, is_symlink: true };
    let plain = WalkStepMetadata::Found { is_dir: true, is_symlink: false };
    assert_eq!(
        symlink_component_verdict("/a", 0, 2, true, "SFTP 路径", &link),
        Err("SFTP 路径不能经过符号链接: /a".to_string())
    );
    assert_eq!(
        symlink_component_verdict("/a/b", 1, 2, true, "SFTP 路径", &link),
        Ok(SymlinkStep::Continue)
    );
    assert_eq!(
        symlink_component_verdict("/a/b", 1, 2, false, "SFTP 路径", &link),
        Err("SFTP 路径不能经过符号链接: /a/b".to_string())
    );
    assert_eq!(symlink_component_verdict("/a", 0, 2, false, "X", &plain), Ok(SymlinkStep::Continue));
    let missing = WalkStepMetadata::Failed { error: "gone".to_string(), exists: Ok(false) };
    assert_eq!(symlink_component_verdict("/a", 0, 2, false, "X", &missing), Ok(SymlinkStep::Stop));
    let unreadable = WalkStepMetadata::Failed { error: "denied".to_string(), exists: Ok(true) };
    assert_eq!(
        symlink_component_verdict("/a", 0, 2, false, "X", &unreadable),
        Err("无法检查X /a: denied".to_string())
    );
    let unknown = WalkStepMetadata::Failed {
        error: "denied".to_string(),
        exists: Err("closed".to_string()),
    };
    assert_eq!(
        symlink_component_verdict("/a", 0, 2, false, "X", &unknown),
        Err("无法检查X /a: denied; existence check failed: closed".to_string())
    );
}
