use portmate_ssh::sftp_resume::{
    prefix_read_mismatch_or_error, resume_offset_after_prefix_check,
    sftp_destination_after_metadata, sftp_destination_first_step, sftp_finalize_resume_plan,
    sftp_regular_file_size_verdict, sftp_resume_start, DestinationMetadata, DestinationPlan,
    DestinationStep, PrefixComparison, RemoteFileMetadata, ResumeStart,
};

#[test]
fn remote_file_attributes_are_judged() {
    let regular = RemoteFileMetadata::Found { is_symlink: false, is_regular: true, len: 42 };
    assert_eq!(sftp_regular_file_size_verdict(&regular, "/a", "SFTP 断点文件"), Ok(Some(42)));
    let link = RemoteFileMetadata::Found { is_symlink: true, is_regular: false, len: 0 };
    assert_eq!(
        sftp_regular_file_size_verdict(&link, "/a", "SFTP 断点文件"),
        Err("SFTP 断点文件不能是符号链接: /a".to_string())
    );
    let dir = RemoteFileMetadata::Found { is_symlink: false, is_regular: false, len: 0 };
    assert_eq!(
        sftp_regular_file_size_verdict(&dir, "/a", "SFTP 目标文件"),
        Err("SFTP 目标文件不是普通文件: /a".to_string())
    );
    let missing = RemoteFileMetadata::Failed { error: "no such file".to_string(), exists: Ok(false) };
    assert_eq!(sftp_regular_file_size_verdict(&missing, "/a", "X"), Ok(None));
    let unreadable = RemoteFileMetadata::Failed { error: "denied".to_string(), exists: Ok(true) };
    assert_eq!(
        sftp_regular_file_size_verdict(&unreadable, "/a", "X"),
        Err("X无法读取远端属性 /a: denied".to_string())
    );
    let unknown = RemoteFileMetadata::Failed {
        error: "denied".to_string(),
        exists: Err("closed".to_string()),
    };
    assert_eq!(
        sftp_regular_file_size_verdict(&unknown, "/a", "X"),
        Err("X无法读取远端属性 /a: denied; existence check failed: closed".to_string())
    );
}

#[test]
fn partial_files_decide_where_a_transfer_resumes() {
    assert_eq!(sftp_resume_start(None, 100), ResumeStart::Fresh);
    assert_eq!(sftp_resume_start(Some(40), 100), ResumeStart::Resume(40));
    assert_eq!(sftp_resume_start(Some(100), 100), ResumeStart::Resume(100));
    assert_eq!(sftp_resume_start(Some(101), 100), ResumeStart::DiscardOversized);
    assert_eq!(resume_offset_after_prefix_check(40, true), 40);
    assert_eq!(resume_offset_after_prefix_check(40, false), 0);
    assert_eq!(prefix_read_mismatch_or_error(true, "eof", "本地源文件"), Ok(false));
    assert_eq!(
        prefix_read_mismatch_or_error(false, "broken pipe", "本地源文件"),
        Err("读取本地源文件前缀失败: broken pipe".to_string())
    );
}

#[test]
fn prefixes_are_compared_chunk_by_chunk() {
    let mut comparison = PrefixComparison::new(5);
    assert_eq!(comparison.next_chunk(2), Some(2));
    assert!(comparison.compare_chunk(b"ab", b"ab"));
    assert_eq!(comparison.compared, 2);
    assert_eq!(comparison.next_chunk(2), Some(2));
    assert!(comparison.compare_chunk(b"cd", b"cd"));
    assert_eq!(comparison.next_chunk(2), Some(1));
    assert!(!comparison.compare_chunk(b"e", b"x"));
    assert_eq!(comparison.compared, 4);
    assert!(comparison.compare_chunk(b"e", b"e"));
    assert_eq!(comparison.next_chunk(2), None);
    assert_eq!(PrefixComparison::new(0).next_chunk(8), None);
}

#[test]
fn finishing_a_resumed_upload() {
    assert_eq!(
        sftp_finalize_resume_plan(None, Some(3), "/a.portmate-part"),
        Err("SFTP 断点文件不存在: /a.portmate-part".to_string())
    );
    assert_eq!(sftp_finalize_resume_plan(Some(3), Some(3), "/a.portmate-part"), Ok(true));
    assert_eq!(sftp_finalize_resume_plan(Some(3), None, "/a.portmate-part"), Ok(false));
}

#[test]
fn transfer_destinations_are_chosen() {
    assert_eq!(
        sftp_destination_first_step("   ", "f.bin"),
        Err("SFTP 远端目标路径不能为空".to_string())
    );
    assert_eq!(
        sftp_destination_first_step(" /srv/in/ ", "f.bin"),
        Ok(DestinationStep::IntoDirectory {
            directory: "/srv/in/".to_string(),
            file: "/srv/in/f.bin".to_string()
        })
    );
    assert_eq!(
        sftp_destination_first_step("/srv/in", "f.bin"),
        Ok(DestinationStep::Inspect("/srv/in".to_string()))
    );
    assert_eq!(
        sftp_destination_after_metadata("/srv/in", "f.bin", &DestinationMetadata::Found { is_dir: true }),
        Ok(DestinationPlan { file: "/srv/in/f.bin".to_string(), create_directory: None })
    );
    assert_eq!(
        sftp_destination_after_metadata(
            "/srv/in/g.bin",
            "f.bin",
            &DestinationMetadata::Failed { error: "no such file".to_string(), exists: Ok(false) }
        ),
        Ok(DestinationPlan {
            file: "/srv/in/g.bin".to_string(),
            create_directory: Some("/srv/in".to_string())
        })
    );
    assert_eq!(
        sftp_destination_after_metadata("/g.bin", "f.bin", &DestinationMetadata::Found { is_dir: false }),
        Ok(DestinationPlan { file: "/g.bin".to_string(), create_directory: None })
    );
    assert_eq!(
        sftp_destination_after_metadata("g.bin", "f.bin", &DestinationMetadata::Found { is_dir: false }),
        Ok(DestinationPlan { file: "g.bin".to_string(), create_directory: None })
    );
    assert_eq!(
        sftp_destination_after_metadata(
            "/x",
            "f.bin",
            &DestinationMetadata::Failed { error: "denied".to_string(), exists: Ok(true) }
        ),
        Err("SFTP 无法读取远端目标属性 /x: denied".to_string())
    );
    assert_eq!(
        sftp_destination_after_metadata(
            "/x",
            "f.bin",
            &DestinationMetadata::Failed {
                error: "denied".to_string(),
                exists: Err("closed".to_string())
            }
        ),
        Err("SFTP 无法读取远端目标属性 /x: denied; existence check failed: closed".to_string())
    );
}
