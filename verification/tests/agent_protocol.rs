use portmate_ssh::agent_protocol::{
    agent_frame, agent_frame_length, agent_identity_blob_matches, filter_identity_response, push_ssh_string, read_ssh_string,
    read_u32, sign_request_key_blob, SSH_AGENT_IDENTITIES_ANSWER, SSH_AGENT_SIGN_REQUEST,
};
use portmate_ssh::identity::{IdentityRef, IdentitySource};
use std::collections::HashSet;

fn agent_ref(label: &str, path: Option<&str>, fingerprint: Option<&str>) -> IdentityRef {
    IdentityRef {
        id: "accepted".to_string(),
        label: label.to_string(),
        source: IdentitySource::Agent,
        fingerprint_sha256: fingerprint.map(str::to_string),
        path: path.map(str::to_string),
        secret_ref: None,
    }
}

#[test]
fn filtered_agent_response_exposes_only_allowed_identity_blobs() {
    let mut response = vec![SSH_AGENT_IDENTITIES_ANSWER];
    response.extend_from_slice(&2_u32.to_be_bytes());
    push_ssh_string(&mut response, b"rejected-key").unwrap();
    push_ssh_string(&mut response, b"rejected-comment").unwrap();
    push_ssh_string(&mut response, b"accepted-key").unwrap();
    push_ssh_string(&mut response, b"accepted-comment").unwrap();
    let refs = [IdentityRef {
        id: "accepted".to_string(),
        label: "accepted-comment".to_string(),
        source: IdentitySource::Agent,
        fingerprint_sha256: None,
        path: None,
        secret_ref: None,
    }];

    let (filtered, allowed) = filter_identity_response(&response, &refs).unwrap();
    let allowed: HashSet<Vec<u8>> = allowed.into_iter().collect();
    assert_eq!(allowed, HashSet::from([b"accepted-key".to_vec()]));
    let mut offset = 1_usize;
    assert_eq!(filtered[0], SSH_AGENT_IDENTITIES_ANSWER);
    assert_eq!(read_u32(&filtered, &mut offset), Some(1));
    assert_eq!(
        read_ssh_string(&filtered, &mut offset),
        Some(&b"accepted-key"[..])
    );
    assert_eq!(
        read_ssh_string(&filtered, &mut offset),
        Some(&b"accepted-comment"[..])
    );
    assert_eq!(offset, filtered.len());
}

#[test]
fn filtered_agent_path_matches_exact_comment_bytes() {
    let mut response = vec![SSH_AGENT_IDENTITIES_ANSWER];
    response.extend_from_slice(&2_u32.to_be_bytes());
    push_ssh_string(&mut response, b"rejected-key").unwrap();
    push_ssh_string(&mut response, b"accepted-comment").unwrap();
    push_ssh_string(&mut response, b"accepted-key").unwrap();
    push_ssh_string(&mut response, b"accepted-comment ").unwrap();
    let refs = [IdentityRef {
        id: "accepted".to_string(),
        label: "agent key".to_string(),
        source: IdentitySource::Agent,
        fingerprint_sha256: None,
        path: Some("accepted-comment ".to_string()),
        secret_ref: None,
    }];

    let (filtered, allowed) = filter_identity_response(&response, &refs).unwrap();
    let allowed: HashSet<Vec<u8>> = allowed.into_iter().collect();
    assert_eq!(allowed, HashSet::from([b"accepted-key".to_vec()]));
    let mut offset = 1_usize;
    assert_eq!(filtered[0], SSH_AGENT_IDENTITIES_ANSWER);
    assert_eq!(read_u32(&filtered, &mut offset), Some(1));
    assert_eq!(
        read_ssh_string(&filtered, &mut offset),
        Some(&b"accepted-key"[..])
    );
    assert_eq!(
        read_ssh_string(&filtered, &mut offset),
        Some(&b"accepted-comment "[..])
    );
    assert_eq!(offset, filtered.len());
}

#[test]
fn filtered_agent_parser_rejects_truncated_and_trailing_identity_data() {
    assert!(filter_identity_response(&[SSH_AGENT_IDENTITIES_ANSWER], &[]).is_err());

    let mut response = vec![SSH_AGENT_IDENTITIES_ANSWER];
    response.extend_from_slice(&0_u32.to_be_bytes());
    response.push(0);
    assert!(filter_identity_response(&response, &[]).is_err());
}

#[test]
fn filtered_agent_sign_request_reads_the_exact_key_blob() {
    let mut request = vec![SSH_AGENT_SIGN_REQUEST];
    push_ssh_string(&mut request, b"selected-key").unwrap();
    push_ssh_string(&mut request, b"payload").unwrap();
    request.extend_from_slice(&0_u32.to_be_bytes());
    assert_eq!(sign_request_key_blob(&request), Some(&b"selected-key"[..]));
    assert!(sign_request_key_blob(&[SSH_AGENT_SIGN_REQUEST, 0, 0]).is_none());
}

#[test]
fn agent_filter_errors_name_the_malformed_part() {
    assert_eq!(
        filter_identity_response(&[SSH_AGENT_IDENTITIES_ANSWER, 0, 0], &[]).unwrap_err(),
        "SSH agent identities 响应缺少数量"
    );
    let mut response = vec![SSH_AGENT_IDENTITIES_ANSWER];
    response.extend_from_slice(&1_u32.to_be_bytes());
    response.extend_from_slice(&[0, 0, 0, 9, 1]);
    assert_eq!(
        filter_identity_response(&response, &[]).unwrap_err(),
        "SSH agent identities 响应包含损坏的公钥"
    );
    let mut response = vec![SSH_AGENT_IDENTITIES_ANSWER];
    response.extend_from_slice(&1_u32.to_be_bytes());
    push_ssh_string(&mut response, b"key").unwrap();
    assert_eq!(
        filter_identity_response(&response, &[]).unwrap_err(),
        "SSH agent identities 响应包含损坏的注释"
    );
    let mut response = vec![SSH_AGENT_IDENTITIES_ANSWER];
    response.extend_from_slice(&0_u32.to_be_bytes());
    response.push(7);
    assert_eq!(
        filter_identity_response(&response, &[]).unwrap_err(),
        "SSH agent identities 响应包含尾随数据"
    );
}

#[test]
fn non_identity_responses_pass_through_unchanged() {
    let (out, allowed) = filter_identity_response(&[5, 1, 2], &[]).unwrap();
    assert_eq!(out, vec![5, 1, 2]);
    assert!(allowed.is_empty());
    let (out, allowed) = filter_identity_response(&[], &[]).unwrap();
    assert!(out.is_empty());
    assert!(allowed.is_empty());
}

#[test]
fn refiltering_a_filtered_answer_is_unchanged() {
    let mut response = vec![SSH_AGENT_IDENTITIES_ANSWER];
    response.extend_from_slice(&3_u32.to_be_bytes());
    for (key, comment) in [("k1", "keep"), ("k2", "drop"), ("k3", "keep")] {
        push_ssh_string(&mut response, key.as_bytes()).unwrap();
        push_ssh_string(&mut response, comment.as_bytes()).unwrap();
    }
    let refs = [agent_ref("keep", None, None)];
    let (once, allowed) = filter_identity_response(&response, &refs).unwrap();
    assert_eq!(allowed, vec![b"k1".to_vec(), b"k3".to_vec()]);
    let (twice, again) = filter_identity_response(&once, &refs).unwrap();
    assert_eq!(once, twice);
    assert_eq!(allowed, again);
}

#[test]
fn ssh_strings_read_back_after_push() {
    let mut buffer = vec![9_u8];
    push_ssh_string(&mut buffer, b"abc").unwrap();
    assert_eq!(buffer, vec![9, 0, 0, 0, 3, b'a', b'b', b'c']);
    let mut offset = 1;
    assert_eq!(read_ssh_string(&buffer, &mut offset), Some(&b"abc"[..]));
    assert_eq!(offset, buffer.len());
    let mut offset = 1;
    assert_eq!(read_ssh_string(&buffer[..6], &mut offset), None);
    assert_eq!(offset, 5);
    let mut offset = 6;
    assert_eq!(read_u32(&buffer, &mut offset), None);
    assert_eq!(offset, 6);
}

#[test]
fn identity_matching_prefers_fingerprint_then_path_then_label() {
    // A fingerprint reference only matches parsable key blobs with that fingerprint.
    let by_fingerprint = [agent_ref("comment", None, Some("SHA256:abc"))];
    assert!(!agent_identity_blob_matches(b"not-a-key", b"comment", &by_fingerprint));
    // Blank fingerprints fall back to the path; the path is compared exactly.
    let by_path = [agent_ref("comment", Some("/k"), Some("   "))];
    assert!(agent_identity_blob_matches(b"x", b"/k", &by_path));
    assert!(!agent_identity_blob_matches(b"x", b"comment", &by_path));
    // A blank label never matches, even an empty comment.
    let blank = [agent_ref("  ", Some(" "), None)];
    assert!(!agent_identity_blob_matches(b"x", b"  ", &blank));
}

#[test]
fn agent_frames_carry_their_length() {
    let frame = agent_frame(&[11]).unwrap();
    assert_eq!(frame, vec![0, 0, 0, 1, 11]);
    assert_eq!(agent_frame_length(&frame[..4]), Ok(1));
    assert_eq!(agent_frame_length(&[0, 4, 0, 0]), Ok(262144));
    assert_eq!(
        agent_frame_length(&[0, 4, 0, 1]),
        Err("SSH agent 帧长度超出边界: 262145".to_string())
    );
    assert_eq!(agent_frame_length(&[0, 0, 0, 0]), Err("SSH agent 帧长度超出边界: 0".to_string()));
    assert_eq!(agent_frame(&[]).unwrap(), vec![0, 0, 0, 0]);
}

#[test]
fn filtered_agent_allows_each_key_once() {
    let mut response = vec![SSH_AGENT_IDENTITIES_ANSWER];
    response.extend_from_slice(&2_u32.to_be_bytes());
    push_ssh_string(&mut response, b"same-key").unwrap();
    push_ssh_string(&mut response, b"c").unwrap();
    push_ssh_string(&mut response, b"same-key").unwrap();
    push_ssh_string(&mut response, b"c").unwrap();
    let refs = [IdentityRef {
        id: "x".to_string(),
        label: "c".to_string(),
        source: IdentitySource::Agent,
        fingerprint_sha256: None,
        path: None,
        secret_ref: None,
    }];
    let (filtered, allowed) = filter_identity_response(&response, &refs).unwrap();
    assert_eq!(filtered, response);
    assert_eq!(allowed, vec![b"same-key".to_vec()]);
}
