use portmate_ssh::gssapi_cache::{
    gssapi_credential_cache_file, kerberos_cache_header_verdict, kerberos_cache_metadata_verdict,
    kerberos_cache_name_verdict, kerberos_cache_open_verdict, kerberos_principal_verdict,
    CacheOpenOutcome,
};

#[test]
fn cache_names_that_point_at_files() {
    assert_eq!(gssapi_credential_cache_file(None), Ok(None));
    assert_eq!(
        gssapi_credential_cache_file(Some(b"FILE:/tmp/krb5cc_1000")),
        Ok(Some(b"/tmp/krb5cc_1000".to_vec()))
    );
    assert_eq!(
        gssapi_credential_cache_file(Some(b"/tmp/krb5cc_1000")),
        Ok(Some(b"/tmp/krb5cc_1000".to_vec()))
    );
    assert_eq!(gssapi_credential_cache_file(Some(b"KEYRING:persistent:1000")), Ok(None));
    assert_eq!(gssapi_credential_cache_file(Some(b"DIR::/run/user/1000/krb5cc")), Ok(None));
    let empty = Err(
        "GSSAPI authentication refused: Kerberos FILE credential cache path is empty".to_string(),
    );
    assert_eq!(gssapi_credential_cache_file(Some(b"FILE:")), empty);
    assert_eq!(gssapi_credential_cache_file(Some(b"")), empty);
}

#[test]
fn opening_and_metadata_of_the_cache() {
    assert_eq!(kerberos_cache_open_verdict(&CacheOpenOutcome::Opened), None);
    assert_eq!(kerberos_cache_open_verdict(&CacheOpenOutcome::NotFound), Some(Ok(())));
    assert_eq!(
        kerberos_cache_open_verdict(&CacheOpenOutcome::Failed("permission denied".to_string())),
        Some(Err(
            "GSSAPI authentication refused: Kerberos FILE credential cache cannot be opened: permission denied"
                .to_string()
        ))
    );
    assert_eq!(
        kerberos_cache_metadata_verdict(&Err("io".to_string())),
        Err("GSSAPI authentication refused: Kerberos FILE credential cache metadata is unavailable: io"
            .to_string())
    );
    assert_eq!(
        kerberos_cache_metadata_verdict(&Ok((false, 100))),
        Err("GSSAPI authentication refused: Kerberos FILE credential cache is not a regular file"
            .to_string())
    );
    assert_eq!(
        kerberos_cache_metadata_verdict(&Ok((true, 15))),
        Err("GSSAPI authentication refused: Kerberos FILE credential cache is truncated".to_string())
    );
    assert_eq!(kerberos_cache_metadata_verdict(&Ok((true, 16))), Ok(()));
}

#[test]
fn kerberos_library_answers() {
    assert_eq!(kerberos_cache_name_verdict(b"/tmp/krb5cc"), Ok(()));
    assert_eq!(
        kerberos_cache_name_verdict(b"/tmp/\0krb5cc"),
        Err("GSSAPI authentication refused: Kerberos FILE credential cache path contains NUL"
            .to_string())
    );
    assert_eq!(
        kerberos_principal_verdict(false, true, 0),
        Err("GSSAPI authentication refused: Kerberos credential context is unavailable".to_string())
    );
    assert_eq!(
        kerberos_principal_verdict(true, false, 0),
        Err("GSSAPI authentication refused: Kerberos FILE credential cache cannot be resolved"
            .to_string())
    );
    assert_eq!(
        kerberos_principal_verdict(true, true, -1765328189),
        Err("GSSAPI authentication refused: Kerberos FILE credential cache is invalid or unreadable"
            .to_string())
    );
    assert_eq!(kerberos_principal_verdict(true, true, 0), Ok(()));
}

#[test]
fn cache_headers_carry_a_format_version() {
    assert_eq!(kerberos_cache_header_verdict(Some((5, 4))), Ok(()));
    assert_eq!(kerberos_cache_header_verdict(Some((5, 1))), Ok(()));
    let invalid = Err(
        "GSSAPI authentication refused: Kerberos FILE credential cache header is invalid".to_string(),
    );
    assert_eq!(kerberos_cache_header_verdict(Some((5, 0))), invalid);
    assert_eq!(kerberos_cache_header_verdict(Some((5, 5))), invalid);
    assert_eq!(kerberos_cache_header_verdict(Some((4, 4))), invalid);
    assert_eq!(
        kerberos_cache_header_verdict(None),
        Err("GSSAPI authentication refused: Kerberos FILE credential cache is truncated".to_string())
    );
}
