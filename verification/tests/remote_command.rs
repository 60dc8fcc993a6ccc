use portmate_ssh::remote_command::{shell_quote, windows_powershell_command, windows_powershell_encoded_script};

#[test]
fn shell_values_are_single_quoted() {
    assert_eq!(shell_quote("plain"), "'plain'");
    assert_eq!(shell_quote("it's"), "'it'\\''s'");
    assert_eq!(shell_quote(""), "''");
}

#[test]
fn powershell_scripts_are_encoded_as_utf16le_base64() {
    assert_eq!(windows_powershell_encoded_script("ls"), "bABzAA==");
    assert_eq!(windows_powershell_encoded_script(""), "");
    assert_eq!(windows_powershell_encoded_script("é"), "6QA=");
    assert_eq!(
        windows_powershell_command("ls"),
        "powershell.exe -NoLogo -NoProfile -NonInteractive -EncodedCommand bABzAA=="
    );
}
