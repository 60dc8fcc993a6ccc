use portmate_ssh::listener_probe::{parse_remote_listener_probe, socket_endpoint_port, RemoteListenerProbe};

#[test]
fn endpoint_ports_are_read_after_the_last_colon() {
    assert_eq!(socket_endpoint_port("127.0.0.1:8080"), Some(8080));
    assert_eq!(socket_endpoint_port("[::1]:22,"), Some(22));
    assert_eq!(socket_endpoint_port("(*:443)"), Some(443));
    assert_eq!(socket_endpoint_port("*.8080"), Some(8080));
    assert_eq!(socket_endpoint_port("host:99999"), None);
    assert_eq!(socket_endpoint_port("nohost"), None);
}

#[test]
fn listener_probes_read_each_tool_output() {
    assert_eq!(parse_remote_listener_probe("__PORTMATE_UNSUPPORTED__", 22), RemoteListenerProbe::Unsupported);
    assert_eq!(parse_remote_listener_probe("nothing", 22), RemoteListenerProbe::Unsupported);
    assert_eq!(
        parse_remote_listener_probe("__PORTMATE_WINDOWS_TCP__\n 80 \n8080\n", 8080),
        RemoteListenerProbe::Listening
    );
    assert_eq!(
        parse_remote_listener_probe("__PORTMATE_WINDOWS_TCP__\n80\n", 8080),
        RemoteListenerProbe::Missing
    );
    let proc_table = "__PORTMATE_PROC__\n  sl  local_address rem_address   st\n   0: 00000000:1F90 00000000:0000 0A 0\n";
    assert_eq!(parse_remote_listener_probe(proc_table, 8080), RemoteListenerProbe::Listening);
    assert_eq!(parse_remote_listener_probe(proc_table, 8081), RemoteListenerProbe::Missing);
    let ss = "__PORTMATE_SS__\nLISTEN 0 128 0.0.0.0:2222 0.0.0.0:*\n";
    assert_eq!(parse_remote_listener_probe(ss, 2222), RemoteListenerProbe::Listening);
    assert_eq!(parse_remote_listener_probe(ss, 22), RemoteListenerProbe::Missing);
    let sockstat = "header\n__PORTMATE_SOCKSTAT__\nUSER COMMAND PID FD PROTO LOCAL ADDRESS\nroot sshd 1 3 tcp4 *:22 *:*\n";
    assert_eq!(parse_remote_listener_probe(sockstat, 22), RemoteListenerProbe::Listening);
    assert_eq!(parse_remote_listener_probe(sockstat, 23), RemoteListenerProbe::Missing);
}
