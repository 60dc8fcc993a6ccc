use portmate_ssh::reconnect::SessionStatus;
use portmate_ssh::record_ids::reserve_unique_loaded_session_id;
use portmate_ssh::session_remap::{
    loaded_runtime_disconnect, remap_loaded_session_id, LoadedSessionIdRemap,
};

#[test]
fn taken_session_ids_get_a_loaded_suffix() {
    let mut used = vec![];
    assert_eq!(reserve_unique_loaded_session_id("p", 0, &mut used, 64), "p");
    assert_eq!(reserve_unique_loaded_session_id("p", 1, &mut used, 64), "p:loaded:2");
    assert_eq!(reserve_unique_loaded_session_id("p", 1, &mut used, 64), "p:loaded:3");
    assert_eq!(used, vec!["p", "p:loaded:2", "p:loaded:3"]);
}

#[test]
fn generated_session_ids_stay_within_the_limit() {
    let mut used = vec!["abcdefghij".to_string()];
    assert_eq!(reserve_unique_loaded_session_id("abcdefghij", 8, &mut used, 12), "abc:loaded:9");
    assert_eq!(reserve_unique_loaded_session_id("abcdefghij", 8, &mut used, 12), "ab:loaded:10");
    assert_eq!(reserve_unique_loaded_session_id("abcdefghij", 98, &mut used, 5), ":loaded:99");
}

#[test]
fn references_follow_their_profiles() {
    let mut remap = LoadedSessionIdRemap::new();
    remap.insert(" Prod ", "prod", "prod");
    remap.insert("prod", "prod", "prod:loaded:2");
    assert_eq!(remap.resolve(" Prod ", "prod"), "prod");
    assert_eq!(remap.resolve("prod", "prod"), "prod:loaded:2");
    assert_eq!(remap.resolve("PROD", "prod"), "PROD");
    remap.insert("dev", "dev", "dev");
    remap.insert("dev ", "dev", "dev");
    assert_eq!(remap_loaded_session_id("Dev", "dev", &remap), "dev");
    assert_eq!(remap_loaded_session_id("other", "other", &remap), "other");
}

#[test]
fn live_runtimes_record_the_interruption_on_load() {
    assert_eq!(
        loaded_runtime_disconnect(SessionStatus::Connected, Some(5), None, 100),
        (Some(100), Some("connection interrupted by previous PortMate shutdown".to_string()))
    );
    assert_eq!(
        loaded_runtime_disconnect(SessionStatus::Connecting, None, None, 100),
        (Some(100), Some("connection attempt interrupted by previous PortMate shutdown".to_string()))
    );
    assert_eq!(
        loaded_runtime_disconnect(SessionStatus::Reconnecting, Some(5), None, 100),
        (Some(5), Some("reconnect interrupted by previous PortMate shutdown".to_string()))
    );
    assert_eq!(
        loaded_runtime_disconnect(SessionStatus::Reconnecting, None, None, 100),
        (Some(100), Some("reconnect interrupted by previous PortMate shutdown".to_string()))
    );
    assert_eq!(
        loaded_runtime_disconnect(SessionStatus::Error, Some(7), Some("boom".to_string()), 100),
        (Some(7), Some("boom".to_string()))
    );
}
