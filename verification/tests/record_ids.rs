use portmate_ssh::record_ids::{normalize_loaded_record_ids, reserve_unique_loaded_record_id};

fn strings(v: &[&str]) -> Vec<String> {
    v.iter().map(|s| s.to_string()).collect()
}

#[test]
fn duplicate_and_empty_record_ids_get_loaded_suffixes() {
    let mut ids = strings(&["a", "", "a", "event:loaded:2"]);
    normalize_loaded_record_ids(&mut ids, "event");
    assert_eq!(ids, strings(&["a", "event:loaded:3", "a:loaded:3", "event:loaded:2"]));
}

#[test]
fn unique_record_ids_are_kept() {
    let mut ids = strings(&["x", "y", "z"]);
    normalize_loaded_record_ids(&mut ids, "audit");
    assert_eq!(ids, strings(&["x", "y", "z"]));
    let mut again = ids.clone();
    normalize_loaded_record_ids(&mut again, "audit");
    assert_eq!(again, ids);
}

#[test]
fn reserved_ids_are_skipped_when_assigning() {
    let reserved = strings(&["host-key:loaded:1", "host-key:loaded:2"]);
    let mut used = Vec::new();
    let id = reserve_unique_loaded_record_id("", "host-key", 0, &reserved, &mut used);
    assert_eq!(id, "host-key:loaded:3");
    assert_eq!(used, strings(&["host-key:loaded:3"]));
    let id = reserve_unique_loaded_record_id("k", "host-key", 4, &reserved, &mut used);
    assert_eq!(id, "k");
    let id = reserve_unique_loaded_record_id("k", "host-key", 4, &reserved, &mut used);
    assert_eq!(id, "k:loaded:5");
}
