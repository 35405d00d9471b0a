use chronos::metadata::keys::{
    generator_key, legacy_request_cleanup_index_cutoff, legacy_request_cleanup_index_key,
    legacy_request_cleanup_index_prefix, legacy_request_key, legacy_request_key_is_unambiguous,
    request_cleanup_index_cutoff, request_cleanup_index_key, request_key,
    timeline_creation_lock_key, timeline_key, timeline_status_index_prefix,
    timeline_status_index_rebuild_lock_key, timeline_status_owner_index_key,
    timeline_status_owner_index_prefix, timeline_status_state_index_key,
    timeline_status_state_index_prefix,
};

#[test]
fn request_keys_encode_each_component_without_cross_timeline_collisions() {
    let first = request_key("/chronos", "a/b", "c");
    let second = request_key("/chronos", "a", "b/c");

    assert_ne!(first, second);
    assert_eq!(
        legacy_request_key("/chronos", "a/b", "c"),
        legacy_request_key("/chronos", "a", "b/c")
    );
    assert!(!legacy_request_key_is_unambiguous("a/b", "c"));
    assert!(legacy_request_key_is_unambiguous("a", "c"));
}

#[test]
fn cleanup_index_keys_encode_external_components() {
    assert_ne!(
        request_cleanup_index_key("", 42, "a/b", "c"),
        request_cleanup_index_key("", 42, "a", "b/c")
    );
}

#[test]
fn status_index_rebuild_lock_is_outside_the_deleted_index_prefix() {
    assert!(!timeline_status_index_rebuild_lock_key("/chronos")
        .starts_with(&timeline_status_index_prefix("/chronos")));
}

#[test]
fn keys_stand_in_their_namespaces() {
    assert_eq!(timeline_key("/chronos", "timeline-a"), "/chronos/routes/timeline-a");
    assert_eq!(generator_key("/chronos", 7), "/chronos/generators/7");
    assert_eq!(generator_key("", 4294967295), "generators/4294967295");
}

#[test]
fn index_entries_before_the_cutoff_are_the_older_ones() {
    let cutoff = request_cleanup_index_cutoff("/chronos", 100);

    assert!(request_cleanup_index_key("/chronos", 99, "zz", "zz") < cutoff);
    assert!(request_cleanup_index_key("/chronos", 100, "", "") > cutoff);
    assert!(request_cleanup_index_key("/chronos", 1000, "a", "a") > cutoff);
}

#[test]
fn status_index_entries_lie_in_the_range_of_their_state() {
    assert!(timeline_status_state_index_key("/chronos", "Active", "timeline-a")
        .starts_with(&timeline_status_state_index_prefix("/chronos", "Active")));
    assert!(!timeline_status_state_index_key("/chronos", "Active", "timeline-a")
        .starts_with(&timeline_status_state_index_prefix("/chronos", "Draining")));
}

#[test]
fn older_cleanup_keys_write_their_components_as_they_are() {
    assert_eq!(
        legacy_request_cleanup_index_key("/chronos", 42, "timeline-a", "request-1"),
        "/chronos/request_cleanup/00000000000000000042/timeline-a/request-1"
    );
    assert_eq!(legacy_request_cleanup_index_prefix("/chronos"), "/chronos/request_cleanup/");
    assert_eq!(
        legacy_request_cleanup_index_cutoff("/chronos", 42),
        "/chronos/request_cleanup/00000000000000000042/"
    );
    assert_eq!(
        timeline_creation_lock_key("/chronos"),
        "/chronos/cluster/timeline_creation_lock"
    );
}

#[test]
fn keys_of_different_things_never_collide() {
    assert_ne!(generator_key("/chronos", 1), generator_key("/chronos", 11));
    assert_ne!(
        timeline_status_owner_index_key("", "a", "b/c"),
        timeline_status_owner_index_key("", "a/b", "c")
    );
    assert_eq!(
        timeline_status_owner_index_key("", " A ", "c"),
        timeline_status_owner_index_key("", "a", "c")
    );
    assert!(!timeline_status_owner_index_key("", "worker-10", "t")
        .starts_with(&timeline_status_owner_index_prefix("", "worker-1")));
    assert!(!timeline_key("", "timeline_status/x").starts_with(&timeline_status_index_prefix("")));
    assert_ne!(request_key("", "t", "r"), request_cleanup_index_key("", 0, "t", "r"));
}
