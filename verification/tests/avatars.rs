use wptui::avatar_cache::{
    current_file_name, picture_file_name, safe_key, valid_current_id, valid_loaded_picture, valid_store_entry,
    AvatarDiskCache, MAX_PERSISTED_BYTES,
};
use wptui::avatar_window::prioritized_avatar_requests;
use wptui::avatars::{
    retry_eligible, AvatarOutcome, AvatarTarget, ContactAvatars, FailureEntry, AVATAR_CACHE_CAPACITY,
    AVATAR_WORKERS, RETRY_COOLDOWN_MS,
};

fn jid(index: usize) -> String {
    format!("{index}@s.whatsapp.net")
}

fn target(index: usize) -> AvatarTarget {
    AvatarTarget { key: jid(index) }
}

fn has(v: &[AvatarTarget], t: &AvatarTarget) -> bool {
    v.iter().any(|x| x.key == t.key)
}

#[test]
fn visible_and_overscan_requests_are_selected_first_then_visible_then_edges() {
    let chats = (0..12).map(jid).collect::<Vec<_>>();
    assert_eq!(
        prioritized_avatar_requests(&chats, Some(5), 4, 3),
        vec![jid(5), jid(4), jid(6), jid(1), jid(2), jid(3), jid(7), jid(8), jid(9)]
    );
}

#[test]
fn empty_list_or_viewport_requests_nothing() {
    let chats = (0..4).map(jid).collect::<Vec<_>>();
    assert!(prioritized_avatar_requests(&chats, Some(1), 0, 0).is_empty());
    assert!(prioritized_avatar_requests(&[], None, 0, 5).is_empty());
}

#[test]
fn scheduler_deduplicates_in_flight_and_replaces_fast_scroll_generation() {
    let mut avatars = ContactAvatars::new();
    avatars.generation = 1;
    avatars.requested = vec![target(1), target(2)];
    avatars.in_flight.extend([target(1), target(2)]);
    avatars.generation = 2;
    avatars.requested = vec![target(8)];
    let requested = avatars.requested.iter().map(|t| t.key.clone()).collect::<Vec<_>>();
    avatars.in_flight.retain(|candidate| requested.contains(&candidate.key));

    assert!(avatars.in_flight.is_empty());
    assert!(!avatars.apply(AvatarOutcome::Failed { generation: 1, target: target(1) }, 0).accepted);
    assert!(!avatars.failures.iter().any(|f| f.target.key == target(1).key));
}

#[test]
fn worker_count_is_bounded_to_two() {
    assert_eq!(AVATAR_WORKERS, 2);
}

#[test]
fn unavailable_is_session_negative_and_transient_failure_has_cooldown() {
    let mut avatars = ContactAvatars::new();
    avatars.generation = 3;
    avatars.requested = vec![target(1), target(2)];
    let now = 1_000;

    assert!(avatars.apply(AvatarOutcome::Unavailable { generation: 3, target: target(1) }, now).accepted);
    assert!(has(&avatars.unavailable, &target(1)));
    assert!(avatars.apply(AvatarOutcome::Failed { generation: 3, target: target(2) }, now).accepted);
    let failure = avatars.failures.iter().find(|f| f.target.key == target(2).key).unwrap();
    assert!(failure.retry_at > now);
    assert_eq!(failure.retry_at, now + RETRY_COOLDOWN_MS);
}

#[test]
fn unchanged_window_failure_becomes_retry_eligible_after_cooldown() {
    let failed_at = 5_000u64;
    let retry_at = failed_at + RETRY_COOLDOWN_MS;
    let failure = (7, retry_at);

    assert!(!retry_eligible(Some(failure), 7, failed_at + RETRY_COOLDOWN_MS - 1));
    assert!(retry_eligible(Some(failure), 7, retry_at));
    assert!(retry_eligible(None, 7, failed_at));
}

#[test]
fn failure_of_an_older_window_does_not_hold_back_a_new_one() {
    assert!(retry_eligible(Some((6, 100)), 7, 0));
}

#[test]
fn disk_keys_are_contained_and_atomic_replacement_updates_current_picture() {
    let hostile = jid(99);
    let name = picture_file_name(&hostile, "../../first");
    assert!(!name.contains('/'));
    let cache = AvatarDiskCache::with_root("/tmp/avatars".to_string());
    let first_path = std::path::PathBuf::from(cache.picture_path(&hostile, "../../first"));
    assert!(first_path.starts_with(cache.root()));
    assert_eq!(first_path.parent(), Some(std::path::Path::new(cache.root())));
    let current = std::path::PathBuf::from(cache.current_path(&hostile));
    assert_eq!(current.parent(), Some(std::path::Path::new(cache.root())));
    assert_eq!(current.file_name().unwrap().to_str().unwrap(), current_file_name(&hostile));
}

#[test]
fn safe_keys_are_sixteen_hex_digits() {
    let key = safe_key("../../first");
    assert_eq!(key.len(), 16);
    assert!(key.chars().all(|c| c.is_ascii_hexdigit() && !c.is_ascii_uppercase()));
    assert_eq!(safe_key(""), "cbf29ce484222325");
    assert_ne!(safe_key("a"), safe_key("b"));
}

#[test]
fn disk_entries_are_bounded() {
    assert!(valid_store_entry(3, 6));
    assert!(!valid_store_entry(0, 6));
    assert!(!valid_store_entry(MAX_PERSISTED_BYTES + 1, 6));
    assert!(!valid_store_entry(3, 1025));
    assert!(valid_current_id(7));
    assert!(!valid_current_id(0));
    assert!(!valid_current_id(1025));
    assert!(valid_loaded_picture(MAX_PERSISTED_BYTES));
    assert!(!valid_loaded_picture(0));
}

#[test]
fn unchanged_picture_keeps_protocol_while_changed_picture_replaces_it() {
    let mut avatars = ContactAvatars::new();
    let contact = target(1);
    avatars.generation = 1;
    avatars.requested = vec![AvatarTarget { key: contact.key.clone() }];
    avatars.insert_picture(&contact, "old".to_string());
    assert!(avatars.mark_refreshed(1, AvatarTarget { key: contact.key.clone() }));
    assert_eq!(avatars.pictures.iter().find(|p| p.target.key == contact.key).unwrap().picture_id, "old");

    let same = avatars.apply(
        AvatarOutcome::Available {
            generation: 1,
            target: AvatarTarget { key: contact.key.clone() },
            picture_id: "old".to_string(),
        },
        0,
    );
    assert!(same.accepted && !same.store_picture);

    let applied = avatars.apply(
        AvatarOutcome::Available {
            generation: 1,
            target: AvatarTarget { key: contact.key.clone() },
            picture_id: "new".to_string(),
        },
        0,
    );
    assert!(applied.accepted && applied.store_picture);
    assert_eq!(avatars.pictures.iter().find(|p| p.target.key == contact.key).unwrap().picture_id, "new");
}

#[test]
fn cached_intermediate_result_does_not_reenqueue_refresh() {
    let mut avatars = ContactAvatars::new();
    let contact = target(1);
    avatars.generation = 1;
    avatars.requested = vec![target(1)];
    avatars.in_flight.push(target(1));

    assert!(avatars
        .apply(AvatarOutcome::Cached { generation: 1, target: target(1), picture_id: "cached".to_string() }, 0)
        .accepted);
    assert!(has(&avatars.in_flight, &contact));
    assert!(avatars.take_requests(0).is_empty());
}

#[test]
fn stale_generation_result_does_not_clear_current_in_flight() {
    let mut avatars = ContactAvatars::new();
    let contact = target(1);
    avatars.generation = 2;
    avatars.requested = vec![target(1)];
    avatars.in_flight.push(target(1));

    assert!(!avatars
        .apply(AvatarOutcome::Available { generation: 1, target: target(1), picture_id: "stale".to_string() }, 0)
        .accepted);
    assert!(has(&avatars.in_flight, &contact));
}

#[test]
fn unchanged_window_failure_emits_no_request_before_cooldown() {
    let mut avatars = ContactAvatars::new();
    avatars.generation = 1;
    avatars.requested = vec![target(1)];
    avatars.in_flight.push(target(1));
    let now = 10_000;
    avatars.apply(AvatarOutcome::Failed { generation: 1, target: target(1) }, now);

    assert!(avatars.take_requests(now).is_empty());
    assert!(avatars.take_requests(now).is_empty());
}

#[test]
fn unchanged_window_failure_enqueues_exactly_one_request_at_cooldown() {
    let mut avatars = ContactAvatars::new();
    let contact = target(1);
    let retry_at = 50_000;
    avatars.generation = 1;
    avatars.requested = vec![target(1)];
    avatars.failures.push(FailureEntry { target: target(1), generation: 1, retry_at });

    assert_eq!(avatars.take_requests(retry_at).len(), 1);
    assert!(avatars.take_requests(retry_at).is_empty());
    assert!(has(&avatars.in_flight, &contact));
}

#[test]
fn stale_cached_avatar_is_ready_before_session_refresh_completes() {
    let mut avatars = ContactAvatars::new();
    let contact = target(1);
    avatars.generation = 1;
    avatars.requested = vec![target(1)];

    assert!(avatars
        .apply(AvatarOutcome::Cached { generation: 1, target: target(1), picture_id: "cached".to_string() }, 0)
        .accepted);
    assert!(avatars.touch(&contact));
    assert!(!has(&avatars.refreshed, &contact));
}

#[test]
fn memory_lru_evicts_at_32_without_touching_message_cache_state() {
    let mut avatars = ContactAvatars::new();
    let mut evicted = Vec::new();
    for index in 0..=AVATAR_CACHE_CAPACITY {
        if let Some(t) = avatars.insert_picture(&target(index), format!("picture-{index}")) {
            evicted.push(t.key);
        }
    }
    assert_eq!(avatars.pictures.len(), AVATAR_CACHE_CAPACITY);
    assert!(!avatars.pictures.iter().any(|p| p.target.key == target(0).key));
    assert_eq!(evicted, vec![jid(0)]);
}

#[test]
fn touching_a_picture_protects_it_from_eviction() {
    let mut avatars = ContactAvatars::new();
    for index in 0..AVATAR_CACHE_CAPACITY {
        avatars.insert_picture(&target(index), format!("picture-{index}"));
    }
    assert!(avatars.touch(&target(0)));
    let evicted = avatars.insert_picture(&target(100), "late".to_string());
    assert_eq!(evicted.map(|t| t.key), Some(jid(1)));
}

#[test]
fn clearing_window_invalidates_results_without_waiting_for_workers() {
    let mut avatars = ContactAvatars::new();
    avatars.generation = 4;
    avatars.requested = vec![target(1)];
    avatars.clear_window();
    assert!(avatars.requested.is_empty());
    assert!(!avatars.apply(AvatarOutcome::Failed { generation: 4, target: target(1) }, 0).accepted);
}

#[test]
fn a_new_window_starts_a_new_generation_and_requests_it() {
    let mut avatars = ContactAvatars::new();
    let first = avatars.schedule_window(vec![target(1), target(2)], 0);
    assert_eq!(avatars.generation, 1);
    assert_eq!(first.len(), 2);
    assert!(first.iter().all(|r| r.generation == 1));
    let again = avatars.schedule_window(vec![target(1), target(2)], 0);
    assert_eq!(avatars.generation, 1);
    assert!(again.is_empty());
    avatars.schedule_window(vec![target(3)], 0);
    assert_eq!(avatars.generation, 2);
}
