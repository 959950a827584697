use wptui::chat_ordering::{message_time_update, sorted_chat_jids, sorted_message_order, Chat, MessageKey};
use wptui::contacts::{canonical_contact_name, contact_name, message_sender_name};
use wptui::media_cache::{evict_for_insert, metadata_after_eviction, touch_order, IMAGE_CACHE_CAPACITY};
use wptui::events::{FileMeta, Metadata};
use wptui::hydration::{action_sequence, continue_action_sequence, hydrate, Hydration};
use wptui::store::{MessageStore, Reaction};
use wptui::chat_list::view_refresh;
use wptui::read_state::{
    is_group_chat, is_status_chat, pending_after, status_read_advances, status_seen_after_store, unread_boundary,
    ChatTimeline, StoredMessage, apply_remote_read, decide_remote_read, ReadDecision, ReadRejection, RemoteRead,
};
use wptui::text_order::{compare_text, cursor_before, Comparison};

fn message(id: &str, timestamp: i64, is_from_me: bool) -> StoredMessage {
    StoredMessage {
        id: id.to_string(),
        chat: "chat@example.test".to_string(),
        sender: "sender@example.test".to_string(),
        timestamp,
        is_from_me,
        read_by: 0,
    }
}

#[test]
fn canonicalizes_protocol_contact_prefixes() {
    assert_eq!(canonical_contact_name("~ Alice"), "Alice");
    assert_eq!(canonical_contact_name("+ Bob"), "Bob");
}

#[test]
fn canonical_names_are_trimmed_around_the_marker() {
    assert_eq!(canonical_contact_name("  ~  Carol  "), "Carol");
    assert_eq!(canonical_contact_name("Dave"), "Dave");
    assert_eq!(canonical_contact_name("~Eve"), "~Eve");
}

#[test]
fn contact_name_falls_back_to_the_jid() {
    assert_eq!(contact_name(None, "alice@example.test"), "alice@example.test");
    assert_eq!(contact_name(Some("~ Alice"), "alice@example.test"), "Alice");
}

#[test]
fn local_contact_name_wins_over_message_push_name() {
    assert_eq!(
        message_sender_name(Some("Saved Full Name"), Some("WhatsApp Profile"), "123@s.whatsapp.net"),
        "Saved Full Name"
    );
}

#[test]
fn unsaved_message_push_name_is_plain_and_numeric_is_final_fallback() {
    assert_eq!(message_sender_name(None, Some("WhatsApp Profile"), "123@s.whatsapp.net"), "WhatsApp Profile");
    assert_eq!(message_sender_name(None, None, "456@s.whatsapp.net"), "456@s.whatsapp.net");
}

#[test]
fn out_of_order_history_is_sorted_oldest_first() {
    let keys = [("newest", 30), ("oldest", 10), ("middle", 20)]
        .iter()
        .map(|(id, t)| MessageKey { id: id.to_string(), timestamp: Some(*t) })
        .collect::<Vec<_>>();
    let order = sorted_message_order(&keys);
    assert_eq!(order.iter().map(|i| keys[*i].id.as_str()).collect::<Vec<_>>(), ["oldest", "middle", "newest"]);
}

#[test]
fn equal_timestamps_are_tied_by_message_id() {
    let keys = ["message-c", "message-a", "message-b"]
        .iter()
        .map(|id| MessageKey { id: id.to_string(), timestamp: Some(10) })
        .collect::<Vec<_>>();
    let order = sorted_message_order(&keys);
    assert_eq!(
        order.iter().map(|i| keys[*i].id.as_str()).collect::<Vec<_>>(),
        ["message-a", "message-b", "message-c"]
    );
}

#[test]
fn unknown_messages_sort_first() {
    let keys = vec![
        MessageKey { id: "b".to_string(), timestamp: Some(-5) },
        MessageKey { id: "a".to_string(), timestamp: None },
    ];
    assert_eq!(sorted_message_order(&keys), vec![1, 0]);
}

#[test]
fn chats_are_listed_most_recent_first_without_broadcast_lists() {
    let chats = vec![
        Chat { jid: "old@s.whatsapp.net".to_string(), last_message_time: Some(1) },
        Chat { jid: "list@broadcast".to_string(), last_message_time: Some(9) },
        Chat { jid: "new@s.whatsapp.net".to_string(), last_message_time: Some(5) },
        Chat { jid: "empty@s.whatsapp.net".to_string(), last_message_time: None },
        Chat { jid: "tie@s.whatsapp.net".to_string(), last_message_time: Some(1) },
    ];
    assert_eq!(
        sorted_chat_jids(&chats),
        vec!["new@s.whatsapp.net", "old@s.whatsapp.net", "tie@s.whatsapp.net", "empty@s.whatsapp.net"]
    );
}

#[test]
fn is_group_chat_detects_group_jids() {
    assert!(is_group_chat("123@g.us"));
    assert!(!is_group_chat("123@s.whatsapp.net"));
    assert!(is_status_chat("status@broadcast"));
    assert!(!is_status_chat("list@broadcast"));
}

#[test]
fn texts_compare_by_code_point() {
    assert_eq!(compare_text("a", "b"), Comparison::Less);
    assert_eq!(compare_text("ab", "a"), Comparison::Greater);
    assert_eq!(compare_text("same", "same"), Comparison::Equal);
    assert!(cursor_before(1, "z", 2, "a"));
    assert!(cursor_before(2, "a", 2, "b"));
    assert!(!cursor_before(2, "b", 2, "b"));
}

#[test]
fn pending_counts_only_messages_from_others_after_the_cursor() {
    let msgs = vec![message("a", 10, false), message("b", 20, true), message("c", 30, false), message("d", 30, false)];
    assert_eq!(pending_after(&msgs, 10, "a"), 2);
    assert_eq!(pending_after(&msgs, 30, "c"), 1);
    assert_eq!(pending_after(&msgs, 40, "z"), 0);
}

#[test]
fn unread_boundary_starts_after_the_cursor() {
    let msgs = vec![message("a", 10, false), message("b", 20, true), message("c", 30, false)];
    let timeline = ChatTimeline {
        last_read_message: Some("a".to_string()),
        last_read_at: Some(10),
        pending_new_messages: 0,
    };
    assert_eq!(unread_boundary(Some(&timeline), &msgs), Some((2, 20)));
    let at_end = ChatTimeline { last_read_message: Some("c".to_string()), last_read_at: Some(30), pending_new_messages: 0 };
    assert_eq!(unread_boundary(Some(&at_end), &msgs), None);
    assert_eq!(unread_boundary(None, &msgs), None);
}

#[test]
fn touching_preview_moves_it_to_the_lru_tail() {
    let mut order = vec!["first.png".to_string(), "second.png".to_string()];
    touch_order(&mut order, "first.png");
    assert_eq!(order, vec!["second.png".to_string(), "first.png".to_string()]);
}

#[test]
fn a_full_preview_cache_evicts_the_least_recently_used() {
    let mut order = (0..IMAGE_CACHE_CAPACITY).map(|i| format!("{i}.png")).collect::<Vec<_>>();
    assert_eq!(evict_for_insert(&mut order, true, IMAGE_CACHE_CAPACITY), None);
    assert_eq!(evict_for_insert(&mut order, false, IMAGE_CACHE_CAPACITY - 1), None);
    assert_eq!(evict_for_insert(&mut order, false, IMAGE_CACHE_CAPACITY), Some("0.png".to_string()));
    assert_eq!(order.len(), IMAGE_CACHE_CAPACITY - 1);
}

#[test]
fn evicted_loaded_preview_becomes_reloadable() {
    let loaded = Some(Metadata::File(FileMeta::Loaded));
    assert_eq!(
        metadata_after_eviction(Some("old.png"), loaded, "old.png"),
        Some(Metadata::File(FileMeta::Downloaded))
    );
    assert_eq!(metadata_after_eviction(Some("other.png"), loaded, "old.png"), loaded);
    let downloading = Some(Metadata::File(FileMeta::Downloading));
    assert_eq!(metadata_after_eviction(Some("old.png"), downloading, "old.png"), downloading);
}

#[test]
fn a_later_message_moves_the_chat_forward() {
    assert_eq!(message_time_update(Some(10), 20), (Some(20), true));
    assert_eq!(message_time_update(Some(10), 5), (Some(10), false));
    assert_eq!(message_time_update(Some(10), 10), (Some(10), false));
    assert_eq!(message_time_update(None, -3), (Some(-3), true));
}

#[test]
fn local_actions_continue_after_the_highest_stored_sequence() {
    assert_eq!(action_sequence("local:12"), 12);
    assert_eq!(action_sequence("a:b:7"), 7);
    assert_eq!(action_sequence("no-sequence"), 0);
    assert_eq!(action_sequence("local:x"), 0);
    let ids = vec!["local:3".to_string(), "local:9".to_string(), "remote".to_string()];
    assert_eq!(continue_action_sequence(5, &ids), 9);
    assert_eq!(continue_action_sequence(20, &ids), 20);
}

fn chat_message(chat: &str, id: &str, timestamp: i64) -> StoredMessage {
    StoredMessage {
        id: id.to_string(),
        chat: chat.to_string(),
        sender: chat.to_string(),
        timestamp,
        is_from_me: false,
        read_by: 0,
    }
}

#[test]
fn stores_message_without_sorting_its_chat_index() {
    let mut store = MessageStore::new();
    assert!(store.add_message(chat_message("chat@example.test", "newest", 30)));
    assert!(store.add_message(chat_message("chat@example.test", "oldest", 10)));
    assert_eq!(store.messages.iter().map(|m| m.id.as_str()).collect::<Vec<_>>(), ["newest", "oldest"]);
    let order = store.chat_message_order("chat@example.test");
    assert_eq!(order.iter().map(|i| store.messages[*i].id.as_str()).collect::<Vec<_>>(), ["oldest", "newest"]);
    assert_eq!(store.chats.len(), 1);
    assert_eq!(store.chats[0].last_message_time, Some(30));
}

#[test]
fn newer_same_id_echo_cannot_downgrade_ownership() {
    let mut store = MessageStore::new();
    let mut mine = chat_message("chat@example.test", "m", 10);
    mine.is_from_me = true;
    store.add_message(mine);
    assert!(store.add_message(chat_message("chat@example.test", "m", 20)));
    assert_eq!(store.messages.len(), 1);
    assert!(store.messages[0].is_from_me);
    assert_eq!(store.messages[0].timestamp, 20);
    assert!(!store.add_message(chat_message("chat@example.test", "m", 5)));
    assert_eq!(store.messages[0].timestamp, 20);
}

#[test]
fn equal_timestamps_are_tied_by_message_id_in_the_store() {
    let mut store = MessageStore::new();
    for id in ["message-c", "message-a", "message-b"] {
        store.add_message(chat_message("chat@example.test", id, 10));
    }
    store.add_message(chat_message("other@example.test", "x", 1));
    let order = store.chat_message_order("chat@example.test");
    assert_eq!(
        order.iter().map(|i| store.messages[*i].id.as_str()).collect::<Vec<_>>(),
        ["message-a", "message-b", "message-c"]
    );
}

#[test]
fn status_cursor_moves_only_forward_and_only_once_stored() {
    assert!(status_read_advances(None, 5));
    assert!(!status_read_advances(Some(5), 5));
    assert_eq!(status_seen_after_store(Some(1), 5, true), Some(5));
    assert_eq!(status_seen_after_store(Some(1), 5, false), Some(1));
}

#[test]
fn chat_list_view_is_rebuilt_only_when_stale() {
    let fresh = view_refresh(Some(3), 3, Some("al"), "al");
    assert!(!fresh.rebuild_rows && !fresh.refilter);
    let query = view_refresh(Some(3), 3, Some("al"), "ali");
    assert!(!query.rebuild_rows && query.refilter);
    let stale = view_refresh(Some(2), 3, Some("al"), "al");
    assert!(stale.rebuild_rows && stale.refilter);
    assert!(view_refresh(None, 0, None, "").rebuild_rows);
}

#[test]
fn action_sequences_parse_with_a_plus_sign() {
    assert_eq!(action_sequence("local:+7"), 7);
    assert_eq!(action_sequence("local:"), 0);
    assert_eq!(action_sequence("local:18446744073709551616"), 0);
}

#[test]
fn hydration_loads_chats_then_messages_and_continues_the_sequence() {
    let mut store = MessageStore::new();
    store.add_message(chat_message("a@example.test", "early", 5));
    let h = Hydration {
        chats: vec![
            Chat { jid: "a@example.test".to_string(), last_message_time: Some(40) },
            Chat { jid: "b@example.test".to_string(), last_message_time: None },
        ],
        messages: vec![
            chat_message("b@example.test", "m1", 12),
            chat_message("c@example.test", "m2", 7),
            chat_message("b@example.test", "m1", 15),
            chat_message("a@example.test", "early", 3),
        ],
        contacts: vec![
            ("a@example.test".to_string(), "Ann".to_string()),
            ("a@example.test".to_string(), "Annie".to_string()),
        ],
        reactions: vec![
            Reaction { message: "m1".to_string(), participant: "b@example.test".to_string(), emoji: "👍".to_string() },
            Reaction { message: "m1".to_string(), participant: "b@example.test".to_string(), emoji: "🎉".to_string() },
        ],
        action_ids: vec!["local:4".to_string(), "local:11".to_string()],
    };
    assert_eq!(hydrate(&mut store, 2, h), 11);
    let chats: Vec<(&str, Option<i64>)> =
        store.chats.iter().map(|c| (c.jid.as_str(), c.last_message_time)).collect();
    assert_eq!(chats, [("a@example.test", Some(40)), ("b@example.test", Some(15)), ("c@example.test", Some(7))]);
    let messages: Vec<(&str, i64)> = store.messages.iter().map(|m| (m.id.as_str(), m.timestamp)).collect();
    assert_eq!(messages, [("early", 5), ("m1", 15), ("m2", 7)]);
    assert_eq!(store.contacts, [("a@example.test".to_string(), "Annie".to_string())]);
    assert_eq!(store.reactions.len(), 1);
    assert_eq!(store.reactions[0].emoji, "🎉");
}

#[test]
fn hydration_port_populates_selected_persisted_projections_without_out_of_scope_state() {
    let mut store = MessageStore::new();
    let chat_jid = "hydrated-chat@example.test";
    let contact = "persisted-contact@example.test";
    let reaction_participant = "reactor@example.test";
    let hydrated_message = chat_message(chat_jid, "hydrated-message", 42);
    let seq = hydrate(
        &mut store,
        0,
        Hydration {
            chats: vec![Chat { jid: chat_jid.to_string(), last_message_time: Some(42) }],
            contacts: vec![(contact.to_string(), "Persisted Contact".to_string())],
            messages: vec![chat_message(chat_jid, "hydrated-message", 42)],
            reactions: vec![Reaction {
                message: "hydrated-message".to_string(),
                participant: reaction_participant.to_string(),
                emoji: "✨".to_string(),
            }],
            action_ids: Vec::new(),
        },
    );
    let chat = store.chats.iter().find(|c| c.jid == chat_jid).unwrap();
    assert_eq!(chat.last_message_time, Some(42));
    let name = store.contacts.iter().find(|(jid, _)| jid == contact).map(|(_, name)| name.as_str());
    assert_eq!(name, Some("Persisted Contact"));
    let loaded_message = store.messages.iter().find(|m| m.id == hydrated_message.id).unwrap();
    assert_eq!(loaded_message.id, hydrated_message.id);
    assert_eq!(loaded_message.chat, hydrated_message.chat);
    assert_eq!(loaded_message.timestamp, hydrated_message.timestamp);
    let reaction = store
        .reactions
        .iter()
        .find(|r| r.message == "hydrated-message" && r.participant == reaction_participant)
        .unwrap();
    assert_eq!(reaction.emoji, "✨");
    assert_eq!(seq, 0);
    assert_eq!(store.messages.len(), 1);
}

fn remote_read(message_id: &str, timestamp: i64) -> RemoteRead {
    RemoteRead {
        chat: "chat@example.test".to_string(),
        message_id: message_id.to_string(),
        read: true,
        timestamp,
        from_me: false,
        participant: None,
    }
}

#[test]
fn remote_read_moves_the_cursor_and_counts_what_remains_unread() {
    let msgs = vec![message("a", 10, false), message("b", 20, false), message("c", 30, true), message("d", 40, false)];
    let mut timeline = ChatTimeline { last_read_message: None, last_read_at: None, pending_new_messages: 4 };
    let d = apply_remote_read(&mut timeline, &remote_read("b", 20), Some(&msgs[1]), &msgs);
    assert_eq!(d, ReadDecision::Applied { pending: 1 });
    assert_eq!(timeline.last_read_message.as_deref(), Some("b"));
    assert_eq!(timeline.last_read_at, Some(20));
    assert_eq!(timeline.pending_new_messages, 1);
    let stale = apply_remote_read(&mut timeline, &remote_read("a", 10), Some(&msgs[0]), &msgs);
    assert_eq!(stale, ReadDecision::Rejected(ReadRejection::StaleCursor));
    assert_eq!(timeline.last_read_message.as_deref(), Some("b"));
    assert_eq!(timeline.pending_new_messages, 1);
}

#[test]
fn remote_reads_that_disagree_with_the_stored_message_are_rejected() {
    let m = message("b", 20, false);
    let msgs = vec![message("b", 20, false)];
    let status = RemoteRead { chat: "status@broadcast".to_string(), ..remote_read("b", 20) };
    assert_eq!(decide_remote_read(&status, Some(&m), None, None, &msgs), ReadDecision::Rejected(ReadRejection::StatusExclusion));
    let unread = RemoteRead { read: false, ..remote_read("b", 20) };
    assert_eq!(decide_remote_read(&unread, Some(&m), None, None, &msgs), ReadDecision::Rejected(ReadRejection::ReadFalse));
    let group = RemoteRead { chat: "group@g.us".to_string(), ..remote_read("b", 20) };
    assert_eq!(decide_remote_read(&group, Some(&m), None, None, &msgs), ReadDecision::Rejected(ReadRejection::MissingIdentity));
    assert_eq!(
        decide_remote_read(&remote_read("b", 20), None, None, None, &msgs),
        ReadDecision::Rejected(ReadRejection::MessageUnavailable)
    );
    let other_chat = RemoteRead { chat: "other@example.test".to_string(), ..remote_read("b", 20) };
    assert_eq!(decide_remote_read(&other_chat, Some(&m), None, None, &msgs), ReadDecision::Rejected(ReadRejection::ChatMismatch));
    assert_eq!(
        decide_remote_read(&remote_read("b", 21), Some(&m), None, None, &msgs),
        ReadDecision::Rejected(ReadRejection::TimestampMismatch)
    );
    let mine = RemoteRead { from_me: true, ..remote_read("b", 20) };
    assert_eq!(decide_remote_read(&mine, Some(&m), None, None, &msgs), ReadDecision::Rejected(ReadRejection::FromMeMismatch));
    let someone = RemoteRead { participant: Some("x@example.test".to_string()), ..remote_read("b", 20) };
    assert_eq!(
        decide_remote_read(&someone, Some(&m), None, None, &msgs),
        ReadDecision::Rejected(ReadRejection::ParticipantMismatch)
    );
    assert_eq!(
        decide_remote_read(&remote_read("b", 20), Some(&m), Some(20), Some("b"), &msgs),
        ReadDecision::Rejected(ReadRejection::StaleCursor)
    );
}
