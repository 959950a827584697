use wptui::actions::{AppAction, ComposerAction, ConversationMode, FocusPane, Section};
use wptui::composer::{Composer, ComposerOutcome};
use wptui::events::FileKind;
use wptui::keys::{Key, KeyCode, KeyModifiers};
use wptui::mentions::{
    composer_text, confirm_mention_edit, cursor_offset, cursor_position, deduplicate_group_participants,
    delete_previous_grapheme, expanded_text, mention_candidates, mention_picker_for, move_mention_selection,
    reconcile_mentions, submission_messages, text_contains, text_messages, GroupParticipant, MentionMark, OutgoingMessage,
    PendingAttachment,
};
use wptui::terminal::{composer_key_step, terminal_key_step, ComposerKeyStep, TerminalContext, TerminalStep};

fn participant(name: &str, phone: &str) -> GroupParticipant {
    GroupParticipant {
        jid: format!("{phone}@s.whatsapp.net"),
        phone_number: format!("{phone}@s.whatsapp.net"),
        name: name.to_string(),
    }
}

fn participant_with_jid(name: &str, jid: &str, phone: &str) -> GroupParticipant {
    GroupParticipant { jid: jid.to_string(), phone_number: phone.to_string(), name: name.to_string() }
}

fn copy(p: &GroupParticipant) -> GroupParticipant {
    GroupParticipant { jid: p.jid.clone(), phone_number: p.phone_number.clone(), name: p.name.clone() }
}

/// Types `text` at the end of `current`, then confirms the picker's first
/// candidate, carrying the marks along as the composer does.
fn type_and_confirm(current: &str, typed: &str, participants: &[GroupParticipant], marks: &mut Vec<MentionMark>) -> String {
    let before = current.to_string();
    let after = format!("{current}{typed}");
    reconcile_mentions(marks, &before, &after);
    let offset = after.chars().count();
    let picker = mention_picker_for(&after, offset, participants).expect("picker opens");
    let candidates = mention_candidates(participants, &picker.query);
    let chosen = copy(&participants[candidates[picker.selected]]);
    let confirmed = confirm_mention_edit(&after, &picker, &chosen);
    reconcile_mentions(marks, &after, &confirmed.text);
    marks.push(confirmed.mark);
    confirmed.text
}

#[test]
fn group_mentions_activate_filter_and_expand_on_submit() {
    let participants = deduplicate_group_participants(vec![participant("Alice", "111"), participant("Bob", "222")]);
    let picker = mention_picker_for("hello @al", 9, &participants).unwrap();
    let labels = mention_candidates(&participants, &picker.query)
        .iter()
        .map(|i| participants[*i].name.clone())
        .collect::<Vec<_>>();
    assert_eq!(labels, vec!["Alice"]);
    let mut marks = Vec::new();
    let text = type_and_confirm("", "hello @al", &participants, &mut marks);
    assert_eq!(text, "hello @Alice ");
    let expansion = expanded_text(&text, &marks);
    assert_eq!(expansion.text, "hello @111 ");
    assert_eq!(expansion.display_ranges, vec![(6, "hello @Alice".len())]);
    assert_eq!(expansion.mention_ranges, vec![(6, "hello @111".len())]);
}

#[test]
fn lid_mentions_use_wire_jid_user_in_text_and_caption_tokens() {
    let participants = vec![participant_with_jid("Alice", "987654321@lid", "5491112345678@s.whatsapp.net")];
    let mut marks = Vec::new();
    let text = type_and_confirm("", "hello @al", &participants, &mut marks);
    let expansion = expanded_text(&text, &marks);
    assert_eq!(expansion.text, "hello @987654321 ");
    assert_eq!(expansion.mentions.len(), 1);
    assert_eq!(expansion.mentions[0].jid, "987654321@lid");
    assert_eq!(expansion.mentions[0].numeric_user, "987654321");

    let pending = vec![PendingAttachment::new("photo.jpg".to_string(), FileKind::Image)];
    let messages = submission_messages(&expansion.text, &pending).unwrap();
    assert!(messages.iter().any(|m| matches!(
        m,
        OutgoingMessage::File { caption: Some(c), .. } if c == "hello @987654321 "
    )));
}

#[test]
fn editing_a_selected_mention_discards_stale_semantic_metadata() {
    let participants = vec![participant("Alice", "111")];
    let mut marks = Vec::new();
    let text = type_and_confirm("", "@a", &participants, &mut marks);
    reconcile_mentions(&mut marks, &text, "@Alix");
    assert!(marks.is_empty());
    let expansion = expanded_text("@Alix", &marks);
    assert_eq!(expansion.text, "@Alix");
    assert!(expansion.mentions.is_empty());
}

#[test]
fn literal_tokens_before_selected_mentions_are_not_reinterpreted() {
    let participants = vec![participant("Alice", "111")];
    let mut marks = Vec::new();
    let text = type_and_confirm("", "email @support then @al", &participants, &mut marks);
    let expansion = expanded_text(&text, &marks);
    assert_eq!(expansion.text, "email @support then @111 ");
    assert_eq!(expansion.mentions.len(), 1);
    assert_eq!(expansion.mentions[0].jid, "111@s.whatsapp.net");
    assert_eq!(expansion.mentions[0].numeric_user, "111");
}

#[test]
fn multiple_mentions_preserve_text_order_and_metadata_order() {
    let participants = vec![participant("Alice", "111"), participant("Bob", "222")];
    let mut marks = Vec::new();
    let text = type_and_confirm("", "@al", &participants, &mut marks);
    let text = type_and_confirm(&text, " and @bo", &participants, &mut marks);
    let expansion = expanded_text(&text, &marks);
    assert_eq!(expansion.text, "@111  and @222 ");
    assert_eq!(expansion.mentions.iter().map(|m| m.numeric_user.as_str()).collect::<Vec<_>>(), vec!["111", "222"]);
}

#[test]
fn edits_before_a_mention_adjust_its_range_without_changing_identity() {
    let participants = vec![participant("Álice", "111")];
    let mut marks = Vec::new();
    let text = type_and_confirm("", "@á", &participants, &mut marks);
    let prefixed = format!("prefix {text}");
    reconcile_mentions(&mut marks, &text, &prefixed);
    assert_eq!((marks[0].start, marks[0].end), (7, 13));
    let mut current = prefixed;
    let mut lines = vec![current.clone()];
    let mut column = 7;
    for _ in 0..7 {
        let (next, cursor) = delete_previous_grapheme(&lines, 0, column).unwrap();
        reconcile_mentions(&mut marks, &current, &next);
        current = next;
        lines = vec![current.clone()];
        column = cursor;
    }
    let expansion = expanded_text(&current, &marks);
    assert_eq!(expansion.text, "@111 ");
    assert_eq!(expansion.mentions.len(), 1);
}

#[test]
fn all_group_members_remain_filterable_and_navigable() {
    let names = ["Alice", "Bob", "Carol", "Diana", "Eve", "Frank", "Grace", "Heidi"];
    let participants = names
        .iter()
        .enumerate()
        .map(|(index, name)| participant(name, &(100 + index).to_string()))
        .collect::<Vec<_>>();
    let all = mention_picker_for("@", 1, &participants).unwrap();
    assert_eq!(mention_candidates(&participants, &all.query).len(), names.len());
    for name in names {
        let typed = format!("@{}", name.to_lowercase());
        let picker = mention_picker_for(&typed, typed.chars().count(), &participants).unwrap();
        let found = mention_candidates(&participants, &picker.query);
        assert_eq!(found.iter().map(|i| participants[*i].name.as_str()).collect::<Vec<_>>(), vec![name]);
    }
    let mut selected = 0;
    for expected in 1..names.len() {
        selected = move_mention_selection(selected, 1, names.len());
        assert_eq!(selected, expected);
    }
    assert_eq!(move_mention_selection(selected, 1, names.len()), 0);
    assert_eq!(move_mention_selection(0, -1, names.len()), names.len() - 1);
}

#[test]
fn no_picker_without_a_matching_participant_or_after_white_space() {
    let participants = vec![participant("Alice", "111")];
    assert!(mention_picker_for("@zz", 3, &participants).is_none());
    assert!(mention_picker_for("@al ", 4, &participants).is_none());
    assert!(mention_picker_for("a@al", 4, &participants).is_none());
    assert!(mention_picker_for("@a.l", 4, &participants).is_none());
}

#[test]
fn backspace_removes_complete_graphemes() {
    for source in ["e\u{301}", "👩‍💻"] {
        let lines = vec![source.to_string()];
        let column = source.chars().count();
        let (text, cursor) = delete_previous_grapheme(&lines, 0, column).unwrap();
        assert_eq!(text, "");
        assert_eq!(cursor, 0);
    }
}

#[test]
fn backspace_deletes_the_logical_preceding_grapheme() {
    let lines = vec!["אבג".to_string()];
    let (text, cursor) = delete_previous_grapheme(&lines, 0, 2).unwrap();
    assert_eq!(text, "אג");
    assert_eq!(cursor, 1);
}

#[test]
fn backspace_at_a_line_start_joins_the_lines() {
    let lines = vec!["ab".to_string(), "cd".to_string()];
    assert_eq!(delete_previous_grapheme(&lines, 1, 0), Some(("abcd".to_string(), 2)));
    assert_eq!(delete_previous_grapheme(&lines, 0, 0), None);
}

#[test]
fn cursor_offsets_cross_line_breaks() {
    let lines = vec!["ab".to_string(), "cd".to_string()];
    assert_eq!(composer_text(&lines), "ab\ncd");
    assert_eq!(cursor_offset(&lines, 1, 1), 4);
    assert_eq!(cursor_position(&lines, 4), Some((1, 1)));
    assert_eq!(cursor_position(&lines, 2), Some((0, 2)));
    assert_eq!(cursor_position(&lines, 3), Some((1, 0)));
    assert_eq!(cursor_position(&lines, 6), None);
}

#[test]
fn duplicate_participants_merge_their_identities() {
    let merged = deduplicate_group_participants(vec![
        participant_with_jid("", "1@lid", "111@s.whatsapp.net"),
        participant_with_jid("Alice", "", "111@s.whatsapp.net"),
        participant_with_jid("Bob", "2@lid", ""),
    ]);
    assert_eq!(merged.len(), 2);
    assert_eq!(merged[0].name, "Alice");
    assert_eq!(merged[0].jid, "1@lid");
    assert_eq!(merged[1].name, "Bob");
}

#[test]
fn blank_submissions_send_nothing() {
    assert!(submission_messages("   ", &[]).is_none());
    let messages = submission_messages("hi", &[]).unwrap();
    assert!(matches!(&messages[0], OutgoingMessage::Text(t) if t == "hi"));
    assert_eq!(text_messages(&messages), vec!["hi".to_string()]);
    let pending = vec![
        PendingAttachment::new("/tmp/a/photo.jpg".to_string(), FileKind::Image),
        PendingAttachment::new("doc.pdf".to_string(), FileKind::Document),
    ];
    assert_eq!(pending[0].display_name(), "photo.jpg");
    let messages = submission_messages(" ", &pending).unwrap();
    assert_eq!(messages.len(), 2);
    assert!(matches!(&messages[1], OutgoingMessage::File { caption: None, .. }));
}

#[test]
fn substring_search_finds_inner_matches() {
    assert!(text_contains("alice", "lic"));
    assert!(text_contains("alice", ""));
    assert!(!text_contains("al", "alice"));
}

fn context() -> TerminalContext<'static> {
    TerminalContext {
        pending_logout: false,
        logout_in_progress: false,
        focus_pane: FocusPane::ChatList,
        selected_section: Section::Chats,
        conversation_mode: ConversationMode::MessageNavigation,
        shortcut_popup: false,
        leader_menu: None,
        contextual_menu: None,
        attachment_viewer: false,
        url_picker: false,
        file_picker: None,
        share_picker: false,
        reaction_picker: false,
        message_menu: false,
        contact_search_active: false,
        community_detail: false,
        rail_on_logout: false,
    }
}

#[test]
fn non_composer_context_is_left_for_the_central_router() {
    assert_eq!(terminal_key_step(&context(), &Key::c('x')), TerminalStep::ResolveSequence);
    assert_eq!(terminal_key_step(&context(), &Key::k(KeyCode::Enter)), TerminalStep::Dispatch(AppAction::OpenChat));
}

#[test]
fn composer_context_consumes_blocked_input_without_mutation() {
    let ctx = TerminalContext {
        focus_pane: FocusPane::Conversation,
        conversation_mode: ConversationMode::ComposerEditing,
        ..context()
    };
    assert_eq!(terminal_key_step(&ctx, &Key::c('x')), TerminalStep::Composer);
    assert_eq!(composer_key_step(&Key::c('x'), ConversationMode::ComposerEditing, false, true), ComposerKeyStep::Ignore);
    assert_eq!(composer_key_step(&Key::c('x'), ConversationMode::ComposerEditing, false, false), ComposerKeyStep::Apply);
}

#[test]
fn the_logout_prompt_and_the_log_toggle_come_first() {
    let logs = Key { code: KeyCode::Char('L'), modifiers: KeyModifiers::control().union(KeyModifiers::shift()) };
    let pending = TerminalContext { pending_logout: true, ..context() };
    assert_eq!(terminal_key_step(&pending, &logs), TerminalStep::Logout);
    let running = TerminalContext { pending_logout: true, logout_in_progress: true, ..context() };
    assert_eq!(terminal_key_step(&running, &Key::c('y')), TerminalStep::Ignore);
    let viewer = TerminalContext { attachment_viewer: true, ..context() };
    assert_eq!(terminal_key_step(&viewer, &logs), TerminalStep::Dispatch(AppAction::ToggleLogs));
    assert_eq!(terminal_key_step(&viewer, &Key::c('l')), TerminalStep::Dispatch(AppAction::ViewerNext));
}

#[test]
fn esc_leaves_a_community_detail_and_the_mention_picker_takes_arrows() {
    let detail = TerminalContext { community_detail: true, ..context() };
    assert_eq!(terminal_key_step(&detail, &Key::k(KeyCode::Esc)), TerminalStep::CloseCommunityDetail);
    assert_eq!(
        composer_key_step(&Key::k(KeyCode::Up), ConversationMode::ComposerEditing, true, false),
        ComposerKeyStep::MoveMentionSelection(-1)
    );
    assert_eq!(
        composer_key_step(&Key::k(KeyCode::Esc), ConversationMode::EditingMessage, false, false),
        ComposerKeyStep::CancelMessageEdit
    );
    assert_eq!(composer_key_step(&Key::ctrl('o'), ConversationMode::ComposerEditing, true, true), ComposerKeyStep::AttachFile);
}

#[test]
fn moving_the_cursor_keeps_intact_mentions() {
    let participants = vec![participant("Alice", "111")];
    let mut marks = Vec::new();
    let text = type_and_confirm("", "@al", &participants, &mut marks);
    let mut broken = vec![MentionMark { start: 0, end: 2, participant: copy(&participants[0]) }];
    reconcile_mentions(&mut marks, &text, &text);
    assert_eq!((marks.len(), marks[0].start, marks[0].end), (1, 0, 6));
    reconcile_mentions(&mut broken, &text, &text);
    assert!(broken.is_empty());
}

#[test]
fn composer_mentions_expand_on_submit() {
    let mut composer = Composer::new();
    composer.set_group_participants(vec![participant("Alice", "111"), participant("Bob", "222")]);
    composer.insert_text("hello @al");
    assert_eq!(composer.mention_picker_labels(), vec!["Alice".to_string()]);
    composer.confirm_mention();
    assert_eq!(composer.text(), "hello @Alice ");
    assert!(composer.submittable());
    let outcome = composer.apply(ComposerAction::Submit);
    match outcome {
        ComposerOutcome::Submit { messages, display_text, display_mention_ranges, .. } => {
            assert_eq!(text_messages(&messages), vec!["hello @111 ".to_string()]);
            assert_eq!(display_text, "hello @Alice ");
            assert_eq!(display_mention_ranges, vec![(6, "hello @Alice".len())]);
        }
        ComposerOutcome::Idle => panic!("expected a submit"),
    }
    assert!(composer.text().is_empty());
    assert!(composer.is_empty());
}

#[test]
fn composer_backspace_removes_complete_graphemes() {
    for source in ["e\u{301}", "👩‍💻"] {
        let mut composer = Composer::new();
        composer.insert_text(source);
        composer.apply(ComposerAction::Edit(Key::k(KeyCode::Backspace)));
        assert_eq!(composer.text(), "");
    }
}

#[test]
fn blocked_composer_ignores_input_and_drops_drafts() {
    let mut composer = Composer::new();
    composer.insert_text("draft");
    composer.queue_attachment("a.png".to_string(), FileKind::Image);
    composer.quote = Some("quoted".to_string());
    composer.set_blocked(true);
    assert!(composer.text().is_empty());
    assert!(composer.pending.is_empty() && composer.quote.is_none());
    composer.insert_text("x");
    assert!(matches!(composer.apply(ComposerAction::Submit), ComposerOutcome::Idle));
    assert!(composer.text().is_empty());
}

#[test]
fn composer_actions_drop_attachments_and_replies() {
    let mut composer = Composer::new();
    composer.queue_attachment("a.png".to_string(), FileKind::Image);
    composer.queue_attachment("b.pdf".to_string(), FileKind::Document);
    composer.quote = Some("quoted".to_string());
    composer.apply(ComposerAction::RemoveLastAttachment);
    assert_eq!(composer.pending.len(), 1);
    assert_eq!(composer.pending[0].path, "a.png");
    composer.apply(ComposerAction::CancelReply);
    assert!(composer.quote.is_none());
    assert!(matches!(composer.apply(ComposerAction::Submit), ComposerOutcome::Submit { .. }));
    assert!(composer.pending.is_empty());
}

#[test]
fn blank_composer_sends_nothing_and_keeps_state() {
    let mut composer = Composer::new();
    composer.insert_text("   ");
    assert!(composer.apply(ComposerAction::Submit).is_idle());
    assert_eq!(composer.text(), "   ");
}

#[test]
fn composer_cursor_offsets_cross_lines_and_edits_follow_keys() {
    let mut composer = Composer::new();
    composer.insert_text("ab\ncd");
    assert_eq!(composer.cursor_offset(), 5);
    composer.set_cursor_offset(3);
    assert_eq!(composer.cursor_offset(), 3);
    composer.apply(ComposerAction::Edit(Key::c('x')));
    assert_eq!(composer.text(), "ab\nxcd");
    composer.apply(ComposerAction::InsertNewline);
    assert_eq!(composer.text(), "ab\nx\ncd");
}

#[test]
fn composer_mention_selection_wraps() {
    let mut composer = Composer::new();
    composer.set_group_participants(vec![participant("Alice", "1"), participant("Alan", "2")]);
    composer.insert_text("@al");
    assert_eq!(composer.mention_picker_selected(), 0);
    composer.move_mention_selection(1);
    assert_eq!(composer.mention_picker_selected(), 1);
    composer.move_mention_selection(1);
    assert_eq!(composer.mention_picker_selected(), 0);
    composer.cancel_mention_picker();
    assert!(!composer.mention_picker_active());
}
