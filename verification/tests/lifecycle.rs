use std::cell::RefCell;

use wptui::actions::Section;
use wptui::chat_list::ChatListRevision;
use wptui::download::{cancellation_requested, decide_request, next_request_once, CancelPoll, DownloadPoll, DownloadStep};
use wptui::keys::{Key, KeyCode, KeyModifiers};
use wptui::lifecycle::{is_toggle_logs_key, log_level_for_logs, viewer_zoom_in, viewer_zoom_out, LogLevel};
use wptui::logout::{
    begin_logout_confirmation, handle_logout_input, handle_logout_result, jump_logout_selection_bottom,
    logout_after_stopping_read_sync, move_logout_selection_next, LogoutEffect, LogoutPrompt, LogoutResolution,
    LogoutStatus, RailCursor,
};

#[test]
fn cancellation_wins_over_an_already_queued_download() {
    let (download_tx, download_rx) = std::sync::mpsc::channel();
    let (cancel_tx, cancel_rx) = std::sync::mpsc::channel();
    download_tx.send(()).unwrap();
    cancel_tx.send(()).unwrap();

    assert_eq!(next_request_once(&cancel_rx, &download_rx), DownloadStep::Stop);
}

#[test]
fn closed_channels_stop_the_worker() {
    let (download_tx, download_rx) = std::sync::mpsc::channel::<()>();
    let (_cancel_tx, cancel_rx) = std::sync::mpsc::channel::<()>();
    drop(download_tx);
    assert_eq!(next_request_once(&cancel_rx, &download_rx), DownloadStep::Stop);

    let (_download_tx, download_rx) = std::sync::mpsc::channel::<()>();
    let (cancel_tx, cancel_rx) = std::sync::mpsc::channel::<()>();
    drop(cancel_tx);
    assert_eq!(next_request_once(&cancel_rx, &download_rx), DownloadStep::Stop);
}

#[test]
fn a_queued_request_is_delivered_and_an_idle_channel_retries() {
    let (download_tx, download_rx) = std::sync::mpsc::channel();
    let (_cancel_tx, cancel_rx) = std::sync::mpsc::channel::<()>();
    download_tx.send(7u32).unwrap();
    assert_eq!(next_request_once(&cancel_rx, &download_rx), DownloadStep::Deliver(7));
    assert_eq!(next_request_once(&cancel_rx, &download_rx), DownloadStep::Retry);
}

#[test]
fn request_decisions_follow_each_poll() {
    assert!(cancellation_requested(CancelPoll::Cancelled));
    assert!(cancellation_requested(CancelPoll::Disconnected));
    assert!(!cancellation_requested(CancelPoll::Empty));
    assert_eq!(
        decide_request(CancelPoll::Empty, Some(DownloadPoll::Received(1u8)), Some(CancelPoll::Cancelled)),
        DownloadStep::Stop
    );
    assert_eq!(
        decide_request(CancelPoll::Empty, Some(DownloadPoll::Received(1u8)), Some(CancelPoll::Empty)),
        DownloadStep::Deliver(1)
    );
    assert_eq!(decide_request::<u8>(CancelPoll::Empty, Some(DownloadPoll::Timeout), None), DownloadStep::Retry);
    assert_eq!(decide_request::<u8>(CancelPoll::Empty, Some(DownloadPoll::Disconnected), None), DownloadStep::Stop);
}

#[test]
fn recognizes_both_log_toggle_key_cases_only_with_ctrl_shift() {
    for code in [KeyCode::Char('l'), KeyCode::Char('L')] {
        assert!(is_toggle_logs_key(&Key { code, modifiers: KeyModifiers::control().union(KeyModifiers::shift()) }));
    }
    assert!(!is_toggle_logs_key(&Key::c('l')));
}

#[test]
fn log_panel_uses_info_and_restores_warn_when_closed() {
    assert_eq!(log_level_for_logs(true), LogLevel::Info);
    assert_eq!(log_level_for_logs(false), LogLevel::Warn);
}

#[test]
fn viewer_zoom_steps_stay_within_bounds() {
    assert_eq!(viewer_zoom_in(100), 125);
    assert_eq!(viewer_zoom_out(100), 75);
    assert_eq!(viewer_zoom_in(400), 400);
    assert_eq!(viewer_zoom_out(25), 25);
    assert_eq!(viewer_zoom_out(viewer_zoom_in(100)), 100);
}

#[test]
fn rail_logout_navigation_and_confirmation_preserve_focus_and_section() {
    let rail = jump_logout_selection_bottom();
    assert!(rail.on_logout);
    assert_eq!(rail.section, Section::Communities);
    let prompt = begin_logout_confirmation(LogoutPrompt { pending: false, in_progress: false, menu_index: 1 });
    assert!(prompt.pending);
    assert_eq!(prompt.menu_index, 0);
    let (prompt, effect) = handle_logout_input(prompt, &Key::c('j'));
    assert_eq!((prompt.menu_index, effect), (1, LogoutEffect::Stay));
    let (prompt, _) = handle_logout_input(prompt, &Key::c('k'));
    assert_eq!(prompt.menu_index, 0);
    let (prompt, effect) = handle_logout_input(prompt, &Key::k(KeyCode::Esc));
    assert!(!prompt.pending);
    assert!(!prompt.in_progress);
    assert_eq!(effect, LogoutEffect::Cancelled);
}

#[test]
fn confirming_the_prompt_starts_the_logout() {
    let prompt = begin_logout_confirmation(LogoutPrompt { pending: false, in_progress: false, menu_index: 0 });
    let (prompt, effect) = handle_logout_input(prompt, &Key::k(KeyCode::Enter));
    assert!(prompt.pending && prompt.in_progress);
    assert_eq!(effect, LogoutEffect::Confirm);
    let (_, effect) = handle_logout_input(LogoutPrompt { pending: true, in_progress: false, menu_index: 1 }, &Key::k(KeyCode::Enter));
    assert_eq!(effect, LogoutEffect::Cancelled);
}

#[test]
fn logout_confirmation_stops_read_sync_before_requesting_lifecycle_logout() {
    let trace = RefCell::new(Vec::new());
    logout_after_stopping_read_sync(
        || trace.borrow_mut().push("read-sync:stop"),
        || trace.borrow_mut().push("lifecycle:logout"),
    );
    assert_eq!(*trace.borrow(), ["read-sync:stop", "lifecycle:logout"]);
}

#[test]
fn logout_statuses_keep_local_only_and_failed_sessions_retryable() {
    let closed = LogoutPrompt { pending: false, in_progress: false, menu_index: 0 };
    assert_eq!(handle_logout_result(LogoutStatus::LocalOnly), (closed, LogoutResolution::LocalOnly));
    assert_eq!(handle_logout_result(LogoutStatus::Failed), (closed, LogoutResolution::Failed));
}

#[test]
fn not_logged_in_is_a_successful_terminal_result() {
    assert_eq!(handle_logout_result(LogoutStatus::NotLoggedIn).1, LogoutResolution::Finish);
    assert_eq!(handle_logout_result(LogoutStatus::LoggedOut).1, LogoutResolution::Finish);
}

#[test]
fn rail_moves_between_the_last_section_and_logout() {
    let (cursor, handled) = move_logout_selection_next(RailCursor { section: Section::Communities, on_logout: false });
    assert!(handled && cursor.on_logout);
    let (cursor, handled) = move_logout_selection_next(cursor);
    assert!(handled);
    assert_eq!(cursor, RailCursor { section: Section::Chats, on_logout: false });
    let (_, handled) = move_logout_selection_next(RailCursor { section: Section::Chats, on_logout: false });
    assert!(!handled);
}

#[test]
fn batched_chat_list_changes_publish_one_revision() {
    let mut revision = ChatListRevision::new();
    revision.begin_chat_list_mutation();
    revision.invalidate_chat_list();
    revision.invalidate_chat_list();
    assert_eq!(revision.revision, 0);
    revision.end_chat_list_mutation();
    assert_eq!(revision.revision, 1);
    revision.invalidate_chat_list();
    assert_eq!(revision.revision, 2);
    revision.begin_chat_list_mutation();
    revision.end_chat_list_mutation();
    assert_eq!(revision.revision, 2);
}

