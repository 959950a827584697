use wptui::actions::{focus_after, focus_after_visibility_change, visible_panes, AppAction, FocusPane, PaneVisibility, Section};
use wptui::dispatch::{
    community_open_target, dispatch_lifecycle_settings_action, dispatch_picker_viewer_action,
    refused_for_informational_item, CommunityOpen, PickerViewerEffect, SettingsEffect, confirm_file_picker,
    needs_audio_probe, FilePickerConfirm, dispatch_decision, Dispatch, DispatchState, DispatchStep, OpenTarget,
};
use wptui::lifecycle::{initial_view, toggle_chat_list, toggle_section_rail, PaneLayout};
use wptui::events::{
    AppEventFamily, AppEventKind,
    viewer_preview_needs_load, viewer_preview_request, viewer_status, AttachmentViewerState, FileKind, FileMeta,
    Metadata, ViewerAttachment, ViewerPreviewKey, ViewerPreviewState, ViewerStatus,
};

#[test]
fn sections_cycle_in_rail_order() {
    assert_eq!(Section::Chats.next(), Section::Status);
    assert_eq!(Section::Communities.next(), Section::Chats);
    assert_eq!(Section::Chats.previous(), Section::Communities);
    assert_eq!(Section::Status.title(), "Status");
    for s in Section::all() {
        assert_eq!(s.next().previous(), s);
    }
}

#[test]
fn focus_cycles_through_visible_panes() {
    let all = PaneVisibility::default();
    assert_eq!(visible_panes(all), vec![FocusPane::SectionRail, FocusPane::ChatList, FocusPane::Conversation]);
    assert_eq!(FocusPane::Conversation.next(all), FocusPane::SectionRail);
    let no_rail = PaneVisibility { section_rail: false, chat_list: true };
    assert_eq!(FocusPane::Conversation.next(no_rail), FocusPane::ChatList);
    assert_eq!(FocusPane::ChatList.previous(no_rail), FocusPane::Conversation);
}

#[test]
fn hidden_pane_toggle_moves_focus_to_visible_pane() {
    let layout = PaneLayout {
        visibility: PaneVisibility { section_rail: false, chat_list: true },
        focus: FocusPane::ChatList,
    };
    let effect = dispatch_lifecycle_settings_action(AppAction::ToggleChatList, layout);
    match effect {
        Ok(SettingsEffect::Layout(next)) => {
            assert!(!next.visibility.chat_list);
            assert_eq!(next.focus, FocusPane::Conversation);
        }
        other => panic!("unexpected {other:?}"),
    }
    let hidden = PaneVisibility { section_rail: false, chat_list: true };
    assert_eq!(focus_after_visibility_change(FocusPane::SectionRail, hidden), FocusPane::ChatList);
}

#[test]
fn shortcut_popup_toggle_is_handled_by_lifecycle_settings_family() {
    let layout = PaneLayout { visibility: PaneVisibility::default(), focus: FocusPane::ChatList };
    assert_eq!(
        dispatch_lifecycle_settings_action(AppAction::ToggleShortcutPopup, layout),
        Ok(SettingsEffect::ToggleShortcutPopup)
    );
    assert_eq!(dispatch_lifecycle_settings_action(AppAction::OpenChat, layout), Err(AppAction::OpenChat));
}

#[test]
fn closing_status_pane_returns_focus_to_chat_list() {
    let all = PaneVisibility::default();
    let focus = focus_after(FocusPane::Conversation, &AppAction::CloseStatusPane, all);
    assert_eq!(focus, FocusPane::Conversation);
    assert_eq!(
        dispatch_picker_viewer_action(AppAction::CloseStatusPane, 100),
        Ok(PickerViewerEffect::FocusChatList)
    );
}

#[test]
fn viewer_zoom_actions_are_handled_by_the_picker_viewer_family() {
    assert_eq!(dispatch_picker_viewer_action(AppAction::ViewerZoomIn, 100), Ok(PickerViewerEffect::SetZoom(125)));
    assert_eq!(dispatch_picker_viewer_action(AppAction::ViewerZoomOut, 125), Ok(PickerViewerEffect::SetZoom(100)));
    assert_eq!(dispatch_picker_viewer_action(AppAction::Quit, 100), Err(AppAction::Quit));
}

#[test]
fn informational_items_refuse_message_actions() {
    assert!(refused_for_informational_item(&AppAction::ReplyMessage, true));
    assert!(!refused_for_informational_item(&AppAction::ReplyMessage, false));
    assert!(!refused_for_informational_item(&AppAction::SelectNext, true));
}

#[test]
fn one_unread_linked_group_opens_directly() {
    assert_eq!(community_open_target(&["a@g.us".to_string()]), CommunityOpen::Chat("a@g.us".to_string()));
    assert_eq!(community_open_target(&[]), CommunityOpen::Detail);
    assert_eq!(community_open_target(&["a@g.us".to_string(), "b@g.us".to_string()]), CommunityOpen::Detail);
}

fn attachment(id: &str, status: ViewerStatus) -> ViewerAttachment {
    ViewerAttachment { message_id: id.to_string(), kind: FileKind::Image, path: format!("{id}.png"), status }
}

#[test]
fn viewer_collects_supported_media_and_keeps_selected_index() {
    let viewer = AttachmentViewerState::from_attachments(
        vec![attachment("a", ViewerStatus::Ready), attachment("b", ViewerStatus::Missing)],
        1,
    );
    assert_eq!(viewer.index, 1);
    assert_eq!(viewer.message_id, "b");
    assert_eq!(viewer.attachment_count, 2);
    let clamped = AttachmentViewerState::from_attachments(vec![attachment("a", ViewerStatus::Ready)], 5);
    assert_eq!(clamped.index, 0);
    let empty = AttachmentViewerState::from_attachments(Vec::new(), 0);
    assert_eq!(empty.attachment_count, 1);
    assert_eq!(empty.status, ViewerStatus::Missing);
}

#[test]
fn viewer_navigation_stays_within_the_attachments() {
    let mut viewer = AttachmentViewerState::from_attachments(
        vec![attachment("a", ViewerStatus::Ready), attachment("b", ViewerStatus::Ready)],
        0,
    );
    viewer.navigate(1);
    assert_eq!(viewer.message_id, "b");
    viewer.navigate(1);
    assert_eq!(viewer.index, 1);
    viewer.navigate(-5);
    assert_eq!(viewer.index, 0);
    assert_eq!(viewer.message_id, "a");
}

#[test]
fn viewer_status_follows_the_file_state() {
    assert_eq!(viewer_status(Some(Metadata::File(FileMeta::Loaded))), ViewerStatus::Ready);
    assert_eq!(viewer_status(Some(Metadata::File(FileMeta::Downloading))), ViewerStatus::Downloading);
    assert_eq!(viewer_status(None), ViewerStatus::Missing);
}

#[test]
fn video_previews_use_a_jpg_next_to_the_video() {
    let video = ViewerPreviewKey::for_attachment("media/clip.mp4".to_string(), FileKind::Video, 10, 10);
    assert_eq!(video.preview_path(), "media/clip.jpg");
    let image = ViewerPreviewKey::for_attachment("media/pic.png".to_string(), FileKind::Image, 10, 10);
    assert_eq!(image.preview_path(), "media/pic.png");
}

#[test]
fn a_preview_is_requested_once_per_key() {
    let key = ViewerPreviewKey::new("a.png".to_string(), 4, 4);
    let mut state: Option<ViewerPreviewState<()>> = None;
    assert!(viewer_preview_needs_load(&state, &key));
    let first = viewer_preview_request(&mut state, ViewerPreviewKey::new("a.png".to_string(), 4, 4));
    assert!(first.is_some());
    assert!(!viewer_preview_needs_load(&state, &key));
    let second = viewer_preview_request(&mut state, ViewerPreviewKey::new("a.png".to_string(), 4, 4));
    assert!(second.is_none());
}

#[test]
fn toggling_a_pane_twice_restores_it() {
    let layout = PaneLayout { visibility: PaneVisibility::default(), focus: FocusPane::SectionRail };
    let once = toggle_section_rail(layout);
    assert!(!once.visibility.section_rail);
    assert_eq!(once.focus, FocusPane::ChatList);
    let twice = toggle_section_rail(once);
    assert_eq!(twice.visibility, layout.visibility);
    assert_eq!(toggle_chat_list(toggle_chat_list(layout)).visibility, layout.visibility);
}

#[test]
fn event_families_classify_every_runtime_owner() {
    assert_eq!(AppEventKind::UpdateAvailable.family(), AppEventFamily::Updater);
    assert_eq!(AppEventKind::OutboundSendFailed.family(), AppEventFamily::Send);
    assert_eq!(AppEventKind::ReadReceiptRestored.family(), AppEventFamily::ReadReceipt);
    assert_eq!(AppEventKind::LoadFilePreview.family(), AppEventFamily::MediaViewer);
    assert_eq!(AppEventKind::ContactAvatarRefreshed.family(), AppEventFamily::Avatar);
}

#[test]
fn confirming_the_file_picker_attaches_only_when_allowed() {
    assert_eq!(confirm_file_picker(true, 2), FilePickerConfirm::Close);
    assert_eq!(confirm_file_picker(false, 0), FilePickerConfirm::Stay);
    assert_eq!(confirm_file_picker(false, 1), FilePickerConfirm::AttachAndCompose);
    assert!(needs_audio_probe(FileKind::Audio, false));
    assert!(!needs_audio_probe(FileKind::Audio, true));
    assert!(!needs_audio_probe(FileKind::Image, false));
}

#[test]
fn the_application_starts_in_the_chat_list() {
    let view = initial_view();
    assert_eq!(view.layout.focus, FocusPane::ChatList);
    assert_eq!(view.layout.visibility, PaneVisibility::default());
    assert_eq!(view.section, Section::Chats);
    assert_eq!(view.viewer_zoom, 100);
    assert!(!view.show_logs);
}

#[test]
fn video_preview_paths_keep_their_directory() {
    let video = ViewerPreviewKey::for_attachment("a/b.c.mp4".to_string(), FileKind::Video, 1, 1);
    assert_eq!(video.preview_path(), "a/b.c.jpg");
}

fn dispatch_state(section: Section, focus: FocusPane) -> DispatchState {
    DispatchState {
        layout: PaneLayout { visibility: PaneVisibility::default(), focus },
        section,
        status_view_allows: false,
        selected_is_informational: false,
        composer_blocked: false,
        community_detail_open: false,
        viewer_zoom: 100,
    }
}

#[test]
fn the_status_view_refuses_what_it_does_not_allow() {
    let state = dispatch_state(Section::Status, FocusPane::Conversation);
    let d = dispatch_decision(&state, AppAction::ReactMessage);
    assert_eq!(d, Dispatch { focus: FocusPane::Conversation, step: DispatchStep::Refused });
    let allowed = DispatchState { status_view_allows: true, ..state };
    assert_eq!(dispatch_decision(&allowed, AppAction::ReactMessage).step, DispatchStep::HeartStatus);
    let chats = dispatch_state(Section::Chats, FocusPane::Conversation);
    assert_eq!(dispatch_decision(&chats, AppAction::ReactMessage).step, DispatchStep::OpenReactionPicker);
}

#[test]
fn dispatch_moves_focus_first_and_routes_each_family() {
    let state = dispatch_state(Section::Chats, FocusPane::ChatList);
    let d = dispatch_decision(&state, AppAction::FocusNext);
    assert_eq!(d, Dispatch { focus: FocusPane::Conversation, step: DispatchStep::FocusOnly });
    let informational = DispatchState { selected_is_informational: true, ..state };
    assert_eq!(
        dispatch_decision(&informational, AppAction::CopyMessage).step,
        DispatchStep::Unavailable("Action is not available for this informational item")
    );
    assert_eq!(
        dispatch_decision(&state, AppAction::CloseStatusPane).step,
        DispatchStep::PickerViewer(PickerViewerEffect::FocusChatList)
    );
    match dispatch_decision(&state, AppAction::ToggleChatList).step {
        DispatchStep::Settings(SettingsEffect::Layout(l)) => {
            assert!(!l.visibility.chat_list);
            assert_ne!(l.focus, FocusPane::ChatList);
        }
        other => panic!("unexpected step {:?}", other),
    }
    assert_eq!(dispatch_decision(&state, AppAction::OpenChat).step, DispatchStep::Open(OpenTarget::SelectedChat));
    let communities = dispatch_state(Section::Communities, FocusPane::ChatList);
    assert_eq!(dispatch_decision(&communities, AppAction::OpenChat).step, DispatchStep::Open(OpenTarget::CommunityRow));
}

#[test]
fn insert_mode_starts_composing_only_in_an_open_conversation() {
    let state = dispatch_state(Section::Chats, FocusPane::Conversation);
    assert_eq!(dispatch_decision(&state, AppAction::InsertMode).step, DispatchStep::StartComposing);
    let blocked = DispatchState { composer_blocked: true, ..state };
    assert_eq!(dispatch_decision(&blocked, AppAction::InsertMode).step, DispatchStep::FocusOnly);
    let list = dispatch_state(Section::Chats, FocusPane::ChatList);
    assert_eq!(dispatch_decision(&list, AppAction::InsertMode).step, DispatchStep::FocusOnly);
}
