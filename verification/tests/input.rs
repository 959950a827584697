use wptui::actions::{AppAction, ComposerAction, FocusPane, Section};
use wptui::contextual_actions::{
    contextual_key_action, contextual_menu_rows, ContextualAction, ContextualContext, ContextualMenuRow,
    RowStyle,
};
use wptui::contextual_activation::{
    composer_action_for_editing_key, contextual_activation, contextual_context, contextual_shortcut_index,
};
use wptui::input_mapping::{
    attachment_viewer_action, file_picker_navigation_action, file_picker_search_action, message_menu_action,
    reaction_picker_action, share_picker_action, url_picker_action,
};
use wptui::input_router::{route_context_key, route_contextual_key, route_modal_key, InputRoute, ModalContext};
use wptui::keys::{Key, KeyCode, KeyModifiers};
use wptui::leader_menu::{
    activate_leader_key, activate_leader_selection, build_leader_menu, BindingImplementation, LeaderBinding,
    LeaderMenuContext,
};

fn key(code: KeyCode) -> Key {
    Key::k(code)
}

#[test]
fn maps_submit_and_paste_keys() {
    assert_eq!(composer_action_for_editing_key(&Key::k(KeyCode::Enter)), ComposerAction::Submit);
    assert_eq!(composer_action_for_editing_key(&Key::ctrl('v')), ComposerAction::Paste);
}

#[test]
fn preserves_other_editing_keys() {
    let key = Key { code: KeyCode::Char('V'), modifiers: KeyModifiers::shift() };
    assert_eq!(composer_action_for_editing_key(&key), ComposerAction::Edit(key));
}

#[test]
fn status_enter_precedes_generic_enter() {
    assert_eq!(
        route_context_key(&Key::k(KeyCode::Enter), FocusPane::Conversation, Section::Status, false, false),
        Some(AppAction::ViewMessage)
    );
}

#[test]
fn generic_enter_maps_to_the_focused_pane() {
    assert_eq!(
        route_context_key(&Key::k(KeyCode::Enter), FocusPane::ChatList, Section::Chats, false, false),
        Some(AppAction::OpenChat)
    );
}

#[test]
fn picker_routes_only_supported_keys() {
    assert_eq!(
        route_modal_key(&Key::k(KeyCode::Down), ModalContext::ReactionPicker),
        InputRoute::Action(AppAction::ReactionNext)
    );
    assert_eq!(route_modal_key(&Key::k(KeyCode::Tab), ModalContext::ReactionPicker), InputRoute::Ignore);
}

#[test]
fn contextual_enter_preserves_selected_row_activation() {
    let rows = [ContextualMenuRow {
        action_token: ContextualAction::Quit,
        display_label: "Quit",
        display_shortcut: 'q',
        row_style: RowStyle::Enabled,
        reason: None,
    }];
    assert_eq!(
        route_modal_key(&Key::k(KeyCode::Enter), ModalContext::Contextual(&rows)),
        InputRoute::ActivateContextualSelection
    );
}

fn leader_bindings() -> Vec<LeaderBinding> {
    vec![
        LeaderBinding {
            key: Key::c('a'),
            key_label: "a",
            label: "Contextual actions",
            action: AppAction::OpenContextualActions,
            implementation: BindingImplementation::Implemented,
        },
        LeaderBinding {
            key: Key::c('q'),
            key_label: "q",
            label: "Quit",
            action: AppAction::Quit,
            implementation: BindingImplementation::Implemented,
        },
    ]
}

#[test]
fn contextual_route_stays_enabled_when_children_are_unavailable() {
    let rows = build_leader_menu(LeaderMenuContext {}, &leader_bindings());
    assert!(rows.iter().any(|row| row.display_shortcut == "Space+a" && row.row_style == RowStyle::Enabled));
}

#[test]
fn maps_picker_navigation_and_controls() {
    assert_eq!(url_picker_action(&key(KeyCode::Down)), Some(AppAction::UrlPickerNext));
    assert_eq!(file_picker_navigation_action(&key(KeyCode::Char('h'))), Some(AppAction::FilePickerParent));
    assert_eq!(reaction_picker_action(&key(KeyCode::Enter)), Some(AppAction::ConfirmReaction));
    assert_eq!(message_menu_action(&key(KeyCode::Esc)), Some(AppAction::CancelMessageMenu));
}

#[test]
fn maps_picker_search_and_viewer_keys() {
    assert_eq!(file_picker_search_action(&key(KeyCode::Char('x'))), Some(AppAction::FilePickerCharacter('x')));
    assert_eq!(share_picker_action(&key(KeyCode::Backspace)), Some(AppAction::ShareSearchBackspace));
    assert_eq!(attachment_viewer_action(&key(KeyCode::Char('l'))), Some(AppAction::ViewerNext));
}

#[test]
fn ignores_keys_outside_each_picker_context() {
    let unknown = key(KeyCode::Tab);
    assert_eq!(attachment_viewer_action(&unknown), None);
    assert_eq!(url_picker_action(&unknown), None);
    assert_eq!(file_picker_search_action(&unknown), None);
    assert_eq!(file_picker_navigation_action(&unknown), None);
    assert_eq!(share_picker_action(&unknown), None);
    assert_eq!(reaction_picker_action(&unknown), None);
    assert_eq!(message_menu_action(&unknown), None);
}

fn conversation_context() -> ContextualContext {
    ContextualContext {
        focus: FocusPane::Conversation,
        section: Section::Chats,
        has_selected_message: false,
        selected_text: false,
        has_reference: false,
        attach_blocked: false,
    }
}

#[test]
fn scoped_catalog_preserves_colliding_shortcuts() {
    let rows = contextual_menu_rows(ContextualContext {
        focus: FocusPane::Conversation,
        section: Section::Chats,
        has_selected_message: true,
        selected_text: true,
        has_reference: true,
        attach_blocked: false,
    });
    assert_eq!(rows.iter().filter(|row| row.display_shortcut == 's').count(), 1);
    assert_eq!(contextual_key_action(&rows, 's'), Some(ContextualAction::Share));
}

#[test]
fn planned_rows_are_visible_but_not_activatable() {
    let rows = contextual_menu_rows(ContextualContext {
        focus: FocusPane::SectionRail,
        section: Section::Chats,
        has_selected_message: false,
        selected_text: false,
        has_reference: false,
        attach_blocked: false,
    });
    assert!(rows.iter().any(|row| row.display_label == "Starred" && row.row_style == RowStyle::Disabled));
}

#[test]
fn attach_is_enabled_in_normal_conversation_and_disabled_when_blocked() {
    let normal = contextual_menu_rows(conversation_context());
    assert_eq!(
        normal.iter().find(|row| row.action_token == ContextualAction::Attach).map(|row| row.row_style),
        Some(RowStyle::Enabled)
    );
    let blocked = contextual_menu_rows(ContextualContext { attach_blocked: true, ..conversation_context() });
    assert_eq!(
        blocked.iter().find(|row| row.action_token == ContextualAction::Attach).map(|row| row.row_style),
        Some(RowStyle::Disabled)
    );
}

#[test]
fn contextual_shortcuts_route_only_character_keys() {
    let rows = contextual_menu_rows(conversation_context());
    assert_eq!(route_contextual_key(&rows, &Key::c('a')), Some(ContextualAction::Attach));
    assert_eq!(route_contextual_key(&rows, &Key::k(KeyCode::Enter)), None);
}

#[test]
fn leader_menu_keeps_the_first_binding_of_a_key() {
    let mut bindings = leader_bindings();
    bindings.push(LeaderBinding {
        key: Key::c('a'),
        key_label: "a",
        label: "Duplicate",
        action: AppAction::Quit,
        implementation: BindingImplementation::Implemented,
    });
    let rows = build_leader_menu(LeaderMenuContext {}, &bindings);
    assert_eq!(rows.len(), 2);
    assert_eq!(rows[0].action_token, AppAction::OpenContextualActions);
}

#[test]
fn leader_keys_activate_enabled_rows_ignoring_case() {
    let mut bindings = leader_bindings();
    bindings.push(LeaderBinding {
        key: Key::c('s'),
        key_label: "s",
        label: "Starred",
        action: AppAction::PlannedLeaderAction("Starred"),
        implementation: BindingImplementation::Planned,
    });
    let rows = build_leader_menu(LeaderMenuContext {}, &bindings);
    assert_eq!(activate_leader_key(&rows, &Key::c('Q')), Some(AppAction::Quit));
    assert_eq!(activate_leader_key(&rows, &Key::c('z')), None);
    assert_eq!(activate_leader_key(&rows, &Key::c('s')), None);
    assert_eq!(activate_leader_selection(&rows, 0), Some(AppAction::OpenContextualActions));
    assert_eq!(activate_leader_selection(&rows, 9), None);
}

#[test]
fn contextual_shortcuts_select_their_row() {
    let rows = contextual_menu_rows(conversation_context());
    let index = contextual_shortcut_index(&rows, ContextualAction::Attach).unwrap();
    assert_eq!(rows[index].action_token, ContextualAction::Attach);
    let rail = contextual_menu_rows(ContextualContext { focus: FocusPane::SectionRail, ..conversation_context() });
    assert_eq!(contextual_shortcut_index(&rail, ContextualAction::Attach), None);
}

#[test]
fn the_contextual_context_reflects_the_selection() {
    let c = contextual_context(FocusPane::Conversation, Section::Status, Some((true, false)), false);
    assert!(c.has_selected_message && c.selected_text && !c.has_reference && c.attach_blocked);
    let c = contextual_context(FocusPane::Conversation, Section::Chats, None, false);
    assert!(!c.has_selected_message && !c.attach_blocked);
    assert!(contextual_context(FocusPane::Conversation, Section::Chats, None, true).attach_blocked);
}

#[test]
fn contextual_q_quits_through_terminal_input_routing() {
    let context = contextual_context(FocusPane::Conversation, Section::Chats, None, false);
    let rows = contextual_menu_rows(context);
    assert_eq!(
        route_modal_key(&Key::c('q'), ModalContext::Contextual(&rows)),
        InputRoute::ActivateContextualShortcut(ContextualAction::Quit)
    );
    let index = contextual_shortcut_index(&rows, ContextualAction::Quit).unwrap();
    assert_eq!(contextual_activation(&rows, index, context), Some(AppAction::Quit));
}

#[test]
fn enter_activates_selected_quit_row_in_contextual_menu() {
    let context = contextual_context(FocusPane::Conversation, Section::Chats, None, false);
    let rows = contextual_menu_rows(context);
    let quit_index = rows.iter().position(|row| row.action_token == ContextualAction::Quit).unwrap();
    assert_eq!(rows[quit_index].display_shortcut, 'q');
    assert_eq!(rows[quit_index].row_style, RowStyle::Enabled);
    assert_eq!(contextual_activation(&rows, quit_index, context), Some(AppAction::Quit));
}

#[test]
fn section_rail_and_chat_list_menus_only_enable_quit() {
    for focus in [FocusPane::SectionRail, FocusPane::ChatList] {
        let rows = contextual_menu_rows(contextual_context(focus, Section::Chats, None, false));
        assert!(rows.iter().any(|row| row.action_token == ContextualAction::Quit && row.row_style == RowStyle::Enabled));
        assert!(rows
            .iter()
            .filter(|row| row.action_token != ContextualAction::Quit)
            .all(|row| row.row_style == RowStyle::Disabled));
    }
}
