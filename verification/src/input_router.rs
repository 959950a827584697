//! Routing of a key to what it does: inside the modal that owns input, or in
//! the focused pane when no modal is open.
use vstd::prelude::*;

use crate::actions::{AppAction, FocusPane, Section};
use crate::contextual_actions::{
    contextual_key_action, first_shortcut_match, ContextualAction, ContextualMenuRow, RowStyle,
};
use crate::input_mapping::{
    attachment_viewer_action, file_navigation_map, file_picker_navigation_action,
    file_picker_search_action, file_search_map, message_menu_action, message_menu_map,
    reaction_picker_action, reaction_picker_map, share_picker_action, share_picker_map,
    url_picker_action, url_picker_map, viewer_map,
};
use crate::keys::{is_plain, key_is, Key, KeyCode};
use crate::leader_menu::{
    matches_leader_binding, same_key_ignoring_case, LeaderMenuRow,
};

verus! {

/// The contextual action a key selects in the presented menu: only
/// character keys select, by the rows' shortcuts.
pub open spec fn contextual_route(rows: Seq<ContextualMenuRow>, key: Key) -> Option<
    ContextualAction,
> {
    match key.code {
        KeyCode::Char(c) => first_shortcut_match(rows, c),
        _ => None,
    }
}

/// Routing is scoped to the menu currently presented to the user.
pub fn route_contextual_key(rows: &[ContextualMenuRow], key: &Key) -> (r: Option<
    ContextualAction,
>)
    ensures
        r == contextual_route(rows@, *key),
{
    match key.code {
        KeyCode::Char(character) => contextual_key_action(rows, character),
        _ => None,
    }
}

/// What a key does.
#[derive(Clone, Copy, Debug, PartialEq, Eq)]
pub enum InputRoute {
    Action(AppAction),
    DismissLeader,
    DismissContextual,
    ActivateLeader,
    ActivateContextualShortcut(ContextualAction),
    ActivateContextualSelection,
    MoveLeader(isize),
    MoveContextual(isize),
    Ignore,
}

/// The modal that owns input.
pub enum ModalContext<'a> {
    ShortcutPopup,
    Leader(&'a [LeaderMenuRow]),
    Contextual(&'a [ContextualMenuRow]),
    AttachmentViewer,
    UrlPicker,
    FilePickerSearch,
    FilePickerNavigation,
    SharePicker,
    ReactionPicker,
    MessageMenu,
}

pub open spec fn mapped_route(action: Option<AppAction>) -> InputRoute {
    match action {
        Some(a) => InputRoute::Action(a),
        None => InputRoute::Ignore,
    }
}

/// A plain j or Down.
pub open spec fn is_down_key(key: Key) -> bool {
    is_plain(key, KeyCode::Char('j')) || is_plain(key, KeyCode::Down)
}

/// A plain k or Up.
pub open spec fn is_up_key(key: Key) -> bool {
    is_plain(key, KeyCode::Char('k')) || is_plain(key, KeyCode::Up)
}

/// Some enabled leader row is selected by the key.
pub open spec fn enabled_leader_match(rows: Seq<LeaderMenuRow>, key: Key) -> bool {
    exists|i: int|
        0 <= i < rows.len() && rows[i].row_style == RowStyle::Enabled && same_key_ignoring_case(
            key.code,
            rows[i].key.code,
        ) && key.modifiers.control == rows[i].key.modifiers.control && key.modifiers.alt
            == rows[i].key.modifiers.alt
}

/// The route of a key inside a modal.
pub open spec fn modal_route(key: Key, context: ModalContext) -> InputRoute {
    match context {
        ModalContext::ShortcutPopup => if is_plain(key, KeyCode::Esc) || is_plain(
            key,
            KeyCode::Char('?'),
        ) {
            InputRoute::DismissLeader
        } else {
            InputRoute::Ignore
        },
        ModalContext::Leader(rows) => if is_plain(key, KeyCode::Esc) {
            InputRoute::DismissLeader
        } else if is_plain(key, KeyCode::Enter) {
            InputRoute::ActivateLeader
        } else if is_down_key(key) {
            InputRoute::MoveLeader(1isize)
        } else if is_up_key(key) {
            InputRoute::MoveLeader(-1isize)
        } else if enabled_leader_match(rows@, key) {
            InputRoute::ActivateLeader
        } else {
            InputRoute::Ignore
        },
        ModalContext::Contextual(rows) => if is_plain(key, KeyCode::Esc) {
            InputRoute::DismissContextual
        } else if is_plain(key, KeyCode::Enter) {
            InputRoute::ActivateContextualSelection
        } else if is_down_key(key) {
            InputRoute::MoveContextual(1isize)
        } else if is_up_key(key) {
            InputRoute::MoveContextual(-1isize)
        } else if contextual_route(rows@, key) is Some {
            InputRoute::ActivateContextualShortcut(contextual_route(rows@, key)->0)
        } else {
            InputRoute::Ignore
        },
        ModalContext::AttachmentViewer => mapped_route(viewer_map(key.code)),
        ModalContext::UrlPicker => mapped_route(url_picker_map(key.code)),
        ModalContext::FilePickerSearch => mapped_route(file_search_map(key.code)),
        ModalContext::FilePickerNavigation => mapped_route(file_navigation_map(key.code)),
        ModalContext::SharePicker => mapped_route(share_picker_map(key.code)),
        ModalContext::ReactionPicker => mapped_route(reaction_picker_map(key.code)),
        ModalContext::MessageMenu => mapped_route(message_menu_map(key.code)),
    }
}

/// A mapped action becomes an action route; an unmapped key is ignored.
pub fn mapped(action: Option<AppAction>) -> (r: InputRoute)
    ensures
        r == mapped_route(action),
{
    match action {
        Some(a) => InputRoute::Action(a),
        None => InputRoute::Ignore,
    }
}

fn any_enabled_leader_match(rows: &[LeaderMenuRow], key: &Key) -> (b: bool)
    ensures
        b == enabled_leader_match(rows@, *key),
{
    let mut i: usize = 0;
    while i < rows.len()
        invariant
            0 <= i <= rows.len(),
            forall|j: int|
                0 <= j < i ==> !(rows@[j].row_style == RowStyle::Enabled
                    && same_key_ignoring_case(key.code, rows@[j].key.code)
                    && key.modifiers.control == rows@[j].key.modifiers.control
                    && key.modifiers.alt == rows@[j].key.modifiers.alt),
        decreases rows.len() - i,
    {
        if matches!(rows[i].row_style, RowStyle::Enabled) && matches_leader_binding(
            key,
            &rows[i].key,
        ) {
            return true;
        }
        i += 1;
    }
    false
}

/// Routes a key inside the modal that owns input. Menus handle Esc, Enter,
/// j/Down, k/Up and their own shortcuts; pickers and viewers use their key
/// maps; anything else is ignored.
pub fn route_modal_key(key: &Key, context: ModalContext<'_>) -> (r: InputRoute)
    ensures
        r == modal_route(*key, context),
{
    match context {
        ModalContext::ShortcutPopup => {
            if key_is(key, KeyCode::Esc) || key_is(key, KeyCode::Char('?')) {
                InputRoute::DismissLeader
            } else {
                InputRoute::Ignore
            }
        },
        ModalContext::Leader(rows) => {
            if key_is(key, KeyCode::Esc) {
                InputRoute::DismissLeader
            } else if key_is(key, KeyCode::Enter) {
                InputRoute::ActivateLeader
            } else if key_is(key, KeyCode::Char('j')) || key_is(key, KeyCode::Down) {
                InputRoute::MoveLeader(1isize)
            } else if key_is(key, KeyCode::Char('k')) || key_is(key, KeyCode::Up) {
                InputRoute::MoveLeader(-1isize)
            } else if any_enabled_leader_match(rows, key) {
                InputRoute::ActivateLeader
            } else {
                InputRoute::Ignore
            }
        },
        ModalContext::Contextual(rows) => {
            if key_is(key, KeyCode::Esc) {
                InputRoute::DismissContextual
            } else if key_is(key, KeyCode::Enter) {
                InputRoute::ActivateContextualSelection
            } else if key_is(key, KeyCode::Char('j')) || key_is(key, KeyCode::Down) {
                InputRoute::MoveContextual(1isize)
            } else if key_is(key, KeyCode::Char('k')) || key_is(key, KeyCode::Up) {
                InputRoute::MoveContextual(-1isize)
            } else {
                match route_contextual_key(rows, key) {
                    Some(action) => InputRoute::ActivateContextualShortcut(action),
                    None => InputRoute::Ignore,
                }
            }
        },
        ModalContext::AttachmentViewer => mapped(attachment_viewer_action(key)),
        ModalContext::UrlPicker => mapped(url_picker_action(key)),
        ModalContext::FilePickerSearch => mapped(file_picker_search_action(key)),
        ModalContext::FilePickerNavigation => mapped(file_picker_navigation_action(key)),
        ModalContext::SharePicker => mapped(share_picker_action(key)),
        ModalContext::ReactionPicker => mapped(reaction_picker_action(key)),
        ModalContext::MessageMenu => mapped(message_menu_action(key)),
    }
}

/// What a key does in the focused pane when no modal is open.
pub open spec fn context_route(
    key: Key,
    focus: FocusPane,
    section: Section,
    community_detail: bool,
    rail_on_logout: bool,
) -> Option<AppAction> {
    if focus == FocusPane::Conversation && section == Section::Status {
        match key.code {
            KeyCode::Esc => Some(AppAction::CloseStatusPane),
            KeyCode::Enter => Some(AppAction::ViewMessage),
            _ => None,
        }
    } else if focus == FocusPane::ChatList && community_detail && is_plain(key, KeyCode::Esc) {
        None
    } else if focus == FocusPane::SectionRail && rail_on_logout && is_plain(key, KeyCode::Enter) {
        None
    } else if is_plain(key, KeyCode::Enter) {
        Some(
            match focus {
                FocusPane::SectionRail => AppAction::FocusPane(FocusPane::ChatList),
                FocusPane::ChatList => AppAction::OpenChat,
                FocusPane::Conversation => AppAction::OpenContextualActions,
            },
        )
    } else {
        None
    }
}

/// Routes the pane-context keys. The status view owns Esc (close) and
/// Enter (view); Esc in a community detail and Enter on the Logout slot are
/// left to their owners; otherwise Enter acts on the focused pane.
pub fn route_context_key(
    key: &Key,
    focus_pane: FocusPane,
    selected_section: Section,
    community_detail: bool,
    rail_on_logout: bool,
) -> (r: Option<AppAction>)
    ensures
        r == context_route(*key, focus_pane, selected_section, community_detail, rail_on_logout),
{
    if matches!(focus_pane, FocusPane::Conversation) && matches!(selected_section, Section::Status) {
        return match key.code {
            KeyCode::Esc => Some(AppAction::CloseStatusPane),
            KeyCode::Enter => Some(AppAction::ViewMessage),
            _ => None,
        };
    }
    if matches!(focus_pane, FocusPane::ChatList) && community_detail && key_is(key, KeyCode::Esc) {
        return None;
    }
    if matches!(focus_pane, FocusPane::SectionRail) && rail_on_logout && key_is(
        key,
        KeyCode::Enter,
    ) {
        return None;
    }
    if key_is(key, KeyCode::Enter) {
        return Some(
            match focus_pane {
                FocusPane::SectionRail => AppAction::FocusPane(FocusPane::ChatList),
                FocusPane::ChatList => AppAction::OpenChat,
                FocusPane::Conversation => AppAction::OpenContextualActions,
            },
        );
    }
    None
}

/// In the status view Enter always views the status: it never opens the
/// contextual menu, whatever the other flags are.
pub proof fn lemma_status_enter_precedence(
    key: Key,
    community_detail: bool,
    rail_on_logout: bool,
)
    requires
        key.code == KeyCode::Enter,
    ensures
        context_route(key, FocusPane::Conversation, Section::Status, community_detail, rail_on_logout)
            == Some(AppAction::ViewMessage),
{
}

} // verus!
