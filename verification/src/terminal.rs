//! Which part of the application a terminal key goes to: the logout
//! prompt, the log toggle, the composer, an open menu, picker or viewer,
//! the status view, the chat search, or the focused pane.
use vstd::prelude::*;

use crate::actions::{AppAction, ConversationMode, FocusPane, Section};
use crate::contextual_actions::{
    applicable_entries, lemma_q_selects_quit, metadata_table, row_matches, ContextualAction, ContextualContext,
    ContextualMenuRow,
};
use crate::input_router::{
    context_route, modal_route, route_context_key, route_modal_key, InputRoute, ModalContext,
};
use crate::keys::{is_plain, key_is, Key, KeyCode, KeyModifiers};
use crate::leader_menu::LeaderMenuRow;
use crate::lifecycle::is_toggle_logs_key;

verus! {

/// What the application shows when a key arrives, as far as it decides
/// where the key goes.
pub struct TerminalContext<'a> {
    pub pending_logout: bool,
    pub logout_in_progress: bool,
    pub focus_pane: FocusPane,
    pub selected_section: Section,
    pub conversation_mode: ConversationMode,
    pub shortcut_popup: bool,
    pub leader_menu: Option<&'a [LeaderMenuRow]>,
    pub contextual_menu: Option<&'a [ContextualMenuRow]>,
    pub attachment_viewer: bool,
    pub url_picker: bool,
    /// The file picker, if open: whether it is in search mode.
    pub file_picker: Option<bool>,
    pub share_picker: bool,
    pub reaction_picker: bool,
    pub message_menu: bool,
    pub contact_search_active: bool,
    pub community_detail: bool,
    pub rail_on_logout: bool,
}

/// Where a key goes.
#[derive(Clone, Copy, Debug, PartialEq, Eq)]
pub enum TerminalStep {
    /// Nothing happens.
    Ignore,
    /// The logout prompt handles the key.
    Logout,
    /// The action is dispatched.
    Dispatch(AppAction),
    /// The composer handles the key.
    Composer,
    /// The shortcut popup closes.
    DismissShortcutPopup,
    /// The leader menu follows the route.
    Leader(InputRoute),
    /// The contextual menu follows the route.
    Contextual(InputRoute),
    /// The chat search handles the key.
    ChatSearch,
    /// The community detail view closes.
    CloseCommunityDetail,
    /// The logout confirmation opens.
    BeginLogoutConfirmation,
    /// The key goes to the key-sequence resolver of the status view; an
    /// unbound key does nothing there.
    ResolveStatusSequence,
    /// The key goes to the key-sequence resolver; an unbound key may start
    /// the chat search.
    ResolveSequence,
}

/// The composer owns input: the conversation of a chat is focused and a
/// message is being written or edited.
pub open spec fn composer_owns(ctx: TerminalContext) -> bool {
    ctx.focus_pane == FocusPane::Conversation && ctx.selected_section == Section::Chats && (
    ctx.conversation_mode == ConversationMode::ComposerEditing || ctx.conversation_mode
        == ConversationMode::EditingMessage)
}

/// The key toggles the log panel.
pub open spec fn toggles_logs(key: Key) -> bool {
    (key.code == KeyCode::Char('l') || key.code == KeyCode::Char('L')) && key.modifiers.control
        && key.modifiers.shift && !key.modifiers.alt
}

/// A modal route that carries an action dispatches it; any other is
/// ignored.
pub open spec fn dispatch_route(route: InputRoute) -> TerminalStep {
    match route {
        InputRoute::Action(a) => TerminalStep::Dispatch(a),
        _ => TerminalStep::Ignore,
    }
}

/// Where a key goes, by precedence: the logout prompt, the log toggle, the
/// composer, the shortcut popup, the leader and contextual menus, the
/// viewer and pickers, the status view, the chat search, then the focused
/// pane.
pub open spec fn terminal_step(ctx: TerminalContext, key: Key) -> TerminalStep {
    if ctx.pending_logout {
        if ctx.logout_in_progress {
            TerminalStep::Ignore
        } else {
            TerminalStep::Logout
        }
    } else if toggles_logs(key) {
        TerminalStep::Dispatch(AppAction::ToggleLogs)
    } else if composer_owns(ctx) {
        TerminalStep::Composer
    } else if ctx.shortcut_popup {
        if modal_route(key, ModalContext::ShortcutPopup) == InputRoute::DismissLeader {
            TerminalStep::DismissShortcutPopup
        } else {
            TerminalStep::Ignore
        }
    } else if ctx.leader_menu is Some {
        TerminalStep::Leader(modal_route(key, ModalContext::Leader(ctx.leader_menu->Some_0)))
    } else if ctx.contextual_menu is Some {
        TerminalStep::Contextual(modal_route(key, ModalContext::Contextual(ctx.contextual_menu->Some_0)))
    } else if ctx.attachment_viewer {
        dispatch_route(modal_route(key, ModalContext::AttachmentViewer))
    } else if ctx.url_picker {
        dispatch_route(modal_route(key, ModalContext::UrlPicker))
    } else if ctx.file_picker == Some(true) {
        dispatch_route(modal_route(key, ModalContext::FilePickerSearch))
    } else if ctx.file_picker == Some(false) {
        dispatch_route(modal_route(key, ModalContext::FilePickerNavigation))
    } else if ctx.share_picker {
        dispatch_route(modal_route(key, ModalContext::SharePicker))
    } else if ctx.reaction_picker {
        dispatch_route(modal_route(key, ModalContext::ReactionPicker))
    } else if ctx.message_menu {
        dispatch_route(modal_route(key, ModalContext::MessageMenu))
    } else if ctx.focus_pane == FocusPane::Conversation && ctx.selected_section == Section::Status {
        match context_route(key, ctx.focus_pane, ctx.selected_section, false, false) {
            Some(a) => TerminalStep::Dispatch(a),
            None => TerminalStep::ResolveStatusSequence,
        }
    } else if ctx.focus_pane == FocusPane::ChatList && ctx.contact_search_active {
        TerminalStep::ChatSearch
    } else if ctx.focus_pane == FocusPane::ChatList && ctx.community_detail && is_plain(key, KeyCode::Esc) {
        TerminalStep::CloseCommunityDetail
    } else if ctx.focus_pane == FocusPane::SectionRail && ctx.rail_on_logout && is_plain(key, KeyCode::Enter) {
        TerminalStep::BeginLogoutConfirmation
    } else {
        match context_route(
            key,
            ctx.focus_pane,
            ctx.selected_section,
            ctx.community_detail,
            ctx.rail_on_logout,
        ) {
            Some(a) => TerminalStep::Dispatch(a),
            None => if is_plain(key, KeyCode::Enter) {
                if ctx.focus_pane == FocusPane::ChatList && ctx.community_detail {
                    TerminalStep::Dispatch(AppAction::OpenChat)
                } else if ctx.focus_pane == FocusPane::SectionRail && ctx.rail_on_logout {
                    TerminalStep::BeginLogoutConfirmation
                } else {
                    TerminalStep::Ignore
                }
            } else {
                TerminalStep::ResolveSequence
            },
        }
    }
}

fn dispatch_mapped(route: InputRoute) -> (s: TerminalStep)
    ensures
        s == dispatch_route(route),
{
    match route {
        InputRoute::Action(a) => TerminalStep::Dispatch(a),
        _ => TerminalStep::Ignore,
    }
}

/// Decides where a terminal key goes.
pub fn terminal_key_step(ctx: &TerminalContext, key: &Key) -> (s: TerminalStep)
    ensures
        s == terminal_step(*ctx, *key),
{
    if ctx.pending_logout {
        return if ctx.logout_in_progress {
            TerminalStep::Ignore
        } else {
            TerminalStep::Logout
        };
    }
    if is_toggle_logs_key(key) {
        return TerminalStep::Dispatch(AppAction::ToggleLogs);
    }
    if matches!(ctx.focus_pane, FocusPane::Conversation) && matches!(ctx.selected_section, Section::Chats)
        && (matches!(ctx.conversation_mode, ConversationMode::ComposerEditing) || matches!(
        ctx.conversation_mode,
        ConversationMode::EditingMessage,
    )) {
        return TerminalStep::Composer;
    }
    if ctx.shortcut_popup {
        return match route_modal_key(key, ModalContext::ShortcutPopup) {
            InputRoute::DismissLeader => TerminalStep::DismissShortcutPopup,
            _ => TerminalStep::Ignore,
        };
    }
    match ctx.leader_menu {
        Some(rows) => {
            return TerminalStep::Leader(route_modal_key(key, ModalContext::Leader(rows)));
        },
        None => {},
    }
    match ctx.contextual_menu {
        Some(rows) => {
            return TerminalStep::Contextual(route_modal_key(key, ModalContext::Contextual(rows)));
        },
        None => {},
    }
    if ctx.attachment_viewer {
        return dispatch_mapped(route_modal_key(key, ModalContext::AttachmentViewer));
    }
    if ctx.url_picker {
        return dispatch_mapped(route_modal_key(key, ModalContext::UrlPicker));
    }
    match ctx.file_picker {
        Some(true) => {
            return dispatch_mapped(route_modal_key(key, ModalContext::FilePickerSearch));
        },
        Some(false) => {
            return dispatch_mapped(route_modal_key(key, ModalContext::FilePickerNavigation));
        },
        None => {},
    }
    if ctx.share_picker {
        return dispatch_mapped(route_modal_key(key, ModalContext::SharePicker));
    }
    if ctx.reaction_picker {
        return dispatch_mapped(route_modal_key(key, ModalContext::ReactionPicker));
    }
    if ctx.message_menu {
        return dispatch_mapped(route_modal_key(key, ModalContext::MessageMenu));
    }
    if matches!(ctx.focus_pane, FocusPane::Conversation) && matches!(ctx.selected_section, Section::Status) {
        return match route_context_key(key, ctx.focus_pane, ctx.selected_section, false, false) {
            Some(a) => TerminalStep::Dispatch(a),
            None => TerminalStep::ResolveStatusSequence,
        };
    }
    if matches!(ctx.focus_pane, FocusPane::ChatList) && ctx.contact_search_active {
        return TerminalStep::ChatSearch;
    }
    if matches!(ctx.focus_pane, FocusPane::ChatList) && ctx.community_detail && key_is(key, KeyCode::Esc) {
        return TerminalStep::CloseCommunityDetail;
    }
    if matches!(ctx.focus_pane, FocusPane::SectionRail) && ctx.rail_on_logout && key_is(key, KeyCode::Enter) {
        return TerminalStep::BeginLogoutConfirmation;
    }
    match route_context_key(key, ctx.focus_pane, ctx.selected_section, ctx.community_detail, ctx.rail_on_logout) {
        Some(a) => TerminalStep::Dispatch(a),
        None => {
            if key_is(key, KeyCode::Enter) {
                if matches!(ctx.focus_pane, FocusPane::ChatList) && ctx.community_detail {
                    TerminalStep::Dispatch(AppAction::OpenChat)
                } else if matches!(ctx.focus_pane, FocusPane::SectionRail) && ctx.rail_on_logout {
                    TerminalStep::BeginLogoutConfirmation
                } else {
                    TerminalStep::Ignore
                }
            } else {
                TerminalStep::ResolveSequence
            }
        },
    }
}

/// While the logout prompt is up, it takes every key, and while the logout
/// runs every key is ignored.
pub proof fn lemma_logout_prompt_owns_input(ctx: TerminalContext, key: Key)
    requires
        ctx.pending_logout,
    ensures
        terminal_step(ctx, key) == (if ctx.logout_in_progress {
            TerminalStep::Ignore
        } else {
            TerminalStep::Logout
        }),
{
}

/// Outside the logout prompt the log toggle works whatever else is open.
pub proof fn lemma_logs_toggle_everywhere(ctx: TerminalContext, key: Key)
    requires
        !ctx.pending_logout,
        toggles_logs(key),
    ensures
        terminal_step(ctx, key) == TerminalStep::Dispatch(AppAction::ToggleLogs),
{
}

/// While a message is being written, the composer takes every key but
/// the log toggle, even where a menu or picker is open.
pub proof fn lemma_composer_owns_keys(ctx: TerminalContext, key: Key)
    requires
        !ctx.pending_logout,
        !toggles_logs(key),
        composer_owns(ctx),
    ensures
        terminal_step(ctx, key) == TerminalStep::Composer,
{
}

/// What a key does inside the composer.
#[derive(Clone, Copy, Debug, PartialEq, Eq)]
pub enum ComposerKeyStep {
    /// Leave editing a sent message.
    CancelMessageEdit,
    /// Drop the reply and the attachments and leave the composer.
    LeaveComposer,
    /// Open the file picker to attach a file.
    AttachFile,
    /// Close the mention picker.
    CancelMentionPicker,
    /// Insert the selected mention.
    ConfirmMention,
    /// Move the mention picker's selection.
    MoveMentionSelection(isize),
    /// Apply the key to the composer.
    Apply,
    /// The composer is blocked: the key is taken and nothing happens.
    Ignore,
}

/// What a key does inside the composer: Esc leaves (when no mention picker
/// is open), Control+o attaches a file, the mention picker takes Esc,
/// Enter, Up and Down, and other keys edit unless the chat is blocked.
pub open spec fn composer_step(key: Key, mode: ConversationMode, picker_active: bool, blocked: bool) -> ComposerKeyStep {
    if is_plain(key, KeyCode::Esc) && !picker_active {
        if mode == ConversationMode::EditingMessage {
            ComposerKeyStep::CancelMessageEdit
        } else {
            ComposerKeyStep::LeaveComposer
        }
    } else if key == (Key { code: KeyCode::Char('o'), modifiers: KeyModifiers { shift: false, control: true, alt: false } }) {
        ComposerKeyStep::AttachFile
    } else if picker_active {
        match key.code {
            KeyCode::Esc => ComposerKeyStep::CancelMentionPicker,
            KeyCode::Enter => ComposerKeyStep::ConfirmMention,
            KeyCode::Up => ComposerKeyStep::MoveMentionSelection(-1isize),
            KeyCode::Down => ComposerKeyStep::MoveMentionSelection(1isize),
            _ => ComposerKeyStep::Apply,
        }
    } else if !blocked {
        ComposerKeyStep::Apply
    } else {
        ComposerKeyStep::Ignore
    }
}

/// The composer's keys: while the mention picker is open, Enter confirms
/// the highlighted mention, Esc closes the picker and Up and Down move its
/// selection up and down by one (whatever modifiers are held), and other
/// keys edit the text; the mention keys
/// do nothing without the picker; Control+o always attaches a file; plain
/// Esc without the picker cancels a message edit or leaves the composer;
/// without the picker, any other key edits the text unless the chat is
/// blocked, where it is ignored.
pub proof fn lemma_composer_keys(key: Key, mode: ConversationMode, picker_active: bool, blocked: bool)
    ensures
        ({
            let s = composer_step(key, mode, picker_active, blocked);
            &&& picker_active && key.code == KeyCode::Enter ==> s == ComposerKeyStep::ConfirmMention
            &&& picker_active && key.code == KeyCode::Esc ==> s == ComposerKeyStep::CancelMentionPicker
            &&& picker_active && key.code == KeyCode::Up ==> s == ComposerKeyStep::MoveMentionSelection(-1isize)
            &&& picker_active && key.code == KeyCode::Down ==> s == ComposerKeyStep::MoveMentionSelection(1isize)
            &&& picker_active && !(key.code is Esc || key.code is Enter || key.code is Up || key.code is Down)
                && !(key.code == KeyCode::Char('o') && key.modifiers.control && !key.modifiers.shift
                && !key.modifiers.alt) ==> s == ComposerKeyStep::Apply
            &&& !picker_active && is_plain(key, KeyCode::Esc) ==> s == (if mode == ConversationMode::EditingMessage {
                ComposerKeyStep::CancelMessageEdit
            } else {
                ComposerKeyStep::LeaveComposer
            })
            &&& key.code == KeyCode::Char('o') && key.modifiers == (KeyModifiers {
                shift: false,
                control: true,
                alt: false,
            }) ==> s == ComposerKeyStep::AttachFile
            &&& (s == ComposerKeyStep::ConfirmMention || s == ComposerKeyStep::CancelMentionPicker
                || s matches ComposerKeyStep::MoveMentionSelection(_)) ==> picker_active
            &&& !picker_active && !is_plain(key, KeyCode::Esc) && !(key.code == KeyCode::Char('o')
                && key.modifiers.control && !key.modifiers.shift && !key.modifiers.alt) ==> s == (if blocked {
                ComposerKeyStep::Ignore
            } else {
                ComposerKeyStep::Apply
            })
        }),
{
}

/// Decides what a key does inside the composer.
pub fn composer_key_step(key: &Key, mode: ConversationMode, picker_active: bool, blocked: bool) -> (s:
    ComposerKeyStep)
    ensures
        s == composer_step(*key, mode, picker_active, blocked),
        picker_active && key.code == KeyCode::Enter ==> s == ComposerKeyStep::ConfirmMention,
        picker_active && key.code == KeyCode::Esc ==> s == ComposerKeyStep::CancelMentionPicker,
        picker_active && key.code == KeyCode::Up ==> s == ComposerKeyStep::MoveMentionSelection(-1isize),
        picker_active && key.code == KeyCode::Down ==> s == ComposerKeyStep::MoveMentionSelection(1isize),
        picker_active && !(key.code is Esc || key.code is Enter || key.code is Up || key.code is Down) && !(key.code
            == KeyCode::Char('o') && key.modifiers.control && !key.modifiers.shift && !key.modifiers.alt)
            ==> s == ComposerKeyStep::Apply,
        !picker_active && is_plain(*key, KeyCode::Esc) ==> s == (if mode == ConversationMode::EditingMessage {
            ComposerKeyStep::CancelMessageEdit
        } else {
            ComposerKeyStep::LeaveComposer
        }),
        key.code == KeyCode::Char('o') && key.modifiers == (KeyModifiers { shift: false, control: true, alt: false })
            ==> s == ComposerKeyStep::AttachFile,
        (s == ComposerKeyStep::ConfirmMention || s == ComposerKeyStep::CancelMentionPicker
            || s matches ComposerKeyStep::MoveMentionSelection(_)) ==> picker_active,
        !picker_active && !is_plain(*key, KeyCode::Esc) && !(key.code == KeyCode::Char('o')
            && key.modifiers.control && !key.modifiers.shift && !key.modifiers.alt) ==> s == (if blocked {
            ComposerKeyStep::Ignore
        } else {
            ComposerKeyStep::Apply
        }),
{
    proof {
        lemma_composer_keys(*key, mode, picker_active, blocked);
    }
    if key_is(key, KeyCode::Esc) && !picker_active {
        return if matches!(mode, ConversationMode::EditingMessage) {
            ComposerKeyStep::CancelMessageEdit
        } else {
            ComposerKeyStep::LeaveComposer
        };
    }
    if *key == Key::ctrl('o') {
        return ComposerKeyStep::AttachFile;
    }
    if picker_active {
        return match key.code {
            KeyCode::Esc => ComposerKeyStep::CancelMentionPicker,
            KeyCode::Enter => ComposerKeyStep::ConfirmMention,
            KeyCode::Up => ComposerKeyStep::MoveMentionSelection(-1isize),
            KeyCode::Down => ComposerKeyStep::MoveMentionSelection(1isize),
            _ => ComposerKeyStep::Apply,
        };
    }
    if !blocked {
        ComposerKeyStep::Apply
    } else {
        ComposerKeyStep::Ignore
    }
}

/// With the contextual menu open, "q" activates its Quit row, whatever
/// view the menu was built for.
pub proof fn lemma_contextual_q_quits(ctx: TerminalContext, menu: ContextualContext)
    requires
        !ctx.pending_logout,
        !composer_owns(ctx),
        !ctx.shortcut_popup,
        ctx.leader_menu is None,
        ctx.contextual_menu matches Some(rows) && rows@.len() == applicable_entries(metadata_table(), menu).len()
            && forall|i: int|
            0 <= i < rows@.len() ==> row_matches(
                #[trigger] rows@[i],
                applicable_entries(metadata_table(), menu)[i],
                menu,
            ),
    ensures
        terminal_step(ctx, Key { code: KeyCode::Char('q'), modifiers: KeyModifiers { shift: false, control: false, alt: false } })
            == TerminalStep::Contextual(InputRoute::ActivateContextualShortcut(ContextualAction::Quit)),
{
    let rows = ctx.contextual_menu->Some_0;
    lemma_q_selects_quit(menu, rows@);
}

} // verus!
