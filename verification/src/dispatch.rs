//! How an action is dispatched: the actions an informational item refuses,
//! the two action families with a dispatcher of their own (pickers and the
//! viewer; lifecycle and settings) and what each of their actions does.
use vstd::prelude::*;

use crate::actions::{focus_after, pane_after, pane_before, AppAction, ComposerAction, FocusPane, Section};
use crate::lifecycle::{focus_requested_pane, toggle_chat_list, toggle_section_rail, viewer_zoom_in, viewer_zoom_out, PaneLayout};

verus! {

/// An action that needs a real message: an informational item in the
/// message list (such as a date separator) refuses it.
pub open spec fn needs_message(a: AppAction) -> bool {
    match a {
        AppAction::OpenMessageMenu | AppAction::CopyMessage | AppAction::ReplyMessage
        | AppAction::ReplyPrivately | AppAction::ShareMessage | AppAction::ReactMessage
        | AppAction::DeleteMessage | AppAction::EditMessage | AppAction::OpenMessage
        | AppAction::DownloadMessage | AppAction::ViewMessage | AppAction::GoToReference => true,
        _ => false,
    }
}

/// Whether the action is refused because the selected item is
/// informational.
pub fn refused_for_informational_item(action: &AppAction, selected_is_informational: bool) -> (b: bool)
    ensures
        b == (selected_is_informational && needs_message(*action)),
{
    selected_is_informational && matches!(
        action,
        AppAction::OpenMessageMenu | AppAction::CopyMessage | AppAction::ReplyMessage
            | AppAction::ReplyPrivately | AppAction::ShareMessage | AppAction::ReactMessage
            | AppAction::DeleteMessage | AppAction::EditMessage | AppAction::OpenMessage
            | AppAction::DownloadMessage | AppAction::ViewMessage | AppAction::GoToReference
    )
}

/// What an action of the picker and viewer family does.
#[derive(Clone, Copy, Debug, PartialEq, Eq)]
pub enum PickerViewerEffect {
    PlanSelectedMediaLaunch,
    OpenAttachmentViewer,
    NavigateViewer(isize),
    /// The viewer zoom becomes this, and the preview is dropped to be
    /// rendered again.
    SetZoom(u16),
    PlanViewerMediaLaunch,
    CloseAttachmentViewer,
    /// Focus goes back to the chat list.
    FocusChatList,
    OpenMessageMenu,
    MoveMenu(isize),
    ConfirmMessageMenu,
    /// The menu closes with the Cancelled notice.
    CancelMessageMenu,
    MoveSharePicker(isize),
    ToggleShareRecipient,
    ConfirmShare,
    /// The share picker closes with the Cancelled notice.
    CancelShare,
    ShareSearchBackspace,
    ShareSearchCharacter(char),
    /// The reaction picker handles the action.
    ReactionPicker(AppAction),
    MoveUrlPicker(isize),
    ConfirmUrlPicker,
    /// The URL picker closes with the Cancelled notice.
    CancelUrlPicker,
    /// The file picker handles the action.
    FilePicker(AppAction),
}

/// The effect of a picker or viewer action at the given zoom, or the
/// action itself where it belongs to another family.
pub open spec fn picker_viewer_spec(action: AppAction, zoom: u16) -> Result<PickerViewerEffect, AppAction> {
    match action {
        AppAction::DownloadMessage => Ok(PickerViewerEffect::PlanSelectedMediaLaunch),
        AppAction::ViewMessage => Ok(PickerViewerEffect::OpenAttachmentViewer),
        AppAction::ViewerNext => Ok(PickerViewerEffect::NavigateViewer(1isize)),
        AppAction::ViewerPrevious => Ok(PickerViewerEffect::NavigateViewer(-1isize)),
        AppAction::ViewerZoomIn => Ok(
            PickerViewerEffect::SetZoom(
                if zoom + 25 < 400 {
                    (zoom + 25) as u16
                } else {
                    400
                },
            ),
        ),
        AppAction::ViewerZoomOut => Ok(
            PickerViewerEffect::SetZoom(
                if zoom - 25 > 25 {
                    (zoom - 25) as u16
                } else {
                    25
                },
            ),
        ),
        AppAction::ViewerOpenExternal => Ok(PickerViewerEffect::PlanViewerMediaLaunch),
        AppAction::CloseAttachmentViewer => Ok(PickerViewerEffect::CloseAttachmentViewer),
        AppAction::CloseStatusPane => Ok(PickerViewerEffect::FocusChatList),
        AppAction::OpenMessageMenu => Ok(PickerViewerEffect::OpenMessageMenu),
        AppAction::MenuNext => Ok(PickerViewerEffect::MoveMenu(1isize)),
        AppAction::MenuPrevious => Ok(PickerViewerEffect::MoveMenu(-1isize)),
        AppAction::ConfirmMessageMenu => Ok(PickerViewerEffect::ConfirmMessageMenu),
        AppAction::CancelMessageMenu => Ok(PickerViewerEffect::CancelMessageMenu),
        AppAction::SharePickerPrevious => Ok(PickerViewerEffect::MoveSharePicker(-1isize)),
        AppAction::SharePickerNext => Ok(PickerViewerEffect::MoveSharePicker(1isize)),
        AppAction::ToggleShareRecipient => Ok(PickerViewerEffect::ToggleShareRecipient),
        AppAction::ConfirmShare => Ok(PickerViewerEffect::ConfirmShare),
        AppAction::CancelShare => Ok(PickerViewerEffect::CancelShare),
        AppAction::ShareSearchBackspace => Ok(PickerViewerEffect::ShareSearchBackspace),
        AppAction::ShareSearchCharacter(c) => Ok(PickerViewerEffect::ShareSearchCharacter(c)),
        AppAction::ReactionPrev | AppAction::ReactionNext | AppAction::ConfirmReaction
        | AppAction::CancelReaction => Ok(PickerViewerEffect::ReactionPicker(action)),
        AppAction::UrlPickerPrevious => Ok(PickerViewerEffect::MoveUrlPicker(-1isize)),
        AppAction::UrlPickerNext => Ok(PickerViewerEffect::MoveUrlPicker(1isize)),
        AppAction::ConfirmUrlPicker => Ok(PickerViewerEffect::ConfirmUrlPicker),
        AppAction::CancelUrlPicker => Ok(PickerViewerEffect::CancelUrlPicker),
        AppAction::AttachFile | AppAction::FilePickerPrevious | AppAction::FilePickerNext
        | AppAction::FilePickerParent | AppAction::FilePickerDescend | AppAction::FilePickerToggle
        | AppAction::FilePickerConfirm | AppAction::FilePickerEnterSearch
        | AppAction::FilePickerEndSearch | AppAction::FilePickerBackspace
        | AppAction::FilePickerCharacter(_) | AppAction::CancelFilePicker => Ok(
            PickerViewerEffect::FilePicker(action),
        ),
        _ => Err(action),
    }
}

/// The viewer and the pickers move one step: "next" goes forward by one
/// and "previous" back by one; zooming in adds a step of 25 up to 400,
/// zooming out takes one off down to 25; an action of another family comes
/// back unchanged.
pub proof fn lemma_picker_viewer_moves(action: AppAction, zoom: u16)
    ensures
        ({
            let r = picker_viewer_spec(action, zoom);
            &&& action == AppAction::ViewerNext ==> r == Ok::<PickerViewerEffect, AppAction>(PickerViewerEffect::NavigateViewer(1isize))
            &&& action == AppAction::ViewerPrevious ==> r == Ok::<PickerViewerEffect, AppAction>(PickerViewerEffect::NavigateViewer(-1isize))
            &&& action == AppAction::MenuNext ==> r == Ok::<PickerViewerEffect, AppAction>(PickerViewerEffect::MoveMenu(1isize))
            &&& action == AppAction::MenuPrevious ==> r == Ok::<PickerViewerEffect, AppAction>(PickerViewerEffect::MoveMenu(-1isize))
            &&& action == AppAction::SharePickerNext ==> r == Ok::<PickerViewerEffect, AppAction>(PickerViewerEffect::MoveSharePicker(1isize))
            &&& action == AppAction::SharePickerPrevious ==> r == Ok::<PickerViewerEffect, AppAction>(PickerViewerEffect::MoveSharePicker(-1isize))
            &&& action == AppAction::UrlPickerNext ==> r == Ok::<PickerViewerEffect, AppAction>(PickerViewerEffect::MoveUrlPicker(1isize))
            &&& action == AppAction::UrlPickerPrevious ==> r == Ok::<PickerViewerEffect, AppAction>(PickerViewerEffect::MoveUrlPicker(-1isize))
            &&& action == AppAction::ViewerZoomIn ==> (r matches Ok(PickerViewerEffect::SetZoom(z)) && z <= 400 && (zoom
            <= 375 ==> z == zoom + 25) && (375 < zoom ==> z == 400))
            &&& action == AppAction::ViewerZoomOut ==> (r matches Ok(PickerViewerEffect::SetZoom(z)) && 25 <= z && (50
            <= zoom ==> z == zoom - 25) && (zoom < 50 ==> z == 25))
            &&& r matches Err(a) ==> a == action
        }),
{
}

/// Where each picker and viewer action goes: each opens, confirms or
/// cancels what its name says, the reaction and file pickers take their
/// own actions, and exactly the actions of the other families come back
/// as the error.
pub proof fn lemma_picker_viewer_routes(action: AppAction, zoom: u16)
    ensures
        ({
            let r = picker_viewer_spec(action, zoom);
            &&& action == AppAction::DownloadMessage ==> r == Ok::<PickerViewerEffect, AppAction>(PickerViewerEffect::PlanSelectedMediaLaunch)
            &&& action == AppAction::ViewMessage ==> r == Ok::<PickerViewerEffect, AppAction>(PickerViewerEffect::OpenAttachmentViewer)
            &&& action == AppAction::ViewerOpenExternal ==> r == Ok::<PickerViewerEffect, AppAction>(PickerViewerEffect::PlanViewerMediaLaunch)
            &&& action == AppAction::CloseAttachmentViewer ==> r == Ok::<PickerViewerEffect, AppAction>(PickerViewerEffect::CloseAttachmentViewer)
            &&& action == AppAction::CloseStatusPane ==> r == Ok::<PickerViewerEffect, AppAction>(PickerViewerEffect::FocusChatList)
            &&& action == AppAction::OpenMessageMenu ==> r == Ok::<PickerViewerEffect, AppAction>(PickerViewerEffect::OpenMessageMenu)
            &&& action == AppAction::ConfirmMessageMenu ==> r == Ok::<PickerViewerEffect, AppAction>(PickerViewerEffect::ConfirmMessageMenu)
            &&& action == AppAction::CancelMessageMenu ==> r == Ok::<PickerViewerEffect, AppAction>(PickerViewerEffect::CancelMessageMenu)
            &&& action == AppAction::ToggleShareRecipient ==> r == Ok::<PickerViewerEffect, AppAction>(PickerViewerEffect::ToggleShareRecipient)
            &&& action == AppAction::ConfirmShare ==> r == Ok::<PickerViewerEffect, AppAction>(PickerViewerEffect::ConfirmShare)
            &&& action == AppAction::CancelShare ==> r == Ok::<PickerViewerEffect, AppAction>(PickerViewerEffect::CancelShare)
            &&& action == AppAction::ShareSearchBackspace ==> r == Ok::<PickerViewerEffect, AppAction>(PickerViewerEffect::ShareSearchBackspace)
            &&& action == AppAction::ConfirmUrlPicker ==> r == Ok::<PickerViewerEffect, AppAction>(PickerViewerEffect::ConfirmUrlPicker)
            &&& action == AppAction::CancelUrlPicker ==> r == Ok::<PickerViewerEffect, AppAction>(PickerViewerEffect::CancelUrlPicker)
            &&& (action matches AppAction::ShareSearchCharacter(c) ==> r == Ok::<PickerViewerEffect, AppAction>(
                PickerViewerEffect::ShareSearchCharacter(c),
            ))
            &&& (action is ReactionPrev || action is ReactionNext || action is ConfirmReaction
                || action is CancelReaction) ==> r == Ok::<PickerViewerEffect, AppAction>(
                PickerViewerEffect::ReactionPicker(action),
            )
            &&& (action is AttachFile || action is FilePickerPrevious || action is FilePickerNext
                || action is FilePickerParent || action is FilePickerDescend || action is FilePickerToggle
                || action is FilePickerConfirm || action is FilePickerEnterSearch || action is FilePickerEndSearch
                || action is FilePickerBackspace || action is FilePickerCharacter || action is CancelFilePicker)
                ==> r == Ok::<PickerViewerEffect, AppAction>(PickerViewerEffect::FilePicker(action))
            &&& (r is Err) == (action is Quit || action is Logout || action is ToggleLogs || action is ToggleSectionRail || action is ToggleChatList || action is FocusPane || action is OpenContextualActions || action is ToggleShortcutPopup || action is ToggleComposerDirection || action is PlannedLeaderAction || action is FocusNext || action is FocusPrevious || action is SelectNext || action is SelectPrevious || action is JumpTop || action is JumpBottom || action is HalfPageDown || action is HalfPageUp || action is InsertMode || action is CopyMessage || action is ReactMessage || action is ShareMessage || action is ReplyMessage || action is ReplyPrivately || action is DeleteMessage || action is EditMessage || action is OpenChat || action is OpenMessage || action is GoToReference || action is Composer)
        }),
{
}

/// Decides what a picker or viewer action does; an action of another
/// family comes back as the error.
pub fn dispatch_picker_viewer_action(action: AppAction, zoom: u16) -> (r: Result<PickerViewerEffect, AppAction>)
    ensures
        r == picker_viewer_spec(action, zoom),
        action == AppAction::ViewerNext ==> r == Ok::<PickerViewerEffect, AppAction>(PickerViewerEffect::NavigateViewer(1isize)),
        action == AppAction::ViewerPrevious ==> r == Ok::<PickerViewerEffect, AppAction>(PickerViewerEffect::NavigateViewer(-1isize)),
        action == AppAction::MenuNext ==> r == Ok::<PickerViewerEffect, AppAction>(PickerViewerEffect::MoveMenu(1isize)),
        action == AppAction::MenuPrevious ==> r == Ok::<PickerViewerEffect, AppAction>(PickerViewerEffect::MoveMenu(-1isize)),
        action == AppAction::SharePickerNext ==> r == Ok::<PickerViewerEffect, AppAction>(PickerViewerEffect::MoveSharePicker(1isize)),
        action == AppAction::SharePickerPrevious ==> r == Ok::<PickerViewerEffect, AppAction>(PickerViewerEffect::MoveSharePicker(-1isize)),
        action == AppAction::UrlPickerNext ==> r == Ok::<PickerViewerEffect, AppAction>(PickerViewerEffect::MoveUrlPicker(1isize)),
        action == AppAction::UrlPickerPrevious ==> r == Ok::<PickerViewerEffect, AppAction>(PickerViewerEffect::MoveUrlPicker(-1isize)),
        action == AppAction::ViewerZoomIn ==> (r matches Ok(PickerViewerEffect::SetZoom(z)) && z <= 400 && (zoom
            <= 375 ==> z == zoom + 25) && (375 < zoom ==> z == 400)),
        action == AppAction::ViewerZoomOut ==> (r matches Ok(PickerViewerEffect::SetZoom(z)) && 25 <= z && (50
            <= zoom ==> z == zoom - 25) && (zoom < 50 ==> z == 25)),
        r matches Err(a) ==> a == action,
{
    proof {
        lemma_picker_viewer_moves(action, zoom);
    }
    match action {
        AppAction::DownloadMessage => Ok(PickerViewerEffect::PlanSelectedMediaLaunch),
        AppAction::ViewMessage => Ok(PickerViewerEffect::OpenAttachmentViewer),
        AppAction::ViewerNext => Ok(PickerViewerEffect::NavigateViewer(1isize)),
        AppAction::ViewerPrevious => Ok(PickerViewerEffect::NavigateViewer(-1isize)),
        AppAction::ViewerZoomIn => Ok(PickerViewerEffect::SetZoom(viewer_zoom_in(zoom))),
        AppAction::ViewerZoomOut => Ok(PickerViewerEffect::SetZoom(viewer_zoom_out(zoom))),
        AppAction::ViewerOpenExternal => Ok(PickerViewerEffect::PlanViewerMediaLaunch),
        AppAction::CloseAttachmentViewer => Ok(PickerViewerEffect::CloseAttachmentViewer),
        AppAction::CloseStatusPane => Ok(PickerViewerEffect::FocusChatList),
        AppAction::OpenMessageMenu => Ok(PickerViewerEffect::OpenMessageMenu),
        AppAction::MenuNext => Ok(PickerViewerEffect::MoveMenu(1isize)),
        AppAction::MenuPrevious => Ok(PickerViewerEffect::MoveMenu(-1isize)),
        AppAction::ConfirmMessageMenu => Ok(PickerViewerEffect::ConfirmMessageMenu),
        AppAction::CancelMessageMenu => Ok(PickerViewerEffect::CancelMessageMenu),
        AppAction::SharePickerPrevious => Ok(PickerViewerEffect::MoveSharePicker(-1isize)),
        AppAction::SharePickerNext => Ok(PickerViewerEffect::MoveSharePicker(1isize)),
        AppAction::ToggleShareRecipient => Ok(PickerViewerEffect::ToggleShareRecipient),
        AppAction::ConfirmShare => Ok(PickerViewerEffect::ConfirmShare),
        AppAction::CancelShare => Ok(PickerViewerEffect::CancelShare),
        AppAction::ShareSearchBackspace => Ok(PickerViewerEffect::ShareSearchBackspace),
        AppAction::ShareSearchCharacter(c) => Ok(PickerViewerEffect::ShareSearchCharacter(c)),
        AppAction::ReactionPrev | AppAction::ReactionNext | AppAction::ConfirmReaction
        | AppAction::CancelReaction => Ok(PickerViewerEffect::ReactionPicker(action)),
        AppAction::UrlPickerPrevious => Ok(PickerViewerEffect::MoveUrlPicker(-1isize)),
        AppAction::UrlPickerNext => Ok(PickerViewerEffect::MoveUrlPicker(1isize)),
        AppAction::ConfirmUrlPicker => Ok(PickerViewerEffect::ConfirmUrlPicker),
        AppAction::CancelUrlPicker => Ok(PickerViewerEffect::CancelUrlPicker),
        AppAction::AttachFile | AppAction::FilePickerPrevious | AppAction::FilePickerNext
        | AppAction::FilePickerParent | AppAction::FilePickerDescend | AppAction::FilePickerToggle
        | AppAction::FilePickerConfirm | AppAction::FilePickerEnterSearch
        | AppAction::FilePickerEndSearch | AppAction::FilePickerBackspace
        | AppAction::FilePickerCharacter(_) | AppAction::CancelFilePicker => Ok(
            PickerViewerEffect::FilePicker(action),
        ),
        _ => Err(action),
    }
}

/// What an action of the lifecycle and settings family does.
#[derive(Clone, Copy, Debug, PartialEq, Eq)]
pub enum SettingsEffect {
    /// Stop storage and quit.
    Quit,
    /// Open the logout confirmation.
    BeginLogoutConfirmation,
    ToggleLogs,
    /// The pane layout becomes this.
    Layout(PaneLayout),
    OpenContextualActions,
    ToggleShortcutPopup,
    ToggleComposerDirection,
    /// Report the planned action as not implemented.
    NotImplemented(&'static str),
}

/// The effect of a lifecycle or settings action on the layout, or the
/// action itself where it belongs to another family.
pub open spec fn settings_spec(action: AppAction, layout: PaneLayout) -> Result<SettingsEffect, AppAction> {
    match action {
        AppAction::Quit => Ok(SettingsEffect::Quit),
        AppAction::Logout => Ok(SettingsEffect::BeginLogoutConfirmation),
        AppAction::ToggleLogs => Ok(SettingsEffect::ToggleLogs),
        AppAction::ToggleSectionRail | AppAction::ToggleChatList | AppAction::FocusPane(_) => Ok(
            SettingsEffect::Layout(layout),
        ),
        AppAction::OpenContextualActions => Ok(SettingsEffect::OpenContextualActions),
        AppAction::ToggleShortcutPopup => Ok(SettingsEffect::ToggleShortcutPopup),
        AppAction::ToggleComposerDirection => Ok(SettingsEffect::ToggleComposerDirection),
        AppAction::PlannedLeaderAction(label) => Ok(SettingsEffect::NotImplemented(label)),
        _ => Err(action),
    }
}

/// Where each lifecycle and settings action goes: quit quits, logout asks
/// for confirmation, each toggle toggles what it names, a planned leader
/// action is reported as not implemented with its label, the pane actions
/// take the layout they are given; exactly the actions of this family are
/// handled, and any other comes back unchanged.
pub proof fn lemma_settings_routes(action: AppAction, layout: PaneLayout)
    ensures
        ({
            let r = settings_spec(action, layout);
            &&& action == AppAction::Quit ==> r == Ok::<SettingsEffect, AppAction>(SettingsEffect::Quit)
            &&& action == AppAction::Logout ==> r == Ok::<SettingsEffect, AppAction>(SettingsEffect::BeginLogoutConfirmation)
            &&& action == AppAction::ToggleLogs ==> r == Ok::<SettingsEffect, AppAction>(SettingsEffect::ToggleLogs)
            &&& action == AppAction::OpenContextualActions ==> r == Ok::<SettingsEffect, AppAction>(SettingsEffect::OpenContextualActions)
            &&& action == AppAction::ToggleShortcutPopup ==> r == Ok::<SettingsEffect, AppAction>(SettingsEffect::ToggleShortcutPopup)
            &&& action == AppAction::ToggleComposerDirection ==> r == Ok::<SettingsEffect, AppAction>(SettingsEffect::ToggleComposerDirection)
            &&& action is PlannedLeaderAction ==> r == Ok::<SettingsEffect, AppAction>(
                SettingsEffect::NotImplemented(action->PlannedLeaderAction_0),
            )
            &&& (action is ToggleSectionRail || action is ToggleChatList || action is FocusPane) ==> r
                == Ok::<SettingsEffect, AppAction>(SettingsEffect::Layout(layout))
            &&& (r is Ok) == (action is Quit || action is Logout || action is ToggleLogs || action is ToggleSectionRail || action is ToggleChatList || action is FocusPane || action is OpenContextualActions || action is ToggleShortcutPopup || action is ToggleComposerDirection || action is PlannedLeaderAction)
            &&& r matches Err(a) ==> a == action
        }),
{
}

/// Decides what a lifecycle or settings action does: pane toggles and
/// focus requests give the new layout (focus never stays on a hidden
/// pane); an action of another family comes back as the error.
pub fn dispatch_lifecycle_settings_action(action: AppAction, layout: PaneLayout) -> (r: Result<
    SettingsEffect,
    AppAction,
>)
    ensures
        match action {
            AppAction::ToggleSectionRail => (r matches Ok(SettingsEffect::Layout(l)) && l.visibility.section_rail
                == !layout.visibility.section_rail && l.visibility.chat_list == layout.visibility.chat_list
                && crate::actions::pane_visible(l.focus, l.visibility)
                && l.focus == crate::actions::focus_after_visibility(layout.focus, l.visibility)),
            AppAction::ToggleChatList => (r matches Ok(SettingsEffect::Layout(l)) && l.visibility.chat_list
                == !layout.visibility.chat_list && l.visibility.section_rail
                == layout.visibility.section_rail && crate::actions::pane_visible(l.focus, l.visibility)
                && l.focus == crate::actions::focus_after_visibility(layout.focus, l.visibility)),
            AppAction::FocusPane(pane) => (r matches Ok(SettingsEffect::Layout(l)) && l.visibility
                == layout.visibility && l.focus == (if crate::actions::pane_visible(pane, layout.visibility) {
                pane
            } else {
                layout.focus
            })),
            _ => r == settings_spec(action, layout),
        },
{
    match action {
        AppAction::Quit => Ok(SettingsEffect::Quit),
        AppAction::Logout => Ok(SettingsEffect::BeginLogoutConfirmation),
        AppAction::ToggleLogs => Ok(SettingsEffect::ToggleLogs),
        AppAction::ToggleSectionRail => Ok(SettingsEffect::Layout(toggle_section_rail(layout))),
        AppAction::ToggleChatList => Ok(SettingsEffect::Layout(toggle_chat_list(layout))),
        AppAction::FocusPane(pane) => Ok(SettingsEffect::Layout(focus_requested_pane(layout, pane))),
        AppAction::OpenContextualActions => Ok(SettingsEffect::OpenContextualActions),
        AppAction::ToggleShortcutPopup => Ok(SettingsEffect::ToggleShortcutPopup),
        AppAction::ToggleComposerDirection => Ok(SettingsEffect::ToggleComposerDirection),
        AppAction::PlannedLeaderAction(label) => Ok(SettingsEffect::NotImplemented(label)),
        _ => Err(action),
    }
}

/// What opening a community row from the chat list does: the one linked
/// group with unread messages opens directly; otherwise the community's
/// detail view opens.
#[derive(Debug, PartialEq, Eq)]
pub enum CommunityOpen {
    Chat(String),
    Detail,
}

/// Decides what opening a community row does, from its linked groups
/// with unread messages.
pub fn community_open_target(unread_groups: &[String]) -> (r: CommunityOpen)
    ensures
        unread_groups.len() == 1 ==> (r matches CommunityOpen::Chat(j) && j@ == unread_groups@[0]@),
        unread_groups.len() != 1 ==> r == CommunityOpen::Detail,
{
    if unread_groups.len() == 1 {
        CommunityOpen::Chat(unread_groups[0].clone())
    } else {
        CommunityOpen::Detail
    }
}

/// Closing the status pane always returns focus to the chat list.
pub proof fn lemma_close_status_focuses_chat_list(zoom: u16)
    ensures
        picker_viewer_spec(AppAction::CloseStatusPane, zoom) == Ok::<PickerViewerEffect, AppAction>(
            PickerViewerEffect::FocusChatList,
        ),
{
}

/// Every action is handled by at most one of the two family dispatchers.
pub proof fn lemma_families_are_disjoint(action: AppAction, zoom: u16, layout: PaneLayout)
    ensures
        !(picker_viewer_spec(action, zoom) is Ok && settings_spec(action, layout) is Ok),
{
}

/// What confirming the file picker does.
#[derive(Clone, Copy, Debug, PartialEq, Eq)]
pub enum FilePickerConfirm {
    /// The chat is blocked: the picker closes and nothing is attached.
    Close,
    /// Nothing chosen: the picker stays open.
    Stay,
    /// The picker closes, the chosen files are queued, and the composer
    /// takes focus for a caption.
    AttachAndCompose,
}

/// Decides what confirming the file picker does.
pub fn confirm_file_picker(composer_blocked: bool, chosen: usize) -> (r: FilePickerConfirm)
    ensures
        r == (if composer_blocked {
            FilePickerConfirm::Close
        } else if chosen == 0 {
            FilePickerConfirm::Stay
        } else {
            FilePickerConfirm::AttachAndCompose
        }),
{
    if composer_blocked {
        FilePickerConfirm::Close
    } else if chosen == 0 {
        FilePickerConfirm::Stay
    } else {
        FilePickerConfirm::AttachAndCompose
    }
}

/// Whether a stored audio file still needs its duration probed.
pub fn needs_audio_probe(kind: crate::events::FileKind, duration_known: bool) -> (b: bool)
    ensures
        b == (kind == crate::events::FileKind::Audio && !duration_known),
{
    matches!(kind, crate::events::FileKind::Audio) && !duration_known
}

/// What dispatching an action needs to know of the application.
#[derive(Clone, Copy, Debug, PartialEq, Eq)]
pub struct DispatchState {
    pub layout: PaneLayout,
    pub section: Section,
    /// The status view lets this action through (it refuses chat actions).
    pub status_view_allows: bool,
    pub selected_is_informational: bool,
    pub composer_blocked: bool,
    pub community_detail_open: bool,
    pub viewer_zoom: u16,
}

/// What opening from the chat list does, by section.
#[derive(Clone, Copy, Debug, PartialEq, Eq)]
pub enum OpenTarget {
    /// Open the selected contact's statuses.
    Status,
    /// Open the selected row of the community list.
    CommunityRow,
    /// Open the selected chat, or the community row's group or detail.
    SelectedChat,
}

/// What an action does once dispatched.
#[derive(Clone, Copy, Debug, PartialEq, Eq)]
pub enum DispatchStep {
    /// The status view is read-only: the action is refused.
    Refused,
    /// The selected item is informational: the notice says so.
    Unavailable(&'static str),
    PickerViewer(PickerViewerEffect),
    Settings(SettingsEffect),
    /// Only the focus moves.
    FocusOnly,
    SelectNext,
    SelectPrevious,
    JumpTop,
    JumpBottom,
    HalfPageDown,
    HalfPageUp,
    /// Start writing in the composer.
    StartComposing,
    CopyMessage,
    ReplyToStatus,
    ReplyToSelected,
    ReplyPrivately,
    OpenSharePicker,
    HeartStatus,
    OpenReactionPicker,
    DeleteMessage,
    StartMessageEdit,
    Open(OpenTarget),
    OpenMessage,
    GoToReference,
    Composer(ComposerAction),
}

/// The focus after an action, and what the action does.
#[derive(Clone, Copy, Debug, PartialEq, Eq)]
pub struct Dispatch {
    pub focus: FocusPane,
    pub step: DispatchStep,
}

/// The focus an action leaves: the next or previous visible pane for the
/// focus moves, the same pane otherwise.
pub open spec fn focus_spec(focus: FocusPane, action: AppAction, v: crate::actions::PaneVisibility) -> FocusPane {
    match action {
        AppAction::FocusNext => pane_after(focus, v),
        AppAction::FocusPrevious => pane_before(focus, v),
        _ => focus,
    }
}

/// How an action is dispatched: the focus moves first; the status view
/// refuses what it does not allow; an informational item refuses message
/// actions; the picker and viewer actions and the lifecycle and settings
/// actions go to their dispatchers; the rest act on the view.
pub open spec fn dispatch_spec(state: DispatchState, action: AppAction) -> Dispatch {
    let focus = focus_spec(state.layout.focus, action, state.layout.visibility);
    let layout = PaneLayout { focus, ..state.layout };
    let step = if state.section == Section::Status && focus == FocusPane::Conversation && !state.status_view_allows {
        DispatchStep::Refused
    } else if state.selected_is_informational && needs_message(action) {
        DispatchStep::Unavailable("Action is not available for this informational item")
    } else if picker_viewer_spec(action, state.viewer_zoom) is Ok {
        DispatchStep::PickerViewer(picker_viewer_spec(action, state.viewer_zoom)->Ok_0)
    } else if settings_spec(action, layout) is Ok {
        match action {
            AppAction::ToggleSectionRail => DispatchStep::Settings(
                SettingsEffect::Layout(crate::lifecycle::toggled_rail(layout)),
            ),
            AppAction::ToggleChatList => DispatchStep::Settings(
                SettingsEffect::Layout(crate::lifecycle::toggled_chat_list(layout)),
            ),
            AppAction::FocusPane(pane) => DispatchStep::Settings(
                SettingsEffect::Layout(crate::lifecycle::focused_layout(layout, pane)),
            ),
            _ => DispatchStep::Settings(settings_spec(action, layout)->Ok_0),
        }
    } else {
        match action {
            AppAction::SelectNext => DispatchStep::SelectNext,
            AppAction::SelectPrevious => DispatchStep::SelectPrevious,
            AppAction::JumpTop => DispatchStep::JumpTop,
            AppAction::JumpBottom => DispatchStep::JumpBottom,
            AppAction::HalfPageDown => DispatchStep::HalfPageDown,
            AppAction::HalfPageUp => DispatchStep::HalfPageUp,
            AppAction::InsertMode => if focus == FocusPane::Conversation && !state.composer_blocked {
                DispatchStep::StartComposing
            } else {
                DispatchStep::FocusOnly
            },
            AppAction::CopyMessage => DispatchStep::CopyMessage,
            AppAction::ReplyMessage => if state.section == Section::Status {
                DispatchStep::ReplyToStatus
            } else {
                DispatchStep::ReplyToSelected
            },
            AppAction::ReplyPrivately => DispatchStep::ReplyPrivately,
            AppAction::ShareMessage => DispatchStep::OpenSharePicker,
            AppAction::ReactMessage => if state.section == Section::Status {
                DispatchStep::HeartStatus
            } else {
                DispatchStep::OpenReactionPicker
            },
            AppAction::DeleteMessage => DispatchStep::DeleteMessage,
            AppAction::EditMessage => DispatchStep::StartMessageEdit,
            AppAction::OpenChat => DispatchStep::Open(
                if state.section == Section::Status {
                    OpenTarget::Status
                } else if state.section == Section::Communities && !state.community_detail_open {
                    OpenTarget::CommunityRow
                } else {
                    OpenTarget::SelectedChat
                },
            ),
            AppAction::OpenMessage => DispatchStep::OpenMessage,
            AppAction::GoToReference => DispatchStep::GoToReference,
            AppAction::Composer(a) => DispatchStep::Composer(a),
            _ => DispatchStep::FocusOnly,
        }
    };
    Dispatch { focus, step }
}

/// How an action is dispatched: the focus moves first (only for the focus
/// moves, to the next or previous shown pane); the status view refuses,
/// with the conversation focused, what it does not allow; otherwise an
/// informational item refuses the actions that need a message; otherwise
/// the picker and viewer actions and the lifecycle and settings actions do
/// what their dispatchers decide; Insert starts composing only in the
/// conversation of a chat that is not blocked; reply and react answer a
/// status in the status section; opening goes by section.
pub proof fn lemma_dispatch_order(state: DispatchState, action: AppAction)
    ensures
        ({
            let d = dispatch_spec(state, action);
            let v = state.layout.visibility;
            let refused = state.section == Section::Status && d.focus == FocusPane::Conversation
                && !state.status_view_allows;
            let unavailable = !refused && state.selected_is_informational && needs_message(action);
            let layout = PaneLayout { focus: d.focus, ..state.layout };
            let handled = !refused && !unavailable;
            &&& d.focus == (if action == AppAction::FocusNext {
                pane_after(state.layout.focus, v)
            } else if action == AppAction::FocusPrevious {
                pane_before(state.layout.focus, v)
            } else {
                state.layout.focus
            })
            &&& (d.step == DispatchStep::Refused) == refused
            &&& (d.step is Unavailable) == unavailable
            &&& handled && picker_viewer_spec(action, state.viewer_zoom) is Ok ==> d.step
                == DispatchStep::PickerViewer(picker_viewer_spec(action, state.viewer_zoom)->Ok_0)
            &&& handled && action == AppAction::Quit ==> d.step == DispatchStep::Settings(SettingsEffect::Quit)
            &&& handled && action == AppAction::Logout ==> d.step == DispatchStep::Settings(
                SettingsEffect::BeginLogoutConfirmation,
            )
            &&& handled && action == AppAction::ToggleChatList ==> (d.step matches DispatchStep::Settings(
                SettingsEffect::Layout(l),
            ) && l.visibility.chat_list == !v.chat_list && l.visibility.section_rail == v.section_rail)
            &&& handled && action == AppAction::ToggleSectionRail ==> (d.step matches DispatchStep::Settings(
                SettingsEffect::Layout(l),
            ) && l.visibility.section_rail == !v.section_rail && l.visibility.chat_list == v.chat_list)
            &&& handled && action == AppAction::InsertMode ==> d.step == (if d.focus == FocusPane::Conversation
                && !state.composer_blocked {
                DispatchStep::StartComposing
            } else {
                DispatchStep::FocusOnly
            })
            &&& handled && action == AppAction::ReplyMessage ==> d.step == (if state.section == Section::Status {
                DispatchStep::ReplyToStatus
            } else {
                DispatchStep::ReplyToSelected
            })
            &&& handled && action == AppAction::ReactMessage ==> d.step == (if state.section == Section::Status {
                DispatchStep::HeartStatus
            } else {
                DispatchStep::OpenReactionPicker
            })
            &&& handled && action == AppAction::OpenChat ==> d.step == DispatchStep::Open(
                if state.section == Section::Status {
                    OpenTarget::Status
                } else if state.section == Section::Communities && !state.community_detail_open {
                    OpenTarget::CommunityRow
                } else {
                    OpenTarget::SelectedChat
                },
            )
            &&& handled && action == AppAction::SelectNext ==> d.step == DispatchStep::SelectNext
            &&& handled && action == AppAction::SelectPrevious ==> d.step == DispatchStep::SelectPrevious
            &&& handled && action == AppAction::DeleteMessage ==> d.step == DispatchStep::DeleteMessage
            &&& handled && action == AppAction::EditMessage ==> d.step == DispatchStep::StartMessageEdit
            &&& handled && action is Composer ==> d.step == DispatchStep::Composer(action->Composer_0)
            &&& handled && (action == AppAction::FocusNext || action == AppAction::FocusPrevious) ==> d.step
                == DispatchStep::FocusOnly
        }),
{
}

/// Decides how an action is dispatched.
pub fn dispatch_decision(state: &DispatchState, action: AppAction) -> (d: Dispatch)
    ensures
        d == dispatch_spec(*state, action),
{
    let focus = focus_after(state.layout.focus, &action, state.layout.visibility);
    let layout = PaneLayout { focus, ..state.layout };
    if matches!(state.section, Section::Status) && matches!(focus, FocusPane::Conversation) && !state.status_view_allows {
        return Dispatch { focus, step: DispatchStep::Refused };
    }
    if refused_for_informational_item(&action, state.selected_is_informational) {
        return Dispatch {
            focus,
            step: DispatchStep::Unavailable("Action is not available for this informational item"),
        };
    }
    match dispatch_picker_viewer_action(action, state.viewer_zoom) {
        Ok(effect) => return Dispatch { focus, step: DispatchStep::PickerViewer(effect) },
        Err(_) => {},
    }
    match dispatch_lifecycle_settings_action(action, layout) {
        Ok(effect) => return Dispatch { focus, step: DispatchStep::Settings(effect) },
        Err(_) => {},
    }
    let step = match action {
        AppAction::SelectNext => DispatchStep::SelectNext,
        AppAction::SelectPrevious => DispatchStep::SelectPrevious,
        AppAction::JumpTop => DispatchStep::JumpTop,
        AppAction::JumpBottom => DispatchStep::JumpBottom,
        AppAction::HalfPageDown => DispatchStep::HalfPageDown,
        AppAction::HalfPageUp => DispatchStep::HalfPageUp,
        AppAction::InsertMode => if matches!(focus, FocusPane::Conversation) && !state.composer_blocked {
            DispatchStep::StartComposing
        } else {
            DispatchStep::FocusOnly
        },
        AppAction::CopyMessage => DispatchStep::CopyMessage,
        AppAction::ReplyMessage => if matches!(state.section, Section::Status) {
            DispatchStep::ReplyToStatus
        } else {
            DispatchStep::ReplyToSelected
        },
        AppAction::ReplyPrivately => DispatchStep::ReplyPrivately,
        AppAction::ShareMessage => DispatchStep::OpenSharePicker,
        AppAction::ReactMessage => if matches!(state.section, Section::Status) {
            DispatchStep::HeartStatus
        } else {
            DispatchStep::OpenReactionPicker
        },
        AppAction::DeleteMessage => DispatchStep::DeleteMessage,
        AppAction::EditMessage => DispatchStep::StartMessageEdit,
        AppAction::OpenChat => DispatchStep::Open(
            if matches!(state.section, Section::Status) {
                OpenTarget::Status
            } else if matches!(state.section, Section::Communities) && !state.community_detail_open {
                OpenTarget::CommunityRow
            } else {
                OpenTarget::SelectedChat
            },
        ),
        AppAction::OpenMessage => DispatchStep::OpenMessage,
        AppAction::GoToReference => DispatchStep::GoToReference,
        AppAction::Composer(a) => DispatchStep::Composer(a),
        _ => DispatchStep::FocusOnly,
    };
    Dispatch { focus, step }
}

} // verus!
