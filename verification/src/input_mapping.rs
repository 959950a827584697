//! Key maps of the modal pickers and viewers: each maps the keys it owns to
//! an action and leaves every other key unmapped.
use vstd::prelude::*;

use crate::actions::AppAction;
use crate::keys::{Key, KeyCode};

verus! {

pub open spec fn viewer_map(code: KeyCode) -> Option<AppAction> {
    match code {
        KeyCode::Char('h') | KeyCode::Left => Some(AppAction::ViewerPrevious),
        KeyCode::Char('l') | KeyCode::Right => Some(AppAction::ViewerNext),
        KeyCode::Char('-') => Some(AppAction::ViewerZoomOut),
        KeyCode::Char('=') => Some(AppAction::ViewerZoomIn),
        KeyCode::Char('x') => Some(AppAction::ViewerOpenExternal),
        KeyCode::Esc | KeyCode::Char('q') => Some(AppAction::CloseAttachmentViewer),
        _ => None,
    }
}

/// Attachment viewer: h/Left and l/Right browse, -/= zoom, x opens
/// externally, Esc/q closes.
pub fn attachment_viewer_action(key: &Key) -> (r: Option<AppAction>)
    ensures
        r == viewer_map(key.code),
{
    match key.code {
        KeyCode::Char('h') | KeyCode::Left => Some(AppAction::ViewerPrevious),
        KeyCode::Char('l') | KeyCode::Right => Some(AppAction::ViewerNext),
        KeyCode::Char('-') => Some(AppAction::ViewerZoomOut),
        KeyCode::Char('=') => Some(AppAction::ViewerZoomIn),
        KeyCode::Char('x') => Some(AppAction::ViewerOpenExternal),
        KeyCode::Esc | KeyCode::Char('q') => Some(AppAction::CloseAttachmentViewer),
        _ => None,
    }
}

pub open spec fn url_picker_map(code: KeyCode) -> Option<AppAction> {
    match code {
        KeyCode::Char('j') | KeyCode::Down => Some(AppAction::UrlPickerNext),
        KeyCode::Char('k') | KeyCode::Up => Some(AppAction::UrlPickerPrevious),
        KeyCode::Enter => Some(AppAction::ConfirmUrlPicker),
        KeyCode::Esc => Some(AppAction::CancelUrlPicker),
        _ => None,
    }
}

/// URL picker: j/Down and k/Up move, Enter confirms, Esc cancels.
pub fn url_picker_action(key: &Key) -> (r: Option<AppAction>)
    ensures
        r == url_picker_map(key.code),
{
    match key.code {
        KeyCode::Char('j') | KeyCode::Down => Some(AppAction::UrlPickerNext),
        KeyCode::Char('k') | KeyCode::Up => Some(AppAction::UrlPickerPrevious),
        KeyCode::Enter => Some(AppAction::ConfirmUrlPicker),
        KeyCode::Esc => Some(AppAction::CancelUrlPicker),
        _ => None,
    }
}

pub open spec fn file_search_map(code: KeyCode) -> Option<AppAction> {
    match code {
        KeyCode::Backspace => Some(AppAction::FilePickerBackspace),
        KeyCode::Esc => Some(AppAction::FilePickerEndSearch),
        KeyCode::Char(c) => Some(AppAction::FilePickerCharacter(c)),
        KeyCode::Enter => Some(AppAction::FilePickerConfirm),
        _ => None,
    }
}

/// File picker while searching: every character extends the query,
/// Backspace shortens it, Esc leaves search, Enter confirms.
pub fn file_picker_search_action(key: &Key) -> (r: Option<AppAction>)
    ensures
        r == file_search_map(key.code),
{
    match key.code {
        KeyCode::Backspace => Some(AppAction::FilePickerBackspace),
        KeyCode::Esc => Some(AppAction::FilePickerEndSearch),
        KeyCode::Char(character) => Some(AppAction::FilePickerCharacter(character)),
        KeyCode::Enter => Some(AppAction::FilePickerConfirm),
        _ => None,
    }
}

pub open spec fn file_navigation_map(code: KeyCode) -> Option<AppAction> {
    match code {
        KeyCode::Char('j') | KeyCode::Down => Some(AppAction::FilePickerNext),
        KeyCode::Char('k') | KeyCode::Up => Some(AppAction::FilePickerPrevious),
        KeyCode::Char('h') | KeyCode::Left => Some(AppAction::FilePickerParent),
        KeyCode::Char('l') | KeyCode::Right => Some(AppAction::FilePickerDescend),
        KeyCode::Char(' ') => Some(AppAction::FilePickerToggle),
        KeyCode::Char('/') => Some(AppAction::FilePickerEnterSearch),
        KeyCode::Enter => Some(AppAction::FilePickerConfirm),
        KeyCode::Backspace => Some(AppAction::FilePickerParent),
        KeyCode::Esc => Some(AppAction::CancelFilePicker),
        _ => None,
    }
}

/// File picker while navigating the tree.
pub fn file_picker_navigation_action(key: &Key) -> (r: Option<AppAction>)
    ensures
        r == file_navigation_map(key.code),
{
    match key.code {
        KeyCode::Char('j') | KeyCode::Down => Some(AppAction::FilePickerNext),
        KeyCode::Char('k') | KeyCode::Up => Some(AppAction::FilePickerPrevious),
        KeyCode::Char('h') | KeyCode::Left => Some(AppAction::FilePickerParent),
        KeyCode::Char('l') | KeyCode::Right => Some(AppAction::FilePickerDescend),
        KeyCode::Char(' ') => Some(AppAction::FilePickerToggle),
        KeyCode::Char('/') => Some(AppAction::FilePickerEnterSearch),
        KeyCode::Enter => Some(AppAction::FilePickerConfirm),
        KeyCode::Backspace => Some(AppAction::FilePickerParent),
        KeyCode::Esc => Some(AppAction::CancelFilePicker),
        _ => None,
    }
}

pub open spec fn share_picker_map(code: KeyCode) -> Option<AppAction> {
    match code {
        KeyCode::Char('j') | KeyCode::Down => Some(AppAction::SharePickerNext),
        KeyCode::Char('k') | KeyCode::Up => Some(AppAction::SharePickerPrevious),
        KeyCode::Char(' ') => Some(AppAction::ToggleShareRecipient),
        KeyCode::Enter => Some(AppAction::ConfirmShare),
        KeyCode::Esc => Some(AppAction::CancelShare),
        KeyCode::Backspace => Some(AppAction::ShareSearchBackspace),
        KeyCode::Char(c) => Some(AppAction::ShareSearchCharacter(c)),
        _ => None,
    }
}

/// Share picker: j/k move, Space toggles a recipient, other characters
/// search.
pub fn share_picker_action(key: &Key) -> (r: Option<AppAction>)
    ensures
        r == share_picker_map(key.code),
{
    match key.code {
        KeyCode::Char('j') | KeyCode::Down => Some(AppAction::SharePickerNext),
        KeyCode::Char('k') | KeyCode::Up => Some(AppAction::SharePickerPrevious),
        KeyCode::Char(' ') => Some(AppAction::ToggleShareRecipient),
        KeyCode::Enter => Some(AppAction::ConfirmShare),
        KeyCode::Esc => Some(AppAction::CancelShare),
        KeyCode::Backspace => Some(AppAction::ShareSearchBackspace),
        KeyCode::Char(character) => Some(AppAction::ShareSearchCharacter(character)),
        _ => None,
    }
}

pub open spec fn reaction_picker_map(code: KeyCode) -> Option<AppAction> {
    match code {
        KeyCode::Char('h') | KeyCode::Left => Some(AppAction::ReactionPrev),
        KeyCode::Char('l') | KeyCode::Right | KeyCode::Down => Some(AppAction::ReactionNext),
        KeyCode::Enter => Some(AppAction::ConfirmReaction),
        KeyCode::Esc => Some(AppAction::CancelReaction),
        _ => None,
    }
}

/// Reaction picker: h/Left back, l/Right/Down forward, Enter, Esc.
pub fn reaction_picker_action(key: &Key) -> (r: Option<AppAction>)
    ensures
        r == reaction_picker_map(key.code),
{
    match key.code {
        KeyCode::Char('h') | KeyCode::Left => Some(AppAction::ReactionPrev),
        KeyCode::Char('l') | KeyCode::Right | KeyCode::Down => Some(AppAction::ReactionNext),
        KeyCode::Enter => Some(AppAction::ConfirmReaction),
        KeyCode::Esc => Some(AppAction::CancelReaction),
        _ => None,
    }
}

pub open spec fn message_menu_map(code: KeyCode) -> Option<AppAction> {
    match code {
        KeyCode::Char('j') | KeyCode::Down => Some(AppAction::MenuNext),
        KeyCode::Char('k') | KeyCode::Up => Some(AppAction::MenuPrevious),
        KeyCode::Enter => Some(AppAction::ConfirmMessageMenu),
        KeyCode::Esc => Some(AppAction::CancelMessageMenu),
        _ => None,
    }
}

/// Message menu: j/k move, Enter confirms, Esc cancels.
pub fn message_menu_action(key: &Key) -> (r: Option<AppAction>)
    ensures
        r == message_menu_map(key.code),
{
    match key.code {
        KeyCode::Char('j') | KeyCode::Down => Some(AppAction::MenuNext),
        KeyCode::Char('k') | KeyCode::Up => Some(AppAction::MenuPrevious),
        KeyCode::Enter => Some(AppAction::ConfirmMessageMenu),
        KeyCode::Esc => Some(AppAction::CancelMessageMenu),
        _ => None,
    }
}

} // verus!
