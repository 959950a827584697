//! Lifecycle and settings rules: pane toggles, pane focus requests, the
//! viewer zoom range and the log panel toggle.
use vstd::prelude::*;

use crate::actions::{focus_after_visibility, focus_after_visibility_change, pane_visible, FocusPane, PaneVisibility};
use crate::keys::{Key, KeyCode};

verus! {

/// The pane layout: which optional panes are shown and which pane has focus.
#[derive(Clone, Copy, Debug, Eq, PartialEq, Structural)]
pub struct PaneLayout {
    pub visibility: PaneVisibility,
    pub focus: FocusPane,
}

/// The layout with the section rail shown or hidden; focus leaves the
/// rail when it is hidden.
pub open spec fn toggled_rail(layout: PaneLayout) -> PaneLayout {
    let visibility = PaneVisibility {
        section_rail: !layout.visibility.section_rail,
        chat_list: layout.visibility.chat_list,
    };
    PaneLayout { visibility, focus: focus_after_visibility(layout.focus, visibility) }
}

/// The layout with the chat list shown or hidden; focus leaves the list
/// when it is hidden.
pub open spec fn toggled_chat_list(layout: PaneLayout) -> PaneLayout {
    let visibility = PaneVisibility {
        section_rail: layout.visibility.section_rail,
        chat_list: !layout.visibility.chat_list,
    };
    PaneLayout { visibility, focus: focus_after_visibility(layout.focus, visibility) }
}

/// The layout after a request to focus a pane: focus moves there only
/// when the pane is shown.
pub open spec fn focused_layout(layout: PaneLayout, pane: FocusPane) -> PaneLayout {
    if pane_visible(pane, layout.visibility) {
        PaneLayout { visibility: layout.visibility, focus: pane }
    } else {
        layout
    }
}

/// Shows or hides the section rail; focus leaves it when it is hidden.
pub fn toggle_section_rail(layout: PaneLayout) -> (r: PaneLayout)
    ensures
        r == toggled_rail(layout),
        r.visibility.section_rail == !layout.visibility.section_rail,
        r.visibility.chat_list == layout.visibility.chat_list,
        r.focus == focus_after_visibility(layout.focus, r.visibility),
        pane_visible(r.focus, r.visibility),
{
    let visibility = PaneVisibility {
        section_rail: !layout.visibility.section_rail,
        chat_list: layout.visibility.chat_list,
    };
    PaneLayout { visibility, focus: focus_after_visibility_change(layout.focus, visibility) }
}

/// Shows or hides the chat list; focus leaves it when it is hidden.
pub fn toggle_chat_list(layout: PaneLayout) -> (r: PaneLayout)
    ensures
        r == toggled_chat_list(layout),
        r.visibility.chat_list == !layout.visibility.chat_list,
        r.visibility.section_rail == layout.visibility.section_rail,
        r.focus == focus_after_visibility(layout.focus, r.visibility),
        pane_visible(r.focus, r.visibility),
{
    let visibility = PaneVisibility {
        section_rail: layout.visibility.section_rail,
        chat_list: !layout.visibility.chat_list,
    };
    PaneLayout { visibility, focus: focus_after_visibility_change(layout.focus, visibility) }
}

/// Focus moves to a requested pane only when that pane is shown.
pub fn focus_requested_pane(layout: PaneLayout, pane: FocusPane) -> (r: PaneLayout)
    ensures
        r == focused_layout(layout, pane),
        r.visibility == layout.visibility,
        r.focus == (if pane_visible(pane, layout.visibility) {
            pane
        } else {
            layout.focus
        }),
{
    let visible = match pane {
        FocusPane::SectionRail => layout.visibility.section_rail,
        FocusPane::ChatList => layout.visibility.chat_list,
        FocusPane::Conversation => true,
    };
    if visible {
        PaneLayout { visibility: layout.visibility, focus: pane }
    } else {
        layout
    }
}

/// Toggling a pane twice restores its visibility, and focus always stays
/// on a shown pane.
pub proof fn lemma_toggle_twice_restores_visibility(layout: PaneLayout)
    ensures
        ({
            let once = PaneLayout {
                visibility: PaneVisibility {
                    section_rail: !layout.visibility.section_rail,
                    chat_list: layout.visibility.chat_list,
                },
                focus: focus_after_visibility(
                    layout.focus,
                    PaneVisibility {
                        section_rail: !layout.visibility.section_rail,
                        chat_list: layout.visibility.chat_list,
                    },
                ),
            };
            &&& pane_visible(once.focus, once.visibility)
            &&& (PaneVisibility {
                section_rail: !once.visibility.section_rail,
                chat_list: once.visibility.chat_list,
            }) == layout.visibility
        }),
{
}

/// The smallest and largest viewer zoom, in percent, and its step.
pub const VIEWER_ZOOM_MIN: u16 = 25;

pub const VIEWER_ZOOM_MAX: u16 = 400;

pub const VIEWER_ZOOM_STEP: u16 = 25;

/// Zooms the viewer in by one step, up to the maximum.
pub fn viewer_zoom_in(zoom: u16) -> (r: u16)
    ensures
        r == (if zoom + 25 < 400 {
            zoom + 25
        } else {
            400
        }),
{
    let raised = zoom.saturating_add(VIEWER_ZOOM_STEP);
    if raised < VIEWER_ZOOM_MAX {
        raised
    } else {
        VIEWER_ZOOM_MAX
    }
}

/// Zooms the viewer out by one step, down to the minimum.
pub fn viewer_zoom_out(zoom: u16) -> (r: u16)
    ensures
        r == (if zoom - 25 > 25 {
            zoom - 25
        } else {
            25
        }),
{
    let lowered = zoom.saturating_sub(VIEWER_ZOOM_STEP);
    if lowered > VIEWER_ZOOM_MIN {
        lowered
    } else {
        VIEWER_ZOOM_MIN
    }
}

/// Zooming in and then out from a zoom inside the range, below the
/// maximum, returns to it.
pub proof fn lemma_zoom_round_trip(zoom: u16)
    requires
        25 <= zoom <= 375,
    ensures
        ({
            let zin = if zoom + 25 < 400 {
                zoom + 25
            } else {
                400
            };
            (if zin - 25 > 25 {
                zin - 25
            } else {
                25
            }) == zoom
        }),
{
}

/// The log level the log panel runs at.
#[derive(Clone, Copy, Debug, Eq, PartialEq, Structural)]
pub enum LogLevel {
    Info,
    Warn,
}

/// The log panel shows info-level records while open and only warnings
/// when closed.
pub fn log_level_for_logs(show_logs: bool) -> (l: LogLevel)
    ensures
        l == (if show_logs {
            LogLevel::Info
        } else {
            LogLevel::Warn
        }),
{
    if show_logs {
        LogLevel::Info
    } else {
        LogLevel::Warn
    }
}

/// Control+Shift+l (either case) toggles the log panel.
pub fn is_toggle_logs_key(key: &Key) -> (b: bool)
    ensures
        b == ((key.code == KeyCode::Char('l') || key.code == KeyCode::Char('L'))
            && key.modifiers.control && key.modifiers.shift && !key.modifiers.alt),
{
    matches!(key.code, KeyCode::Char('l') | KeyCode::Char('L')) && key.modifiers.control
        && key.modifiers.shift && !key.modifiers.alt
}

/// The view the application starts in.
#[derive(Clone, Copy, Debug, Eq, PartialEq, Structural)]
pub struct InitialView {
    pub layout: PaneLayout,
    pub section: crate::actions::Section,
    pub conversation_mode: crate::actions::ConversationMode,
    pub viewer_zoom: u16,
    pub show_logs: bool,
}

/// The start: both optional panes shown, the chat list focused, the Chats
/// section, message navigation, the viewer at 100 percent, logs hidden.
pub fn initial_view() -> (v: InitialView)
    ensures
        v.layout.visibility.section_rail && v.layout.visibility.chat_list,
        v.layout.focus == FocusPane::ChatList,
        v.section == crate::actions::Section::Chats,
        v.conversation_mode == crate::actions::ConversationMode::MessageNavigation,
        v.viewer_zoom == 100,
        !v.show_logs,
{
    InitialView {
        layout: PaneLayout { visibility: PaneVisibility::default(), focus: FocusPane::ChatList },
        section: crate::actions::Section::Chats,
        conversation_mode: crate::actions::ConversationMode::MessageNavigation,
        viewer_zoom: 100,
        show_logs: false,
    }
}

} // verus!
