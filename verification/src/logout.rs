//! The logout flow: the confirmation prompt, the outcome of a logout
//! request, and the Logout slot of the section rail.
use vstd::prelude::*;

use crate::actions::Section;
use crate::keys::{Key, KeyCode};

verus! {

/// The confirmation prompt and its progress.
#[derive(Clone, Copy, Debug, Eq, PartialEq, Structural)]
pub struct LogoutPrompt {
    /// A confirmation is showing, or a confirmed logout is running.
    pub pending: bool,
    /// The confirmed logout is running; input is ignored until it resolves.
    pub in_progress: bool,
    /// 0 = Confirm logout, 1 = Cancel.
    pub menu_index: usize,
}

/// What the prompt asks the application to do.
#[derive(Clone, Copy, Debug, Eq, PartialEq, Structural)]
pub enum LogoutEffect {
    /// Nothing beyond the state change.
    Stay,
    /// Stop read sync, then request the logout.
    Confirm,
    /// Show the Cancelled notice.
    Cancelled,
}

/// The prompt after a confirmation: the logout is pending and running.
pub open spec fn confirmed_prompt(p: LogoutPrompt) -> LogoutPrompt {
    LogoutPrompt { pending: true, in_progress: true, menu_index: p.menu_index }
}

/// The prompt after a cancel: closed, selection back on Confirm.
pub open spec fn cancelled_prompt(p: LogoutPrompt) -> LogoutPrompt {
    LogoutPrompt { pending: false, in_progress: p.in_progress, menu_index: 0 }
}

/// The prompt's answer to a key.
pub open spec fn logout_step(p: LogoutPrompt, code: KeyCode) -> (LogoutPrompt, LogoutEffect) {
    match code {
        KeyCode::Char('y') | KeyCode::Char('Y') => (confirmed_prompt(p), LogoutEffect::Confirm),
        KeyCode::Char('n') | KeyCode::Char('N') | KeyCode::Esc => (
            cancelled_prompt(p),
            LogoutEffect::Cancelled,
        ),
        KeyCode::Enter => if p.menu_index == 0 {
            (confirmed_prompt(p), LogoutEffect::Confirm)
        } else {
            (cancelled_prompt(p), LogoutEffect::Cancelled)
        },
        KeyCode::Char('j') | KeyCode::Char('k') | KeyCode::Down | KeyCode::Up => (
            LogoutPrompt { menu_index: ((p.menu_index + 1) % 2) as usize, ..p },
            LogoutEffect::Stay,
        ),
        _ => (p, LogoutEffect::Stay),
    }
}

/// Handles a key while the logout confirmation shows: y or Enter on
/// Confirm confirms; n, Esc or Enter on Cancel cancels; j/k/Up/Down switch
/// between the two entries.
pub fn handle_logout_input(prompt: LogoutPrompt, key: &Key) -> (r: (LogoutPrompt, LogoutEffect))
    requires
        prompt.menu_index < 2,
    ensures
        r == logout_step(prompt, key.code),
        r.0.menu_index < 2,
{
    match key.code {
        KeyCode::Char('y') | KeyCode::Char('Y') => (
            LogoutPrompt { pending: true, in_progress: true, menu_index: prompt.menu_index },
            LogoutEffect::Confirm,
        ),
        KeyCode::Char('n') | KeyCode::Char('N') | KeyCode::Esc => (
            LogoutPrompt { pending: false, in_progress: prompt.in_progress, menu_index: 0 },
            LogoutEffect::Cancelled,
        ),
        KeyCode::Enter => {
            if prompt.menu_index == 0 {
                (
                    LogoutPrompt { pending: true, in_progress: true, menu_index: 0 },
                    LogoutEffect::Confirm,
                )
            } else {
                (
                    LogoutPrompt { pending: false, in_progress: prompt.in_progress, menu_index: 0 },
                    LogoutEffect::Cancelled,
                )
            }
        },
        KeyCode::Char('j') | KeyCode::Char('k') | KeyCode::Down | KeyCode::Up => (
            LogoutPrompt { menu_index: (prompt.menu_index + 1) % 2, ..prompt },
            LogoutEffect::Stay,
        ),
        _ => (prompt, LogoutEffect::Stay),
    }
}

/// Moving the prompt selection twice returns to the same entry.
pub proof fn lemma_logout_selection_toggles(p: LogoutPrompt)
    requires
        p.menu_index < 2,
    ensures
        logout_step(logout_step(p, KeyCode::Down).0, KeyCode::Up).0 == p,
        logout_step(p, KeyCode::Down).0.menu_index != p.menu_index,
{
}

/// Opens the confirmation with Confirm selected.
pub fn begin_logout_confirmation(prompt: LogoutPrompt) -> (r: LogoutPrompt)
    ensures
        r == (LogoutPrompt { pending: true, in_progress: prompt.in_progress, menu_index: 0 }),
{
    LogoutPrompt { pending: true, in_progress: prompt.in_progress, menu_index: 0 }
}

/// The outcome the bridge reports for a logout request.
#[derive(Clone, Copy, Debug, Eq, PartialEq, Structural)]
pub enum LogoutStatus {
    LoggedOut,
    NotLoggedIn,
    LocalOnly,
    Failed,
}

/// What the application does with a logout outcome.
#[derive(Clone, Copy, Debug, Eq, PartialEq, Structural)]
pub enum LogoutResolution {
    /// Stop storage, wipe both databases and media, and quit.
    Finish,
    /// Logged out locally only: the device is still linked on the phone.
    LocalOnly,
    /// The logout failed; the session stays and may be retried.
    Failed,
}

/// Resolves a logout outcome. Logged out and not logged in both finish;
/// local-only and failed outcomes keep the session retryable. In every case
/// the prompt closes.
pub fn handle_logout_result(status: LogoutStatus) -> (r: (LogoutPrompt, LogoutResolution))
    ensures
        r.0 == (LogoutPrompt { pending: false, in_progress: false, menu_index: 0 }),
        r.1 == (match status {
            LogoutStatus::LoggedOut | LogoutStatus::NotLoggedIn => LogoutResolution::Finish,
            LogoutStatus::LocalOnly => LogoutResolution::LocalOnly,
            LogoutStatus::Failed => LogoutResolution::Failed,
        }),
{
    let reset = LogoutPrompt { pending: false, in_progress: false, menu_index: 0 };
    let resolution = match status {
        LogoutStatus::LoggedOut | LogoutStatus::NotLoggedIn => LogoutResolution::Finish,
        LogoutStatus::LocalOnly => LogoutResolution::LocalOnly,
        LogoutStatus::Failed => LogoutResolution::Failed,
    };
    (reset, resolution)
}

/// The section rail cursor: a content section, or the Logout slot below
/// the three sections.
#[derive(Clone, Copy, Debug, Eq, PartialEq, Structural)]
pub struct RailCursor {
    pub section: Section,
    pub on_logout: bool,
}

/// Moves down from the last section onto the Logout slot, and from the
/// Logout slot back to the first section. Returns whether this move was
/// handled here; other moves are left to ordinary section navigation.
pub fn move_logout_selection_next(cursor: RailCursor) -> (r: (RailCursor, bool))
    ensures
        cursor.on_logout ==> r == (RailCursor { section: Section::Chats, on_logout: false }, true),
        !cursor.on_logout && cursor.section == Section::Communities ==> r == (
            RailCursor { section: cursor.section, on_logout: true },
            true,
        ),
        !cursor.on_logout && cursor.section != Section::Communities ==> r == (cursor, false),
{
    if cursor.on_logout {
        (RailCursor { section: Section::Chats, on_logout: false }, true)
    } else if matches!(cursor.section, Section::Communities) {
        (RailCursor { section: cursor.section, on_logout: true }, true)
    } else {
        (cursor, false)
    }
}

/// Moves up from the first section onto the Logout slot, and from the
/// Logout slot back to the last section.
pub fn move_logout_selection_previous(cursor: RailCursor) -> (r: (RailCursor, bool))
    ensures
        cursor.on_logout ==> r == (RailCursor { section: Section::Communities, on_logout: false }, true),
        !cursor.on_logout && cursor.section == Section::Chats ==> r == (
            RailCursor { section: cursor.section, on_logout: true },
            true,
        ),
        !cursor.on_logout && cursor.section != Section::Chats ==> r == (cursor, false),
{
    if cursor.on_logout {
        (RailCursor { section: Section::Communities, on_logout: false }, true)
    } else if matches!(cursor.section, Section::Chats) {
        (RailCursor { section: cursor.section, on_logout: true }, true)
    } else {
        (cursor, false)
    }
}

/// The top of the rail is the first section.
pub fn jump_logout_selection_top() -> (r: RailCursor)
    ensures
        r == (RailCursor { section: Section::Chats, on_logout: false }),
{
    RailCursor { section: Section::Chats, on_logout: false }
}

/// The bottom of the rail is the Logout slot, below the last section.
pub fn jump_logout_selection_bottom() -> (r: RailCursor)
    ensures
        r == (RailCursor { section: Section::Communities, on_logout: true }),
{
    RailCursor { section: Section::Communities, on_logout: true }
}

/// Runs the read-sync shutdown strictly before the logout request.
pub fn logout_after_stopping_read_sync<S: FnOnce(), L: FnOnce()>(stop_read_sync: S, logout: L)
    requires
        stop_read_sync.requires(()),
        logout.requires(()),
    ensures
        stop_read_sync.ensures((), ()),
        logout.ensures((), ()),
{
    stop_read_sync();
    logout();
}

} // verus!
