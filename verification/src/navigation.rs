//! Selection in the chat list: moving, jumping and keeping the selected
//! row inside the list, over ratatui's `ListState`.
use vstd::prelude::*;

use ratatui::widgets::ListState;

use crate::actions::{FocusPane, Section};
use crate::avatar_window::string_views;
use crate::keys::{Key, KeyCode};

verus! {

#[verifier::external_type_specification]
#[verifier::external_body]
pub struct ExListState(ratatui::widgets::ListState);

/// The selected index that a `ListState` holds, as `ListState::selected`
/// returns it.
pub uninterp spec fn list_selection(state: ListState) -> Option<usize>;

/// Calls `ListState::selected`, which returns the selection.
#[verifier::external_body]
pub(crate) fn selected_index(state: &ListState) -> (r: Option<usize>)
    ensures
        r == list_selection(*state),
{
    state.selected()
}

/// Calls `ListState::select`, which sets the selection to `index`.
#[verifier::external_body]
pub(crate) fn select_index(state: &mut ListState, index: Option<usize>)
    ensures
        list_selection(*final(state)) == index,
{
    state.select(index)
}

/// Calls `ListState::select_next`: the next index, saturating, or the first
/// where nothing was selected.
#[verifier::external_body]
fn select_next(state: &mut ListState)
    ensures
        list_selection(*final(state)) == Some(
            match list_selection(*old(state)) {
                Some(i) => if i == usize::MAX {
                    i
                } else {
                    (i + 1) as usize
                },
                None => 0usize,
            },
        ),
{
    state.select_next()
}

/// Calls `ListState::select_previous`: the previous index, saturating at 0,
/// or `usize::MAX` where nothing was selected.
#[verifier::external_body]
fn select_previous(state: &mut ListState)
    ensures
        list_selection(*final(state)) == Some(
            match list_selection(*old(state)) {
                Some(i) => if i == 0 {
                    0usize
                } else {
                    (i - 1) as usize
                },
                None => usize::MAX,
            },
        ),
{
    state.select_previous()
}

/// Calls `ListState::select_first`, which selects index 0.
#[verifier::external_body]
fn select_first(state: &mut ListState)
    ensures
        list_selection(*final(state)) == Some(0usize),
{
    state.select_first()
}

/// Calls `ListState::select_last`, which selects `usize::MAX` until the
/// list is drawn.
#[verifier::external_body]
fn select_last(state: &mut ListState)
    ensures
        list_selection(*final(state)) == Some(usize::MAX),
{
    state.select_last()
}

/// The selection kept inside a list of `count` rows: nothing in an empty
/// list, the last row for an index past the end.
pub open spec fn clamped(selected: Option<usize>, count: usize) -> Option<usize> {
    if count == 0 {
        None
    } else {
        match selected {
            Some(i) => if i >= count {
                Some((count - 1) as usize)
            } else {
                Some(i)
            },
            None => None,
        }
    }
}

/// Keeps the selection inside a list of `count` rows.
pub fn clamp_list_state(state: &mut ListState, count: usize)
    ensures
        list_selection(*final(state)) == clamped(list_selection(*old(state)), count),
{
    let selected = selected_index(state);
    if count == 0 {
        select_index(state, None);
    } else {
        match selected {
            Some(i) => {
                if i >= count {
                    select_index(state, Some(count - 1));
                }
            },
            None => {},
        }
    }
}

/// The selection after one step down (`forward`) or up in a list of
/// `count` rows.
pub open spec fn stepped(selected: Option<usize>, forward: bool, count: usize) -> Option<usize> {
    clamped(
        Some(
            if forward {
                match selected {
                    Some(i) => if i == usize::MAX {
                        i
                    } else {
                        (i + 1) as usize
                    },
                    None => 0usize,
                }
            } else {
                match selected {
                    Some(i) => if i == 0 {
                        0usize
                    } else {
                        (i - 1) as usize
                    },
                    None => usize::MAX,
                }
            },
        ),
        count,
    )
}

/// Moves the selection one row down or up and keeps it in the list: the
/// last row stays selected going down, the first going up.
pub fn move_list_selection(state: &mut ListState, forward: bool, count: usize)
    ensures
        list_selection(*final(state)) == stepped(list_selection(*old(state)), forward, count),
{
    if forward {
        select_next(state);
    } else {
        select_previous(state);
    }
    clamp_list_state(state, count);
}

/// Selects the first row. As in the chat list, the selection is not
/// clamped: an empty list still shows row 0 as selected until the next
/// movement.
pub fn jump_list_top(state: &mut ListState)
    ensures
        list_selection(*final(state)) == Some(0usize),
{
    select_first(state);
}

/// Selects the last of `count` rows, or nothing in an empty list.
pub fn jump_list_bottom(state: &mut ListState, count: usize)
    ensures
        list_selection(*final(state)) == (if count == 0 {
            None
        } else {
            Some((count - 1) as usize)
        }),
{
    select_last(state);
    clamp_list_state(state, count);
}

/// A row of the chat list: the chat it opens and the chats it stands for
/// (a community row stands for its linked groups).
#[derive(Debug)]
pub struct ChatRow {
    pub label: String,
    pub members: Vec<String>,
    pub target: String,
}

/// The row stands for `jid`: it targets it or holds it as a member.
pub open spec fn row_holds(row: ChatRow, jid: Seq<char>) -> bool {
    row.target@ == jid || string_views(row.members@).contains(jid)
}

/// The row to select for `jid`: the first row that stands for it; else the
/// first row, or nothing in an empty list.
pub open spec fn row_for_chat(rows: Seq<ChatRow>, jid: Option<Seq<char>>) -> Option<usize> {
    if jid is Some && exists|i: int| 0 <= i < rows.len() && row_holds(rows[i], jid->Some_0) {
        Some(
            (choose|i: int|
                0 <= i < rows.len() && row_holds(rows[i], jid->Some_0) && forall|j: int|
                    0 <= j < i ==> !row_holds(rows[j], jid->Some_0)) as usize,
        )
    } else if rows.len() == 0 {
        None
    } else {
        Some(0usize)
    }
}

fn text_eq(a: &str, b: &str) -> (r: bool)
    ensures
        r == (a@ == b@),
{
    crate::text_order::compare_text(a, b) == crate::text_order::Comparison::Equal
}

fn holds_chat(row: &ChatRow, jid: &str) -> (r: bool)
    ensures
        r == row_holds(*row, jid@),
{
    if text_eq(row.target.as_str(), jid) {
        return true;
    }
    let mut i: usize = 0;
    while i < row.members.len()
        invariant
            0 <= i <= row.members.len(),
            forall|j: int| 0 <= j < i ==> row.members@[j]@ != jid@,
        decreases row.members.len() - i,
    {
        if text_eq(row.members[i].as_str(), jid) {
            assert(string_views(row.members@)[i as int] == jid@);
            return true;
        }
        i += 1;
    }
    proof {
        if string_views(row.members@).contains(jid@) {
            let k = choose|k: int| 0 <= k < row.members@.len() && string_views(row.members@)[k] == jid@;
            assert(row.members@[k]@ == jid@);
        }
    }
    false
}

/// Selects the row of the chat `jid` in `rows`: the first row that stands
/// for it, else the first row, else nothing.
pub fn select_chat_row(state: &mut ListState, rows: &[ChatRow], jid: Option<&str>)
    ensures
        list_selection(*final(state)) == row_for_chat(
            rows@,
            match jid {
                Some(j) => Some(j@),
                None => None,
            },
        ),
{
    match jid {
        Some(j) => {
            let mut i: usize = 0;
            while i < rows.len()
                invariant
                    0 <= i <= rows.len(),
                    jid == Some(j),
                    forall|k: int| 0 <= k < i ==> !row_holds(rows@[k], j@),
                decreases rows.len() - i,
            {
                if holds_chat(&rows[i], j) {
                    proof {
                        assert(0 <= i < rows@.len() && row_holds(rows@[i as int], j@) && forall|k: int|
                            0 <= k < i ==> !row_holds(rows@[k], j@));
                        let c = choose|c: int|
                            0 <= c < rows@.len() && row_holds(rows@[c], j@) && forall|k: int|
                                0 <= k < c ==> !row_holds(rows@[k], j@);
                        if c < i {
                        } else if c > i {
                            assert(!row_holds(rows@[i as int], j@));
                        }
                        assert(c == i);
                        assert(row_for_chat(rows@, Some(j@)) == Some(i));
                    }
                    select_index(state, Some(i));
                    return;
                }
                i += 1;
            }
        },
        None => {},
    }
    if rows.len() == 0 {
        select_index(state, None);
    } else {
        select_index(state, Some(0));
    }
}

/// A row of the chat list or of a community's detail view.
#[derive(Debug)]
pub enum ContactRow {
    Chat(ChatRow),
    VirtualAnnouncement(ChatRow),
    Available { name: String, jid: Option<String>, participant_count: Option<u32> },
    Header(String),
    Action(String),
}

/// The chat a row opens, if any.
pub open spec fn row_target(row: ContactRow) -> Option<Seq<char>> {
    match row {
        ContactRow::Chat(r) => Some(r.target@),
        ContactRow::VirtualAnnouncement(r) => Some(r.target@),
        _ => None,
    }
}

impl ContactRow {
    /// The chat the row opens: chat and announcement rows only.
    pub fn target(&self) -> (t: Option<&String>)
        ensures
            match t {
                Some(s) => row_target(*self) == Some(s@),
                None => row_target(*self) is None,
            },
    {
        match self {
            ContactRow::Chat(row) => Some(&row.target),
            ContactRow::VirtualAnnouncement(row) => Some(&row.target),
            _ => None,
        }
    }

    /// The chat whose picture the row shows: a chat row's target, or the
    /// group a joinable row offers.
    pub fn avatar_target(&self) -> (t: Option<&String>)
        ensures
            match t {
                Some(s) => match *self {
                    ContactRow::Chat(r) => s@ == r.target@,
                    ContactRow::Available { jid, .. } => jid is Some && s@ == jid->Some_0@,
                    _ => false,
                },
                None => match *self {
                    ContactRow::Chat(_) => false,
                    ContactRow::Available { jid, .. } => jid is None,
                    _ => true,
                },
            },
    {
        match self {
            ContactRow::Chat(row) => Some(&row.target),
            ContactRow::Available { jid, .. } => match jid {
                Some(j) => Some(j),
                None => None,
            },
            _ => None,
        }
    }
}

/// The position of the first row that opens a chat.
pub fn first_chat_index(rows: &[ContactRow]) -> (r: Option<usize>)
    ensures
        match r {
            Some(i) => i < rows.len() && row_target(rows@[i as int]) is Some && forall|j: int|
                0 <= j < i ==> row_target(#[trigger] rows@[j]) is None,
            None => forall|j: int| 0 <= j < rows.len() ==> row_target(#[trigger] rows@[j]) is None,
        },
{
    let mut i: usize = 0;
    while i < rows.len()
        invariant
            0 <= i <= rows.len(),
            forall|j: int| 0 <= j < i ==> row_target(#[trigger] rows@[j]) is None,
        decreases rows.len() - i,
    {
        if rows[i].target().is_some() {
            return Some(i);
        }
        i += 1;
    }
    None
}

/// Whether a key starts the chat search: "/" in the chat list of the
/// Chats section.
pub fn start_chat_search(focus: FocusPane, section: Section, key: &Key) -> (b: bool)
    ensures
        b == (focus == FocusPane::ChatList && section == Section::Chats && key.code == KeyCode::Char('/')),
{
    matches!(focus, FocusPane::ChatList) && matches!(section, Section::Chats) && matches!(key.code, KeyCode::Char('/'))
}

/// What a key does while the chat search is active.
#[derive(Clone, Copy, Debug, PartialEq, Eq)]
pub enum ChatSearchStep {
    /// Leave the search, clear it, and select the chat selected before.
    Leave,
    /// Leave the search and open the selected chat.
    OpenSelected,
    /// Add the character to the query and filter again.
    Insert(char),
    /// Delete the character before the cursor and filter again.
    DeleteBack,
    MoveCursorLeft,
    MoveCursorRight,
    Ignore,
}

/// Decides what a key does in the chat search.
pub fn chat_search_step(key: &Key) -> (s: ChatSearchStep)
    ensures
        s == match key.code {
            KeyCode::Esc => ChatSearchStep::Leave,
            KeyCode::Enter => ChatSearchStep::OpenSelected,
            KeyCode::Char(c) => ChatSearchStep::Insert(c),
            KeyCode::Backspace => ChatSearchStep::DeleteBack,
            KeyCode::Left => ChatSearchStep::MoveCursorLeft,
            KeyCode::Right => ChatSearchStep::MoveCursorRight,
            _ => ChatSearchStep::Ignore,
        },
{
    match key.code {
        KeyCode::Esc => ChatSearchStep::Leave,
        KeyCode::Enter => ChatSearchStep::OpenSelected,
        KeyCode::Char(c) => ChatSearchStep::Insert(c),
        KeyCode::Backspace => ChatSearchStep::DeleteBack,
        KeyCode::Left => ChatSearchStep::MoveCursorLeft,
        KeyCode::Right => ChatSearchStep::MoveCursorRight,
        _ => ChatSearchStep::Ignore,
    }
}

} // verus!
