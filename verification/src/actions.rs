//! Application actions, panes and sections, and the focus rules that move
//! between visible panes.
use vstd::prelude::*;

use crate::keys::Key;

verus! {

/// The reactions offered by the reaction picker.
pub const COMMON_REACTIONS: [&'static str; 6] = ["👍", "❤️", "😂", "😮", "😢", "🙏"];

/// The only reaction WhatsApp allows on statuses.
pub const STATUS_REACTION: &'static str = "💚";

/// The title of the Logout slot pinned below the three content sections of
/// the section rail. It is not a `Section`: the rail cursor is the selected
/// section plus a flag for this slot.
pub const LOGOUT_RAIL_TITLE: &'static str = "Logout";

/// Every semantic action the input layer can request.
#[derive(Clone, Copy, Debug, Eq, PartialEq)]
pub enum AppAction {
    Quit,
    Logout,
    ToggleLogs,
    ToggleSectionRail,
    ToggleChatList,
    FocusPane(FocusPane),
    OpenContextualActions,
    ToggleShortcutPopup,
    ToggleComposerDirection,
    PlannedLeaderAction(&'static str),
    FocusNext,
    FocusPrevious,
    SelectNext,
    SelectPrevious,
    JumpTop,
    JumpBottom,
    HalfPageDown,
    HalfPageUp,
    InsertMode,
    CopyMessage,
    ViewMessage,
    ReactMessage,
    ShareMessage,
    ReplyMessage,
    ReplyPrivately,
    DeleteMessage,
    EditMessage,
    OpenChat,
    OpenMessage,
    DownloadMessage,
    ViewerNext,
    ViewerPrevious,
    ViewerZoomIn,
    ViewerZoomOut,
    ViewerOpenExternal,
    CloseAttachmentViewer,
    CloseStatusPane,
    OpenMessageMenu,
    MenuNext,
    MenuPrevious,
    ConfirmMessageMenu,
    CancelMessageMenu,
    ReactionPrev,
    ReactionNext,
    ConfirmReaction,
    CancelReaction,
    SharePickerPrevious,
    SharePickerNext,
    ToggleShareRecipient,
    ConfirmShare,
    CancelShare,
    ShareSearchBackspace,
    ShareSearchCharacter(char),
    UrlPickerPrevious,
    UrlPickerNext,
    ConfirmUrlPicker,
    CancelUrlPicker,
    AttachFile,
    FilePickerPrevious,
    FilePickerNext,
    FilePickerParent,
    FilePickerDescend,
    FilePickerToggle,
    FilePickerConfirm,
    FilePickerEnterSearch,
    FilePickerEndSearch,
    FilePickerBackspace,
    FilePickerCharacter(char),
    CancelFilePicker,
    GoToReference,
    Composer(ComposerAction),
}

/// The reason a clipboard write did not happen.
#[derive(Clone, Copy, Debug, Eq, PartialEq)]
pub struct ClipboardWriteError;

/// A clipboard that can be written to.
pub trait ClipboardWriter {
    fn write_text(&mut self, text: &str) -> Result<(), ClipboardWriteError>;
}

/// Clipboard writer used when no display server is reachable: every write
/// reports the clipboard as unavailable.
pub struct UnavailableClipboardWriter;

impl ClipboardWriter for UnavailableClipboardWriter {
    fn write_text(&mut self, text: &str) -> (r: Result<(), ClipboardWriteError>)
        ensures
            r is Err,
    {
        Err(ClipboardWriteError)
    }
}

/// Why the clipboard could not be read.
#[derive(Clone, Copy, Debug, Eq, PartialEq)]
pub enum ClipboardError {
    ClipboardUnavailable,
}

/// What the clipboard holds for a paste: text, file paths, or a PNG image.
#[derive(Debug)]
pub enum ClipboardPaste {
    Text(String),
    Paths(Vec<String>),
    Png(Vec<u8>),
}

/// A clipboard that can be read for a paste.
pub trait ClipboardReader {
    fn read_paste(&mut self) -> Result<ClipboardPaste, ClipboardError>;
}

/// Clipboard reader used when no display server is reachable: every paste
/// reports the clipboard as unavailable.
pub struct UnavailableClipboardReader;

impl ClipboardReader for UnavailableClipboardReader {
    fn read_paste(&mut self) -> (r: Result<ClipboardPaste, ClipboardError>)
        ensures
            r == Err::<ClipboardPaste, ClipboardError>(ClipboardError::ClipboardUnavailable),
    {
        Err(ClipboardError::ClipboardUnavailable)
    }
}

/// A message action that the server refused or could not carry out.
#[derive(Clone, Copy, Debug, Eq, PartialEq)]
pub struct MessageActionFailed;

/// Edits sent messages.
pub trait MessageEditor {
    /// Replaces the text of the message `message_id` in `chat`.
    fn edit_message(&self, chat: &str, message_id: &str, replacement: &str) -> Result<(), MessageActionFailed>;
}

/// Deletes sent messages for everyone.
pub trait MessageRevoker {
    /// Revokes the message `message_id` of `sender` in `chat`.
    fn revoke_message(&self, chat: &str, sender: &str, message_id: &str) -> Result<(), MessageActionFailed>;
}

/// Sends reactions to messages.
pub trait MessageReactor {
    /// Reacts to the message `message_id` of `sender` in `chat`.
    fn react_to_message(&self, chat: &str, sender: &str, message_id: &str, reaction: &str) -> Result<
        (),
        MessageActionFailed,
    >;

    /// Reacts to a message of `target` from the chat `destination`: only a
    /// message of the same chat can be reacted to.
    fn react_to_message_in_chat(
        &self,
        target: &str,
        destination: &str,
        sender: &str,
        message_id: &str,
        reaction: &str,
    ) -> (r: Result<(), MessageActionFailed>)
        ensures
            target@ != destination@ ==> r == Err::<(), MessageActionFailed>(MessageActionFailed),
    {
        if crate::text_order::compare_text(target, destination) != crate::text_order::Comparison::Equal {
            return Err(MessageActionFailed);
        }
        self.react_to_message(target, sender, message_id, reaction)
    }
}

/// Entries of the message menu.
#[derive(Clone, Copy, Debug, Eq, PartialEq, Structural)]
pub enum MessageMenuAction {
    CopyText,
    Reply,
    GoToReference,
    SenderDetails,
    ReactedUsers,
}

/// What keys in the conversation pane do.
#[derive(Clone, Copy, Debug, Eq, PartialEq, Structural)]
pub enum ConversationMode {
    MessageNavigation,
    ComposerEditing,
    EditingMessage,
}

/// Composer-owned actions.
#[derive(Clone, Copy, Debug, Eq, PartialEq, Structural)]
pub enum ComposerAction {
    StartEdit,
    Submit,
    InsertNewline,
    Paste,
    Edit(Key),
    RemoveLastAttachment,
    CancelReply,
}

/// The three panes that can hold keyboard focus.
#[derive(Clone, Copy, Debug, Eq, PartialEq, Structural)]
pub enum FocusPane {
    SectionRail,
    ChatList,
    Conversation,
}

/// Which optional panes are shown. The conversation pane is always shown.
#[derive(Clone, Copy, Debug, Eq, PartialEq, Structural)]
pub struct PaneVisibility {
    pub section_rail: bool,
    pub chat_list: bool,
}

impl PaneVisibility {
    /// Both optional panes shown.
    pub fn default() -> (v: PaneVisibility)
        ensures
            v.section_rail && v.chat_list,
    {
        PaneVisibility { section_rail: true, chat_list: true }
    }
}

/// The content sections of the section rail.
#[derive(Clone, Copy, Debug, Eq, PartialEq, Structural)]
pub enum Section {
    Chats,
    Status,
    Communities,
}

/// The section after `s` in rail order, wrapping around.
pub open spec fn section_after(s: Section) -> Section {
    match s {
        Section::Chats => Section::Status,
        Section::Status => Section::Communities,
        Section::Communities => Section::Chats,
    }
}

/// The section before `s` in rail order, wrapping around.
pub open spec fn section_before(s: Section) -> Section {
    match s {
        Section::Chats => Section::Communities,
        Section::Status => Section::Chats,
        Section::Communities => Section::Status,
    }
}

/// The title shown for a section.
pub open spec fn section_title(s: Section) -> Seq<char> {
    match s {
        Section::Chats => "Chats"@,
        Section::Status => "Status"@,
        Section::Communities => "Communities"@,
    }
}

impl Section {
    /// The rail order of sections.
    pub fn all() -> (v: Vec<Section>)
        ensures
            v@ == seq![Section::Chats, Section::Status, Section::Communities],
    {
        vec![Section::Chats, Section::Status, Section::Communities]
    }

    pub fn next(self) -> (s: Section)
        ensures
            s == section_after(self),
    {
        match self {
            Section::Chats => Section::Status,
            Section::Status => Section::Communities,
            Section::Communities => Section::Chats,
        }
    }

    pub fn previous(self) -> (s: Section)
        ensures
            s == section_before(self),
    {
        match self {
            Section::Chats => Section::Communities,
            Section::Status => Section::Chats,
            Section::Communities => Section::Status,
        }
    }

    pub fn title(self) -> (t: &'static str)
        ensures
            t@ == section_title(self),
    {
        proof {
            reveal_strlit("Chats");
            reveal_strlit("Status");
            reveal_strlit("Communities");
        }
        match self {
            Section::Chats => "Chats",
            Section::Status => "Status",
            Section::Communities => "Communities",
        }
    }
}

/// Moving to the next section and back returns to the start, and three
/// steps forward visit every section once and come back.
pub proof fn lemma_section_cycle(s: Section)
    ensures
        section_before(section_after(s)) == s,
        section_after(section_before(s)) == s,
        section_after(section_after(section_after(s))) == s,
        section_after(s) != s,
{
}

/// The panes that can hold focus under `v`, in focus order.
pub open spec fn visible_pane_seq(v: PaneVisibility) -> Seq<FocusPane> {
    (if v.section_rail {
        seq![FocusPane::SectionRail]
    } else {
        Seq::empty()
    }) + (if v.chat_list {
        seq![FocusPane::ChatList]
    } else {
        Seq::empty()
    }) + seq![FocusPane::Conversation]
}

/// Whether `p` is shown under `v`.
pub open spec fn pane_visible(p: FocusPane, v: PaneVisibility) -> bool {
    match p {
        FocusPane::SectionRail => v.section_rail,
        FocusPane::ChatList => v.chat_list,
        FocusPane::Conversation => true,
    }
}

/// Position of `p` in `panes`, or 0 when it is absent.
pub open spec fn position_or_first(panes: Seq<FocusPane>, p: FocusPane) -> int
    decreases panes.len(),
{
    if panes.len() == 0 {
        0
    } else if panes[0] == p {
        0
    } else if panes.drop_first().contains(p) {
        1 + position_or_first(panes.drop_first(), p)
    } else {
        0
    }
}

/// The pane that focus moves to from `p` going forward.
pub open spec fn pane_after(p: FocusPane, v: PaneVisibility) -> FocusPane {
    let panes = visible_pane_seq(v);
    panes[(position_or_first(panes, p) + 1) % (panes.len() as int)]
}

/// The pane that focus moves to from `p` going backward.
pub open spec fn pane_before(p: FocusPane, v: PaneVisibility) -> FocusPane {
    let panes = visible_pane_seq(v);
    panes[(position_or_first(panes, p) + panes.len() - 1) % (panes.len() as int)]
}

proof fn lemma_position_bounds(panes: Seq<FocusPane>, p: FocusPane)
    ensures
        panes.len() > 0 ==> 0 <= position_or_first(panes, p) < panes.len(),
        panes.contains(p) ==> panes[position_or_first(panes, p)] == p,
    decreases panes.len(),
{
    if panes.len() > 0 && panes[0] != p && panes.drop_first().contains(p) {
        lemma_position_bounds(panes.drop_first(), p);
    }
    if panes.contains(p) && panes[0] != p {
        let i = choose|i: int| 0 <= i < panes.len() && panes[i] == p;
        assert(panes.drop_first()[i - 1] == p);
    }
}

/// The panes that are shown, in focus order: the section rail and the chat
/// list when visible, then the conversation.
pub fn visible_panes(visibility: PaneVisibility) -> (panes: Vec<FocusPane>)
    ensures
        panes@ == visible_pane_seq(visibility),
{
    let mut panes: Vec<FocusPane> = Vec::new();
    if visibility.section_rail {
        panes.push(FocusPane::SectionRail);
    }
    if visibility.chat_list {
        panes.push(FocusPane::ChatList);
    }
    panes.push(FocusPane::Conversation);
    assert(panes@ =~= visible_pane_seq(visibility));
    panes
}

proof fn lemma_first_occurrence(panes: Seq<FocusPane>, p: FocusPane, i: int)
    requires
        0 <= i < panes.len(),
        panes[i] == p,
        forall|j: int| 0 <= j < i ==> panes[j] != p,
    ensures
        position_or_first(panes, p) == i,
    decreases i,
{
    if i > 0 {
        assert(panes.drop_first()[i - 1] == p);
        lemma_first_occurrence(panes.drop_first(), p, i - 1);
    }
}

fn pane_position(panes: &Vec<FocusPane>, pane: FocusPane) -> (i: usize)
    ensures
        i == position_or_first(panes@, pane),
{
    let mut idx: usize = 0;
    while idx < panes.len()
        invariant
            0 <= idx <= panes.len(),
            forall|j: int| 0 <= j < idx ==> panes@[j] != pane,
        decreases panes.len() - idx,
    {
        if panes[idx] == pane {
            proof {
                lemma_first_occurrence(panes@, pane, idx as int);
            }
            return idx;
        }
        idx += 1;
    }
    assert(!panes@.contains(pane));
    0
}

impl FocusPane {
    /// The next visible pane in focus order, wrapping around. A pane that is
    /// not visible moves as if it stood first.
    pub fn next(self, visibility: PaneVisibility) -> (p: FocusPane)
        ensures
            p == pane_after(self, visibility),
    {
        let panes = visible_panes(visibility);
        proof {
            lemma_position_bounds(panes@, self);
        }
        let index = pane_position(&panes, self);
        panes[(index + 1) % panes.len()]
    }

    /// The previous visible pane in focus order, wrapping around.
    pub fn previous(self, visibility: PaneVisibility) -> (p: FocusPane)
        ensures
            p == pane_before(self, visibility),
    {
        let panes = visible_panes(visibility);
        proof {
            lemma_position_bounds(panes@, self);
        }
        let index = pane_position(&panes, self);
        panes[(index + panes.len() - 1) % panes.len()]
    }
}

/// Moving focus forward and then backward from a visible pane returns to
/// it; both moves always land on a visible pane.
pub proof fn lemma_focus_cycle(p: FocusPane, v: PaneVisibility)
    ensures
        pane_visible(pane_after(p, v), v),
        pane_visible(pane_before(p, v), v),
        pane_visible(p, v) ==> pane_before(pane_after(p, v), v) == p,
        pane_visible(p, v) ==> pane_after(pane_before(p, v), v) == p,
{
    let panes = visible_pane_seq(v);
    assert(panes.last() == FocusPane::Conversation);
    lemma_position_bounds(panes, p);
    assert forall|i: int| 0 <= i < panes.len() implies pane_visible(#[trigger] panes[i], v) by {}
    assert(pane_visible(p, v) ==> panes.contains(p)) by {
        if pane_visible(p, v) {
            match p {
                FocusPane::SectionRail => assert(panes[0] == p),
                FocusPane::ChatList => {
                    if v.section_rail {
                        assert(panes[1] == p);
                    } else {
                        assert(panes[0] == p);
                    }
                },
                FocusPane::Conversation => assert(panes[panes.len() - 1] == p),
            }
        }
    }
    let n = panes.len() as int;
    let i = position_or_first(panes, p);
    lemma_unique_panes(v);
    if pane_visible(p, v) {
        assert(panes[i] == p);
        let a = (i + 1) % n;
        let b = (i + n - 1) % n;
        assert(1 <= n <= 3);
        assert(0 <= i < n);
        assert((a + n - 1) % n == i && (b + 1) % n == i) by (nonlinear_arith)
            requires
                0 <= i < n,
                1 <= n <= 3,
                a == (i + 1) % n,
                b == (i + n - 1) % n,
        ;
        lemma_position_of_index(panes, a);
        lemma_position_of_index(panes, b);
    }
}

proof fn lemma_unique_panes(v: PaneVisibility)
    ensures
        forall|i: int, j: int|
            0 <= i < j < visible_pane_seq(v).len() ==> visible_pane_seq(v)[i]
                != visible_pane_seq(v)[j],
{
}

proof fn lemma_position_of_index(panes: Seq<FocusPane>, i: int)
    requires
        0 <= i < panes.len(),
        forall|a: int, b: int| 0 <= a < b < panes.len() ==> panes[a] != panes[b],
    ensures
        position_or_first(panes, panes[i]) == i,
    decreases panes.len(),
{
    if i > 0 {
        assert(panes.drop_first()[i - 1] == panes[i]);
        lemma_position_of_index(panes.drop_first(), i - 1);
    }
}

/// The pane that keeps focus after the optional panes' visibility changed.
pub open spec fn focus_after_visibility(focus: FocusPane, v: PaneVisibility) -> FocusPane {
    match focus {
        FocusPane::SectionRail => if !v.section_rail {
            if v.chat_list {
                FocusPane::ChatList
            } else {
                FocusPane::Conversation
            }
        } else {
            focus
        },
        FocusPane::ChatList => if !v.chat_list {
            if v.section_rail {
                FocusPane::SectionRail
            } else {
                FocusPane::Conversation
            }
        } else {
            focus
        },
        FocusPane::Conversation => focus,
    }
}

/// Moves focus off a pane that was just hidden: from the rail to the chat
/// list if shown, else the conversation; from the chat list to the rail if
/// shown, else the conversation. A visible focused pane keeps focus.
pub fn focus_after_visibility_change(focus: FocusPane, visibility: PaneVisibility) -> (p:
    FocusPane)
    ensures
        p == focus_after_visibility(focus, visibility),
        pane_visible(p, visibility),
        pane_visible(focus, visibility) ==> p == focus,
{
    match focus {
        FocusPane::SectionRail if !visibility.section_rail => {
            if visibility.chat_list {
                FocusPane::ChatList
            } else {
                FocusPane::Conversation
            }
        },
        FocusPane::ChatList if !visibility.chat_list => {
            if visibility.section_rail {
                FocusPane::SectionRail
            } else {
                FocusPane::Conversation
            }
        },
        _ => focus,
    }
}

/// The focus after `action`: FocusNext and FocusPrevious move through the
/// visible panes; every other action keeps the focus.
pub fn focus_after(focus: FocusPane, action: &AppAction, visibility: PaneVisibility) -> (p:
    FocusPane)
    ensures
        (*action is FocusNext) ==> p == pane_after(focus, visibility),
        (*action is FocusPrevious) ==> p == pane_before(focus, visibility),
        !(*action is FocusNext) && !(*action is FocusPrevious) ==> p == focus,
{
    match action {
        AppAction::FocusNext => focus.next(visibility),
        AppAction::FocusPrevious => focus.previous(visibility),
        _ => focus,
    }
}

} // verus!
