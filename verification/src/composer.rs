//! The message composer: a `ratatui_textarea` text area, with the
//! mentions, the mention picker, the pending attachments and the reply
//! that the library keeps beside it.
use vstd::prelude::*;
use vstd::string::StrSliceExecFns;

use ratatui_textarea::TextArea;

use crate::actions::ComposerAction;
use crate::avatar_window::string_views;
use crate::contacts::trimmed;
use crate::events::FileKind;
use crate::keys::{Key, KeyCode};
use crate::mentions::{
    after_backspace,
    candidates, composer_text, confirm_mention_edit, confirmed_text, copy_mark, copy_participant,
    cursor_offset as text_cursor_offset, cursor_position, deduplicate_group_participants, deduplicated,
    delete_previous_grapheme as text_without_previous_grapheme, edit_span, expand_marks, expanded_text,
    joined_lines, lemma_line_within_text, line_start, marks_disjoint, marks_ordered, mention_candidates,
    mention_picker_for, mentions_expandable, move_mention_selection as moved_mention_selection, picker_at,
    position_from, pview, reconcile_mentions, reconciled, sorted_by_start, submission_messages, submitted,
    GroupParticipant, Mention, MentionMark, MentionPicker, OutgoingMessage, PendingAttachment,
};

verus! {

/// The composer's text area. Its contents are known through the names
/// below; its undo history and other editing state stay inside.
#[verifier::external_body]
pub struct InputArea {
    area: TextArea<'static>,
}

/// The lines that the text area holds.
pub uninterp spec fn area_lines(input: InputArea) -> Seq<Seq<char>>;

/// The text area's cursor: row and column, in characters.
pub uninterp spec fn area_cursor(input: InputArea) -> (usize, usize);

/// Where the text area's selection starts, if one is under way.
pub uninterp spec fn area_selection(input: InputArea) -> Option<(usize, usize)>;

/// The text of the text area: its lines joined by newlines.
pub open spec fn area_text(input: InputArea) -> Seq<char> {
    joined_lines(area_lines(input))
}

/// The character offset of the text area's cursor in its text.
pub open spec fn area_offset(input: InputArea) -> int {
    line_start(area_lines(input), area_cursor(input).0 as int) + area_cursor(input).1
}

/// The text that `insert_str` inserts for `s`: every carriage return that
/// ends a line of `s` is dropped.
pub open spec fn crlf_stripped(s: Seq<char>) -> Seq<char>
    decreases s.len(),
{
    if s.len() == 0 {
        s
    } else if s[0] == '\r' && (s.len() == 1 || s[1] == '\n') {
        crlf_stripped(s.drop_first())
    } else {
        seq![s[0]] + crlf_stripped(s.drop_first())
    }
}

/// Where a jump to (`row`, `col`) lands: clamped to the last line and to
/// the end of the line.
pub open spec fn jump_target(lines: Seq<Seq<char>>, row: u16, col: u16) -> (usize, usize) {
    let r = if (row as int) < lines.len() - 1 {
        row as int
    } else {
        lines.len() - 1
    };
    let c = if (col as int) < lines[r].len() {
        col as int
    } else {
        lines[r].len() as int
    };
    (r as usize, c as usize)
}

/// A jump to the largest row and column reaches the end of the text.
pub open spec fn jump_reaches_end(lines: Seq<Seq<char>>) -> bool {
    lines.len() >= 1 && lines.len() - 1 <= u16::MAX && lines.last().len() <= u16::MAX
}

/// Calls `TextArea::default`: one empty line, the cursor at its start,
/// nothing selected.
#[verifier::external_body]
fn default_area() -> (input: InputArea)
    ensures
        area_lines(input) == seq![Seq::<char>::empty()],
        area_cursor(input) == (0usize, 0usize),
        area_selection(input) is None,
{
    InputArea { area: TextArea::default() }
}

/// Calls `TextArea::set_placeholder_text`, which changes nothing of the
/// text, the cursor or the selection.
#[verifier::external_body]
fn set_placeholder(input: &mut InputArea, text: &str)
    ensures
        area_lines(*final(input)) == area_lines(*old(input)),
        area_cursor(*final(input)) == area_cursor(*old(input)),
        area_selection(*final(input)) == area_selection(*old(input)),
{
    input.area.set_placeholder_text(text.to_string())
}

/// Calls `TextArea::lines`; the area always holds at least one line.
#[verifier::external_body]
fn lines_of(input: &InputArea) -> (lines: Vec<String>)
    ensures
        string_views(lines@) == area_lines(*input),
        lines@.len() >= 1,
{
    input.area.lines().to_vec()
}

/// Calls `TextArea::cursor`; the cursor always lies within the lines.
#[verifier::external_body]
fn cursor_of(input: &InputArea) -> (cursor: (usize, usize))
    ensures
        cursor == area_cursor(*input),
        (cursor.0 as int) < area_lines(*input).len(),
        cursor.1 <= area_lines(*input)[cursor.0 as int].len(),
{
    let cursor = input.area.cursor();
    (cursor.0, cursor.1)
}

/// Calls `TextArea::move_cursor` with a jump: the cursor lands on the
/// row and column, clamped to the text; the text and the selection stay.
#[verifier::external_body]
fn jump_to(input: &mut InputArea, row: u16, col: u16)
    ensures
        area_lines(*final(input)) == area_lines(*old(input)),
        area_selection(*final(input)) == area_selection(*old(input)),
        area_cursor(*final(input)) == jump_target(area_lines(*old(input)), row, col),
{
    input.area.move_cursor(ratatui_textarea::CursorMove::Jump(row, col))
}

/// Calls `TextArea::select_all`: the selection starts at the beginning
/// and the cursor jumps to the largest row and column.
#[verifier::external_body]
fn select_all(input: &mut InputArea)
    ensures
        area_lines(*final(input)) == area_lines(*old(input)),
        area_selection(*final(input)) == Some((0usize, 0usize)),
        area_cursor(*final(input)) == jump_target(area_lines(*old(input)), u16::MAX, u16::MAX),
{
    input.area.select_all()
}

/// Calls `TextArea::delete_next_char`. Where the selection spans the whole
/// text, the text becomes one empty line with the cursor at its start.
#[verifier::external_body]
fn delete_next_char(input: &mut InputArea)
    ensures
        ({
            let lines = area_lines(*old(input));
            (area_selection(*old(input)) == Some((0usize, 0usize)) && lines.len() >= 1 && area_cursor(*old(input))
                == ((lines.len() - 1) as usize, lines.last().len() as usize)) ==> {
                &&& area_lines(*final(input)) == seq![Seq::<char>::empty()]
                &&& area_cursor(*final(input)) == (0usize, 0usize)
                &&& area_selection(*final(input)) is None
            }
        }),
{
    input.area.delete_next_char();
}

/// Calls `TextArea::insert_str`. With nothing selected, the text (with
/// carriage returns that end lines dropped) goes in at the cursor, and the
/// cursor follows it.
#[verifier::external_body]
fn insert_str(input: &mut InputArea, s: &str)
    ensures
        area_selection(*old(input)) is None ==> {
            let t = area_text(*old(input));
            let o = area_offset(*old(input));
            &&& area_text(*final(input)) == t.take(o) + crlf_stripped(s@) + t.skip(o)
            &&& area_offset(*final(input)) == o + crlf_stripped(s@).len()
            &&& area_selection(*final(input)) is None
        },
{
    input.area.insert_str(s);
}

/// Calls `TextArea::insert_newline`. With nothing selected, a line break
/// goes in at the cursor and the cursor follows it.
#[verifier::external_body]
fn insert_newline(input: &mut InputArea)
    ensures
        area_selection(*old(input)) is None ==> {
            let t = area_text(*old(input));
            let o = area_offset(*old(input));
            &&& area_text(*final(input)) == t.take(o) + seq!['\n'] + t.skip(o)
            &&& area_offset(*final(input)) == o + 1
            &&& area_selection(*final(input)) is None
        },
{
    input.area.insert_newline()
}

/// Calls `TextArea::input` with the key; what the text area does with it
/// (editing, moving, undo) is its own.
#[verifier::external_body]
fn input_key(input: &mut InputArea, key: Key) {
    let code = match key.code {
        KeyCode::Backspace => ratatui_textarea::Key::Backspace, KeyCode::Enter => ratatui_textarea::Key::Enter,
        KeyCode::Esc => ratatui_textarea::Key::Esc, KeyCode::Left => ratatui_textarea::Key::Left,
        KeyCode::Right => ratatui_textarea::Key::Right, KeyCode::Up => ratatui_textarea::Key::Up,
        KeyCode::Down => ratatui_textarea::Key::Down, KeyCode::Tab => ratatui_textarea::Key::Tab,
        KeyCode::Char(c) => ratatui_textarea::Key::Char(c),
    };
    let m = key.modifiers;
    input.area.input(ratatui_textarea::Input { key: code, ctrl: m.control, alt: m.alt, shift: m.shift });
}

/// What the composer keeps to restore a text after a failed send.
#[derive(Debug)]
pub struct ComposerDraft {
    pub text: String,
    pub quote: Option<String>,
    pub mentions: Vec<MentionMark>,
}

/// What a composer action produced.
#[derive(Debug)]
pub enum ComposerOutcome {
    Idle,
    Submit {
        messages: Vec<OutgoingMessage>,
        quote: Option<String>,
        mentions: Vec<Mention>,
        mention_ranges: Vec<(usize, usize)>,
        display_text: String,
        display_mention_ranges: Vec<(usize, usize)>,
        draft: ComposerDraft,
    },
}

impl ComposerOutcome {
    /// Nothing was sent.
    pub fn is_idle(&self) -> (b: bool)
        ensures
            b == (*self is Idle),
    {
        matches!(self, ComposerOutcome::Idle)
    }
}

/// The message composer.
pub struct Composer {
    pub input: InputArea,
    /// The id of the message being replied to.
    pub quote: Option<String>,
    pub pending: Vec<PendingAttachment>,
    pub blocked: bool,
    pub participants: Vec<GroupParticipant>,
    pub mention_picker: Option<MentionPicker>,
    pub mentions: Vec<MentionMark>,
}

/// What Backspace did to the text area: where the cursor is at the very
/// start nothing changed; otherwise (where the area's select-all reaches the
/// end of its text) the text is the old one without the grapheme cluster
/// before the cursor, or without the line break that the cursor follows,
/// as `insert_str` puts it back, and the cursor stands where the removed
/// part began (where that position fits the area's jumps).
pub open spec fn backspaced(before: InputArea, after: InputArea) -> bool {
    let ls = area_lines(before);
    let cursor = area_cursor(before);
    match after_backspace(ls, cursor.0 as int, cursor.1 as int) {
        None => after == before,
        Some(edit) => jump_reaches_end(ls) ==> {
            &&& area_text(after) == crlf_stripped(edit.0)
            &&& match position_from(area_lines(after), 0, edit.1) {
                Some(p) => p.0 <= u16::MAX && p.1 <= u16::MAX ==> area_offset(after) == edit.1,
                None => true,
            }
        },
    }
}

/// The text that submitting sends: the composer's text with its mentions
/// expanded.
pub open spec fn sent_text(text: Seq<char>, marks: Seq<MentionMark>) -> Seq<char> {
    let e = expand_marks(text, sorted_by_start(marks));
    e.0 + text.subrange(e.1, text.len() as int)
}

/// The mention picker fits the text: its "@" and query lie within it.
pub open spec fn picker_fits(picker: Option<MentionPicker>, len: int) -> bool {
    picker matches Some(p) ==> p.start + 1 + p.query@.len() <= len
}

impl Composer {
    /// The composer's text.
    pub open spec fn text_spec(&self) -> Seq<char> {
        area_text(self.input)
    }

    /// The mentions do not end before they start.
    pub open spec fn wf(&self) -> bool {
        marks_ordered(self.mentions@)
    }

    /// The composer's fields other than the text area and the mentions
    /// are those of `other`.
    pub open spec fn same_rest(&self, other: Composer) -> bool {
        &&& self.quote == other.quote
        &&& self.pending@ == other.pending@
        &&& self.blocked == other.blocked
        &&& self.participants@ == other.participants@
    }

    /// An empty composer.
    pub fn new() -> (c: Composer)
        ensures
            c.wf(),
            area_lines(c.input) == seq![Seq::<char>::empty()],
            area_selection(c.input) is None,
            c.quote is None,
            c.pending@.len() == 0,
            !c.blocked,
            c.participants@.len() == 0,
            c.mention_picker is None,
            c.mentions@.len() == 0,
    {
        let mut input = default_area();
        set_placeholder(&mut input, "Type a message...");
        Composer {
            input,
            quote: None,
            pending: Vec::new(),
            blocked: false,
            participants: Vec::new(),
            mention_picker: None,
            mentions: Vec::new(),
        }
    }

    /// The composer's text: its lines joined by newlines.
    pub fn text(&self) -> (t: String)
        ensures
            t@ == self.text_spec(),
    {
        composer_text(lines_of(&self.input).as_slice())
    }

    /// The cursor's character offset in the text.
    pub fn cursor_offset(&self) -> (offset: usize)
        ensures
            offset == area_offset(self.input),
            offset <= self.text_spec().len(),
    {
        let lines = lines_of(&self.input);
        let (row, column) = cursor_of(&self.input);
        let text = composer_text(lines.as_slice());
        let n = text.unicode_len();
        proof {
            lemma_line_within_text(string_views(lines@), row as int);
            assert(string_views(lines@)[row as int] == lines@[row as int]@);
        }
        text_cursor_offset(lines.as_slice(), row, column)
    }

    /// Puts the cursor at a character offset of the text: on the line where
    /// the offset falls (row and column taken as 16-bit values, as the text
    /// area's jumps take them), or at the end past the text.
    pub fn set_cursor_offset(&mut self, offset: usize)
        ensures
            area_lines(final(self).input) == area_lines(old(self).input),
            area_selection(final(self).input) == area_selection(old(self).input),
            final(self).same_rest(*old(self)),
            final(self).mentions@ == old(self).mentions@,
            final(self).mention_picker == old(self).mention_picker,
            match position_from(area_lines(old(self).input), 0, offset as int) {
                Some(p) => p.0 <= u16::MAX && p.1 <= u16::MAX ==> area_cursor(final(self).input) == p,
                None => true,
            },
    {
        let lines = lines_of(&self.input);
        match cursor_position(lines.as_slice(), offset) {
            Some((row, column)) => {
                proof {
                    lemma_position_in_lines(string_views(lines@), 0, offset as int);
                    assert(string_views(lines@)[row as int] == lines@[row as int]@);
                }
                let r: u16 = #[verifier::truncate] (row as u16);
                let c: u16 = #[verifier::truncate] (column as u16);
                jump_to(&mut self.input, r, c);
            },
            None => jump_to(&mut self.input, u16::MAX, u16::MAX),
        }
    }

    /// Opens, moves or closes the mention picker for the word before the
    /// cursor.
    fn refresh_mention_picker(&mut self)
        ensures
            final(self).input == old(self).input,
            final(self).same_rest(*old(self)),
            final(self).mentions@ == old(self).mentions@,
            match final(self).mention_picker {
                Some(p) => picker_at(old(self).text_spec(), area_offset(old(self).input), old(self).participants@)
                    == Some((p.start as int, p.query@)) && p.selected == 0,
                None => picker_at(old(self).text_spec(), area_offset(old(self).input), old(self).participants@) is None,
            },
            picker_fits(final(self).mention_picker, old(self).text_spec().len() as int),
    {
        let offset = self.cursor_offset();
        let text = self.text();
        let picker = mention_picker_for(text.as_str(), offset, self.participants.as_slice());
        proof {
            if picker is Some {
                lemma_picker_fits(text@, offset as int, self.participants@);
            }
        }
        self.mention_picker = picker;
    }

    /// Moves the mentions along the edit from `before` to the current text.
    fn reconcile(&mut self, before: &str)
        requires
            old(self).wf(),
        ensures
            final(self).wf(),
            final(self).input == old(self).input,
            final(self).same_rest(*old(self)),
            final(self).mention_picker == old(self).mention_picker,
            final(self).mentions@ == reconciled(
                old(self).mentions@,
                edit_span(before@, old(self).text_spec()).0,
                edit_span(before@, old(self).text_spec()).1,
                edit_span(before@, old(self).text_spec()).2,
                old(self).text_spec(),
            ),
    {
        let after = self.text();
        reconcile_mentions(&mut self.mentions, before, after.as_str());
    }

    /// Types or pastes a text at the cursor, unless the chat is blocked;
    /// the mentions follow the edit and the picker is refreshed.
    pub fn insert_text(&mut self, text: &str)
        requires
            old(self).wf(),
        ensures
            final(self).wf(),
            old(self).blocked ==> *final(self) == *old(self),
            !old(self).blocked ==> {
                &&& final(self).same_rest(*old(self))
                &&& final(self).mentions@ == reconciled(
                    old(self).mentions@,
                    edit_span(old(self).text_spec(), final(self).text_spec()).0,
                    edit_span(old(self).text_spec(), final(self).text_spec()).1,
                    edit_span(old(self).text_spec(), final(self).text_spec()).2,
                    final(self).text_spec(),
                )
                &&& area_selection(old(self).input) is None ==> final(self).text_spec() == old(self).text_spec().take(
                    area_offset(old(self).input),
                ) + crlf_stripped(text@) + old(self).text_spec().skip(area_offset(old(self).input))
            },
    {
        if self.blocked {
            return;
        }
        let before = self.text();
        insert_str(&mut self.input, text);
        self.reconcile(before.as_str());
        self.refresh_mention_picker();
    }

    /// Empties the text area; the rest of the composer stays.
    pub fn clear_text(&mut self)
        ensures
            final(self).same_rest(*old(self)),
            final(self).mentions@ == old(self).mentions@,
            final(self).mention_picker == old(self).mention_picker,
            jump_reaches_end(area_lines(old(self).input)) ==> {
                &&& area_lines(final(self).input) == seq![Seq::<char>::empty()]
                &&& area_cursor(final(self).input) == (0usize, 0usize)
                &&& area_selection(final(self).input) is None
            },
    {
        let ghost lines = area_lines(self.input);
        let _ = lines_of(&self.input);
        select_all(&mut self.input);
        delete_next_char(&mut self.input);
    }

    /// Replaces the whole text; the mentions follow the edit and the picker
    /// is refreshed.
    pub fn replace_text(&mut self, text: &str)
        requires
            old(self).wf(),
        ensures
            final(self).wf(),
            final(self).same_rest(*old(self)),
            final(self).mentions@ == reconciled(
                old(self).mentions@,
                edit_span(old(self).text_spec(), final(self).text_spec()).0,
                edit_span(old(self).text_spec(), final(self).text_spec()).1,
                edit_span(old(self).text_spec(), final(self).text_spec()).2,
                final(self).text_spec(),
            ),
            jump_reaches_end(area_lines(old(self).input)) ==> final(self).text_spec() == crlf_stripped(text@),
    {
        let before = self.text();
        self.clear_text();
        proof {
            if jump_reaches_end(area_lines(old(self).input)) {
                assert(area_text(self.input) =~= Seq::<char>::empty());
                assert(area_offset(self.input) == 0);
            }
        }
        insert_str(&mut self.input, text);
        proof {
            if jump_reaches_end(area_lines(old(self).input)) {
                assert(area_text(self.input) =~= crlf_stripped(text@));
            }
        }
        self.reconcile(before.as_str());
        self.refresh_mention_picker();
    }

    /// Queues a file to send with the next message, unless the chat is
    /// blocked.
    pub fn queue_attachment(&mut self, path: String, kind: FileKind)
        ensures
            final(self).input == old(self).input,
            final(self).quote == old(self).quote,
            final(self).blocked == old(self).blocked,
            final(self).mentions@ == old(self).mentions@,
            final(self).mention_picker == old(self).mention_picker,
            final(self).participants@ == old(self).participants@,
            old(self).blocked ==> final(self).pending@ == old(self).pending@,
            !old(self).blocked ==> final(self).pending@.len() == old(self).pending@.len() + 1,
            !old(self).blocked ==> final(self).pending@.drop_last() == old(self).pending@,
            !old(self).blocked ==> final(self).pending@.last().path@ == path@,
            !old(self).blocked ==> final(self).pending@.last().kind == kind,
    {
        if self.blocked {
            return;
        }
        self.pending.push(PendingAttachment::new(path, kind));
        proof {
            assert(self.pending@.drop_last() =~= old(self).pending@);
        }
    }

    /// Blocks or unblocks the composer; blocking clears the text, the reply
    /// and the attachments.
    pub fn set_blocked(&mut self, blocked: bool)
        ensures
            final(self).blocked == blocked,
            final(self).participants@ == old(self).participants@,
            final(self).mentions@ == old(self).mentions@,
            final(self).mention_picker == old(self).mention_picker,
            !blocked ==> final(self).input == old(self).input && final(self).quote == old(self).quote
                && final(self).pending@ == old(self).pending@,
            blocked ==> final(self).quote is None && final(self).pending@.len() == 0,
            blocked && jump_reaches_end(area_lines(old(self).input)) ==> area_lines(final(self).input) == seq![
                Seq::<char>::empty(),
            ],
    {
        self.blocked = blocked;
        if blocked {
            self.clear_text();
            self.quote = None;
            self.pending = Vec::new();
        }
    }

    /// Sets the group's members, duplicates merged, and refreshes the
    /// picker.
    pub fn set_group_participants(&mut self, participants: Vec<GroupParticipant>)
        ensures
            final(self).input == old(self).input,
            final(self).quote == old(self).quote,
            final(self).pending@ == old(self).pending@,
            final(self).blocked == old(self).blocked,
            final(self).mentions@ == old(self).mentions@,
            final(self).participants@.map_values(|p: GroupParticipant| pview(p)) == deduplicated(
                participants@.map_values(|p: GroupParticipant| pview(p)),
            ),
    {
        self.participants = deduplicate_group_participants(participants);
        self.refresh_mention_picker();
    }

    /// Whether the mention picker is open.
    pub fn mention_picker_active(&self) -> (b: bool)
        ensures
            b == (self.mention_picker is Some),
    {
        self.mention_picker.is_some()
    }

    /// The names the mention picker offers, in order.
    pub fn mention_picker_labels(&self) -> (labels: Vec<String>)
        ensures
            match self.mention_picker {
                Some(p) => labels@.len() == candidates(self.participants@, p.query@).len() && forall|i: int|
                    0 <= i < labels@.len() ==> (#[trigger] labels@[i])@ == self.participants@[candidates(
                        self.participants@,
                        p.query@,
                    )[i] as int].name@,
                None => labels@.len() == 0,
            },
    {
        let mut labels: Vec<String> = Vec::new();
        match &self.mention_picker {
            Some(p) => {
                let found = mention_candidates(self.participants.as_slice(), p.query.as_str());
                let mut i: usize = 0;
                while i < found.len()
                    invariant
                        0 <= i <= found.len(),
                        labels@.len() == i,
                        found@ == candidates(self.participants@, p.query@),
                        forall|a: int| 0 <= a < found.len() ==> (#[trigger] found@[a] as int) < self.participants.len(),
                        forall|j: int| 0 <= j < i ==> (#[trigger] labels@[j])@ == self.participants@[found@[j] as int].name@,
                    decreases found.len() - i,
                {
                    labels.push(self.participants[found[i]].name.clone());
                    i += 1;
                }
            },
            None => {},
        }
        labels
    }

    /// The selected row of the mention picker, 0 when it is closed.
    pub fn mention_picker_selected(&self) -> (s: usize)
        ensures
            s == match self.mention_picker {
                Some(p) => p.selected,
                None => 0,
            },
    {
        match &self.mention_picker {
            Some(p) => p.selected,
            None => 0,
        }
    }

    /// Moves the picker's selection by `delta` rows, wrapping around its
    /// candidates.
    pub fn move_mention_selection(&mut self, delta: isize)
        ensures
            final(self).input == old(self).input,
            final(self).same_rest(*old(self)),
            final(self).mentions@ == old(self).mentions@,
            match old(self).mention_picker {
                None => final(self).mention_picker is None,
                Some(p) => final(self).mention_picker matches Some(q) && q.start == p.start && q.query@ == p.query@
                    && ({
                    let count = candidates(old(self).participants@, p.query@).len();
                    (count > 0 && p.selected <= isize::MAX && p.selected + delta <= isize::MAX && count
                        <= isize::MAX) ==> q.selected == (p.selected + delta) % (count as int)
                }),
            },
    {
        let count = match &self.mention_picker {
            Some(p) => mention_candidates(self.participants.as_slice(), p.query.as_str()).len(),
            None => return,
        };
        match &mut self.mention_picker {
            Some(p) => {
                let max = isize::MAX as usize;
                if count > 0 && count <= max && p.selected <= max {
                    let s = p.selected as isize;
                    if delta <= isize::MAX - s {
                        p.selected = moved_mention_selection(p.selected, delta, count);
                    }
                }
            },
            None => {},
        }
    }

    /// Closes the mention picker.
    pub fn cancel_mention_picker(&mut self)
        ensures
            final(self).input == old(self).input,
            final(self).same_rest(*old(self)),
            final(self).mentions@ == old(self).mentions@,
            final(self).mention_picker is None,
    {
        self.mention_picker = None;
    }

    /// Inserts the selected candidate of the picker: "@query" becomes
    /// "@name ", the cursor goes after it, and a mark covers "@name".
    pub fn confirm_mention(&mut self)
        requires
            old(self).wf(),
            picker_fits(old(self).mention_picker, old(self).text_spec().len() as int),
        ensures
            final(self).wf(),
            final(self).same_rest(*old(self)),
            match old(self).mention_picker {
                None => *final(self) == *old(self),
                Some(p) => {
                    let found = candidates(old(self).participants@, p.query@);
                    if p.selected < found.len() && p.start + old(self).participants@[found[p.selected as int] as int].name@.len() + 2 <= usize::MAX {
                        let who = old(self).participants@[found[p.selected as int] as int];
                        &&& final(self).mentions@.len() >= 1
                        &&& final(self).mentions@.last().start == p.start
                        &&& final(self).mentions@.last().participant == who
                        &&& jump_reaches_end(area_lines(old(self).input)) ==> final(self).text_spec() == crlf_stripped(
                            confirmed_text(old(self).text_spec(), p.start as int, p.query@.len() as int, who.name@),
                        )
                    } else {
                        final(self).mention_picker is None && final(self).input == old(self).input
                            && final(self).mentions@ == old(self).mentions@
                    }
                },
            },
    {
        let picker = match self.mention_picker.take() {
            Some(p) => p,
            None => return,
        };
        let found = mention_candidates(self.participants.as_slice(), picker.query.as_str());
        if picker.selected >= found.len() {
            return;
        }
        let participant = copy_participant(&self.participants[found[picker.selected]]);
        if picker.start > usize::MAX - 2 || participant.name.as_str().unicode_len() > usize::MAX - 2 - picker.start {
            return;
        }
        let text = self.text();
        let confirmed = confirm_mention_edit(text.as_str(), &picker, &participant);
        self.replace_text(confirmed.text.as_str());
        self.set_cursor_offset(confirmed.cursor);
        let ghost before = self.mentions@;
        self.mentions.push(confirmed.mark);
        proof {
            assert forall|i: int| 0 <= i < self.mentions@.len() implies (#[trigger] self.mentions@[i]).start
                <= self.mentions@[i].end by {
                if i < before.len() {
                    assert(self.mentions@[i] == before[i]);
                }
            }
        }
        self.refresh_mention_picker();
    }

    /// Whether nothing is written and nothing attached.
    pub fn is_empty(&self) -> (b: bool)
        ensures
            b == ((forall|i: int| 0 <= i < area_lines(self.input).len() ==> (#[trigger] area_lines(self.input)[i]).len()
                == 0) && self.pending@.len() == 0),
    {
        let lines = lines_of(&self.input);
        let mut i: usize = 0;
        while i < lines.len()
            invariant
                0 <= i <= lines.len(),
                string_views(lines@) == area_lines(self.input),
                forall|j: int| 0 <= j < i ==> (#[trigger] area_lines(self.input)[j]).len() == 0,
            decreases lines.len() - i,
        {
            assert(area_lines(self.input)[i as int] == lines@[i as int]@);
            if lines[i].as_str().unicode_len() != 0 {
                return false;
            }
            i += 1;
        }
        self.pending.len() == 0
    }

    /// Whether the mentions can be expanded for a submit: taken in the order
    /// they start, none starts inside the previous one.
    pub fn submittable(&self) -> (b: bool)
        ensures
            b == marks_disjoint(self.text_spec(), sorted_by_start(self.mentions@)),
    {
        let text = self.text();
        mentions_expandable(text.as_str(), self.mentions.as_slice())
    }

    /// Submits the text: nothing for a blank text without attachments;
    /// otherwise the messages go out with the mentions expanded, and the
    /// text, the attachments, the mentions, the picker and the reply are
    /// cleared.
    fn submit(&mut self) -> (o: ComposerOutcome)
        requires
            old(self).wf(),
            marks_disjoint(old(self).text_spec(), sorted_by_start(old(self).mentions@)),
        ensures
            final(self).wf(),
            final(self).blocked == old(self).blocked,
            final(self).participants@ == old(self).participants@,
            (trimmed(sent_text(old(self).text_spec(), old(self).mentions@)).len() == 0 && old(self).pending@.len()
                == 0) ==> o is Idle && *final(self) == *old(self),
            !(trimmed(sent_text(old(self).text_spec(), old(self).mentions@)).len() == 0 && old(self).pending@.len()
                == 0) ==> submitted_outcome(*old(self), *final(self), o),
    {
        let display = self.text();
        let expansion = expanded_text(display.as_str(), self.mentions.as_slice());
        let messages = match submission_messages(expansion.text.as_str(), self.pending.as_slice()) {
            Some(m) => m,
            None => return ComposerOutcome::Idle,
        };
        let mut kept: Vec<MentionMark> = Vec::new();
        let mut i: usize = 0;
        while i < self.mentions.len()
            invariant
                0 <= i <= self.mentions.len(),
                kept@ == self.mentions@.take(i as int),
            decreases self.mentions.len() - i,
        {
            kept.push(copy_mark(&self.mentions[i]));
            proof {
                assert(kept@ =~= self.mentions@.take(i + 1));
            }
            i += 1;
        }
        proof {
            assert(self.mentions@.take(self.mentions.len() as int) =~= self.mentions@);
        }
        let quote = self.quote.take();
        let draft_quote = match &quote {
            Some(q) => Some(q.clone()),
            None => None,
        };
        let draft = ComposerDraft { text: display.clone(), quote: draft_quote, mentions: kept };
        self.pending = Vec::new();
        self.clear_text();
        self.mentions = Vec::new();
        self.mention_picker = None;
        ComposerOutcome::Submit {
            messages,
            quote,
            mentions: expansion.mentions,
            mention_ranges: expansion.mention_ranges,
            display_text: display,
            display_mention_ranges: expansion.display_ranges,
            draft,
        }
    }

    /// Applies a composer action. A blocked composer does nothing. Submit
    /// sends; a new line goes in at the cursor; an edit key goes to the
    /// text area (Backspace removes the grapheme cluster before the cursor)
    /// and the mentions follow the edit; the last attachment or the reply
    /// can be dropped.
    pub fn apply(&mut self, action: ComposerAction) -> (o: ComposerOutcome)
        requires
            old(self).wf(),
            action is Submit && !old(self).blocked ==> marks_disjoint(
                old(self).text_spec(),
                sorted_by_start(old(self).mentions@),
            ),
        ensures
            final(self).wf(),
            old(self).blocked ==> o is Idle && *final(self) == *old(self),
            !old(self).blocked ==> match action {
                ComposerAction::Submit => if trimmed(sent_text(old(self).text_spec(), old(self).mentions@)).len() == 0
                    && old(self).pending@.len() == 0 {
                    o is Idle && *final(self) == *old(self)
                } else {
                    submitted_outcome(*old(self), *final(self), o)
                },
                ComposerAction::InsertNewline => {
                    &&& o is Idle
                    &&& final(self).same_rest(*old(self))
                    &&& final(self).mentions@ == old(self).mentions@
                    &&& area_selection(old(self).input) is None ==> final(self).text_spec() == old(self).text_spec().take(
                        area_offset(old(self).input),
                    ) + seq!['\n'] + old(self).text_spec().skip(area_offset(old(self).input))
                },
                ComposerAction::Edit(key) => {
                    &&& key.code == KeyCode::Backspace ==> backspaced(old(self).input, final(self).input)
                    &&& o is Idle
                    &&& final(self).same_rest(*old(self))
                    &&& final(self).mentions@ == reconciled(
                        old(self).mentions@,
                        edit_span(old(self).text_spec(), final(self).text_spec()).0,
                        edit_span(old(self).text_spec(), final(self).text_spec()).1,
                        edit_span(old(self).text_spec(), final(self).text_spec()).2,
                        final(self).text_spec(),
                    )
                },
                ComposerAction::RemoveLastAttachment => {
                    &&& o is Idle
                    &&& final(self).input == old(self).input
                    &&& final(self).pending@ == (if old(self).pending@.len() > 0 {
                        old(self).pending@.drop_last()
                    } else {
                        old(self).pending@
                    })
                    &&& final(self).quote == old(self).quote
                    &&& final(self).mentions@ == old(self).mentions@
                },
                ComposerAction::CancelReply => {
                    &&& o is Idle
                    &&& final(self).input == old(self).input
                    &&& final(self).quote is None
                    &&& final(self).pending@ == old(self).pending@
                    &&& final(self).mentions@ == old(self).mentions@
                },
                _ => o is Idle && *final(self) == *old(self),
            },
    {
        if self.blocked {
            return ComposerOutcome::Idle;
        }
        match action {
            ComposerAction::Submit => self.submit(),
            ComposerAction::InsertNewline => {
                insert_newline(&mut self.input);
                ComposerOutcome::Idle
            },
            ComposerAction::Edit(key) => {
                let before = self.text();
                if key.code == KeyCode::Backspace {
                    self.delete_previous_grapheme();
                } else {
                    input_key(&mut self.input, key);
                }
                self.reconcile(before.as_str());
                self.refresh_mention_picker();
                ComposerOutcome::Idle
            },
            ComposerAction::RemoveLastAttachment => {
                let _ = self.pending.pop();
                ComposerOutcome::Idle
            },
            ComposerAction::CancelReply => {
                self.quote = None;
                ComposerOutcome::Idle
            },
            _ => ComposerOutcome::Idle,
        }
    }

    /// Removes the grapheme cluster before the cursor, or the line break
    /// where the cursor starts a line.
    fn delete_previous_grapheme(&mut self)
        ensures
            final(self).same_rest(*old(self)),
            final(self).mentions@ == old(self).mentions@,
            final(self).mention_picker == old(self).mention_picker,
            backspaced(old(self).input, final(self).input),
    {
        let lines = lines_of(&self.input);
        let (row, column) = cursor_of(&self.input);
        proof {
            assert(string_views(lines@)[row as int] == lines@[row as int]@);
        }
        match text_without_previous_grapheme(lines.as_slice(), row, column) {
            Some((text, cursor)) => {
                let ghost fits = jump_reaches_end(area_lines(self.input));
                self.clear_text();
                proof {
                    if fits {
                        assert(area_text(self.input) =~= Seq::<char>::empty());
                        assert(area_offset(self.input) == 0);
                    }
                }
                insert_str(&mut self.input, text.as_str());
                proof {
                    if fits {
                        assert(area_text(self.input) =~= crlf_stripped(text@));
                    }
                }
                let mid_lines = lines_of(&self.input);
                let ghost mid = area_lines(self.input);
                assert(mid.len() == mid_lines@.len());
                self.set_cursor_offset(cursor);
                proof {
                    match position_from(mid, 0, cursor as int) {
                        Some(p) => {
                            lemma_position_offset(mid, 0, cursor as int);
                        },
                        None => {},
                    }
                }
            },
            None => {},
        }
    }

    /// Restores a draft after a failed send: its text, reply and mentions.
    pub fn restore_text_draft(&mut self, draft: ComposerDraft)
        requires
            old(self).wf(),
            marks_ordered(draft.mentions@),
        ensures
            final(self).wf(),
            final(self).quote == draft.quote,
            final(self).mentions@ == draft.mentions@,
            final(self).pending@ == old(self).pending@,
            final(self).blocked == old(self).blocked,
            jump_reaches_end(area_lines(old(self).input)) ==> final(self).text_spec() == crlf_stripped(draft.text@),
    {
        self.replace_text(draft.text.as_str());
        self.quote = draft.quote;
        self.mentions = draft.mentions;
        self.refresh_mention_picker();
    }
}

/// A submit that went out: the messages carry the text with its mentions
/// expanded and the attachments; the text area is emptied (where a jump
/// reaches its end), and the attachments, mentions, picker and reply are
/// cleared; the reply goes with the messages.
pub open spec fn submitted_outcome(before: Composer, after: Composer, o: ComposerOutcome) -> bool {
    &&& o matches ComposerOutcome::Submit { messages, quote, display_text, .. } && submitted(
        sent_text(before.text_spec(), before.mentions@),
        before.pending@,
        messages@,
    ) && quote == before.quote && display_text@ == before.text_spec()
    &&& after.pending@.len() == 0
    &&& after.mentions@.len() == 0
    &&& after.mention_picker is None
    &&& after.quote is None
    &&& after.blocked == before.blocked
    &&& jump_reaches_end(area_lines(before.input)) ==> after.text_spec().len() == 0
}

proof fn lemma_picker_fits(text: Seq<char>, offset: int, ps: Seq<GroupParticipant>)
    requires
        0 <= offset <= text.len(),
        picker_at(text, offset, ps) is Some,
    ensures
        picker_at(text, offset, ps)->Some_0.0 + 1 + picker_at(text, offset, ps)->Some_0.1.len() <= text.len(),
{
    crate::mentions::lemma_word_start_bounds(text, offset);
}

proof fn lemma_position_in_lines(lines: Seq<Seq<char>>, row: int, remaining: int)
    requires
        0 <= row,
        0 <= remaining <= usize::MAX,
        lines.len() <= usize::MAX,
    ensures
        position_from(lines, row, remaining) matches Some(p) ==> (p.0 as int) < lines.len() && (p.1 as int)
            <= lines[p.0 as int].len(),
    decreases lines.len() - row,
{
    if row < lines.len() && remaining > lines[row].len() {
        lemma_position_in_lines(lines, row + 1, remaining - lines[row].len() - 1);
    }
}

proof fn lemma_position_offset(lines: Seq<Seq<char>>, row: int, remaining: int)
    requires
        0 <= row,
        0 <= remaining <= usize::MAX,
        lines.len() <= usize::MAX,
    ensures
        position_from(lines, row, remaining) matches Some(p) ==> line_start(lines, p.0 as int) - line_start(lines, row)
            + p.1 == remaining,
    decreases lines.len() - row,
{
    if row < lines.len() && remaining > lines[row].len() {
        lemma_position_offset(lines, row + 1, remaining - lines[row].len() - 1);
        assert(line_start(lines, row + 1) == line_start(lines, row) + lines[row].len() + 1);
    }
}

} // verus!
