//! The composer's text model: the cursor as a character offset into the
//! joined lines, and the group mentions placed in the text, which follow
//! edits, are dropped when their text is touched, and are expanded to wire
//! form on submit.
use vstd::prelude::*;
use vstd::string::StrSliceExecFns;
use vstd::string::StringExecFns;

use unicode_segmentation::UnicodeSegmentation;

use crate::avatar_window::string_views;
use crate::contacts::{end_trimmed, trim_text, trimmed, white_space};
use crate::events::FileKind;

verus! {

/// A member of a group, by JID, phone-number JID and name; either JID may
/// be empty.
#[derive(Debug)]
pub struct GroupParticipant {
    pub jid: String,
    pub phone_number: String,
    pub name: String,
}

/// A copy of a participant.
pub fn copy_participant(p: &GroupParticipant) -> (c: GroupParticipant)
    ensures
        c == *p,
{
    GroupParticipant { jid: p.jid.clone(), phone_number: p.phone_number.clone(), name: p.name.clone() }
}

/// A mention placed in the text: the characters `start..end` show
/// "@name" of the participant.
#[derive(Debug)]
pub struct MentionMark {
    pub start: usize,
    pub end: usize,
    pub participant: GroupParticipant,
}

/// A copy of a mark.
pub fn copy_mark(m: &MentionMark) -> (c: MentionMark)
    ensures
        c == *m,
{
    MentionMark { start: m.start, end: m.end, participant: copy_participant(&m.participant) }
}

/// The character offset where line `row` starts in the lines joined by
/// newlines; rows past the end count as the end of the last line plus one.
pub open spec fn line_start(lines: Seq<Seq<char>>, row: int) -> int
    decreases row,
{
    if row <= 0 {
        0
    } else if row > lines.len() {
        line_start(lines, lines.len() as int)
    } else {
        line_start(lines, row - 1) + lines[row - 1].len() + 1
    }
}

/// Later lines start later.
pub proof fn lemma_line_start_grows(lines: Seq<Seq<char>>, a: int, b: int)
    requires
        0 <= a <= b <= lines.len(),
    ensures
        0 <= line_start(lines, a) <= line_start(lines, b),
    decreases b,
{
    if a < b {
        lemma_line_start_grows(lines, a, b - 1);
    } else if a > 0 {
        lemma_line_start_grows(lines, a - 1, a - 1);
    }
}

/// The character offset of the cursor at `row`, `column` in the joined
/// text.
pub fn cursor_offset(lines: &[String], row: usize, column: usize) -> (offset: usize)
    requires
        line_start(string_views(lines@), row as int) + column <= usize::MAX,
    ensures
        offset == line_start(string_views(lines@), row as int) + column,
{
    let ghost ls = string_views(lines@);
    let upto = if row < lines.len() {
        row
    } else {
        lines.len()
    };
    proof {
        assert(line_start(ls, row as int) == line_start(ls, upto as int));
        lemma_line_start_grows(ls, 0, upto as int);
    }
    let mut sum: usize = 0;
    let mut r: usize = 0;
    while r < upto
        invariant
            0 <= r <= upto <= lines.len(),
            ls == string_views(lines@),
            sum == line_start(ls, r as int),
            line_start(ls, upto as int) + column <= usize::MAX,
        decreases upto - r,
    {
        proof {
            lemma_line_start_grows(ls, r + 1, upto as int);
        }
        let n = lines[r].unicode_len();
        sum = sum + n + 1;
        r += 1;
    }
    sum + column
}

/// The row and column of the character offset `remaining`, looked for
/// from line `row` on; `None` past the end of the text.
pub open spec fn position_from(lines: Seq<Seq<char>>, row: int, remaining: int) -> Option<(usize, usize)>
    decreases lines.len() - row,
{
    if row < 0 || row >= lines.len() {
        None
    } else if remaining <= lines[row].len() {
        Some((row as usize, remaining as usize))
    } else {
        position_from(lines, row + 1, remaining - lines[row].len() - 1)
    }
}

/// The row and column of a character offset in the joined lines: the
/// first line whose end it does not pass. `None` where the offset is past
/// the end of the text, for the caller to put the cursor at the end.
pub fn cursor_position(lines: &[String], offset: usize) -> (pos: Option<(usize, usize)>)
    ensures
        pos == position_from(string_views(lines@), 0, offset as int),
{
    let ghost ls = string_views(lines@);
    let mut remaining: usize = offset;
    let mut row: usize = 0;
    while row < lines.len()
        invariant
            0 <= row <= lines.len(),
            ls == string_views(lines@),
            position_from(ls, row as int, remaining as int) == position_from(ls, 0, offset as int),
        decreases lines.len() - row,
    {
        let length = lines[row].unicode_len();
        if remaining <= length {
            return Some((row, remaining));
        }
        remaining = remaining - (length + 1);
        row += 1;
    }
    None
}

proof fn lemma_position_from(lines: Seq<Seq<char>>, k: int, row: int, column: int)
    requires
        0 <= k <= row < lines.len(),
        0 <= column <= lines[row].len(),
        row <= usize::MAX,
    ensures
        position_from(lines, k, line_start(lines, row) - line_start(lines, k) + column) == Some(
            (row as usize, column as usize),
        ),
    decreases row - k,
{
    lemma_line_start_grows(lines, k, row);
    if k < row {
        lemma_line_start_grows(lines, k + 1, row);
        lemma_position_from(lines, k + 1, row, column);
    }
}

/// Placing the cursor by the offset that a position gives puts it back at
/// that position.
pub proof fn lemma_cursor_round_trip(lines: Seq<String>, row: usize, column: usize)
    requires
        (row as int) < lines.len(),
        column <= lines[row as int]@.len(),
    ensures
        position_from(string_views(lines), 0, line_start(string_views(lines), row as int) + column) == Some(
            (row, column),
        ),
{
    let ls = string_views(lines);
    assert(ls[row as int] == lines[row as int]@);
    lemma_position_from(ls, 0, row as int, column as int);
}

/// The characters of a text.
pub fn chars_of(s: &str) -> (v: Vec<char>)
    ensures
        v@ == s@,
{
    let n = s.unicode_len();
    let mut v: Vec<char> = Vec::new();
    let mut i: usize = 0;
    while i < n
        invariant
            0 <= i <= n,
            n == s@.len(),
            v@ == s@.take(i as int),
        decreases n - i,
    {
        v.push(s.get_char(i));
        proof {
            assert(v@ =~= s@.take(i + 1));
        }
        i += 1;
    }
    proof {
        assert(s@.take(n as int) =~= s@);
    }
    v
}

/// The length of the common beginning of `a` and `b`, counted from `i` on.
pub open spec fn prefix_from(a: Seq<char>, b: Seq<char>, i: int) -> int
    decreases a.len() - i,
{
    if 0 <= i < a.len() && i < b.len() && a[i] == b[i] {
        prefix_from(a, b, i + 1)
    } else {
        i
    }
}

/// The ends of the edited parts of `a` and `b` once their common ending
/// is taken off, not reaching back into the common beginning `p`, from
/// the ends `x` and `y` on.
pub open spec fn changed_ends(a: Seq<char>, b: Seq<char>, p: int, x: int, y: int) -> (int, int)
    decreases x,
{
    if x > p && y > p && 0 < x <= a.len() && 0 < y <= b.len() && a[x - 1] == b[y - 1] {
        changed_ends(a, b, p, x - 1, y - 1)
    } else {
        (x, y)
    }
}

/// What an edit from `before` to `after` changed: the length of the
/// untouched beginning, and where the changed parts end in the old and in
/// the new text.
pub open spec fn edit_span(before: Seq<char>, after: Seq<char>) -> (int, int, int) {
    let p = prefix_from(before, after, 0);
    let e = changed_ends(before, after, p, before.len() as int, after.len() as int);
    (p, e.0, e.1)
}

proof fn lemma_prefix_bounds(a: Seq<char>, b: Seq<char>, i: int)
    requires
        0 <= i <= a.len(),
        i <= b.len(),
    ensures
        i <= prefix_from(a, b, i) <= a.len(),
        prefix_from(a, b, i) <= b.len(),
    decreases a.len() - i,
{
    if i < a.len() && i < b.len() && a[i] == b[i] {
        lemma_prefix_bounds(a, b, i + 1);
    }
}

proof fn lemma_changed_ends_bounds(a: Seq<char>, b: Seq<char>, p: int, x: int, y: int)
    requires
        0 <= p <= x <= a.len(),
        p <= y <= b.len(),
    ensures
        p <= changed_ends(a, b, p, x, y).0 <= x,
        p <= changed_ends(a, b, p, x, y).1 <= y,
        x - changed_ends(a, b, p, x, y).0 == y - changed_ends(a, b, p, x, y).1,
    decreases x,
{
    if x > p && y > p && 0 < x <= a.len() && 0 < y <= b.len() && a[x - 1] == b[y - 1] {
        lemma_changed_ends_bounds(a, b, p, x - 1, y - 1);
    }
}

/// The mark after an edit that kept the first `p` characters and changed
/// the old characters before `old_end` into the new ones before
/// `new_end`: shifted where it lies after the change, kept where it lies
/// before it, gone where the change touched it (or where it would move
/// past the largest index).
pub open spec fn shifted_mark(m: MentionMark, p: int, old_end: int, new_end: int) -> Option<MentionMark> {
    if old_end <= m.start && m.end - old_end + new_end > usize::MAX {
        None
    } else if old_end <= m.start {
        Some(
            MentionMark {
                start: (m.start - old_end + new_end) as usize,
                end: (m.end - old_end + new_end) as usize,
                participant: m.participant,
            },
        )
    } else if p >= m.end {
        Some(m)
    } else {
        None
    }
}

/// The mark still shows "@name" of its participant in `text`.
pub open spec fn mark_intact(m: MentionMark, text: Seq<char>) -> bool {
    m.end <= text.len() && text.subrange(m.start as int, m.end as int) == seq!['@'] + m.participant.name@
}

/// The marks after an edit, in their order: each shifted, and kept only
/// where it still shows its mention.
pub open spec fn reconciled(marks: Seq<MentionMark>, p: int, old_end: int, new_end: int, text: Seq<char>) -> Seq<
    MentionMark,
>
    decreases marks.len(),
{
    if marks.len() == 0 {
        Seq::empty()
    } else {
        let rest = reconciled(marks.drop_last(), p, old_end, new_end, text);
        match shifted_mark(marks.last(), p, old_end, new_end) {
            Some(m) => if mark_intact(m, text) {
                rest.push(m)
            } else {
                rest
            },
            None => rest,
        }
    }
}

/// The marks lie within a text of `n` characters.
pub open spec fn marks_within(marks: Seq<MentionMark>, n: int) -> bool {
    forall|i: int| 0 <= i < marks.len() ==> (#[trigger] marks[i]).end <= n
}

/// Marks do not end before they start.
pub open spec fn marks_ordered(marks: Seq<MentionMark>) -> bool {
    forall|i: int| 0 <= i < marks.len() ==> (#[trigger] marks[i]).start <= marks[i].end
}

fn shows_mention(m: &MentionMark, text: &Vec<char>) -> (r: bool)
    requires
        m.start <= m.end,
    ensures
        r == mark_intact(*m, text@),
{
    if m.end > text.len() {
        return false;
    }
    let name = chars_of(m.participant.name.as_str());
    if m.end == m.start || m.end - m.start - 1 != name.len() {
        proof {
            assert(text@.subrange(m.start as int, m.end as int).len() != (seq!['@'] + m.participant.name@).len());
        }
        return false;
    }
    if text[m.start] != '@' {
        proof {
            assert(text@.subrange(m.start as int, m.end as int)[0] != (seq!['@'] + m.participant.name@)[0]);
        }
        return false;
    }
    let mut i: usize = 0;
    while i < name.len()
        invariant
            0 <= i <= name.len(),
            name@ == m.participant.name@,
            m.end <= text.len(),
            m.end - m.start == name.len() + 1,
            forall|j: int| 0 <= j < i ==> text@[m.start + 1 + j] == name@[j],
        decreases name.len() - i,
    {
        if text[m.start + 1 + i] != name[i] {
            proof {
                assert(text@.subrange(m.start as int, m.end as int)[1 + i] != (seq!['@'] + m.participant.name@)[1
                    + i]);
            }
            return false;
        }
        i += 1;
    }
    proof {
        assert(text@.subrange(m.start as int, m.end as int) =~= seq!['@'] + m.participant.name@);
    }
    true
}

/// Moves the marks along an edit of the text from `before` to `after`:
/// marks after the changed part shift with it, marks before it stay, marks
/// it touched are dropped, and so is any mark that no longer shows
/// "@name" of its participant.
pub fn reconcile_mentions(marks: &mut Vec<MentionMark>, before: &str, after: &str)
    requires
        marks_ordered(old(marks)@),
    ensures
        final(marks)@ == reconciled(
            old(marks)@,
            edit_span(before@, after@).0,
            edit_span(before@, after@).1,
            edit_span(before@, after@).2,
            after@,
        ),
        marks_ordered(final(marks)@),
        marks_within(final(marks)@, after@.len() as int),
{
    let old_text = chars_of(before);
    let new_text = chars_of(after);
    let mut prefix: usize = 0;
    while prefix < old_text.len() && prefix < new_text.len() && old_text[prefix] == new_text[prefix]
        invariant
            0 <= prefix <= old_text.len(),
            prefix <= new_text.len(),
            prefix_from(old_text@, new_text@, prefix as int) == prefix_from(old_text@, new_text@, 0),
        decreases old_text.len() - prefix,
    {
        prefix += 1;
    }
    let mut old_end: usize = old_text.len();
    let mut new_end: usize = new_text.len();
    while old_end > prefix && new_end > prefix && old_text[old_end - 1] == new_text[new_end - 1]
        invariant
            prefix <= old_end <= old_text.len(),
            prefix <= new_end <= new_text.len(),
            prefix == prefix_from(old_text@, new_text@, 0),
            changed_ends(old_text@, new_text@, prefix as int, old_end as int, new_end as int) == changed_ends(
                old_text@,
                new_text@,
                prefix as int,
                old_text.len() as int,
                new_text.len() as int,
            ),
        decreases old_end,
    {
        old_end -= 1;
        new_end -= 1;
    }
    proof {
        lemma_prefix_bounds(old_text@, new_text@, 0);
        lemma_changed_ends_bounds(old_text@, new_text@, prefix as int, old_text.len() as int, new_text.len() as int);
    }
    let ghost olds = marks@;
    let mut kept: Vec<MentionMark> = Vec::new();
    let mut i: usize = 0;
    while i < marks.len()
        invariant
            0 <= i <= marks.len(),
            marks@ == olds,
            marks_ordered(olds),
            prefix <= old_end <= old_text.len(),
            prefix <= new_end <= new_text.len(),
            old_text.len() - old_end == new_text.len() - new_end,
            marks_within(kept@, new_text.len() as int),
            kept@ == reconciled(olds.take(i as int), prefix as int, old_end as int, new_end as int, new_text@),
            marks_ordered(kept@),
        decreases marks.len() - i,
    {
        let m = &marks[i];
        assert(olds[i as int].start <= olds[i as int].end);
        proof {
            assert(olds.take(i + 1).drop_last() =~= olds.take(i as int));
            assert(olds.take(i + 1).last() == olds[i as int]);
        }
        let moved: Option<MentionMark> = if old_end <= m.start && m.end - old_end > usize::MAX - new_end {
            None
        } else if old_end <= m.start {
            Some(
                MentionMark {
                    start: m.start - old_end + new_end,
                    end: m.end - old_end + new_end,
                    participant: copy_participant(&m.participant),
                },
            )
        } else if prefix >= m.end {
            Some(copy_mark(m))
        } else {
            None
        };
        match moved {
            Some(n) => {
                if shows_mention(&n, &new_text) {
                    kept.push(n);
                }
            },
            None => {},
        }
        i += 1;
    }
    proof {
        assert(olds.take(olds.len() as int) =~= olds);
    }
    *marks = kept;
}

/// The number of bytes that UTF-8 takes for a character.
pub open spec fn utf8_width(c: char) -> int {
    if (c as u32) < 0x80 {
        1
    } else if (c as u32) < 0x800 {
        2
    } else if (c as u32) < 0x10000 {
        3
    } else {
        4
    }
}

/// The number of bytes of a text in UTF-8.
pub open spec fn utf8_len(s: Seq<char>) -> int
    decreases s.len(),
{
    if s.len() == 0 {
        0
    } else {
        utf8_len(s.drop_last()) + utf8_width(s.last())
    }
}

/// Calls `str::len`, which counts the bytes of the text's UTF-8 encoding.
#[verifier::external_body]
fn byte_len(s: &str) -> (n: usize)
    ensures
        n == utf8_len(s@),
{
    s.len()
}

/// A mention as sent: the participant's JID and the user part that the
/// text shows after "@".
#[derive(Debug)]
pub struct Mention {
    pub jid: String,
    pub numeric_user: String,
}

/// The text to send for the composer's text and marks, with what it
/// mentions: the byte ranges of the mentions in the text sent, and in the
/// text shown.
#[derive(Debug)]
pub struct Expansion {
    pub text: String,
    pub mentions: Vec<Mention>,
    pub mention_ranges: Vec<(usize, usize)>,
    pub display_ranges: Vec<(usize, usize)>,
}

/// The user part of a JID: what comes before its first "@".
pub open spec fn jid_user(jid: Seq<char>) -> Seq<char>
    decreases jid.len(),
{
    if jid.len() == 0 {
        Seq::empty()
    } else if jid[0] == '@' {
        Seq::empty()
    } else {
        seq![jid[0]] + jid_user(jid.drop_first())
    }
}

proof fn lemma_jid_user_take(jid: Seq<char>, i: int)
    requires
        0 <= i <= jid.len(),
        forall|j: int| 0 <= j < i ==> jid[j] != '@',
        i == jid.len() || jid[i] == '@',
    ensures
        jid_user(jid) == jid.take(i),
    decreases i,
{
    if i > 0 {
        lemma_jid_user_take(jid.drop_first(), i - 1);
        assert(jid.take(i) =~= seq![jid[0]] + jid.drop_first().take(i - 1));
    } else if jid.len() > 0 {
        assert(jid.take(0) =~= Seq::<char>::empty());
    }
}

fn user_part(jid: &str) -> (u: &str)
    ensures
        u@ == jid_user(jid@),
{
    let n = jid.unicode_len();
    let mut i: usize = 0;
    while i < n && jid.get_char(i) != '@'
        invariant
            0 <= i <= n,
            n == jid@.len(),
            forall|j: int| 0 <= j < i ==> jid@[j] != '@',
        decreases n - i,
    {
        i += 1;
    }
    proof {
        lemma_jid_user_take(jid@, i as int);
    }
    jid.substring_char(0, i)
}

/// `x` placed after every mark of `s` that starts no later.
pub open spec fn insert_by_start(s: Seq<MentionMark>, x: MentionMark) -> Seq<MentionMark>
    decreases s.len(),
{
    if s.len() == 0 {
        seq![x]
    } else if x.start < s[0].start {
        seq![x] + s
    } else {
        seq![s[0]] + insert_by_start(s.drop_first(), x)
    }
}

/// The marks sorted by where they start; marks that start together keep
/// their order.
pub open spec fn sorted_by_start(marks: Seq<MentionMark>) -> Seq<MentionMark>
    decreases marks.len(),
{
    if marks.len() == 0 {
        Seq::empty()
    } else {
        insert_by_start(sorted_by_start(marks.drop_last()), marks.last())
    }
}

proof fn lemma_insert_by_start(s: Seq<MentionMark>, x: MentionMark, p: int)
    requires
        0 <= p <= s.len(),
        forall|a: int| 0 <= a < p ==> s[a].start <= x.start,
        p == s.len() || x.start < s[p].start,
    ensures
        insert_by_start(s, x) == s.insert(p, x),
    decreases p,
{
    if p == 0 {
        if s.len() == 0 {
            assert(s.insert(0, x) =~= seq![x]);
        } else {
            assert(s.insert(0, x) =~= seq![x] + s);
        }
    } else {
        lemma_insert_by_start(s.drop_first(), x, p - 1);
        assert(s.insert(p, x) =~= seq![s[0]] + s.drop_first().insert(p - 1, x));
    }
}

/// The expansion so far: the text sent, the index of the first character
/// not yet taken, the mentions as (JID, user), and the byte ranges in the
/// text sent and in the text shown.
pub type ExpansionModel = (Seq<char>, int, Seq<(Seq<char>, Seq<char>)>, Seq<(int, int)>, Seq<(int, int)>);

/// The mark is expanded: it lies in the text, is not empty and starts with
/// "@".
pub open spec fn mark_usable(m: MentionMark, text: Seq<char>) -> bool {
    m.end <= text.len() && m.start < m.end && text[m.start as int] == '@'
}

/// The expansion after the marks `s`, taken in order.
pub open spec fn expand_marks(text: Seq<char>, s: Seq<MentionMark>) -> ExpansionModel
    decreases s.len(),
{
    if s.len() == 0 {
        (Seq::empty(), 0, Seq::empty(), Seq::empty(), Seq::empty())
    } else {
        let e = expand_marks(text, s.drop_last());
        let m = s.last();
        if mark_usable(m, text) {
            let before = e.0 + text.subrange(e.1, m.start as int);
            let user = jid_user(m.participant.jid@);
            let out = before + seq!['@'] + user;
            (
                out,
                m.end as int,
                e.2.push((m.participant.jid@, user)),
                e.3.push((utf8_len(before), utf8_len(out))),
                e.4.push((utf8_len(text.take(m.start as int)), utf8_len(text.take(m.end as int)))),
            )
        } else {
            e
        }
    }
}

/// No usable mark starts before the end of the previous usable one.
pub open spec fn marks_disjoint(text: Seq<char>, s: Seq<MentionMark>) -> bool
    decreases s.len(),
{
    if s.len() == 0 {
        true
    } else {
        &&& marks_disjoint(text, s.drop_last())
        &&& mark_usable(s.last(), text) ==> expand_marks(text, s.drop_last()).1 <= s.last().start
    }
}

proof fn lemma_expand_last(text: Seq<char>, s: Seq<MentionMark>)
    requires
        marks_disjoint(text, s),
    ensures
        0 <= expand_marks(text, s).1 <= text.len(),
    decreases s.len(),
{
    if s.len() > 0 {
        lemma_expand_last(text, s.drop_last());
    }
}

/// The positions of the marks sorted by where they start; marks that
/// start together keep their order.
fn marks_by_start(marks: &[MentionMark]) -> (order: Vec<usize>)
    ensures
        order@.map_values(|i: usize| marks@[i as int]) == sorted_by_start(marks@),
        forall|a: int| 0 <= a < order.len() ==> (#[trigger] order@[a] as int) < marks.len(),
{
    let mut order: Vec<usize> = Vec::new();
    let mut k: usize = 0;
    while k < marks.len()
        invariant
            0 <= k <= marks.len(),
            order@.map_values(|i: usize| marks@[i as int]) == sorted_by_start(marks@.take(k as int)),
            forall|a: int| 0 <= a < order.len() ==> (#[trigger] order@[a] as int) < k,
        decreases marks.len() - k,
    {
        let ghost sorted = order@.map_values(|i: usize| marks@[i as int]);
        let mut p: usize = 0;
        while p < order.len() && marks[order[p]].start <= marks[k].start
            invariant
                0 <= p <= order.len(),
                k < marks.len(),
                sorted == order@.map_values(|i: usize| marks@[i as int]),
                forall|a: int| 0 <= a < order.len() ==> (#[trigger] order@[a] as int) < k,
                forall|a: int| 0 <= a < p ==> sorted[a].start <= marks@[k as int].start,
            decreases order.len() - p,
        {
            p += 1;
        }
        let ghost prev = order@;
        proof {
            lemma_insert_by_start(sorted, marks@[k as int], p as int);
            assert(marks@.take(k + 1).drop_last() =~= marks@.take(k as int));
            assert(marks@.take(k + 1).last() == marks@[k as int]);
        }
        order.insert(p, k);
        proof {
            assert(order@.map_values(|i: usize| marks@[i as int]) =~= sorted.insert(p as int, marks@[k as int]));
            assert forall|a: int| 0 <= a < order.len() implies (#[trigger] order@[a] as int) < k + 1 by {
                if a < p {
                    assert(order@[a] == prev[a]);
                } else if a > p {
                    assert(order@[a] == prev[a - 1]);
                }
            }
        }
        k += 1;
    }
    proof {
        assert(marks@.take(marks.len() as int) =~= marks@);
    }
    order
}

/// Whether the marks can be expanded: taken in the order they start, no
/// usable mark starts before the previous usable one ends.
pub fn mentions_expandable(text: &str, marks: &[MentionMark]) -> (b: bool)
    ensures
        b == marks_disjoint(text@, sorted_by_start(marks@)),
{
    let order = marks_by_start(marks);
    let ghost s = sorted_by_start(marks@);
    let n = text.unicode_len();
    let mut last: usize = 0;
    let mut j: usize = 0;
    assert(s.take(0) =~= Seq::<MentionMark>::empty());
    while j < order.len()
        invariant
            0 <= j <= order.len(),
            n == text@.len(),
            s == order@.map_values(|i: usize| marks@[i as int]),
            s == sorted_by_start(marks@),
            forall|a: int| 0 <= a < order.len() ==> (#[trigger] order@[a] as int) < marks.len(),
            marks_disjoint(text@, s.take(j as int)),
            last == expand_marks(text@, s.take(j as int)).1,
            last <= n,
        decreases order.len() - j,
    {
        proof {
            assert(s.take(j + 1).drop_last() =~= s.take(j as int));
            assert(s.take(j + 1).last() == s[j as int]);
        }
        let m = &marks[order[j]];
        assert(*m == s[j as int]);
        if m.end <= n && m.start < m.end && text.get_char(m.start) == '@' {
            if m.start < last {
                proof {
                    let t = s.take(j + 1);
                    assert(t.last() == s[j as int]);
                    assert(t.drop_last() =~= s.take(j as int));
                    assert(mark_usable(t.last(), text@));
                    assert(!marks_disjoint(text@, t));
                    lemma_disjoint_prefix_fails(text@, s, j as int);
                }
                return false;
            }
            last = m.end;
        }
        j += 1;
    }
    proof {
        assert(s.take(order.len() as int) =~= s);
    }
    true
}

proof fn lemma_disjoint_prefix_fails(text: Seq<char>, s: Seq<MentionMark>, j: int)
    requires
        0 <= j < s.len(),
        !marks_disjoint(text, s.take(j + 1)),
    ensures
        !marks_disjoint(text, s),
{
    if marks_disjoint(text, s) {
        lemma_disjoint_take(text, s, j + 1);
    }
}

/// Expands the marks into the text to send: each usable mark, in the
/// order they start, becomes "@" and the user part of its participant's
/// JID; the rest of the text is kept. The mentions and their byte ranges
/// come in the same order.
pub fn expanded_text(text: &str, marks: &[MentionMark]) -> (r: Expansion)
    requires
        marks_disjoint(text@, sorted_by_start(marks@)),
    ensures
        ({
            let e = expand_marks(text@, sorted_by_start(marks@));
            &&& r.text@ == e.0 + text@.subrange(e.1, text@.len() as int)
            &&& r.mentions@.map_values(|m: Mention| (m.jid@, m.numeric_user@)) == e.2
            &&& r.mention_ranges@.map_values(|x: (usize, usize)| (x.0 as int, x.1 as int)) == e.3
            &&& r.display_ranges@.map_values(|x: (usize, usize)| (x.0 as int, x.1 as int)) == e.4
        }),
{
    let order = marks_by_start(marks);
    let ghost s = sorted_by_start(marks@);
    let n = text.unicode_len();
    let mut out = String::new();
    let mut last: usize = 0;
    let mut mentions: Vec<Mention> = Vec::new();
    let mut mention_ranges: Vec<(usize, usize)> = Vec::new();
    let mut display_ranges: Vec<(usize, usize)> = Vec::new();
    let mut j: usize = 0;
    while j < order.len()
        invariant
            0 <= j <= order.len(),
            n == text@.len(),
            s == order@.map_values(|i: usize| marks@[i as int]),
            forall|a: int| 0 <= a < order.len() ==> (#[trigger] order@[a] as int) < marks.len(),
            marks_disjoint(text@, s),
            ({
                let e = expand_marks(text@, s.take(j as int));
                &&& out@ == e.0
                &&& last == e.1
                &&& mentions@.map_values(|m: Mention| (m.jid@, m.numeric_user@)) == e.2
                &&& mention_ranges@.map_values(|x: (usize, usize)| (x.0 as int, x.1 as int)) == e.3
                &&& display_ranges@.map_values(|x: (usize, usize)| (x.0 as int, x.1 as int)) == e.4
            }),
            last <= n,
        decreases order.len() - j,
    {
        proof {
            assert(s.take(j + 1).drop_last() =~= s.take(j as int));
            assert(s.take(j + 1).last() == s[j as int]);
            lemma_disjoint_take(text@, s, j + 1);
        }
        let m = &marks[order[j]];
        assert(*m == s[j as int]);
        if m.end <= n && m.start < m.end && text.get_char(m.start) == '@' {
            proof {
                assert(marks_disjoint(text@, s.take(j + 1)));
            }
            let piece = text.substring_char(last, m.start);
            out.append(piece);
            let ghost before = out@;
            let user = user_part(m.participant.jid.as_str());
            let mention_start = byte_len(out.as_str());
            let display_start = byte_len(text.substring_char(0, m.start));
            let display_end = byte_len(text.substring_char(0, m.end));
            out.append("@");
            out.append(user);
            proof {
                reveal_strlit("@");
                assert(text@.subrange(0, m.start as int) =~= text@.take(m.start as int));
                assert(text@.subrange(0, m.end as int) =~= text@.take(m.end as int));
            }
            let mention_end = byte_len(out.as_str());
            mention_ranges.push((mention_start, mention_end));
            display_ranges.push((display_start, display_end));
            mentions.push(Mention { jid: m.participant.jid.clone(), numeric_user: String::from_str(user) });
            last = m.end;
            proof {
                let e = expand_marks(text@, s.take(j + 1));
                assert(out@ =~= e.0);
                assert(mentions@.map_values(|m: Mention| (m.jid@, m.numeric_user@)) =~= e.2);
                assert(mention_ranges@.map_values(|x: (usize, usize)| (x.0 as int, x.1 as int)) =~= e.3);
                assert(display_ranges@.map_values(|x: (usize, usize)| (x.0 as int, x.1 as int)) =~= e.4);
            }
        }
        j += 1;
    }
    proof {
        assert(s.take(order.len() as int) =~= s);
    }
    let rest = text.substring_char(last, n);
    out.append(rest);
    Expansion { text: out, mentions, mention_ranges, display_ranges }
}

proof fn lemma_disjoint_take(text: Seq<char>, s: Seq<MentionMark>, k: int)
    requires
        marks_disjoint(text, s),
        0 <= k <= s.len(),
    ensures
        marks_disjoint(text, s.take(k)),
    decreases s.len() - k,
{
    if k < s.len() {
        lemma_disjoint_take(text, s, k + 1);
        assert(s.take(k + 1).drop_last() =~= s.take(k));
    } else {
        assert(s.take(k) =~= s);
    }
}

/// The lines joined by newlines.
pub open spec fn joined_lines(lines: Seq<Seq<char>>) -> Seq<char>
    decreases lines.len(),
{
    if lines.len() == 0 {
        Seq::empty()
    } else if lines.len() == 1 {
        lines[0]
    } else {
        joined_lines(lines.drop_last()) + seq!['\n'] + lines.last()
    }
}

/// The composer's text: its lines joined by newlines.
pub fn composer_text(lines: &[String]) -> (t: String)
    ensures
        t@ == joined_lines(string_views(lines@)),
{
    let ghost v = string_views(lines@);
    let mut t = String::new();
    let mut i: usize = 0;
    while i < lines.len()
        invariant
            0 <= i <= lines.len(),
            v == string_views(lines@),
            t@ == joined_lines(v.take(i as int)),
        decreases lines.len() - i,
    {
        proof {
            assert(v.take(i + 1).drop_last() =~= v.take(i as int));
            assert(v.take(i + 1).last() == lines@[i as int]@);
        }
        if i > 0 {
            let newline = "\n";
            proof {
                reveal_strlit("\n");
            }
            t.append(newline);
        }
        t.append(lines[i].as_str());
        proof {
            if i == 0 {
                assert(t@ =~= v.take(1)[0]);
            } else {
                assert(t@ =~= joined_lines(v.take(i as int)) + seq!['\n'] + v.take(i + 1).last());
            }
        }
        i += 1;
    }
    proof {
        assert(v.take(lines.len() as int) =~= v);
    }
    t
}

/// Each line lies within the joined text, where it starts.
pub proof fn lemma_line_within_text(lines: Seq<Seq<char>>, row: int)
    requires
        0 <= row < lines.len(),
    ensures
        line_start(lines, row) + lines[row].len() <= joined_lines(lines).len(),
        joined_lines(lines).subrange(line_start(lines, row), line_start(lines, row) + lines[row].len())
            == lines[row],
    decreases lines.len(),
{
    if lines.len() == 1 {
        assert(joined_lines(lines).subrange(0, lines[0].len() as int) =~= lines[0]);
    } else if row == lines.len() - 1 {
        let d = lines.drop_last();
        let j = joined_lines(d);
        lemma_joined_len(d);
        lemma_line_start_prefix(lines, row - 1);
        assert(d[row - 1] == lines[row - 1]);
        assert(line_start(lines, row) == j.len() + 1);
        assert(joined_lines(lines) == j + seq!['\n'] + lines.last());
        assert(joined_lines(lines).subrange(line_start(lines, row), line_start(lines, row) + lines[row].len())
            =~= lines[row]);
    } else {
        let d = lines.drop_last();
        lemma_line_within_text(d, row);
        lemma_line_start_prefix(lines, row);
        assert(d[row] == lines[row]);
        let j = joined_lines(d);
        let a = line_start(lines, row);
        lemma_line_start_grows(lines, 0, row);
        assert(a == line_start(d, row));
        assert(a + lines[row].len() <= j.len());
        assert(joined_lines(lines) == j + seq!['\n'] + lines.last());
        let full = joined_lines(lines);
        assert(full.subrange(0, j.len() as int) =~= j);
        assert(full.subrange(a, a + lines[row].len()) =~= full.subrange(0, j.len() as int).subrange(
            a,
            a + lines[row].len(),
        ));
    }
}

proof fn lemma_line_start_prefix(lines: Seq<Seq<char>>, row: int)
    requires
        0 <= row < lines.len(),
    ensures
        line_start(lines, row) == line_start(lines.drop_last(), row),
    decreases row,
{
    if row > 0 {
        lemma_line_start_prefix(lines, row - 1);
        assert(lines.drop_last()[row - 1] == lines[row - 1]);
    }
}

proof fn lemma_joined_len(lines: Seq<Seq<char>>)
    requires
        lines.len() > 0,
    ensures
        joined_lines(lines).len() == line_start(lines, lines.len() - 1) + lines.last().len(),
    decreases lines.len(),
{
    if lines.len() > 1 {
        lemma_joined_len(lines.drop_last());
        lemma_line_start_prefix(lines, lines.len() - 2);
    }
}

/// How many characters the last grapheme cluster of a text takes
/// (extended clusters), as `unicode_segmentation` splits the text.
pub uninterp spec fn last_grapheme_width(s: Seq<char>) -> nat;

/// Calls `grapheme_indices(true).next_back()` of `unicode_segmentation`
/// and counts the characters of the cluster it gives, 0 for an empty text.
/// Claimed besides the name: the cluster lies within the text, and a text
/// that is not empty ends in a cluster of at least one character.
#[verifier::external_body]
fn last_grapheme_chars(s: &str) -> (n: usize)
    ensures
        n == last_grapheme_width(s@),
        n <= s@.len(),
        s@.len() > 0 ==> n > 0,
{
    let (start, _) = s.grapheme_indices(true).next_back().unwrap_or((0, ""));
    s[start..].chars().count()
}

/// The text and cursor offset after Backspace at `row`, `column`: the
/// grapheme cluster before the cursor is removed, or the line break where
/// the cursor starts a line.
pub open spec fn after_backspace(lines: Seq<Seq<char>>, row: int, column: int) -> Option<(Seq<char>, int)> {
    let offset = line_start(lines, row) + column;
    let text = joined_lines(lines);
    let removed = if column > 0 {
        last_grapheme_width(lines[row].take(column)) as int
    } else {
        1
    };
    let start = if offset >= removed {
        offset - removed
    } else {
        0
    };
    if offset == 0 {
        None
    } else {
        Some((text.take(start) + text.skip(offset), start))
    }
}

/// Backspace in the composer: the text without the grapheme cluster before
/// the cursor (a whole cluster, such as "e" with a combining accent or a
/// joined emoji), or without the line break before a line's start, and
/// the new cursor offset. `None` at the very start of the text.
pub fn delete_previous_grapheme(lines: &[String], row: usize, column: usize) -> (r: Option<(String, usize)>)
    requires
        (row as int) < lines.len(),
        column <= lines@[row as int]@.len(),
    ensures
        match r {
            Some((t, c)) => after_backspace(string_views(lines@), row as int, column as int) == Some((t@, c as int)),
            None => after_backspace(string_views(lines@), row as int, column as int) is None,
        },
{
    let ghost ls = string_views(lines@);
    proof {
        assert(ls[row as int] == lines@[row as int]@);
        lemma_line_within_text(ls, row as int);
    }
    let text = composer_text(lines);
    let n = text.unicode_len();
    let offset = cursor_offset(lines, row, column);
    if offset == 0 {
        return None;
    }
    let removed = if column > 0 {
        let prefix = lines[row].as_str().substring_char(0, column);
        proof {
            assert(prefix@ =~= ls[row as int].take(column as int));
        }
        last_grapheme_chars(prefix)
    } else {
        1
    };
    let start = if offset >= removed {
        offset - removed
    } else {
        0
    };
    let mut result = String::from_str(text.as_str().substring_char(0, start));
    result.append(text.as_str().substring_char(offset, n));
    proof {
        assert(result@ =~= text@.take(start as int) + text@.skip(offset as int));
    }
    Some((result, start))
}

/// Calls `char::is_whitespace`, which tells a character with the
/// Unicode White_Space property.
#[verifier::external_body]
fn is_white_space(c: char) -> (b: bool)
    ensures
        b == white_space(c),
{
    c.is_whitespace()
}

/// What `char::is_alphanumeric` says of a character (Unicode Alphabetic
/// or Numeric).
pub uninterp spec fn alphanumeric(c: char) -> bool;

/// Calls `char::is_alphanumeric`.
#[verifier::external_body]
fn is_alphanumeric_char(c: char) -> (b: bool)
    ensures
        b == alphanumeric(c),
{
    c.is_alphanumeric()
}

/// What `str::to_lowercase` gives for a text.
pub uninterp spec fn lowercased(s: Seq<char>) -> Seq<char>;

/// Calls `str::to_lowercase`.
#[verifier::external_body]
pub(crate) fn to_lower(s: &str) -> (r: String)
    ensures
        r@ == lowercased(s@),
{
    s.to_lowercase()
}

/// Calls `str::trim_end`, which removes trailing characters with the
/// Unicode White_Space property; the result is no longer than the
/// argument.
#[verifier::external_body]
fn trim_end_text(s: &str) -> (r: &str)
    ensures
        r@ == end_trimmed(s@),
        r@.len() <= s@.len(),
{
    s.trim_end()
}

/// `pat` occurs in `s`.
pub open spec fn contains_text(s: Seq<char>, pat: Seq<char>) -> bool {
    exists|i: int| 0 <= i && i + pat.len() <= s.len() && #[trigger] s.subrange(i, i + pat.len()) == pat
}

fn occurs_at(s: &Vec<char>, pat: &Vec<char>, i: usize) -> (b: bool)
    requires
        i + pat.len() <= s.len(),
    ensures
        b == (s@.subrange(i as int, i + pat.len()) == pat@),
{
    let mut k: usize = 0;
    while k < pat.len()
        invariant
            0 <= k <= pat.len(),
            i + pat.len() <= s.len(),
            forall|j: int| 0 <= j < k ==> s@[i + j] == pat@[j],
        decreases pat.len() - k,
    {
        if s[i + k] != pat[k] {
            proof {
                assert(s@.subrange(i as int, i + pat.len())[k as int] != pat@[k as int]);
            }
            return false;
        }
        k += 1;
    }
    proof {
        assert(s@.subrange(i as int, i + pat.len()) =~= pat@);
    }
    true
}

/// Whether `pat` occurs in `s`.
pub fn text_contains(s: &str, pat: &str) -> (b: bool)
    ensures
        b == contains_text(s@, pat@),
{
    let sc = chars_of(s);
    let pc = chars_of(pat);
    if pc.len() > sc.len() {
        return false;
    }
    let limit = sc.len() - pc.len();
    let mut i: usize = 0;
    loop
        invariant
            pc.len() <= sc.len(),
            limit == sc.len() - pc.len(),
            0 <= i <= limit,
            sc@ == s@,
            pc@ == pat@,
            forall|j: int| 0 <= j < i ==> #[trigger] s@.subrange(j, j + pat@.len()) != pat@,
        decreases limit - i,
    {
        if occurs_at(&sc, &pc, i) {
            return true;
        }
        if i == limit {
            return false;
        }
        i += 1;
    }
}

/// The participant's name contains the query, both in lower case.
pub open spec fn matches_query(p: GroupParticipant, query: Seq<char>) -> bool {
    contains_text(lowercased(p.name@), lowercased(query))
}

/// The positions of the participants that match the query, in order.
pub open spec fn candidates(ps: Seq<GroupParticipant>, query: Seq<char>) -> Seq<usize>
    decreases ps.len(),
{
    if ps.len() == 0 {
        Seq::empty()
    } else {
        let rest = candidates(ps.drop_last(), query);
        if matches_query(ps.last(), query) {
            rest.push((ps.len() - 1) as usize)
        } else {
            rest
        }
    }
}

/// The participants that the mention picker offers for a query: those
/// whose name contains it, ignoring case.
pub fn mention_candidates(participants: &[GroupParticipant], query: &str) -> (r: Vec<usize>)
    ensures
        r@ == candidates(participants@, query@),
        forall|a: int| 0 <= a < r.len() ==> (#[trigger] r@[a] as int) < participants.len(),
{
    let q = to_lower(query);
    let mut r: Vec<usize> = Vec::new();
    let mut i: usize = 0;
    while i < participants.len()
        invariant
            0 <= i <= participants.len(),
            q@ == lowercased(query@),
            r@ == candidates(participants@.take(i as int), query@),
            forall|a: int| 0 <= a < r.len() ==> (#[trigger] r@[a] as int) < i,
        decreases participants.len() - i,
    {
        proof {
            assert(participants@.take(i + 1).drop_last() =~= participants@.take(i as int));
            assert(participants@.take(i + 1).last() == participants@[i as int]);
        }
        let name = to_lower(participants[i].name.as_str());
        if text_contains(name.as_str(), q.as_str()) {
            r.push(i);
        }
        i += 1;
    }
    proof {
        assert(participants@.take(participants.len() as int) =~= participants@);
    }
    r
}

/// An open mention picker: where its "@" stands, the query typed after
/// it, and the selected candidate.
#[derive(Debug)]
pub struct MentionPicker {
    pub start: usize,
    pub query: String,
    pub selected: usize,
}

/// Where the word that ends at `i` begins: back to the last white space.
pub open spec fn word_start(text: Seq<char>, i: int) -> int
    decreases i,
{
    if 0 < i <= text.len() && !white_space(text[i - 1]) {
        word_start(text, i - 1)
    } else {
        i
    }
}

/// A character that a mention query may hold.
pub open spec fn query_char(c: char) -> bool {
    alphanumeric(c) || c == '_' || c == '-'
}

/// The picker that the cursor at `offset` opens: where the word before
/// the cursor is "@" and a query of letters, digits, "_" and "-" that some
/// participant matches.
pub open spec fn picker_at(text: Seq<char>, offset: int, ps: Seq<GroupParticipant>) -> Option<(int, Seq<char>)> {
    let start = word_start(text, offset);
    let query = text.subrange(start + 1, offset);
    if start < offset && text[start] == '@' && (forall|k: int| start < k < offset ==> query_char(#[trigger] text[k]))
        && candidates(ps, query).len() > 0 {
        Some((start, query))
    } else {
        None
    }
}

/// The word before an offset starts at or before it.
pub proof fn lemma_word_start_bounds(text: Seq<char>, i: int)
    requires
        0 <= i <= text.len(),
    ensures
        0 <= word_start(text, i) <= i,
    decreases i,
{
    if 0 < i && !white_space(text[i - 1]) {
        lemma_word_start_bounds(text, i - 1);
    }
}

/// The mention picker for the cursor at `offset` in `text`, with the first
/// candidate selected; `None` where no mention is being typed.
pub fn mention_picker_for(text: &str, offset: usize, participants: &[GroupParticipant]) -> (r: Option<MentionPicker>)
    requires
        offset <= text@.len(),
    ensures
        match r {
            Some(p) => picker_at(text@, offset as int, participants@) == Some((p.start as int, p.query@))
                && p.selected == 0,
            None => picker_at(text@, offset as int, participants@) is None,
        },
{
    let chars = chars_of(text);
    let mut start: usize = offset;
    while start > 0 && !is_white_space(chars[start - 1])
        invariant
            0 <= start <= offset <= chars.len(),
            chars@ == text@,
            word_start(text@, start as int) == word_start(text@, offset as int),
        decreases start,
    {
        start -= 1;
    }
    proof {
        lemma_word_start_bounds(text@, offset as int);
        assert(word_start(text@, start as int) == start);
    }
    if start < offset && chars[start] == '@' {
        let mut k: usize = start + 1;
        while k < offset
            invariant
                start < k <= offset <= chars.len(),
                chars@ == text@,
                start == word_start(text@, offset as int),
                forall|j: int| start < j < k ==> query_char(#[trigger] text@[j]),
            decreases offset - k,
        {
            let c = chars[k];
            if !(is_alphanumeric_char(c) || c == '_' || c == '-') {
                proof {
                    assert(!query_char(text@[k as int]));
                }
                return None;
            }
            k += 1;
        }
        let query = text.substring_char(start + 1, offset);
        let found = mention_candidates(participants, query);
        if found.len() > 0 {
            return Some(MentionPicker { start, query: String::from_str(query), selected: 0 });
        }
    }
    None
}

/// The selection after moving `delta` rows in a picker of `count`
/// candidates, wrapping around at both ends.
pub open spec fn moved_mention_selection(selected: int, delta: int, count: int) -> int {
    if count > 0 {
        (selected + delta) % count
    } else {
        selected
    }
}

/// Moves the picker's selection by `delta` rows, wrapping around.
pub fn move_mention_selection(selected: usize, delta: isize, count: usize) -> (r: usize)
    requires
        selected + delta <= isize::MAX,
        selected + delta >= isize::MIN,
        count <= isize::MAX,
    ensures
        r == moved_mention_selection(selected as int, delta as int, count as int),
{
    if count == 0 {
        return selected;
    }
    let s = selected % count;
    let magnitude: usize = if delta >= 0 {
        delta as usize
    } else {
        ((0 - (delta + 1)) as usize) + 1
    };
    let d = magnitude % count;
    proof {
        assert(magnitude as int == if delta >= 0 { delta as int } else { -(delta as int) });
    }
    let r = if delta >= 0 {
        if s >= count - d {
            s - (count - d)
        } else {
            s + d
        }
    } else {
        if s >= d {
            s - d
        } else {
            s + (count - d)
        }
    };
    proof {
        lemma_wrapped_step(selected as int, delta as int, count as int, s as int, d as int, magnitude as int, r as int);
    }
    r
}

proof fn lemma_wrapped_step(selected: int, delta: int, count: int, s: int, d: int, magnitude: int, r: int)
    requires
        count > 0,
        selected >= 0,
        s == selected % count,
        d == magnitude % count,
        magnitude == if delta >= 0 { delta } else { -delta },
        r == if delta >= 0 {
            if s >= count - d { s - (count - d) } else { s + d }
        } else {
            if s >= d { s - d } else { s + (count - d) }
        },
    ensures
        r == (selected + delta) % count,
{
    vstd::arithmetic::div_mod::lemma_fundamental_div_mod(selected, count);
    vstd::arithmetic::div_mod::lemma_fundamental_div_mod(magnitude, count);
    vstd::arithmetic::div_mod::lemma_mod_bound(selected, count);
    vstd::arithmetic::div_mod::lemma_mod_bound(magnitude, count);
    let qs = selected / count;
    let qm = magnitude / count;
    assert(qs * count == count * qs) by (nonlinear_arith);
    assert(qm * count == count * qm) by (nonlinear_arith);
    assert((qs + qm + 1) * count == qs * count + qm * count + count) by (nonlinear_arith);
    assert((qs + qm) * count == qs * count + qm * count) by (nonlinear_arith);
    assert((qs - qm) * count == qs * count - qm * count) by (nonlinear_arith);
    assert((qs - qm - 1) * count == qs * count - qm * count - count) by (nonlinear_arith);
    if delta >= 0 {
        if s >= count - d {
            vstd::arithmetic::div_mod::lemma_fundamental_div_mod_converse(selected + delta, count, qs + qm + 1, r);
        } else {
            vstd::arithmetic::div_mod::lemma_fundamental_div_mod_converse(selected + delta, count, qs + qm, r);
        }
    } else {
        if s >= d {
            vstd::arithmetic::div_mod::lemma_fundamental_div_mod_converse(selected + delta, count, qs - qm, r);
        } else {
            vstd::arithmetic::div_mod::lemma_fundamental_div_mod_converse(selected + delta, count, qs - qm - 1, r);
        }
    }
}

/// The result of confirming a mention: the new text, the cursor after
/// the inserted mention and its trailing space, and the new mark.
#[derive(Debug)]
pub struct ConfirmedMention {
    pub text: String,
    pub cursor: usize,
    pub mark: MentionMark,
}

/// What confirming `participant` in the picker does to `text`: "@" and
/// the query are replaced by "@name " and the mark covers "@name".
pub open spec fn confirmed_text(text: Seq<char>, start: int, query_len: int, name: Seq<char>) -> Seq<char> {
    text.take(start) + (seq!['@'] + name + seq![' ']) + text.skip(start + 1 + query_len)
}

/// Confirms a candidate of the picker: replaces the typed "@query" by
/// "@name " and places a mark over the mention.
pub fn confirm_mention_edit(text: &str, picker: &MentionPicker, participant: &GroupParticipant) -> (r:
    ConfirmedMention)
    requires
        picker.start + 1 + picker.query@.len() <= text@.len(),
        picker.start + participant.name@.len() + 2 <= usize::MAX,
    ensures
        r.text@ == confirmed_text(text@, picker.start as int, picker.query@.len() as int, participant.name@),
        r.cursor == picker.start + participant.name@.len() + 2,
        r.mark.start == picker.start,
        r.mark.end == picker.start + end_trimmed(seq!['@'] + participant.name@ + seq![' ']).len(),
        r.mark.end <= r.cursor,
        r.mark.participant == *participant,
{
    let n = text.unicode_len();
    let qlen = picker.query.as_str().unicode_len();
    let mut replacement = String::from_str("@");
    replacement.append(participant.name.as_str());
    replacement.append(" ");
    proof {
        reveal_strlit("@");
        reveal_strlit(" ");
    }
    let rlen = replacement.as_str().unicode_len();
    let mut out = String::from_str(text.substring_char(0, picker.start));
    out.append(replacement.as_str());
    out.append(text.substring_char(picker.start + 1 + qlen, n));
    proof {
        assert(out@ =~= confirmed_text(text@, picker.start as int, picker.query@.len() as int, participant.name@));
        assert(replacement@ =~= seq!['@'] + participant.name@ + seq![' ']);
    }
    let trimmed_len = trim_end_text(replacement.as_str()).unicode_len();
    ConfirmedMention {
        text: out,
        cursor: picker.start + rlen,
        mark: MentionMark {
            start: picker.start,
            end: picker.start + trimmed_len,
            participant: copy_participant(participant),
        },
    }
}

/// A participant's JID, phone-number JID and name.
pub open spec fn pview(p: GroupParticipant) -> (Seq<char>, Seq<char>, Seq<char>) {
    (p.jid@, p.phone_number@, p.name@)
}

/// The two participants share a non-empty identity: a JID of one is a JID
/// of the other.
pub open spec fn shares_identity(a: (Seq<char>, Seq<char>, Seq<char>), b: (Seq<char>, Seq<char>, Seq<char>)) -> bool {
    (a.0.len() > 0 && (a.0 == b.0 || a.0 == b.1)) || (a.1.len() > 0 && (a.1 == b.0 || a.1 == b.1))
}

/// `a` with its empty fields filled from `b`.
pub open spec fn filled(a: (Seq<char>, Seq<char>, Seq<char>), b: (Seq<char>, Seq<char>, Seq<char>)) -> (
    Seq<char>,
    Seq<char>,
    Seq<char>,
) {
    (
        if a.0.len() == 0 {
            b.0
        } else {
            a.0
        },
        if a.1.len() == 0 {
            b.1
        } else {
            a.1
        },
        if a.2.len() == 0 {
            b.2
        } else {
            a.2
        },
    )
}

/// The first entry from `i` on that shares an identity with `p`.
pub open spec fn first_sharing(r: Seq<(Seq<char>, Seq<char>, Seq<char>)>, p: (Seq<char>, Seq<char>, Seq<char>), i: int) -> Option<int>
    decreases r.len() - i,
{
    if i < 0 || i >= r.len() {
        None
    } else if shares_identity(r[i], p) {
        Some(i)
    } else {
        first_sharing(r, p, i + 1)
    }
}

/// The participants with duplicates merged: a participant that shares an
/// identity with an earlier entry fills that entry's empty fields instead
/// of being listed again.
pub open spec fn deduplicated(ps: Seq<(Seq<char>, Seq<char>, Seq<char>)>) -> Seq<(Seq<char>, Seq<char>, Seq<char>)>
    decreases ps.len(),
{
    if ps.len() == 0 {
        Seq::empty()
    } else {
        let r = deduplicated(ps.drop_last());
        match first_sharing(r, ps.last(), 0) {
            Some(i) => r.update(i, filled(r[i], ps.last())),
            None => r.push(ps.last()),
        }
    }
}

fn shares_identity_exec(a: &GroupParticipant, b: &GroupParticipant) -> (r: bool)
    ensures
        r == shares_identity(pview(*a), pview(*b)),
{
    (a.jid.as_str().unicode_len() > 0 && (a.jid == b.jid || a.jid == b.phone_number)) || (
    a.phone_number.as_str().unicode_len() > 0 && (a.phone_number == b.jid || a.phone_number == b.phone_number))
}

proof fn lemma_first_sharing_bounds(r: Seq<(Seq<char>, Seq<char>, Seq<char>)>, p: (Seq<char>, Seq<char>, Seq<char>), i: int)
    requires
        0 <= i,
    ensures
        match first_sharing(r, p, i) {
            Some(j) => i <= j < r.len() && shares_identity(r[j], p),
            None => true,
        },
    decreases r.len() - i,
{
    if i < r.len() && !shares_identity(r[i], p) {
        lemma_first_sharing_bounds(r, p, i + 1);
    }
}

/// Merges the group's participants that share a JID or phone-number JID,
/// keeping the first place and filling empty fields from later entries.
pub fn deduplicate_group_participants(participants: Vec<GroupParticipant>) -> (r: Vec<GroupParticipant>)
    ensures
        r@.map_values(|p: GroupParticipant| pview(p)) == deduplicated(
            participants@.map_values(|p: GroupParticipant| pview(p)),
        ),
{
    let ghost all = participants@.map_values(|p: GroupParticipant| pview(p));
    let mut result: Vec<GroupParticipant> = Vec::new();
    let mut k: usize = 0;
    while k < participants.len()
        invariant
            0 <= k <= participants.len(),
            all == participants@.map_values(|p: GroupParticipant| pview(p)),
            result@.map_values(|p: GroupParticipant| pview(p)) == deduplicated(all.take(k as int)),
        decreases participants.len() - k,
    {
        let ghost rv = result@.map_values(|p: GroupParticipant| pview(p));
        proof {
            assert(all.take(k + 1).drop_last() =~= all.take(k as int));
            assert(all.take(k + 1).last() == pview(participants@[k as int]));
        }
        let p = &participants[k];
        let mut i: usize = 0;
        while i < result.len()
            invariant
                0 <= i <= result.len(),
                rv == result@.map_values(|p: GroupParticipant| pview(p)),
                first_sharing(rv, pview(*p), i as int) == first_sharing(rv, pview(*p), 0),
            ensures
                i < result.len() ==> first_sharing(rv, pview(*p), 0) == Some(i as int),
                i == result.len() ==> first_sharing(rv, pview(*p), 0) is None,
            decreases result.len() - i,
        {
            if shares_identity_exec(&result[i], p) {
                assert(rv[i as int] == pview(result@[i as int]));
                break;
            }
            assert(rv[i as int] == pview(result@[i as int]));
            i += 1;
        }
        if i < result.len() {
            let existing = &result[i];
            let jid = if existing.jid.as_str().unicode_len() == 0 {
                p.jid.clone()
            } else {
                existing.jid.clone()
            };
            let phone_number = if existing.phone_number.as_str().unicode_len() == 0 {
                p.phone_number.clone()
            } else {
                existing.phone_number.clone()
            };
            let name = if existing.name.as_str().unicode_len() == 0 {
                p.name.clone()
            } else {
                existing.name.clone()
            };
            proof {
                assert(rv[i as int] == pview(result@[i as int]));
            }
            result.set(i, GroupParticipant { jid, phone_number, name });
            proof {
                assert(result@.map_values(|p: GroupParticipant| pview(p)) =~= rv.update(
                    i as int,
                    filled(rv[i as int], pview(*p)),
                ));
            }
        } else {
            result.push(copy_participant(p));
            proof {
                assert(result@.map_values(|p: GroupParticipant| pview(p)) =~= rv.push(pview(*p)));
            }
        }
        k += 1;
    }
    proof {
        assert(all.take(participants.len() as int) =~= all);
    }
    result
}

/// A file waiting to be sent with the next message.
#[derive(Debug)]
pub struct PendingAttachment {
    pub path: String,
    pub kind: FileKind,
}

/// The part of a path after its last "/".
pub open spec fn file_name_of(path: Seq<char>) -> Seq<char>
    decreases path.len(),
{
    if path.len() == 0 {
        path
    } else if path.last() == '/' {
        Seq::empty()
    } else {
        file_name_of(path.drop_last()).push(path.last())
    }
}

impl PendingAttachment {
    /// An attachment of `path`.
    pub fn new(path: String, kind: FileKind) -> (a: PendingAttachment)
        ensures
            a.path@ == path@,
            a.kind == kind,
    {
        PendingAttachment { path, kind }
    }

    /// The name shown for the attachment: the path after its last "/".
    pub fn display_name(&self) -> (name: &str)
        ensures
            name@ == file_name_of(self.path@),
    {
        let s = self.path.as_str();
        let n = s.unicode_len();
        let mut i: usize = n;
        proof {
            assert(s@.take(n as int) =~= s@);
            assert(s@.subrange(n as int, n as int) =~= Seq::<char>::empty());
            assert(file_name_of(s@) =~= file_name_of(s@.take(n as int)) + s@.subrange(n as int, n as int));
        }
        while i > 0 && s.get_char(i - 1) != '/'
            invariant
                0 <= i <= n,
                n == s@.len(),
                s@ == self.path@,
                file_name_of(s@) == file_name_of(s@.take(i as int)) + s@.subrange(i as int, n as int),
            decreases i,
        {
            proof {
                let t = s@.take(i as int);
                assert(t.drop_last() =~= s@.take(i - 1));
                assert(file_name_of(t) == file_name_of(t.drop_last()).push(t.last()));
                assert(file_name_of(s@.take(i - 1)) + s@.subrange(i - 1, n as int) =~= file_name_of(
                    s@.take(i - 1),
                ).push(t.last()) + s@.subrange(i as int, n as int));
            }
            i -= 1;
        }
        proof {
            assert(s@.take(n as int) =~= s@);
            if i > 0 {
                assert(file_name_of(s@.take(i as int)) =~= Seq::<char>::empty());
            } else {
                assert(s@.take(0) =~= Seq::<char>::empty());
            }
            assert(file_name_of(s@) =~= s@.subrange(i as int, n as int));
        }
        s.substring_char(i, n)
    }
}

/// A message ready to send.
#[derive(Debug)]
pub enum OutgoingMessage {
    Text(String),
    File { kind: FileKind, path: String, file_id: String, caption: Option<String> },
}

/// What submitting sends: nothing for a blank text without attachments;
/// the text as one message without attachments; else one message per
/// attachment, in order, the first captioned with the text.
pub open spec fn submitted(text: Seq<char>, pending: Seq<PendingAttachment>, messages: Seq<OutgoingMessage>) -> bool {
    if pending.len() == 0 {
        messages.len() == 1 && (match messages[0] {
            OutgoingMessage::Text(t) => t@ == text,
            _ => false,
        })
    } else {
        messages.len() == pending.len() && forall|i: int|
            0 <= i < pending.len() ==> match #[trigger] messages[i] {
                OutgoingMessage::File { kind, path, file_id, caption } => {
                    &&& kind == pending[i].kind
                    &&& path@ == pending[i].path@
                    &&& file_id@.len() == 0
                    &&& if i == 0 {
                        caption is Some && caption->Some_0@ == text
                    } else {
                        caption is None
                    }
                },
                _ => false,
            }
    }
}

/// The messages that submitting the expanded text with the pending
/// attachments sends; `None` where the text is blank and nothing is
/// attached.
pub fn submission_messages(text: &str, pending: &[PendingAttachment]) -> (r: Option<Vec<OutgoingMessage>>)
    ensures
        r is None <==> (trimmed(text@).len() == 0 && pending.len() == 0),
        r is Some ==> submitted(text@, pending@, r->Some_0@),
{
    if pending.len() == 0 {
        if trim_text(text).unicode_len() == 0 {
            return None;
        }
        let mut v: Vec<OutgoingMessage> = Vec::new();
        v.push(OutgoingMessage::Text(String::from_str(text)));
        return Some(v);
    }
    let mut v: Vec<OutgoingMessage> = Vec::new();
    let mut i: usize = 0;
    while i < pending.len()
        invariant
            0 <= i <= pending.len(),
            v.len() == i,
            forall|j: int|
                0 <= j < i ==> match #[trigger] v@[j] {
                    OutgoingMessage::File { kind, path, file_id, caption } => {
                        &&& kind == pending@[j].kind
                        &&& path@ == pending@[j].path@
                        &&& file_id@.len() == 0
                        &&& if j == 0 {
                            caption is Some && caption->Some_0@ == text@
                        } else {
                            caption is None
                        }
                    },
                    _ => false,
                },
        decreases pending.len() - i,
    {
        let caption = if i == 0 {
            Some(String::from_str(text))
        } else {
            None
        };
        let file_id = String::new();
        v.push(
            OutgoingMessage::File {
                kind: pending[i].kind,
                path: pending[i].path.clone(),
                file_id,
                caption,
            },
        );
        i += 1;
    }
    Some(v)
}

proof fn lemma_prefix_of_same(t: Seq<char>, i: int)
    requires
        0 <= i <= t.len(),
    ensures
        prefix_from(t, t, i) == t.len(),
    decreases t.len() - i,
{
    if i < t.len() {
        lemma_prefix_of_same(t, i + 1);
    }
}

/// The marks intact in `text`, in order.
pub open spec fn intact_marks(marks: Seq<MentionMark>, text: Seq<char>) -> Seq<MentionMark>
    decreases marks.len(),
{
    if marks.len() == 0 {
        Seq::empty()
    } else {
        let rest = intact_marks(marks.drop_last(), text);
        if mark_intact(marks.last(), text) {
            rest.push(marks.last())
        } else {
            rest
        }
    }
}

/// An edit that leaves the text as it was (a cursor movement) keeps every
/// mark that shows its mention, unmoved, and drops the others.
pub proof fn lemma_unchanged_text_keeps_marks(marks: Seq<MentionMark>, text: Seq<char>)
    requires
        marks_ordered(marks),
        marks_within(marks, text.len() as int),
    ensures
        reconciled(
            marks,
            edit_span(text, text).0,
            edit_span(text, text).1,
            edit_span(text, text).2,
            text,
        ) == intact_marks(marks, text),
    decreases marks.len(),
{
    lemma_prefix_of_same(text, 0);
    let n = text.len() as int;
    assert(changed_ends(text, text, n, n, n) == (n, n));
    if marks.len() > 0 {
        let d = marks.drop_last();
        assert forall|i: int| 0 <= i < d.len() implies (#[trigger] d[i]).start <= d[i].end by {
            assert(d[i] == marks[i]);
        }
        assert forall|i: int| 0 <= i < d.len() implies (#[trigger] d[i]).end <= n by {
            assert(d[i] == marks[i]);
        }
        lemma_unchanged_text_keeps_marks(d, text);
        let m = marks.last();
        assert(m == marks[marks.len() - 1]);
        if n <= m.start {
            assert(m.start == n && m.end == n);
            assert(shifted_mark(m, n, n, n) == Some(m));
        } else {
            assert(shifted_mark(m, n, n, n) == Some(m));
        }
    }
}

/// The texts of the text messages, in order.
pub open spec fn texts_of(messages: Seq<OutgoingMessage>) -> Seq<Seq<char>>
    decreases messages.len(),
{
    if messages.len() == 0 {
        Seq::empty()
    } else {
        let rest = texts_of(messages.drop_last());
        match messages.last() {
            OutgoingMessage::Text(t) => rest.push(t@),
            _ => rest,
        }
    }
}

/// The texts of the text messages of a submission, in order.
pub fn text_messages(messages: &[OutgoingMessage]) -> (r: Vec<String>)
    ensures
        string_views(r@) == texts_of(messages@),
{
    let mut r: Vec<String> = Vec::new();
    let mut i: usize = 0;
    while i < messages.len()
        invariant
            0 <= i <= messages.len(),
            string_views(r@) == texts_of(messages@.take(i as int)),
        decreases messages.len() - i,
    {
        proof {
            assert(messages@.take(i + 1).drop_last() =~= messages@.take(i as int));
            assert(messages@.take(i + 1).last() == messages@[i as int]);
        }
        match &messages[i] {
            OutgoingMessage::Text(t) => {
                let ghost before = string_views(r@);
                r.push(t.clone());
                proof {
                    assert(string_views(r@) =~= before.push(t@));
                }
            },
            _ => {},
        }
        i += 1;
    }
    proof {
        assert(messages@.take(messages.len() as int) =~= messages@);
    }
    r
}

} // verus!
