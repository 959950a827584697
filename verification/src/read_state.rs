//! Read state of chats: the read cursor, the unread boundary, remote and
//! linked-device read events, receipts, and what a new message does to the
//! open conversation.
use vstd::prelude::*;

use crate::text_order::{compare_text, cursor_before, cursor_less, text_comparison, text_less, Comparison};

verus! {

/// The chat of status updates.
pub const STATUS_BROADCAST_CHAT: &'static str = "status@broadcast";

/// A stored message, as far as read state needs it.
#[derive(Debug)]
pub struct StoredMessage {
    pub id: String,
    pub chat: String,
    pub sender: String,
    pub timestamp: i64,
    pub is_from_me: bool,
    pub read_by: u32,
}

/// The read state of one chat.
#[derive(Debug)]
pub struct ChatTimeline {
    pub last_read_message: Option<String>,
    pub last_read_at: Option<i64>,
    pub pending_new_messages: usize,
}

/// `s` ends with `suffix`.
pub open spec fn ends_with(s: Seq<char>, suffix: Seq<char>) -> bool {
    suffix.len() <= s.len() && s.subrange(s.len() - suffix.len(), s.len() as int) == suffix
}

/// Whether a text ends with a suffix.
pub fn text_ends_with(s: &str, suffix: &str) -> (b: bool)
    ensures
        b == ends_with(s@, suffix@),
{
    let n = s.unicode_len();
    let m = suffix.unicode_len();
    if m > n {
        return false;
    }
    let mut i: usize = 0;
    while i < m
        invariant
            n == s@.len(),
            m == suffix@.len(),
            m <= n,
            0 <= i <= m,
            forall|j: int| 0 <= j < i ==> s@[n - m + j] == suffix@[j],
        decreases m - i,
    {
        if s.get_char(n - m + i) != suffix.get_char(i) {
            assert(s@.subrange(n - m, n as int)[i as int] != suffix@[i as int]);
            return false;
        }
        i += 1;
    }
    assert(s@.subrange(n - m, n as int) =~= suffix@);
    true
}

/// The status chat.
pub open spec fn is_status_chat_spec(jid: Seq<char>) -> bool {
    jid == STATUS_BROADCAST_CHAT@
}

/// A group chat: its JID ends with "@g.us".
pub open spec fn is_group_chat_spec(jid: Seq<char>) -> bool {
    ends_with(jid, "@g.us"@)
}

/// Whether a JID is the status chat.
pub fn is_status_chat(jid: &str) -> (b: bool)
    ensures
        b == is_status_chat_spec(jid@),
{
    matches!(compare_text(jid, STATUS_BROADCAST_CHAT), Comparison::Equal)
}

/// Whether a JID is a group conversation.
pub fn is_group_chat(jid: &str) -> (b: bool)
    ensures
        b == is_group_chat_spec(jid@),
{
    text_ends_with(jid, "@g.us")
}

/// Whether a JID names a broadcast list, which the chat list hides.
pub fn is_broadcast_jid(jid: &str) -> (b: bool)
    ensures
        b == ends_with(jid@, "@broadcast"@),
{
    text_ends_with(jid, "@broadcast")
}

/// The messages of `msgs` after the cursor (t, id), in order.
pub open spec fn after_cursor(msgs: Seq<StoredMessage>, t: i64, id: Seq<char>) -> Seq<StoredMessage>
    decreases msgs.len(),
{
    if msgs.len() == 0 {
        Seq::empty()
    } else {
        let rest = after_cursor(msgs.drop_last(), t, id);
        let m = msgs.last();
        if cursor_less(t, id, m.timestamp, m.id@) {
            rest.push(m)
        } else {
            rest
        }
    }
}

/// How many messages from others come after the cursor.
pub open spec fn pending_after_spec(msgs: Seq<StoredMessage>, t: i64, id: Seq<char>) -> nat
    decreases msgs.len(),
{
    if msgs.len() == 0 {
        0
    } else {
        let m = msgs.last();
        pending_after_spec(msgs.drop_last(), t, id) + if !m.is_from_me && cursor_less(
            t,
            id,
            m.timestamp,
            m.id@,
        ) {
            1nat
        } else {
            0nat
        }
    }
}

proof fn lemma_pending_bounded(msgs: Seq<StoredMessage>, t: i64, id: Seq<char>)
    ensures
        pending_after_spec(msgs, t, id) <= msgs.len(),
    decreases msgs.len(),
{
    if msgs.len() > 0 {
        lemma_pending_bounded(msgs.drop_last(), t, id);
    }
}

/// Counts the messages from others that come after the cursor (t, id).
pub fn pending_after(msgs: &[StoredMessage], t: i64, id: &str) -> (n: usize)
    ensures
        n == pending_after_spec(msgs@, t, id@),
{
    let mut n: usize = 0;
    let mut i: usize = 0;
    assert(msgs@.subrange(0, 0) =~= Seq::<StoredMessage>::empty());
    while i < msgs.len()
        invariant
            0 <= i <= msgs.len(),
            n == pending_after_spec(msgs@.subrange(0, i as int), t, id@),
        decreases msgs.len() - i,
    {
        assert(msgs@.subrange(0, i + 1).drop_last() =~= msgs@.subrange(0, i as int));
        proof {
            lemma_pending_bounded(msgs@.subrange(0, i as int), t, id@);
        }
        let m = &msgs[i];
        if !m.is_from_me && cursor_before(t, id, m.timestamp, m.id.as_str()) {
            n += 1;
        }
        i += 1;
    }
    assert(msgs@.subrange(0, msgs.len() as int) =~= msgs@);
    n
}

/// The read cursor of a timeline, when both parts are known.
pub open spec fn cursor_of(tl: ChatTimeline) -> Option<(i64, Seq<char>)> {
    match (tl.last_read_at, tl.last_read_message) {
        (Some(t), Some(id)) => Some((t, id@)),
        _ => None,
    }
}

/// The unread boundary: how many messages follow the read cursor and the
/// timestamp of the first of them.
pub open spec fn unread_boundary_spec(tl: Option<ChatTimeline>, msgs: Seq<StoredMessage>) -> Option<
    (usize, i64),
> {
    match tl {
        None => None,
        Some(tl) => match cursor_of(tl) {
            None => None,
            Some((t, id)) => {
                let unread = after_cursor(msgs, t, id);
                if unread.len() == 0 {
                    None
                } else {
                    Some((unread.len() as usize, unread[0].timestamp))
                }
            },
        },
    }
}

proof fn lemma_after_cursor_bounded(msgs: Seq<StoredMessage>, t: i64, id: Seq<char>)
    ensures
        after_cursor(msgs, t, id).len() <= msgs.len(),
    decreases msgs.len(),
{
    if msgs.len() > 0 {
        lemma_after_cursor_bounded(msgs.drop_last(), t, id);
    }
}

/// Message `j` is the first of `msgs` after the cursor (t, id).
pub open spec fn first_after_cursor(msgs: Seq<StoredMessage>, t: i64, id: Seq<char>, j: int) -> bool {
    &&& 0 <= j < msgs.len()
    &&& cursor_less(t, id, msgs[j].timestamp, msgs[j].id@)
    &&& forall|i: int| 0 <= i < j ==> !cursor_less(t, id, #[trigger] msgs[i].timestamp, msgs[i].id@)
}

proof fn lemma_after_cursor_first(msgs: Seq<StoredMessage>, t: i64, id: Seq<char>) -> (j: int)
    ensures
        after_cursor(msgs, t, id).len() == 0 ==> forall|i: int|
            0 <= i < msgs.len() ==> !cursor_less(t, id, #[trigger] msgs[i].timestamp, msgs[i].id@),
        after_cursor(msgs, t, id).len() > 0 ==> first_after_cursor(msgs, t, id, j) && after_cursor(msgs, t, id)[0]
            == msgs[j],
    decreases msgs.len(),
{
    if msgs.len() == 0 {
        0
    } else {
        let prev = msgs.drop_last();
        let k = lemma_after_cursor_first(prev, t, id);
        let rest = after_cursor(prev, t, id);
        let n = prev.len() as int;
        assert forall|i: int| 0 <= i < n implies #[trigger] msgs[i] == prev[i] by {}
        if rest.len() > 0 {
            assert(msgs[k] == prev[k]);
            assert forall|i: int| 0 <= i < k implies !cursor_less(t, id, #[trigger] msgs[i].timestamp, msgs[i].id@) by {
                assert(msgs[i] == prev[i]);
            }
            k
        } else {
            assert forall|i: int| 0 <= i < n implies !cursor_less(t, id, #[trigger] msgs[i].timestamp, msgs[i].id@) by {
                assert(msgs[i] == prev[i]);
            }
            n
        }
    }
}

/// The unread boundary counts the messages after the read cursor and gives
/// the time of the first of them in the chat's order; there is none without
/// a cursor or when no message follows it.
pub proof fn lemma_unread_boundary(tl: Option<ChatTimeline>, msgs: Seq<StoredMessage>)
    ensures
        ({
            let r = unread_boundary_spec(tl, msgs);
            match tl {
                Some(tl) => match cursor_of(tl) {
                    Some((t, id)) => {
                        &&& (r is None) == (forall|i: int|
                            0 <= i < msgs.len() ==> !cursor_less(t, id, #[trigger] msgs[i].timestamp, msgs[i].id@))
                        &&& msgs.len() <= usize::MAX ==> (r matches Some((n, ts)) ==> n == after_cursor(
                            msgs,
                            t,
                            id,
                        ).len() && exists|j: int| first_after_cursor(msgs, t, id, j) && #[trigger] msgs[j].timestamp
                            == ts)
                    },
                    None => r is None,
                },
                None => r is None,
            }
        }),
{
    match tl {
        Some(tl) => match cursor_of(tl) {
            Some((t, id)) => {
                let j = lemma_after_cursor_first(msgs, t, id);
                lemma_after_cursor_bounded(msgs, t, id);
                let after = after_cursor(msgs, t, id);
                if after.len() > 0 {
                    assert(cursor_less(t, id, msgs[j].timestamp, msgs[j].id@));
                    assert(msgs[j].timestamp == after[0].timestamp);
                }
            },
            None => {},
        },
        None => {},
    }
}

/// Where the unread part of a chat starts: the number of messages after the
/// read cursor and the timestamp of the first. No cursor, or nothing after
/// it, gives no boundary. `msgs` are the chat's stored messages in order.
pub fn unread_boundary(timeline: Option<&ChatTimeline>, msgs: &[StoredMessage]) -> (r: Option<
    (usize, i64),
>)
    ensures
        r == unread_boundary_spec(
            match timeline {
                Some(tl) => Some(*tl),
                None => None,
            },
            msgs@,
        ),
{
    let tl = match timeline {
        Some(tl) => tl,
        None => return None,
    };
    let (t, id) = match (&tl.last_read_at, &tl.last_read_message) {
        (Some(t), Some(id)) => (*t, id),
        _ => return None,
    };
    let mut count: usize = 0;
    let mut first: Option<i64> = None;
    let mut i: usize = 0;
    assert(msgs@.subrange(0, 0) =~= Seq::<StoredMessage>::empty());
    while i < msgs.len()
        invariant
            0 <= i <= msgs.len(),
            count == after_cursor(msgs@.subrange(0, i as int), t, id@).len(),
            count == 0 <==> first is None,
            count > 0 ==> first == Some(after_cursor(msgs@.subrange(0, i as int), t, id@)[0].timestamp),
        decreases msgs.len() - i,
    {
        let ghost prev = after_cursor(msgs@.subrange(0, i as int), t, id@);
        assert(msgs@.subrange(0, i + 1).drop_last() =~= msgs@.subrange(0, i as int));
        proof {
            lemma_after_cursor_bounded(msgs@.subrange(0, i as int), t, id@);
        }
        let m = &msgs[i];
        if cursor_before(t, id.as_str(), m.timestamp, m.id.as_str()) {
            if count == 0 {
                first = Some(m.timestamp);
            }
            assert(after_cursor(msgs@.subrange(0, i + 1), t, id@) == prev.push(msgs@[i as int]));
            count += 1;
        }
        i += 1;
    }
    assert(msgs@.subrange(0, msgs.len() as int) =~= msgs@);
    match first {
        Some(ts) => Some((count, ts)),
        None => None,
    }
}

/// Why a remote read event was not applied.
#[derive(Clone, Copy, Debug, Eq, PartialEq, Structural)]
pub enum ReadRejection {
    StatusExclusion,
    ReadFalse,
    MissingIdentity,
    MessageUnavailable,
    ChatMismatch,
    TimestampMismatch,
    FromMeMismatch,
    ParticipantMismatch,
    StaleCursor,
}

/// What a read event does to a chat's read state.
#[derive(Clone, Copy, Debug, Eq, PartialEq, Structural)]
pub enum ReadDecision {
    Rejected(ReadRejection),
    /// Move the cursor to the event's message; this many messages from
    /// others remain unread after it.
    Applied { pending: usize },
}

/// A read event reported by another device for a chat.
pub struct RemoteRead {
    pub chat: String,
    pub message_id: String,
    pub read: bool,
    pub timestamp: i64,
    pub from_me: bool,
    pub participant: Option<String>,
}

/// The decision for a remote read event, given the stored message with
/// the event's id, the chat's current cursor, and the chat's messages.
pub open spec fn remote_read_spec(
    event: RemoteRead,
    message: Option<StoredMessage>,
    current: Option<(i64, Seq<char>)>,
    msgs: Seq<StoredMessage>,
) -> ReadDecision {
    if is_status_chat_spec(event.chat@) {
        ReadDecision::Rejected(ReadRejection::StatusExclusion)
    } else if !event.read {
        ReadDecision::Rejected(ReadRejection::ReadFalse)
    } else if event.message_id@.len() == 0 || (is_group_chat_spec(event.chat@)
        && event.participant is None) {
        ReadDecision::Rejected(ReadRejection::MissingIdentity)
    } else if message is None {
        ReadDecision::Rejected(ReadRejection::MessageUnavailable)
    } else if message->0.chat@ != event.chat@ {
        ReadDecision::Rejected(ReadRejection::ChatMismatch)
    } else if message->0.timestamp != event.timestamp {
        ReadDecision::Rejected(ReadRejection::TimestampMismatch)
    } else if message->0.is_from_me != event.from_me {
        ReadDecision::Rejected(ReadRejection::FromMeMismatch)
    } else if event.participant matches Some(p) && message->0.sender@ != p@ {
        ReadDecision::Rejected(ReadRejection::ParticipantMismatch)
    } else if current matches Some((t, id)) && !cursor_less(t, id, event.timestamp, event.message_id@) {
        ReadDecision::Rejected(ReadRejection::StaleCursor)
    } else {
        ReadDecision::Applied {
            pending: pending_after_spec(msgs, event.timestamp, event.message_id@) as usize,
        }
    }
}

/// A read event from another device is applied exactly when it is a read
/// of a known message of a non-status chat, names the message (and, in a
/// group, the reader), agrees with the stored message's chat, time,
/// ownership and sender, and moves the cursor strictly forward; then the
/// unread count is the messages from others after the new cursor. Each
/// rejection names a check that failed.
pub proof fn lemma_remote_read_applied(
    event: RemoteRead,
    message: Option<StoredMessage>,
    current: Option<(i64, Seq<char>)>,
    msgs: Seq<StoredMessage>,
)
    ensures
        ({
            let d = remote_read_spec(event, message, current, msgs);
            let agrees = match message {
                Some(m) => m.chat@ == event.chat@ && m.timestamp == event.timestamp && m.is_from_me
                    == event.from_me && match event.participant {
                    Some(p) => m.sender@ == p@,
                    None => true,
                },
                None => false,
            };
            let forward = match current {
                Some((t, id)) => cursor_less(t, id, event.timestamp, event.message_id@),
                None => true,
            };
            &&& (d is Applied) == (!is_status_chat_spec(event.chat@) && event.read && event.message_id@.len() > 0
                && !(is_group_chat_spec(event.chat@) && event.participant is None) && agrees && forward)
            &&& msgs.len() <= usize::MAX ==> (d matches ReadDecision::Applied { pending } ==> pending
                == pending_after_spec(msgs, event.timestamp, event.message_id@))
            &&& d == ReadDecision::Rejected(ReadRejection::StatusExclusion) ==> is_status_chat_spec(event.chat@)
            &&& d == ReadDecision::Rejected(ReadRejection::ReadFalse) ==> !event.read
            &&& d == ReadDecision::Rejected(ReadRejection::MessageUnavailable) ==> message is None
            &&& d == ReadDecision::Rejected(ReadRejection::StaleCursor) ==> !forward
            &&& d == ReadDecision::Rejected(ReadRejection::ChatMismatch) ==> (message matches Some(m)
                && m.chat@ != event.chat@)
            &&& d == ReadDecision::Rejected(ReadRejection::TimestampMismatch) ==> (message matches Some(m)
                && m.timestamp != event.timestamp)
            &&& d == ReadDecision::Rejected(ReadRejection::FromMeMismatch) ==> (message matches Some(m)
                && m.is_from_me != event.from_me)
        }),
{
    lemma_pending_bounded(msgs, event.timestamp, event.message_id@);
}

/// Decides a read event from another device. It is rejected for the
/// status chat, for an unread event, without a message id (or, in a group,
/// without a participant), for an unknown message, when the message's
/// chat, timestamp, ownership or sender disagrees with the event, and when
/// the cursor would not move forward. Otherwise the cursor moves to the
/// event's message and the unread count becomes the messages from others
/// after it.
pub fn decide_remote_read(
    event: &RemoteRead,
    message: Option<&StoredMessage>,
    current_at: Option<i64>,
    current_message: Option<&str>,
    msgs: &[StoredMessage],
) -> (d: ReadDecision)
    ensures
        d == remote_read_spec(
            *event,
            match message {
                Some(m) => Some(*m),
                None => None,
            },
            match (current_at, current_message) {
                (Some(t), Some(id)) => Some((t, id@)),
                _ => None,
            },
            msgs@,
        ),
{
    if is_status_chat(event.chat.as_str()) {
        return ReadDecision::Rejected(ReadRejection::StatusExclusion);
    }
    if !event.read {
        return ReadDecision::Rejected(ReadRejection::ReadFalse);
    }
    if event.message_id.as_str().unicode_len() == 0 || (is_group_chat(event.chat.as_str())
        && event.participant.is_none()) {
        return ReadDecision::Rejected(ReadRejection::MissingIdentity);
    }
    let m = match message {
        Some(m) => m,
        None => return ReadDecision::Rejected(ReadRejection::MessageUnavailable),
    };
    if m.chat != event.chat {
        return ReadDecision::Rejected(ReadRejection::ChatMismatch);
    }
    if m.timestamp != event.timestamp {
        return ReadDecision::Rejected(ReadRejection::TimestampMismatch);
    }
    if m.is_from_me != event.from_me {
        return ReadDecision::Rejected(ReadRejection::FromMeMismatch);
    }
    match &event.participant {
        Some(p) => {
            if m.sender != *p {
                return ReadDecision::Rejected(ReadRejection::ParticipantMismatch);
            }
        },
        None => {},
    }
    match (current_at, current_message) {
        (Some(t), Some(id)) => {
            if !cursor_before(t, id, event.timestamp, event.message_id.as_str()) {
                return ReadDecision::Rejected(ReadRejection::StaleCursor);
            }
        },
        _ => {},
    }
    proof {
        lemma_pending_bounded(msgs@, event.timestamp, event.message_id@);
    }
    let pending = pending_after(msgs, event.timestamp, event.message_id.as_str());
    ReadDecision::Applied { pending }
}

/// Applies a read event from another device to the chat's read state, as
/// `decide_remote_read` decides it: when applied, the cursor moves to the
/// event's message and the unread count becomes the messages from others
/// after it (the caller then stores the cursor and refreshes the chat
/// list); when rejected, the read state stays as it was.
pub fn apply_remote_read(
    timeline: &mut ChatTimeline,
    event: &RemoteRead,
    message: Option<&StoredMessage>,
    msgs: &[StoredMessage],
) -> (d: ReadDecision)
    ensures
        d == remote_read_spec(
            *event,
            match message {
                Some(m) => Some(*m),
                None => None,
            },
            match (old(timeline).last_read_at, old(timeline).last_read_message) {
                (Some(t), Some(id)) => Some((t, id@)),
                _ => None,
            },
            msgs@,
        ),
        match d {
            ReadDecision::Applied { pending } => {
                &&& final(timeline).last_read_message matches Some(id) && id@ == event.message_id@
                &&& final(timeline).last_read_at == Some(event.timestamp)
                &&& final(timeline).pending_new_messages == pending
            },
            ReadDecision::Rejected(_) => *final(timeline) == *old(timeline),
        },
{
    let current_message = match &timeline.last_read_message {
        Some(id) => Some(id.as_str()),
        None => None,
    };
    let d = decide_remote_read(event, message, timeline.last_read_at, current_message, msgs);
    match d {
        ReadDecision::Applied { pending } => {
            timeline.last_read_message = Some(event.message_id.clone());
            timeline.last_read_at = Some(event.timestamp);
            timeline.pending_new_messages = pending;
        },
        ReadDecision::Rejected(_) => {},
    }
    d
}

/// What a read receipt says about one message.
#[derive(Clone, Copy, Debug, Eq, PartialEq, Structural)]
pub enum ReceiptClass {
    /// No stored message has this id.
    RejectedUnknown,
    /// The message belongs to another chat.
    RejectedChatMismatch,
    /// A peer read one of my messages.
    PeerRead,
    /// My other device read a message from someone else.
    LinkedDeviceRead,
}

/// Classifies a read receipt for a message of `chat`.
pub fn classify_read_receipt(chat: &str, message: Option<&StoredMessage>) -> (c: ReceiptClass)
    ensures
        message is None ==> c == ReceiptClass::RejectedUnknown,
        message matches Some(m) ==> c == (if m.chat@ != chat@ {
            ReceiptClass::RejectedChatMismatch
        } else if m.is_from_me {
            ReceiptClass::PeerRead
        } else {
            ReceiptClass::LinkedDeviceRead
        }),
{
    match message {
        None => ReceiptClass::RejectedUnknown,
        Some(m) => {
            if !matches!(compare_text(m.chat.as_str(), chat), Comparison::Equal) {
                ReceiptClass::RejectedChatMismatch
            } else if m.is_from_me {
                ReceiptClass::PeerRead
            } else {
                ReceiptClass::LinkedDeviceRead
            }
        },
    }
}

/// A peer read receipt counts one more reader, saturating.
pub fn record_peer_read(message: &mut StoredMessage)
    ensures
        final(message).read_by == (if old(message).read_by == u32::MAX {
            u32::MAX
        } else {
            (old(message).read_by + 1) as u32
        }),
        final(message).id@ == old(message).id@,
        final(message).timestamp == old(message).timestamp,
        final(message).is_from_me == old(message).is_from_me,
{
    message.read_by = message.read_by.saturating_add(1);
}

/// The greatest cursor among candidate messages.
pub open spec fn is_latest(cands: Seq<StoredMessage>, i: int) -> bool {
    0 <= i < cands.len() && forall|j: int|
        0 <= j < cands.len() ==> !cursor_less(
            cands[i].timestamp,
            cands[i].id@,
            cands[j].timestamp,
            cands[j].id@,
        )
}

proof fn lemma_cursor_less_transitive(t1: i64, a: Seq<char>, t2: i64, b: Seq<char>, t3: i64, c: Seq<char>)
    requires
        cursor_less(t1, a, t2, b),
        cursor_less(t2, b, t3, c),
    ensures
        cursor_less(t1, a, t3, c),
{
    if t1 == t2 && t2 == t3 {
        crate::text_order::lemma_text_less_transitive(a, b, c);
    }
}

proof fn lemma_cursor_total(t1: i64, a: Seq<char>, t2: i64, b: Seq<char>)
    ensures
        !cursor_less(t1, a, t2, b) && !cursor_less(t2, b, t1, a) ==> t1 == t2 && a == b,
        !cursor_less(t1, a, t1, a),
{
    crate::text_order::lemma_text_less_total(a, b);
    crate::text_order::lemma_text_less_total(a, a);
}

/// Picks the message with the greatest cursor (timestamp, then id); the
/// first of equal ones. `None` for no candidates.
pub fn latest_message_index(cands: &[StoredMessage]) -> (r: Option<usize>)
    ensures
        cands.len() == 0 <==> r is None,
        r matches Some(i) ==> is_latest(cands@, i as int),
{
    if cands.len() == 0 {
        return None;
    }
    let mut best: usize = 0;
    let mut i: usize = 1;
    proof {
        lemma_cursor_total(cands@[0].timestamp, cands@[0].id@, cands@[0].timestamp, cands@[0].id@);
    }
    while i < cands.len()
        invariant
            0 <= best < i <= cands.len(),
            forall|j: int|
                0 <= j < i ==> !cursor_less(
                    cands@[best as int].timestamp,
                    cands@[best as int].id@,
                    #[trigger] cands@[j].timestamp,
                    cands@[j].id@,
                ),
        decreases cands.len() - i,
    {
        if cursor_before(
            cands[best].timestamp,
            cands[best].id.as_str(),
            cands[i].timestamp,
            cands[i].id.as_str(),
        ) {
            let ghost old_best = best as int;
            proof {
                assert forall|j: int| 0 <= j < i + 1 implies !cursor_less(
                    cands@[i as int].timestamp,
                    cands@[i as int].id@,
                    #[trigger] cands@[j].timestamp,
                    cands@[j].id@,
                ) by {
                    lemma_cursor_total(cands@[i as int].timestamp, cands@[i as int].id@, cands@[i as int].timestamp, cands@[i as int].id@);
                    if j < i && cursor_less(
                        cands@[i as int].timestamp,
                        cands@[i as int].id@,
                        cands@[j].timestamp,
                        cands@[j].id@,
                    ) {
                        lemma_cursor_less_transitive(
                            cands@[old_best].timestamp,
                            cands@[old_best].id@,
                            cands@[i as int].timestamp,
                            cands@[i as int].id@,
                            cands@[j].timestamp,
                            cands@[j].id@,
                        );
                    }
                }
            }
            best = i;
        }
        i += 1;
    }
    Some(best)
}

/// What a new message does to the open conversation and the unread count.
#[derive(Clone, Copy, Debug, Eq, PartialEq, Structural)]
pub enum NewMessageEffect {
    /// Nothing visible changed.
    Unchanged,
    /// Follow the latest message and mark the chat read.
    CatchUp,
    /// Count one more unread message and keep the selected message.
    CountUnreadAndReanchor,
    /// Keep the selected message.
    Reanchor,
    /// Mark the (closed) chat read at its latest message.
    MarkRead,
    /// Count one more unread message in a closed chat.
    CountUnread,
    /// Only the chat list changed.
    RefreshList,
}

/// The effect of storing a message. Inbound means from someone else and
/// not a status; a confirmed own message is mine and not a status.
pub open spec fn new_message_effect_spec(
    projection_changed: bool,
    is_open_chat: bool,
    is_from_me: bool,
    is_status: bool,
    was_at_latest: bool,
) -> NewMessageEffect {
    let inbound = !is_from_me && !is_status;
    let own = is_from_me && !is_status;
    if !projection_changed {
        NewMessageEffect::Unchanged
    } else if is_open_chat {
        if own || (inbound && was_at_latest) {
            NewMessageEffect::CatchUp
        } else if inbound {
            NewMessageEffect::CountUnreadAndReanchor
        } else {
            NewMessageEffect::Reanchor
        }
    } else if own {
        NewMessageEffect::MarkRead
    } else if inbound {
        NewMessageEffect::CountUnread
    } else {
        NewMessageEffect::RefreshList
    }
}

/// What a stored message does, by case: nothing when the projection did
/// not change; in the open chat, my own message, or one from someone else
/// while the latest message was in view, catches up (and is never counted
/// unread); an inbound message counts as unread exactly when it is not
/// caught up with; a closed chat is marked read only for my own message;
/// and the open chat keeps its selection whenever it does not catch up.
pub proof fn lemma_new_message_effect(
    projection_changed: bool,
    is_open_chat: bool,
    is_from_me: bool,
    is_status: bool,
    was_at_latest: bool,
)
    ensures
        ({
            let e = new_message_effect_spec(projection_changed, is_open_chat, is_from_me, is_status, was_at_latest);
            &&& (e == NewMessageEffect::CatchUp) == (projection_changed && is_open_chat && !is_status && (
            is_from_me || was_at_latest))
            &&& (e == NewMessageEffect::CountUnread || e == NewMessageEffect::CountUnreadAndReanchor) == (
            projection_changed && !is_from_me && !is_status && !(is_open_chat && was_at_latest))
            &&& (e == NewMessageEffect::MarkRead) == (projection_changed && !is_open_chat && is_from_me
                && !is_status)
            &&& (e == NewMessageEffect::Unchanged) == !projection_changed
            &&& (e == NewMessageEffect::CountUnreadAndReanchor || e == NewMessageEffect::Reanchor) == (
            projection_changed && is_open_chat && !(e == NewMessageEffect::CatchUp))
        }),
{
}

/// Decides what a stored message does. In the open chat my own messages,
/// and messages from others while the latest was in view, catch up; other
/// inbound messages count as unread and keep the selection. In a closed
/// chat my own message marks it read and an inbound one counts as unread.
pub fn new_message_effect(
    projection_changed: bool,
    is_open_chat: bool,
    is_from_me: bool,
    is_status: bool,
    was_at_latest: bool,
) -> (e: NewMessageEffect)
    ensures
        e == new_message_effect_spec(projection_changed, is_open_chat, is_from_me, is_status, was_at_latest),
        (e == NewMessageEffect::CatchUp) == (projection_changed && is_open_chat && !is_status && (is_from_me
            || was_at_latest)),
        (e == NewMessageEffect::CountUnread || e == NewMessageEffect::CountUnreadAndReanchor) == (projection_changed
            && !is_from_me && !is_status && !(is_open_chat && was_at_latest)),
        (e == NewMessageEffect::MarkRead) == (projection_changed && !is_open_chat && is_from_me && !is_status),
        (e == NewMessageEffect::Unchanged) == !projection_changed,
        (e == NewMessageEffect::CountUnreadAndReanchor || e == NewMessageEffect::Reanchor) == (projection_changed
            && is_open_chat && !(e == NewMessageEffect::CatchUp)),
{
    proof {
        lemma_new_message_effect(projection_changed, is_open_chat, is_from_me, is_status, was_at_latest);
    }
    let inbound = !is_from_me && !is_status;
    let own = is_from_me && !is_status;
    if !projection_changed {
        NewMessageEffect::Unchanged
    } else if is_open_chat {
        if own || (inbound && was_at_latest) {
            NewMessageEffect::CatchUp
        } else if inbound {
            NewMessageEffect::CountUnreadAndReanchor
        } else {
            NewMessageEffect::Reanchor
        }
    } else if own {
        NewMessageEffect::MarkRead
    } else if inbound {
        NewMessageEffect::CountUnread
    } else {
        NewMessageEffect::RefreshList
    }
}

/// Whether the viewer is at the latest message: the selected message is the
/// latest one, or, with no selected message, no row or the first row is
/// selected.
pub fn is_viewing_latest_message(
    selected_message: Option<&str>,
    selected_row: Option<usize>,
    latest: Option<&str>,
) -> (b: bool)
    ensures
        b == match selected_message {
            Some(anchor) => latest matches Some(l) && l@ == anchor@,
            None => selected_row matches None || selected_row == Some(0usize),
        },
{
    match selected_message {
        Some(anchor) => match latest {
            Some(l) => matches!(compare_text(l, anchor), Comparison::Equal),
            None => false,
        },
        None => match selected_row {
            None => true,
            Some(row) => row == 0,
        },
    }
}

/// How a stored copy of a message changes when the same id arrives again.
#[derive(Clone, Copy, Debug, Eq, PartialEq, Structural)]
pub struct MessageMerge {
    /// The id is new to the store.
    pub is_new: bool,
    /// The arriving copy replaces the stored one.
    pub replace: bool,
    /// Whether the kept copy is mine.
    pub is_from_me: bool,
}

/// Merges an arriving message with a stored copy of the same id. A newer
/// copy replaces the stored one; an older or equal one is dropped.
/// Ownership never goes back: once a message is known to be mine, it stays
/// mine, whatever a later echo says.
pub fn merge_message(stored: Option<&StoredMessage>, incoming: &StoredMessage) -> (m: MessageMerge)
    ensures
        m.is_new == (stored is None),
        m.replace == (stored matches Some(s) ==> s.timestamp < incoming.timestamp),
        stored matches Some(s) ==> m.is_from_me == (if m.replace {
            s.is_from_me || incoming.is_from_me
        } else {
            s.is_from_me
        }),
        stored is None ==> m.is_from_me == incoming.is_from_me,
        stored matches Some(s) && s.is_from_me ==> m.is_from_me,
{
    match stored {
        None => MessageMerge { is_new: true, replace: true, is_from_me: incoming.is_from_me },
        Some(s) => {
            let replace = s.timestamp < incoming.timestamp;
            let from_me = if replace {
                s.is_from_me || incoming.is_from_me
            } else {
                s.is_from_me
            };
            MessageMerge { is_new: false, replace, is_from_me: from_me }
        },
    }
}

/// The read state after marking a chat read at its latest message.
#[derive(Clone, Copy, Debug, Eq, PartialEq, Structural)]
pub struct MarkReadOutcome {
    /// The read state changed, so the chat list must be redrawn.
    pub changed: bool,
    /// Tell the server the chat was read.
    pub sync: bool,
    /// The timestamp stored with the cursor.
    pub timestamp: i64,
}

/// Marks a chat read at its latest message. The cursor timestamp is the
/// latest message's, or 0 without one. The server is told only when the
/// cursor moved, the chat is not the status chat, and the message is
/// known.
pub fn mark_read_at_latest(
    chat: &str,
    timeline: Option<&ChatTimeline>,
    latest_id: Option<&str>,
    latest: Option<&StoredMessage>,
) -> (o: MarkReadOutcome)
    requires
        latest matches Some(m) ==> latest_id matches Some(id) && m.id@ == id@,
    ensures
        o.timestamp == (match latest {
            Some(m) => m.timestamp,
            None => 0,
        }),
        o.changed == (match timeline {
            None => true,
            Some(tl) => tl.pending_new_messages != 0 || !(match (tl.last_read_message, latest_id) {
                (Some(a), Some(b)) => a@ == b@,
                (None, None) => true,
                _ => false,
            }) || tl.last_read_at != Some(o.timestamp),
        }),
        o.sync == (latest is Some && !is_status_chat_spec(chat@) && !(timeline matches Some(tl)
            && (match (tl.last_read_message, latest_id) {
            (Some(a), Some(b)) => a@ == b@,
            (None, None) => true,
            _ => false,
        }) && tl.last_read_at == Some(o.timestamp))),
{
    let timestamp = match latest {
        Some(m) => m.timestamp,
        None => 0,
    };
    let (same_message, same_time, pending) = match timeline {
        None => (false, false, 0),
        Some(tl) => {
            let same_message = match (&tl.last_read_message, latest_id) {
                (Some(a), Some(b)) => matches!(compare_text(a.as_str(), b), Comparison::Equal),
                (None, None) => true,
                _ => false,
            };
            let same_time = match tl.last_read_at {
                Some(t) => t == timestamp,
                None => false,
            };
            (same_message, same_time, tl.pending_new_messages)
        },
    };
    let unchanged = timeline.is_some() && same_message && same_time;
    let changed = timeline.is_none() || pending != 0 || !same_message || !same_time;
    let sync = latest.is_some() && !unchanged && !is_status_chat(chat);
    MarkReadOutcome { changed, sync, timestamp }
}

/// What a read receipt from my other device does to a chat's cursor.
#[derive(Clone, Copy, Debug, Eq, PartialEq, Structural)]
pub enum LocalReadOutcome {
    /// No receipt named a message of the chat.
    NoMessage,
    /// The cursor is already at or past the latest read message.
    StaleCursor,
    /// The cursor moves to the candidate at this position; this many
    /// messages from others remain unread after it.
    Applied { index: usize, pending: usize },
}

/// The cursor moves to the latest read message, unless the current cursor
/// is already at or past it.
pub open spec fn local_read_spec(
    current: Option<(i64, Seq<char>)>,
    cands: Seq<StoredMessage>,
    chat_msgs: Seq<StoredMessage>,
    outcome: LocalReadOutcome,
) -> bool {
    match outcome {
        LocalReadOutcome::NoMessage => cands.len() == 0,
        LocalReadOutcome::StaleCursor => exists|i: int|
            is_latest(cands, i) && (current matches Some(c) && !cursor_less(
                c.0,
                c.1,
                cands[i].timestamp,
                cands[i].id@,
            )),
        LocalReadOutcome::Applied { index, pending } => {
            &&& is_latest(cands, index as int)
            &&& !(current matches Some(c) && !cursor_less(
                c.0,
                c.1,
                cands[index as int].timestamp,
                cands[index as int].id@,
            ))
            &&& pending == pending_after_spec(
                chat_msgs,
                cands[index as int].timestamp,
                cands[index as int].id@,
            )
        },
    }
}

/// Applies read receipts of my other device to a non-status chat: among
/// the receipts' messages of the chat (`cands`), the latest by timestamp
/// and id becomes the cursor, unless the current cursor is not behind it;
/// the unread count becomes the messages from others after it among the
/// chat's messages.
pub fn local_read_cursor(
    current: Option<(i64, &str)>,
    cands: &[StoredMessage],
    chat_msgs: &[StoredMessage],
) -> (o: LocalReadOutcome)
    ensures
        local_read_spec(
            match current {
                Some((t, id)) => Some((t, id@)),
                None => None,
            },
            cands@,
            chat_msgs@,
            o,
        ),
{
    let index = match latest_message_index(cands) {
        Some(i) => i,
        None => return LocalReadOutcome::NoMessage,
    };
    let target = &cands[index];
    match current {
        Some((t, id)) => {
            if !cursor_before(t, id, target.timestamp, target.id.as_str()) {
                return LocalReadOutcome::StaleCursor;
            }
        },
        None => {},
    }
    let pending = pending_after(chat_msgs, target.timestamp, target.id.as_str());
    LocalReadOutcome::Applied { index, pending }
}

/// The latest status timestamp of each sender, once per sender in the
/// order senders first occur.
pub open spec fn latest_per_sender(entries: Seq<(Seq<char>, i64)>) -> Seq<(Seq<char>, i64)>
    decreases entries.len(),
{
    if entries.len() == 0 {
        Seq::empty()
    } else {
        let rest = latest_per_sender(entries.drop_last());
        let e = entries.last();
        if exists|i: int| 0 <= i < rest.len() && rest[i].0 == e.0 {
            let i = choose|i: int| 0 <= i < rest.len() && rest[i].0 == e.0;
            rest.update(i, (e.0, if rest[i].1 < e.1 { e.1 } else { rest[i].1 }))
        } else {
            rest.push(e)
        }
    }
}

/// Whether the senders of `v` are distinct.
pub open spec fn distinct_senders(v: Seq<(Seq<char>, i64)>) -> bool {
    forall|a: int, b: int| 0 <= a < b < v.len() ==> v[a].0 != v[b].0
}

/// The status messages that receipts marked read, as (sender, timestamp).
pub open spec fn sender_times(msgs: Seq<StoredMessage>) -> Seq<(Seq<char>, i64)> {
    msgs.map_values(|m: StoredMessage| (m.sender@, m.timestamp))
}

/// Every entry of `v` is one of `entries`.
pub open spec fn entries_witnessed(entries: Seq<(Seq<char>, i64)>, v: Seq<(Seq<char>, i64)>) -> bool {
    forall|i: int| 0 <= i < v.len() ==> entries.contains(#[trigger] v[i])
}

/// Some entry of `v` belongs to sender `s`.
pub open spec fn has_sender(v: Seq<(Seq<char>, i64)>, s: Seq<char>) -> bool {
    exists|i: int| 0 <= i < v.len() && v[i].0 == s
}

/// No entry of a sender is later than that sender's entry in `v`.
pub open spec fn entries_bounded(entries: Seq<(Seq<char>, i64)>, v: Seq<(Seq<char>, i64)>) -> bool {
    forall|i: int, j: int|
        0 <= i < v.len() && 0 <= j < entries.len() && #[trigger] entries[j].0 == #[trigger] v[i].0 ==> entries[j].1
            <= v[i].1
}

/// Every sender of `entries` has an entry in `v`.
pub open spec fn senders_covered(entries: Seq<(Seq<char>, i64)>, v: Seq<(Seq<char>, i64)>) -> bool {
    forall|j: int| 0 <= j < entries.len() ==> has_sender(v, #[trigger] entries[j].0)
}

#[verifier::spinoff_prover]
proof fn lemma_latest_step_known(prev: Seq<(Seq<char>, i64)>, e: (Seq<char>, i64), c: int)
    requires
        distinct_senders(latest_per_sender(prev)),
        entries_witnessed(prev, latest_per_sender(prev)),
        entries_bounded(prev, latest_per_sender(prev)),
        senders_covered(prev, latest_per_sender(prev)),
        0 <= c < latest_per_sender(prev).len(),
        latest_per_sender(prev)[c].0 == e.0,
    ensures
        ({
            let rest = latest_per_sender(prev);
            let v = rest.update(c, (e.0, if rest[c].1 < e.1 { e.1 } else { rest[c].1 }));
            let entries = prev.push(e);
            &&& distinct_senders(v)
            &&& entries_witnessed(entries, v)
            &&& entries_bounded(entries, v)
            &&& senders_covered(entries, v)
        }),
{
    let rest = latest_per_sender(prev);
    let v = rest.update(c, (e.0, if rest[c].1 < e.1 { e.1 } else { rest[c].1 }));
    let entries = prev.push(e);
    let n = prev.len() as int;
    assert forall|a: int, b: int| 0 <= a < b < v.len() implies v[a].0 != v[b].0 by {
        assert(v[a].0 == rest[a].0 && v[b].0 == rest[b].0);
    }
    assert forall|i: int| 0 <= i < v.len() implies entries.contains(#[trigger] v[i]) by {
        if i == c && rest[c].1 < e.1 {
            assert(entries[n] == v[i]);
        } else {
            assert(v[i] == rest[i]);
            assert(prev.contains(rest[i]));
            let j = choose|j: int| 0 <= j < prev.len() && prev[j] == rest[i];
            assert(entries[j] == v[i]);
        }
    }
    assert forall|i: int, j: int|
        0 <= i < v.len() && 0 <= j < entries.len() && #[trigger] entries[j].0 == #[trigger] v[i].0 implies entries[j].1
            <= v[i].1 by {
        if j < n {
            assert(prev[j] == entries[j]);
            assert(prev[j].0 == rest[i].0);
        } else if i != c {
            if i < c {
                assert(rest[i].0 != rest[c].0);
            } else {
                assert(rest[c].0 != rest[i].0);
            }
        }
    }
    assert forall|j: int| 0 <= j < entries.len() implies has_sender(v, #[trigger] entries[j].0) by {
        if j < n {
            assert(prev[j] == entries[j]);
            assert(has_sender(rest, prev[j].0));
            let i = choose|i: int| 0 <= i < rest.len() && rest[i].0 == prev[j].0;
            assert(v[i].0 == rest[i].0);
        } else {
            assert(v[c].0 == entries[j].0);
        }
    }    assert(distinct_senders(v));
    assert(entries_witnessed(entries, v));
    assert(entries_bounded(entries, v));
    assert(senders_covered(entries, v));
}

#[verifier::spinoff_prover]
proof fn lemma_latest_step_new(prev: Seq<(Seq<char>, i64)>, e: (Seq<char>, i64))
    requires
        distinct_senders(latest_per_sender(prev)),
        entries_witnessed(prev, latest_per_sender(prev)),
        entries_bounded(prev, latest_per_sender(prev)),
        senders_covered(prev, latest_per_sender(prev)),
        forall|i: int| 0 <= i < latest_per_sender(prev).len() ==> latest_per_sender(prev)[i].0 != e.0,
    ensures
        ({
            let v = latest_per_sender(prev).push(e);
            let entries = prev.push(e);
            &&& distinct_senders(v)
            &&& entries_witnessed(entries, v)
            &&& entries_bounded(entries, v)
            &&& senders_covered(entries, v)
        }),
{
    let rest = latest_per_sender(prev);
    let v = rest.push(e);
    let entries = prev.push(e);
    let n = prev.len() as int;
    assert forall|a: int, b: int| 0 <= a < b < v.len() implies v[a].0 != v[b].0 by {
        assert(v[a] == rest[a]);
        if b < rest.len() {
            assert(v[b] == rest[b]);
        }
    }
    assert forall|i: int| 0 <= i < v.len() implies entries.contains(#[trigger] v[i]) by {
        if i == rest.len() {
            assert(entries[n] == v[i]);
        } else {
            assert(v[i] == rest[i]);
            assert(prev.contains(rest[i]));
            let j = choose|j: int| 0 <= j < prev.len() && prev[j] == rest[i];
            assert(entries[j] == v[i]);
        }
    }
    assert forall|i: int, j: int|
        0 <= i < v.len() && 0 <= j < entries.len() && #[trigger] entries[j].0 == #[trigger] v[i].0 implies entries[j].1
            <= v[i].1 by {
        if j < n {
            assert(prev[j] == entries[j]);
            if i < rest.len() {
                assert(v[i] == rest[i]);
                assert(prev[j].0 == rest[i].0);
            } else {
                assert(has_sender(rest, prev[j].0));
                let k = choose|k: int| 0 <= k < rest.len() && rest[k].0 == prev[j].0;
                assert(rest[k].0 == e.0);
            }
        } else if i < rest.len() {
            assert(v[i] == rest[i]);
        }
    }
    assert forall|j: int| 0 <= j < entries.len() implies has_sender(v, #[trigger] entries[j].0) by {
        if j < n {
            assert(prev[j] == entries[j]);
            assert(has_sender(rest, prev[j].0));
            let i = choose|i: int| 0 <= i < rest.len() && rest[i].0 == prev[j].0;
            assert(v[i] == rest[i]);
        } else {
            assert(v[rest.len() as int].0 == entries[j].0);
        }
    }    assert(distinct_senders(v));
    assert(entries_witnessed(entries, v));
    assert(entries_bounded(entries, v));
    assert(senders_covered(entries, v));
}

/// Each sender's entry holds the latest timestamp among that sender's
/// entries: it is one of them and no entry of the sender is later; every
/// sender of the input has an entry, and no sender has two.
pub proof fn lemma_latest_per_sender(entries: Seq<(Seq<char>, i64)>)
    ensures
        distinct_senders(latest_per_sender(entries)),
        entries_witnessed(entries, latest_per_sender(entries)),
        entries_bounded(entries, latest_per_sender(entries)),
        senders_covered(entries, latest_per_sender(entries)),
    decreases entries.len(),
{
    if entries.len() > 0 {
        let prev = entries.drop_last();
        lemma_latest_per_sender(prev);
        let rest = latest_per_sender(prev);
        let e = entries.last();
        assert(prev.push(e) =~= entries);
        if exists|i: int| 0 <= i < rest.len() && rest[i].0 == e.0 {
            let c = choose|i: int| 0 <= i < rest.len() && rest[i].0 == e.0;
            lemma_latest_step_known(prev, e, c);
        } else {
            lemma_latest_step_new(prev, e);
        }
    }
}

/// Some entry before position `j` belongs to sender `s`.
pub open spec fn sender_before(entries: Seq<(Seq<char>, i64)>, s: Seq<char>, j: int) -> bool {
    exists|i: int| 0 <= i < j && entries[i].0 == s
}

/// The senders of `v` come in the order of their first entries: before
/// any entry of a later sender there is an entry of each earlier one.
pub open spec fn senders_in_first_order(entries: Seq<(Seq<char>, i64)>, v: Seq<(Seq<char>, i64)>) -> bool {
    forall|a: int, b: int, j: int|
        0 <= a < b < v.len() && 0 <= j < entries.len() && #[trigger] entries[j].0 == #[trigger] v[b].0
            ==> sender_before(entries, #[trigger] v[a].0, j)
}

/// Senders come in the order in which they first appear.
pub proof fn lemma_latest_per_sender_order(entries: Seq<(Seq<char>, i64)>)
    ensures
        senders_in_first_order(entries, latest_per_sender(entries)),
    decreases entries.len(),
{
    if entries.len() > 0 {
        let prev = entries.drop_last();
        lemma_latest_per_sender_order(prev);
        lemma_latest_per_sender(prev);
        let rest = latest_per_sender(prev);
        let e = entries.last();
        let v = latest_per_sender(entries);
        let n = prev.len() as int;
        assert(prev.push(e) =~= entries);
        let known = exists|i: int| 0 <= i < rest.len() && rest[i].0 == e.0;
        let c = choose|i: int| 0 <= i < rest.len() && rest[i].0 == e.0;
        assert forall|x: int| 0 <= x < rest.len() implies #[trigger] v[x].0 == rest[x].0 by {}
        assert forall|a: int, b: int, j: int|
            0 <= a < b < v.len() && 0 <= j < entries.len() && #[trigger] entries[j].0 == #[trigger] v[b].0
            implies sender_before(entries, #[trigger] v[a].0, j) by {
            assert(v[a].0 == rest[a].0);
            if j < n && b < rest.len() {
                assert(entries[j] == prev[j]);
                assert(v[b].0 == rest[b].0);
                assert(sender_before(prev, rest[a].0, j));
                let i = choose|i: int| 0 <= i < j && prev[i].0 == rest[a].0;
                assert(entries[i] == prev[i]);
            } else if j < n {
                assert(entries[j] == prev[j]);
                assert(!known);
                assert(has_sender(rest, prev[j].0));
                let q = choose|q: int| 0 <= q < rest.len() && rest[q].0 == prev[j].0;
                assert(rest[q].0 == e.0);
            } else if b < rest.len() {
                assert(v[b].0 == rest[b].0);
                assert(known);
                if b != c {
                    if b < c {
                        assert(rest[b].0 != rest[c].0);
                    } else {
                        assert(rest[c].0 != rest[b].0);
                    }
                }
                assert(prev.contains(rest[b]));
                let jj = choose|jj: int| 0 <= jj < prev.len() && prev[jj] == rest[b];
                assert(sender_before(prev, rest[a].0, jj));
                let i = choose|i: int| 0 <= i < jj && prev[i].0 == rest[a].0;
                assert(entries[i] == prev[i]);
            } else {
                assert(prev.contains(rest[a]));
                let i = choose|i: int| 0 <= i < prev.len() && prev[i] == rest[a];
                assert(entries[i] == prev[i]);
            }
        }
    }
}

/// Some receipt before position `j` is from sender `s`.
pub open spec fn receipt_before(msgs: Seq<StoredMessage>, s: Seq<char>, j: int) -> bool {
    exists|i: int| 0 <= i < j && msgs[i].sender@ == s
}

/// The latest read time of each sender: one entry per sender of the
/// receipts, holding the timestamp of one of that sender's receipts and no
/// earlier than any of them.
#[verifier::spinoff_prover]
pub proof fn lemma_status_reads(msgs: Seq<StoredMessage>, r: Seq<(String, i64)>)
    requires
        r.map_values(|e: (String, i64)| (e.0@, e.1)) == latest_per_sender(sender_times(msgs)),
    ensures
        forall|i: int|
            0 <= i < r.len() ==> exists|j: int|
                0 <= j < msgs.len() && msgs[j].sender@ == (#[trigger] r[i]).0@ && msgs[j].timestamp == r[i].1,
        forall|i: int, j: int|
            0 <= i < r.len() && 0 <= j < msgs.len() && (#[trigger] msgs[j]).sender@ == (#[trigger] r[i]).0@
                ==> msgs[j].timestamp <= r[i].1,
        forall|j: int|
            0 <= j < msgs.len() ==> exists|i: int|
                0 <= i < r.len() && r[i].0@ == (#[trigger] msgs[j]).sender@,
{
    let all = sender_times(msgs);
    let v = r.map_values(|e: (String, i64)| (e.0@, e.1));
    lemma_latest_per_sender(all);
    assert forall|i: int| 0 <= i < r.len() implies exists|j: int|
        0 <= j < msgs.len() && msgs[j].sender@ == (#[trigger] r[i]).0@ && msgs[j].timestamp == r[i].1 by {
        assert(v[i] == (r[i].0@, r[i].1));
        assert(all.contains(v[i]));
        let j = choose|j: int| 0 <= j < all.len() && all[j] == v[i];
        assert(all[j] == (msgs[j].sender@, msgs[j].timestamp));
    }
    assert forall|i: int, j: int|
        0 <= i < r.len() && 0 <= j < msgs.len() && (#[trigger] msgs[j]).sender@ == (#[trigger] r[i]).0@
        implies msgs[j].timestamp <= r[i].1 by {
        assert(v[i] == (r[i].0@, r[i].1));
        assert(all[j] == (msgs[j].sender@, msgs[j].timestamp));
        assert(all[j].0 == v[i].0);
    }
    assert forall|j: int| 0 <= j < msgs.len() implies exists|i: int|
        0 <= i < r.len() && r[i].0@ == (#[trigger] msgs[j]).sender@ by {
        assert(all[j] == (msgs[j].sender@, msgs[j].timestamp));
        assert(has_sender(v, all[j].0));
        let i = choose|i: int| 0 <= i < v.len() && v[i].0 == all[j].0;
        assert(v[i] == (r[i].0@, r[i].1));
    }
}

/// The senders of the latest read times come in the order in which they
/// first appear among the receipts.
#[verifier::spinoff_prover]
pub proof fn lemma_status_reads_order(msgs: Seq<StoredMessage>, r: Seq<(String, i64)>)
    requires
        r.map_values(|e: (String, i64)| (e.0@, e.1)) == latest_per_sender(sender_times(msgs)),
    ensures
        forall|a: int, b: int, j: int|
            0 <= a < b < r.len() && 0 <= j < msgs.len() && (#[trigger] msgs[j]).sender@ == (#[trigger] r[b]).0@
                ==> receipt_before(msgs, (#[trigger] r[a]).0@, j),
{
    let all = sender_times(msgs);
    let v = r.map_values(|e: (String, i64)| (e.0@, e.1));
    lemma_latest_per_sender_order(all);
    assert forall|a: int, b: int, j: int|
        0 <= a < b < r.len() && 0 <= j < msgs.len() && (#[trigger] msgs[j]).sender@ == (#[trigger] r[b]).0@
        implies receipt_before(msgs, (#[trigger] r[a]).0@, j) by {
        assert(v[a] == (r[a].0@, r[a].1));
        assert(v[b] == (r[b].0@, r[b].1));
        assert(all[j] == (msgs[j].sender@, msgs[j].timestamp));
        assert(all[j].0 == v[b].0);
        assert(sender_before(all, v[a].0, j));
        let i = choose|i: int| 0 <= i < j && all[i].0 == v[a].0;
        assert(all[i] == (msgs[i].sender@, msgs[i].timestamp));
    }
}

/// For read receipts on status updates: the latest read timestamp of
/// each sender, each sender once.
#[verifier::spinoff_prover]
#[verifier::rlimit(50)]
pub fn latest_status_reads(msgs: &[StoredMessage]) -> (r: Vec<(String, i64)>)
    ensures
        r@.map_values(|e: (String, i64)| (e.0@, e.1)) == latest_per_sender(sender_times(msgs@)),
        distinct_senders(r@.map_values(|e: (String, i64)| (e.0@, e.1))),
        forall|i: int|
            0 <= i < r@.len() ==> exists|j: int|
                0 <= j < msgs@.len() && msgs@[j].sender@ == (#[trigger] r@[i]).0@ && msgs@[j].timestamp == r@[i].1,
        forall|i: int, j: int|
            0 <= i < r@.len() && 0 <= j < msgs@.len() && (#[trigger] msgs@[j]).sender@ == (#[trigger] r@[i]).0@
                ==> msgs@[j].timestamp <= r@[i].1,
        forall|j: int|
            0 <= j < msgs@.len() ==> exists|i: int|
                0 <= i < r@.len() && r@[i].0@ == (#[trigger] msgs@[j]).sender@,
        forall|a: int, b: int, j: int|
            0 <= a < b < r@.len() && 0 <= j < msgs@.len() && (#[trigger] msgs@[j]).sender@ == (#[trigger] r@[b]).0@
                ==> receipt_before(msgs@, (#[trigger] r@[a]).0@, j),
{
    let ghost all = sender_times(msgs@);
    let mut r: Vec<(String, i64)> = Vec::new();
    let mut k: usize = 0;
    while k < msgs.len()
        invariant
            0 <= k <= msgs.len(),
            all == sender_times(msgs@),
            r@.map_values(|e: (String, i64)| (e.0@, e.1)) == latest_per_sender(all.take(k as int)),
            distinct_senders(r@.map_values(|e: (String, i64)| (e.0@, e.1))),
        decreases msgs.len() - k,
    {
        let ghost rv = r@.map_values(|e: (String, i64)| (e.0@, e.1));
        proof {
            assert(all.take(k + 1).drop_last() =~= all.take(k as int));
            assert(all.take(k + 1).last() == (msgs@[k as int].sender@, msgs@[k as int].timestamp));
        }
        let m = &msgs[k];
        let mut i: usize = 0;
        while i < r.len()
            invariant
                0 <= i <= r.len(),
                rv == r@.map_values(|e: (String, i64)| (e.0@, e.1)),
                forall|j: int| 0 <= j < i ==> rv[j].0 != m.sender@,
            ensures
                i < r.len() ==> rv[i as int].0 == m.sender@,
                i == r.len() ==> forall|j: int| 0 <= j < rv.len() ==> rv[j].0 != m.sender@,
            decreases r.len() - i,
        {
            if r[i].0 == m.sender {
                assert(rv[i as int].0 == r@[i as int].0@);
                break;
            }
            assert(rv[i as int].0 == r@[i as int].0@);
            i += 1;
        }
        if i < r.len() {
            assert(rv[i as int].0 == r@[i as int].0@);
            let latest = if r[i].1 < m.timestamp {
                m.timestamp
            } else {
                r[i].1
            };
            let sender = r[i].0.clone();
            r.set(i, (sender, latest));
            proof {
                let e = (m.sender@, m.timestamp);
                assert(exists|j: int| 0 <= j < rv.len() && rv[j].0 == e.0);
                let c = choose|j: int| 0 <= j < rv.len() && rv[j].0 == e.0;
                assert(distinct_senders(rv));
                assert(c == i as int);
                assert(r@.map_values(|e: (String, i64)| (e.0@, e.1)) =~= rv.update(
                    i as int,
                    (e.0, if rv[i as int].1 < e.1 { e.1 } else { rv[i as int].1 }),
                ));
            }
        } else {
            r.push((m.sender.clone(), m.timestamp));
            proof {
                assert(r@.map_values(|e: (String, i64)| (e.0@, e.1)) =~= rv.push((m.sender@, m.timestamp)));
            }
        }
        proof {
            let nv = r@.map_values(|e: (String, i64)| (e.0@, e.1));
            assert forall|a: int, b: int| 0 <= a < b < nv.len() implies nv[a].0 != nv[b].0 by {
                if b < rv.len() {
                    assert(nv[a].0 == rv[a].0 && nv[b].0 == rv[b].0);
                }
            }
        }
        k += 1;
    }
    proof {
        assert(all.take(msgs.len() as int) =~= all);
        lemma_status_reads(msgs@, r@);
        lemma_status_reads_order(msgs@, r@);
    }
    r
}

/// Whether a status read at `timestamp` moves a contact's last-seen time,
/// which is 0 when none is known: only a later time does.
pub fn status_read_advances(last_seen: Option<i64>, timestamp: i64) -> (b: bool)
    ensures
        b == (timestamp > match last_seen {
            Some(t) => t,
            None => 0,
        }),
{
    let current = match last_seen {
        Some(t) => t,
        None => 0,
    };
    timestamp > current
}

/// A contact's last-seen status time once the cursor store answered: the
/// read time where it was stored, the old value where storing failed.
pub fn status_seen_after_store(last_seen: Option<i64>, timestamp: i64, stored: bool) -> (r: Option<i64>)
    ensures
        r == (if stored {
            Some(timestamp)
        } else {
            last_seen
        }),
{
    if stored {
        Some(timestamp)
    } else {
        last_seen
    }
}

} // verus!
