//! Ordering of the chat list (most recent first, broadcast lists hidden)
//! and of a chat's messages (oldest first, ties by message id).
use vstd::prelude::*;

use crate::read_state::{ends_with, is_broadcast_jid};
use crate::text_order::{cursor_before, cursor_less, lemma_text_less_total, lemma_text_less_transitive};

verus! {

/// A chat and the time of its latest message.
#[derive(Debug)]
pub struct Chat {
    pub jid: String,
    pub last_message_time: Option<i64>,
}

/// The recency of a chat; a chat without messages counts as time 0.
pub open spec fn recency(c: Chat) -> i64 {
    match c.last_message_time {
        Some(t) => t,
        None => 0,
    }
}

/// Chat `x` is listed before chat `y`: more recent, or equally recent and
/// earlier in the input.
pub open spec fn chat_before(chats: Seq<Chat>, x: int, y: int) -> bool {
    recency(chats[x]) > recency(chats[y]) || (recency(chats[x]) == recency(chats[y]) && x < y)
}

/// The chat is listed: it is not a broadcast list.
pub open spec fn listed(c: Chat) -> bool {
    !ends_with(c.jid@, "@broadcast"@)
}

/// `order` lists input positions strictly in listing order.
pub open spec fn in_chat_order(chats: Seq<Chat>, order: Seq<usize>) -> bool {
    forall|a: int, b: int|
        0 <= a < b < order.len() ==> chat_before(chats, order[a] as int, order[b] as int)
}

/// The listing order of the chats: positions of the listed chats, most
/// recent first, ties in input order.
pub open spec fn is_chat_listing(chats: Seq<Chat>, order: Seq<usize>) -> bool {
    &&& in_chat_order(chats, order)
    &&& forall|x: usize| order.contains(x) <==> (x < chats.len() && listed(chats[x as int]))
}

fn chat_recency(c: &Chat) -> (t: i64)
    ensures
        t == recency(*c),
{
    match c.last_message_time {
        Some(t) => t,
        None => 0,
    }
}

/// Lists the chats: broadcast lists are hidden, the rest ordered most
/// recent first; equally recent chats keep their input order.
pub fn sorted_chat_order(chats: &[Chat]) -> (order: Vec<usize>)
    ensures
        is_chat_listing(chats@, order@),
{
    let mut order: Vec<usize> = Vec::new();
    let mut k: usize = 0;
    while k < chats.len()
        invariant
            0 <= k <= chats.len(),
            in_chat_order(chats@, order@),
            forall|x: usize| order@.contains(x) <==> (x < k && listed(chats@[x as int])),
        decreases chats.len() - k,
    {
        if !is_broadcast_jid(chats[k].jid.as_str()) {
            let tk = chat_recency(&chats[k]);
            let mut p: usize = 0;
            assert forall|a: int| 0 <= a < order.len() implies (order@[a] as int) < k by {
                assert(order@.contains(order@[a]));
            }
            while p < order.len() && chat_recency(&chats[order[p]]) >= tk
                invariant
                    0 <= p <= order.len(),
                    k < chats.len(),
                    forall|a: int| 0 <= a < order.len() ==> (order@[a] as int) < k,
                    forall|x: usize| order@.contains(x) ==> x < k,
                    forall|a: int| 0 <= a < p ==> recency(chats@[order@[a] as int]) >= tk,
                    forall|x: usize| order@.contains(x) ==> x < chats.len(),
                decreases order.len() - p,
            {
                p += 1;
            }
            let ghost before = order@;
            proof {
                assert forall|a: int| p <= a < before.len() implies recency(chats@[before[a] as int]) < tk by {
                    if p < before.len() {
                        if a > p {
                            assert(chat_before(chats@, before[p as int] as int, before[a] as int));
                        }
                    }
                }
            }
            order.insert(p, k);
            proof {
                assert(order@ == before.insert(p as int, k));
                assert forall|a: int, b: int|
                    0 <= a < b < order@.len() implies chat_before(chats@, order@[a] as int, order@[b] as int) by {
                    if a < p as int && b < p as int {
                        assert(order@[a] == before[a] && order@[b] == before[b]);
                    } else if a < p as int && b == p as int {
                        assert(order@[a] == before[a]);
                        assert(before.contains(before[a]));
                    } else if a < p as int {
                        assert(order@[a] == before[a] && order@[b] == before[b - 1]);
                    } else if a == p as int {
                        assert(order@[b] == before[b - 1]);
                    } else {
                        assert(order@[a] == before[a - 1] && order@[b] == before[b - 1]);
                    }
                }
                assert forall|x: usize| order@.contains(x) <==> (x < k + 1 && listed(chats@[x as int])) by {
                    if order@.contains(x) {
                        let i = choose|i: int| 0 <= i < order@.len() && order@[i] == x;
                        if i < p as int {
                            assert(before[i] == x);
                            assert(before.contains(x));
                        } else if i > p as int {
                            assert(before[i - 1] == x);
                            assert(before.contains(x));
                        }
                    }
                    if x < k + 1 && listed(chats@[x as int]) {
                        if x == k {
                            assert(order@[p as int] == k);
                        } else {
                            assert(before.contains(x));
                            let i = choose|i: int| 0 <= i < before.len() && before[i] == x;
                            if i < p as int {
                                assert(order@[i] == x);
                            } else {
                                assert(order@[i + 1] == x);
                            }
                        }
                    }
                }
            }
        }
        k += 1;
    }
    order
}

/// The JIDs of the chat list, in listing order.
pub fn sorted_chat_jids(chats: &[Chat]) -> (jids: Vec<String>)
    ensures
        exists|order: Seq<usize>|
            is_chat_listing(chats@, order) && jids.len() == order.len() && forall|i: int|
                0 <= i < order.len() ==> (#[trigger] jids@[i])@ == chats@[order[i] as int].jid@,
{
    let order = sorted_chat_order(chats);
    let mut jids: Vec<String> = Vec::new();
    let mut i: usize = 0;
    while i < order.len()
        invariant
            0 <= i <= order.len(),
            jids.len() == i,
            is_chat_listing(chats@, order@),
            forall|j: int| 0 <= j < i ==> (#[trigger] jids@[j])@ == chats@[order@[j] as int].jid@,
        decreases order.len() - i,
    {
        assert(order@.contains(order@[i as int]));
        jids.push(chats[order[i]].jid.clone());
        i += 1;
    }
    jids
}

/// The sort key of a message of a chat: its timestamp, or the smallest
/// timestamp when the message is not stored, and its id.
#[derive(Debug)]
pub struct MessageKey {
    pub id: String,
    pub timestamp: Option<i64>,
}

pub open spec fn key_time(k: MessageKey) -> i64 {
    match k.timestamp {
        Some(t) => t,
        None => i64::MIN,
    }
}

/// Message `x` sorts before message `y`: older, or as old with a smaller
/// id, or with the same key and earlier in the input.
pub open spec fn message_before(keys: Seq<MessageKey>, x: int, y: int) -> bool {
    cursor_less(key_time(keys[x]), keys[x].id@, key_time(keys[y]), keys[y].id@) || (key_time(
        keys[x],
    ) == key_time(keys[y]) && keys[x].id@ == keys[y].id@ && x < y)
}

/// `order` sorts all message positions oldest first.
pub open spec fn is_message_order(keys: Seq<MessageKey>, order: Seq<usize>) -> bool {
    &&& forall|a: int, b: int|
        0 <= a < b < order.len() ==> message_before(keys, order[a] as int, order[b] as int)
    &&& forall|x: usize| order.contains(x) <==> x < keys.len()
}

fn message_time(k: &MessageKey) -> (t: i64)
    ensures
        t == key_time(*k),
{
    match k.timestamp {
        Some(t) => t,
        None => i64::MIN,
    }
}

proof fn lemma_message_before_total(keys: Seq<MessageKey>, x: int, y: int)
    requires
        x < y,
    ensures
        message_before(keys, x, y) || message_before(keys, y, x),
        !(message_before(keys, x, y) && message_before(keys, y, x)),
{
    lemma_text_less_total(keys[x].id@, keys[y].id@);
}

proof fn lemma_message_before_transitive(keys: Seq<MessageKey>, x: int, y: int, z: int)
    requires
        message_before(keys, x, y),
        message_before(keys, y, z),
    ensures
        message_before(keys, x, z),
{
    let (tx, ty, tz) = (key_time(keys[x]), key_time(keys[y]), key_time(keys[z]));
    if tx == ty && ty == tz {
        if cursor_less(tx, keys[x].id@, ty, keys[y].id@) && cursor_less(ty, keys[y].id@, tz, keys[z].id@) {
            lemma_text_less_transitive(keys[x].id@, keys[y].id@, keys[z].id@);
        }
    }
}

/// Sorts a chat's messages oldest first; messages with the same timestamp
/// are ordered by id.
pub fn sorted_message_order(keys: &[MessageKey]) -> (order: Vec<usize>)
    ensures
        is_message_order(keys@, order@),
{
    let mut order: Vec<usize> = Vec::new();
    let mut k: usize = 0;
    while k < keys.len()
        invariant
            0 <= k <= keys.len(),
            forall|a: int, b: int|
                0 <= a < b < order@.len() ==> message_before(keys@, order@[a] as int, order@[b] as int),
            forall|x: usize| order@.contains(x) <==> x < k,
        decreases keys.len() - k,
    {
        let tk = message_time(&keys[k]);
        let mut p: usize = 0;
        assert forall|a: int| 0 <= a < order.len() implies (order@[a] as int) < k by {
            assert(order@.contains(order@[a]));
        }
        while p < order.len()
            invariant
                0 <= p <= order.len(),
                k < keys.len(),
                tk == key_time(keys@[k as int]),
                forall|a: int| 0 <= a < order.len() ==> (order@[a] as int) < k,
                forall|x: usize| order@.contains(x) <==> x < k,
                forall|a: int| 0 <= a < p ==> message_before(keys@, order@[a] as int, k as int),
            ensures
                p < order.len() ==> message_before(keys@, k as int, order@[p as int] as int),
            decreases order.len() - p,
        {
            let x = order[p];
            let earlier = cursor_before(tk, keys[k].id.as_str(), message_time(&keys[x]), keys[x].id.as_str());
            if earlier {
                break;
            }
            proof {
                assert((x as int) < k);
                assert(!message_before(keys@, k as int, x as int));
                lemma_message_before_total(keys@, x as int, k as int);
            }
            p += 1;
        }
        let ghost before = order@;
        proof {
            assert forall|a: int| p <= a < before.len() implies message_before(keys@, k as int, before[a] as int) by {
                if a > p {
                    lemma_message_before_transitive(keys@, k as int, before[p as int] as int, before[a] as int);
                }
            }
        }
        order.insert(p, k);
        proof {
            assert(order@ == before.insert(p as int, k));
            assert forall|a: int, b: int|
                0 <= a < b < order@.len() implies message_before(keys@, order@[a] as int, order@[b] as int) by {
                if a < p as int && b < p as int {
                    assert(order@[a] == before[a] && order@[b] == before[b]);
                } else if a < p as int && b == p as int {
                    assert(order@[a] == before[a]);
                } else if a < p as int {
                    assert(order@[a] == before[a] && order@[b] == before[b - 1]);
                } else if a == p as int {
                    assert(order@[b] == before[b - 1]);
                } else {
                    assert(order@[a] == before[a - 1] && order@[b] == before[b - 1]);
                }
            }
            assert forall|x: usize| order@.contains(x) <==> x < k + 1 by {
                if order@.contains(x) {
                    let i = choose|i: int| 0 <= i < order@.len() && order@[i] == x;
                    if i < p as int {
                        assert(before[i] == x);
                        assert(before.contains(x));
                    } else if i > p as int {
                        assert(before[i - 1] == x);
                        assert(before.contains(x));
                    }
                }
                if x < k + 1 {
                    if x == k {
                        assert(order@[p as int] == k);
                    } else {
                        assert(before.contains(x));
                        let i = choose|i: int| 0 <= i < before.len() && before[i] == x;
                        if i < p as int {
                            assert(order@[i] == x);
                        } else {
                            assert(order@[i + 1] == x);
                        }
                    }
                }
            }
        }
        k += 1;
    }
    order
}

/// The time of a chat's latest message once a message at `timestamp` is
/// stored: the later of the two; a chat without messages takes it.
pub open spec fn time_after_message(last: Option<i64>, timestamp: i64) -> Option<i64> {
    match last {
        Some(t) => if timestamp > t {
            Some(timestamp)
        } else {
            Some(t)
        },
        None => Some(timestamp),
    }
}

/// The latest-message time of a known chat once a message at
/// `timestamp` is stored, and whether it changed. (An unknown chat is
/// added with the message's time.)
pub fn message_time_update(last: Option<i64>, timestamp: i64) -> (r: (Option<i64>, bool))
    ensures
        r.0 == time_after_message(last, timestamp),
        r.1 == (r.0 != last),
{
    match last {
        Some(t) => {
            if timestamp > t {
                (Some(timestamp), true)
            } else {
                (Some(t), false)
            }
        },
        None => (Some(timestamp), true),
    }
}

} // verus!
