//! The message store: one copy of each message, the chats with the time of
//! their latest message, and each chat's messages in order.
use vstd::prelude::*;

use crate::chat_ordering::{
    key_time, message_time_update, sorted_message_order, time_after_message, Chat, MessageKey,
};
use crate::read_state::{merge_message, StoredMessage};
use crate::text_order::{cursor_less, lemma_text_less_total};

verus! {

/// A reaction: who reacted to which message, and with what.
#[derive(Debug)]
pub struct Reaction {
    pub message: String,
    pub participant: String,
    pub emoji: String,
}

/// The stored messages and chats, the contacts' names and the reactions.
#[derive(Debug)]
pub struct MessageStore {
    pub messages: Vec<StoredMessage>,
    pub chats: Vec<Chat>,
    /// Display names by JID.
    pub contacts: Vec<(String, String)>,
    pub reactions: Vec<Reaction>,
}

/// No two entries share a key.
pub open spec fn keys_distinct<K, V>(es: Seq<(K, V)>) -> bool {
    forall|a: int, b: int| 0 <= a < b < es.len() ==> es[a].0 != es[b].0
}

/// The entries once `e` is put in: it replaces the entry with its key, or
/// comes last.
pub open spec fn put_entry<K, V>(es: Seq<(K, V)>, e: (K, V)) -> Seq<(K, V)> {
    if exists|i: int| 0 <= i < es.len() && es[i].0 == e.0 {
        es.update(choose|i: int| 0 <= i < es.len() && es[i].0 == e.0, e)
    } else {
        es.push(e)
    }
}

/// The entries once each of `new` is put in, in order.
pub open spec fn put_entries<K, V>(es: Seq<(K, V)>, new: Seq<(K, V)>) -> Seq<(K, V)>
    decreases new.len(),
{
    if new.len() == 0 {
        es
    } else {
        put_entry(put_entries(es, new.drop_last()), new.last())
    }
}

/// Putting in an entry whose key is at `c` replaces that entry; keys stay
/// distinct.
proof fn lemma_put_entry_at<K, V>(es: Seq<(K, V)>, e: (K, V), c: int)
    requires
        keys_distinct(es),
        0 <= c < es.len(),
        es[c].0 == e.0,
    ensures
        put_entry(es, e) == es.update(c, e),
        keys_distinct(es.update(c, e)),
{
    let k = choose|i: int| 0 <= i < es.len() && es[i].0 == e.0;
    assert(k == c);
    let u = es.update(c, e);
    assert forall|a: int, b: int| 0 <= a < b < u.len() implies u[a].0 != u[b].0 by {
        assert(u[a].0 == es[a].0 && u[b].0 == es[b].0);
    }
}

/// Putting in an entry with a new key adds it last; keys stay distinct.
proof fn lemma_put_entry_new<K, V>(es: Seq<(K, V)>, e: (K, V))
    requires
        keys_distinct(es),
        forall|j: int| 0 <= j < es.len() ==> es[j].0 != e.0,
    ensures
        put_entry(es, e) == es.push(e),
        keys_distinct(es.push(e)),
{
    let u = es.push(e);
    assert forall|a: int, b: int| 0 <= a < b < u.len() implies u[a].0 != u[b].0 by {
        assert(u[a] == es[a]);
        if b < es.len() {
            assert(u[b] == es[b]);
        }
    }
}

/// The contacts as entries.
pub open spec fn contact_entries(cs: Seq<(String, String)>) -> Seq<(Seq<char>, Seq<char>)> {
    cs.map_values(|c: (String, String)| (c.0@, c.1@))
}

/// A reaction as an entry keyed by message and participant.
pub open spec fn reaction_entry(r: Reaction) -> ((Seq<char>, Seq<char>), Seq<char>) {
    ((r.message@, r.participant@), r.emoji@)
}

/// The reactions as entries.
pub open spec fn reaction_entries(rs: Seq<Reaction>) -> Seq<((Seq<char>, Seq<char>), Seq<char>)> {
    rs.map_values(|r: Reaction| reaction_entry(r))
}

/// No two messages share an id.
pub open spec fn ids_distinct(m: Seq<StoredMessage>) -> bool {
    forall|a: int, b: int| 0 <= a < b < m.len() ==> m[a].id@ != m[b].id@
}

/// No two chats share a JID.
pub open spec fn jids_distinct(c: Seq<Chat>) -> bool {
    forall|a: int, b: int| 0 <= a < b < c.len() ==> c[a].jid@ != c[b].jid@
}

/// The stored copy of a message once a copy with the same id arrives: the
/// newer one, ownership never going back.
pub open spec fn merged(stored: StoredMessage, incoming: StoredMessage) -> StoredMessage {
    if stored.timestamp < incoming.timestamp {
        StoredMessage { is_from_me: stored.is_from_me || incoming.is_from_me, ..incoming }
    } else {
        stored
    }
}

/// A copy of a stored message.
pub(crate) fn copy_message(m: &StoredMessage) -> (c: StoredMessage)
    ensures
        c == *m,
{
    StoredMessage {
        id: m.id.clone(),
        chat: m.chat.clone(),
        sender: m.sender.clone(),
        timestamp: m.timestamp,
        is_from_me: m.is_from_me,
        read_by: m.read_by,
    }
}

fn find_message(messages: &Vec<StoredMessage>, id: &String) -> (r: Option<usize>)
    ensures
        match r {
            Some(i) => i < messages.len() && messages@[i as int].id@ == id@,
            None => forall|j: int| 0 <= j < messages.len() ==> messages@[j].id@ != id@,
        },
{
    let mut i: usize = 0;
    while i < messages.len()
        invariant
            0 <= i <= messages.len(),
            forall|j: int| 0 <= j < i ==> messages@[j].id@ != id@,
        decreases messages.len() - i,
    {
        if messages[i].id == *id {
            return Some(i);
        }
        i += 1;
    }
    None
}

fn find_chat(chats: &Vec<Chat>, jid: &String) -> (r: Option<usize>)
    ensures
        match r {
            Some(i) => i < chats.len() && chats@[i as int].jid@ == jid@,
            None => forall|j: int| 0 <= j < chats.len() ==> chats@[j].jid@ != jid@,
        },
{
    let mut i: usize = 0;
    while i < chats.len()
        invariant
            0 <= i <= chats.len(),
            forall|j: int| 0 <= j < i ==> chats@[j].jid@ != jid@,
        decreases chats.len() - i,
    {
        if chats[i].jid == *jid {
            return Some(i);
        }
        i += 1;
    }
    None
}

/// Storing `m` changes the chat list: its chat is new, or its latest
/// time moves.
pub open spec fn chat_changes(chats: Seq<Chat>, m: StoredMessage) -> bool {
    (forall|j: int| 0 <= j < chats.len() ==> chats[j].jid@ != m.chat@) || exists|i: int|
        0 <= i < chats.len() && chats[i].jid@ == m.chat@ && time_after_message(chats[i].last_message_time, m.timestamp)
            != chats[i].last_message_time
}

/// Storing `m` changes the messages: its id is new, or it is newer than
/// the stored copy.
pub open spec fn message_changes(messages: Seq<StoredMessage>, m: StoredMessage) -> bool {
    (forall|j: int| 0 <= j < messages.len() ==> messages[j].id@ != m.id@) || exists|i: int|
        0 <= i < messages.len() && messages[i].id@ == m.id@ && messages[i].timestamp < m.timestamp
}

/// A chat as the store sees it: its JID and the time of its latest message.
pub open spec fn chat_entry(c: Chat) -> (Seq<char>, Option<i64>) {
    (c.jid@, c.last_message_time)
}

/// The chats as entries.
pub open spec fn chat_entries(cs: Seq<Chat>) -> Seq<(Seq<char>, Option<i64>)> {
    cs.map_values(|c: Chat| chat_entry(c))
}

/// The chats once message `m` is stored: its chat takes the message's time
/// when later, an unknown chat comes last with that time.
pub open spec fn note_message(cs: Seq<(Seq<char>, Option<i64>)>, m: StoredMessage) -> Seq<
    (Seq<char>, Option<i64>),
> {
    if exists|i: int| 0 <= i < cs.len() && cs[i].0 == m.chat@ {
        let i = choose|i: int| 0 <= i < cs.len() && cs[i].0 == m.chat@;
        cs.update(i, (cs[i].0, time_after_message(cs[i].1, m.timestamp)))
    } else {
        cs.push((m.chat@, Some(m.timestamp)))
    }
}

/// The messages once `m` is stored: merged into the copy with its id, or
/// last.
pub open spec fn store_message(ms: Seq<StoredMessage>, m: StoredMessage) -> Seq<StoredMessage> {
    if exists|i: int| 0 <= i < ms.len() && ms[i].id@ == m.id@ {
        let i = choose|i: int| 0 <= i < ms.len() && ms[i].id@ == m.id@;
        ms.update(i, merged(ms[i], m))
    } else {
        ms.push(m)
    }
}

impl MessageStore {
    /// Ids and JIDs are unique.
    pub open spec fn wf(&self) -> bool {
        &&& ids_distinct(self.messages@)
        &&& jids_distinct(self.chats@)
        &&& keys_distinct(contact_entries(self.contacts@))
        &&& keys_distinct(reaction_entries(self.reactions@))
    }

    /// An empty store.
    pub fn new() -> (s: MessageStore)
        ensures
            s.wf(),
            s.messages@.len() == 0,
            s.chats@.len() == 0,
            s.contacts@.len() == 0,
            s.reactions@.len() == 0,
    {
        MessageStore { messages: Vec::new(), chats: Vec::new(), contacts: Vec::new(), reactions: Vec::new() }
    }

    /// Stores a message without reordering: an unknown chat is added with
    /// the message's time, a known one takes it when later; a new id is
    /// added, a known id is replaced only by a newer copy, and a message
    /// once mine stays mine. Returns whether anything changed.
    pub fn add_message(&mut self, m: StoredMessage) -> (changed: bool)
        requires
            old(self).wf(),
        ensures
            final(self).wf(),
            changed == (chat_changes(old(self).chats@, m) || message_changes(old(self).messages@, m)),
            final(self).messages@ == store_message(old(self).messages@, m),
            final(self).contacts@ == old(self).contacts@,
            final(self).reactions@ == old(self).reactions@,
            chat_entries(final(self).chats@) == note_message(chat_entries(old(self).chats@), m),
            (forall|j: int| 0 <= j < old(self).messages@.len() ==> old(self).messages@[j].id@ != m.id@) ==> {
                &&& final(self).messages@ == old(self).messages@.push(m)
                &&& changed
            },
            forall|i: int|
                0 <= i < old(self).messages@.len() && old(self).messages@[i].id@ == m.id@ ==> {
                    &&& final(self).messages@ == old(self).messages@.update(i, merged(old(self).messages@[i], m))
                    &&& old(self).messages@[i].timestamp < m.timestamp ==> changed
                },
            (forall|j: int| 0 <= j < old(self).chats@.len() ==> old(self).chats@[j].jid@ != m.chat@) ==> {
                &&& final(self).chats@.len() == old(self).chats@.len() + 1
                &&& final(self).chats@.drop_last() == old(self).chats@
                &&& final(self).chats@.last().jid@ == m.chat@
                &&& final(self).chats@.last().last_message_time == Some(m.timestamp)
                &&& changed
            },
            forall|i: int|
                0 <= i < old(self).chats@.len() && old(self).chats@[i].jid@ == m.chat@ ==> {
                    &&& final(self).chats@.len() == old(self).chats@.len()
                    &&& final(self).chats@[i].jid@ == m.chat@
                    &&& final(self).chats@[i].last_message_time == time_after_message(
                        old(self).chats@[i].last_message_time,
                        m.timestamp,
                    )
                    &&& forall|j: int| 0 <= j < old(self).chats@.len() && j != i ==> final(self).chats@[j]
                        == old(self).chats@[j]
                },
    {
        let ghost entries = chat_entries(self.chats@);
        let chat_changed = match find_chat(&self.chats, &m.chat) {
            Some(c) => {
                let (time, moved) = message_time_update(self.chats[c].last_message_time, m.timestamp);
                let jid = self.chats[c].jid.clone();
                proof {
                    assert(entries[c as int].0 == m.chat@);
                    let k = choose|i: int| 0 <= i < entries.len() && entries[i].0 == m.chat@;
                    if k != c {
                        if k < c {
                            assert(old(self).chats@[k].jid@ != old(self).chats@[c as int].jid@);
                        } else {
                            assert(old(self).chats@[c as int].jid@ != old(self).chats@[k].jid@);
                        }
                    }
                }
                self.chats.set(c, Chat { jid, last_message_time: time });
                proof {
                    assert(chat_entries(self.chats@) =~= entries.update(
                        c as int,
                        (entries[c as int].0, time_after_message(entries[c as int].1, m.timestamp)),
                    ));
                    assert forall|a: int, b: int| 0 <= a < b < self.chats@.len() implies self.chats@[a].jid@
                        != self.chats@[b].jid@ by {
                        assert(self.chats@[a].jid@ == old(self).chats@[a].jid@);
                        assert(self.chats@[b].jid@ == old(self).chats@[b].jid@);
                    }
                    assert forall|i: int|
                        0 <= i < old(self).chats@.len() && old(self).chats@[i].jid@ == m.chat@ implies i == c by {
                        if i != c {
                            if i < c {
                                assert(old(self).chats@[i].jid@ != old(self).chats@[c as int].jid@);
                            } else {
                                assert(old(self).chats@[c as int].jid@ != old(self).chats@[i].jid@);
                            }
                        }
                    }
                }
                moved
            },
            None => {
                self.chats.push(Chat { jid: m.chat.clone(), last_message_time: Some(m.timestamp) });
                proof {
                    assert(chat_entries(self.chats@) =~= entries.push((m.chat@, Some(m.timestamp))));
                    assert(self.chats@.drop_last() =~= old(self).chats@);
                    assert forall|a: int, b: int| 0 <= a < b < self.chats@.len() implies self.chats@[a].jid@
                        != self.chats@[b].jid@ by {
                        if b == old(self).chats@.len() {
                            assert(self.chats@[a] == old(self).chats@[a]);
                        } else {
                            assert(self.chats@[a] == old(self).chats@[a] && self.chats@[b] == old(self).chats@[b]);
                        }
                    }
                }
                true
            },
        };
        match find_message(&self.messages, &m.id) {
            Some(i) => {
                let merge = merge_message(Some(&self.messages[i]), &m);
                proof {
                    let k = choose|j: int| 0 <= j < old(self).messages@.len() && old(self).messages@[j].id@ == m.id@;
                    if k != i {
                        if k < i {
                            assert(old(self).messages@[k].id@ != old(self).messages@[i as int].id@);
                        } else {
                            assert(old(self).messages@[i as int].id@ != old(self).messages@[k].id@);
                        }
                    }
                    assert forall|k: int|
                        0 <= k < old(self).messages@.len() && old(self).messages@[k].id@ == m.id@ implies k == i by {
                        if k != i {
                            if k < i {
                                assert(old(self).messages@[k].id@ != old(self).messages@[i as int].id@);
                            } else {
                                assert(old(self).messages@[i as int].id@ != old(self).messages@[k].id@);
                            }
                        }
                    }
                }
                if merge.replace {
                    let from_me = merge.is_from_me;
                    let replacement = StoredMessage { is_from_me: from_me, ..m };
                    self.messages.set(i, replacement);
                } else {
                    proof {
                        assert(self.messages@ =~= old(self).messages@.update(
                            i as int,
                            merged(old(self).messages@[i as int], m),
                        ));
                    }
                }
                proof {
                    assert forall|a: int, b: int| 0 <= a < b < self.messages@.len() implies self.messages@[a].id@
                        != self.messages@[b].id@ by {
                        assert(self.messages@[a].id@ == old(self).messages@[a].id@);
                        assert(self.messages@[b].id@ == old(self).messages@[b].id@);
                    }
                }
                chat_changed || merge.replace
            },
            None => {
                let ghost before = self.messages@;
                self.messages.push(m);
                proof {
                    assert forall|a: int, b: int| 0 <= a < b < self.messages@.len() implies self.messages@[a].id@
                        != self.messages@[b].id@ by {
                        if b == before.len() {
                            assert(self.messages@[a] == before[a]);
                        } else {
                            assert(self.messages@[a] == before[a] && self.messages@[b] == before[b]);
                        }
                    }
                }
                true
            },
        }
    }

    /// Puts a chat in: it replaces the chat with its JID, or comes last.
    pub fn put_chat(&mut self, chat: Chat)
        requires
            old(self).wf(),
        ensures
            final(self).wf(),
            final(self).messages@ == old(self).messages@,
            chat_entries(final(self).chats@) == put_entry(chat_entries(old(self).chats@), chat_entry(chat)),
            final(self).contacts@ == old(self).contacts@,
            final(self).reactions@ == old(self).reactions@,
    {
        let ghost entry = chat_entry(chat);
        let ghost before = chat_entries(self.chats@);
        match find_chat(&self.chats, &chat.jid) {
            Some(c) => {
                proof {
                    assert(before[c as int].0 == entry.0);
                    let k = choose|i: int| 0 <= i < before.len() && before[i].0 == entry.0;
                    if k != c {
                        if k < c {
                            assert(old(self).chats@[k].jid@ != old(self).chats@[c as int].jid@);
                        } else {
                            assert(old(self).chats@[c as int].jid@ != old(self).chats@[k].jid@);
                        }
                    }
                }
                self.chats.set(c, chat);
                proof {
                    assert(chat_entries(self.chats@) =~= before.update(c as int, entry));
                    assert forall|a: int, b: int| 0 <= a < b < self.chats@.len() implies self.chats@[a].jid@
                        != self.chats@[b].jid@ by {
                        assert(self.chats@[a].jid@ == old(self).chats@[a].jid@);
                        assert(self.chats@[b].jid@ == old(self).chats@[b].jid@);
                    }
                }
            },
            None => {
                self.chats.push(chat);
                proof {
                    assert(chat_entries(self.chats@) =~= before.push(entry));
                    assert forall|a: int, b: int| 0 <= a < b < self.chats@.len() implies self.chats@[a].jid@
                        != self.chats@[b].jid@ by {
                        if b == old(self).chats@.len() {
                            assert(self.chats@[a] == old(self).chats@[a]);
                        } else {
                            assert(self.chats@[a] == old(self).chats@[a] && self.chats@[b] == old(self).chats@[b]);
                        }
                    }
                }
            },
        }
    }

    /// Puts a contact's display name in, replacing the name known for its
    /// JID.
    pub fn put_contact(&mut self, jid: String, name: String)
        requires
            old(self).wf(),
        ensures
            final(self).wf(),
            final(self).messages@ == old(self).messages@,
            final(self).chats@ == old(self).chats@,
            final(self).reactions@ == old(self).reactions@,
            contact_entries(final(self).contacts@) == put_entry(contact_entries(old(self).contacts@), (jid@, name@)),
    {
        let ghost before = contact_entries(self.contacts@);
        let ghost entry = (jid@, name@);
        let mut i: usize = 0;
        while i < self.contacts.len()
            invariant
                0 <= i <= self.contacts.len(),
                self.wf(),
                *self == *old(self),
                before == contact_entries(self.contacts@),
                entry == (jid@, name@),
                forall|j: int| 0 <= j < i ==> before[j].0 != jid@,
            decreases self.contacts.len() - i,
        {
            if self.contacts[i].0 == jid {
                proof {
                    lemma_put_entry_at(before, entry, i as int);
                }
                self.contacts.set(i, (jid, name));
                assert(contact_entries(self.contacts@) =~= before.update(i as int, entry));
                return;
            }
            i += 1;
        }
        proof {
            lemma_put_entry_new(before, entry);
        }
        self.contacts.push((jid, name));
        assert(contact_entries(self.contacts@) =~= before.push(entry));
    }

    /// Puts a reaction in, replacing the one the participant gave the
    /// message before.
    pub fn put_reaction(&mut self, r: Reaction)
        requires
            old(self).wf(),
        ensures
            final(self).wf(),
            final(self).messages@ == old(self).messages@,
            final(self).chats@ == old(self).chats@,
            final(self).contacts@ == old(self).contacts@,
            reaction_entries(final(self).reactions@) == put_entry(
                reaction_entries(old(self).reactions@),
                reaction_entry(r),
            ),
    {
        let ghost before = reaction_entries(self.reactions@);
        let ghost entry = reaction_entry(r);
        let mut i: usize = 0;
        while i < self.reactions.len()
            invariant
                0 <= i <= self.reactions.len(),
                self.wf(),
                *self == *old(self),
                before == reaction_entries(self.reactions@),
                entry == reaction_entry(r),
                forall|j: int| 0 <= j < i ==> before[j].0 != entry.0,
            decreases self.reactions.len() - i,
        {
            if self.reactions[i].message == r.message && self.reactions[i].participant == r.participant {
                proof {
                    lemma_put_entry_at(before, entry, i as int);
                }
                self.reactions.set(i, r);
                assert(reaction_entries(self.reactions@) =~= before.update(i as int, entry));
                return;
            }
            i += 1;
        }
        proof {
            lemma_put_entry_new(before, entry);
        }
        self.reactions.push(r);
        assert(reaction_entries(self.reactions@) =~= before.push(entry));
    }

    /// The positions of a chat's messages, oldest first, messages with the
    /// same time by id.
    pub fn chat_message_order(&self, chat: &str) -> (order: Vec<usize>)
        requires
            self.wf(),
        ensures
            forall|x: usize|
                order@.contains(x) <==> ((x as int) < self.messages@.len() && self.messages@[x as int].chat@ == chat@),
            forall|a: int, b: int|
                0 <= a < b < order@.len() ==> cursor_less(
                    self.messages@[order@[a] as int].timestamp,
                    self.messages@[order@[a] as int].id@,
                    self.messages@[order@[b] as int].timestamp,
                    self.messages@[order@[b] as int].id@,
                ),
    {
        let mut positions: Vec<usize> = Vec::new();
        let mut keys: Vec<MessageKey> = Vec::new();
        let mut i: usize = 0;
        while i < self.messages.len()
            invariant
                0 <= i <= self.messages.len(),
                positions.len() == keys.len(),
                forall|k: int| 0 <= k < positions.len() ==> {
                    &&& (#[trigger] positions@[k] as int) < i
                    &&& self.messages@[positions@[k] as int].chat@ == chat@
                    &&& keys@[k].id@ == self.messages@[positions@[k] as int].id@
                    &&& key_time(keys@[k]) == self.messages@[positions@[k] as int].timestamp
                },
                forall|a: int, b: int| 0 <= a < b < positions.len() ==> positions@[a] < positions@[b],
                forall|x: usize| (x < i && self.messages@[x as int].chat@ == chat@) ==> positions@.contains(x),
            decreases self.messages.len() - i,
        {
            if crate::text_order::compare_text(self.messages[i].chat.as_str(), chat) == crate::text_order::Comparison::Equal {
                let ghost before = positions@;
                positions.push(i);
                keys.push(MessageKey { id: self.messages[i].id.clone(), timestamp: Some(self.messages[i].timestamp) });
                proof {
                    assert forall|x: usize| (x < i + 1 && self.messages@[x as int].chat@ == chat@) implies positions@.contains(x) by {
                        if x == i {
                            assert(positions@[positions@.len() - 1] == x);
                        } else {
                            assert(before.contains(x));
                            let k = choose|k: int| 0 <= k < before.len() && before[k] == x;
                            assert(positions@[k] == before[k]);
                        }
                    }
                }
            }
            i += 1;
        }
        let sorted = sorted_message_order(keys.as_slice());
        let mut order: Vec<usize> = Vec::new();
        let mut j: usize = 0;
        while j < sorted.len()
            invariant
                0 <= j <= sorted.len(),
                order.len() == j,
                forall|x: usize| sorted@.contains(x) <==> x < keys.len(),
                forall|k: int| 0 <= k < j ==> (#[trigger] order@[k]) == positions@[sorted@[k] as int],
                positions.len() == keys.len(),
                forall|k: int| 0 <= k < positions.len() ==> {
                    &&& (#[trigger] positions@[k] as int) < self.messages.len()
                    &&& self.messages@[positions@[k] as int].chat@ == chat@
                    &&& keys@[k].id@ == self.messages@[positions@[k] as int].id@
                    &&& key_time(keys@[k]) == self.messages@[positions@[k] as int].timestamp
                },
                forall|a: int, b: int| 0 <= a < b < positions.len() ==> positions@[a] < positions@[b],
                forall|x: usize| ((x as int) < self.messages.len() && self.messages@[x as int].chat@ == chat@) ==> positions@.contains(x),
                crate::chat_ordering::is_message_order(keys@, sorted@),
            decreases sorted.len() - j,
        {
            assert(sorted@.contains(sorted@[j as int]));
            order.push(positions[sorted[j]]);
            j += 1;
        }
        proof {
            assert forall|a: int, b: int| 0 <= a < b < order@.len() implies cursor_less(
                self.messages@[order@[a] as int].timestamp,
                self.messages@[order@[a] as int].id@,
                self.messages@[order@[b] as int].timestamp,
                self.messages@[order@[b] as int].id@,
            ) by {
                let (sa, sb) = (sorted@[a] as int, sorted@[b] as int);
                assert(sorted@.contains(sorted@[a]) && sorted@.contains(sorted@[b]));
                assert(crate::chat_ordering::message_before(keys@, sa, sb));
                if sa != sb {
                    let (pa, pb) = (positions@[sa], positions@[sb]);
                    if sa < sb {
                        assert(pa < pb);
                    } else {
                        assert(pb < pa);
                    }
                    if pa < pb {
                        assert(self.messages@[pa as int].id@ != self.messages@[pb as int].id@);
                    } else {
                        assert(self.messages@[pb as int].id@ != self.messages@[pa as int].id@);
                    }
                } else {
                    lemma_text_less_total(keys@[sa].id@, keys@[sa].id@);
                }
            }
            assert forall|x: usize|
                order@.contains(x) <==> ((x as int) < self.messages@.len() && self.messages@[x as int].chat@ == chat@) by {
                if order@.contains(x) {
                    let k = choose|k: int| 0 <= k < order@.len() && order@[k] == x;
                    assert(sorted@.contains(sorted@[k]));
                }
                if (x as int) < self.messages@.len() && self.messages@[x as int].chat@ == chat@ {
                    assert(positions@.contains(x));
                    let k = choose|k: int| 0 <= k < positions@.len() && positions@[k] == x;
                    assert(sorted@.contains(k as usize));
                    let q = choose|q: int| 0 <= q < sorted@.len() && sorted@[q] == k as usize;
                    assert(order@[q] == x);
                }
            }
        }
        order
    }
}

} // verus!
