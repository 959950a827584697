//! Loading the stored state: chats and messages go into the store, and
//! local message actions continue from the greatest stored sequence number.
use vstd::prelude::*;
use vstd::string::StrSliceExecFns;

use crate::chat_ordering::Chat;
use crate::read_state::StoredMessage;
use crate::store::{
    chat_entries, contact_entries, copy_message, note_message, put_entries, reaction_entries, store_message, MessageStore,
    Reaction,
};

verus! {

/// A decimal digit.
pub open spec fn is_digit(c: char) -> bool {
    '0' <= c && c <= '9'
}

/// The value of a run of decimal digits.
pub open spec fn decimal(s: Seq<char>) -> int
    decreases s.len(),
{
    if s.len() == 0 {
        0
    } else {
        decimal(s.drop_last()) * 10 + (s.last() as u32 - 48)
    }
}

/// What `str::parse::<u64>` gives for a text: an optional "+" and at least
/// one decimal digit whose value fits; `None` for anything else.
pub open spec fn parsed_u64(s: Seq<char>) -> Option<u64> {
    let d = if s.len() > 0 && s[0] == '+' {
        s.drop_first()
    } else {
        s
    };
    if d.len() > 0 && (forall|i: int| 0 <= i < d.len() ==> is_digit(#[trigger] d[i])) && decimal(d) <= u64::MAX {
        Some(decimal(d) as u64)
    } else {
        None
    }
}

/// Calls `str::parse::<u64>`; an error becomes `None`.
#[verifier::external_body]
fn parse_u64(s: &str) -> (r: Option<u64>)
    ensures
        r == parsed_u64(s@),
{
    s.parse::<u64>().ok()
}

/// Where the last ":" of `s` is, if any.
pub open spec fn last_colon(s: Seq<char>) -> Option<int>
    decreases s.len(),
{
    if s.len() == 0 {
        None
    } else if s.last() == ':' {
        Some(s.len() - 1)
    } else {
        last_colon(s.drop_last())
    }
}

/// The sequence number of a local action id: the number after its last
/// ":", or 0 where there is none or it is not a number.
pub open spec fn action_sequence_spec(id: Seq<char>) -> u64 {
    match last_colon(id) {
        Some(i) => match parsed_u64(id.subrange(i + 1, id.len() as int)) {
            Some(n) => n,
            None => 0,
        },
        None => 0,
    }
}

/// The sequence number of a local action id.
pub fn action_sequence(id: &str) -> (n: u64)
    ensures
        n == action_sequence_spec(id@),
{
    let len = id.unicode_len();
    let mut i: usize = len;
    assert(id@.take(len as int) =~= id@);
    while i > 0 && id.get_char(i - 1) != ':'
        invariant
            0 <= i <= len,
            len == id@.len(),
            last_colon(id@.take(i as int)) == last_colon(id@),
        decreases i,
    {
        proof {
            assert(id@.take(i as int).drop_last() =~= id@.take(i - 1));
        }
        i -= 1;
    }
    if i == 0 {
        proof {
            assert(id@.take(0) =~= Seq::<char>::empty());
        }
        return 0;
    }
    proof {
        assert(id@.take(i as int).last() == ':');
        assert(last_colon(id@.take(i as int)) == Some(i - 1));
    }
    match parse_u64(id.substring_char(i, len)) {
        Some(n) => n,
        None => 0,
    }
}

/// The greatest of `current` and the first `k` sequence numbers.
pub open spec fn max_sequence(current: u64, ids: Seq<String>, k: int) -> u64
    decreases k,
{
    if k <= 0 {
        current
    } else {
        let m = max_sequence(current, ids, k - 1);
        let n = action_sequence_spec(ids[k - 1]@);
        if n > m {
            n
        } else {
            m
        }
    }
}

/// The sequence number local actions continue from after loading stored
/// actions: the greatest of the current one and those of the stored ids.
pub fn continue_action_sequence(current: u64, ids: &[String]) -> (n: u64)
    ensures
        n == max_sequence(current, ids@, ids@.len() as int),
{
    let mut n = current;
    let mut k: usize = 0;
    while k < ids.len()
        invariant
            0 <= k <= ids.len(),
            n == max_sequence(current, ids@, k as int),
        decreases ids.len() - k,
    {
        let s = action_sequence(ids[k].as_str());
        if s > n {
            n = s;
        }
        k += 1;
    }
    n
}

/// What the database gives back when the application starts.
#[derive(Debug)]
pub struct Hydration {
    pub chats: Vec<Chat>,
    /// Display names by JID.
    pub contacts: Vec<(String, String)>,
    pub messages: Vec<StoredMessage>,
    pub reactions: Vec<Reaction>,
    /// The ids of the stored local message actions.
    pub action_ids: Vec<String>,
}

/// The chats once each of `ms` is stored, in order.
pub open spec fn note_messages(cs: Seq<(Seq<char>, Option<i64>)>, ms: Seq<StoredMessage>) -> Seq<
    (Seq<char>, Option<i64>),
>
    decreases ms.len(),
{
    if ms.len() == 0 {
        cs
    } else {
        note_message(note_messages(cs, ms.drop_last()), ms.last())
    }
}

/// The messages once each of `ms` is stored, in order.
pub open spec fn store_messages(stored: Seq<StoredMessage>, ms: Seq<StoredMessage>) -> Seq<StoredMessage>
    decreases ms.len(),
{
    if ms.len() == 0 {
        stored
    } else {
        store_message(store_messages(stored, ms.drop_last()), ms.last())
    }
}

fn copy_chat(c: &Chat) -> (r: Chat)
    ensures
        r == *c,
{
    Chat { jid: c.jid.clone(), last_message_time: c.last_message_time }
}

fn copy_reaction(r: &Reaction) -> (c: Reaction)
    ensures
        c == *r,
{
    Reaction { message: r.message.clone(), participant: r.participant.clone(), emoji: r.emoji.clone() }
}

/// Loads the stored state into the store: the chats are put in (replacing
/// a chat with the same JID), then the contacts' names; each message is
/// stored as a live one would be, and the reactions are put in last.
/// Returns the sequence number that local actions continue from.
pub fn hydrate(store: &mut MessageStore, current_sequence: u64, h: Hydration) -> (seq: u64)
    requires
        old(store).wf(),
    ensures
        final(store).wf(),
        seq == max_sequence(current_sequence, h.action_ids@, h.action_ids@.len() as int),
        final(store).messages@ == store_messages(old(store).messages@, h.messages@),
        chat_entries(final(store).chats@) == note_messages(
            put_entries(chat_entries(old(store).chats@), chat_entries(h.chats@)),
            h.messages@,
        ),
        contact_entries(final(store).contacts@) == put_entries(
            contact_entries(old(store).contacts@),
            contact_entries(h.contacts@),
        ),
        reaction_entries(final(store).reactions@) == put_entries(
            reaction_entries(old(store).reactions@),
            reaction_entries(h.reactions@),
        ),
{
    let ghost chats_start = chat_entries(store.chats@);
    let mut k: usize = 0;
    while k < h.chats.len()
        invariant
            0 <= k <= h.chats.len(),
            store.wf(),
            store.messages@ == old(store).messages@,
            store.contacts@ == old(store).contacts@,
            store.reactions@ == old(store).reactions@,
            chats_start == chat_entries(old(store).chats@),
            chat_entries(store.chats@) == put_entries(chats_start, chat_entries(h.chats@.take(k as int))),
        decreases h.chats.len() - k,
    {
        proof {
            assert(chat_entries(h.chats@.take(k + 1)).drop_last() =~= chat_entries(h.chats@.take(k as int)));
        }
        store.put_chat(copy_chat(&h.chats[k]));
        k += 1;
    }
    proof {
        assert(h.chats@.take(h.chats@.len() as int) =~= h.chats@);
    }
    let ghost contacts_start = contact_entries(store.contacts@);
    let mut c: usize = 0;
    while c < h.contacts.len()
        invariant
            0 <= c <= h.contacts.len(),
            store.wf(),
            store.messages@ == old(store).messages@,
            store.reactions@ == old(store).reactions@,
            chat_entries(store.chats@) == put_entries(chats_start, chat_entries(h.chats@)),
            contacts_start == contact_entries(old(store).contacts@),
            contact_entries(store.contacts@) == put_entries(contacts_start, contact_entries(h.contacts@.take(c as int))),
        decreases h.contacts.len() - c,
    {
        proof {
            assert(contact_entries(h.contacts@.take(c + 1)).drop_last() =~= contact_entries(h.contacts@.take(c as int)));
        }
        store.put_contact(h.contacts[c].0.clone(), h.contacts[c].1.clone());
        c += 1;
    }
    proof {
        assert(h.contacts@.take(h.contacts@.len() as int) =~= h.contacts@);
    }
    let seq = continue_action_sequence(current_sequence, h.action_ids.as_slice());
    let ghost chats_loaded = chat_entries(store.chats@);
    let ghost messages_before = store.messages@;
    let ghost contacts_loaded = contact_entries(store.contacts@);
    let mut j: usize = 0;
    while j < h.messages.len()
        invariant
            0 <= j <= h.messages.len(),
            store.wf(),
            store.messages@ == store_messages(messages_before, h.messages@.take(j as int)),
            chat_entries(store.chats@) == note_messages(chats_loaded, h.messages@.take(j as int)),
            contact_entries(store.contacts@) == contacts_loaded,
            store.reactions@ == old(store).reactions@,
        decreases h.messages.len() - j,
    {
        proof {
            assert(h.messages@.take(j + 1).drop_last() =~= h.messages@.take(j as int));
        }
        store.add_message(copy_message(&h.messages[j]));
        j += 1;
    }
    proof {
        assert(h.messages@.take(h.messages@.len() as int) =~= h.messages@);
    }
    let ghost reactions_start = reaction_entries(store.reactions@);
    let mut r: usize = 0;
    while r < h.reactions.len()
        invariant
            0 <= r <= h.reactions.len(),
            store.wf(),
            store.messages@ == store_messages(messages_before, h.messages@),
            chat_entries(store.chats@) == note_messages(chats_loaded, h.messages@),
            contact_entries(store.contacts@) == contacts_loaded,
            reactions_start == reaction_entries(old(store).reactions@),
            reaction_entries(store.reactions@) == put_entries(
                reactions_start,
                reaction_entries(h.reactions@.take(r as int)),
            ),
        decreases h.reactions.len() - r,
    {
        proof {
            assert(reaction_entries(h.reactions@.take(r + 1)).drop_last() =~= reaction_entries(
                h.reactions@.take(r as int),
            ));
        }
        store.put_reaction(copy_reaction(&h.reactions[r]));
        r += 1;
    }
    proof {
        assert(h.reactions@.take(h.reactions@.len() as int) =~= h.reactions@);
    }
    seq
}

} // verus!
