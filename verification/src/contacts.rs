//! Display names of contacts and message senders.
use vstd::prelude::*;
use vstd::string::StrSliceExecFns;
use vstd::string::StringExecFns;

verus! {

/// A character with the Unicode White_Space property: tab, line feed,
/// vertical tab, form feed, carriage return, space, next line, no-break
/// space, ogham space mark, the spaces U+2000 to U+200A, line and paragraph
/// separators, narrow no-break space, medium mathematical space and
/// ideographic space.
pub open spec fn white_space(c: char) -> bool {
    let u = c as u32;
    (0x9 <= u && u <= 0xd) || u == 0x20 || u == 0x85 || u == 0xa0 || u == 0x1680 || (0x2000 <= u && u
        <= 0x200a) || u == 0x2028 || u == 0x2029 || u == 0x202f || u == 0x205f || u == 0x3000
}

/// The text without its leading white space.
pub open spec fn start_trimmed(s: Seq<char>) -> Seq<char>
    decreases s.len(),
{
    if s.len() > 0 && white_space(s[0]) {
        start_trimmed(s.drop_first())
    } else {
        s
    }
}

/// The text without its trailing white space.
pub open spec fn end_trimmed(s: Seq<char>) -> Seq<char>
    decreases s.len(),
{
    if s.len() > 0 && white_space(s.last()) {
        end_trimmed(s.drop_last())
    } else {
        s
    }
}

/// The text without its leading and trailing white space.
pub open spec fn trimmed(s: Seq<char>) -> Seq<char> {
    end_trimmed(start_trimmed(s))
}

/// Calls `str::trim`, which removes leading and trailing characters with
/// the Unicode White_Space property.
#[verifier::external_body]
pub(crate) fn trim_text(s: &str) -> (r: &str)
    ensures
        r@ == trimmed(s@),
{
    s.trim()
}

/// Whether `s` begins with `prefix`.
pub open spec fn starts_with(s: Seq<char>, prefix: Seq<char>) -> bool {
    prefix.len() <= s.len() && s.subrange(0, prefix.len() as int) == prefix
}

/// The marker that the protocol puts before a name it did not take from
/// the address book ("~ " for a profile name, "+ " for a number), taken off.
pub open spec fn without_protocol_prefix(s: Seq<char>) -> Seq<char> {
    if starts_with(s, seq!['~', ' ']) || starts_with(s, seq!['+', ' ']) {
        s.subrange(2, s.len() as int)
    } else {
        s
    }
}

/// The name shown for a stored contact name: trimmed, its protocol marker
/// taken off, and trimmed again.
pub open spec fn canonical_name(s: Seq<char>) -> Seq<char> {
    trimmed(without_protocol_prefix(trimmed(s)))
}

/// Takes the protocol marker off a name, if it has one.
fn strip_protocol_prefix(s: &str) -> (r: &str)
    ensures
        r@ == without_protocol_prefix(s@),
{
    let n = s.unicode_len();
    if n >= 2 {
        let first = s.get_char(0);
        let second = s.get_char(1);
        if (first == '~' || first == '+') && second == ' ' {
            let r = s.substring_char(2, n);
            proof {
                if first == '~' {
                    assert(s@.subrange(0, 2) =~= seq!['~', ' ']);
                } else {
                    assert(s@.subrange(0, 2) =~= seq!['+', ' ']);
                }
            }
            return r;
        }
        proof {
            assert(s@.subrange(0, 2)[0] == first && s@.subrange(0, 2)[1] == second);
            assert(!starts_with(s@, seq!['~', ' ']));
            assert(!starts_with(s@, seq!['+', ' ']));
        }
    }
    s
}

/// The canonical display form of a contact name: "~ Alice" and "+ Alice"
/// both show as "Alice", and surrounding white space goes.
pub fn canonical_contact_name(name: &str) -> (r: String)
    ensures
        r@ == canonical_name(name@),
{
    let t = trim_text(name);
    let s = strip_protocol_prefix(t);
    let u = trim_text(s);
    String::from_str(u)
}

/// The name shown for a chat or sender: the canonical saved name, or the
/// JID where no name is saved.
pub fn contact_name(saved: Option<&str>, jid: &str) -> (r: String)
    ensures
        r@ == match saved {
            Some(n) => canonical_name(n@),
            None => jid@,
        },
{
    match saved {
        Some(n) => canonical_contact_name(n),
        None => String::from_str(jid),
    }
}

/// The name shown for the sender of a message: the saved contact name wins
/// over the profile name the message carried, which wins over the JID.
pub fn message_sender_name(saved: Option<&str>, push_name: Option<&str>, sender: &str) -> (r: String)
    ensures
        r@ == match (saved, push_name) {
            (Some(n), _) => canonical_name(n@),
            (None, Some(p)) => canonical_name(p@),
            (None, None) => sender@,
        },
{
    match saved {
        Some(n) => canonical_contact_name(n),
        None => match push_name {
            Some(p) => canonical_contact_name(p),
            None => contact_name(None, sender),
        },
    }
}

proof fn lemma_start_trimmed_head(s: Seq<char>)
    ensures
        start_trimmed(s).len() == 0 || !white_space(start_trimmed(s)[0]),
    decreases s.len(),
{
    if s.len() > 0 && white_space(s[0]) {
        lemma_start_trimmed_head(s.drop_first());
    }
}

proof fn lemma_end_trimmed_prefix(s: Seq<char>)
    ensures
        end_trimmed(s).len() <= s.len(),
        end_trimmed(s) == s.take(end_trimmed(s).len() as int),
        end_trimmed(s).len() == 0 || !white_space(end_trimmed(s).last()),
    decreases s.len(),
{
    if s.len() > 0 && white_space(s.last()) {
        lemma_end_trimmed_prefix(s.drop_last());
        let t = end_trimmed(s.drop_last());
        assert(s.drop_last().take(t.len() as int) =~= s.take(t.len() as int));
    } else {
        assert(s.take(s.len() as int) =~= s);
    }
}

/// Trimming a trimmed text changes nothing, so a canonical contact name
/// has no surrounding white space.
pub proof fn lemma_canonical_name_is_trimmed(name: Seq<char>)
    ensures
        trimmed(canonical_name(name)) == canonical_name(name),
{
    let v = start_trimmed(without_protocol_prefix(trimmed(name)));
    let u = end_trimmed(v);
    lemma_start_trimmed_head(without_protocol_prefix(trimmed(name)));
    lemma_end_trimmed_prefix(v);
    if u.len() > 0 {
        assert(u[0] == v[0]);
    }
    assert(start_trimmed(u) == u);
    assert(end_trimmed(u) == u);
}

} // verus!
