//! The order of texts (by code point, as Rust orders strings) and of read
//! cursors, which order messages by timestamp and then by id.
use vstd::prelude::*;

verus! {

/// Three-way comparison result.
#[derive(Clone, Copy, Debug, Eq, PartialEq, Structural)]
pub enum Comparison {
    Less,
    Equal,
    Greater,
}

/// `a` sorts before `b`: lexicographically by code point, a proper prefix
/// first.
pub open spec fn text_less(a: Seq<char>, b: Seq<char>) -> bool
    decreases a.len(),
{
    if a.len() == 0 {
        b.len() > 0
    } else if b.len() == 0 {
        false
    } else if a[0] < b[0] {
        true
    } else if a[0] == b[0] {
        text_less(a.drop_first(), b.drop_first())
    } else {
        false
    }
}

/// The comparison of two texts.
pub open spec fn text_comparison(a: Seq<char>, b: Seq<char>) -> Comparison {
    if a == b {
        Comparison::Equal
    } else if text_less(a, b) {
        Comparison::Less
    } else {
        Comparison::Greater
    }
}

proof fn lemma_text_less_irreflexive(a: Seq<char>)
    ensures
        !text_less(a, a),
    decreases a.len(),
{
    if a.len() > 0 {
        lemma_text_less_irreflexive(a.drop_first());
    }
}

/// Of two different texts exactly one sorts first.
pub proof fn lemma_text_less_total(a: Seq<char>, b: Seq<char>)
    ensures
        a != b ==> (text_less(a, b) != text_less(b, a)),
        a == b ==> !text_less(a, b),
    decreases a.len(),
{
    if a == b {
        lemma_text_less_irreflexive(a);
    } else if a.len() > 0 && b.len() > 0 && a[0] == b[0] {
        lemma_text_less_total(a.drop_first(), b.drop_first());
        assert(text_less(a, b) == text_less(a.drop_first(), b.drop_first()));
        assert(text_less(b, a) == text_less(b.drop_first(), a.drop_first()));
        if a.drop_first() == b.drop_first() {
            assert forall|i: int| 0 <= i < a.len() implies a[i] == b[i] by {
                if i > 0 {
                    assert(a[i] == a.drop_first()[i - 1]);
                    assert(b[i] == b.drop_first()[i - 1]);
                }
            }
            assert(a =~= b);
        }
    } else if a.len() > 0 && b.len() > 0 {
        assert(a[0] != b[0]);
        assert(a[0] < b[0] || b[0] < a[0]);
        assert(text_less(a, b) == (a[0] < b[0]));
        assert(text_less(b, a) == (b[0] < a[0]));
    } else if a.len() == 0 {
        if b.len() == 0 {
            assert(a =~= b);
        }
    } else {
        assert(a.len() > 0 && b.len() == 0);
    }
}

/// Sorting before is transitive.
pub proof fn lemma_text_less_transitive(a: Seq<char>, b: Seq<char>, c: Seq<char>)
    requires
        text_less(a, b),
        text_less(b, c),
    ensures
        text_less(a, c),
    decreases a.len(),
{
    if a.len() > 0 && b.len() > 0 && c.len() > 0 && a[0] == b[0] && b[0] == c[0] {
        lemma_text_less_transitive(a.drop_first(), b.drop_first(), c.drop_first());
    }
}

/// Compares two texts by code point.
pub fn compare_text(a: &str, b: &str) -> (r: Comparison)
    ensures
        r == text_comparison(a@, b@),
{
    let la = a.unicode_len();
    let lb = b.unicode_len();
    let mut i: usize = 0;
    assert(a@.skip(0) =~= a@);
    assert(b@.skip(0) =~= b@);
    while i < la && i < lb
        invariant
            la == a@.len(),
            lb == b@.len(),
            0 <= i <= la,
            i <= lb,
            a@.subrange(0, i as int) == b@.subrange(0, i as int),
            text_less(a@, b@) == text_less(a@.skip(i as int), b@.skip(i as int)),
            (a@ == b@) == (a@.skip(i as int) == b@.skip(i as int)),
        decreases la - i,
    {
        let ca = a.get_char(i);
        let cb = b.get_char(i);
        let ghost sa = a@.skip(i as int);
        let ghost sb = b@.skip(i as int);
        assert(sa[0] == ca && sb[0] == cb);
        if ca != cb {
            assert(sa != sb);
            assert(a@ != b@);
            if ca < cb {
                return Comparison::Less;
            } else {
                return Comparison::Greater;
            }
        }
        assert(sa.drop_first() =~= a@.skip(i + 1));
        assert(sb.drop_first() =~= b@.skip(i + 1));
        proof {
            assert(sa =~= seq![sa[0]] + sa.drop_first());
            assert(sb =~= seq![sb[0]] + sb.drop_first());
        }
        assert(a@.subrange(0, i + 1) =~= a@.subrange(0, i as int).push(ca));
        assert(b@.subrange(0, i + 1) =~= b@.subrange(0, i as int).push(cb));
        i += 1;
    }
    if la == lb {
        assert(a@.skip(i as int) =~= Seq::<char>::empty());
        assert(b@.skip(i as int) =~= Seq::<char>::empty());
        Comparison::Equal
    } else if la < lb {
        assert(a@.skip(i as int).len() == 0);
        assert(a@ != b@);
        Comparison::Less
    } else {
        assert(b@.skip(i as int).len() == 0);
        assert(a@ != b@);
        Comparison::Greater
    }
}

/// A read cursor: a message timestamp and id.
pub open spec fn cursor_less(t1: i64, id1: Seq<char>, t2: i64, id2: Seq<char>) -> bool {
    t1 < t2 || (t1 == t2 && text_less(id1, id2))
}

/// Whether cursor (t1, id1) sorts strictly before (t2, id2): by timestamp,
/// then by message id.
pub fn cursor_before(t1: i64, id1: &str, t2: i64, id2: &str) -> (b: bool)
    ensures
        b == cursor_less(t1, id1@, t2, id2@),
{
    if t1 != t2 {
        return t1 < t2;
    }
    proof {
        lemma_text_less_total(id1@, id2@);
    }
    match compare_text(id1, id2) {
        Comparison::Less => true,
        _ => false,
    }
}

} // verus!
