//! Which avatars of a scrolled list are requested, and in what order: the
//! selected row, then the visible rows, then a few rows above and below.
use vstd::prelude::*;

verus! {

/// Rows requested above and below the visible part of the list.
pub const AVATAR_OVERSCAN: usize = 3;

/// The integers `a..b`, in order.
pub open spec fn int_range(a: int, b: int) -> Seq<int> {
    Seq::new(if b > a { (b - a) as nat } else { 0 }, |i: int| a + i)
}

pub open spec fn min_int(a: int, b: int) -> int {
    if a < b {
        a
    } else {
        b
    }
}

/// The row indices in request order, before duplicates are dropped.
pub open spec fn window_indices(len: int, selected: Option<usize>, offset: int, visible: int) -> Seq<
    int,
> {
    if len == 0 || visible == 0 {
        Seq::empty()
    } else {
        let visible_end = min_int(offset + visible, len);
        let start = min_int(offset, len);
        let overscan_start = if offset - 3 > 0 {
            offset - 3
        } else {
            0
        };
        let overscan_end = min_int(visible_end + 3, len);
        let sel = match selected {
            Some(i) => if i < len {
                seq![i as int]
            } else {
                Seq::empty()
            },
            None => Seq::empty(),
        };
        sel + int_range(start, visible_end) + int_range(overscan_start, start) + int_range(
            visible_end,
            overscan_end,
        )
    }
}

/// The text of each string.
pub open spec fn string_views(v: Seq<String>) -> Seq<Seq<char>> {
    v.map_values(|x: String| x@)
}

/// Keeps the first occurrence of each value, in order.
pub open spec fn first_occurrences(s: Seq<Seq<char>>) -> Seq<Seq<char>>
    decreases s.len(),
{
    if s.len() == 0 {
        Seq::empty()
    } else {
        let rest = first_occurrences(s.drop_last());
        if rest.contains(s.last()) {
            rest
        } else {
            rest.push(s.last())
        }
    }
}

/// The requested values: the rows at the window indices, first occurrence
/// of each value only.
pub open spec fn prioritized_spec(
    chats: Seq<Seq<char>>,
    selected: Option<usize>,
    offset: int,
    visible: int,
) -> Seq<Seq<char>> {
    first_occurrences(
        window_indices(chats.len() as int, selected, offset, visible).map_values(
            |i: int| chats[i],
        ),
    )
}

fn contains_string(v: &Vec<String>, s: &String) -> (b: bool)
    ensures
        b == string_views(v@).contains(s@),
{
    let mut i: usize = 0;
    while i < v.len()
        invariant
            0 <= i <= v.len(),
            forall|j: int| 0 <= j < i ==> v@[j]@ != s@,
        decreases v.len() - i,
    {
        if v[i] == *s {
            assert(string_views(v@)[i as int] == s@);
            return true;
        }
        i += 1;
    }
    proof {
        if string_views(v@).contains(s@) {
            let j = choose|j: int|
                0 <= j < v@.len() && #[trigger] string_views(v@)[j] == s@;
            assert(v@[j]@ == s@);
        }
    }
    false
}

fn push_range(
    chats: &[String],
    result: &mut Vec<String>,
    from: usize,
    to: usize,
    Ghost(indices): Ghost<Seq<int>>,
)
    requires
        from <= to <= chats.len(),
        old(result)@.map_values(|x: String| x@) == first_occurrences(
            indices.map_values(|i: int| chats@[i]@),
        ),
        forall|j: int| 0 <= j < indices.len() ==> 0 <= #[trigger] indices[j] < chats.len(),
    ensures
        final(result)@.map_values(|x: String| x@) == first_occurrences(
            (indices + int_range(from as int, to as int)).map_values(|i: int| chats@[i]@),
        ),
{
    let mut k = from;
    assert(indices + int_range(from as int, from as int) =~= indices);
    while k < to
        invariant
            from <= k <= to <= chats.len(),
            string_views(result@) == first_occurrences(
                (indices + int_range(from as int, k as int)).map_values(|i: int| chats@[i]@),
            ),
            forall|j: int| 0 <= j < indices.len() ==> 0 <= #[trigger] indices[j] < chats.len(),
        decreases to - k,
    {
        let ghost before = (indices + int_range(from as int, k as int)).map_values(
            |i: int| chats@[i]@,
        );
        let ghost after = (indices + int_range(from as int, k + 1)).map_values(
            |i: int| chats@[i]@,
        );
        assert(after.drop_last() =~= before);
        assert(after.last() == chats@[k as int]@);
        let item = &chats[k];
        if !contains_string(result, item) {
            result.push(item.clone());
            assert(string_views(result@) =~= first_occurrences(before).push(
                chats@[k as int]@,
            ));
        }
        k += 1;
    }
}

/// The selected row's index, where it lies in the list.
pub open spec fn selected_indices(selected: Option<usize>, len: int) -> Seq<int> {
    match selected {
        Some(index) => if (index as int) < len {
            seq![index as int]
        } else {
            Seq::empty()
        },
        None => Seq::empty(),
    }
}

fn selected_request(chats: &[String], selected: Option<usize>) -> (result: Vec<String>)
    ensures
        string_views(result@) == first_occurrences(
            selected_indices(selected, chats.len() as int).map_values(|i: int| chats@[i]@),
        ),
{
    let mut result: Vec<String> = Vec::new();
    let ghost indices = selected_indices(selected, chats.len() as int);
    match selected {
        Some(index) => {
            if index < chats.len() {
                result.push(chats[index].clone());
                proof {
                    let s1 = indices.map_values(|i: int| chats@[i]@);
                    assert(s1 =~= seq![chats@[index as int]@]);
                    assert(s1.drop_last() =~= Seq::<Seq<char>>::empty());
                    assert(first_occurrences(s1.drop_last()) == Seq::<Seq<char>>::empty());
                    assert(first_occurrences(s1) == Seq::<Seq<char>>::empty().push(s1.last()));
                    assert(string_views(result@) =~= first_occurrences(s1));
                }
            } else {
                assert(string_views(result@) =~= first_occurrences(indices.map_values(|i: int| chats@[i]@)));
            }
        },
        None => {
            assert(string_views(result@) =~= first_occurrences(indices.map_values(|i: int| chats@[i]@)));
        },
    }
    result
}

proof fn lemma_first_occurrences_within(t: Seq<Seq<char>>)
    ensures
        forall|x: Seq<char>| #[trigger] first_occurrences(t).contains(x) ==> t.contains(x),
    decreases t.len(),
{
    if t.len() > 0 {
        let prev = t.drop_last();
        lemma_first_occurrences_within(prev);
        let rest = first_occurrences(prev);
        assert forall|x: Seq<char>| #[trigger] first_occurrences(t).contains(x) implies t.contains(x) by {
            if rest.contains(x) {
                assert(prev.contains(x));
                let j = choose|j: int| 0 <= j < prev.len() && prev[j] == x;
                assert(t[j] == x);
            } else {
                let fo = rest.push(t.last());
                let q = choose|q: int| 0 <= q < fo.len() && fo[q] == x;
                assert(q == rest.len());
                assert(t[t.len() - 1] == x);
            }
        }
    }
}

proof fn lemma_first_occurrences_head(t: Seq<Seq<char>>)
    requires
        t.len() > 0,
    ensures
        first_occurrences(t).len() > 0,
        first_occurrences(t)[0] == t[0],
    decreases t.len(),
{
    let prev = t.drop_last();
    if prev.len() == 0 {
        assert(first_occurrences(prev) == Seq::<Seq<char>>::empty());
        assert(!first_occurrences(prev).contains(t.last()));
    } else {
        lemma_first_occurrences_head(prev);
        assert(prev[0] == t[0]);
    }
}

proof fn lemma_window_indices(len: int, selected: Option<usize>, offset: int, visible: int)
    requires
        len > 0,
        visible > 0,
        0 <= offset <= len + 3,
    ensures
        ({
            let w = window_indices(len, selected, offset, visible);
            let low = if offset > 3 { offset - 3 } else { 0 };
            let high = if offset + visible + 3 < len { offset + visible + 3 } else { len };
            &&& forall|k: int| low <= k < high ==> #[trigger] w.contains(k)
            &&& forall|j: int| 0 <= j < w.len() ==> (low <= #[trigger] w[j] < high || (selected matches Some(s)
                && w[j] == s && s < len))
            &&& match selected {
                Some(s) => s < len ==> w.len() > 0 && w[0] == s,
                None => true,
            }
        }),
{
    let w = window_indices(len, selected, offset, visible);
    let low = if offset > 3 { offset - 3 } else { 0 };
    let high = if offset + visible + 3 < len { offset + visible + 3 } else { len };
    let visible_end = min_int(offset + visible, len);
    let start = min_int(offset, len);
    let overscan_end = min_int(visible_end + 3, len);
    let sel = match selected {
        Some(i) => if i < len {
            seq![i as int]
        } else {
            Seq::empty()
        },
        None => Seq::empty(),
    };
    let a = int_range(start, visible_end);
    let b = int_range(low, start);
    let c = int_range(visible_end, overscan_end);
    assert(w == sel + a + b + c);
    assert(low <= start <= visible_end <= overscan_end);
    assert(overscan_end == high);
    assert forall|k: int| low <= k < high implies #[trigger] w.contains(k) by {
        if k < start {
            let j = sel.len() + a.len() + (k - low);
            assert(w[j] == b[k - low]);
        } else if k < visible_end {
            let j = sel.len() + (k - start);
            assert(w[j] == a[k - start]);
        } else {
            let j = sel.len() + a.len() + b.len() + (k - visible_end);
            assert(w[j] == c[k - visible_end]);
        }
    }
    assert forall|j: int| 0 <= j < w.len() implies (low <= #[trigger] w[j] < high || (selected matches Some(s)
        && w[j] == s && s < len)) by {
        if j < sel.len() {
        } else if j < sel.len() + a.len() {
            assert(w[j] == a[j - sel.len()]);
        } else if j < sel.len() + a.len() + b.len() {
            assert(w[j] == b[j - sel.len() - a.len()]);
        } else {
            assert(w[j] == c[j - sel.len() - a.len() - b.len()]);
        }
    }
}

/// Some value before position `j` of `t` is `x`.
pub open spec fn occurs_before(t: Seq<Seq<char>>, x: Seq<char>, j: int) -> bool {
    exists|i: int| 0 <= i < j && t[i] == x
}

/// The first occurrences keep the order of the values' first positions:
/// before any occurrence of a later value there is one of each earlier
/// value.
proof fn lemma_first_occurrences_order(t: Seq<Seq<char>>)
    ensures
        forall|a: int, b: int, j: int|
            0 <= a < b < first_occurrences(t).len() && 0 <= j < t.len() && #[trigger] t[j]
                == #[trigger] first_occurrences(t)[b] ==> occurs_before(t, #[trigger] first_occurrences(t)[a], j),
    decreases t.len(),
{
    if t.len() > 0 {
        let prev = t.drop_last();
        lemma_first_occurrences_order(prev);
        lemma_first_occurrences_within(prev);
        let rest = first_occurrences(prev);
        let fo = first_occurrences(t);
        let n = prev.len() as int;
        assert forall|a: int, b: int, j: int|
            0 <= a < b < fo.len() && 0 <= j < t.len() && #[trigger] t[j] == #[trigger] fo[b] implies occurs_before(
            t,
            #[trigger] fo[a],
            j,
        ) by {
            assert(fo[a] == rest[a]);
            if j < n && b < rest.len() {
                assert(t[j] == prev[j]);
                assert(fo[b] == rest[b]);
                assert(occurs_before(prev, rest[a], j));
                let i = choose|i: int| 0 <= i < j && prev[i] == rest[a];
                assert(t[i] == prev[i]);
            } else if j < n {
                assert(t[j] == prev[j]);
                assert(!rest.contains(t.last()));
                crate::community::lemma_first_occurrences_contains(prev, j);
                assert(fo[b] == t.last());
            } else if b < rest.len() {
                assert(fo[b] == rest[b]);
                assert(rest.contains(rest[b]));
                assert(prev.contains(rest[b]));
                let jj = choose|jj: int| 0 <= jj < prev.len() && prev[jj] == rest[b];
                assert(occurs_before(prev, rest[a], jj));
                let i = choose|i: int| 0 <= i < jj && prev[i] == rest[a];
                assert(t[i] == prev[i]);
            } else {
                assert(rest.contains(rest[a]));
                assert(prev.contains(rest[a]));
                let i = choose|i: int| 0 <= i < prev.len() && prev[i] == rest[a];
                assert(t[i] == prev[i]);
            }
        }
    }
}

/// The order in which window rows are requested after the selected row:
/// visible rows first, then the rows above, then the rows below, each
/// group top to bottom.
pub open spec fn requested_before(k: int, k2: int, start: int, visible_end: int) -> bool {
    let class = |x: int| if start <= x < visible_end { 1int } else if x < start { 2int } else { 3int };
    class(k) < class(k2) || (class(k) == class(k2) && k < k2)
}

proof fn lemma_window_position(len: int, selected: Option<usize>, offset: int, visible: int, k2: int) -> (j: int)
    requires
        len > 0,
        visible > 0,
        0 <= offset <= len + 3,
        (if offset > 3 { offset - 3 } else { 0 }) <= k2 < (if offset + visible + 3 < len {
            offset + visible + 3
        } else {
            len
        }),
    ensures
        ({
            let w = window_indices(len, selected, offset, visible);
            let low = if offset > 3 { offset - 3 } else { 0 };
            let high = if offset + visible + 3 < len { offset + visible + 3 } else { len };
            let start = if offset < len { offset } else { len };
            let visible_end = if offset + visible < len { offset + visible } else { len };
            &&& 0 <= j < w.len()
            &&& w[j] == k2
            &&& forall|i: int|
                0 <= i < j ==> (selected matches Some(s) && #[trigger] w[i] == s && s < len) || (low <= w[i] < high
                    && requested_before(w[i], k2, start, visible_end))
        }),
{
    let w = window_indices(len, selected, offset, visible);
    let low = if offset > 3 { offset - 3 } else { 0 };
    let visible_end = min_int(offset + visible, len);
    let start = min_int(offset, len);
    let overscan_end = min_int(visible_end + 3, len);
    let sel = match selected {
        Some(i) => if i < len {
            seq![i as int]
        } else {
            Seq::empty()
        },
        None => Seq::empty(),
    };
    let a = int_range(start, visible_end);
    let b = int_range(low, start);
    let c = int_range(visible_end, overscan_end);
    assert(w == sel + a + b + c);
    let j = if k2 < start {
        sel.len() + a.len() + (k2 - low)
    } else if k2 < visible_end {
        sel.len() + (k2 - start)
    } else {
        sel.len() + a.len() + b.len() + (k2 - visible_end)
    };
    assert forall|i: int| 0 <= i < j implies (selected matches Some(s) && #[trigger] w[i] == s && s < len) || (low
        <= w[i] < overscan_end && requested_before(w[i], k2, start, visible_end)) by {
        if i < sel.len() {
        } else if i < sel.len() + a.len() {
            assert(w[i] == a[i - sel.len()]);
        } else if i < sel.len() + a.len() + b.len() {
            assert(w[i] == b[i - sel.len() - a.len()]);
        } else {
            assert(w[i] == c[i - sel.len() - a.len() - b.len()]);
        }
    }
    if k2 < start {
        assert(w[j] == b[k2 - low]);
    } else if k2 < visible_end {
        assert(w[j] == a[k2 - start]);
    } else {
        assert(w[j] == c[k2 - visible_end]);
    }
    j
}

/// Some row holding `x` is requested before row `k2`: it is the selected
/// row, or a row of the window that comes earlier in request order.
pub open spec fn requested_earlier(
    chats: Seq<Seq<char>>,
    selected: Option<usize>,
    offset: int,
    visible: int,
    x: Seq<char>,
    k2: int,
) -> bool {
    let len = chats.len() as int;
    let low = if offset > 3 { offset - 3 } else { 0 };
    let high = if offset + visible + 3 < len { offset + visible + 3 } else { len };
    let start = if offset < len { offset } else { len };
    let visible_end = if offset + visible < len { offset + visible } else { len };
    exists|k: int|
        chats[k] == x && ((selected matches Some(s) && k == s && s < len) || (low <= k < high && requested_before(
            k,
            k2,
            start,
            visible_end,
        )))
}

/// What the requests `r` for a non-empty list and viewport must be: every
/// row from three above the viewport to three below it is requested, the
/// selected row (where it lies in the list) first; nothing else is
/// requested, and nothing twice; and a row's value comes after the values
/// of the rows requested before it (the selected row, then the visible
/// rows, the rows above, the rows below).
pub open spec fn covers_window(
    chats: Seq<Seq<char>>,
    selected: Option<usize>,
    offset: int,
    visible: int,
    r: Seq<Seq<char>>,
) -> bool {
    let low = if offset > 3 { offset - 3 } else { 0 };
    let high = if offset + visible + 3 < chats.len() { offset + visible + 3 } else { chats.len() as int };
    &&& forall|k: int| low <= k < high ==> r.contains(#[trigger] chats[k])
    &&& match selected {
        Some(s) => s < chats.len() ==> r.len() > 0 && r[0] == chats[s as int],
        None => true,
    }
    &&& forall|x: Seq<char>| #[trigger] r.contains(x) ==> exists|k: int|
        ((low <= k < high) || (selected matches Some(s) && k == s && s < chats.len())) && chats[k] == x
    &&& forall|a: int, b: int| 0 <= a < b < r.len() ==> r[a] != r[b]
    &&& forall|a: int, b: int, k2: int|
        0 <= a < b < r.len() && low <= k2 < high && #[trigger] chats[k2] == #[trigger] r[b] ==> requested_earlier(
            chats,
            selected,
            offset,
            visible,
            #[trigger] r[a],
            k2,
        )
}

/// The requests for a non-empty list and viewport cover the viewport and
/// three rows on each side, the selected row first, and nothing else.
pub proof fn lemma_requests_cover_window(chats: Seq<Seq<char>>, selected: Option<usize>, offset: int, visible: int)
    requires
        chats.len() > 0,
        visible > 0,
        0 <= offset <= chats.len() + 3,
    ensures
        covers_window(chats, selected, offset, visible, prioritized_spec(chats, selected, offset, visible)),
{
    let len = chats.len() as int;
    let w = window_indices(len, selected, offset, visible);
    let t = w.map_values(|i: int| chats[i]);
    let r = prioritized_spec(chats, selected, offset, visible);
    let low = if offset > 3 { offset - 3 } else { 0 };
    let high = if offset + visible + 3 < len { offset + visible + 3 } else { len };
    assert(r == first_occurrences(t));
    lemma_window_indices(len, selected, offset, visible);
    crate::community::lemma_first_occurrences_distinct(t);
    lemma_first_occurrences_within(t);
    assert forall|k: int| low <= k < high implies r.contains(#[trigger] chats[k]) by {
        assert(w.contains(k));
        let j = choose|j: int| 0 <= j < w.len() && w[j] == k;
        crate::community::lemma_first_occurrences_contains(t, j);
        assert(t[j] == chats[k]);
    }
    if let Some(s) = selected {
        if (s as int) < len {
            lemma_first_occurrences_head(t);
            assert(t[0] == chats[s as int]);
        }
    }
    assert forall|x: Seq<char>| #[trigger] r.contains(x) implies exists|k: int|
        ((low <= k < high) || (selected matches Some(s) && k == s && s < chats.len())) && chats[k] == x by {
        assert(t.contains(x));
        let j = choose|j: int| 0 <= j < t.len() && t[j] == x;
        assert(t[j] == chats[w[j]]);
        let k = w[j];
        assert((low <= k < high) || (selected matches Some(s) && k == s && s < chats.len()));
    }
    lemma_first_occurrences_order(t);
    assert forall|a: int, b: int, k2: int|
        0 <= a < b < r.len() && low <= k2 < high && #[trigger] chats[k2] == #[trigger] r[b] implies requested_earlier(
        chats,
        selected,
        offset,
        visible,
        #[trigger] r[a],
        k2,
    ) by {
        let j = lemma_window_position(len, selected, offset, visible, k2);
        assert(t[j] == chats[k2]);
        assert(occurs_before(t, r[a], j));
        let i = choose|i: int| 0 <= i < j && t[i] == r[a];
        assert(t[i] == chats[w[i]]);
        let k = w[i];
        assert(chats[k] == r[a]);
    }
}

/// The avatars to request for a scrolled list: the selected row first,
/// then the visible rows, then up to three rows above and three below, each
/// value once. An empty list or an empty viewport requests nothing.
#[verifier::spinoff_prover]
#[verifier::rlimit(100)]
pub fn prioritized_avatar_requests(
    chats: &[String],
    selected: Option<usize>,
    offset: usize,
    visible_count: usize,
) -> (r: Vec<String>)
    requires
        chats.len() > 0 && visible_count > 0 ==> offset <= chats.len() + AVATAR_OVERSCAN,
    ensures
        string_views(r@) == prioritized_spec(
            string_views(chats@),
            selected,
            offset as int,
            visible_count as int,
        ),
        chats.len() > 0 && visible_count > 0 ==> covers_window(
            string_views(chats@),
            selected,
            offset as int,
            visible_count as int,
            string_views(r@),
        ),
        chats.len() == 0 || visible_count == 0 ==> r@.len() == 0,
{
    proof {
        if chats.len() > 0 && visible_count > 0 {
            lemma_requests_cover_window(string_views(chats@), selected, offset as int, visible_count as int);
        }
    }
    let ghost view = string_views(chats@);
    if chats.len() == 0 || visible_count == 0 {
        let r: Vec<String> = Vec::new();
        assert(string_views(r@) =~= Seq::<Seq<char>>::empty());
        return r;
    }
    let len = chats.len();
    let visible_end = if offset > len || visible_count > len - offset {
        len
    } else {
        offset + visible_count
    };
    let start = if offset < len {
        offset
    } else {
        len
    };
    let overscan_start = if offset > AVATAR_OVERSCAN {
        offset - AVATAR_OVERSCAN
    } else {
        0
    };
    let overscan_end = if visible_end < len && len - visible_end > AVATAR_OVERSCAN {
        visible_end + AVATAR_OVERSCAN
    } else {
        len
    };
    assert(visible_end == min_int(offset + visible_count, len as int));
    assert(start == min_int(offset as int, len as int));
    assert(overscan_end == min_int(visible_end + 3, len as int));
    let mut result = selected_request(chats, selected);
    let ghost mut indices: Seq<int> = selected_indices(selected, len as int);
    push_range(chats, &mut result, start, visible_end, Ghost(indices));
    proof {
        indices = indices + int_range(start as int, visible_end as int);
    }
    push_range(chats, &mut result, overscan_start, start, Ghost(indices));
    proof {
        indices = indices + int_range(overscan_start as int, start as int);
    }
    push_range(chats, &mut result, visible_end, overscan_end, Ghost(indices));
    proof {
        indices = indices + int_range(visible_end as int, overscan_end as int);
        assert(indices =~= window_indices(len as int, selected, offset as int, visible_count as int));
        assert(indices.map_values(|i: int| chats@[i]@) =~= window_indices(
            view.len() as int,
            selected,
            offset as int,
            visible_count as int,
        ).map_values(|i: int| view[i]));
    }
    result
}

} // verus!
