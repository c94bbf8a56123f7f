//! The mathematical model of preference derivation.
//!
//! Candidate ids are modelled as `Seq<char>`; an ordering as a sequence of
//! ids; a judgment "winner is preferred over loser" as the pair
//! `(winner, loser)`.
use vstd::prelude::*;

verus! {

/// A candidate id.
pub type Id = Seq<char>;

/// A judgment: the first candidate is preferred over the second.
pub type Edge = (Seq<char>, Seq<char>);

/// The ids held by a sequence of strings.
pub open spec fn ids_of(s: Seq<String>) -> Seq<Id> {
    s.map_values(|x: String| x@)
}

/// `i` is the position of the first occurrence of `x` in `s`.
pub open spec fn is_first_position(s: Seq<Id>, x: Id, i: int) -> bool {
    &&& 0 <= i < s.len()
    &&& s[i] == x
    &&& forall|j: int| 0 <= j < i ==> s[j] != x
}

/// The position of the first occurrence of `x` in `s`, or -1 when `x` does
/// not occur.
pub open spec fn position_of(s: Seq<Id>, x: Id) -> int {
    if exists|i: int| is_first_position(s, x, i) {
        choose|i: int| is_first_position(s, x, i)
    } else {
        -1
    }
}

/// `c` moved up: it is preferred over each other candidate at the positions
/// `lo..hi` of the earlier ordering, in that order.
pub open spec fn up_edges(before: Seq<Id>, c: Id, lo: int, hi: int) -> Seq<Edge>
    decreases hi - lo,
{
    if hi <= lo {
        Seq::empty()
    } else {
        let d = before[hi - 1];
        let rest = up_edges(before, c, lo, hi - 1);
        if d == c {
            rest
        } else {
            rest.push((c, d))
        }
    }
}

/// `c` moved down: each other candidate at the positions `lo..hi` of the
/// earlier ordering is preferred over it, in that order.
pub open spec fn down_edges(before: Seq<Id>, c: Id, lo: int, hi: int) -> Seq<Edge>
    decreases hi - lo,
{
    if hi <= lo {
        Seq::empty()
    } else {
        let d = before[hi - 1];
        let rest = down_edges(before, c, lo, hi - 1);
        if d == c {
            rest
        } else {
            rest.push((d, c))
        }
    }
}

/// The judgments owed to the candidate at position `p` of the later ordering.
/// A filter leaves out every other candidate; a candidate missing from the
/// earlier ordering, or one that kept its position, gets none.
pub open spec fn edges_at(before: Seq<Id>, after: Seq<Id>, moved: Option<Id>, p: int) -> Seq<Edge> {
    let c = after[p];
    let old_pos = position_of(before, c);
    if moved is Some && moved->0 != c {
        Seq::empty()
    } else if old_pos < 0 || old_pos == p {
        Seq::empty()
    } else if p < old_pos {
        up_edges(before, c, p, old_pos)
    } else {
        down_edges(before, c, old_pos + 1, p + 1)
    }
}

/// The judgments of the first `n` positions of the later ordering, position
/// by position, before duplicates are removed.
pub open spec fn raw_edges(before: Seq<Id>, after: Seq<Id>, moved: Option<Id>, n: int) -> Seq<Edge>
    decreases n,
{
    if n <= 0 {
        Seq::empty()
    } else {
        raw_edges(before, after, moved, n - 1) + edges_at(before, after, moved, n - 1)
    }
}

/// `s` with each later repetition of an element removed; first occurrences
/// keep their order.
pub open spec fn dedup<T>(s: Seq<T>) -> Seq<T>
    decreases s.len(),
{
    if s.len() == 0 {
        Seq::empty()
    } else {
        let d = dedup(s.drop_last());
        if d.contains(s.last()) {
            d
        } else {
            d.push(s.last())
        }
    }
}

/// The two orderings cannot describe a move: one is empty, their lengths
/// differ, or nothing changed.
pub open spec fn no_move(before: Seq<Id>, after: Seq<Id>) -> bool {
    before.len() == 0 || after.len() == 0 || before.len() != after.len() || before == after
}

/// The judgments derived from a reordering `before` to `after`.
pub open spec fn derived_edges(before: Seq<Id>, after: Seq<Id>, moved: Option<Id>) -> Seq<Edge> {
    if no_move(before, after) {
        Seq::empty()
    } else {
        dedup(raw_edges(before, after, moved, after.len() as int))
    }
}

/// No element occurs twice.
pub open spec fn distinct<T>(s: Seq<T>) -> bool {
    forall|i: int, j: int| 0 <= i < s.len() && 0 <= j < s.len() && i != j ==> s[i] != s[j]
}

/// No judgment prefers a candidate over itself.
pub open spec fn no_self_edge(s: Seq<Edge>) -> bool {
    forall|i: int| 0 <= i < s.len() ==> (#[trigger] s[i]).0 != s[i].1
}

pub proof fn lemma_position_of_first(s: Seq<Id>, x: Id, i: int)
    requires
        is_first_position(s, x, i),
    ensures
        position_of(s, x) == i,
{
    let c = choose|k: int| is_first_position(s, x, k);
    assert(is_first_position(s, x, c));
    if c < i {
        assert(s[c] != x);
    } else if i < c {
        assert(s[i] != x);
    }
}

pub proof fn lemma_position_of_absent(s: Seq<Id>, x: Id)
    requires
        forall|j: int| 0 <= j < s.len() ==> s[j] != x,
    ensures
        position_of(s, x) == -1,
{
}

pub proof fn lemma_position_of_range(s: Seq<Id>, x: Id)
    ensures
        position_of(s, x) == -1 || is_first_position(s, x, position_of(s, x)),
{
}

pub proof fn lemma_dedup_contains<T>(s: Seq<T>, x: T)
    ensures
        dedup(s).contains(x) <==> s.contains(x),
    decreases s.len(),
{
    if s.len() > 0 {
        lemma_dedup_contains(s.drop_last(), x);
        if s.drop_last().contains(x) {
            let k = choose|k: int| 0 <= k < s.drop_last().len() && s.drop_last()[k] == x;
            assert(s[k] == x);
        }
        if s.contains(x) && x != s.last() {
            let k = choose|k: int| 0 <= k < s.len() && s[k] == x;
            assert(s.drop_last()[k] == x);
        }
        if x == s.last() {
            assert(s[s.len() - 1] == x);
        }
        let d = dedup(s.drop_last());
        if !d.contains(s.last()) {
            let e = d.push(s.last());
            assert(e[d.len() as int] == s.last());
            if d.contains(x) {
                let k = choose|k: int| 0 <= k < d.len() && d[k] == x;
                assert(e[k] == x);
            }
            if e.contains(x) && x != s.last() {
                let k = choose|k: int| 0 <= k < e.len() && e[k] == x;
                assert(d[k] == x);
            }
        } else if x == s.last() {
            assert(d.contains(x));
        }
    }
}

pub proof fn lemma_dedup_distinct<T>(s: Seq<T>)
    ensures
        distinct(dedup(s)),
    decreases s.len(),
{
    if s.len() > 0 {
        lemma_dedup_distinct(s.drop_last());
        let d = dedup(s.drop_last());
        if !d.contains(s.last()) {
            let e = d.push(s.last());
            assert forall|i: int, j: int| 0 <= i < e.len() && 0 <= j < e.len() && i != j implies e[i] != e[j] by {
                if i == d.len() {
                    assert(d[j] != s.last());
                } else if j == d.len() {
                    assert(d[i] != s.last());
                }
            }
        }
    }
}

pub proof fn lemma_dedup_of_distinct<T>(s: Seq<T>)
    requires
        distinct(s),
    ensures
        dedup(s) == s,
    decreases s.len(),
{
    if s.len() > 0 {
        let p = s.drop_last();
        assert(distinct(p));
        lemma_dedup_of_distinct(p);
        lemma_dedup_contains(p, s.last());
        if p.contains(s.last()) {
            let k = choose|k: int| 0 <= k < p.len() && p[k] == s.last();
            assert(s[k] == s[s.len() - 1]);
        }
        assert(p.push(s.last()) =~= s);
    }
}

pub proof fn lemma_up_edges_no_self(before: Seq<Id>, c: Id, lo: int, hi: int)
    ensures
        no_self_edge(up_edges(before, c, lo, hi)),
    decreases hi - lo,
{
    if hi > lo {
        lemma_up_edges_no_self(before, c, lo, hi - 1);
    }
}

pub proof fn lemma_down_edges_no_self(before: Seq<Id>, c: Id, lo: int, hi: int)
    ensures
        no_self_edge(down_edges(before, c, lo, hi)),
    decreases hi - lo,
{
    if hi > lo {
        lemma_down_edges_no_self(before, c, lo, hi - 1);
    }
}

pub proof fn lemma_raw_edges_no_self(before: Seq<Id>, after: Seq<Id>, moved: Option<Id>, n: int)
    ensures
        no_self_edge(raw_edges(before, after, moved, n)),
    decreases n,
{
    if n > 0 {
        lemma_raw_edges_no_self(before, after, moved, n - 1);
        let p = n - 1;
        let c = after[p];
        let old_pos = position_of(before, c);
        lemma_up_edges_no_self(before, c, p, old_pos);
        lemma_down_edges_no_self(before, c, old_pos + 1, p + 1);
        let a = raw_edges(before, after, moved, n - 1);
        let b = edges_at(before, after, moved, p);
        assert forall|i: int| 0 <= i < (a + b).len() implies (#[trigger] (a + b)[i]).0 != (a + b)[i].1 by {
            if i < a.len() {
                assert((a + b)[i] == a[i]);
            } else {
                assert((a + b)[i] == b[i - a.len()]);
            }
        }
    }
}

pub proof fn lemma_dedup_no_self(s: Seq<Edge>)
    requires
        no_self_edge(s),
    ensures
        no_self_edge(dedup(s)),
{
    let d = dedup(s);
    assert forall|i: int| 0 <= i < d.len() implies (#[trigger] d[i]).0 != d[i].1 by {
        assert(d.contains(d[i]));
        lemma_dedup_contains(s, d[i]);
        let k = choose|k: int| 0 <= k < s.len() && s[k] == d[i];
        assert(s[k].0 != s[k].1);
    }
}

/// No derived judgment prefers a candidate over itself.
pub proof fn no_self_preference(before: Seq<Id>, after: Seq<Id>, moved: Option<Id>)
    ensures
        no_self_edge(derived_edges(before, after, moved)),
{
    if !no_move(before, after) {
        lemma_raw_edges_no_self(before, after, moved, after.len() as int);
        lemma_dedup_no_self(raw_edges(before, after, moved, after.len() as int));
    }
}

/// No two derived judgments have the same winner and the same loser.
pub proof fn no_repeated_preference(before: Seq<Id>, after: Seq<Id>, moved: Option<Id>)
    ensures
        distinct(derived_edges(before, after, moved)),
{
    if !no_move(before, after) {
        lemma_dedup_distinct(raw_edges(before, after, moved, after.len() as int));
    }
}

/// A reorder that changes nothing derives no judgment.
pub proof fn unchanged_order_derives_nothing(order: Seq<Id>, moved: Option<Id>)
    ensures
        derived_edges(order, order, moved).len() == 0,
{
}

/// Orderings of different lengths, or with an empty one among them, derive
/// no judgment.
pub proof fn malformed_orders_derive_nothing(before: Seq<Id>, after: Seq<Id>, moved: Option<Id>)
    requires
        before.len() != after.len() || before.len() == 0 || after.len() == 0,
    ensures
        derived_edges(before, after, moved).len() == 0,
{
}

proof fn lemma_up_edges_plain(before: Seq<Id>, c: Id, lo: int, hi: int)
    requires
        0 <= lo <= hi <= before.len(),
        forall|j: int| lo <= j < hi ==> before[j] != c,
    ensures
        up_edges(before, c, lo, hi) == Seq::new((hi - lo) as nat, |i: int| (c, before[lo + i])),
    decreases hi - lo,
{
    if hi > lo {
        lemma_up_edges_plain(before, c, lo, hi - 1);
        assert(up_edges(before, c, lo, hi) =~= Seq::new((hi - lo) as nat, |i: int| (c, before[lo + i])));
    } else {
        assert(up_edges(before, c, lo, hi) =~= Seq::new((hi - lo) as nat, |i: int| (c, before[lo + i])));
    }
}

proof fn lemma_down_edges_plain(before: Seq<Id>, c: Id, lo: int, hi: int)
    requires
        0 <= lo <= hi <= before.len(),
        forall|j: int| lo <= j < hi ==> before[j] != c,
    ensures
        down_edges(before, c, lo, hi) == Seq::new((hi - lo) as nat, |i: int| (before[lo + i], c)),
    decreases hi - lo,
{
    if hi > lo {
        lemma_down_edges_plain(before, c, lo, hi - 1);
        assert(down_edges(before, c, lo, hi) =~= Seq::new((hi - lo) as nat, |i: int| (before[lo + i], c)));
    } else {
        assert(down_edges(before, c, lo, hi) =~= Seq::new((hi - lo) as nat, |i: int| (before[lo + i], c)));
    }
}

/// With the filter on `c`, only the position of `c` in the later ordering
/// contributes judgments.
proof fn lemma_raw_edges_single_mover(before: Seq<Id>, after: Seq<Id>, c: Id, new_pos: int, n: int)
    requires
        distinct(after),
        0 <= new_pos < after.len(),
        after[new_pos] == c,
        0 <= n <= after.len(),
    ensures
        raw_edges(before, after, Some(c), n) == (if n > new_pos {
            edges_at(before, after, Some(c), new_pos)
        } else {
            Seq::empty()
        }),
    decreases n,
{
    if n > 0 {
        lemma_raw_edges_single_mover(before, after, c, new_pos, n - 1);
        let p = n - 1;
        if p != new_pos {
            assert(after[p] != c);
            assert(edges_at(before, after, Some(c), p) =~= Seq::<Edge>::empty());
        }
        let prev = raw_edges(before, after, Some(c), n - 1);
        assert(prev + edges_at(before, after, Some(c), p) =~= raw_edges(before, after, Some(c), n));
        if p == new_pos {
            assert(prev =~= Seq::<Edge>::empty());
            assert(prev + edges_at(before, after, Some(c), p) =~= edges_at(before, after, Some(c), p));
        } else {
            assert(prev + Seq::<Edge>::empty() =~= prev);
        }
    }
}

/// A candidate `c` dragged up from `old_pos` to `new_pos`, with the filter on
/// `c`, is preferred over exactly the candidates at positions
/// `new_pos..old_pos` of the earlier ordering: one judgment each, in that
/// order, each with `c` as winner.
pub proof fn moving_up_derives_jumped_over(before: Seq<Id>, after: Seq<Id>, c: Id, old_pos: int, new_pos: int)
    requires
        before.len() == after.len(),
        distinct(before),
        distinct(after),
        0 <= new_pos < old_pos < before.len(),
        before[old_pos] == c,
        after[new_pos] == c,
    ensures
        derived_edges(before, after, Some(c)).len() == old_pos - new_pos,
        forall|i: int| 0 <= i < old_pos - new_pos ==> (#[trigger] derived_edges(before, after, Some(c))[i]).0 == c,
        derived_edges(before, after, Some(c)).map_values(|e: Edge| e.1) == before.subrange(new_pos, old_pos),
        derived_edges(before, after, Some(c)).map_values(|e: Edge| e.1).to_set() == before.subrange(new_pos, old_pos).to_set(),
{
    assert(before[new_pos] != c);
    assert(before != after);
    assert(is_first_position(before, c, old_pos));
    lemma_position_of_first(before, c, old_pos);
    lemma_raw_edges_single_mover(before, after, c, new_pos, after.len() as int);
    lemma_up_edges_plain(before, c, new_pos, old_pos);
    let s = Seq::new((old_pos - new_pos) as nat, |i: int| (c, before[new_pos + i]));
    assert(distinct(s)) by {
        assert forall|i: int, j: int| 0 <= i < s.len() && 0 <= j < s.len() && i != j implies s[i] != s[j] by {
            assert(before[new_pos + i] != before[new_pos + j]);
        }
    }
    lemma_dedup_of_distinct(s);
    assert(derived_edges(before, after, Some(c)) == s);
    assert(s.map_values(|e: Edge| e.1) =~= before.subrange(new_pos, old_pos));
}

/// A candidate `c` dragged down from `old_pos` to `new_pos`, with the filter
/// on `c`, is passed by exactly the candidates at positions
/// `old_pos + 1..=new_pos` of the earlier ordering: one judgment each, in that
/// order, each with `c` as loser.
pub proof fn moving_down_derives_fallen_behind(before: Seq<Id>, after: Seq<Id>, c: Id, old_pos: int, new_pos: int)
    requires
        before.len() == after.len(),
        distinct(before),
        distinct(after),
        0 <= old_pos < new_pos < before.len(),
        before[old_pos] == c,
        after[new_pos] == c,
    ensures
        derived_edges(before, after, Some(c)).len() == new_pos - old_pos,
        forall|i: int| 0 <= i < new_pos - old_pos ==> (#[trigger] derived_edges(before, after, Some(c))[i]).1 == c,
        derived_edges(before, after, Some(c)).map_values(|e: Edge| e.0) == before.subrange(old_pos + 1, new_pos + 1),
        derived_edges(before, after, Some(c)).map_values(|e: Edge| e.0).to_set() == before.subrange(old_pos + 1, new_pos + 1).to_set(),
{
    assert(before[new_pos] != c);
    assert(before != after);
    assert(is_first_position(before, c, old_pos));
    lemma_position_of_first(before, c, old_pos);
    lemma_raw_edges_single_mover(before, after, c, new_pos, after.len() as int);
    lemma_down_edges_plain(before, c, old_pos + 1, new_pos + 1);
    let s = Seq::new((new_pos - old_pos) as nat, |i: int| (before[old_pos + 1 + i], c));
    assert(distinct(s)) by {
        assert forall|i: int, j: int| 0 <= i < s.len() && 0 <= j < s.len() && i != j implies s[i] != s[j] by {
            assert(before[old_pos + 1 + i] != before[old_pos + 1 + j]);
        }
    }
    lemma_dedup_of_distinct(s);
    assert(derived_edges(before, after, Some(c)) == s);
    assert(s.map_values(|e: Edge| e.0) =~= before.subrange(old_pos + 1, new_pos + 1));
}

} // verus!
