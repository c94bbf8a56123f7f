//! Derivation of pairwise preferences from a reorder of a candidate list.
use vstd::prelude::*;
use vstd::string::StringExecFns;
use std::collections::HashMap;
use crate::models::PairwisePreference;
use crate::outside::{has_key_for, key_for, stored_value, fresh_id, now_rfc3339};
use crate::reorder_spec::{
    Edge, Id, ids_of, position_of, up_edges, down_edges, edges_at, raw_edges, dedup, derived_edges,
    no_move, no_self_edge, distinct, lemma_position_of_first, lemma_position_of_absent,
    lemma_position_of_range, no_self_preference, no_repeated_preference,
};

verus! {

/// A judgment: `winner_id` is preferred over `loser_id`.
pub struct PreferencePair {
    pub winner_id: String,
    pub loser_id: String,
}

impl View for PreferencePair {
    type V = Edge;

    open spec fn view(&self) -> Edge {
        (self.winner_id@, self.loser_id@)
    }
}

/// The judgments held by a sequence of pairs.
pub open spec fn pairs_view(s: Seq<PreferencePair>) -> Seq<Edge> {
    s.map_values(|p: PreferencePair| p@)
}

/// The candidate filter as an id.
pub open spec fn filter_view(moved: Option<&str>) -> Option<Id> {
    match moved {
        Some(m) => Some(m@),
        None => None,
    }
}

fn copy_pair(p: &PreferencePair) -> (r: PreferencePair)
    ensures
        r@ == p@,
{
    PreferencePair { winner_id: p.winner_id.clone(), loser_id: p.loser_id.clone() }
}

fn push_pair(out: &mut Vec<PreferencePair>, winner: &String, loser: &String)
    ensures
        pairs_view(final(out)@) == pairs_view(old(out)@).push((winner@, loser@)),
{
    out.push(PreferencePair { winner_id: winner.clone(), loser_id: loser.clone() });
    assert(pairs_view(final(out)@) =~= pairs_view(old(out)@).push((winner@, loser@)));
}

/// The position of the first occurrence of `id` in `order`.
pub fn position_in(order: &[String], id: &String) -> (r: Option<usize>)
    ensures
        match r {
            Some(i) => position_of(ids_of(order@), id@) == i as int,
            None => position_of(ids_of(order@), id@) == -1,
        },
{
    let ghost s = ids_of(order@);
    let mut i: usize = 0;
    while i < order.len()
        invariant
            i <= order.len(),
            s == ids_of(order@),
            forall|j: int| 0 <= j < i ==> s[j] != id@,
        decreases order.len() - i,
    {
        if order[i] == *id {
            proof {
                lemma_position_of_first(s, id@, i as int);
            }
            return Some(i);
        }
        i = i + 1;
    }
    proof {
        lemma_position_of_absent(s, id@);
    }
    None
}

/// Whether the two orderings hold the same ids at every position.
pub fn same_order(before: &[String], after: &[String]) -> (r: bool)
    ensures
        r == (ids_of(before@) == ids_of(after@)),
{
    if before.len() != after.len() {
        assert(ids_of(before@).len() != ids_of(after@).len());
        return false;
    }
    let mut i: usize = 0;
    while i < before.len()
        invariant
            i <= before.len(),
            before.len() == after.len(),
            forall|j: int| 0 <= j < i ==> before@[j]@ == after@[j]@,
        decreases before.len() - i,
    {
        if before[i] != after[i] {
            assert(ids_of(before@)[i as int] != ids_of(after@)[i as int]);
            return false;
        }
        i = i + 1;
    }
    assert(ids_of(before@) =~= ids_of(after@));
    true
}

/// Appends the judgments of a candidate `c` that moved up from `old_pos` to
/// `new_pos`: `c` is preferred over each other candidate it jumped over.
fn push_moved_up(before: &[String], c: &String, new_pos: usize, old_pos: usize, out: &mut Vec<PreferencePair>)
    requires
        new_pos <= old_pos <= before.len(),
    ensures
        pairs_view(final(out)@) == pairs_view(old(out)@) + up_edges(ids_of(before@), c@, new_pos as int, old_pos as int),
{
    let ghost b = ids_of(before@);
    let ghost start = pairs_view(out@);
    let mut j: usize = new_pos;
    assert(start =~= start + up_edges(b, c@, new_pos as int, new_pos as int));
    while j < old_pos
        invariant
            new_pos <= j <= old_pos <= before.len(),
            b == ids_of(before@),
            pairs_view(out@) == start + up_edges(b, c@, new_pos as int, j as int),
        decreases old_pos - j,
    {
        let ghost prev = pairs_view(out@);
        if before[j] != *c {
            push_pair(out, c, &before[j]);
        }
        j = j + 1;
        assert(pairs_view(out@) =~= start + up_edges(b, c@, new_pos as int, j as int)) by {
            assert(b[j - 1] == before@[j - 1]@);
            if b[j - 1] != c@ {
                assert(prev.push((c@, b[j - 1])) =~= start + up_edges(b, c@, new_pos as int, j - 1).push((c@, b[j - 1])));
            }
        }
    }
}

/// Appends the judgments of a candidate `c` that moved down from `old_pos` to
/// `new_pos`: each other candidate that it fell behind is preferred over it.
fn push_moved_down(before: &[String], c: &String, old_pos: usize, new_pos: usize, out: &mut Vec<PreferencePair>)
    requires
        old_pos < new_pos < before.len(),
    ensures
        pairs_view(final(out)@) == pairs_view(old(out)@) + down_edges(ids_of(before@), c@, old_pos + 1, new_pos + 1),
{
    let ghost b = ids_of(before@);
    let ghost start = pairs_view(out@);
    let mut j: usize = old_pos + 1;
    assert(start =~= start + down_edges(b, c@, old_pos + 1, old_pos + 1));
    while j <= new_pos
        invariant
            old_pos < j <= new_pos + 1,
            new_pos < before.len(),
            b == ids_of(before@),
            pairs_view(out@) == start + down_edges(b, c@, old_pos + 1, j as int),
        decreases new_pos + 1 - j,
    {
        let ghost prev = pairs_view(out@);
        if before[j] != *c {
            push_pair(out, &before[j], c);
        }
        j = j + 1;
        assert(pairs_view(out@) =~= start + down_edges(b, c@, old_pos + 1, j as int)) by {
            assert(b[j - 1] == before@[j - 1]@);
            if b[j - 1] != c@ {
                assert(prev.push((b[j - 1], c@)) =~= start + down_edges(b, c@, old_pos + 1, j - 1).push((b[j - 1], c@)));
            }
        }
    }
}

/// Appends the judgments owed to the candidate at position `new_pos` of the
/// later ordering.
fn push_edges_at(
    before: &[String],
    after: &[String],
    moved: &Option<String>,
    new_pos: usize,
    out: &mut Vec<PreferencePair>,
)
    requires
        new_pos < after.len(),
        before.len() == after.len(),
    ensures
        pairs_view(final(out)@) == pairs_view(old(out)@) + edges_at(
            ids_of(before@),
            ids_of(after@),
            match moved { Some(m) => Some(m@), None => None },
            new_pos as int,
        ),
{
    let ghost b = ids_of(before@);
    let ghost a = ids_of(after@);
    let ghost f: Option<Id> = match moved { Some(m) => Some(m@), None => None };
    let ghost e = edges_at(b, a, f, new_pos as int);
    let c = &after[new_pos];
    assert(a[new_pos as int] == c@);
    if let Some(m) = moved {
        if *c != *m {
            assert(e =~= Seq::<Edge>::empty());
            assert(pairs_view(out@) =~= pairs_view(out@) + e);
            return;
        }
    }
    match position_in(before, c) {
        None => {
            assert(pairs_view(out@) =~= pairs_view(out@) + e);
        },
        Some(old_pos) => {
            proof {
                lemma_position_of_range(b, c@);
            }
            if old_pos == new_pos {
                assert(pairs_view(out@) =~= pairs_view(out@) + e);
            } else if new_pos < old_pos {
                push_moved_up(before, c, new_pos, old_pos, out);
            } else {
                push_moved_down(before, c, old_pos, new_pos, out);
            }
        },
    }
}

/// The judgments of every position of the later ordering, in position order,
/// repetitions included.
fn crossing_pairs(before: &[String], after: &[String], moved: &Option<String>) -> (r: Vec<PreferencePair>)
    requires
        before.len() == after.len(),
    ensures
        pairs_view(r@) == raw_edges(
            ids_of(before@),
            ids_of(after@),
            match moved { Some(m) => Some(m@), None => None },
            after.len() as int,
        ),
{
    let ghost b = ids_of(before@);
    let ghost a = ids_of(after@);
    let ghost f: Option<Id> = match moved { Some(m) => Some(m@), None => None };
    let mut out: Vec<PreferencePair> = Vec::new();
    let mut p: usize = 0;
    assert(pairs_view(out@) =~= raw_edges(b, a, f, 0));
    while p < after.len()
        invariant
            p <= after.len(),
            before.len() == after.len(),
            b == ids_of(before@),
            a == ids_of(after@),
            f == (match moved { Some(m) => Some(m@), None => None::<Id> }),
            pairs_view(out@) == raw_edges(b, a, f, p as int),
        decreases after.len() - p,
    {
        push_edges_at(before, after, moved, p, &mut out);
        p = p + 1;
    }
    out
}

/// Whether `pairs` already holds the judgment `pair`.
fn holds_pair(pairs: &Vec<PreferencePair>, pair: &PreferencePair) -> (r: bool)
    ensures
        r == pairs_view(pairs@).contains(pair@),
{
    let ghost s = pairs_view(pairs@);
    let mut i: usize = 0;
    while i < pairs.len()
        invariant
            i <= pairs.len(),
            s == pairs_view(pairs@),
            forall|j: int| 0 <= j < i ==> s[j] != pair@,
        decreases pairs.len() - i,
    {
        if pairs[i].winner_id == pair.winner_id && pairs[i].loser_id == pair.loser_id {
            assert(s[i as int] == pair@);
            return true;
        }
        assert(s[i as int] == pairs@[i as int]@);
        i = i + 1;
    }
    false
}

/// Keeps the first occurrence of each judgment, in order.
pub fn dedup_pairs(pairs: Vec<PreferencePair>) -> (r: Vec<PreferencePair>)
    ensures
        pairs_view(r@) == dedup(pairs_view(pairs@)),
{
    let ghost s = pairs_view(pairs@);
    let mut out: Vec<PreferencePair> = Vec::new();
    let mut i: usize = 0;
    assert(s.take(0) =~= Seq::<Edge>::empty());
    while i < pairs.len()
        invariant
            i <= pairs.len(),
            s == pairs_view(pairs@),
            pairs_view(out@) == dedup(s.take(i as int)),
        decreases pairs.len() - i,
    {
        assert(s.take(i + 1).drop_last() =~= s.take(i as int));
        assert(s.take(i + 1).last() == pairs@[i as int]@);
        if !holds_pair(&out, &pairs[i]) {
            let p = copy_pair(&pairs[i]);
            out.push(p);
            assert(pairs_view(out@) =~= dedup(s.take(i as int)).push(pairs@[i as int]@));
        }
        i = i + 1;
    }
    assert(s.take(pairs.len() as int) =~= s);
    out
}

/// The judgments that a reorder from `before_order` to `after_order` implies:
/// a candidate that moved up is preferred over each candidate it jumped over;
/// each candidate that a candidate fell behind is preferred over it. With a
/// filter, only the filtered candidate's moves count. Repeated judgments are
/// dropped, first occurrences kept in order.
pub fn derive_preference_pairs(before_order: &[String], after_order: &[String], moved_talent_id: Option<&str>) -> (r: Vec<PreferencePair>)
    ensures
        pairs_view(r@) == derived_edges(ids_of(before_order@), ids_of(after_order@), filter_view(moved_talent_id)),
        no_move(ids_of(before_order@), ids_of(after_order@)) ==> r@.len() == 0,
        no_self_edge(pairs_view(r@)),
        distinct(pairs_view(r@)),
{
    proof {
        no_self_preference(ids_of(before_order@), ids_of(after_order@), filter_view(moved_talent_id));
        no_repeated_preference(ids_of(before_order@), ids_of(after_order@), filter_view(moved_talent_id));
    }
    if before_order.len() == 0 || after_order.len() == 0 || before_order.len() != after_order.len() {
        return Vec::new();
    }
    if same_order(before_order, after_order) {
        return Vec::new();
    }
    let moved: Option<String> = match moved_talent_id {
        Some(m) => Some(String::from_str(m)),
        None => None,
    };
    assert((match moved { Some(m) => Some(m@), None => None::<Id> }) == filter_view(moved_talent_id));
    let raw = crossing_pairs(before_order, after_order, &moved);
    dedup_pairs(raw)
}

/// The display name of candidate `id`: its entry in `names`, or "Unknown".
pub open spec fn display_name(names: Map<String, String>, id: Id) -> Seq<char> {
    if has_key_for(names, id) {
        names[key_for(names, id)]@
    } else {
        "Unknown"@
    }
}

/// `p` records the judgment `e` for the job and the event given, with the
/// candidates' display names taken from `names`.
pub open spec fn records_edge(
    p: PairwisePreference,
    e: Edge,
    names: Map<String, String>,
    job_id: Seq<char>,
    job_text: Seq<char>,
    event_id: Seq<char>,
) -> bool {
    &&& p.winner_id@ == e.0
    &&& p.loser_id@ == e.1
    &&& p.winner_text@ == display_name(names, e.0)
    &&& p.loser_text@ == display_name(names, e.1)
    &&& p.job_id@ == job_id
    &&& p.job_text@ == job_text
    &&& p.source@ == "manual_reorder"@
    &&& p.reorder_event_id matches Some(r) && r@ == event_id
    &&& p.id@.len() == 36
}

fn name_or_unknown(names: &HashMap<String, String>, id: &String) -> (r: String)
    ensures
        r@ == display_name(names@, id@),
{
    match stored_value(names, id) {
        Some(name) => name.clone(),
        None => String::from_str("Unknown"),
    }
}

/// The preference records that a reorder from `before_order` to
/// `after_order` implies for one job: one record for each judgment of
/// `derive_preference_pairs`, in its order, each with a fresh id and the
/// current time.
pub fn derive_pairwise_preferences(
    before_order: &[String],
    after_order: &[String],
    job_id: &str,
    job_text: &str,
    talent_names: &HashMap<String, String>,
    reorder_event_id: &str,
    moved_talent_id: Option<&str>,
) -> (r: Vec<PairwisePreference>)
    ensures
        r.len() == derived_edges(ids_of(before_order@), ids_of(after_order@), filter_view(moved_talent_id)).len(),
        forall|i: int|
            0 <= i < r.len() ==> records_edge(
                #[trigger] r[i],
                derived_edges(ids_of(before_order@), ids_of(after_order@), filter_view(moved_talent_id))[i],
                talent_names@,
                job_id@,
                job_text@,
                reorder_event_id@,
            ),
        no_move(ids_of(before_order@), ids_of(after_order@)) ==> r.len() == 0,
        forall|i: int| 0 <= i < r.len() ==> (#[trigger] r[i]).winner_id@ != r[i].loser_id@,
        forall|i: int, j: int|
            0 <= i < r.len() && 0 <= j < r.len() && i != j ==> (#[trigger] r[i].winner_id@, r[i].loser_id@) != (
            #[trigger] r[j].winner_id@, r[j].loser_id@),
{
    let pairs = derive_preference_pairs(before_order, after_order, moved_talent_id);
    let ghost edges = pairs_view(pairs@);
    let mut out: Vec<PairwisePreference> = Vec::new();
    let mut i: usize = 0;
    while i < pairs.len()
        invariant
            i <= pairs.len(),
            edges == pairs_view(pairs@),
            out.len() == i,
            forall|k: int|
                0 <= k < i ==> records_edge(
                    #[trigger] out@[k],
                    edges[k],
                    talent_names@,
                    job_id@,
                    job_text@,
                    reorder_event_id@,
                ),
        decreases pairs.len() - i,
    {
        let pair = &pairs[i];
        let record = PairwisePreference {
            id: fresh_id(),
            winner_id: pair.winner_id.clone(),
            loser_id: pair.loser_id.clone(),
            job_id: String::from_str(job_id),
            job_text: String::from_str(job_text),
            winner_text: name_or_unknown(talent_names, &pair.winner_id),
            loser_text: name_or_unknown(talent_names, &pair.loser_id),
            source: String::from_str("manual_reorder"),
            reorder_event_id: Some(String::from_str(reorder_event_id)),
            created_at: now_rfc3339(),
        };
        assert(edges[i as int] == pair@);
        out.push(record);
        i = i + 1;
    }
    proof {
        assert forall|a: int, b: int|
            0 <= a < out.len() && 0 <= b < out.len() && a != b implies (out@[a].winner_id@, out@[a].loser_id@) != (
            out@[b].winner_id@, out@[b].loser_id@) by {
            assert(edges[a] != edges[b]);
        }
    }
    out
}

} // verus!
