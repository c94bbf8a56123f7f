//! The decisions around one "submit reorder" request: what is rejected, the
//! job's label, which candidates need a display name, the event record that
//! is kept, and the answer sent back.
use vstd::prelude::*;
use vstd::string::StringExecFns;
use crate::models::{ApiError, CreateReorderEventRequest, Job, ReorderEvent, ReorderResponse};
use crate::outside::{fresh_id, now_rfc3339, ids_json, json_array_of};
use crate::reorder_spec::{dedup, ids_of};

verus! {

/// The two orderings of a request have different lengths.
pub open spec fn lengths_differ(request: CreateReorderEventRequest) -> bool {
    request.before_order@.len() != request.after_order@.len()
}

/// The orderings of a request have equal lengths and are empty.
pub open spec fn orders_empty(request: CreateReorderEventRequest) -> bool {
    !lengths_differ(request) && request.before_order@.len() == 0
}

/// Checks a reorder request before anything is stored: both orderings must
/// have the same length, and must not be empty. A rejection is a client
/// error with code 400.
pub fn validate_reorder_request(request: &CreateReorderEventRequest) -> (r: Result<(), ApiError>)
    ensures
        r is Ok <==> !lengths_differ(*request) && !orders_empty(*request),
        lengths_differ(*request) ==> (r matches Err(e) && e.code == 400 && e.message@
            == "Before and after order lengths must match"@),
        orders_empty(*request) ==> (r matches Err(e) && e.code == 400 && e.message@
            == "Order arrays cannot be empty"@),
{
    if request.before_order.len() != request.after_order.len() {
        return Err(
            ApiError { message: String::from_str("Before and after order lengths must match"), code: 400 },
        );
    }
    if request.before_order.len() == 0 {
        return Err(ApiError { message: String::from_str("Order arrays cannot be empty"), code: 400 });
    }
    Ok(())
}

/// The label a job's judgments carry: "<title> at <company>".
pub fn job_label(job: &Job) -> (r: String)
    ensures
        r@ == job.title@ + " at "@ + job.company_name@,
{
    let mut label = job.title.clone();
    label.append(" at ");
    label.append(job.company_name.as_str());
    label
}

/// Every candidate id of the two orderings once, in order of first
/// appearance, the earlier ordering first: the ids whose display names are
/// looked up.
pub fn talent_ids_to_resolve(before_order: &[String], after_order: &[String]) -> (r: Vec<String>)
    ensures
        ids_of(r@) == dedup(ids_of(before_order@) + ids_of(after_order@)),
{
    let ghost all = ids_of(before_order@) + ids_of(after_order@);
    let mut out: Vec<String> = Vec::new();
    assert(all.take(0) =~= Seq::<Seq<char>>::empty());
    assert(ids_of(out@) =~= Seq::<Seq<char>>::empty());
    let mut i: usize = 0;
    while i < before_order.len()
        invariant
            i <= before_order.len(),
            all == ids_of(before_order@) + ids_of(after_order@),
            ids_of(out@) == dedup(all.take(i as int)),
        decreases before_order.len() - i,
    {
        let id = &before_order[i];
        assert(all[i as int] == id@);
        add_if_new(&mut out, id, Ghost(all), Ghost(i as int));
        i = i + 1;
    }
    let mut j: usize = 0;
    while j < after_order.len()
        invariant
            j <= after_order.len(),
            all == ids_of(before_order@) + ids_of(after_order@),
            ids_of(out@) == dedup(all.take(before_order@.len() + j)),
        decreases after_order.len() - j,
    {
        let id = &after_order[j];
        assert(all[before_order@.len() + j] == id@);
        add_if_new(&mut out, id, Ghost(all), Ghost(before_order@.len() + j));
        j = j + 1;
    }
    assert(all.take(all.len() as int) =~= all);
    out
}

fn add_if_new(out: &mut Vec<String>, id: &String, Ghost(all): Ghost<Seq<Seq<char>>>, Ghost(k): Ghost<int>)
    requires
        0 <= k < all.len(),
        all[k] == id@,
        ids_of(old(out)@) == dedup(all.take(k)),
    ensures
        ids_of(final(out)@) == dedup(all.take(k + 1)),
{
    assert(all.take(k + 1).drop_last() =~= all.take(k));
    let ghost prev = out@;
    if !holds_id(out, id) {
        out.push(id.clone());
        assert(ids_of(final(out)@) =~= ids_of(prev).push(id@));
    }
}

fn holds_id(ids: &Vec<String>, id: &String) -> (r: bool)
    ensures
        r == ids_of(ids@).contains(id@),
{
    let mut i: usize = 0;
    while i < ids.len()
        invariant
            i <= ids.len(),
            forall|j: int| 0 <= j < i ==> ids_of(ids@)[j] != id@,
        decreases ids.len() - i,
    {
        if ids[i] == *id {
            assert(ids_of(ids@)[i as int] == id@);
            return true;
        }
        i = i + 1;
    }
    false
}

/// The record of a reorder request that is kept for provenance: a fresh id,
/// the request's job and moved candidate, both orderings as JSON arrays, and
/// the current time.
pub fn new_reorder_event(request: &CreateReorderEventRequest) -> (r: ReorderEvent)
    ensures
        r.id@.len() == 36,
        r.job_id == request.job_id,
        r.before_order@ == json_array_of(ids_of(request.before_order@)),
        r.after_order@ == json_array_of(ids_of(request.after_order@)),
        r.moved_talent_id == request.moved_talent_id,
{
    ReorderEvent {
        id: fresh_id(),
        job_id: request.job_id.clone(),
        before_order: ids_json(&request.before_order),
        after_order: ids_json(&request.after_order),
        moved_talent_id: request.moved_talent_id.clone(),
        event_timestamp: now_rfc3339(),
        created_at: now_rfc3339(),
    }
}

/// The decimal digit `d`.
pub open spec fn digit_char(d: nat) -> char {
    if d == 0 { '0' }
    else if d == 1 { '1' }
    else if d == 2 { '2' }
    else if d == 3 { '3' }
    else if d == 4 { '4' }
    else if d == 5 { '5' }
    else if d == 6 { '6' }
    else if d == 7 { '7' }
    else if d == 8 { '8' }
    else { '9' }
}

/// The decimal form of `n`, without leading zeros.
pub open spec fn decimal(n: nat) -> Seq<char>
    decreases n,
{
    if n < 10 {
        seq![digit_char(n)]
    } else {
        decimal(n / 10).push(digit_char(n % 10))
    }
}

fn digit_str(d: u32) -> (r: &'static str)
    requires
        d < 10,
    ensures
        r@ == seq![digit_char(d as nat)],
{
    proof {
        reveal_strlit("0");
        reveal_strlit("1");
        reveal_strlit("2");
        reveal_strlit("3");
        reveal_strlit("4");
        reveal_strlit("5");
        reveal_strlit("6");
        reveal_strlit("7");
        reveal_strlit("8");
        reveal_strlit("9");
    }
    let r = if d == 0 { "0" }
    else if d == 1 { "1" }
    else if d == 2 { "2" }
    else if d == 3 { "3" }
    else if d == 4 { "4" }
    else if d == 5 { "5" }
    else if d == 6 { "6" }
    else if d == 7 { "7" }
    else if d == 8 { "8" }
    else { "9" };
    assert(r@ =~= seq![digit_char(d as nat)]);
    r
}

/// The decimal form of `n`.
pub fn decimal_string(n: u32) -> (r: String)
    ensures
        r@ == decimal(n as nat),
    decreases n,
{
    if n < 10 {
        String::from_str(digit_str(n))
    } else {
        let mut s = decimal_string(n / 10);
        s.append(digit_str(n % 10));
        assert(s@ =~= decimal(n as nat));
        s
    }
}

/// The decimal form of `n`, with a leading '-' when it is negative.
pub open spec fn signed_decimal(n: int) -> Seq<char> {
    if n < 0 {
        seq!['-'] + decimal((-n) as nat)
    } else {
        decimal(n as nat)
    }
}

/// The decimal form of `n`, as `{}` writes an `i32`.
pub fn signed_decimal_string(n: i32) -> (r: String)
    ensures
        r@ == signed_decimal(n as int),
{
    if n < 0 {
        let magnitude = (-(n as i64)) as u32;
        let digits = decimal_string(magnitude);
        let mut s = String::from_str("-");
        proof {
            reveal_strlit("-");
        }
        s.append(digits.as_str());
        assert(s@ =~= signed_decimal(n as int));
        s
    } else {
        decimal_string(n as u32)
    }
}

/// The answer to a stored reorder: the event's id, how many judgments were
/// new to the store, and a message that says so.
pub fn reorder_response(event_id: String, preferences_created: i32) -> (r: ReorderResponse)
    ensures
        r.event_id == event_id,
        r.preferences_created == preferences_created,
        r.message@ == "Reorder event saved with "@ + signed_decimal(preferences_created as int)
            + " preferences created"@,
{
    let mut message = String::from_str("Reorder event saved with ");
    let count = signed_decimal_string(preferences_created);
    message.append(count.as_str());
    message.append(" preferences created");
    ReorderResponse { event_id, preferences_created, message }
}

} // verus!
