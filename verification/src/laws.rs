//! Laws of the engine, proved once over the model. Every operation requires
//! and re-establishes [`StoreView::wf`], so each fact below about a
//! well-formed store holds before and after any sequence of operations; the
//! composition laws speak of consecutive operations through their spec
//! transitions.

use vstd::prelude::*;

use crate::error::ErrorKind;
use crate::model::{
    SessionStatus, StoreView, has_customer, has_resource, has_session, has_line, customer_has_active,
    resource_occupied, resource_at, session_at, item_at, line_at, status_of, attached_units,
    item_weight, lemma_seq_sum_push, lemma_seq_sum_update, lemma_seq_sum_remove, lemma_session_at,
    lemma_item_at, lemma_line_at,
};
use crate::sessions::{
    spec_start_session, spec_add_session_inventory, spec_remove_session_inventory,
    spec_update_session_inventory, spec_end_session,
};

verus! {

/// No resource is double-booked: two active sessions on one resource are the
/// same session, and a resource is available exactly while no active session
/// holds it. Together with the operation contracts — `start_session` flips
/// the resource to unavailable and `end_session` back — availability is
/// false precisely on the interval from start to end.
pub proof fn lemma_no_double_booking(v: StoreView, i: int, j: int)
    requires
        v.wf(),
        0 <= i < v.sessions.len(),
        0 <= j < v.sessions.len(),
        v.sessions[i].status == SessionStatus::Active,
        v.sessions[j].status == SessionStatus::Active,
        v.sessions[i].resource_id == v.sessions[j].resource_id,
    ensures
        i == j,
{
    if i < j {
        assert(v.sessions[i].resource_id != v.sessions[j].resource_id);
    }
    if j < i {
        assert(v.sessions[j].resource_id != v.sessions[i].resource_id);
    }
}

/// A resource's availability flag mirrors occupancy: false exactly while
/// some active session references it.
pub proof fn lemma_availability_mirrors_occupancy(v: StoreView, i: int)
    requires
        v.wf(),
        0 <= i < v.resources.len(),
    ensures
        v.resources[i].is_available <==> !resource_occupied(v.sessions, v.resources[i].id),
{
}

/// At most one active session per customer: two active sessions of one
/// customer are the same session.
pub proof fn lemma_one_active_session_per_customer(v: StoreView, i: int, j: int)
    requires
        v.wf(),
        0 <= i < v.sessions.len(),
        0 <= j < v.sessions.len(),
        v.sessions[i].status == SessionStatus::Active,
        v.sessions[j].status == SessionStatus::Active,
        v.sessions[i].customer_id == v.sessions[j].customer_id,
    ensures
        i == j,
{
    if i < j {
        assert(v.sessions[i].customer_id != v.sessions[j].customer_id);
    }
    if j < i {
        assert(v.sessions[j].customer_id != v.sessions[i].customer_id);
    }
}

/// A second `start` for the same customer while one session is active never
/// succeeds; when the requested resource exists and is free and the customer
/// exists, the failure is classified `Conflict`.
pub proof fn lemma_second_start_conflicts(
    v: StoreView,
    customer_id: u64,
    resource_id: u64,
    now_min: u64,
    today: u64,
)
    requires
        v.wf(),
        customer_has_active(v.sessions, customer_id),
    ensures
        !(spec_start_session(v, customer_id, resource_id, now_min, today) is Ok),
        (has_resource(v.resources, resource_id) && v.resources[resource_at(
            v.resources,
            resource_id,
        )].is_available && has_customer(v.customers, customer_id))
            ==> spec_start_session(v, customer_id, resource_id, now_min, today) == Err::<
            (StoreView, u64),
            ErrorKind,
        >(ErrorKind::Conflict),
{
}

/// After one successful `start`, any second `start` for the same customer
/// fails, whatever resource or clock it names.
pub proof fn lemma_start_start_conflict(
    v: StoreView,
    customer_id: u64,
    resource_id: u64,
    now_min: u64,
    today: u64,
    resource_id2: u64,
    now_min2: u64,
    today2: u64,
)
    requires
        v.wf(),
        spec_start_session(v, customer_id, resource_id, now_min, today) is Ok,
    ensures
        !(spec_start_session(
            spec_start_session(v, customer_id, resource_id, now_min, today)->Ok_0.0,
            customer_id,
            resource_id2,
            now_min2,
            today2,
        ) is Ok),
{
    let v2 = spec_start_session(v, customer_id, resource_id, now_min, today)->Ok_0.0;
    let n = v.sessions.len() as int;
    assert(v2.sessions[n].customer_id == customer_id && v2.sessions[n].status
        == SessionStatus::Active);
    assert(customer_has_active(v2.sessions, customer_id));
}

/// Stock is never negative in a well-formed store — and every operation
/// preserves well-formedness.
pub proof fn lemma_stock_never_negative(v: StoreView, i: int)
    requires
        v.wf(),
        0 <= i < v.items.len(),
    ensures
        v.items[i].quantity >= 0,
{
}

/// Attaching conserves an item's units: what leaves the stock appears in the
/// session lines, so stock plus attached units is unchanged.
pub proof fn lemma_attach_conserves_units(v: StoreView, session_id: u64, item_id: u64, qty: i64)
    requires
        v.wf(),
        spec_add_session_inventory(v, session_id, item_id, qty) is Ok,
    ensures
        ({
            let v2 = spec_add_session_inventory(v, session_id, item_id, qty)->Ok_0;
            let iidx = item_at(v.items, item_id);
            &&& v2.items[iidx].quantity + attached_units(v2.lines, item_id) == v.items[iidx].quantity
                + attached_units(v.lines, item_id)
            &&& v2.items[iidx].quantity == v.items[iidx].quantity - qty
        }),
{
    let v2 = spec_add_session_inventory(v, session_id, item_id, qty)->Ok_0;
    let iidx = item_at(v.items, item_id);
    let it = v.items[iidx];
    let merged = has_line(v.lines, session_id, item_id);
    if merged {
        let li = line_at(v.lines, session_id, item_id);
        lemma_line_at(v.lines, li);
        let ln2 = v2.lines[li];
        lemma_seq_sum_update(v.lines, item_weight(item_id), li, ln2);
    } else {
        let ln2 = v2.lines[v.lines.len() as int];
        lemma_seq_sum_push(v.lines, item_weight(item_id), ln2);
    }
}

/// Detaching conserves an item's units: the deleted line's whole quantity
/// returns to stock.
pub proof fn lemma_detach_conserves_units(v: StoreView, session_id: u64, item_id: u64)
    requires
        v.wf(),
        spec_remove_session_inventory(v, session_id, item_id) is Ok,
    ensures
        ({
            let v2 = spec_remove_session_inventory(v, session_id, item_id)->Ok_0;
            let iidx = item_at(v.items, item_id);
            v2.items[iidx].quantity + attached_units(v2.lines, item_id) == v.items[iidx].quantity
                + attached_units(v.lines, item_id)
        }),
{
    let li = line_at(v.lines, session_id, item_id);
    lemma_line_at(v.lines, li);
    lemma_seq_sum_remove(v.lines, item_weight(item_id), li);
}

/// Setting a line's quantity conserves an item's units.
pub proof fn lemma_set_quantity_conserves_units(
    v: StoreView,
    session_id: u64,
    item_id: u64,
    qty: i64,
)
    requires
        v.wf(),
        spec_update_session_inventory(v, session_id, item_id, qty) is Ok,
    ensures
        ({
            let v2 = spec_update_session_inventory(v, session_id, item_id, qty)->Ok_0;
            let iidx = item_at(v.items, item_id);
            v2.items[iidx].quantity + attached_units(v2.lines, item_id) == v.items[iidx].quantity
                + attached_units(v.lines, item_id)
        }),
{
    let li = line_at(v.lines, session_id, item_id);
    lemma_line_at(v.lines, li);
    let v2 = spec_update_session_inventory(v, session_id, item_id, qty)->Ok_0;
    lemma_seq_sum_update(v.lines, item_weight(item_id), li, v2.lines[li]);
}

/// Round trip: attaching an item to a session that holds no line for it and
/// then detaching it restores the item's stock — in fact the whole item
/// table and line table — exactly.
pub proof fn lemma_attach_detach_roundtrip(v: StoreView, session_id: u64, item_id: u64, qty: i64)
    requires
        v.wf(),
        !has_line(v.lines, session_id, item_id),
        spec_add_session_inventory(v, session_id, item_id, qty) is Ok,
    ensures
        ({
            let v2 = spec_add_session_inventory(v, session_id, item_id, qty)->Ok_0;
            &&& spec_remove_session_inventory(v2, session_id, item_id) is Ok
            &&& spec_remove_session_inventory(v2, session_id, item_id)->Ok_0.items =~= v.items
            &&& spec_remove_session_inventory(v2, session_id, item_id)->Ok_0.lines =~= v.lines
        }),
{
    let v2 = spec_add_session_inventory(v, session_id, item_id, qty)->Ok_0;
    let sidx = session_at(v.sessions, session_id);
    let iidx = item_at(v.items, item_id);
    lemma_session_at(v.sessions, sidx);
    lemma_item_at(v.items, iidx);
    let n = v.lines.len() as int;
    let ln2 = v2.lines[n];
    // The pushed line is the unique line for the pair in the new table.
    assert(has_line(v2.lines, session_id, item_id));
    assert forall|i: int|
        0 <= i < v2.lines.len() && (#[trigger] v2.lines[i]).session_id == session_id
            && v2.lines[i].item_id == item_id implies i == n by {
        if i < n {
            assert(v2.lines[i] == v.lines[i]);
            assert(has_line(v.lines, session_id, item_id));
        }
    }
    let li2 = line_at(v2.lines, session_id, item_id);
    assert(li2 == n);
    // The engine lookups land on the same session and item rows.
    assert(v2.sessions[sidx].id == session_id);
    assert forall|p: int, q: int|
        #![trigger v2.sessions[p], v2.sessions[q]]
        0 <= p < q < v2.sessions.len() implies v2.sessions[p].id != v2.sessions[q].id by {
        assert(v.sessions[p].id != v.sessions[q].id);
    }
    lemma_session_at(v2.sessions, sidx);
    assert forall|p: int, q: int|
        #![trigger v2.items[p], v2.items[q]]
        0 <= p < q < v2.items.len() implies v2.items[p].id != v2.items[q].id by {
        assert(v.items[p].id != v.items[q].id);
    }
    assert(v2.items[iidx].id == item_id);
    lemma_item_at(v2.items, iidx);
    // The detach succeeds and returns the whole attached quantity.
    assert(v2.items[iidx].quantity + ln2.quantity == v.items[iidx].quantity);
    let v3 = spec_remove_session_inventory(v2, session_id, item_id)->Ok_0;
    assert(v3.lines =~= v.lines) by {
        assert(v2.lines.remove(n) =~= v.lines);
    }
    assert(v3.items =~= v.items);
}

/// A session ends at most once: after one successful `end`, a second `end`
/// of the same session fails `Conflict` — and by the operation's contract a
/// failed `end` changes nothing, so no second invoice and no second balance
/// charge can arise.
pub proof fn lemma_end_end_conflict(
    v: StoreView,
    session_id: u64,
    now_min: u64,
    today: u64,
    now_min2: u64,
    today2: u64,
)
    requires
        v.wf(),
        spec_end_session(v, session_id, now_min, today) is Ok,
    ensures
        spec_end_session(
            spec_end_session(v, session_id, now_min, today)->Ok_0.0,
            session_id,
            now_min2,
            today2,
        ) == Err::<(StoreView, u64), ErrorKind>(ErrorKind::Conflict),
{
    let v2 = spec_end_session(v, session_id, now_min, today)->Ok_0.0;
    let sidx = session_at(v.sessions, session_id);
    lemma_session_at(v.sessions, sidx);
    assert forall|p: int, q: int|
        #![trigger v2.sessions[p], v2.sessions[q]]
        0 <= p < q < v2.sessions.len() implies v2.sessions[p].id != v2.sessions[q].id by {
        assert(v.sessions[p].id != v.sessions[q].id);
    }
    assert(v2.sessions[sidx].id == session_id);
    lemma_session_at(v2.sessions, sidx);
    assert(has_session(v2.sessions, session_id));
    assert(v2.sessions[sidx].status == SessionStatus::Completed);
}

/// Invoice status is always the pure function of (paid, total, cancelled):
/// cancelled wins, else paid iff `paid >= total`, else partially paid iff
/// `paid > 0`, else unpaid — for every invoice of a well-formed store, hence
/// after any sequence of payments, bulk or single, in any order.
pub proof fn lemma_status_pure_function(v: StoreView, i: int)
    requires
        v.wf(),
        0 <= i < v.invoices.len(),
    ensures
        v.invoices[i].status == status_of(
            v.invoices[i].paid as int,
            v.invoices[i].total as int,
            v.invoices[i].cancelled,
        ),
{
}

} // verus!
