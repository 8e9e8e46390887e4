//! The session engine: the active-session state machine and its settle
//! algorithm. Starting a session snapshots the resource rate and the
//! subscription decision; attaching inventory moves stock into priced lines;
//! ending a session prices the elapsed time, materializes the invoice with
//! its lines, frees the resource and books the debt — each operation as one
//! atomic step that either fully happens or leaves the store untouched.

use vstd::prelude::*;
use vstd::pervasive::VecAdditionalExecFns;
use vstd::pervasive::unreached;
use vstd::string::StringExecFns;

use crate::error::{AppError, ErrorKind, ValidationError};
use crate::store::Store;
use crate::model::{
    Customer, Resource, InventoryItem, Session, SessionStatus, SessionLine, Invoice, InvoiceItem,
    InvoiceItemKind, InvoiceStatus, StoreView, has_customer, has_resource, has_session, has_item, has_invoice,
    has_line, customer_has_active, resource_occupied, has_covering_plan, resource_at, customer_at,
    session_at, item_at, line_at, lines_total, line_weight, status_of, session_lines_of,
    lemma_resource_at, lemma_customer_at, lemma_session_at, lemma_item_at, lemma_line_at,
    lemma_sessions_grow, lemma_resources_same_ids, lemma_items_same_ids, lemma_activity_push,
    lemma_lines_total_absent, lemma_sessions_same_shape, lemma_sessions_same_ids,
    lemma_customers_same_ids, lemma_invoices_grow, lemma_session_lines_sub, lemma_deactivate_update,
    lemma_seq_sum_push, lemma_seq_sum_update, lemma_seq_sum_remove, lemma_seq_sum_nonneg,
    lemma_mul_nonneg, lemma_i64_prod_fits, lemma_u64_prod_fits,
};

verus! {

/// What `start_session` does to a well-formed store, as a function: the
/// checks of §preconditions in order, then the new active session with its
/// rate and subscription snapshots, and the resource flipped to unavailable.
pub open spec fn spec_start_session(
    v: StoreView,
    customer_id: u64,
    resource_id: u64,
    now_min: u64,
    today: u64,
) -> Result<(StoreView, u64), ErrorKind> {
    if !has_resource(v.resources, resource_id) {
        Err(ErrorKind::NotFound)
    } else if !v.resources[resource_at(v.resources, resource_id)].is_available {
        Err(ErrorKind::Conflict)
    } else if !has_customer(v.customers, customer_id) {
        Err(ErrorKind::NotFound)
    } else if customer_has_active(v.sessions, customer_id) {
        Err(ErrorKind::Conflict)
    } else if v.next_id == u64::MAX {
        Err(ErrorKind::Internal)
    } else {
        let ridx = resource_at(v.resources, resource_id);
        let res = v.resources[ridx];
        let sid = v.next_id;
        let s = Session {
            id: sid,
            customer_id,
            resource_id,
            started_at: now_min,
            ended_at: None,
            rate_snapshot: res.rate_per_hour,
            inventory_total: 0,
            is_subscribed: has_covering_plan(v.plans, customer_id, today),
            status: SessionStatus::Active,
        };
        Ok(
            (
                StoreView {
                    sessions: v.sessions.push(s),
                    resources: v.resources.update(ridx, Resource { is_available: false, ..res }),
                    next_id: (v.next_id + 1) as u64,
                    ..v
                },
                sid,
            ),
        )
    }
}

impl Store {
    /// Start a timed session of `customer_id` on `resource_id` at minute
    /// `now_min`. The resource must exist and be available, the customer
    /// must exist and have no other active session; the resource's current
    /// hourly rate and the subscription decision for `today` are snapshotted
    /// onto the session. On success the resource is unavailable and the new
    /// session id is returned; on any failure nothing changes.
    pub fn start_session(
        &mut self,
        customer_id: u64,
        resource_id: u64,
        now_min: u64,
        today: u64,
    ) -> (r: Result<u64, AppError>)
        requires
            old(self).wf(),
        ensures
            final(self).wf(),
            match r {
                Ok(sid) => spec_start_session(old(self)@, customer_id, resource_id, now_min, today)
                    == Ok::<(StoreView, u64), ErrorKind>((final(self)@, sid)),
                Err(e) => {
                    &&& final(self)@ == old(self)@
                    &&& spec_start_session(old(self)@, customer_id, resource_id, now_min, today)
                        == Err::<(StoreView, u64), ErrorKind>(e.kind())
                },
            },
    {
        let ridx = match self.find_resource(resource_id) {
            Some(i) => i,
            None => {
                return Err(AppError::NotFound(String::from_str("Resource not found")));
            },
        };
        proof {
            lemma_resource_at(self@.resources, ridx as int);
        }
        let res = self.resources[ridx];
        if !res.is_available {
            return Err(AppError::Conflict(String::from_str("Resource is currently in use")));
        }
        if self.find_customer(customer_id).is_none() {
            return Err(AppError::NotFound(String::from_str("Customer not found")));
        }
        if self.customer_has_active_session(customer_id) {
            return Err(
                AppError::Conflict(String::from_str("Customer already has an active session")),
            );
        }
        if self.next_id == u64::MAX {
            return Err(AppError::Internal(String::from_str("id space exhausted")));
        }
        let sid = self.next_id;
        self.next_id = self.next_id + 1;
        let is_subscribed = self.customer_has_covering_plan(customer_id, today);
        let s = Session {
            id: sid,
            customer_id,
            resource_id,
            started_at: now_min,
            ended_at: None,
            rate_snapshot: res.rate_per_hour,
            inventory_total: 0,
            is_subscribed,
            status: SessionStatus::Active,
        };
        self.sessions.push(s);
        self.resources.set(ridx, Resource { is_available: false, ..res });
        proof {
            let v = old(self)@;
            let v2 = self@;
            lemma_activity_push(v.sessions, s);
            lemma_sessions_grow(v.sessions, v2.sessions);
            lemma_resources_same_ids(v.resources, v2.resources);
            // No line can reference the fresh session id.
            assert forall|i: int| 0 <= i < v.lines.len() implies (#[trigger] v.lines[i]).session_id
                != sid by {
                let lsid = v.lines[i].session_id;
                assert(has_session(v.sessions, lsid));
                let k = choose|k: int|
                    0 <= k < v.sessions.len() && (#[trigger] v.sessions[k]).id == lsid;
                assert(v.sessions[k].id < v.next_id);
            }
            lemma_lines_total_absent(v.lines, sid);
            // The new session conflicts with no active session.
            assert forall|i: int|
                0 <= i < v.sessions.len() && (#[trigger] v.sessions[i]).status
                    == SessionStatus::Active implies v.sessions[i].customer_id != customer_id
                && v.sessions[i].resource_id != resource_id by {
                if v.sessions[i].customer_id == customer_id {
                    assert(customer_has_active(v.sessions, customer_id));
                }
                if v.sessions[i].resource_id == resource_id {
                    assert(resource_occupied(v.sessions, resource_id));
                }
            }
            // Availability of untouched resources is judged against the same
            // occupancy facts.
            assert forall|i: int|
                0 <= i < v2.resources.len() && i != ridx implies ((#[trigger] v2.resources[i])
                .is_available <==> !resource_occupied(v2.sessions, v2.resources[i].id)) by {
                assert(v2.resources[i] == v.resources[i]);
                if i < ridx {
                    assert(v.resources[i].id != v.resources[ridx as int].id);
                } else {
                    assert(v.resources[ridx as int].id != v.resources[i].id);
                }
            }
            assert(v2.wf());
            assert(spec_start_session(v, customer_id, resource_id, now_min, today) == Ok::<
                (StoreView, u64),
                ErrorKind,
            >((v2, sid))) by {
                let specv = spec_start_session(v, customer_id, resource_id, now_min, today)->Ok_0.0;
                assert(v2 =~= specv);
            }
        }
        Ok(sid)
    }
}

/// What `add_session_inventory` does: after the checks, the (session, item)
/// line is replaced by one coalesced line at the item's current price, the
/// stock drops by the attached quantity, and the session's running inventory
/// total moves by the signed amount delta.
pub open spec fn spec_add_session_inventory(
    v: StoreView,
    session_id: u64,
    item_id: u64,
    qty: i64,
) -> Result<StoreView, ErrorKind> {
    if qty < 1 {
        Err(ErrorKind::Validation)
    } else if !has_session(v.sessions, session_id) {
        Err(ErrorKind::NotFound)
    } else {
        let sidx = session_at(v.sessions, session_id);
        let s = v.sessions[sidx];
        if s.status != SessionStatus::Active {
            Err(ErrorKind::Conflict)
        } else if !has_item(v.items, item_id) {
            Err(ErrorKind::NotFound)
        } else {
            let iidx = item_at(v.items, item_id);
            let it = v.items[iidx];
            if it.quantity < qty {
                Err(ErrorKind::Conflict)
            } else {
                let merged = has_line(v.lines, session_id, item_id);
                let old_q: int = if merged {
                    v.lines[line_at(v.lines, session_id, item_id)].quantity as int
                } else {
                    0
                };
                let old_amt: int = if merged {
                    let ln = v.lines[line_at(v.lines, session_id, item_id)];
                    ln.quantity * ln.price_at_time
                } else {
                    0
                };
                let new_q: int = old_q + qty;
                let new_amt: int = new_q * it.price;
                if new_q > i64::MAX {
                    Err(ErrorKind::Validation)
                } else if new_amt > i64::MAX {
                    Err(ErrorKind::Validation)
                } else if s.inventory_total + new_amt - old_amt > i64::MAX {
                    Err(ErrorKind::Validation)
                } else {
                    let ln2 = SessionLine {
                        session_id,
                        item_id,
                        quantity: new_q as i64,
                        price_at_time: it.price,
                    };
                    let new_lines = if merged {
                        v.lines.update(line_at(v.lines, session_id, item_id), ln2)
                    } else {
                        v.lines.push(ln2)
                    };
                    Ok(
                        StoreView {
                            items: v.items.update(
                                iidx,
                                InventoryItem { quantity: (it.quantity - qty) as i64, ..it },
                            ),
                            lines: new_lines,
                            sessions: v.sessions.update(
                                sidx,
                                Session {
                                    inventory_total: (s.inventory_total + new_amt - old_amt) as i64,
                                    ..s
                                },
                            ),
                            ..v
                        },
                    )
                }
            }
        }
    }
}

impl Store {
    /// Attach `quantity` units of `item_id` to the active session
    /// `session_id`: stock is checked and decremented, the session's line
    /// for the item is coalesced into one row snapshotting the item's
    /// current price, and the session's inventory total moves by the amount
    /// delta. On any failure nothing changes.
    pub fn add_session_inventory(&mut self, session_id: u64, item_id: u64, quantity: i64) -> (r:
        Result<(), AppError>)
        requires
            old(self).wf(),
        ensures
            final(self).wf(),
            match r {
                Ok(_) => spec_add_session_inventory(old(self)@, session_id, item_id, quantity)
                    == Ok::<StoreView, ErrorKind>(final(self)@),
                Err(e) => {
                    &&& final(self)@ == old(self)@
                    &&& spec_add_session_inventory(old(self)@, session_id, item_id, quantity)
                        == Err::<StoreView, ErrorKind>(e.kind())
                },
            },
    {
        if quantity < 1 {
            return Err(
                AppError::Validation(
                    ValidationError::new(
                        "quantity",
                        "Quantity must be positive",
                        "يجب أن تكون الكمية موجبة",
                    ),
                ),
            );
        }
        let sidx = match self.find_session(session_id) {
            Some(i) => i,
            None => {
                return Err(AppError::NotFound(String::from_str("Session not found")));
            },
        };
        proof {
            lemma_session_at(self@.sessions, sidx as int);
        }
        let s = self.sessions[sidx];
        if !matches!(s.status, SessionStatus::Active) {
            return Err(AppError::Conflict(String::from_str("Session is not active")));
        }
        let iidx = match self.find_item(item_id) {
            Some(i) => i,
            None => {
                return Err(AppError::NotFound(String::from_str("Item not found")));
            },
        };
        proof {
            lemma_item_at(self@.items, iidx as int);
        }
        let it = self.items[iidx];
        if it.quantity < quantity {
            return Err(AppError::Conflict(String::from_str("Insufficient stock")));
        }
        let line_idx = self.find_line(session_id, item_id);
        let old_q: i64;
        let old_amt: i64;
        match line_idx {
            Some(li) => {
                proof {
                    lemma_line_at(self@.lines, li as int);
                }
                let ln = self.lines[li];
                proof {
                    assert(ln.quantity >= 0 && ln.price_at_time >= 0 && ln.quantity
                        * ln.price_at_time <= i64::MAX);
                    lemma_mul_nonneg(ln.quantity as int, ln.price_at_time as int);
                }
                old_q = ln.quantity;
                old_amt = ln.quantity * ln.price_at_time;
            },
            None => {
                old_q = 0;
                old_amt = 0;
            },
        }
        let new_q_wide: i128 = old_q as i128 + quantity as i128;
        if new_q_wide > i64::MAX as i128 {
            return Err(
                AppError::Validation(
                    ValidationError::new(
                        "quantity",
                        "Attached quantity exceeds the representable range",
                        "الكمية المرفقة تتجاوز النطاق الممكن تمثيله",
                    ),
                ),
            );
        }
        let new_q: i64 = new_q_wide as i64;
        proof {
            lemma_i64_prod_fits(new_q as int, it.price as int);
        }
        let new_amt_wide: i128 = new_q as i128 * it.price as i128;
        if new_amt_wide > i64::MAX as i128 {
            return Err(
                AppError::Validation(
                    ValidationError::new(
                        "amount",
                        "Line amount exceeds the representable range",
                        "مبلغ السطر يتجاوز النطاق الممكن تمثيله",
                    ),
                ),
            );
        }
        let new_amt: i64 = new_amt_wide as i64;
        let new_total_wide: i128 = s.inventory_total as i128 + new_amt as i128 - old_amt as i128;
        if new_total_wide > i64::MAX as i128 {
            return Err(
                AppError::Validation(
                    ValidationError::new(
                        "inventoryTotal",
                        "Session inventory total exceeds the representable range",
                        "إجمالي مخزون الجلسة يتجاوز النطاق الممكن تمثيله",
                    ),
                ),
            );
        }
        proof {
            lemma_mul_nonneg(new_q as int, it.price as int);
        }
        let new_total: i64 = new_total_wide as i64;
        let ln2 = SessionLine { session_id, item_id, quantity: new_q, price_at_time: it.price };
        self.items.set(iidx, InventoryItem { quantity: it.quantity - quantity, ..it });
        match line_idx {
            Some(li) => {
                self.lines.set(li, ln2);
            },
            None => {
                self.lines.push(ln2);
            },
        }
        self.sessions.set(sidx, Session { inventory_total: new_total, ..s });
        proof {
            let v = old(self)@;
            let v2 = self@;
            lemma_sessions_same_shape(v.sessions, v2.sessions);
            lemma_items_same_ids(v.items, v2.items);
            // The new line table and every session total it induces.
            match line_idx {
                Some(li) => {
                    assert(v2.lines =~= v.lines.update(li as int, ln2));
                },
                None => {
                    assert forall|i: int| 0 <= i < v.lines.len() implies !((
                    #[trigger] v.lines[i]).session_id == session_id && v.lines[i].item_id
                        == item_id) by {
                        if v.lines[i].session_id == session_id && v.lines[i].item_id == item_id {
                            assert(has_line(v.lines, session_id, item_id));
                        }
                    }
                },
            }
            assert forall|k: int| 0 <= k < v2.sessions.len() implies (#[trigger] v2.sessions[k])
                .inventory_total == lines_total(v2.lines, v2.sessions[k].id) by {
                let kid = v2.sessions[k].id;
                match line_idx {
                    Some(li) => {
                        lemma_seq_sum_update(v.lines, line_weight(kid), li as int, ln2);
                        if k != sidx {
                            assert(v.sessions[k].id != v.sessions[sidx as int].id);
                            assert((line_weight(kid))(v.lines[li as int]) == 0);
                            assert((line_weight(kid))(ln2) == 0);
                        }
                    },
                    None => {
                        lemma_seq_sum_push(v.lines, line_weight(kid), ln2);
                        if k != sidx {
                            assert(v.sessions[k].id != v.sessions[sidx as int].id);
                            assert((line_weight(kid))(ln2) == 0);
                        }
                    },
                }
            }
            // The updated session's total is non-negative: it is a sum of
            // products of non-negative columns.
            assert forall|i: int| 0 <= i < v2.lines.len() implies (line_weight(session_id))(
                #[trigger] v2.lines[i],
            ) >= 0 by {
                let ln = v2.lines[i];
                if ln == ln2 {
                    lemma_mul_nonneg(ln.quantity as int, ln.price_at_time as int);
                } else {
                    match line_idx {
                        Some(li) => {
                            assert(ln == v.lines[i]);
                        },
                        None => {
                            assert(ln == v.lines[i]);
                        },
                    }
                    lemma_mul_nonneg(ln.quantity as int, ln.price_at_time as int);
                }
            }
            lemma_seq_sum_nonneg(v2.lines, line_weight(session_id));
            assert(v2.wf());
            let specr = spec_add_session_inventory(v, session_id, item_id, quantity);
            assert(specr == Ok::<StoreView, ErrorKind>(v2)) by {
                assert(v2 =~= specr->Ok_0);
            }
        }
        Ok(())
    }
}

/// What `remove_session_inventory` does: the (session, item) line is deleted,
/// its whole quantity returns to stock, and the session's inventory total
/// drops by the line amount. The session may be active or completed.
pub open spec fn spec_remove_session_inventory(
    v: StoreView,
    session_id: u64,
    item_id: u64,
) -> Result<StoreView, ErrorKind> {
    if !has_line(v.lines, session_id, item_id) {
        Err(ErrorKind::NotFound)
    } else {
        let li = line_at(v.lines, session_id, item_id);
        let ln = v.lines[li];
        let sidx = session_at(v.sessions, session_id);
        let s = v.sessions[sidx];
        let iidx = item_at(v.items, item_id);
        let it = v.items[iidx];
        let amt: int = ln.quantity * ln.price_at_time;
        if it.quantity + ln.quantity > i64::MAX {
            Err(ErrorKind::Validation)
        } else {
            Ok(
                StoreView {
                    lines: v.lines.remove(li),
                    items: v.items.update(
                        iidx,
                        InventoryItem { quantity: (it.quantity + ln.quantity) as i64, ..it },
                    ),
                    sessions: v.sessions.update(
                        sidx,
                        Session { inventory_total: (s.inventory_total - amt) as i64, ..s },
                    ),
                    ..v
                },
            )
        }
    }
}

/// What `update_session_inventory` does: the (session, item) line's quantity
/// is set to `qty` at its existing price snapshot, stock moves by the inverse
/// of the quantity change (a net increase is checked against stock), and the
/// session's inventory total moves by the amount delta.
pub open spec fn spec_update_session_inventory(
    v: StoreView,
    session_id: u64,
    item_id: u64,
    qty: i64,
) -> Result<StoreView, ErrorKind> {
    if qty < 0 {
        Err(ErrorKind::Validation)
    } else if !has_line(v.lines, session_id, item_id) {
        Err(ErrorKind::NotFound)
    } else {
        let li = line_at(v.lines, session_id, item_id);
        let ln = v.lines[li];
        let sidx = session_at(v.sessions, session_id);
        let s = v.sessions[sidx];
        let iidx = item_at(v.items, item_id);
        let it = v.items[iidx];
        let diff: int = qty - ln.quantity;
        if diff > 0 && it.quantity < diff {
            Err(ErrorKind::Conflict)
        } else if it.quantity - diff > i64::MAX {
            Err(ErrorKind::Validation)
        } else {
            let old_amt: int = ln.quantity * ln.price_at_time;
            let new_amt: int = qty * ln.price_at_time;
            if new_amt > i64::MAX {
                Err(ErrorKind::Validation)
            } else if s.inventory_total + new_amt - old_amt > i64::MAX {
                Err(ErrorKind::Validation)
            } else {
                Ok(
                    StoreView {
                        lines: v.lines.update(li, SessionLine { quantity: qty, ..ln }),
                        items: v.items.update(
                            iidx,
                            InventoryItem { quantity: (it.quantity - diff) as i64, ..it },
                        ),
                        sessions: v.sessions.update(
                            sidx,
                            Session {
                                inventory_total: (s.inventory_total + new_amt - old_amt) as i64,
                                ..s
                            },
                        ),
                        ..v
                    },
                )
            }
        }
    }
}

impl Store {
    /// Detach `item_id` from session `session_id` entirely: the line is
    /// deleted, its quantity returns to stock, and the session's inventory
    /// total drops by the line amount. Fails `NotFound` when the session has
    /// no line for the item; on any failure nothing changes.
    pub fn remove_session_inventory(&mut self, session_id: u64, item_id: u64) -> (r: Result<
        (),
        AppError,
    >)
        requires
            old(self).wf(),
        ensures
            final(self).wf(),
            match r {
                Ok(_) => spec_remove_session_inventory(old(self)@, session_id, item_id) == Ok::<
                    StoreView,
                    ErrorKind,
                >(final(self)@),
                Err(e) => {
                    &&& final(self)@ == old(self)@
                    &&& spec_remove_session_inventory(old(self)@, session_id, item_id) == Err::<
                        StoreView,
                        ErrorKind,
                    >(e.kind())
                },
            },
    {
        let li = match self.find_line(session_id, item_id) {
            Some(i) => i,
            None => {
                return Err(AppError::NotFound(String::from_str("Item not found in session")));
            },
        };
        proof {
            lemma_line_at(self@.lines, li as int);
        }
        let ln = self.lines[li];
        let sidx = match self.find_session(session_id) {
            Some(i) => i,
            None => {
                proof {
                    assert(has_session(self@.sessions, ln.session_id));
                }
                unreached()
            },
        };
        proof {
            lemma_session_at(self@.sessions, sidx as int);
        }
        let s = self.sessions[sidx];
        let iidx = match self.find_item(item_id) {
            Some(i) => i,
            None => {
                proof {
                    assert(has_item(self@.items, ln.item_id));
                }
                unreached()
            },
        };
        proof {
            lemma_item_at(self@.items, iidx as int);
        }
        let it = self.items[iidx];
        proof {
            assert(ln.quantity >= 0 && ln.price_at_time >= 0 && ln.quantity * ln.price_at_time
                <= i64::MAX);
            lemma_mul_nonneg(ln.quantity as int, ln.price_at_time as int);
        }
        let amt: i64 = ln.quantity * ln.price_at_time;
        let new_stock_wide: i128 = it.quantity as i128 + ln.quantity as i128;
        if new_stock_wide > i64::MAX as i128 {
            return Err(
                AppError::Validation(
                    ValidationError::new(
                        "quantity",
                        "Returned stock exceeds the representable range",
                        "المخزون المعاد يتجاوز النطاق الممكن تمثيله",
                    ),
                ),
            );
        }
        proof {
            // The line amount is part of the session total, so the new total
            // stays non-negative.
            assert forall|i: int| 0 <= i < old(self)@.lines.len() implies (line_weight(session_id))(
                #[trigger] old(self)@.lines[i],
            ) >= 0 by {
                let l = old(self)@.lines[i];
                lemma_mul_nonneg(l.quantity as int, l.price_at_time as int);
            }
            crate::model::lemma_seq_sum_elem_bound(
                old(self)@.lines,
                line_weight(session_id),
                li as int,
            );
        }
        let new_total: i64 = s.inventory_total - amt;
        self.lines.remove(li);
        self.items.set(iidx, InventoryItem { quantity: new_stock_wide as i64, ..it });
        self.sessions.set(sidx, Session { inventory_total: new_total, ..s });
        proof {
            let v = old(self)@;
            let v2 = self@;
            lemma_sessions_same_shape(v.sessions, v2.sessions);
            lemma_items_same_ids(v.items, v2.items);
            assert(v2.lines =~= v.lines.remove(li as int));
            // Remaining lines come from the old table, shifted past `li`.
            assert forall|p: int| 0 <= p < v2.lines.len() implies #[trigger] v2.lines[p] == (
            if p < li as int {
                v.lines[p]
            } else {
                v.lines[p + 1]
            }) by {}
            assert forall|p: int, q: int|
                #![trigger v2.lines[p], v2.lines[q]]
                0 <= p < q < v2.lines.len() implies !(v2.lines[p].session_id
                == v2.lines[q].session_id && v2.lines[p].item_id == v2.lines[q].item_id) by {
                let p0: int = if p < li as int {
                    p
                } else {
                    p + 1
                };
                let q0: int = if q < li as int {
                    q
                } else {
                    q + 1
                };
                assert(v2.lines[p] == v.lines[p0]);
                assert(v2.lines[q] == v.lines[q0]);
            }
            assert forall|k: int| 0 <= k < v2.sessions.len() implies (#[trigger] v2.sessions[k])
                .inventory_total == lines_total(v2.lines, v2.sessions[k].id) by {
                let kid = v2.sessions[k].id;
                lemma_seq_sum_remove(v.lines, line_weight(kid), li as int);
                if k != sidx {
                    assert(v.sessions[k].id != v.sessions[sidx as int].id);
                    assert((line_weight(kid))(v.lines[li as int]) == 0);
                }
            }
            assert forall|i: int| 0 <= i < v2.lines.len() implies (line_weight(session_id))(
                #[trigger] v2.lines[i],
            ) >= 0 by {
                let l = v2.lines[i];
                lemma_mul_nonneg(l.quantity as int, l.price_at_time as int);
            }
            lemma_seq_sum_nonneg(v2.lines, line_weight(session_id));
            assert(v2.wf());
            let specr = spec_remove_session_inventory(v, session_id, item_id);
            assert(specr == Ok::<StoreView, ErrorKind>(v2)) by {
                assert(v2 =~= specr->Ok_0);
            }
        }
        Ok(())
    }

    /// Set the quantity of `item_id` on session `session_id` to `quantity`,
    /// keeping the line's price snapshot. A net increase is checked against
    /// stock; stock moves by the inverse of the change and the session's
    /// inventory total by the amount delta. On any failure nothing changes.
    pub fn update_session_inventory(&mut self, session_id: u64, item_id: u64, quantity: i64) -> (r:
        Result<(), AppError>)
        requires
            old(self).wf(),
        ensures
            final(self).wf(),
            match r {
                Ok(_) => spec_update_session_inventory(old(self)@, session_id, item_id, quantity)
                    == Ok::<StoreView, ErrorKind>(final(self)@),
                Err(e) => {
                    &&& final(self)@ == old(self)@
                    &&& spec_update_session_inventory(old(self)@, session_id, item_id, quantity)
                        == Err::<StoreView, ErrorKind>(e.kind())
                },
            },
    {
        if quantity < 0 {
            return Err(
                AppError::Validation(
                    ValidationError::new(
                        "quantity",
                        "Quantity cannot be negative",
                        "لا يمكن أن تكون الكمية سالبة",
                    ),
                ),
            );
        }
        let li = match self.find_line(session_id, item_id) {
            Some(i) => i,
            None => {
                return Err(AppError::NotFound(String::from_str("Item not found in session")));
            },
        };
        proof {
            lemma_line_at(self@.lines, li as int);
        }
        let ln = self.lines[li];
        let sidx = match self.find_session(session_id) {
            Some(i) => i,
            None => {
                proof {
                    assert(has_session(self@.sessions, ln.session_id));
                }
                unreached()
            },
        };
        proof {
            lemma_session_at(self@.sessions, sidx as int);
        }
        let s = self.sessions[sidx];
        let iidx = match self.find_item(item_id) {
            Some(i) => i,
            None => {
                proof {
                    assert(has_item(self@.items, ln.item_id));
                }
                unreached()
            },
        };
        proof {
            lemma_item_at(self@.items, iidx as int);
        }
        let it = self.items[iidx];
        let diff: i128 = quantity as i128 - ln.quantity as i128;
        if diff > 0 && (it.quantity as i128) < diff {
            return Err(AppError::Conflict(String::from_str("Insufficient stock")));
        }
        let new_stock_wide: i128 = it.quantity as i128 - diff;
        if new_stock_wide > i64::MAX as i128 {
            return Err(
                AppError::Validation(
                    ValidationError::new(
                        "quantity",
                        "Returned stock exceeds the representable range",
                        "المخزون المعاد يتجاوز النطاق الممكن تمثيله",
                    ),
                ),
            );
        }
        proof {
            assert(ln.quantity >= 0 && ln.price_at_time >= 0 && ln.quantity * ln.price_at_time
                <= i64::MAX);
            lemma_mul_nonneg(ln.quantity as int, ln.price_at_time as int);
            lemma_i64_prod_fits(quantity as int, ln.price_at_time as int);
            lemma_mul_nonneg(quantity as int, ln.price_at_time as int);
        }
        let old_amt: i64 = ln.quantity * ln.price_at_time;
        let new_amt_wide: i128 = quantity as i128 * ln.price_at_time as i128;
        if new_amt_wide > i64::MAX as i128 {
            return Err(
                AppError::Validation(
                    ValidationError::new(
                        "amount",
                        "Line amount exceeds the representable range",
                        "مبلغ السطر يتجاوز النطاق الممكن تمثيله",
                    ),
                ),
            );
        }
        let new_amt: i64 = new_amt_wide as i64;
        let new_total_wide: i128 = s.inventory_total as i128 + new_amt as i128 - old_amt as i128;
        if new_total_wide > i64::MAX as i128 {
            return Err(
                AppError::Validation(
                    ValidationError::new(
                        "inventoryTotal",
                        "Session inventory total exceeds the representable range",
                        "إجمالي مخزون الجلسة يتجاوز النطاق الممكن تمثيله",
                    ),
                ),
            );
        }
        let new_total: i64 = new_total_wide as i64;
        let ln2 = SessionLine { quantity, ..ln };
        self.lines.set(li, ln2);
        self.items.set(iidx, InventoryItem { quantity: new_stock_wide as i64, ..it });
        self.sessions.set(sidx, Session { inventory_total: new_total, ..s });
        proof {
            let v = old(self)@;
            let v2 = self@;
            lemma_sessions_same_shape(v.sessions, v2.sessions);
            lemma_items_same_ids(v.items, v2.items);
            assert(v2.lines =~= v.lines.update(li as int, ln2));
            assert forall|k: int| 0 <= k < v2.sessions.len() implies (#[trigger] v2.sessions[k])
                .inventory_total == lines_total(v2.lines, v2.sessions[k].id) by {
                let kid = v2.sessions[k].id;
                lemma_seq_sum_update(v.lines, line_weight(kid), li as int, ln2);
                if k != sidx {
                    assert(v.sessions[k].id != v.sessions[sidx as int].id);
                    assert((line_weight(kid))(v.lines[li as int]) == 0);
                    assert((line_weight(kid))(ln2) == 0);
                }
            }
            assert forall|i: int| 0 <= i < v2.lines.len() implies (line_weight(session_id))(
                #[trigger] v2.lines[i],
            ) >= 0 by {
                let l = v2.lines[i];
                lemma_mul_nonneg(l.quantity as int, l.price_at_time as int);
            }
            lemma_seq_sum_nonneg(v2.lines, line_weight(session_id));
            assert(v2.wf());
            let specr = spec_update_session_inventory(v, session_id, item_id, quantity);
            assert(specr == Ok::<StoreView, ErrorKind>(v2)) by {
                assert(v2 =~= specr->Ok_0);
            }
        }
        Ok(())
    }
}

/// The invoice line for the session's time cost: absent when the cost is
/// zero (a fully subscription-covered session with no purchases yields a
/// valid invoice with no time line).
pub open spec fn spec_cost_items(
    invoice_id: u64,
    resource_id: u64,
    minutes: u64,
    cost: int,
) -> Seq<InvoiceItem> {
    if cost != 0 {
        seq![
            InvoiceItem {
                id: (invoice_id + 1) as u64,
                invoice_id,
                kind: InvoiceItemKind::SessionTime { resource_id, minutes },
                quantity: 1,
                rate: cost as i64,
                amount: cost as i64,
            },
        ]
    } else {
        Seq::empty()
    }
}

/// One invoice line per attached inventory line, at the quantities and price
/// snapshots recorded on the session, with ids drawn from `base` upward.
pub open spec fn spec_line_items(
    sess_lines: Seq<SessionLine>,
    invoice_id: u64,
    base: int,
) -> Seq<InvoiceItem> {
    Seq::new(
        sess_lines.len(),
        |i: int|
            InvoiceItem {
                id: (base + i) as u64,
                invoice_id,
                kind: InvoiceItemKind::StockItem { item_id: sess_lines[i].item_id },
                quantity: sess_lines[i].quantity,
                rate: sess_lines[i].price_at_time,
                amount: (sess_lines[i].quantity * sess_lines[i].price_at_time) as i64,
            },
    )
}

/// What `end_session` does: after the checks, the session cost is the linear
/// proration `minutes * rate / 60` in cents (zero when the subscription
/// snapshot is set), the session completes, the resource frees, one invoice
/// for cost plus inventory total is created with its lines, and the
/// customer's debt grows by the invoice total.
pub open spec fn spec_end_session(
    v: StoreView,
    session_id: u64,
    now_min: u64,
    today: u64,
) -> Result<(StoreView, u64), ErrorKind> {
    if !has_session(v.sessions, session_id) {
        Err(ErrorKind::NotFound)
    } else {
        let sidx = session_at(v.sessions, session_id);
        let s = v.sessions[sidx];
        if s.status != SessionStatus::Active {
            Err(ErrorKind::Conflict)
        } else if now_min < s.started_at {
            Err(ErrorKind::Validation)
        } else if today > u64::MAX - 7 {
            Err(ErrorKind::Validation)
        } else {
            let minutes: int = now_min - s.started_at;
            let cost: int = if s.is_subscribed {
                0
            } else {
                minutes * s.rate_snapshot / 60
            };
            if cost > i64::MAX {
                Err(ErrorKind::Validation)
            } else {
                let total_amount: int = cost + s.inventory_total;
                if total_amount > i64::MAX {
                    Err(ErrorKind::Validation)
                } else {
                    let cidx = customer_at(v.customers, s.customer_id);
                    let c = v.customers[cidx];
                    if c.balance + total_amount > i64::MAX {
                        Err(ErrorKind::Validation)
                    } else if c.total_sessions == u64::MAX {
                        Err(ErrorKind::Internal)
                    } else {
                        let sess_lines = session_lines_of(v.lines, session_id);
                        let n_new: int = 1 + (
                        if cost != 0 {
                            1 as int
                        } else {
                            0 as int
                        }) + sess_lines.len();
                        if v.next_id + n_new > u64::MAX {
                            Err(ErrorKind::Internal)
                        } else {
                            let invoice_id = v.next_id;
                            let ridx = resource_at(v.resources, s.resource_id);
                            let res = v.resources[ridx];
                            let base: int = invoice_id + (
                            if cost != 0 {
                                2 as int
                            } else {
                                1 as int
                            });
                            let inv = Invoice {
                                id: invoice_id,
                                number: (v.invoices.len() + 1) as u64,
                                customer_id: s.customer_id,
                                session_id: Some(session_id),
                                total: total_amount as i64,
                                paid: 0,
                                cancelled: false,
                                status: status_of(0, total_amount, false),
                                due_day: (today + 7) as u64,
                                paid_day: None,
                            };
                            Ok(
                                (
                                    StoreView {
                                        sessions: v.sessions.update(
                                            sidx,
                                            Session {
                                                ended_at: Some(now_min),
                                                status: SessionStatus::Completed,
                                                ..s
                                            },
                                        ),
                                        resources: v.resources.update(
                                            ridx,
                                            Resource { is_available: true, ..res },
                                        ),
                                        customers: v.customers.update(
                                            cidx,
                                            Customer {
                                                balance: (c.balance + total_amount) as i64,
                                                total_sessions: (c.total_sessions + 1) as u64,
                                                ..c
                                            },
                                        ),
                                        invoices: v.invoices.push(inv),
                                        invoice_items: v.invoice_items + spec_cost_items(
                                            invoice_id,
                                            s.resource_id,
                                            (now_min - s.started_at) as u64,
                                            cost,
                                        ) + spec_line_items(sess_lines, invoice_id, base),
                                        next_id: (v.next_id + n_new) as u64,
                                        ..v
                                    },
                                    invoice_id,
                                ),
                            )
                        }
                    }
                }
            }
        }
    }
}

impl Store {
    /// End the active session `session_id` at minute `now_min`: price the
    /// elapsed whole minutes against the rate snapshot (zero if the
    /// subscription snapshot is set), complete the session, free its
    /// resource, create one invoice for cost plus inventory total — with a
    /// time line only when the cost is nonzero and one line per attached
    /// item — and increase the customer's debt by the total. Returns the new
    /// invoice id; on any failure nothing changes.
    pub fn end_session(&mut self, session_id: u64, now_min: u64, today: u64) -> (r: Result<
        u64,
        AppError,
    >)
        requires
            old(self).wf(),
        ensures
            final(self).wf(),
            match r {
                Ok(invoice_id) => spec_end_session(old(self)@, session_id, now_min, today) == Ok::<
                    (StoreView, u64),
                    ErrorKind,
                >((final(self)@, invoice_id)),
                Err(e) => {
                    &&& final(self)@ == old(self)@
                    &&& spec_end_session(old(self)@, session_id, now_min, today) == Err::<
                        (StoreView, u64),
                        ErrorKind,
                    >(e.kind())
                },
            },
    {
        let sidx = match self.find_session(session_id) {
            Some(i) => i,
            None => {
                return Err(AppError::NotFound(String::from_str("Session not found")));
            },
        };
        proof {
            lemma_session_at(self@.sessions, sidx as int);
        }
        let s = self.sessions[sidx];
        if !matches!(s.status, SessionStatus::Active) {
            return Err(AppError::Conflict(String::from_str("Session is not active")));
        }
        if now_min < s.started_at {
            return Err(
                AppError::Validation(
                    ValidationError::new(
                        "endedAt",
                        "End time lies before the session start",
                        "وقت الانتهاء يسبق بداية الجلسة",
                    ),
                ),
            );
        }
        if today > u64::MAX - 7 {
            return Err(
                AppError::Validation(
                    ValidationError::new(
                        "dueDate",
                        "Due date exceeds the representable range",
                        "تاريخ الاستحقاق يتجاوز النطاق الممكن تمثيله",
                    ),
                ),
            );
        }
        let minutes: u64 = now_min - s.started_at;
        let cost: i64;
        if s.is_subscribed {
            cost = 0;
        } else {
            proof {
                lemma_u64_prod_fits(minutes as int, s.rate_snapshot as int);
            }
            let cost_wide: u128 = minutes as u128 * s.rate_snapshot as u128;
            let prorated: u128 = cost_wide / 60;
            if prorated > i64::MAX as u128 {
                return Err(
                    AppError::Validation(
                        ValidationError::new(
                            "sessionCost",
                            "Session cost exceeds the representable range",
                            "تكلفة الجلسة تتجاوز النطاق الممكن تمثيله",
                        ),
                    ),
                );
            }
            cost = prorated as i64;
        }
        let total_wide: i128 = cost as i128 + s.inventory_total as i128;
        if total_wide > i64::MAX as i128 {
            return Err(
                AppError::Validation(
                    ValidationError::new(
                        "total",
                        "Invoice total exceeds the representable range",
                        "إجمالي الفاتورة يتجاوز النطاق الممكن تمثيله",
                    ),
                ),
            );
        }
        let total_amount: i64 = total_wide as i64;
        let cidx = match self.find_customer(s.customer_id) {
            Some(i) => i,
            None => {
                proof {
                    assert(has_customer(self@.customers, s.customer_id));
                }
                unreached()
            },
        };
        proof {
            lemma_customer_at(self@.customers, cidx as int);
        }
        let c = self.customers[cidx];
        let bal_wide: i128 = c.balance as i128 + total_amount as i128;
        if bal_wide > i64::MAX as i128 {
            return Err(
                AppError::Validation(
                    ValidationError::new(
                        "balance",
                        "Customer balance exceeds the representable range",
                        "رصيد العميل يتجاوز النطاق الممكن تمثيله",
                    ),
                ),
            );
        }
        if c.total_sessions == u64::MAX {
            return Err(AppError::Internal(String::from_str("session counter exhausted")));
        }
        // Collect this session's lines, in table order.
        let mut sl: Vec<SessionLine> = Vec::new();
        let mut i: usize = 0;
        while i < self.lines.len()
            invariant
                i <= self.lines.len(),
                sl@ == session_lines_of(self@.lines.take(i as int), session_id),
            decreases self.lines.len() - i,
        {
            let ln = self.lines[i];
            proof {
                assert(self@.lines.take(i as int + 1).drop_last() =~= self@.lines.take(i as int));
                assert(self@.lines.take(i as int + 1).last() == ln);
            }
            if ln.session_id == session_id {
                sl.push(ln);
            }
            i = i + 1;
        }
        proof {
            assert(self@.lines.take(self@.lines.len() as int) =~= self@.lines);
        }
        let ghost sess_lines = session_lines_of(self@.lines, session_id);
        let n_extra: u64 = if cost != 0 {
            2
        } else {
            1
        };
        let next_wide: u128 = self.next_id as u128 + n_extra as u128 + sl.len() as u128;
        if next_wide > u64::MAX as u128 {
            return Err(AppError::Internal(String::from_str("id space exhausted")));
        }
        let invoice_id: u64 = self.next_id;
        let base: u64 = invoice_id + n_extra;
        let ridx = match self.find_resource(s.resource_id) {
            Some(i) => i,
            None => {
                proof {
                    assert(has_resource(self@.resources, s.resource_id));
                }
                unreached()
            },
        };
        proof {
            lemma_resource_at(self@.resources, ridx as int);
        }
        let res = self.resources[ridx];
        let status = if total_amount == 0 {
            InvoiceStatus::Paid
        } else {
            InvoiceStatus::Unpaid
        };
        let inv = Invoice {
            id: invoice_id,
            number: self.invoices.len() as u64 + 1,
            customer_id: s.customer_id,
            session_id: Some(session_id),
            total: total_amount,
            paid: 0,
            cancelled: false,
            status,
            due_day: today + 7,
            paid_day: None,
        };
        // Build the new invoice lines: the time line when the cost is
        // nonzero, then one line per attached item.
        proof {
            lemma_session_lines_sub(old(self)@.lines, session_id);
        }
        let ghost cost_items = spec_cost_items(invoice_id, s.resource_id, minutes, cost as int);
        let ghost line_items = spec_line_items(sess_lines, invoice_id, base as int);
        let mut new_items: Vec<InvoiceItem> = Vec::new();
        if cost != 0 {
            new_items.push(
                InvoiceItem {
                    id: invoice_id + 1,
                    invoice_id,
                    kind: InvoiceItemKind::SessionTime { resource_id: s.resource_id, minutes },
                    quantity: 1,
                    rate: cost,
                    amount: cost,
                },
            );
        }
        proof {
            assert(new_items@ =~= cost_items);
        }
        let mut k: usize = 0;
        while k < sl.len()
            invariant
                k <= sl.len(),
                sl@ == sess_lines,
                sess_lines == session_lines_of(old(self)@.lines, session_id),
                old(self).wf(),
                base + sl@.len() <= u64::MAX,
                invoice_id < base,
                new_items@ == cost_items + line_items.take(k as int),
                cost_items == spec_cost_items(invoice_id, s.resource_id, minutes, cost as int),
                line_items == spec_line_items(sess_lines, invoice_id, base as int),
                forall|j: int|
                    0 <= j < sess_lines.len() ==> old(self)@.lines.contains(
                        #[trigger] sess_lines[j],
                    ),
            decreases sl.len() - k,
        {
            let ln = sl[k];
            proof {
                assert(old(self)@.lines.contains(ln));
                let w = choose|w: int|
                    0 <= w < old(self)@.lines.len() && old(self)@.lines[w] == ln;
                assert(ln.quantity >= 0 && ln.price_at_time >= 0 && ln.quantity * ln.price_at_time
                    <= i64::MAX);
                lemma_mul_nonneg(ln.quantity as int, ln.price_at_time as int);
            }
            let amount: i64 = ln.quantity * ln.price_at_time;
            let item = InvoiceItem {
                id: base + k as u64,
                invoice_id,
                kind: InvoiceItemKind::StockItem { item_id: ln.item_id },
                quantity: ln.quantity,
                rate: ln.price_at_time,
                amount,
            };
            new_items.push(item);
            k = k + 1;
            proof {
                assert(line_items.take(k as int) =~= line_items.take(k as int - 1).push(
                    line_items[k as int - 1],
                ));
                assert(new_items@ =~= cost_items + line_items.take(k as int));
            }
        }
        proof {
            assert(line_items.take(sl@.len() as int) =~= line_items);
        }
        // Commit the settlement.
        let s2 = Session { ended_at: Some(now_min), status: SessionStatus::Completed, ..s };
        self.sessions.set(sidx, s2);
        self.resources.set(ridx, Resource { is_available: true, ..res });
        self.customers.set(
            cidx,
            Customer { balance: bal_wide as i64, total_sessions: c.total_sessions + 1, ..c },
        );
        self.invoices.push(inv);
        self.invoice_items.append(&mut new_items);
        self.next_id = next_wide as u64;
        proof {
            let v = old(self)@;
            let v2 = self@;
            assert(v2.sessions =~= v.sessions.update(sidx as int, s2));
            lemma_deactivate_update(v.sessions, sidx as int, s2);
            lemma_sessions_same_ids(v.sessions, v2.sessions);
            lemma_customers_same_ids(v.customers, v2.customers);
            lemma_resources_same_ids(v.resources, v2.resources);
            lemma_invoices_grow(v.invoices, v2.invoices);
            // Untouched resources keep their availability facts.
            assert forall|j: int|
                0 <= j < v2.resources.len() && j != ridx implies ((#[trigger] v2.resources[j])
                .is_available <==> !resource_occupied(v2.sessions, v2.resources[j].id)) by {
                assert(v2.resources[j] == v.resources[j]);
                if j < ridx {
                    assert(v.resources[j].id != v.resources[ridx as int].id);
                } else {
                    assert(v.resources[ridx as int].id != v.resources[j].id);
                }
            }
            assert(!resource_occupied(v2.sessions, s.resource_id));
            // Session totals are judged against the unchanged line table.
            assert forall|j: int| 0 <= j < v2.sessions.len() implies (#[trigger] v2.sessions[j])
                .inventory_total == lines_total(v2.lines, v2.sessions[j].id) by {
                assert(v2.lines == v.lines);
            }
            // Any session active after the update was active before.
            assert forall|p: int, q: int|
                #![trigger v2.sessions[p], v2.sessions[q]]
                0 <= p < q < v2.sessions.len() implies (v2.sessions[p].id != v2.sessions[q].id && (
            (v2.sessions[p].status == SessionStatus::Active && v2.sessions[q].status
                == SessionStatus::Active) ==> v2.sessions[p].customer_id
                != v2.sessions[q].customer_id && v2.sessions[p].resource_id
                != v2.sessions[q].resource_id)) by {
                assert(v.sessions[p].id != v.sessions[q].id);
                if p != sidx && q != sidx {
                    assert(v2.sessions[p] == v.sessions[p]);
                    assert(v2.sessions[q] == v.sessions[q]);
                }
            }
            // The new invoice's items and the new invoice itself are well
            // formed; old ones carry over.
            assert(v2.invoice_items =~= v.invoice_items + cost_items + line_items);
            assert forall|j: int| 0 <= j < v2.invoice_items.len() implies {
                let it = #[trigger] v2.invoice_items[j];
                &&& it.id < v2.next_id
                &&& it.quantity >= 0
                &&& it.rate >= 0
                &&& it.amount == it.quantity * it.rate
                &&& has_invoice(v2.invoices, it.invoice_id)
            } by {
                if j < v.invoice_items.len() {
                    assert(v2.invoice_items[j] == v.invoice_items[j]);
                } else if j < v.invoice_items.len() + cost_items.len() {
                    let it = v2.invoice_items[j];
                    assert(it == cost_items[0]);
                    assert(it.amount == 1 * it.rate);
                    assert(has_invoice(v2.invoices, invoice_id)) by {
                        assert(v2.invoices[v.invoices.len() as int].id == invoice_id);
                    }
                } else {
                    let w = j - v.invoice_items.len() - cost_items.len();
                    let it = v2.invoice_items[j];
                    assert(it == line_items[w]);
                    assert(old(self)@.lines.contains(sess_lines[w]));
                    assert(sess_lines[w].quantity * sess_lines[w].price_at_time <= i64::MAX);
                    lemma_mul_nonneg(
                        sess_lines[w].quantity as int,
                        sess_lines[w].price_at_time as int,
                    );
                    assert(has_invoice(v2.invoices, invoice_id)) by {
                        assert(v2.invoices[v.invoices.len() as int].id == invoice_id);
                    }
                }
            }
            assert(status == status_of(0, total_amount as int, false));
            assert(v2.wf());
            let specr = spec_end_session(v, session_id, now_min, today);
            assert(specr == Ok::<(StoreView, u64), ErrorKind>((v2, invoice_id))) by {
                assert(v2 =~= specr->Ok_0.0);
            }
        }
        Ok(invoice_id)
    }
}

} // verus!
