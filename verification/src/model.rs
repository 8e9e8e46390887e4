//! Data model of the venue: entities and the ghost view of the whole store.
//!
//! Money is a signed number of cents (`i64`), timestamps are minutes, dates
//! are day numbers. Every entity is a plain-value record, so the ghost view
//! of a table is simply a sequence of records.

use vstd::prelude::*;

verus! {

/// A bookable unit (desk, room, seat) with an hourly rate in cents and an
/// availability flag. Unavailable exactly while one active session holds it.
#[derive(Clone, Copy, Debug, PartialEq)]
pub struct Resource {
    pub id: u64,
    pub rate_per_hour: i64,
    pub is_available: bool,
}

/// A stock-counted consumable with a unit price in cents.
#[derive(Clone, Copy, Debug, PartialEq)]
pub struct InventoryItem {
    pub id: u64,
    pub quantity: i64,
    pub price: i64,
}

/// A customer account: a signed running debt, lifetime payments received,
/// and a session counter.
#[derive(Clone, Copy, Debug, PartialEq)]
pub struct Customer {
    pub id: u64,
    pub balance: i64,
    pub total_spent: i64,
    pub total_sessions: u64,
}

/// A date-ranged plan for one customer. A plan with no end day never covers
/// a date.
#[derive(Clone, Copy, Debug, PartialEq)]
pub struct SubscriptionPlan {
    pub id: u64,
    pub customer_id: u64,
    pub start_day: u64,
    pub end_day: Option<u64>,
    pub is_active: bool,
}

#[derive(Clone, Copy, Debug, PartialEq, Eq, Structural)]
pub enum SessionStatus {
    Active,
    Completed,
}

/// A timed occupancy of one resource by one customer. The hourly rate is
/// snapshotted at start and never re-read, so later rate changes do not
/// affect the session. `inventory_total` is a running accumulator equal to
/// the summed amounts of this session's lines.
#[derive(Clone, Copy, Debug, PartialEq)]
pub struct Session {
    pub id: u64,
    pub customer_id: u64,
    pub resource_id: u64,
    pub started_at: u64,
    pub ended_at: Option<u64>,
    pub rate_snapshot: i64,
    pub inventory_total: i64,
    pub is_subscribed: bool,
    pub status: SessionStatus,
}

/// One coalesced inventory attachment: at most one line exists per
/// (session, item) pair, holding the quantity and the unit price snapshotted
/// at the latest attachment.
#[derive(Clone, Copy, Debug, PartialEq)]
pub struct SessionLine {
    pub session_id: u64,
    pub item_id: u64,
    pub quantity: i64,
    pub price_at_time: i64,
}

#[derive(Clone, Copy, Debug, PartialEq, Eq, Structural)]
pub enum InvoiceStatus {
    Unpaid,
    PartiallyPaid,
    Paid,
    Cancelled,
}

/// An invoice: totals and payments in cents. `number` is the human-readable
/// sequence number; invoices are never deleted, so number == position + 1.
#[derive(Clone, Copy, Debug, PartialEq)]
pub struct Invoice {
    pub id: u64,
    pub number: u64,
    pub customer_id: u64,
    pub session_id: Option<u64>,
    pub total: i64,
    pub paid: i64,
    pub cancelled: bool,
    pub status: InvoiceStatus,
    pub due_day: u64,
    pub paid_day: Option<u64>,
}

/// What an invoice line bills: session time on a resource, or units of a
/// stock item. The caller renders these to display text.
#[derive(Clone, Copy, Debug, PartialEq)]
pub enum InvoiceItemKind {
    SessionTime { resource_id: u64, minutes: u64 },
    StockItem { item_id: u64 },
}

/// One line of an invoice; `amount` is `quantity * rate`, fixed at creation.
#[derive(Clone, Copy, Debug, PartialEq)]
pub struct InvoiceItem {
    pub id: u64,
    pub invoice_id: u64,
    pub kind: InvoiceItemKind,
    pub quantity: i64,
    pub rate: i64,
    pub amount: i64,
}

/// Audit record of one payment event applied to one invoice.
#[derive(Clone, Copy, Debug, PartialEq)]
pub struct PaymentRecord {
    pub invoice_id: u64,
    pub customer_id: u64,
    pub amount: i64,
    pub day: u64,
}

/// Ghost view of the whole store: each table as a sequence, plus the id
/// counter that all tables draw from.
#[verifier::ext_equal]
pub struct StoreView {
    pub customers: Seq<Customer>,
    pub resources: Seq<Resource>,
    pub items: Seq<InventoryItem>,
    pub plans: Seq<SubscriptionPlan>,
    pub sessions: Seq<Session>,
    pub lines: Seq<SessionLine>,
    pub invoices: Seq<Invoice>,
    pub invoice_items: Seq<InvoiceItem>,
    pub payments: Seq<PaymentRecord>,
    pub next_id: u64,
}

/// Sum of `f` over a sequence.
pub open spec fn seq_sum<A>(s: Seq<A>, f: spec_fn(A) -> int) -> int
    decreases s.len(),
{
    if s.len() == 0 {
        0
    } else {
        seq_sum(s.drop_last(), f) + f(s.last())
    }
}

pub proof fn lemma_seq_sum_push<A>(s: Seq<A>, f: spec_fn(A) -> int, x: A)
    ensures
        seq_sum(s.push(x), f) == seq_sum(s, f) + f(x),
{
    assert(s.push(x).drop_last() =~= s);
}

pub proof fn lemma_seq_sum_remove<A>(s: Seq<A>, f: spec_fn(A) -> int, i: int)
    requires
        0 <= i < s.len(),
    ensures
        seq_sum(s.remove(i), f) == seq_sum(s, f) - f(s[i]),
    decreases s.len(),
{
    if i == s.len() - 1 {
        assert(s.remove(i) =~= s.drop_last());
    } else {
        assert(s.remove(i).drop_last() =~= s.drop_last().remove(i));
        lemma_seq_sum_remove(s.drop_last(), f, i);
        assert(s.remove(i).last() == s.last());
    }
}

pub proof fn lemma_seq_sum_update<A>(s: Seq<A>, f: spec_fn(A) -> int, i: int, x: A)
    requires
        0 <= i < s.len(),
    ensures
        seq_sum(s.update(i, x), f) == seq_sum(s, f) - f(s[i]) + f(x),
    decreases s.len(),
{
    if i == s.len() - 1 {
        assert(s.update(i, x).drop_last() =~= s.drop_last());
        assert(s.update(i, x).last() == x);
    } else {
        assert(s.update(i, x).drop_last() =~= s.drop_last().update(i, x));
        lemma_seq_sum_update(s.drop_last(), f, i, x);
        assert(s.update(i, x).last() == s.last());
    }
}

pub proof fn lemma_seq_sum_nonneg<A>(s: Seq<A>, f: spec_fn(A) -> int)
    requires
        forall|i: int| 0 <= i < s.len() ==> f(s[i]) >= 0,
    ensures
        seq_sum(s, f) >= 0,
    decreases s.len(),
{
    if s.len() > 0 {
        lemma_seq_sum_nonneg(s.drop_last(), f);
    }
}

/// Contribution of one line to the inventory total of session `sid`.
pub open spec fn line_weight(sid: u64) -> spec_fn(SessionLine) -> int {
    |ln: SessionLine|
        if ln.session_id == sid {
            ln.quantity * ln.price_at_time
        } else {
            0
        }
}

/// Summed line amounts of session `sid`: what its `inventory_total` holds.
pub open spec fn lines_total(lines: Seq<SessionLine>, sid: u64) -> int {
    seq_sum(lines, line_weight(sid))
}

/// Contribution of one line to the attached units of item `item_id`.
pub open spec fn item_weight(item_id: u64) -> spec_fn(SessionLine) -> int {
    |ln: SessionLine|
        if ln.item_id == item_id {
            ln.quantity as int
        } else {
            0
        }
}

/// Units of item `item_id` currently attached to sessions, over all lines.
pub open spec fn attached_units(lines: Seq<SessionLine>, item_id: u64) -> int {
    seq_sum(lines, item_weight(item_id))
}

/// The lines of one invoice, in table order.
pub open spec fn invoice_items_of(iis: Seq<InvoiceItem>, invoice_id: u64) -> Seq<InvoiceItem>
    decreases iis.len(),
{
    if iis.len() == 0 {
        iis
    } else {
        let prefix = invoice_items_of(iis.drop_last(), invoice_id);
        if iis.last().invoice_id == invoice_id {
            prefix.push(iis.last())
        } else {
            prefix
        }
    }
}

/// Invoice status as the pure function of paid amount, total, and the sticky
/// cancelled flag: cancelled wins; otherwise paid iff `paid >= total`;
/// otherwise partially paid iff `paid > 0`; otherwise unpaid.
pub open spec fn status_of(paid: int, total: int, cancelled: bool) -> InvoiceStatus {
    if cancelled {
        InvoiceStatus::Cancelled
    } else if paid >= total {
        InvoiceStatus::Paid
    } else if paid > 0 {
        InvoiceStatus::PartiallyPaid
    } else {
        InvoiceStatus::Unpaid
    }
}

pub open spec fn has_customer(cs: Seq<Customer>, id: u64) -> bool {
    exists|i: int| 0 <= i < cs.len() && (#[trigger] cs[i]).id == id
}

pub open spec fn customer_at(cs: Seq<Customer>, id: u64) -> int {
    choose|i: int| 0 <= i < cs.len() && (#[trigger] cs[i]).id == id
}

pub open spec fn has_resource(rs: Seq<Resource>, id: u64) -> bool {
    exists|i: int| 0 <= i < rs.len() && (#[trigger] rs[i]).id == id
}

pub open spec fn resource_at(rs: Seq<Resource>, id: u64) -> int {
    choose|i: int| 0 <= i < rs.len() && (#[trigger] rs[i]).id == id
}

pub open spec fn has_item(its: Seq<InventoryItem>, id: u64) -> bool {
    exists|i: int| 0 <= i < its.len() && (#[trigger] its[i]).id == id
}

pub open spec fn item_at(its: Seq<InventoryItem>, id: u64) -> int {
    choose|i: int| 0 <= i < its.len() && (#[trigger] its[i]).id == id
}

pub open spec fn has_session(ss: Seq<Session>, id: u64) -> bool {
    exists|i: int| 0 <= i < ss.len() && (#[trigger] ss[i]).id == id
}

pub open spec fn session_at(ss: Seq<Session>, id: u64) -> int {
    choose|i: int| 0 <= i < ss.len() && (#[trigger] ss[i]).id == id
}

pub open spec fn has_invoice(is: Seq<Invoice>, id: u64) -> bool {
    exists|i: int| 0 <= i < is.len() && (#[trigger] is[i]).id == id
}

pub open spec fn invoice_at(is: Seq<Invoice>, id: u64) -> int {
    choose|i: int| 0 <= i < is.len() && (#[trigger] is[i]).id == id
}

/// Whether a line for the (session, item) pair exists.
pub open spec fn has_line(ls: Seq<SessionLine>, sid: u64, item_id: u64) -> bool {
    exists|i: int|
        0 <= i < ls.len() && (#[trigger] ls[i]).session_id == sid && ls[i].item_id == item_id
}

pub open spec fn line_at(ls: Seq<SessionLine>, sid: u64, item_id: u64) -> int {
    choose|i: int|
        0 <= i < ls.len() && (#[trigger] ls[i]).session_id == sid && ls[i].item_id == item_id
}

/// Whether customer `cid` has an active session.
pub open spec fn customer_has_active(ss: Seq<Session>, cid: u64) -> bool {
    exists|i: int|
        0 <= i < ss.len() && (#[trigger] ss[i]).customer_id == cid && ss[i].status
            == SessionStatus::Active
}

/// Whether some active session occupies resource `rid`.
pub open spec fn resource_occupied(ss: Seq<Session>, rid: u64) -> bool {
    exists|i: int|
        0 <= i < ss.len() && (#[trigger] ss[i]).resource_id == rid && ss[i].status
            == SessionStatus::Active
}

/// Whether this plan exempts customer `cid` on day `today`. A plan with no
/// end day covers nothing.
pub open spec fn plan_covers(p: SubscriptionPlan, cid: u64, today: u64) -> bool {
    &&& p.customer_id == cid
    &&& p.is_active
    &&& p.start_day <= today
    &&& match p.end_day {
        Some(e) => today <= e,
        None => false,
    }
}

/// Whether customer `cid` holds a covering plan on day `today`.
pub open spec fn has_covering_plan(ps: Seq<SubscriptionPlan>, cid: u64, today: u64) -> bool {
    exists|i: int| 0 <= i < ps.len() && plan_covers(#[trigger] ps[i], cid, today)
}

pub open spec fn wf_customers(cs: Seq<Customer>, next_id: u64) -> bool {
    &&& forall|i: int|
        0 <= i < cs.len() ==> (#[trigger] cs[i]).id < next_id && cs[i].total_spent >= 0
    &&& forall|i: int, j: int|
        #![trigger cs[i], cs[j]]
        0 <= i < j < cs.len() ==> cs[i].id != cs[j].id
}

pub open spec fn wf_resources(rs: Seq<Resource>, ss: Seq<Session>, next_id: u64) -> bool {
    &&& forall|i: int|
        0 <= i < rs.len() ==> (#[trigger] rs[i]).id < next_id && rs[i].rate_per_hour >= 0
    &&& forall|i: int, j: int|
        #![trigger rs[i], rs[j]]
        0 <= i < j < rs.len() ==> rs[i].id != rs[j].id
    &&& forall|i: int|
        0 <= i < rs.len() ==> ((#[trigger] rs[i]).is_available <==> !resource_occupied(
            ss,
            rs[i].id,
        ))
}

pub open spec fn wf_items(its: Seq<InventoryItem>, next_id: u64) -> bool {
    &&& forall|i: int|
        0 <= i < its.len() ==> (#[trigger] its[i]).id < next_id && its[i].quantity >= 0
            && its[i].price >= 0
    &&& forall|i: int, j: int|
        #![trigger its[i], its[j]]
        0 <= i < j < its.len() ==> its[i].id != its[j].id
}

pub open spec fn wf_plans(ps: Seq<SubscriptionPlan>, cs: Seq<Customer>, next_id: u64) -> bool {
    &&& forall|i: int|
        0 <= i < ps.len() ==> (#[trigger] ps[i]).id < next_id && has_customer(cs, ps[i].customer_id)
    &&& forall|i: int, j: int|
        #![trigger ps[i], ps[j]]
        0 <= i < j < ps.len() ==> ps[i].id != ps[j].id
}

pub open spec fn wf_sessions(
    ss: Seq<Session>,
    cs: Seq<Customer>,
    rs: Seq<Resource>,
    ls: Seq<SessionLine>,
    next_id: u64,
) -> bool {
    &&& forall|i: int|
        0 <= i < ss.len() ==> {
            let s = #[trigger] ss[i];
            &&& s.id < next_id
            &&& s.rate_snapshot >= 0
            &&& s.inventory_total == lines_total(ls, s.id)
            &&& s.inventory_total >= 0
            &&& (s.status == SessionStatus::Active <==> s.ended_at is None)
            &&& (match s.ended_at {
                Some(e) => s.started_at <= e,
                None => true,
            })
            &&& has_customer(cs, s.customer_id)
            &&& has_resource(rs, s.resource_id)
        }
    &&& forall|i: int, j: int|
        #![trigger ss[i], ss[j]]
        0 <= i < j < ss.len() ==> {
            &&& ss[i].id != ss[j].id
            &&& (ss[i].status == SessionStatus::Active && ss[j].status == SessionStatus::Active
                ==> ss[i].customer_id != ss[j].customer_id && ss[i].resource_id
                != ss[j].resource_id)
        }
}

pub open spec fn wf_lines(
    ls: Seq<SessionLine>,
    ss: Seq<Session>,
    its: Seq<InventoryItem>,
) -> bool {
    &&& forall|i: int|
        0 <= i < ls.len() ==> {
            let ln = #[trigger] ls[i];
            &&& ln.quantity >= 0
            &&& ln.price_at_time >= 0
            &&& ln.quantity * ln.price_at_time <= i64::MAX
            &&& has_session(ss, ln.session_id)
            &&& has_item(its, ln.item_id)
        }
    &&& forall|i: int, j: int|
        #![trigger ls[i], ls[j]]
        0 <= i < j < ls.len() ==> !(ls[i].session_id == ls[j].session_id && ls[i].item_id
            == ls[j].item_id)
}

pub open spec fn wf_invoices(
    is: Seq<Invoice>,
    cs: Seq<Customer>,
    ss: Seq<Session>,
    next_id: u64,
) -> bool {
    &&& is.len() <= next_id
    &&& forall|i: int|
        0 <= i < is.len() ==> {
            let inv = #[trigger] is[i];
            &&& inv.id < next_id
            &&& inv.number == i + 1
            &&& inv.total >= 0
            &&& inv.paid >= 0
            &&& inv.status == status_of(inv.paid as int, inv.total as int, inv.cancelled)
            &&& has_customer(cs, inv.customer_id)
            &&& (match inv.session_id {
                Some(sid) => has_session(ss, sid),
                None => true,
            })
        }
    &&& forall|i: int, j: int|
        #![trigger is[i], is[j]]
        0 <= i < j < is.len() ==> is[i].id != is[j].id
}

pub open spec fn wf_invoice_items(iis: Seq<InvoiceItem>, is: Seq<Invoice>, next_id: u64) -> bool {
    forall|i: int|
        0 <= i < iis.len() ==> {
            let it = #[trigger] iis[i];
            &&& it.id < next_id
            &&& it.quantity >= 0
            &&& it.rate >= 0
            &&& it.amount == it.quantity * it.rate
            &&& has_invoice(is, it.invoice_id)
        }
}

pub open spec fn wf_payments(
    pys: Seq<PaymentRecord>,
    is: Seq<Invoice>,
    cs: Seq<Customer>,
) -> bool {
    forall|i: int|
        0 <= i < pys.len() ==> {
            let p = #[trigger] pys[i];
            &&& p.amount >= 0
            &&& has_invoice(is, p.invoice_id)
            &&& has_customer(cs, p.customer_id)
        }
}

pub proof fn lemma_seq_sum_zero<A>(s: Seq<A>, f: spec_fn(A) -> int)
    requires
        forall|i: int| 0 <= i < s.len() ==> f(s[i]) == 0,
    ensures
        seq_sum(s, f) == 0,
    decreases s.len(),
{
    if s.len() > 0 {
        lemma_seq_sum_zero(s.drop_last(), f);
    }
}

/// When every summand is non-negative, each one is bounded by the sum.
pub proof fn lemma_seq_sum_elem_bound<A>(s: Seq<A>, f: spec_fn(A) -> int, i: int)
    requires
        forall|j: int| 0 <= j < s.len() ==> f(s[j]) >= 0,
        0 <= i < s.len(),
    ensures
        f(s[i]) <= seq_sum(s, f),
    decreases s.len(),
{
    if i == s.len() - 1 {
        lemma_seq_sum_nonneg(s.drop_last(), f);
    } else {
        lemma_seq_sum_elem_bound(s.drop_last(), f, i);
    }
}

/// Sign and magnitude facts about products of cent amounts and quantities.
pub proof fn lemma_mul_nonneg(a: int, b: int)
    by (nonlinear_arith)
    requires
        a >= 0,
        b >= 0,
    ensures
        a * b >= 0,
{
}

/// The product of two `i64`-ranged values fits in an `i128`.
pub proof fn lemma_i64_prod_fits(a: int, b: int)
    by (nonlinear_arith)
    requires
        i64::MIN <= a <= i64::MAX,
        i64::MIN <= b <= i64::MAX,
    ensures
        i128::MIN <= a * b <= i128::MAX,
{
}

/// The product of two `u64`-ranged values fits in a `u128`.
pub proof fn lemma_u64_prod_fits(a: int, b: int)
    by (nonlinear_arith)
    requires
        0 <= a <= u64::MAX,
        0 <= b <= u64::MAX,
    ensures
        0 <= a * b <= u128::MAX,
{
}

/// The lines of one session, in table order.
pub open spec fn session_lines_of(ls: Seq<SessionLine>, sid: u64) -> Seq<SessionLine>
    decreases ls.len(),
{
    if ls.len() == 0 {
        ls
    } else {
        let prefix = session_lines_of(ls.drop_last(), sid);
        if ls.last().session_id == sid {
            prefix.push(ls.last())
        } else {
            prefix
        }
    }
}

/// Every selected line is a line of the table, for the right session.
pub proof fn lemma_session_lines_sub(ls: Seq<SessionLine>, sid: u64)
    ensures
        forall|k: int|
            0 <= k < session_lines_of(ls, sid).len() ==> ls.contains(
                #[trigger] session_lines_of(ls, sid)[k],
            ) && session_lines_of(ls, sid)[k].session_id == sid,
        session_lines_of(ls, sid).len() <= ls.len(),
    decreases ls.len(),
{
    if ls.len() > 0 {
        lemma_session_lines_sub(ls.drop_last(), sid);
        let fl = session_lines_of(ls, sid);
        let fp = session_lines_of(ls.drop_last(), sid);
        assert forall|k: int| 0 <= k < fl.len() implies ls.contains(#[trigger] fl[k])
            && fl[k].session_id == sid by {
            if k < fp.len() {
                assert(ls.drop_last().contains(fp[k]));
                let j = choose|j: int| 0 <= j < ls.drop_last().len() && ls.drop_last()[j] == fp[k];
                assert(ls[j] == fp[k]);
            } else {
                assert(fl[k] == ls.last());
                assert(ls[ls.len() - 1] == ls.last());
            }
        }
    }
}

/// A table with no line of a session contributes nothing to its total.
pub proof fn lemma_lines_total_absent(ls: Seq<SessionLine>, sid: u64)
    requires
        forall|i: int| 0 <= i < ls.len() ==> (#[trigger] ls[i]).session_id != sid,
    ensures
        lines_total(ls, sid) == 0,
{
    assert forall|i: int| 0 <= i < ls.len() implies (line_weight(sid))(ls[i]) == 0 by {
        assert(ls[i].session_id != sid);
    }
    lemma_seq_sum_zero(ls, line_weight(sid));
}

/// Appending a session rewrites occupancy and per-customer activity in the
/// obvious way.
pub proof fn lemma_activity_push(ss: Seq<Session>, s: Session)
    ensures
        forall|x: u64|
            #[trigger] resource_occupied(ss.push(s), x) <==> (resource_occupied(ss, x) || (s.status
                == SessionStatus::Active && s.resource_id == x)),
        forall|x: u64|
            #[trigger] customer_has_active(ss.push(s), x) <==> (customer_has_active(ss, x) || (
            s.status == SessionStatus::Active && s.customer_id == x)),
{
    let ss2 = ss.push(s);
    assert forall|x: u64|
        #[trigger] resource_occupied(ss2, x) <==> (resource_occupied(ss, x) || (s.status
            == SessionStatus::Active && s.resource_id == x)) by {
        if resource_occupied(ss2, x) {
            let k = choose|k: int|
                0 <= k < ss2.len() && (#[trigger] ss2[k]).resource_id == x && ss2[k].status
                    == SessionStatus::Active;
            if k < ss.len() {
                assert(ss[k] == ss2[k]);
            }
        }
        if resource_occupied(ss, x) {
            let k = choose|k: int|
                0 <= k < ss.len() && (#[trigger] ss[k]).resource_id == x && ss[k].status
                    == SessionStatus::Active;
            assert(ss2[k] == ss[k]);
        }
        if s.status == SessionStatus::Active && s.resource_id == x {
            assert(ss2[ss.len() as int] == s);
        }
    }
    assert forall|x: u64|
        #[trigger] customer_has_active(ss2, x) <==> (customer_has_active(ss, x) || (s.status
            == SessionStatus::Active && s.customer_id == x)) by {
        if customer_has_active(ss2, x) {
            let k = choose|k: int|
                0 <= k < ss2.len() && (#[trigger] ss2[k]).customer_id == x && ss2[k].status
                    == SessionStatus::Active;
            if k < ss.len() {
                assert(ss[k] == ss2[k]);
            }
        }
        if customer_has_active(ss, x) {
            let k = choose|k: int|
                0 <= k < ss.len() && (#[trigger] ss[k]).customer_id == x && ss[k].status
                    == SessionStatus::Active;
            assert(ss2[k] == ss[k]);
        }
        if s.status == SessionStatus::Active && s.customer_id == x {
            assert(ss2[ss.len() as int] == s);
        }
    }
}

/// A rewrite of the session table that keeps every id, owner, resource and
/// status keeps every lookup, occupancy and activity fact.
pub proof fn lemma_sessions_same_shape(ss1: Seq<Session>, ss2: Seq<Session>)
    requires
        ss1.len() == ss2.len(),
        forall|i: int|
            0 <= i < ss1.len() ==> {
                &&& (#[trigger] ss2[i]).id == ss1[i].id
                &&& ss2[i].customer_id == ss1[i].customer_id
                &&& ss2[i].resource_id == ss1[i].resource_id
                &&& ss2[i].status == ss1[i].status
            },
    ensures
        forall|x: u64| #[trigger] has_session(ss2, x) == has_session(ss1, x),
        forall|x: u64| #[trigger] resource_occupied(ss2, x) == resource_occupied(ss1, x),
        forall|x: u64| #[trigger] customer_has_active(ss2, x) == customer_has_active(ss1, x),
{
    lemma_sessions_same_ids(ss1, ss2);
    assert forall|x: u64| #[trigger] resource_occupied(ss2, x) == resource_occupied(ss1, x) by {
        if resource_occupied(ss1, x) {
            let k = choose|k: int|
                0 <= k < ss1.len() && (#[trigger] ss1[k]).resource_id == x && ss1[k].status
                    == SessionStatus::Active;
            assert(ss2[k].resource_id == x && ss2[k].status == SessionStatus::Active);
        }
        if resource_occupied(ss2, x) {
            let k = choose|k: int|
                0 <= k < ss2.len() && (#[trigger] ss2[k]).resource_id == x && ss2[k].status
                    == SessionStatus::Active;
            assert(ss1[k].resource_id == x && ss1[k].status == SessionStatus::Active);
        }
    }
    assert forall|x: u64| #[trigger] customer_has_active(ss2, x) == customer_has_active(ss1, x) by {
        if customer_has_active(ss1, x) {
            let k = choose|k: int|
                0 <= k < ss1.len() && (#[trigger] ss1[k]).customer_id == x && ss1[k].status
                    == SessionStatus::Active;
            assert(ss2[k].customer_id == x && ss2[k].status == SessionStatus::Active);
        }
        if customer_has_active(ss2, x) {
            let k = choose|k: int|
                0 <= k < ss2.len() && (#[trigger] ss2[k]).customer_id == x && ss2[k].status
                    == SessionStatus::Active;
            assert(ss1[k].customer_id == x && ss1[k].status == SessionStatus::Active);
        }
    }
}

/// Completing the one active session of a resource and customer frees both;
/// every other resource and customer keeps its occupancy and activity.
pub proof fn lemma_deactivate_update(ss: Seq<Session>, k: int, s2: Session)
    requires
        0 <= k < ss.len(),
        ss[k].status == SessionStatus::Active,
        s2.status != SessionStatus::Active,
        forall|i: int, j: int|
            #![trigger ss[i], ss[j]]
            0 <= i < j < ss.len() ==> ((ss[i].status == SessionStatus::Active && ss[j].status
                == SessionStatus::Active) ==> ss[i].customer_id != ss[j].customer_id
                && ss[i].resource_id != ss[j].resource_id),
    ensures
        !resource_occupied(ss.update(k, s2), ss[k].resource_id),
        !customer_has_active(ss.update(k, s2), ss[k].customer_id),
        forall|x: u64|
            x != ss[k].resource_id ==> (#[trigger] resource_occupied(ss.update(k, s2), x)
                == resource_occupied(ss, x)),
        forall|x: u64|
            x != ss[k].customer_id ==> (#[trigger] customer_has_active(ss.update(k, s2), x)
                == customer_has_active(ss, x)),
{
    let ss2 = ss.update(k, s2);
    if resource_occupied(ss2, ss[k].resource_id) {
        let i = choose|i: int|
            0 <= i < ss2.len() && (#[trigger] ss2[i]).resource_id == ss[k].resource_id
                && ss2[i].status == SessionStatus::Active;
        assert(i != k);
        assert(ss[i] == ss2[i]);
        assert(false);
    }
    if customer_has_active(ss2, ss[k].customer_id) {
        let i = choose|i: int|
            0 <= i < ss2.len() && (#[trigger] ss2[i]).customer_id == ss[k].customer_id
                && ss2[i].status == SessionStatus::Active;
        assert(i != k);
        assert(ss[i] == ss2[i]);
        assert(false);
    }
    assert forall|x: u64| x != ss[k].resource_id implies (#[trigger] resource_occupied(ss2, x)
        == resource_occupied(ss, x)) by {
        if resource_occupied(ss, x) {
            let i = choose|i: int|
                0 <= i < ss.len() && (#[trigger] ss[i]).resource_id == x && ss[i].status
                    == SessionStatus::Active;
            assert(i != k);
            assert(ss2[i] == ss[i]);
        }
        if resource_occupied(ss2, x) {
            let i = choose|i: int|
                0 <= i < ss2.len() && (#[trigger] ss2[i]).resource_id == x && ss2[i].status
                    == SessionStatus::Active;
            assert(i != k);
            assert(ss[i] == ss2[i]);
        }
    }
    assert forall|x: u64| x != ss[k].customer_id implies (#[trigger] customer_has_active(ss2, x)
        == customer_has_active(ss, x)) by {
        if customer_has_active(ss, x) {
            let i = choose|i: int|
                0 <= i < ss.len() && (#[trigger] ss[i]).customer_id == x && ss[i].status
                    == SessionStatus::Active;
            assert(i != k);
            assert(ss2[i] == ss[i]);
        }
        if customer_has_active(ss2, x) {
            let i = choose|i: int|
                0 <= i < ss2.len() && (#[trigger] ss2[i]).customer_id == x && ss2[i].status
                    == SessionStatus::Active;
            assert(i != k);
            assert(ss[i] == ss2[i]);
        }
    }
}

/// With unique ids, the chosen index of a lookup is the index found.
pub proof fn lemma_customer_at(cs: Seq<Customer>, i: int)
    requires
        forall|p: int, q: int| #![trigger cs[p], cs[q]] 0 <= p < q < cs.len() ==> cs[p].id != cs[q].id,
        0 <= i < cs.len(),
    ensures
        has_customer(cs, cs[i].id),
        customer_at(cs, cs[i].id) == i,
{
    assert(has_customer(cs, cs[i].id));
    let j = customer_at(cs, cs[i].id);
    if j != i {
        assert(cs[i].id != cs[j].id);
    }
}

pub proof fn lemma_resource_at(rs: Seq<Resource>, i: int)
    requires
        forall|p: int, q: int| #![trigger rs[p], rs[q]] 0 <= p < q < rs.len() ==> rs[p].id != rs[q].id,
        0 <= i < rs.len(),
    ensures
        has_resource(rs, rs[i].id),
        resource_at(rs, rs[i].id) == i,
{
    assert(has_resource(rs, rs[i].id));
    let j = resource_at(rs, rs[i].id);
    if j != i {
        assert(rs[i].id != rs[j].id);
    }
}

pub proof fn lemma_item_at(its: Seq<InventoryItem>, i: int)
    requires
        forall|p: int, q: int|
            #![trigger its[p], its[q]]
            0 <= p < q < its.len() ==> its[p].id != its[q].id,
        0 <= i < its.len(),
    ensures
        has_item(its, its[i].id),
        item_at(its, its[i].id) == i,
{
    assert(has_item(its, its[i].id));
    let j = item_at(its, its[i].id);
    if j != i {
        assert(its[i].id != its[j].id);
    }
}

pub proof fn lemma_session_at(ss: Seq<Session>, i: int)
    requires
        forall|p: int, q: int| #![trigger ss[p], ss[q]] 0 <= p < q < ss.len() ==> ss[p].id != ss[q].id,
        0 <= i < ss.len(),
    ensures
        has_session(ss, ss[i].id),
        session_at(ss, ss[i].id) == i,
{
    assert(has_session(ss, ss[i].id));
    let j = session_at(ss, ss[i].id);
    if j != i {
        assert(ss[i].id != ss[j].id);
    }
}

pub proof fn lemma_invoice_at(is: Seq<Invoice>, i: int)
    requires
        forall|p: int, q: int| #![trigger is[p], is[q]] 0 <= p < q < is.len() ==> is[p].id != is[q].id,
        0 <= i < is.len(),
    ensures
        has_invoice(is, is[i].id),
        invoice_at(is, is[i].id) == i,
{
    assert(has_invoice(is, is[i].id));
    let j = invoice_at(is, is[i].id);
    if j != i {
        assert(is[i].id != is[j].id);
    }
}

pub proof fn lemma_line_at(ls: Seq<SessionLine>, i: int)
    requires
        forall|p: int, q: int|
            #![trigger ls[p], ls[q]]
            0 <= p < q < ls.len() ==> !(ls[p].session_id == ls[q].session_id && ls[p].item_id
                == ls[q].item_id),
        0 <= i < ls.len(),
    ensures
        has_line(ls, ls[i].session_id, ls[i].item_id),
        line_at(ls, ls[i].session_id, ls[i].item_id) == i,
{
    assert(has_line(ls, ls[i].session_id, ls[i].item_id));
    let j = line_at(ls, ls[i].session_id, ls[i].item_id);
    if j != i {
        assert(!(ls[i].session_id == ls[j].session_id && ls[i].item_id == ls[j].item_id));
    }
}

/// Extending a table keeps every lookup that already succeeded.
pub proof fn lemma_customers_grow(cs1: Seq<Customer>, cs2: Seq<Customer>)
    requires
        cs1.len() <= cs2.len(),
        forall|i: int| 0 <= i < cs1.len() ==> #[trigger] cs2[i] == cs1[i],
    ensures
        forall|x: u64| #[trigger] has_customer(cs1, x) ==> has_customer(cs2, x),
{
    assert forall|x: u64| #[trigger] has_customer(cs1, x) implies has_customer(cs2, x) by {
        let i = choose|i: int| 0 <= i < cs1.len() && (#[trigger] cs1[i]).id == x;
        assert(cs2[i].id == x);
    }
}

/// A pointwise id-preserving rewrite of a table keeps every lookup.
pub proof fn lemma_customers_same_ids(cs1: Seq<Customer>, cs2: Seq<Customer>)
    requires
        cs1.len() == cs2.len(),
        forall|i: int| 0 <= i < cs1.len() ==> (#[trigger] cs2[i]).id == cs1[i].id,
    ensures
        forall|x: u64| #[trigger] has_customer(cs2, x) == has_customer(cs1, x),
{
    assert forall|x: u64| #[trigger] has_customer(cs2, x) == has_customer(cs1, x) by {
        if has_customer(cs1, x) {
            let i = choose|i: int| 0 <= i < cs1.len() && (#[trigger] cs1[i]).id == x;
            assert(cs2[i].id == x);
        }
        if has_customer(cs2, x) {
            let i = choose|i: int| 0 <= i < cs2.len() && (#[trigger] cs2[i]).id == x;
            assert(cs1[i].id == x);
        }
    }
}

pub proof fn lemma_resources_grow(rs1: Seq<Resource>, rs2: Seq<Resource>)
    requires
        rs1.len() <= rs2.len(),
        forall|i: int| 0 <= i < rs1.len() ==> #[trigger] rs2[i] == rs1[i],
    ensures
        forall|x: u64| #[trigger] has_resource(rs1, x) ==> has_resource(rs2, x),
{
    assert forall|x: u64| #[trigger] has_resource(rs1, x) implies has_resource(rs2, x) by {
        let i = choose|i: int| 0 <= i < rs1.len() && (#[trigger] rs1[i]).id == x;
        assert(rs2[i].id == x);
    }
}

pub proof fn lemma_resources_same_ids(rs1: Seq<Resource>, rs2: Seq<Resource>)
    requires
        rs1.len() == rs2.len(),
        forall|i: int| 0 <= i < rs1.len() ==> (#[trigger] rs2[i]).id == rs1[i].id,
    ensures
        forall|x: u64| #[trigger] has_resource(rs2, x) == has_resource(rs1, x),
{
    assert forall|x: u64| #[trigger] has_resource(rs2, x) == has_resource(rs1, x) by {
        if has_resource(rs1, x) {
            let i = choose|i: int| 0 <= i < rs1.len() && (#[trigger] rs1[i]).id == x;
            assert(rs2[i].id == x);
        }
        if has_resource(rs2, x) {
            let i = choose|i: int| 0 <= i < rs2.len() && (#[trigger] rs2[i]).id == x;
            assert(rs1[i].id == x);
        }
    }
}

pub proof fn lemma_items_grow(its1: Seq<InventoryItem>, its2: Seq<InventoryItem>)
    requires
        its1.len() <= its2.len(),
        forall|i: int| 0 <= i < its1.len() ==> #[trigger] its2[i] == its1[i],
    ensures
        forall|x: u64| #[trigger] has_item(its1, x) ==> has_item(its2, x),
{
    assert forall|x: u64| #[trigger] has_item(its1, x) implies has_item(its2, x) by {
        let i = choose|i: int| 0 <= i < its1.len() && (#[trigger] its1[i]).id == x;
        assert(its2[i].id == x);
    }
}

pub proof fn lemma_items_same_ids(its1: Seq<InventoryItem>, its2: Seq<InventoryItem>)
    requires
        its1.len() == its2.len(),
        forall|i: int| 0 <= i < its1.len() ==> (#[trigger] its2[i]).id == its1[i].id,
    ensures
        forall|x: u64| #[trigger] has_item(its2, x) == has_item(its1, x),
{
    assert forall|x: u64| #[trigger] has_item(its2, x) == has_item(its1, x) by {
        if has_item(its1, x) {
            let i = choose|i: int| 0 <= i < its1.len() && (#[trigger] its1[i]).id == x;
            assert(its2[i].id == x);
        }
        if has_item(its2, x) {
            let i = choose|i: int| 0 <= i < its2.len() && (#[trigger] its2[i]).id == x;
            assert(its1[i].id == x);
        }
    }
}

pub proof fn lemma_sessions_grow(ss1: Seq<Session>, ss2: Seq<Session>)
    requires
        ss1.len() <= ss2.len(),
        forall|i: int| 0 <= i < ss1.len() ==> #[trigger] ss2[i] == ss1[i],
    ensures
        forall|x: u64| #[trigger] has_session(ss1, x) ==> has_session(ss2, x),
{
    assert forall|x: u64| #[trigger] has_session(ss1, x) implies has_session(ss2, x) by {
        let i = choose|i: int| 0 <= i < ss1.len() && (#[trigger] ss1[i]).id == x;
        assert(ss2[i].id == x);
    }
}

pub proof fn lemma_sessions_same_ids(ss1: Seq<Session>, ss2: Seq<Session>)
    requires
        ss1.len() == ss2.len(),
        forall|i: int| 0 <= i < ss1.len() ==> (#[trigger] ss2[i]).id == ss1[i].id,
    ensures
        forall|x: u64| #[trigger] has_session(ss2, x) == has_session(ss1, x),
{
    assert forall|x: u64| #[trigger] has_session(ss2, x) == has_session(ss1, x) by {
        if has_session(ss1, x) {
            let i = choose|i: int| 0 <= i < ss1.len() && (#[trigger] ss1[i]).id == x;
            assert(ss2[i].id == x);
        }
        if has_session(ss2, x) {
            let i = choose|i: int| 0 <= i < ss2.len() && (#[trigger] ss2[i]).id == x;
            assert(ss1[i].id == x);
        }
    }
}

pub proof fn lemma_invoices_grow(is1: Seq<Invoice>, is2: Seq<Invoice>)
    requires
        is1.len() <= is2.len(),
        forall|i: int| 0 <= i < is1.len() ==> #[trigger] is2[i] == is1[i],
    ensures
        forall|x: u64| #[trigger] has_invoice(is1, x) ==> has_invoice(is2, x),
{
    assert forall|x: u64| #[trigger] has_invoice(is1, x) implies has_invoice(is2, x) by {
        let i = choose|i: int| 0 <= i < is1.len() && (#[trigger] is1[i]).id == x;
        assert(is2[i].id == x);
    }
}

pub proof fn lemma_invoices_same_ids(is1: Seq<Invoice>, is2: Seq<Invoice>)
    requires
        is1.len() == is2.len(),
        forall|i: int| 0 <= i < is1.len() ==> (#[trigger] is2[i]).id == is1[i].id,
    ensures
        forall|x: u64| #[trigger] has_invoice(is2, x) == has_invoice(is1, x),
{
    assert forall|x: u64| #[trigger] has_invoice(is2, x) == has_invoice(is1, x) by {
        if has_invoice(is1, x) {
            let i = choose|i: int| 0 <= i < is1.len() && (#[trigger] is1[i]).id == x;
            assert(is2[i].id == x);
        }
        if has_invoice(is2, x) {
            let i = choose|i: int| 0 <= i < is2.len() && (#[trigger] is2[i]).id == x;
            assert(is1[i].id == x);
        }
    }
}

impl StoreView {
    /// Well-formedness of the whole store: ids drawn from the counter and
    /// unique, referential integrity, non-negative stock and money columns,
    /// accumulators equal to their sums, invoice status equal to the pure
    /// derivation, one active session per customer and per resource, and
    /// resource availability mirroring occupancy.
    pub open spec fn wf(self) -> bool {
        &&& wf_customers(self.customers, self.next_id)
        &&& wf_resources(self.resources, self.sessions, self.next_id)
        &&& wf_items(self.items, self.next_id)
        &&& wf_plans(self.plans, self.customers, self.next_id)
        &&& wf_sessions(self.sessions, self.customers, self.resources, self.lines, self.next_id)
        &&& wf_lines(self.lines, self.sessions, self.items)
        &&& wf_invoices(self.invoices, self.customers, self.sessions, self.next_id)
        &&& wf_invoice_items(self.invoice_items, self.invoices, self.next_id)
        &&& wf_payments(self.payments, self.invoices, self.customers)
    }
}

} // verus!

