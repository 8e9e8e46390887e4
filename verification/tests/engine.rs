use backspace::store::Store;
use backspace::error::ErrorKind;
use backspace::model::{InvoiceItemKind, InvoiceStatus, SessionStatus};

fn kind_of(r: Result<u64, backspace::error::AppError>) -> ErrorKind {
    r.err().unwrap().class()
}

// Resource rate 50.00/hr, session runs exactly 90 minutes, no subscription,
// no items: cost 75.00, invoice total 75.00, balance +75.00.
#[test]
fn ninety_minutes_at_fifty_per_hour() {
    let mut store = Store::new();
    let c = store.add_customer().unwrap();
    let r = store.add_resource(5000).unwrap();
    let sid = store.start_session(c, r, 1_000, 10).unwrap();
    assert!(!store.get_resource(r).unwrap().is_available);
    let inv_id = store.end_session(sid, 1_090, 10).unwrap();
    let inv = store.get_invoice(inv_id).unwrap();
    assert_eq!(inv.total, 7500);
    assert_eq!(inv.paid, 0);
    assert_eq!(inv.status, InvoiceStatus::Unpaid);
    assert_eq!(inv.number, 1);
    assert_eq!(inv.session_id, Some(sid));
    assert_eq!(store.get_customer(c).unwrap().balance, 7500);
    assert!(store.get_resource(r).unwrap().is_available);
    let session = store.get_session(sid).unwrap();
    assert_eq!(session.status, SessionStatus::Completed);
    assert_eq!(session.ended_at, Some(1_090));
    let items = store.invoice_items_of(inv_id);
    assert_eq!(items.len(), 1);
    assert_eq!(items[0].quantity, 1);
    assert_eq!(items[0].rate, 7500);
    assert_eq!(items[0].amount, 7500);
    assert!(matches!(items[0].kind, InvoiceItemKind::SessionTime { minutes: 90, .. }));
}

// Active subscription covering today, same 90-minute session, two units of a
// 10.00 item: cost 0, invoice total 20.00, only the inventory line appears.
#[test]
fn subscribed_session_bills_only_inventory() {
    let mut store = Store::new();
    let c = store.add_customer().unwrap();
    let r = store.add_resource(5000).unwrap();
    let item = store.add_inventory_item(10, 1000).unwrap();
    store.add_subscription(c, 5, Some(15), true).unwrap();
    let sid = store.start_session(c, r, 1_000, 10).unwrap();
    store.add_session_inventory(sid, item, 2).unwrap();
    assert_eq!(store.get_item(item).unwrap().quantity, 8);
    assert_eq!(store.get_session(sid).unwrap().inventory_total, 2000);
    let inv_id = store.end_session(sid, 1_090, 10).unwrap();
    let inv = store.get_invoice(inv_id).unwrap();
    assert_eq!(inv.total, 2000);
    assert_eq!(store.get_customer(c).unwrap().balance, 2000);
    let items = store.invoice_items_of(inv_id);
    assert_eq!(items.len(), 1);
    assert!(matches!(items[0].kind, InvoiceItemKind::StockItem { item_id } if item_id == item));
    assert_eq!(items[0].quantity, 2);
    assert_eq!(items[0].rate, 1000);
    assert_eq!(items[0].amount, 2000);
}

// A subscription that expired before today does not exempt the session.
#[test]
fn expired_subscription_charges() {
    let mut store = Store::new();
    let c = store.add_customer().unwrap();
    let r = store.add_resource(6000).unwrap();
    store.add_subscription(c, 1, Some(5), true).unwrap();
    let sid = store.start_session(c, r, 0, 10).unwrap();
    let inv_id = store.end_session(sid, 60, 10).unwrap();
    assert_eq!(store.get_invoice(inv_id).unwrap().total, 6000);
}

// Invoice total 100, payment of 40 then payment of 60: status moves
// unpaid -> partially_paid -> paid; paid date set only by the second payment.
#[test]
fn two_payments_drive_status() {
    let mut store = Store::new();
    let c = store.add_customer().unwrap();
    let r = store.add_resource(10_000).unwrap();
    let sid = store.start_session(c, r, 0, 10).unwrap();
    let inv_id = store.end_session(sid, 60, 10).unwrap();
    assert_eq!(store.get_invoice(inv_id).unwrap().total, 10_000);
    assert_eq!(store.get_invoice(inv_id).unwrap().status, InvoiceStatus::Unpaid);

    store.apply_payment(inv_id, 4_000, 11).unwrap();
    let after_first = store.get_invoice(inv_id).unwrap();
    assert_eq!(after_first.paid, 4_000);
    assert_eq!(after_first.status, InvoiceStatus::PartiallyPaid);
    assert_eq!(after_first.paid_day, None);
    assert_eq!(store.get_customer(c).unwrap().balance, 6_000);

    store.apply_payment(inv_id, 6_000, 12).unwrap();
    let after_second = store.get_invoice(inv_id).unwrap();
    assert_eq!(after_second.paid, 10_000);
    assert_eq!(after_second.status, InvoiceStatus::Paid);
    assert_eq!(after_second.paid_day, Some(12));
    assert_eq!(store.get_customer(c).unwrap().balance, 0);
    assert_eq!(store.get_customer(c).unwrap().total_spent, 10_000);
}

// Bulk payment of 50 against two invoices each with outstanding 40: the
// first is fully paid (40), the second receives the remaining 10.
#[test]
fn bulk_payment_allocates_in_order() {
    let mut store = Store::new();
    let c = store.add_customer().unwrap();
    let r = store.add_resource(4_000).unwrap();
    let s1 = store.start_session(c, r, 0, 10).unwrap();
    let inv1 = store.end_session(s1, 60, 10).unwrap();
    let s2 = store.start_session(c, r, 100, 10).unwrap();
    let inv2 = store.end_session(s2, 160, 10).unwrap();
    assert_eq!(store.get_invoice(inv1).unwrap().total, 4_000);
    assert_eq!(store.get_invoice(inv2).unwrap().total, 4_000);

    store.apply_bulk_payment(&vec![inv1, inv2], 5_000, 11).unwrap();
    let one = store.get_invoice(inv1).unwrap();
    let two = store.get_invoice(inv2).unwrap();
    assert_eq!(one.paid, 4_000);
    assert_eq!(one.status, InvoiceStatus::Paid);
    assert_eq!(one.paid_day, Some(11));
    assert_eq!(two.paid, 1_000);
    assert_eq!(two.status, InvoiceStatus::PartiallyPaid);
    assert_eq!(two.paid_day, None);
    assert_eq!(store.get_customer(c).unwrap().balance, 3_000);
    assert_eq!(store.get_customer(c).unwrap().total_spent, 5_000);
}

// Skipped invoices consume nothing: a cancelled and an already-paid invoice
// pass the allocation on.
#[test]
fn bulk_payment_skips_cancelled_and_paid() {
    let mut store = Store::new();
    let c = store.add_customer().unwrap();
    let r = store.add_resource(3_000).unwrap();
    let s1 = store.start_session(c, r, 0, 10).unwrap();
    let inv1 = store.end_session(s1, 60, 10).unwrap();
    let s2 = store.start_session(c, r, 100, 10).unwrap();
    let inv2 = store.end_session(s2, 160, 10).unwrap();
    store.cancel_invoice(inv1).unwrap();
    store.apply_bulk_payment(&vec![inv1, inv2], 2_000, 11).unwrap();
    assert_eq!(store.get_invoice(inv1).unwrap().paid, 0);
    assert_eq!(store.get_invoice(inv1).unwrap().status, InvoiceStatus::Cancelled);
    assert_eq!(store.get_invoice(inv2).unwrap().paid, 2_000);
}

// A missing invoice anywhere in the list aborts the whole batch untouched.
#[test]
fn bulk_payment_aborts_on_missing_invoice() {
    let mut store = Store::new();
    let c = store.add_customer().unwrap();
    let r = store.add_resource(3_000).unwrap();
    let s1 = store.start_session(c, r, 0, 10).unwrap();
    let inv1 = store.end_session(s1, 60, 10).unwrap();
    let err = store.apply_bulk_payment(&vec![inv1, 9_999], 5_000, 11).err().unwrap();
    assert_eq!(err.class(), ErrorKind::NotFound);
    assert_eq!(store.get_invoice(inv1).unwrap().paid, 0);
    assert_eq!(store.get_customer(c).unwrap().balance, 3_000);
}

// Overpayment is accepted and leaves the invoice paid beyond its total.
#[test]
fn overpayment_allowed() {
    let mut store = Store::new();
    let c = store.add_customer().unwrap();
    let r = store.add_resource(1_000).unwrap();
    let sid = store.start_session(c, r, 0, 10).unwrap();
    let inv_id = store.end_session(sid, 60, 10).unwrap();
    store.apply_payment(inv_id, 2_500, 11).unwrap();
    let inv = store.get_invoice(inv_id).unwrap();
    assert_eq!(inv.paid, 2_500);
    assert_eq!(inv.status, InvoiceStatus::Paid);
    assert_eq!(store.get_customer(c).unwrap().balance, -1_500);
}

// Payments against a cancelled invoice fail fast.
#[test]
fn cancelled_invoice_rejects_payment() {
    let mut store = Store::new();
    let c = store.add_customer().unwrap();
    let r = store.add_resource(1_000).unwrap();
    let sid = store.start_session(c, r, 0, 10).unwrap();
    let inv_id = store.end_session(sid, 60, 10).unwrap();
    store.cancel_invoice(inv_id).unwrap();
    let err = store.apply_payment(inv_id, 100, 11).err().unwrap();
    assert_eq!(err.class(), ErrorKind::Conflict);
    assert_eq!(store.get_invoice(inv_id).unwrap().paid, 0);
}

#[test]
fn negative_payment_rejected() {
    let mut store = Store::new();
    let c = store.add_customer().unwrap();
    let r = store.add_resource(1_000).unwrap();
    let sid = store.start_session(c, r, 0, 10).unwrap();
    let inv_id = store.end_session(sid, 60, 10).unwrap();
    let err = store.apply_payment(inv_id, -5, 11).err().unwrap();
    assert_eq!(err.class(), ErrorKind::Validation);
}

#[test]
fn missing_invoice_not_found() {
    let mut store = Store::new();
    let err = store.apply_payment(42, 100, 11).err().unwrap();
    assert_eq!(err.class(), ErrorKind::NotFound);
}

// A second start for the same customer while one session is active conflicts.
#[test]
fn second_start_same_customer_conflicts() {
    let mut store = Store::new();
    let c = store.add_customer().unwrap();
    let r1 = store.add_resource(1_000).unwrap();
    let r2 = store.add_resource(1_000).unwrap();
    store.start_session(c, r1, 0, 10).unwrap();
    let err = kind_of(store.start_session(c, r2, 5, 10));
    assert_eq!(err, ErrorKind::Conflict);
}

// A busy resource cannot be double-booked.
#[test]
fn busy_resource_conflicts() {
    let mut store = Store::new();
    let c1 = store.add_customer().unwrap();
    let c2 = store.add_customer().unwrap();
    let r = store.add_resource(1_000).unwrap();
    store.start_session(c1, r, 0, 10).unwrap();
    let err = kind_of(store.start_session(c2, r, 5, 10));
    assert_eq!(err, ErrorKind::Conflict);
}

// After the session ends, the resource and the customer are free again.
#[test]
fn end_frees_resource_and_customer() {
    let mut store = Store::new();
    let c = store.add_customer().unwrap();
    let r = store.add_resource(1_000).unwrap();
    let sid = store.start_session(c, r, 0, 10).unwrap();
    store.end_session(sid, 30, 10).unwrap();
    assert!(store.start_session(c, r, 40, 10).is_ok());
}

// A second end fails with a conflict and produces no additional invoice or
// balance change.
#[test]
fn second_end_conflicts_without_effect() {
    let mut store = Store::new();
    let c = store.add_customer().unwrap();
    let r = store.add_resource(2_000).unwrap();
    let sid = store.start_session(c, r, 0, 10).unwrap();
    store.end_session(sid, 60, 10).unwrap();
    let invoices_before = store.invoices.len();
    let balance_before = store.get_customer(c).unwrap().balance;
    let err = kind_of(store.end_session(sid, 120, 10));
    assert_eq!(err, ErrorKind::Conflict);
    assert_eq!(store.invoices.len(), invoices_before);
    assert_eq!(store.get_customer(c).unwrap().balance, balance_before);
}

#[test]
fn missing_session_and_resource_not_found() {
    let mut store = Store::new();
    let c = store.add_customer().unwrap();
    assert_eq!(kind_of(store.start_session(c, 777, 0, 10)), ErrorKind::NotFound);
    assert_eq!(kind_of(store.end_session(777, 0, 10)), ErrorKind::NotFound);
    let r = store.add_resource(100).unwrap();
    assert_eq!(kind_of(store.start_session(888, r, 0, 10)), ErrorKind::NotFound);
}

// Attaching checks stock; detaching returns it exactly.
#[test]
fn attach_detach_round_trip() {
    let mut store = Store::new();
    let c = store.add_customer().unwrap();
    let r = store.add_resource(1_000).unwrap();
    let item = store.add_inventory_item(5, 250).unwrap();
    let sid = store.start_session(c, r, 0, 10).unwrap();

    let err = store.add_session_inventory(sid, item, 6).err().unwrap();
    assert_eq!(err.class(), ErrorKind::Conflict);
    assert_eq!(store.get_item(item).unwrap().quantity, 5);

    store.add_session_inventory(sid, item, 3).unwrap();
    assert_eq!(store.get_item(item).unwrap().quantity, 2);
    assert_eq!(store.get_session(sid).unwrap().inventory_total, 750);

    store.remove_session_inventory(sid, item).unwrap();
    assert_eq!(store.get_item(item).unwrap().quantity, 5);
    assert_eq!(store.get_session(sid).unwrap().inventory_total, 0);
}

// Repeated attachments of one item coalesce into a single line.
#[test]
fn attach_coalesces_lines() {
    let mut store = Store::new();
    let c = store.add_customer().unwrap();
    let r = store.add_resource(1_000).unwrap();
    let item = store.add_inventory_item(10, 100).unwrap();
    let sid = store.start_session(c, r, 0, 10).unwrap();
    store.add_session_inventory(sid, item, 2).unwrap();
    store.add_session_inventory(sid, item, 3).unwrap();
    assert_eq!(store.lines.len(), 1);
    assert_eq!(store.lines[0].quantity, 5);
    assert_eq!(store.get_item(item).unwrap().quantity, 5);
    assert_eq!(store.get_session(sid).unwrap().inventory_total, 500);
    // One detach removes the coalesced line and restores the stock exactly.
    store.remove_session_inventory(sid, item).unwrap();
    assert_eq!(store.get_item(item).unwrap().quantity, 10);
    assert_eq!(store.get_session(sid).unwrap().inventory_total, 0);
    assert_eq!(store.lines.len(), 0);
}

// Setting a line's quantity adjusts stock by the inverse of the change and
// keeps the price snapshot.
#[test]
fn update_session_inventory_sets_quantity() {
    let mut store = Store::new();
    let c = store.add_customer().unwrap();
    let r = store.add_resource(1_000).unwrap();
    let item = store.add_inventory_item(10, 100).unwrap();
    let sid = store.start_session(c, r, 0, 10).unwrap();
    store.add_session_inventory(sid, item, 4).unwrap();

    store.update_session_inventory(sid, item, 1).unwrap();
    assert_eq!(store.get_item(item).unwrap().quantity, 9);
    assert_eq!(store.get_session(sid).unwrap().inventory_total, 100);

    let err = store.update_session_inventory(sid, item, 99).err().unwrap();
    assert_eq!(err.class(), ErrorKind::Conflict);

    let err = store.update_session_inventory(sid, 777, 1).err().unwrap();
    assert_eq!(err.class(), ErrorKind::NotFound);
}

// The price snapshotted on a line shields history from later price changes.
#[test]
fn price_snapshot_shields_history() {
    let mut store = Store::new();
    let c = store.add_customer().unwrap();
    let r = store.add_resource(0).unwrap();
    let item = store.add_inventory_item(10, 100).unwrap();
    let sid = store.start_session(c, r, 0, 10).unwrap();
    store.add_session_inventory(sid, item, 2).unwrap();
    // A later price change does not touch the line.
    let idx = store.find_item(item).unwrap();
    store.items[idx].price = 99_999;
    let inv_id = store.end_session(sid, 0, 10).unwrap();
    assert_eq!(store.get_invoice(inv_id).unwrap().total, 200);
}

// Attaching against a completed session is rejected; detach still works.
#[test]
fn attach_completed_session_conflicts() {
    let mut store = Store::new();
    let c = store.add_customer().unwrap();
    let r = store.add_resource(1_000).unwrap();
    let item = store.add_inventory_item(10, 100).unwrap();
    let sid = store.start_session(c, r, 0, 10).unwrap();
    store.add_session_inventory(sid, item, 2).unwrap();
    store.end_session(sid, 60, 10).unwrap();
    let err = store.add_session_inventory(sid, item, 1).err().unwrap();
    assert_eq!(err.class(), ErrorKind::Conflict);
    store.remove_session_inventory(sid, item).unwrap();
    assert_eq!(store.get_item(item).unwrap().quantity, 10);
}

// A zero-total invoice (fully covered, no purchases) is a valid degenerate
// invoice with no items, already paid by derivation.
#[test]
fn zero_total_invoice_has_no_items() {
    let mut store = Store::new();
    let c = store.add_customer().unwrap();
    let r = store.add_resource(5_000).unwrap();
    store.add_subscription(c, 5, Some(15), true).unwrap();
    let sid = store.start_session(c, r, 0, 10).unwrap();
    let inv_id = store.end_session(sid, 90, 10).unwrap();
    let inv = store.get_invoice(inv_id).unwrap();
    assert_eq!(inv.total, 0);
    assert_eq!(inv.status, InvoiceStatus::Paid);
    assert_eq!(store.invoice_items_of(inv_id).len(), 0);
}

// Proration truncates to whole cents.
#[test]
fn proration_truncates() {
    let mut store = Store::new();
    let c = store.add_customer().unwrap();
    let r = store.add_resource(5_000).unwrap();
    let sid = store.start_session(c, r, 0, 10).unwrap();
    // 100 minutes at 50.00/hr = 8333.33.. cents, truncated.
    let inv_id = store.end_session(sid, 100, 10).unwrap();
    assert_eq!(store.get_invoice(inv_id).unwrap().total, 8333);
}

// Ending before the start is rejected.
#[test]
fn end_before_start_rejected() {
    let mut store = Store::new();
    let c = store.add_customer().unwrap();
    let r = store.add_resource(5_000).unwrap();
    let sid = store.start_session(c, r, 100, 10).unwrap();
    assert_eq!(kind_of(store.end_session(sid, 99, 10)), ErrorKind::Validation);
}

// Invoice numbers are the position in the ledger, starting at one.
#[test]
fn invoice_numbers_sequential() {
    let mut store = Store::new();
    let c = store.add_customer().unwrap();
    let r = store.add_resource(1_000).unwrap();
    let s1 = store.start_session(c, r, 0, 10).unwrap();
    let i1 = store.end_session(s1, 60, 10).unwrap();
    let s2 = store.start_session(c, r, 100, 10).unwrap();
    let i2 = store.end_session(s2, 160, 10).unwrap();
    assert_eq!(store.get_invoice(i1).unwrap().number, 1);
    assert_eq!(store.get_invoice(i2).unwrap().number, 2);
}

// The subscription snapshot is taken at start, not re-read at end.
#[test]
fn subscription_snapshot_is_fixed_at_start() {
    let mut store = Store::new();
    let c = store.add_customer().unwrap();
    let r = store.add_resource(6_000).unwrap();
    let plan = store.add_subscription(c, 5, Some(15), true).unwrap();
    let sid = store.start_session(c, r, 0, 10).unwrap();
    // Deactivate the plan mid-session; the snapshot still exempts the session.
    let pidx = store.plans.iter().position(|p| p.id == plan).unwrap();
    store.plans[pidx].is_active = false;
    let inv_id = store.end_session(sid, 60, 10).unwrap();
    assert_eq!(store.get_invoice(inv_id).unwrap().total, 0);
}
