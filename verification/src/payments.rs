//! The invoice & payment ledger: applying a payment to one invoice, greedy
//! allocation of one amount across an ordered list of invoices, and
//! cancelling an invoice. Every update re-derives the invoice status as the
//! pure function of (paid, total, cancelled), records an audit row, and moves
//! the customer's balance and lifetime spend together, atomically.

use vstd::prelude::*;
use vstd::pervasive::VecAdditionalExecFns;
use vstd::pervasive::unreached;
use vstd::string::StringExecFns;

use crate::error::{AppError, ErrorKind, ValidationError};
use crate::store::Store;
use crate::model::{
    Customer, Invoice, InvoiceStatus, PaymentRecord, StoreView, has_customer, has_invoice,
    customer_at, invoice_at, status_of, lemma_customer_at, lemma_invoice_at,
    lemma_customers_same_ids, lemma_invoices_same_ids,
};

verus! {

/// What `apply_payment` does: after the checks, the invoice's paid amount
/// grows by `amount`, its status is re-derived, its paid date is stamped
/// `today` exactly on the transition into paid, an audit record is appended,
/// and the customer's balance drops while the lifetime spend grows by the
/// same amount. Overpayment is accepted and leaves the status at paid.
pub open spec fn spec_apply_payment(
    v: StoreView,
    invoice_id: u64,
    amount: i64,
    today: u64,
) -> Result<StoreView, ErrorKind> {
    if amount < 0 {
        Err(ErrorKind::Validation)
    } else if !has_invoice(v.invoices, invoice_id) {
        Err(ErrorKind::NotFound)
    } else {
        let iidx = invoice_at(v.invoices, invoice_id);
        let inv = v.invoices[iidx];
        if inv.cancelled {
            Err(ErrorKind::Conflict)
        } else if inv.paid + amount > i64::MAX {
            Err(ErrorKind::Validation)
        } else {
            let cidx = customer_at(v.customers, inv.customer_id);
            let c = v.customers[cidx];
            if c.balance - amount < i64::MIN {
                Err(ErrorKind::Validation)
            } else if c.total_spent + amount > i64::MAX {
                Err(ErrorKind::Validation)
            } else {
                let new_paid: int = inv.paid + amount;
                let new_status = status_of(new_paid, inv.total as int, false);
                let paid_day = if inv.status != InvoiceStatus::Paid && new_status
                    == InvoiceStatus::Paid {
                    Some(today)
                } else {
                    inv.paid_day
                };
                Ok(
                    StoreView {
                        invoices: v.invoices.update(
                            iidx,
                            Invoice {
                                paid: new_paid as i64,
                                status: new_status,
                                paid_day,
                                ..inv
                            },
                        ),
                        customers: v.customers.update(
                            cidx,
                            Customer {
                                balance: (c.balance - amount) as i64,
                                total_spent: (c.total_spent + amount) as i64,
                                ..c
                            },
                        ),
                        payments: v.payments.push(
                            PaymentRecord {
                                invoice_id,
                                customer_id: inv.customer_id,
                                amount,
                                day: today,
                            },
                        ),
                        ..v
                    },
                )
            }
        }
    }
}

/// What `cancel_invoice` does: the cancelled flag becomes set and the status
/// becomes cancelled; both are sticky. Paid amounts and the customer are
/// left untouched.
pub open spec fn spec_cancel_invoice(v: StoreView, invoice_id: u64) -> Result<
    StoreView,
    ErrorKind,
> {
    if !has_invoice(v.invoices, invoice_id) {
        Err(ErrorKind::NotFound)
    } else {
        let iidx = invoice_at(v.invoices, invoice_id);
        let inv = v.invoices[iidx];
        Ok(
            StoreView {
                invoices: v.invoices.update(
                    iidx,
                    Invoice { cancelled: true, status: InvoiceStatus::Cancelled, ..inv },
                ),
                ..v
            },
        )
    }
}

/// One greedy sweep of a bulk payment: walk the invoice ids in order; a
/// missing invoice aborts the whole batch; a cancelled or fully paid invoice
/// is skipped and consumes nothing; every other invoice receives the lesser
/// of the remaining amount and its outstanding balance, with the same
/// per-invoice updates as a single payment; the walk stops once the
/// remaining amount reaches zero or the list is exhausted.
pub open spec fn spec_bulk_step(
    v: StoreView,
    ids: Seq<u64>,
    remaining: int,
    today: u64,
) -> Result<(StoreView, int), ErrorKind>
    decreases ids.len(),
{
    if ids.len() == 0 || remaining == 0 {
        Ok((v, remaining))
    } else if !has_invoice(v.invoices, ids[0]) {
        Err(ErrorKind::NotFound)
    } else {
        let iidx = invoice_at(v.invoices, ids[0]);
        let inv = v.invoices[iidx];
        if inv.cancelled || inv.paid >= inv.total {
            spec_bulk_step(v, ids.drop_first(), remaining, today)
        } else {
            let outstanding: int = inv.total - inv.paid;
            let pay: int = if remaining < outstanding {
                remaining
            } else {
                outstanding
            };
            let cidx = customer_at(v.customers, inv.customer_id);
            let c = v.customers[cidx];
            if c.balance - pay < i64::MIN {
                Err(ErrorKind::Validation)
            } else if c.total_spent + pay > i64::MAX {
                Err(ErrorKind::Validation)
            } else {
                let new_paid: int = inv.paid + pay;
                let new_status = status_of(new_paid, inv.total as int, false);
                let paid_day = if inv.status != InvoiceStatus::Paid && new_status
                    == InvoiceStatus::Paid {
                    Some(today)
                } else {
                    inv.paid_day
                };
                let v2 = StoreView {
                    invoices: v.invoices.update(
                        iidx,
                        Invoice { paid: new_paid as i64, status: new_status, paid_day, ..inv },
                    ),
                    customers: v.customers.update(
                        cidx,
                        Customer {
                            balance: (c.balance - pay) as i64,
                            total_spent: (c.total_spent + pay) as i64,
                            ..c
                        },
                    ),
                    payments: v.payments.push(
                        PaymentRecord {
                            invoice_id: ids[0],
                            customer_id: inv.customer_id,
                            amount: pay as i64,
                            day: today,
                        },
                    ),
                    ..v
                };
                spec_bulk_step(v2, ids.drop_first(), remaining - pay, today)
            }
        }
    }
}

/// What `apply_bulk_payment` does: a negative amount is rejected, then one
/// greedy sweep per [`spec_bulk_step`], the whole batch as one atomic step.
pub open spec fn spec_apply_bulk_payment(
    v: StoreView,
    ids: Seq<u64>,
    amount: i64,
    today: u64,
) -> Result<StoreView, ErrorKind> {
    if amount < 0 {
        Err(ErrorKind::Validation)
    } else {
        match spec_bulk_step(v, ids, amount as int, today) {
            Ok((v2, _)) => Ok(v2),
            Err(e) => Err(e),
        }
    }
}

/// A copy of a table of invoices.
fn dup_invoices(v: &Vec<Invoice>) -> (out: Vec<Invoice>)
    ensures
        out@ == v@,
{
    let mut out: Vec<Invoice> = Vec::new();
    let mut i: usize = 0;
    while i < v.len()
        invariant
            i <= v.len(),
            out@ =~= v@.take(i as int),
        decreases v.len() - i,
    {
        out.push(v[i]);
        i = i + 1;
    }
    proof {
        assert(v@.take(v@.len() as int) =~= v@);
    }
    out
}

/// A copy of a table of customers.
fn dup_customers(v: &Vec<Customer>) -> (out: Vec<Customer>)
    ensures
        out@ == v@,
{
    let mut out: Vec<Customer> = Vec::new();
    let mut i: usize = 0;
    while i < v.len()
        invariant
            i <= v.len(),
            out@ =~= v@.take(i as int),
        decreases v.len() - i,
    {
        out.push(v[i]);
        i = i + 1;
    }
    proof {
        assert(v@.take(v@.len() as int) =~= v@);
    }
    out
}

/// A copy of the audit table.
fn dup_payments(v: &Vec<PaymentRecord>) -> (out: Vec<PaymentRecord>)
    ensures
        out@ == v@,
{
    let mut out: Vec<PaymentRecord> = Vec::new();
    let mut i: usize = 0;
    while i < v.len()
        invariant
            i <= v.len(),
            out@ =~= v@.take(i as int),
        decreases v.len() - i,
    {
        out.push(v[i]);
        i = i + 1;
    }
    proof {
        assert(v@.take(v@.len() as int) =~= v@);
    }
    out
}

/// Index of the invoice with the given id in a working copy of the table.
fn find_invoice_in(invs: &Vec<Invoice>, id: u64) -> (r: Option<usize>)
    ensures
        match r {
            Some(i) => i < invs@.len() && invs@[i as int].id == id,
            None => !has_invoice(invs@, id),
        },
{
    let mut i: usize = 0;
    while i < invs.len()
        invariant
            i <= invs.len(),
            forall|j: int| 0 <= j < i ==> (#[trigger] invs@[j]).id != id,
        decreases invs.len() - i,
    {
        if invs[i].id == id {
            return Some(i);
        }
        i = i + 1;
    }
    None
}

/// Index of the customer with the given id in a working copy of the table.
fn find_customer_in(custs: &Vec<Customer>, id: u64) -> (r: Option<usize>)
    ensures
        match r {
            Some(i) => i < custs@.len() && custs@[i as int].id == id,
            None => !has_customer(custs@, id),
        },
{
    let mut i: usize = 0;
    while i < custs.len()
        invariant
            i <= custs.len(),
            forall|j: int| 0 <= j < i ==> (#[trigger] custs@[j]).id != id,
        decreases custs.len() - i,
    {
        if custs[i].id == id {
            return Some(i);
        }
        i = i + 1;
    }
    None
}

impl Store {
    /// Apply a payment of `amount` cents to invoice `invoice_id` on day
    /// `today`. Fails `NotFound` when the invoice is absent and `Conflict`
    /// when it is cancelled; overpayment is accepted. On success the paid
    /// amount, status and paid date move as §spec_apply_payment says, an
    /// audit record is appended, and the customer's balance and lifetime
    /// spend move by the amount. On any failure nothing changes.
    pub fn apply_payment(&mut self, invoice_id: u64, amount: i64, today: u64) -> (r: Result<
        (),
        AppError,
    >)
        requires
            old(self).wf(),
        ensures
            final(self).wf(),
            match r {
                Ok(_) => spec_apply_payment(old(self)@, invoice_id, amount, today) == Ok::<
                    StoreView,
                    ErrorKind,
                >(final(self)@),
                Err(e) => {
                    &&& final(self)@ == old(self)@
                    &&& spec_apply_payment(old(self)@, invoice_id, amount, today) == Err::<
                        StoreView,
                        ErrorKind,
                    >(e.kind())
                },
            },
    {
        if amount < 0 {
            return Err(
                AppError::Validation(
                    ValidationError::new(
                        "amount",
                        "Payment amount cannot be negative",
                        "لا يمكن أن يكون مبلغ الدفع سالباً",
                    ),
                ),
            );
        }
        let iidx = match self.find_invoice(invoice_id) {
            Some(i) => i,
            None => {
                return Err(AppError::NotFound(String::from_str("Invoice not found")));
            },
        };
        proof {
            lemma_invoice_at(self@.invoices, iidx as int);
        }
        let inv = self.invoices[iidx];
        if inv.cancelled {
            return Err(AppError::Conflict(String::from_str("Invoice is cancelled")));
        }
        let paid_wide: i128 = inv.paid as i128 + amount as i128;
        if paid_wide > i64::MAX as i128 {
            return Err(
                AppError::Validation(
                    ValidationError::new(
                        "amount",
                        "Paid amount exceeds the representable range",
                        "المبلغ المدفوع يتجاوز النطاق الممكن تمثيله",
                    ),
                ),
            );
        }
        let cidx = match self.find_customer(inv.customer_id) {
            Some(i) => i,
            None => {
                proof {
                    assert(has_customer(self@.customers, inv.customer_id));
                }
                unreached()
            },
        };
        proof {
            lemma_customer_at(self@.customers, cidx as int);
        }
        let c = self.customers[cidx];
        let bal_wide: i128 = c.balance as i128 - amount as i128;
        if bal_wide < i64::MIN as i128 {
            return Err(
                AppError::Validation(
                    ValidationError::new(
                        "balance",
                        "Customer balance exceeds the representable range",
                        "رصيد العميل يتجاوز النطاق الممكن تمثيله",
                    ),
                ),
            );
        }
        let spent_wide: i128 = c.total_spent as i128 + amount as i128;
        if spent_wide > i64::MAX as i128 {
            return Err(
                AppError::Validation(
                    ValidationError::new(
                        "totalSpent",
                        "Total spent exceeds the representable range",
                        "إجمالي الإنفاق يتجاوز النطاق الممكن تمثيله",
                    ),
                ),
            );
        }
        let new_paid: i64 = paid_wide as i64;
        let new_status = if new_paid >= inv.total {
            InvoiceStatus::Paid
        } else if new_paid > 0 {
            InvoiceStatus::PartiallyPaid
        } else {
            InvoiceStatus::Unpaid
        };
        let was_paid = matches!(inv.status, InvoiceStatus::Paid);
        let paid_day = if !was_paid && matches!(new_status, InvoiceStatus::Paid) {
            Some(today)
        } else {
            inv.paid_day
        };
        self.invoices.set(iidx, Invoice { paid: new_paid, status: new_status, paid_day, ..inv });
        self.customers.set(
            cidx,
            Customer { balance: bal_wide as i64, total_spent: spent_wide as i64, ..c },
        );
        self.payments.push(
            PaymentRecord { invoice_id, customer_id: inv.customer_id, amount, day: today },
        );
        proof {
            let v = old(self)@;
            let v2 = self@;
            lemma_invoices_same_ids(v.invoices, v2.invoices);
            lemma_customers_same_ids(v.customers, v2.customers);
            assert(v2.wf());
            let specr = spec_apply_payment(v, invoice_id, amount, today);
            assert(specr == Ok::<StoreView, ErrorKind>(v2)) by {
                assert(v2 =~= specr->Ok_0);
            }
        }
        Ok(())
    }

    /// Apply one payment of `amount` cents across `invoice_ids` in the given
    /// order on day `today`: each non-cancelled, non-fully-paid invoice
    /// receives the lesser of the remaining amount and its outstanding
    /// balance, with the same updates as a single payment; skipped invoices
    /// consume nothing; the sweep stops when the amount is exhausted. The
    /// whole batch is atomic: a missing invoice or a range failure anywhere
    /// leaves every invoice and balance unchanged.
    pub fn apply_bulk_payment(&mut self, invoice_ids: &Vec<u64>, amount: i64, today: u64) -> (r:
        Result<(), AppError>)
        requires
            old(self).wf(),
        ensures
            final(self).wf(),
            match r {
                Ok(_) => spec_apply_bulk_payment(old(self)@, invoice_ids@, amount, today) == Ok::<
                    StoreView,
                    ErrorKind,
                >(final(self)@),
                Err(e) => {
                    &&& final(self)@ == old(self)@
                    &&& spec_apply_bulk_payment(old(self)@, invoice_ids@, amount, today) == Err::<
                        StoreView,
                        ErrorKind,
                    >(e.kind())
                },
            },
    {
        if amount < 0 {
            return Err(
                AppError::Validation(
                    ValidationError::new(
                        "amount",
                        "Payment amount cannot be negative",
                        "لا يمكن أن يكون مبلغ الدفع سالباً",
                    ),
                ),
            );
        }
        let mut invs = dup_invoices(&self.invoices);
        let mut custs = dup_customers(&self.customers);
        let mut pays = dup_payments(&self.payments);
        let mut remaining: i64 = amount;
        let mut k: usize = 0;
        proof {
            assert(invoice_ids@.skip(0) =~= invoice_ids@);
            assert(StoreView {
                invoices: invs@,
                customers: custs@,
                payments: pays@,
                ..old(self)@
            } =~= old(self)@);
        }
        while k < invoice_ids.len() && remaining != 0
            invariant
                old(self).wf(),
                amount >= 0,
                k <= invoice_ids@.len(),
                0 <= remaining <= amount,
                (StoreView {
                    invoices: invs@,
                    customers: custs@,
                    payments: pays@,
                    ..old(self)@
                }).wf(),
                spec_bulk_step(old(self)@, invoice_ids@, amount as int, today) == spec_bulk_step(
                    StoreView { invoices: invs@, customers: custs@, payments: pays@, ..old(self)@ },
                    invoice_ids@.skip(k as int),
                    remaining as int,
                    today,
                ),
            decreases invoice_ids.len() - k,
        {
            let ghost cv = StoreView {
                invoices: invs@,
                customers: custs@,
                payments: pays@,
                ..old(self)@
            };
            let iid = invoice_ids[k];
            proof {
                assert(invoice_ids@.skip(k as int)[0] == iid);
                assert(invoice_ids@.skip(k as int).drop_first() =~= invoice_ids@.skip(
                    k as int + 1,
                ));
            }
            let ii = match find_invoice_in(&invs, iid) {
                Some(i) => i,
                None => {
                    return Err(AppError::NotFound(String::from_str("Invoice not found")));
                },
            };
            proof {
                lemma_invoice_at(cv.invoices, ii as int);
            }
            let inv = invs[ii];
            proof {
                assert(inv.paid >= 0 && inv.total >= 0);
            }
            if inv.cancelled || inv.paid >= inv.total {
                k = k + 1;
            } else {
                let outstanding: i64 = inv.total - inv.paid;
                let pay: i64 = if remaining < outstanding {
                    remaining
                } else {
                    outstanding
                };
                let ci = match find_customer_in(&custs, inv.customer_id) {
                    Some(i) => i,
                    None => {
                        proof {
                            assert(has_customer(cv.customers, inv.customer_id));
                        }
                        unreached()
                    },
                };
                proof {
                    lemma_customer_at(cv.customers, ci as int);
                }
                let c = custs[ci];
                let bal_wide: i128 = c.balance as i128 - pay as i128;
                if bal_wide < i64::MIN as i128 {
                    return Err(
                        AppError::Validation(
                            ValidationError::new(
                                "balance",
                                "Customer balance exceeds the representable range",
                                "رصيد العميل يتجاوز النطاق الممكن تمثيله",
                            ),
                        ),
                    );
                }
                let spent_wide: i128 = c.total_spent as i128 + pay as i128;
                if spent_wide > i64::MAX as i128 {
                    return Err(
                        AppError::Validation(
                            ValidationError::new(
                                "totalSpent",
                                "Total spent exceeds the representable range",
                                "إجمالي الإنفاق يتجاوز النطاق الممكن تمثيله",
                            ),
                        ),
                    );
                }
                let new_paid: i64 = inv.paid + pay;
                let new_status = if new_paid >= inv.total {
                    InvoiceStatus::Paid
                } else if new_paid > 0 {
                    InvoiceStatus::PartiallyPaid
                } else {
                    InvoiceStatus::Unpaid
                };
                let was_paid = matches!(inv.status, InvoiceStatus::Paid);
                let paid_day = if !was_paid && matches!(new_status, InvoiceStatus::Paid) {
                    Some(today)
                } else {
                    inv.paid_day
                };
                invs.set(ii, Invoice { paid: new_paid, status: new_status, paid_day, ..inv });
                custs.set(
                    ci,
                    Customer { balance: bal_wide as i64, total_spent: spent_wide as i64, ..c },
                );
                pays.push(
                    PaymentRecord { invoice_id: iid, customer_id: inv.customer_id, amount: pay, day: today },
                );
                remaining = remaining - pay;
                k = k + 1;
                proof {
                    let cv2 = StoreView {
                        invoices: invs@,
                        customers: custs@,
                        payments: pays@,
                        ..old(self)@
                    };
                    lemma_invoices_same_ids(cv.invoices, cv2.invoices);
                    lemma_customers_same_ids(cv.customers, cv2.customers);
                    assert(cv2.wf());
                    assert(cv2 =~= StoreView {
                        invoices: cv.invoices.update(
                            ii as int,
                            Invoice { paid: new_paid, status: new_status, paid_day, ..inv },
                        ),
                        customers: cv.customers.update(
                            ci as int,
                            Customer {
                                balance: bal_wide as i64,
                                total_spent: spent_wide as i64,
                                ..c
                            },
                        ),
                        payments: cv.payments.push(
                            PaymentRecord {
                                invoice_id: iid,
                                customer_id: inv.customer_id,
                                amount: pay,
                                day: today,
                            },
                        ),
                        ..cv
                    });
                }
            }
        }
        proof {
            let cv = StoreView {
                invoices: invs@,
                customers: custs@,
                payments: pays@,
                ..old(self)@
            };
            if k == invoice_ids@.len() {
                assert(invoice_ids@.skip(k as int) =~= Seq::<u64>::empty());
            }
            assert(spec_bulk_step(cv, invoice_ids@.skip(k as int), remaining as int, today) == Ok::<
                (StoreView, int),
                ErrorKind,
            >((cv, remaining as int)));
        }
        self.invoices = invs;
        self.customers = custs;
        self.payments = pays;
        proof {
            let cv = StoreView {
                invoices: self@.invoices,
                customers: self@.customers,
                payments: self@.payments,
                ..old(self)@
            };
            assert(self@ =~= cv);
        }
        Ok(())
    }

    /// Cancel invoice `invoice_id`: its status becomes cancelled, stickily.
    /// Paid amounts and the customer are untouched; further payments against
    /// it fail `Conflict`.
    pub fn cancel_invoice(&mut self, invoice_id: u64) -> (r: Result<(), AppError>)
        requires
            old(self).wf(),
        ensures
            final(self).wf(),
            match r {
                Ok(_) => spec_cancel_invoice(old(self)@, invoice_id) == Ok::<StoreView, ErrorKind>(
                    final(self)@,
                ),
                Err(e) => {
                    &&& final(self)@ == old(self)@
                    &&& spec_cancel_invoice(old(self)@, invoice_id) == Err::<StoreView, ErrorKind>(
                        e.kind(),
                    )
                },
            },
    {
        let iidx = match self.find_invoice(invoice_id) {
            Some(i) => i,
            None => {
                return Err(AppError::NotFound(String::from_str("Invoice not found")));
            },
        };
        proof {
            lemma_invoice_at(self@.invoices, iidx as int);
        }
        let inv = self.invoices[iidx];
        self.invoices.set(
            iidx,
            Invoice { cancelled: true, status: InvoiceStatus::Cancelled, ..inv },
        );
        proof {
            let v = old(self)@;
            let v2 = self@;
            lemma_invoices_same_ids(v.invoices, v2.invoices);
            assert(v2.wf());
            let specr = spec_cancel_invoice(v, invoice_id);
            assert(specr == Ok::<StoreView, ErrorKind>(v2)) by {
                assert(v2 =~= specr->Ok_0);
            }
        }
        Ok(())
    }
}

} // verus!
