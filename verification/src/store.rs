//! The store: every table of the venue as an in-memory vector, with one id
//! counter shared by all tables. Operations on sessions, invoices and
//! payments live in their own modules; this module holds the container, its
//! registration operations, and the lookups they share.

use vstd::prelude::*;

use crate::error::AppError;
use vstd::string::StringExecFns;
use crate::model::{
    Customer, Resource, InventoryItem, SubscriptionPlan, Session, SessionStatus, SessionLine,
    Invoice, InvoiceItem, PaymentRecord, StoreView, has_customer, has_resource, has_item,
    has_session, has_invoice, has_line, customer_has_active, has_covering_plan, plan_covers,
    resource_occupied, lemma_customers_grow, lemma_resources_grow, lemma_items_grow,
    customer_at, resource_at, item_at, session_at, invoice_at, lemma_customer_at,
    lemma_resource_at, lemma_item_at, lemma_session_at, lemma_invoice_at, invoice_items_of,
};

verus! {

/// The venue state. The ghost view is a [`StoreView`]; every operation
/// requires and preserves [`StoreView::wf`].
pub struct Store {
    pub customers: Vec<Customer>,
    pub resources: Vec<Resource>,
    pub items: Vec<InventoryItem>,
    pub plans: Vec<SubscriptionPlan>,
    pub sessions: Vec<Session>,
    pub lines: Vec<SessionLine>,
    pub invoices: Vec<Invoice>,
    pub invoice_items: Vec<InvoiceItem>,
    pub payments: Vec<PaymentRecord>,
    pub next_id: u64,
}

impl View for Store {
    type V = StoreView;

    open spec fn view(&self) -> StoreView {
        StoreView {
            customers: self.customers@,
            resources: self.resources@,
            items: self.items@,
            plans: self.plans@,
            sessions: self.sessions@,
            lines: self.lines@,
            invoices: self.invoices@,
            invoice_items: self.invoice_items@,
            payments: self.payments@,
            next_id: self.next_id,
        }
    }
}

impl Store {
    pub open spec fn wf(&self) -> bool {
        self@.wf()
    }

    /// An empty store.
    pub fn new() -> (r: Store)
        ensures
            r.wf(),
            r@.customers.len() == 0,
            r@.resources.len() == 0,
            r@.items.len() == 0,
            r@.plans.len() == 0,
            r@.sessions.len() == 0,
            r@.lines.len() == 0,
            r@.invoices.len() == 0,
            r@.invoice_items.len() == 0,
            r@.payments.len() == 0,
    {
        Store {
            customers: Vec::new(),
            resources: Vec::new(),
            items: Vec::new(),
            plans: Vec::new(),
            sessions: Vec::new(),
            lines: Vec::new(),
            invoices: Vec::new(),
            invoice_items: Vec::new(),
            payments: Vec::new(),
            next_id: 0,
        }
    }

    /// Draw a fresh id, or fail once the counter is exhausted.
    fn fresh_id(&mut self) -> (r: Result<u64, AppError>)
        ensures
            match r {
                Ok(id) => {
                    &&& id == old(self).next_id
                    &&& final(self).next_id == old(self).next_id + 1
                },
                Err(e) => {
                    &&& *final(self) == *old(self)
                    &&& old(self).next_id == u64::MAX
                    &&& e.kind() == crate::error::ErrorKind::Internal
                },
            },
            final(self).customers == old(self).customers,
            final(self).resources == old(self).resources,
            final(self).items == old(self).items,
            final(self).plans == old(self).plans,
            final(self).sessions == old(self).sessions,
            final(self).lines == old(self).lines,
            final(self).invoices == old(self).invoices,
            final(self).invoice_items == old(self).invoice_items,
            final(self).payments == old(self).payments,
    {
        if self.next_id == u64::MAX {
            return Err(AppError::Internal(String::from_str("id space exhausted")));
        }
        let id = self.next_id;
        self.next_id = self.next_id + 1;
        Ok(id)
    }

    /// Register a customer account with a zero balance.
    pub fn add_customer(&mut self) -> (r: Result<u64, AppError>)
        requires
            old(self).wf(),
        ensures
            final(self).wf(),
            match r {
                Ok(id) => {
                    &&& id == old(self)@.next_id
                    &&& final(self)@.customers == old(self)@.customers.push(
                        Customer { id, balance: 0, total_spent: 0, total_sessions: 0 },
                    )
                    &&& final(self)@ == StoreView {
                        customers: final(self)@.customers,
                        next_id: (old(self)@.next_id + 1) as u64,
                        ..old(self)@
                    }
                },
                Err(_) => final(self)@ == old(self)@,
            },
    {
        let id = match self.fresh_id() {
            Ok(id) => id,
            Err(e) => {
                return Err(e);
            },
        };
        let c = Customer { id, balance: 0, total_spent: 0, total_sessions: 0 };
        self.customers.push(c);
        proof {
            lemma_customers_grow(old(self)@.customers, self@.customers);
        }
        Ok(id)
    }

    /// Register a bookable resource with the given hourly rate in cents; a
    /// negative rate is rejected. New resources start available.
    pub fn add_resource(&mut self, rate_per_hour: i64) -> (r: Result<u64, AppError>)
        requires
            old(self).wf(),
        ensures
            final(self).wf(),
            match r {
                Ok(id) => {
                    &&& rate_per_hour >= 0
                    &&& id == old(self)@.next_id
                    &&& final(self)@.resources == old(self)@.resources.push(
                        Resource { id, rate_per_hour, is_available: true },
                    )
                    &&& final(self)@ == StoreView {
                        resources: final(self)@.resources,
                        next_id: (old(self)@.next_id + 1) as u64,
                        ..old(self)@
                    }
                },
                Err(e) => {
                    &&& final(self)@ == old(self)@
                    &&& (e.kind() == crate::error::ErrorKind::Validation ==> rate_per_hour < 0)
                },
            },
    {
        if rate_per_hour < 0 {
            return Err(AppError::Validation(crate::error::ValidationError::new(
                "ratePerHour",
                "Rate per hour cannot be negative",
                "لا يمكن أن يكون سعر الساعة سالباً",
            )));
        }
        let id = match self.fresh_id() {
            Ok(id) => id,
            Err(e) => {
                return Err(e);
            },
        };
        let res = Resource { id, rate_per_hour, is_available: true };
        self.resources.push(res);
        proof {
            lemma_resources_grow(old(self)@.resources, self@.resources);
            if resource_occupied(self@.sessions, id) {
                let k = choose|k: int|
                    0 <= k < self@.sessions.len() && (#[trigger] self@.sessions[k]).resource_id
                        == id && self@.sessions[k].status == SessionStatus::Active;
                assert(has_resource(old(self)@.resources, id));
                let m = choose|m: int|
                    0 <= m < old(self)@.resources.len() && (#[trigger] old(self)@.resources[m]).id
                        == id;
                assert(old(self)@.resources[m].id < old(self)@.next_id);
            }
        }
        Ok(id)
    }

    /// Register a stock item with the given on-hand quantity and unit price
    /// in cents; negative values are rejected.
    pub fn add_inventory_item(&mut self, quantity: i64, price: i64) -> (r: Result<u64, AppError>)
        requires
            old(self).wf(),
        ensures
            final(self).wf(),
            match r {
                Ok(id) => {
                    &&& quantity >= 0 && price >= 0
                    &&& id == old(self)@.next_id
                    &&& final(self)@.items == old(self)@.items.push(
                        InventoryItem { id, quantity, price },
                    )
                    &&& final(self)@ == StoreView {
                        items: final(self)@.items,
                        next_id: (old(self)@.next_id + 1) as u64,
                        ..old(self)@
                    }
                },
                Err(e) => {
                    &&& final(self)@ == old(self)@
                    &&& (e.kind() == crate::error::ErrorKind::Validation ==> quantity < 0 || price
                        < 0)
                },
            },
    {
        if quantity < 0 {
            return Err(AppError::Validation(crate::error::ValidationError::new(
                "quantity",
                "Quantity cannot be negative",
                "لا يمكن أن تكون الكمية سالبة",
            )));
        }
        if price < 0 {
            return Err(AppError::Validation(crate::error::ValidationError::new(
                "price",
                "Price cannot be negative",
                "لا يمكن أن يكون السعر سالباً",
            )));
        }
        let id = match self.fresh_id() {
            Ok(id) => id,
            Err(e) => {
                return Err(e);
            },
        };
        let it = InventoryItem { id, quantity, price };
        self.items.push(it);
        proof {
            lemma_items_grow(old(self)@.items, self@.items);
        }
        Ok(id)
    }

    /// Register a subscription plan for an existing customer.
    pub fn add_subscription(
        &mut self,
        customer_id: u64,
        start_day: u64,
        end_day: Option<u64>,
        is_active: bool,
    ) -> (r: Result<u64, AppError>)
        requires
            old(self).wf(),
        ensures
            final(self).wf(),
            match r {
                Ok(id) => {
                    &&& has_customer(old(self)@.customers, customer_id)
                    &&& id == old(self)@.next_id
                    &&& final(self)@.plans == old(self)@.plans.push(
                        SubscriptionPlan { id, customer_id, start_day, end_day, is_active },
                    )
                    &&& final(self)@ == StoreView {
                        plans: final(self)@.plans,
                        next_id: (old(self)@.next_id + 1) as u64,
                        ..old(self)@
                    }
                },
                Err(e) => {
                    &&& final(self)@ == old(self)@
                    &&& (e.kind() == crate::error::ErrorKind::NotFound ==> !has_customer(
                        old(self)@.customers,
                        customer_id,
                    ))
                },
            },
    {
        if self.find_customer(customer_id).is_none() {
            return Err(AppError::NotFound(String::from_str("Customer not found")));
        }
        let id = match self.fresh_id() {
            Ok(id) => id,
            Err(e) => {
                return Err(e);
            },
        };
        let p = SubscriptionPlan { id, customer_id, start_day, end_day, is_active };
        self.plans.push(p);
        Ok(id)
    }

    /// Index of the customer with the given id, if any.
    pub fn find_customer(&self, id: u64) -> (r: Option<usize>)
        ensures
            match r {
                Some(i) => i < self@.customers.len() && self@.customers[i as int].id == id,
                None => !has_customer(self@.customers, id),
            },
    {
        let mut i: usize = 0;
        while i < self.customers.len()
            invariant
                i <= self.customers.len(),
                forall|j: int| 0 <= j < i ==> (#[trigger] self.customers@[j]).id != id,
            decreases self.customers.len() - i,
        {
            if self.customers[i].id == id {
                return Some(i);
            }
            i = i + 1;
        }
        None
    }

    /// Index of the resource with the given id, if any.
    pub fn find_resource(&self, id: u64) -> (r: Option<usize>)
        ensures
            match r {
                Some(i) => i < self@.resources.len() && self@.resources[i as int].id == id,
                None => !has_resource(self@.resources, id),
            },
    {
        let mut i: usize = 0;
        while i < self.resources.len()
            invariant
                i <= self.resources.len(),
                forall|j: int| 0 <= j < i ==> (#[trigger] self.resources@[j]).id != id,
            decreases self.resources.len() - i,
        {
            if self.resources[i].id == id {
                return Some(i);
            }
            i = i + 1;
        }
        None
    }

    /// Index of the stock item with the given id, if any.
    pub fn find_item(&self, id: u64) -> (r: Option<usize>)
        ensures
            match r {
                Some(i) => i < self@.items.len() && self@.items[i as int].id == id,
                None => !has_item(self@.items, id),
            },
    {
        let mut i: usize = 0;
        while i < self.items.len()
            invariant
                i <= self.items.len(),
                forall|j: int| 0 <= j < i ==> (#[trigger] self.items@[j]).id != id,
            decreases self.items.len() - i,
        {
            if self.items[i].id == id {
                return Some(i);
            }
            i = i + 1;
        }
        None
    }

    /// Index of the session with the given id, if any.
    pub fn find_session(&self, id: u64) -> (r: Option<usize>)
        ensures
            match r {
                Some(i) => i < self@.sessions.len() && self@.sessions[i as int].id == id,
                None => !has_session(self@.sessions, id),
            },
    {
        let mut i: usize = 0;
        while i < self.sessions.len()
            invariant
                i <= self.sessions.len(),
                forall|j: int| 0 <= j < i ==> (#[trigger] self.sessions@[j]).id != id,
            decreases self.sessions.len() - i,
        {
            if self.sessions[i].id == id {
                return Some(i);
            }
            i = i + 1;
        }
        None
    }

    /// Index of the invoice with the given id, if any.
    pub fn find_invoice(&self, id: u64) -> (r: Option<usize>)
        ensures
            match r {
                Some(i) => i < self@.invoices.len() && self@.invoices[i as int].id == id,
                None => !has_invoice(self@.invoices, id),
            },
    {
        let mut i: usize = 0;
        while i < self.invoices.len()
            invariant
                i <= self.invoices.len(),
                forall|j: int| 0 <= j < i ==> (#[trigger] self.invoices@[j]).id != id,
            decreases self.invoices.len() - i,
        {
            if self.invoices[i].id == id {
                return Some(i);
            }
            i = i + 1;
        }
        None
    }

    /// Index of the line for the (session, item) pair, if any.
    pub fn find_line(&self, session_id: u64, item_id: u64) -> (r: Option<usize>)
        ensures
            match r {
                Some(i) => i < self@.lines.len() && self@.lines[i as int].session_id == session_id
                    && self@.lines[i as int].item_id == item_id,
                None => !has_line(self@.lines, session_id, item_id),
            },
    {
        let mut i: usize = 0;
        while i < self.lines.len()
            invariant
                i <= self.lines.len(),
                forall|j: int|
                    0 <= j < i ==> !((#[trigger] self.lines@[j]).session_id == session_id
                        && self.lines@[j].item_id == item_id),
            decreases self.lines.len() - i,
        {
            if self.lines[i].session_id == session_id && self.lines[i].item_id == item_id {
                return Some(i);
            }
            i = i + 1;
        }
        None
    }

    /// The customer record with the given id, if any.
    pub fn get_customer(&self, id: u64) -> (r: Option<Customer>)
        requires
            self.wf(),
        ensures
            match r {
                Some(c) => has_customer(self@.customers, id) && c == self@.customers[customer_at(
                    self@.customers,
                    id,
                )],
                None => !has_customer(self@.customers, id),
            },
    {
        match self.find_customer(id) {
            Some(i) => {
                proof {
                    lemma_customer_at(self@.customers, i as int);
                }
                Some(self.customers[i])
            },
            None => None,
        }
    }

    /// The resource record with the given id, if any.
    pub fn get_resource(&self, id: u64) -> (r: Option<Resource>)
        requires
            self.wf(),
        ensures
            match r {
                Some(x) => has_resource(self@.resources, id) && x == self@.resources[resource_at(
                    self@.resources,
                    id,
                )],
                None => !has_resource(self@.resources, id),
            },
    {
        match self.find_resource(id) {
            Some(i) => {
                proof {
                    lemma_resource_at(self@.resources, i as int);
                }
                Some(self.resources[i])
            },
            None => None,
        }
    }

    /// The stock item with the given id, if any.
    pub fn get_item(&self, id: u64) -> (r: Option<InventoryItem>)
        requires
            self.wf(),
        ensures
            match r {
                Some(x) => has_item(self@.items, id) && x == self@.items[item_at(self@.items, id)],
                None => !has_item(self@.items, id),
            },
    {
        match self.find_item(id) {
            Some(i) => {
                proof {
                    lemma_item_at(self@.items, i as int);
                }
                Some(self.items[i])
            },
            None => None,
        }
    }

    /// The session record with the given id, if any.
    pub fn get_session(&self, id: u64) -> (r: Option<Session>)
        requires
            self.wf(),
        ensures
            match r {
                Some(x) => has_session(self@.sessions, id) && x == self@.sessions[session_at(
                    self@.sessions,
                    id,
                )],
                None => !has_session(self@.sessions, id),
            },
    {
        match self.find_session(id) {
            Some(i) => {
                proof {
                    lemma_session_at(self@.sessions, i as int);
                }
                Some(self.sessions[i])
            },
            None => None,
        }
    }

    /// The invoice record with the given id, if any.
    pub fn get_invoice(&self, id: u64) -> (r: Option<Invoice>)
        requires
            self.wf(),
        ensures
            match r {
                Some(x) => has_invoice(self@.invoices, id) && x == self@.invoices[invoice_at(
                    self@.invoices,
                    id,
                )],
                None => !has_invoice(self@.invoices, id),
            },
    {
        match self.find_invoice(id) {
            Some(i) => {
                proof {
                    lemma_invoice_at(self@.invoices, i as int);
                }
                Some(self.invoices[i])
            },
            None => None,
        }
    }

    /// The lines of one invoice, in table order.
    pub fn invoice_items_of(&self, invoice_id: u64) -> (r: Vec<InvoiceItem>)
        ensures
            r@ == invoice_items_of(self@.invoice_items, invoice_id),
    {
        let mut r: Vec<InvoiceItem> = Vec::new();
        let mut i: usize = 0;
        while i < self.invoice_items.len()
            invariant
                i <= self.invoice_items@.len(),
                r@ =~= invoice_items_of(self@.invoice_items.take(i as int), invoice_id),
            decreases self.invoice_items@.len() - i,
        {
            let it = self.invoice_items[i];
            proof {
                assert(self@.invoice_items.take(i as int + 1).drop_last() =~= self@.invoice_items
                    .take(i as int));
                assert(self@.invoice_items.take(i as int + 1).last() == it);
            }
            if it.invoice_id == invoice_id {
                r.push(it);
            }
            i = i + 1;
        }
        proof {
            assert(self@.invoice_items.take(self@.invoice_items.len() as int)
                =~= self@.invoice_items);
        }
        r
    }

    /// Whether the given customer currently has an active session.
    pub fn customer_has_active_session(&self, customer_id: u64) -> (r: bool)
        ensures
            r == customer_has_active(self@.sessions, customer_id),
    {
        let mut i: usize = 0;
        while i < self.sessions.len()
            invariant
                i <= self.sessions.len(),
                forall|j: int|
                    0 <= j < i ==> !((#[trigger] self.sessions@[j]).customer_id == customer_id
                        && self.sessions@[j].status == SessionStatus::Active),
            decreases self.sessions.len() - i,
        {
            if self.sessions[i].customer_id == customer_id && matches!(
                self.sessions[i].status,
                SessionStatus::Active,
            ) {
                return true;
            }
            i = i + 1;
        }
        false
    }

    /// Whether the given customer holds a subscription plan covering `today`.
    pub fn customer_has_covering_plan(&self, customer_id: u64, today: u64) -> (r: bool)
        ensures
            r == has_covering_plan(self@.plans, customer_id, today),
    {
        let mut i: usize = 0;
        while i < self.plans.len()
            invariant
                i <= self.plans.len(),
                forall|j: int| 0 <= j < i ==> !plan_covers(#[trigger] self.plans@[j], customer_id, today),
            decreases self.plans.len() - i,
        {
            let p = self.plans[i];
            let end_ok = match p.end_day {
                Some(e) => today <= e,
                None => false,
            };
            if p.customer_id == customer_id && p.is_active && p.start_day <= today && end_ok {
                return true;
            }
            i = i + 1;
        }
        false
    }
}

} // verus!
