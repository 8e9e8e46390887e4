//! Ad-hoc invoice input records and their validation. Amounts are in cents.

use vstd::prelude::*;
use vstd::string::StringExecFns;

use crate::text::{trim_of, all_space, chars_vec, trim_chars, str_eq, u64_to_string};

verus! {

/// One line of an ad-hoc invoice, as the caller supplies it.
pub struct CreateInvoiceItem {
    pub description: String,
    pub quantity: i32,
    pub unit_price: i64,
}

/// A new ad-hoc invoice, as the caller supplies it.
pub struct CreateInvoice {
    pub customer_id: String,
    pub amount: i64,
    pub status: String,
    pub due_date: String,
    pub items: Vec<CreateInvoiceItem>,
}

/// An invoice patch: status and paid date, both optional.
pub struct UpdateInvoice {
    pub status: Option<String>,
    pub paid_date: Option<String>,
}

pub open spec fn invoice_status_word_ok(s: Seq<char>) -> bool {
    s == "pending"@ || s == "paid"@ || s == "overdue"@ || s == "cancelled"@
}

/// One acceptable invoice line: a non-blank description of at most 500
/// characters, a positive quantity, a non-negative unit price.
pub open spec fn invoice_item_ok(it: CreateInvoiceItem) -> bool {
    &&& !all_space(it.description@)
    &&& it.description@.len() <= 500
    &&& it.quantity > 0
    &&& it.unit_price >= 0
}

/// Every field of a new invoice acceptable: a named customer, a non-negative
/// amount, a known status word, a due date, and at least one acceptable line.
pub open spec fn create_invoice_ok(d: CreateInvoice) -> bool {
    &&& !all_space(d.customer_id@)
    &&& d.amount >= 0
    &&& invoice_status_word_ok(d.status@)
    &&& !all_space(d.due_date@)
    &&& d.items@.len() >= 1
    &&& forall|i: int| 0 <= i < d.items@.len() ==> invoice_item_ok(#[trigger] d.items@[i])
}

/// Every supplied field of an invoice patch acceptable.
pub open spec fn update_invoice_ok(d: UpdateInvoice) -> bool {
    match d.status {
        Some(s) => invoice_status_word_ok(s@),
        None => true,
    }
}

fn check_status_word(s: &str) -> (r: bool)
    ensures
        r == invoice_status_word_ok(s@),
{
    str_eq(s, "pending") || str_eq(s, "paid") || str_eq(s, "overdue") || str_eq(s, "cancelled")
}

fn check_blank(s: &str) -> (r: bool)
    ensures
        r == all_space(s@),
{
    let v = chars_vec(s);
    let tv = trim_chars(&v);
    proof {
        crate::text::lemma_trim_empty_iff_all_space(v@);
    }
    tv.len() == 0
}

/// The display form of an invoice's sequence number: `INV-` and the number,
/// zero-padded to at least four digits.
pub fn invoice_number_string(n: u64) -> (r: String)
    ensures
        r@ == "INV-"@ + crate::text::zero_pad4(crate::text::dec_of(n as int)),
{
    let digits = crate::text::u64_to_padded4_string(n);
    let mut out = String::from_str("INV-");
    out.append(digits.as_str());
    out
}

/// Validate a new ad-hoc invoice: customer, amount, status word, due date,
/// and every line.
pub fn validate_invoice_data(data: &CreateInvoice) -> (r: Result<(), String>)
    ensures
        r is Ok <==> create_invoice_ok(*data),
{
    if check_blank(data.customer_id.as_str()) {
        return Err(String::from_str("Customer ID is required"));
    }
    if data.amount < 0 {
        return Err(String::from_str("Amount cannot be negative"));
    }
    if !check_status_word(data.status.as_str()) {
        return Err(String::from_str("Invalid status. Must be: pending, paid, overdue, or cancelled"));
    }
    if check_blank(data.due_date.as_str()) {
        return Err(String::from_str("Due date is required"));
    }
    if data.items.len() == 0 {
        return Err(String::from_str("Invoice must have at least one item"));
    }
    let mut i: usize = 0;
    while i < data.items.len()
        invariant
            i <= data.items@.len(),
            forall|j: int| 0 <= j < i ==> invoice_item_ok(#[trigger] data.items@[j]),
        decreases data.items@.len() - i,
    {
        let it = &data.items[i];
        let pos = u64_to_string((i + 1) as u64);
        if check_blank(it.description.as_str()) {
            let mut msg = String::from_str("Item ");
            msg.append(pos.as_str());
            msg.append(" description is required");
            return Err(msg);
        }
        let dv = chars_vec(it.description.as_str());
        if dv.len() > 500 {
            let mut msg = String::from_str("Item ");
            msg.append(pos.as_str());
            msg.append(" description is too long (max 500 characters)");
            return Err(msg);
        }
        if it.quantity <= 0 {
            let mut msg = String::from_str("Item ");
            msg.append(pos.as_str());
            msg.append(" quantity must be positive");
            return Err(msg);
        }
        if it.unit_price < 0 {
            let mut msg = String::from_str("Item ");
            msg.append(pos.as_str());
            msg.append(" unit price cannot be negative");
            return Err(msg);
        }
        i = i + 1;
    }
    Ok(())
}

/// Validate an invoice patch: a supplied status must be a known word.
pub fn validate_update_invoice_data(data: &UpdateInvoice) -> (r: Result<(), String>)
    ensures
        r is Ok <==> update_invoice_ok(*data),
{
    match &data.status {
        Some(s) => {
            if !check_status_word(s.as_str()) {
                return Err(
                    String::from_str("Invalid status. Must be: pending, paid, overdue, or cancelled"),
                );
            }
        },
        None => {},
    }
    Ok(())
}

} // verus!
