//! Core of a co-working venue manager: timed resource sessions with attached
//! inventory purchases, duration-based or subscription-exempt pricing, invoice
//! generation, and payment application against invoices and customer balances.
//!
//! All money values are fixed-point decimals held as a signed number of cents,
//! never floating point. Timestamps are minutes, dates are day numbers; the
//! caller supplies both from its clock.

pub mod clock;
pub mod customers;
pub mod egyptian_phone;
pub mod email;
pub mod error;
pub mod inventory;
pub mod invoices;
pub mod laws;
pub mod model;
pub mod payments;
pub mod resources;
pub mod sessions;
pub mod subscriptions;
pub mod store;
pub mod text;
pub mod validation;
