use backspace::validation::{
    validate_string_length, validate_required, validate_positive, validate_non_negative,
    validate_enum, validate_uuid,
};
use backspace::error::{AppError, ErrorKind};
use backspace::customers::{CreateCustomer, UpdateCustomer, validate_customer_data,
    validate_update_customer_data};
use backspace::resources::{CreateResource, UpdateResource, validate_resource_data,
    validate_update_resource_data};
use backspace::inventory::{CreateInventory, UpdateInventory, validate_inventory_data,
    validate_update_inventory_data};
use backspace::invoices::{CreateInvoice, CreateInvoiceItem, UpdateInvoice, validate_invoice_data,
    validate_update_invoice_data};
use backspace::subscriptions::{CreateSubscription, UpdateSubscription,
    validate_subscription_data, validate_update_subscription_data};
use backspace::text::u64_to_string;
use backspace::customers::get_next_human_id;
use backspace::invoices::invoice_number_string;
use backspace::clock::clock_now;
use backspace::error::ValidationError;

fn validation_message(e: AppError) -> String {
    match e {
        AppError::Validation(v) => v.message,
        _ => panic!("expected a validation error"),
    }
}

#[test]
fn string_length_bounds() {
    assert!(validate_string_length("hello", "name", 2, 10).is_ok());
    assert!(validate_string_length("  hello  ", "name", 5, 5).is_ok());
    let short = validate_string_length("a", "name", 2, 10).err().unwrap();
    assert_eq!(short.class(), ErrorKind::Validation);
    assert_eq!(validation_message(short), "name must be at least 2 characters");
    let long = validate_string_length("abcdefghijk", "name", 2, 10).err().unwrap();
    assert_eq!(validation_message(long), "name is too long (max 10 characters)");
}

#[test]
fn required_rejects_whitespace() {
    assert!(validate_required("x", "field").is_ok());
    let err = validate_required("   ", "field").err().unwrap();
    assert_eq!(validation_message(err), "field is required");
}

#[test]
fn sign_checks() {
    assert!(validate_positive(1, "qty").is_ok());
    assert!(validate_positive(0, "qty").is_err());
    assert!(validate_positive(-1, "qty").is_err());
    assert!(validate_non_negative(0, "qty").is_ok());
    assert!(validate_non_negative(-1, "qty").is_err());
}

#[test]
fn enum_check() {
    let valid = vec!["seat", "desk", "room"];
    assert!(validate_enum("desk", "type", &valid).is_ok());
    let err = validate_enum("table", "type", &valid).err().unwrap();
    assert_eq!(validation_message(err), "type must be one of: seat, desk, room");
}

#[test]
fn uuid_check() {
    assert!(validate_uuid("550e8400-e29b-41d4-a716-446655440000", "id").is_ok());
    let err = validate_uuid("not-a-uuid", "id").err().unwrap();
    assert_eq!(validation_message(err), "Invalid id format");
}

#[test]
fn decimal_rendering() {
    assert_eq!(u64_to_string(0), "0".to_string());
    assert_eq!(u64_to_string(7), "7".to_string());
    assert_eq!(u64_to_string(1234), "1234".to_string());
    assert_eq!(u64_to_string(1000000), "1000000".to_string());
}

#[test]
fn validation_error_new() {
    let e = ValidationError::new("f", "m", "م");
    assert_eq!(e.field, "f".to_string());
    assert_eq!(e.message, "m".to_string());
    assert_eq!(e.message_ar, "م".to_string());
}

fn customer(name: &str, phone: &str, ctype: &str) -> CreateCustomer {
    CreateCustomer {
        name: name.to_string(),
        phone: phone.to_string(),
        email: None,
        customer_type: ctype.to_string(),
        notes: None,
    }
}

#[test]
fn customer_validation() {
    assert!(validate_customer_data(&customer("Jo Doe", "0101234567", "visitor")).is_ok());
    assert_eq!(
        validate_customer_data(&customer("J", "0101234567", "visitor")).err().unwrap(),
        "Name must be at least 2 characters"
    );
    assert_eq!(
        validate_customer_data(&customer("Jo", "012345", "visitor")).err().unwrap(),
        "Phone must be at least 10 digits"
    );
    assert_eq!(
        validate_customer_data(&customer("Jo", "01012x4567", "visitor")).err().unwrap(),
        "Phone contains invalid characters"
    );
    assert_eq!(
        validate_customer_data(&customer("Jo", "0101234567", "guest")).err().unwrap(),
        "Customer type must be 'visitor' or 'member'"
    );
    let mut with_email = customer("Jo", "0101234567", "member");
    with_email.email = Some("not-an-email".to_string());
    assert_eq!(validate_customer_data(&with_email).err().unwrap(), "Invalid email format");
    with_email.email = Some("a@b".to_string());
    assert!(validate_customer_data(&with_email).is_ok());
    with_email.email = Some("  ".to_string());
    assert!(validate_customer_data(&with_email).is_ok());
}

#[test]
fn update_customer_validation() {
    let empty = UpdateCustomer { name: None, phone: None, email: None, customer_type: None, notes: None };
    assert!(validate_update_customer_data(&empty).is_ok());
    let bad = UpdateCustomer {
        name: Some("x".to_string()),
        phone: None,
        email: None,
        customer_type: None,
        notes: None,
    };
    assert!(validate_update_customer_data(&bad).is_err());
    let long_notes = UpdateCustomer {
        name: None,
        phone: None,
        email: None,
        customer_type: None,
        notes: Some("n".repeat(1001)),
    };
    assert_eq!(
        validate_update_customer_data(&long_notes).err().unwrap(),
        "Notes are too long (max 1000 characters)"
    );
}

#[test]
fn resource_validation() {
    let ok = CreateResource { name: "Desk A".to_string(), resource_type: "desk".to_string() };
    assert!(validate_resource_data(&ok).is_ok());
    let bad_type = CreateResource { name: "Desk A".to_string(), resource_type: "sofa".to_string() };
    assert_eq!(
        validate_resource_data(&bad_type).err().unwrap(),
        "Resource type must be 'seat', 'desk', or 'room'"
    );
    let neg_rate = UpdateResource {
        name: None,
        resource_type: None,
        is_available: None,
        rate_per_hour: Some(-1),
    };
    assert_eq!(
        validate_update_resource_data(&neg_rate).err().unwrap(),
        "Rate per hour cannot be negative"
    );
}

#[test]
fn inventory_validation() {
    let ok = CreateInventory { name: "Coffee".to_string(), quantity: 5, min_stock: 1, price: 1500 };
    assert!(validate_inventory_data(&ok).is_ok());
    let neg = CreateInventory { name: "Coffee".to_string(), quantity: -1, min_stock: 1, price: 1500 };
    assert_eq!(validate_inventory_data(&neg).err().unwrap(), "Quantity cannot be negative");
    let patch = UpdateInventory { name: None, quantity: None, min_stock: Some(-2), price: None };
    assert_eq!(
        validate_update_inventory_data(&patch).err().unwrap(),
        "Minimum stock cannot be negative"
    );
}

fn invoice_with_items(items: Vec<CreateInvoiceItem>) -> CreateInvoice {
    CreateInvoice {
        customer_id: "c1".to_string(),
        amount: 1000,
        status: "pending".to_string(),
        due_date: "2025-01-01".to_string(),
        items,
    }
}

#[test]
fn invoice_validation() {
    let ok = invoice_with_items(vec![CreateInvoiceItem {
        description: "Coffee".to_string(),
        quantity: 2,
        unit_price: 500,
    }]);
    assert!(validate_invoice_data(&ok).is_ok());

    let empty = invoice_with_items(vec![]);
    assert_eq!(validate_invoice_data(&empty).err().unwrap(), "Invoice must have at least one item");

    let bad_qty = invoice_with_items(vec![
        CreateInvoiceItem { description: "a".to_string(), quantity: 1, unit_price: 1 },
        CreateInvoiceItem { description: "b".to_string(), quantity: 0, unit_price: 1 },
    ]);
    assert_eq!(validate_invoice_data(&bad_qty).err().unwrap(), "Item 2 quantity must be positive");

    let mut bad_status = invoice_with_items(vec![CreateInvoiceItem {
        description: "a".to_string(),
        quantity: 1,
        unit_price: 1,
    }]);
    bad_status.status = "open".to_string();
    assert_eq!(
        validate_invoice_data(&bad_status).err().unwrap(),
        "Invalid status. Must be: pending, paid, overdue, or cancelled"
    );

    let patch = UpdateInvoice { status: Some("paid".to_string()), paid_date: None };
    assert!(validate_update_invoice_data(&patch).is_ok());
    let bad_patch = UpdateInvoice { status: Some("late".to_string()), paid_date: None };
    assert!(validate_update_invoice_data(&bad_patch).is_err());
}

#[test]
fn subscription_validation() {
    let ok = CreateSubscription {
        customer_id: "c1".to_string(),
        plan_type: "monthly".to_string(),
        start_date: "2025-01-01".to_string(),
        end_date: Some("2025-02-01".to_string()),
        hours_allowance: Some(100),
    };
    assert!(validate_subscription_data(&ok).is_ok());

    let bad_plan = CreateSubscription { plan_type: "yearly".to_string(), ..ok_clone(&ok) };
    assert_eq!(
        validate_subscription_data(&bad_plan).err().unwrap(),
        "Invalid plan type. Must be: weekly, half-monthly, or monthly"
    );

    let too_many_hours = CreateSubscription { hours_allowance: Some(745), ..ok_clone(&ok) };
    assert_eq!(
        validate_subscription_data(&too_many_hours).err().unwrap(),
        "Hours allowance cannot exceed 744 hours (31 days)"
    );

    let patch = UpdateSubscription {
        plan_type: Some("weekly".to_string()),
        start_date: None,
        end_date: None,
        hours_allowance: Some(-1),
        is_active: None,
    };
    assert_eq!(
        validate_update_subscription_data(&patch).err().unwrap(),
        "Hours allowance cannot be negative"
    );
}

fn ok_clone(s: &CreateSubscription) -> CreateSubscription {
    CreateSubscription {
        customer_id: s.customer_id.clone(),
        plan_type: s.plan_type.clone(),
        start_date: s.start_date.clone(),
        end_date: s.end_date.clone(),
        hours_allowance: s.hours_allowance,
    }
}

#[test]
fn human_id_sequence() {
    assert_eq!(get_next_human_id(None), "C0001".to_string());
    assert_eq!(get_next_human_id(Some("C0041")), "C0042".to_string());
    assert_eq!(get_next_human_id(Some("C9999")), "C10000".to_string());
    assert_eq!(get_next_human_id(Some("Cx41")), "C0001".to_string());
    assert_eq!(get_next_human_id(Some("")), "C0001".to_string());
}

#[test]
fn invoice_number_rendering() {
    assert_eq!(invoice_number_string(1), "INV-0001".to_string());
    assert_eq!(invoice_number_string(12345), "INV-12345".to_string());
}

#[test]
fn clock_reads() {
    let reading = clock_now();
    // The engine accepts any reading; the day must stay derivable alongside
    // the minutes from the same clock call.
    let _ = reading.minutes;
    let _ = reading.day;
}
