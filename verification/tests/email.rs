use backspace::email::{
    validate_email, validate_required_email, is_valid_email, normalize_email, get_email_domain,
    is_disposable_email,
};

#[test]
fn test_valid_email() {
    let result = validate_email("test@example.com");
    assert!(result.is_valid);
    assert_eq!(result.normalized, Some("test@example.com".to_string()));
}

#[test]
fn test_valid_email_with_subdomain() {
    let result = validate_email("test@mail.example.com");
    assert!(result.is_valid);
}

#[test]
fn test_empty_email() {
    let result = validate_email("");
    assert!(result.is_valid); // Empty is valid (optional)
}

#[test]
fn test_invalid_no_at() {
    let result = validate_email("testexample.com");
    assert!(!result.is_valid);
}

#[test]
fn test_invalid_no_domain() {
    let result = validate_email("test@");
    assert!(!result.is_valid);
}

#[test]
fn test_disposable_email() {
    let result = validate_email("test@mailinator.com");
    assert!(result.is_valid);
    assert!(result.is_disposable);
}

#[test]
fn test_normalize_email_trims_and_lowercases() {
    assert_eq!(normalize_email("  Test@Example.COM  "), "test@example.com".to_string());
}

#[test]
fn test_uppercase_email_valid() {
    let result = validate_email("TEST@EXAMPLE.COM");
    assert!(result.is_valid);
    assert_eq!(result.normalized, Some("test@example.com".to_string()));
    assert_eq!(result.domain, Some("example.com".to_string()));
}

#[test]
fn test_consecutive_dots_rejected() {
    assert!(!is_valid_email("a..b@example.com"));
}

#[test]
fn test_two_ats_rejected() {
    assert!(!is_valid_email("a@b@example.com"));
}

#[test]
fn test_short_tld_rejected() {
    assert!(!is_valid_email("a@example.c"));
}

#[test]
fn test_domain_without_dot_rejected() {
    assert!(!is_valid_email("a@localhost"));
}

#[test]
fn test_too_long_rejected() {
    let mut local = String::new();
    for _ in 0..250 {
        local.push('a');
    }
    let addr = format!("{}@example.com", local);
    assert!(!is_valid_email(&addr));
}

#[test]
fn test_get_email_domain() {
    assert_eq!(get_email_domain("user@Mail.Example.com"), Some("mail.example.com".to_string()));
    assert_eq!(get_email_domain("no-at-here"), None);
    assert_eq!(get_email_domain("a@b@c"), None);
}

#[test]
fn test_is_disposable_email() {
    assert!(is_disposable_email("x@yopmail.com"));
    assert!(!is_disposable_email("x@example.com"));
}

#[test]
fn test_required_email() {
    let blank = validate_required_email("   ");
    assert!(!blank.is_valid);
    assert!(blank.error.is_some());
    let ok = validate_required_email("user@example.com");
    assert!(ok.is_valid);
}

#[test]
fn test_label_rules() {
    assert!(!is_valid_email("a@-example.com"));
    assert!(!is_valid_email("a@example-.com"));
    assert!(is_valid_email("a@ex-ample.com"));
}
