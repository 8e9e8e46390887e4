use backspace::egyptian_phone::{
    validate_egyptian_phone, is_valid_egyptian_phone, normalize_phone, get_carrier, PhoneType,
};

#[test]
fn test_valid_vodafone() {
    let result = validate_egyptian_phone("01012345678");
    assert!(result.is_valid);
    assert_eq!(result.carrier, Some("Vodafone".to_string()));
    assert_eq!(result.normalized, Some("+201012345678".to_string()));
}

#[test]
fn test_valid_etisalat() {
    let result = validate_egyptian_phone("01112345678");
    assert!(result.is_valid);
    assert_eq!(result.carrier, Some("Etisalat".to_string()));
}

#[test]
fn test_valid_orange() {
    let result = validate_egyptian_phone("01212345678");
    assert!(result.is_valid);
    assert_eq!(result.carrier, Some("Orange".to_string()));
}

#[test]
fn test_valid_we() {
    let result = validate_egyptian_phone("01512345678");
    assert!(result.is_valid);
    assert_eq!(result.carrier, Some("WE".to_string()));
}

#[test]
fn test_valid_with_country_code() {
    let result = validate_egyptian_phone("+201012345678");
    assert!(result.is_valid);
    assert_eq!(result.normalized, Some("+201012345678".to_string()));
}

#[test]
fn test_invalid_prefix() {
    let result = validate_egyptian_phone("01312345678");
    assert!(!result.is_valid);
}

#[test]
fn test_invalid_length() {
    let result = validate_egyptian_phone("0101234567");
    assert!(!result.is_valid);
}

#[test]
fn test_empty() {
    let result = validate_egyptian_phone("");
    assert!(!result.is_valid);
}

#[test]
fn test_normalize_strips_separators() {
    assert_eq!(normalize_phone("(010) 1234-5678"), "01012345678".to_string());
    assert_eq!(normalize_phone("+20 101 234 5678"), "+201012345678".to_string());
}

#[test]
fn test_valid_with_separators() {
    let result = validate_egyptian_phone("010 1234-5678");
    assert!(result.is_valid);
    assert_eq!(result.normalized, Some("+201012345678".to_string()));
    assert_eq!(result.phone_type, Some(PhoneType::Mobile));
}

#[test]
fn test_landline() {
    let result = validate_egyptian_phone("0223456789");
    assert!(result.is_valid);
    assert_eq!(result.phone_type, Some(PhoneType::Landline));
    assert_eq!(result.carrier, None);
    assert_eq!(result.normalized, Some("+20223456789".to_string()));
}

#[test]
fn test_bare_mobile_without_zero() {
    assert!(is_valid_egyptian_phone("1012345678"));
}

#[test]
fn test_whitespace_only_is_required() {
    let result = validate_egyptian_phone("   ");
    assert!(!result.is_valid);
    assert!(result.error.is_some());
}

#[test]
fn test_letters_rejected() {
    assert!(!is_valid_egyptian_phone("01o12345678"));
}

#[test]
fn test_get_carrier_direct() {
    assert_eq!(get_carrier("01512345678"), Some("WE".to_string()));
    assert_eq!(get_carrier("+201112345678"), Some("Etisalat".to_string()));
    assert_eq!(get_carrier("09912345678"), None);
}
