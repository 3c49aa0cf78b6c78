use satsuki::validation::{validate_subdomain_name, validate_fqdn_ascii, ValidationError};

#[test]
fn accepts_simple_labels() {
    assert_eq!(validate_subdomain_name("abc"), Ok(()));
    assert_eq!(validate_subdomain_name("a"), Ok(()));
    assert_eq!(validate_subdomain_name("a1-b2"), Ok(()));
    assert_eq!(validate_subdomain_name("0start"), Ok(()));
    let max = "a".repeat(63);
    assert_eq!(validate_subdomain_name(&max), Ok(()));
}

#[test]
fn rejects_empty_label() {
    assert_eq!(validate_subdomain_name(""), Err(ValidationError::Empty));
}

#[test]
fn rejects_too_long_label() {
    let long = "a".repeat(64);
    assert_eq!(validate_subdomain_name(&long), Err(ValidationError::TooLong));
}

#[test]
fn rejects_invalid_characters() {
    assert_eq!(
        validate_subdomain_name("Upper"),
        Err(ValidationError::InvalidCharacters)
    );
    assert_eq!(
        validate_subdomain_name("with space"),
        Err(ValidationError::InvalidCharacters)
    );
    assert_eq!(
        validate_subdomain_name("dot.label"),
        Err(ValidationError::InvalidCharacters)
    );
    assert_eq!(
        validate_subdomain_name("uni\u{e9}"),
        Err(ValidationError::InvalidCharacters)
    );
}

#[test]
fn rejects_leading_or_trailing_hyphen() {
    assert_eq!(
        validate_subdomain_name("-abc"),
        Err(ValidationError::LeadingOrTrailingHyphen)
    );
    assert_eq!(
        validate_subdomain_name("abc-"),
        Err(ValidationError::LeadingOrTrailingHyphen)
    );
}

#[test]
fn rejects_double_hyphen() {
    assert_eq!(
        validate_subdomain_name("a--b"),
        Err(ValidationError::DoubleHyphen)
    );
}

#[test]
fn validation_error_messages() {
    assert_eq!(ValidationError::Empty.message(), "subdomain is empty");
    assert_eq!(
        ValidationError::TooLong.message(),
        "subdomain too long (max 63 characters)"
    );
    assert_eq!(
        ValidationError::InvalidCharacters.message(),
        "subdomain contains invalid characters (only a-z, 0-9, and '-' allowed)"
    );
    assert_eq!(
        ValidationError::LeadingOrTrailingHyphen.message(),
        "subdomain must not start or end with '-'"
    );
    assert_eq!(
        ValidationError::DoubleHyphen.message(),
        "subdomain must not contain consecutive '--'"
    );
}

#[test]
fn accepts_fqdns() {
    assert_eq!(validate_fqdn_ascii("example.com."), Ok(()));
    assert_eq!(validate_fqdn_ascii("example.com"), Ok(()));
    assert_eq!(validate_fqdn_ascii("a.b.c.d"), Ok(()));
    assert_eq!(validate_fqdn_ascii("single"), Ok(()));
}

#[test]
fn rejects_empty_fqdn() {
    assert_eq!(validate_fqdn_ascii(""), Err(ValidationError::Empty));
    assert_eq!(validate_fqdn_ascii("..."), Err(ValidationError::Empty));
}

#[test]
fn rejects_fqdn_with_empty_label() {
    assert_eq!(validate_fqdn_ascii("bad..dot"), Err(ValidationError::Empty));
    assert_eq!(validate_fqdn_ascii(".leading"), Err(ValidationError::Empty));
}

#[test]
fn rejects_fqdn_with_bad_label() {
    assert_eq!(
        validate_fqdn_ascii("Upper.com"),
        Err(ValidationError::InvalidCharacters)
    );
    assert_eq!(
        validate_fqdn_ascii("ok.-bad.com"),
        Err(ValidationError::LeadingOrTrailingHyphen)
    );
}
