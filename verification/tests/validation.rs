use favicons::domain::is_valid_domain;

#[test]
fn empty_domain_rejected() {
    assert!(!is_valid_domain(""));
}

#[test]
fn overlong_domain_rejected() {
    let long = "a".repeat(256);
    assert!(!is_valid_domain(&long));
}

#[test]
fn longest_domain_accepted() {
    let long = "a".repeat(255);
    assert!(is_valid_domain(&long));
}

#[test]
fn dot_dot_rejected() {
    assert!(!is_valid_domain("a..b"));
}

#[test]
fn path_separator_rejected() {
    assert!(!is_valid_domain("a/b"));
}

#[test]
fn ordinary_domain_accepted() {
    assert!(is_valid_domain("sub.example-1.com"));
}

#[test]
fn underscore_accepted() {
    assert!(is_valid_domain("_dmarc.example.com"));
}

#[test]
fn space_rejected() {
    assert!(!is_valid_domain("exa mple.com"));
}
