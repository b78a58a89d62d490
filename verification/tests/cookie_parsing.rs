use favicons::cookies::cookie_fragment;
use favicons::cookies::cookie_string;

#[test]
fn plain_pair() {
    assert_eq!(cookie_fragment("SESS=abc123; Path=/; HttpOnly"), "SESS=abc123; ");
}

#[test]
fn trimmed_and_unquoted() {
    assert_eq!(cookie_fragment("  name = \"value\"  "), "name=value; ");
}

#[test]
fn malformed_contributes_nothing() {
    assert_eq!(cookie_fragment("no-equals-here"), "");
    assert_eq!(cookie_fragment("=value-without-name"), "");
    assert_eq!(cookie_fragment(""), "");
}

#[test]
fn empty_value_is_kept() {
    assert_eq!(cookie_fragment("flag=; Secure"), "flag=; ");
}

#[test]
fn headers_concatenate_in_order() {
    let headers = vec![
        "a=1; Path=/".to_string(),
        "broken".to_string(),
        "b=2".to_string(),
    ];
    assert_eq!(cookie_string(&headers), "a=1; b=2; ");
}
