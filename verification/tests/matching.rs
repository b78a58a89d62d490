use favicons::links::href_is_allowed;
use favicons::links::rel_is_icon;

#[test]
fn rel_endings() {
    assert!(rel_is_icon("icon"));
    assert!(rel_is_icon("shortcut icon"));
    assert!(rel_is_icon("apple-touch-icon"));
    assert!(rel_is_icon("apple-touch-icon-precomposed"));
    assert!(!rel_is_icon("stylesheet"));
    assert!(!rel_is_icon("iconography"));
    assert!(!rel_is_icon("apple"));
}

#[test]
fn href_extensions() {
    assert!(href_is_allowed("https://example.com/favicon.ico"));
    assert!(href_is_allowed("/img/logo.PNG"));
    assert!(href_is_allowed("a.jpg?v=3"));
    assert!(href_is_allowed("photo.jpeg"));
    assert!(!href_is_allowed("logo.svg"));
    assert!(!href_is_allowed("nodot"));
    assert!(!href_is_allowed(".png"));
    assert!(!href_is_allowed("trailing.png/"));
}

#[test]
fn href_data_uris() {
    assert!(href_is_allowed("data:image/png;base64,QUJD"));
    assert!(!href_is_allowed("data:text/plain;base64,QUJD"));
    assert!(!href_is_allowed("data:image/svg+xml,plain"));
}
