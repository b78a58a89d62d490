use favicons::candidates::icon_candidates;
use favicons::candidates::FetchedPage;

#[test]
fn no_page_yields_two_guesses_in_order() {
    let (icons, cookies) = icon_candidates("example.com", None);
    assert_eq!(icons.len(), 2);
    assert_eq!(icons[0].priority, 35);
    assert_eq!(icons[0].href, "https://example.com/favicon.ico");
    assert_eq!(icons[1].priority, 35);
    assert_eq!(icons[1].href, "http://example.com/favicon.ico");
    assert_eq!(cookies, "");
}

#[test]
fn sized_link_beats_plain_link() {
    let page = FetchedPage {
        final_url: "https://example.com/".to_string(),
        set_cookie: Vec::new(),
        html: "<html><head>\
            <link rel=\"icon\" href=\"/a.png\" sizes=\"32x32\">\
            <link rel=\"icon\" href=\"/b.png\">\
            </head></html>"
            .to_string(),
    };
    let (icons, _) = icon_candidates("example.com", Some(&page));
    assert_eq!(icons.len(), 3);
    assert_eq!(icons[0].href, "https://example.com/a.png");
    assert_eq!(icons[0].priority, 1);
    assert_eq!(icons[1].href, "https://example.com/b.png");
    assert_eq!(icons[1].priority, 10);
    assert_eq!(icons[2].href, "https://example.com/favicon.ico");
    assert_eq!(icons[2].priority, 35);
}

#[test]
fn relative_href_resolves_against_final_url() {
    let page = FetchedPage {
        final_url: "https://www.example.com/landing/".to_string(),
        set_cookie: Vec::new(),
        html: "<link rel=\"shortcut icon\" href=\"img/fav.ico\">".to_string(),
    };
    let (icons, _) = icon_candidates("example.com", Some(&page));
    assert_eq!(icons.len(), 2);
    assert_eq!(icons[0].href, "https://www.example.com/landing/img/fav.ico");
    assert_eq!(icons[0].priority, 30);
    assert_eq!(icons[1].href, "https://www.example.com/favicon.ico");
}

#[test]
fn non_icon_links_are_ignored() {
    let page = FetchedPage {
        final_url: "https://example.com/".to_string(),
        set_cookie: Vec::new(),
        html: "<link rel=\"stylesheet\" href=\"/style.css\">\
            <link rel=\"icon\" href=\"/no-extension\">\
            <link rel=\"apple-touch-icon\" href=\"/touch.png\" sizes=\"57x57\">"
            .to_string(),
    };
    let (icons, _) = icon_candidates("example.com", Some(&page));
    assert_eq!(icons.len(), 2);
    assert_eq!(icons[0].href, "https://example.com/touch.png");
    assert_eq!(icons[0].priority, 3);
    assert_eq!(icons[1].href, "https://example.com/favicon.ico");
}

#[test]
fn equal_priorities_keep_discovery_order() {
    let page = FetchedPage {
        final_url: "https://example.com/".to_string(),
        set_cookie: Vec::new(),
        html: "<link rel=\"icon\" href=\"/first.png\">\
            <link rel=\"icon\" href=\"/second.png\">"
            .to_string(),
    };
    let (icons, _) = icon_candidates("example.com", Some(&page));
    assert_eq!(icons.len(), 3);
    assert_eq!(icons[0].href, "https://example.com/first.png");
    assert_eq!(icons[1].href, "https://example.com/second.png");
    assert_eq!(icons[0].priority, 10);
    assert_eq!(icons[1].priority, 10);
}

#[test]
fn cookies_are_captured_from_headers() {
    let page = FetchedPage {
        final_url: "https://example.com/".to_string(),
        set_cookie: vec![
            "SESS=abc123; Path=/; HttpOnly".to_string(),
            "malformed".to_string(),
            "XSRF = \"tok\" ; Secure".to_string(),
        ],
        html: String::new(),
    };
    let (_, cookies) = icon_candidates("example.com", Some(&page));
    assert_eq!(cookies, "SESS=abc123; XSRF=tok; ");
}

#[test]
fn data_uri_link_is_kept_as_candidate() {
    let page = FetchedPage {
        final_url: "https://example.com/".to_string(),
        set_cookie: Vec::new(),
        html: "<link rel=\"icon\" href=\"data:image/png;base64,QUJD\">".to_string(),
    };
    let (icons, _) = icon_candidates("example.com", Some(&page));
    assert_eq!(icons.len(), 2);
    assert!(icons[0].href.starts_with("data:image/png;base64"));
    assert_eq!(icons[0].priority, 30);
}
