use favicons::priority::get_icon_priority;
use favicons::priority::parse_sizes;

#[test]
fn square_sizes_rank() {
    assert_eq!(get_icon_priority("", Some("32x32")), 1);
    assert_eq!(get_icon_priority("", Some("64x64")), 2);
    assert_eq!(get_icon_priority("", Some("48x48")), 3);
    assert_eq!(get_icon_priority("", Some("100x100")), 3);
    assert_eq!(get_icon_priority("", Some("16x16")), 4);
    assert_eq!(get_icon_priority("", Some("200x200")), 5);
}

#[test]
fn non_square_deprioritized() {
    assert_eq!(get_icon_priority("", Some("32x64")), 200);
}

#[test]
fn extension_rank_without_sizes() {
    assert_eq!(get_icon_priority("https://example.com/a.png", Some("")), 10);
    assert_eq!(get_icon_priority("https://example.com/a.jpg", Some("")), 20);
    assert_eq!(get_icon_priority("https://example.com/a.jpeg", None), 20);
    assert_eq!(get_icon_priority("https://example.com/a.ico", Some("")), 30);
    assert_eq!(get_icon_priority("data:image/png;base64,QUJD", None), 30);
}

#[test]
fn parse_sizes_pairs() {
    assert_eq!(parse_sizes(Some("64x64")), (64, 64));
    assert_eq!(parse_sizes(Some("x128x128")), (128, 128));
    assert_eq!(parse_sizes(Some("32")), (0, 0));
}

#[test]
fn parse_sizes_odd_shapes() {
    assert_eq!(parse_sizes(None), (0, 0));
    assert_eq!(parse_sizes(Some("")), (0, 0));
    assert_eq!(parse_sizes(Some("any")), (0, 0));
    assert_eq!(parse_sizes(Some(" 16 x 24 ")), (16, 24));
    assert_eq!(parse_sizes(Some("12xx34")), (12, 34));
    assert_eq!(parse_sizes(Some("99999x3")), (0, 3));
}
