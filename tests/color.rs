use turnsim::color::{parse_html_color, HtmlColorConversionError};

fn unit(b: u8) -> f32 {
    f32::from(b) / 255.0
}

#[test]
fn test_red_hex() {
    let (r, g, b) = parse_html_color("#FF0000").expect("Invalid hex string");
    assert!(f32::abs(unit(r) - 1.0) < std::f32::EPSILON);
    assert!(unit(g) < std::f32::EPSILON);
    assert!(unit(b) < std::f32::EPSILON);
}

#[test]
fn test_green_hex() {
    let (r, g, b) = parse_html_color("#00FF00").expect("Invalid hex string");
    assert!(unit(r) < std::f32::EPSILON);
    assert!(f32::abs(unit(g) - 1.0) < std::f32::EPSILON);
    assert!(unit(b) < std::f32::EPSILON);
}

#[test]
fn test_blue_hex() {
    let (r, g, b) = parse_html_color("#0000FF").expect("Invalid hex string");
    assert!(unit(r) < std::f32::EPSILON);
    assert!(unit(g) < std::f32::EPSILON);
    assert!(f32::abs(unit(b) - 1.0) < std::f32::EPSILON);
}

#[test]
fn mixed_case_digits() {
    assert_eq!(parse_html_color("#eeFf10"), Ok((0xee, 0xff, 0x10)));
}

#[test]
fn malformed_codes() {
    assert_eq!(parse_html_color(""), Err(HtmlColorConversionError::InvalidStringLength));
    assert_eq!(parse_html_color("FF0000"), Err(HtmlColorConversionError::MissingHash));
    assert_eq!(parse_html_color("#FG0000"), Err(HtmlColorConversionError::InvalidCharacter));
    assert_eq!(parse_html_color("#FF00"), Err(HtmlColorConversionError::InvalidStringLength));
    assert_eq!(parse_html_color("#FF00001"), Err(HtmlColorConversionError::InvalidStringLength));
}
