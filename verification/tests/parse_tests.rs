use dmi::error::DmiError;
use dmi::hexstream::parse_pixel_stream;
use dmi::numbers::parse_u32;
use dmi::resize::filter_from_name;
use dmi::resize::Filter;
use dmi::textscan::states_in_text;

#[test]
fn six_digit_tokens_get_implicit_alpha() {
    let r = parse_pixel_stream("#ff0000#00ff00").unwrap();
    assert_eq!(r, vec![255, 0, 0, 255, 0, 255, 0, 255]);
}

#[test]
fn eight_digit_token_keeps_alpha() {
    let r = parse_pixel_stream("#01020304").unwrap();
    assert_eq!(r, vec![1, 2, 3, 4]);
}

#[test]
fn mixed_token_lengths_are_allowed() {
    let r = parse_pixel_stream("#ff000080#00ff00").unwrap();
    assert_eq!(r, vec![255, 0, 0, 128, 0, 255, 0, 255]);
}

#[test]
fn uppercase_hex_parses() {
    let r = parse_pixel_stream("#AABBCC").unwrap();
    assert_eq!(r, vec![170, 187, 204, 255]);
}

#[test]
fn bad_token_length_fails_whole_parse() {
    let r = parse_pixel_stream("#ff0000#fff#00ff00");
    assert!(matches!(r, Err(DmiError::InvalidPngData)));
}

#[test]
fn lone_hash_fails() {
    let r = parse_pixel_stream("#");
    assert!(matches!(r, Err(DmiError::InvalidPngData)));
}

#[test]
fn non_hex_digit_fails() {
    let r = parse_pixel_stream("#zzzzzz");
    assert!(matches!(r, Err(DmiError::ParseError)));
}

#[test]
fn empty_stream_yields_empty_buffer() {
    let r = parse_pixel_stream("").unwrap();
    assert_eq!(r, Vec::<u8>::new());
}

#[test]
fn text_before_first_hash_is_discarded() {
    let r = parse_pixel_stream("junk").unwrap();
    assert_eq!(r, Vec::<u8>::new());
    let r2 = parse_pixel_stream("junk#0a0b0c").unwrap();
    assert_eq!(r2, vec![10, 11, 12, 255]);
}

#[test]
fn parse_u32_accepts_digits_and_plus() {
    assert_eq!(parse_u32("2").unwrap(), 2);
    assert_eq!(parse_u32("+7").unwrap(), 7);
    assert_eq!(parse_u32("007").unwrap(), 7);
    assert_eq!(parse_u32("4294967295").unwrap(), 4294967295);
}

#[test]
fn parse_u32_rejects_bad_numbers() {
    assert!(matches!(parse_u32(""), Err(DmiError::ParseError)));
    assert!(matches!(parse_u32("+"), Err(DmiError::ParseError)));
    assert!(matches!(parse_u32("abc"), Err(DmiError::ParseError)));
    assert!(matches!(parse_u32("-1"), Err(DmiError::ParseError)));
    assert!(matches!(parse_u32("12 "), Err(DmiError::ParseError)));
    assert!(matches!(parse_u32("4294967296"), Err(DmiError::ParseError)));
}

#[test]
fn filter_names_map_to_filters() {
    assert_eq!(filter_from_name("catmull"), Filter::CatmullRom);
    assert_eq!(filter_from_name("gaussian"), Filter::Gaussian);
    assert_eq!(filter_from_name("lanczos3"), Filter::Lanczos3);
    assert_eq!(filter_from_name("nearest"), Filter::Nearest);
    assert_eq!(filter_from_name("triangle"), Filter::Triangle);
    assert_eq!(filter_from_name("anything else"), Filter::Nearest);
    assert_eq!(filter_from_name(""), Filter::Nearest);
}

#[test]
fn states_scan_stops_at_sentinel() {
    let text = "state = \"idle\"\nstate = \"walk\"\n# END DMI\nstate = \"ignored\"\n";
    let states = states_in_text(text);
    assert_eq!(states, vec!["idle".to_string(), "walk".to_string()]);
}

#[test]
fn states_scan_trims_and_skips_other_lines() {
    let text = "\t state = \"x\" \t\nnot a state\nstate=\"y\"\nversion = 4.0\n";
    let states = states_in_text(text);
    assert_eq!(states, vec!["x".to_string()]);
}

#[test]
fn states_scan_keeps_duplicates_in_order() {
    let text = "state = \"a\"\nstate = \"b\"\nstate = \"a\"";
    let states = states_in_text(text);
    assert_eq!(states, vec!["a".to_string(), "b".to_string(), "a".to_string()]);
}

#[test]
fn sentinel_inside_a_line_still_stops() {
    let text = "foo # END DMI bar\nstate = \"a\"\n";
    let states = states_in_text(text);
    assert_eq!(states, Vec::<String>::new());
}

#[test]
fn crlf_line_endings_are_handled() {
    let text = "state = \"a\"\r\nstate = \"b\"";
    let states = states_in_text(text);
    assert_eq!(states, vec!["a".to_string(), "b".to_string()]);
}

#[test]
fn empty_state_name_is_kept() {
    let text = "state = \"\"\n";
    let states = states_in_text(text);
    assert_eq!(states, vec!["".to_string()]);
}

#[test]
fn describe_names_the_failure() {
    assert_eq!(DmiError::InvalidPngData.describe(), "invalid png data");
    assert_eq!(DmiError::ParseError.describe(), "cannot parse number");
    assert_eq!(DmiError::Decode("bad stream".to_string()).describe(), "bad stream");
}
