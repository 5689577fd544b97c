use voxel_chunks::vasp_header::{
    parse_shape_line, shape_from_header, split_fields, HeaderError, SHAPE_LINE,
};

#[test]
fn shape_line_with_three_numbers() {
    assert_eq!(parse_shape_line("  112  112  108"), Some([112, 112, 108]));
    assert_eq!(parse_shape_line("2 2 2\r"), Some([2, 2, 2]));
    assert_eq!(parse_shape_line("\t+3\u{a0}4 5 "), Some([3, 4, 5]));
    assert_eq!(parse_shape_line("0 0 0"), Some([0, 0, 0]));
}

#[test]
fn shape_line_rejects_other_forms() {
    assert_eq!(parse_shape_line("112 112"), None);
    assert_eq!(parse_shape_line("1 2 3 4"), None);
    assert_eq!(parse_shape_line("1 -2 3"), None);
    assert_eq!(parse_shape_line("1 2.0 3"), None);
    assert_eq!(parse_shape_line("1 + 3"), None);
    assert_eq!(parse_shape_line(""), None);
    assert_eq!(parse_shape_line("1 2 99999999999999999999999"), None);
}

#[test]
fn shape_line_accepts_largest_usize() {
    let line = format!("1 1 {}", usize::MAX);
    assert_eq!(parse_shape_line(&line), Some([1, 1, usize::MAX]));
}

#[test]
fn fields_split_on_any_white_space() {
    let f: Vec<String> = split_fields(" a\u{3000}bc \n d ").iter().map(|v| v.iter().collect()).collect();
    assert_eq!(f, vec!["a", "bc", "d"]);
    assert!(split_fields("   ").is_empty());
}

#[test]
fn header_needs_the_shape_line() {
    let mut lines: Vec<String> = (0..SHAPE_LINE).map(|i| format!("line {}", i)).collect();
    assert_eq!(shape_from_header(&lines), Err(HeaderError::TooFewLines));
    lines.push("  4  5  6".to_string());
    assert_eq!(shape_from_header(&lines), Ok([4, 5, 6]));
    lines[SHAPE_LINE] = "4 5".to_string();
    assert_eq!(shape_from_header(&lines), Err(HeaderError::BadShapeLine));
}
