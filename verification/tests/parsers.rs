use cove::attachment_commands::parsers::{extract_slide_index, parse_page_range};

#[test]
fn page_range_basics() {
    assert_eq!(parse_page_range("1,3,5", 10), vec![1, 3, 5]);
    assert_eq!(parse_page_range("2-5", 10), vec![2, 3, 4, 5]);
    assert_eq!(parse_page_range("1,3-5,7", 10), vec![1, 3, 4, 5, 7]);
}

#[test]
fn page_range_reversed() {
    assert_eq!(parse_page_range("5-2", 10), vec![2, 3, 4, 5]);
}

#[test]
fn page_range_edge_cases() {
    assert_eq!(parse_page_range("1,99", 5), vec![1]); // out of bounds
    assert_eq!(parse_page_range("1,1,2", 10), vec![1, 2]); // dedup
    let empty: Vec<usize> = vec![];
    assert_eq!(parse_page_range("", 10), empty);
    assert_eq!(parse_page_range("abc", 10), empty);
}

#[test]
fn page_range_odd_items() {
    let empty: Vec<usize> = vec![];
    assert_eq!(parse_page_range(" 3 , 1 - 2 ,,", 10), vec![1, 2, 3]);
    assert_eq!(parse_page_range("+4", 10), vec![4]);
    assert_eq!(parse_page_range("-4", 10), empty);
    assert_eq!(parse_page_range("0", 10), empty);
    assert_eq!(parse_page_range("0-3", 10), empty);
    assert_eq!(parse_page_range("2-", 10), empty);
    assert_eq!(parse_page_range("1-2-3", 10), empty);
    assert_eq!(parse_page_range("8-20", 10), vec![8, 9, 10]);
    assert_eq!(parse_page_range("7,2-3,2", 10), vec![2, 3, 7]);
    assert_eq!(parse_page_range("1", 0), empty);
    assert_eq!(parse_page_range("99999999999999999999999999", 10), empty);
    assert_eq!(parse_page_range("3-99999999999999999999999999", 10), empty);
}

#[test]
fn slide_index() {
    assert_eq!(extract_slide_index("ppt/slides/slide3.xml"), 3);
    assert_eq!(extract_slide_index("ppt/slides/slide12.xml"), 12);
    assert_eq!(extract_slide_index("garbage"), 0);
}

#[test]
fn slide_index_odd_names() {
    assert_eq!(extract_slide_index("slide7.xml"), 7);
    assert_eq!(extract_slide_index("slide7"), 7);
    assert_eq!(extract_slide_index("ppt/slide7"), 0);
    assert_eq!(extract_slide_index("slide.xml"), 0);
    assert_eq!(extract_slide_index("ppt/slides/slideX.xml"), 0);
    assert_eq!(extract_slide_index("ppt/slides/notes3.xml"), 0);
    assert_eq!(extract_slide_index(""), 0);
}
