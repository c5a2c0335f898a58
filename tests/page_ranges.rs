use dochub_core::error::{AppError, ValidationError};
use dochub_core::page_range::{validate_ranges, PageRange, PageRangeParser};

fn is_invalid_page_range<T>(r: &Result<T, AppError>) -> bool {
    matches!(r, Err(AppError::Validation(ValidationError::InvalidPageRange { .. })))
}

#[test]
fn test_page_range_creation() -> Result<(), AppError> {
    let range = PageRange::new(1, 5)?;
    assert_eq!(range.start, 1);
    assert_eq!(range.end, 5);
    assert_eq!(range.page_count(), 5);
    assert!(range.contains(3));
    assert!(!range.contains(6));

    let single = PageRange::single(3)?;
    assert_eq!(single.start, 3);
    assert_eq!(single.end, 3);
    assert_eq!(single.page_count(), 1);
    Ok(())
}

#[test]
fn test_page_range_invalid() {
    assert!(PageRange::new(0, 5).is_err());
    assert!(PageRange::new(5, 3).is_err());
}

#[test]
fn test_page_range_from_str() -> Result<(), AppError> {
    let range1 = PageRange::from_str("1-5")?;
    assert_eq!(range1.start, 1);
    assert_eq!(range1.end, 5);

    let range2 = PageRange::from_str("3")?;
    assert_eq!(range2.start, 3);
    assert_eq!(range2.end, 3);

    assert!(PageRange::from_str("1-2-3").is_err());
    assert!(PageRange::from_str("a-b").is_err());
    Ok(())
}

#[test]
fn test_page_range_parser() -> Result<(), AppError> {
    let ranges = PageRangeParser::parse_ranges("1-3,5,7-10")?;
    assert_eq!(ranges.len(), 3);
    assert_eq!(ranges[0], PageRange::new(1, 3)?);
    assert_eq!(ranges[1], PageRange::single(5)?);
    assert_eq!(ranges[2], PageRange::new(7, 10)?);

    let ranges = PageRangeParser::from_pairs(&vec![(1, 3), (5, 5), (7, 10)])?;
    assert_eq!(ranges.len(), 3);

    assert!(PageRangeParser::parse_ranges("1-3,2-5").is_err());
    Ok(())
}

#[test]
fn test_page_range_validation() -> Result<(), AppError> {
    let range = PageRange::new(1, 10)?;
    assert_eq!(range.start, 1);
    assert_eq!(range.end, 10);
    assert_eq!(range.page_count(), 10);

    let single = PageRange::single(5)?;
    assert_eq!(single.start, 5);
    assert_eq!(single.end, 5);
    assert_eq!(single.page_count(), 1);

    assert!(PageRange::new(0, 5).is_err());
    assert!(PageRange::new(10, 5).is_err());
    Ok(())
}

#[test]
fn parser_yields_exact_ranges_in_input_order() {
    let ranges = PageRangeParser::parse_ranges("1-3,5,7-10").unwrap();
    assert_eq!(
        ranges,
        vec![
            PageRange { start: 1, end: 3 },
            PageRange { start: 5, end: 5 },
            PageRange { start: 7, end: 10 }
        ]
    );
    let unsorted = PageRangeParser::parse_ranges("7-10, 1-3").unwrap();
    assert_eq!(unsorted, vec![PageRange { start: 7, end: 10 }, PageRange { start: 1, end: 3 }]);
}

#[test]
fn parser_rejects_overlap_start_zero_and_reversed() {
    assert!(is_invalid_page_range(&PageRangeParser::parse_ranges("1-3,2-5")));
    assert!(is_invalid_page_range(&PageRangeParser::parse_ranges("0-3")));
    assert!(is_invalid_page_range(&PageRangeParser::parse_ranges("5-2")));
    assert!(is_invalid_page_range(&PageRangeParser::parse_ranges("4-6,1-4")));
}

#[test]
fn parser_rejects_empty_input_and_non_digits() {
    assert!(is_invalid_page_range(&PageRangeParser::parse_ranges("")));
    assert!(is_invalid_page_range(&PageRangeParser::parse_ranges(" , ,")));
    assert!(is_invalid_page_range(&PageRangeParser::parse_ranges("1,x")));
    assert!(is_invalid_page_range(&PageRangeParser::parse_ranges("+5")));
    assert!(is_invalid_page_range(&PageRangeParser::parse_ranges("4294967296")));
}

#[test]
fn parser_trims_tokens_and_skips_empty_ones() {
    let ranges = PageRangeParser::parse_ranges(" 2 ,, 4-6 ,").unwrap();
    assert_eq!(ranges, vec![PageRange { start: 2, end: 2 }, PageRange { start: 4, end: 6 }]);
    let largest = PageRangeParser::parse_ranges("4294967295").unwrap();
    assert_eq!(largest, vec![PageRange { start: 4294967295, end: 4294967295 }]);
}

#[test]
fn range_text_and_expansion() {
    assert_eq!(PageRange { start: 3, end: 3 }.to_string(), "3");
    assert_eq!(PageRange { start: 12, end: 140 }.to_string(), "12-140");
    assert_eq!(PageRange { start: 4, end: 7 }.expand(), vec![4, 5, 6, 7]);
    let list = PageRangeParser::ranges_to_page_list(&vec![
        PageRange { start: 1, end: 2 },
        PageRange { start: 5, end: 6 },
    ]);
    assert_eq!(list, vec![1, 2, 5, 6]);
}

#[test]
fn no_overlap_check_ignores_input_order() {
    assert!(PageRangeParser::validate_no_overlaps(&vec![
        PageRange { start: 8, end: 9 },
        PageRange { start: 1, end: 2 }
    ])
    .is_ok());
    assert!(is_invalid_page_range(&PageRangeParser::validate_no_overlaps(&vec![
        PageRange { start: 8, end: 9 },
        PageRange { start: 1, end: 8 }
    ])));
}

#[test]
fn page_lists_are_checked_against_the_page_count() {
    let ok = vec!["1-5".to_string(), "7".to_string(), "9-12".to_string()];
    assert!(validate_ranges(&ok, 12).is_ok());
    assert!(is_invalid_page_range(&validate_ranges(&ok, 11)));
    assert!(is_invalid_page_range(&validate_ranges(&vec!["0".to_string()], 3)));
    assert!(is_invalid_page_range(&validate_ranges(&vec!["3-1".to_string()], 3)));
    assert!(is_invalid_page_range(&validate_ranges(&vec!["1-2-3".to_string()], 3)));
    assert!(is_invalid_page_range(&validate_ranges(&vec![" , ".to_string()], 3)));
    assert!(validate_ranges(&vec!["".to_string(), "2".to_string()], 3).is_ok());
    assert!(is_invalid_page_range(&validate_ranges(&vec!["9 - 12".to_string()], 12)));
    assert!(is_invalid_page_range(&validate_ranges(&vec!["1,1".to_string()], 10)));
    assert!(is_invalid_page_range(&validate_ranges(&vec!["1-3".to_string(), "3".to_string()], 10)));
}
