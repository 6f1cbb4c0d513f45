use wolfram_parser::newtypes::{TabWidth, LineNumber, ColumnNumber};

#[test]
fn test_tab_width_validation() {
    assert!(TabWidth::new(0).is_none());
    assert!(TabWidth::new(1).is_some());
    assert!(TabWidth::new(8).is_some());

    assert_eq!(TabWidth::default().get(), 4);
    assert_eq!(TabWidth::new(2).unwrap().get(), 2);
}

#[test]
fn test_line_number_validation() {
    assert!(LineNumber::new(0).is_none());
    assert!(LineNumber::new(1).is_some());

    assert_eq!(LineNumber::first().get(), 1);
    assert_eq!(LineNumber::new(42).unwrap().get(), 42);
}

#[test]
fn test_column_number_validation() {
    assert!(ColumnNumber::new(0).is_none());
    assert!(ColumnNumber::new(1).is_some());

    assert_eq!(ColumnNumber::first().get(), 1);
    assert_eq!(ColumnNumber::new(80).unwrap().get(), 80);
}
