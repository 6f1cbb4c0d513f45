use std::collections::HashSet;
use wolfram_parser::source::{Location, Span};
use wolfram_parser::tokenize::TrackedSourceLocations;
use wolfram_parser::{
    NodeSeq, NodeSeqError, ParseResult, TokenSeq, CstResult, CstSeqResult, AstResult,
    AstSeqResult,
};

#[test]
fn test_nodeseq_error_handling() {
    let empty: NodeSeq<i32> = NodeSeq(vec![]);
    let single: NodeSeq<i32> = NodeSeq(vec![42]);
    let multiple: NodeSeq<i32> = NodeSeq(vec![1, 2, 3]);

    // Test try_single_ref
    assert_eq!(empty.try_single_ref(), Err(NodeSeqError::Empty));
    assert_eq!(single.try_single_ref(), Ok(&42));
    assert_eq!(multiple.try_single_ref(), Err(NodeSeqError::Multiple(3)));

    // Test try_single consuming
    assert_eq!(single.try_single(), Ok(42));
}

#[test]
fn test_parse_result_ergonomics() {
    // Create a mock ParseResult for testing
    let result_ok = ParseResult {
        syntax: "test".to_string(),
        unsafe_character_encoding: None,
        fatal_issues: vec![],
        non_fatal_issues: vec![],
        tracked_locations: TrackedSourceLocations {
            simple_line_continuations: HashSet::new(),
            complex_line_continuations: HashSet::new(),
            embedded_newlines: HashSet::new(),
            embedded_tabs: HashSet::new(),
        },
    };

    // Test is_ok/is_err
    assert!(result_ok.is_ok());
    assert!(!result_ok.is_err());

    // Test has_issues/has_warnings
    assert!(!result_ok.has_issues());
    assert!(!result_ok.has_warnings());

    // Test syntax access
    assert_eq!(result_ok.syntax().as_str(), "test");
    assert_eq!(result_ok.into_syntax(), "test");
}

#[test]
fn test_source_ergonomics() {
    // Test Location::start
    let start = Location::start();

    // Test Span::point
    let point_span = Span::point(start);
    assert_eq!(point_span.start(), start);
    assert_eq!(point_span.end(), start);

    // Test advance and next_line
    let advanced = start.advance(5);
    let _next_line = start.next_line();

    // Test from_locations
    if advanced >= start {
        let _span = Span::from_locations(start, advanced);
    }
}

#[test]
fn test_type_aliases() {
    // Just verify that the type aliases compile
    fn _test_aliases() {
        let _: Option<TokenSeq> = None;
        let _: Option<CstResult> = None;
        let _: Option<CstSeqResult> = None;
        let _: Option<AstResult> = None;
        let _: Option<AstSeqResult> = None;
    }
}
