use wolfram_parser::error_handling::{
    safe_usize_to_u32, increment_check, increment_error, get_stats, reset_stats, InternalError,
    PerfStats,
};

#[test]
fn test_safe_conversion() {
    let result = safe_usize_to_u32(42);
    assert!(result.is_ok());
    assert_eq!(result.unwrap(), 42);
}

#[test]
fn test_safe_conversion_overflow() {
    let large_value = u64::MAX as usize;
    let result = safe_usize_to_u32(large_value);
    assert!(result.is_err());
    assert!(matches!(result.unwrap_err(), InternalError::NumericOverflow { .. }));
}

#[test]
fn test_performance_monitoring() {
    let mut stats = PerfStats::new();
    reset_stats(&mut stats);
    increment_check(&mut stats);
    increment_error(&mut stats);

    let (checks, errors) = get_stats(&stats);
    assert_eq!(checks, 1);
    assert_eq!(errors, 1);
}
