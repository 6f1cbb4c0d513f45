use wolfram_parser::string_interner::LocalInterner;

#[test]
fn test_local_interner() {
    let mut interner = LocalInterner::new();

    let symbol1 = interner.intern("test");
    let symbol2 = interner.intern("test");

    // Same string should return same symbol
    assert_eq!(symbol1, symbol2);

    // Should resolve back to original string
    assert_eq!(interner.resolve(symbol1), "test");
}

#[test]
fn test_prepopulated_operators() {
    let interner = LocalInterner::new();

    // Check that common operators are pre-populated
    assert!(interner.len() > 20);
}

#[test]
fn test_cleanup() {
    let mut interner = LocalInterner::new();
    let initial_len = interner.len();

    // Add many strings
    for i in 0..100 {
        interner.intern(&format!("test_{}", i));
    }

    assert!(interner.len() > initial_len + 90);

    // Cleanup should reset to just the pre-populated strings
    interner.cleanup();
    assert_eq!(interner.len(), initial_len);
}
