use wolfram_parser::paclet::{detect_paclet_header, maybe_decode_paclet, PackletHeader};

#[test]
fn test_paclet_header_detection() {
    // Valid headers
    assert_eq!(
        detect_paclet_header("(*!1N!*)mcm"),
        Some(PackletHeader { version: '1', variant: 'N' })
    );
    assert_eq!(
        detect_paclet_header("(*!2A!*)mcm"),
        Some(PackletHeader { version: '2', variant: 'A' })
    );

    // Invalid headers
    assert_eq!(detect_paclet_header(""), None);
    assert_eq!(detect_paclet_header("(*!1N"), None);
    assert_eq!(detect_paclet_header("NotAPacklet"), None);
    assert_eq!(detect_paclet_header("(*!1N!"), None);
}

#[test]
fn test_header_support() {
    let supported = PackletHeader { version: '1', variant: 'N' };
    let unsupported1 = PackletHeader { version: '2', variant: 'N' };
    let unsupported2 = PackletHeader { version: '1', variant: 'A' };

    assert!(supported.is_supported());
    assert!(!unsupported1.is_supported());
    assert!(!unsupported2.is_supported());
}

#[test]
fn test_maybe_decode_paclet_passthrough() {
    let regular_content = "f[x_] := x + 1";
    let result = maybe_decode_paclet(regular_content).unwrap();
    assert_eq!(result, regular_content);
}

#[test]
fn test_paclet_round_trip() {
    let source = "f[x_] := x + 1";
    let encoded = wolfram_parser::paclet::encode_paclet(source).unwrap();
    assert!(encoded.starts_with("(*!1N!*)mcm\n"));
    let decoded = wolfram_parser::paclet::decode_paclet(&encoded).unwrap();
    assert_eq!(decoded, source);
}
