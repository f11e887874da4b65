use ghciwatch::ghci::parse::ghc_message::severity::{parse_severity_colon, Severity};

#[test]
fn test_parse_severity() {
    assert_eq!(parse_severity_colon("Warning:").unwrap(), Severity::Warning);
    assert_eq!(parse_severity_colon("warning:").unwrap(), Severity::Warning);
    assert_eq!(parse_severity_colon("Error:").unwrap(), Severity::Error);
    assert_eq!(parse_severity_colon("error:").unwrap(), Severity::Error);

    // Negative cases.
    assert!(parse_severity_colon(" Error:").is_err());
    assert!(parse_severity_colon("Error :").is_err());
    assert!(parse_severity_colon("Error: ").is_err());
    assert!(parse_severity_colon(" Warning:").is_err());
    assert!(parse_severity_colon("Warning :").is_err());
    assert!(parse_severity_colon("Warning: ").is_err());
    assert!(parse_severity_colon("W arning:").is_err());
}

#[test]
fn severity_text() {
    assert_eq!(Severity::Warning.to_string(), "warning");
    assert_eq!(Severity::Error.to_string(), "error");
}
