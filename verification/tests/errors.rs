use statement_pdf::error::{StatementPdfError, ValidationError, ValidationErrors};

#[test]
fn validation_errors_text() {
    let errors = ValidationErrors::new(vec![
        ValidationError::new("statement_number", "must not be empty"),
        ValidationError::new("body", "must be at most 4000 characters"),
    ]);
    assert!(!errors.is_empty());
    assert_eq!(
        errors.describe(),
        "statement_number must not be empty; body must be at most 4000 characters"
    );
    assert!(ValidationErrors::new(Vec::new()).is_empty());
    assert_eq!(ValidationErrors::new(Vec::new()).describe(), "");
}

#[test]
fn validation_error_new_keeps_field_and_message() {
    let e = ValidationError::new("body", "bad");
    assert_eq!(e.field, "body");
    assert_eq!(e.message, "bad");
}

#[test]
fn error_texts() {
    let io = StatementPdfError::Io(std::io::Error::new(std::io::ErrorKind::Other, "x"));
    assert_eq!(io.describe(), "failed to read or write file");
    let json = StatementPdfError::Json(serde_json::from_str::<serde_json::Value>("{").unwrap_err());
    assert_eq!(json.describe(), "failed to parse statement JSON");
    let v = StatementPdfError::Validation(ValidationErrors::new(vec![ValidationError::new(
        "body",
        "must not be empty",
    )]));
    assert_eq!(v.describe(), "statement validation failed: body must not be empty");
    assert_eq!(
        StatementPdfError::Typst("oops".to_string()).describe(),
        "Typst compilation failed:\noops"
    );
    assert_eq!(StatementPdfError::Pdf("bad".to_string()).describe(), "PDF export failed: bad");
    assert_eq!(
        StatementPdfError::AssetNotFound { path: "dir/sig.png".to_string() }.describe(),
        "asset not found: dir/sig.png"
    );
}
