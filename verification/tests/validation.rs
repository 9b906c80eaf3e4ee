use statement_pdf::calendar::StatementDate;
use statement_pdf::error::ValidationError;
use statement_pdf::model::{ApplicantInput, RecipientInput, SignatureInput, StatementInput};
use statement_pdf::text::is_blank_text;
use statement_pdf::validation::{require_non_blank, validate_statement};

fn valid() -> StatementInput {
    StatementInput {
        statement_number: "17".to_string(),
        recipient: RecipientInput {
            position: "Director".to_string(),
            company_name: "Acme".to_string(),
            full_name: "Jane Roe".to_string(),
        },
        applicant: ApplicantInput {
            department: "R&D".to_string(),
            full_name: "John Doe".to_string(),
        },
        body: "Please grant me leave.".to_string(),
        date: StatementDate::from_ymd(2024, 2, 29).unwrap(),
        signature: None,
    }
}

const WHITE_SPACE: [u32; 25] = [
    0x09, 0x0A, 0x0B, 0x0C, 0x0D, 0x20, 0x85, 0xA0, 0x1680, 0x2000, 0x2001, 0x2002, 0x2003,
    0x2004, 0x2005, 0x2006, 0x2007, 0x2008, 0x2009, 0x200A, 0x2028, 0x2029, 0x202F, 0x205F,
    0x3000,
];

#[test]
fn white_space_set_matches_char_is_whitespace() {
    for code in 0u32..=0x10FFFF {
        if let Some(c) = char::from_u32(code) {
            assert_eq!(c.is_whitespace(), WHITE_SPACE.contains(&code), "char {code:#x}");
        }
    }
}

#[test]
fn blank_text_is_white_space_only() {
    assert!(is_blank_text(""));
    assert!(is_blank_text(" \t\n\u{3000}\u{a0}"));
    assert!(!is_blank_text(" a "));
    assert!(!is_blank_text("\u{200B}"));
    for code in WHITE_SPACE {
        let s: String = [char::from_u32(code).unwrap(); 3].iter().collect();
        assert!(is_blank_text(&s));
    }
}

#[test]
fn valid_statement_passes() {
    assert_eq!(validate_statement(&valid()), Ok(()));
}

#[test]
fn every_blank_field_is_reported_in_order() {
    let mut input = valid();
    input.statement_number = " ".to_string();
    input.recipient.position = String::new();
    input.recipient.company_name = "\t".to_string();
    input.recipient.full_name = "\n".to_string();
    input.applicant.department = "\u{3000}".to_string();
    input.applicant.full_name = "  ".to_string();
    input.body = String::new();
    input.signature = Some(SignatureInput { image_path: None, signer_name: Some(" ".to_string()) });
    let errors = validate_statement(&input).unwrap_err();
    let fields: Vec<&str> = errors.0.iter().map(|e| e.field).collect();
    assert_eq!(
        fields,
        vec![
            "statement_number",
            "recipient.position",
            "recipient.company_name",
            "recipient.full_name",
            "applicant.department",
            "applicant.full_name",
            "body",
            "signature.signer_name",
        ]
    );
    assert_eq!(errors.0[0].message, "must not be empty");
    assert_eq!(errors.0[7].message, "must not be blank when present");
}

#[test]
fn body_of_4000_chars_passes_and_4001_fails() {
    let mut input = valid();
    input.body = "я".repeat(4000);
    assert_eq!(validate_statement(&input), Ok(()));
    input.body = "я".repeat(4001);
    let errors = validate_statement(&input).unwrap_err();
    assert_eq!(errors.0.len(), 1);
    assert_eq!(errors.0[0], ValidationError::new("body", "must be at most 4000 characters"));
}

#[test]
fn absent_signer_name_is_not_checked() {
    let mut input = valid();
    input.signature = Some(SignatureInput { image_path: Some(" ".to_string()), signer_name: None });
    assert_eq!(validate_statement(&input), Ok(()));
}

#[test]
fn require_non_blank_appends_only_for_blank() {
    let mut errors = Vec::new();
    require_non_blank(&mut errors, "x", "value", "must not be empty");
    assert!(errors.is_empty());
    require_non_blank(&mut errors, "x", "   ", "must not be empty");
    assert_eq!(errors, vec![ValidationError::new("x", "must not be empty")]);
}
