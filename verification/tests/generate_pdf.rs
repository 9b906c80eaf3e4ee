use statement_pdf::calendar::StatementDate;
use statement_pdf::error::StatementPdfError;
use statement_pdf::model::{ApplicantInput, RecipientInput, StatementInput};
use statement_pdf::render::{prepare_document, StatementAssets};

fn statement(number: &str) -> StatementInput {
    StatementInput {
        statement_number: number.to_string(),
        recipient: RecipientInput {
            position: "Генеральному директору".to_string(),
            company_name: "ООО \"Рога и Копыта\"".to_string(),
            full_name: "Кабанову К. К.".to_string(),
        },
        applicant: ApplicantInput {
            department: "Отдел разработки программного обеспечения".to_string(),
            full_name: "Иванов Иван Иванович".to_string(),
        },
        body: "Прошу предоставить мне ДМС.".to_string(),
        date: StatementDate::from_ymd(2026, 4, 20).unwrap(),
        signature: None,
    }
}

#[test]
fn rejects_blank_required_fields() {
    let error = prepare_document(statement(""), StatementAssets::default())
        .expect_err("blank statement number must fail");

    match error {
        StatementPdfError::Validation(errors) => {
            assert_eq!(errors.0[0].field, "statement_number");
        }
        other => panic!("expected validation error, got {other:?}"),
    }
}

#[test]
fn valid_statement_becomes_document_with_stamp() {
    let mut assets = StatementAssets::default();
    assets.stamp_png = Some(vec![1, 2, 3]);
    let doc = prepare_document(statement("42"), assets).expect("valid statement");
    assert_eq!(doc.view.statement_number, "42");
    assert_eq!(doc.view.date, "20.04.2026");
    assert_eq!(doc.view.stamp.path, "/stamp.png");
    assert!(doc.view.signature.is_none());
    assert_eq!(doc.assets.len(), 1);
    assert_eq!(doc.assets.get(&"/stamp.png".to_string()), Some(&vec![1, 2, 3]));
}
