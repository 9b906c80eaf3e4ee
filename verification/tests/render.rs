use statement_pdf::assets::AssetMap;
use statement_pdf::calendar::StatementDate;
use statement_pdf::model::{ApplicantInput, RecipientInput, SignatureInput, StatementInput};
use statement_pdf::render::{
    build_document, document_files, format_diagnostics, plan_file_assets, DiagnosticText,
    StatementAssets,
};

fn input(signature: Option<SignatureInput>) -> StatementInput {
    StatementInput {
        statement_number: "5".to_string(),
        recipient: RecipientInput {
            position: "p".to_string(),
            company_name: "c".to_string(),
            full_name: "f".to_string(),
        },
        applicant: ApplicantInput { department: "d".to_string(), full_name: "a".to_string() },
        body: "b".to_string(),
        date: StatementDate::from_ymd(2025, 12, 1).unwrap(),
        signature,
    }
}

#[test]
fn view_keeps_texts_and_maps_signature() {
    let sig = SignatureInput {
        image_path: Some("sig.png".to_string()),
        signer_name: Some("J. Roe".to_string()),
    };
    let view = input(Some(sig)).into_view("/stamp.png".to_string());
    assert_eq!(view.date, "01.12.2025");
    assert_eq!(view.body, "b");
    let s = view.signature.unwrap();
    assert_eq!(s.image.unwrap().path, "sig.png");
    assert_eq!(s.signer_name.as_deref(), Some("J. Roe"));
    assert_eq!(view.stamp.path, "/stamp.png");
}

#[test]
fn document_adds_stamp_to_signature_images() {
    let mut images = AssetMap::new();
    images.insert("sig.png".to_string(), vec![9]);
    images.insert("/stamp.png".to_string(), vec![0]);
    let assets = StatementAssets { stamp_png: Some(vec![7, 7]), signature_images: images };
    let doc = build_document(input(None), assets);
    assert_eq!(doc.assets.len(), 2);
    assert_eq!(doc.assets.get(&"/stamp.png".to_string()), Some(&vec![7, 7]));
    assert_eq!(doc.assets.get(&"sig.png".to_string()), Some(&vec![9]));
}

#[test]
fn plans_assets_next_to_the_file() {
    let sig = SignatureInput { image_path: Some("img/sig.png".to_string()), signer_name: None };
    let plan = plan_file_assets(&input(Some(sig)), "/data");
    assert_eq!(plan.stamp_path, "/data/stamp.png");
    assert_eq!(
        plan.signature_image,
        Some(("img/sig.png".to_string(), "/data/img/sig.png".to_string()))
    );
    let abs = SignatureInput { image_path: Some("/x/sig.png".to_string()), signer_name: None };
    let plan = plan_file_assets(&input(Some(abs)), "");
    assert_eq!(plan.stamp_path, "stamp.png");
    assert_eq!(plan.signature_image.unwrap().1, "/x/sig.png");
    assert!(plan_file_assets(&input(None), ".").signature_image.is_none());
}

#[test]
fn diagnostics_text() {
    let ds = vec![
        DiagnosticText { message: "unknown variable".to_string(), hints: vec!["h1".to_string(), "h2".to_string()] },
        DiagnosticText { message: "second".to_string(), hints: vec![] },
    ];
    assert_eq!(format_diagnostics(&ds), "unknown variable\nhelp: h1\nhelp: h2\nsecond");
    assert_eq!(format_diagnostics(&vec![]), "");
}

#[test]
fn file_table_puts_each_asset_at_its_typst_path() {
    let mut assets = AssetMap::new();
    assets.insert("stamp.png".to_string(), vec![1]);
    assets.insert("/stamp.png".to_string(), vec![2]);
    assets.insert("./img/../sig.png".to_string(), vec![3]);
    let files = document_files("{}", assets);
    assert_eq!(
        files.into_entries(),
        vec![
            ("/sig.png".to_string(), vec![3]),
            ("/stamp.png".to_string(), vec![1]),
            ("/statement.json".to_string(), b"{}".to_vec()),
        ]
    );
}
