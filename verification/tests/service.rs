use statement_pdf::calendar::ClockReading;
use statement_pdf::paths::resolve_download_path;
use statement_pdf::service::{
    build_file_name, content_disposition, download_failure_reply, download_headers, download_url, file_name_at, file_name_for, health_report,
    plan_download, request_failure_reply, request_receipt, sanitize_statement_number,
    DownloadFailure, RequestFailure,
};

#[test]
fn sanitizes_statement_numbers() {
    assert_eq!(sanitize_statement_number("A-17/2026 №5"), "A-17_2026__5");
    assert_eq!(sanitize_statement_number("ok_Name-9"), "ok_Name-9");
    assert_eq!(sanitize_statement_number(""), "");
    let once = sanitize_statement_number("../../x y");
    assert_eq!(sanitize_statement_number(&once), once);
}

#[test]
fn file_name_for_given_timestamp() {
    assert_eq!(file_name_for("A/1", "20260420120000"), "A_1_20260420120000.pdf");
    assert_eq!(file_name_for("", "20260420120000"), "_20260420120000.pdf");
}

#[test]
fn built_file_names_are_served() {
    for number in ["17", "../../etc", "/", "..", "a.pdf", "", "№ 5"] {
        let name = build_file_name(number).expect("the clock reads after 1970");
        assert!(name.ends_with(".pdf"));
        let stamp = &name[name.len() - 18..name.len() - 4];
        assert!(stamp.chars().all(|c| c.is_ascii_digit()), "{name}");
        assert_eq!(resolve_download_path(&name), Some(format!("tmp/{name}")));
    }
}

#[test]
fn urls_and_headers() {
    assert_eq!(download_url("a.pdf"), "/api/v1/request/download/a.pdf");
    assert_eq!(content_disposition("a.pdf"), "attachment; filename=\"a.pdf\"");
    let receipt = request_receipt("17".to_string(), "17_1.pdf".to_string());
    assert_eq!(receipt.statement_number, "17");
    assert_eq!(receipt.file_name, "17_1.pdf");
    assert_eq!(receipt.download_url, "/api/v1/request/download/17_1.pdf");
}

#[test]
fn failure_replies() {
    let r = request_failure_reply(RequestFailure::StampUnreadable);
    assert_eq!((r.status, r.message.as_str()), (500, "stamp.png is missing or unreadable"));
    let r = request_failure_reply(RequestFailure::Render("x".to_string()));
    assert_eq!((r.status, r.message.as_str()), (400, "x"));
    let r = request_failure_reply(RequestFailure::PersistFailed);
    assert_eq!((r.status, r.message.as_str()), (500, "failed to persist generated PDF"));
    let r = download_failure_reply(DownloadFailure::InvalidName);
    assert_eq!((r.status, r.message.as_str()), (400, "invalid file name"));
    let r = download_failure_reply(DownloadFailure::NotFound);
    assert_eq!((r.status, r.message.as_str()), (404, "file not found"));
    let r = download_failure_reply(DownloadFailure::Unreadable);
    assert_eq!((r.status, r.message.as_str()), (500, "failed to read generated PDF"));
    let r = download_failure_reply(DownloadFailure::BadHeaders);
    assert_eq!((r.status, r.message.as_str()), (500, "failed to build download headers"));
}

#[test]
fn plans_downloads() {
    assert_eq!(plan_download("a.pdf").ok(), Some("tmp/a.pdf".to_string()));
    let e = plan_download("../a.pdf").unwrap_err();
    assert_eq!((e.status, e.message.as_str()), (400, "invalid file name"));
}

#[test]
fn file_names_at_given_times() {
    assert_eq!(file_name_at("A/1", 0, 0), Some("A_1_19700101000000.pdf".to_string()));
    assert_eq!(file_name_at("x", 1_700_000_000, 5), Some("x_20231114221320.pdf".to_string()));
    assert_eq!(file_name_at("x", -1, 0), Some("x_19691231235959.pdf".to_string()));
    assert_eq!(file_name_at("x", i64::MAX, 0), None);
}

#[test]
fn health_reports() {
    let started = ClockReading::checked(2026, 4, 20, 9, 5, 7).unwrap();
    let report = health_report(&started, 42);
    assert_eq!(report.startup_timestamp, "20/04/2026 09:05:07");
    assert_eq!(report.uptime, "42s");
    assert_eq!(health_report(&started, -3).uptime, "-3s");
    assert_eq!(health_report(&started, 0).uptime, "0s");
    assert!(ClockReading::checked(2026, 2, 30, 0, 0, 0).is_none());
    assert!(ClockReading::checked(2026, 2, 28, 24, 0, 0).is_none());
    assert!(ClockReading::checked(2026, 2, 28, 23, 60, 0).is_none());
    assert!(ClockReading::checked(2026, 2, 28, 23, 59, 60).is_some());
    assert!(ClockReading::checked(2026, 2, 28, 23, 59, 61).is_none());
}

#[test]
fn download_headers_follow_the_header_value_rule() {
    let h = download_headers("a.pdf").unwrap();
    assert_eq!(h.content_type, "application/pdf");
    assert_eq!(h.content_disposition, "attachment; filename=\"a.pdf\"");
    assert!(download_headers("é b\t.pdf").is_ok());
    for bad in ["a\n.pdf", "\u{7f}.pdf", "\u{0}", "x\ry"] {
        assert!(matches!(download_headers(bad), Err(DownloadFailure::BadHeaders)), "{bad:?}");
    }
    for code in 0u32..=0x200 {
        let c = char::from_u32(code).unwrap();
        let name = format!("a{c}.pdf");
        let expected = axum::http::HeaderValue::from_str(&content_disposition(&name)).is_ok();
        assert_eq!(download_headers(&name).is_ok(), expected, "{code:#x}");
    }
    let generated = build_file_name("№ 5/\n").unwrap();
    assert!(download_headers(&generated).is_ok());
}
