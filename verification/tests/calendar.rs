use statement_pdf::calendar::StatementDate;

#[test]
fn dates_that_exist() {
    assert!(StatementDate::from_ymd(2024, 2, 29).is_some());
    assert!(StatementDate::from_ymd(2023, 2, 29).is_none());
    assert!(StatementDate::from_ymd(2000, 2, 29).is_some());
    assert!(StatementDate::from_ymd(1900, 2, 29).is_none());
    assert!(StatementDate::from_ymd(2026, 4, 31).is_none());
    assert!(StatementDate::from_ymd(2026, 13, 1).is_none());
    assert!(StatementDate::from_ymd(2026, 0, 1).is_none());
    assert!(StatementDate::from_ymd(2026, 1, 0).is_none());
    assert!(StatementDate::from_ymd(262142, 12, 31).is_some());
    assert!(StatementDate::from_ymd(262143, 1, 1).is_none());
    assert!(StatementDate::from_ymd(-262143, 1, 1).is_some());
    assert!(StatementDate::from_ymd(-262144, 1, 1).is_none());
    assert!(StatementDate::from_ymd(-4, 2, 29).is_some());
    assert!(StatementDate::from_ymd(-1, 2, 29).is_none());
}

#[test]
fn date_validity_matches_chrono() {
    for year in [-400, -100, -4, -1, 0, 1, 4, 100, 400, 1900, 2000, 2023, 2024] {
        for month in 0..=13u32 {
            for day in 0..=32u32 {
                assert_eq!(
                    StatementDate::from_ymd(year, month, day).is_some(),
                    chrono::NaiveDate::from_ymd_opt(year, month, day).is_some(),
                    "{year}-{month}-{day}"
                );
            }
        }
    }
}

#[test]
fn getters() {
    let d = StatementDate::from_ymd(2026, 4, 20).unwrap();
    assert_eq!((d.year(), d.month(), d.day()), (2026, 4, 20));
}

#[test]
fn dmy_text() {
    assert_eq!(StatementDate::from_ymd(2026, 4, 20).unwrap().format_dmy(), "20.04.2026");
    assert_eq!(StatementDate::from_ymd(7, 1, 2).unwrap().format_dmy(), "02.01.0007");
    assert_eq!(StatementDate::from_ymd(-1, 12, 31).unwrap().format_dmy(), "31.12.-0001");
    assert_eq!(StatementDate::from_ymd(12345, 3, 9).unwrap().format_dmy(), "09.03.+12345");
}
