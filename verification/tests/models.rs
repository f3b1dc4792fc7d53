use budget_master_9000::models::{AppStatus, StatusCounts};

#[test]
fn app_status_from_settings() {
    let s = AppStatus::from_settings(true, false, "C:/bm9000.db".into(), true, true, None, Some("1".into()));
    assert!(s.locked);
    assert!(s.lock_enabled);
    assert_eq!(s.theme, "dark");
    assert!(s.needs_category_review);
    assert_eq!(s.db_path, "C:/bm9000.db");
    assert!(s.portable);
    assert!(s.has_data);

    let s = AppStatus::from_settings(true, true, String::new(), false, false, Some("light".into()), Some("0".into()));
    assert!(!s.locked);
    assert_eq!(s.theme, "light");
    assert!(!s.needs_category_review);

    let s = AppStatus::from_settings(false, false, String::new(), false, false, None, None);
    assert!(!s.locked);
    assert!(!s.lock_enabled);
    assert!(!s.needs_category_review);
}

#[test]
fn status_counts_tally() {
    let statuses: Vec<String> = ["under", "on_plan", "over", "unset", "on_plan", "weird"]
        .iter()
        .map(|s| s.to_string())
        .collect();
    let c = StatusCounts::tally(&statuses);
    assert_eq!(c, StatusCounts { under: 1, on_plan: 2, over: 1, unset: 2 });
    assert_eq!(StatusCounts::tally(&vec![]), StatusCounts::default());
    let mut d = StatusCounts::default();
    d.record("over");
    d.record("over");
    assert_eq!(d, StatusCounts { under: 0, on_plan: 0, over: 2, unset: 0 });
}
