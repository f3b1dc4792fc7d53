use budget_master_9000::shell::{
    cli_result_line, parse_cli, prefers_portable, seed_message, start_query,
    ui_selftest_report, CliCommand,
};

fn args(xs: &[&str]) -> Vec<String> {
    xs.iter().map(|s| s.to_string()).collect()
}

#[test]
fn command_line_choices() {
    assert_eq!(parse_cli(&args(&["bm9000"])), CliCommand::RunApp);
    assert_eq!(parse_cli(&args(&["bm9000", "--seed-demo", "--self-test"])), CliCommand::SelfTest);
    assert_eq!(
        parse_cli(&args(&["bm9000", "--seed-demo", "demo.db"])),
        CliCommand::SeedDemo("demo.db".into())
    );
    assert_eq!(
        parse_cli(&args(&["bm9000", "--seed-demo"])),
        CliCommand::SeedDemo("bm9000.db".into())
    );
}

#[test]
fn result_lines() {
    assert_eq!(cli_result_line("SELFTEST", &Ok("fine".into())), "SELFTEST PASS: fine\n");
    assert_eq!(cli_result_line("SEED", &Err("disk".into())), "SEED FAIL: disk\n");
    assert_eq!(ui_selftest_report(true, "all good"), "UI_SELFTEST PASS\nall good\n");
    assert_eq!(ui_selftest_report(false, "x"), "UI_SELFTEST FAIL\nx\n");
    assert_eq!(
        seed_message("/tmp/a.db", 10),
        "Seeded demo database at /tmp/a.db with 10 budget lines"
    );
}

#[test]
fn start_page_query() {
    assert_eq!(start_query(false, ""), "");
    assert_eq!(start_query(true, ""), "?selftest=1");
    assert_eq!(start_query(false, "plan"), "?view=plan");
    assert_eq!(start_query(true, "history"), "?selftest=1&view=history");
    assert_eq!(start_query(false, "admin"), "");
}

#[test]
fn database_location_choice() {
    assert!(prefers_portable(false, false, false, "D:/usb"));
    assert!(!prefers_portable(false, false, true, "D:/usb"));
    assert!(!prefers_portable(false, false, false, "C:/Program Files/BudgetMaster9000"));
    assert!(prefers_portable(true, false, true, "C:/Program Files (x86)/BM"));
    assert!(prefers_portable(false, true, true, "C:/Program Files/BM"));
}
