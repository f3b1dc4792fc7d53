use budget_master_9000::update::{package_name_rule, zip_name_rule};
use budget_master_9000::models::UpdateCheck;
use budget_master_9000::update::{
    asset_is_packaged, assemble_package, find_zip_asset, latest_release_api_url, package_entry,
    plan_update_package, releases_page, tag_version, tester_check_status, tester_download_status,
    update_check_from, upgrade_instructions, GhAsset, GhRelease, PackageSource, ReleaseResponse,
};

fn asset(name: &str, size: u64) -> GhAsset {
    GhAsset {
        name: name.to_string(),
        browser_download_url: format!("https://example.invalid/{name}"),
        size,
    }
}

fn release(tag: &str, assets: Vec<GhAsset>) -> GhRelease {
    GhRelease {
        tag_name: tag.to_string(),
        html_url: "https://github.com/codemonkey2k5/BudgetMaster9000/releases/tag/x".to_string(),
        assets,
    }
}

#[test]
fn upgrade_text_mentions_both_choices() {
    let t = upgrade_instructions("1.2.0", "1.1.0");
    assert!(t.contains("INSTALLER"));
    assert!(t.contains("PORTABLE"));
    assert!(t.contains("bm9000.db"));
}

#[test]
fn upgrade_text_names_versions_and_source() {
    let t = upgrade_instructions("2.0.0", "1.2.0");
    assert!(t.starts_with("Budget Master 9000 — Upgrade instructions\n"));
    assert!(t.contains("You are updating from 1.2.0 to 2.0.0.\n"));
    assert!(t.ends_with("Download source: https://github.com/codemonkey2k5/BudgetMaster9000/releases\n"));
}

#[test]
fn release_addresses() {
    assert_eq!(
        latest_release_api_url(),
        "https://api.github.com/repos/codemonkey2k5/BudgetMaster9000/releases/latest"
    );
    assert_eq!(releases_page(), "https://github.com/codemonkey2k5/BudgetMaster9000/releases");
}

#[test]
fn tags_lose_leading_v() {
    assert_eq!(tag_version("v1.2.0"), "1.2.0");
    assert_eq!(tag_version("vv3"), "3");
    assert_eq!(tag_version("1.0.0v"), "1.0.0v");
    assert_eq!(tag_version(""), "");
}

#[test]
fn update_check_reports_newer_release() {
    let rel = release("v1.3.0", vec![asset("Setup.exe", 10), asset("Portable.ZIP", 5), asset("b.zip", 1)]);
    let c = update_check_from("1.2.0".to_string(), ReleaseResponse::Release(rel));
    assert!(c.update_available);
    assert_eq!(c.current_version, "1.2.0");
    assert_eq!(c.latest_version, "1.3.0");
    assert_eq!(c.zip_asset_name.as_deref(), Some("Portable.ZIP"));
    assert!(c.checked);
    assert!(c.error.is_none());
    assert!(c.release_url.ends_with("/tag/x"));
}

#[test]
fn update_check_same_version_is_not_available() {
    let c = update_check_from("1.2.0".to_string(), ReleaseResponse::Release(release("v1.2.0", vec![])));
    assert!(!c.update_available);
    assert!(c.zip_asset_name.is_none());
}

#[test]
fn update_check_failures_report_errors() {
    let c = update_check_from("1.2.0".to_string(), ReleaseResponse::Unreachable("timed out".into()));
    assert!(!c.update_available);
    assert_eq!(c.latest_version, "1.2.0");
    assert_eq!(c.error.as_deref(), Some("Offline or unreachable: timed out"));
    assert_eq!(c.release_url, "https://github.com/codemonkey2k5/BudgetMaster9000/releases");
    let c = update_check_from("1.2.0".to_string(), ReleaseResponse::Unparsable("eof".into()));
    assert_eq!(c.error.as_deref(), Some("Could not parse GitHub response: eof"));
    assert!(c.checked);
}

#[test]
fn zip_asset_is_first_zip() {
    let assets = vec![asset("a.exe", 1), asset("x.Zip", 1), asset("y.zip", 1)];
    assert_eq!(find_zip_asset(&assets), Some(1));
    assert_eq!(find_zip_asset(&vec![asset("a.exe", 1)]), None);
}

#[test]
fn package_files_are_installers_and_checksums() {
    assert!(asset_is_packaged(&asset("BudgetMaster9000.exe", 100)));
    assert!(asset_is_packaged(&asset("app.MSI", 100)));
    assert!(asset_is_packaged(&asset("BudgetMaster9000-Setup-1.3.0-x64.bin", 100)));
    assert!(asset_is_packaged(&asset("SHA256SUMS.txt", 100)));
    assert!(!asset_is_packaged(&asset("notes.md", 100)));
    assert!(asset_is_packaged(&asset("huge.exe", 80_000_000)));
    assert!(!asset_is_packaged(&asset("huge.exe", 80_000_001)));
}

#[test]
fn package_plan_prefers_release_zip() {
    let rel = release("v2.0.0", vec![asset("a.exe", 1), asset("pkg.zip", 1)]);
    let plan = plan_update_package("1.2.0", &rel).unwrap();
    assert_eq!(plan.latest, "2.0.0");
    assert_eq!(plan.file_name, "BudgetMaster9000-2.0.0-Windows.zip");
    assert!(matches!(plan.source, PackageSource::ReleaseZip(1)));
}

#[test]
fn package_plan_assembles_installers() {
    let rel = release(
        "2.0.0",
        vec![asset("readme.md", 1), asset("a.exe", 1), asset("big.msi", 90_000_000), asset("SUMS.txt", 1)],
    );
    let plan = plan_update_package("1.2.0", &rel).unwrap();
    match plan.source {
        PackageSource::Assemble(picks) => assert_eq!(picks, vec![1, 3]),
        _ => panic!("expected an assembled package"),
    }
}

#[test]
fn package_plan_refuses_when_current() {
    let rel = release("v1.2.0", vec![asset("a.exe", 1)]);
    assert_eq!(
        plan_update_package("1.2.0", &rel).err().as_deref(),
        Some("You already have the latest version.")
    );
}

#[test]
fn package_entries_and_assembly() {
    let ok = package_entry("a.exe", Ok(vec![1, 2, 3]));
    assert_eq!(ok, ("a.exe".to_string(), vec![1, 2, 3]));
    let failed = package_entry("b.msi", Err("404".to_string()));
    assert_eq!(failed.0, "FAILED_b.msi.txt");
    assert_eq!(failed.1, b"Could not download b.msi: 404".to_vec());

    let page = "https://github.com/codemonkey2k5/BudgetMaster9000/releases/tag/v2";
    assert_eq!(
        assemble_package("2.0.0", "1.2.0", vec![], page).err().unwrap(),
        format!("No installer/portable files found on the release. Open: {page}")
    );
    let files = assemble_package("2.0.0", "1.2.0", vec![ok.clone(), failed.clone()], page).unwrap();
    assert_eq!(files.len(), 3);
    assert_eq!(files[0].0, "UPGRADE.txt");
    assert_eq!(files[0].1, upgrade_instructions("2.0.0", "1.2.0").into_bytes());
    assert_eq!(files[1], ok);
    assert_eq!(files[2], failed);
}

#[test]
fn tester_status_lines() {
    let mut c = UpdateCheck {
        current_version: "1.0.0".into(),
        latest_version: "1.2.0".into(),
        update_available: true,
        release_url: String::new(),
        zip_asset_name: None,
        checked: true,
        error: None,
    };
    assert_eq!(tester_check_status(&c), "Update available: simulated 1.0.0 → latest 1.2.0");
    c.update_available = false;
    assert_eq!(
        tester_check_status(&c),
        "No update: simulated 1.0.0 is current or newer than latest 1.2.0."
    );
    c.error = Some("offline".into());
    assert_eq!(tester_check_status(&c), "Check finished with error: offline");
    assert_eq!(tester_download_status(&Ok("C:/x.zip".into())), "Saved: C:/x.zip");
    assert_eq!(tester_download_status(&Err("nope".into())), "Download failed: nope");
}

#[test]
fn tester_intro_and_alert() {
    assert_eq!(
        budget_master_9000::update::tester_intro_status("1.2.0"),
        "Uses the same check/download code as Budget Master 9000 1.2.0.\nEnter a fake installed version (e.g. 1.0.0), then Check."
    );
    let c = UpdateCheck {
        current_version: "1.0.0".into(),
        latest_version: "1.2.0".into(),
        update_available: true,
        release_url: String::new(),
        zip_asset_name: None,
        checked: true,
        error: None,
    };
    assert_eq!(budget_master_9000::update::tester_update_alert(&c), "Update v1.2.0 available  (you simulated v1.0.0)");
    assert!(budget_master_9000::update::version_is_newer("1.2.0", "1.0.0"));
}

#[test]
fn name_rules_on_lowered_text() {
    assert!(zip_name_rule("pkg.zip"));
    assert!(!zip_name_rule("pkg.ZIP"));
    assert!(package_name_rule("budgetmaster9000-setup.bin"));
    assert!(package_name_rule("sha256sums.txt"));
    assert!(!package_name_rule("readme.md"));
}
