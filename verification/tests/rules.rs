use budget_master_9000::models::{Category, CategoryInput};
use budget_master_9000::rules::{
    budget_data_present, check_category_removal, check_lock_password, check_month_editable,
    check_month_resync, check_unlocked, check_wipe_confirmation, find_saved_category,
    normalize_theme, plan_category_save, previous_month, schema_upgrade_steps, BudgetError,
    CategoryWrite, SchemaStep,
};

fn cat(id: i64, name: &str) -> Category {
    Category { id, name: name.to_string(), color: "#4f46e5".to_string(), sort_order: id, is_fixed: false }
}

#[test]
fn new_category_gets_next_color_and_order() {
    let input = CategoryInput { id: None, name: "  TestCat ".into(), is_fixed: false };
    match plan_category_save(&input, 7).unwrap() {
        CategoryWrite::Insert { name, color, sort_order, is_fixed } => {
            assert_eq!(name, "TestCat");
            assert_eq!(color, "#0d9488");
            assert_eq!(sort_order, 7);
            assert!(!is_fixed);
        }
        _ => panic!("expected an insertion"),
    }
}

#[test]
fn edited_category_is_updated() {
    let input = CategoryInput { id: Some(3), name: "Bills".into(), is_fixed: true };
    match plan_category_save(&input, 9).unwrap() {
        CategoryWrite::Update { id, name, is_fixed } => {
            assert_eq!(id, 3);
            assert_eq!(name, "Bills");
            assert!(is_fixed);
        }
        _ => panic!("expected an update"),
    }
}

#[test]
fn blank_category_name_is_refused() {
    let input = CategoryInput { id: None, name: " \t ".into(), is_fixed: false };
    let e = plan_category_save(&input, 0).err().unwrap();
    assert_eq!(e, BudgetError::CategoryNameRequired);
    assert_eq!(e.message(), "Category name required");
}

#[test]
fn saved_category_is_found_by_id() {
    let cats = vec![cat(1, "Food"), cat(2, "Housing"), cat(2, "Dup")];
    assert_eq!(find_saved_category(cats.clone(), 2).unwrap().name, "Housing");
    let e = find_saved_category(cats, 5).err().unwrap();
    assert_eq!(e.message(), "Category not found after save");
}

#[test]
fn category_removal_rules() {
    assert_eq!(check_category_removal(1, 0), Err(BudgetError::KeepOneCategory));
    assert_eq!(check_category_removal(1, 3), Err(BudgetError::KeepOneCategory));
    assert_eq!(check_category_removal(2, 1), Err(BudgetError::CategoryInUse));
    assert_eq!(check_category_removal(2, 0), Ok(()));
    assert_eq!(BudgetError::KeepOneCategory.message(), "Keep at least one category");
    assert_eq!(
        BudgetError::CategoryInUse.message(),
        "Category is used by budget lines. Reassign or delete those first."
    );
}

#[test]
fn lock_rules() {
    assert_eq!(check_unlocked(false, false), Ok(()));
    assert_eq!(check_unlocked(true, true), Ok(()));
    assert_eq!(check_unlocked(true, false), Err(BudgetError::AppLocked));
    assert_eq!(BudgetError::AppLocked.message(), "App is locked. Unlock first.");
    assert_eq!(check_lock_password("12345"), Err(BudgetError::PasswordTooShort));
    assert_eq!(check_lock_password("123456"), Ok(()));
    // Length counts UTF-8 bytes: three two-byte letters are enough.
    assert_eq!(check_lock_password("ééé"), Ok(()));
    assert_eq!(BudgetError::PasswordTooShort.message(), "Password must be at least 6 characters");
    assert_eq!(BudgetError::LockNotEnabled.message(), "Lock is not enabled");
}

#[test]
fn theme_is_light_or_dark() {
    assert_eq!(normalize_theme("light"), "light");
    assert_eq!(normalize_theme("dark"), "dark");
    assert_eq!(normalize_theme("Light"), "dark");
    assert_eq!(normalize_theme("solarized"), "dark");
}

#[test]
fn wipe_needs_exact_phrase() {
    assert_eq!(check_wipe_confirmation("DELETE DATA"), Ok(()));
    assert_eq!(check_wipe_confirmation("  DELETE DATA\n"), Ok(()));
    assert_eq!(check_wipe_confirmation("delete data"), Err(BudgetError::ConfirmPhraseMismatch));
    assert_eq!(check_wipe_confirmation("DELETE  DATA"), Err(BudgetError::ConfirmPhraseMismatch));
    assert_eq!(BudgetError::ConfirmPhraseMismatch.message(), "Type DELETE DATA exactly to confirm.");
}

#[test]
fn closed_months_refuse_edits() {
    assert_eq!(check_month_editable("open"), Ok(()));
    assert_eq!(check_month_editable("reviewed"), Err(BudgetError::MonthClosed));
    assert_eq!(check_month_resync("open"), Ok(()));
    assert_eq!(check_month_resync("reviewed"), Err(BudgetError::ClosedMonthResync));
    assert_eq!(
        BudgetError::MonthClosed.message(),
        "Month is closed. Reopen it from History to edit."
    );
    assert_eq!(BudgetError::ClosedMonthResync.message(), "Cannot resync a closed month");
}

#[test]
fn previous_month_wraps_at_january() {
    assert_eq!(previous_month(2024, 1), (2023, 12));
    assert_eq!(previous_month(2024, 7), (2024, 6));
    assert_eq!(previous_month(2024, 12), (2024, 11));
}

#[test]
fn blank_start_category_counts_as_data() {
    assert!(!budget_data_present(0, 0));
    assert!(budget_data_present(0, 1));
    assert!(budget_data_present(4, 0));
}

#[test]
fn schema_upgrade_plans() {
    assert_eq!(schema_upgrade_steps(0, None), vec![SchemaStep::SeedSettings]);
    assert_eq!(
        schema_upgrade_steps(2, None),
        vec![
            SchemaStep::ReclassifyFixedLines,
            SchemaStep::MarkSchema2,
            SchemaStep::PromoteFixedCategories,
            SchemaStep::MarkSchema3
        ]
    );
    assert_eq!(
        schema_upgrade_steps(2, Some("1".into())),
        schema_upgrade_steps(2, None)
    );
    assert_eq!(
        schema_upgrade_steps(3, Some("2".into())),
        vec![SchemaStep::PromoteFixedCategories, SchemaStep::MarkSchema3]
    );
    assert_eq!(schema_upgrade_steps(3, Some("3".into())), vec![]);
}
