use budget_master_9000::classify::fixed_bill_rule;
use budget_master_9000::classify::import_marks_fixed;
use budget_master_9000::classify::{
    category_should_be_fixed, default_category_names, looks_fixed, next_category_color,
    normalize_frequency, palette_color,
};

#[test]
fn looks_fixed_classifies_bills() {
    assert!(looks_fixed("Mortgage", "Housing", "month"));
    assert!(looks_fixed("Starlink", "Utilities", "month"));
    assert!(looks_fixed("Amazon Prime", "Subscription", "year"));
    assert!(!looks_fixed("Groceries", "Food", "month"));
    assert!(!looks_fixed("Lunch", "Food", "month"));
    assert!(!looks_fixed("Fun Money", "Entertainment", "month"));
}

#[test]
fn looks_fixed_yearly_lines_outside_food_and_fun() {
    assert!(looks_fixed("Car registration", "Transport", "year"));
    assert!(!looks_fixed("Holiday feast", "Food", "year"));
    assert!(!looks_fixed("Concert", "ENTERTAINMENT", "year"));
    // The frequency is compared as given, not lower-cased.
    assert!(!looks_fixed("Car registration", "Transport", "Year"));
}

#[test]
fn looks_fixed_ignores_letter_case_of_name_and_category() {
    assert!(looks_fixed("HOA dues", "Misc", "month"));
    assert!(looks_fixed("Parking", "HOUSING", "month"));
    assert!(looks_fixed("Music", "Subscriptions", "month"));
    assert!(looks_fixed("Rental car", "Travel", "month"));
    assert!(!looks_fixed("Coffee", "Food", "week"));
}

#[test]
fn schema_upgrade_promotes_bill_categories() {
    assert!(category_should_be_fixed(1, "Food"));
    assert!(category_should_be_fixed(0, "Utilities"));
    assert!(category_should_be_fixed(0, "housing"));
    assert!(!category_should_be_fixed(0, "Food"));
    assert!(!category_should_be_fixed(-1, "Health"));
}

#[test]
fn frequencies_outside_week_month_year_become_month() {
    assert_eq!(normalize_frequency("week"), "week");
    assert_eq!(normalize_frequency("month"), "month");
    assert_eq!(normalize_frequency("year"), "year");
    assert_eq!(normalize_frequency("daily"), "month");
    assert_eq!(normalize_frequency("Week"), "month");
    assert_eq!(normalize_frequency(""), "month");
}

#[test]
fn category_colors_follow_the_palette() {
    assert_eq!(next_category_color(0), "#4f46e5");
    assert_eq!(next_category_color(1), "#f59e0b");
    assert_eq!(next_category_color(11), "#65a30d");
    assert_eq!(next_category_color(12), "#4f46e5");
    assert_eq!(next_category_color(25), "#f59e0b");
    for n in 0..40i64 {
        assert_ne!(next_category_color(n), next_category_color(n + 1));
        assert_eq!(next_category_color(n), next_category_color(n + 12));
    }
    assert_eq!(palette_color(7), "#0d9488");
}

#[test]
fn import_defaults_to_six_categories() {
    assert_eq!(
        default_category_names(),
        vec!["Housing", "Food", "Utilities", "Subscription", "Entertainment", "Health"]
    );
}

#[test]
fn fixed_bill_rule_on_lowered_text() {
    assert!(fixed_bill_rule("mortgage", "housing", "month"));
    assert!(!fixed_bill_rule("Mortgage", "Misc", "month"));
    assert!(fixed_bill_rule("gym", "health", "year"));
    assert!(!fixed_bill_rule("gym", "food", "year"));
}

#[test]
fn import_marks_bill_categories_fixed() {
    let e = |a: &str, b: &str, c: &str| (a.to_string(), b.to_string(), c.to_string());
    let flags = import_marks_fixed(&vec![
        e("Rent", "Housing", "month"),
        e("Groceries", "Food", "month"),
        e("Netflix", "Fun", "year"),
    ]);
    assert_eq!(flags, vec![true, false, true]);
}
