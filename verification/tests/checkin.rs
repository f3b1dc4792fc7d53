use budget_master_9000::checkin::advice_for;
use budget_master_9000::checkin::{
    add_fallback_win, cap_scorecard_list, next_month_advice, on_plan_exactly_win, overspend_trend,
};

#[test]
fn overspend_trend_lines() {
    assert_eq!(
        overspend_trend(1, 3).as_deref(),
        Some("Fewer overspends this month (1 vs 3 last month)")
    );
    assert_eq!(
        overspend_trend(4, 2).as_deref(),
        Some("More categories over budget (4 vs 2 last month)")
    );
    assert_eq!(overspend_trend(2, 2), None);
}

#[test]
fn advice_follows_first_warning() {
    let w = |xs: &[&str]| xs.iter().map(|s| s.to_string()).collect::<Vec<_>>();
    assert_eq!(next_month_advice(&vec![]), None);
    assert_eq!(
        next_month_advice(&w(&["Groceries: $90 over (120% of budget)"])).as_deref(),
        Some("Next month: raise the Food budget slightly or trim lunch/dining.")
    );
    assert_eq!(
        next_month_advice(&w(&["Food truck: $5 over (110% of budget)"])).as_deref(),
        Some("Next month: raise the Food budget slightly or trim lunch/dining.")
    );
    assert_eq!(
        next_month_advice(&w(&["Gifts: spent $40 with $0 budget. Add a plan line?"])).as_deref(),
        Some("Next month: add a budget line for unexpected recurring costs.")
    );
    assert_eq!(
        next_month_advice(&w(&["Gas: $30 over (117% of budget)", "Groceries: $1 over"])).as_deref(),
        Some("Next month: adjust the plan for your top overspend, or set a soft cap mid-month.")
    );
}

#[test]
fn scorecard_lists() {
    assert_eq!(on_plan_exactly_win("Rent"), "Rent: on plan exactly");
    let mut wins: Vec<String> = vec![];
    add_fallback_win(&mut wins, 3);
    assert_eq!(wins, vec!["3 line(s) stayed on plan".to_string()]);
    let mut none: Vec<String> = vec![];
    add_fallback_win(&mut none, 0);
    assert!(none.is_empty());
    let mut some = vec!["Rent: on plan exactly".to_string()];
    add_fallback_win(&mut some, 4);
    assert_eq!(some.len(), 1);
    let mut many: Vec<String> = (0..8).map(|i| i.to_string()).collect();
    cap_scorecard_list(&mut many);
    assert_eq!(many, vec!["0", "1", "2", "3", "4"]);
}

#[test]
fn advice_for_lowered_warning() {
    assert_eq!(
        advice_for("GROCER: over", "grocer: over"),
        "Next month: raise the Food budget slightly or trim lunch/dining."
    );
    assert_eq!(
        advice_for("GROCER: over", "GROCER: over"),
        "Next month: adjust the plan for your top overspend, or set a soft cap mid-month."
    );
}
