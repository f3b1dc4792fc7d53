//! The parts of the Check-In scorecard that do not depend on amounts: how
//! the overspend count moved since last month, the advice for next month,
//! and how many wins and warnings are shown.
use vstd::prelude::*;

use vstd::utf8::is_ascii_chars;
use crate::text::{ascii_lower, has_substring, i64_to_decimal, lowercase_of, signed_decimal, str_contains, to_lowercase};

verus! {

/// The trend line about overspent lines, compared with the prior closed month.
pub open spec fn overspend_trend_text(cur_over: i32, prev_over: i32) -> Option<Seq<char>> {
    if cur_over < prev_over {
        Some(
            "Fewer overspends this month ("@ + signed_decimal(cur_over as int) + " vs "@
                + signed_decimal(prev_over as int) + " last month)"@,
        )
    } else if cur_over > prev_over {
        Some(
            "More categories over budget ("@ + signed_decimal(cur_over as int) + " vs "@
                + signed_decimal(prev_over as int) + " last month)"@,
        )
    } else {
        None
    }
}

/// The trend line about the number of overspent lines; none when it did not change.
pub fn overspend_trend(cur_over: i32, prev_over: i32) -> (r: Option<String>)
    ensures
        match overspend_trend_text(cur_over, prev_over) {
            Some(t) => r is Some && r->0@ == t,
            None => r is None,
        },
        r is Some <==> cur_over != prev_over,
        cur_over < prev_over ==> r is Some && r->0@ == "Fewer overspends this month ("@
            + signed_decimal(cur_over as int) + " vs "@ + signed_decimal(prev_over as int)
            + " last month)"@,
        cur_over > prev_over ==> r is Some && r->0@ == "More categories over budget ("@
            + signed_decimal(cur_over as int) + " vs "@ + signed_decimal(prev_over as int)
            + " last month)"@,
{
    if cur_over < prev_over {
        let mut s = String::from_str("Fewer overspends this month (");
        s.append(i64_to_decimal(cur_over as i64).as_str());
        s.append(" vs ");
        s.append(i64_to_decimal(prev_over as i64).as_str());
        s.append(" last month)");
        Some(s)
    } else if cur_over > prev_over {
        let mut s = String::from_str("More categories over budget (");
        s.append(i64_to_decimal(cur_over as i64).as_str());
        s.append(" vs ");
        s.append(i64_to_decimal(prev_over as i64).as_str());
        s.append(" last month)");
        Some(s)
    } else {
        None
    }
}

/// A trend line appears exactly when the overspend count changed; a drop,
/// to zero included, reads as fewer overspends and a rise as more categories
/// over budget, each naming this month's count and last month's.
pub proof fn law_trend_follows_the_counts(cur_over: i32, prev_over: i32)
    ensures
        overspend_trend_text(cur_over, prev_over) is Some <==> cur_over != prev_over,
        cur_over < prev_over ==> overspend_trend_text(cur_over, prev_over) == Some(
            "Fewer overspends this month ("@ + signed_decimal(cur_over as int) + " vs "@
                + signed_decimal(prev_over as int) + " last month)"@,
        ),
        cur_over > prev_over ==> overspend_trend_text(cur_over, prev_over) == Some(
            "More categories over budget ("@ + signed_decimal(cur_over as int) + " vs "@
                + signed_decimal(prev_over as int) + " last month)"@,
        ),
{
}

/// The advice for next month, drawn from the first warning of the scorecard.
pub open spec fn advice_text(first_warning: Seq<char>) -> Seq<char> {
    advice_text_lowered(first_warning, lowercase_of(first_warning))
}

/// The advice for a warning, given the warning and its lower-cased form.
pub open spec fn advice_text_lowered(first_warning: Seq<char>, lowered: Seq<char>) -> Seq<char> {
    if has_substring(first_warning, "Food"@) || has_substring(lowered, "grocer"@) {
        "Next month: raise the Food budget slightly or trim lunch/dining."@
    } else if has_substring(first_warning, "$0 budget"@) {
        "Next month: add a budget line for unexpected recurring costs."@
    } else {
        "Next month: adjust the plan for your top overspend, or set a soft cap mid-month."@
    }
}

/// The advice for next month: none without warnings, otherwise chosen by
/// what the first warning is about (food, unplanned spending, anything else).
pub fn next_month_advice(attention: &Vec<String>) -> (r: Option<String>)
    ensures
        attention.len() == 0 ==> r is None,
        attention.len() > 0 ==> r is Some && r->0@ == advice_text(attention@[0]@),
        attention.len() > 0 && (has_substring(attention@[0]@, "Food"@) || has_substring(
            lowercase_of(attention@[0]@),
            "grocer"@,
        )) ==> r is Some && r->0@
            == "Next month: raise the Food budget slightly or trim lunch/dining."@,
        attention.len() > 0 && is_ascii_chars(attention@[0]@) ==> r is Some && r->0@
            == advice_text_lowered(attention@[0]@, ascii_lower(attention@[0]@)),
{
    if attention.len() == 0 {
        return None;
    }
    let a = attention[0].as_str();
    let lower = to_lowercase(a);
    Some(advice_for(a, lower.as_str()))
}

/// The advice for a warning, given the warning and its lower-cased form:
/// food or groceries, unplanned spending, or anything else.
pub fn advice_for(warning: &str, lowered: &str) -> (r: String)
    ensures
        r@ == advice_text_lowered(warning@, lowered@),
        has_substring(warning@, "Food"@) || has_substring(lowered@, "grocer"@) ==> r@
            == "Next month: raise the Food budget slightly or trim lunch/dining."@,
        !has_substring(warning@, "Food"@) && !has_substring(lowered@, "grocer"@) && has_substring(
            warning@,
            "$0 budget"@,
        ) ==> r@ == "Next month: add a budget line for unexpected recurring costs."@,
        !has_substring(warning@, "Food"@) && !has_substring(lowered@, "grocer"@) && !has_substring(
            warning@,
            "$0 budget"@,
        ) ==> r@
            == "Next month: adjust the plan for your top overspend, or set a soft cap mid-month."@,
{
    if str_contains(warning, "Food") || str_contains(lowered, "grocer") {
        String::from_str("Next month: raise the Food budget slightly or trim lunch/dining.")
    } else if str_contains(warning, "$0 budget") {
        String::from_str("Next month: add a budget line for unexpected recurring costs.")
    } else {
        String::from_str(
            "Next month: adjust the plan for your top overspend, or set a soft cap mid-month.",
        )
    }
}

/// The win line of a fixed bill paid exactly as planned.
pub fn on_plan_exactly_win(line_name: &str) -> (r: String)
    ensures
        r@ == line_name@ + ": on plan exactly"@,
{
    let mut s = line_name.to_owned();
    s.append(": on plan exactly");
    s
}

/// Where no other win was found, the scorecard still credits the lines that
/// stayed on plan.
pub fn add_fallback_win(wins: &mut Vec<String>, on_plan: i32)
    ensures
        (old(wins).len() == 0 && on_plan > 0) ==> final(wins)@.len() == 1 && final(wins)@[0]@
            == signed_decimal(on_plan as int) + " line(s) stayed on plan"@,
        !(old(wins).len() == 0 && on_plan > 0) ==> final(wins)@ == old(wins)@,
{
    if wins.len() == 0 && on_plan > 0 {
        let mut s = i64_to_decimal(on_plan as i64);
        s.append(" line(s) stayed on plan");
        wins.push(s);
    }
}

/// The scorecard shows at most five wins and five warnings, the first ones found.
pub fn cap_scorecard_list(items: &mut Vec<String>)
    ensures
        old(items).len() <= 5 ==> final(items)@ == old(items)@,
        old(items).len() > 5 ==> final(items)@ == old(items)@.subrange(0, 5),
{
    items.truncate(5);
}

} // verus!
