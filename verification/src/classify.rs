//! Plan classification: which plan lines are fixed bills, how a line's
//! frequency is stored, and which colour a new category gets.
use vstd::prelude::*;

use crate::text::{ascii_lower, has_substring, lowercase_of, str_contains, str_eq, to_lowercase};
use vstd::utf8::is_ascii_chars;

verus! {

/// The rule that marks a plan line as a fixed bill, on the lower-cased line
/// name, the lower-cased category name and the frequency as given: a bill
/// keyword in the name, a bill-like category, or a yearly line outside
/// food and entertainment.
pub open spec fn is_fixed_bill(name_l: Seq<char>, cat_l: Seq<char>, frequency: Seq<char>) -> bool {
    ||| has_substring(name_l, "mortgage"@)
    ||| has_substring(name_l, "insurance"@)
    ||| has_substring(name_l, "hoa"@)
    ||| has_substring(name_l, "rent"@)
    ||| has_substring(name_l, "phone"@)
    ||| has_substring(name_l, "internet"@)
    ||| has_substring(name_l, "starlink"@)
    ||| has_substring(name_l, "spotify"@)
    ||| has_substring(name_l, "youtube"@)
    ||| has_substring(name_l, "prime"@)
    ||| has_substring(name_l, "microsoft"@)
    ||| has_substring(name_l, "subscription"@)
    ||| cat_l == "subscription"@
    ||| cat_l == "subscriptions"@
    ||| cat_l == "housing"@
    ||| cat_l == "utilities"@
    ||| (frequency == "year"@ && cat_l != "food"@ && cat_l != "entertainment"@)
}

/// The fixed-bill rule on an already lower-cased line name and category
/// name, and the frequency as given.
pub fn fixed_bill_rule(name_l: &str, cat_l: &str, frequency: &str) -> (r: bool)
    ensures
        r == is_fixed_bill(name_l@, cat_l@, frequency@),
        ({
            let n = name_l@;
            has_substring(n, "mortgage"@)
            || has_substring(n, "insurance"@)
            || has_substring(n, "hoa"@)
            || has_substring(n, "rent"@)
            || has_substring(n, "phone"@)
            || has_substring(n, "internet"@)
            || has_substring(n, "starlink"@)
            || has_substring(n, "spotify"@)
            || has_substring(n, "youtube"@)
            || has_substring(n, "prime"@)
            || has_substring(n, "microsoft"@)
            || has_substring(n, "subscription"@)
        }) ==> r,
        cat_l@ == "subscription"@ || cat_l@ == "subscriptions"@ || cat_l@ == "housing"@ || cat_l@
            == "utilities"@ ==> r,
        frequency@ == "year"@ && cat_l@ != "food"@ && cat_l@ != "entertainment"@ ==> r,
        r ==> ({
            let n = name_l@;
            ||| has_substring(n, "mortgage"@)
                || has_substring(n, "insurance"@)
                || has_substring(n, "hoa"@)
                || has_substring(n, "rent"@)
                || has_substring(n, "phone"@)
                || has_substring(n, "internet"@)
                || has_substring(n, "starlink"@)
                || has_substring(n, "spotify"@)
                || has_substring(n, "youtube"@)
                || has_substring(n, "prime"@)
                || has_substring(n, "microsoft"@)
                || has_substring(n, "subscription"@)
            ||| cat_l@ == "subscription"@ || cat_l@ == "subscriptions"@ || cat_l@ == "housing"@
                || cat_l@ == "utilities"@
            ||| frequency@ == "year"@ && cat_l@ != "food"@ && cat_l@ != "entertainment"@
        }),
{
    let n = name_l;
    let c = cat_l;
    str_contains(n, "mortgage") || str_contains(n, "insurance") || str_contains(n, "hoa")
        || str_contains(n, "rent") || str_contains(n, "phone") || str_contains(n, "internet")
        || str_contains(n, "starlink") || str_contains(n, "spotify") || str_contains(n, "youtube")
        || str_contains(n, "prime") || str_contains(n, "microsoft") || str_contains(
        n,
        "subscription",
    ) || str_eq(c, "subscription") || str_eq(c, "subscriptions") || str_eq(c, "housing")
        || str_eq(c, "utilities") || (str_eq(frequency, "year") && !str_eq(c, "food") && !str_eq(
        c,
        "entertainment",
    ))
}

/// Whether a plan line looks like a predictable bill or subscription, so that
/// Check-In does not ask for its actual amount. Name and category are compared
/// case-insensitively; the frequency is compared as given.
pub fn looks_fixed(name: &str, category: &str, frequency: &str) -> (r: bool)
    ensures
        r == is_fixed_bill(lowercase_of(name@), lowercase_of(category@), frequency@),
        is_ascii_chars(name@) && is_ascii_chars(category@) ==> r == is_fixed_bill(
            ascii_lower(name@),
            ascii_lower(category@),
            frequency@,
        ),
        ({
            let n = lowercase_of(name@);
            has_substring(n, "mortgage"@)
            || has_substring(n, "insurance"@)
            || has_substring(n, "hoa"@)
            || has_substring(n, "rent"@)
            || has_substring(n, "phone"@)
            || has_substring(n, "internet"@)
            || has_substring(n, "starlink"@)
            || has_substring(n, "spotify"@)
            || has_substring(n, "youtube"@)
            || has_substring(n, "prime"@)
            || has_substring(n, "microsoft"@)
            || has_substring(n, "subscription"@)
        }) ==> r,
        ({
            let c = lowercase_of(category@);
            c == "subscription"@ || c == "subscriptions"@ || c == "housing"@ || c == "utilities"@
        }) ==> r,
        ({
            let c = lowercase_of(category@);
            frequency@ == "year"@ && c != "food"@ && c != "entertainment"@
        }) ==> r,
{
    let name_l = to_lowercase(name);
    let cat_l = to_lowercase(category);
    fixed_bill_rule(name_l.as_str(), cat_l.as_str(), frequency)
}

/// The import rule for each expense (line name, category name, frequency):
/// whether importing it marks its category fixed.
pub fn import_marks_fixed(expenses: &Vec<(String, String, String)>) -> (r: Vec<bool>)
    ensures
        r.len() == expenses.len(),
        forall|i: int|
            0 <= i < expenses.len() ==> #[trigger] r@[i] == is_fixed_bill(
                lowercase_of(expenses@[i].0@),
                lowercase_of(expenses@[i].1@),
                expenses@[i].2@,
            ),
{
    let mut r: Vec<bool> = Vec::new();
    let mut i: usize = 0;
    while i < expenses.len()
        invariant
            i <= expenses.len(),
            r.len() == i,
            forall|k: int|
                0 <= k < i ==> #[trigger] r@[k] == is_fixed_bill(
                    lowercase_of(expenses@[k].0@),
                    lowercase_of(expenses@[k].1@),
                    expenses@[k].2@,
                ),
        decreases expenses.len() - i,
    {
        let e = &expenses[i];
        r.push(looks_fixed(e.0.as_str(), e.1.as_str(), e.2.as_str()));
        i = i + 1;
    }
    r
}

/// Names and categories that differ only in letter case are classified alike.
pub proof fn law_classification_ignores_case(
    name_a: Seq<char>,
    name_b: Seq<char>,
    cat_a: Seq<char>,
    cat_b: Seq<char>,
    frequency: Seq<char>,
)
    requires
        lowercase_of(name_a) == lowercase_of(name_b),
        lowercase_of(cat_a) == lowercase_of(cat_b),
    ensures
        is_fixed_bill(lowercase_of(name_a), lowercase_of(cat_a), frequency) == is_fixed_bill(
            lowercase_of(name_b),
            lowercase_of(cat_b),
            frequency,
        ),
{
}

/// A bill keyword anywhere in the lower-cased line name makes the line a
/// fixed bill, whatever its category and frequency: mortgage, insurance, hoa,
/// rent, phone, internet, starlink, spotify, youtube, prime, microsoft and
/// subscription. So do the categories subscription(s), housing and utilities,
/// and a yearly frequency outside food and entertainment.
pub proof fn law_bill_keywords_make_fixed(name: Seq<char>, category: Seq<char>, frequency: Seq<char>)
    ensures
        ({
            let n = lowercase_of(name);
            let c = lowercase_of(category);
            &&& has_substring(n, "mortgage"@) ==> is_fixed_bill(n, c, frequency)
            &&& has_substring(n, "insurance"@) ==> is_fixed_bill(n, c, frequency)
            &&& has_substring(n, "hoa"@) ==> is_fixed_bill(n, c, frequency)
            &&& has_substring(n, "rent"@) ==> is_fixed_bill(n, c, frequency)
            &&& has_substring(n, "phone"@) ==> is_fixed_bill(n, c, frequency)
            &&& has_substring(n, "internet"@) ==> is_fixed_bill(n, c, frequency)
            &&& has_substring(n, "starlink"@) ==> is_fixed_bill(n, c, frequency)
            &&& has_substring(n, "spotify"@) ==> is_fixed_bill(n, c, frequency)
            &&& has_substring(n, "youtube"@) ==> is_fixed_bill(n, c, frequency)
            &&& has_substring(n, "prime"@) ==> is_fixed_bill(n, c, frequency)
            &&& has_substring(n, "microsoft"@) ==> is_fixed_bill(n, c, frequency)
            &&& has_substring(n, "subscription"@) ==> is_fixed_bill(n, c, frequency)
            &&& c == "subscription"@ ==> is_fixed_bill(n, c, frequency)
            &&& c == "subscriptions"@ ==> is_fixed_bill(n, c, frequency)
            &&& c == "housing"@ ==> is_fixed_bill(n, c, frequency)
            &&& c == "utilities"@ ==> is_fixed_bill(n, c, frequency)
            &&& frequency == "year"@ && c != "food"@ && c != "entertainment"@ ==> is_fixed_bill(
                n,
                c,
                frequency,
            )
        }),
{
}

/// Whether a category turns fixed when the schema is upgraded: it already
/// holds an active fixed line, or its name alone looks like a bill category.
pub open spec fn category_turns_fixed(active_fixed_lines: i64, category_name: Seq<char>) -> bool {
    active_fixed_lines > 0 || is_fixed_bill(
        lowercase_of("x"@),
        lowercase_of(category_name),
        "month"@,
    )
}

/// The schema-upgrade rule for one category, given how many of its active
/// plan lines are already fixed.
pub fn category_should_be_fixed(active_fixed_lines: i64, category_name: &str) -> (r: bool)
    ensures
        r == category_turns_fixed(active_fixed_lines, category_name@),
        active_fixed_lines > 0 ==> r,
        ({
            let c = lowercase_of(category_name@);
            c == "subscription"@ || c == "subscriptions"@ || c == "housing"@ || c == "utilities"@
        }) ==> r,
        is_ascii_chars(category_name@) ==> (r <==> active_fixed_lines > 0 || ({
            let c = ascii_lower(category_name@);
            c == "subscription"@ || c == "subscriptions"@ || c == "housing"@ || c == "utilities"@
        })),
{
    let r = active_fixed_lines > 0 || looks_fixed("x", category_name, "month");
    proof {
        if is_ascii_chars(category_name@) {
            reveal_strlit("x");
            reveal_strlit("month");
            reveal_strlit("year");
            assert(ascii_lower("x"@) =~= "x"@);
            assert(is_ascii_chars("x"@)) by {
                assert("x"@[0] == 'x');
            }
            assert("month"@ != "year"@) by {
                assert("month"@.len() != "year"@.len());
            }
            lemma_no_keyword_in_short_name("x"@);
        }
    }
    r
}

proof fn lemma_no_keyword_in_short_name(n: Seq<char>)
    requires
        n.len() < 3,
    ensures
        !has_substring(n, "mortgage"@),
        !has_substring(n, "insurance"@),
        !has_substring(n, "hoa"@),
        !has_substring(n, "rent"@),
        !has_substring(n, "phone"@),
        !has_substring(n, "internet"@),
        !has_substring(n, "starlink"@),
        !has_substring(n, "spotify"@),
        !has_substring(n, "youtube"@),
        !has_substring(n, "prime"@),
        !has_substring(n, "microsoft"@),
        !has_substring(n, "subscription"@),
{
    reveal_strlit("mortgage");
    reveal_strlit("insurance");
    reveal_strlit("hoa");
    reveal_strlit("rent");
    reveal_strlit("phone");
    reveal_strlit("internet");
    reveal_strlit("starlink");
    reveal_strlit("spotify");
    reveal_strlit("youtube");
    reveal_strlit("prime");
    reveal_strlit("microsoft");
    reveal_strlit("subscription");
}

/// The frequency stored for a plan line: `week`, `month` or `year` as given,
/// anything else as `month`.
pub open spec fn stored_frequency(frequency: Seq<char>) -> Seq<char> {
    if frequency == "week"@ || frequency == "month"@ || frequency == "year"@ {
        frequency
    } else {
        "month"@
    }
}

/// The frequency under which a plan line is stored.
pub fn normalize_frequency(frequency: &str) -> (r: &'static str)
    ensures
        r@ == stored_frequency(frequency@),
{
    if str_eq(frequency, "week") {
        "week"
    } else if str_eq(frequency, "month") {
        "month"
    } else if str_eq(frequency, "year") {
        "year"
    } else {
        "month"
    }
}

/// The twelve category colours, in the order new categories receive them;
/// each next hue is far from the previous one.
pub open spec fn category_palette() -> Seq<Seq<char>> {
    seq![
        "#4f46e5"@,
        "#f59e0b"@,
        "#059669"@,
        "#e11d48"@,
        "#2563eb"@,
        "#ca8a04"@,
        "#7c3aed"@,
        "#0d9488"@,
        "#ea580c"@,
        "#db2777"@,
        "#0891b2"@,
        "#65a30d"@,
    ]
}

/// The colour of the palette at position `i` (0 to 11).
pub fn palette_color(i: usize) -> (r: &'static str)
    requires
        i < 12,
    ensures
        r@ == category_palette()[i as int],
{
    if i == 0 { "#4f46e5" }
    else if i == 1 { "#f59e0b" }
    else if i == 2 { "#059669" }
    else if i == 3 { "#e11d48" }
    else if i == 4 { "#2563eb" }
    else if i == 5 { "#ca8a04" }
    else if i == 6 { "#7c3aed" }
    else if i == 7 { "#0d9488" }
    else if i == 8 { "#ea580c" }
    else if i == 9 { "#db2777" }
    else if i == 10 { "#0891b2" }
    else { "#65a30d" }
}

/// The colour a new category gets when `existing` categories already exist:
/// the palette is used in turn, starting over after twelve.
pub open spec fn color_for_new_category(existing: i64) -> Seq<char> {
    category_palette()[((existing as usize) % 12) as int]
}

/// The colour of the next new category, given the number of categories.
pub fn next_category_color(existing: i64) -> (r: &'static str)
    ensures
        r@ == color_for_new_category(existing),
{
    palette_color((existing as usize) % 12)
}

/// Two categories created one after the other never share a colour, and the
/// colours repeat every twelve categories.
pub proof fn law_consecutive_categories_differ(n: i64)
    requires
        0 <= n < i64::MAX,
        n + 1 <= usize::MAX,
    ensures
        color_for_new_category(n) != color_for_new_category((n + 1) as i64),
        n <= i64::MAX - 12 && n + 12 <= usize::MAX ==> color_for_new_category(n) == color_for_new_category(
            (n + 12) as i64,
        ),
{
    reveal_strlit("#4f46e5");
    reveal_strlit("#f59e0b");
    reveal_strlit("#059669");
    reveal_strlit("#e11d48");
    reveal_strlit("#2563eb");
    reveal_strlit("#ca8a04");
    reveal_strlit("#7c3aed");
    reveal_strlit("#0d9488");
    reveal_strlit("#ea580c");
    reveal_strlit("#db2777");
    reveal_strlit("#0891b2");
    reveal_strlit("#65a30d");
    let p = category_palette();
    assert forall|i: int| 0 <= i < 12 implies p[i] != #[trigger] p[(i + 1) % 12] by {
        if i == 0 { assert(p[0][1] != p[1][1]); }
        else if i == 1 { assert(p[1][1] != p[2][1]); }
        else if i == 2 { assert(p[2][1] != p[3][1]); }
        else if i == 3 { assert(p[3][1] != p[4][1]); }
        else if i == 4 { assert(p[4][1] != p[5][1]); }
        else if i == 5 { assert(p[5][1] != p[6][1]); }
        else if i == 6 { assert(p[6][1] != p[7][1]); }
        else if i == 7 { assert(p[7][1] != p[8][1]); }
        else if i == 8 { assert(p[8][1] != p[9][1]); }
        else if i == 9 { assert(p[9][1] != p[10][1]); }
        else if i == 10 { assert(p[10][1] != p[11][1]); }
        else { assert(p[11][1] != p[0][1]); }
    }
    let k: int = n as int;
    assert((n as usize) as int == k);
    assert(((n + 1) as i64 as usize) as int == k + 1);
    assert((k + 1) % 12 == ((k % 12) + 1) % 12);
    assert(p[k % 12] != p[((k % 12) + 1) % 12]);
    if n <= i64::MAX - 12 && n + 12 <= usize::MAX {
        assert(((n + 12) as i64 as usize) as int == k + 12);
        assert((k + 12) % 12 == k % 12);
    }
}

/// The categories created on import when the plan has none at all.
pub fn default_category_names() -> (r: Vec<&'static str>)
    ensures
        r@.len() == 6,
        r@[0]@ == "Housing"@,
        r@[1]@ == "Food"@,
        r@[2]@ == "Utilities"@,
        r@[3]@ == "Subscription"@,
        r@[4]@ == "Entertainment"@,
        r@[5]@ == "Health"@,
{
    let mut v: Vec<&'static str> = Vec::new();
    v.push("Housing");
    v.push("Food");
    v.push("Utilities");
    v.push("Subscription");
    v.push("Entertainment");
    v.push("Health");
    v
}

} // verus!
