//! The budget rules that guard changes to the plan, the months and the app lock.
use vstd::prelude::*;

use crate::classify::{color_for_new_category, next_category_color};
use crate::models::{Category, CategoryInput};
use crate::text::{str_eq, trim, trim_ws};

verus! {

/// Why the budget refused a request.
#[derive(Debug, Clone, PartialEq, Eq)]
pub enum BudgetError {
    CategoryNameRequired,
    CategoryNotFoundAfterSave,
    KeepOneCategory,
    CategoryInUse,
    MonthClosed,
    ClosedMonthResync,
    AppLocked,
    LockNotEnabled,
    PasswordTooShort,
    ConfirmPhraseMismatch,
}

/// The text shown to the user for each refusal.
pub open spec fn error_text(e: BudgetError) -> Seq<char> {
    match e {
        BudgetError::CategoryNameRequired => "Category name required"@,
        BudgetError::CategoryNotFoundAfterSave => "Category not found after save"@,
        BudgetError::KeepOneCategory => "Keep at least one category"@,
        BudgetError::CategoryInUse => "Category is used by budget lines. Reassign or delete those first."@,
        BudgetError::MonthClosed => "Month is closed. Reopen it from History to edit."@,
        BudgetError::ClosedMonthResync => "Cannot resync a closed month"@,
        BudgetError::AppLocked => "App is locked. Unlock first."@,
        BudgetError::LockNotEnabled => "Lock is not enabled"@,
        BudgetError::PasswordTooShort => "Password must be at least 6 characters"@,
        BudgetError::ConfirmPhraseMismatch => "Type DELETE DATA exactly to confirm."@,
    }
}

impl BudgetError {
    /// The message of this refusal.
    pub fn message(&self) -> (r: String)
        ensures
            r@ == error_text(*self),
    {
        match self {
            BudgetError::CategoryNameRequired => String::from_str("Category name required"),
            BudgetError::CategoryNotFoundAfterSave => String::from_str("Category not found after save"),
            BudgetError::KeepOneCategory => String::from_str("Keep at least one category"),
            BudgetError::CategoryInUse => String::from_str(
                "Category is used by budget lines. Reassign or delete those first.",
            ),
            BudgetError::MonthClosed => String::from_str("Month is closed. Reopen it from History to edit."),
            BudgetError::ClosedMonthResync => String::from_str("Cannot resync a closed month"),
            BudgetError::AppLocked => String::from_str("App is locked. Unlock first."),
            BudgetError::LockNotEnabled => String::from_str("Lock is not enabled"),
            BudgetError::PasswordTooShort => String::from_str("Password must be at least 6 characters"),
            BudgetError::ConfirmPhraseMismatch => String::from_str("Type DELETE DATA exactly to confirm."),
        }
    }
}

/// The write that saving a category makes.
#[derive(Debug, Clone)]
pub enum CategoryWrite {
    /// Rename an existing category and set its kind; its plan lines and the
    /// open months' lines take the same kind.
    Update { id: i64, name: String, is_fixed: bool },
    /// Add a category at the end of the order, with the next palette colour.
    Insert { name: String, color: String, sort_order: i64, is_fixed: bool },
}

/// The write for a category submitted with `existing` categories in the
/// plan: refused where the name is blank, an update where the input names a
/// category, an insertion otherwise.
pub open spec fn category_write_for(input_id: Option<i64>, name: Seq<char>, is_fixed: bool, existing: i64) -> Result<(Option<i64>, Seq<char>, Seq<char>, i64, bool), BudgetError> {
    let t = trim_ws(name);
    if t.len() == 0 {
        Err(BudgetError::CategoryNameRequired)
    } else {
        match input_id {
            Some(id) => Ok((Some(id), t, Seq::empty(), 0, is_fixed)),
            None => Ok((None, t, color_for_new_category(existing), existing, is_fixed)),
        }
    }
}

/// The view of a category write, in the shape of `category_write_for`.
pub open spec fn write_view(w: CategoryWrite) -> (Option<i64>, Seq<char>, Seq<char>, i64, bool) {
    match w {
        CategoryWrite::Update { id, name, is_fixed } => (Some(id), name@, Seq::empty(), 0, is_fixed),
        CategoryWrite::Insert { name, color, sort_order, is_fixed } => (None, name@, color@, sort_order, is_fixed),
    }
}

/// Decides how a submitted category is saved, given how many categories the
/// plan holds: the name is trimmed and must not be blank.
pub fn plan_category_save(input: &CategoryInput, existing: i64) -> (r: Result<CategoryWrite, BudgetError>)
    ensures
        match category_write_for(input.id, input.name@, input.is_fixed, existing) {
            Ok(w) => r is Ok && write_view(r->Ok_0) == w,
            Err(e) => r == Err::<CategoryWrite, BudgetError>(e),
        },
        r is Err <==> trim_ws(input.name@).len() == 0,
        r is Err ==> r == Err::<CategoryWrite, BudgetError>(BudgetError::CategoryNameRequired),
        r is Ok ==> write_view(r->Ok_0).4 == input.is_fixed,
        r matches Ok(CategoryWrite::Update { id, name, is_fixed }) ==> input.id == Some(id)
            && name@ == trim_ws(input.name@) && is_fixed == input.is_fixed,
        r matches Ok(CategoryWrite::Insert { name, color, sort_order, is_fixed }) ==> input.id is None
            && name@ == trim_ws(input.name@) && color@ == color_for_new_category(existing)
            && sort_order == existing && is_fixed == input.is_fixed,
        input.id is Some && r is Ok ==> r->Ok_0 is Update,
        input.id is None && r is Ok ==> r->Ok_0 is Insert,
{
    let name = trim(input.name.as_str());
    if name.unicode_len() == 0 {
        return Err(BudgetError::CategoryNameRequired);
    }
    match input.id {
        Some(id) => Ok(CategoryWrite::Update { id, name, is_fixed: input.is_fixed }),
        None => Ok(
            CategoryWrite::Insert {
                name,
                color: String::from_str(next_category_color(existing)),
                sort_order: existing,
                is_fixed: input.is_fixed,
            },
        ),
    }
}

/// A saved category keeps the kind it was submitted with, whether it is
/// updated or inserted; a new one goes after the `existing` categories with
/// the palette colour for that position; a blank name is refused.
pub proof fn law_saved_category_keeps_kind(input_id: Option<i64>, name: Seq<char>, is_fixed: bool, existing: i64)
    ensures
        category_write_for(input_id, name, is_fixed, existing) is Err <==> trim_ws(name).len() == 0,
        category_write_for(input_id, name, is_fixed, existing) matches Ok(w) ==> w.4 == is_fixed
            && w.0 == input_id && w.1 == trim_ws(name),
        input_id is None ==> (category_write_for(input_id, name, is_fixed, existing) matches Ok(w)
            ==> w.3 == existing && w.2 == color_for_new_category(existing)),
{
}

/// The first position in `ids` holding `id`, if any.
pub open spec fn first_position(ids: Seq<i64>, id: i64) -> Option<int>
    decreases ids.len(),
{
    if ids.len() == 0 {
        None
    } else {
        match first_position(ids.drop_last(), id) {
            Some(k) => Some(k),
            None => if ids.last() == id { Some(ids.len() - 1) } else { None },
        }
    }
}

/// The ids of a list of categories, in order.
pub open spec fn category_ids(cats: Seq<Category>) -> Seq<i64> {
    cats.map_values(|c: Category| c.id)
}

/// After saving, the saved category is the first listed one with the saved id.
pub fn find_saved_category(cats: Vec<Category>, id: i64) -> (r: Result<Category, BudgetError>)
    ensures
        match first_position(category_ids(cats@), id) {
            Some(k) => r is Ok && r->Ok_0 == cats@[k],
            None => r == Err::<Category, BudgetError>(BudgetError::CategoryNotFoundAfterSave),
        },
        r is Err <==> forall|k: int| 0 <= k < cats.len() ==> #[trigger] cats@[k].id != id,
        r is Err ==> r == Err::<Category, BudgetError>(BudgetError::CategoryNotFoundAfterSave),
        r matches Ok(c) ==> c.id == id && exists|k: int|
            0 <= k < cats.len() && #[trigger] cats@[k] == c && forall|j: int|
                0 <= j < k ==> #[trigger] cats@[j].id != id,
{
    let ghost all = cats@;
    proof {
        lemma_first_position_facts(category_ids(all), id);
    }
    let mut i: usize = 0;
    while i < cats.len()
        invariant
            i <= cats.len(),
            all == cats@,
            first_position(category_ids(cats@).subrange(0, i as int), id) is None,
        decreases cats.len() - i,
    {
        let ghost pre = category_ids(cats@).subrange(0, i as int);
        let ghost post = category_ids(cats@).subrange(0, i + 1);
        assert(post.drop_last() =~= pre);
        if cats[i].id == id {
            assert(first_position(post, id) == Some(i as int));
            proof {
                lemma_first_position_extends(category_ids(cats@), id, i as int + 1);
            }
            proof {
                lemma_first_position_facts(category_ids(all), id);
                assert(all[i as int].id == id);
                assert forall|j: int| 0 <= j < i implies #[trigger] all[j].id != id by {
                    assert(category_ids(all)[j] == all[j].id);
                }
            }
            let mut owned = cats;
            let found = owned.remove(i);
            return Ok(found);
        }
        i = i + 1;
    }
    assert(category_ids(cats@).subrange(0, cats.len() as int) =~= category_ids(cats@));
    proof {
        assert forall|k: int| 0 <= k < all.len() implies #[trigger] all[k].id != id by {
            assert(category_ids(all)[k] == all[k].id);
        }
    }
    Err(BudgetError::CategoryNotFoundAfterSave)
}

proof fn lemma_first_position_facts(ids: Seq<i64>, id: i64)
    ensures
        first_position(ids, id) matches Some(k) ==> 0 <= k < ids.len() && ids[k] == id && forall|
            j: int,
        | 0 <= j < k ==> #[trigger] ids[j] != id,
        first_position(ids, id) is None ==> forall|j: int| 0 <= j < ids.len() ==> #[trigger] ids[j] != id,
    decreases ids.len(),
{
    if ids.len() > 0 {
        let d = ids.drop_last();
        lemma_first_position_facts(d, id);
        let n = ids.len() - 1;
        assert(ids.last() == ids[n]);
        match first_position(d, id) {
            Some(k) => {
                assert(d[k] == ids[k]);
                assert forall|j: int| 0 <= j < k implies #[trigger] ids[j] != id by {
                    assert(d[j] == ids[j]);
                }
            },
            None => {
                assert forall|j: int| 0 <= j < n implies #[trigger] ids[j] != id by {
                    assert(d[j] == ids[j]);
                }
            },
        }
    }
}

proof fn lemma_first_position_extends(ids: Seq<i64>, id: i64, j: int)
    requires
        0 <= j <= ids.len(),
        first_position(ids.subrange(0, j), id) is Some,
    ensures
        first_position(ids, id) == first_position(ids.subrange(0, j), id),
    decreases ids.len() - j,
{
    if j < ids.len() {
        let post = ids.subrange(0, j + 1);
        assert(post.drop_last() =~= ids.subrange(0, j));
        lemma_first_position_extends(ids, id, j + 1);
    } else {
        assert(ids.subrange(0, j) =~= ids);
    }
}

/// Whether a category may be removed, given how many categories exist and
/// how many active plan lines use it.
pub open spec fn category_removal(existing: i64, lines_using: i64) -> Result<(), BudgetError> {
    if existing <= 1 {
        Err(BudgetError::KeepOneCategory)
    } else if lines_using > 0 {
        Err(BudgetError::CategoryInUse)
    } else {
        Ok(())
    }
}

/// Decides a category removal: the last category stays, and a category that
/// active plan lines still use stays.
pub fn check_category_removal(existing: i64, lines_using: i64) -> (r: Result<(), BudgetError>)
    ensures
        r == category_removal(existing, lines_using),
        r is Ok ==> existing - 1 >= 1,
        r is Ok <==> existing > 1 && lines_using <= 0,
        existing <= 1 ==> r == Err::<(), BudgetError>(BudgetError::KeepOneCategory),
        existing > 1 && lines_using > 0 ==> r == Err::<(), BudgetError>(BudgetError::CategoryInUse),
{
    if existing <= 1 {
        Err(BudgetError::KeepOneCategory)
    } else if lines_using > 0 {
        Err(BudgetError::CategoryInUse)
    } else {
        Ok(())
    }
}

/// A removal that is allowed always leaves at least one category and never
/// orphans an active plan line.
pub proof fn law_removal_keeps_a_category(existing: i64, lines_using: i64)
    ensures
        category_removal(existing, lines_using) is Ok ==> existing - 1 >= 1 && lines_using <= 0,
{
}

/// Budget data may be read or changed unless the app lock is on and the
/// session has not unlocked it.
pub fn check_unlocked(lock_enabled: bool, unlocked: bool) -> (r: Result<(), BudgetError>)
    ensures
        r is Ok <==> (!lock_enabled || unlocked),
        r is Err ==> r == Err::<(), BudgetError>(BudgetError::AppLocked),
{
    if lock_enabled && !unlocked {
        Err(BudgetError::AppLocked)
    } else {
        Ok(())
    }
}

/// A new lock passphrase must take at least six bytes in UTF-8.
pub fn check_lock_password(password: &str) -> (r: Result<(), BudgetError>)
    ensures
        r is Ok <==> password.len() >= 6,
        r is Err ==> r == Err::<(), BudgetError>(BudgetError::PasswordTooShort),
{
    if password.len() < 6 {
        Err(BudgetError::PasswordTooShort)
    } else {
        Ok(())
    }
}

/// The theme stored for a requested theme: `light` only when asked for by
/// that name, `dark` otherwise.
pub fn normalize_theme(theme: &str) -> (r: &'static str)
    ensures
        r@ == (if theme@ == "light"@ { "light"@ } else { "dark"@ }),
{
    if str_eq(theme, "light") {
        "light"
    } else {
        "dark"
    }
}

/// The phrase that confirms wiping all budget data.
pub open spec fn wipe_confirmed(phrase: Seq<char>) -> bool {
    trim_ws(phrase) == "DELETE DATA"@
}

/// Wiping all budget data needs the exact phrase `DELETE DATA`
/// (surrounding white space ignored).
pub fn check_wipe_confirmation(phrase: &str) -> (r: Result<(), BudgetError>)
    ensures
        r is Ok <==> wipe_confirmed(phrase@),
        r is Ok <==> trim_ws(phrase@) == "DELETE DATA"@,
        r is Err ==> r == Err::<(), BudgetError>(BudgetError::ConfirmPhraseMismatch),
{
    let t = trim(phrase);
    if str_eq(t.as_str(), "DELETE DATA") {
        Ok(())
    } else {
        Err(BudgetError::ConfirmPhraseMismatch)
    }
}

/// The status of a month that is still open for entries.
pub fn open_status() -> (r: &'static str)
    ensures
        r@ == "open"@,
{
    "open"
}

/// The status Check-In gives a month when it closes it with a grade.
pub fn closed_status() -> (r: &'static str)
    ensures
        r@ == "reviewed"@,
{
    "reviewed"
}

/// A month in this status takes new actuals and plan refreshes.
pub open spec fn month_editable(status: Seq<char>) -> bool {
    status != "reviewed"@
}

/// A month that has been closed by Check-In (`reviewed`) takes no new actuals.
pub fn check_month_editable(status: &str) -> (r: Result<(), BudgetError>)
    ensures
        r is Ok <==> month_editable(status@),
        r is Err <==> status@ == "reviewed"@,
        r is Err ==> r == Err::<(), BudgetError>(BudgetError::MonthClosed),
{
    if str_eq(status, "reviewed") {
        Err(BudgetError::MonthClosed)
    } else {
        Ok(())
    }
}

/// A closed month is not refreshed from the plan.
pub fn check_month_resync(status: &str) -> (r: Result<(), BudgetError>)
    ensures
        r is Ok <==> month_editable(status@),
        r is Err <==> status@ == "reviewed"@,
        r is Err ==> r == Err::<(), BudgetError>(BudgetError::ClosedMonthResync),
{
    if str_eq(status, "reviewed") {
        Err(BudgetError::ClosedMonthResync)
    } else {
        Ok(())
    }
}

/// A month closed by Check-In refuses new actuals until it is reopened from
/// History, and a reopened month takes them again.
pub proof fn law_closed_month_locked_until_reopened()
    ensures
        !month_editable("reviewed"@),
        month_editable("open"@),
{
    reveal_strlit("open");
    reveal_strlit("reviewed");
    assert("open"@[0] != "reviewed"@[0]);
}

/// The month before (`year`, `month`): January steps back to December of the
/// year before.
pub fn previous_month(year: i32, month: i32) -> (r: (i32, i32))
    requires
        month > i32::MIN,
        month == 1 ==> year > i32::MIN,
    ensures
        month == 1 ==> r.0 == year - 1 && r.1 == 12,
        month != 1 ==> r.0 == year && r.1 == month - 1,
{
    if month == 1 {
        (year - 1, 12)
    } else {
        (year, month - 1)
    }
}

/// For a calendar month, the month before is again a calendar month, and
/// counting months from year 0 it is exactly one month earlier.
pub proof fn law_previous_month_is_one_earlier(year: i32, month: i32)
    requires
        1 <= month <= 12,
        year > i32::MIN,
    ensures
        ({
            let p = if month == 1 { (year - 1, 12) } else { (year as int, month - 1) };
            &&& 1 <= p.1 <= 12
            &&& p.0 * 12 + p.1 == year * 12 + month - 1
        }),
{
}

/// Onboarding is done once the plan holds any active line or any category.
pub fn budget_data_present(active_lines: i64, categories: i64) -> (r: bool)
    ensures
        r == (active_lines > 0 || categories > 0),
{
    active_lines > 0 || categories > 0
}


/// One step of opening a database: first use, or an upgrade from an older schema.
#[derive(Debug, Clone, Copy, PartialEq, Eq)]
pub enum SchemaStep {
    /// A new database: store the dark theme, schema 3 and empty income.
    SeedSettings,
    /// Mark the plan lines that look like bills as fixed.
    ReclassifyFixedLines,
    /// Record schema version 2.
    MarkSchema2,
    /// Make categories fixed where their lines or names say so.
    PromoteFixedCategories,
    /// Record schema version 3.
    MarkSchema3,
}

/// The steps for a database whose settings table has `settings_rows` rows
/// and records `version` (none recorded reads as version 1).
pub open spec fn schema_steps_for(settings_rows: i64, version: Option<Seq<char>>) -> Seq<SchemaStep> {
    if settings_rows == 0 {
        seq![SchemaStep::SeedSettings]
    } else {
        let v = match version {
            Some(v) => v,
            None => "1"@,
        };
        if v == "1"@ {
            seq![
                SchemaStep::ReclassifyFixedLines,
                SchemaStep::MarkSchema2,
                SchemaStep::PromoteFixedCategories,
                SchemaStep::MarkSchema3,
            ]
        } else if v == "2"@ {
            seq![SchemaStep::PromoteFixedCategories, SchemaStep::MarkSchema3]
        } else {
            Seq::empty()
        }
    }
}

/// The steps that bring a database up to the current schema, in order.
pub fn schema_upgrade_steps(settings_rows: i64, version: Option<String>) -> (r: Vec<SchemaStep>)
    ensures
        r@ == schema_steps_for(settings_rows, crate::models::opt_view(version)),
        settings_rows == 0 ==> r@ == seq![SchemaStep::SeedSettings],
        settings_rows != 0 && (version is None || version->0@ == "1"@) ==> r@ == seq![
            SchemaStep::ReclassifyFixedLines,
            SchemaStep::MarkSchema2,
            SchemaStep::PromoteFixedCategories,
            SchemaStep::MarkSchema3,
        ],
        settings_rows != 0 && version is Some && version->0@ == "2"@ ==> r@ == seq![
            SchemaStep::PromoteFixedCategories,
            SchemaStep::MarkSchema3,
        ],
        settings_rows != 0 && version is Some && version->0@ != "1"@ && version->0@ != "2"@
            ==> r@.len() == 0,
{
    let mut steps: Vec<SchemaStep> = Vec::new();
    if settings_rows == 0 {
        steps.push(SchemaStep::SeedSettings);
        assert(steps@ =~= seq![SchemaStep::SeedSettings]);
        return steps;
    }
    let is_one = match &version {
        Some(v) => str_eq(v.as_str(), "1"),
        None => true,
    };
    let is_two = match &version {
        Some(v) => str_eq(v.as_str(), "2"),
        None => false,
    };
    proof {
        reveal_strlit("1");
        reveal_strlit("2");
        assert("1"@[0] != "2"@[0]);
    }
    if is_one {
        steps.push(SchemaStep::ReclassifyFixedLines);
        steps.push(SchemaStep::MarkSchema2);
    }
    if is_one || is_two {
        steps.push(SchemaStep::PromoteFixedCategories);
        steps.push(SchemaStep::MarkSchema3);
    }
    assert(is_one ==> steps@ =~= seq![
        SchemaStep::ReclassifyFixedLines,
        SchemaStep::MarkSchema2,
        SchemaStep::PromoteFixedCategories,
        SchemaStep::MarkSchema3,
    ]);
    assert(!is_one && is_two ==> steps@ =~= seq![SchemaStep::PromoteFixedCategories, SchemaStep::MarkSchema3]);
    assert(!is_one && !is_two ==> steps@ =~= Seq::<SchemaStep>::empty());
    steps
}

/// Every upgrade ends at schema 3: whatever an existing database records,
/// the steps that change its version end by recording version 3, and a new
/// database starts there.
pub proof fn law_upgrades_end_at_schema_3(settings_rows: i64, version: Option<Seq<char>>)
    ensures
        ({
            let steps = schema_steps_for(settings_rows, version);
            steps.len() > 0 ==> (steps.last() == SchemaStep::MarkSchema3 || steps.last()
                == SchemaStep::SeedSettings)
        }),
{
}

} // verus!
