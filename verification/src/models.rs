//! The budget app's records that hold no money amounts.
use vstd::prelude::*;

use crate::text::str_eq;

verus! {

/// What the app shell shows before any budget data: lock state, where the
/// database lives, whether onboarding is done, and the theme.
#[derive(Debug, Clone)]
pub struct AppStatus {
    pub locked: bool,
    pub lock_enabled: bool,
    pub db_path: String,
    pub portable: bool,
    pub has_data: bool,
    pub theme: String,
    /// True after importing old data until user dismisses the category-review notice.
    pub needs_category_review: bool,
}

/// The theme stored in settings, or `dark` where none is stored.
pub open spec fn stored_theme_or_dark(theme_setting: Option<Seq<char>>) -> Seq<char> {
    match theme_setting {
        Some(t) => t,
        None => "dark"@,
    }
}

/// The category-review notice is pending only where the setting reads `1`.
pub open spec fn review_pending(review_setting: Option<Seq<char>>) -> bool {
    match review_setting {
        Some(r) => r == "1"@,
        None => false,
    }
}

/// The view of an optional text.
pub open spec fn opt_view(o: Option<String>) -> Option<Seq<char>> {
    match o {
        Some(s) => Some(s@),
        None => None,
    }
}

impl AppStatus {
    /// The status built from what the settings table holds: whether a lock
    /// hash is stored, the session's unlock flag, the stored theme and the
    /// stored category-review flag.
    pub fn from_settings(
        lock_hash_stored: bool,
        unlocked: bool,
        db_path: String,
        portable: bool,
        has_data: bool,
        theme_setting: Option<String>,
        review_setting: Option<String>,
    ) -> (r: AppStatus)
        ensures
            r.lock_enabled == lock_hash_stored,
            r.locked == (lock_hash_stored && !unlocked),
            r.db_path == db_path,
            r.portable == portable,
            r.has_data == has_data,
            r.theme@ == stored_theme_or_dark(opt_view(theme_setting)),
            r.needs_category_review == review_pending(opt_view(review_setting)),
    {
        let theme = match theme_setting {
            Some(t) => t,
            None => String::from_str("dark"),
        };
        let needs_category_review = match &review_setting {
            Some(v) => str_eq(v.as_str(), "1"),
            None => false,
        };
        AppStatus {
            locked: lock_hash_stored && !unlocked,
            lock_enabled: lock_hash_stored,
            db_path,
            portable,
            has_data,
            theme,
            needs_category_review,
        }
    }
}

/// A spending category of the plan.
#[derive(Debug, Clone)]
pub struct Category {
    pub id: i64,
    pub name: String,
    pub color: String,
    pub sort_order: i64,
    /// When true, every budget line in this category is treated as a fixed bill.
    pub is_fixed: bool,
}

/// A category as the user submits it: a new one (no id) or an edit.
#[derive(Debug, Clone)]
pub struct CategoryInput {
    pub id: Option<i64>,
    pub name: String,
    pub is_fixed: bool,
}

/// How many lines of a month are under plan, on plan, over plan or not entered.
#[derive(Debug, Clone, Copy, PartialEq, Eq)]
pub struct StatusCounts {
    pub under: i32,
    pub on_plan: i32,
    pub over: i32,
    pub unset: i32,
}

impl Default for StatusCounts {
    fn default() -> (r: StatusCounts)
        ensures
            r == StatusCounts::zero(),
    {
        StatusCounts { under: 0, on_plan: 0, over: 0, unset: 0 }
    }
}

/// Per-status tallies of a sequence of line statuses:
/// (under, on plan, over, anything else).
pub open spec fn status_tally(s: Seq<Seq<char>>) -> (nat, nat, nat, nat)
    decreases s.len(),
{
    if s.len() == 0 {
        (0, 0, 0, 0)
    } else {
        let t = status_tally(s.drop_last());
        let st = s.last();
        if st == "under"@ {
            (t.0 + 1, t.1, t.2, t.3)
        } else if st == "on_plan"@ {
            (t.0, t.1 + 1, t.2, t.3)
        } else if st == "over"@ {
            (t.0, t.1, t.2 + 1, t.3)
        } else {
            (t.0, t.1, t.2, t.3 + 1)
        }
    }
}

impl StatusCounts {
    /// All four counts zero.
    pub open spec fn zero() -> StatusCounts {
        StatusCounts { under: 0, on_plan: 0, over: 0, unset: 0 }
    }

    /// The counts after one more line with status `status`.
    pub open spec fn counted(self, status: Seq<char>) -> StatusCounts {
        if status == "under"@ {
            StatusCounts { under: (self.under + 1) as i32, ..self }
        } else if status == "on_plan"@ {
            StatusCounts { on_plan: (self.on_plan + 1) as i32, ..self }
        } else if status == "over"@ {
            StatusCounts { over: (self.over + 1) as i32, ..self }
        } else {
            StatusCounts { unset: (self.unset + 1) as i32, ..self }
        }
    }

    /// The count that a line with status `status` raises has room for one more.
    pub open spec fn has_room_for(self, status: Seq<char>) -> bool {
        if status == "under"@ {
            self.under < i32::MAX
        } else if status == "on_plan"@ {
            self.on_plan < i32::MAX
        } else if status == "over"@ {
            self.over < i32::MAX
        } else {
            self.unset < i32::MAX
        }
    }

    /// Counts one more line: `under`, `on_plan` and `over` raise their own
    /// count, any other status counts as not entered.
    pub fn record(&mut self, status: &str)
        requires
            old(self).has_room_for(status@),
        ensures
            *final(self) == old(self).counted(status@),
            status@ == "under"@ ==> final(self).under == old(self).under + 1 && final(self).on_plan
                == old(self).on_plan && final(self).over == old(self).over && final(self).unset
                == old(self).unset,
            status@ == "on_plan"@ ==> final(self).on_plan == old(self).on_plan + 1
                && final(self).under == old(self).under && final(self).over == old(self).over
                && final(self).unset == old(self).unset,
            status@ == "over"@ ==> final(self).over == old(self).over + 1 && final(self).under
                == old(self).under && final(self).on_plan == old(self).on_plan && final(self).unset
                == old(self).unset,
            status@ != "under"@ && status@ != "on_plan"@ && status@ != "over"@ ==> final(self).unset
                == old(self).unset + 1 && final(self).under == old(self).under && final(self).on_plan
                == old(self).on_plan && final(self).over == old(self).over,
    {
        proof {
            reveal_strlit("under");
            reveal_strlit("on_plan");
            reveal_strlit("over");
            assert("on_plan"@.len() != "under"@.len());
            assert("over"@.len() != "under"@.len());
            assert("over"@.len() != "on_plan"@.len());
        }
        if str_eq(status, "under") {
            self.under = self.under + 1;
        } else if str_eq(status, "on_plan") {
            self.on_plan = self.on_plan + 1;
        } else if str_eq(status, "over") {
            self.over = self.over + 1;
        } else {
            self.unset = self.unset + 1;
        }
    }

    /// The counts of a month whose lines have the given statuses.
    pub fn tally(statuses: &Vec<String>) -> (r: StatusCounts)
        requires
            statuses.len() < i32::MAX,
        ensures
            r.under == status_tally(statuses.deep_view()).0,
            r.on_plan == status_tally(statuses.deep_view()).1,
            r.over == status_tally(statuses.deep_view()).2,
            r.unset == status_tally(statuses.deep_view()).3,
            r.under + r.on_plan + r.over + r.unset == statuses.len(),
    {
        let mut c = StatusCounts { under: 0, on_plan: 0, over: 0, unset: 0 };
        let mut i: usize = 0;
        while i < statuses.len()
            invariant
                statuses.len() < i32::MAX,
                i <= statuses.len(),
                c.under == status_tally(statuses.deep_view().subrange(0, i as int)).0,
                c.on_plan == status_tally(statuses.deep_view().subrange(0, i as int)).1,
                c.over == status_tally(statuses.deep_view().subrange(0, i as int)).2,
                c.unset == status_tally(statuses.deep_view().subrange(0, i as int)).3,
                c.under + c.on_plan + c.over + c.unset == i,
            decreases statuses.len() - i,
        {
            let ghost pre = statuses.deep_view().subrange(0, i as int);
            let ghost post = statuses.deep_view().subrange(0, i + 1);
            assert(post.drop_last() =~= pre);
            assert(post.last() == statuses[i as int]@);
            c.record(statuses[i].as_str());
            i = i + 1;
        }
        assert(statuses.deep_view().subrange(0, statuses.len() as int) =~= statuses.deep_view());
        c
    }
}

/// Each count of a month's tally is the number of its lines with that status:
/// `under`, `on_plan` and `over` count themselves, and any other status counts
/// as not entered.
pub proof fn law_tally_counts_each_status(s: Seq<Seq<char>>)
    ensures
        status_tally(s).0 == s.filter(|x: Seq<char>| x == "under"@).len(),
        status_tally(s).1 == s.filter(|x: Seq<char>| x == "on_plan"@).len(),
        status_tally(s).2 == s.filter(|x: Seq<char>| x == "over"@).len(),
        status_tally(s).3 == s.filter(
            |x: Seq<char>| x != "under"@ && x != "on_plan"@ && x != "over"@,
        ).len(),
    decreases s.len(),
{
    broadcast use Seq::lemma_filter_len_push;

    reveal_strlit("under");
    reveal_strlit("on_plan");
    reveal_strlit("over");
    assert("on_plan"@.len() != "under"@.len());
    assert("over"@.len() != "under"@.len());
    assert("over"@.len() != "on_plan"@.len());
    if s.len() == 0 {
        reveal_with_fuel(Seq::filter, 1);
    } else {
        law_tally_counts_each_status(s.drop_last());
        assert(s =~= s.drop_last().push(s.last()));
    }
}

/// The outcome of asking GitHub for the latest release.
#[derive(Debug, Clone)]
pub struct UpdateCheck {
    pub current_version: String,
    pub latest_version: String,
    pub update_available: bool,
    pub release_url: String,
    pub zip_asset_name: Option<String>,
    pub checked: bool,
    pub error: Option<String>,
}

} // verus!
