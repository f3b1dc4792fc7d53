//! Decisions of the app shell: the command line, the window's start page,
//! where the database lives, and the texts written for the self-tests.
use vstd::prelude::*;

use crate::text::{decimal, has_substring, str_contains, str_eq, u64_to_decimal};

verus! {

/// What the program was asked to do on its command line.
#[derive(Debug, Clone, PartialEq, Eq)]
pub enum CliCommand {
    /// Run the backend self-test and report the result.
    SelfTest,
    /// Create a demo database at this path.
    SeedDemo(String),
    /// Open the app window.
    RunApp,
}

/// The first position in `args` holding `flag`.
pub open spec fn first_flag_position(args: Seq<Seq<char>>, flag: Seq<char>) -> Option<int>
    decreases args.len(),
{
    if args.len() == 0 {
        None
    } else {
        match first_flag_position(args.drop_last(), flag) {
            Some(k) => Some(k),
            None => if args.last() == flag { Some(args.len() - 1) } else { None },
        }
    }
}

proof fn lemma_first_flag_facts(args: Seq<Seq<char>>, flag: Seq<char>)
    ensures
        first_flag_position(args, flag) matches Some(k) ==> 0 <= k < args.len() && args[k] == flag
            && forall|j: int| 0 <= j < k ==> #[trigger] args[j] != flag,
        first_flag_position(args, flag) is None ==> !args.contains(flag),
        first_flag_position(args, flag) is None <==> !args.contains(flag),
    decreases args.len(),
{
    if args.len() > 0 {
        let d = args.drop_last();
        lemma_first_flag_facts(d, flag);
        let n = args.len() - 1;
        assert(args.last() == args[n]);
        match first_flag_position(d, flag) {
            Some(k) => {
                assert(d[k] == args[k]);
                assert forall|j: int| 0 <= j < k implies #[trigger] args[j] != flag by {
                    assert(d[j] == args[j]);
                }
            },
            None => {
                assert forall|j: int| 0 <= j < n implies #[trigger] args[j] != flag by {
                    assert(d[j] == args[j]);
                    assert(!d.contains(flag));
                }
                if args.last() == flag {
                    assert(args.contains(flag));
                }
            },
        }
    }
}

proof fn lemma_first_flag_extends(args: Seq<Seq<char>>, flag: Seq<char>, j: int)
    requires
        0 <= j <= args.len(),
        first_flag_position(args.subrange(0, j), flag) is Some,
    ensures
        first_flag_position(args, flag) == first_flag_position(args.subrange(0, j), flag),
    decreases args.len() - j,
{
    if j < args.len() {
        assert(args.subrange(0, j + 1).drop_last() =~= args.subrange(0, j));
        lemma_first_flag_extends(args, flag, j + 1);
    } else {
        assert(args.subrange(0, j) =~= args);
    }
}

fn find_flag(args: &Vec<String>, flag: &str) -> (r: Option<usize>)
    ensures
        match first_flag_position(args.deep_view(), flag@) {
            Some(k) => r == Some(k as usize),
            None => r is None,
        },
        r matches Some(k) ==> k < args.len(),
{
    let mut i: usize = 0;
    while i < args.len()
        invariant
            i <= args.len(),
            first_flag_position(args.deep_view().subrange(0, i as int), flag@) is None,
        decreases args.len() - i,
    {
        assert(args.deep_view().subrange(0, i + 1).drop_last() =~= args.deep_view().subrange(
            0,
            i as int,
        ));
        if str_eq(args[i].as_str(), flag) {
            assert(args.deep_view().subrange(0, i + 1).last() == args.deep_view()[i as int]);
            proof {
                lemma_first_flag_extends(args.deep_view(), flag@, i + 1);
            }
            return Some(i);
        }
        i = i + 1;
    }
    assert(args.deep_view().subrange(0, args.len() as int) =~= args.deep_view());
    None
}

/// The command line asks for the self-test: `--self-test` stands anywhere.
pub open spec fn asks_self_test(args: Seq<Seq<char>>) -> bool {
    args.contains("--self-test"@)
}

/// Where the command line asks for a demo database: the argument after the
/// first `--seed-demo`, or `bm9000.db` where none follows; nothing without
/// `--seed-demo`.
pub open spec fn seed_path_for(args: Seq<Seq<char>>) -> Option<Seq<char>> {
    match first_flag_position(args, "--seed-demo"@) {
        Some(i) => if i + 1 < args.len() {
            Some(args[i + 1])
        } else {
            Some("bm9000.db"@)
        },
        None => None,
    }
}

/// Reads the command line (the program name included): the self-test wins
/// over seeding, and without either flag the app runs.
pub fn parse_cli(args: &Vec<String>) -> (r: CliCommand)
    ensures
        asks_self_test(args.deep_view()) ==> r is SelfTest,
        !asks_self_test(args.deep_view()) ==> match seed_path_for(args.deep_view()) {
            Some(p) => r is SeedDemo && r->SeedDemo_0@ == p,
            None => r is RunApp,
        },
        r is SelfTest <==> args.deep_view().contains("--self-test"@),
        r is RunApp <==> !args.deep_view().contains("--self-test"@) && !args.deep_view().contains(
            "--seed-demo"@,
        ),
        r matches CliCommand::SeedDemo(p) ==> exists|i: int|
            0 <= i < args.len() && #[trigger] args.deep_view()[i] == "--seed-demo"@ && (forall|j: int|
                0 <= j < i ==> #[trigger] args.deep_view()[j] != "--seed-demo"@) && p@ == (if i + 1
                < args.len() {
                args.deep_view()[i + 1]
            } else {
                "bm9000.db"@
            }),
{
    proof {
        lemma_first_flag_facts(args.deep_view(), "--self-test"@);
        lemma_first_flag_facts(args.deep_view(), "--seed-demo"@);
    }
    if find_flag(args, "--self-test").is_some() {
        return CliCommand::SelfTest;
    }
    match find_flag(args, "--seed-demo") {
        Some(i) => {
            if i + 1 < args.len() {
                CliCommand::SeedDemo(args[i + 1].clone())
            } else {
                CliCommand::SeedDemo(String::from_str("bm9000.db"))
            }
        },
        None => CliCommand::RunApp,
    }
}

/// The line written for the outcome of a command-line run: `label PASS: msg`
/// or `label FAIL: msg`, ending in a new line.
pub fn cli_result_line(label: &str, outcome: &Result<String, String>) -> (r: String)
    ensures
        outcome matches Ok(m) ==> r@ == label@ + " PASS: "@ + m@ + "\n"@,
        outcome matches Err(e) ==> r@ == label@ + " FAIL: "@ + e@ + "\n"@,
{
    let mut s = label.to_owned();
    match outcome {
        Ok(m) => {
            s.append(" PASS: ");
            s.append(m.as_str());
        },
        Err(e) => {
            s.append(" FAIL: ");
            s.append(e.as_str());
        },
    }
    s.append("\n");
    s
}

/// The report written next to the program by the UI self-test.
pub fn ui_selftest_report(ok: bool, report: &str) -> (r: String)
    ensures
        r@ == (if ok { "UI_SELFTEST PASS"@ } else { "UI_SELFTEST FAIL"@ }) + "\n"@ + report@ + "\n"@,
{
    let mut s = if ok {
        String::from_str("UI_SELFTEST PASS")
    } else {
        String::from_str("UI_SELFTEST FAIL")
    };
    s.append("\n");
    s.append(report);
    s.append("\n");
    s
}

/// The message after seeding a demo database at `path` with `lines` plan lines.
pub fn seed_message(path: &str, lines: usize) -> (r: String)
    ensures
        r@ == "Seeded demo database at "@ + path@ + " with "@ + decimal(lines as nat)
            + " budget lines"@,
{
    let mut s = String::from_str("Seeded demo database at ");
    s.append(path);
    s.append(" with ");
    s.append(u64_to_decimal(lines as u64).as_str());
    s.append(" budget lines");
    s
}

/// The pages the window may open on.
pub open spec fn is_start_view(v: Seq<char>) -> bool {
    ||| v == "dashboard"@
    ||| v == "transactions"@
    ||| v == "checkin"@
    ||| v == "plan"@
    ||| v == "history"@
    ||| v == "reports"@
    ||| v == "settings"@
    ||| v == "help"@
}

/// The query of the window's first address: `selftest=1` when the UI
/// self-test is on, `view=...` for a known start page, joined by `&` after a
/// `?`; empty when neither applies.
pub open spec fn start_query_text(selftest: bool, view: Seq<char>) -> Seq<char> {
    if selftest && is_start_view(view) {
        "?selftest=1&view="@ + view
    } else if selftest {
        "?selftest=1"@
    } else if is_start_view(view) {
        "?view="@ + view
    } else {
        Seq::empty()
    }
}

/// The query of the window's first address.
pub fn start_query(selftest: bool, start_view: &str) -> (r: String)
    ensures
        r@ == start_query_text(selftest, start_view@),
{
    let known = str_eq(start_view, "dashboard") || str_eq(start_view, "transactions") || str_eq(
        start_view,
        "checkin",
    ) || str_eq(start_view, "plan") || str_eq(start_view, "history") || str_eq(
        start_view,
        "reports",
    ) || str_eq(start_view, "settings") || str_eq(start_view, "help");
    let mut s = String::new();
    if selftest {
        s.append("?selftest=1");
    }
    if known {
        if selftest {
            s.append("&view=");
        } else {
            s.append("?view=");
        }
        s.append(start_view);
    }
    proof {
        reveal_strlit("?selftest=1");
        reveal_strlit("&view=");
        reveal_strlit("?selftest=1&view=");
    }
    assert(selftest && known ==> "?selftest=1"@ + "&view="@ =~= "?selftest=1&view="@);
    s
}

/// Whether the database stays next to the program: a portable marker or an
/// existing database is there, or the folder does not look like an
/// installation (no uninstaller, not under `Program Files`).
pub open spec fn prefers_portable_text(marker: bool, db_beside: bool, uninstaller_beside: bool, dir: Seq<char>) -> bool {
    let looks_installed = uninstaller_beside || has_substring(dir, "Program Files"@)
        || has_substring(dir, "Program Files (x86)"@);
    marker || db_beside || !looks_installed
}

/// Whether the database should live next to the program (it then also needs
/// a writable folder).
pub fn prefers_portable(marker: bool, db_beside: bool, uninstaller_beside: bool, dir: &str) -> (r: bool)
    ensures
        r == prefers_portable_text(marker, db_beside, uninstaller_beside, dir@),
        marker || db_beside ==> r,
        !marker && !db_beside && (uninstaller_beside || has_substring(dir@, "Program Files"@))
            ==> !r,
        !uninstaller_beside && !has_substring(dir@, "Program Files"@) && !has_substring(
            dir@,
            "Program Files (x86)"@,
        ) ==> r,
{
    let looks_installed = uninstaller_beside || str_contains(dir, "Program Files") || str_contains(
        dir,
        "Program Files (x86)",
    );
    marker || db_beside || !looks_installed
}

} // verus!
