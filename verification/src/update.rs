//! Update checks against the GitHub releases of the app: what is reported to
//! the user, and how an upgrade package is put together.
use vstd::prelude::*;

use crate::models::UpdateCheck;
use vstd::utf8::is_ascii_chars;
use crate::text::{ascii_lower, has_suffix, lowercase_of, str_contains, str_ends_with, str_eq, has_substring, to_lowercase};
pub use crate::version::{current_version, version_is_newer};
use crate::version::is_newer_version;
use vstd::string::StringSliceAdditionalSpecFns;

verus! {

/// The GitHub repository that publishes the releases.
pub const REPO: &'static str = "codemonkey2k5/BudgetMaster9000";

/// The opening of the upgrade instructions, up to the installed version.
pub const UPGRADE_INTRO: &'static str = "Budget Master 9000 — Upgrade instructions\n========================================\n\nYou are updating from ";

/// The body of the upgrade instructions, from after the new version up to the
/// repository name.
pub const UPGRADE_BODY: &'static str = ".\n\nPick ONE of the two distribution choices (same as a new install):\n\n1) INSTALLER (recommended if you used the setup before)\n   - Run BudgetMaster9000-Setup-*-x64.exe (or the .msi if present).\n   - Follow the prompts. Your budget data stays in AppData automatically.\n   - No database files to copy. No settings to edit.\n\n2) PORTABLE\n   - Close Budget Master 9000 if it is running.\n   - Copy BudgetMaster9000.exe over the old one in the SAME folder.\n   - Leave bm9000.db (your data) where it is — do not move or rename it.\n   - Start the new BudgetMaster9000.exe.\n\nAfter upgrade\n-------------\n- Open the app. Schema upgrades run automatically on first launch.\n- Your Plan, months, and history should be unchanged.\n\nIf anything looks wrong, import a JSON backup from Settings (export first next time).\n\nDownload source: https://github.com/";

/// A file attached to a GitHub release.
#[derive(Debug, Clone)]
pub struct GhAsset {
    pub name: String,
    pub browser_download_url: String,
    pub size: u64,
}

/// A GitHub release: its tag, its page and its files.
#[derive(Debug, Clone)]
pub struct GhRelease {
    pub tag_name: String,
    pub html_url: String,
    pub assets: Vec<GhAsset>,
}

/// What came back from asking GitHub for the latest release.
#[derive(Debug, Clone)]
pub enum ReleaseResponse {
    /// A release, read from the answer.
    Release(GhRelease),
    /// An answer that did not read as a release, with the reader's message.
    Unparsable(String),
    /// No answer, with the transport's message.
    Unreachable(String),
}

/// The address of the latest-release query.
pub open spec fn latest_release_api_url_text() -> Seq<char> {
    "https://api.github.com/repos/"@ + REPO@ + "/releases/latest"@
}

/// The address of the latest-release query.
pub fn latest_release_api_url() -> (r: String)
    ensures
        r@ == latest_release_api_url_text(),
{
    let mut s = String::from_str("https://api.github.com/repos/");
    s.append(REPO);
    s.append("/releases/latest");
    s
}

/// The page that lists all releases.
pub open spec fn releases_page_text() -> Seq<char> {
    "https://github.com/"@ + REPO@ + "/releases"@
}

/// The page that lists all releases.
pub fn releases_page() -> (r: String)
    ensures
        r@ == releases_page_text(),
{
    let mut s = String::from_str("https://github.com/");
    s.append(REPO);
    s.append("/releases");
    s
}

/// A tag without its leading `v` characters (`v1.2.0` reads `1.2.0`).
pub open spec fn strip_leading_v(s: Seq<char>) -> Seq<char>
    decreases s.len(),
{
    if s.len() > 0 && s[0] == 'v' {
        strip_leading_v(s.drop_first())
    } else {
        s
    }
}

proof fn lemma_strip_leading_v(s: Seq<char>)
    ensures
        strip_leading_v(s).len() <= s.len(),
        strip_leading_v(s) == s.subrange(s.len() - strip_leading_v(s).len(), s.len() as int),
        forall|j: int| 0 <= j < s.len() - strip_leading_v(s).len() ==> #[trigger] s[j] == 'v',
        strip_leading_v(s).len() > 0 ==> strip_leading_v(s)[0] != 'v',
    decreases s.len(),
{
    if s.len() > 0 && s[0] == 'v' {
        let t = s.drop_first();
        lemma_strip_leading_v(t);
        let k = s.len() - strip_leading_v(s).len();
        assert forall|j: int| 0 <= j < k implies #[trigger] s[j] == 'v' by {
            if j > 0 {
                assert(s[j] == t[j - 1]);
            }
        }
        assert(s.subrange(k, s.len() as int) =~= t.subrange(k - 1, t.len() as int));
    } else {
        assert(s.subrange(0, s.len() as int) =~= s);
    }
}

/// The version a release tag names: the tag without leading `v` characters.
pub fn tag_version(tag: &str) -> (r: String)
    ensures
        r@ == strip_leading_v(tag@),
        r@.len() <= tag@.len(),
        r@ == tag@.subrange(tag@.len() - r@.len(), tag@.len() as int),
        forall|j: int| 0 <= j < tag@.len() - r@.len() ==> #[trigger] tag@[j] == 'v',
        r@.len() > 0 ==> r@[0] != 'v',
{
    proof {
        lemma_strip_leading_v(tag@);
    }
    let n = tag.unicode_len();
    let mut i: usize = 0;
    assert(tag@.subrange(0, n as int) =~= tag@);
    while i < n && tag.get_char(i) == 'v'
        invariant
            n == tag@.len(),
            i <= n,
            strip_leading_v(tag@) == strip_leading_v(tag@.subrange(i as int, n as int)),
        decreases n - i,
    {
        assert(tag@.subrange(i as int, n as int).drop_first() =~= tag@.subrange(i + 1, n as int));
        i = i + 1;
    }
    tag.substring_char(i, n).to_owned()
}

/// An already lower-cased file name that ends in `.zip`.
pub open spec fn is_zip_name_lowered(lower: Seq<char>) -> bool {
    has_suffix(lower, ".zip"@)
}

/// A file name that ends in `.zip`, in any letter case.
pub open spec fn is_zip_name(name: Seq<char>) -> bool {
    is_zip_name_lowered(lowercase_of(name))
}

/// Whether an already lower-cased file name is a zip archive.
pub fn zip_name_rule(lower: &str) -> (r: bool)
    ensures
        r == is_zip_name_lowered(lower@),
        r == has_suffix(lower@, ".zip"@),
{
    str_ends_with(lower, ".zip")
}

/// The position of the first release file that is a zip archive.
pub open spec fn first_zip_position(assets: Seq<GhAsset>) -> Option<int>
    decreases assets.len(),
{
    if assets.len() == 0 {
        None
    } else {
        match first_zip_position(assets.drop_last()) {
            Some(k) => Some(k),
            None => if is_zip_name(assets.last().name@) { Some(assets.len() - 1) } else { None },
        }
    }
}

proof fn lemma_first_zip_in_range(assets: Seq<GhAsset>)
    ensures
        first_zip_position(assets) matches Some(k) ==> 0 <= k < assets.len(),
    decreases assets.len(),
{
    if assets.len() > 0 {
        lemma_first_zip_in_range(assets.drop_last());
    }
}

proof fn lemma_first_zip_extends(assets: Seq<GhAsset>, j: int)
    requires
        0 <= j <= assets.len(),
        first_zip_position(assets.subrange(0, j)) is Some,
    ensures
        first_zip_position(assets) == first_zip_position(assets.subrange(0, j)),
    decreases assets.len() - j,
{
    if j < assets.len() {
        assert(assets.subrange(0, j + 1).drop_last() =~= assets.subrange(0, j));
        lemma_first_zip_extends(assets, j + 1);
    } else {
        assert(assets.subrange(0, j) =~= assets);
    }
}

/// The position of the first zip archive among a release's files, if any.
pub fn find_zip_asset(assets: &Vec<GhAsset>) -> (r: Option<usize>)
    ensures
        match first_zip_position(assets@) {
            Some(k) => r == Some(k as usize),
            None => r is None,
        },
        r matches Some(k) ==> k < assets.len() && has_suffix(lowercase_of(assets@[k as int].name@), ".zip"@)
            && forall|j: int| 0 <= j < k ==> !has_suffix(lowercase_of(#[trigger] assets@[j].name@), ".zip"@),
        r is None <==> forall|j: int|
            0 <= j < assets.len() ==> !has_suffix(lowercase_of(#[trigger] assets@[j].name@), ".zip"@),
{
    proof {
        lemma_first_zip_facts(assets@);
    }
    let mut i: usize = 0;
    while i < assets.len()
        invariant
            i <= assets.len(),
            first_zip_position(assets@.subrange(0, i as int)) is None,
        decreases assets.len() - i,
    {
        assert(assets@.subrange(0, i + 1).drop_last() =~= assets@.subrange(0, i as int));
        let lower = to_lowercase(assets[i].name.as_str());
        if zip_name_rule(lower.as_str()) {
            proof {
                lemma_first_zip_extends(assets@, i + 1);
                lemma_first_zip_facts(assets@);
            }
            return Some(i);
        }
        i = i + 1;
    }
    assert(assets@.subrange(0, assets.len() as int) =~= assets@);
    None
}

/// The report for a check made by a build of version `current`.
pub open spec fn update_report_matches(current: Seq<char>, response: ReleaseResponse, r: UpdateCheck) -> bool {
    match response {
        ReleaseResponse::Release(rel) => {
            let latest = strip_leading_v(rel.tag_name@);
            &&& r.current_version@ == current
            &&& r.latest_version@ == latest
            &&& r.update_available == is_newer_version(latest, current)
            &&& r.release_url@ == rel.html_url@
            &&& match first_zip_position(rel.assets@) {
                Some(k) => r.zip_asset_name is Some && r.zip_asset_name->0@ == rel.assets@[k].name@,
                None => r.zip_asset_name is None,
            }
            &&& r.checked
            &&& r.error is None
        },
        ReleaseResponse::Unparsable(e) => {
            &&& r.current_version@ == current
            &&& r.latest_version@ == current
            &&& !r.update_available
            &&& r.release_url@ == releases_page_text()
            &&& r.zip_asset_name is None
            &&& r.checked
            &&& r.error is Some && r.error->0@ == "Could not parse GitHub response: "@ + e@
        },
        ReleaseResponse::Unreachable(e) => {
            &&& r.current_version@ == current
            &&& r.latest_version@ == current
            &&& !r.update_available
            &&& r.release_url@ == releases_page_text()
            &&& r.zip_asset_name is None
            &&& r.checked
            &&& r.error is Some && r.error->0@ == "Offline or unreachable: "@ + e@
        },
    }
}

/// The update report for the answer GitHub gave to a build of version
/// `current`. A failed check never reports an update.
pub fn update_check_from(current: String, response: ReleaseResponse) -> (r: UpdateCheck)
    ensures
        update_report_matches(current@, response, r),
        r.current_version@ == current@,
        r.checked,
        response matches ReleaseResponse::Release(rel) ==> r.error is None && r.latest_version@
            == strip_leading_v(rel.tag_name@) && r.update_available == is_newer_version(
            strip_leading_v(rel.tag_name@),
            current@,
        ) && r.release_url@ == rel.html_url@ && (r.zip_asset_name is None <==> forall|j: int|
            0 <= j < rel.assets@.len() ==> !has_suffix(
                lowercase_of(#[trigger] rel.assets@[j].name@),
                ".zip"@,
            )),
        !(response is Release) ==> r.error is Some && !r.update_available && r.latest_version@
            == current@ && r.zip_asset_name is None,
{
    proof {
        if response is Release {
            lemma_first_zip_facts(response->Release_0.assets@);
        }
    }
    match response {
        ReleaseResponse::Release(rel) => {
            let latest = tag_version(rel.tag_name.as_str());
            proof {
                lemma_first_zip_in_range(rel.assets@);
            }
            let zip = match find_zip_asset(&rel.assets) {
                Some(k) => Some(rel.assets[k].name.clone()),
                None => None,
            };
            let available = version_is_newer(latest.as_str(), current.as_str());
            UpdateCheck {
                update_available: available,
                current_version: current,
                latest_version: latest,
                release_url: rel.html_url,
                zip_asset_name: zip,
                checked: true,
                error: None,
            }
        },
        ReleaseResponse::Unparsable(e) => {
            let mut msg = String::from_str("Could not parse GitHub response: ");
            msg.append(e.as_str());
            UpdateCheck {
                current_version: current.clone(),
                latest_version: current,
                update_available: false,
                release_url: releases_page(),
                zip_asset_name: None,
                checked: true,
                error: Some(msg),
            }
        },
        ReleaseResponse::Unreachable(e) => {
            let mut msg = String::from_str("Offline or unreachable: ");
            msg.append(e.as_str());
            UpdateCheck {
                current_version: current.clone(),
                latest_version: current,
                update_available: false,
                release_url: releases_page(),
                zip_asset_name: None,
                checked: true,
                error: Some(msg),
            }
        },
    }
}

/// A report that offers an update came from a release newer than the build.
pub proof fn law_update_offered_only_for_newer(current: Seq<char>, response: ReleaseResponse, r: UpdateCheck)
    requires
        update_report_matches(current, response, r),
    ensures
        r.update_available ==> r.error is None && is_newer_version(r.latest_version@, current),
        r.error is Some ==> !r.update_available,
{
}

/// The upgrade instructions written into a downloaded package.
pub open spec fn upgrade_text(latest: Seq<char>, current: Seq<char>) -> Seq<char> {
    UPGRADE_INTRO@ + current + " to "@ + latest + UPGRADE_BODY@ + REPO@ + "/releases\n"@
}

/// The instructions for upgrading from `current` to `latest`, naming both
/// ways to install (installer and portable).
pub fn upgrade_instructions(latest: &str, current: &str) -> (r: String)
    ensures
        r@ == upgrade_text(latest@, current@),
{
    let mut s = String::from_str(UPGRADE_INTRO);
    s.append(current);
    s.append(" to ");
    s.append(latest);
    s.append(UPGRADE_BODY);
    s.append(REPO);
    s.append("/releases\n");
    s
}


/// A release file that goes into an assembled upgrade package: an `.exe`,
/// an `.msi`, a setup program, the portable `BudgetMaster9000.exe` or a
/// checksum list (names compared in lower case).
pub open spec fn is_package_file(name: Seq<char>) -> bool {
    is_package_name_lowered(lowercase_of(name))
}

/// The package-file rule on an already lower-cased file name.
pub open spec fn is_package_name_lowered(l: Seq<char>) -> bool {
    ||| has_suffix(l, ".exe"@)
    ||| has_suffix(l, ".msi"@)
    ||| has_substring(l, "setup"@)
    ||| l == "budgetmaster9000.exe"@
    ||| has_suffix(l, "sums.txt"@)
}

/// A release file that is downloaded into an assembled package: a package
/// file of at most 80,000,000 bytes.
pub open spec fn is_packaged(a: GhAsset) -> bool {
    is_package_file(a.name@) && a.size <= 80_000_000
}

/// Whether an already lower-cased file name is an installer, the portable
/// program or a checksum list.
pub fn package_name_rule(l: &str) -> (r: bool)
    ensures
        r == is_package_name_lowered(l@),
        r == (has_suffix(l@, ".exe"@) || has_suffix(l@, ".msi"@) || has_substring(l@, "setup"@)
            || l@ == "budgetmaster9000.exe"@ || has_suffix(l@, "sums.txt"@)),
{
    str_ends_with(l, ".exe") || str_ends_with(l, ".msi") || str_contains(l, "setup") || str_eq(
        l,
        "budgetmaster9000.exe",
    ) || str_ends_with(l, "sums.txt")
}

/// Whether a release file goes into an assembled package.
pub fn asset_is_packaged(a: &GhAsset) -> (r: bool)
    ensures
        r == is_packaged(*a),
        r == wanted_in_package(*a),
        is_ascii_chars(a.name@) ==> r == (is_package_name_lowered(ascii_lower(a.name@)) && a.size
            <= 80_000_000),
{
    let lower = to_lowercase(a.name.as_str());
    package_name_rule(lower.as_str()) && a.size <= 80_000_000
}

/// The positions of the release files that go into an assembled package, in order.
pub open spec fn packaged_positions(assets: Seq<GhAsset>) -> Seq<int>
    decreases assets.len(),
{
    if assets.len() == 0 {
        Seq::empty()
    } else {
        let p = packaged_positions(assets.drop_last());
        if is_packaged(assets.last()) { p.push(assets.len() - 1) } else { p }
    }
}

/// A release file belongs in an assembled package, the rule written out: its
/// lower-cased name ends in `.exe` or `.msi`, contains `setup`, is
/// `budgetmaster9000.exe` or ends in `sums.txt`, and it is at most
/// 80,000,000 bytes.
pub open spec fn wanted_in_package(a: GhAsset) -> bool {
    &&& {
        let l = lowercase_of(a.name@);
        ||| has_suffix(l, ".exe"@)
        ||| has_suffix(l, ".msi"@)
        ||| has_substring(l, "setup"@)
        ||| l == "budgetmaster9000.exe"@
        ||| has_suffix(l, "sums.txt"@)
    }
    &&& a.size <= 80_000_000
}

proof fn lemma_packaged_positions(s: Seq<GhAsset>)
    ensures
        forall|k: int| #[trigger] packaged_positions(s).contains(k) <==> (0 <= k < s.len() && is_packaged(s[k])),
    decreases s.len(),
{
    if s.len() > 0 {
        let d = s.drop_last();
        lemma_packaged_positions(d);
        let p = packaged_positions(d);
        assert forall|k: int| #[trigger] packaged_positions(s).contains(k) <==> (0 <= k < s.len()
            && is_packaged(s[k])) by {
            if 0 <= k < d.len() {
                assert(d[k] == s[k]);
            }
            if is_packaged(s.last()) {
                let q = p.push(s.len() - 1);
                if q.contains(k) && k != s.len() - 1 {
                    let j = choose|j: int| 0 <= j < q.len() && q[j] == k;
                    assert(j < p.len());
                    assert(p.contains(k));
                }
                if p.contains(k) {
                    let j = choose|j: int| 0 <= j < p.len() && p[j] == k;
                    assert(q[j] == k);
                }
                if k == s.len() - 1 {
                    assert(q[p.len() as int] == k);
                }
            }
        }
    }
}

/// Where the files of an upgrade package come from.
#[derive(Debug, Clone)]
pub enum PackageSource {
    /// The release's own zip archive, at this position among its files.
    ReleaseZip(usize),
    /// A zip put together from these release files and the upgrade instructions.
    Assemble(Vec<usize>),
}

/// How an upgrade package is obtained and named.
#[derive(Debug, Clone)]
pub struct PackagePlan {
    pub latest: String,
    pub file_name: String,
    pub source: PackageSource,
}

/// The name under which the package for version `latest` is saved.
pub open spec fn package_file_name(latest: Seq<char>) -> Seq<char> {
    "BudgetMaster9000-"@ + latest + "-Windows.zip"@
}

/// The refusal when no newer release exists.
pub open spec fn already_latest_text() -> Seq<char> {
    "You already have the latest version."@
}

/// The plan for downloading the package of `release` from a build of version
/// `current`: refused unless the release is newer; the release's own zip
/// archive where it has one; otherwise the package files, in order.
pub open spec fn package_plan_matches(current: Seq<char>, release: GhRelease, r: Result<PackagePlan, String>) -> bool {
    let latest = strip_leading_v(release.tag_name@);
    if !is_newer_version(latest, current) {
        r is Err && r->Err_0@ == already_latest_text()
    } else {
        &&& r is Ok
        &&& r->Ok_0.latest@ == latest
        &&& r->Ok_0.file_name@ == package_file_name(latest)
        &&& match first_zip_position(release.assets@) {
            Some(k) => r->Ok_0.source == PackageSource::ReleaseZip(k as usize),
            None => r->Ok_0.source is Assemble
                && r->Ok_0.source->Assemble_0@.map_values(|i: usize| i as int)
                == packaged_positions(release.assets@),
        }
    }
}

/// Decides how the upgrade package for `release` is obtained.
pub fn plan_update_package(current: &str, release: &GhRelease) -> (r: Result<PackagePlan, String>)
    ensures
        package_plan_matches(current@, *release, r),
        r is Ok && first_zip_position(release.assets@) is None ==> r->Ok_0.source is Assemble
            && (forall|k: int|
            0 <= k < release.assets.len() ==> (#[trigger] r->Ok_0.source->Assemble_0@.contains(
                k as usize,
            ) <==> wanted_in_package(release.assets@[k])))
            && (forall|i: int|
            0 <= i < r->Ok_0.source->Assemble_0.len() ==> #[trigger] r->Ok_0.source->Assemble_0@[i]
                < release.assets.len()),
{
    let latest = tag_version(release.tag_name.as_str());
    if !version_is_newer(latest.as_str(), current) {
        return Err(String::from_str("You already have the latest version."));
    }
    let mut file_name = String::from_str("BudgetMaster9000-");
    file_name.append(latest.as_str());
    file_name.append("-Windows.zip");
    proof {
        lemma_first_zip_in_range(release.assets@);
    }
    let source = match find_zip_asset(&release.assets) {
        Some(k) => PackageSource::ReleaseZip(k),
        None => {
            let mut picks: Vec<usize> = Vec::new();
            let mut i: usize = 0;
            while i < release.assets.len()
                invariant
                    i <= release.assets.len(),
                    picks@.map_values(|j: usize| j as int) == packaged_positions(
                        release.assets@.subrange(0, i as int),
                    ),
                decreases release.assets.len() - i,
            {
                assert(release.assets@.subrange(0, i + 1).drop_last() =~= release.assets@.subrange(
                    0,
                    i as int,
                ));
                if asset_is_packaged(&release.assets[i]) {
                    picks.push(i);
                    assert(picks@.map_values(|j: usize| j as int) =~= packaged_positions(
                        release.assets@.subrange(0, i as int),
                    ).push(i as int));
                }
                i = i + 1;
            }
            assert(release.assets@.subrange(0, release.assets.len() as int) =~= release.assets@);
            proof {
                lemma_packaged_positions(release.assets@);
                let m = picks@.map_values(|j: usize| j as int);
                assert forall|k: int| 0 <= k < release.assets.len() implies (#[trigger] picks@.contains(
                    k as usize,
                ) <==> wanted_in_package(release.assets@[k])) by {
                    if picks@.contains(k as usize) {
                        let j = choose|j: int| 0 <= j < picks@.len() && picks@[j] == k as usize;
                        assert(m[j] == k);
                        assert(m.contains(k));
                    }
                    if m.contains(k) {
                        let j = choose|j: int| 0 <= j < m.len() && m[j] == k;
                        assert(picks@[j] == k as usize);
                    }
                }
                assert forall|i: int| 0 <= i < picks.len() implies #[trigger] picks@[i] < release.assets.len() by {
                    assert(m[i] == picks@[i] as int);
                    assert(m.contains(m[i]));
                }
            }
            PackageSource::Assemble(picks)
        },
    };
    Ok(PackagePlan { latest, file_name, source })
}

/// The file that one downloaded release file contributes to an assembled
/// package: the file itself, or a note naming the failure.
pub open spec fn package_entry_matches(name: Seq<char>, download: Result<Vec<u8>, String>, r: (String, Vec<u8>)) -> bool {
    match download {
        Ok(bytes) => r.0@ == name && r.1@ == bytes@,
        Err(e) => {
            &&& r.0@ == "FAILED_"@ + name + ".txt"@
            &&& r.1@ == encode_text("Could not download "@ + name + ": "@ + e@)
        },
    }
}

/// The UTF-8 bytes of a text.
pub open spec fn encode_text(s: Seq<char>) -> Seq<u8> {
    vstd::utf8::encode_utf8(s)
}

fn utf8_bytes(s: &str) -> (r: Vec<u8>)
    ensures
        r@ == encode_text(s@),
{
    s.as_bytes_vec()
}

/// The file a download attempt adds to an assembled package.
pub fn package_entry(name: &str, download: Result<Vec<u8>, String>) -> (r: (String, Vec<u8>))
    ensures
        package_entry_matches(name@, download, r),
{
    match download {
        Ok(bytes) => (name.to_owned(), bytes),
        Err(e) => {
            let mut file = String::from_str("FAILED_");
            file.append(name);
            file.append(".txt");
            let mut note = String::from_str("Could not download ");
            note.append(name);
            note.append(": ");
            note.append(e.as_str());
            (file, utf8_bytes(note.as_str()))
        },
    }
}

/// The refusal when a release offers nothing to package.
pub open spec fn no_package_files_text(release_page: Seq<char>) -> Seq<char> {
    "No installer/portable files found on the release. Open: "@ + release_page
}

/// The files of an assembled package: the upgrade instructions first, then
/// the files of the release, in order. Refused where the release gave none.
pub fn assemble_package(latest: &str, current: &str, entries: Vec<(String, Vec<u8>)>, release_page: &str) -> (r: Result<Vec<(String, Vec<u8>)>, String>)
    ensures
        entries.len() == 0 ==> r is Err && r->Err_0@ == no_package_files_text(release_page@),
        entries.len() > 0 ==> r is Ok && r->Ok_0.len() == entries.len() + 1
            && r->Ok_0@[0].0@ == "UPGRADE.txt"@
            && r->Ok_0@[0].1@ == encode_text(upgrade_text(latest@, current@))
            && r->Ok_0@.subrange(1, r->Ok_0.len() as int) == entries@,
{
    if entries.len() == 0 {
        let mut msg = String::from_str("No installer/portable files found on the release. Open: ");
        msg.append(release_page);
        return Err(msg);
    }
    let text = upgrade_instructions(latest, current);
    let mut files: Vec<(String, Vec<u8>)> = Vec::new();
    files.push((String::from_str("UPGRADE.txt"), utf8_bytes(text.as_str())));
    let mut rest = entries;
    let ghost orig = rest@;
    files.append(&mut rest);
    assert(files@.subrange(1, files.len() as int) =~= orig);
    Ok(files)
}

/// The status line of the update tester after a check.
pub open spec fn tester_check_status_text(c: UpdateCheck) -> Seq<char> {
    match c.error {
        Some(err) => "Check finished with error: "@ + err@,
        None => if c.update_available {
            "Update available: simulated "@ + c.current_version@ + " → latest "@ + c.latest_version@
        } else {
            "No update: simulated "@ + c.current_version@ + " is current or newer than latest "@
                + c.latest_version@ + "."@
        },
    }
}

/// The status line the update tester shows after a check.
pub fn tester_check_status(c: &UpdateCheck) -> (r: String)
    ensures
        r@ == tester_check_status_text(*c),
{
    match &c.error {
        Some(err) => {
            let mut s = String::from_str("Check finished with error: ");
            s.append(err.as_str());
            s
        },
        None => {
            if c.update_available {
                let mut s = String::from_str("Update available: simulated ");
                s.append(c.current_version.as_str());
                s.append(" → latest ");
                s.append(c.latest_version.as_str());
                s
            } else {
                let mut s = String::from_str("No update: simulated ");
                s.append(c.current_version.as_str());
                s.append(" is current or newer than latest ");
                s.append(c.latest_version.as_str());
                s.append(".");
                s
            }
        },
    }
}

/// The update tester's first status line, naming the build's own version.
pub fn tester_intro_status(version: &str) -> (r: String)
    ensures
        r@ == "Uses the same check/download code as Budget Master 9000 "@ + version@
            + ".\nEnter a fake installed version (e.g. 1.0.0), then Check."@,
{
    let mut s = String::from_str("Uses the same check/download code as Budget Master 9000 ");
    s.append(version);
    s.append(".\nEnter a fake installed version (e.g. 1.0.0), then Check.");
    s
}

/// The update tester's alert when a newer release exists.
pub fn tester_update_alert(c: &UpdateCheck) -> (r: String)
    ensures
        r@ == "Update v"@ + c.latest_version@ + " available  (you simulated v"@ + c.current_version@
            + ")"@,
{
    let mut s = String::from_str("Update v");
    s.append(c.latest_version.as_str());
    s.append(" available  (you simulated v");
    s.append(c.current_version.as_str());
    s.append(")");
    s
}

/// The status line the update tester shows after a download attempt.
pub fn tester_download_status(outcome: &Result<String, String>) -> (r: String)
    ensures
        outcome matches Ok(p) ==> r@ == "Saved: "@ + p@,
        outcome matches Err(e) ==> r@ == "Download failed: "@ + e@,
{
    match outcome {
        Ok(p) => {
            let mut s = String::from_str("Saved: ");
            s.append(p.as_str());
            s
        },
        Err(e) => {
            let mut s = String::from_str("Download failed: ");
            s.append(e.as_str());
            s
        },
    }
}


/// Without a zip archive on a newer release, the assembled package takes
/// exactly the release's installers, portable program and checksum lists of at
/// most 80,000,000 bytes; with one, it takes the first zip archive, whose name
/// ends in `.zip` in any letter case, and no earlier file is a zip archive.
pub proof fn law_package_takes_exactly_the_wanted_files(current: Seq<char>, release: GhRelease, r: Result<PackagePlan, String>)
    requires
        package_plan_matches(current, release, r),
    ensures
        r is Ok <==> is_newer_version(strip_leading_v(release.tag_name@), current),
        r is Ok && first_zip_position(release.assets@) is None ==> r->Ok_0.source is Assemble
            && forall|k: int|
            0 <= k < release.assets.len() ==> (#[trigger] r->Ok_0.source->Assemble_0@.contains(
                k as usize,
            ) <==> wanted_in_package(release.assets@[k])),
        r is Ok && r->Ok_0.source is ReleaseZip ==> ({
            let k = r->Ok_0.source->ReleaseZip_0 as int;
            &&& 0 <= k < release.assets@.len()
            &&& has_suffix(lowercase_of(release.assets@[k].name@), ".zip"@)
            &&& forall|j: int| 0 <= j < k ==> !has_suffix(lowercase_of(#[trigger] release.assets@[j].name@), ".zip"@)
        }),
{
    lemma_packaged_positions(release.assets@);
    lemma_first_zip_facts(release.assets@);
    if let Some(k) = first_zip_position(release.assets@) {
        assert(k < release.assets.len());
        assert((k as usize) as int == k);
    }
    if r is Ok && first_zip_position(release.assets@) is None {
        let picks = r->Ok_0.source->Assemble_0@;
        let m = picks.map_values(|j: usize| j as int);
        assert forall|k: int| 0 <= k < release.assets.len() implies (#[trigger] picks.contains(
            k as usize,
        ) <==> wanted_in_package(release.assets@[k])) by {
            if picks.contains(k as usize) {
                let j = choose|j: int| 0 <= j < picks.len() && picks[j] == k as usize;
                assert(m[j] == k);
                assert(m.contains(k));
            }
            if m.contains(k) {
                let j = choose|j: int| 0 <= j < m.len() && m[j] == k;
                assert(picks[j] == k as usize);
            }
        }
    }
}

proof fn lemma_first_zip_facts(assets: Seq<GhAsset>)
    ensures
        first_zip_position(assets) matches Some(k) ==> 0 <= k < assets.len() && has_suffix(
            lowercase_of(assets[k].name@),
            ".zip"@,
        ) && forall|j: int| 0 <= j < k ==> !has_suffix(lowercase_of(#[trigger] assets[j].name@), ".zip"@),
        first_zip_position(assets) is None ==> forall|j: int|
            0 <= j < assets.len() ==> !has_suffix(lowercase_of(#[trigger] assets[j].name@), ".zip"@),
    decreases assets.len(),
{
    if assets.len() > 0 {
        let d = assets.drop_last();
        lemma_first_zip_facts(d);
        let n = assets.len() - 1;
        assert(assets.last() == assets[n]);
        match first_zip_position(d) {
            Some(k) => {
                assert(d[k] == assets[k]);
                assert forall|j: int| 0 <= j < k implies !has_suffix(
                    lowercase_of(#[trigger] assets[j].name@),
                    ".zip"@,
                ) by {
                    assert(d[j] == assets[j]);
                }
            },
            None => {
                assert forall|j: int| 0 <= j < n implies !has_suffix(
                    lowercase_of(#[trigger] assets[j].name@),
                    ".zip"@,
                ) by {
                    assert(d[j] == assets[j]);
                }
            },
        }
    }
}

} // verus!
