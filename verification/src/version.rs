//! Release versions: reading `1.2.0`-style tags and deciding which is newer.
use vstd::prelude::*;

use crate::text::{chars_of, decimal, digit_char};

verus! {

/// An ASCII decimal digit.
pub open spec fn is_ascii_digit(c: char) -> bool {
    '0' <= c && c <= '9'
}

/// The number a digit character stands for.
pub open spec fn digit_value(c: char) -> nat {
    (c as int - '0' as int) as nat
}

/// The maximal runs of ASCII digits in `s`, in order. Every other character
/// (a dot, a leading `v`, white space, a `-beta` tail) only separates them.
pub open spec fn digit_runs(s: Seq<char>) -> Seq<Seq<char>>
    decreases s.len(),
{
    if s.len() == 0 {
        Seq::empty()
    } else {
        let p = s.drop_last();
        let c = s.last();
        let r = digit_runs(p);
        if !is_ascii_digit(c) {
            r
        } else if p.len() > 0 && is_ascii_digit(p.last()) {
            r.update(r.len() - 1, r.last().push(c))
        } else {
            r.push(seq![c])
        }
    }
}

/// The value of a run of digits read as a decimal numeral.
pub open spec fn numeral_value(r: Seq<char>) -> nat
    decreases r.len(),
{
    if r.len() == 0 {
        0
    } else {
        numeral_value(r.drop_last()) * 10 + digit_value(r.last())
    }
}

/// The `k`-th number of a version text: the value of its `k`-th run of
/// digits, or 0 where that run is missing or does not fit in a `u64`.
pub open spec fn version_component(s: Seq<char>, k: int) -> u64 {
    let runs = digit_runs(s);
    if 0 <= k < runs.len() && numeral_value(runs[k]) <= u64::MAX {
        numeral_value(runs[k]) as u64
    } else {
        0
    }
}

/// The (major, minor, patch) triple that a version text stands for.
pub open spec fn parse_version(s: Seq<char>) -> (u64, u64, u64) {
    (version_component(s, 0), version_component(s, 1), version_component(s, 2))
}

/// Lexicographic order on version triples.
pub open spec fn triple_gt(a: (u64, u64, u64), b: (u64, u64, u64)) -> bool {
    ||| a.0 > b.0
    ||| a.0 == b.0 && a.1 > b.1
    ||| a.0 == b.0 && a.1 == b.1 && a.2 > b.2
}

/// `latest` names a later release than `current`.
pub open spec fn is_newer_version(latest: Seq<char>, current: Seq<char>) -> bool {
    triple_gt(parse_version(latest), parse_version(current))
}

/// The (major, minor, patch) numbers of a version text such as `v1.2.0`.
/// Non-numeric text is ignored; a missing or oversized number reads as 0.
pub fn parse_ver(v: &str) -> (r: (u64, u64, u64))
    ensures
        r == parse_version(v@),
{
    let s = chars_of(v);
    let n = s.len();
    let ghost full = v@;
    let mut cnt: usize = 0;
    let mut cur: Option<u64> = None;
    let mut a: u64 = 0;
    let mut b: u64 = 0;
    let mut c: u64 = 0;
    let mut i: usize = 0;
    while i < n
        invariant
            s@ == full,
            n == s.len(),
            i <= n,
            cnt <= i,
            cnt == digit_runs(full.subrange(0, i as int)).len(),
            (i > 0 && is_ascii_digit(full[i - 1])) ==> cnt > 0,
            (i > 0 && is_ascii_digit(full[i - 1])) ==> cur == (if numeral_value(
                digit_runs(full.subrange(0, i as int)).last(),
            ) <= u64::MAX {
                Some(numeral_value(digit_runs(full.subrange(0, i as int)).last()) as u64)
            } else {
                None::<u64>
            }),
            a == version_component(full.subrange(0, i as int), 0),
            b == version_component(full.subrange(0, i as int), 1),
            c == version_component(full.subrange(0, i as int), 2),
        decreases n - i,
    {
        let ghost pre = full.subrange(0, i as int);
        let ghost post = full.subrange(0, i + 1);
        assert(post.drop_last() =~= pre);
        assert(post.last() == full[i as int]);
        let ch = s[i];
        if '0' <= ch && ch <= '9' {
            let d: u64 = (ch as u32 - '0' as u32) as u64;
            if i > 0 && '0' <= s[i - 1] && s[i - 1] <= '9' {
                assert(pre.last() == full[i - 1]);
                let ghost r = digit_runs(pre);
                assert(digit_runs(post) == r.update(r.len() - 1, r.last().push(ch)));
                assert(r.last().push(ch).drop_last() =~= r.last());
                assert(d == digit_value(ch));
                assert(numeral_value(digit_runs(post).last()) == numeral_value(r.last()) * 10 + d);
                assert(digit_runs(post).len() == r.len());
                assert(forall|k: int| 0 <= k < r.len() - 1 ==> digit_runs(post)[k] == r[k]);
                let next: Option<u64> = match cur {
                    Some(x) => {
                        if x > 1844674407370955161u64 || (x == 1844674407370955161u64 && d > 5) {
                            None
                        } else {
                            Some(x * 10 + d)
                        }
                    },
                    None => None,
                };
                cur = next;
                let val: u64 = match cur {
                    Some(x) => x,
                    None => 0,
                };
                if cnt == 1 {
                    a = val;
                } else if cnt == 2 {
                    b = val;
                } else if cnt == 3 {
                    c = val;
                }
            } else {
                let ghost r = digit_runs(pre);
                assert(digit_runs(post) == r.push(seq![ch]));
                assert(seq![ch].drop_last() =~= Seq::<char>::empty());
                assert(d == digit_value(ch));
                assert(numeral_value(seq![ch].drop_last()) == 0);
                assert(numeral_value(seq![ch]) == d);
                assert(digit_runs(post).len() == r.len() + 1);
                assert(forall|k: int| 0 <= k < r.len() ==> digit_runs(post)[k] == r[k]);
                cur = Some(d);
                if cnt == 0 {
                    a = d;
                } else if cnt == 1 {
                    b = d;
                } else if cnt == 2 {
                    c = d;
                }
                cnt = cnt + 1;
            }
        } else {
            assert(digit_runs(post) == digit_runs(pre));
        }
        i = i + 1;
    }
    assert(full.subrange(0, n as int) =~= full);
    (a, b, c)
}

/// Whether release `latest` is newer than release `current`, comparing
/// (major, minor, patch) in that order.
pub fn version_is_newer(latest: &str, current: &str) -> (r: bool)
    ensures
        r == is_newer_version(latest@, current@),
        r == ({
            let l = parse_version(latest@);
            let c = parse_version(current@);
            l.0 > c.0 || (l.0 == c.0 && l.1 > c.1) || (l.0 == c.0 && l.1 == c.1 && l.2 > c.2)
        }),
{
    let lp = parse_ver(latest);
    let cp = parse_ver(current);
    lp.0 > cp.0 || (lp.0 == cp.0 && (lp.1 > cp.1 || (lp.1 == cp.1 && lp.2 > cp.2)))
}

/// The version of this release of the budget app.
pub fn current_version() -> (r: String)
    ensures
        r@ == "1.2.0"@,
{
    String::from_str("1.2.0")
}


proof fn lemma_non_digit_prefix_runs(x: char, s: Seq<char>)
    requires
        !is_ascii_digit(x),
    ensures
        digit_runs(seq![x] + s) == digit_runs(s),
    decreases s.len(),
{
    let t = seq![x] + s;
    if s.len() == 0 {
        assert(t =~= seq![x]);
        assert(t.drop_last() =~= Seq::<char>::empty());
        assert(t.last() == x);
        assert(digit_runs(t.drop_last()) =~= Seq::<Seq<char>>::empty());
        assert(digit_runs(t) =~= Seq::<Seq<char>>::empty());
    } else {
        lemma_non_digit_prefix_runs(x, s.drop_last());
        assert(t.drop_last() =~= seq![x] + s.drop_last());
        assert(t.last() == s.last());
        if s.len() == 1 {
            assert(t.drop_last() =~= seq![x]);
            assert(s.drop_last() =~= Seq::<char>::empty());
        } else {
            assert(t.drop_last().last() == s.drop_last().last());
        }
    }
}

/// No release is newer than itself.
pub proof fn law_newer_is_irreflexive(v: Seq<char>)
    ensures
        !is_newer_version(v, v),
{
}

/// Of two releases, at most one is newer than the other.
pub proof fn law_newer_is_asymmetric(a: Seq<char>, b: Seq<char>)
    ensures
        is_newer_version(a, b) ==> !is_newer_version(b, a),
{
}

/// A release newer than one that is newer than a third is newer than the third.
pub proof fn law_newer_is_transitive(a: Seq<char>, b: Seq<char>, c: Seq<char>)
    requires
        is_newer_version(a, b),
        is_newer_version(b, c),
    ensures
        is_newer_version(a, c),
{
}

/// Two releases either compare one way or the other, or read as the same
/// (major, minor, patch).
pub proof fn law_newer_is_total(a: Seq<char>, b: Seq<char>)
    ensures
        is_newer_version(a, b) || is_newer_version(b, a) || parse_version(a) == parse_version(b),
{
}

/// A leading `v` (as in the tag `v1.2.0`), or any other leading character that
/// is not a digit, does not change the version a text stands for.
pub proof fn law_leading_non_digit_is_ignored(x: char, s: Seq<char>)
    requires
        !is_ascii_digit(x),
    ensures
        parse_version(seq![x] + s) == parse_version(s),
        forall|other: Seq<char>|
            is_newer_version(seq![x] + s, other) == #[trigger] is_newer_version(s, other),
        forall|other: Seq<char>|
            is_newer_version(other, seq![x] + s) == #[trigger] is_newer_version(other, s),
{
    lemma_non_digit_prefix_runs(x, s);
}


/// The text `major.minor.patch` of three numbers.
pub open spec fn version_text(major: u64, minor: u64, patch: u64) -> Seq<char> {
    decimal(major as nat) + seq!['.'] + decimal(minor as nat) + seq!['.'] + decimal(patch as nat)
}

proof fn lemma_digit_char(d: int)
    requires
        0 <= d < 10,
    ensures
        is_ascii_digit(digit_char(d)),
        digit_value(digit_char(d)) == d,
{
}

proof fn lemma_decimal_digits(n: nat)
    ensures
        decimal(n).len() > 0,
        forall|i: int| 0 <= i < decimal(n).len() ==> is_ascii_digit(#[trigger] decimal(n)[i]),
        numeral_value(decimal(n)) == n,
    decreases n,
{
    if n < 10 {
        lemma_digit_char(n as int);
        assert(decimal(n).drop_last() =~= Seq::<char>::empty());
        assert(numeral_value(decimal(n).drop_last()) == 0);
    } else {
        lemma_decimal_digits(n / 10);
        lemma_digit_char((n % 10) as int);
        let d = decimal(n);
        assert(d.drop_last() =~= decimal(n / 10));
        assert forall|i: int| 0 <= i < d.len() implies is_ascii_digit(#[trigger] d[i]) by {
            if i < d.len() - 1 {
                assert(d[i] == decimal(n / 10)[i]);
            }
        }
    }
}

proof fn lemma_runs_nonempty(s: Seq<char>)
    requires
        s.len() > 0,
        is_ascii_digit(s.last()),
    ensures
        digit_runs(s).len() > 0,
    decreases s.len(),
{
    let p = s.drop_last();
    if p.len() > 0 && is_ascii_digit(p.last()) {
        lemma_runs_nonempty(p);
    }
}

proof fn lemma_runs_of_numeral(s: Seq<char>)
    requires
        s.len() > 0,
        forall|i: int| 0 <= i < s.len() ==> is_ascii_digit(#[trigger] s[i]),
    ensures
        digit_runs(s) == seq![s],
    decreases s.len(),
{
    let p = s.drop_last();
    if p.len() == 0 {
        assert(digit_runs(p) =~= Seq::<Seq<char>>::empty());
        assert(seq![s.last()] =~= s);
    } else {
        assert forall|i: int| 0 <= i < p.len() implies is_ascii_digit(#[trigger] p[i]) by {
            assert(p[i] == s[i]);
        }
        lemma_runs_of_numeral(p);
        assert(p.last() == s[s.len() - 2]);
        assert(p.push(s.last()) =~= s);
        assert(digit_runs(s) =~= seq![s]);
    }
}

proof fn lemma_runs_concat(s: Seq<char>, t: Seq<char>)
    requires
        s.len() == 0 || !is_ascii_digit(s.last()),
    ensures
        digit_runs(s + t) == digit_runs(s) + digit_runs(t),
    decreases t.len(),
{
    if t.len() == 0 {
        assert(s + t =~= s);
        assert(digit_runs(s) + digit_runs(t) =~= digit_runs(s));
    } else {
        let tp = t.drop_last();
        let c = t.last();
        lemma_runs_concat(s, tp);
        let st = s + t;
        assert(st.drop_last() =~= s + tp);
        assert(st.last() == c);
        if is_ascii_digit(c) {
            if tp.len() > 0 {
                assert((s + tp).last() == tp.last());
                if is_ascii_digit(tp.last()) {
                    lemma_runs_nonempty(tp);
                    let r1 = digit_runs(s);
                    let r2 = digit_runs(tp);
                    assert((r1 + r2).update((r1 + r2).len() - 1, (r1 + r2).last().push(c)) =~= r1
                        + r2.update(r2.len() - 1, r2.last().push(c)));
                } else {
                    assert((digit_runs(s) + digit_runs(tp)).push(seq![c]) =~= digit_runs(s)
                        + digit_runs(tp).push(seq![c]));
                }
            } else {
                assert(s + tp =~= s);
                assert(digit_runs(tp) =~= Seq::<Seq<char>>::empty());
                assert(digit_runs(s).push(seq![c]) =~= digit_runs(s) + digit_runs(tp).push(seq![c]));
            }
        }
    }
}

proof fn lemma_runs_trailing_separator(s: Seq<char>)
    ensures
        digit_runs(s + seq!['.']) == digit_runs(s),
{
    assert((s + seq!['.']).drop_last() =~= s);
}

/// A version written as `major.minor.patch` reads back as those three numbers,
/// so such versions compare exactly as their number triples do.
pub proof fn law_written_version_reads_back(major: u64, minor: u64, patch: u64)
    ensures
        parse_version(version_text(major, minor, patch)) == (major, minor, patch),
{
    let da = decimal(major as nat);
    let db = decimal(minor as nat);
    let dc = decimal(patch as nat);
    lemma_decimal_digits(major as nat);
    lemma_decimal_digits(minor as nat);
    lemma_decimal_digits(patch as nat);
    lemma_runs_of_numeral(da);
    lemma_runs_of_numeral(db);
    lemma_runs_of_numeral(dc);
    let s1 = da + seq!['.'];
    lemma_runs_trailing_separator(da);
    let s2 = s1 + db;
    assert(s1.last() == '.');
    lemma_runs_concat(s1, db);
    let s3 = s2 + seq!['.'];
    lemma_runs_trailing_separator(s2);
    assert(s3.last() == '.');
    lemma_runs_concat(s3, dc);
    let runs = digit_runs(s3 + dc);
    assert(runs =~= seq![da, db, dc]);
    assert(version_text(major, minor, patch) == s3 + dc);
}

/// Of two versions written as `major.minor.patch`, one is newer exactly when
/// its numbers are lexicographically greater.
pub proof fn law_written_versions_compare_by_numbers(a: (u64, u64, u64), b: (u64, u64, u64))
    ensures
        is_newer_version(version_text(a.0, a.1, a.2), version_text(b.0, b.1, b.2)) == triple_gt(
            a,
            b,
        ),
{
    law_written_version_reads_back(a.0, a.1, a.2);
    law_written_version_reads_back(b.0, b.1, b.2);
}


/// A release is newer exactly when its major number is larger, or the majors
/// agree and its minor number is larger, or both agree and its patch number
/// is larger.
pub proof fn law_newer_compares_major_minor_patch(latest: Seq<char>, current: Seq<char>)
    ensures
        is_newer_version(latest, current) == ({
            let l = parse_version(latest);
            let c = parse_version(current);
            l.0 > c.0 || (l.0 == c.0 && l.1 > c.1) || (l.0 == c.0 && l.1 == c.1 && l.2 > c.2)
        }),
{
}

/// Of two versions that share major and minor numbers, the one with the larger
/// patch number is newer; with equal patch numbers neither is.
pub proof fn law_larger_patch_is_newer(major: u64, minor: u64, p: u64, q: u64)
    ensures
        is_newer_version(version_text(major, minor, p), version_text(major, minor, q)) == (p > q),
{
    law_written_version_reads_back(major, minor, p);
    law_written_version_reads_back(major, minor, q);
}

/// Of two versions that share the major number, the one with the larger minor
/// number is newer whatever the patch numbers; a larger major number wins
/// whatever follows.
pub proof fn law_larger_minor_or_major_is_newer(a: (u64, u64, u64), b: (u64, u64, u64))
    ensures
        a.0 > b.0 ==> is_newer_version(version_text(a.0, a.1, a.2), version_text(b.0, b.1, b.2)),
        a.0 == b.0 && a.1 > b.1 ==> is_newer_version(
            version_text(a.0, a.1, a.2),
            version_text(b.0, b.1, b.2),
        ),
        a.0 < b.0 ==> !is_newer_version(version_text(a.0, a.1, a.2), version_text(b.0, b.1, b.2)),
{
    law_written_version_reads_back(a.0, a.1, a.2);
    law_written_version_reads_back(b.0, b.1, b.2);
}

} // verus!
