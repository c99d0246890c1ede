//! The identity-resolution heuristic: count how often each candidate
//! username occurs in recent commit-log text, keep the candidates that hit
//! the maximum count (ties are by design), and validate the operator's
//! numbered choice when several are tied.  Matching is exact substring
//! matching, no normalization, and counts are plain integers.

use vstd::prelude::*;

use crate::errors::GitSockError;
use crate::text::{chars_of, count_occurrences, occurrences};
use crate::types::Account;

verus! {

/// The views of a list of candidate strings.
pub open spec fn str_views(ps: Seq<String>) -> Seq<Seq<char>> {
    ps.map_values(|s: String| s@)
}

/// The model of a list of (candidate, count) pairs.
pub open spec fn pairs_view(s: Seq<(String, usize)>) -> Seq<(Seq<char>, nat)> {
    s.map_values(|p: (String, usize)| (p.0@, p.1 as nat))
}

/// The candidates that score: each non-empty pattern with at least one
/// occurrence in `text`, paired with its count, in discovery order.
pub open spec fn scored(patterns: Seq<Seq<char>>, text: Seq<char>) -> Seq<(Seq<char>, nat)>
    decreases patterns.len(),
{
    if patterns.len() == 0 {
        Seq::empty()
    } else {
        let init = scored(patterns.drop_last(), text);
        let p = patterns.last();
        if p.len() > 0 && occurrences(text, p) > 0 {
            init.push((p, occurrences(text, p)))
        } else {
            init
        }
    }
}

/// The largest count among the scored candidates (zero when none scored).
pub open spec fn max_count(s: Seq<(Seq<char>, nat)>) -> nat
    decreases s.len(),
{
    if s.len() == 0 {
        0
    } else {
        let m = max_count(s.drop_last());
        if s.last().1 > m {
            s.last().1
        } else {
            m
        }
    }
}

/// The scored candidates whose count equals `m`, in order.
pub open spec fn keep_max(s: Seq<(Seq<char>, nat)>, m: nat) -> Seq<(Seq<char>, nat)>
    decreases s.len(),
{
    if s.len() == 0 {
        Seq::empty()
    } else {
        let init = keep_max(s.drop_last(), m);
        if s.last().1 == m {
            init.push(s.last())
        } else {
            init
        }
    }
}

/// The tied leaders of the heuristic: the scored candidates that reach the
/// maximum count.
pub open spec fn leaders(patterns: Seq<Seq<char>>, text: Seq<char>) -> Seq<(Seq<char>, nat)> {
    keep_max(scored(patterns, text), max_count(scored(patterns, text)))
}

proof fn lemma_max_count_is_reached(s: Seq<(Seq<char>, nat)>)
    requires
        s.len() > 0,
    ensures
        exists|i: int| 0 <= i < s.len() && s[i].1 == max_count(s),
    decreases s.len(),
{
    let m0 = max_count(s.drop_last());
    if s.last().1 > m0 {
        assert(s[s.len() - 1].1 == max_count(s));
    } else if s.len() == 1 {
        assert(s[0].1 == max_count(s));
    } else {
        lemma_max_count_is_reached(s.drop_last());
        let i = choose|i: int| 0 <= i < s.drop_last().len() && s.drop_last()[i].1 == m0;
        assert(s[i].1 == max_count(s));
    }
}

proof fn lemma_keep_max_keeps_hits(s: Seq<(Seq<char>, nat)>, m: nat, i: int)
    requires
        0 <= i < s.len(),
        s[i].1 == m,
    ensures
        keep_max(s, m).len() > 0,
    decreases s.len(),
{
    if i == s.len() - 1 {
        assert(keep_max(s, m) == keep_max(s.drop_last(), m).push(s.last()));
    } else {
        lemma_keep_max_keeps_hits(s.drop_last(), m, i);
    }
}

proof fn lemma_keep_max_elements(s: Seq<(Seq<char>, nat)>, m: nat)
    ensures
        forall|k: int| 0 <= k < keep_max(s, m).len() ==> keep_max(s, m)[k].1 == m,
    decreases s.len(),
{
    if s.len() > 0 {
        lemma_keep_max_elements(s.drop_last(), m);
        let init = keep_max(s.drop_last(), m);
        if s.last().1 == m {
            assert(keep_max(s, m) == init.push(s.last()));
            assert forall|k: int| 0 <= k < keep_max(s, m).len() implies keep_max(s, m)[k].1
                == m by {
                if k < init.len() {
                    assert(keep_max(s, m)[k] == init[k]);
                } else {
                    assert(keep_max(s, m)[k] == s.last());
                }
            }
        } else {
            assert(keep_max(s, m) == init);
        }
    }
}

/// Law: whenever any candidate scores, the heuristic has at least one
/// leader — the maximum count is reached by some scored candidate, and that
/// candidate survives the tie filter.  So the fallback to the active
/// account happens exactly when nothing scored at all.
pub proof fn lemma_some_leader_when_scored(patterns: Seq<Seq<char>>, text: Seq<char>)
    ensures
        scored(patterns, text).len() > 0 ==> leaders(patterns, text).len() > 0,
{
    let s = scored(patterns, text);
    if s.len() > 0 {
        lemma_max_count_is_reached(s);
        let i = choose|i: int| 0 <= i < s.len() && s[i].1 == max_count(s);
        lemma_keep_max_keeps_hits(s, max_count(s), i);
    }
}

/// Law: every leader the heuristic reports carries exactly the maximum
/// count — ties are between candidates with equal, maximal scores.
pub proof fn lemma_leaders_are_maximal(patterns: Seq<Seq<char>>, text: Seq<char>)
    ensures
        forall|k: int|
            0 <= k < leaders(patterns, text).len() ==> leaders(patterns, text)[k].1 == max_count(
                scored(patterns, text),
            ),
{
    lemma_keep_max_elements(scored(patterns, text), max_count(scored(patterns, text)));
}

/// Score every candidate against `text` and keep the tied leaders, in
/// discovery order.  `None` when nothing scored — empty text, no candidates,
/// or no candidate occurs at all — which the caller treats as "fall back to
/// the active account".
pub fn pattern_percentages(patterns: &Vec<String>, text: &str) -> (r: Option<
    Vec<(String, usize)>,
>)
    ensures
        scored(str_views(patterns@), text@).len() == 0 ==> r is None,
        scored(str_views(patterns@), text@).len() > 0 ==> (r matches Some(v) && pairs_view(v@)
            == leaders(str_views(patterns@), text@)),
{
    let ghost pv = str_views(patterns@);
    let mut hits: Vec<(String, usize)> = Vec::new();
    let mut i: usize = 0;
    while i < patterns.len()
        invariant
            pv == str_views(patterns@),
            i <= patterns@.len(),
            pairs_view(hits@) == scored(pv.take(i as int), text@),
        decreases patterns@.len() - i,
    {
        let p = &patterns[i];
        if !p.as_str().is_empty() {
            let c = count_occurrences(text, p.as_str());
            if c > 0 {
                hits.push((p.clone(), c));
            }
        }
        i += 1;
        proof {
            assert(pv.take(i as int).drop_last() =~= pv.take(i - 1));
            assert(pv.take(i as int).last() == patterns@[i - 1]@);
            assert(pairs_view(hits@) =~= scored(pv.take(i as int), text@));
        }
    }
    proof {
        assert(pv.take(patterns@.len() as int) =~= pv);
    }
    if hits.len() == 0 {
        return None;
    }
    let ghost s = scored(pv, text@);
    let mut m: usize = 0;
    let mut j: usize = 0;
    while j < hits.len()
        invariant
            pairs_view(hits@) == s,
            j <= hits@.len(),
            m == max_count(s.take(j as int)),
        decreases hits@.len() - j,
    {
        if hits[j].1 > m {
            m = hits[j].1;
        }
        j += 1;
        proof {
            assert(s.take(j as int).drop_last() =~= s.take(j - 1));
            assert(s.take(j as int).last() == pairs_view(hits@)[j - 1]);
        }
    }
    proof {
        assert(s.take(hits@.len() as int) =~= s);
    }
    let mut result: Vec<(String, usize)> = Vec::new();
    let mut k: usize = 0;
    while k < hits.len()
        invariant
            pairs_view(hits@) == s,
            k <= hits@.len(),
            m == max_count(s),
            pairs_view(result@) == keep_max(s.take(k as int), m as nat),
        decreases hits@.len() - k,
    {
        if hits[k].1 == m {
            result.push((hits[k].0.clone(), hits[k].1));
        }
        k += 1;
        proof {
            assert(s.take(k as int).drop_last() =~= s.take(k - 1));
            assert(s.take(k as int).last() == pairs_view(hits@)[k - 1]);
            assert(pairs_view(result@) =~= keep_max(s.take(k as int), m as nat));
        }
    }
    proof {
        assert(s.take(hits@.len() as int) =~= s);
    }
    Some(result)
}

/// The usernames of the configured accounts, the heuristic's candidates.
pub open spec fn username_views(accounts: Seq<Account>) -> Seq<Seq<char>> {
    accounts.map_values(|a: Account| a.username@)
}

/// What the commit workflow should do when no account was named explicitly
/// and the repository has no local identity.
pub enum CommitChoice {
    /// Nothing scored: fall back to the active account.
    UseActive,
    /// Exactly one leader: use it silently.
    UseAccount(String),
    /// Several tied leaders, in discovery order: require an explicit
    /// numbered selection.
    Choose(Vec<(String, usize)>),
}

/// Resolve which configured identity most likely owns the current line of
/// work, from the commit-log excerpt.
pub fn decide_commit_identity(accounts: &Vec<Account>, logs: &str) -> (r: CommitChoice)
    ensures
        leaders(username_views(accounts@), logs@).len() == 0 ==> r is UseActive,
        leaders(username_views(accounts@), logs@).len() == 1 ==> (r matches
            CommitChoice::UseAccount(u) && u@ == leaders(username_views(accounts@), logs@)[0].0),
        leaders(username_views(accounts@), logs@).len() > 1 ==> (r matches CommitChoice::Choose(v)
            && pairs_view(v@) == leaders(username_views(accounts@), logs@)),
{
    let mut names: Vec<String> = Vec::new();
    let mut i: usize = 0;
    while i < accounts.len()
        invariant
            i <= accounts@.len(),
            names@.len() == i,
            forall|j: int| 0 <= j < i ==> names@[j]@ == accounts@[j].username@,
        decreases accounts@.len() - i,
    {
        names.push(accounts[i].username.clone());
        i += 1;
    }
    proof {
        assert(str_views(names@) =~= username_views(accounts@));
    }
    match pattern_percentages(&names, logs) {
        None => CommitChoice::UseActive,
        Some(v) => {
            if v.len() == 0 {
                CommitChoice::UseActive
            } else if v.len() == 1 {
                CommitChoice::UseAccount(v[0].0.clone())
            } else {
                CommitChoice::Choose(v)
            }
        },
    }
}

/// A decimal digit.
pub open spec fn is_digit(c: char) -> bool {
    c == '0' || c == '1' || c == '2' || c == '3' || c == '4' || c == '5' || c == '6' || c == '7'
        || c == '8' || c == '9'
}

/// Every character of `s` is a decimal digit.
pub open spec fn all_digits(s: Seq<char>) -> bool {
    forall|i: int| 0 <= i < s.len() ==> is_digit(s[i])
}

pub open spec fn digit_val(c: char) -> int {
    if c == '0' {
        0
    } else if c == '1' {
        1
    } else if c == '2' {
        2
    } else if c == '3' {
        3
    } else if c == '4' {
        4
    } else if c == '5' {
        5
    } else if c == '6' {
        6
    } else if c == '7' {
        7
    } else if c == '8' {
        8
    } else if c == '9' {
        9
    } else {
        0
    }
}

/// The value of a decimal numeral.
pub open spec fn decimal_value(s: Seq<char>) -> int
    decreases s.len(),
{
    if s.len() == 0 {
        0
    } else {
        10 * decimal_value(s.drop_last()) + digit_val(s.last())
    }
}

proof fn lemma_decimal_value_nonneg(s: Seq<char>)
    requires
        all_digits(s),
    ensures
        decimal_value(s) >= 0,
    decreases s.len(),
{
    if s.len() > 0 {
        lemma_decimal_value_nonneg(s.drop_last());
    }
}

proof fn lemma_decimal_value_monotonic(s: Seq<char>, j: int)
    requires
        all_digits(s),
        0 <= j <= s.len(),
    ensures
        decimal_value(s.take(j)) <= decimal_value(s),
    decreases s.len() - j,
{
    if j < s.len() {
        assert(s.take(j + 1).drop_last() =~= s.take(j));
        lemma_decimal_value_nonneg(s.take(j));
        lemma_decimal_value_monotonic(s, j + 1);
    } else {
        assert(s.take(j) =~= s);
    }
}

/// A selection is valid when it is a nonempty decimal numeral between 1 and
/// the number of presented choices.
pub open spec fn valid_selection(s: Seq<char>, n: int) -> bool {
    s.len() > 0 && all_digits(s) && 1 <= decimal_value(s) <= n
}

/// Validate the operator's numbered selection among `n` tied leaders and
/// turn it into an index.  Anything non-numeric or out of range is a hard
/// input error, never a silent fallback.
pub fn parse_selection(input: &str, n: usize) -> (r: Result<usize, GitSockError>)
    ensures
        r matches Ok(i) ==> valid_selection(input@, n as int) && i as int + 1 == decimal_value(
            input@,
        ) && i < n,
        r matches Err(e) ==> e == GitSockError::Input && !valid_selection(input@, n as int),
{
    let cv = chars_of(input);
    if cv.len() == 0 {
        return Err(GitSockError::Input);
    }
    let mut v: u128 = 0;
    let mut i: usize = 0;
    while i < cv.len()
        invariant
            cv@ == input@,
            i <= cv@.len(),
            all_digits(input@.take(i as int)),
            v == decimal_value(input@.take(i as int)),
            v <= n as u128,
        decreases cv@.len() - i,
    {
        let c = cv[i];
        let d: u128 = match c {
            '0' => 0,
            '1' => 1,
            '2' => 2,
            '3' => 3,
            '4' => 4,
            '5' => 5,
            '6' => 6,
            '7' => 7,
            '8' => 8,
            '9' => 9,
            _ => {
                proof {
                    assert(!is_digit(input@[i as int]));
                }
                return Err(GitSockError::Input);
            },
        };
        let next = v * 10 + d;
        i += 1;
        proof {
            assert(input@.take(i as int).drop_last() =~= input@.take(i - 1));
            assert(is_digit(input@[i - 1]));
            assert forall|j: int| 0 <= j < i implies is_digit(input@.take(i as int)[j]) by {
                if j < i - 1 {
                    assert(is_digit(input@.take(i - 1)[j]));
                }
            }
            assert(all_digits(input@.take(i as int)));
            assert(next == decimal_value(input@.take(i as int)));
        }
        if next > n as u128 {
            proof {
                if all_digits(input@) {
                    lemma_decimal_value_monotonic(input@, i as int);
                }
            }
            return Err(GitSockError::Input);
        }
        v = next;
    }
    proof {
        assert(input@.take(cv@.len() as int) =~= input@);
    }
    if v == 0 {
        return Err(GitSockError::Input);
    }
    Ok((v - 1) as usize)
}

} // verus!
