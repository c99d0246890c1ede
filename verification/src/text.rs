//! Verified text primitives: character extraction, string equality, first
//! occurrence of a character, substring containment, and non-overlapping
//! substring counting.

use vstd::prelude::*;
use vstd::string::StrSliceExecFns;

verus! {

/// The characters of `s`, as an indexable vector.
pub fn chars_of(s: &str) -> (r: Vec<char>)
    ensures
        r@ == s@,
{
    let n = s.unicode_len();
    let mut r: Vec<char> = Vec::new();
    let mut i: usize = 0;
    while i < n
        invariant
            n == s@.len(),
            i <= n,
            r@ == s@.take(i as int),
        decreases n - i,
    {
        r.push(s.get_char(i));
        i += 1;
        proof {
            assert(r@ =~= s@.take(i as int));
        }
    }
    proof {
        assert(r@ =~= s@);
    }
    r
}

/// Exact string equality, visible to the verifier as equality of the views.
pub fn str_equal(a: &str, b: &str) -> (r: bool)
    ensures
        r == (a@ == b@),
{
    let sa = a.to_owned();
    let sb = b.to_owned();
    sa == sb
}

/// `pat` occurs in `text` starting at position `i`.
pub open spec fn matches_at(text: Seq<char>, pat: Seq<char>, i: int) -> bool {
    &&& 0 <= i
    &&& i + pat.len() <= text.len()
    &&& text.subrange(i, i + pat.len()) == pat
}

/// `pat` occurs somewhere in `text`.
pub open spec fn contains_sub(text: Seq<char>, pat: Seq<char>) -> bool {
    exists|i: int| matches_at(text, pat, i)
}

/// The position of the first `c` in `s` at or after `from`, if any.
pub open spec fn first_char_at_or_after(s: Seq<char>, c: char, from: int) -> Option<int>
    decreases s.len() - from
        when 0 <= from <= s.len()
{
    if from >= s.len() {
        None
    } else if s[from] == c {
        Some(from)
    } else {
        first_char_at_or_after(s, c, from + 1)
    }
}

/// A Unicode whitespace character, the set that trimming removes.
pub open spec fn is_space_char(c: char) -> bool {
    ||| (9 <= (c as u32) && (c as u32) <= 13)
    ||| (c as u32) == 32
    ||| (c as u32) == 0x85
    ||| (c as u32) == 0xA0
    ||| (c as u32) == 0x1680
    ||| (0x2000 <= (c as u32) && (c as u32) <= 0x200A)
    ||| (c as u32) == 0x2028
    ||| (c as u32) == 0x2029
    ||| (c as u32) == 0x202F
    ||| (c as u32) == 0x205F
    ||| (c as u32) == 0x3000
}

pub open spec fn drop_leading_spaces(s: Seq<char>) -> Seq<char>
    decreases s.len(),
{
    if s.len() == 0 {
        s
    } else if is_space_char(s[0]) {
        drop_leading_spaces(s.skip(1))
    } else {
        s
    }
}

pub open spec fn drop_trailing_spaces(s: Seq<char>) -> Seq<char>
    decreases s.len(),
{
    if s.len() == 0 {
        s
    } else if is_space_char(s.last()) {
        drop_trailing_spaces(s.drop_last())
    } else {
        s
    }
}

/// `s` without its leading and trailing whitespace.
pub open spec fn trimmed(s: Seq<char>) -> Seq<char> {
    drop_trailing_spaces(drop_leading_spaces(s))
}

proof fn lemma_drop_leading_spaces(s: Seq<char>, lo: int)
    requires
        0 <= lo <= s.len(),
        forall|j: int| 0 <= j < lo ==> is_space_char(s[j]),
        lo < s.len() ==> !is_space_char(s[lo]),
    ensures
        drop_leading_spaces(s) == s.skip(lo),
    decreases lo,
{
    if lo == 0 {
        assert(s.skip(0) =~= s);
    } else {
        lemma_drop_leading_spaces(s.skip(1), lo - 1);
        assert(s.skip(1).skip(lo - 1) =~= s.skip(lo));
    }
}

proof fn lemma_drop_trailing_spaces(s: Seq<char>, hi: int)
    requires
        0 <= hi <= s.len(),
        forall|j: int| hi <= j < s.len() ==> is_space_char(s[j]),
        hi > 0 ==> !is_space_char(s[hi - 1]),
    ensures
        drop_trailing_spaces(s) == s.take(hi),
    decreases s.len() - hi,
{
    if hi == s.len() {
        assert(s.take(hi) =~= s);
    } else {
        assert(is_space_char(s.last()));
        lemma_drop_trailing_spaces(s.drop_last(), hi);
        assert(s.drop_last().take(hi) =~= s.take(hi));
    }
}

/// Whether `c` is a whitespace character.
fn is_space(c: char) -> (r: bool)
    ensures
        r == is_space_char(c),
{
    let cu = c as u32;
    (9 <= cu && cu <= 13) || cu == 32 || cu == 0x85 || cu == 0xA0 || cu == 0x1680 || (0x2000 <= cu
        && cu <= 0x200A) || cu == 0x2028 || cu == 0x2029 || cu == 0x202F || cu == 0x205F || cu
        == 0x3000
}

/// The position of the first non-whitespace character, or the length.
fn first_non_space(cv: &Vec<char>) -> (r: usize)
    ensures
        r <= cv@.len(),
        forall|j: int| 0 <= j < r ==> is_space_char(cv@[j]),
        r < cv@.len() ==> !is_space_char(cv@[r as int]),
{
    let mut i: usize = 0;
    while i < cv.len()
        invariant
            i <= cv@.len(),
            forall|j: int| 0 <= j < i ==> is_space_char(cv@[j]),
        decreases cv@.len() - i,
    {
        if !is_space(cv[i]) {
            return i;
        }
        i += 1;
    }
    i
}

/// One past the last non-whitespace character at or after `lo`, or `lo`.
fn last_non_space_end(cv: &Vec<char>, lo: usize) -> (r: usize)
    requires
        lo <= cv@.len(),
    ensures
        lo <= r <= cv@.len(),
        forall|j: int| r <= j < cv@.len() ==> is_space_char(cv@[j]),
        r > lo ==> !is_space_char(cv@[r - 1]),
{
    let mut hi: usize = cv.len();
    while hi > lo
        invariant
            lo <= hi <= cv@.len(),
            forall|j: int| hi <= j < cv@.len() ==> is_space_char(cv@[j]),
        decreases hi,
    {
        if !is_space(cv[hi - 1]) {
            return hi;
        }
        hi -= 1;
    }
    hi
}

/// `s` without its leading and trailing whitespace.
pub fn trim_spaces(s: &str) -> (r: String)
    ensures
        r@ == trimmed(s@),
{
    let cv = chars_of(s);
    let lo = first_non_space(&cv);
    let hi = last_non_space_end(&cv, lo);
    proof {
        lemma_drop_leading_spaces(s@, lo as int);
        let tail = s@.skip(lo as int);
        lemma_drop_trailing_spaces(tail, hi - lo);
        assert(tail.take(hi - lo) =~= s@.subrange(lo as int, hi as int));
    }
    s.substring_char(lo, hi).to_owned()
}

/// What a found position means: it carries `c`, nothing before it does, and
/// when nothing is found no position at or after `from` carries `c`.
pub proof fn lemma_first_char_properties(s: Seq<char>, c: char, from: int)
    requires
        0 <= from <= s.len(),
    ensures
        match first_char_at_or_after(s, c, from) {
            Some(i) => from <= i < s.len() && s[i] == c && (forall|j: int|
                from <= j < i ==> s[j] != c),
            None => forall|j: int| from <= j < s.len() ==> s[j] != c,
        },
    decreases s.len() - from,
{
    if from < s.len() && s[from] != c {
        lemma_first_char_properties(s, c, from + 1);
    }
}

/// The number of non-overlapping occurrences of `pat` in `text` from
/// position `i` on, scanning left to right and skipping past each match.
pub open spec fn count_from(text: Seq<char>, pat: Seq<char>, i: int) -> nat
    decreases text.len() - i
        when 0 <= i <= text.len() && pat.len() > 0
{
    if i + pat.len() > text.len() {
        0
    } else if matches_at(text, pat, i) {
        1 + count_from(text, pat, i + pat.len())
    } else {
        count_from(text, pat, i + 1)
    }
}

/// The number of non-overlapping occurrences of `pat` in `text`.
pub open spec fn occurrences(text: Seq<char>, pat: Seq<char>) -> nat {
    count_from(text, pat, 0)
}

/// Whether `pat` occurs at position `i` of `text`.
pub fn matches_at_vec(text: &Vec<char>, pat: &Vec<char>, i: usize) -> (r: bool)
    requires
        i <= text@.len(),
    ensures
        r == matches_at(text@, pat@, i as int),
{
    if pat.len() > text.len() - i {
        proof {
            assert(!matches_at(text@, pat@, i as int));
        }
        return false;
    }
    let mut j: usize = 0;
    while j < pat.len()
        invariant
            text@.len() <= usize::MAX,
            i + pat@.len() <= text@.len(),
            j <= pat@.len(),
            forall|k: int| 0 <= k < j ==> text@[i + k] == pat@[k],
        decreases pat@.len() - j,
    {
        if text[i + j] != pat[j] {
            proof {
                assert(text@.subrange(i as int, i + pat@.len())[j as int] != pat@[j as int]);
            }
            return false;
        }
        j += 1;
    }
    proof {
        assert(text@.subrange(i as int, i + pat@.len()) =~= pat@);
    }
    true
}

/// The position of the first `c` in `text` at or after `from`, if any.
pub fn find_char_from(text: &Vec<char>, c: char, from: usize) -> (r: Option<usize>)
    requires
        from <= text@.len(),
    ensures
        match r {
            Some(i) => from <= i < text@.len() && text@[i as int] == c && (forall|j: int|
                from <= j < i ==> text@[j] != c) && Some(i as int) == first_char_at_or_after(
                text@,
                c,
                from as int,
            ),
            None => (forall|j: int| from <= j < text@.len() ==> text@[j] != c)
                && first_char_at_or_after(text@, c, from as int) is None,
        },
{
    proof {
        lemma_first_char_properties(text@, c, from as int);
    }
    let mut i: usize = from;
    while i < text.len()
        invariant
            from <= i <= text@.len(),
            forall|j: int| from <= j < i ==> text@[j] != c,
            first_char_at_or_after(text@, c, from as int) == first_char_at_or_after(
                text@,
                c,
                i as int,
            ),
        decreases text@.len() - i,
    {
        if text[i] == c {
            return Some(i);
        }
        i += 1;
    }
    None
}

/// Whether `pat` occurs anywhere in `text`.
pub fn contains_substring(text: &str, pat: &str) -> (r: bool)
    ensures
        r == contains_sub(text@, pat@),
{
    let tv = chars_of(text);
    let pv = chars_of(pat);
    if pv.len() == 0 {
        proof {
            assert(text@.subrange(0, 0) =~= pat@);
            assert(matches_at(text@, pat@, 0));
        }
        return true;
    }
    let mut i: usize = 0;
    while i < tv.len()
        invariant
            tv@ == text@,
            pv@ == pat@,
            i <= tv@.len(),
            forall|j: int| 0 <= j < i ==> !matches_at(text@, pat@, j),
        decreases tv@.len() - i,
    {
        if matches_at_vec(&tv, &pv, i) {
            return true;
        }
        i += 1;
    }
    proof {
        assert forall|j: int| !matches_at(text@, pat@, j) by {
            if 0 <= j < text@.len() {
                assert(!matches_at(text@, pat@, j));
            }
        }
    }
    false
}

/// The number of non-overlapping occurrences of `pat` in `text`: each match
/// is counted once and scanning resumes right after it.
pub fn count_occurrences(text: &str, pat: &str) -> (r: usize)
    requires
        pat@.len() > 0,
    ensures
        r == occurrences(text@, pat@),
{
    let tv = chars_of(text);
    let pv = chars_of(pat);
    let mut i: usize = 0;
    let mut count: usize = 0;
    while i < tv.len()
        invariant
            tv@ == text@,
            pv@ == pat@,
            pat@.len() > 0,
            i <= tv@.len(),
            count <= i,
            occurrences(text@, pat@) == count + count_from(text@, pat@, i as int),
        decreases tv@.len() - i,
    {
        if matches_at_vec(&tv, &pv, i) {
            count += 1;
            i += pv.len();
        } else {
            i += 1;
        }
    }
    count
}

} // verus!
