//! Non-overlapping, left-to-right substring scanning over sequences of
//! `char`s.

use vstd::prelude::*;

verus! {

/// `pattern` stands in `text` at index `at`.
pub open spec fn occurs_at(text: Seq<char>, pattern: Seq<char>, at: int) -> bool {
    &&& 0 <= at
    &&& at + pattern.len() <= text.len()
    &&& text.subrange(at, at + pattern.len()) == pattern
}

/// The spans reported by a scan of `text` for `pattern` that starts at index
/// `from`: the leftmost occurrence at or after `from`, then the scan resumed
/// at that occurrence's end. An empty pattern has no spans.
pub open spec fn scan_from(text: Seq<char>, pattern: Seq<char>, from: int) -> Seq<(usize, usize)>
    decreases text.len() - from,
{
    if pattern.len() == 0 || from < 0 || from + pattern.len() > text.len() {
        Seq::empty()
    } else if occurs_at(text, pattern, from) {
        seq![(from as usize, (from + pattern.len()) as usize)] + scan_from(
            text,
            pattern,
            from + pattern.len(),
        )
    } else {
        scan_from(text, pattern, from + 1)
    }
}

/// All spans of `pattern` in `text`, scanning from the start.
pub open spec fn scan(text: Seq<char>, pattern: Seq<char>) -> Seq<(usize, usize)> {
    scan_from(text, pattern, 0)
}

/// Whether `pattern` stands in `text` at index `at`.
pub fn matches_at(text: &[char], pattern: &[char], at: usize) -> (found: bool)
    ensures
        found == occurs_at(text@, pattern@, at as int),
{
    if pattern.len() > text.len() || at > text.len() - pattern.len() {
        return false;
    }
    let mut j: usize = 0;
    while j < pattern.len()
        invariant
            j <= pattern.len(),
            at + pattern.len() <= text.len(),
            forall|k: int| 0 <= k < j ==> text@[at + k] == pattern@[k],
        decreases pattern.len() - j,
    {
        if text[at + j] != pattern[j] {
            proof {
                let window = text@.subrange(at as int, at + pattern.len());
                assert(window[j as int] == text@[at + j]);
            }
            return false;
        }
        j += 1;
    }
    proof {
        assert(text@.subrange(at as int, at + pattern.len()) =~= pattern@);
    }
    true
}

/// Every span of `pattern` in `text`, as half-open ranges of `char` indices
/// in scan order. Occurrences that overlap a reported span are not reported.
pub fn find_all(text: &[char], pattern: &[char]) -> (spans: Vec<(usize, usize)>)
    ensures
        spans@ == scan(text@, pattern@),
        pattern@.len() == 0 ==> spans@.len() == 0,
{
    let mut spans: Vec<(usize, usize)> = Vec::new();
    if pattern.len() == 0 || pattern.len() > text.len() {
        return spans;
    }
    let last: usize = text.len() - pattern.len();
    let mut at: usize = 0;
    while at <= last
        invariant
            pattern.len() > 0,
            last == text.len() - pattern.len(),
            at <= text.len(),
            scan(text@, pattern@) == spans@ + scan_from(text@, pattern@, at as int),
        decreases text.len() - at,
    {
        if matches_at(text, pattern, at) {
            let end: usize = at + pattern.len();
            proof {
                let rest = scan_from(text@, pattern@, end as int);
                assert(spans@ + (seq![(at, end)] + rest) =~= spans@.push((at, end)) + rest);
            }
            spans.push((at, end));
            at = end;
        } else {
            at += 1;
        }
    }
    proof {
        assert(spans@ + Seq::<(usize, usize)>::empty() =~= spans@);
    }
    spans
}

/// Every span that a scan reports is an occurrence of the pattern, lies at or
/// after the scan's start, and is as long as the pattern.
pub proof fn lemma_scan_reports_occurrences(
    text: Seq<char>,
    pattern: Seq<char>,
    from: int,
    k: int,
)
    requires
        text.len() <= usize::MAX,
        0 <= k < scan_from(text, pattern, from).len(),
    ensures
        from <= scan_from(text, pattern, from)[k].0,
        occurs_at(text, pattern, scan_from(text, pattern, from)[k].0 as int),
        scan_from(text, pattern, from)[k].1 == scan_from(text, pattern, from)[k].0 + pattern.len(),
    decreases text.len() - from,
{
    if occurs_at(text, pattern, from) {
        if k > 0 {
            let rest = scan_from(text, pattern, from + pattern.len());
            assert(scan_from(text, pattern, from)[k] == rest[k - 1]);
            lemma_scan_reports_occurrences(text, pattern, from + pattern.len(), k - 1);
        }
    } else {
        lemma_scan_reports_occurrences(text, pattern, from + 1, k);
    }
}

/// The spans of a scan come in increasing order and do not overlap: each one
/// starts at or after the end of the one before it.
pub proof fn lemma_scan_spans_disjoint(text: Seq<char>, pattern: Seq<char>, from: int, k: int)
    requires
        text.len() <= usize::MAX,
        0 <= k,
        k + 1 < scan_from(text, pattern, from).len(),
    ensures
        scan_from(text, pattern, from)[k].1 <= scan_from(text, pattern, from)[k + 1].0,
    decreases text.len() - from,
{
    if occurs_at(text, pattern, from) {
        let rest = scan_from(text, pattern, from + pattern.len());
        assert(scan_from(text, pattern, from)[k + 1] == rest[k]);
        if k == 0 {
            lemma_scan_reports_occurrences(text, pattern, from + pattern.len(), 0);
        } else {
            assert(scan_from(text, pattern, from)[k] == rest[k - 1]);
            lemma_scan_spans_disjoint(text, pattern, from + pattern.len(), k - 1);
        }
    } else {
        lemma_scan_spans_disjoint(text, pattern, from + 1, k);
    }
}

/// A scan misses no occurrence but those it has to: an occurrence of a
/// non-empty pattern at or after the scan's start begins inside a reported
/// span, so it either is that span or overlaps it.
pub proof fn lemma_scan_covers_occurrences(
    text: Seq<char>,
    pattern: Seq<char>,
    from: int,
    at: int,
) -> (k: int)
    requires
        text.len() <= usize::MAX,
        pattern.len() > 0,
        0 <= from <= at,
        occurs_at(text, pattern, at),
    ensures
        0 <= k < scan_from(text, pattern, from).len(),
        scan_from(text, pattern, from)[k].0 <= at < scan_from(text, pattern, from)[k].1,
    decreases text.len() - from,
{
    if occurs_at(text, pattern, from) {
        if at < from + pattern.len() {
            0
        } else {
            let k = lemma_scan_covers_occurrences(text, pattern, from + pattern.len(), at);
            let rest = scan_from(text, pattern, from + pattern.len());
            assert(scan_from(text, pattern, from)[k + 1] == rest[k]);
            k + 1
        }
    } else {
        lemma_scan_covers_occurrences(text, pattern, from + 1, at)
    }
}

/// What it means for `spans` to be the result of a scan of `text` for
/// `pattern` from index `from`: every span is an occurrence at or after
/// `from`; the spans come in order and do not overlap; and every occurrence at
/// or after `from` begins inside one of them.
pub open spec fn is_scan_from(
    text: Seq<char>,
    pattern: Seq<char>,
    from: int,
    spans: Seq<(usize, usize)>,
) -> bool {
    &&& forall|k: int|
        0 <= k < spans.len() ==> from <= (#[trigger] spans[k]).0 && occurs_at(
            text,
            pattern,
            spans[k].0 as int,
        ) && spans[k].1 == spans[k].0 + pattern.len()
    &&& forall|j: int, k: int|
        0 <= j < k < spans.len() ==> (#[trigger] spans[j]).1 <= (#[trigger] spans[k]).0
    &&& forall|at: int|
        from <= at && #[trigger] occurs_at(text, pattern, at) ==> exists|k: int|
            0 <= k < spans.len() && (#[trigger] spans[k]).0 <= at < spans[k].1
}

/// The spans of a scan are a scan in the sense of `is_scan_from`.
pub proof fn lemma_scan_is_a_scan(text: Seq<char>, pattern: Seq<char>, from: int)
    requires
        text.len() <= usize::MAX,
        pattern.len() > 0,
        0 <= from,
    ensures
        is_scan_from(text, pattern, from, scan_from(text, pattern, from)),
{
    let spans = scan_from(text, pattern, from);
    assert forall|k: int| 0 <= k < spans.len() implies from <= (#[trigger] spans[k]).0
        && occurs_at(text, pattern, spans[k].0 as int) && spans[k].1 == spans[k].0
        + pattern.len() by {
        lemma_scan_reports_occurrences(text, pattern, from, k);
    }
    assert forall|j: int, k: int| 0 <= j < k < spans.len() implies (#[trigger] spans[j]).1
        <= (#[trigger] spans[k]).0 by {
        lemma_scan_spans_in_order(text, pattern, from, j, k);
    }
    assert forall|at: int| from <= at && #[trigger] occurs_at(text, pattern, at) implies (exists|
        k: int,
    | 0 <= k < spans.len() && (#[trigger] spans[k]).0 <= at < spans[k].1) by {
        let k = lemma_scan_covers_occurrences(text, pattern, from, at);
        assert(0 <= k < spans.len() && spans[k].0 <= at < spans[k].1);
    }
}

/// Of two spans of a scan the earlier one ends at or before the start of the
/// later one.
pub proof fn lemma_scan_spans_in_order(
    text: Seq<char>,
    pattern: Seq<char>,
    from: int,
    j: int,
    k: int,
)
    requires
        text.len() <= usize::MAX,
        0 <= j < k < scan_from(text, pattern, from).len(),
    ensures
        scan_from(text, pattern, from)[j].1 <= scan_from(text, pattern, from)[k].0,
    decreases k - j,
{
    lemma_scan_spans_disjoint(text, pattern, from, j);
    if j + 1 < k {
        lemma_scan_spans_in_order(text, pattern, from, j + 1, k);
        lemma_scan_reports_occurrences(text, pattern, from, j + 1);
    }
}

/// A scan has one result only: whatever spans are a scan in the sense of
/// `is_scan_from` are the spans that `scan_from` gives.
pub proof fn lemma_scan_is_determined(
    text: Seq<char>,
    pattern: Seq<char>,
    from: int,
    spans: Seq<(usize, usize)>,
)
    requires
        text.len() <= usize::MAX,
        pattern.len() > 0,
        0 <= from,
        is_scan_from(text, pattern, from, spans),
    ensures
        spans == scan_from(text, pattern, from),
    decreases text.len() - from,
{
    if from + pattern.len() > text.len() {
        if spans.len() > 0 {
            assert(from <= spans[0].0 && occurs_at(text, pattern, spans[0].0 as int));
        }
        assert(spans =~= Seq::empty());
    } else if occurs_at(text, pattern, from) {
        let k = choose|k: int| 0 <= k < spans.len() && (#[trigger] spans[k]).0 <= from < spans[k].1;
        assert(spans[k].0 == from);
        if k > 0 {
            assert(from <= spans[0].0 && spans[0].1 == spans[0].0 + pattern.len());
            assert(spans[0].1 <= spans[k].0);
        }
        let first = spans[0];
        let rest = spans.drop_first();
        let end = from + pattern.len();
        assert forall|i: int| 0 <= i < rest.len() implies end <= (#[trigger] rest[i]).0
            && occurs_at(text, pattern, rest[i].0 as int) && rest[i].1 == rest[i].0
            + pattern.len() by {
            assert(rest[i] == spans[i + 1]);
            assert(spans[0].1 <= spans[i + 1].0);
        }
        assert forall|i: int, j: int| 0 <= i < j < rest.len() implies (#[trigger] rest[i]).1
            <= (#[trigger] rest[j]).0 by {
            assert(rest[i] == spans[i + 1] && rest[j] == spans[j + 1]);
        }
        assert forall|at: int| end <= at && #[trigger] occurs_at(text, pattern, at) implies (exists|
            i: int,
        | 0 <= i < rest.len() && (#[trigger] rest[i]).0 <= at < rest[i].1) by {
            let found = choose|k: int|
                0 <= k < spans.len() && (#[trigger] spans[k]).0 <= at < spans[k].1;
            assert(found > 0);
            assert(rest[found - 1] == spans[found]);
        }
        lemma_scan_is_determined(text, pattern, end, rest);
        assert(first == (from as usize, end as usize));
        assert(spans =~= seq![first] + rest);
    } else {
        assert forall|k: int| 0 <= k < spans.len() implies from + 1 <= (#[trigger] spans[k]).0 by {
            assert(occurs_at(text, pattern, spans[k].0 as int));
        }
        lemma_scan_is_determined(text, pattern, from + 1, spans);
    }
}

} // verus!
