//! Interval summary aggregation over one cadence window of records.
//!
//! A request line `"METHOD PATH PROTOCOL"` is split on whitespace into its
//! tokens; the "section" grouping key is the first path component after the
//! leading slash, which is the empty string for the root path `/`. A batch
//! summary counts hits per section and, for status codes at or above the
//! error floor, hits per status code. The per-key association lists carry
//! each key at most once, so they read as maps from key to count.

use std::collections::VecDeque;
use vstd::pervasive::VecAdditionalExecFns;
use vstd::prelude::*;

use crate::{EmptyBatchError, Record};

verus! {

/// Lowest status code counted as an HTTP error.
pub const HTTP_ERROR_START: u16 = 400;

/// The characters the request-line splitter treats as token separators.
pub open spec fn is_request_whitespace(c: char) -> bool {
    c == ' ' || c == '\t' || c == '\n' || c == '\r'
}

/// Index of the first non-whitespace character at or after `from`, or the
/// length when only whitespace remains.
pub open spec fn skip_ws(s: Seq<char>, from: int) -> int
    decreases s.len() - from,
{
    if from < 0 || from >= s.len() {
        s.len() as int
    } else if is_request_whitespace(s[from]) {
        skip_ws(s, from + 1)
    } else {
        from
    }
}

/// Index of the first whitespace character at or after `from`, or the
/// length when the token runs to the end.
pub open spec fn token_end(s: Seq<char>, from: int) -> int
    decreases s.len() - from,
{
    if from < 0 || from >= s.len() {
        s.len() as int
    } else if is_request_whitespace(s[from]) {
        from
    } else {
        token_end(s, from + 1)
    }
}

/// Index of the first `/` at or after `from`, or the length when none is
/// left.
pub open spec fn slash_end(s: Seq<char>, from: int) -> int
    decreases s.len() - from,
{
    if from < 0 || from >= s.len() {
        s.len() as int
    } else if s[from] == '/' {
        from
    } else {
        slash_end(s, from + 1)
    }
}

/// The method token: the first whitespace-delimited token of the line.
pub open spec fn spec_method(s: Seq<char>) -> Seq<char> {
    s.subrange(skip_ws(s, 0), token_end(s, skip_ws(s, 0)))
}

/// The path token: the second whitespace-delimited token of the line.
pub open spec fn spec_path(s: Seq<char>) -> Seq<char> {
    let p0 = skip_ws(s, token_end(s, skip_ws(s, 0)));
    s.subrange(p0, token_end(s, p0))
}

/// The section of a path: what stands between the first `/` and the next
/// `/` or the end. Empty for the root path `/`.
pub open spec fn spec_section_of_path(p: Seq<char>) -> Seq<char> {
    let k = slash_end(p, 0);
    p.subrange(k + 1, slash_end(p, k + 1))
}

/// The section of a whole request line.
pub open spec fn spec_section(s: Seq<char>) -> Seq<char> {
    spec_section_of_path(spec_path(s))
}

/// A well-formed request line: it has at least two whitespace-delimited
/// tokens, and the second (the path) contains a `/`. Upstream decoding is
/// expected to deliver only such lines; anything else is a contract
/// violation of the caller.
pub open spec fn wf_request_line(s: Seq<char>) -> bool {
    let p0 = skip_ws(s, token_end(s, skip_ws(s, 0)));
    let p = s.subrange(p0, token_end(s, p0));
    &&& p0 < s.len()
    &&& slash_end(p, 0) < p.len()
}

/// `skip_ws` stays within bounds, lands on a non-whitespace character when
/// it lands inside the sequence, and skips only whitespace.
pub proof fn lemma_skip_ws_bounds(s: Seq<char>, from: int)
    requires
        0 <= from <= s.len(),
    ensures
        from <= skip_ws(s, from) <= s.len(),
        skip_ws(s, from) < s.len() ==> !is_request_whitespace(s[skip_ws(s, from)]),
        forall|i: int| from <= i < skip_ws(s, from) ==> is_request_whitespace(s[i]),
    decreases s.len() - from,
{
    if from < s.len() && is_request_whitespace(s[from]) {
        lemma_skip_ws_bounds(s, from + 1);
    }
}

/// `token_end` stays within bounds, lands on whitespace when it lands
/// inside the sequence, and passes only non-whitespace.
pub proof fn lemma_token_end_bounds(s: Seq<char>, from: int)
    requires
        0 <= from <= s.len(),
    ensures
        from <= token_end(s, from) <= s.len(),
        token_end(s, from) < s.len() ==> is_request_whitespace(s[token_end(s, from)]),
        forall|i: int| from <= i < token_end(s, from) ==> !is_request_whitespace(s[i]),
    decreases s.len() - from,
{
    if from < s.len() && !is_request_whitespace(s[from]) {
        lemma_token_end_bounds(s, from + 1);
    }
}

/// `slash_end` stays within bounds, lands on a `/` when it lands inside the
/// sequence, and passes no `/`.
pub proof fn lemma_slash_end_bounds(s: Seq<char>, from: int)
    requires
        0 <= from <= s.len(),
    ensures
        from <= slash_end(s, from) <= s.len(),
        slash_end(s, from) < s.len() ==> s[slash_end(s, from)] == '/',
        forall|i: int| from <= i < slash_end(s, from) ==> s[i] != '/',
    decreases s.len() - from,
{
    if from < s.len() && s[from] != '/' {
        lemma_slash_end_bounds(s, from + 1);
    }
}

/// Finds `skip_ws` of the view: the first non-separator at or after `from`.
fn find_non_ws(s: &str, from: usize) -> (r: usize)
    requires
        from <= s@.len(),
    ensures
        r == skip_ws(s@, from as int),
        from <= r <= s@.len(),
{
    proof {
        lemma_skip_ws_bounds(s@, from as int);
    }
    let n = s.unicode_len();
    let mut i = from;
    loop
        invariant
            from <= i <= n,
            n == s@.len(),
            skip_ws(s@, from as int) == skip_ws(s@, i as int),
        ensures
            i <= n,
            skip_ws(s@, from as int) == i,
        decreases n - i,
    {
        if i >= n {
            break ;
        }
        let c = s.get_char(i);
        if !(c == ' ' || c == '\t' || c == '\n' || c == '\r') {
            break ;
        }
        i = i + 1;
    }
    i
}

/// Finds `token_end` of the view: the first separator at or after `from`.
fn find_ws(s: &str, from: usize) -> (r: usize)
    requires
        from <= s@.len(),
    ensures
        r == token_end(s@, from as int),
        from <= r <= s@.len(),
{
    proof {
        lemma_token_end_bounds(s@, from as int);
    }
    let n = s.unicode_len();
    let mut i = from;
    loop
        invariant
            from <= i <= n,
            n == s@.len(),
            token_end(s@, from as int) == token_end(s@, i as int),
        ensures
            i <= n,
            token_end(s@, from as int) == i,
        decreases n - i,
    {
        if i >= n {
            break ;
        }
        let c = s.get_char(i);
        if c == ' ' || c == '\t' || c == '\n' || c == '\r' {
            break ;
        }
        i = i + 1;
    }
    i
}

/// Finds `slash_end` of the view: the first `/` at or after `from`.
fn find_slash(s: &str, from: usize) -> (r: usize)
    requires
        from <= s@.len(),
    ensures
        r == slash_end(s@, from as int),
        from <= r <= s@.len(),
{
    proof {
        lemma_slash_end_bounds(s@, from as int);
    }
    let n = s.unicode_len();
    let mut i = from;
    loop
        invariant
            from <= i <= n,
            n == s@.len(),
            slash_end(s@, from as int) == slash_end(s@, i as int),
        ensures
            i <= n,
            slash_end(s@, from as int) == i,
        decreases n - i,
    {
        if i >= n {
            break ;
        }
        let c = s.get_char(i);
        if c == '/' {
            break ;
        }
        i = i + 1;
    }
    i
}

/// Splits a request line into method, path and section. The caller owes a
/// well-formed line; upstream decoding guarantees that shape.
pub fn get_request_method_and_path_info(request_str: &String) -> (r: (String, String, String))
    requires
        wf_request_line(request_str@),
    ensures
        r.0@ == spec_method(request_str@),
        r.1@ == spec_path(request_str@),
        r.2@ == spec_section(request_str@),
{
    let s = request_str.as_str();
    proof {
        lemma_skip_ws_bounds(s@, 0);
        lemma_token_end_bounds(s@, skip_ws(s@, 0));
        lemma_skip_ws_bounds(s@, token_end(s@, skip_ws(s@, 0)));
    }
    let m0 = find_non_ws(s, 0);
    let m1 = find_ws(s, m0);
    let p0 = find_non_ws(s, m1);
    proof {
        lemma_token_end_bounds(s@, p0 as int);
    }
    let p1 = find_ws(s, p0);
    let method = s.substring_char(m0, m1).to_owned();
    let path_str = s.substring_char(p0, p1);
    proof {
        lemma_slash_end_bounds(path_str@, 0);
    }
    let k = find_slash(path_str, 0);
    proof {
        lemma_slash_end_bounds(path_str@, k + 1);
    }
    let k2 = find_slash(path_str, k + 1);
    let section = path_str.substring_char(k + 1, k2).to_owned();
    (method, path_str.to_owned(), section)
}

/// Decides `wf_request_line` for a runtime string, so that an unverified
/// caller can test the splitter's contract before relying on it.
pub fn is_wf_request_line(s: &str) -> (r: bool)
    ensures
        r == wf_request_line(s@),
{
    let n = s.unicode_len();
    proof {
        lemma_skip_ws_bounds(s@, 0);
        lemma_token_end_bounds(s@, skip_ws(s@, 0));
        lemma_skip_ws_bounds(s@, token_end(s@, skip_ws(s@, 0)));
    }
    let m0 = find_non_ws(s, 0);
    let m1 = find_ws(s, m0);
    let p0 = find_non_ws(s, m1);
    if p0 >= n {
        return false;
    }
    proof {
        lemma_token_end_bounds(s@, p0 as int);
    }
    let p1 = find_ws(s, p0);
    let path = s.substring_char(p0, p1);
    proof {
        lemma_slash_end_bounds(path@, 0);
    }
    let k = find_slash(path, 0);
    k < p1 - p0
}

/// A snapshot summary of one batch: total hits, error hits by status code,
/// hits by section, and the timestamp span of the batch.
pub struct SummaryStats {
    pub http_errors: Vec<(u16, usize)>,
    pub section_hits: Vec<(String, usize)>,
    pub total_hits: usize,
    pub from_date: i64,
    pub to_date: i64,
}

/// How many records of the batch fall into section `key`.
pub open spec fn count_section(batch: Seq<Record>, key: Seq<char>) -> nat
    decreases batch.len(),
{
    if batch.len() == 0 {
        0
    } else {
        count_section(batch.drop_last(), key) + (if spec_section(batch.last().request@) == key {
            1nat
        } else {
            0nat
        })
    }
}

/// How many records of the batch carry status `code`.
pub open spec fn count_status(batch: Seq<Record>, code: u16) -> nat
    decreases batch.len(),
{
    if batch.len() == 0 {
        0
    } else {
        count_status(batch.drop_last(), code) + (if batch.last().status == code {
            1nat
        } else {
            0nat
        })
    }
}

/// Total count recorded for section `key` in the association list.
pub open spec fn section_count_of(pairs: Seq<(String, usize)>, key: Seq<char>) -> nat
    decreases pairs.len(),
{
    if pairs.len() == 0 {
        0
    } else {
        section_count_of(pairs.drop_last(), key) + (if pairs.last().0@ == key {
            pairs.last().1 as nat
        } else {
            0nat
        })
    }
}

/// Total count recorded for status `code` in the association list.
pub open spec fn error_count_of(pairs: Seq<(u16, usize)>, code: u16) -> nat
    decreases pairs.len(),
{
    if pairs.len() == 0 {
        0
    } else {
        error_count_of(pairs.drop_last(), code) + (if pairs.last().0 == code {
            pairs.last().1 as nat
        } else {
            0nat
        })
    }
}

/// Sum of all section counts.
pub open spec fn sum_section_counts(pairs: Seq<(String, usize)>) -> nat
    decreases pairs.len(),
{
    if pairs.len() == 0 {
        0
    } else {
        sum_section_counts(pairs.drop_last()) + pairs.last().1 as nat
    }
}

/// Sum of all error counts.
pub open spec fn sum_error_counts(pairs: Seq<(u16, usize)>) -> nat
    decreases pairs.len(),
{
    if pairs.len() == 0 {
        0
    } else {
        sum_error_counts(pairs.drop_last()) + pairs.last().1 as nat
    }
}

/// Each section key appears at most once.
pub open spec fn section_keys_unique(pairs: Seq<(String, usize)>) -> bool {
    forall|i: int, j: int| 0 <= i < j < pairs.len() ==> pairs[i].0@ != pairs[j].0@
}

/// Each status-code key appears at most once.
pub open spec fn error_keys_unique(pairs: Seq<(u16, usize)>) -> bool {
    forall|i: int, j: int| 0 <= i < j < pairs.len() ==> pairs[i].0 != pairs[j].0
}

/// What a correct summary of `batch` states: the totals, the span, and one
/// count per section and per error status code — no more and no less. The
/// sums tie the per-key counts back to the batch size.
pub open spec fn summary_matches(st: SummaryStats, batch: Seq<Record>) -> bool {
    &&& st.total_hits == batch.len()
    &&& batch.len() > 0 ==> st.from_date == batch[0].date && st.to_date == batch.last().date
    &&& section_keys_unique(st.section_hits@)
    &&& error_keys_unique(st.http_errors@)
    &&& forall|key: Seq<char>| #[trigger]
        section_count_of(st.section_hits@, key) == count_section(batch, key)
    &&& forall|code: u16| #[trigger]
        error_count_of(st.http_errors@, code) == (if code >= HTTP_ERROR_START {
            count_status(batch, code)
        } else {
            0nat
        })
    &&& sum_section_counts(st.section_hits@) == batch.len()
    &&& sum_error_counts(st.http_errors@) <= batch.len()
}

/// Updating one entry moves the counts for exactly the old and new keys.
proof fn lemma_section_count_update(
    pairs: Seq<(String, usize)>,
    i: int,
    v: (String, usize),
    key: Seq<char>,
)
    requires
        0 <= i < pairs.len(),
    ensures
        section_count_of(pairs.update(i, v), key) == section_count_of(pairs, key) - (
        if pairs[i].0@ == key {
            pairs[i].1 as int
        } else {
            0
        }) + (if v.0@ == key {
            v.1 as int
        } else {
            0
        }),
    decreases pairs.len(),
{
    if i == pairs.len() - 1 {
        assert(pairs.update(i, v).drop_last() =~= pairs.drop_last());
    } else {
        assert(pairs.update(i, v).drop_last() =~= pairs.drop_last().update(i, v));
        lemma_section_count_update(pairs.drop_last(), i, v, key);
    }
}

/// Updating one entry moves the sum by the difference of the counts.
proof fn lemma_sum_section_update(pairs: Seq<(String, usize)>, i: int, v: (String, usize))
    requires
        0 <= i < pairs.len(),
    ensures
        sum_section_counts(pairs.update(i, v)) == sum_section_counts(pairs) - pairs[i].1 + v.1,
    decreases pairs.len(),
{
    if i == pairs.len() - 1 {
        assert(pairs.update(i, v).drop_last() =~= pairs.drop_last());
    } else {
        assert(pairs.update(i, v).drop_last() =~= pairs.drop_last().update(i, v));
        lemma_sum_section_update(pairs.drop_last(), i, v);
    }
}

/// No single count exceeds the sum of all counts.
proof fn lemma_sum_section_element(pairs: Seq<(String, usize)>, i: int)
    requires
        0 <= i < pairs.len(),
    ensures
        pairs[i].1 <= sum_section_counts(pairs),
    decreases pairs.len(),
{
    if i < pairs.len() - 1 {
        lemma_sum_section_element(pairs.drop_last(), i);
    }
}

/// As `lemma_section_count_update`, for the status-code list.
proof fn lemma_error_count_update(pairs: Seq<(u16, usize)>, i: int, v: (u16, usize), code: u16)
    requires
        0 <= i < pairs.len(),
    ensures
        error_count_of(pairs.update(i, v), code) == error_count_of(pairs, code) - (
        if pairs[i].0 == code {
            pairs[i].1 as int
        } else {
            0
        }) + (if v.0 == code {
            v.1 as int
        } else {
            0
        }),
    decreases pairs.len(),
{
    if i == pairs.len() - 1 {
        assert(pairs.update(i, v).drop_last() =~= pairs.drop_last());
    } else {
        assert(pairs.update(i, v).drop_last() =~= pairs.drop_last().update(i, v));
        lemma_error_count_update(pairs.drop_last(), i, v, code);
    }
}

/// As `lemma_sum_section_update`, for the status-code list.
proof fn lemma_sum_error_update(pairs: Seq<(u16, usize)>, i: int, v: (u16, usize))
    requires
        0 <= i < pairs.len(),
    ensures
        sum_error_counts(pairs.update(i, v)) == sum_error_counts(pairs) - pairs[i].1 + v.1,
    decreases pairs.len(),
{
    if i == pairs.len() - 1 {
        assert(pairs.update(i, v).drop_last() =~= pairs.drop_last());
    } else {
        assert(pairs.update(i, v).drop_last() =~= pairs.drop_last().update(i, v));
        lemma_sum_error_update(pairs.drop_last(), i, v);
    }
}

/// As `lemma_sum_section_element`, for the status-code list.
proof fn lemma_sum_error_element(pairs: Seq<(u16, usize)>, i: int)
    requires
        0 <= i < pairs.len(),
    ensures
        pairs[i].1 <= sum_error_counts(pairs),
    decreases pairs.len(),
{
    if i < pairs.len() - 1 {
        lemma_sum_error_element(pairs.drop_last(), i);
    }
}

/// Adds one hit for `key`: increments its entry or appends a fresh one.
fn bump_section(pairs: &mut Vec<(String, usize)>, key: String)
    requires
        section_keys_unique(old(pairs)@),
        sum_section_counts(old(pairs)@) < usize::MAX,
    ensures
        section_keys_unique(final(pairs)@),
        sum_section_counts(final(pairs)@) == sum_section_counts(old(pairs)@) + 1,
        forall|k: Seq<char>| #[trigger]
            section_count_of(final(pairs)@, k) == section_count_of(old(pairs)@, k) + (
            if k == key@ {
                1nat
            } else {
                0nat
            }),
{
    let n = pairs.len();
    let mut i: usize = 0;
    while i < n
        invariant
            i <= n,
            n == pairs@.len(),
            pairs@ == old(pairs)@,
            section_keys_unique(pairs@),
            sum_section_counts(pairs@) < usize::MAX,
            forall|j: int| 0 <= j < i ==> pairs@[j].0@ != key@,
        decreases n - i,
    {
        if pairs[i].0 == key {
            let count = pairs[i].1;
            proof {
                lemma_sum_section_element(pairs@, i as int);
                lemma_section_count_update_all(pairs@, i as int, (key, (count + 1) as usize), key@);
            }
            pairs.set(i, (key, count + 1));
            return ;
        }
        i = i + 1;
    }
    proof {
        lemma_section_count_push_all(pairs@, key@);
    }
    pairs.push((key, 1));
}

/// Pointwise form of the update lemma, for every key at once.
proof fn lemma_section_count_update_all(
    pairs: Seq<(String, usize)>,
    i: int,
    v: (String, usize),
    key: Seq<char>,
)
    requires
        0 <= i < pairs.len(),
        pairs[i].0@ == key,
        v.0@ == key,
        v.1 == pairs[i].1 + 1,
    ensures
        forall|k: Seq<char>| #[trigger]
            section_count_of(pairs.update(i, v), k) == section_count_of(pairs, k) + (if k == key {
                1nat
            } else {
                0nat
            }),
        sum_section_counts(pairs.update(i, v)) == sum_section_counts(pairs) + 1,
{
    assert forall|k: Seq<char>| #[trigger]
        section_count_of(pairs.update(i, v), k) == section_count_of(pairs, k) + (if k == key {
            1nat
        } else {
            0nat
        }) by {
        lemma_section_count_update(pairs, i, v, k);
    }
    lemma_sum_section_update(pairs, i, v);
}

/// Appending a fresh entry `(key, 1)` adds one count for that key alone.
proof fn lemma_section_count_push_all(pairs: Seq<(String, usize)>, key: Seq<char>)
    ensures
        forall|k: Seq<char>, v: (String, usize)|
            v.0@ == key && v.1 == 1 ==> #[trigger] section_count_of(pairs.push(v), k)
                == section_count_of(pairs, k) + (if k == key {
                1nat
            } else {
                0nat
            }),
        forall|v: (String, usize)|
            v.1 == 1 ==> #[trigger] sum_section_counts(pairs.push(v)) == sum_section_counts(pairs)
                + 1,
{
    assert forall|k: Seq<char>, v: (String, usize)| v.0@ == key && v.1 == 1 implies #[trigger]
        section_count_of(pairs.push(v), k) == section_count_of(pairs, k) + (if k == key {
            1nat
        } else {
            0nat
        }) by {
        assert(pairs.push(v).drop_last() =~= pairs);
    }
    assert forall|v: (String, usize)| v.1 == 1 implies #[trigger] sum_section_counts(pairs.push(v))
        == sum_section_counts(pairs) + 1 by {
        assert(pairs.push(v).drop_last() =~= pairs);
    }
}

/// Adds one hit for status `code`: increments its entry or appends one.
fn bump_error(pairs: &mut Vec<(u16, usize)>, code: u16)
    requires
        error_keys_unique(old(pairs)@),
        sum_error_counts(old(pairs)@) < usize::MAX,
    ensures
        error_keys_unique(final(pairs)@),
        sum_error_counts(final(pairs)@) == sum_error_counts(old(pairs)@) + 1,
        forall|c: u16| #[trigger]
            error_count_of(final(pairs)@, c) == error_count_of(old(pairs)@, c) + (if c == code {
                1nat
            } else {
                0nat
            }),
{
    let n = pairs.len();
    let mut i: usize = 0;
    while i < n
        invariant
            i <= n,
            n == pairs@.len(),
            pairs@ == old(pairs)@,
            error_keys_unique(pairs@),
            sum_error_counts(pairs@) < usize::MAX,
            forall|j: int| 0 <= j < i ==> pairs@[j].0 != code,
        decreases n - i,
    {
        if pairs[i].0 == code {
            let count = pairs[i].1;
            proof {
                lemma_sum_error_element(pairs@, i as int);
                let v = (code, (count + 1) as usize);
                assert forall|c: u16| #[trigger]
                    error_count_of(pairs@.update(i as int, v), c) == error_count_of(pairs@, c) + (
                    if c == code {
                        1nat
                    } else {
                        0nat
                    }) by {
                    lemma_error_count_update(pairs@, i as int, v, c);
                }
                lemma_sum_error_update(pairs@, i as int, v);
            }
            pairs.set(i, (code, count + 1));
            return ;
        }
        i = i + 1;
    }
    proof {
        assert forall|c: u16| #[trigger]
            error_count_of(pairs@.push((code, 1usize)), c) == error_count_of(pairs@, c) + (
            if c == code {
                1nat
            } else {
                0nat
            }) by {
            assert(pairs@.push((code, 1usize)).drop_last() =~= pairs@);
        }
        assert(pairs@.push((code, 1usize)).drop_last() =~= pairs@);
    }
    pairs.push((code, 1));
}

/// One batch step: counting the next record extends the per-key counts of
/// the prefix by exactly that record's section.
proof fn lemma_count_section_take_snoc(batch: Seq<Record>, idx: int, key: Seq<char>)
    requires
        0 <= idx < batch.len(),
    ensures
        count_section(batch.take(idx + 1), key) == count_section(batch.take(idx), key) + (
        if spec_section(batch[idx].request@) == key {
            1nat
        } else {
            0nat
        }),
{
    assert(batch.take(idx + 1).drop_last() =~= batch.take(idx));
    assert(batch.take(idx + 1).last() == batch[idx]);
}

/// As `lemma_count_section_take_snoc`, for status codes.
proof fn lemma_count_status_take_snoc(batch: Seq<Record>, idx: int, code: u16)
    requires
        0 <= idx < batch.len(),
    ensures
        count_status(batch.take(idx + 1), code) == count_status(batch.take(idx), code) + (
        if batch[idx].status == code {
            1nat
        } else {
            0nat
        }),
{
    assert(batch.take(idx + 1).drop_last() =~= batch.take(idx));
    assert(batch.take(idx + 1).last() == batch[idx]);
}

/// Summarizes one ordered batch of records. Succeeds on every non-empty
/// batch of well-formed request lines; an empty batch has no timestamp span
/// to report and yields the empty-batch error.
pub fn build_summary_stats(records: &VecDeque<Record>) -> (r: Result<SummaryStats, EmptyBatchError>)
    requires
        forall|i: int| 0 <= i < records@.len() ==> wf_request_line(#[trigger] records@[i].request@),
    ensures
        r is Ok <==> records@.len() > 0,
        r matches Ok(st) ==> summary_matches(st, records@),
{
    let total = records.len();
    if total == 0 {
        return Err(EmptyBatchError);
    }
    let mut section_hits: Vec<(String, usize)> = Vec::new();
    let mut http_errors: Vec<(u16, usize)> = Vec::new();
    let mut idx: usize = 0;
    while idx < total
        invariant
            idx <= total,
            total == records@.len(),
            forall|i: int|
                0 <= i < records@.len() ==> wf_request_line(#[trigger] records@[i].request@),
            section_keys_unique(section_hits@),
            error_keys_unique(http_errors@),
            sum_section_counts(section_hits@) == idx,
            sum_error_counts(http_errors@) <= idx,
            forall|key: Seq<char>| #[trigger]
                section_count_of(section_hits@, key) == count_section(
                    records@.take(idx as int),
                    key,
                ),
            forall|code: u16| #[trigger]
                error_count_of(http_errors@, code) == (if code >= HTTP_ERROR_START {
                    count_status(records@.take(idx as int), code)
                } else {
                    0nat
                }),
        decreases total - idx,
    {
        let record = &records[idx];
        let (_http_method, _path, path_section) = get_request_method_and_path_info(&record.request);
        bump_section(&mut section_hits, path_section);
        proof {
            assert forall|key: Seq<char>| #[trigger]
                section_count_of(section_hits@, key) == count_section(
                    records@.take(idx + 1),
                    key,
                ) by {
                lemma_count_section_take_snoc(records@, idx as int, key);
            }
        }
        if record.status >= HTTP_ERROR_START {
            bump_error(&mut http_errors, record.status);
        }
        proof {
            assert forall|code: u16| #[trigger]
                error_count_of(http_errors@, code) == (if code >= HTTP_ERROR_START {
                    count_status(records@.take(idx + 1), code)
                } else {
                    0nat
                }) by {
                lemma_count_status_take_snoc(records@, idx as int, code);
            }
        }
        idx = idx + 1;
    }
    proof {
        assert(records@.take(total as int) =~= records@);
    }
    Ok(
        SummaryStats {
            section_hits,
            http_errors,
            total_hits: total,
            from_date: records[0].date,
            to_date: records[total - 1].date,
        },
    )
}

} // verus!
