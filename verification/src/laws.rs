//! Laws relating the emitted records to the matching lines.
//!
//! These proofs pin down what the rendered output of a search is: one
//! record per line that contains the pattern, in the original order of the
//! lines, each numbered by its 1-based position.

use crate::lines::{split_lines, split_rest};
use crate::records::{
    block_records, block_records_upto, numbered_records, numbered_records_upto, record_chars,
};
use crate::search::is_match;
use vstd::prelude::*;

verus! {

/// The (1-based position, line) pairs of the lines among the first `n` of
/// `lines` that contain `pat`, in order.
pub open spec fn matched_pairs_upto(lines: Seq<Seq<char>>, pat: Seq<char>, n: int) -> Seq<
    (int, Seq<char>),
>
    decreases n,
{
    if n <= 0 {
        Seq::empty()
    } else {
        matched_pairs_upto(lines, pat, n - 1) + if is_match(lines[n - 1], pat) {
            seq![(n, lines[n - 1])]
        } else {
            Seq::empty()
        }
    }
}

/// The (1-based position, line) pairs of the lines of `lines` that contain
/// `pat`, in order.
pub open spec fn matched_pairs(lines: Seq<Seq<char>>, pat: Seq<char>) -> Seq<(int, Seq<char>)> {
    matched_pairs_upto(lines, pat, lines.len() as int)
}

/// The records of `pairs`, concatenated in order.
pub open spec fn record_concat(pairs: Seq<(int, Seq<char>)>) -> Seq<char>
    decreases pairs.len(),
{
    if pairs.len() == 0 {
        Seq::empty()
    } else {
        record_concat(pairs.drop_last()) + record_chars(pairs.last().0, pairs.last().1)
    }
}

proof fn lemma_upto_is_concat(lines: Seq<Seq<char>>, pat: Seq<char>, n: int)
    ensures
        numbered_records_upto(lines, pat, n) == record_concat(matched_pairs_upto(lines, pat, n)),
    decreases n,
{
    if n > 0 {
        lemma_upto_is_concat(lines, pat, n - 1);
        let prev = matched_pairs_upto(lines, pat, n - 1);
        let cur = matched_pairs_upto(lines, pat, n);
        if is_match(lines[n - 1], pat) {
            assert(cur =~= prev.push((n, lines[n - 1])));
            assert(cur.drop_last() =~= prev);
            assert(cur.last() == (n, lines[n - 1]));
        } else {
            assert(cur =~= prev);
            assert(numbered_records_upto(lines, pat, n) =~= numbered_records_upto(
                lines,
                pat,
                n - 1,
            ));
        }
    }
}

/// Law: the rendered output of a numbered search is exactly the
/// concatenation of one record per matching line, in original order.
pub proof fn lemma_records_are_matched_lines(lines: Seq<Seq<char>>, pat: Seq<char>)
    ensures
        numbered_records(lines, pat) == record_concat(matched_pairs(lines, pat)),
{
    lemma_upto_is_concat(lines, pat, lines.len() as int);
}

proof fn lemma_pairs_upto_characterized(lines: Seq<Seq<char>>, pat: Seq<char>, n: int)
    requires
        0 <= n <= lines.len(),
    ensures
        forall|t: int|
            0 <= t < matched_pairs_upto(lines, pat, n).len() ==> {
                let p = #[trigger] matched_pairs_upto(lines, pat, n)[t];
                &&& 1 <= p.0 <= n
                &&& p.1 == lines[p.0 - 1]
                &&& is_match(p.1, pat)
            },
        forall|t1: int, t2: int|
            0 <= t1 < t2 < matched_pairs_upto(lines, pat, n).len()
                ==> #[trigger] matched_pairs_upto(lines, pat, n)[t1].0
                < #[trigger] matched_pairs_upto(lines, pat, n)[t2].0,
        forall|k: int|
            0 <= k < n && is_match(#[trigger] lines[k], pat) ==> exists|t: int|
                0 <= t < matched_pairs_upto(lines, pat, n).len()
                    && #[trigger] matched_pairs_upto(lines, pat, n)[t] == (k + 1, lines[k]),
    decreases n,
{
    if n > 0 {
        lemma_pairs_upto_characterized(lines, pat, n - 1);
        let prev = matched_pairs_upto(lines, pat, n - 1);
        let cur = matched_pairs_upto(lines, pat, n);
        if is_match(lines[n - 1], pat) {
            assert(cur =~= prev.push((n, lines[n - 1])));
            assert(cur[prev.len() as int] == (n, lines[n - 1]));
            assert forall|k: int| 0 <= k < n && is_match(#[trigger] lines[k], pat) implies exists|
                t: int,
            | 0 <= t < cur.len() && #[trigger] cur[t] == (k + 1, lines[k]) by {
                if k < n - 1 {
                    let t0 = choose|t: int|
                        0 <= t < prev.len() && #[trigger] prev[t] == (k + 1, lines[k]);
                    assert(cur[t0] == (k + 1, lines[k]));
                } else {
                    assert(cur[prev.len() as int] == (k + 1, lines[k]));
                }
            }
        } else {
            assert(cur =~= prev);
        }
    }
}

/// Law: the matched pairs are exactly the matching lines. Every pair holds
/// a matching line of the block together with its 1-based position, the
/// positions increase strictly (original order, no duplicates), and every
/// matching line of the block contributes its pair.
pub proof fn lemma_matched_pairs_characterized(lines: Seq<Seq<char>>, pat: Seq<char>)
    ensures
        forall|t: int|
            0 <= t < matched_pairs(lines, pat).len() ==> {
                let p = #[trigger] matched_pairs(lines, pat)[t];
                &&& 1 <= p.0 <= lines.len()
                &&& p.1 == lines[p.0 - 1]
                &&& is_match(p.1, pat)
            },
        forall|t1: int, t2: int|
            0 <= t1 < t2 < matched_pairs(lines, pat).len() ==> #[trigger] matched_pairs(
                lines,
                pat,
            )[t1].0 < #[trigger] matched_pairs(lines, pat)[t2].0,
        forall|k: int|
            0 <= k < lines.len() && is_match(#[trigger] lines[k], pat) ==> exists|t: int|
                0 <= t < matched_pairs(lines, pat).len() && #[trigger] matched_pairs(lines, pat)[t]
                    == (k + 1, lines[k]),
{
    let n = lines.len() as int;
    lemma_pairs_upto_characterized(lines, pat, n);
    assert forall|k: int| 0 <= k < lines.len() && is_match(#[trigger] lines[k], pat) implies exists|
        t: int,
    | 0 <= t < matched_pairs(lines, pat).len() && #[trigger] matched_pairs(lines, pat)[t] == (
    k + 1,
    lines[k],
    ) by {
        let t0 = choose|t: int|
            0 <= t < matched_pairs_upto(lines, pat, n).len() && #[trigger] matched_pairs_upto(
                lines,
                pat,
                n,
            )[t] == (k + 1, lines[k]);
        assert(matched_pairs(lines, pat)[t0] == (k + 1, lines[k]));
    }
}

/// A pattern with at least one character never matches an empty line.
pub proof fn lemma_nonempty_pattern_skips_empty_line(pat: Seq<char>)
    requires
        pat.len() > 0,
    ensures
        !is_match(Seq::<char>::empty(), pat),
{
}

proof fn lemma_split_rest_no_newline(s: Seq<char>, cur: Seq<char>, done: Seq<Seq<char>>)
    requires
        forall|i: int| 0 <= i < s.len() ==> #[trigger] s[i] != '\n',
    ensures
        split_rest(s, cur, done) == if cur.len() + s.len() == 0 {
            done
        } else {
            done.push(cur + s)
        },
    decreases s.len(),
{
    if s.len() == 0 {
        if cur.len() > 0 {
            assert(cur + s =~= cur);
        }
    } else {
        let rest = s.drop_first();
        assert(forall|i: int| 0 <= i < rest.len() ==> #[trigger] rest[i] != '\n');
        lemma_split_rest_no_newline(rest, cur.push(s[0]), done);
        assert(cur.push(s[0]) + rest =~= cur + s);
    }
}

/// A single line without newline characters splits into itself, and an
/// empty one into no lines at all.
pub proof fn lemma_split_single_line(line: Seq<char>)
    requires
        forall|i: int| 0 <= i < line.len() ==> #[trigger] line[i] != '\n',
    ensures
        split_lines(line) == if line.len() == 0 {
            Seq::<Seq<char>>::empty()
        } else {
            seq![line]
        },
{
    lemma_split_rest_no_newline(line, Seq::empty(), Seq::empty());
    if line.len() > 0 {
        assert(Seq::<char>::empty() + line =~= line);
        assert(Seq::<Seq<char>>::empty().push(Seq::<char>::empty() + line) =~= seq![line]);
    }
}

/// The records emitted by handing the first `n` of `lines` one at a time
/// to the block matcher, each under its 1-based position as the number.
pub open spec fn per_line_records(lines: Seq<Seq<char>>, pat: Seq<char>, n: int) -> Seq<char>
    decreases n,
{
    if n <= 0 {
        Seq::empty()
    } else {
        per_line_records(lines, pat, n - 1) + block_records(split_lines(lines[n - 1]), n, pat)
    }
}

/// Law: feeding newline-free lines one at a time to the block matcher,
/// each under its 1-based position, emits the same text as one numbered
/// run over all of them — provided the pattern is non-empty, so that an
/// empty line cannot match.
pub proof fn lemma_line_by_line_is_numbered_run(lines: Seq<Seq<char>>, pat: Seq<char>, n: int)
    requires
        pat.len() > 0,
        0 <= n <= lines.len(),
        forall|k: int, i: int|
            0 <= k < lines.len() && 0 <= i < lines[k].len() ==> #[trigger] lines[k][i] != '\n',
    ensures
        per_line_records(lines, pat, n) == numbered_records_upto(lines, pat, n),
    decreases n,
{
    if n > 0 {
        lemma_line_by_line_is_numbered_run(lines, pat, n - 1);
        let line = lines[n - 1];
        assert(forall|i: int| 0 <= i < line.len() ==> #[trigger] line[i] != '\n');
        lemma_split_single_line(line);
        if line.len() == 0 {
            lemma_nonempty_pattern_skips_empty_line(pat);
            assert(per_line_records(lines, pat, n) =~= numbered_records_upto(lines, pat, n));
        } else {
            let single = seq![line];
            assert(single[0] == line);
            assert(block_records(single, n, pat) == block_records_upto(single, n, pat, 1));
            assert(block_records_upto(single, n, pat, 0) == Seq::<char>::empty());
            if is_match(line, pat) {
                assert(block_records(single, n, pat) =~= record_chars(n, line));
            } else {
                assert(block_records(single, n, pat) =~= Seq::<char>::empty());
            }
            assert(per_line_records(lines, pat, n) =~= numbered_records_upto(lines, pat, n));
        }
    }
}

} // verus!
