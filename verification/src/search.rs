//! Substring containment over character sequences.

use vstd::prelude::*;

verus! {

/// `pat` occurs in `line` as a contiguous substring.
///
/// The empty pattern occurs in every line (at position 0).
pub open spec fn is_match(line: Seq<char>, pat: Seq<char>) -> bool {
    exists|k: int|
        0 <= k <= line.len() - pat.len() && #[trigger] line.subrange(k, k + pat.len() as int)
            == pat
}

/// Every line contains the empty pattern: matching against `""` accepts
/// every line, by design; rejecting an empty pattern is the caller's
/// concern, not the matcher's.
pub proof fn lemma_empty_pattern_matches(line: Seq<char>)
    ensures
        is_match(line, Seq::<char>::empty()),
{
    let empty = Seq::<char>::empty();
    assert(line.subrange(0, 0 + empty.len() as int) =~= empty);
}

fn matches_at(line: &Vec<char>, pat: &Vec<char>, k: usize) -> (r: bool)
    requires
        k + pat@.len() <= line@.len(),
    ensures
        r == (line@.subrange(k as int, k as int + pat@.len() as int) == pat@),
{
    let mut j: usize = 0;
    while j < pat.len()
        invariant
            k + pat@.len() <= line@.len(),
            j <= pat@.len(),
            forall|m: int| 0 <= m < j ==> line@[k + m] == pat@[m],
        decreases pat@.len() - j,
    {
        proof {
            assert(k + j < line.len());
        }
        if line[k + j] != pat[j] {
            proof {
                assert(line@.subrange(k as int, k as int + pat@.len() as int)[j as int] == line@[k
                    + j]);
            }
            return false;
        }
        j = j + 1;
    }
    proof {
        assert(line@.subrange(k as int, k as int + pat@.len() as int) =~= pat@);
    }
    true
}

/// Whether `line` contains `pat` as a contiguous substring.
pub fn contains_pattern(line: &Vec<char>, pat: &Vec<char>) -> (r: bool)
    ensures
        r == is_match(line@, pat@),
{
    if pat.len() > line.len() {
        return false;
    }
    let end: usize = line.len() - pat.len();
    let mut k: usize = 0;
    loop
        invariant
            pat@.len() <= line@.len(),
            end == line@.len() - pat@.len(),
            k <= end,
            forall|j: int|
                0 <= j < k ==> #[trigger] line@.subrange(j, j + pat@.len() as int) != pat@,
        decreases end - k,
    {
        if matches_at(line, pat, k) {
            return true;
        }
        if k == end {
            proof {
                assert(forall|j: int|
                    0 <= j <= end ==> #[trigger] line@.subrange(j, j + pat@.len() as int) != pat@);
            }
            return false;
        }
        k = k + 1;
    }
}

} // verus!
