//! Splitting a block of text into lines.
//!
//! A line ends at `'\n'`; a carriage return directly before the `'\n'` is
//! not part of the line. The final line ending is optional: text after the
//! last `'\n'` forms one more line if it is non-empty, and a block that
//! ends with `'\n'` yields the same lines as one that does not.

use vstd::prelude::*;

verus! {

/// `line` without a trailing carriage return, if it has one.
pub open spec fn strip_cr(line: Seq<char>) -> Seq<char> {
    if line.len() > 0 && line.last() == '\r' {
        line.drop_last()
    } else {
        line
    }
}

/// The lines of `done` followed by the lines of `s`, where `cur` holds the
/// characters of the line in progress.
pub open spec fn split_rest(s: Seq<char>, cur: Seq<char>, done: Seq<Seq<char>>) -> Seq<Seq<char>>
    decreases s.len(),
{
    if s.len() == 0 {
        if cur.len() == 0 {
            done
        } else {
            done.push(cur)
        }
    } else if s[0] == '\n' {
        split_rest(s.drop_first(), Seq::empty(), done.push(strip_cr(cur)))
    } else {
        split_rest(s.drop_first(), cur.push(s[0]), done)
    }
}

/// The lines of `s`.
pub open spec fn split_lines(s: Seq<char>) -> Seq<Seq<char>> {
    split_rest(s, Seq::empty(), Seq::empty())
}

proof fn lemma_split_rest_len(s: Seq<char>, cur: Seq<char>, done: Seq<Seq<char>>)
    ensures
        split_rest(s, cur, done).len() <= done.len() + s.len() + if cur.len() > 0 {
            1int
        } else {
            0int
        },
    decreases s.len(),
{
    if s.len() > 0 {
        if s[0] == '\n' {
            lemma_split_rest_len(s.drop_first(), Seq::empty(), done.push(strip_cr(cur)));
        } else {
            lemma_split_rest_len(s.drop_first(), cur.push(s[0]), done);
        }
    }
}

/// A block never has more lines than characters.
pub proof fn lemma_split_lines_len(s: Seq<char>)
    ensures
        split_lines(s).len() <= s.len(),
{
    lemma_split_rest_len(s, Seq::empty(), Seq::empty());
}

proof fn lemma_deep_view_push(v: Vec<Vec<char>>, pre: Vec<Vec<char>>, x: Vec<char>)
    requires
        v@ == pre@.push(x),
    ensures
        v.deep_view() == pre.deep_view().push(x@),
{
    assert(x.deep_view() =~= x@);
    assert forall|k: int| 0 <= k < v.deep_view().len() implies v.deep_view()[k]
        == pre.deep_view().push(x@)[k] by {
        if k < pre@.len() {
            assert(v@[k] == pre@[k]);
        } else {
            assert(v@[k] == x);
        }
    }
    assert(v.deep_view() =~= pre.deep_view().push(x@));
}

/// The lines of `content`, as character vectors.
pub fn split_into_lines(content: &Vec<char>) -> (lines: Vec<Vec<char>>)
    ensures
        lines.deep_view() == split_lines(content@),
        lines@.len() <= content@.len(),
{
    let n: usize = content.len();
    let mut done: Vec<Vec<char>> = Vec::new();
    let mut cur: Vec<char> = Vec::new();
    let mut i: usize = 0;
    proof {
        assert(content@.skip(0) =~= content@);
        assert(done.deep_view() =~= Seq::<Seq<char>>::empty());
    }
    while i < n
        invariant
            n == content@.len(),
            i <= n,
            split_rest(content@.skip(i as int), cur@, done.deep_view()) == split_lines(content@),
        decreases n - i,
    {
        let ghost rest0 = content@.skip(i as int);
        let ghost done0 = done.deep_view();
        let ghost cur0 = cur@;
        let c = content[i];
        proof {
            assert(rest0[0] == content@[i as int]);
            assert(rest0.drop_first() =~= content@.skip(i + 1 as int));
        }
        if c == '\n' {
            let mut line = cur;
            cur = Vec::new();
            if line.len() > 0 && line[line.len() - 1] == '\r' {
                line.pop();
            }
            proof {
                assert(line@ == strip_cr(cur0));
            }
            let ghost pre = done;
            done.push(line);
            proof {
                lemma_deep_view_push(done, pre, line);
                assert(done.deep_view() == done0.push(strip_cr(cur0)));
            }
        } else {
            cur.push(c);
        }
        i = i + 1;
    }
    proof {
        assert(content@.skip(n as int) =~= Seq::<char>::empty());
    }
    if cur.len() > 0 {
        let ghost pre = done;
        let ghost curv = cur;
        done.push(cur);
        proof {
            lemma_deep_view_push(done, pre, curv);
        }
    }
    proof {
        lemma_split_lines_len(content@);
    }
    done
}

} // verus!
