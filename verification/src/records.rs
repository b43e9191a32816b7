//! Match records and their rendering.
//!
//! A match is reported as the record `LINE# {number}: {line}` followed by
//! a newline.

use crate::digits::{dec_chars, int_chars};
use crate::digits::{i32_to_chars, usize_to_chars};
use crate::search::is_match;
use vstd::prelude::*;

verus! {

/// The record emitted for line `line` with line number `num`:
/// `LINE# {num}: {line}` and a terminating newline.
pub open spec fn record_chars(num: int, line: Seq<char>) -> Seq<char> {
    seq!['L', 'I', 'N', 'E', '#', ' '] + int_chars(num) + seq![':', ' '] + line + seq!['\n']
}

/// The records for the lines of one text block that contain `pat`, all
/// carrying the same number `num`, in the order the lines appear; `n`
/// limits the count of lines considered.
pub open spec fn block_records_upto(lines: Seq<Seq<char>>, num: int, pat: Seq<char>, n: int) -> Seq<
    char,
>
    decreases n,
{
    if n <= 0 {
        Seq::empty()
    } else {
        block_records_upto(lines, num, pat, n - 1) + if is_match(lines[n - 1], pat) {
            record_chars(num, lines[n - 1])
        } else {
            Seq::empty()
        }
    }
}

/// The records for the lines of one text block that contain `pat`, all
/// carrying the same number `num`, in the order the lines appear.
pub open spec fn block_records(lines: Seq<Seq<char>>, num: int, pat: Seq<char>) -> Seq<char> {
    block_records_upto(lines, num, pat, lines.len() as int)
}

/// The records for the lines among the first `n` of `lines` that contain
/// `pat`, each numbered by its 1-based position.
pub open spec fn numbered_records_upto(lines: Seq<Seq<char>>, pat: Seq<char>, n: int) -> Seq<char>
    decreases n,
{
    if n <= 0 {
        Seq::empty()
    } else {
        numbered_records_upto(lines, pat, n - 1) + if is_match(lines[n - 1], pat) {
            record_chars(n, lines[n - 1])
        } else {
            Seq::empty()
        }
    }
}

/// The records for the lines of `lines` that contain `pat`, each numbered
/// by its 1-based position, in the order the lines appear.
pub open spec fn numbered_records(lines: Seq<Seq<char>>, pat: Seq<char>) -> Seq<char> {
    numbered_records_upto(lines, pat, lines.len() as int)
}

/// Appends all characters of `src` to `dst`.
pub fn push_all(dst: &mut Vec<char>, src: &Vec<char>)
    ensures
        final (dst)@ == old(dst)@ + src@,
{
    let mut i: usize = 0;
    proof {
        assert(dst@ =~= old(dst)@ + src@.subrange(0, 0));
    }
    while i < src.len()
        invariant
            i <= src@.len(),
            dst@ == old(dst)@ + src@.subrange(0, i as int),
        decreases src@.len() - i,
    {
        dst.push(src[i]);
        i = i + 1;
        proof {
            assert(dst@ =~= old(dst)@ + src@.subrange(0, i as int));
        }
    }
    proof {
        assert(dst@ =~= old(dst)@ + src@);
    }
}

fn render_with_digits(digits: &Vec<char>, line: &Vec<char>) -> (v: Vec<char>)
    ensures
        v@ == seq!['L', 'I', 'N', 'E', '#', ' '] + digits@ + seq![':', ' '] + line@ + seq!['\n'],
{
    let mut v: Vec<char> = Vec::new();
    v.push('L');
    v.push('I');
    v.push('N');
    v.push('E');
    v.push('#');
    v.push(' ');
    push_all(&mut v, digits);
    v.push(':');
    v.push(' ');
    push_all(&mut v, line);
    v.push('\n');
    proof {
        assert(v@ =~= seq!['L', 'I', 'N', 'E', '#', ' '] + digits@ + seq![':', ' '] + line@ + seq![
            '\n',
        ]);
    }
    v
}

/// The record for `line` numbered `num`, as characters.
pub fn render_record(num: &i32, line: &Vec<char>) -> (v: Vec<char>)
    ensures
        v@ == record_chars(*num as int, line@),
{
    let digits = i32_to_chars(num);
    let v = render_with_digits(&digits, line);
    proof {
        assert(v@ =~= record_chars(*num as int, line@));
    }
    v
}

/// The record for `line` numbered by the 1-based position `num`, as
/// characters.
pub fn render_record_at(num: usize, line: &Vec<char>) -> (v: Vec<char>)
    ensures
        v@ == record_chars(num as int, line@),
{
    let digits = usize_to_chars(num);
    proof {
        assert(int_chars(num as int) == dec_chars(num as nat));
    }
    let v = render_with_digits(&digits, line);
    proof {
        assert(v@ =~= record_chars(num as int, line@));
    }
    v
}

} // verus!
