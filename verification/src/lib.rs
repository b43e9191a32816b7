//! A small line-oriented substring search library.
//!
//! Given a pattern and a block of text, the library reports every line that
//! contains the pattern as a record of the form `LINE# {number}: {line}`.
//! Matching, line splitting, number rendering and record assembly are all
//! verified; callers that do file or terminal I/O hand the library plain
//! strings and receive the rendered records back.

use vstd::prelude::*;

pub mod digits;
pub mod laws;
pub mod lines;
pub mod records;
pub mod search;
pub mod strings;

use crate::lines::{split_into_lines, split_lines};
use crate::records::{
    block_records, block_records_upto, numbered_records, numbered_records_upto, render_record,
    render_record_at, push_all,
};
use crate::search::contains_pattern;
use crate::strings::{chars_to_string, str_to_chars};
use vstd::string::StringExecFns;

verus! {

/// The Unicode White_Space property: the characters that white-space
/// trimming removes. The set is U+0009..U+000D and U+0020 in ASCII, and
/// NEL, NBSP, OGHAM SPACE MARK, the EN QUAD..HAIR SPACE range, LINE and
/// PARAGRAPH SEPARATOR, NARROW NBSP, MMSP and IDEOGRAPHIC SPACE beyond it.
pub open spec fn is_space_char(c: char) -> bool {
    let u = c as u32;
    (0x09 <= u && u <= 0x0D) || u == 0x20 || u == 0x85 || u == 0xA0 || u == 0x1680 || (0x2000 <= u
        && u <= 0x200A) || u == 0x2028 || u == 0x2029 || u == 0x202F || u == 0x205F || u == 0x3000
}

/// Whether `c` has the Unicode White_Space property.
pub fn is_whitespace_char(c: char) -> (r: bool)
    ensures
        r == is_space_char(c),
{
    let u = c as u32;
    (0x09 <= u && u <= 0x0D) || u == 0x20 || u == 0x85 || u == 0xA0 || u == 0x1680 || (0x2000 <= u
        && u <= 0x200A) || u == 0x2028 || u == 0x2029 || u == 0x202F || u == 0x205F || u == 0x3000
}

/// A pattern that is empty or holds only white space; such a pattern is
/// rejected before any searching happens.
pub open spec fn blank_pattern(p: Seq<char>) -> bool {
    forall|i: int| 0 <= i < p.len() ==> is_space_char(#[trigger] p[i])
}

/// Whether `pattern` is empty or holds only white space.
pub fn is_blank_pattern(pattern: &str) -> (r: bool)
    ensures
        r == blank_pattern(pattern@),
{
    let ps = str_to_chars(pattern);
    let mut i: usize = 0;
    while i < ps.len()
        invariant
            ps@ == pattern@,
            i <= ps@.len(),
            forall|j: int| 0 <= j < i ==> is_space_char(#[trigger] ps@[j]),
        decreases ps@.len() - i,
    {
        if !is_whitespace_char(ps[i]) {
            return false;
        }
        i = i + 1;
    }
    true
}

/// The error a search can report.
#[derive(Clone, Copy, Debug, PartialEq, Eq, Structural)]
pub enum SearchError {
    /// The pattern was empty or held only white space.
    EmptyPattern,
}

/// Appends to `writer` one record `LINE# {num}: {line}` for every line of
/// `content` that contains `pattern` as a substring. All records carry the
/// same number `num`: the caller supplies the position of the block within
/// its input.
///
/// An empty pattern is contained in every line, so it makes every line of
/// the block match; rejecting such a pattern is the caller's concern.
pub fn print_matches(content: &str, num: &i32, pattern: &str, writer: &mut String)
    ensures
        final (writer)@ == old(writer)@ + block_records(
            split_lines(content@),
            *num as int,
            pattern@,
        ),
{
    let cs = str_to_chars(content);
    let ps = str_to_chars(pattern);
    let lines = split_into_lines(&cs);
    let ghost lv = lines.deep_view();
    let mut out: Vec<char> = Vec::new();
    let mut i: usize = 0;
    proof {
        assert(out@ =~= block_records_upto(lv, *num as int, ps@, 0));
    }
    while i < lines.len()
        invariant
            lv == lines.deep_view(),
            ps@ == pattern@,
            i <= lines@.len(),
            lines@.len() == lv.len(),
            out@ == block_records_upto(lv, *num as int, ps@, i as int),
        decreases lines@.len() - i,
    {
        let line = &lines[i];
        proof {
            assert(lv[i as int] == lines@[i as int].deep_view());
            assert(lines@[i as int].deep_view() =~= line@);
        }
        if contains_pattern(line, &ps) {
            let rec = render_record(num, line);
            push_all(&mut out, &rec);
        }
        i = i + 1;
        proof {
            assert(out@ =~= block_records_upto(lv, *num as int, ps@, i as int));
        }
    }
    let s = chars_to_string(&out);
    writer.append(s.as_str());
}

/// Searches `content` for `pattern` and returns the rendered records, one
/// per matching line, each numbered by the line's 1-based position within
/// `content`.
///
/// A pattern that is empty or all white space is rejected with
/// [`SearchError::EmptyPattern`]; every other pattern succeeds.
pub fn find_matches(content: &str, pattern: &str) -> (result: Result<String, SearchError>)
    ensures
        blank_pattern(pattern@) <==> result is Err,
        result matches Ok(out) ==> out@ == numbered_records(split_lines(content@), pattern@),
        result matches Err(e) ==> e == SearchError::EmptyPattern,
{
    if is_blank_pattern(pattern) {
        return Err(SearchError::EmptyPattern);
    }
    let cs = str_to_chars(content);
    let ps = str_to_chars(pattern);
    let lines = split_into_lines(&cs);
    let ghost lv = lines.deep_view();
    let mut out: Vec<char> = Vec::new();
    let mut i: usize = 0;
    proof {
        assert(out@ =~= numbered_records_upto(lv, ps@, 0));
    }
    while i < lines.len()
        invariant
            lv == lines.deep_view(),
            ps@ == pattern@,
            i <= lines@.len(),
            lines@.len() == lv.len(),
            out@ == numbered_records_upto(lv, ps@, i as int),
        decreases lines@.len() - i,
    {
        let line = &lines[i];
        proof {
            assert(lv[i as int] == lines@[i as int].deep_view());
            assert(lines@[i as int].deep_view() =~= line@);
        }
        if contains_pattern(line, &ps) {
            let rec = render_record_at(i + 1, line);
            push_all(&mut out, &rec);
        }
        i = i + 1;
        proof {
            assert(out@ =~= numbered_records_upto(lv, ps@, i as int));
        }
    }
    Ok(chars_to_string(&out))
}

} // verus!
