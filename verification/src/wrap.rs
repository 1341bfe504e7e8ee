//! Wrapping free text to a budget of bytes per line.
//!
//! A text is taken line by line. A line that is too long is broken at the
//! last white space whose position still lies within the budget; where
//! there is none, behind the first white space of the line; where the line
//! has no white space at all, it stays whole. Widths are counted in bytes
//! of the UTF-8 encoding.

use crate::text::{char_is_whitespace, chars_of, is_whitespace, push_char, push_range};
use vstd::prelude::*;
use vstd::string::*;

verus! {

/// The number of bytes that a character takes in UTF-8.
pub open spec fn char_width(c: char) -> nat {
    if (c as u32) < 0x80 {
        1
    } else if (c as u32) < 0x800 {
        2
    } else if (c as u32) < 0x1_0000 {
        3
    } else {
        4
    }
}

/// The number of bytes that a text takes in UTF-8.
pub open spec fn byte_len(s: Seq<char>) -> nat
    decreases s.len(),
{
    if s.len() == 0 {
        0
    } else {
        byte_len(s.drop_last()) + char_width(s.last())
    }
}

/// Whether trimming removes the character: any white space, or, where
/// `blank_only` is set, a space or a tab.
pub open spec fn trims(c: char, blank_only: bool) -> bool {
    if blank_only {
        c == ' ' || c == '\t'
    } else {
        is_whitespace(c)
    }
}

/// The text without the characters at its start that trimming removes.
pub open spec fn trim_start(s: Seq<char>, blank_only: bool) -> Seq<char>
    decreases s.len(),
{
    if s.len() > 0 && trims(s[0], blank_only) {
        trim_start(s.drop_first(), blank_only)
    } else {
        s
    }
}

/// The text without the characters at its end that trimming removes.
pub open spec fn trim_end(s: Seq<char>, blank_only: bool) -> Seq<char>
    decreases s.len(),
{
    if s.len() > 0 && trims(s.last(), blank_only) {
        trim_end(s.drop_last(), blank_only)
    } else {
        s
    }
}

/// Whether a line may be broken before the character at `j`: it is white
/// space, and the bytes before it are within the budget.
pub open spec fn is_break(t: Seq<char>, cap: nat, j: int) -> bool {
    0 <= j < t.len() && is_whitespace(t[j]) && byte_len(t.take(j)) <= cap
}

/// The last position under `below` at which the line may be broken.
pub open spec fn last_break(t: Seq<char>, cap: nat, below: int) -> Option<int>
    decreases below,
{
    if below <= 0 {
        None
    } else if is_break(t, cap, below - 1) {
        Some(below - 1)
    } else {
        last_break(t, cap, below - 1)
    }
}

/// The position of the first white space at or behind `from`.
pub open spec fn first_whitespace(t: Seq<char>, from: int) -> Option<int>
    decreases t.len() - from,
{
    if from < 0 || from >= t.len() {
        None
    } else if is_whitespace(t[from]) {
        Some(from)
    } else {
        first_whitespace(t, from + 1)
    }
}

/// The position of the first line feed at or behind `from`.
pub open spec fn next_newline(t: Seq<char>, from: int) -> Option<int>
    decreases t.len() - from,
{
    if from < 0 || from >= t.len() {
        None
    } else if t[from] == '\n' {
        Some(from)
    } else {
        next_newline(t, from + 1)
    }
}

/// One line of input, wrapped: the pieces in order, each closed by a line
/// feed. A line that only fits once its leading white space is gone is
/// followed by an empty piece.
pub open spec fn unfold_line(line: Seq<char>, max: nat) -> Seq<char>
    decreases line.len(),
    via unfold_line_decreases
{
    if byte_len(line) <= max {
        line.push('\n')
    } else {
        let t = trim_start(line, false);
        if byte_len(t) <= max {
            trim_end(t, true).push('\n').push('\n')
        } else {
            match last_break(t, max, t.len() as int) {
                Some(j) => trim_end(t.take(j), true).push('\n') + unfold_line(
                    trim_start(t.skip(j), true),
                    max,
                ),
                None => match first_whitespace(t, 0) {
                    Some(k) => t.take(k + 1).push('\n') + unfold_line(
                        trim_end(t.skip(k + 1), true),
                        max,
                    ),
                    None => t.push('\n'),
                },
            }
        }
    }
}

/// The wrapped lines of the part of `text` that starts at `from`.
pub open spec fn wrapped_from(text: Seq<char>, max: nat, from: int) -> Seq<char>
    decreases text.len() - from,
    via wrapped_from_decreases
{
    if from < 0 || from > text.len() {
        Seq::empty()
    } else {
        match next_newline(text, from) {
            None => unfold_line(text.subrange(from, text.len() as int), max),
            Some(i) => unfold_line(text.subrange(from, i), max) + wrapped_from(text, max, i + 1),
        }
    }
}

/// The text wrapped to `max` bytes per line: every line of the input is
/// wrapped by itself, and every piece is closed by a line feed.
pub open spec fn wrapped(text: Seq<char>, max: nat) -> Seq<char> {
    wrapped_from(text, max, 0)
}

/// The lines of `text` from `from` on, each between `prefix` and a line feed.
pub open spec fn prefixed_lines_from(text: Seq<char>, prefix: Seq<char>, from: int) -> Seq<char>
    decreases text.len() - from,
    via prefixed_lines_from_decreases
{
    if from < 0 || from > text.len() {
        Seq::empty()
    } else {
        match next_newline(text, from) {
            None => (prefix + text.subrange(from, text.len() as int)).push('\n'),
            Some(i) => (prefix + text.subrange(from, i)).push('\n') + prefixed_lines_from(
                text,
                prefix,
                i + 1,
            ),
        }
    }
}

/// The body of a documentation comment: the description wrapped to
/// `width`, without the white space at its end, each line behind `prefix`.
pub open spec fn comment_body(description: Seq<char>, width: nat, prefix: Seq<char>) -> Seq<char> {
    prefixed_lines_from(trim_end(wrapped(description, width), false), prefix, 0)
}

pub proof fn lemma_trim_start(s: Seq<char>, blank_only: bool)
    ensures
        trim_start(s, blank_only).len() <= s.len(),
        trim_start(s, blank_only).len() > 0 ==> !trims(trim_start(s, blank_only)[0], blank_only),
    decreases s.len(),
{
    if s.len() > 0 && trims(s[0], blank_only) {
        lemma_trim_start(s.drop_first(), blank_only);
    }
}

pub proof fn lemma_trim_end(s: Seq<char>, blank_only: bool)
    ensures
        trim_end(s, blank_only).len() <= s.len(),
    decreases s.len(),
{
    if s.len() > 0 && trims(s.last(), blank_only) {
        lemma_trim_end(s.drop_last(), blank_only);
    }
}

pub proof fn lemma_last_break(t: Seq<char>, cap: nat, below: int)
    ensures
        last_break(t, cap, below) matches Some(j) ==> 0 <= j < below && is_break(t, cap, j),
    decreases below,
{
    if below > 0 && !is_break(t, cap, below - 1) {
        lemma_last_break(t, cap, below - 1);
    }
}

pub proof fn lemma_first_whitespace(t: Seq<char>, from: int)
    ensures
        first_whitespace(t, from) matches Some(k) ==> from <= k < t.len() && is_whitespace(t[k]),
    decreases t.len() - from,
{
    if 0 <= from < t.len() && !is_whitespace(t[from]) {
        lemma_first_whitespace(t, from + 1);
    }
}

pub proof fn lemma_next_newline(t: Seq<char>, from: int)
    ensures
        next_newline(t, from) matches Some(i) ==> from <= i < t.len() && t[i] == '\n',
    decreases t.len() - from,
{
    if 0 <= from < t.len() && t[from] != '\n' {
        lemma_next_newline(t, from + 1);
    }
}

#[via_fn]
proof fn unfold_line_decreases(line: Seq<char>, max: nat) {
    let t = trim_start(line, false);
    lemma_trim_start(line, false);
    if byte_len(line) > max && byte_len(t) > max {
        match last_break(t, max, t.len() as int) {
            Some(j) => {
                lemma_last_break(t, max, t.len() as int);
                lemma_trim_start(t.skip(j), true);
                assert(t.len() > 0);
                assert(j != 0);
            },
            None => match first_whitespace(t, 0) {
                Some(k) => {
                    lemma_first_whitespace(t, 0);
                    lemma_trim_end(t.skip(k + 1), true);
                },
                None => {},
            },
        }
    }
}

#[via_fn]
proof fn wrapped_from_decreases(text: Seq<char>, max: nat, from: int) {
    lemma_next_newline(text, from);
}

#[via_fn]
proof fn prefixed_lines_from_decreases(text: Seq<char>, prefix: Seq<char>, from: int) {
    lemma_next_newline(text, from);
}

pub proof fn lemma_byte_len_take(s: Seq<char>, n: int)
    requires
        0 <= n <= s.len(),
    ensures
        byte_len(s.take(n)) <= byte_len(s),
    decreases s.len(),
{
    if n < s.len() {
        lemma_byte_len_take(s.drop_last(), n);
        assert(s.drop_last().take(n) =~= s.take(n));
    } else {
        assert(s.take(n) =~= s);
    }
}

proof fn lemma_no_break_beyond(t: Seq<char>, cap: nat, a: int, b: int)
    requires
        0 <= a <= b <= t.len(),
        byte_len(t.take(a)) > cap,
    ensures
        last_break(t, cap, b) == last_break(t, cap, a),
    decreases b - a,
{
    if a < b {
        lemma_byte_len_take(t.take(b - 1), a);
        assert(t.take(b - 1).take(a) =~= t.take(a));
        lemma_no_break_beyond(t, cap, a, b - 1);
    }
}

/// The number of bytes that a character takes in UTF-8.
pub fn width_of(c: char) -> (r: usize)
    ensures
        r == char_width(c),
        1 <= r <= 4,
{
    let u: u32 = c as u32;
    if u < 0x80 {
        1
    } else if u < 0x800 {
        2
    } else if u < 0x1_0000 {
        3
    } else {
        4
    }
}

fn trims_char(c: char, blank_only: bool) -> (r: bool)
    ensures
        r == trims(c, blank_only),
{
    if blank_only {
        c == ' ' || c == '\t'
    } else {
        char_is_whitespace(c)
    }
}

/// Whether `v[lo..hi]` takes at most `cap` bytes.
fn fits(v: &Vec<char>, lo: usize, hi: usize, cap: usize) -> (r: bool)
    requires
        lo <= hi <= v.len(),
    ensures
        r == (byte_len(v@.subrange(lo as int, hi as int)) <= cap),
{
    let mut used: usize = 0;
    let mut i: usize = lo;
    while i < hi
        invariant
            lo <= i <= hi <= v.len(),
            used == byte_len(v@.subrange(lo as int, i as int)),
            used <= cap,
        decreases hi - i,
    {
        let w = width_of(v[i]);
        proof {
            let next = v@.subrange(lo as int, i + 1);
            assert(next.drop_last() =~= v@.subrange(lo as int, i as int));
            let whole = v@.subrange(lo as int, hi as int);
            lemma_byte_len_take(whole, i + 1 - lo);
            assert(whole.take(i + 1 - lo) =~= next);
        }
        if w > cap - used {
            return false;
        }
        used += w;
        i += 1;
    }
    true
}

/// The start of `v[lo..hi]` once trimmed at its start.
fn skip_left(v: &Vec<char>, lo: usize, hi: usize, blank_only: bool) -> (r: usize)
    requires
        lo <= hi <= v.len(),
    ensures
        lo <= r <= hi,
        v@.subrange(r as int, hi as int) == trim_start(
            v@.subrange(lo as int, hi as int),
            blank_only,
        ),
        r < hi ==> !trims(v@[r as int], blank_only),
{
    let mut i: usize = lo;
    while i < hi && trims_char(v[i], blank_only)
        invariant
            lo <= i <= hi <= v.len(),
            trim_start(v@.subrange(i as int, hi as int), blank_only) == trim_start(
                v@.subrange(lo as int, hi as int),
                blank_only,
            ),
        decreases hi - i,
    {
        assert(v@.subrange(i as int, hi as int).drop_first() =~= v@.subrange(
            i + 1,
            hi as int,
        ));
        i += 1;
    }
    i
}

/// The end of `v[lo..hi]` once trimmed at its end.
fn skip_right(v: &Vec<char>, lo: usize, hi: usize, blank_only: bool) -> (r: usize)
    requires
        lo <= hi <= v.len(),
    ensures
        lo <= r <= hi,
        v@.subrange(lo as int, r as int) == trim_end(v@.subrange(lo as int, hi as int), blank_only),
{
    let mut i: usize = hi;
    while i > lo && trims_char(v[i - 1], blank_only)
        invariant
            lo <= i <= hi <= v.len(),
            trim_end(v@.subrange(lo as int, i as int), blank_only) == trim_end(
                v@.subrange(lo as int, hi as int),
                blank_only,
            ),
        decreases i - lo,
    {
        assert(v@.subrange(lo as int, i as int).drop_last() =~= v@.subrange(
            lo as int,
            i - 1,
        ));
        i -= 1;
    }
    i
}

/// The last position in `v[lo..hi]` at which the line may be broken.
fn find_break(v: &Vec<char>, lo: usize, hi: usize, cap: usize) -> (r: Option<usize>)
    requires
        lo <= hi <= v.len(),
    ensures
        match r {
            Some(j) => lo <= j < hi && last_break(
                v@.subrange(lo as int, hi as int),
                cap as nat,
                hi - lo,
            ) == Some(j - lo),
            None => last_break(v@.subrange(lo as int, hi as int), cap as nat, hi - lo) is None,
        },
{
    let ghost line = v@.subrange(lo as int, hi as int);
    let mut used: usize = 0;
    let mut best: Option<usize> = None;
    let mut i: usize = lo;
    while i < hi
        invariant
            lo <= i <= hi <= v.len(),
            line == v@.subrange(lo as int, hi as int),
            used == byte_len(line.take(i - lo)),
            used <= cap,
            match best {
                Some(j) => lo <= j < i && last_break(line, cap as nat, i - lo) == Some(j - lo),
                None => last_break(line, cap as nat, i - lo) is None,
            },
        decreases hi - i,
    {
        if char_is_whitespace(v[i]) {
            best = Some(i);
        }
        let w = width_of(v[i]);
        proof {
            assert(line.take(i + 1 - lo).drop_last() =~= line.take(i - lo));
        }
        if w > cap - used {
            proof {
                lemma_no_break_beyond(line, cap as nat, i + 1 - lo, hi - lo);
            }
            return best;
        }
        used += w;
        i += 1;
    }
    best
}

/// The first white space in `v[lo..hi]`.
fn find_whitespace(v: &Vec<char>, lo: usize, hi: usize) -> (r: Option<usize>)
    requires
        lo <= hi <= v.len(),
    ensures
        match r {
            Some(k) => lo <= k < hi && first_whitespace(v@.subrange(lo as int, hi as int), 0)
                == Some(k - lo),
            None => first_whitespace(v@.subrange(lo as int, hi as int), 0) is None,
        },
{
    let ghost line = v@.subrange(lo as int, hi as int);
    let mut i: usize = lo;
    while i < hi
        invariant
            lo <= i <= hi <= v.len(),
            line == v@.subrange(lo as int, hi as int),
            first_whitespace(line, 0) == first_whitespace(line, i - lo),
        decreases hi - i,
    {
        if char_is_whitespace(v[i]) {
            return Some(i);
        }
        i += 1;
    }
    None
}

/// The first line feed in `v[lo..hi]`.
fn find_newline(v: &Vec<char>, lo: usize, hi: usize) -> (r: Option<usize>)
    requires
        lo <= hi <= v.len(),
    ensures
        match r {
            Some(k) => lo <= k < hi && next_newline(v@.take(hi as int), lo as int) == Some(
                k as int,
            ),
            None => next_newline(v@.take(hi as int), lo as int) is None,
        },
{
    let mut i: usize = lo;
    while i < hi
        invariant
            lo <= i <= hi <= v.len(),
            next_newline(v@.take(hi as int), lo as int) == next_newline(
                v@.take(hi as int),
                i as int,
            ),
        decreases hi - i,
    {
        if v[i] == '\n' {
            return Some(i);
        }
        i += 1;
    }
    None
}

/// Appends the first wrapped piece of the line `v[a..b]` to `out` and
/// says which part of the line is left to wrap, if any.
fn unfold_step(out: &mut String, v: &Vec<char>, a: usize, b: usize, max: usize) -> (r: Option<
    (usize, usize),
>)
    requires
        a <= b <= v.len(),
    ensures
        match r {
            None => final(out)@ == old(out)@ + unfold_line(
                v@.subrange(a as int, b as int),
                max as nat,
            ),
            Some((a2, b2)) => a < a2 <= b2 <= b && old(out)@ + unfold_line(
                v@.subrange(a as int, b as int),
                max as nat,
            ) == final(out)@ + unfold_line(v@.subrange(a2 as int, b2 as int), max as nat),
        },
{
    let ghost line = v@.subrange(a as int, b as int);
    let ghost before = out@;
    if fits(v, a, b, max) {
        push_range(out, v, a, b);
        push_char(out, '\n');
        assert(out@ =~= before + line.push('\n'));
        return None;
    }
    let t = skip_left(v, a, b, false);
    let ghost trimmed = v@.subrange(t as int, b as int);
    if fits(v, t, b, max) {
        let e = skip_right(v, t, b, true);
        push_range(out, v, t, e);
        push_char(out, '\n');
        push_char(out, '\n');
        assert(out@ =~= before + trim_end(trimmed, true).push('\n').push('\n'));
        return None;
    }
    match find_break(v, t, b, max) {
        Some(j) => {
            let e = skip_right(v, t, j, true);
            push_range(out, v, t, e);
            push_char(out, '\n');
            let next = skip_left(v, j, b, true);
            proof {
                assert(trimmed.take(j - t) =~= v@.subrange(t as int, j as int));
                assert(trimmed.skip(j - t) =~= v@.subrange(j as int, b as int));
                lemma_last_break(trimmed, max as nat, trimmed.len() as int);
                assert(j > t);
                let piece = trim_end(trimmed.take(j - t), true).push('\n');
                let rest = unfold_line(trim_start(trimmed.skip(j - t), true), max as nat);
                assert(unfold_line(line, max as nat) == piece + rest);
                assert(out@ =~= before + piece);
                assert(before + (piece + rest) =~= out@ + rest);
            }
            Some((next, b))
        },
        None => {
            match find_whitespace(v, t, b) {
                Some(k) => {
                    push_range(out, v, t, k + 1);
                    push_char(out, '\n');
                    let end = skip_right(v, k + 1, b, true);
                    proof {
                        assert(trimmed.take(k + 1 - t) =~= v@.subrange(t as int, k + 1));
                        assert(trimmed.skip(k + 1 - t) =~= v@.subrange(k + 1, b as int));
                        let piece = trimmed.take(k + 1 - t).push('\n');
                        let rest = unfold_line(
                            trim_end(trimmed.skip(k + 1 - t), true),
                            max as nat,
                        );
                        assert(unfold_line(line, max as nat) == piece + rest);
                        assert(out@ =~= before + piece);
                        assert(before + (piece + rest) =~= out@ + rest);
                    }
                    Some((k + 1, end))
                },
                None => {
                    push_range(out, v, t, b);
                    push_char(out, '\n');
                    assert(out@ =~= before + trimmed.push('\n'));
                    None
                },
            }
        },
    }
}

/// Appends the wrapped pieces of the line `v[lo..hi]` to `out`.
fn unfold_into(out: &mut String, v: &Vec<char>, lo: usize, hi: usize, max: usize)
    requires
        lo <= hi <= v.len(),
    ensures
        final(out)@ == old(out)@ + unfold_line(v@.subrange(lo as int, hi as int), max as nat),
{
    let ghost goal = old(out)@ + unfold_line(v@.subrange(lo as int, hi as int), max as nat);
    let mut a: usize = lo;
    let mut b: usize = hi;
    loop
        invariant_except_break
            goal == out@ + unfold_line(v@.subrange(a as int, b as int), max as nat),
        invariant
            lo <= a <= b <= hi <= v.len(),
        ensures
            out@ == goal,
        decreases b - a,
    {
        match unfold_step(out, v, a, b, max) {
            None => {
                break;
            },
            Some((a2, b2)) => {
                a = a2;
                b = b2;
            },
        }
    }
}

/// Wraps `text` to lines of at most `max_line_length` bytes where white
/// space allows it. Every line of the result ends with a line feed.
pub fn wrap_comment(text: &str, max_line_length: usize) -> (r: String)
    ensures
        r@ == wrapped(text@, max_line_length as nat),
{
    let v = chars_of(text);
    let mut out = String::new();
    let mut start: usize = 0;
    loop
        invariant_except_break
            wrapped(text@, max_line_length as nat) == out@ + wrapped_from(
                v@,
                max_line_length as nat,
                start as int,
            ),
        invariant
            start <= v.len(),
            v@ == text@,
        ensures
            out@ == wrapped(text@, max_line_length as nat),
        decreases v.len() - start,
    {
        assert(v@.take(v.len() as int) =~= v@);
        match find_newline(&v, start, v.len()) {
            None => {
                unfold_into(&mut out, &v, start, v.len(), max_line_length);
                break;
            },
            Some(i) => {
                unfold_into(&mut out, &v, start, i, max_line_length);
                assert(wrapped(text@, max_line_length as nat) =~= out@ + wrapped_from(
                    v@,
                    max_line_length as nat,
                    i + 1,
                ));
                start = i + 1;
            },
        }
    }
    out
}

/// Appends the body of a documentation comment to `out`: the description
/// wrapped to `width`, each line behind `prefix`.
pub fn push_comment_body(out: &mut String, description: &str, width: usize, prefix: &str)
    ensures
        final(out)@ == old(out)@ + comment_body(description@, width as nat, prefix@),
{
    let comment = wrap_comment(description, width);
    let v = chars_of(comment.as_str());
    let end = skip_right(&v, 0, v.len(), false);
    assert(v@.subrange(0, v.len() as int) =~= v@);
    assert(v@.subrange(0, end as int) =~= v@.take(end as int));
    let ghost text = v@.take(end as int);
    let ghost goal = old(out)@ + comment_body(description@, width as nat, prefix@);
    let mut start: usize = 0;
    loop
        invariant_except_break
            goal == out@ + prefixed_lines_from(text, prefix@, start as int),
        invariant
            start <= end <= v.len(),
            text == v@.take(end as int),
        ensures
            out@ == goal,
        decreases end - start,
    {
        let ghost before = out@;
        out.append(prefix);
        match find_newline(&v, start, end) {
            None => {
                push_range(out, &v, start, end);
                push_char(out, '\n');
                assert(text.subrange(start as int, text.len() as int) =~= v@.subrange(
                    start as int,
                    end as int,
                ));
                assert(out@ =~= before + (prefix@ + v@.subrange(start as int, end as int)).push(
                    '\n',
                ));
                break;
            },
            Some(i) => {
                push_range(out, &v, start, i);
                push_char(out, '\n');
                assert(text.subrange(start as int, i as int) =~= v@.subrange(
                    start as int,
                    i as int,
                ));
                assert(out@ =~= before + (prefix@ + v@.subrange(start as int, i as int)).push(
                    '\n',
                ));
                assert(goal =~= out@ + prefixed_lines_from(text, prefix@, i + 1));
                start = i + 1;
            },
        }
    }
}

} // verus!
