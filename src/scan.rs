//! The block extractor: splits a brace-delimited body into statements, and
//! takes the text of a parenthesised condition.

use vstd::prelude::*;
use crate::number::{parse_i32, i32_of_text};
use crate::text::{trim_chars, trim_seq, string_of, slice_of};
use crate::token::texts;

verus! {

/// `block` with the trimmed `line` added, unless that is empty.
pub open spec fn flush(block: Seq<Seq<char>>, line: Seq<char>) -> Seq<Seq<char>> {
    if trim_seq(line).len() > 0 {
        block.push(trim_seq(line))
    } else {
        block
    }
}

/// The statements of a finished body: an empty body holds one empty
/// statement.
pub open spec fn finish(block: Seq<Seq<char>>, line: Seq<char>) -> Seq<Seq<char>> {
    let b = flush(block, line);
    if b.len() == 0 {
        seq![Seq::empty()]
    } else {
        b
    }
}

/// The scan of a body from position `i`, at brace depth `depth`, with the
/// statement `line` under way and the statements `block` done. It gives the
/// statements and the position just past the brace that closes the body
/// (or the length of `s` where none does).
///
/// A `;` at depth one ends a statement, and so does a `}` that brings the
/// depth back to one. A `;` inside a nested block does not split it: a loop,
/// conditional or block inside a body stays one statement, to be tokenized
/// whole when it runs. Line breaks, carriage returns and tabs are dropped.
pub open spec fn scan_block(
    s: Seq<char>,
    i: int,
    depth: int,
    line: Seq<char>,
    block: Seq<Seq<char>>,
) -> (Seq<Seq<char>>, int)
    decreases s.len() - i,
{
    if i < 0 || i >= s.len() {
        (finish(block, line), s.len() as int)
    } else {
        let c = s[i];
        if c == '{' {
            scan_block(s, i + 1, depth + 1, line.push(c), block)
        } else if c == '}' {
            if depth <= 1 {
                (finish(block, line), i + 1)
            } else if depth == 2 {
                scan_block(s, i + 1, 1, Seq::empty(), flush(block, line.push(c)))
            } else {
                scan_block(s, i + 1, depth - 1, line.push(c), block)
            }
        } else if c == ';' && depth == 1 {
            scan_block(s, i + 1, depth, Seq::empty(), flush(block, line.push(c)))
        } else if c == '\n' || c == '\r' || c == '\t' {
            scan_block(s, i + 1, depth, line, block)
        } else {
            scan_block(s, i + 1, depth, line.push(c), block)
        }
    }
}

fn flush_line(block: &mut Vec<String>, line: &Vec<char>)
    ensures
        texts(final(block)@) == flush(texts(old(block)@), line@),
{
    let t = trim_chars(line.as_slice());
    if t.len() > 0 {
        block.push(string_of(t.as_slice()));
        assert(texts(block@) =~= texts(old(block)@).push(trim_seq(line@)));
    }
}

/// Splits the body that starts at `index`, just inside an opening `{`, into
/// its statements, and gives the position just past the matching `}`.
/// Where no brace closes the body, the position is the length of `chars`.
pub fn extract_block(chars: &[char], index: usize) -> (r: (Vec<String>, usize))
    ensures
        (texts(r.0@), r.1 as int) == scan_block(chars@, index as int, 1, Seq::empty(), Seq::empty()),
{
    let n = chars.len();
    let mut block: Vec<String> = Vec::new();
    let mut line: Vec<char> = Vec::new();
    // braces opened inside the body and not yet closed
    let mut nested: usize = 0;
    let mut i: usize = index;
    assert(texts(block@) =~= Seq::<Seq<char>>::empty());
    while i < n
        invariant
            n == chars@.len(),
            index <= i,
            nested <= i - index,
            scan_block(chars@, i as int, nested + 1, line@, texts(block@)) == scan_block(
                chars@,
                index as int,
                1,
                Seq::empty(),
                Seq::empty(),
            ),
        decreases n - i,
    {
        let c = chars[i];
        if c == '{' {
            nested += 1;
            line.push(c);
        } else if c == '}' {
            if nested == 0 {
                flush_line(&mut block, &line);
                if block.len() == 0 {
                    block.push(String::new());
                    assert(texts(block@) =~= seq![Seq::<char>::empty()]);
                }
                return (block, i + 1);
            } else if nested == 1 {
                line.push(c);
                flush_line(&mut block, &line);
                line = Vec::new();
                nested = 0;
            } else {
                nested -= 1;
                line.push(c);
            }
        } else if c == ';' && nested == 0 {
            line.push(c);
            flush_line(&mut block, &line);
            line = Vec::new();
        } else if c == '\n' || c == '\r' || c == '\t' {
        } else {
            line.push(c);
        }
        i += 1;
    }
    flush_line(&mut block, &line);
    if block.len() == 0 {
        block.push(String::new());
        assert(texts(block@) =~= seq![Seq::<char>::empty()]);
    }
    (block, n)
}

/// The scan of a parenthesised condition from position `i`, at depth
/// `depth`, with the text `acc` gathered: the text inside, and the position
/// of the `)` that closes it (or the length of `s` where none does).
pub open spec fn scan_paren(s: Seq<char>, i: int, depth: int, acc: Seq<char>) -> (Seq<char>, int)
    decreases s.len() - i,
{
    if i < 0 || i >= s.len() {
        (acc, s.len() as int)
    } else if s[i] == '(' {
        scan_paren(s, i + 1, depth + 1, acc.push(s[i]))
    } else if s[i] == ')' {
        if depth <= 1 {
            (acc, i)
        } else {
            scan_paren(s, i + 1, depth - 1, acc.push(s[i]))
        }
    } else {
        scan_paren(s, i + 1, depth, acc.push(s[i]))
    }
}

/// Where the scan of a condition from `i` stops: at or past `i`, within
/// the text.
pub proof fn lemma_scan_paren(s: Seq<char>, i: int, depth: int, acc: Seq<char>)
    requires
        0 <= i,
    ensures
        i <= s.len() ==> i <= scan_paren(s, i, depth, acc).1 <= s.len(),
        i > s.len() ==> scan_paren(s, i, depth, acc).1 == s.len(),
    decreases s.len() - i,
{
    if 0 <= i < s.len() {
        if s[i] == '(' {
            lemma_scan_paren(s, i + 1, depth + 1, acc.push(s[i]));
        } else if s[i] == ')' {
            if depth > 1 {
                lemma_scan_paren(s, i + 1, depth - 1, acc.push(s[i]));
            }
        } else {
            lemma_scan_paren(s, i + 1, depth, acc.push(s[i]));
        }
    }
}

/// Where the scan of a body from `i` stops: past `i`, within the text.
pub proof fn lemma_scan_block(s: Seq<char>, i: int, depth: int, line: Seq<char>, block: Seq<Seq<char>>)
    requires
        0 <= i,
    ensures
        i < s.len() ==> i < scan_block(s, i, depth, line, block).1 <= s.len(),
        i >= s.len() ==> scan_block(s, i, depth, line, block).1 == s.len(),
    decreases s.len() - i,
{
    if 0 <= i < s.len() {
        let c = s[i];
        if c == '{' {
            lemma_scan_block(s, i + 1, depth + 1, line.push(c), block);
        } else if c == '}' {
            if depth <= 1 {
            } else if depth == 2 {
                lemma_scan_block(s, i + 1, 1, Seq::empty(), flush(block, line.push(c)));
            } else {
                lemma_scan_block(s, i + 1, depth - 1, line.push(c), block);
            }
        } else if c == ';' && depth == 1 {
            lemma_scan_block(s, i + 1, depth, Seq::empty(), flush(block, line.push(c)));
        } else if c == '\n' || c == '\r' || c == '\t' {
            lemma_scan_block(s, i + 1, depth, line, block);
        } else {
            lemma_scan_block(s, i + 1, depth, line.push(c), block);
        }
    }
}

/// The condition that starts at `index`, just inside an opening `(`: the
/// text up to the matching `)`, and the position just past it (or the length
/// of `chars` where no `)` closes it).
pub open spec fn condition_at(s: Seq<char>, index: int) -> (Seq<char>, int) {
    let (text, close) = scan_paren(s, index, 1, Seq::empty());
    (text, if close < s.len() { close + 1 } else { close })
}

/// Takes the condition that starts at `index`, just inside an opening `(`:
/// the raw text up to the matching `)`, and the position just past it.
pub fn extract_condition(chars: &[char], index: usize) -> (r: (String, usize))
    ensures
        (r.0@, r.1 as int) == condition_at(chars@, index as int),
{
    let n = chars.len();
    let mut acc: Vec<char> = Vec::new();
    let mut nested: usize = 0;
    let mut i: usize = index;
    while i < n
        invariant
            n == chars@.len(),
            index <= i,
            nested <= i - index,
            scan_paren(chars@, i as int, nested + 1, acc@) == scan_paren(
                chars@,
                index as int,
                1,
                Seq::empty(),
            ),
        decreases n - i,
    {
        let c = chars[i];
        if c == '(' {
            nested += 1;
        } else if c == ')' {
            if nested == 0 {
                return (string_of(acc.as_slice()), i + 1);
            }
            nested -= 1;
        }
        acc.push(c);
        i += 1;
    }
    (string_of(acc.as_slice()), n)
}

/// Position of the first `c` in `s`, or the length of `s`.
pub open spec fn find_char(s: Seq<char>, c: char) -> int
    decreases s.len(),
{
    if s.len() == 0 {
        0
    } else if s[0] == c {
        0
    } else {
        1 + find_char(s.drop_first(), c)
    }
}

/// Position of the first `..` in `s`, or the length of `s`.
pub open spec fn find_range_dots(s: Seq<char>) -> int
    decreases s.len(),
{
    if s.len() < 2 {
        s.len() as int
    } else if s[0] == '.' && s[1] == '.' {
        0
    } else {
        1 + find_range_dots(s.drop_first())
    }
}

/// The `i32` that `s` spells once trimmed, or zero.
pub open spec fn bound_of(s: Seq<char>) -> i32 {
    match i32_of_text(trim_seq(s)) {
        Some(v) => v,
        None => 0,
    }
}

/// What `variable, start..end` declares: the trimmed variable name, and the
/// two bounds, each zero where it is no integer.
pub open spec fn for_header(text: Seq<char>) -> (Seq<char>, (i32, i32)) {
    let comma = find_char(text, ',');
    let var = trim_seq(text.subrange(0, comma));
    if comma >= text.len() {
        (var, (0, 0))
    } else {
        let range = text.subrange(comma + 1, text.len() as int);
        let dots = find_range_dots(range);
        if dots >= range.len() {
            (var, (bound_of(range), 0))
        } else {
            (var, (bound_of(range.subrange(0, dots)), bound_of(range.subrange(dots + 2, range.len() as int))))
        }
    }
}

pub proof fn lemma_find_char_le(s: Seq<char>, c: char)
    ensures
        0 <= find_char(s, c) <= s.len(),
    decreases s.len(),
{
    if s.len() > 0 {
        lemma_find_char_le(s.drop_first(), c);
    }
}

proof fn lemma_find_dots_le(s: Seq<char>)
    ensures
        0 <= find_range_dots(s) <= s.len(),
        find_range_dots(s) < s.len() ==> find_range_dots(s) + 2 <= s.len(),
    decreases s.len(),
{
    if s.len() >= 2 {
        lemma_find_dots_le(s.drop_first());
    }
}

pub fn find_char_in(s: &[char], c: char) -> (r: usize)
    ensures
        r as int == find_char(s@, c),
{
    let mut i: usize = 0;
    assert(s@.subrange(0, s@.len() as int) =~= s@);
    while i < s.len()
        invariant
            i <= s@.len(),
            find_char(s@, c) == i + find_char(s@.subrange(i as int, s@.len() as int), c),
        decreases s@.len() - i,
    {
        assert(s@.subrange(i as int, s@.len() as int).drop_first() =~= s@.subrange(i + 1, s@.len() as int));
        if s[i] == c {
            return i;
        }
        i += 1;
    }
    i
}

fn find_dots_in(s: &[char]) -> (r: usize)
    ensures
        r as int == find_range_dots(s@),
{
    let mut i: usize = 0;
    assert(s@.subrange(0, s@.len() as int) =~= s@);
    while i < s.len() && i + 1 < s.len()
        invariant
            i <= s@.len(),
            find_range_dots(s@) == i + find_range_dots(s@.subrange(i as int, s@.len() as int)),
        decreases s@.len() - i,
    {
        assert(s@.subrange(i as int, s@.len() as int).drop_first() =~= s@.subrange(i + 1, s@.len() as int));
        if s[i] == '.' && s[i + 1] == '.' {
            return i;
        }
        i += 1;
    }
    if i < s.len() {
        i + 1
    } else {
        i
    }
}

fn bound(s: &[char]) -> (r: i32)
    ensures
        r == bound_of(s@),
{
    let t = trim_chars(s);
    match parse_i32(t.as_slice()) {
        Some(v) => v,
        None => 0,
    }
}

/// Reads the header of a `for` loop that starts at `index`, just inside an
/// opening `(`: `variable, start..end`. Gives the variable, the two bounds
/// and the position just past the matching `)`.
pub fn extract_for_condition(chars: &[char], index: usize) -> (r: (String, (i32, i32), usize))
    ensures
        ({
            let (text, end) = condition_at(chars@, index as int);
            r.0@ == for_header(text).0 && r.1 == for_header(text).1 && r.2 as int == end
        }),
{
    let (text, end) = extract_condition(chars, index);
    let t = crate::text::chars_of(text.as_str());
    let comma = find_char_in(t.as_slice(), ',');
    proof {
        lemma_find_char_le(t@, ',');
    }
    let head = slice_of(t.as_slice(), 0, comma);
    let var = trim_chars(head.as_slice());
    if comma >= t.len() {
        return (string_of(var.as_slice()), (0, 0), end);
    }
    let range = slice_of(t.as_slice(), comma + 1, t.len());
    let dots = find_dots_in(range.as_slice());
    proof {
        lemma_find_dots_le(range@);
    }
    if dots >= range.len() {
        return (string_of(var.as_slice()), (bound(range.as_slice()), 0), end);
    }
    let lo = slice_of(range.as_slice(), 0, dots);
    let hi = slice_of(range.as_slice(), dots + 2, range.len());
    (string_of(var.as_slice()), (bound(lo.as_slice()), bound(hi.as_slice())), end)
}

} // verus!
