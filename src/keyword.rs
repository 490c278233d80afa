//! The recognisers of keyword-headed constructs: conditionals, loops,
//! exception-like blocks, function declarations, returns and calls.

use vstd::prelude::*;
use crate::lexer::{is_none, next_quote};
use crate::text::letter;
use crate::token::param_texts;
use crate::scan::{condition_at, extract_block, extract_condition, extract_for_condition, for_header, scan_block};
use crate::text::{is_ws, is_whitespace, chars_of, string_of, slice_of, trim_chars, trim_seq};
use crate::token::{ParseInfo, TokenTypes, texts};

verus! {

/// Whether the text `kw` stands at position `i` of `s`.
pub open spec fn keyword_at(s: Seq<char>, i: int, kw: Seq<char>) -> bool {
    0 <= i && i + kw.len() <= s.len() && s.subrange(i, i + kw.len()) == kw
}

/// The first position from `i` on that holds no white space (or the length
/// of `s`).
pub open spec fn skip_ws(s: Seq<char>, i: int) -> int
    decreases s.len() - i,
{
    if 0 <= i < s.len() && is_ws(s[i]) {
        skip_ws(s, i + 1)
    } else {
        i
    }
}

proof fn lemma_skip_ws(s: Seq<char>, i: int)
    requires
        0 <= i,
    ensures
        i <= skip_ws(s, i),
        i <= s.len() ==> skip_ws(s, i) <= s.len(),
        i > s.len() ==> skip_ws(s, i) == i,
    decreases s.len() - i,
{
    if 0 <= i < s.len() && is_ws(s[i]) {
        lemma_skip_ws(s, i + 1);
    }
}

/// The first position from `i` on that holds no white space.
pub fn skip_whitespace(s: &[char], i: usize) -> (r: usize)
    ensures
        r as int == skip_ws(s@, i as int),
        i <= r,
        i <= s@.len() ==> r <= s@.len(),
{
    proof {
        lemma_skip_ws(s@, i as int);
    }
    let mut j = i;
    while j < s.len() && is_whitespace(s[j])
        invariant
            i <= j,
            i <= s@.len() ==> j <= s@.len(),
            skip_ws(s@, j as int) == skip_ws(s@, i as int),
        decreases s@.len() - j,
    {
        j += 1;
    }
    j
}

/// Whether the text `kw` stands at position `i` of `s`.
pub fn keyword_here(s: &[char], i: usize, kw: &str) -> (r: bool)
    ensures
        r == keyword_at(s@, i as int, kw@),
{
    let k = chars_of(kw);
    if i > s.len() || k.len() > s.len() - i {
        return false;
    }
    let mut j: usize = 0;
    while j < k.len()
        invariant
            j <= k@.len(),
            k@ == kw@,
            i + k@.len() <= s@.len(),
            forall|m: int| 0 <= m < j ==> s@[i + m] == k@[m],
        decreases k@.len() - j,
    {
        assert(i + j < s.len());
        if s[i + j] != k[j] {
            assert(s@.subrange(i as int, i + k@.len())[j as int] != k@[j as int]);
            return false;
        }
        j += 1;
    }
    assert(s@.subrange(i as int, i + k@.len()) =~= k@);
    true
}

/// Gives the position just past `keyword` where it stands at `index` of
/// `expression`.
pub fn parse_keyword(expression: &str, index: usize, keyword: &str) -> (r: Option<usize>)
    ensures
        r == (if keyword_at(expression@, index as int, keyword@) {
            Some((index + keyword@.len()) as usize)
        } else {
            None
        }),
{
    let s = chars_of(expression);
    if keyword_here(s.as_slice(), index, keyword) {
        let k = chars_of(keyword);
        assert(index + k@.len() <= s.len());
        Some(index + k.len())
    } else {
        None
    }
}

/// The conditional token that `if (c)`, `elif (c)` or `else {` gives at
/// `index` of `s` (after white space): the condition, the token's text,
/// and the position where it ends. `None` where there is none.
pub open spec fn conditional_at(s: Seq<char>, index: int) -> Option<(int, Seq<char>, Seq<char>, int)> {
    let j = skip_ws(s, index);
    if keyword_at(s, j, "elif"@) || keyword_at(s, j, "if"@) {
        let kind = if keyword_at(s, j, "elif"@) { 1int } else { 0int };
        let k = skip_ws(s, j + if kind == 1 { 4int } else { 2int });
        if k < s.len() && s[k] == '(' {
            let (cond, end) = condition_at(s, k + 1);
            Some((kind, cond, if kind == 1 { "elif"@ } else { "if"@ }, end))
        } else {
            None
        }
    } else if keyword_at(s, j, "else"@) {
        let k = skip_ws(s, j + 4);
        if k < s.len() && s[k] == '{' {
            Some((2, Seq::empty(), "else"@, k + 1))
        } else {
            None
        }
    } else {
        None
    }
}

/// What `tokenize_if_elif_else_statement` gives at `index` of `s`.
pub open spec fn conditional_ok(s: Seq<char>, index: int, r: ParseInfo) -> bool {
    match conditional_at(s, index) {
        Some((kind, cond, word, end)) => r.chars_read == end - index && r.value@ == word && (
        match r.token {
            TokenTypes::If { statement } => kind == 0 && statement@ == cond,
            TokenTypes::Elif { statement } => kind == 1 && statement@ == cond,
            TokenTypes::Else => kind == 2,
            _ => false,
        }),
        None => is_none(r),
    }
}

fn none_token() -> (r: ParseInfo)
    ensures
        is_none(r),
{
    let v: Vec<char> = vec!['n', 'o', 'n', 'e'];
    proof {
        reveal_strlit("none");
        assert(v@ =~= "none"@);
    }
    ParseInfo::new(TokenTypes::Unrecognized, 0, string_of(v.as_slice()))
}

/// The conditional token at `index` of `s`.
pub fn conditional_token(s: &[char], index: usize) -> (r: ParseInfo)
    ensures
        conditional_ok(s@, index as int, r),
{
    proof {
        reveal_strlit("elif");
        reveal_strlit("if");
        reveal_strlit("else");
    }
    let j = skip_whitespace(s, index);
    let is_elif = keyword_here(s, j, "elif");
    if is_elif || keyword_here(s, j, "if") {
        assert(j + 2 <= s.len());
        assert(is_elif ==> j + 4 <= s.len());
        let k = skip_whitespace(s, if is_elif { j + 4 } else { j + 2 });
        if k < s.len() && s[k] == '(' {
            let (cond, end) = extract_condition(s, k + 1);
            proof {
                crate::scan::lemma_scan_paren(s@, k + 1, 1, Seq::empty());
            }
            if is_elif {
                return ParseInfo::new(TokenTypes::Elif { statement: cond }, end - index, String::from_str("elif"));
            } else {
                return ParseInfo::new(TokenTypes::If { statement: cond }, end - index, String::from_str("if"));
            }
        }
        return none_token();
    }
    if keyword_here(s, j, "else") {
        assert(j + 4 <= s.len());
        let k = skip_whitespace(s, j + 4);
        if k < s.len() && s[k] == '{' {
            return ParseInfo::new(TokenTypes::Else, k + 1 - index, String::from_str("else"));
        }
    }
    none_token()
}

/// Reads `if (condition)`, `elif (condition)` or `else {` at `index`, after
/// white space. The condition is kept as raw text.
pub fn tokenize_if_elif_else_statement(expression: &str, index: usize) -> (r: ParseInfo)
    ensures
        conditional_ok(expression@, index as int, r),
{
    let s = chars_of(expression);
    conditional_token(s.as_slice(), index)
}

/// The block token that `try {`, `catch {` or `finally {` gives at
/// `index` of `s` (after white space): which keyword (0, 1 or 2), its text,
/// the statements of the body and the position past its closing brace.
pub open spec fn block_construct_at(s: Seq<char>, index: int) -> Option<(int, Seq<char>, Seq<Seq<char>>, int)> {
    let j = skip_ws(s, index);
    let kind = if keyword_at(s, j, "try"@) {
        0int
    } else if keyword_at(s, j, "catch"@) {
        1int
    } else if keyword_at(s, j, "finally"@) {
        2int
    } else {
        3int
    };
    let word = if kind == 0 { "try"@ } else if kind == 1 { "catch"@ } else { "finally"@ };
    if kind == 3 {
        None
    } else {
        let k = skip_ws(s, j + word.len());
        if k < s.len() && s[k] == '{' {
            let (block, end) = scan_block(s, k + 1, 1, Seq::empty(), Seq::empty());
            Some((kind, word, block, end))
        } else {
            None
        }
    }
}

/// What `tokenize_try_catch_finally_statement` gives at `index` of `s`.
pub open spec fn block_construct_ok(s: Seq<char>, index: int, r: ParseInfo) -> bool {
    match block_construct_at(s, index) {
        Some((kind, word, body, end)) => r.chars_read == end - index && r.value@ == word && (
        match r.token {
            TokenTypes::Try { block } => kind == 0 && texts(block@) == body,
            TokenTypes::Catch { block } => kind == 1 && texts(block@) == body,
            TokenTypes::Finally { block } => kind == 2 && texts(block@) == body,
            _ => false,
        }),
        None => is_none(r),
    }
}

/// The `try`, `catch` or `finally` token at `index` of `s`.
pub fn block_construct_token(s: &[char], index: usize) -> (r: ParseInfo)
    ensures
        block_construct_ok(s@, index as int, r),
{
    proof {
        reveal_strlit("try");
        reveal_strlit("catch");
        reveal_strlit("finally");
    }
    let j = skip_whitespace(s, index);
    let kind: u8 = if keyword_here(s, j, "try") {
        0
    } else if keyword_here(s, j, "catch") {
        1
    } else if keyword_here(s, j, "finally") {
        2
    } else {
        3
    };
    if kind == 3 {
        return none_token();
    }
    let len: usize = if kind == 0 { 3 } else if kind == 1 { 5 } else { 7 };
    assert(j + len <= s.len());
    let k = skip_whitespace(s, j + len);
    if !(k < s.len() && s[k] == '{') {
        return none_token();
    }
    let (block, end) = extract_block(s, k + 1);
    proof {
        crate::scan::lemma_scan_block(s@, k + 1, 1, Seq::empty(), Seq::empty());
    }
    if kind == 0 {
        ParseInfo::new(TokenTypes::Try { block }, end - index, String::from_str("try"))
    } else if kind == 1 {
        ParseInfo::new(TokenTypes::Catch { block }, end - index, String::from_str("catch"))
    } else {
        ParseInfo::new(TokenTypes::Finally { block }, end - index, String::from_str("finally"))
    }
}

/// Reads `try { ... }`, `catch { ... }` or `finally { ... }` at `index`,
/// after white space, with the statements of the body.
pub fn tokenize_try_catch_finally_statement(expression: &str, index: usize) -> (r: ParseInfo)
    ensures
        block_construct_ok(expression@, index as int, r),
{
    let s = chars_of(expression);
    block_construct_token(s.as_slice(), index)
}

/// The loop token that `for (v, a..b) { ... }` or `while (c) { ... }` gives
/// at `index` of `s` (after white space): whether it is a `for`, the text of
/// its header, the statements of its body and the position past the body.
pub open spec fn loop_at(s: Seq<char>, index: int) -> Option<(bool, Seq<char>, Seq<Seq<char>>, int)> {
    let j = skip_ws(s, index);
    let is_for = keyword_at(s, j, "for"@);
    if is_for || keyword_at(s, j, "while"@) {
        let k = skip_ws(s, j + if is_for { 3int } else { 5int });
        if k < s.len() && s[k] == '(' {
            let (header, after) = condition_at(s, k + 1);
            let m = skip_ws(s, after);
            if m < s.len() && s[m] == '{' {
                let (block, end) = scan_block(s, m + 1, 1, Seq::empty(), Seq::empty());
                Some((is_for, header, block, end))
            } else {
                None
            }
        } else {
            None
        }
    } else {
        None
    }
}

/// What `tokenize_for_while_statement` gives at `index` of `s`.
pub open spec fn loop_ok(s: Seq<char>, index: int, r: ParseInfo) -> bool {
    match loop_at(s, index) {
        Some((is_for, header, body, end)) => r.chars_read == end - index && (match r.token {
            TokenTypes::For { variable, iterable, block } => is_for && r.value@ == "for"@
                && variable@ == for_header(header).0 && iterable == for_header(header).1 && texts(
                block@,
            ) == body,
            TokenTypes::While { statement, block } => !is_for && r.value@ == "while"@
                && statement@ == header && texts(block@) == body,
            _ => false,
        }),
        None => is_none(r),
    }
}

/// The `for` or `while` token at `index` of `s`.
pub fn loop_token(s: &[char], index: usize) -> (r: ParseInfo)
    ensures
        loop_ok(s@, index as int, r),
{
    proof {
        reveal_strlit("for");
        reveal_strlit("while");
    }
    let j = skip_whitespace(s, index);
    let is_for = keyword_here(s, j, "for");
    if !(is_for || keyword_here(s, j, "while")) {
        return none_token();
    }
    assert(j + 3 <= s.len());
    assert(!is_for ==> j + 5 <= s.len());
    let k = skip_whitespace(s, if is_for { j + 3 } else { j + 5 });
    if !(k < s.len() && s[k] == '(') {
        return none_token();
    }
    proof {
        crate::scan::lemma_scan_paren(s@, k + 1, 1, Seq::empty());
    }
    if is_for {
        let (variable, iterable, after) = extract_for_condition(s, k + 1);
        let m = skip_whitespace(s, after);
        if !(m < s.len() && s[m] == '{') {
            return none_token();
        }
        let (block, end) = extract_block(s, m + 1);
        proof {
            crate::scan::lemma_scan_block(s@, m + 1, 1, Seq::empty(), Seq::empty());
        }
        ParseInfo::new(TokenTypes::For { variable, iterable, block }, end - index, String::from_str("for"))
    } else {
        let (statement, after) = extract_condition(s, k + 1);
        let m = skip_whitespace(s, after);
        if !(m < s.len() && s[m] == '{') {
            return none_token();
        }
        let (block, end) = extract_block(s, m + 1);
        proof {
            crate::scan::lemma_scan_block(s@, m + 1, 1, Seq::empty(), Seq::empty());
        }
        ParseInfo::new(TokenTypes::While { statement, block }, end - index, String::from_str("while"))
    }
}

/// Reads `for (variable, start..end) { ... }` or `while (condition) { ... }`
/// at `index`, after white space, with the statements of the body.
pub fn tokenize_for_while_statement(expression: &str, index: usize) -> (r: ParseInfo)
    ensures
        loop_ok(expression@, index as int, r),
{
    let s = chars_of(expression);
    loop_token(s.as_slice(), index)
}

proof fn lemma_next_quote_bounds(s: Seq<char>, i: int, c: char)
    requires
        0 <= i,
    ensures
        i <= s.len() ==> i <= next_quote(s, i, c) <= s.len(),
        next_quote(s, i, c) < s.len() ==> s[next_quote(s, i, c)] == c,
        i > s.len() ==> next_quote(s, i, c) == s.len(),
    decreases s.len() - i,
{
    if i < s.len() && s[i] != c {
        lemma_next_quote_bounds(s, i + 1, c);
    }
}

/// The first position from `i` on that holds `c`, or the length of `s`.
pub fn next_char_at(s: &[char], i: usize, c: char) -> (r: usize)
    ensures
        r as int == next_quote(s@, i as int, c),
        i <= s@.len() ==> i <= r <= s@.len(),
        r < s@.len() ==> s@[r as int] == c,
{
    proof {
        lemma_next_quote_bounds(s@, i as int, c);
    }
    if i > s.len() {
        return s.len();
    }
    let mut j = i;
    while j < s.len() && s[j] != c
        invariant
            i <= j <= s@.len(),
            next_quote(s@, j as int, c) == next_quote(s@, i as int, c),
        decreases s@.len() - j,
    {
        j += 1;
    }
    j
}

/// The return statement at `index` of `s`: its value, up to and with the
/// first `;`, trimmed, and the position past that `;` (or the end).
pub open spec fn return_at(s: Seq<char>, index: int) -> Option<(Seq<char>, int)> {
    if keyword_at(s, index, "return"@) && (index + 6 >= s.len() || !letter(s[index + 6])) {
        let semi = next_quote(s, index + 6, ';');
        let stop = if semi < s.len() { semi + 1 } else { s.len() as int };
        Some((trim_seq(s.subrange(index + 6, stop)), stop))
    } else {
        None
    }
}

/// What `read_return_statement` gives at `index` of `s`.
pub open spec fn return_ok(s: Seq<char>, index: int, r: ParseInfo) -> bool {
    match return_at(s, index) {
        Some((value, stop)) => r.chars_read == stop - index && r.value@ == value && (match r.token {
            TokenTypes::ReturnStatement { value: v } => v@ == value,
            _ => false,
        }),
        None => is_none(r),
    }
}

/// The return statement at `index` of `s`.
pub fn return_token(s: &[char], index: usize) -> (r: ParseInfo)
    ensures
        return_ok(s@, index as int, r),
{
    proof {
        reveal_strlit("return");
    }
    if !keyword_here(s, index, "return") {
        return none_token();
    }
    assert(index + 6 <= s.len());
    if index + 6 < s.len() && crate::text::is_letter(s[index + 6]) {
        return none_token();
    }
    let semi = next_char_at(s, index + 6, ';');
    let stop = if semi < s.len() { semi + 1 } else { s.len() };
    let value = trim_chars(slice_of(s, index + 6, stop).as_slice());
    let v1 = string_of(value.as_slice());
    let v2 = string_of(value.as_slice());
    ParseInfo::new(TokenTypes::ReturnStatement { value: v1 }, stop - index, v2)
}

/// Reads `return value;` at `index`. The value is the text after the
/// keyword up to and with the first `;`, trimmed.
pub fn read_return_statement(expression: &str, index: usize) -> (r: ParseInfo)
    ensures
        return_ok(expression@, index as int, r),
{
    let s = chars_of(expression);
    return_token(s.as_slice(), index)
}

/// Position of the first `->` in `s`, or the length of `s`.
pub open spec fn find_arrow(s: Seq<char>) -> int
    decreases s.len(),
{
    if s.len() < 2 {
        s.len() as int
    } else if s[0] == '-' && s[1] == '>' {
        0
    } else {
        1 + find_arrow(s.drop_first())
    }
}

proof fn lemma_find_arrow(s: Seq<char>)
    ensures
        0 <= find_arrow(s) <= s.len(),
        find_arrow(s) < s.len() ==> find_arrow(s) + 2 <= s.len(),
    decreases s.len(),
{
    if s.len() >= 2 {
        lemma_find_arrow(s.drop_first());
    }
}

fn find_arrow_in(s: &[char]) -> (r: usize)
    ensures
        r as int == find_arrow(s@),
        r <= s@.len(),
        r < s@.len() ==> r + 2 <= s@.len(),
{
    proof {
        lemma_find_arrow(s@);
    }
    let mut i: usize = 0;
    assert(s@.subrange(0, s@.len() as int) =~= s@);
    while i < s.len() && i + 1 < s.len()
        invariant
            i <= s@.len(),
            find_arrow(s@) == i + find_arrow(s@.subrange(i as int, s@.len() as int)),
        decreases s@.len() - i,
    {
        assert(s@.subrange(i as int, s@.len() as int).drop_first() =~= s@.subrange(i + 1, s@.len() as int));
        if s[i] == '-' && s[i + 1] == '>' {
            return i;
        }
        i += 1;
    }
    if i < s.len() {
        i + 1
    } else {
        i
    }
}

/// One parameter `name: type = default`: the trimmed name, type and default
/// text (empty where there is none).
pub open spec fn param_of(part: Seq<char>) -> (Seq<char>, Seq<char>, Seq<char>) {
    let colon = crate::scan::find_char(part, ':');
    let rest = if colon < part.len() { part.subrange(colon + 1, part.len() as int) } else { Seq::empty() };
    let eq = crate::scan::find_char(rest, '=');
    (
        trim_seq(part.subrange(0, colon)),
        trim_seq(rest.subrange(0, eq)),
        if eq < rest.len() { trim_seq(rest.subrange(eq + 1, rest.len() as int)) } else { Seq::empty() },
    )
}

/// The parameters of a comma-separated list; blank entries are skipped.
pub open spec fn params_of(text: Seq<char>) -> Seq<(Seq<char>, Seq<char>, Seq<char>)>
    decreases text.len(),
{
    let c = crate::scan::find_char(text, ',');
    let first = text.subrange(0, c);
    let rest = if c < text.len() && 0 <= c {
        params_of(text.subrange(c + 1, text.len() as int))
    } else {
        Seq::empty()
    };
    if trim_seq(first).len() > 0 {
        seq![param_of(first)] + rest
    } else {
        rest
    }
}

fn param_in(part: &[char]) -> (r: (String, String, String))
    ensures
        (r.0@, r.1@, r.2@) == param_of(part@),
{
    let colon = crate::scan::find_char_in(part, ':');
    proof {
        crate::scan::lemma_find_char_le(part@, ':');
    }
    let rest = if colon < part.len() { slice_of(part, colon + 1, part.len()) } else { Vec::new() };
    assert(colon >= part.len() ==> rest@ =~= Seq::<char>::empty());
    let eq = crate::scan::find_char_in(rest.as_slice(), '=');
    proof {
        crate::scan::lemma_find_char_le(rest@, '=');
    }
    let name = trim_chars(slice_of(part, 0, colon).as_slice());
    let ty = trim_chars(slice_of(rest.as_slice(), 0, eq).as_slice());
    let default = if eq < rest.len() {
        trim_chars(slice_of(rest.as_slice(), eq + 1, rest.len()).as_slice())
    } else {
        Vec::new()
    };
    (string_of(name.as_slice()), string_of(ty.as_slice()), string_of(default.as_slice()))
}

proof fn lemma_params_step(text: Seq<char>, pos: int, c: int)
    requires
        0 <= pos <= text.len(),
        c == crate::scan::find_char(text.subrange(pos, text.len() as int), ','),
    ensures
        params_of(text.subrange(pos, text.len() as int)) == (if trim_seq(text.subrange(pos, pos + c)).len() > 0 {
            seq![param_of(text.subrange(pos, pos + c))]
        } else {
            Seq::empty()
        }) + (if pos + c < text.len() {
            params_of(text.subrange(pos + c + 1, text.len() as int))
        } else {
            Seq::empty()
        }),
{
    let t = text.subrange(pos, text.len() as int);
    crate::scan::lemma_find_char_le(t, ',');
    assert(t.subrange(0, c) =~= text.subrange(pos, pos + c));
    if c < t.len() {
        assert(t.subrange(c + 1, t.len() as int) =~= text.subrange(pos + c + 1, text.len() as int));
    }
    if trim_seq(text.subrange(pos, pos + c)).len() == 0 {
        let rest = if c < t.len() { params_of(t.subrange(c + 1, t.len() as int)) } else { Seq::empty() };
        assert(Seq::<(Seq<char>, Seq<char>, Seq<char>)>::empty() + rest =~= rest);
    }
}

/// The parameters of the comma-separated list `text`.
pub fn params_in(text: &[char]) -> (r: Vec<(String, String, String)>)
    ensures
        param_texts(r@) == params_of(text@),
{
    let n = text.len();
    let mut out: Vec<(String, String, String)> = Vec::new();
    let mut pos: usize = 0;
    assert(text@.subrange(0, n as int) =~= text@);
    assert(param_texts(out@) + params_of(text@) =~= params_of(text@));
    loop
        invariant
            pos <= n,
            n == text@.len(),
            param_texts(out@) + params_of(text@.subrange(pos as int, n as int)) == params_of(text@),
        decreases n - pos,
    {
        let part_rest = slice_of(text, pos, n);
        let c = crate::scan::find_char_in(part_rest.as_slice(), ',');
        proof {
            crate::scan::lemma_find_char_le(part_rest@, ',');
            lemma_params_step(text@, pos as int, c as int);
        }
        let part = slice_of(text, pos, pos + c);
        let t = trim_chars(part.as_slice());
        let ghost before = param_texts(out@);
        if t.len() > 0 {
            let p = param_in(part.as_slice());
            out.push(p);
            assert(param_texts(out@) =~= before.push(param_of(part@)));
        }
        if pos + c >= n {
            proof {
                if t.len() > 0 {
                    assert(param_texts(out@) + Seq::empty() =~= before + seq![param_of(part@)]);
                } else {
                    assert(param_texts(out@) =~= before);
                }
                assert(param_texts(out@) =~= param_texts(out@) + Seq::<(Seq<char>, Seq<char>, Seq<char>)>::empty());
            }
            return out;
        }
        proof {
            let tail = params_of(text@.subrange(pos + c + 1, n as int));
            if t.len() > 0 {
                assert(before + (seq![param_of(part@)] + tail) =~= param_texts(out@) + tail);
            } else {
                assert(before + (Seq::empty() + tail) =~= param_texts(out@) + tail);
            }
        }
        pos = pos + c + 1;
    }
}

/// The function declaration at `index` of `s`: its name, parameters,
/// return type, the statements of its body and the position past the body.
pub open spec fn function_at(s: Seq<char>, index: int) -> Option<
    (Seq<char>, Seq<(Seq<char>, Seq<char>, Seq<char>)>, Seq<char>, Seq<Seq<char>>, int),
> {
    if keyword_at(s, index, "func"@) && index + 4 < s.len() && is_ws(s[index + 4]) {
        let open = next_quote(s, index + 4, '(');
        let close = next_quote(s, open + 1, ')');
        let brace = next_quote(s, close + 1, '{');
        if open < s.len() && close < s.len() && brace < s.len() {
            let between = s.subrange(close + 1, brace);
            let arrow = find_arrow(between);
            let ret = if arrow < between.len() {
                trim_seq(between.subrange(arrow + 2, between.len() as int))
            } else {
                Seq::empty()
            };
            let (block, end) = scan_block(s, brace + 1, 1, Seq::empty(), Seq::empty());
            Some((trim_seq(s.subrange(index + 4, open)), params_of(s.subrange(open + 1, close)), ret, block, end))
        } else {
            None
        }
    } else {
        None
    }
}

/// What `read_function_declaration` gives at `index` of `s`.
pub open spec fn function_ok(s: Seq<char>, index: int, r: ParseInfo) -> bool {
    match function_at(s, index) {
        Some((name, params, ret, body, end)) => r.chars_read == end - index && r.value@ == name && (
        match r.token {
            TokenTypes::Function { name: n, return_type, arguments, block } => n@ == name
                && return_type@ == ret && param_texts(arguments@) == params && texts(block@)
                == body,
            _ => false,
        }),
        None => is_none(r),
    }
}

/// The function declaration at `index` of `s`.
pub fn function_token(s: &[char], index: usize) -> (r: ParseInfo)
    ensures
        function_ok(s@, index as int, r),
{
    proof {
        reveal_strlit("func");
    }
    if !keyword_here(s, index, "func") {
        return none_token();
    }
    assert(index + 4 <= s.len());
    if !(index + 4 < s.len() && is_whitespace(s[index + 4])) {
        return none_token();
    }
    let open = next_char_at(s, index + 4, '(');
    if open >= s.len() {
        return none_token();
    }
    let close = next_char_at(s, open + 1, ')');
    if close >= s.len() {
        return none_token();
    }
    let brace = next_char_at(s, close + 1, '{');
    if brace >= s.len() {
        return none_token();
    }
    let between = slice_of(s, close + 1, brace);
    let arrow = find_arrow_in(between.as_slice());
    let ret = if arrow < between.len() {
        trim_chars(slice_of(between.as_slice(), arrow + 2, between.len()).as_slice())
    } else {
        Vec::new()
    };
    let (block, end) = extract_block(s, brace + 1);
    proof {
        crate::scan::lemma_scan_block(s@, brace + 1, 1, Seq::empty(), Seq::empty());
    }
    let name = trim_chars(slice_of(s, index + 4, open).as_slice());
    let params = params_in(slice_of(s, open + 1, close).as_slice());
    ParseInfo::new(
        TokenTypes::Function {
            name: string_of(name.as_slice()),
            return_type: string_of(ret.as_slice()),
            arguments: params,
            block,
        },
        end - index,
        string_of(name.as_slice()),
    )
}

/// Reads `func name(params) -> type { body }` at `index`. Each parameter is
/// `name: type` or `name: type = default`; the return type may be left out.
pub fn read_function_declaration(expression: &str, index: usize) -> (r: ParseInfo)
    ensures
        function_ok(expression@, index as int, r),
{
    let s = chars_of(expression);
    function_token(s.as_slice(), index)
}

/// The scan of a call from position `j`, with the name `name` gathered:
/// the call's token kind (0 for a function call, 1 for a dot call), the
/// name, the method text and where the token ends.
pub open spec fn scan_call(s: Seq<char>, j: int, name: Seq<char>) -> Option<(int, Seq<char>, Seq<char>, int)>
    decreases s.len() - j,
{
    if j < 0 || j >= s.len() {
        None
    } else {
        let c = s[j];
        if c == '.' {
            let k = next_quote(s, j + 1, ';');
            Some((1, name, s.subrange(j + 1, k), k))
        } else if c == '=' {
            None
        } else if c == '(' {
            Some((0, name, Seq::empty(), j))
        } else if c == '+' || c == '-' || c == '*' || c == '/' || c == '!' {
            None
        } else if is_ws(c) {
            scan_call(s, j + 1, name)
        } else {
            scan_call(s, j + 1, name.push(c))
        }
    }
}

/// What `read_function_call` gives at `index` of `s`.
pub open spec fn call_ok(s: Seq<char>, index: int, r: ParseInfo) -> bool {
    if keyword_at(s, index, "func"@) {
        is_none(r)
    } else {
        match scan_call(s, index, Seq::empty()) {
            Some((kind, name, method, end)) => r.chars_read == end - index && if kind == 0 {
                r.token == TokenTypes::FunctionCall && r.value@ == name
            } else {
                r.value@ == "Dot Notation"@ && match r.token {
                    TokenTypes::Dot { object, method: m } => object@ == name && m@ == method,
                    _ => false,
                }
            },
            None => is_none(r),
        }
    }
}

proof fn lemma_scan_call_end(s: Seq<char>, j: int, name: Seq<char>)
    requires
        0 <= j,
    ensures
        scan_call(s, j, name) matches Some((_, _, _, end)) ==> j <= end <= s.len(),
    decreases s.len() - j,
{
    if 0 <= j < s.len() {
        let c = s[j];
        if c == '.' {
            lemma_next_quote_bounds(s, j + 1, ';');
        } else if c == '=' || c == '(' || c == '+' || c == '-' || c == '*' || c == '/' || c == '!' {
        } else if is_ws(c) {
            lemma_scan_call_end(s, j + 1, name);
        } else {
            lemma_scan_call_end(s, j + 1, name.push(c));
        }
    }
}

/// The call at `index` of `s`.
pub fn call_token(s: &[char], index: usize) -> (r: ParseInfo)
    ensures
        call_ok(s@, index as int, r),
{
    proof {
        reveal_strlit("func");
        reveal_strlit("Dot Notation");
        lemma_scan_call_end(s@, index as int, Seq::empty());
    }
    if keyword_here(s, index, "func") {
        return none_token();
    }
    let mut name: Vec<char> = Vec::new();
    let mut j = index;
    while j < s.len()
        invariant
            index <= j,
            !keyword_at(s@, index as int, "func"@),
            scan_call(s@, j as int, name@) == scan_call(s@, index as int, Seq::empty()),
        decreases s@.len() - j,
    {
        let c = s[j];
        if c == '.' {
            let k = next_char_at(s, j + 1, ';');
            let method = string_of(slice_of(s, j + 1, k).as_slice());
            return ParseInfo::new(
                TokenTypes::Dot { object: string_of(name.as_slice()), method },
                k - index,
                String::from_str("Dot Notation"),
            );
        } else if c == '=' {
            return none_token();
        } else if c == '(' {
            return ParseInfo::new(TokenTypes::FunctionCall, j - index, string_of(name.as_slice()));
        } else if c == '+' || c == '-' || c == '*' || c == '/' || c == '!' {
            return none_token();
        } else if !is_whitespace(c) {
            name.push(c);
        }
        j += 1;
    }
    none_token()
}

/// Reads a call at `index`: the name (white space left out) up to `(` is a
/// function call; a name followed by `.` is a dot call whose method text
/// runs up to `;`. An `=` or an arithmetic operator first means no call.
pub fn read_function_call(expression: &String, index: usize) -> (r: ParseInfo)
    ensures
        call_ok(expression@, index as int, r),
{
    let s = chars_of(expression.as_str());
    call_token(s.as_slice(), index)
}

} // verus!
