//! The statement tokenizer: turns one statement into its tokens.

use vstd::prelude::*;
use crate::declaration::{Declared, declaration_at, declaration_ok, declaration_tokens};
use crate::keyword::{
    block_construct_at, block_construct_ok, block_construct_token, call_ok, call_token,
    conditional_at, conditional_ok, conditional_token, function_at, function_ok, function_token,
    loop_at, loop_ok, loop_token, return_at, return_ok, return_token, scan_call, skip_ws,
    skip_whitespace,
};
use crate::lexer::{
    name_run, name_run_at, alpha_run, alpha_run_at, boolean_ok, boolean_at, count_points, is_bool_word,
    is_plain, is_one_char_operator, is_two_char_operator, number_ok, number_at, number_run,
    operator_ok, punctuation, quoted_ok, quoted_at, read_operators,
};
use crate::text::{letter, is_letter, is_digit, is_ws, is_whitespace, chars_of, string_of, slice_of};
use crate::token::{ParseInfo, TokenTypes};

verus! {

/// Where the declaration at `i` of `s` ends.
pub open spec fn declared_end(d: Declared) -> int {
    match d {
        Declared::Variable { end, .. } => end,
        Declared::Collection { end, .. } => end,
    }
}

/// How many tokens the declaration gives.
pub open spec fn declared_count(d: Declared) -> int {
    match d {
        Declared::Variable { .. } => 2,
        Declared::Collection { .. } => 1,
    }
}

/// The character after position `i`, or a space at the end.
pub open spec fn next_or_space(s: Seq<char>, i: int) -> char {
    if i + 1 < s.len() {
        s[i + 1]
    } else {
        ' '
    }
}

/// Where the function declaration at `i` ends, or -1.
pub open spec fn function_end(s: Seq<char>, i: int) -> int {
    match function_at(s, i) {
        Some((_, _, _, _, end)) => end,
        None => -1,
    }
}

/// Where the return statement at `i` ends, or -1.
pub open spec fn return_end(s: Seq<char>, i: int) -> int {
    match return_at(s, i) {
        Some((_, end)) => end,
        None => -1,
    }
}

/// Where the conditional at `i` ends, or -1.
pub open spec fn conditional_end(s: Seq<char>, i: int) -> int {
    match conditional_at(s, i) {
        Some((_, _, _, end)) => end,
        None => -1,
    }
}

/// Where the loop at `i` ends, or -1.
pub open spec fn loop_end(s: Seq<char>, i: int) -> int {
    match loop_at(s, i) {
        Some((_, _, _, end)) => end,
        None => -1,
    }
}

/// Where the `try`, `catch` or `finally` block at `i` ends, or -1.
pub open spec fn block_end(s: Seq<char>, i: int) -> int {
    match block_construct_at(s, i) {
        Some((_, _, _, end)) => end,
        None => -1,
    }
}

/// Where the call at `i` ends, or -1.
pub open spec fn call_end(s: Seq<char>, i: int) -> int {
    match scan_call(s, i, Seq::empty()) {
        Some((_, _, _, end)) => end,
        None => -1,
    }
}

/// Whether a keyword-headed construct or a declaration starts at `i` of
/// `s`.
#[verifier::opaque]
pub open spec fn construct_here(s: Seq<char>, i: int) -> bool {
    (declaration_at(s, i) is Some && i < declared_end(declaration_at(s, i)->0) <= s.len())
        || (i < function_end(s, i) <= s.len()) || (i < return_end(s, i) <= s.len()) || (i
        < conditional_end(s, i) <= s.len()) || (i < loop_end(s, i) <= s.len()) || (i
        < block_end(s, i) <= s.len())
}

/// Whether a name starts at `i` of `s`.
#[verifier::opaque]
pub open spec fn name_here(s: Seq<char>, i: int) -> bool {
    letter(s[i]) && i + alpha_run(s, i) <= s.len() && alpha_run(s, i) > 0
}

/// Whether `toks` are the tokens of `s` from position `i` on.
///
/// White space separates tokens. At each other position the recognisers
/// are tried in turn: a declaration, a function declaration, a return, a
/// conditional, a loop, a `try`/`catch`/`finally` block; then a name (a
/// boolean literal, a call when `(` or `.` follows, else a variable); then
/// `=>`, `->`, brackets and `;`; operators and punctuation; quoted
/// literals; numbers. A character that none of them takes is skipped.
pub open spec fn tokens_ok(s: Seq<char>, i: int, toks: Seq<ParseInfo>) -> bool
    decreases s.len() - i, 1int,
{
    if i < 0 || i >= s.len() {
        toks.len() == 0
    } else if is_ws(s[i]) {
        tokens_ok(s, i + 1, toks)
    } else if construct_here(s, i) {
        construct_tokens_ok(s, i, toks)
    } else if name_here(s, i) {
        name_tokens_ok(s, i, toks)
    } else {
        symbol_tokens_ok(s, i, toks)
    }
}

/// The tokens from `i` on, where a construct or a declaration starts there.
pub open spec fn construct_tokens_ok(s: Seq<char>, i: int, toks: Seq<ParseInfo>) -> bool
    decreases s.len() - i, 0int,
{
    if i < 0 || i >= s.len() {
        false
    } else if declaration_at(s, i) is Some && i < declared_end(declaration_at(s, i)->0) <= s.len() {
        let d = declaration_at(s, i)->0;
        let c = declared_count(d);
        toks.len() >= c && declaration_ok(s, i, toks.take(c)) && tokens_ok(
            s,
            declared_end(d),
            toks.skip(c),
        )
    } else if i < function_end(s, i) <= s.len() {
        toks.len() >= 1 && function_ok(s, i, toks[0]) && tokens_ok(s, function_end(s, i), toks.drop_first())
    } else if i < return_end(s, i) <= s.len() {
        toks.len() >= 1 && return_ok(s, i, toks[0]) && tokens_ok(s, return_end(s, i), toks.drop_first())
    } else if i < conditional_end(s, i) <= s.len() {
        toks.len() >= 1 && conditional_ok(s, i, toks[0]) && tokens_ok(
            s,
            conditional_end(s, i),
            toks.drop_first(),
        )
    } else if i < loop_end(s, i) <= s.len() {
        toks.len() >= 1 && loop_ok(s, i, toks[0]) && tokens_ok(s, loop_end(s, i), toks.drop_first())
    } else if i < block_end(s, i) <= s.len() {
        toks.len() >= 1 && block_construct_ok(s, i, toks[0]) && tokens_ok(
            s,
            block_end(s, i),
            toks.drop_first(),
        )
    } else {
        false
    }
}

/// The tokens from `i` on, where a name starts there: a boolean literal
/// where the letters there spell one and no other name character follows;
/// a call where `(` (after white space) or `.` follows the name; else a
/// variable.
pub open spec fn name_tokens_ok(s: Seq<char>, i: int, toks: Seq<ParseInfo>) -> bool
    decreases s.len() - i, 0int,
{
    let k = alpha_run(s, i);
    let w = name_run(s, i);
    let word = s.subrange(i, i + w);
    let m = skip_ws(s, i + w);
    if i < 0 || i >= s.len() || k <= 0 || i + k > s.len() || w <= 0 || i + w > s.len() {
        false
    } else if is_bool_word(s.subrange(i, i + k)) && w == k {
        toks.len() >= 1 && boolean_ok(s, i, toks[0]) && tokens_ok(s, i + k, toks.drop_first())
    } else if ((m < s.len() && s[m] == '(') || (i + w < s.len() && s[i + w] == '.'))
        && !crate::keyword::keyword_at(s, i, "func"@) && i < call_end(s, i) <= s.len() {
        toks.len() >= 1 && call_ok(s, i, toks[0]) && tokens_ok(s, call_end(s, i), toks.drop_first())
    } else {
        toks.len() >= 1 && is_plain(toks[0], TokenTypes::VariableCall, w, word) && tokens_ok(
            s,
            i + w,
            toks.drop_first(),
        )
    }
}

/// The tokens from `i` on, where neither a construct nor a name starts
/// there.
pub open spec fn symbol_tokens_ok(s: Seq<char>, i: int, toks: Seq<ParseInfo>) -> bool
    decreases s.len() - i, 0int,
{
    if i < 0 || i >= s.len() {
        false
    } else if s[i] == '=' && next_or_space(s, i) == '>' && i + 2 <= s.len() {
        toks.len() >= 1 && is_plain(toks[0], TokenTypes::FatArrow, 2, seq!['=', '>']) && tokens_ok(
            s,
            i + 2,
            toks.drop_first(),
        )
    } else if s[i] == '-' && next_or_space(s, i) == '>' && i + 2 <= s.len() {
        toks.len() >= 1 && is_plain(toks[0], TokenTypes::ReturnTypeAssignment, 2, seq!['-', '>'])
            && tokens_ok(s, i + 2, toks.drop_first())
    } else if s[i] == '[' || s[i] == ']' || s[i] == ';' {
        toks.len() >= 1 && is_plain(
            toks[0],
            if s[i] == '[' {
                TokenTypes::LeftBracket
            } else if s[i] == ']' {
                TokenTypes::RightBracket
            } else {
                TokenTypes::SemiColon
            },
            1,
            seq![s[i]],
        ) && tokens_ok(s, i + 1, toks.drop_first())
    } else if is_two_char_operator(s[i], next_or_space(s, i)) && i + 2 <= s.len() {
        toks.len() >= 1 && operator_ok(s[i], next_or_space(s, i), toks[0]) && tokens_ok(
            s,
            i + 2,
            toks.drop_first(),
        )
    } else if is_one_char_operator(s[i]) || punctuation(s[i]) is Some {
        toks.len() >= 1 && operator_ok(s[i], next_or_space(s, i), toks[0]) && tokens_ok(
            s,
            i + 1,
            toks.drop_first(),
        )
    } else if (s[i] == '"' || s[i] == '\'') && crate::lexer::next_quote(s, i + 1, s[i]) < s.len() {
        toks.len() >= 1 && quoted_ok(s, s[i], i, toks[0]) && toks[0].chars_read >= 1 && i
            + toks[0].chars_read <= s.len() && tokens_ok(s, i + toks[0].chars_read, toks.drop_first())
    } else if is_digit(s[i]) && i + number_run(s, i) <= s.len() && number_run(s, i) > 0
        && count_points(s.subrange(i, i + number_run(s, i))) <= 1 {
        toks.len() >= 1 && number_ok(s, i, toks[0]) && tokens_ok(
            s,
            i + number_run(s, i),
            toks.drop_first(),
        )
    } else {
        tokens_ok(s, i + 1, toks)
    }
}

fn one(t: ParseInfo) -> (r: Vec<ParseInfo>)
    ensures
        r@ == seq![t],
{
    let mut v: Vec<ParseInfo> = Vec::new();
    v.push(t);
    v
}

/// The tokens that the recognisers give at `i` of `s`, and how far they
/// take the scan.
#[verifier::rlimit(50)]
fn next_tokens(s: &[char], i: usize) -> (r: (Vec<ParseInfo>, usize))
    requires
        i < s@.len(),
    ensures
        i < r.1 <= s@.len(),
        forall|rest: Seq<ParseInfo>| #[trigger] tokens_ok(s@, r.1 as int, rest) ==> tokens_ok(
            s@,
            i as int,
            r.0@ + rest,
        ),
{
    proof {
        reveal(construct_here);
        reveal(name_here);
    }
    let n = s.len();
    let c = s[i];
    if is_whitespace(c) {
        assert forall|rest: Seq<ParseInfo>| #[trigger] tokens_ok(s@, i + 1, rest) implies tokens_ok(
            s@,
            i as int,
            Seq::<ParseInfo>::empty() + rest,
        ) by {
            assert(Seq::<ParseInfo>::empty() + rest =~= rest);
        }
        return (Vec::new(), i + 1);
    }
    let d = declaration_tokens(s, i);
    if d.len() > 0 {
        let end = if d.len() == 2 { d[1].chars_read } else { d[0].chars_read };
        if end > 0 && end <= n - i {
            let ghost c = d@.len() as int;
            assert forall|rest: Seq<ParseInfo>| #[trigger] tokens_ok(s@, i + end, rest) implies tokens_ok(
                s@,
                i as int,
                d@ + rest,
            ) by {
                assert((d@ + rest).take(c) =~= d@);
                assert((d@ + rest).skip(c) =~= rest);
                assert(construct_tokens_ok(s@, i as int, d@ + rest));
            }
            return (d, i + end);
        }
    }
    let f = function_token(s, i);
    if !matches!(f.token, TokenTypes::Unrecognized) && f.chars_read > 0 && f.chars_read <= n - i {
        let adv = f.chars_read;
        let out = one(f);
        assert forall|rest: Seq<ParseInfo>| #[trigger] tokens_ok(s@, i + adv, rest) implies tokens_ok(
            s@,
            i as int,
            out@ + rest,
        ) by {
            assert((out@ + rest).drop_first() =~= rest);
            assert(construct_tokens_ok(s@, i as int, out@ + rest));
        }
        return (out, i + adv);
    }
    let rt = return_token(s, i);
    if !matches!(rt.token, TokenTypes::Unrecognized) && rt.chars_read > 0 && rt.chars_read <= n - i {
        let adv = rt.chars_read;
        let out = one(rt);
        assert forall|rest: Seq<ParseInfo>| #[trigger] tokens_ok(s@, i + adv, rest) implies tokens_ok(
            s@,
            i as int,
            out@ + rest,
        ) by {
            assert((out@ + rest).drop_first() =~= rest);
            assert(construct_tokens_ok(s@, i as int, out@ + rest));
        }
        return (out, i + adv);
    }
    let ct = conditional_token(s, i);
    if !matches!(ct.token, TokenTypes::Unrecognized) && ct.chars_read > 0 && ct.chars_read <= n - i {
        let adv = ct.chars_read;
        let out = one(ct);
        assert forall|rest: Seq<ParseInfo>| #[trigger] tokens_ok(s@, i + adv, rest) implies tokens_ok(
            s@,
            i as int,
            out@ + rest,
        ) by {
            assert((out@ + rest).drop_first() =~= rest);
            assert(construct_tokens_ok(s@, i as int, out@ + rest));
        }
        return (out, i + adv);
    }
    let lt = loop_token(s, i);
    if !matches!(lt.token, TokenTypes::Unrecognized) && lt.chars_read > 0 && lt.chars_read <= n - i {
        let adv = lt.chars_read;
        let out = one(lt);
        assert forall|rest: Seq<ParseInfo>| #[trigger] tokens_ok(s@, i + adv, rest) implies tokens_ok(
            s@,
            i as int,
            out@ + rest,
        ) by {
            assert((out@ + rest).drop_first() =~= rest);
            assert(construct_tokens_ok(s@, i as int, out@ + rest));
        }
        return (out, i + adv);
    }
    let bt = block_construct_token(s, i);
    if !matches!(bt.token, TokenTypes::Unrecognized) && bt.chars_read > 0 && bt.chars_read <= n - i {
        let adv = bt.chars_read;
        let out = one(bt);
        assert forall|rest: Seq<ParseInfo>| #[trigger] tokens_ok(s@, i + adv, rest) implies tokens_ok(
            s@,
            i as int,
            out@ + rest,
        ) by {
            assert((out@ + rest).drop_first() =~= rest);
            assert(construct_tokens_ok(s@, i as int, out@ + rest));
        }
        return (out, i + adv);
    }
    if is_letter(c) {
        let k = alpha_run_at(s, i);
        if k > 0 && k <= n - i {
            return name_tokens(s, i, k);
        }
    }
    symbol_tokens(s, i)
}


/// The token of the name that starts at `i` of `s` and runs for `k`
/// letters.
fn name_tokens(s: &[char], i: usize, k: usize) -> (r: (Vec<ParseInfo>, usize))
    requires
        i < s@.len(),
        0 < k <= s@.len() - i,
        k == alpha_run(s@, i as int),
        name_here(s@, i as int),
        !is_ws(s@[i as int]),
        !construct_here(s@, i as int),
    ensures
        i < r.1 <= s@.len(),
        forall|rest: Seq<ParseInfo>| #[trigger] tokens_ok(s@, r.1 as int, rest) ==> tokens_ok(
            s@,
            i as int,
            r.0@ + rest,
        ),
{
    proof {
        reveal_strlit("func");
        reveal(name_here);
        crate::lexer::lemma_name_run(s@, i + 1);
        assert(crate::lexer::is_name_char(s@[i as int]));
        assert(name_run(s@, i as int) == 1 + name_run(s@, i + 1));
    }
    let n = s.len();
    let w = name_run_at(s, i);
    let word = slice_of(s, i, i + w);
    let b = boolean_at(s, i);
    let m = skip_whitespace(s, i + w);
    let out;
    let adv;
    if !matches!(b.token, TokenTypes::Unrecognized) && w == k {
        adv = k;
        out = one(b);
    } else {
        let call = if ((m < n && s[m] == '(') || (i + w < n && s[i + w] == '.'))
            && !crate::keyword::keyword_here(s, i, "func") {
            let t = call_token(s, i);
            if !matches!(t.token, TokenTypes::Unrecognized) && t.chars_read > 0 && t.chars_read <= n - i {
                Some(t)
            } else {
                None
            }
        } else {
            None
        };
        match call {
            Some(t) => {
                adv = t.chars_read;
                out = one(t);
            },
            None => {
                adv = w;
                out = one(ParseInfo::new(TokenTypes::VariableCall, w, string_of(word.as_slice())));
            },
        }
    }
    assert forall|rest: Seq<ParseInfo>| #[trigger] tokens_ok(s@, i + adv, rest) implies tokens_ok(
        s@,
        i as int,
        out@ + rest,
    ) by {
        assert((out@ + rest).drop_first() =~= rest);
        assert((out@ + rest)[0] == out@[0]);
        assert(name_tokens_ok(s@, i as int, out@ + rest));
    }
    (out, i + adv)
}

/// The token of the symbol, literal or number at `i` of `s`, if any.
fn symbol_tokens(s: &[char], i: usize) -> (r: (Vec<ParseInfo>, usize))
    requires
        i < s@.len(),
        !is_ws(s@[i as int]),
        !construct_here(s@, i as int),
        !name_here(s@, i as int),
    ensures
        i < r.1 <= s@.len(),
        forall|rest: Seq<ParseInfo>| #[trigger] tokens_ok(s@, r.1 as int, rest) ==> tokens_ok(
            s@,
            i as int,
            r.0@ + rest,
        ),
{
    let n = s.len();
    let c = s[i];
    proof {
        reveal(name_here);
        if letter(c) {
            crate::lexer::lemma_alpha_run(s@, i + 1);
            crate::lexer::lemma_alpha_run(s@, i as int);
            assert(alpha_run(s@, i as int) == 1 + alpha_run(s@, i + 1));
        }
        assert(!letter(c));
        crate::lexer::lemma_next_quote(s@, i + 1, c);
        crate::lexer::lemma_number_run(s@, i as int);
        if is_digit(c) {
            crate::lexer::lemma_number_run(s@, i + 1);
            assert(number_run(s@, i as int) == 1 + number_run(s@, i + 1));
            let text = s@.subrange(i as int, i + number_run(s@, i as int));
            assert(text[0] == c);
            assert(crate::lexer::has_digit(text));
        }
    }
    let next = if i + 1 < n { s[i + 1] } else { ' ' };
    assert(next == next_or_space(s@, i as int));
    let two: Vec<char> = vec![c, next];
    let single: Vec<char> = vec![c];
    let t;
    let adv: usize;
    if c == '=' && next == '>' && i + 2 <= n {
        t = ParseInfo::new(TokenTypes::FatArrow, 2, string_of(two.as_slice()));
        adv = 2;
    } else if c == '-' && next == '>' && i + 2 <= n {
        t = ParseInfo::new(TokenTypes::ReturnTypeAssignment, 2, string_of(two.as_slice()));
        adv = 2;
    } else if c == '[' {
        t = ParseInfo::new(TokenTypes::LeftBracket, 1, string_of(single.as_slice()));
        adv = 1;
    } else if c == ']' {
        t = ParseInfo::new(TokenTypes::RightBracket, 1, string_of(single.as_slice()));
        adv = 1;
    } else if c == ';' {
        t = ParseInfo::new(TokenTypes::SemiColon, 1, string_of(single.as_slice()));
        adv = 1;
    } else {
        let op = read_operators(String::new(), c, next, i);
        if !matches!(op.token, TokenTypes::Unrecognized) {
            assert(op.chars_read == 2 ==> i + 2 <= n);
            adv = op.chars_read;
            t = op;
        } else if c == '"' || c == '\'' {
            let q = quoted_at(s, c, i);
            if matches!(q.token, TokenTypes::Unrecognized) {
                assert forall|rest: Seq<ParseInfo>| #[trigger] tokens_ok(s@, i + 1, rest) implies tokens_ok(
                    s@,
                    i as int,
                    Seq::<ParseInfo>::empty() + rest,
                ) by {
                    assert(Seq::<ParseInfo>::empty() + rest =~= rest);
                    assert(symbol_tokens_ok(s@, i as int, rest));
                }
                return (Vec::new(), i + 1);
            }
            assert(q.chars_read >= 1 && q.chars_read <= n - i);
            adv = q.chars_read;
            t = q;
        } else if '0' <= c && c <= '9' {
            let num = number_at(s, i);
            if !matches!(num.token, TokenTypes::Unrecognized) {
                adv = num.chars_read;
                t = num;
            } else {
                assert forall|rest: Seq<ParseInfo>| #[trigger] tokens_ok(s@, i + 1, rest) implies tokens_ok(
                    s@,
                    i as int,
                    Seq::<ParseInfo>::empty() + rest,
                ) by {
                    assert(Seq::<ParseInfo>::empty() + rest =~= rest);
                    assert(symbol_tokens_ok(s@, i as int, rest));
                }
                return (Vec::new(), i + 1);
            }
        } else {
            assert forall|rest: Seq<ParseInfo>| #[trigger] tokens_ok(s@, i + 1, rest) implies tokens_ok(
                s@,
                i as int,
                Seq::<ParseInfo>::empty() + rest,
            ) by {
                assert(Seq::<ParseInfo>::empty() + rest =~= rest);
                assert(symbol_tokens_ok(s@, i as int, rest));
            }
            return (Vec::new(), i + 1);
        }
    }
    let out = one(t);
    assert forall|rest: Seq<ParseInfo>| #[trigger] tokens_ok(s@, i + adv, rest) implies tokens_ok(
        s@,
        i as int,
        out@ + rest,
    ) by {
        let toks = out@ + rest;
        assert(toks.drop_first() =~= rest);
        assert(toks[0] == t);
        if c == '=' && next == '>' {
            assert(t.value@ =~= seq!['=', '>']);
        } else if c == '-' && next == '>' {
            assert(t.value@ =~= seq!['-', '>']);
        } else if c == '[' || c == ']' || c == ';' {
            assert(t.value@ =~= seq![c]);
        } else if is_two_char_operator(c, next) {
            assert(operator_ok(c, next, t));
            assert(adv == 2);
        } else if is_one_char_operator(c) || punctuation(c) is Some {
            assert(operator_ok(c, next, t));
            assert(adv == 1);
        } else if (c == '"' || c == '\'') && crate::lexer::next_quote(s@, i + 1, c) < s@.len() {
            assert(quoted_ok(s@, c, i as int, t));
        } else {
            assert(number_ok(s@, i as int, t));
        }
        assert(symbol_tokens_ok(s@, i as int, toks));
    }
    (out, i + adv)
}

/// Splits one statement into its tokens, as `tokens_ok` describes them.
pub fn tokenize(expression: String) -> (r: Vec<ParseInfo>)
    ensures
        tokens_ok(expression@, 0, r@),
{
    let s = chars_of(expression.as_str());
    let n = s.len();
    let mut out: Vec<ParseInfo> = Vec::new();
    let mut i: usize = 0;
    while i < n
        invariant
            i <= n,
            n == s@.len(),
            s@ == expression@,
            forall|rest: Seq<ParseInfo>| #[trigger] tokens_ok(s@, i as int, rest) ==> tokens_ok(
                s@,
                0,
                out@ + rest,
            ),
        decreases n - i,
    {
        let (more, next) = next_tokens(s.as_slice(), i);
        let ghost before = out@;
        let ghost produced = more@;
        let mut more = more;
        out.append(&mut more);
        assert forall|rest: Seq<ParseInfo>| #[trigger] tokens_ok(s@, next as int, rest) implies tokens_ok(
            s@,
            0,
            out@ + rest,
        ) by {
            assert(tokens_ok(s@, i as int, produced + rest));
            assert(before + (produced + rest) =~= out@ + rest);
        }
        i = next;
    }
    assert(tokens_ok(s@, i as int, Seq::empty()));
    assert(out@ + Seq::<ParseInfo>::empty() =~= out@);
    out
}

} // verus!
