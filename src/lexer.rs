//! The basic recognisers of the tokenizer: names, booleans, operators and
//! punctuation, quoted literals and numbers.
//!
//! Each looks at the text from a position and gives a token with the number
//! of characters it took, or the "nothing recognised" token, which takes
//! none.

use vstd::prelude::*;
use crate::text::{letter, is_letter, is_digit, chars_of, string_of, slice_of};
use crate::token::{ParseInfo, TokenTypes};

verus! {

/// Number of letters from position `i` of `s` on.
pub open spec fn alpha_run(s: Seq<char>, i: int) -> int
    decreases s.len() - i,
{
    if 0 <= i < s.len() && letter(s[i]) {
        1 + alpha_run(s, i + 1)
    } else {
        0
    }
}

/// Whether `c` may stand in a name: a letter, a digit or `_`.
pub open spec fn is_name_char(c: char) -> bool {
    letter(c) || is_digit(c) || c == '_'
}

/// Number of name characters from position `i` of `s` on.
pub open spec fn name_run(s: Seq<char>, i: int) -> int
    decreases s.len() - i,
{
    if 0 <= i < s.len() && is_name_char(s[i]) {
        1 + name_run(s, i + 1)
    } else {
        0
    }
}

pub proof fn lemma_name_run(s: Seq<char>, i: int)
    requires
        0 <= i,
    ensures
        0 <= name_run(s, i),
        i + name_run(s, i) <= s.len() || name_run(s, i) == 0,
    decreases s.len() - i,
{
    if 0 <= i < s.len() && is_name_char(s[i]) {
        lemma_name_run(s, i + 1);
    }
}

/// The number of name characters of `s` from `i` on.
pub fn name_run_at(s: &[char], i: usize) -> (r: usize)
    ensures
        r as int == name_run(s@, i as int),
        i + r <= s@.len() || r == 0,
{
    proof {
        lemma_name_run(s@, i as int);
    }
    let mut j: usize = i;
    while j < s.len() && (is_letter(s[j]) || ('0' <= s[j] && s[j] <= '9') || s[j] == '_')
        invariant
            i <= j,
            j <= s@.len() || j == i,
            name_run(s@, i as int) == (j - i) + name_run(s@, j as int),
        decreases s@.len() - j,
    {
        j += 1;
    }
    j - i
}

/// Number of digits and points from position `i` of `s` on.
pub open spec fn number_run(s: Seq<char>, i: int) -> int
    decreases s.len() - i,
{
    if 0 <= i < s.len() && (is_digit(s[i]) || s[i] == '.') {
        1 + number_run(s, i + 1)
    } else {
        0
    }
}

/// Number of points in `s`.
pub open spec fn count_points(s: Seq<char>) -> int
    decreases s.len(),
{
    if s.len() == 0 {
        0
    } else {
        count_points(s.drop_last()) + if s.last() == '.' { 1int } else { 0int }
    }
}

/// Whether `s` holds a digit.
pub open spec fn has_digit(s: Seq<char>) -> bool {
    exists|k: int| 0 <= k < s.len() && is_digit(#[trigger] s[k])
}

/// Whether `w` is one of the boolean literals.
pub open spec fn is_bool_word(w: Seq<char>) -> bool {
    w == "True"@ || w == "False"@ || w == "true"@ || w == "false"@
}

/// Whether `r` is the token that stands for "nothing recognised".
pub open spec fn is_none(r: ParseInfo) -> bool {
    r.token == TokenTypes::Unrecognized && r.chars_read == 0 && r.value@ == "none"@
}

/// Whether `r` is a token of field-less kind `t`, taking `n` characters,
/// with text `v`.
pub open spec fn is_plain(r: ParseInfo, t: TokenTypes, n: int, v: Seq<char>) -> bool {
    r.token == t && r.chars_read == n && r.value@ == v
}

pub proof fn lemma_alpha_run(s: Seq<char>, i: int)
    requires
        0 <= i,
    ensures
        0 <= alpha_run(s, i),
        i + alpha_run(s, i) <= s.len() || alpha_run(s, i) == 0,
        forall|k: int| i <= k < i + alpha_run(s, i) ==> letter(#[trigger] s[k]),
        i + alpha_run(s, i) < s.len() ==> !letter(s[i + alpha_run(s, i)]),
    decreases s.len() - i,
{
    if 0 <= i < s.len() && letter(s[i]) {
        lemma_alpha_run(s, i + 1);
    }
}

/// The number of letters of `s` from `i` on.
pub fn alpha_run_at(s: &[char], i: usize) -> (r: usize)
    ensures
        r as int == alpha_run(s@, i as int),
        i + r <= s@.len() || r == 0,
{
    proof {
        lemma_alpha_run(s@, i as int);
    }
    let mut j: usize = i;
    while j < s.len() && is_letter(s[j])
        invariant
            i <= j,
            j <= s@.len() || j == i,
            alpha_run(s@, i as int) == (j - i) + alpha_run(s@, j as int),
        decreases s@.len() - j,
    {
        j += 1;
    }
    j - i
}

fn none_token() -> (r: ParseInfo)
    ensures
        is_none(r),
{
    let v: Vec<char> = vec!['n', 'o', 'n', 'e'];
    proof {
        reveal_strlit("none");
        assert(v@ =~= "none"@);
    }
    ParseInfo::new(TokenTypes::Unrecognized, 0, string_of(v.as_slice()))
}

/// What `read_object_call` gives for the text `s`.
pub open spec fn object_call_ok(s: Seq<char>, r: ParseInfo) -> bool {
    let k = alpha_run(s, 0);
    let name = s.subrange(0, k);
    if k < s.len() {
        if s[k] == '.' {
            (match r.token {
                TokenTypes::ObjectCall { name: n } => n@ == name,
                _ => false,
            }) && r.value@ == name && r.chars_read == s.len()
        } else {
            is_plain(r, TokenTypes::VariableCall, k, name)
        }
    } else {
        is_plain(r, TokenTypes::VariableCall, k, name)
    }
}

/// Reads the name of letters at the start of `expression`: followed by `.`
/// it is an object, otherwise a variable reference.
pub fn read_object_call(expression: &String) -> (r: ParseInfo)
    ensures
        object_call_ok(expression@, r),
{
    let s = chars_of(expression.as_str());
    let k = alpha_run_at(s.as_slice(), 0);
    let name = slice_of(s.as_slice(), 0, k);
    if k < s.len() {
        if s[k] == '.' {
            let n1 = string_of(name.as_slice());
            let n2 = string_of(name.as_slice());
            ParseInfo::new(TokenTypes::ObjectCall { name: n1 }, s.len(), n2)
        } else {
            ParseInfo::new(TokenTypes::VariableCall, k, string_of(name.as_slice()))
        }
    } else {
        ParseInfo::new(TokenTypes::VariableCall, k, string_of(name.as_slice()))
    }
}

/// What `read_boolean` gives for the text `s` at `index`.
pub open spec fn boolean_ok(s: Seq<char>, index: int, r: ParseInfo) -> bool {
    let k = alpha_run(s, index);
    let word = s.subrange(index, index + k);
    if index <= s.len() && is_bool_word(word) {
        is_plain(r, TokenTypes::Bool, k, word)
    } else {
        is_none(r)
    }
}

/// The boolean literal at `index` of `s`, if the run of letters there is
/// one.
pub fn boolean_at(s: &[char], index: usize) -> (r: ParseInfo)
    ensures
        boolean_ok(s@, index as int, r),
{
    let k = alpha_run_at(s, index);
    if index > s.len() {
        return none_token();
    }
    let word = slice_of(s, index, index + k);
    let w = string_of(word.as_slice());
    let t1 = String::from_str("True");
    let t2 = String::from_str("False");
    let t3 = String::from_str("true");
    let t4 = String::from_str("false");
    if w == t1 || w == t2 || w == t3 || w == t4 {
        ParseInfo::new(TokenTypes::Bool, k, w)
    } else {
        none_token()
    }
}

/// Reads a boolean literal, `True`, `False`, `true` or `false`, as a whole
/// run of letters at `index`.
pub fn read_boolean(expression: String, index: usize) -> (r: ParseInfo)
    ensures
        boolean_ok(expression@, index as int, r),
{
    let s = chars_of(expression.as_str());
    boolean_at(s.as_slice(), index)
}

/// The two-character operators.
pub open spec fn is_two_char_operator(a: char, b: char) -> bool {
    (a == '=' && b == '=') || (a == '!' && b == '=') || (a == '>' && b == '=') || (a == '<'
        && b == '=') || (a == '&' && b == '&') || (a == '|' && b == '|') || (a == '+' && b
        == '+') || (a == '-' && b == '-') || (a == '.' && b == '.')
}

/// The one-character operators.
pub open spec fn is_one_char_operator(a: char) -> bool {
    a == '+' || a == '-' || a == '*' || a == '/' || a == '>' || a == '<' || a == '!'
}

/// The punctuation token of the character `a`, if it is one.
pub open spec fn punctuation(a: char) -> Option<TokenTypes> {
    if a == '(' {
        Some(TokenTypes::LeftParenthesis)
    } else if a == ')' {
        Some(TokenTypes::RightParenthesis)
    } else if a == '{' {
        Some(TokenTypes::LeftCurly)
    } else if a == '}' {
        Some(TokenTypes::RightCurly)
    } else if a == ',' {
        Some(TokenTypes::ArgumentSeparator)
    } else if a == '=' {
        Some(TokenTypes::AssignmentOperator)
    } else {
        None
    }
}

/// What `read_operators` gives for the characters `a` and `b`.
pub open spec fn operator_ok(a: char, b: char, r: ParseInfo) -> bool {
    if is_two_char_operator(a, b) {
        is_plain(r, TokenTypes::Operator, 2, seq![a, b])
    } else if is_one_char_operator(a) {
        is_plain(r, TokenTypes::Operator, 1, seq![a])
    } else if let Some(t) = punctuation(a) {
        is_plain(r, t, 1, seq![a])
    } else {
        is_none(r)
    }
}

/// Reads an operator or a punctuation mark from the character `char` and
/// the one after it, `next_char`: two-character operators are tried first.
pub fn read_operators(_expression: String, char: char, next_char: char, _index: usize) -> (r:
    ParseInfo)
    ensures
        operator_ok(char, next_char, r),
{
    let a = char;
    let b = next_char;
    if (a == '=' && b == '=') || (a == '!' && b == '=') || (a == '>' && b == '=') || (a == '<'
        && b == '=') || (a == '&' && b == '&') || (a == '|' && b == '|') || (a == '+' && b
        == '+') || (a == '-' && b == '-') || (a == '.' && b == '.') {
        let v: Vec<char> = vec![a, b];
        return ParseInfo::new(TokenTypes::Operator, 2, string_of(v.as_slice()));
    }
    let v: Vec<char> = vec![a];
    let text = string_of(v.as_slice());
    assert(text@ =~= seq![a]);
    if a == '+' || a == '-' || a == '*' || a == '/' || a == '>' || a == '<' || a == '!' {
        ParseInfo::new(TokenTypes::Operator, 1, text)
    } else if a == '(' {
        ParseInfo::new(TokenTypes::LeftParenthesis, 1, text)
    } else if a == ')' {
        ParseInfo::new(TokenTypes::RightParenthesis, 1, text)
    } else if a == '{' {
        ParseInfo::new(TokenTypes::LeftCurly, 1, text)
    } else if a == '}' {
        ParseInfo::new(TokenTypes::RightCurly, 1, text)
    } else if a == ',' {
        ParseInfo::new(TokenTypes::ArgumentSeparator, 1, text)
    } else if a == '=' {
        ParseInfo::new(TokenTypes::AssignmentOperator, 1, text)
    } else {
        none_token()
    }
}

/// Position of the first `c` in `s` after `i`, or the length of `s`.
pub open spec fn next_quote(s: Seq<char>, i: int, c: char) -> int
    decreases s.len() - i,
{
    if i >= s.len() {
        s.len() as int
    } else if s[i] == c {
        i
    } else {
        next_quote(s, i + 1, c)
    }
}

/// What `read_strings_chars` gives for the quote `q` at `index` of `s`.
pub open spec fn quoted_ok(s: Seq<char>, q: char, index: int, r: ParseInfo) -> bool {
    if (q == '"' || q == '\'') && index < s.len() {
        let end = next_quote(s, index + 1, q);
        if end < s.len() {
            is_plain(
                r,
                if q == '"' { TokenTypes::String } else { TokenTypes::Char },
                end - index + 1,
                s.subrange(index, end + 1),
            )
        } else {
            is_none(r)
        }
    } else {
        is_none(r)
    }
}

pub proof fn lemma_next_quote(s: Seq<char>, i: int, c: char)
    ensures
        i <= s.len() ==> i <= next_quote(s, i, c) <= s.len(),
        i > s.len() ==> next_quote(s, i, c) == s.len(),
    decreases s.len() - i,
{
    if i < s.len() && s[i] != c {
        lemma_next_quote(s, i + 1, c);
    }
}

/// The quoted literal that opens with `q` at `index` of `s`.
pub fn quoted_at(s: &[char], q: char, index: usize) -> (r: ParseInfo)
    ensures
        quoted_ok(s@, q, index as int, r),
{
    if !((q == '"' || q == '\'') && index < s.len()) {
        return none_token();
    }
    let mut j: usize = index + 1;
    proof {
        lemma_next_quote(s@, index + 1, q);
    }
    while j < s.len() && s[j] != q
        invariant
            index < j <= s@.len(),
            next_quote(s@, j as int, q) == next_quote(s@, index + 1, q),
        decreases s@.len() - j,
    {
        j += 1;
    }
    if j < s.len() {
        let text = string_of(slice_of(s, index, j + 1).as_slice());
        if q == '"' {
            ParseInfo::new(TokenTypes::String, j - index + 1, text)
        } else {
            ParseInfo::new(TokenTypes::Char, j - index + 1, text)
        }
    } else {
        none_token()
    }
}

/// Reads a string literal (between `"`) or a character literal (between
/// `'`) that opens with `char` at `index`, quotes included. A literal that
/// is never closed is no match.
pub fn read_strings_chars(expression: String, char: char, index: usize) -> (r: ParseInfo)
    ensures
        quoted_ok(expression@, char, index as int, r),
{
    let s = chars_of(expression.as_str());
    quoted_at(s.as_slice(), char, index)
}

/// What `read_numbers` gives at `index` of `s`.
pub open spec fn number_ok(s: Seq<char>, index: int, r: ParseInfo) -> bool {
    let k = number_run(s, index);
    let text = s.subrange(index, index + k);
    if index <= s.len() && count_points(text) <= 1 && has_digit(text) {
        is_plain(
            r,
            if count_points(text) == 0 { TokenTypes::Int } else { TokenTypes::Float },
            k,
            text,
        )
    } else {
        is_none(r)
    }
}

pub proof fn lemma_number_run(s: Seq<char>, i: int)
    requires
        0 <= i,
    ensures
        0 <= number_run(s, i),
        i + number_run(s, i) <= s.len() || number_run(s, i) == 0,
    decreases s.len() - i,
{
    if 0 <= i < s.len() && (is_digit(s[i]) || s[i] == '.') {
        lemma_number_run(s, i + 1);
    }
}

/// The number literal at `index` of `s`.
pub fn number_at(s: &[char], index: usize) -> (r: ParseInfo)
    ensures
        number_ok(s@, index as int, r),
{
    proof {
        lemma_number_run(s@, index as int);
    }
    if index > s.len() {
        return none_token();
    }
    let mut j: usize = index;
    let mut points: usize = 0;
    let mut digit = false;
    while j < s.len() && (('0' <= s[j] && s[j] <= '9') || s[j] == '.')
        invariant
            index <= j <= s@.len(),
            number_run(s@, index as int) == (j - index) + number_run(s@, j as int),
            points as int == count_points(s@.subrange(index as int, j as int)),
            points <= j - index,
            digit == has_digit(s@.subrange(index as int, j as int)),
        decreases s@.len() - j,
    {
        let ghost before = s@.subrange(index as int, j as int);
        let ghost after = s@.subrange(index as int, j + 1);
        assert(after.drop_last() =~= before);
        if s[j] == '.' {
            points += 1;
        } else {
            digit = true;
            assert(after[j - index] == s@[j as int]);
        }
        proof {
            if has_digit(after) && !has_digit(before) {
                let k = choose|k: int| 0 <= k < after.len() && is_digit(#[trigger] after[k]);
                if k < before.len() {
                    assert(before[k] == after[k]);
                }
            }
            if has_digit(before) {
                let k = choose|k: int| 0 <= k < before.len() && is_digit(#[trigger] before[k]);
                assert(after[k] == before[k]);
            }
        }
        j += 1;
    }
    if points <= 1 && digit {
        let text = string_of(slice_of(s, index, j).as_slice());
        if points == 0 {
            ParseInfo::new(TokenTypes::Int, j - index, text)
        } else {
            ParseInfo::new(TokenTypes::Float, j - index, text)
        }
    } else {
        none_token()
    }
}

/// Reads a number at `index`: a run of digits and points, with at least one
/// digit and at most one point. Without a point it is an integer, with one a
/// decimal.
pub fn read_numbers(expression: String, _char: char, index: usize) -> (r: ParseInfo)
    ensures
        number_ok(expression@, index as int, r),
{
    let s = chars_of(expression.as_str());
    number_at(s.as_slice(), index)
}

} // verus!
