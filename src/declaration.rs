//! The recogniser of declarations: `let name: type` and
//! `let name: array<type>` or `let name: dict<key, value>`.

use vstd::prelude::*;
use crate::keyword::{keyword_at, keyword_here, next_char_at, skip_ws, skip_whitespace};
use crate::lexer::next_quote;
use crate::scan::{find_char, find_char_in, lemma_find_char_le};
use crate::text::{is_ws, is_whitespace, string_of, slice_of, trim_chars, trim_seq, concat_chars, chars_of};
use crate::token::{ParseInfo, TokenTypes};

verus! {

/// The declaration that `let` starts at `i` of `s`.
pub enum Declared {
    /// A variable: its name, its type, and where the type ends.
    Variable { name: Seq<char>, ty: Seq<char>, end: int },
    /// A collection: its name, kind, element type, key and value types, the
    /// written type, and where the header ends (at the `=`).
    Collection {
        name: Seq<char>,
        kind: Seq<char>,
        single: Seq<char>,
        pair: (Seq<char>, Seq<char>),
        written: Seq<char>,
        end: int,
    },
}

/// Position of the first character from `i` on that is white space, `=` or
/// `;` (or the length of `s`).
pub open spec fn word_end(s: Seq<char>, i: int) -> int
    decreases s.len() - i,
{
    if 0 <= i < s.len() && !is_ws(s[i]) && s[i] != '=' && s[i] != ';' {
        word_end(s, i + 1)
    } else {
        i
    }
}

/// The declaration at `i` of `s`, if `let` starts one there.
pub open spec fn declaration_at(s: Seq<char>, i: int) -> Option<Declared> {
    if keyword_at(s, i, "let"@) && i + 3 < s.len() && is_ws(s[i + 3]) {
        let colon = next_quote(s, i + 3, ':');
        if colon < s.len() {
            let name = trim_seq(s.subrange(i + 3, colon));
            let eq = next_quote(s, colon + 1, '=');
            let header = s.subrange(colon + 1, eq);
            let lt = find_char(header, '<');
            if lt < header.len() {
                let gt = find_char(header, '>');
                if lt < gt && gt < header.len() {
                    let inner = header.subrange(lt + 1, gt);
                    let comma = find_char(inner, ',');
                    Some(Declared::Collection {
                        name,
                        kind: trim_seq(header.subrange(0, lt)),
                        single: if comma < inner.len() { Seq::empty() } else { trim_seq(inner) },
                        pair: if comma < inner.len() {
                            (trim_seq(inner.subrange(0, comma)), trim_seq(inner.subrange(comma + 1, inner.len() as int)))
                        } else {
                            (Seq::empty(), Seq::empty())
                        },
                        written: trim_seq(header.subrange(0, gt + 1)),
                        end: eq,
                    })
                } else {
                    None
                }
            } else {
                let t0 = skip_ws(s, colon + 1);
                let tend = word_end(s, t0);
                if t0 < tend {
                    Some(Declared::Variable { name, ty: s.subrange(t0, tend), end: tend })
                } else {
                    None
                }
            }
        } else {
            None
        }
    } else {
        None
    }
}

/// The text that a collection declaration's token carries:
/// `name: <name> collection_type: <written type>`.
pub open spec fn collection_text(name: Seq<char>, written: Seq<char>) -> Seq<char> {
    "name: "@ + name + " collection_type: "@ + written
}

/// What `declaration_tokens` gives at `i` of `s`: the tokens of the
/// declaration there, or none.
pub open spec fn declaration_ok(s: Seq<char>, i: int, r: Seq<ParseInfo>) -> bool {
    match declaration_at(s, i) {
        Some(Declared::Variable { name, ty, end }) => r.len() == 2 && r[0].token
            == TokenTypes::Variable && r[0].chars_read == name.len() && r[0].value@ == name
            && r[1].token == TokenTypes::VarTypeAssignment && r[1].chars_read == end - i
            && r[1].value@ == ty,
        Some(Declared::Collection { name, kind, single, pair, written, end }) => r.len() == 1
            && r[0].chars_read == end - i && r[0].value@ == collection_text(name, written)
            && match r[0].token {
            TokenTypes::Collection {
                name: n,
                collection_type,
                stored_value_type_single,
                stored_value_type_tuple,
            } => n@ == name && collection_type@ == kind && stored_value_type_single@ == single
                && stored_value_type_tuple.0@ == pair.0 && stored_value_type_tuple.1@ == pair.1,
            _ => false,
        },
        None => r.len() == 0,
    }
}

proof fn lemma_word_end(s: Seq<char>, i: int)
    requires
        0 <= i <= s.len(),
    ensures
        i <= word_end(s, i) <= s.len(),
    decreases s.len() - i,
{
    if 0 <= i < s.len() && !is_ws(s[i]) && s[i] != '=' && s[i] != ';' {
        lemma_word_end(s, i + 1);
    }
}

/// The tokens of the declaration that `let` starts at `i` of `s`: a
/// variable gives its name and its type, a collection one token.
pub fn declaration_tokens(s: &[char], i: usize) -> (r: Vec<ParseInfo>)
    ensures
        declaration_ok(s@, i as int, r@),
{
    proof {
        reveal_strlit("let");
    }
    if !keyword_here(s, i, "let") {
        return Vec::new();
    }
    assert(i + 3 <= s.len());
    if !(i + 3 < s.len() && is_whitespace(s[i + 3])) {
        return Vec::new();
    }
    let colon = next_char_at(s, i + 3, ':');
    if colon >= s.len() {
        return Vec::new();
    }
    let name = trim_chars(slice_of(s, i + 3, colon).as_slice());
    let eq = next_char_at(s, colon + 1, '=');
    let header = slice_of(s, colon + 1, eq);
    let lt = find_char_in(header.as_slice(), '<');
    proof {
        lemma_find_char_le(header@, '<');
        lemma_find_char_le(header@, '>');
    }
    if lt < header.len() {
        let gt = find_char_in(header.as_slice(), '>');
        if !(lt < gt && gt < header.len()) {
            return Vec::new();
        }
        let inner = slice_of(header.as_slice(), lt + 1, gt);
        let comma = find_char_in(inner.as_slice(), ',');
        proof {
            lemma_find_char_le(inner@, ',');
        }
        let kind = trim_chars(slice_of(header.as_slice(), 0, lt).as_slice());
        let (single, first, second) = if comma < inner.len() {
            (
                Vec::new(),
                trim_chars(slice_of(inner.as_slice(), 0, comma).as_slice()),
                trim_chars(slice_of(inner.as_slice(), comma + 1, inner.len()).as_slice()),
            )
        } else {
            (trim_chars(inner.as_slice()), Vec::new(), Vec::new())
        };
        let written = trim_chars(slice_of(header.as_slice(), 0, gt + 1).as_slice());
        let label = concat_chars(
            concat_chars(concat_chars(chars_of("name: ").as_slice(), name.as_slice()).as_slice(),
                chars_of(" collection_type: ").as_slice()).as_slice(),
            written.as_slice(),
        );
        let token = TokenTypes::Collection {
            name: string_of(name.as_slice()),
            collection_type: string_of(kind.as_slice()),
            stored_value_type_single: string_of(single.as_slice()),
            stored_value_type_tuple: (string_of(first.as_slice()), string_of(second.as_slice())),
        };
        let mut out: Vec<ParseInfo> = Vec::new();
        out.push(ParseInfo::new(token, eq - i, string_of(label.as_slice())));
        proof {
            assert(single@ =~= (if comma < inner@.len() { Seq::<char>::empty() } else { trim_seq(inner@) }));
        }
        return out;
    }
    let t0 = skip_whitespace(s, colon + 1);
    let mut tend = t0;
    proof {
        lemma_word_end(s@, t0 as int);
    }
    while tend < s.len() && !is_whitespace(s[tend]) && s[tend] != '=' && s[tend] != ';'
        invariant
            t0 <= tend <= s@.len(),
            word_end(s@, tend as int) == word_end(s@, t0 as int),
        decreases s@.len() - tend,
    {
        tend += 1;
    }
    if t0 >= tend {
        return Vec::new();
    }
    let ty = slice_of(s, t0, tend);
    let mut out: Vec<ParseInfo> = Vec::new();
    out.push(ParseInfo::new(TokenTypes::Variable, name.len(), string_of(name.as_slice())));
    out.push(ParseInfo::new(TokenTypes::VarTypeAssignment, tend - i, string_of(ty.as_slice())));
    out
}

} // verus!
