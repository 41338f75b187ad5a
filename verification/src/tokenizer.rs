//! The tokenizer: a single left-to-right scan that groups characters into
//! tokens. Digits and `.` form one greedy numeric literal, lower-case letters
//! form one greedy name (reclassified as a constant or a function name), each
//! operator symbol and each parenthesis is a token of its own, and any other
//! character is silently skipped.

use vstd::prelude::*;
use vstd::string::*;

use crate::token::{
    operator_precedence, spec_of_alphabeticals, spec_of_char, spec_precedence, tok_views,
    SpecToken, Token, TokenType,
};

verus! {

/// The length of the longest prefix of `s` whose characters all classify as
/// `cls`.
pub open spec fn run_len(s: Seq<char>, cls: TokenType) -> nat
    decreases s.len(),
{
    if s.len() == 0 || spec_of_char(s[0]) != cls {
        0
    } else {
        1 + run_len(s.skip(1), cls)
    }
}

/// A run is never longer than the text it starts.
pub proof fn lemma_run_len_le(s: Seq<char>, cls: TokenType)
    ensures
        run_len(s, cls) <= s.len(),
    decreases s.len(),
{
    if s.len() == 0 || spec_of_char(s[0]) != cls {
    } else {
        lemma_run_len_le(s.skip(1), cls);
    }
}

/// The run length is the unique `k` such that the first `k` characters
/// classify as `cls` and the text ends or changes class at `k`.
pub proof fn lemma_run_len_is(s: Seq<char>, cls: TokenType, k: int)
    requires
        0 <= k <= s.len(),
        forall|m: int| 0 <= m < k ==> spec_of_char(s[m]) == cls,
        k == s.len() || spec_of_char(s[k]) != cls,
    ensures
        run_len(s, cls) == k,
    decreases k,
{
    if k == 0 {
    } else {
        assert(spec_of_char(s[0]) == cls);
        assert forall|m: int| 0 <= m < k - 1 implies spec_of_char(s.skip(1)[m]) == cls by {
            assert(s.skip(1)[m] == s[m + 1]);
        }
        if k < s.len() {
            assert(s.skip(1)[k - 1] == s[k]);
        }
        lemma_run_len_is(s.skip(1), cls, k - 1);
    }
}

/// The token sequence that the scan of `s` produces, in input order.
pub open spec fn spec_tokenize(s: Seq<char>) -> Seq<SpecToken>
    decreases s.len(),
    via spec_tokenize_decreases
{
    if s.len() == 0 {
        Seq::empty()
    } else {
        let c = s[0];
        match spec_of_char(c) {
            TokenType::Operator => seq![
                (SpecToken {
                    kind: TokenType::Operator,
                    text: seq![c],
                    prec: spec_precedence(seq![c]),
                }),
            ] + spec_tokenize(s.skip(1)),
            TokenType::Numeric => {
                let n = 1 + run_len(s.skip(1), TokenType::Numeric);
                seq![(SpecToken { kind: TokenType::Numeric, text: s.take(n as int), prec: 0 })]
                    + spec_tokenize(s.skip(n as int))
            },
            TokenType::Alphabetical => {
                let n = 1 + run_len(s.skip(1), TokenType::Alphabetical);
                let t = s.take(n as int);
                seq![(SpecToken { kind: spec_of_alphabeticals(t), text: t, prec: 0 })]
                    + spec_tokenize(s.skip(n as int))
            },
            TokenType::LeftParen => seq![
                (SpecToken { kind: TokenType::LeftParen, text: seq!['('], prec: 0 }),
            ] + spec_tokenize(s.skip(1)),
            TokenType::RightParen => seq![
                (SpecToken { kind: TokenType::RightParen, text: seq![')'], prec: 0 }),
            ] + spec_tokenize(s.skip(1)),
            _ => spec_tokenize(s.skip(1)),
        }
    }
}

#[via_fn]
proof fn spec_tokenize_decreases(s: Seq<char>) {
    if s.len() > 0 {
        lemma_run_len_le(s.skip(1), TokenType::Numeric);
        lemma_run_len_le(s.skip(1), TokenType::Alphabetical);
    }
}

/// Scans `expression` once, left to right, and returns its tokens in input
/// order, exactly as [`spec_tokenize`] describes.
pub fn tokenize(expression: &str) -> (r: Vec<Token>)
    ensures
        tok_views(r@) == spec_tokenize(expression@),
{
    let ghost s = expression@;
    let n = expression.unicode_len();
    let mut result: Vec<Token> = Vec::new();
    let mut i: usize = 0;
    proof {
        assert(s.skip(0) =~= s);
        assert(tok_views(result@) + spec_tokenize(s) =~~= spec_tokenize(s));
    }
    while i < n
        invariant
            i <= n,
            n == s.len(),
            s == expression@,
            tok_views(result@) + spec_tokenize(s.skip(i as int)) == spec_tokenize(s),
        decreases n - i,
    {
        let ghost si = s.skip(i as int);
        proof {
            assert(si.len() == n - i);
            assert(si[0] == s[i as int]);
        }
        let c = expression.get_char(i);
        match TokenType::of_char(c) {
            TokenType::Operator => {
                let text = expression.substring_char(i, i + 1).to_owned();
                let prec = operator_precedence(&text);
                let tok = Token { kind: TokenType::Operator, text, prec };
                proof {
                    assert(tok.text@ =~= seq![c]);
                    let st = SpecToken {
                        kind: TokenType::Operator,
                        text: seq![c],
                        prec: spec_precedence(seq![c]),
                    };
                    assert(spec_tokenize(si) == seq![st] + spec_tokenize(si.skip(1)));
                    assert(si.skip(1) =~= s.skip(i as int + 1));
                    assert(tok@ == st);
                    assert(tok_views(result@.push(tok)) + spec_tokenize(s.skip(i as int + 1))
                        =~~= tok_views(result@) + spec_tokenize(si));
                }
                result.push(tok);
                i = i + 1;
            },
            TokenType::Numeric => {
                let j = scan_run(expression, i, n, TokenType::Numeric);
                let text = expression.substring_char(i, j).to_owned();
                let tok = Token { kind: TokenType::Numeric, text, prec: 0 };
                proof {
                    lemma_scan_run_matches(s, i as int, j as int, TokenType::Numeric);
                    assert(spec_tokenize(si) == seq![tok@] + spec_tokenize(s.skip(j as int)));
                    assert(tok_views(result@.push(tok)) + spec_tokenize(s.skip(j as int))
                        =~~= tok_views(result@) + spec_tokenize(si));
                }
                result.push(tok);
                i = j;
            },
            TokenType::Alphabetical => {
                let j = scan_run(expression, i, n, TokenType::Alphabetical);
                let text = expression.substring_char(i, j).to_owned();
                let kind = TokenType::of_alphabeticals(text.clone());
                let tok = Token { kind, text, prec: 0 };
                proof {
                    lemma_scan_run_matches(s, i as int, j as int, TokenType::Alphabetical);
                    assert(spec_tokenize(si) == seq![tok@] + spec_tokenize(s.skip(j as int)));
                    assert(tok_views(result@.push(tok)) + spec_tokenize(s.skip(j as int))
                        =~~= tok_views(result@) + spec_tokenize(si));
                }
                result.push(tok);
                i = j;
            },
            TokenType::LeftParen => {
                let text = expression.substring_char(i, i + 1).to_owned();
                let tok = Token { kind: TokenType::LeftParen, text, prec: 0 };
                proof {
                    assert(tok.text@ =~= seq![c]);
                    let st = SpecToken { kind: TokenType::LeftParen, text: seq!['('], prec: 0 };
                    assert(spec_tokenize(si) == seq![st] + spec_tokenize(si.skip(1)));
                    assert(si.skip(1) =~= s.skip(i as int + 1));
                    assert(tok@ == st);
                    assert(tok_views(result@.push(tok)) + spec_tokenize(s.skip(i as int + 1))
                        =~~= tok_views(result@) + spec_tokenize(si));
                }
                result.push(tok);
                i = i + 1;
            },
            TokenType::RightParen => {
                let text = expression.substring_char(i, i + 1).to_owned();
                let tok = Token { kind: TokenType::RightParen, text, prec: 0 };
                proof {
                    assert(tok.text@ =~= seq![c]);
                    let st = SpecToken { kind: TokenType::RightParen, text: seq![')'], prec: 0 };
                    assert(spec_tokenize(si) == seq![st] + spec_tokenize(si.skip(1)));
                    assert(si.skip(1) =~= s.skip(i as int + 1));
                    assert(tok@ == st);
                    assert(tok_views(result@.push(tok)) + spec_tokenize(s.skip(i as int + 1))
                        =~~= tok_views(result@) + spec_tokenize(si));
                }
                result.push(tok);
                i = i + 1;
            },
            _ => {
                proof {
                    assert(spec_tokenize(si) == spec_tokenize(si.skip(1)));
                    assert(si.skip(1) =~= s.skip(i as int + 1));
                }
                i = i + 1;
            },
        }
    }
    proof {
        assert(s.skip(n as int) =~= Seq::<char>::empty());
        assert(spec_tokenize(s.skip(n as int)) =~~= Seq::<SpecToken>::empty());
        assert(tok_views(result@) + Seq::<SpecToken>::empty() =~~= tok_views(result@));
    }
    result
}

/// Extends a greedy run: returns the first position at or after `from + 1`
/// where the text ends or the character's class differs from `cls`.
fn scan_run(expression: &str, from: usize, n: usize, cls: TokenType) -> (j: usize)
    requires
        n == expression@.len(),
        from < n,
        spec_of_char(expression@[from as int]) == cls,
    ensures
        from < j <= n,
        forall|m: int| from <= m < j ==> spec_of_char(expression@[m]) == cls,
        j == n || spec_of_char(expression@[j as int]) != cls,
{
    let mut j = from + 1;
    while j < n
        invariant
            from < j <= n,
            n == expression@.len(),
            forall|m: int| from <= m < j ==> spec_of_char(expression@[m]) == cls,
        ensures
            from < j <= n,
            forall|m: int| from <= m < j ==> spec_of_char(expression@[m]) == cls,
            j == n || spec_of_char(expression@[j as int]) != cls,
        decreases n - j,
    {
        let c2 = expression.get_char(j);
        if TokenType::of_char(c2) == cls {
            j = j + 1;
        } else {
            break;
        }
    }
    j
}

/// Connects one finished greedy run to the spec: when the characters from
/// `i` to `j` all classify as `cls` and the run ends at `j`, the spec's run
/// length at `i` is `j - i`, the token text is the consumed substring, and
/// the scan continues at `j`.
proof fn lemma_scan_run_matches(s: Seq<char>, i: int, j: int, cls: TokenType)
    requires
        0 <= i < j <= s.len(),
        forall|m: int| i <= m < j ==> spec_of_char(s[m]) == cls,
        j == s.len() || spec_of_char(s[j]) != cls,
    ensures
        1 + run_len(s.skip(i).skip(1), cls) == j - i,
        s.skip(i).take(j - i) == s.subrange(i, j),
        s.skip(i).skip(j - i) == s.skip(j),
{
    let si = s.skip(i);
    assert forall|m: int| 0 <= m < j - i implies spec_of_char(si[m]) == cls by {
        assert(si[m] == s[i + m]);
    }
    if j < s.len() {
        assert(si[j - i] == s[j]);
    }
    lemma_run_len_is(si, cls, j - i);
    assert(spec_of_char(si[0]) == cls);
    assert(run_len(si, cls) == 1 + run_len(si.skip(1), cls));
    assert(si.take(j - i) =~= s.subrange(i, j));
    assert(si.skip(j - i) =~= s.skip(j));
}

} // verus!
