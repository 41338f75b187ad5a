//! Tokens and the character/operator classification tables.

use vstd::prelude::*;
use vstd::string::*;

verus! {

/// The lexical class of a single character, and the class a finished token
/// carries. Characters classify as `Numeric` (digits and `.`), `Alphabetical`
/// (lower-case letters), `Operator` (`+ - * / % ^`), parentheses, or
/// `Invalid`. A finished run of letters is reclassified as `Numeric` (a named
/// constant) or `Functional` (a prefix function name).
#[derive(Clone, Copy, Debug, PartialEq, Eq, Structural)]
pub enum TokenType {
    Numeric,
    Alphabetical,
    Functional,
    Operator,
    LeftParen,
    RightParen,
    Invalid,
}

/// The grouping direction of consecutive operators of equal precedence.
#[derive(Clone, Copy, Debug, PartialEq, Eq, Structural)]
pub enum OperatorAssoc {
    LeftAssoc,
    RightAssoc,
}

/// The arity class of an operator symbol at evaluation time: a named prefix
/// function (`Unary`), an arithmetic symbol (`Binary`), or nothing known
/// (`NoOp`).
#[derive(Clone, Copy, Debug, PartialEq, Eq, Structural)]
pub enum OperatorType {
    Unary,
    Binary,
    NoOp,
}

/// The lexical class of one character.
pub open spec fn spec_of_char(c: char) -> TokenType {
    if c == '.' || ('0' as u32 <= c as u32 && c as u32 <= '9' as u32) {
        TokenType::Numeric
    } else if 'a' as u32 <= c as u32 && c as u32 <= 'z' as u32 {
        TokenType::Alphabetical
    } else if c == '+' || c == '-' || c == '*' || c == '/' || c == '%' || c == '^' {
        TokenType::Operator
    } else if c == '(' {
        TokenType::LeftParen
    } else if c == ')' {
        TokenType::RightParen
    } else {
        TokenType::Invalid
    }
}

/// `s` is exactly the one-character text `a`.
pub open spec fn is_char1(s: Seq<char>, a: char) -> bool {
    s.len() == 1 && s[0] == a
}

/// `s` is exactly the two-character text `a b`.
pub open spec fn is_char2(s: Seq<char>, a: char, b: char) -> bool {
    s.len() == 2 && s[0] == a && s[1] == b
}

/// `s` is exactly the three-character text `a b c`.
pub open spec fn is_char3(s: Seq<char>, a: char, b: char, c: char) -> bool {
    s.len() == 3 && s[0] == a && s[1] == b && s[2] == c
}

/// The name of a known constant: `pi` or `e`.
pub open spec fn spec_is_constant_name(s: Seq<char>) -> bool {
    is_char2(s, 'p', 'i') || is_char1(s, 'e')
}

/// The class a finished run of letters takes: a known constant name becomes
/// a `Numeric` token (resolved to its value at evaluation time), any other
/// name a `Functional` token.
pub open spec fn spec_of_alphabeticals(s: Seq<char>) -> TokenType {
    if spec_is_constant_name(s) {
        TokenType::Numeric
    } else {
        TokenType::Functional
    }
}

/// The precedence rank of an operator text: `^` binds tightest, then `*` and
/// `/`, then `+` and `-`; anything else ranks lowest.
pub open spec fn spec_precedence(s: Seq<char>) -> int {
    if is_char1(s, '^') {
        4
    } else if is_char1(s, '*') || is_char1(s, '/') {
        3
    } else if is_char1(s, '+') || is_char1(s, '-') {
        2
    } else {
        1
    }
}

/// The associativity of an operator text: `^` groups to the right, all
/// others to the left.
pub open spec fn spec_assoc(s: Seq<char>) -> OperatorAssoc {
    if is_char1(s, '^') {
        OperatorAssoc::RightAssoc
    } else {
        OperatorAssoc::LeftAssoc
    }
}

/// The first character of a text, or a space when the text is empty.
pub open spec fn spec_first_char(s: Seq<char>) -> char {
    if s.len() == 0 {
        ' '
    } else {
        s[0]
    }
}

/// The arity class of an operator text: a text starting with a letter names
/// a prefix function; `+ - * / ^` are the binary symbols; everything else is
/// unknown.
pub open spec fn spec_of_operator(s: Seq<char>) -> OperatorType {
    if spec_of_char(spec_first_char(s)) is Alphabetical {
        OperatorType::Unary
    } else if is_char1(s, '+') || is_char1(s, '-') || is_char1(s, '*') || is_char1(s, '/')
        || is_char1(s, '^') {
        OperatorType::Binary
    } else {
        OperatorType::NoOp
    }
}

impl TokenType {
    /// Classifies one character.
    pub fn of_char(c: char) -> (t: TokenType)
        ensures
            t == spec_of_char(c),
    {
        if c == '.' || ('0' as u32 <= c as u32 && c as u32 <= '9' as u32) {
            TokenType::Numeric
        } else if 'a' as u32 <= c as u32 && c as u32 <= 'z' as u32 {
            TokenType::Alphabetical
        } else if c == '+' || c == '-' || c == '*' || c == '/' || c == '%' || c == '^' {
            TokenType::Operator
        } else if c == '(' {
            TokenType::LeftParen
        } else if c == ')' {
            TokenType::RightParen
        } else {
            TokenType::Invalid
        }
    }

    /// Reclassifies a finished run of letters: a constant name becomes a
    /// `Numeric` token, any other name a `Functional` token.
    pub fn of_alphabeticals(s: String) -> (t: TokenType)
        ensures
            t == spec_of_alphabeticals(s@),
    {
        if text_is_char2(&s, 'p', 'i') || text_is_char1(&s, 'e') {
            TokenType::Numeric
        } else {
            TokenType::Functional
        }
    }
}

impl OperatorType {
    /// Classifies an operator text by arity, going by its first character
    /// and, for symbols, by the text itself.
    pub fn of_operator(operator: &String) -> (t: OperatorType)
        ensures
            t == spec_of_operator(operator@),
    {
        let c = text_first_char(operator);
        match TokenType::of_char(c) {
            TokenType::Alphabetical => OperatorType::Unary,
            _ => {
                if text_is_char1(operator, '+') || text_is_char1(operator, '-')
                    || text_is_char1(operator, '*') || text_is_char1(operator, '/')
                    || text_is_char1(operator, '^') {
                    OperatorType::Binary
                } else {
                    OperatorType::NoOp
                }
            },
        }
    }
}

/// The precedence rank of an operator text.
pub fn operator_precedence(operator: &String) -> (p: i32)
    ensures
        p == spec_precedence(operator@),
{
    if text_is_char1(operator, '^') {
        4
    } else if text_is_char1(operator, '*') || text_is_char1(operator, '/') {
        3
    } else if text_is_char1(operator, '+') || text_is_char1(operator, '-') {
        2
    } else {
        1
    }
}

/// The associativity of an operator text.
pub fn operator_assoc(operator: &String) -> (a: OperatorAssoc)
    ensures
        a == spec_assoc(operator@),
{
    if text_is_char1(operator, '^') {
        OperatorAssoc::RightAssoc
    } else {
        OperatorAssoc::LeftAssoc
    }
}

/// Whether a text is exactly the one-character text `a`.
pub fn text_is_char1(s: &String, a: char) -> (r: bool)
    ensures
        r == is_char1(s@, a),
{
    let n = s.as_str().unicode_len();
    n == 1 && s.as_str().get_char(0) == a
}

/// Whether a text is exactly the two-character text `a b`.
pub fn text_is_char2(s: &String, a: char, b: char) -> (r: bool)
    ensures
        r == is_char2(s@, a, b),
{
    let n = s.as_str().unicode_len();
    n == 2 && s.as_str().get_char(0) == a && s.as_str().get_char(1) == b
}

/// Whether a text is exactly the three-character text `a b c`.
pub fn text_is_char3(s: &String, a: char, b: char, c: char) -> (r: bool)
    ensures
        r == is_char3(s@, a, b, c),
{
    let n = s.as_str().unicode_len();
    n == 3 && s.as_str().get_char(0) == a && s.as_str().get_char(1) == b
        && s.as_str().get_char(2) == c
}

/// The first character of a text, or a space when the text is empty.
pub fn text_first_char(s: &String) -> (c: char)
    ensures
        c == spec_first_char(s@),
{
    if s.as_str().unicode_len() == 0 {
        ' '
    } else {
        s.as_str().get_char(0)
    }
}

/// A lexical token: its class, the literal text consumed from the input, and
/// the precedence rank (meaningful for `Operator` tokens, `0` elsewhere).
#[derive(Debug)]
pub struct Token {
    pub kind: TokenType,
    pub text: String,
    pub prec: i32,
}

/// The mathematical image of a [`Token`]: its class, its text as a sequence
/// of characters, and its precedence as an unbounded integer.
#[verifier::ext_equal]
pub struct SpecToken {
    pub kind: TokenType,
    pub text: Seq<char>,
    pub prec: int,
}

impl View for Token {
    type V = SpecToken;

    open spec fn view(&self) -> SpecToken {
        SpecToken { kind: self.kind, text: self.text@, prec: self.prec as int }
    }
}

/// The images of a sequence of tokens.
pub open spec fn tok_views(ts: Seq<Token>) -> Seq<SpecToken> {
    ts.map_values(|t: Token| t@)
}

/// A copy of a token with the same image.
pub fn copy_token(t: &Token) -> (r: Token)
    ensures
        r@ == t@,
{
    Token { kind: t.kind, text: t.text.clone(), prec: t.prec }
}

} // verus!
