//! Evaluation planning: classifies each tree node into the operation an
//! evaluator applies. A leaf whose text is a numeric literal or a known
//! constant resolves to a value; an interior node applies a named unary
//! function or a binary arithmetic symbol to its children, the minus sign
//! standing for negation where its left child is absent; a node whose symbol
//! matches no known operator or function is an error, never a silent zero.

use vstd::prelude::*;
use vstd::string::*;

use crate::token::{
    is_char1, is_char2, is_char3, spec_is_constant_name, spec_of_char, spec_of_operator,
    text_is_char1, text_is_char2, text_is_char3, OperatorType, TokenType,
};
use crate::tree::ExprNode;
use crate::tree::SpecNode;

verus! {

/// A named unary operation: negation, logarithms (natural, base-2, base-10),
/// the trigonometric functions and their reciprocals, and the sign function.
#[derive(Clone, Copy, Debug, PartialEq, Eq, Structural)]
pub enum UnaryOp {
    Neg,
    Ln,
    Lg,
    Log,
    Sin,
    Cos,
    Tan,
    Csc,
    Sec,
    Cot,
    Sgn,
}

/// A binary arithmetic operation.
#[derive(Clone, Copy, Debug, PartialEq, Eq, Structural)]
pub enum BinaryOp {
    Add,
    Sub,
    Mul,
    Div,
    Pow,
}

/// What a tree node asks of its evaluator: resolve the leaf's text to a
/// value, or apply an operation to the evaluated children.
#[derive(Clone, Copy, Debug, PartialEq, Eq, Structural)]
pub enum NodeClass {
    Literal,
    Unary(UnaryOp),
    Binary(BinaryOp),
}

/// Why evaluating a node fails: its symbol matches no known operator or
/// function, or it has no operand and its text resolves to no value.
#[derive(Clone, Copy, Debug, PartialEq, Eq, Structural)]
pub enum EvalError {
    UnknownOperator,
    MissingValue,
}

/// How many `.` characters a text holds.
pub open spec fn spec_count_dots(s: Seq<char>) -> nat
    decreases s.len(),
{
    if s.len() == 0 {
        0
    } else {
        (if s[0] == '.' {
            1nat
        } else {
            0nat
        }) + spec_count_dots(s.skip(1))
    }
}

/// A numeric literal: non-empty, made of digits and `.` only, with at most
/// one `.` and at least one digit.
pub open spec fn spec_is_number_text(s: Seq<char>) -> bool {
    &&& s.len() >= 1
    &&& (forall|k: int| 0 <= k < s.len() ==> spec_of_char(#[trigger] s[k]) is Numeric)
    &&& spec_count_dots(s) <= 1
    &&& spec_count_dots(s) < s.len()
}

/// A leaf text that resolves to a value: a numeric literal or a constant
/// name.
pub open spec fn spec_is_literal_text(s: Seq<char>) -> bool {
    spec_is_number_text(s) || spec_is_constant_name(s)
}

/// The unary operation a text names, if any. Both `-` and `neg` negate.
pub open spec fn spec_unary_op(s: Seq<char>) -> Option<UnaryOp> {
    if is_char1(s, '-') {
        Some(UnaryOp::Neg)
    } else if is_char2(s, 'l', 'n') {
        Some(UnaryOp::Ln)
    } else if is_char2(s, 'l', 'g') {
        Some(UnaryOp::Lg)
    } else if is_char3(s, 'l', 'o', 'g') {
        Some(UnaryOp::Log)
    } else if is_char3(s, 's', 'i', 'n') {
        Some(UnaryOp::Sin)
    } else if is_char3(s, 'c', 'o', 's') {
        Some(UnaryOp::Cos)
    } else if is_char3(s, 't', 'a', 'n') {
        Some(UnaryOp::Tan)
    } else if is_char3(s, 'c', 's', 'c') {
        Some(UnaryOp::Csc)
    } else if is_char3(s, 's', 'e', 'c') {
        Some(UnaryOp::Sec)
    } else if is_char3(s, 'c', 'o', 't') {
        Some(UnaryOp::Cot)
    } else if is_char3(s, 'n', 'e', 'g') {
        Some(UnaryOp::Neg)
    } else if is_char3(s, 's', 'g', 'n') {
        Some(UnaryOp::Sgn)
    } else {
        None
    }
}

/// The binary operation a symbol names, if any.
pub open spec fn spec_binary_op(s: Seq<char>) -> Option<BinaryOp> {
    if is_char1(s, '+') {
        Some(BinaryOp::Add)
    } else if is_char1(s, '-') {
        Some(BinaryOp::Sub)
    } else if is_char1(s, '*') {
        Some(BinaryOp::Mul)
    } else if is_char1(s, '/') {
        Some(BinaryOp::Div)
    } else if is_char1(s, '^') {
        Some(BinaryOp::Pow)
    } else {
        None
    }
}

/// The class of one node. A text that resolves to a value makes the node a
/// literal whatever its shape. Otherwise a node without an operand cannot be
/// evaluated; a node whose text starts with a letter applies the unary
/// function of that name; a binary symbol applies its arithmetic operation,
/// except that the minus sign without a left child negates; and any other
/// symbol is unknown.
pub open spec fn spec_classify(n: SpecNode) -> Result<NodeClass, EvalError> {
    if spec_is_literal_text(n.token) {
        Ok(NodeClass::Literal)
    } else if n.right is None {
        Err(EvalError::MissingValue)
    } else {
        match spec_of_operator(n.token) {
            OperatorType::Unary => match spec_unary_op(n.token) {
                Some(u) => Ok(NodeClass::Unary(u)),
                None => Err(EvalError::UnknownOperator),
            },
            OperatorType::Binary => {
                if n.left is Some {
                    Ok(NodeClass::Binary(spec_binary_op(n.token).unwrap()))
                } else {
                    match spec_unary_op(n.token) {
                        Some(u) => Ok(NodeClass::Unary(u)),
                        None => Err(EvalError::UnknownOperator),
                    }
                }
            },
            OperatorType::NoOp => Err(EvalError::UnknownOperator),
        }
    }
}

/// Whether a text is a numeric literal: non-empty, digits and `.` only, at
/// most one `.`, at least one digit.
pub fn is_number_text(s: &String) -> (r: bool)
    ensures
        r == spec_is_number_text(s@),
{
    let n = s.as_str().unicode_len();
    if n == 0 {
        return false;
    }
    let mut i: usize = 0;
    let mut dots: usize = 0;
    let mut all_numeric = true;
    proof {
        assert(s@.skip(0) =~= s@);
    }
    while i < n
        invariant
            i <= n,
            n == s@.len(),
            dots <= i,
            dots + spec_count_dots(s@.skip(i as int)) == spec_count_dots(s@),
            all_numeric ==> (forall|k: int|
                0 <= k < i ==> spec_of_char(#[trigger] s@[k]) is Numeric),
            !all_numeric ==> (exists|k: int|
                0 <= k < s@.len() && !(spec_of_char(#[trigger] s@[k]) is Numeric)),
        decreases n - i,
    {
        let c = s.as_str().get_char(i);
        proof {
            assert(s@.skip(i as int)[0] == s@[i as int]);
            assert(s@.skip(i as int).skip(1) =~= s@.skip(i as int + 1));
        }
        if !(TokenType::of_char(c) == TokenType::Numeric) {
            all_numeric = false;
        }
        if c == '.' {
            dots = dots + 1;
        }
        i = i + 1;
    }
    proof {
        assert(s@.skip(n as int) =~= Seq::<char>::empty());
    }
    all_numeric && dots <= 1 && dots < n
}

/// Whether a text names a known constant.
pub fn is_constant_name(s: &String) -> (r: bool)
    ensures
        r == spec_is_constant_name(s@),
{
    text_is_char2(s, 'p', 'i') || text_is_char1(s, 'e')
}

/// Whether a leaf text resolves to a value.
pub fn is_literal_text(s: &String) -> (r: bool)
    ensures
        r == spec_is_literal_text(s@),
{
    is_number_text(s) || is_constant_name(s)
}

/// The unary operation a text names, if any.
pub fn unary_op_of(s: &String) -> (r: Option<UnaryOp>)
    ensures
        r == spec_unary_op(s@),
{
    if text_is_char1(s, '-') {
        Some(UnaryOp::Neg)
    } else if text_is_char2(s, 'l', 'n') {
        Some(UnaryOp::Ln)
    } else if text_is_char2(s, 'l', 'g') {
        Some(UnaryOp::Lg)
    } else if text_is_char3(s, 'l', 'o', 'g') {
        Some(UnaryOp::Log)
    } else if text_is_char3(s, 's', 'i', 'n') {
        Some(UnaryOp::Sin)
    } else if text_is_char3(s, 'c', 'o', 's') {
        Some(UnaryOp::Cos)
    } else if text_is_char3(s, 't', 'a', 'n') {
        Some(UnaryOp::Tan)
    } else if text_is_char3(s, 'c', 's', 'c') {
        Some(UnaryOp::Csc)
    } else if text_is_char3(s, 's', 'e', 'c') {
        Some(UnaryOp::Sec)
    } else if text_is_char3(s, 'c', 'o', 't') {
        Some(UnaryOp::Cot)
    } else if text_is_char3(s, 'n', 'e', 'g') {
        Some(UnaryOp::Neg)
    } else if text_is_char3(s, 's', 'g', 'n') {
        Some(UnaryOp::Sgn)
    } else {
        None
    }
}

/// The binary operation a symbol names, if any.
pub fn binary_op_of(s: &String) -> (r: Option<BinaryOp>)
    ensures
        r == spec_binary_op(s@),
{
    if text_is_char1(s, '+') {
        Some(BinaryOp::Add)
    } else if text_is_char1(s, '-') {
        Some(BinaryOp::Sub)
    } else if text_is_char1(s, '*') {
        Some(BinaryOp::Mul)
    } else if text_is_char1(s, '/') {
        Some(BinaryOp::Div)
    } else if text_is_char1(s, '^') {
        Some(BinaryOp::Pow)
    } else {
        None
    }
}

/// Classifies one node into the operation its evaluator applies, exactly as
/// [`spec_classify`] describes.
pub fn classify_node(node: &ExprNode) -> (r: Result<NodeClass, EvalError>)
    ensures
        r == spec_classify(node@),
{
    if is_literal_text(&node.token) {
        Ok(NodeClass::Literal)
    } else if node.right.is_none() {
        Err(EvalError::MissingValue)
    } else {
        match OperatorType::of_operator(&node.token) {
            OperatorType::Unary => match unary_op_of(&node.token) {
                Some(u) => Ok(NodeClass::Unary(u)),
                None => Err(EvalError::UnknownOperator),
            },
            OperatorType::Binary => {
                if node.left.is_some() {
                    match binary_op_of(&node.token) {
                        Some(b) => Ok(NodeClass::Binary(b)),
                        None => Err(EvalError::UnknownOperator),
                    }
                } else {
                    match unary_op_of(&node.token) {
                        Some(u) => Ok(NodeClass::Unary(u)),
                        None => Err(EvalError::UnknownOperator),
                    }
                }
            },
            OperatorType::NoOp => Err(EvalError::UnknownOperator),
        }
    }
}

} // verus!
