//! Tests of the token classification tables, the tokenizer, the
//! infix-to-postfix conversion, and the build errors.

use exprtree::eval::{classify_node, is_number_text, EvalError};
use exprtree::rpn::{to_postfix, BuildError};
use exprtree::token::{operator_assoc, operator_precedence, OperatorAssoc, OperatorType, Token,
    TokenType};
use exprtree::tokenizer::tokenize;
use exprtree::tree::ExprTree;

fn texts(tokens: &[Token]) -> Vec<String> {
    tokens.iter().map(|t| t.text.clone()).collect()
}

#[test]
fn of_char_classifies() {
    assert_eq!(TokenType::of_char('7'), TokenType::Numeric);
    assert_eq!(TokenType::of_char('.'), TokenType::Numeric);
    assert_eq!(TokenType::of_char('q'), TokenType::Alphabetical);
    assert_eq!(TokenType::of_char('+'), TokenType::Operator);
    assert_eq!(TokenType::of_char('%'), TokenType::Operator);
    assert_eq!(TokenType::of_char('('), TokenType::LeftParen);
    assert_eq!(TokenType::of_char(')'), TokenType::RightParen);
    assert_eq!(TokenType::of_char(' '), TokenType::Invalid);
    assert_eq!(TokenType::of_char('Z'), TokenType::Invalid);
}

#[test]
fn of_alphabeticals_reclassifies() {
    assert_eq!(TokenType::of_alphabeticals("pi".to_string()), TokenType::Numeric);
    assert_eq!(TokenType::of_alphabeticals("e".to_string()), TokenType::Numeric);
    assert_eq!(TokenType::of_alphabeticals("ln".to_string()), TokenType::Functional);
    assert_eq!(TokenType::of_alphabeticals("foo".to_string()), TokenType::Functional);
}

#[test]
fn precedence_table() {
    assert_eq!(operator_precedence(&"^".to_string()), 4);
    assert_eq!(operator_precedence(&"*".to_string()), 3);
    assert_eq!(operator_precedence(&"/".to_string()), 3);
    assert_eq!(operator_precedence(&"+".to_string()), 2);
    assert_eq!(operator_precedence(&"-".to_string()), 2);
    assert_eq!(operator_precedence(&"%".to_string()), 1);
}

#[test]
fn assoc_table() {
    assert_eq!(operator_assoc(&"^".to_string()), OperatorAssoc::RightAssoc);
    assert_eq!(operator_assoc(&"+".to_string()), OperatorAssoc::LeftAssoc);
    assert_eq!(operator_assoc(&"*".to_string()), OperatorAssoc::LeftAssoc);
}

#[test]
fn of_operator_classifies() {
    assert_eq!(OperatorType::of_operator(&"ln".to_string()), OperatorType::Unary);
    assert_eq!(OperatorType::of_operator(&"+".to_string()), OperatorType::Binary);
    assert_eq!(OperatorType::of_operator(&"-".to_string()), OperatorType::Binary);
    assert_eq!(OperatorType::of_operator(&"%".to_string()), OperatorType::NoOp);
    assert_eq!(OperatorType::of_operator(&"".to_string()), OperatorType::NoOp);
}

#[test]
fn tokenize_groups_runs() {
    let tokens = tokenize("12.5+37");
    assert_eq!(texts(&tokens), vec!["12.5", "+", "37"]);
    assert_eq!(tokens[0].kind, TokenType::Numeric);
    assert_eq!(tokens[1].kind, TokenType::Operator);
    assert_eq!(tokens[1].prec, 2);
    assert_eq!(tokens[2].kind, TokenType::Numeric);
}

#[test]
fn tokenize_skips_invalid_characters() {
    let tokens = tokenize("2 + 3!");
    assert_eq!(texts(&tokens), vec!["2", "+", "3"]);
}

#[test]
fn tokenize_names_and_constants() {
    let tokens = tokenize("ln(pi)");
    assert_eq!(texts(&tokens), vec!["ln", "(", "pi", ")"]);
    assert_eq!(tokens[0].kind, TokenType::Functional);
    assert_eq!(tokens[1].kind, TokenType::LeftParen);
    assert_eq!(tokens[2].kind, TokenType::Numeric);
    assert_eq!(tokens[3].kind, TokenType::RightParen);
}

#[test]
fn postfix_orders_by_precedence() {
    let out = to_postfix(&tokenize("2+3*4")).unwrap();
    assert_eq!(texts(&out), vec!["2", "3", "4", "*", "+"]);
}

#[test]
fn postfix_resolves_parentheses() {
    let out = to_postfix(&tokenize("(2+3)*4")).unwrap();
    assert_eq!(texts(&out), vec!["2", "3", "+", "4", "*"]);
}

#[test]
fn postfix_keeps_equal_rank_left_to_right() {
    let out = to_postfix(&tokenize("10-3-2")).unwrap();
    assert_eq!(texts(&out), vec!["10", "3", "-", "2", "-"]);
}

#[test]
fn postfix_keeps_power_right_to_left() {
    let out = to_postfix(&tokenize("2^3^2")).unwrap();
    assert_eq!(texts(&out), vec!["2", "3", "2", "^", "^"]);
}

#[test]
fn postfix_drains_no_parenthesis() {
    let out = to_postfix(&tokenize("((1+2)*(3-4))/(5^(6+7))")).unwrap();
    for t in out.iter() {
        assert!(t.kind != TokenType::LeftParen);
        assert!(t.kind != TokenType::RightParen);
    }
}

#[test]
fn postfix_rejects_unclosed_parenthesis() {
    assert_eq!(to_postfix(&tokenize("(2+3")).unwrap_err(), BuildError::ParenthesisMismatch);
}

#[test]
fn postfix_rejects_unopened_parenthesis() {
    assert_eq!(to_postfix(&tokenize("2+3)")).unwrap_err(), BuildError::ParenthesisMismatch);
}

#[test]
fn build_rejects_mismatched_parentheses() {
    assert_eq!(ExprTree::build("(2+3").unwrap_err(), BuildError::ParenthesisMismatch);
    assert_eq!(ExprTree::build("2+3)").unwrap_err(), BuildError::ParenthesisMismatch);
}

#[test]
fn build_rejects_empty_input() {
    assert_eq!(ExprTree::build("").unwrap_err(), BuildError::StructuralUnderflow);
}

#[test]
fn build_rejects_missing_operand() {
    assert_eq!(ExprTree::build("*3").unwrap_err(), BuildError::StructuralUnderflow);
    assert_eq!(ExprTree::build("+").unwrap_err(), BuildError::StructuralUnderflow);
}

#[test]
fn build_keeps_first_operand_as_root() {
    let tree = ExprTree::build("2 3").unwrap();
    assert_eq!(tree.root.unwrap().token, "2");
}

#[test]
fn build_shapes_the_tree() {
    let tree = ExprTree::build("2+3*4").unwrap();
    let root = tree.root.unwrap();
    assert_eq!(root.token, "+");
    assert_eq!(root.left.as_ref().unwrap().token, "2");
    let right = root.right.as_ref().unwrap();
    assert_eq!(right.token, "*");
    assert_eq!(right.left.as_ref().unwrap().token, "3");
    assert_eq!(right.right.as_ref().unwrap().token, "4");
}

#[test]
fn classify_rejects_unknown_operator() {
    let tree = ExprTree::build("2%3").unwrap();
    let root = tree.root.unwrap();
    assert_eq!(root.token, "%");
    assert_eq!(classify_node(&root).unwrap_err(), EvalError::UnknownOperator);
}

#[test]
fn classify_rejects_unknown_function() {
    let tree = ExprTree::build("foo(2)").unwrap();
    let root = tree.root.unwrap();
    assert_eq!(root.token, "foo");
    assert_eq!(classify_node(&root).unwrap_err(), EvalError::UnknownOperator);
}

#[test]
fn classify_rejects_malformed_literal() {
    let tree = ExprTree::build("1.2.3").unwrap();
    let root = tree.root.unwrap();
    assert_eq!(root.token, "1.2.3");
    assert_eq!(classify_node(&root).unwrap_err(), EvalError::MissingValue);
}

#[test]
fn number_text_grammar() {
    assert!(is_number_text(&"123".to_string()));
    assert!(is_number_text(&"1.5".to_string()));
    assert!(is_number_text(&"12.".to_string()));
    assert!(is_number_text(&".5".to_string()));
    assert!(!is_number_text(&".".to_string()));
    assert!(!is_number_text(&"".to_string()));
    assert!(!is_number_text(&"1.2.3".to_string()));
    assert!(!is_number_text(&"pi".to_string()));
}
