//! Evaluation scenarios: a small floating-point evaluator drives the
//! library's verified classification over the trees its verified builder
//! produces.

use exprtree::eval::{classify_node, BinaryOp, EvalError, NodeClass, UnaryOp};
use exprtree::tree::{ExprNode, ExprTree};

fn apply_unary(op: UnaryOp, v: f64) -> f64 {
    match op {
        UnaryOp::Neg => -v,
        UnaryOp::Ln => v.ln(),
        UnaryOp::Lg => v.log2(),
        UnaryOp::Log => v.log10(),
        UnaryOp::Sin => v.sin(),
        UnaryOp::Cos => v.cos(),
        UnaryOp::Tan => v.tan(),
        UnaryOp::Csc => 1.0 / v.sin(),
        UnaryOp::Sec => 1.0 / v.cos(),
        UnaryOp::Cot => 1.0 / v.tan(),
        UnaryOp::Sgn => v.signum(),
    }
}

fn apply_binary(op: BinaryOp, lhs: f64, rhs: f64) -> f64 {
    match op {
        BinaryOp::Add => lhs + rhs,
        BinaryOp::Sub => lhs - rhs,
        BinaryOp::Mul => lhs * rhs,
        BinaryOp::Div => lhs / rhs,
        BinaryOp::Pow => lhs.powf(rhs),
    }
}

fn eval_node(node: &ExprNode) -> Result<f64, EvalError> {
    match classify_node(node)? {
        NodeClass::Literal => Ok(match node.token.as_str() {
            "pi" => std::f64::consts::PI,
            "e" => std::f64::consts::E,
            text => text.parse::<f64>().unwrap(),
        }),
        NodeClass::Unary(op) => {
            let v = eval_node(node.right.as_ref().unwrap())?;
            Ok(apply_unary(op, v))
        },
        NodeClass::Binary(op) => {
            let lhs = eval_node(node.left.as_ref().unwrap())?;
            let rhs = eval_node(node.right.as_ref().unwrap())?;
            Ok(apply_binary(op, lhs, rhs))
        },
    }
}

fn eval_tree(tree: &ExprTree) -> Result<f64, EvalError> {
    match &tree.root {
        None => Ok(0.0),
        Some(node) => eval_node(node),
    }
}

fn build_eval(expression: &str) -> f64 {
    eval_tree(&ExprTree::build(expression).unwrap()).unwrap()
}

#[test]
fn multiplication_binds_tighter_than_addition() {
    assert_eq!(build_eval("2+3*4"), 14.0);
}

#[test]
fn parentheses_group_first() {
    assert_eq!(build_eval("(2+3)*4"), 20.0);
}

#[test]
fn power_groups_to_the_right() {
    assert_eq!(build_eval("2^3^2"), 512.0);
}

#[test]
fn subtraction_groups_to_the_left() {
    assert_eq!(build_eval("10-3-2"), 5.0);
}

#[test]
fn leading_minus_negates() {
    assert_eq!(build_eval("-5"), -5.0);
}

#[test]
fn doubled_minus_takes_the_first_as_negation() {
    // The scanner gives both minus signs equal rank, so the first one meets a
    // single operand and negates it: the expression groups as (-3) - 2.
    assert_eq!(build_eval("3--2"), -5.0);
}

#[test]
fn function_applies_to_parenthesized_argument() {
    assert!(build_eval("ln(1)").abs() < 1e-12);
}

#[test]
fn named_constants_resolve() {
    assert!((build_eval("pi") - std::f64::consts::PI).abs() < 1e-12);
    assert!((build_eval("e") - std::f64::consts::E).abs() < 1e-12);
}

#[test]
fn transcendental_functions_apply() {
    assert!((build_eval("lg(8)") - 3.0).abs() < 1e-12);
    assert!((build_eval("log(100)") - 2.0).abs() < 1e-12);
    assert!((build_eval("sin(0)") - 0.0).abs() < 1e-12);
    assert!((build_eval("cos(0)") - 1.0).abs() < 1e-12);
    assert!((build_eval("csc(1)") - 1.0 / (1.0f64).sin()).abs() < 1e-12);
    assert!((build_eval("sec(1)") - 1.0 / (1.0f64).cos()).abs() < 1e-12);
    assert!((build_eval("cot(1)") - 1.0 / (1.0f64).tan()).abs() < 1e-12);
    assert!((build_eval("tan(1)") - (1.0f64).tan()).abs() < 1e-12);
    assert_eq!(build_eval("sgn(0-5)"), -1.0);
    assert_eq!(build_eval("neg(7)"), -7.0);
}

#[test]
fn division_by_zero_propagates_infinity() {
    let v = build_eval("1/0");
    assert!(v.is_infinite() && v > 0.0);
}

#[test]
fn decimals_parse() {
    assert_eq!(build_eval("1.5*2"), 3.0);
    assert_eq!(build_eval(".5+.5"), 1.0);
}

#[test]
fn unknown_operator_fails_evaluation() {
    let tree = ExprTree::build("2%3").unwrap();
    assert_eq!(eval_tree(&tree).unwrap_err(), EvalError::UnknownOperator);
}

#[test]
fn evaluation_is_bit_stable() {
    let tree = ExprTree::build("(2^0.5+pi)*e/7-ln(3)").unwrap();
    let first = eval_tree(&tree).unwrap();
    let second = eval_tree(&tree).unwrap();
    assert_eq!(first.to_bits(), second.to_bits());
}

struct Lcg(u64);

impl Lcg {
    fn next(&mut self) -> u64 {
        self.0 = self.0.wrapping_mul(6364136223846793005).wrapping_add(1442695040888963407);
        self.0 >> 33
    }
}

/// Appends a parenthesized expression over `+ - * /` and the literals 1..=9
/// (divisors always literal, so no division by zero), returning its value
/// computed directly.
fn gen_expr(rng: &mut Lcg, depth: u32, out: &mut String) -> f64 {
    if depth == 0 || rng.next() % 4 == 0 {
        let v = 1 + rng.next() % 9;
        out.push_str(&v.to_string());
        return v as f64;
    }
    out.push('(');
    let lhs = gen_expr(rng, depth - 1, out);
    let op = rng.next() % 4;
    let result;
    if op == 3 {
        let v = 1 + rng.next() % 9;
        out.push('/');
        out.push_str(&v.to_string());
        result = lhs / v as f64;
    } else {
        let ch = ['+', '-', '*'][op as usize];
        out.push(ch);
        let rhs = gen_expr(rng, depth - 1, out);
        result = match op {
            0 => lhs + rhs,
            1 => lhs - rhs,
            _ => lhs * rhs,
        };
    }
    out.push(')');
    result
}

#[test]
fn generated_expressions_match_direct_evaluation() {
    let mut rng = Lcg(0x5eed);
    for _ in 0..200 {
        let mut text = String::new();
        let expected = gen_expr(&mut rng, 3, &mut text);
        let got = build_eval(&text);
        let tolerance = 1e-9 * expected.abs().max(1.0);
        assert!(
            (got - expected).abs() <= tolerance,
            "{} evaluated to {}, expected {}",
            text,
            got,
            expected
        );
    }
}
