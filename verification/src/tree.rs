//! The binary expression tree and its builder. The builder consumes a
//! postfix token stream with an operand stack: a numeric token pushes a leaf,
//! an operator pops its two operands (or one, for the minus sign standing
//! alone), a function name pops one; popping from a stack that is too short
//! fails with `StructuralUnderflow` instead of defaulting.

use vstd::prelude::*;

use crate::rpn::{spec_to_postfix, to_postfix, BuildError};
use crate::token::{is_char1, text_is_char1, tok_views, SpecToken, Token, TokenType};
use crate::tokenizer::{spec_tokenize, tokenize};

verus! {

/// A node of the expression tree: the token text it was built from, and up
/// to two children, each exclusively owned. A leaf (a numeric literal or a
/// named constant) has no children; an operator node always has a `right`
/// child and has a `left` child exactly where the operator is used in binary
/// form; a function node has only a `right` child.
#[derive(Debug)]
pub struct ExprNode {
    pub token: String,
    pub left: Option<Box<ExprNode>>,
    pub right: Option<Box<ExprNode>>,
}

/// The mathematical image of an [`ExprNode`]: the same tree with the token
/// text as a sequence of characters.
#[verifier::ext_equal]
pub struct SpecNode {
    pub token: Seq<char>,
    pub left: Option<Box<SpecNode>>,
    pub right: Option<Box<SpecNode>>,
}

/// The image of a node, recursively.
pub open spec fn node_view(n: ExprNode) -> SpecNode
    decreases n,
{
    SpecNode {
        token: n.token@,
        left: match n.left {
            Option::Some(b) => Option::Some(Box::new(node_view(*b))),
            Option::None => Option::None,
        },
        right: match n.right {
            Option::Some(b) => Option::Some(Box::new(node_view(*b))),
            Option::None => Option::None,
        },
    }
}

impl View for ExprNode {
    type V = SpecNode;

    open spec fn view(&self) -> SpecNode {
        node_view(*self)
    }
}

/// A leaf: no children.
pub open spec fn spec_leaf(text: Seq<char>) -> SpecNode {
    SpecNode { token: text, left: Option::None, right: Option::None }
}

/// A node applying `text` to one operand, kept as the `right` child.
pub open spec fn spec_unary(text: Seq<char>, right: SpecNode) -> SpecNode {
    SpecNode { token: text, left: Option::None, right: Option::Some(Box::new(right)) }
}

/// A node applying `text` to two operands.
pub open spec fn spec_binary(text: Seq<char>, left: SpecNode, right: SpecNode) -> SpecNode {
    SpecNode {
        token: text,
        left: Option::Some(Box::new(left)),
        right: Option::Some(Box::new(right)),
    }
}

/// The images of a sequence of nodes.
pub open spec fn node_views(ns: Seq<ExprNode>) -> Seq<SpecNode> {
    ns.map_values(|n: ExprNode| n@)
}

/// One run of the tree builder from an intermediate state: `input` is what
/// remains of the postfix stream, `stack` the operand stack (its last element
/// the most recently pushed). A numeric token pushes a leaf; an operator pops
/// two operands — except the minus sign facing a single operand, which forms
/// its unary shape — and a function name pops one; a token whose operands are
/// missing makes the run fail (`None`). Parenthesis and other token kinds are
/// passed over.
pub open spec fn spec_build_stack(input: Seq<SpecToken>, stack: Seq<SpecNode>) -> Option<Seq<
    SpecNode,
>>
    decreases input.len(),
{
    if input.len() == 0 {
        Some(stack)
    } else {
        let t = input[0];
        match t.kind {
            TokenType::Numeric => spec_build_stack(input.skip(1), stack.push(spec_leaf(t.text))),
            TokenType::Operator => {
                if is_char1(t.text, '-') && stack.len() == 1 {
                    spec_build_stack(input.skip(1), seq![spec_unary(t.text, stack.last())])
                } else if stack.len() >= 2 {
                    spec_build_stack(
                        input.skip(1),
                        stack.drop_last().drop_last().push(
                            spec_binary(t.text, stack[stack.len() - 2], stack.last()),
                        ),
                    )
                } else {
                    None
                }
            },
            TokenType::Functional => {
                if stack.len() >= 1 {
                    spec_build_stack(
                        input.skip(1),
                        stack.drop_last().push(spec_unary(t.text, stack.last())),
                    )
                } else {
                    None
                }
            },
            _ => spec_build_stack(input.skip(1), stack),
        }
    }
}

/// The tree that a postfix stream builds: the bottom of the operand stack
/// after the whole stream is consumed, or `None` when a token's operands were
/// missing or the stream left no operand at all.
pub open spec fn spec_from_rpn(input: Seq<SpecToken>) -> Option<SpecNode> {
    match spec_build_stack(input, Seq::empty()) {
        Option::None => Option::None,
        Option::Some(st) => if st.len() == 0 {
            Option::None
        } else {
            Option::Some(st[0])
        },
    }
}

impl ExprNode {
    /// A node from its token text and optional children.
    pub fn new(token: String, left: Option<ExprNode>, right: Option<ExprNode>) -> (r: ExprNode)
        ensures
            r@.token == token@,
            r@.left == (match left {
                Option::Some(l) => Option::Some(Box::new(l@)),
                Option::None => Option::<Box<SpecNode>>::None,
            }),
            r@.right == (match right {
                Option::Some(n) => Option::Some(Box::new(n@)),
                Option::None => Option::<Box<SpecNode>>::None,
            }),
    {
        ExprNode {
            token,
            left: match left {
                Option::Some(l) => Option::Some(Box::new(l)),
                Option::None => Option::None,
            },
            right: match right {
                Option::Some(n) => Option::Some(Box::new(n)),
                Option::None => Option::None,
            },
        }
    }
}

/// Assembles a postfix token stream into the root of an expression tree,
/// exactly as [`spec_from_rpn`] describes; fails with `StructuralUnderflow`
/// if and only if some token finds its operand stack short, or the stream
/// leaves the stack empty.
pub fn build_tree(rpn: &Vec<Token>) -> (r: Result<ExprNode, BuildError>)
    ensures
        match r {
            Ok(root) => spec_from_rpn(tok_views(rpn@)) == Some(root@),
            Err(e) => spec_from_rpn(tok_views(rpn@)) is None && e
                == BuildError::StructuralUnderflow,
        },
{
    let ghost inp = tok_views(rpn@);
    let ghost goal = spec_build_stack(inp, Seq::empty());
    let mut stack: Vec<ExprNode> = Vec::new();
    let mut idx: usize = 0;
    proof {
        assert(node_views(Seq::<ExprNode>::empty()) =~~= Seq::<SpecNode>::empty());
        assert(inp.skip(0) =~= inp);
    }
    while idx < rpn.len()
        invariant
            idx <= rpn.len(),
            inp == tok_views(rpn@),
            goal == spec_build_stack(inp, Seq::empty()),
            spec_build_stack(inp.skip(idx as int), node_views(stack@)) == goal,
        decreases rpn.len() - idx,
    {
        let ghost rest = inp.skip(idx as int);
        let ghost s0 = node_views(stack@);
        let t = &rpn[idx];
        proof {
            assert(rest[0] == inp[idx as int]);
            assert(inp[idx as int] == rpn@[idx as int]@);
            assert(rest.skip(1) =~= inp.skip(idx as int + 1));
        }
        match t.kind {
            TokenType::Numeric => {
                let node = ExprNode::new(t.text.clone(), None, None);
                proof {
                    assert(spec_build_stack(rest, s0) == spec_build_stack(
                        rest.skip(1),
                        s0.push(spec_leaf(t@.text)),
                    ));
                    assert(node@ == spec_leaf(t@.text));
                    assert(node_views(stack@.push(node)) =~~= s0.push(node@));
                }
                stack.push(node);
            },
            TokenType::Operator => {
                let minus = text_is_char1(&t.text, '-');
                if minus && stack.len() == 1 {
                    let right = stack.pop().unwrap();
                    let node = ExprNode::new(t.text.clone(), None, Some(right));
                    proof {
                        assert(spec_build_stack(rest, s0) == spec_build_stack(
                            rest.skip(1),
                            seq![spec_unary(t@.text, s0.last())],
                        ));
                        assert(node@ == spec_unary(t@.text, s0.last()));
                        assert(node_views(stack@.push(node)) =~~= seq![
                            spec_unary(t@.text, s0.last()),
                        ]);
                    }
                    stack.push(node);
                } else if stack.len() >= 2 {
                    let right = stack.pop().unwrap();
                    let left = stack.pop().unwrap();
                    let node = ExprNode::new(t.text.clone(), Some(left), Some(right));
                    proof {
                        assert(spec_build_stack(rest, s0) == spec_build_stack(
                            rest.skip(1),
                            s0.drop_last().drop_last().push(
                                spec_binary(t@.text, s0[s0.len() - 2], s0.last()),
                            ),
                        ));
                        assert(node@ == spec_binary(t@.text, s0[s0.len() - 2], s0.last()));
                        assert(node_views(stack@.push(node)) =~~= s0.drop_last().drop_last().push(
                            node@,
                        ));
                    }
                    stack.push(node);
                } else {
                    proof {
                        assert(spec_build_stack(rest, s0) is None);
                    }
                    return Err(BuildError::StructuralUnderflow);
                }
            },
            TokenType::Functional => {
                if stack.len() == 0 {
                    proof {
                        assert(spec_build_stack(rest, s0) is None);
                    }
                    return Err(BuildError::StructuralUnderflow);
                }
                let right = stack.pop().unwrap();
                let node = ExprNode::new(t.text.clone(), None, Some(right));
                proof {
                    assert(spec_build_stack(rest, s0) == spec_build_stack(
                        rest.skip(1),
                        s0.drop_last().push(spec_unary(t@.text, s0.last())),
                    ));
                    assert(node@ == spec_unary(t@.text, s0.last()));
                    assert(node_views(stack@.push(node)) =~~= s0.drop_last().push(node@));
                }
                stack.push(node);
            },
            _ => {
                proof {
                    assert(spec_build_stack(rest, s0) == spec_build_stack(rest.skip(1), s0));
                }
            },
        }
        idx = idx + 1;
    }
    proof {
        assert(inp.skip(rpn@.len() as int) =~= Seq::<SpecToken>::empty());
        assert(goal == Some(node_views(stack@)));
    }
    if stack.len() == 0 {
        proof {
            assert(node_views(stack@).len() == 0);
        }
        return Err(BuildError::StructuralUnderflow);
    }
    let ghost s_fin = node_views(stack@);
    let root = stack.remove(0);
    proof {
        assert(root@ == s_fin[0]);
    }
    Ok(root)
}

/// The expression tree: an optional root node, built once from a text and
/// immutable thereafter. An empty tree stands for the value zero.
#[derive(Debug)]
pub struct ExprTree {
    pub root: Option<Box<ExprNode>>,
}

impl View for ExprTree {
    type V = Option<SpecNode>;

    open spec fn view(&self) -> Option<SpecNode> {
        match self.root {
            Option::Some(b) => Option::Some(node_view(*b)),
            Option::None => Option::None,
        }
    }
}

/// What building a tree from a text yields: the tokens of the text, put into
/// postfix order, then assembled into a tree — or the first error on the way.
pub open spec fn spec_build_result(s: Seq<char>) -> Result<SpecNode, BuildError> {
    match spec_to_postfix(spec_tokenize(s)) {
        Option::None => Result::Err(BuildError::ParenthesisMismatch),
        Option::Some(pf) => match spec_from_rpn(pf) {
            Option::None => Result::Err(BuildError::StructuralUnderflow),
            Option::Some(n) => Result::Ok(n),
        },
    }
}

impl ExprTree {
    /// Wraps an optional root node into a tree.
    pub fn new(root: Option<ExprNode>) -> (r: ExprTree)
        ensures
            r@ == (match root {
                Option::Some(n) => Option::Some(n@),
                Option::None => Option::<SpecNode>::None,
            }),
    {
        ExprTree {
            root: match root {
                Option::Some(n) => Option::Some(Box::new(n)),
                Option::None => Option::None,
            },
        }
    }

    /// Builds the expression tree of a text: tokenize, reorder to postfix,
    /// assemble — exactly as [`spec_build_result`] describes. Fails with
    /// `ParenthesisMismatch` when the parentheses do not balance, and with
    /// `StructuralUnderflow` when the postfix stream is structurally invalid.
    pub fn build(expression: &str) -> (r: Result<ExprTree, BuildError>)
        ensures
            match r {
                Ok(tree) => spec_build_result(expression@) is Ok && tree@ == Some(
                    spec_build_result(expression@).unwrap(),
                ),
                Err(e) => spec_build_result(expression@) == Result::<SpecNode, BuildError>::Err(
                    e,
                ),
            },
    {
        let tokens = tokenize(expression);
        let rpn = match to_postfix(&tokens) {
            Ok(r) => r,
            Err(e) => {
                return Err(e);
            },
        };
        let root = match build_tree(&rpn) {
            Ok(n) => n,
            Err(e) => {
                return Err(e);
            },
        };
        Ok(ExprTree::new(Some(root)))
    }
}

} // verus!
