//! Infix-to-postfix conversion by the shunting-yard algorithm: an output
//! queue and one operator stack. Operator tokens displace stack operators of
//! higher rank (or equal rank when the stack operator groups to the left),
//! function names are pushed unconditionally and flushed only by a closing
//! parenthesis or the final drain, and parentheses resolve structurally. An
//! unbalanced parenthesis at any point fails the conversion.

use vstd::prelude::*;

use crate::token::{copy_token, operator_assoc, spec_assoc, tok_views, OperatorAssoc, SpecToken,
    Token, TokenType};

verus! {

/// Why building an expression tree from text fails: the parentheses do not
/// balance, or the postfix stream leaves the tree builder's operand stack
/// short of the operands a token needs.
#[derive(Clone, Copy, Debug, PartialEq, Eq, Structural)]
pub enum BuildError {
    ParenthesisMismatch,
    StructuralUnderflow,
}

/// Whether the stack token `top` is popped to the output before the incoming
/// operator `t` is pushed: `top` must itself be an operator, and either it
/// groups to the left and ranks at least as high as `t`, or it ranks strictly
/// higher.
pub open spec fn spec_should_pop(t: SpecToken, top: SpecToken) -> bool {
    top.kind is Operator && ((spec_assoc(top.text) is LeftAssoc && t.prec <= top.prec) || t.prec
        < top.prec)
}

/// One run of the shunting-yard conversion from an intermediate state:
/// `input` is what remains of the token stream, `stack` the operator stack
/// (its last element the top), `output` the postfix queue built so far.
/// `None` is a parenthesis mismatch.
pub open spec fn spec_shunt(
    input: Seq<SpecToken>,
    stack: Seq<SpecToken>,
    output: Seq<SpecToken>,
) -> Option<Seq<SpecToken>>
    decreases input.len(), stack.len(),
{
    if input.len() == 0 {
        if stack.len() == 0 {
            Some(output)
        } else {
            let top = stack.last();
            if top.kind is LeftParen || top.kind is RightParen {
                None
            } else {
                spec_shunt(input, stack.drop_last(), output.push(top))
            }
        }
    } else {
        let t = input[0];
        match t.kind {
            TokenType::Numeric => spec_shunt(input.skip(1), stack, output.push(t)),
            TokenType::Functional => spec_shunt(input.skip(1), stack.push(t), output),
            TokenType::Operator => {
                if stack.len() > 0 && spec_should_pop(t, stack.last()) {
                    spec_shunt(input, stack.drop_last(), output.push(stack.last()))
                } else {
                    spec_shunt(input.skip(1), stack.push(t), output)
                }
            },
            TokenType::LeftParen => spec_shunt(input.skip(1), stack.push(t), output),
            TokenType::RightParen => {
                if stack.len() == 0 {
                    None
                } else if stack.last().kind is LeftParen {
                    spec_shunt(input.skip(1), stack.drop_last(), output)
                } else {
                    spec_shunt(input, stack.drop_last(), output.push(stack.last()))
                }
            },
            _ => spec_shunt(input.skip(1), stack, output),
        }
    }
}

/// The whole conversion of a token stream, from the empty state.
pub open spec fn spec_to_postfix(input: Seq<SpecToken>) -> Option<Seq<SpecToken>> {
    spec_shunt(input, Seq::empty(), Seq::empty())
}

/// Whether `t` is a parenthesis token.
pub open spec fn is_paren(t: SpecToken) -> bool {
    t.kind is LeftParen || t.kind is RightParen
}

/// From a state whose output holds no parenthesis token and whose stack holds
/// no closing parenthesis, a successful conversion drains to an output with
/// no parenthesis token.
proof fn lemma_shunt_no_parens(input: Seq<SpecToken>, stack: Seq<SpecToken>, output: Seq<
    SpecToken,
>)
    requires
        spec_shunt(input, stack, output) is Some,
        forall|k: int| 0 <= k < output.len() ==> !is_paren(#[trigger] output[k]),
        forall|k: int| 0 <= k < stack.len() ==> !((#[trigger] stack[k]).kind is RightParen),
    ensures
        forall|k: int|
            0 <= k < spec_shunt(input, stack, output).unwrap().len() ==> !is_paren(
                #[trigger] spec_shunt(input, stack, output).unwrap()[k],
            ),
    decreases input.len(), stack.len(),
{
    if input.len() == 0 {
        if stack.len() == 0 {
        } else {
            let top = stack.last();
            assert(!(top.kind is RightParen));
            lemma_shunt_no_parens(input, stack.drop_last(), output.push(top));
        }
    } else {
        let t = input[0];
        match t.kind {
            TokenType::Numeric => {
                lemma_shunt_no_parens(input.skip(1), stack, output.push(t));
            },
            TokenType::Functional => {
                lemma_shunt_no_parens(input.skip(1), stack.push(t), output);
            },
            TokenType::Operator => {
                if stack.len() > 0 && spec_should_pop(t, stack.last()) {
                    lemma_shunt_no_parens(input, stack.drop_last(), output.push(stack.last()));
                } else {
                    lemma_shunt_no_parens(input.skip(1), stack.push(t), output);
                }
            },
            TokenType::LeftParen => {
                lemma_shunt_no_parens(input.skip(1), stack.push(t), output);
            },
            TokenType::RightParen => {
                if stack.len() == 0 {
                } else if stack.last().kind is LeftParen {
                    lemma_shunt_no_parens(input.skip(1), stack.drop_last(), output);
                } else {
                    lemma_shunt_no_parens(input, stack.drop_last(), output.push(stack.last()));
                }
            },
            _ => {
                lemma_shunt_no_parens(input.skip(1), stack, output);
            },
        }
    }
}

/// Law: whenever the conversion of a token stream succeeds — that is, the
/// parentheses balanced — the drained postfix sequence holds no parenthesis
/// token at all.
pub proof fn lemma_to_postfix_no_parens(input: Seq<SpecToken>)
    requires
        spec_to_postfix(input) is Some,
    ensures
        forall|k: int|
            0 <= k < spec_to_postfix(input).unwrap().len() ==> !is_paren(
                #[trigger] spec_to_postfix(input).unwrap()[k],
            ),
{
    lemma_shunt_no_parens(input, Seq::empty(), Seq::empty());
}

/// Whether the operator on top of the stack displaces the incoming one.
fn should_pop(t: &Token, top: &Token) -> (r: bool)
    ensures
        r == spec_should_pop(t@, top@),
{
    match top.kind {
        TokenType::Operator => {
            let a = operator_assoc(&top.text);
            (a == OperatorAssoc::LeftAssoc && t.prec <= top.prec) || t.prec < top.prec
        },
        _ => false,
    }
}

/// Converts an infix token stream into the equivalent postfix (RPN) stream,
/// exactly as [`spec_to_postfix`] describes; fails with `ParenthesisMismatch`
/// if and only if the parentheses do not balance. A successful result holds
/// no parenthesis token.
pub fn to_postfix(tokens: &Vec<Token>) -> (r: Result<Vec<Token>, BuildError>)
    ensures
        match r {
            Ok(out) => spec_to_postfix(tok_views(tokens@)) == Some(tok_views(out@)) && (forall|
                k: int,
            | 0 <= k < out@.len() ==> !is_paren(#[trigger] out@[k]@)),
            Err(e) => spec_to_postfix(tok_views(tokens@)) is None && e
                == BuildError::ParenthesisMismatch,
        },
{
    let ghost inp = tok_views(tokens@);
    let ghost goal = spec_shunt(inp, Seq::empty(), Seq::empty());
    let mut output: Vec<Token> = Vec::new();
    let mut stack: Vec<Token> = Vec::new();
    let mut idx: usize = 0;
    proof {
        assert(tok_views(Seq::<Token>::empty()) =~~= Seq::<SpecToken>::empty());
        assert(inp.skip(0) =~= inp);
    }
    while idx < tokens.len()
        invariant
            idx <= tokens.len(),
            inp == tok_views(tokens@),
            goal == spec_shunt(inp, Seq::empty(), Seq::empty()),
            spec_shunt(inp.skip(idx as int), tok_views(stack@), tok_views(output@)) == goal,
        decreases tokens.len() - idx,
    {
        let ghost rest = inp.skip(idx as int);
        let t = &tokens[idx];
        proof {
            assert(rest[0] == inp[idx as int]);
            assert(inp[idx as int] == tokens@[idx as int]@);
            assert(rest.skip(1) =~= inp.skip(idx as int + 1));
        }
        match t.kind {
            TokenType::Numeric => {
                let copied = copy_token(t);
                proof {
                    assert(spec_shunt(rest, tok_views(stack@), tok_views(output@)) == spec_shunt(
                        rest.skip(1),
                        tok_views(stack@),
                        tok_views(output@).push(t@),
                    ));
                    assert(tok_views(output@.push(copied)) =~~= tok_views(output@).push(t@));
                }
                output.push(copied);
            },
            TokenType::Functional => {
                let copied = copy_token(t);
                proof {
                    assert(spec_shunt(rest, tok_views(stack@), tok_views(output@)) == spec_shunt(
                        rest.skip(1),
                        tok_views(stack@).push(t@),
                        tok_views(output@),
                    ));
                    assert(tok_views(stack@.push(copied)) =~~= tok_views(stack@).push(t@));
                }
                stack.push(copied);
            },
            TokenType::Operator => {
                loop
                    invariant
                        idx < tokens.len(),
                        inp == tok_views(tokens@),
                        goal == spec_shunt(inp, Seq::empty(), Seq::empty()),
                        *t == tokens@[idx as int],
                        t@ == inp.skip(idx as int)[0],
                        t.kind is Operator,
                        spec_shunt(inp.skip(idx as int), tok_views(stack@), tok_views(output@))
                            == goal,
                    ensures
                        idx < tokens.len(),
                        spec_shunt(inp.skip(idx as int), tok_views(stack@), tok_views(output@))
                            == goal,
                        tok_views(stack@).len() == 0 || !spec_should_pop(
                            t@,
                            tok_views(stack@).last(),
                        ),
                    decreases stack.len(),
                {
                    if stack.len() == 0 {
                        proof {
                            assert(tok_views(stack@).len() == 0);
                        }
                        break ;
                    }
                    let pop_it = should_pop(t, &stack[stack.len() - 1]);
                    proof {
                        assert(stack@[stack@.len() - 1]@ == tok_views(stack@).last());
                    }
                    if pop_it {
                        let ghost s_old = tok_views(stack@);
                        let ghost o_old = tok_views(output@);
                        let top = stack.pop().unwrap();
                        proof {
                            assert(spec_shunt(inp.skip(idx as int), s_old, o_old) == spec_shunt(
                                inp.skip(idx as int),
                                s_old.drop_last(),
                                o_old.push(s_old.last()),
                            ));
                            assert(tok_views(stack@) =~~= s_old.drop_last());
                            assert(tok_views(output@.push(top)) =~~= o_old.push(s_old.last()));
                        }
                        output.push(top);
                    } else {
                        break ;
                    }
                }
                let copied = copy_token(t);
                proof {
                    let rest2 = inp.skip(idx as int);
                    assert(rest2.skip(1) =~= inp.skip(idx as int + 1));
                    assert(spec_shunt(rest2, tok_views(stack@), tok_views(output@)) == spec_shunt(
                        rest2.skip(1),
                        tok_views(stack@).push(t@),
                        tok_views(output@),
                    ));
                    assert(tok_views(stack@.push(copied)) =~~= tok_views(stack@).push(t@));
                }
                stack.push(copied);
            },
            TokenType::LeftParen => {
                let copied = copy_token(t);
                proof {
                    assert(spec_shunt(rest, tok_views(stack@), tok_views(output@)) == spec_shunt(
                        rest.skip(1),
                        tok_views(stack@).push(t@),
                        tok_views(output@),
                    ));
                    assert(tok_views(stack@.push(copied)) =~~= tok_views(stack@).push(t@));
                }
                stack.push(copied);
            },
            TokenType::RightParen => {
                loop
                    invariant_except_break
                        spec_shunt(inp.skip(idx as int), tok_views(stack@), tok_views(output@))
                            == goal,
                    invariant
                        idx < tokens.len(),
                        inp == tok_views(tokens@),
                        goal == spec_shunt(inp, Seq::empty(), Seq::empty()),
                        t@ == inp.skip(idx as int)[0],
                        t.kind is RightParen,
                    ensures
                        spec_shunt(inp.skip(idx as int + 1), tok_views(stack@), tok_views(
                            output@,
                        )) == goal,
                    decreases stack.len(),
                {
                    let ghost s_old = tok_views(stack@);
                    let ghost o_old = tok_views(output@);
                    if stack.len() == 0 {
                        proof {
                            assert(spec_shunt(inp.skip(idx as int), s_old, o_old) is None);
                        }
                        return Err(BuildError::ParenthesisMismatch);
                    }
                    let top = stack.pop().unwrap();
                    proof {
                        assert(s_old.last() == top@);
                        assert(tok_views(stack@) =~~= s_old.drop_last());
                    }
                    match top.kind {
                        TokenType::LeftParen => {
                            proof {
                                assert(spec_shunt(inp.skip(idx as int), s_old, o_old)
                                    == spec_shunt(
                                    inp.skip(idx as int).skip(1),
                                    s_old.drop_last(),
                                    o_old,
                                ));
                                assert(inp.skip(idx as int).skip(1) =~= inp.skip(
                                    idx as int + 1,
                                ));
                            }
                            break ;
                        },
                        _ => {
                            proof {
                                assert(spec_shunt(inp.skip(idx as int), s_old, o_old)
                                    == spec_shunt(
                                    inp.skip(idx as int),
                                    s_old.drop_last(),
                                    o_old.push(s_old.last()),
                                ));
                                assert(tok_views(output@.push(top)) =~~= o_old.push(
                                    s_old.last(),
                                ));
                            }
                            output.push(top);
                        },
                    }
                }
            },
            _ => {
                proof {
                    assert(spec_shunt(rest, tok_views(stack@), tok_views(output@)) == spec_shunt(
                        rest.skip(1),
                        tok_views(stack@),
                        tok_views(output@),
                    ));
                }
            },
        }
        idx = idx + 1;
        proof {
            assert(spec_shunt(inp.skip(idx as int), tok_views(stack@), tok_views(output@))
                == goal);
        }
    }
    proof {
        assert(inp.skip(tokens@.len() as int) =~= Seq::<SpecToken>::empty());
    }
    while stack.len() > 0
        invariant
            inp == tok_views(tokens@),
            goal == spec_shunt(inp, Seq::empty(), Seq::empty()),
            spec_shunt(Seq::empty(), tok_views(stack@), tok_views(output@)) == goal,
        decreases stack.len(),
    {
        let ghost s_old = tok_views(stack@);
        let ghost o_old = tok_views(output@);
        let top = stack.pop().unwrap();
        proof {
            assert(s_old.last() == top@);
            assert(tok_views(stack@) =~~= s_old.drop_last());
        }
        match top.kind {
            TokenType::LeftParen | TokenType::RightParen => {
                proof {
                    assert(spec_shunt(Seq::empty(), s_old, o_old) is None);
                }
                return Err(BuildError::ParenthesisMismatch);
            },
            _ => {
                proof {
                    assert(spec_shunt(Seq::empty(), s_old, o_old) == spec_shunt(
                        Seq::empty(),
                        s_old.drop_last(),
                        o_old.push(s_old.last()),
                    ));
                    assert(tok_views(output@.push(top)) =~~= o_old.push(s_old.last()));
                }
                output.push(top);
            },
        }
    }
    proof {
        assert(tok_views(stack@) =~~= Seq::<SpecToken>::empty());
        assert(spec_shunt(Seq::empty(), tok_views(stack@), tok_views(output@)) == Some(
            tok_views(output@),
        ));
        assert(spec_to_postfix(inp) == Some(tok_views(output@)));
        lemma_to_postfix_no_parens(inp);
        assert forall|k: int| 0 <= k < output@.len() implies !is_paren(
            #[trigger] output@[k]@,
        ) by {
            assert(tok_views(output@).len() == output@.len());
            assert(tok_views(output@)[k] == output@[k]@);
            assert(spec_to_postfix(inp).unwrap()[k] == output@[k]@);
        }
    }
    Ok(output)
}

} // verus!
