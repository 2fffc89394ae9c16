//! The parser: recursive descent with one token of lookahead, plus an
//! on-demand second-token peek (scanning on a copy of the lexer) used only to
//! tell an assignment from an expression statement.
//!
//! The grammar is written down as a family of spec functions over the parser
//! state (the program text, the scanner position, and the current token),
//! each returning the parsed mirror node and the state after it — or the
//! category of the error that stops the parse. The executable parser is
//! proved to return exactly what those functions say. Every parse function
//! burns one unit of a step budget, which bounds the recursion.

use vstd::prelude::*;
use vstd::string::StringExecFns;
use crate::ast::{
    expr_view, exprs_view, function_view, functions_view, lemma_exprs_view_push,
    lemma_functions_view_push, lemma_params_view_push, lemma_stmts_view_push, params_view,
    stmt_view, stmts_view, BinOp, Expr, ExprS, Function, FunctionS, Program, ProgramS, Stmt,
    StmtS, Type,
};
use crate::error::{Error, ErrorKind};
use crate::lexer::{scan_token_s, str_eq, Lexer};
use crate::token::{Token, TokenS};

verus! {

/// The parser's state: the program text, the scanner's position, and the one
/// token of lookahead already read.
#[verifier::ext_equal]
pub struct PState {
    /// The program text.
    pub input: Seq<char>,
    /// The scanner's position, just past `cur`.
    pub pos: int,
    /// The current token.
    pub cur: TokenS,
}

/// Reading the next token into the lookahead slot.
pub open spec fn bump_s(p: PState) -> Result<PState, ErrorKind> {
    match scan_token_s(p.input, p.pos) {
        Some(tp) => Ok(PState { input: p.input, pos: tp.1, cur: tp.0 }),
        None => Err(ErrorKind::Lexical),
    }
}

/// The token after the current one, read on a throwaway copy of the scanner.
pub open spec fn peek2_s(p: PState) -> Result<TokenS, ErrorKind> {
    match scan_token_s(p.input, p.pos) {
        Some(tp) => Ok(tp.0),
        None => Err(ErrorKind::Lexical),
    }
}

/// Demanding one exact token and stepping past it.
pub open spec fn expect_s(p: PState, t: TokenS) -> Result<PState, ErrorKind> {
    if p.cur == t {
        bump_s(p)
    } else {
        Err(ErrorKind::Syntax)
    }
}

/// A statement's optional trailing newline: consumed when present.
pub open spec fn eat_newline_s(p: PState) -> Result<PState, ErrorKind> {
    if p.cur is Newline {
        bump_s(p)
    } else {
        Ok(p)
    }
}

/// Skipping a run of blank lines.
pub open spec fn skip_newlines_s(p: PState, fuel: nat) -> Result<PState, ErrorKind>
    decreases fuel,
{
    if fuel == 0 {
        Err(ErrorKind::Resource)
    } else if p.cur is Newline {
        match bump_s(p) {
            Ok(p1) => skip_newlines_s(p1, (fuel - 1) as nat),
            Err(k) => Err(k),
        }
    } else {
        Ok(p)
    }
}

/// A type name: one of the identifiers `int`, `bool`, `str`, `list`.
pub open spec fn parse_type_s(p: PState) -> Result<(Type, PState), ErrorKind> {
    match p.cur {
        TokenS::Ident(n) => {
            let ty = if n == "int"@ {
                Some(Type::Int)
            } else if n == "bool"@ {
                Some(Type::Bool)
            } else if n == "str"@ {
                Some(Type::Str)
            } else if n == "list"@ {
                Some(Type::List)
            } else {
                None
            };
            match ty {
                Some(t) => match bump_s(p) {
                    Ok(p1) => Ok((t, p1)),
                    Err(k) => Err(k),
                },
                None => Err(ErrorKind::Syntax),
            }
        },
        _ => Err(ErrorKind::Syntax),
    }
}

/// A primary expression: a literal, a variable, a parenthesized expression,
/// or a list literal.
pub open spec fn parse_primary_s(p: PState, fuel: nat) -> Result<(ExprS, PState), ErrorKind>
    decreases fuel,
{
    if fuel == 0 {
        Err(ErrorKind::Resource)
    } else {
        let fl = (fuel - 1) as nat;
        match p.cur {
            TokenS::IntLiteral(v) => match bump_s(p) {
                Ok(p1) => Ok((ExprS::Int(v), p1)),
                Err(k) => Err(k),
            },
            TokenS::StrLiteral(s) => match bump_s(p) {
                Ok(p1) => Ok((ExprS::Str(s), p1)),
                Err(k) => Err(k),
            },
            TokenS::KwTrue => match bump_s(p) {
                Ok(p1) => Ok((ExprS::Bool(true), p1)),
                Err(k) => Err(k),
            },
            TokenS::KwFalse => match bump_s(p) {
                Ok(p1) => Ok((ExprS::Bool(false), p1)),
                Err(k) => Err(k),
            },
            TokenS::Ident(n) => match bump_s(p) {
                Ok(p1) => Ok((ExprS::Var(n), p1)),
                Err(k) => Err(k),
            },
            TokenS::LParen => match bump_s(p) {
                Ok(p1) => match parse_expr_s(p1, fl) {
                    Ok((e, p2)) => if p2.cur is RParen {
                        match bump_s(p2) {
                            Ok(p3) => Ok((e, p3)),
                            Err(k) => Err(k),
                        }
                    } else {
                        Err(ErrorKind::Syntax)
                    },
                    Err(k) => Err(k),
                },
                Err(k) => Err(k),
            },
            TokenS::LBracket => parse_list_literal_s(p, fl),
            _ => Err(ErrorKind::Syntax),
        }
    }
}

/// A list literal `[e1, e2, ...]`, the opening bracket still current.
pub open spec fn parse_list_literal_s(p: PState, fuel: nat) -> Result<(ExprS, PState), ErrorKind>
    decreases fuel,
{
    if fuel == 0 {
        Err(ErrorKind::Resource)
    } else {
        let fl = (fuel - 1) as nat;
        match bump_s(p) {
            Ok(p1) => {
                let items_res: Result<(Seq<ExprS>, PState), ErrorKind> = if !(p1.cur
                    is RBracket) {
                    parse_items_rest_s(p1, Seq::empty(), fl)
                } else {
                    Ok((Seq::empty(), p1))
                };
                match items_res {
                    Ok((items, p2)) => if p2.cur is RBracket {
                        match bump_s(p2) {
                            Ok(p3) => Ok((ExprS::ListLiteral(items), p3)),
                            Err(k) => Err(k),
                        }
                    } else {
                        Err(ErrorKind::Syntax)
                    },
                    Err(k) => Err(k),
                }
            },
            Err(k) => Err(k),
        }
    }
}

/// The comma-separated elements of a list literal.
pub open spec fn parse_items_rest_s(p: PState, acc: Seq<ExprS>, fuel: nat) -> Result<
    (Seq<ExprS>, PState),
    ErrorKind,
>
    decreases fuel,
{
    if fuel == 0 {
        Err(ErrorKind::Resource)
    } else {
        let fl = (fuel - 1) as nat;
        match parse_expr_s(p, fl) {
            Ok((e, p1)) => {
                let acc2 = acc.push(e);
                if p1.cur is Comma {
                    match bump_s(p1) {
                        Ok(p2) => parse_items_rest_s(p2, acc2, fl),
                        Err(k) => Err(k),
                    }
                } else {
                    Ok((acc2, p1))
                }
            },
            Err(k) => Err(k),
        }
    }
}

/// A factor: a primary with any number of call suffixes.
pub open spec fn parse_factor_s(p: PState, fuel: nat) -> Result<(ExprS, PState), ErrorKind>
    decreases fuel,
{
    if fuel == 0 {
        Err(ErrorKind::Resource)
    } else {
        let fl = (fuel - 1) as nat;
        match parse_primary_s(p, fl) {
            Ok((e, p1)) => parse_factor_rest_s(p1, e, fl),
            Err(k) => Err(k),
        }
    }
}

/// Call suffixes: while a `(` follows, the node so far becomes a call.
pub open spec fn parse_factor_rest_s(p: PState, node: ExprS, fuel: nat) -> Result<
    (ExprS, PState),
    ErrorKind,
>
    decreases fuel,
{
    if fuel == 0 {
        Err(ErrorKind::Resource)
    } else {
        let fl = (fuel - 1) as nat;
        if p.cur is LParen {
            match parse_call_s(p, node, fl) {
                Ok((e2, p1)) => parse_factor_rest_s(p1, e2, fl),
                Err(k) => Err(k),
            }
        } else {
            Ok((node, p))
        }
    }
}

/// A call suffix `(...)`: the callee must be a bare name; applying `(...)`
/// to any other expression is a syntax error.
pub open spec fn parse_call_s(p: PState, callee: ExprS, fuel: nat) -> Result<
    (ExprS, PState),
    ErrorKind,
>
    decreases fuel,
{
    if fuel == 0 {
        Err(ErrorKind::Resource)
    } else {
        let fl = (fuel - 1) as nat;
        match callee {
            ExprS::Var(name) => match bump_s(p) {
                Ok(p1) => {
                    let args_res: Result<(Seq<ExprS>, PState), ErrorKind> = if !(p1.cur
                        is RParen) {
                        parse_args_rest_s(p1, Seq::empty(), fl)
                    } else {
                        Ok((Seq::empty(), p1))
                    };
                    match args_res {
                        Ok((args, p2)) => if p2.cur is RParen {
                            match bump_s(p2) {
                                Ok(p3) => Ok((ExprS::Call { callee: name, args }, p3)),
                                Err(k) => Err(k),
                            }
                        } else {
                            Err(ErrorKind::Syntax)
                        },
                        Err(k) => Err(k),
                    }
                },
                Err(k) => Err(k),
            },
            _ => Err(ErrorKind::Syntax),
        }
    }
}

/// The comma-separated arguments of a call.
pub open spec fn parse_args_rest_s(p: PState, acc: Seq<ExprS>, fuel: nat) -> Result<
    (Seq<ExprS>, PState),
    ErrorKind,
>
    decreases fuel,
{
    if fuel == 0 {
        Err(ErrorKind::Resource)
    } else {
        let fl = (fuel - 1) as nat;
        match parse_expr_s(p, fl) {
            Ok((e, p1)) => {
                let acc2 = acc.push(e);
                if p1.cur is Comma {
                    match bump_s(p1) {
                        Ok(p2) => parse_args_rest_s(p2, acc2, fl),
                        Err(k) => Err(k),
                    }
                } else {
                    Ok((acc2, p1))
                }
            },
            Err(k) => Err(k),
        }
    }
}

/// A term: factors chained by `*` and `/`, left-associative.
pub open spec fn parse_term_s(p: PState, fuel: nat) -> Result<(ExprS, PState), ErrorKind>
    decreases fuel,
{
    if fuel == 0 {
        Err(ErrorKind::Resource)
    } else {
        let fl = (fuel - 1) as nat;
        match parse_factor_s(p, fl) {
            Ok((e, p1)) => parse_term_rest_s(p1, e, fl),
            Err(k) => Err(k),
        }
    }
}

/// The `* /` chain after the first factor.
pub open spec fn parse_term_rest_s(p: PState, node: ExprS, fuel: nat) -> Result<
    (ExprS, PState),
    ErrorKind,
>
    decreases fuel,
{
    if fuel == 0 {
        Err(ErrorKind::Resource)
    } else {
        let fl = (fuel - 1) as nat;
        let op: Option<BinOp> = match p.cur {
            TokenS::Star => Some(BinOp::Mul),
            TokenS::Slash => Some(BinOp::Div),
            _ => None,
        };
        match op {
            Some(o) => match bump_s(p) {
                Ok(p1) => match parse_factor_s(p1, fl) {
                    Ok((rhs, p2)) => parse_term_rest_s(
                        p2,
                        ExprS::Binary { left: Box::new(node), op: o, right: Box::new(rhs) },
                        fl,
                    ),
                    Err(k) => Err(k),
                },
                Err(k) => Err(k),
            },
            None => Ok((node, p)),
        }
    }
}

/// A full expression: terms chained by `+ - == != < <= > >=`, all at one
/// flat precedence level, left-associative. Precedence climbing thus gives
/// `*` and `/` tighter binding than everything else.
pub open spec fn parse_expr_s(p: PState, fuel: nat) -> Result<(ExprS, PState), ErrorKind>
    decreases fuel,
{
    if fuel == 0 {
        Err(ErrorKind::Resource)
    } else {
        let fl = (fuel - 1) as nat;
        match parse_term_s(p, fl) {
            Ok((e, p1)) => parse_expr_rest_s(p1, e, fl),
            Err(k) => Err(k),
        }
    }
}

/// The additive and comparison chain after the first term.
pub open spec fn parse_expr_rest_s(p: PState, node: ExprS, fuel: nat) -> Result<
    (ExprS, PState),
    ErrorKind,
>
    decreases fuel,
{
    if fuel == 0 {
        Err(ErrorKind::Resource)
    } else {
        let fl = (fuel - 1) as nat;
        let op: Option<BinOp> = match p.cur {
            TokenS::Plus => Some(BinOp::Add),
            TokenS::Minus => Some(BinOp::Sub),
            TokenS::EqEq => Some(BinOp::Eq),
            TokenS::NotEq => Some(BinOp::NotEq),
            TokenS::Lt => Some(BinOp::Lt),
            TokenS::LtEq => Some(BinOp::LtEq),
            TokenS::Gt => Some(BinOp::Gt),
            TokenS::GtEq => Some(BinOp::GtEq),
            _ => None,
        };
        match op {
            Some(o) => match bump_s(p) {
                Ok(p1) => match parse_term_s(p1, fl) {
                    Ok((rhs, p2)) => parse_expr_rest_s(
                        p2,
                        ExprS::Binary { left: Box::new(node), op: o, right: Box::new(rhs) },
                        fl,
                    ),
                    Err(k) => Err(k),
                },
                Err(k) => Err(k),
            },
            None => Ok((node, p)),
        }
    }
}

/// A declaration `var name: type = expr`, the `var` still current.
pub open spec fn parse_var_decl_s(p: PState, fuel: nat) -> Result<(StmtS, PState), ErrorKind>
    decreases fuel,
{
    if fuel == 0 {
        Err(ErrorKind::Resource)
    } else {
        let fl = (fuel - 1) as nat;
        match bump_s(p) {
            Ok(p1) => match p1.cur {
                TokenS::Ident(name) => match bump_s(p1) {
                    Ok(p2) => match expect_s(p2, TokenS::Colon) {
                        Ok(p3) => match parse_type_s(p3) {
                            Ok((ty, p4)) => match expect_s(p4, TokenS::Eq) {
                                Ok(p5) => match parse_expr_s(p5, fl) {
                                    Ok((init, p6)) => match eat_newline_s(p6) {
                                        Ok(p7) => Ok(
                                            (StmtS::VarDecl { name, ty, init }, p7),
                                        ),
                                        Err(k) => Err(k),
                                    },
                                    Err(k) => Err(k),
                                },
                                Err(k) => Err(k),
                            },
                            Err(k) => Err(k),
                        },
                        Err(k) => Err(k),
                    },
                    Err(k) => Err(k),
                },
                _ => Err(ErrorKind::Syntax),
            },
            Err(k) => Err(k),
        }
    }
}

/// An assignment `name = expr`, the name still current.
pub open spec fn parse_assign_stmt_s(p: PState, fuel: nat) -> Result<(StmtS, PState), ErrorKind>
    decreases fuel,
{
    if fuel == 0 {
        Err(ErrorKind::Resource)
    } else {
        let fl = (fuel - 1) as nat;
        match p.cur {
            TokenS::Ident(name) => match bump_s(p) {
                Ok(p1) => match expect_s(p1, TokenS::Eq) {
                    Ok(p2) => match parse_expr_s(p2, fl) {
                        Ok((e, p3)) => match eat_newline_s(p3) {
                            Ok(p4) => Ok((StmtS::Assign { name, expr: e }, p4)),
                            Err(k) => Err(k),
                        },
                        Err(k) => Err(k),
                    },
                    Err(k) => Err(k),
                },
                Err(k) => Err(k),
            },
            _ => Err(ErrorKind::Syntax),
        }
    }
}

/// A `return` with an optional value, the `return` still current.
pub open spec fn parse_return_stmt_s(p: PState, fuel: nat) -> Result<(StmtS, PState), ErrorKind>
    decreases fuel,
{
    if fuel == 0 {
        Err(ErrorKind::Resource)
    } else {
        let fl = (fuel - 1) as nat;
        match bump_s(p) {
            Ok(p1) => if p1.cur is Newline || p1.cur is RBrace {
                match eat_newline_s(p1) {
                    Ok(p2) => Ok((StmtS::Return(None), p2)),
                    Err(k) => Err(k),
                }
            } else {
                match parse_expr_s(p1, fl) {
                    Ok((e, p2)) => match eat_newline_s(p2) {
                        Ok(p3) => Ok((StmtS::Return(Some(e)), p3)),
                        Err(k) => Err(k),
                    },
                    Err(k) => Err(k),
                }
            },
            Err(k) => Err(k),
        }
    }
}

/// A block `{ ... }`: the brace is demanded, leading blank lines skipped,
/// statements read until the closing brace, which is demanded too — an
/// unterminated block is a syntax error.
pub open spec fn parse_block_s(p: PState, fuel: nat) -> Result<(Seq<StmtS>, PState), ErrorKind>
    decreases fuel,
{
    if fuel == 0 {
        Err(ErrorKind::Resource)
    } else {
        let fl = (fuel - 1) as nat;
        match expect_s(p, TokenS::LBrace) {
            Ok(p1) => match skip_newlines_s(p1, fl) {
                Ok(p2) => match parse_block_rest_s(p2, Seq::empty(), fl) {
                    Ok((stmts, p3)) => match expect_s(p3, TokenS::RBrace) {
                        Ok(p4) => Ok((stmts, p4)),
                        Err(k) => Err(k),
                    },
                    Err(k) => Err(k),
                },
                Err(k) => Err(k),
            },
            Err(k) => Err(k),
        }
    }
}

/// The statements of a block, up to the closing brace or the end of input.
pub open spec fn parse_block_rest_s(p: PState, acc: Seq<StmtS>, fuel: nat) -> Result<
    (Seq<StmtS>, PState),
    ErrorKind,
>
    decreases fuel,
{
    if fuel == 0 {
        Err(ErrorKind::Resource)
    } else {
        let fl = (fuel - 1) as nat;
        if p.cur is RBrace || p.cur is EOF {
            Ok((acc, p))
        } else {
            match parse_stmt_s(p, fl) {
                Ok((s, p1)) => match skip_newlines_s(p1, fl) {
                    Ok(p2) => parse_block_rest_s(p2, acc.push(s), fl),
                    Err(k) => Err(k),
                },
                Err(k) => Err(k),
            }
        }
    }
}

/// An `if` statement with its `elif` chain and optional `else`.
pub open spec fn parse_if_stmt_s(p: PState, fuel: nat) -> Result<(StmtS, PState), ErrorKind>
    decreases fuel,
{
    if fuel == 0 {
        Err(ErrorKind::Resource)
    } else {
        let fl = (fuel - 1) as nat;
        match bump_s(p) {
            Ok(p1) => match parse_expr_s(p1, fl) {
                Ok((cond, p2)) => match parse_block_s(p2, fl) {
                    Ok((then_branch, p3)) => match skip_newlines_s(p3, fl) {
                        Ok(p4) => match parse_elifs_rest_s(p4, Seq::empty(), fl) {
                            Ok((elifs, p5)) => if p5.cur is KwElse {
                                match bump_s(p5) {
                                    Ok(p6) => match parse_block_s(p6, fl) {
                                        Ok((else_branch, p7)) => Ok(
                                            (
                                                StmtS::Branch {
                                                    cond,
                                                    then_branch,
                                                    else_if_branches: elifs,
                                                    else_branch,
                                                },
                                                p7,
                                            ),
                                        ),
                                        Err(k) => Err(k),
                                    },
                                    Err(k) => Err(k),
                                }
                            } else {
                                Ok(
                                    (
                                        StmtS::Branch {
                                            cond,
                                            then_branch,
                                            else_if_branches: elifs,
                                            else_branch: Seq::empty(),
                                        },
                                        p5,
                                    ),
                                )
                            },
                            Err(k) => Err(k),
                        },
                        Err(k) => Err(k),
                    },
                    Err(k) => Err(k),
                },
                Err(k) => Err(k),
            },
            Err(k) => Err(k),
        }
    }
}

/// The chain of `elif cond { ... }` arms after an `if` block.
pub open spec fn parse_elifs_rest_s(p: PState, acc: Seq<StmtS>, fuel: nat) -> Result<
    (Seq<StmtS>, PState),
    ErrorKind,
>
    decreases fuel,
{
    if fuel == 0 {
        Err(ErrorKind::Resource)
    } else {
        let fl = (fuel - 1) as nat;
        if p.cur is KwElseIf {
            match bump_s(p) {
                Ok(p1) => match parse_expr_s(p1, fl) {
                    Ok((cond, p2)) => match parse_block_s(p2, fl) {
                        Ok((then_branch, p3)) => match skip_newlines_s(p3, fl) {
                            Ok(p4) => parse_elifs_rest_s(
                                p4,
                                acc.push(StmtS::ElseIfBranch { cond, then_branch }),
                                fl,
                            ),
                            Err(k) => Err(k),
                        },
                        Err(k) => Err(k),
                    },
                    Err(k) => Err(k),
                },
                Err(k) => Err(k),
            }
        } else {
            Ok((acc, p))
        }
    }
}

/// A `while cond { body }` loop, the `while` still current.
pub open spec fn parse_while_stmt_s(p: PState, fuel: nat) -> Result<(StmtS, PState), ErrorKind>
    decreases fuel,
{
    if fuel == 0 {
        Err(ErrorKind::Resource)
    } else {
        let fl = (fuel - 1) as nat;
        match bump_s(p) {
            Ok(p1) => match parse_expr_s(p1, fl) {
                Ok((cond, p2)) => match parse_block_s(p2, fl) {
                    Ok((body, p3)) => Ok((StmtS::While { cond, body }, p3)),
                    Err(k) => Err(k),
                },
                Err(k) => Err(k),
            },
            Err(k) => Err(k),
        }
    }
}

/// A `for` statement: `for name in expr { ... }` iterates a value; `for
/// (init; cond; step) { ... }` is the C-style form with every clause
/// omittable. Which form follows is decided by the token after `for`.
pub open spec fn parse_for_stmt_s(p: PState, fuel: nat) -> Result<(StmtS, PState), ErrorKind>
    decreases fuel,
{
    if fuel == 0 {
        Err(ErrorKind::Resource)
    } else {
        let fl = (fuel - 1) as nat;
        match bump_s(p) {
            Ok(p1) => match p1.cur {
                TokenS::Ident(var_name) => parse_foreach_tail_s(p1, var_name, fl),
                TokenS::LParen => parse_cfor_tail_s(p1, fl),
                _ => Err(ErrorKind::Syntax),
            },
            Err(k) => Err(k),
        }
    }
}

/// The rest of a for-each statement, the bound variable's name current.
pub open spec fn parse_foreach_tail_s(p: PState, var_name: Seq<char>, fuel: nat) -> Result<
    (StmtS, PState),
    ErrorKind,
>
    decreases fuel,
{
    if fuel == 0 {
        Err(ErrorKind::Resource)
    } else {
        let fl = (fuel - 1) as nat;
        match bump_s(p) {
            Ok(p1) => if p1.cur is KwIn {
                match bump_s(p1) {
                    Ok(p2) => match parse_expr_s(p2, fl) {
                        Ok((iter_expr, p3)) => match parse_block_s(p3, fl) {
                            Ok((body, p4)) => Ok(
                                (StmtS::ForEach { var_name, iter_expr, body }, p4),
                            ),
                            Err(k) => Err(k),
                        },
                        Err(k) => Err(k),
                    },
                    Err(k) => Err(k),
                }
            } else {
                Err(ErrorKind::Syntax)
            },
            Err(k) => Err(k),
        }
    }
}

/// The rest of a C-style `for`, its opening parenthesis current.
pub open spec fn parse_cfor_tail_s(p: PState, fuel: nat) -> Result<(StmtS, PState), ErrorKind>
    decreases fuel,
{
    if fuel == 0 {
        Err(ErrorKind::Resource)
    } else {
        let fl = (fuel - 1) as nat;
        match bump_s(p) {
            Ok(p2) => {
                let init_res: Result<(Option<StmtS>, PState), ErrorKind> = if p2.cur is Semi {
                    Ok((None, p2))
                } else {
                    match parse_stmt_s(p2, fl) {
                        Ok((st, pp)) => Ok((Some(st), pp)),
                        Err(k) => Err(k),
                    }
                };
                match init_res {
                    Ok((init, p3)) => match expect_s(p3, TokenS::Semi) {
                        Ok(p4) => {
                            let cond_res: Result<(Option<ExprS>, PState), ErrorKind> = if p4.cur
                                is Semi {
                                Ok((None, p4))
                            } else {
                                match parse_expr_s(p4, fl) {
                                    Ok((e, pp)) => Ok((Some(e), pp)),
                                    Err(k) => Err(k),
                                }
                            };
                            match cond_res {
                                Ok((cond, p5)) => match expect_s(p5, TokenS::Semi) {
                                    Ok(p6) => {
                                        let step_res: Result<
                                            (Option<StmtS>, PState),
                                            ErrorKind,
                                        > = if p6.cur is RParen {
                                            Ok((None, p6))
                                        } else {
                                            match parse_stmt_s(p6, fl) {
                                                Ok((st, pp)) => Ok((Some(st), pp)),
                                                Err(k) => Err(k),
                                            }
                                        };
                                        match step_res {
                                            Ok((step, p7)) => match expect_s(p7, TokenS::RParen) {
                                                Ok(p8) => match parse_block_s(p8, fl) {
                                                    Ok((body, p9)) => Ok(
                                                        (
                                                            StmtS::For {
                                                                init: match init {
                                                                    Some(st) => Some(Box::new(st)),
                                                                    None => None,
                                                                },
                                                                cond,
                                                                step: match step {
                                                                    Some(st) => Some(Box::new(st)),
                                                                    None => None,
                                                                },
                                                                body,
                                                            },
                                                            p9,
                                                        ),
                                                    ),
                                                    Err(k) => Err(k),
                                                },
                                                Err(k) => Err(k),
                                            },
                                            Err(k) => Err(k),
                                        }
                                    },
                                    Err(k) => Err(k),
                                },
                                Err(k) => Err(k),
                            }
                        },
                        Err(k) => Err(k),
                    },
                    Err(k) => Err(k),
                }
            },
            Err(k) => Err(k),
        }
    }
}

/// One statement, dispatched on the current token; a leading identifier is
/// an assignment exactly when the *next* token is `=`, which the parser
/// decides by scanning ahead on a copy of the lexer.
pub open spec fn parse_stmt_s(p: PState, fuel: nat) -> Result<(StmtS, PState), ErrorKind>
    decreases fuel,
{
    if fuel == 0 {
        Err(ErrorKind::Resource)
    } else {
        let fl = (fuel - 1) as nat;
        match p.cur {
            TokenS::Kwvar => parse_var_decl_s(p, fl),
            TokenS::KwIf => parse_if_stmt_s(p, fl),
            TokenS::KwWhile => parse_while_stmt_s(p, fl),
            TokenS::KwFor => parse_for_stmt_s(p, fl),
            TokenS::KwReturn => parse_return_stmt_s(p, fl),
            TokenS::Ident(_) => parse_ident_stmt_s(p, fl),
            _ => parse_expr_stmt_s(p, fl),
        }
    }
}

/// A statement that starts with an identifier: an assignment when the very
/// next token is `=`, otherwise a bare expression statement.
pub open spec fn parse_ident_stmt_s(p: PState, fuel: nat) -> Result<(StmtS, PState), ErrorKind>
    decreases fuel,
{
    if fuel == 0 {
        Err(ErrorKind::Resource)
    } else {
        let fl = (fuel - 1) as nat;
        match peek2_s(p) {
            Ok(t2) => if t2 is Eq {
                parse_assign_stmt_s(p, fl)
            } else {
                parse_expr_stmt_s(p, fl)
            },
            Err(k) => Err(k),
        }
    }
}

/// A bare expression statement, its optional trailing newline consumed.
pub open spec fn parse_expr_stmt_s(p: PState, fuel: nat) -> Result<(StmtS, PState), ErrorKind>
    decreases fuel,
{
    if fuel == 0 {
        Err(ErrorKind::Resource)
    } else {
        let fl = (fuel - 1) as nat;
        match parse_expr_s(p, fl) {
            Ok((e, p1)) => match eat_newline_s(p1) {
                Ok(p2) => Ok((StmtS::ExprStmt(e), p2)),
                Err(k) => Err(k),
            },
            Err(k) => Err(k),
        }
    }
}

/// A function definition `func name(p1: T1, ...) { body }`, the `func`
/// still current.
pub open spec fn parse_function_s(p: PState, fuel: nat) -> Result<(FunctionS, PState), ErrorKind>
    decreases fuel,
{
    if fuel == 0 {
        Err(ErrorKind::Resource)
    } else {
        let fl = (fuel - 1) as nat;
        match bump_s(p) {
            Ok(p1) => match p1.cur {
                TokenS::Ident(name) => parse_function_tail_s(p1, name, fl),
                _ => Err(ErrorKind::Syntax),
            },
            Err(k) => Err(k),
        }
    }
}

/// A function definition's parameter list and body, its name current.
pub open spec fn parse_function_tail_s(p: PState, name: Seq<char>, fuel: nat) -> Result<
    (FunctionS, PState),
    ErrorKind,
>
    decreases fuel,
{
    if fuel == 0 {
        Err(ErrorKind::Resource)
    } else {
        let fl = (fuel - 1) as nat;
        match bump_s(p) {
            Ok(p2) => match expect_s(p2, TokenS::LParen) {
                Ok(p3) => {
                    let params_res: Result<(Seq<(Seq<char>, Type)>, PState), ErrorKind> = if !(
                    p3.cur is RParen) {
                        parse_params_rest_s(p3, Seq::empty(), fl)
                    } else {
                        Ok((Seq::empty(), p3))
                    };
                    match params_res {
                        Ok((params, p4)) => match expect_s(p4, TokenS::RParen) {
                            Ok(p5) => match parse_block_s(p5, fl) {
                                Ok((body, p6)) => Ok((FunctionS { name, params, body }, p6)),
                                Err(k) => Err(k),
                            },
                            Err(k) => Err(k),
                        },
                        Err(k) => Err(k),
                    }
                },
                Err(k) => Err(k),
            },
            Err(k) => Err(k),
        }
    }
}

/// The comma-separated `name: type` parameters of a function definition.
pub open spec fn parse_params_rest_s(
    p: PState,
    acc: Seq<(Seq<char>, Type)>,
    fuel: nat,
) -> Result<(Seq<(Seq<char>, Type)>, PState), ErrorKind>
    decreases fuel,
{
    if fuel == 0 {
        Err(ErrorKind::Resource)
    } else {
        let fl = (fuel - 1) as nat;
        match p.cur {
            TokenS::Ident(name) => match bump_s(p) {
                Ok(p1) => match expect_s(p1, TokenS::Colon) {
                    Ok(p2) => match parse_type_s(p2) {
                        Ok((ty, p3)) => {
                            let acc2 = acc.push((name, ty));
                            if p3.cur is Comma {
                                match bump_s(p3) {
                                    Ok(p4) => parse_params_rest_s(p4, acc2, fl),
                                    Err(k) => Err(k),
                                }
                            } else {
                                Ok((acc2, p3))
                            }
                        },
                        Err(k) => Err(k),
                    },
                    Err(k) => Err(k),
                },
                Err(k) => Err(k),
            },
            _ => Err(ErrorKind::Syntax),
        }
    }
}

/// A whole program: function definitions and top-level statements in any
/// order, up to the end of the input.
pub open spec fn parse_program_s(p: PState, fuel: nat) -> Result<(ProgramS, PState), ErrorKind>
    decreases fuel,
{
    if fuel == 0 {
        Err(ErrorKind::Resource)
    } else {
        let fl = (fuel - 1) as nat;
        match skip_newlines_s(p, fl) {
            Ok(p1) => parse_program_rest_s(p1, Seq::empty(), Seq::empty(), fl),
            Err(k) => Err(k),
        }
    }
}

/// The items of a program after any leading blank lines.
pub open spec fn parse_program_rest_s(
    p: PState,
    funcs: Seq<FunctionS>,
    stmts: Seq<StmtS>,
    fuel: nat,
) -> Result<(ProgramS, PState), ErrorKind>
    decreases fuel,
{
    if fuel == 0 {
        Err(ErrorKind::Resource)
    } else {
        let fl = (fuel - 1) as nat;
        if p.cur is EOF {
            Ok((ProgramS { functions: funcs, stmts }, p))
        } else if p.cur is KwFunc {
            match parse_function_s(p, fl) {
                Ok((f, p1)) => match skip_newlines_s(p1, fl) {
                    Ok(p2) => parse_program_rest_s(p2, funcs.push(f), stmts, fl),
                    Err(k) => Err(k),
                },
                Err(k) => Err(k),
            }
        } else {
            match parse_stmt_s(p, fl) {
                Ok((s, p1)) => match skip_newlines_s(p1, fl) {
                    Ok(p2) => parse_program_rest_s(p2, funcs, stmts.push(s), fl),
                    Err(k) => Err(k),
                },
                Err(k) => Err(k),
            }
        }
    }
}


/// Whether an executable state-only step agrees with the spec.
pub open spec fn p_unit_matches(r: Result<(), Error>, p_after: PState, s: Result<
    PState,
    ErrorKind,
>) -> bool {
    match s {
        Ok(p2) => r is Ok && p_after == p2,
        Err(k) => r matches Err(e) && e.kind == k,
    }
}

/// Whether a peeked token agrees with the spec.
pub open spec fn p_tok_matches(r: Result<Token, Error>, s: Result<TokenS, ErrorKind>) -> bool {
    match s {
        Ok(t) => r matches Ok(tt) && tt@ == t,
        Err(k) => r matches Err(e) && e.kind == k,
    }
}

/// Whether a parsed type agrees with the spec.
pub open spec fn p_type_matches(r: Result<Type, Error>, p_after: PState, s: Result<
    (Type, PState),
    ErrorKind,
>) -> bool {
    match s {
        Ok(q) => r matches Ok(t) && t == q.0 && p_after == q.1,
        Err(k) => r matches Err(e) && e.kind == k,
    }
}

/// Whether a parsed expression agrees with the spec.
pub open spec fn p_expr_matches(r: Result<Expr, Error>, p_after: PState, s: Result<
    (ExprS, PState),
    ErrorKind,
>) -> bool {
    match s {
        Ok(q) => r matches Ok(e) && e@ == q.0 && p_after == q.1,
        Err(k) => r matches Err(e) && e.kind == k,
    }
}

/// Whether a parsed expression list agrees with the spec.
pub open spec fn p_exprs_matches(r: Result<Vec<Expr>, Error>, p_after: PState, s: Result<
    (Seq<ExprS>, PState),
    ErrorKind,
>) -> bool {
    match s {
        Ok(q) => r matches Ok(es) && exprs_view(es@) == q.0 && p_after == q.1,
        Err(k) => r matches Err(e) && e.kind == k,
    }
}

/// Whether a parsed statement agrees with the spec.
pub open spec fn p_stmt_matches(r: Result<Stmt, Error>, p_after: PState, s: Result<
    (StmtS, PState),
    ErrorKind,
>) -> bool {
    match s {
        Ok(q) => r matches Ok(st) && st@ == q.0 && p_after == q.1,
        Err(k) => r matches Err(e) && e.kind == k,
    }
}

/// Whether a parsed block agrees with the spec.
pub open spec fn p_stmts_matches(r: Result<Vec<Stmt>, Error>, p_after: PState, s: Result<
    (Seq<StmtS>, PState),
    ErrorKind,
>) -> bool {
    match s {
        Ok(q) => r matches Ok(ss) && stmts_view(ss@) == q.0 && p_after == q.1,
        Err(k) => r matches Err(e) && e.kind == k,
    }
}

/// Whether a parsed parameter list agrees with the spec.
pub open spec fn p_params_matches(r: Result<Vec<(String, Type)>, Error>, p_after: PState, s: Result<
    (Seq<(Seq<char>, Type)>, PState),
    ErrorKind,
>) -> bool {
    match s {
        Ok(q) => r matches Ok(ps) && params_view(ps@) == q.0 && p_after == q.1,
        Err(k) => r matches Err(e) && e.kind == k,
    }
}

/// Whether a parsed function definition agrees with the spec.
pub open spec fn p_func_matches(r: Result<Function, Error>, p_after: PState, s: Result<
    (FunctionS, PState),
    ErrorKind,
>) -> bool {
    match s {
        Ok(q) => r matches Ok(f) && f@ == q.0 && p_after == q.1,
        Err(k) => r matches Err(e) && e.kind == k,
    }
}

/// Whether a parsed program agrees with the spec.
pub open spec fn p_prog_matches(r: Result<Program, Error>, p_after: PState, s: Result<
    (ProgramS, PState),
    ErrorKind,
>) -> bool {
    match s {
        Ok(q) => r matches Ok(pr) && pr@ == q.0 && p_after == q.1,
        Err(k) => r matches Err(e) && e.kind == k,
    }
}

/// The parser. It owns the scanner and one token of lookahead.
pub struct Parser {
    lexer: Lexer,
    current_token: Token,
}

impl View for Parser {
    type V = PState;

    closed spec fn view(&self) -> PState {
        PState {
            input: self.lexer@.input,
            pos: self.lexer@.pos,
            cur: self.current_token@,
        }
    }
}

impl Parser {
    /// A parser over the given scanner, with the first token already read;
    /// a lexical error in that first token fails here.
    pub fn new(lexer: Lexer) -> (r: Result<Parser, Error>)
        ensures
            match scan_token_s(lexer@.input, lexer@.pos) {
                Some(tp) => r matches Ok(ps) && ps@ == (PState {
                    input: lexer@.input,
                    pos: tp.1,
                    cur: tp.0,
                }),
                None => r matches Err(e) && e.kind == ErrorKind::Lexical,
            },
    {
        let mut lx = lexer;
        match lx.next_token() {
            Ok(t) => Ok(Parser { lexer: lx, current_token: t }),
            Err(e) => Err(e),
        }
    }

    /// Steps to the next token.
    fn bump(&mut self) -> (r: Result<(), Error>)
        ensures
            p_unit_matches(r, final(self)@, bump_s(old(self)@)),
    {
        match self.lexer.next_token() {
            Ok(t) => {
                self.current_token = t;
                Ok(())
            },
            Err(e) => Err(e),
        }
    }

    /// The token after the current one, read on a copy of the scanner so the
    /// parser itself does not move.
    fn peek_token(&self) -> (r: Result<Token, Error>)
        ensures
            p_tok_matches(r, peek2_s(self@)),
    {
        let mut cl = self.lexer.clone();
        cl.next_token()
    }

    /// A syntax error at the current token, named in the diagnostic.
    fn error(&self, msg: &str) -> (e: Error)
        ensures
            e.kind == ErrorKind::Syntax,
    {
        let found = self.current_token.describe();
        let mut m = String::from_str(msg);
        m.append(", found ");
        m.append(found.as_str());
        Error { kind: ErrorKind::Syntax, msg: m }
    }

    /// Demands one exact token and steps past it.
    fn expect(&mut self, expected: Token) -> (r: Result<(), Error>)
        ensures
            p_unit_matches(r, final(self)@, expect_s(old(self)@, expected@)),
    {
        if self.current_token.same_as(&expected) {
            self.bump()
        } else {
            let wanted = expected.describe();
            let mut m = String::from_str("expected ");
            m.append(wanted.as_str());
            Err(self.error(m.as_str()))
        }
    }

    /// Consumes a trailing newline when one is present.
    fn eat_newline(&mut self) -> (r: Result<(), Error>)
        ensures
            p_unit_matches(r, final(self)@, eat_newline_s(old(self)@)),
    {
        if self.current_token.same_as(&Token::Newline) {
            self.bump()
        } else {
            Ok(())
        }
    }

    /// Skips a run of blank lines.
    fn skip_newlines(&mut self, fuel: u64) -> (r: Result<(), Error>)
        ensures
            p_unit_matches(r, final(self)@, skip_newlines_s(old(self)@, fuel as nat)),
        decreases fuel,
    {
        if fuel == 0 {
            return Err(Error::new(ErrorKind::Resource, "the step budget is exhausted"));
        }
        if self.current_token.same_as(&Token::Newline) {
            match self.bump() {
                Ok(_) => self.skip_newlines(fuel - 1),
                Err(e) => Err(e),
            }
        } else {
            Ok(())
        }
    }

    /// Reads a type name.
    fn parse_type(&mut self) -> (r: Result<Type, Error>)
        ensures
            p_type_matches(r, final(self)@, parse_type_s(old(self)@)),
    {
        let ty = match &self.current_token {
            Token::Ident(n) => {
                if str_eq(n.as_str(), "int") {
                    Some(Type::Int)
                } else if str_eq(n.as_str(), "bool") {
                    Some(Type::Bool)
                } else if str_eq(n.as_str(), "str") {
                    Some(Type::Str)
                } else if str_eq(n.as_str(), "list") {
                    Some(Type::List)
                } else {
                    None
                }
            },
            _ => None,
        };
        match ty {
            Some(t) => match self.bump() {
                Ok(_) => Ok(t),
                Err(e) => Err(e),
            },
            None => Err(self.error("expected a type name")),
        }
    }

    /// Reads a primary expression.
    fn parse_primary(&mut self, fuel: u64) -> (r: Result<Expr, Error>)
        ensures
            p_expr_matches(r, final(self)@, parse_primary_s(old(self)@, fuel as nat)),
        decreases fuel,
    {
        if fuel == 0 {
            return Err(Error::new(ErrorKind::Resource, "the step budget is exhausted"));
        }
        let fl = fuel - 1;
        match &self.current_token {
            Token::IntLiteral(v) => {
                let value = *v;
                match self.bump() {
                    Ok(_) => Ok(Expr::Int(value)),
                    Err(e) => Err(e),
                }
            },
            Token::StrLiteral(st) => {
                let text = st.clone();
                match self.bump() {
                    Ok(_) => Ok(Expr::Str(text)),
                    Err(e) => Err(e),
                }
            },
            Token::KwTrue => match self.bump() {
                Ok(_) => Ok(Expr::Bool(true)),
                Err(e) => Err(e),
            },
            Token::KwFalse => match self.bump() {
                Ok(_) => Ok(Expr::Bool(false)),
                Err(e) => Err(e),
            },
            Token::Ident(n) => {
                let name = n.clone();
                match self.bump() {
                    Ok(_) => Ok(Expr::Var(name)),
                    Err(e) => Err(e),
                }
            },
            Token::LParen => {
                match self.bump() {
                    Ok(_) => {},
                    Err(e) => {
                        return Err(e);
                    },
                }
                let e = match self.parse_expr(fl) {
                    Ok(e) => e,
                    Err(er) => {
                        return Err(er);
                    },
                };
                if !self.current_token.same_as(&Token::RParen) {
                    return Err(
                        self.error("expected ')' after parenthesized expression"),
                    );
                }
                match self.bump() {
                    Ok(_) => Ok(e),
                    Err(er) => Err(er),
                }
            },
            Token::LBracket => self.parse_list_literal(fl),
            _ => Err(self.error("unexpected token in primary expression")),
        }
    }

    /// Reads a list literal `[e1, e2, ...]`.
    #[verifier::rlimit(100)]
    fn parse_list_literal(&mut self, fuel: u64) -> (r: Result<Expr, Error>)
        ensures
            p_expr_matches(r, final(self)@, parse_list_literal_s(old(self)@, fuel as nat)),
        decreases fuel,
    {
        if fuel == 0 {
            return Err(Error::new(ErrorKind::Resource, "the step budget is exhausted"));
        }
        let fl = fuel - 1;
        match self.bump() {
            Ok(_) => {},
            Err(e) => {
                return Err(e);
            },
        }
        let items = if !self.current_token.same_as(&Token::RBracket) {
            match self.parse_items_rest(Vec::new(), fl) {
                Ok(es) => es,
                Err(e) => {
                    return Err(e);
                },
            }
        } else {
            let none: Vec<Expr> = Vec::new();
            proof {
                assert(exprs_view(none@) =~= Seq::<ExprS>::empty());
            }
            none
        };
        if !self.current_token.same_as(&Token::RBracket) {
            return Err(self.error("expected ']' at end of list literal"));
        }
        match self.bump() {
            Ok(_) => Ok(Expr::ListLiteral(items)),
            Err(e) => Err(e),
        }
    }

    /// Reads the comma-separated elements of a list literal.
    fn parse_items_rest(&mut self, acc: Vec<Expr>, fuel: u64) -> (r: Result<Vec<Expr>, Error>)
        ensures
            p_exprs_matches(
                r,
                final(self)@,
                parse_items_rest_s(old(self)@, exprs_view(acc@), fuel as nat),
            ),
        decreases fuel,
    {
        if fuel == 0 {
            return Err(Error::new(ErrorKind::Resource, "the step budget is exhausted"));
        }
        let fl = fuel - 1;
        let ghost accv = exprs_view(acc@);
        let e = match self.parse_expr(fl) {
            Ok(e) => e,
            Err(er) => {
                return Err(er);
            },
        };
        let mut acc2 = acc;
        let ghost prev = acc2@;
        acc2.push(e);
        proof {
            lemma_exprs_view_push(prev, acc2@.last());
        }
        if self.current_token.same_as(&Token::Comma) {
            match self.bump() {
                Ok(_) => self.parse_items_rest(acc2, fl),
                Err(er) => Err(er),
            }
        } else {
            Ok(acc2)
        }
    }

    /// Reads a factor: a primary with any number of call suffixes.
    fn parse_factor(&mut self, fuel: u64) -> (r: Result<Expr, Error>)
        ensures
            p_expr_matches(r, final(self)@, parse_factor_s(old(self)@, fuel as nat)),
        decreases fuel,
    {
        if fuel == 0 {
            return Err(Error::new(ErrorKind::Resource, "the step budget is exhausted"));
        }
        let fl = fuel - 1;
        match self.parse_primary(fl) {
            Ok(e) => self.parse_factor_rest(e, fl),
            Err(er) => Err(er),
        }
    }

    /// Applies call suffixes while a `(` follows.
    fn parse_factor_rest(&mut self, node: Expr, fuel: u64) -> (r: Result<Expr, Error>)
        ensures
            p_expr_matches(
                r,
                final(self)@,
                parse_factor_rest_s(old(self)@, node@, fuel as nat),
            ),
        decreases fuel,
    {
        if fuel == 0 {
            return Err(Error::new(ErrorKind::Resource, "the step budget is exhausted"));
        }
        let fl = fuel - 1;
        if self.current_token.same_as(&Token::LParen) {
            match self.parse_call(node, fl) {
                Ok(e2) => self.parse_factor_rest(e2, fl),
                Err(er) => Err(er),
            }
        } else {
            Ok(node)
        }
    }

    /// Reads a call suffix; the callee must be a bare name.
    #[verifier::rlimit(100)]
    fn parse_call(&mut self, calle_expr: Expr, fuel: u64) -> (r: Result<Expr, Error>)
        ensures
            p_expr_matches(r, final(self)@, parse_call_s(old(self)@, calle_expr@, fuel as nat)),
        decreases fuel,
    {
        if fuel == 0 {
            return Err(Error::new(ErrorKind::Resource, "the step budget is exhausted"));
        }
        let fl = fuel - 1;
        let callee_name = match calle_expr {
            Expr::Var(name) => name,
            _ => {
                return Err(Error::new(ErrorKind::Syntax, "can only call functions by name"));
            },
        };
        match self.bump() {
            Ok(_) => {},
            Err(e) => {
                return Err(e);
            },
        }
        let args = if !self.current_token.same_as(&Token::RParen) {
            match self.parse_args_rest(Vec::new(), fl) {
                Ok(es) => es,
                Err(e) => {
                    return Err(e);
                },
            }
        } else {
            let none: Vec<Expr> = Vec::new();
            proof {
                assert(exprs_view(none@) =~= Seq::<ExprS>::empty());
            }
            none
        };
        if !self.current_token.same_as(&Token::RParen) {
            return Err(
                self.error("expected ')' at the end of the function call"),
            );
        }
        match self.bump() {
            Ok(_) => Ok(Expr::Call { callee: callee_name, args }),
            Err(e) => Err(e),
        }
    }

    /// Reads the comma-separated arguments of a call.
    fn parse_args_rest(&mut self, acc: Vec<Expr>, fuel: u64) -> (r: Result<Vec<Expr>, Error>)
        ensures
            p_exprs_matches(
                r,
                final(self)@,
                parse_args_rest_s(old(self)@, exprs_view(acc@), fuel as nat),
            ),
        decreases fuel,
    {
        if fuel == 0 {
            return Err(Error::new(ErrorKind::Resource, "the step budget is exhausted"));
        }
        let fl = fuel - 1;
        let e = match self.parse_expr(fl) {
            Ok(e) => e,
            Err(er) => {
                return Err(er);
            },
        };
        let mut acc2 = acc;
        let ghost prev = acc2@;
        acc2.push(e);
        proof {
            lemma_exprs_view_push(prev, acc2@.last());
        }
        if self.current_token.same_as(&Token::Comma) {
            match self.bump() {
                Ok(_) => self.parse_args_rest(acc2, fl),
                Err(er) => Err(er),
            }
        } else {
            Ok(acc2)
        }
    }

    /// Reads a term: factors chained by `*` and `/`.
    fn parse_term(&mut self, fuel: u64) -> (r: Result<Expr, Error>)
        ensures
            p_expr_matches(r, final(self)@, parse_term_s(old(self)@, fuel as nat)),
        decreases fuel,
    {
        if fuel == 0 {
            return Err(Error::new(ErrorKind::Resource, "the step budget is exhausted"));
        }
        let fl = fuel - 1;
        match self.parse_factor(fl) {
            Ok(e) => self.parse_term_rest(e, fl),
            Err(er) => Err(er),
        }
    }

    /// Continues a `* /` chain.
    fn parse_term_rest(&mut self, node: Expr, fuel: u64) -> (r: Result<Expr, Error>)
        ensures
            p_expr_matches(r, final(self)@, parse_term_rest_s(old(self)@, node@, fuel as nat)),
        decreases fuel,
    {
        if fuel == 0 {
            return Err(Error::new(ErrorKind::Resource, "the step budget is exhausted"));
        }
        let fl = fuel - 1;
        let op: Option<BinOp> = match &self.current_token {
            Token::Star => Some(BinOp::Mul),
            Token::Slash => Some(BinOp::Div),
            _ => None,
        };
        match op {
            Some(o) => {
                match self.bump() {
                    Ok(_) => {},
                    Err(e) => {
                        return Err(e);
                    },
                }
                let rhs = match self.parse_factor(fl) {
                    Ok(e) => e,
                    Err(er) => {
                        return Err(er);
                    },
                };
                self.parse_term_rest(
                    Expr::Binary { left: Box::new(node), op: o, right: Box::new(rhs) },
                    fl,
                )
            },
            None => Ok(node),
        }
    }

    /// Reads a full expression: terms chained by `+ - == != < <= > >=`.
    pub fn parse_expr(&mut self, fuel: u64) -> (r: Result<Expr, Error>)
        ensures
            p_expr_matches(r, final(self)@, parse_expr_s(old(self)@, fuel as nat)),
        decreases fuel,
    {
        if fuel == 0 {
            return Err(Error::new(ErrorKind::Resource, "the step budget is exhausted"));
        }
        let fl = fuel - 1;
        match self.parse_term(fl) {
            Ok(e) => self.parse_expr_rest(e, fl),
            Err(er) => Err(er),
        }
    }

    /// Continues an additive or comparison chain.
    fn parse_expr_rest(&mut self, node: Expr, fuel: u64) -> (r: Result<Expr, Error>)
        ensures
            p_expr_matches(r, final(self)@, parse_expr_rest_s(old(self)@, node@, fuel as nat)),
        decreases fuel,
    {
        if fuel == 0 {
            return Err(Error::new(ErrorKind::Resource, "the step budget is exhausted"));
        }
        let fl = fuel - 1;
        let op: Option<BinOp> = match &self.current_token {
            Token::Plus => Some(BinOp::Add),
            Token::Minus => Some(BinOp::Sub),
            Token::EqEq => Some(BinOp::Eq),
            Token::NotEq => Some(BinOp::NotEq),
            Token::Lt => Some(BinOp::Lt),
            Token::LtEq => Some(BinOp::LtEq),
            Token::Gt => Some(BinOp::Gt),
            Token::GtEq => Some(BinOp::GtEq),
            _ => None,
        };
        match op {
            Some(o) => {
                match self.bump() {
                    Ok(_) => {},
                    Err(e) => {
                        return Err(e);
                    },
                }
                let rhs = match self.parse_term(fl) {
                    Ok(e) => e,
                    Err(er) => {
                        return Err(er);
                    },
                };
                self.parse_expr_rest(
                    Expr::Binary { left: Box::new(node), op: o, right: Box::new(rhs) },
                    fl,
                )
            },
            None => Ok(node),
        }
    }

    /// Reads a declaration `var name: type = expr`.
    #[verifier::rlimit(100)]
    fn parse_var_decl(&mut self, fuel: u64) -> (r: Result<Stmt, Error>)
        ensures
            p_stmt_matches(r, final(self)@, parse_var_decl_s(old(self)@, fuel as nat)),
        decreases fuel,
    {
        if fuel == 0 {
            return Err(Error::new(ErrorKind::Resource, "the step budget is exhausted"));
        }
        let fl = fuel - 1;
        match self.bump() {
            Ok(_) => {},
            Err(e) => {
                return Err(e);
            },
        }
        let name = match &self.current_token {
            Token::Ident(n) => n.clone(),
            _ => {
                return Err(self.error("expected identifier after 'var'"));
            },
        };
        match self.bump() {
            Ok(_) => {},
            Err(e) => {
                return Err(e);
            },
        }
        match self.expect(Token::Colon) {
            Ok(_) => {},
            Err(e) => {
                return Err(e);
            },
        }
        let ty = match self.parse_type() {
            Ok(t) => t,
            Err(e) => {
                return Err(e);
            },
        };
        match self.expect(Token::Eq) {
            Ok(_) => {},
            Err(e) => {
                return Err(e);
            },
        }
        let init = match self.parse_expr(fl) {
            Ok(e) => e,
            Err(e) => {
                return Err(e);
            },
        };
        match self.eat_newline() {
            Ok(_) => Ok(Stmt::VarDecl { name, ty, init }),
            Err(e) => Err(e),
        }
    }

    /// Reads an assignment `name = expr`.
    fn parse_assign_stmt(&mut self, fuel: u64) -> (r: Result<Stmt, Error>)
        ensures
            p_stmt_matches(r, final(self)@, parse_assign_stmt_s(old(self)@, fuel as nat)),
        decreases fuel,
    {
        if fuel == 0 {
            return Err(Error::new(ErrorKind::Resource, "the step budget is exhausted"));
        }
        let fl = fuel - 1;
        let name = match &self.current_token {
            Token::Ident(n) => n.clone(),
            _ => {
                return Err(
                    self.error("expected identifier at start of assignment"),
                );
            },
        };
        match self.bump() {
            Ok(_) => {},
            Err(e) => {
                return Err(e);
            },
        }
        match self.expect(Token::Eq) {
            Ok(_) => {},
            Err(e) => {
                return Err(e);
            },
        }
        let expr = match self.parse_expr(fl) {
            Ok(e) => e,
            Err(e) => {
                return Err(e);
            },
        };
        match self.eat_newline() {
            Ok(_) => Ok(Stmt::Assign { name, expr }),
            Err(e) => Err(e),
        }
    }

    /// Reads a `return` with an optional value.
    fn parse_return_stmt(&mut self, fuel: u64) -> (r: Result<Stmt, Error>)
        ensures
            p_stmt_matches(r, final(self)@, parse_return_stmt_s(old(self)@, fuel as nat)),
        decreases fuel,
    {
        if fuel == 0 {
            return Err(Error::new(ErrorKind::Resource, "the step budget is exhausted"));
        }
        let fl = fuel - 1;
        match self.bump() {
            Ok(_) => {},
            Err(e) => {
                return Err(e);
            },
        }
        if self.current_token.same_as(&Token::Newline) || self.current_token.same_as(
            &Token::RBrace,
        ) {
            match self.eat_newline() {
                Ok(_) => Ok(Stmt::Return(None)),
                Err(e) => Err(e),
            }
        } else {
            let e = match self.parse_expr(fl) {
                Ok(e) => e,
                Err(er) => {
                    return Err(er);
                },
            };
            match self.eat_newline() {
                Ok(_) => Ok(Stmt::Return(Some(e))),
                Err(er) => Err(er),
            }
        }
    }

    /// Reads a block `{ ... }`.
    #[verifier::rlimit(100)]
    fn parse_block(&mut self, fuel: u64) -> (r: Result<Vec<Stmt>, Error>)
        ensures
            p_stmts_matches(r, final(self)@, parse_block_s(old(self)@, fuel as nat)),
        decreases fuel,
    {
        if fuel == 0 {
            return Err(Error::new(ErrorKind::Resource, "the step budget is exhausted"));
        }
        let fl = fuel - 1;
        match self.expect(Token::LBrace) {
            Ok(_) => {},
            Err(e) => {
                return Err(e);
            },
        }
        match self.skip_newlines(fl) {
            Ok(_) => {},
            Err(e) => {
                return Err(e);
            },
        }
        let stmts = match self.parse_block_rest(Vec::new(), fl) {
            Ok(ss) => ss,
            Err(e) => {
                return Err(e);
            },
        };
        match self.expect(Token::RBrace) {
            Ok(_) => Ok(stmts),
            Err(e) => Err(e),
        }
    }

    /// Reads a block's statements up to its closing brace.
    fn parse_block_rest(&mut self, acc: Vec<Stmt>, fuel: u64) -> (r: Result<Vec<Stmt>, Error>)
        ensures
            p_stmts_matches(
                r,
                final(self)@,
                parse_block_rest_s(old(self)@, stmts_view(acc@), fuel as nat),
            ),
        decreases fuel,
    {
        if fuel == 0 {
            return Err(Error::new(ErrorKind::Resource, "the step budget is exhausted"));
        }
        let fl = fuel - 1;
        if self.current_token.same_as(&Token::RBrace) || self.current_token.same_as(&Token::EOF) {
            return Ok(acc);
        }
        let s = match self.parse_stmt(fl) {
            Ok(s) => s,
            Err(e) => {
                return Err(e);
            },
        };
        match self.skip_newlines(fl) {
            Ok(_) => {},
            Err(e) => {
                return Err(e);
            },
        }
        let mut acc2 = acc;
        let ghost prev = acc2@;
        acc2.push(s);
        proof {
            lemma_stmts_view_push(prev, acc2@.last());
        }
        self.parse_block_rest(acc2, fl)
    }

    /// Reads an `if` statement with its `elif` chain and optional `else`.
    #[verifier::rlimit(100)]
    fn parse_if_stmt(&mut self, fuel: u64) -> (r: Result<Stmt, Error>)
        ensures
            p_stmt_matches(r, final(self)@, parse_if_stmt_s(old(self)@, fuel as nat)),
        decreases fuel,
    {
        if fuel == 0 {
            return Err(Error::new(ErrorKind::Resource, "the step budget is exhausted"));
        }
        let fl = fuel - 1;
        match self.bump() {
            Ok(_) => {},
            Err(e) => {
                return Err(e);
            },
        }
        let cond = match self.parse_expr(fl) {
            Ok(e) => e,
            Err(e) => {
                return Err(e);
            },
        };
        let then_branch = match self.parse_block(fl) {
            Ok(ss) => ss,
            Err(e) => {
                return Err(e);
            },
        };
        match self.skip_newlines(fl) {
            Ok(_) => {},
            Err(e) => {
                return Err(e);
            },
        }
        let else_if_branches = match self.parse_elifs_rest(Vec::new(), fl) {
            Ok(ss) => ss,
            Err(e) => {
                return Err(e);
            },
        };
        let else_branch = if self.current_token.same_as(&Token::KwElse) {
            match self.bump() {
                Ok(_) => {},
                Err(e) => {
                    return Err(e);
                },
            }
            match self.parse_block(fl) {
                Ok(ss) => ss,
                Err(e) => {
                    return Err(e);
                },
            }
        } else {
            Vec::new()
        };
        Ok(Stmt::Branch { cond, then_branch, else_if_branches, else_branch })
    }

    /// Reads the chain of `elif` arms after an `if` block.
    fn parse_elifs_rest(&mut self, acc: Vec<Stmt>, fuel: u64) -> (r: Result<Vec<Stmt>, Error>)
        ensures
            p_stmts_matches(
                r,
                final(self)@,
                parse_elifs_rest_s(old(self)@, stmts_view(acc@), fuel as nat),
            ),
        decreases fuel,
    {
        if fuel == 0 {
            return Err(Error::new(ErrorKind::Resource, "the step budget is exhausted"));
        }
        let fl = fuel - 1;
        if !self.current_token.same_as(&Token::KwElseIf) {
            return Ok(acc);
        }
        match self.bump() {
            Ok(_) => {},
            Err(e) => {
                return Err(e);
            },
        }
        let cond = match self.parse_expr(fl) {
            Ok(e) => e,
            Err(e) => {
                return Err(e);
            },
        };
        let then_branch = match self.parse_block(fl) {
            Ok(ss) => ss,
            Err(e) => {
                return Err(e);
            },
        };
        match self.skip_newlines(fl) {
            Ok(_) => {},
            Err(e) => {
                return Err(e);
            },
        }
        let mut acc2 = acc;
        let ghost prev = acc2@;
        acc2.push(Stmt::ElseIfBranch { cond, then_branch });
        proof {
            lemma_stmts_view_push(prev, acc2@.last());
        }
        self.parse_elifs_rest(acc2, fl)
    }

    /// Reads a `while cond { body }` loop.
    fn parse_while_stmt(&mut self, fuel: u64) -> (r: Result<Stmt, Error>)
        ensures
            p_stmt_matches(r, final(self)@, parse_while_stmt_s(old(self)@, fuel as nat)),
        decreases fuel,
    {
        if fuel == 0 {
            return Err(Error::new(ErrorKind::Resource, "the step budget is exhausted"));
        }
        let fl = fuel - 1;
        match self.bump() {
            Ok(_) => {},
            Err(e) => {
                return Err(e);
            },
        }
        let cond = match self.parse_expr(fl) {
            Ok(e) => e,
            Err(e) => {
                return Err(e);
            },
        };
        let body = match self.parse_block(fl) {
            Ok(ss) => ss,
            Err(e) => {
                return Err(e);
            },
        };
        Ok(Stmt::While { cond, body })
    }

    /// Reads a `for` statement, in either of its two forms.
    #[verifier::rlimit(100)]
    #[verifier::spinoff_prover]
    fn parse_for_stmt(&mut self, fuel: u64) -> (r: Result<Stmt, Error>)
        ensures
            p_stmt_matches(r, final(self)@, parse_for_stmt_s(old(self)@, fuel as nat)),
        decreases fuel,
    {
        if fuel == 0 {
            return Err(Error::new(ErrorKind::Resource, "the step budget is exhausted"));
        }
        let fl = fuel - 1;
        match self.bump() {
            Ok(_) => {},
            Err(e) => {
                return Err(e);
            },
        }
        let ghost p1 = self@;
        match &self.current_token {
            Token::Ident(n) => {
                let var_name = n.clone();
                proof {
                    assert(parse_for_stmt_s(old(self)@, fuel as nat) == parse_foreach_tail_s(
                        p1,
                        var_name@,
                        fl as nat,
                    ));
                }
                self.parse_foreach_tail(var_name, fl)
            },
            Token::LParen => {
                proof {
                    assert(parse_for_stmt_s(old(self)@, fuel as nat) == parse_cfor_tail_s(
                        p1,
                        fl as nat,
                    ));
                }
                self.parse_cfor_tail(fl)
            },
            _ => {
                proof {
                    assert(parse_for_stmt_s(old(self)@, fuel as nat) == Err::<
                        (StmtS, PState),
                        ErrorKind,
                    >(ErrorKind::Syntax));
                }
                Err(self.error("invalid for-statement start"))
            },
        }
    }

    /// Reads the rest of a for-each statement, the bound variable's name
    /// current.
    fn parse_foreach_tail(&mut self, var_name: String, fuel: u64) -> (r: Result<Stmt, Error>)
        ensures
            p_stmt_matches(
                r,
                final(self)@,
                parse_foreach_tail_s(old(self)@, var_name@, fuel as nat),
            ),
        decreases fuel,
    {
        if fuel == 0 {
            return Err(Error::new(ErrorKind::Resource, "the step budget is exhausted"));
        }
        let fl = fuel - 1;
        match self.bump() {
            Ok(_) => {},
            Err(e) => {
                return Err(e);
            },
        }
        if !self.current_token.same_as(&Token::KwIn) {
            return Err(self.error("invalid foreach statement: expected 'in'"));
        }
        match self.bump() {
            Ok(_) => {},
            Err(e) => {
                return Err(e);
            },
        }
        let iter_expr = match self.parse_expr(fl) {
            Ok(e) => e,
            Err(e) => {
                return Err(e);
            },
        };
        let body = match self.parse_block(fl) {
            Ok(ss) => ss,
            Err(e) => {
                return Err(e);
            },
        };
        Ok(Stmt::ForEach { var_name, iter_expr, body })
    }

    /// Reads the rest of a C-style `for`, its opening parenthesis current.
    #[verifier::rlimit(100)]
    #[verifier::spinoff_prover]
    fn parse_cfor_tail(&mut self, fuel: u64) -> (r: Result<Stmt, Error>)
        ensures
            p_stmt_matches(r, final(self)@, parse_cfor_tail_s(old(self)@, fuel as nat)),
        decreases fuel,
    {
        if fuel == 0 {
            return Err(Error::new(ErrorKind::Resource, "the step budget is exhausted"));
        }
        let fl = fuel - 1;
        match self.bump() {
            Ok(_) => {},
            Err(e) => {
                return Err(e);
            },
        }
        let init: Option<Box<Stmt>> = if self.current_token.same_as(&Token::Semi) {
            None
        } else {
            match self.parse_stmt(fl) {
                Ok(st) => Some(Box::new(st)),
                Err(e) => {
                    return Err(e);
                },
            }
        };
        match self.expect(Token::Semi) {
            Ok(_) => {},
            Err(e) => {
                return Err(e);
            },
        }
        let cond: Option<Expr> = if self.current_token.same_as(&Token::Semi) {
            None
        } else {
            match self.parse_expr(fl) {
                Ok(e) => Some(e),
                Err(e) => {
                    return Err(e);
                },
            }
        };
        match self.expect(Token::Semi) {
            Ok(_) => {},
            Err(e) => {
                return Err(e);
            },
        }
        let step: Option<Box<Stmt>> = if self.current_token.same_as(&Token::RParen) {
            None
        } else {
            match self.parse_stmt(fl) {
                Ok(st) => Some(Box::new(st)),
                Err(e) => {
                    return Err(e);
                },
            }
        };
        match self.expect(Token::RParen) {
            Ok(_) => {},
            Err(e) => {
                return Err(e);
            },
        }
        let body = match self.parse_block(fl) {
            Ok(ss) => ss,
            Err(e) => {
                return Err(e);
            },
        };
        Ok(Stmt::For { init, cond, step, body })
    }

    /// Reads one statement, dispatched on the current token.
    #[verifier::rlimit(100)]
    #[verifier::spinoff_prover]
    fn parse_stmt(&mut self, fuel: u64) -> (r: Result<Stmt, Error>)
        ensures
            p_stmt_matches(r, final(self)@, parse_stmt_s(old(self)@, fuel as nat)),
        decreases fuel,
    {
        if fuel == 0 {
            return Err(Error::new(ErrorKind::Resource, "the step budget is exhausted"));
        }
        let fl = fuel - 1;
        let ghost p0 = self@;
        match &self.current_token {
            Token::Kwvar => {
                proof {
                    assert(parse_stmt_s(p0, fuel as nat) == parse_var_decl_s(p0, fl as nat));
                }
                self.parse_var_decl(fl)
            },
            Token::KwIf => {
                proof {
                    assert(parse_stmt_s(p0, fuel as nat) == parse_if_stmt_s(p0, fl as nat));
                }
                self.parse_if_stmt(fl)
            },
            Token::KwWhile => {
                proof {
                    assert(parse_stmt_s(p0, fuel as nat) == parse_while_stmt_s(p0, fl as nat));
                }
                self.parse_while_stmt(fl)
            },
            Token::KwFor => {
                proof {
                    assert(parse_stmt_s(p0, fuel as nat) == parse_for_stmt_s(p0, fl as nat));
                }
                self.parse_for_stmt(fl)
            },
            Token::KwReturn => {
                proof {
                    assert(parse_stmt_s(p0, fuel as nat) == parse_return_stmt_s(p0, fl as nat));
                }
                self.parse_return_stmt(fl)
            },
            Token::Ident(_) => {
                proof {
                    assert(parse_stmt_s(p0, fuel as nat) == parse_ident_stmt_s(p0, fl as nat));
                }
                self.parse_ident_stmt(fl)
            },
            _ => {
                proof {
                    assert(parse_stmt_s(p0, fuel as nat) == parse_expr_stmt_s(p0, fl as nat));
                }
                self.parse_expr_stmt(fl)
            },
        }
    }

    /// Reads a statement that starts with an identifier: an assignment when
    /// the very next token is `=`, otherwise a bare expression statement.
    fn parse_ident_stmt(&mut self, fuel: u64) -> (r: Result<Stmt, Error>)
        ensures
            p_stmt_matches(r, final(self)@, parse_ident_stmt_s(old(self)@, fuel as nat)),
        decreases fuel,
    {
        if fuel == 0 {
            return Err(Error::new(ErrorKind::Resource, "the step budget is exhausted"));
        }
        let fl = fuel - 1;
        let t2 = match self.peek_token() {
            Ok(t) => t,
            Err(e) => {
                return Err(e);
            },
        };
        if t2.same_as(&Token::Eq) {
            self.parse_assign_stmt(fl)
        } else {
            self.parse_expr_stmt(fl)
        }
    }

    /// Reads a bare expression statement.
    fn parse_expr_stmt(&mut self, fuel: u64) -> (r: Result<Stmt, Error>)
        ensures
            p_stmt_matches(r, final(self)@, parse_expr_stmt_s(old(self)@, fuel as nat)),
        decreases fuel,
    {
        if fuel == 0 {
            return Err(Error::new(ErrorKind::Resource, "the step budget is exhausted"));
        }
        let fl = fuel - 1;
        let e = match self.parse_expr(fl) {
            Ok(e) => e,
            Err(er) => {
                return Err(er);
            },
        };
        match self.eat_newline() {
            Ok(_) => Ok(Stmt::ExprStmt(e)),
            Err(er) => Err(er),
        }
    }

    /// Reads a function definition `func name(p1: T1, ...) { body }`.
    #[verifier::rlimit(100)]
    #[verifier::spinoff_prover]
    fn parse_function(&mut self, fuel: u64) -> (r: Result<Function, Error>)
        ensures
            p_func_matches(r, final(self)@, parse_function_s(old(self)@, fuel as nat)),
        decreases fuel,
    {
        if fuel == 0 {
            return Err(Error::new(ErrorKind::Resource, "the step budget is exhausted"));
        }
        let fl = fuel - 1;
        match self.bump() {
            Ok(_) => {},
            Err(e) => {
                return Err(e);
            },
        }
        match &self.current_token {
            Token::Ident(n) => {
                let name = n.clone();
                self.parse_function_tail(name, fl)
            },
            _ => Err(self.error("expected function name after 'func'")),
        }
    }

    /// Reads a function definition's parameter list and body, its name
    /// current.
    #[verifier::rlimit(100)]
    #[verifier::spinoff_prover]
    fn parse_function_tail(&mut self, name: String, fuel: u64) -> (r: Result<Function, Error>)
        ensures
            p_func_matches(
                r,
                final(self)@,
                parse_function_tail_s(old(self)@, name@, fuel as nat),
            ),
        decreases fuel,
    {
        if fuel == 0 {
            return Err(Error::new(ErrorKind::Resource, "the step budget is exhausted"));
        }
        let fl = fuel - 1;
        match self.bump() {
            Ok(_) => {},
            Err(e) => {
                return Err(e);
            },
        }
        match self.expect(Token::LParen) {
            Ok(_) => {},
            Err(e) => {
                return Err(e);
            },
        }
        let params = if !self.current_token.same_as(&Token::RParen) {
            match self.parse_params_rest(Vec::new(), fl) {
                Ok(ps) => ps,
                Err(e) => {
                    return Err(e);
                },
            }
        } else {
            let none: Vec<(String, Type)> = Vec::new();
            proof {
                assert(params_view(none@) =~= Seq::<(Seq<char>, Type)>::empty());
            }
            none
        };
        match self.expect(Token::RParen) {
            Ok(_) => {},
            Err(e) => {
                return Err(e);
            },
        }
        let body = match self.parse_block(fl) {
            Ok(ss) => ss,
            Err(e) => {
                return Err(e);
            },
        };
        Ok(Function { name, params, body })
    }

    /// Reads the comma-separated parameters of a function definition.
    fn parse_params_rest(&mut self, acc: Vec<(String, Type)>, fuel: u64) -> (r: Result<
        Vec<(String, Type)>,
        Error,
    >)
        ensures
            p_params_matches(
                r,
                final(self)@,
                parse_params_rest_s(old(self)@, params_view(acc@), fuel as nat),
            ),
        decreases fuel,
    {
        if fuel == 0 {
            return Err(Error::new(ErrorKind::Resource, "the step budget is exhausted"));
        }
        let fl = fuel - 1;
        let pname = match &self.current_token {
            Token::Ident(n) => n.clone(),
            _ => {
                return Err(self.error("expected parameter name"));
            },
        };
        match self.bump() {
            Ok(_) => {},
            Err(e) => {
                return Err(e);
            },
        }
        match self.expect(Token::Colon) {
            Ok(_) => {},
            Err(e) => {
                return Err(e);
            },
        }
        let ty = match self.parse_type() {
            Ok(t) => t,
            Err(e) => {
                return Err(e);
            },
        };
        let mut acc2 = acc;
        let ghost prev = acc2@;
        acc2.push((pname, ty));
        proof {
            lemma_params_view_push(prev, acc2@.last());
        }
        if self.current_token.same_as(&Token::Comma) {
            match self.bump() {
                Ok(_) => self.parse_params_rest(acc2, fl),
                Err(e) => Err(e),
            }
        } else {
            Ok(acc2)
        }
    }

    /// Reads a whole program: every function definition and top-level
    /// statement down to the end of the input.
    pub fn parse_program(&mut self, fuel: u64) -> (r: Result<Program, Error>)
        ensures
            p_prog_matches(r, final(self)@, parse_program_s(old(self)@, fuel as nat)),
        decreases fuel,
    {
        if fuel == 0 {
            return Err(Error::new(ErrorKind::Resource, "the step budget is exhausted"));
        }
        let fl = fuel - 1;
        match self.skip_newlines(fl) {
            Ok(_) => {},
            Err(e) => {
                return Err(e);
            },
        }
        self.parse_program_rest(Vec::new(), Vec::new(), fl)
    }

    /// Reads the items of a program after any leading blank lines.
    fn parse_program_rest(
        &mut self,
        funcs: Vec<Function>,
        stmts: Vec<Stmt>,
        fuel: u64,
    ) -> (r: Result<Program, Error>)
        ensures
            p_prog_matches(
                r,
                final(self)@,
                parse_program_rest_s(
                    old(self)@,
                    functions_view(funcs@),
                    stmts_view(stmts@),
                    fuel as nat,
                ),
            ),
        decreases fuel,
    {
        if fuel == 0 {
            return Err(Error::new(ErrorKind::Resource, "the step budget is exhausted"));
        }
        let fl = fuel - 1;
        if self.current_token.same_as(&Token::EOF) {
            return Ok(Program { functions: funcs, stmts });
        }
        if self.current_token.same_as(&Token::KwFunc) {
            let f = match self.parse_function(fl) {
                Ok(f) => f,
                Err(e) => {
                    return Err(e);
                },
            };
            match self.skip_newlines(fl) {
                Ok(_) => {},
                Err(e) => {
                    return Err(e);
                },
            }
            let mut funcs2 = funcs;
            let ghost prev = funcs2@;
            funcs2.push(f);
            proof {
                lemma_functions_view_push(prev, funcs2@.last());
            }
            self.parse_program_rest(funcs2, stmts, fl)
        } else {
            let st = match self.parse_stmt(fl) {
                Ok(s) => s,
                Err(e) => {
                    return Err(e);
                },
            };
            match self.skip_newlines(fl) {
                Ok(_) => {},
                Err(e) => {
                    return Err(e);
                },
            }
            let mut stmts2 = stmts;
            let ghost prev = stmts2@;
            stmts2.push(st);
            proof {
                lemma_stmts_view_push(prev, stmts2@.last());
            }
            self.parse_program_rest(funcs, stmts2, fl)
        }
    }
}

} // verus!
