//! The recursive-descent parser. The `sp_` functions give the exact result
//! of every production on a token stream: the node parsed, the position
//! reached, and the next free variable-occurrence identity; a diagnostic
//! with the offending token's line on a malformed input; or `Stop` when the
//! step budget runs out. The executable `Parser` computes exactly that,
//! collecting one diagnostic per error and synchronizing on statement
//! boundaries.
use vstd::prelude::*;

use crate::ast::{BinOp, Expr, Keyword, Lit, SpExpr, SpLit, SpStmt, Stmt, UnOp, exprs_view,
    names_view, stmts_view};
use crate::error::LoxError;
use crate::text::dec_digits;
use crate::token::{SpToken, SpTokenKind, Token, TokenKind, sp_same_kind, sp_scan_error_message,
    sp_token_text};

verus! {

/// The bound on call arguments and function parameters.
pub const MAX_ARGS: usize = 255;

pub const MSG_TOO_MANY_ARGS: &'static str = "Can't have more than 255 arguments.";

/// The bound on variable-occurrence identities.
pub const MAX_IDS: usize = 0xffff_ffff;

/// A parsed expression, the position after it, and the next free identity.
pub enum PE {
    Parsed(SpExpr, int, int),
    Fail(Seq<char>, int, int),
    Stop,
}

/// A parsed statement, likewise.
pub enum PS {
    Parsed(SpStmt, int, int),
    Fail(Seq<char>, int, int),
    Stop,
}

/// A parsed statement list, likewise.
pub enum PB {
    Parsed(Seq<SpStmt>, int, int),
    Fail(Seq<char>, int, int),
    Stop,
}

/// A parsed argument list, likewise.
pub enum PA {
    Parsed(Seq<SpExpr>, int, int),
    Fail(Seq<char>, int, int),
    Stop,
}

/// The whole parse: the statements that parsed, the diagnostics collected,
/// and whether the step budget ran out.
pub struct SpParse {
    pub stmts: Seq<SpStmt>,
    pub errors: Seq<Seq<char>>,
    pub overflowed: bool,
}

/// The token at position `i`; past the end it reads as end-of-input.
pub open spec fn sp_peek(toks: Seq<SpToken>, i: int) -> SpToken {
    if 0 <= i < toks.len() {
        toks[i]
    } else {
        SpToken { kind: SpTokenKind::Eof, line: 1 }
    }
}

pub open spec fn sp_at_end(toks: Seq<SpToken>, i: int) -> bool {
    sp_peek(toks, i).kind is Eof
}

/// Advance by one token, except at end-of-input.
pub open spec fn sp_advance(toks: Seq<SpToken>, i: int) -> int {
    if sp_at_end(toks, i) {
        i
    } else {
        i + 1
    }
}

/// Is the next token of kind `k` (payloads ignored)? Always false at
/// end-of-input.
pub open spec fn sp_check(toks: Seq<SpToken>, i: int, k: SpTokenKind) -> bool {
    !sp_at_end(toks, i) && sp_same_kind(sp_peek(toks, i).kind, k)
}

/// The text of a parse diagnostic at token `t`: a line tag, then the token
/// shown as the lexer classified it.
pub open spec fn sp_parse_error(t: SpToken, msg: Seq<char>) -> Seq<char> {
    let head = "[line "@ + dec_digits(t.line) + "] Error"@;
    match t.kind {
        SpTokenKind::Eof => head + " at end "@ + msg,
        SpTokenKind::Error(e) => head + ": "@ + sp_scan_error_message(e),
        _ => head + " at '"@ + sp_token_text(t.kind) + "': "@ + msg,
    }
}

/// Step over a token of kind `k`, or fail with `msg` at the token found.
pub open spec fn sp_consume(toks: Seq<SpToken>, i: int, k: SpTokenKind, msg: Seq<char>) -> Result<
    int,
    Seq<char>,
> {
    if sp_check(toks, i, k) {
        Ok(i + 1)
    } else {
        Err(sp_parse_error(sp_peek(toks, i), msg))
    }
}

/// The binary operator a token kind denotes, at the precedence levels the
/// parser stacks: 0 `* /`, 1 `+ -`, 2 comparisons, 3 equality.
pub open spec fn sp_level_op(level: int, k: SpTokenKind) -> Option<BinOp> {
    if level == 0 {
        match k {
            SpTokenKind::Slash => Some(BinOp::Div),
            SpTokenKind::Star => Some(BinOp::Mul),
            _ => None,
        }
    } else if level == 1 {
        match k {
            SpTokenKind::Minus => Some(BinOp::Sub),
            SpTokenKind::Plus => Some(BinOp::Add),
            _ => None,
        }
    } else if level == 2 {
        match k {
            SpTokenKind::Greater => Some(BinOp::Gt),
            SpTokenKind::GreaterEqual => Some(BinOp::GtEq),
            SpTokenKind::Less => Some(BinOp::Lt),
            SpTokenKind::LessEqual => Some(BinOp::LtEq),
            _ => None,
        }
    } else {
        match k {
            SpTokenKind::BangEqual => Some(BinOp::NotEq),
            SpTokenKind::EqualEqual => Some(BinOp::Eq),
            _ => None,
        }
    }
}

/// The short-circuit keyword at the two logical levels: 4 `and`, 5 `or`.
pub open spec fn sp_level_kw(level: int, k: SpTokenKind) -> Option<Keyword> {
    if level == 4 {
        match k {
            SpTokenKind::And => Some(Keyword::And),
            _ => None,
        }
    } else {
        match k {
            SpTokenKind::Or => Some(Keyword::Or),
            _ => None,
        }
    }
}

/// A primary expression: a literal, a parenthesized expression, or a
/// variable read (which takes a fresh identity).
pub open spec fn sp_primary(toks: Seq<SpToken>, i: int, nid: int, fuel: nat) -> PE
    decreases fuel, 0int,
{
    if fuel == 0 {
        PE::Stop
    } else {
        let j = sp_advance(toks, i);
        let t = sp_peek(toks, j - 1);
        match t.kind {
            SpTokenKind::False => PE::Parsed(SpExpr::Literal(SpLit::Bool(false)), j, nid),
            SpTokenKind::True => PE::Parsed(SpExpr::Literal(SpLit::Bool(true)), j, nid),
            SpTokenKind::Nil => PE::Parsed(SpExpr::Literal(SpLit::Nil), j, nid),
            SpTokenKind::Number(n, _) => PE::Parsed(SpExpr::Literal(SpLit::Num(n)), j, nid),
            SpTokenKind::Str(s) => PE::Parsed(SpExpr::Literal(SpLit::Str(s)), j, nid),
            SpTokenKind::LeftParen => match sp_assignment(toks, j, nid, (fuel - 1) as nat) {
                PE::Parsed(e, j1, nid1) => match sp_consume(
                    toks,
                    j1,
                    SpTokenKind::RightParen,
                    "Expect ')' after expression."@,
                ) {
                    Ok(j2) => PE::Parsed(SpExpr::Grouping(Box::new(e)), j2, nid1),
                    Err(m) => PE::Fail(m, j1, nid1),
                },
                r => r,
            },
            SpTokenKind::Identifier(s) => if nid >= MAX_IDS {
                PE::Stop
            } else {
                PE::Parsed(
                    SpExpr::Variable { name: s, line: sp_peek(toks, j).line, id: nid as nat },
                    j,
                    nid + 1,
                )
            },
            _ => PE::Fail(sp_parse_error(sp_peek(toks, j - 1), "Expect expression."@), j, nid),
        }
    }
}

/// Zero or more call suffixes on a callee.
pub open spec fn sp_call_more(toks: Seq<SpToken>, callee: SpExpr, i: int, nid: int, fuel: nat) -> PE
    decreases fuel, 0int,
{
    if fuel == 0 {
        PE::Stop
    } else if sp_check(toks, i, SpTokenKind::LeftParen) {
        match sp_finish_call(toks, callee, i + 1, nid, (fuel - 1) as nat) {
            PE::Parsed(e, j, nid1) => sp_call_more(toks, e, j, nid1, (fuel - 1) as nat),
            r => r,
        }
    } else {
        PE::Parsed(callee, i, nid)
    }
}

/// The comma-separated arguments after an opening parenthesis, at most 255.
pub open spec fn sp_args(toks: Seq<SpToken>, i: int, nid: int, count: int, fuel: nat) -> PA
    decreases fuel, 0int,
{
    if fuel == 0 {
        PA::Stop
    } else if count >= MAX_ARGS {
        PA::Fail(sp_parse_error(sp_peek(toks, i), MSG_TOO_MANY_ARGS@), i, nid)
    } else {
        match sp_assignment(toks, i, nid, (fuel - 1) as nat) {
            PE::Parsed(e, j, nid1) => if sp_check(toks, j, SpTokenKind::Comma) {
                match sp_args(toks, j + 1, nid1, count + 1, (fuel - 1) as nat) {
                    PA::Parsed(es, j1, nid2) => PA::Parsed(seq![e] + es, j1, nid2),
                    r => r,
                }
            } else {
                PA::Parsed(seq![e], j, nid1)
            },
            PE::Fail(m, j, nid1) => PA::Fail(m, j, nid1),
            PE::Stop => PA::Stop,
        }
    }
}

/// The rest of a call after its opening parenthesis; the node carries the
/// closing parenthesis's line.
pub open spec fn sp_finish_call(
    toks: Seq<SpToken>,
    callee: SpExpr,
    i: int,
    nid: int,
    fuel: nat,
) -> PE
    decreases fuel, 1int,
{
    if fuel == 0 {
        PE::Stop
    } else {
        let argsr = if sp_check(toks, i, SpTokenKind::RightParen) {
            PA::Parsed(Seq::empty(), i, nid)
        } else {
            sp_args(toks, i, nid, 0, (fuel - 1) as nat)
        };
        match argsr {
            PA::Parsed(es, j, nid1) => match sp_consume(
                toks,
                j,
                SpTokenKind::RightParen,
                "Expect ')' after arguments."@,
            ) {
                Ok(j1) => PE::Parsed(
                    SpExpr::Call {
                        callee: Box::new(callee),
                        args: es,
                        line: sp_peek(toks, j).line,
                    },
                    j1,
                    nid1,
                ),
                Err(m) => PE::Fail(m, j, nid1),
            },
            PA::Fail(m, j, nid1) => PE::Fail(m, j, nid1),
            PA::Stop => PE::Stop,
        }
    }
}

/// A unary expression: `!` or `-` applied recursively, else a call chain.
pub open spec fn sp_unary(toks: Seq<SpToken>, i: int, nid: int, fuel: nat) -> PE
    decreases fuel, 2int,
{
    if fuel == 0 {
        PE::Stop
    } else if sp_check(toks, i, SpTokenKind::Bang) || sp_check(toks, i, SpTokenKind::Minus) {
        let t = sp_peek(toks, i);
        let op = if t.kind is Bang {
            UnOp::Not
        } else {
            UnOp::Neg
        };
        match sp_unary(toks, i + 1, nid, (fuel - 1) as nat) {
            PE::Parsed(e, j, nid1) => PE::Parsed(
                SpExpr::Unary(op, Box::new(e), t.line),
                j,
                nid1,
            ),
            r => r,
        }
    } else {
        match sp_primary(toks, i, nid, (fuel - 1) as nat) {
            PE::Parsed(e, j, nid1) => sp_call_more(toks, e, j, nid1, (fuel - 1) as nat),
            r => r,
        }
    }
}

/// One precedence level of left-associative infix operators: parse the
/// operand below, then fold operators at this level.
pub open spec fn sp_binlevel(toks: Seq<SpToken>, i: int, nid: int, level: int, fuel: nat) -> PE
    decreases fuel, 3int,
{
    if fuel == 0 {
        PE::Stop
    } else {
        let first = if level == 0 {
            sp_unary(toks, i, nid, (fuel - 1) as nat)
        } else {
            sp_binlevel(toks, i, nid, level - 1, (fuel - 1) as nat)
        };
        match first {
            PE::Parsed(e, j, nid1) => sp_binmore(toks, e, j, nid1, level, (fuel - 1) as nat),
            r => r,
        }
    }
}

pub open spec fn sp_binmore(
    toks: Seq<SpToken>,
    lhs: SpExpr,
    i: int,
    nid: int,
    level: int,
    fuel: nat,
) -> PE
    decreases fuel, 4int,
{
    if fuel == 0 {
        PE::Stop
    } else {
        let t = sp_peek(toks, i);
        let hit = !sp_at_end(toks, i) && (if level <= 3 {
            sp_level_op(level, t.kind) is Some
        } else {
            sp_level_kw(level, t.kind) is Some
        });
        if hit {
            let sub = if level == 0 {
                sp_unary(toks, i + 1, nid, (fuel - 1) as nat)
            } else {
                sp_binlevel(toks, i + 1, nid, level - 1, (fuel - 1) as nat)
            };
            match sub {
                PE::Parsed(rhs, j, nid1) => {
                    let node = if level <= 3 {
                        SpExpr::Binary {
                            lhs: Box::new(lhs),
                            op: sp_level_op(level, t.kind)->0,
                            rhs: Box::new(rhs),
                            line: t.line,
                        }
                    } else {
                        SpExpr::Logical {
                            lhs: Box::new(lhs),
                            kw: sp_level_kw(level, t.kind)->0,
                            rhs: Box::new(rhs),
                            line: t.line,
                        }
                    };
                    sp_binmore(toks, node, j, nid1, level, (fuel - 1) as nat)
                },
                r => r,
            }
        } else {
            PE::Parsed(lhs, i, nid)
        }
    }
}

/// An assignment: a logical-or operand, then `=` and a recursive
/// assignment whose target must be a variable read. The write node takes a
/// fresh identity.
pub open spec fn sp_assignment(toks: Seq<SpToken>, i: int, nid: int, fuel: nat) -> PE
    decreases fuel, 5int,
{
    if fuel == 0 {
        PE::Stop
    } else {
        match sp_binlevel(toks, i, nid, 5, (fuel - 1) as nat) {
            PE::Parsed(e, j, nid1) => if sp_check(toks, j, SpTokenKind::Equal) {
                let eq = sp_peek(toks, j);
                match sp_assignment(toks, j + 1, nid1, (fuel - 1) as nat) {
                    PE::Parsed(v, j1, nid2) => match e {
                        SpExpr::Variable { name, .. } => if nid2 >= MAX_IDS {
                            PE::Stop
                        } else {
                            PE::Parsed(
                                SpExpr::Assign {
                                    name,
                                    value: Box::new(v),
                                    line: sp_peek(toks, j1).line,
                                    id: nid2 as nat,
                                },
                                j1,
                                nid2 + 1,
                            )
                        },
                        _ => PE::Fail(
                            sp_parse_error(eq, "Invalid assignment target."@),
                            j1,
                            nid2,
                        ),
                    },
                    r => r,
                }
            } else {
                PE::Parsed(e, j, nid1)
            },
            r => r,
        }
    }
}

/// A declaration: a variable declaration, a function declaration, a
/// return statement, or any other statement.
pub open spec fn sp_declaration(toks: Seq<SpToken>, i: int, nid: int, fuel: nat) -> PS
    decreases fuel, 0int,
{
    if fuel == 0 {
        PS::Stop
    } else {
        match sp_peek(toks, i).kind {
            SpTokenKind::Var => sp_var_decl(toks, sp_advance(toks, i), nid, (fuel - 1) as nat),
            SpTokenKind::Fun => sp_function(toks, sp_advance(toks, i), nid, (fuel - 1) as nat),
            _ => sp_statement(toks, i, nid, (fuel - 1) as nat),
        }
    }
}

pub open spec fn sp_statement(toks: Seq<SpToken>, i: int, nid: int, fuel: nat) -> PS
    decreases fuel, 0int,
{
    if fuel == 0 {
        PS::Stop
    } else {
        match sp_peek(toks, i).kind {
            SpTokenKind::Print => sp_print_stmt(toks, sp_advance(toks, i), nid, (fuel - 1) as nat),
            SpTokenKind::LeftBrace => match sp_block(
                toks,
                sp_advance(toks, i),
                nid,
                (fuel - 1) as nat,
            ) {
                PB::Parsed(ss, j, nid1) => PS::Parsed(SpStmt::Block(ss), j, nid1),
                PB::Fail(m, j, nid1) => PS::Fail(m, j, nid1),
                PB::Stop => PS::Stop,
            },
            SpTokenKind::If => sp_if_stmt(toks, sp_advance(toks, i), nid, (fuel - 1) as nat),
            SpTokenKind::While => sp_while_stmt(toks, sp_advance(toks, i), nid, (fuel - 1) as nat),
            SpTokenKind::For => sp_for_stmt(toks, sp_advance(toks, i), nid, (fuel - 1) as nat),
            SpTokenKind::Return => sp_return_stmt(
                toks,
                sp_advance(toks, i),
                nid,
                (fuel - 1) as nat,
            ),
            _ => sp_expr_stmt(toks, i, nid, (fuel - 1) as nat),
        }
    }
}

/// The declarations up to a closing brace.
pub open spec fn sp_block(toks: Seq<SpToken>, i: int, nid: int, fuel: nat) -> PB
    decreases fuel, 1int,
{
    if fuel == 0 {
        PB::Stop
    } else if !sp_check(toks, i, SpTokenKind::RightBrace) && !sp_at_end(toks, i) {
        match sp_declaration(toks, i, nid, (fuel - 1) as nat) {
            PS::Parsed(s, j, nid1) => match sp_block(toks, j, nid1, (fuel - 1) as nat) {
                PB::Parsed(ss, j1, nid2) => PB::Parsed(seq![s] + ss, j1, nid2),
                r => r,
            },
            PS::Fail(m, j, nid1) => PB::Fail(m, j, nid1),
            PS::Stop => PB::Stop,
        }
    } else {
        match sp_consume(toks, i, SpTokenKind::RightBrace, "Expect '}' after block."@) {
            Ok(j) => PB::Parsed(Seq::empty(), j, nid),
            Err(m) => PB::Fail(m, i, nid),
        }
    }
}

pub open spec fn sp_var_decl(toks: Seq<SpToken>, i: int, nid: int, fuel: nat) -> PS
    decreases fuel, 0int,
{
    if fuel == 0 {
        PS::Stop
    } else {
        match sp_peek(toks, i).kind {
            SpTokenKind::Identifier(name) => {
                let j = i + 1;
                if sp_check(toks, j, SpTokenKind::Equal) {
                    match sp_assignment(toks, j + 1, nid, (fuel - 1) as nat) {
                        PE::Parsed(e, j1, nid1) => match sp_consume(
                            toks,
                            j1,
                            SpTokenKind::Semicolon,
                            "Expect ';' after variable declaration."@,
                        ) {
                            Ok(j2) => PS::Parsed(SpStmt::Var(name, Some(e)), j2, nid1),
                            Err(m) => PS::Fail(m, j1, nid1),
                        },
                        PE::Fail(m, j1, nid1) => PS::Fail(m, j1, nid1),
                        PE::Stop => PS::Stop,
                    }
                } else {
                    match sp_consume(
                        toks,
                        j,
                        SpTokenKind::Semicolon,
                        "Expect ';' after variable declaration."@,
                    ) {
                        Ok(j2) => PS::Parsed(SpStmt::Var(name, None), j2, nid),
                        Err(m) => PS::Fail(m, j, nid),
                    }
                }
            },
            _ => PS::Fail(sp_parse_error(sp_peek(toks, i), "Expect variable name."@), i, nid),
        }
    }
}

pub open spec fn sp_print_stmt(toks: Seq<SpToken>, i: int, nid: int, fuel: nat) -> PS
    decreases fuel, 0int,
{
    if fuel == 0 {
        PS::Stop
    } else {
        match sp_assignment(toks, i, nid, (fuel - 1) as nat) {
            PE::Parsed(e, j, nid1) => match sp_consume(
                toks,
                j,
                SpTokenKind::Semicolon,
                "Expect ';' after value."@,
            ) {
                Ok(j1) => PS::Parsed(SpStmt::Print(e), j1, nid1),
                Err(m) => PS::Fail(m, j, nid1),
            },
            PE::Fail(m, j, nid1) => PS::Fail(m, j, nid1),
            PE::Stop => PS::Stop,
        }
    }
}

pub open spec fn sp_expr_stmt(toks: Seq<SpToken>, i: int, nid: int, fuel: nat) -> PS
    decreases fuel, 0int,
{
    if fuel == 0 {
        PS::Stop
    } else {
        match sp_assignment(toks, i, nid, (fuel - 1) as nat) {
            PE::Parsed(e, j, nid1) => match sp_consume(
                toks,
                j,
                SpTokenKind::Semicolon,
                "Expect ';' after expression."@,
            ) {
                Ok(j1) => PS::Parsed(SpStmt::Expr(e), j1, nid1),
                Err(m) => PS::Fail(m, j, nid1),
            },
            PE::Fail(m, j, nid1) => PS::Fail(m, j, nid1),
            PE::Stop => PS::Stop,
        }
    }
}

/// A return statement; the node carries the line after the semicolon, as
/// the parser reads it there.
pub open spec fn sp_return_stmt(toks: Seq<SpToken>, i: int, nid: int, fuel: nat) -> PS
    decreases fuel, 0int,
{
    if fuel == 0 {
        PS::Stop
    } else if !sp_check(toks, i, SpTokenKind::Semicolon) {
        match sp_assignment(toks, i, nid, (fuel - 1) as nat) {
            PE::Parsed(e, j, nid1) => match sp_consume(
                toks,
                j,
                SpTokenKind::Semicolon,
                "Expect ';' after return value."@,
            ) {
                Ok(j1) => PS::Parsed(
                    SpStmt::Return(Some(e), sp_peek(toks, j1).line),
                    j1,
                    nid1,
                ),
                Err(m) => PS::Fail(m, j, nid1),
            },
            PE::Fail(m, j, nid1) => PS::Fail(m, j, nid1),
            PE::Stop => PS::Stop,
        }
    } else {
        match sp_consume(toks, i, SpTokenKind::Semicolon, "Expect ';' after return value."@) {
            Ok(j1) => PS::Parsed(SpStmt::Return(None, sp_peek(toks, j1).line), j1, nid),
            Err(m) => PS::Fail(m, i, nid),
        }
    }
}

pub open spec fn sp_if_stmt(toks: Seq<SpToken>, i: int, nid: int, fuel: nat) -> PS
    decreases fuel, 0int,
{
    if fuel == 0 {
        PS::Stop
    } else {
        match sp_consume(toks, i, SpTokenKind::LeftParen, "Expect '(' after 'if'."@) {
            Err(m) => PS::Fail(m, i, nid),
            Ok(j) => match sp_assignment(toks, j, nid, (fuel - 1) as nat) {
                PE::Parsed(cond, j1, nid1) => match sp_consume(
                    toks,
                    j1,
                    SpTokenKind::RightParen,
                    "Expect ')' after 'if condition'."@,
                ) {
                    Err(m) => PS::Fail(m, j1, nid1),
                    Ok(j2) => match sp_statement(toks, j2, nid1, (fuel - 1) as nat) {
                        PS::Parsed(then, j3, nid2) => if sp_check(toks, j3, SpTokenKind::Else) {
                            match sp_statement(toks, j3 + 1, nid2, (fuel - 1) as nat) {
                                PS::Parsed(o, j4, nid3) => PS::Parsed(
                                    SpStmt::If {
                                        condition: cond,
                                        then: Box::new(then),
                                        otherwise: Some(Box::new(o)),
                                    },
                                    j4,
                                    nid3,
                                ),
                                r => r,
                            }
                        } else {
                            PS::Parsed(
                                SpStmt::If {
                                    condition: cond,
                                    then: Box::new(then),
                                    otherwise: None,
                                },
                                j3,
                                nid2,
                            )
                        },
                        r => r,
                    },
                },
                PE::Fail(m, j1, nid1) => PS::Fail(m, j1, nid1),
                PE::Stop => PS::Stop,
            },
        }
    }
}

pub open spec fn sp_while_stmt(toks: Seq<SpToken>, i: int, nid: int, fuel: nat) -> PS
    decreases fuel, 0int,
{
    if fuel == 0 {
        PS::Stop
    } else {
        match sp_consume(toks, i, SpTokenKind::LeftParen, "Expert '(' after 'while'."@) {
            Err(m) => PS::Fail(m, i, nid),
            Ok(j) => match sp_assignment(toks, j, nid, (fuel - 1) as nat) {
                PE::Parsed(cond, j1, nid1) => match sp_consume(
                    toks,
                    j1,
                    SpTokenKind::RightParen,
                    "Expert '(' after 'while'."@,
                ) {
                    Err(m) => PS::Fail(m, j1, nid1),
                    Ok(j2) => match sp_statement(toks, j2, nid1, (fuel - 1) as nat) {
                        PS::Parsed(body, j3, nid2) => PS::Parsed(
                            SpStmt::While(cond, Box::new(body)),
                            j3,
                            nid2,
                        ),
                        r => r,
                    },
                },
                PE::Fail(m, j1, nid1) => PS::Fail(m, j1, nid1),
                PE::Stop => PS::Stop,
            },
        }
    }
}

/// A `for` statement, desugared while parsing into a block around a while
/// loop; an absent condition reads as `true`.
pub open spec fn sp_for_stmt(toks: Seq<SpToken>, i: int, nid: int, fuel: nat) -> PS
    decreases fuel, 0int,
{
    if fuel == 0 {
        PS::Stop
    } else {
        match sp_consume(toks, i, SpTokenKind::LeftParen, "Expect '(' after 'for'."@) {
            Err(m) => PS::Fail(m, i, nid),
            Ok(j) => {
                let initr = match sp_peek(toks, j).kind {
                    SpTokenKind::Semicolon => PS::Parsed(
                        SpStmt::Expr(SpExpr::Literal(SpLit::Nil)),
                        j + 1,
                        nid,
                    ),
                    SpTokenKind::Var => sp_var_decl(toks, sp_advance(toks, j), nid, (fuel - 1) as nat),
                    _ => sp_expr_stmt(toks, j, nid, (fuel - 1) as nat),
                };
                let has_init = !(sp_peek(toks, j).kind is Semicolon);
                match initr {
                    PS::Parsed(init, j1, nid1) => {
                        let condr = match sp_peek(toks, j1).kind {
                            SpTokenKind::Semicolon => PE::Parsed(
                                SpExpr::Literal(SpLit::Bool(true)),
                                j1,
                                nid1,
                            ),
                            _ => sp_assignment(toks, j1, nid1, (fuel - 1) as nat),
                        };
                        match condr {
                            PE::Parsed(cond, j2, nid2) => match sp_consume(
                                toks,
                                j2,
                                SpTokenKind::Semicolon,
                                "Expect ';' after loop condition."@,
                            ) {
                                Err(m) => PS::Fail(m, j2, nid2),
                                Ok(j3) => {
                                    let incr = match sp_peek(toks, j3).kind {
                                        SpTokenKind::RightParen => PE::Parsed(
                                            SpExpr::Literal(SpLit::Nil),
                                            j3,
                                            nid2,
                                        ),
                                        _ => sp_assignment(toks, j3, nid2, (fuel - 1) as nat),
                                    };
                                    let has_incr = !(sp_peek(toks, j3).kind is RightParen);
                                    match incr {
                                        PE::Parsed(inc, j4, nid3) => match sp_consume(
                                            toks,
                                            j4,
                                            SpTokenKind::RightParen,
                                            "Expect ')' after for clauses."@,
                                        ) {
                                            Err(m) => PS::Fail(m, j4, nid3),
                                            Ok(j5) => match sp_statement(
                                                toks,
                                                j5,
                                                nid3,
                                                (fuel - 1) as nat,
                                            ) {
                                                PS::Parsed(body, j6, nid4) => PS::Parsed(
                                                    sp_desugar_for(
                                                        has_init,
                                                        init,
                                                        cond,
                                                        has_incr,
                                                        inc,
                                                        body,
                                                    ),
                                                    j6,
                                                    nid4,
                                                ),
                                                r => r,
                                            },
                                        },
                                        PE::Fail(m, j4, nid3) => PS::Fail(m, j4, nid3),
                                        PE::Stop => PS::Stop,
                                    }
                                },
                            },
                            PE::Fail(m, j2, nid2) => PS::Fail(m, j2, nid2),
                            PE::Stop => PS::Stop,
                        }
                    },
                    r => r,
                }
            },
        }
    }
}

/// The shape a `for` loop takes: the body and the increment in a block,
/// under a while, under a block with the initializer.
pub open spec fn sp_desugar_for(
    has_init: bool,
    init: SpStmt,
    cond: SpExpr,
    has_incr: bool,
    inc: SpExpr,
    body: SpStmt,
) -> SpStmt {
    let body1 = if has_incr {
        SpStmt::Block(seq![body, SpStmt::Expr(inc)])
    } else {
        body
    };
    let body2 = SpStmt::While(cond, Box::new(body1));
    if has_init {
        SpStmt::Block(seq![init, body2])
    } else {
        body2
    }
}

/// A function declaration: name, at most 255 parameters, body; the node
/// carries the line after the body.
pub open spec fn sp_function(toks: Seq<SpToken>, i: int, nid: int, fuel: nat) -> PS
    decreases fuel, 1int,
{
    if fuel == 0 {
        PS::Stop
    } else {
        match sp_peek(toks, i).kind {
            SpTokenKind::Identifier(name) => {
                let j = i + 1;
                match sp_consume(toks, j, SpTokenKind::LeftParen, "Expect '(' after function name."@) {
                    Err(m) => PS::Fail(m, j, nid),
                    Ok(j1) => {
                        let paramsr = if sp_check(toks, j1, SpTokenKind::RightParen) {
                            PP::Parsed(Seq::<Seq<char>>::empty(), j1)
                        } else {
                            sp_params(toks, j1, 0, (fuel - 1) as nat)
                        };
                        match paramsr {
                            PP::Stop => PS::Stop,
                            PP::Fail(m, j2) => PS::Fail(m, j2, nid),
                            PP::Parsed(params, j2) => match sp_consume(
                                toks,
                                j2,
                                SpTokenKind::RightParen,
                                "Expect ')', after parameters"@,
                            ) {
                                Err(m) => PS::Fail(m, j2, nid),
                                Ok(j3) => match sp_consume(
                                    toks,
                                    j3,
                                    SpTokenKind::LeftBrace,
                                    "Expect '{', before function body"@,
                                ) {
                                    Err(m) => PS::Fail(m, j3, nid),
                                    Ok(j4) => match sp_block(toks, j4, nid, (fuel - 1) as nat) {
                                        PB::Parsed(body, j5, nid1) => PS::Parsed(
                                            SpStmt::Function {
                                                name,
                                                params,
                                                body,
                                                line: sp_peek(toks, j5).line,
                                            },
                                            j5,
                                            nid1,
                                        ),
                                        PB::Fail(m, j5, nid1) => PS::Fail(m, j5, nid1),
                                        PB::Stop => PS::Stop,
                                    },
                                },
                            },
                        }
                    },
                }
            },
            _ => PS::Fail(sp_parse_error(sp_peek(toks, i), "Expect function name"@), i, nid),
        }
    }
}

/// A parsed parameter list, the position after it.
pub enum PP {
    Parsed(Seq<Seq<char>>, int),
    Fail(Seq<char>, int),
    Stop,
}

/// The comma-separated parameter names, at most 255.
pub open spec fn sp_params(toks: Seq<SpToken>, i: int, count: int, fuel: nat) -> PP
    decreases fuel,
{
    if fuel == 0 {
        PP::Stop
    } else if count >= MAX_ARGS {
        PP::Fail(sp_parse_error(sp_peek(toks, i), MSG_TOO_MANY_ARGS@), i)
    } else {
        match sp_peek(toks, i).kind {
            SpTokenKind::Identifier(p) => if sp_check(toks, i + 1, SpTokenKind::Comma) {
                match sp_params(toks, i + 2, count + 1, (fuel - 1) as nat) {
                    PP::Parsed(ps, j) => PP::Parsed(seq![p] + ps, j),
                    r => r,
                }
            } else {
                PP::Parsed(seq![p], i + 1)
            },
            _ => PP::Fail(sp_parse_error(sp_peek(toks, i), "Expect parameter name."@), i),
        }
    }
}

/// Skip to a statement boundary after an error: step once, then stop after
/// a semicolon or before a keyword that begins a declaration.
pub open spec fn sp_sync(toks: Seq<SpToken>, i: int) -> int
    decreases toks.len() - i,
{
    let j = sp_advance(toks, i);
    sp_sync_scan(toks, j)
}

pub open spec fn sp_sync_scan(toks: Seq<SpToken>, i: int) -> int
    decreases toks.len() - i,
    when 0 <= i
{
    if sp_at_end(toks, i) {
        i
    } else if sp_peek(toks, i - 1).kind is Semicolon {
        i
    } else {
        match sp_peek(toks, i).kind {
            SpTokenKind::Class => i,
            SpTokenKind::Fun => i,
            SpTokenKind::Var => i,
            SpTokenKind::For => i,
            SpTokenKind::If => i,
            SpTokenKind::While => i,
            SpTokenKind::Print => i,
            SpTokenKind::Return => i,
            _ => sp_sync_scan(toks, i + 1),
        }
    }
}

/// The whole program: declarations to end-of-input, synchronizing and
/// collecting a diagnostic at each error.
pub open spec fn sp_program(toks: Seq<SpToken>, i: int, nid: int, fuel: nat) -> SpParse
    decreases fuel,
{
    if fuel == 0 {
        SpParse { stmts: Seq::empty(), errors: Seq::empty(), overflowed: true }
    } else if sp_at_end(toks, i) {
        SpParse { stmts: Seq::empty(), errors: Seq::empty(), overflowed: false }
    } else {
        match sp_declaration(toks, i, nid, (fuel - 1) as nat) {
            PS::Parsed(s, j, nid1) => {
                let rest = sp_program(toks, j, nid1, (fuel - 1) as nat);
                SpParse { stmts: seq![s] + rest.stmts, ..rest }
            },
            PS::Fail(m, j, nid1) => {
                let k = sp_sync(toks, j);
                let rest = sp_program(toks, k, nid1, (fuel - 1) as nat);
                SpParse { errors: seq![m] + rest.errors, ..rest }
            },
            PS::Stop => SpParse { stmts: Seq::empty(), errors: Seq::empty(), overflowed: true },
        }
    }
}

/// What interrupts parsing: a diagnostic, or an exhausted step budget.
#[derive(Debug)]
pub enum ParseInterrupt {
    Fail(String),
    TooDeep,
}

/// The parser's cursor over a token stream, with the next free
/// variable-occurrence identity.
#[derive(Debug)]
pub struct Parser {
    pub tokens: Vec<Token>,
    pub idx: usize,
    pub next_id: usize,
}

pub open spec fn pe_matches(r: Result<Expr, ParseInterrupt>, p: Parser, sp: PE) -> bool {
    match sp {
        PE::Parsed(e, j, n) => r is Ok && r->Ok_0.deep_view() == e && p.idx as int == j
            && p.next_id as int == n,
        PE::Fail(m, j, n) => r is Err && r->Err_0 is Fail && r->Err_0->Fail_0@ == m && p.idx as int
            == j && p.next_id as int == n,
        PE::Stop => r is Err && r->Err_0 is TooDeep,
    }
}

pub open spec fn ps_matches(r: Result<Stmt, ParseInterrupt>, p: Parser, sp: PS) -> bool {
    match sp {
        PS::Parsed(s, j, n) => r is Ok && r->Ok_0.deep_view() == s && p.idx as int == j
            && p.next_id as int == n,
        PS::Fail(m, j, n) => r is Err && r->Err_0 is Fail && r->Err_0->Fail_0@ == m && p.idx as int
            == j && p.next_id as int == n,
        PS::Stop => r is Err && r->Err_0 is TooDeep,
    }
}

pub open spec fn pb_matches(r: Result<Vec<Stmt>, ParseInterrupt>, p: Parser, sp: PB) -> bool {
    match sp {
        PB::Parsed(ss, j, n) => r is Ok && stmts_view(r->Ok_0@) == ss && p.idx as int == j
            && p.next_id as int == n,
        PB::Fail(m, j, n) => r is Err && r->Err_0 is Fail && r->Err_0->Fail_0@ == m && p.idx as int
            == j && p.next_id as int == n,
        PB::Stop => r is Err && r->Err_0 is TooDeep,
    }
}

pub open spec fn pa_matches(r: Result<Vec<Expr>, ParseInterrupt>, p: Parser, sp: PA) -> bool {
    match sp {
        PA::Parsed(es, j, n) => r is Ok && exprs_view(r->Ok_0@) == es && p.idx as int == j
            && p.next_id as int == n,
        PA::Fail(m, j, n) => r is Err && r->Err_0 is Fail && r->Err_0->Fail_0@ == m && p.idx as int
            == j && p.next_id as int == n,
        PA::Stop => r is Err && r->Err_0 is TooDeep,
    }
}

impl Parser {
    /// The mathematical token stream under the cursor.
    pub open spec fn toks(&self) -> Seq<SpToken> {
        self.tokens.deep_view()
    }

    pub open spec fn ok(&self) -> bool {
        self.idx <= self.tokens@.len()
    }

    pub fn new(tokens: Vec<Token>) -> (r: Parser)
        ensures
            r.toks() == tokens.deep_view(),
            r.idx == 0,
            r.next_id == 0,
            r.ok(),
    {
        Parser { tokens, idx: 0, next_id: 0 }
    }

    fn at_end(&self) -> (r: bool)
        ensures
            r == sp_at_end(self.toks(), self.idx as int),
    {
        if self.idx < self.tokens.len() {
            match self.tokens[self.idx].kind {
                TokenKind::Eof => true,
                _ => false,
            }
        } else {
            true
        }
    }

    fn advance(&mut self)
        requires
            old(self).ok(),
        ensures
            final(self).ok(),
            final(self).tokens == old(self).tokens,
            final(self).next_id == old(self).next_id,
            final(self).idx as int == sp_advance(old(self).toks(), old(self).idx as int),
    {
        if !self.at_end() {
            proof {
                assert(self.tokens.deep_view().len() == self.tokens@.len());
                assert(!(sp_peek(self.toks(), self.idx as int).kind is Eof));
                assert(self.idx < self.tokens.len());
            }
            self.idx = self.idx + 1;
        }
    }

    fn check_kind(&self, k: &TokenKind) -> (r: bool)
        ensures
            r == sp_check(self.toks(), self.idx as int, k@),
    {
        if self.idx < self.tokens.len() {
            match self.tokens[self.idx].kind {
                TokenKind::Eof => false,
                _ => crate::token::kinds_match(&self.tokens[self.idx].kind, k),
            }
        } else {
            false
        }
    }

    /// The token under the cursor, or an end-of-input stand-in past the
    /// stream.
    fn tok_at(&self, i: usize) -> (t: Token)
        ensures
            t@ == sp_peek(self.toks(), i as int),
    {
        if i < self.tokens.len() {
            self.tokens[i].duplicate()
        } else {
            Token::new(TokenKind::Eof, 1)
        }
    }

    fn peek_line(&self) -> (r: u64)
        ensures
            r as nat == sp_peek(self.toks(), self.idx as int).line,
    {
        self.tok_at(self.idx).line
    }

    /// The diagnostic for `msg` at the token at position `i`.
    fn error_at(&self, i: usize, msg: &str) -> (r: String)
        ensures
            r@ == sp_parse_error(sp_peek(self.toks(), i as int), msg@),
    {
        let t = self.tok_at(i);
        let head = "[line ".to_owned().concat(crate::text::dec_string(t.line).as_str()).concat(
            "] Error",
        );
        match &t.kind {
            TokenKind::Eof => head.concat(" at end ").concat(msg),
            TokenKind::Error(e) => head.concat(": ").concat(e.message().as_str()),
            _ => head.concat(" at '").concat(t.text().as_str()).concat("': ").concat(msg),
        }
    }

    fn consume(&mut self, k: &TokenKind, msg: &str) -> (r: Result<(), String>)
        requires
            old(self).ok(),
        ensures
            final(self).ok(),
            final(self).tokens == old(self).tokens,
            final(self).next_id == old(self).next_id,
            match sp_consume(old(self).toks(), old(self).idx as int, k@, msg@) {
                Ok(j) => r is Ok && final(self).idx as int == j,
                Err(m) => r is Err && r->Err_0@ == m && final(self).idx == old(self).idx,
            },
    {
        if self.check_kind(k) {
            proof {
                assert(self.tokens.deep_view().len() == self.tokens@.len());
                assert(!sp_at_end(self.toks(), self.idx as int));
                assert(!(sp_peek(self.toks(), self.idx as int).kind is Eof));
                assert(self.idx < self.tokens.len());
            }
            self.idx = self.idx + 1;
            Ok(())
        } else {
            Err(self.error_at(self.idx, msg))
        }
    }

    /// A primary expression.
    pub fn primary(&mut self, fuel: u64) -> (r: Result<Expr, ParseInterrupt>)
        requires
            old(self).ok(),
        ensures
            final(self).ok(),
            final(self).tokens == old(self).tokens,
            pe_matches(
                r,
                *final(self),
                sp_primary(old(self).toks(), old(self).idx as int, old(self).next_id as int, fuel as nat),
            ),
        decreases fuel, 0int,
    {
        if fuel == 0 {
            return Err(ParseInterrupt::TooDeep);
        }
        self.advance();
        let t = if self.idx >= 1 {
            self.tok_at(self.idx - 1)
        } else {
            Token::new(TokenKind::Eof, 1)
        };
        match t.kind {
            TokenKind::False => Ok(Expr::Literal(Lit::Bool(false))),
            TokenKind::True => Ok(Expr::Literal(Lit::Bool(true))),
            TokenKind::Nil => Ok(Expr::Literal(Lit::Nil)),
            TokenKind::Number(n, _) => Ok(Expr::Literal(Lit::Num(n))),
            TokenKind::Str(s) => Ok(Expr::Literal(Lit::Str(s))),
            TokenKind::LeftParen => {
                let e = match self.assignment(fuel - 1) {
                    Ok(e) => e,
                    Err(ir) => {
                        return Err(ir);
                    },
                };
                match self.consume(&TokenKind::RightParen, "Expect ')' after expression.") {
                    Ok(()) => Ok(Expr::grouping(e)),
                    Err(m) => Err(ParseInterrupt::Fail(m)),
                }
            },
            TokenKind::Identifier(s) => {
                if self.next_id >= MAX_IDS {
                    return Err(ParseInterrupt::TooDeep);
                }
                let id = self.next_id;
                self.next_id = self.next_id + 1;
                Ok(Expr::Variable { name: s, line: self.peek_line(), id })
            },
            _ => {
                let m = if self.idx >= 1 {
                    self.error_at(self.idx - 1, "Expect expression.")
                } else {
                    self.error_at(self.tokens.len(), "Expect expression.")
                };
                Err(ParseInterrupt::Fail(m))
            },
        }
    }

    /// Zero or more call suffixes on a parsed callee.
    pub fn call_more(&mut self, callee: Expr, fuel: u64) -> (r: Result<Expr, ParseInterrupt>)
        requires
            old(self).ok(),
        ensures
            final(self).ok(),
            final(self).tokens == old(self).tokens,
            pe_matches(
                r,
                *final(self),
                sp_call_more(
                    old(self).toks(),
                    callee.deep_view(),
                    old(self).idx as int,
                    old(self).next_id as int,
                    fuel as nat,
                ),
            ),
        decreases fuel, 0int,
    {
        if fuel == 0 {
            return Err(ParseInterrupt::TooDeep);
        }
        if self.check_kind(&TokenKind::LeftParen) {
            proof {
                assert(self.tokens.deep_view().len() == self.tokens@.len());
                assert(!sp_at_end(self.toks(), self.idx as int));
                assert(!(sp_peek(self.toks(), self.idx as int).kind is Eof));
                assert(self.idx < self.tokens.len());
            }
            self.idx = self.idx + 1;
            let e = match self.finish_call(callee, fuel - 1) {
                Ok(e) => e,
                Err(ir) => {
                    return Err(ir);
                },
            };
            self.call_more(e, fuel - 1)
        } else {
            Ok(callee)
        }
    }

    /// The comma-separated arguments of a call, at most 255.
    pub fn arg_list(&mut self, count: usize, fuel: u64) -> (r: Result<Vec<Expr>, ParseInterrupt>)
        requires
            old(self).ok(),
        ensures
            final(self).ok(),
            final(self).tokens == old(self).tokens,
            pa_matches(
                r,
                *final(self),
                sp_args(
                    old(self).toks(),
                    old(self).idx as int,
                    old(self).next_id as int,
                    count as int,
                    fuel as nat,
                ),
            ),
        decreases fuel, 0int,
    {
        if fuel == 0 {
            return Err(ParseInterrupt::TooDeep);
        }
        if count >= MAX_ARGS {
            return Err(ParseInterrupt::Fail(self.error_at(self.idx, MSG_TOO_MANY_ARGS)));
        }
        let e = match self.assignment(fuel - 1) {
            Ok(e) => e,
            Err(ir) => {
                return Err(ir);
            },
        };
        if self.check_kind(&TokenKind::Comma) {
            proof {
                assert(self.tokens.deep_view().len() == self.tokens@.len());
                assert(!sp_at_end(self.toks(), self.idx as int));
                assert(!(sp_peek(self.toks(), self.idx as int).kind is Eof));
                assert(self.idx < self.tokens.len());
            }
            self.idx = self.idx + 1;
            let mut rest = match self.arg_list(count + 1, fuel - 1) {
                Ok(es) => es,
                Err(ir) => {
                    return Err(ir);
                },
            };
            let ghost tail = rest@;
            rest.insert(0, e);
            proof {
                assert(rest@ =~= seq![rest@[0]] + tail);
                crate::ast::lemma_exprs_view_index(rest@);
                crate::ast::lemma_exprs_view_index(tail);
                assert(rest@[0] == e);
                assert(exprs_view(rest@) =~= seq![e.deep_view()] + exprs_view(tail));
            }
            Ok(rest)
        } else {
            let mut one: Vec<Expr> = Vec::new();
            one.push(e);
            proof {
                crate::ast::lemma_exprs_view_index(one@);
                assert(exprs_view(one@) =~= seq![one@[0].deep_view()]);
            }
            Ok(one)
        }
    }

    /// The rest of a call after its opening parenthesis.
    pub fn finish_call(&mut self, callee: Expr, fuel: u64) -> (r: Result<Expr, ParseInterrupt>)
        requires
            old(self).ok(),
        ensures
            final(self).ok(),
            final(self).tokens == old(self).tokens,
            pe_matches(
                r,
                *final(self),
                sp_finish_call(
                    old(self).toks(),
                    callee.deep_view(),
                    old(self).idx as int,
                    old(self).next_id as int,
                    fuel as nat,
                ),
            ),
        decreases fuel, 1int,
    {
        if fuel == 0 {
            return Err(ParseInterrupt::TooDeep);
        }
        let args: Vec<Expr> = if self.check_kind(&TokenKind::RightParen) {
            let empty: Vec<Expr> = Vec::new();
            proof {
                crate::ast::lemma_exprs_view_index(empty@);
                assert(exprs_view(empty@) =~= Seq::<SpExpr>::empty());
            }
            empty
        } else {
            match self.arg_list(0, fuel - 1) {
                Ok(es) => es,
                Err(ir) => {
                    return Err(ir);
                },
            }
        };
        let paren_line = self.peek_line();
        proof {
            crate::ast::lemma_vec_exprs_view(args);
        }
        match self.consume(&TokenKind::RightParen, "Expect ')' after arguments.") {
            Ok(()) => Ok(Expr::call(callee, args, paren_line)),
            Err(m) => Err(ParseInterrupt::Fail(m)),
        }
    }

    /// A unary expression.
    pub fn unary(&mut self, fuel: u64) -> (r: Result<Expr, ParseInterrupt>)
        requires
            old(self).ok(),
        ensures
            final(self).ok(),
            final(self).tokens == old(self).tokens,
            pe_matches(
                r,
                *final(self),
                sp_unary(old(self).toks(), old(self).idx as int, old(self).next_id as int, fuel as nat),
            ),
        decreases fuel, 2int,
    {
        if fuel == 0 {
            return Err(ParseInterrupt::TooDeep);
        }
        let bang = self.check_kind(&TokenKind::Bang);
        if bang || self.check_kind(&TokenKind::Minus) {
            let line = self.peek_line();
            let op = if bang {
                UnOp::Not
            } else {
                UnOp::Neg
            };
            proof {
                assert(self.tokens.deep_view().len() == self.tokens@.len());
                assert(!sp_at_end(self.toks(), self.idx as int));
                assert(!(sp_peek(self.toks(), self.idx as int).kind is Eof));
                assert(self.idx < self.tokens.len());
            }
            self.idx = self.idx + 1;
            match self.unary(fuel - 1) {
                Ok(e) => Ok(Expr::unary(op, e, line)),
                Err(ir) => Err(ir),
            }
        } else {
            let e = match self.primary(fuel - 1) {
                Ok(e) => e,
                Err(ir) => {
                    return Err(ir);
                },
            };
            self.call_more(e, fuel - 1)
        }
    }

    /// One precedence level of left-associative infix operators.
    pub fn binlevel(&mut self, level: u8, fuel: u64) -> (r: Result<Expr, ParseInterrupt>)
        requires
            old(self).ok(),
            level <= 5,
        ensures
            final(self).ok(),
            final(self).tokens == old(self).tokens,
            pe_matches(
                r,
                *final(self),
                sp_binlevel(
                    old(self).toks(),
                    old(self).idx as int,
                    old(self).next_id as int,
                    level as int,
                    fuel as nat,
                ),
            ),
        decreases fuel, 3int,
    {
        if fuel == 0 {
            return Err(ParseInterrupt::TooDeep);
        }
        let first = if level == 0 {
            self.unary(fuel - 1)
        } else {
            self.binlevel(level - 1, fuel - 1)
        };
        match first {
            Ok(e) => self.binmore(e, level, fuel - 1),
            Err(ir) => Err(ir),
        }
    }

    /// The operator kind at `level` under the cursor, if any.
    fn level_hit(&self, level: u8) -> (r: bool)
        requires
            level <= 5,
        ensures
            r == (!sp_at_end(self.toks(), self.idx as int) && (if level <= 3 {
                sp_level_op(level as int, sp_peek(self.toks(), self.idx as int).kind) is Some
            } else {
                sp_level_kw(level as int, sp_peek(self.toks(), self.idx as int).kind) is Some
            })),
    {
        if self.idx >= self.tokens.len() {
            return false;
        }
        match &self.tokens[self.idx].kind {
            TokenKind::Slash => level == 0,
            TokenKind::Star => level == 0,
            TokenKind::Minus => level == 1,
            TokenKind::Plus => level == 1,
            TokenKind::Greater => level == 2,
            TokenKind::GreaterEqual => level == 2,
            TokenKind::Less => level == 2,
            TokenKind::LessEqual => level == 2,
            TokenKind::BangEqual => level == 3,
            TokenKind::EqualEqual => level == 3,
            TokenKind::And => level == 4,
            TokenKind::Or => level == 5,
            _ => false,
        }
    }

    pub fn binmore(&mut self, lhs: Expr, level: u8, fuel: u64) -> (r: Result<Expr, ParseInterrupt>)
        requires
            old(self).ok(),
            level <= 5,
        ensures
            final(self).ok(),
            final(self).tokens == old(self).tokens,
            pe_matches(
                r,
                *final(self),
                sp_binmore(
                    old(self).toks(),
                    lhs.deep_view(),
                    old(self).idx as int,
                    old(self).next_id as int,
                    level as int,
                    fuel as nat,
                ),
            ),
        decreases fuel, 4int,
    {
        if fuel == 0 {
            return Err(ParseInterrupt::TooDeep);
        }
        if self.level_hit(level) {
            let t = self.tok_at(self.idx);
            proof {
                assert(self.tokens.deep_view().len() == self.tokens@.len());
                assert(!sp_at_end(self.toks(), self.idx as int));
                assert(!(sp_peek(self.toks(), self.idx as int).kind is Eof));
                assert(self.idx < self.tokens.len());
            }
            self.idx = self.idx + 1;
            let sub = if level == 0 {
                self.unary(fuel - 1)
            } else {
                self.binlevel(level - 1, fuel - 1)
            };
            let rhs = match sub {
                Ok(e) => e,
                Err(ir) => {
                    return Err(ir);
                },
            };
            let node = if level <= 3 {
                let op = match &t.kind {
                    TokenKind::Slash => BinOp::Div,
                    TokenKind::Star => BinOp::Mul,
                    TokenKind::Minus => BinOp::Sub,
                    TokenKind::Plus => BinOp::Add,
                    TokenKind::Greater => BinOp::Gt,
                    TokenKind::GreaterEqual => BinOp::GtEq,
                    TokenKind::Less => BinOp::Lt,
                    TokenKind::LessEqual => BinOp::LtEq,
                    TokenKind::BangEqual => BinOp::NotEq,
                    _ => BinOp::Eq,
                };
                Expr::binary(lhs, op, rhs, t.line)
            } else {
                let kw = match &t.kind {
                    TokenKind::And => Keyword::And,
                    _ => Keyword::Or,
                };
                Expr::logical(lhs, kw, rhs, t.line)
            };
            self.binmore(node, level, fuel - 1)
        } else {
            Ok(lhs)
        }
    }

    /// An assignment, the grammar's top expression production.
    pub fn assignment(&mut self, fuel: u64) -> (r: Result<Expr, ParseInterrupt>)
        requires
            old(self).ok(),
        ensures
            final(self).ok(),
            final(self).tokens == old(self).tokens,
            pe_matches(
                r,
                *final(self),
                sp_assignment(old(self).toks(), old(self).idx as int, old(self).next_id as int, fuel as nat),
            ),
        decreases fuel, 5int,
    {
        if fuel == 0 {
            return Err(ParseInterrupt::TooDeep);
        }
        let e = match self.binlevel(5, fuel - 1) {
            Ok(e) => e,
            Err(ir) => {
                return Err(ir);
            },
        };
        if self.check_kind(&TokenKind::Equal) {
            let eq_at = self.idx;
            proof {
                assert(self.tokens.deep_view().len() == self.tokens@.len());
                assert(!sp_at_end(self.toks(), self.idx as int));
                assert(!(sp_peek(self.toks(), self.idx as int).kind is Eof));
                assert(self.idx < self.tokens.len());
            }
            self.idx = self.idx + 1;
            let v = match self.assignment(fuel - 1) {
                Ok(v) => v,
                Err(ir) => {
                    return Err(ir);
                },
            };
            match e {
                Expr::Variable { name, .. } => {
                    if self.next_id >= MAX_IDS {
                        return Err(ParseInterrupt::TooDeep);
                    }
                    let id = self.next_id;
                    self.next_id = self.next_id + 1;
                    let line = self.peek_line();
                    Ok(Expr::assign(name, v, line, id))
                },
                _ => Err(ParseInterrupt::Fail(self.error_at(eq_at, "Invalid assignment target."))),
            }
        } else {
            Ok(e)
        }
    }
}

impl Parser {
    /// A declaration.
    pub fn declaration(&mut self, fuel: u64) -> (r: Result<Stmt, ParseInterrupt>)
        requires
            old(self).ok(),
        ensures
            final(self).ok(),
            final(self).tokens == old(self).tokens,
            ps_matches(
                r,
                *final(self),
                sp_declaration(old(self).toks(), old(self).idx as int, old(self).next_id as int, fuel as nat),
            ),
        decreases fuel, 0int,
    {
        if fuel == 0 {
            return Err(ParseInterrupt::TooDeep);
        }
        let t = self.tok_at(self.idx);
        match t.kind {
            TokenKind::Var => {
                self.advance();
                self.var_declaration(fuel - 1)
            },
            TokenKind::Fun => {
                self.advance();
                self.function(fuel - 1)
            },
            _ => self.statement(fuel - 1),
        }
    }

    /// A statement.
    pub fn statement(&mut self, fuel: u64) -> (r: Result<Stmt, ParseInterrupt>)
        requires
            old(self).ok(),
        ensures
            final(self).ok(),
            final(self).tokens == old(self).tokens,
            ps_matches(
                r,
                *final(self),
                sp_statement(old(self).toks(), old(self).idx as int, old(self).next_id as int, fuel as nat),
            ),
        decreases fuel, 0int,
    {
        if fuel == 0 {
            return Err(ParseInterrupt::TooDeep);
        }
        let t = self.tok_at(self.idx);
        match t.kind {
            TokenKind::Print => {
                self.advance();
                self.print_statement(fuel - 1)
            },
            TokenKind::LeftBrace => {
                self.advance();
                match self.block(fuel - 1) {
                    Ok(ss) => Ok(Stmt::Block(ss)),
                    Err(ir) => Err(ir),
                }
            },
            TokenKind::If => {
                self.advance();
                self.if_statement(fuel - 1)
            },
            TokenKind::While => {
                self.advance();
                self.while_statement(fuel - 1)
            },
            TokenKind::For => {
                self.advance();
                self.for_statement(fuel - 1)
            },
            TokenKind::Return => {
                self.advance();
                self.return_statement(fuel - 1)
            },
            _ => self.expression_statement(fuel - 1),
        }
    }

    /// The declarations up to a closing brace.
    pub fn block(&mut self, fuel: u64) -> (r: Result<Vec<Stmt>, ParseInterrupt>)
        requires
            old(self).ok(),
        ensures
            final(self).ok(),
            final(self).tokens == old(self).tokens,
            pb_matches(
                r,
                *final(self),
                sp_block(old(self).toks(), old(self).idx as int, old(self).next_id as int, fuel as nat),
            ),
        decreases fuel, 1int,
    {
        if fuel == 0 {
            return Err(ParseInterrupt::TooDeep);
        }
        if !self.check_kind(&TokenKind::RightBrace) && !self.at_end() {
            let s = match self.declaration(fuel - 1) {
                Ok(s) => s,
                Err(ir) => {
                    return Err(ir);
                },
            };
            let mut rest = match self.block(fuel - 1) {
                Ok(ss) => ss,
                Err(ir) => {
                    return Err(ir);
                },
            };
            let ghost tail = rest@;
            rest.insert(0, s);
            proof {
                crate::ast::lemma_stmts_view_index(rest@);
                crate::ast::lemma_stmts_view_index(tail);
                assert(rest@[0] == s);
                assert(stmts_view(rest@) =~= seq![s.deep_view()] + stmts_view(tail));
            }
            Ok(rest)
        } else {
            match self.consume(&TokenKind::RightBrace, "Expect '}' after block.") {
                Ok(()) => {
                    let empty: Vec<Stmt> = Vec::new();
                    proof {
                        crate::ast::lemma_stmts_view_index(empty@);
                        assert(stmts_view(empty@) =~= Seq::<SpStmt>::empty());
                    }
                    Ok(empty)
                },
                Err(m) => Err(ParseInterrupt::Fail(m)),
            }
        }
    }

    /// A variable declaration after its `var` keyword.
    pub fn var_declaration(&mut self, fuel: u64) -> (r: Result<Stmt, ParseInterrupt>)
        requires
            old(self).ok(),
        ensures
            final(self).ok(),
            final(self).tokens == old(self).tokens,
            ps_matches(
                r,
                *final(self),
                sp_var_decl(old(self).toks(), old(self).idx as int, old(self).next_id as int, fuel as nat),
            ),
        decreases fuel, 0int,
    {
        if fuel == 0 {
            return Err(ParseInterrupt::TooDeep);
        }
        let t = self.tok_at(self.idx);
        match t.kind {
            TokenKind::Identifier(name) => {
                proof {
                    assert(self.tokens.deep_view().len() == self.tokens@.len());
                    assert(!(sp_peek(self.toks(), self.idx as int).kind is Eof));
                    assert(self.idx < self.tokens.len());
                }
                self.idx = self.idx + 1;
                if self.check_kind(&TokenKind::Equal) {
                    proof {
                        assert(self.tokens.deep_view().len() == self.tokens@.len());
                        assert(!sp_at_end(self.toks(), self.idx as int));
                        assert(!(sp_peek(self.toks(), self.idx as int).kind is Eof));
                        assert(self.idx < self.tokens.len());
                    }
                    self.idx = self.idx + 1;
                    let e = match self.assignment(fuel - 1) {
                        Ok(e) => e,
                        Err(ir) => {
                            return Err(ir);
                        },
                    };
                    match self.consume(
                        &TokenKind::Semicolon,
                        "Expect ';' after variable declaration.",
                    ) {
                        Ok(()) => Ok(Stmt::Var(name, Some(e))),
                        Err(m) => Err(ParseInterrupt::Fail(m)),
                    }
                } else {
                    match self.consume(
                        &TokenKind::Semicolon,
                        "Expect ';' after variable declaration.",
                    ) {
                        Ok(()) => Ok(Stmt::Var(name, None)),
                        Err(m) => Err(ParseInterrupt::Fail(m)),
                    }
                }
            },
            _ => Err(ParseInterrupt::Fail(self.error_at(self.idx, "Expect variable name."))),
        }
    }

    pub fn print_statement(&mut self, fuel: u64) -> (r: Result<Stmt, ParseInterrupt>)
        requires
            old(self).ok(),
        ensures
            final(self).ok(),
            final(self).tokens == old(self).tokens,
            ps_matches(
                r,
                *final(self),
                sp_print_stmt(old(self).toks(), old(self).idx as int, old(self).next_id as int, fuel as nat),
            ),
        decreases fuel, 0int,
    {
        if fuel == 0 {
            return Err(ParseInterrupt::TooDeep);
        }
        let e = match self.assignment(fuel - 1) {
            Ok(e) => e,
            Err(ir) => {
                return Err(ir);
            },
        };
        match self.consume(&TokenKind::Semicolon, "Expect ';' after value.") {
            Ok(()) => Ok(Stmt::Print(e)),
            Err(m) => Err(ParseInterrupt::Fail(m)),
        }
    }

    pub fn expression_statement(&mut self, fuel: u64) -> (r: Result<Stmt, ParseInterrupt>)
        requires
            old(self).ok(),
        ensures
            final(self).ok(),
            final(self).tokens == old(self).tokens,
            ps_matches(
                r,
                *final(self),
                sp_expr_stmt(old(self).toks(), old(self).idx as int, old(self).next_id as int, fuel as nat),
            ),
        decreases fuel, 0int,
    {
        if fuel == 0 {
            return Err(ParseInterrupt::TooDeep);
        }
        let e = match self.assignment(fuel - 1) {
            Ok(e) => e,
            Err(ir) => {
                return Err(ir);
            },
        };
        match self.consume(&TokenKind::Semicolon, "Expect ';' after expression.") {
            Ok(()) => Ok(Stmt::Expr(e)),
            Err(m) => Err(ParseInterrupt::Fail(m)),
        }
    }

    /// A return statement after its keyword.
    pub fn return_statement(&mut self, fuel: u64) -> (r: Result<Stmt, ParseInterrupt>)
        requires
            old(self).ok(),
        ensures
            final(self).ok(),
            final(self).tokens == old(self).tokens,
            ps_matches(
                r,
                *final(self),
                sp_return_stmt(old(self).toks(), old(self).idx as int, old(self).next_id as int, fuel as nat),
            ),
        decreases fuel, 0int,
    {
        if fuel == 0 {
            return Err(ParseInterrupt::TooDeep);
        }
        if !self.check_kind(&TokenKind::Semicolon) {
            let e = match self.assignment(fuel - 1) {
                Ok(e) => e,
                Err(ir) => {
                    return Err(ir);
                },
            };
            match self.consume(&TokenKind::Semicolon, "Expect ';' after return value.") {
                Ok(()) => {
                    let line = self.peek_line();
                    Ok(Stmt::Return(Some(e), line))
                },
                Err(m) => Err(ParseInterrupt::Fail(m)),
            }
        } else {
            match self.consume(&TokenKind::Semicolon, "Expect ';' after return value.") {
                Ok(()) => {
                    let line = self.peek_line();
                    Ok(Stmt::Return(None, line))
                },
                Err(m) => Err(ParseInterrupt::Fail(m)),
            }
        }
    }

    pub fn if_statement(&mut self, fuel: u64) -> (r: Result<Stmt, ParseInterrupt>)
        requires
            old(self).ok(),
        ensures
            final(self).ok(),
            final(self).tokens == old(self).tokens,
            ps_matches(
                r,
                *final(self),
                sp_if_stmt(old(self).toks(), old(self).idx as int, old(self).next_id as int, fuel as nat),
            ),
        decreases fuel, 0int,
    {
        if fuel == 0 {
            return Err(ParseInterrupt::TooDeep);
        }
        match self.consume(&TokenKind::LeftParen, "Expect '(' after 'if'.") {
            Err(m) => {
                return Err(ParseInterrupt::Fail(m));
            },
            Ok(()) => {},
        }
        let cond = match self.assignment(fuel - 1) {
            Ok(e) => e,
            Err(ir) => {
                return Err(ir);
            },
        };
        match self.consume(&TokenKind::RightParen, "Expect ')' after 'if condition'.") {
            Err(m) => {
                return Err(ParseInterrupt::Fail(m));
            },
            Ok(()) => {},
        }
        let then = match self.statement(fuel - 1) {
            Ok(s) => s,
            Err(ir) => {
                return Err(ir);
            },
        };
        if self.check_kind(&TokenKind::Else) {
            proof {
                assert(self.tokens.deep_view().len() == self.tokens@.len());
                assert(!sp_at_end(self.toks(), self.idx as int));
                assert(!(sp_peek(self.toks(), self.idx as int).kind is Eof));
                assert(self.idx < self.tokens.len());
            }
            self.idx = self.idx + 1;
            let o = match self.statement(fuel - 1) {
                Ok(s) => s,
                Err(ir) => {
                    return Err(ir);
                },
            };
            Ok(Stmt::If { condition: cond, then: Box::new(then), otherwise: Some(Box::new(o)) })
        } else {
            Ok(Stmt::If { condition: cond, then: Box::new(then), otherwise: None })
        }
    }

    pub fn while_statement(&mut self, fuel: u64) -> (r: Result<Stmt, ParseInterrupt>)
        requires
            old(self).ok(),
        ensures
            final(self).ok(),
            final(self).tokens == old(self).tokens,
            ps_matches(
                r,
                *final(self),
                sp_while_stmt(old(self).toks(), old(self).idx as int, old(self).next_id as int, fuel as nat),
            ),
        decreases fuel, 0int,
    {
        if fuel == 0 {
            return Err(ParseInterrupt::TooDeep);
        }
        match self.consume(&TokenKind::LeftParen, "Expert '(' after 'while'.") {
            Err(m) => {
                return Err(ParseInterrupt::Fail(m));
            },
            Ok(()) => {},
        }
        let cond = match self.assignment(fuel - 1) {
            Ok(e) => e,
            Err(ir) => {
                return Err(ir);
            },
        };
        match self.consume(&TokenKind::RightParen, "Expert '(' after 'while'.") {
            Err(m) => {
                return Err(ParseInterrupt::Fail(m));
            },
            Ok(()) => {},
        }
        match self.statement(fuel - 1) {
            Ok(body) => Ok(Stmt::While(cond, Box::new(body))),
            Err(ir) => Err(ir),
        }
    }
}

impl Parser {
    /// A `for` statement after its keyword, desugared while parsing.
    /// Assemble the desugared shape of a `for` loop.
    fn for_desugar(has_init: bool, init: Stmt, cond: Expr, has_incr: bool, inc: Expr, body: Stmt) -> (r:
        Stmt)
        ensures
            r.deep_view() == sp_desugar_for(
                has_init,
                init.deep_view(),
                cond.deep_view(),
                has_incr,
                inc.deep_view(),
                body.deep_view(),
            ),
    {
        let ghost init_v = init.deep_view();
        let ghost cond_v = cond.deep_view();
        let ghost inc_v = inc.deep_view();
        let ghost body_v = body.deep_view();
        let body1 = if has_incr {
            let mut pair: Vec<Stmt> = Vec::new();
            pair.push(body);
            pair.push(Stmt::Expr(inc));
            proof {
                crate::ast::lemma_stmts_view_index(pair@);
                assert(pair@[0].deep_view() == body_v);
                assert(pair@[1].deep_view() == SpStmt::Expr(inc_v));
                assert(stmts_view(pair@) =~= seq![body_v, SpStmt::Expr(inc_v)]);
            }
            Stmt::Block(pair)
        } else {
            body
        };
        proof {
            assert(body1.deep_view() == (if has_incr {
                SpStmt::Block(seq![body_v, SpStmt::Expr(inc_v)])
            } else {
                body_v
            }));
        }
        let body2 = Stmt::While(cond, Box::new(body1));
        let ghost body2_v = body2.deep_view();
        if has_init {
            let mut outer: Vec<Stmt> = Vec::new();
            outer.push(init);
            outer.push(body2);
            proof {
                crate::ast::lemma_stmts_view_index(outer@);
                assert(outer@[0].deep_view() == init_v);
                assert(outer@[1].deep_view() == body2_v);
                assert(stmts_view(outer@) =~= seq![init_v, body2_v]);
            }
            Stmt::Block(outer)
        } else {
            body2
        }
    }

    /// A `for` statement after its keyword, desugared while parsing.
    #[verifier::rlimit(100)]
    pub fn for_statement(&mut self, fuel: u64) -> (r: Result<Stmt, ParseInterrupt>)
        requires
            old(self).ok(),
        ensures
            final(self).ok(),
            final(self).tokens == old(self).tokens,
            ps_matches(
                r,
                *final(self),
                sp_for_stmt(old(self).toks(), old(self).idx as int, old(self).next_id as int, fuel as nat),
            ),
        decreases fuel, 0int,
    {
        if fuel == 0 {
            return Err(ParseInterrupt::TooDeep);
        }
        match self.consume(&TokenKind::LeftParen, "Expect '(' after 'for'.") {
            Err(m) => {
                return Err(ParseInterrupt::Fail(m));
            },
            Ok(()) => {},
        }
        let semi = self.check_kind(&TokenKind::Semicolon);
        let has_init = !semi;
        proof {
            assert(semi <==> sp_peek(self.toks(), self.idx as int).kind is Semicolon);
        }
        let init = if semi {
            proof {
                assert(self.tokens.deep_view().len() == self.tokens@.len());
                assert(!(sp_peek(self.toks(), self.idx as int).kind is Eof));
                assert(self.idx < self.tokens.len());
            }
            self.idx = self.idx + 1;
            Stmt::Expr(Expr::Literal(Lit::Nil))
        } else if self.check_kind(&TokenKind::Var) {
            self.advance();
            match self.var_declaration(fuel - 1) {
                Ok(s) => s,
                Err(ir) => {
                    return Err(ir);
                },
            }
        } else {
            proof {
                assert(!(sp_peek(self.toks(), self.idx as int).kind is Var));
            }
            match self.expression_statement(fuel - 1) {
                Ok(s) => s,
                Err(ir) => {
                    return Err(ir);
                },
            }
        };
        let semi1 = self.check_kind(&TokenKind::Semicolon);
        proof {
            assert(semi1 <==> sp_peek(self.toks(), self.idx as int).kind is Semicolon);
        }
        let cond = if semi1 {
            Expr::Literal(Lit::Bool(true))
        } else {
            match self.assignment(fuel - 1) {
                Ok(e) => e,
                Err(ir) => {
                    return Err(ir);
                },
            }
        };
        match self.consume(&TokenKind::Semicolon, "Expect ';' after loop condition.") {
            Err(m) => {
                return Err(ParseInterrupt::Fail(m));
            },
            Ok(()) => {},
        }
        let rp = self.check_kind(&TokenKind::RightParen);
        let has_incr = !rp;
        proof {
            assert(rp <==> sp_peek(self.toks(), self.idx as int).kind is RightParen);
        }
        let inc = if rp {
            Expr::Literal(Lit::Nil)
        } else {
            match self.assignment(fuel - 1) {
                Ok(e) => e,
                Err(ir) => {
                    return Err(ir);
                },
            }
        };
        match self.consume(&TokenKind::RightParen, "Expect ')' after for clauses.") {
            Err(m) => {
                return Err(ParseInterrupt::Fail(m));
            },
            Ok(()) => {},
        }
        let body = match self.statement(fuel - 1) {
            Ok(s) => s,
            Err(ir) => {
                return Err(ir);
            },
        };
        Ok(Parser::for_desugar(has_init, init, cond, has_incr, inc, body))
    }

    /// The parameter names of a function declaration, at most 255.
    fn param_list(&mut self, count: usize, fuel: u64) -> (r: Result<Vec<String>, ParseInterrupt>)
        requires
            old(self).ok(),
        ensures
            final(self).ok(),
            final(self).tokens == old(self).tokens,
            final(self).next_id == old(self).next_id,
            match sp_params(old(self).toks(), old(self).idx as int, count as int, fuel as nat) {
                PP::Parsed(ps, j) => r is Ok && names_view(r->Ok_0@) == ps && final(self).idx as int
                    == j,
                PP::Fail(m, j) => r is Err && r->Err_0 is Fail && r->Err_0->Fail_0@ == m
                    && final(self).idx as int == j,
                PP::Stop => r is Err && r->Err_0 is TooDeep,
            },
        decreases fuel,
    {
        if fuel == 0 {
            return Err(ParseInterrupt::TooDeep);
        }
        if count >= MAX_ARGS {
            return Err(ParseInterrupt::Fail(self.error_at(self.idx, MSG_TOO_MANY_ARGS)));
        }
        let t = self.tok_at(self.idx);
        match t.kind {
            TokenKind::Identifier(p) => {
                proof {
                    assert(self.tokens.deep_view().len() == self.tokens@.len());
                    assert(!(sp_peek(self.toks(), self.idx as int).kind is Eof));
                    assert(self.idx < self.tokens.len());
                }
                self.idx = self.idx + 1;
                if self.check_kind(&TokenKind::Comma) {
                    proof {
                        assert(self.tokens.deep_view().len() == self.tokens@.len());
                        assert(!sp_at_end(self.toks(), self.idx as int));
                        assert(self.idx < self.tokens.len());
                    }
                    self.idx = self.idx + 1;
                    let mut rest = match self.param_list(count + 1, fuel - 1) {
                        Ok(ps) => ps,
                        Err(ir) => {
                            return Err(ir);
                        },
                    };
                    let ghost tail = rest@;
                    rest.insert(0, p);
                    proof {
                        assert(rest@[0] == p);
                        assert(names_view(rest@) =~= seq![p@] + names_view(tail));
                    }
                    Ok(rest)
                } else {
                    let mut one: Vec<String> = Vec::new();
                    one.push(p);
                    proof {
                        assert(names_view(one@) =~= seq![one@[0]@]);
                    }
                    Ok(one)
                }
            },
            _ => Err(ParseInterrupt::Fail(self.error_at(self.idx, "Expect parameter name."))),
        }
    }

    /// A function declaration after its `fun` keyword.
    #[verifier::rlimit(50)]
    pub fn function(&mut self, fuel: u64) -> (r: Result<Stmt, ParseInterrupt>)
        requires
            old(self).ok(),
        ensures
            final(self).ok(),
            final(self).tokens == old(self).tokens,
            ps_matches(
                r,
                *final(self),
                sp_function(old(self).toks(), old(self).idx as int, old(self).next_id as int, fuel as nat),
            ),
        decreases fuel, 1int,
    {
        if fuel == 0 {
            return Err(ParseInterrupt::TooDeep);
        }
        let t = self.tok_at(self.idx);
        match t.kind {
            TokenKind::Identifier(name) => {
                proof {
                    assert(self.tokens.deep_view().len() == self.tokens@.len());
                    assert(!(sp_peek(self.toks(), self.idx as int).kind is Eof));
                    assert(self.idx < self.tokens.len());
                }
                self.idx = self.idx + 1;
                match self.consume(&TokenKind::LeftParen, "Expect '(' after function name.") {
                    Err(m) => {
                        return Err(ParseInterrupt::Fail(m));
                    },
                    Ok(()) => {},
                }
                let params: Vec<String> = if self.check_kind(&TokenKind::RightParen) {
                    let empty: Vec<String> = Vec::new();
                    proof {
                        assert(names_view(empty@) =~= Seq::<Seq<char>>::empty());
                    }
                    empty
                } else {
                    match self.param_list(0, fuel - 1) {
                        Ok(ps) => ps,
                        Err(ir) => {
                            return Err(ir);
                        },
                    }
                };
                match self.consume(&TokenKind::RightParen, "Expect ')', after parameters") {
                    Err(m) => {
                        return Err(ParseInterrupt::Fail(m));
                    },
                    Ok(()) => {},
                }
                match self.consume(&TokenKind::LeftBrace, "Expect '{', before function body") {
                    Err(m) => {
                        return Err(ParseInterrupt::Fail(m));
                    },
                    Ok(()) => {},
                }
                let body = match self.block(fuel - 1) {
                    Ok(ss) => ss,
                    Err(ir) => {
                        return Err(ir);
                    },
                };
                let line = self.peek_line();
                proof {
                    crate::ast::lemma_vec_names_view(params);
                    crate::ast::lemma_vec_stmts_view(body);
                }
                Ok(Stmt::Function { name, params, body, line })
            },
            _ => Err(ParseInterrupt::Fail(self.error_at(self.idx, "Expect function name"))),
        }
    }

    /// Skip to a statement boundary after an error.
    pub fn synchronize(&mut self)
        requires
            old(self).ok(),
        ensures
            final(self).ok(),
            final(self).tokens == old(self).tokens,
            final(self).next_id == old(self).next_id,
            final(self).idx as int == sp_sync(old(self).toks(), old(self).idx as int),
    {
        self.advance();
        self.sync_scan();
    }

    fn sync_scan(&mut self)
        requires
            old(self).ok(),
        ensures
            final(self).ok(),
            final(self).tokens == old(self).tokens,
            final(self).next_id == old(self).next_id,
            final(self).idx as int == sp_sync_scan(old(self).toks(), old(self).idx as int),
        decreases old(self).tokens@.len() - old(self).idx,
    {
        if self.at_end() {
            return ;
        }
        let prev_semi = if self.idx >= 1 {
            matches!(self.tokens[self.idx - 1].kind, TokenKind::Semicolon)
        } else {
            false
        };
        if prev_semi {
            return ;
        }
        let stop = match self.tokens[self.idx].kind {
            TokenKind::Class | TokenKind::Fun | TokenKind::Var | TokenKind::For | TokenKind::If
                | TokenKind::While | TokenKind::Print | TokenKind::Return => true,
            _ => false,
        };
        if stop {
            return ;
        }
        proof {
            assert(self.tokens.deep_view().len() == self.tokens@.len());
            assert(!(sp_peek(self.toks(), self.idx as int).kind is Eof));
            assert(self.idx < self.tokens.len());
        }
        self.idx = self.idx + 1;
        self.sync_scan();
    }

    /// The whole program: declarations to end-of-input, collecting a
    /// diagnostic per error and synchronizing after each.
    pub fn parse(&mut self, fuel: u64) -> (r: (Vec<Stmt>, Vec<LoxError>, bool))
        requires
            old(self).ok(),
        ensures
            final(self).ok(),
            ({
                let sp = sp_program(old(self).toks(), old(self).idx as int, old(self).next_id as int, fuel as nat);
                &&& stmts_view(r.0@) == sp.stmts
                &&& compile_errors_view(r.1@) == sp.errors
                &&& r.2 == sp.overflowed
                &&& all_compile(r.1@)
            }),
        decreases fuel,
    {
        if fuel == 0 {
            let e1: Vec<Stmt> = Vec::new();
            let e2: Vec<LoxError> = Vec::new();
            proof {
                crate::ast::lemma_stmts_view_index(e1@);
                assert(stmts_view(e1@) =~= Seq::<SpStmt>::empty());
                assert(compile_errors_view(e2@) =~= Seq::<Seq<char>>::empty());
            }
            return (e1, e2, true);
        }
        if self.at_end() {
            let e1: Vec<Stmt> = Vec::new();
            let e2: Vec<LoxError> = Vec::new();
            proof {
                crate::ast::lemma_stmts_view_index(e1@);
                assert(stmts_view(e1@) =~= Seq::<SpStmt>::empty());
                assert(compile_errors_view(e2@) =~= Seq::<Seq<char>>::empty());
            }
            return (e1, e2, false);
        }
        match self.declaration(fuel - 1) {
            Ok(s) => {
                let (mut stmts, errors, over) = self.parse(fuel - 1);
                let ghost tail = stmts@;
                stmts.insert(0, s);
                proof {
                    crate::ast::lemma_stmts_view_index(stmts@);
                    crate::ast::lemma_stmts_view_index(tail);
                    assert(stmts@[0] == s);
                    assert(stmts_view(stmts@) =~= seq![s.deep_view()] + stmts_view(tail));
                }
                (stmts, errors, over)
            },
            Err(ParseInterrupt::Fail(m)) => {
                self.synchronize();
                let (stmts, mut errors, over) = self.parse(fuel - 1);
                let ghost tail = errors@;
                errors.insert(0, LoxError::Compile(m));
                proof {
                    assert(errors@[0]->Compile_0@ == compile_errors_view(errors@)[0]);
                    assert(compile_errors_view(errors@) =~= seq![compile_errors_view(errors@)[0]]
                        + compile_errors_view(tail));
                }
                (stmts, errors, over)
            },
            Err(ParseInterrupt::TooDeep) => {
                let e1: Vec<Stmt> = Vec::new();
                let e2: Vec<LoxError> = Vec::new();
                proof {
                    crate::ast::lemma_stmts_view_index(e1@);
                    assert(stmts_view(e1@) =~= Seq::<SpStmt>::empty());
                    assert(compile_errors_view(e2@) =~= Seq::<Seq<char>>::empty());
                }
                (e1, e2, true)
            },
        }
    }
}

/// The diagnostic texts of a list of compile errors.
pub open spec fn compile_errors_view(v: Seq<LoxError>) -> Seq<Seq<char>> {
    v.map_values(|e: LoxError| crate::error::sp_error_message(e@))
}

/// Every failure in the list is a compile diagnostic.
pub open spec fn all_compile(v: Seq<LoxError>) -> bool {
    forall|i: int| 0 <= i < v.len() ==> (#[trigger] (v[i]@)) is Compile
}

} // verus!
