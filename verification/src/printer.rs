//! A pretty-printer for expressions. The printed form is itself source
//! text: operator applications print fully parenthesized, string literals
//! print quoted, other literals print as their display form, and variable
//! reads print as their name; parsing the printed form back yields an
//! expression that evaluates the same. Call expressions have no printed
//! form.
use vstd::prelude::*;

use crate::ast::{Expr, SpExpr, SpLit};
use crate::value::sp_display;
use crate::interpreter::sp_lit_value;

verus! {

/// Does the expression contain a call? Those have no printed form.
pub open spec fn has_call(e: SpExpr) -> bool
    decreases e,
{
    match e {
        SpExpr::Call { .. } => true,
        SpExpr::Assign { name, value, line, id } => has_call(*value),
        SpExpr::Binary { lhs, op, rhs, line } => has_call(*lhs) || has_call(*rhs),
        SpExpr::Grouping(inner) => has_call(*inner),
        SpExpr::Unary(_, rhs, _) => has_call(*rhs),
        SpExpr::Logical { lhs, kw, rhs, line } => has_call(*lhs) || has_call(*rhs),
        _ => false,
    }
}

/// The fixed symbol of a binary operator.
pub open spec fn sp_binop_symbol(op: crate::ast::BinOp) -> Seq<char> {
    match op {
        crate::ast::BinOp::Add => "+"@,
        crate::ast::BinOp::Div => "/"@,
        crate::ast::BinOp::Eq => "=="@,
        crate::ast::BinOp::Gt => ">"@,
        crate::ast::BinOp::GtEq => ">="@,
        crate::ast::BinOp::Lt => "<"@,
        crate::ast::BinOp::LtEq => "<="@,
        crate::ast::BinOp::Mul => "*"@,
        crate::ast::BinOp::NotEq => "!="@,
        crate::ast::BinOp::Sub => "-"@,
    }
}

pub open spec fn sp_unop_symbol(op: crate::ast::UnOp) -> Seq<char> {
    match op {
        crate::ast::UnOp::Neg => "-"@,
        crate::ast::UnOp::Not => "!"@,
    }
}

pub open spec fn sp_keyword_symbol(kw: crate::ast::Keyword) -> Seq<char> {
    match kw {
        crate::ast::Keyword::And => "and"@,
        crate::ast::Keyword::Or => "or"@,
    }
}

/// The printed form of an expression, parenthesized source text; a call
/// prints as nothing.
pub open spec fn sp_print(e: SpExpr) -> Seq<char>
    decreases e,
{
    match e {
        SpExpr::Literal(SpLit::Str(s)) => "\""@ + s + "\""@,
        SpExpr::Literal(l) => sp_display(sp_lit_value(l)),
        SpExpr::Variable { name, line, id } => name,
        SpExpr::Assign { name, value, line, id } => "("@ + name + " = "@ + sp_print(*value)
            + ")"@,
        SpExpr::Binary { lhs, op, rhs, line } => "("@ + sp_print(*lhs) + " "@ + sp_binop_symbol(op)
            + " "@ + sp_print(*rhs) + ")"@,
        SpExpr::Grouping(inner) => sp_print(*inner),
        SpExpr::Unary(op, rhs, line) => "("@ + sp_unop_symbol(op) + sp_print(*rhs) + ")"@,
        SpExpr::Logical { lhs, kw, rhs, line } => "("@ + sp_print(*lhs) + " "@ + sp_keyword_symbol(
            kw,
        ) + " "@ + sp_print(*rhs) + ")"@,
        SpExpr::Call { .. } => Seq::empty(),
    }
}

/// The pretty-printer.
#[derive(Debug)]
pub struct AstPrinter;

fn binop_symbol(op: crate::ast::BinOp) -> (r: String)
    ensures
        r@ == sp_binop_symbol(op),
{
    match op {
        crate::ast::BinOp::Add => "+".to_owned(),
        crate::ast::BinOp::Div => "/".to_owned(),
        crate::ast::BinOp::Eq => "==".to_owned(),
        crate::ast::BinOp::Gt => ">".to_owned(),
        crate::ast::BinOp::GtEq => ">=".to_owned(),
        crate::ast::BinOp::Lt => "<".to_owned(),
        crate::ast::BinOp::LtEq => "<=".to_owned(),
        crate::ast::BinOp::Mul => "*".to_owned(),
        crate::ast::BinOp::NotEq => "!=".to_owned(),
        crate::ast::BinOp::Sub => "-".to_owned(),
    }
}

impl AstPrinter {
    /// Print an expression without calls as parenthesized source text.
    pub fn print(&self, e: &Expr) -> (r: String)
        requires
            !has_call(e.deep_view()),
        ensures
            r@ == sp_print(e.deep_view()),
        decreases e,
    {
        match e {
            Expr::Literal(crate::ast::Lit::Str(s)) => "\"".to_owned().concat(s.as_str()).concat(
                "\"",
            ),
            Expr::Literal(l) => crate::interpreter::lit_value(l).render(),
            Expr::Variable { name, line, id } => name.clone(),
            Expr::Assign { name, value, line, id } => "(".to_owned().concat(name.as_str()).concat(
                " = ",
            ).concat(self.print(value).as_str()).concat(")"),
            Expr::Binary { lhs, op, rhs, line } => "(".to_owned().concat(
                self.print(lhs).as_str(),
            ).concat(" ").concat(binop_symbol(*op).as_str()).concat(" ").concat(
                self.print(rhs).as_str(),
            ).concat(")"),
            Expr::Grouping(inner) => self.print(inner),
            Expr::Unary(op, rhs, line) => {
                let sym = match op {
                    crate::ast::UnOp::Neg => "-",
                    crate::ast::UnOp::Not => "!",
                };
                "(".to_owned().concat(sym).concat(self.print(rhs).as_str()).concat(")")
            },
            Expr::Logical { lhs, kw, rhs, line } => {
                let sym = match kw {
                    crate::ast::Keyword::And => "and",
                    crate::ast::Keyword::Or => "or",
                };
                "(".to_owned().concat(self.print(lhs).as_str()).concat(" ").concat(sym).concat(
                    " ",
                ).concat(self.print(rhs).as_str()).concat(")")
            },
            Expr::Call { .. } => String::new(),
        }
    }
}

} // verus!
