//! Structure-preserving copies of syntax trees, and the lemmas that relate
//! the deep view of a vector of nodes to the view of its element sequence.
use vstd::prelude::*;

use crate::ast::{Expr, Lit, Stmt, lemma_vec_exprs_view, lemma_vec_names_view, lemma_vec_stmts_view};

verus! {

/// A structure-preserving copy of an expression: the copy has the same
/// mathematical image as the source value.
pub fn clone_expr(e: &Expr) -> (r: Expr)
    ensures
        r@ == e@,
    decreases e,
{
    match e {
        Expr::Assign { name, value, line, id } => Expr::Assign {
            name: name.clone(),
            value: Box::new(clone_expr(value)),
            line: *line,
            id: *id,
        },
        Expr::Binary { lhs, op, rhs, line } => Expr::Binary {
            lhs: Box::new(clone_expr(lhs)),
            op: *op,
            rhs: Box::new(clone_expr(rhs)),
            line: *line,
        },
        Expr::Call { callee, args, line } => {
            let mut new_args: Vec<Expr> = Vec::new();
            let mut k: usize = 0;
            #[verifier::loop_isolation(false)]
            while k < args.len()
                invariant
                    k <= args.len(),
                    new_args.deep_view() =~= args.deep_view().subrange(0, k as int),
                decreases args.len() - k,
            {
                proof {
                    assert(decreases_to!(*e => e->Call_args));
                    assert(decreases_to!(*args => args@));
                    assert(decreases_to!(args@ => args@[k as int]));
                    assert(decreases_to!(*e => args@[k as int]));
                }
                new_args.push(clone_expr(&args[k]));
                assert(new_args.deep_view() =~= args.deep_view().subrange(0, k + 1 as int));
                k = k + 1;
            }
            assert(new_args.deep_view() =~= args.deep_view());
            proof {
                lemma_vec_exprs_view(new_args);
                lemma_vec_exprs_view(*args);
            }
            Expr::Call { callee: Box::new(clone_expr(callee)), args: new_args, line: *line }
        },
        Expr::Grouping(inner) => Expr::Grouping(Box::new(clone_expr(inner))),
        Expr::Unary(op, rhs, line) => Expr::Unary(*op, Box::new(clone_expr(rhs)), *line),
        Expr::Literal(lit) => Expr::Literal(lit.duplicate()),
        Expr::Logical { lhs, kw, rhs, line } => Expr::Logical {
            lhs: Box::new(clone_expr(lhs)),
            kw: *kw,
            rhs: Box::new(clone_expr(rhs)),
            line: *line,
        },
        Expr::Variable { name, line, id } => Expr::Variable {
            name: name.clone(),
            line: *line,
            id: *id,
        },
    }
}

/// A structure-preserving copy of a statement.
pub fn clone_stmt(s: &Stmt) -> (r: Stmt)
    ensures
        r@ == s@,
    decreases s,
{
    match s {
        Stmt::Expr(e) => Stmt::Expr(clone_expr(e)),
        Stmt::Block(stmts) => {
            let mut out: Vec<Stmt> = Vec::new();
            let mut k: usize = 0;
            #[verifier::loop_isolation(false)]
            while k < stmts.len()
                invariant
                    k <= stmts.len(),
                    out.deep_view() =~= stmts.deep_view().subrange(0, k as int),
                decreases stmts.len() - k,
            {
                proof {
                    assert(decreases_to!(*s => s->Block_0));
                    assert(decreases_to!(*stmts => stmts@));
                    assert(decreases_to!(stmts@ => stmts@[k as int]));
                    assert(decreases_to!(*s => stmts@[k as int]));
                }
                out.push(clone_stmt(&stmts[k]));
                assert(out.deep_view() =~= stmts.deep_view().subrange(0, k + 1 as int));
                k = k + 1;
            }
            assert(out.deep_view() =~= stmts.deep_view());
            proof {
                lemma_vec_stmts_view(out);
                lemma_vec_stmts_view(*stmts);
            }
            Stmt::Block(out)
        },
        Stmt::If { condition, then, otherwise } => Stmt::If {
            condition: clone_expr(condition),
            then: Box::new(clone_stmt(then)),
            otherwise: match otherwise {
                Some(o) => Some(Box::new(clone_stmt(o))),
                None => None,
            },
        },
        Stmt::Function { name, params, body, line } => {
            let mut new_params: Vec<String> = Vec::new();
            let mut k: usize = 0;
            #[verifier::loop_isolation(false)]
            while k < params.len()
                invariant
                    k <= params.len(),
                    new_params.deep_view() =~= params.deep_view().subrange(0, k as int),
                decreases params.len() - k,
            {
                new_params.push(params[k].clone());
                assert(new_params.deep_view() =~= params.deep_view().subrange(0, k + 1 as int));
                k = k + 1;
            }
            assert(new_params.deep_view() =~= params.deep_view());
            let mut new_body: Vec<Stmt> = Vec::new();
            let mut j: usize = 0;
            #[verifier::loop_isolation(false)]
            while j < body.len()
                invariant
                    j <= body.len(),
                    new_body.deep_view() =~= body.deep_view().subrange(0, j as int),
                decreases body.len() - j,
            {
                proof {
                    assert(decreases_to!(*s => s->Function_body));
                    assert(decreases_to!(*body => body@));
                    assert(decreases_to!(body@ => body@[j as int]));
                    assert(decreases_to!(*s => body@[j as int]));
                }
                new_body.push(clone_stmt(&body[j]));
                assert(new_body.deep_view() =~= body.deep_view().subrange(0, j + 1 as int));
                j = j + 1;
            }
            assert(new_body.deep_view() =~= body.deep_view());
            proof {
                lemma_vec_names_view(new_params);
                lemma_vec_names_view(*params);
                lemma_vec_stmts_view(new_body);
                lemma_vec_stmts_view(*body);
            }
            Stmt::Function { name: name.clone(), params: new_params, body: new_body, line: *line }
        },
        Stmt::Print(e) => Stmt::Print(clone_expr(e)),
        Stmt::Return(e, line) => Stmt::Return(
            match e {
                Some(e) => Some(clone_expr(e)),
                None => None,
            },
            *line,
        ),
        Stmt::Var(name, init) => Stmt::Var(
            name.clone(),
            match init {
                Some(e) => Some(clone_expr(e)),
                None => None,
            },
        ),
        Stmt::While(cond, body) => Stmt::While(clone_expr(cond), Box::new(clone_stmt(body))),
    }
}

/// A copy of a name list with the same images.
pub fn clone_names(v: &Vec<String>) -> (r: Vec<String>)
    ensures
        r.deep_view() == v.deep_view(),
{
    let mut out: Vec<String> = Vec::new();
    let mut k: usize = 0;
    #[verifier::loop_isolation(false)]
    while k < v.len()
        invariant
            k <= v.len(),
            out.deep_view() =~= v.deep_view().subrange(0, k as int),
        decreases v.len() - k,
    {
        out.push(v[k].clone());
        assert(out.deep_view() =~= v.deep_view().subrange(0, k + 1 as int));
        k = k + 1;
    }
    assert(out.deep_view() =~= v.deep_view());
    out
}

/// A structure-preserving copy of a statement list.
pub fn clone_stmts(v: &Vec<Stmt>) -> (r: Vec<Stmt>)
    ensures
        r.deep_view() == v.deep_view(),
{
    let mut out: Vec<Stmt> = Vec::new();
    let mut k: usize = 0;
    #[verifier::loop_isolation(false)]
    while k < v.len()
        invariant
            k <= v.len(),
            out.deep_view() =~= v.deep_view().subrange(0, k as int),
        decreases v.len() - k,
    {
        out.push(clone_stmt(&v[k]));
        assert(out.deep_view() =~= v.deep_view().subrange(0, k + 1 as int));
        k = k + 1;
    }
    assert(out.deep_view() =~= v.deep_view());
    out
}


} // verus!
