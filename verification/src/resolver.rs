//! The lexical resolver: a pass over the syntax tree that records, for
//! each variable read or write, how many scopes lie between the occurrence
//! and its binding. `sp_resolve_stmt` and its companions give the exact
//! effect of the pass on a scope stack and on the interpreter's depth
//! table; the executable `Resolver` computes exactly that, stopping at the
//! first fault.
use vstd::prelude::*;

use crate::ast::{Expr, SpExpr, SpStmt, Stmt, names_view, stmts_view};
use crate::error::LoxError;
use crate::interpreter::{Interpreter, sp_record};

verus! {

pub const MSG_OWN_INITIALIZER: &'static str = "Can't read variable in its own initializer.";

/// One scope: names declared in it, each marked defined or not yet.
pub type SpScope = Seq<(Seq<char>, bool)>;

/// The resolver's state: the scope stack (last is innermost) and the
/// interpreter's depth table.
#[verifier::ext_equal]
pub struct RS {
    pub scopes: Seq<SpScope>,
    pub locals: Seq<Option<u32>>,
}

pub enum RR {
    Done(RS),
    Fail(Seq<char>),
}

/// The mark of `name` in one scope, if declared there.
pub open spec fn sp_scope_get(scope: SpScope, name: Seq<char>, j: int) -> Option<bool>
    decreases scope.len() - j,
    when 0 <= j <= scope.len()
{
    if j >= scope.len() {
        None
    } else if scope[j].0 == name {
        Some(scope[j].1)
    } else {
        sp_scope_get(scope, name, j + 1)
    }
}

/// The position of `name` in one scope, at or after `j`.
pub open spec fn sp_scope_find(scope: SpScope, name: Seq<char>, j: int) -> Option<int>
    decreases scope.len() - j,
    when 0 <= j <= scope.len()
{
    if j >= scope.len() {
        None
    } else if scope[j].0 == name {
        Some(j)
    } else {
        sp_scope_find(scope, name, j + 1)
    }
}

/// Mark `name` in one scope: overwrite its entry or append one.
pub open spec fn sp_scope_set(scope: SpScope, name: Seq<char>, defined: bool) -> SpScope {
    match sp_scope_find(scope, name, 0) {
        Some(j) => scope.update(j, (name, defined)),
        None => scope.push((name, defined)),
    }
}

/// Mark `name` in the innermost scope, if any scope is open.
pub open spec fn sp_mark(st: RS, name: Seq<char>, defined: bool) -> RS {
    if st.scopes.len() == 0 {
        st
    } else {
        RS {
            scopes: st.scopes.update(
                st.scopes.len() - 1,
                sp_scope_set(st.scopes.last(), name, defined),
            ),
            ..st
        }
    }
}

/// The innermost scope that declares `name`, searching inward out from
/// scope `k`.
pub open spec fn sp_find_scope(scopes: Seq<SpScope>, name: Seq<char>, k: int) -> Option<int>
    decreases k + 1,
    when k < scopes.len()
{
    if k < 0 {
        None
    } else if sp_scope_get(scopes[k], name, 0) is Some {
        Some(k)
    } else {
        sp_find_scope(scopes, name, k - 1)
    }
}

/// Record the depth of occurrence `id` of `name`: the number of scopes
/// between the innermost one and the scope declaring the name. A name no
/// scope declares is left for the global frame at runtime.
pub open spec fn sp_resolve_local(st: RS, name: Seq<char>, id: int) -> RS {
    match sp_find_scope(st.scopes, name, st.scopes.len() - 1) {
        Some(k) => RS {
            locals: sp_record(st.locals, id, (st.scopes.len() - 1 - k) as u32),
            ..st
        },
        None => st,
    }
}

/// Resolve one expression.
pub open spec fn sp_resolve_expr(st: RS, e: SpExpr) -> RR
    decreases e,
{
    match e {
        SpExpr::Literal(_) => RR::Done(st),
        SpExpr::Variable { name, line, id } => {
            if st.scopes.len() > 0 && sp_scope_get(st.scopes.last(), name, 0) == Some(false) {
                RR::Fail(MSG_OWN_INITIALIZER@)
            } else {
                RR::Done(sp_resolve_local(st, name, id as int))
            }
        },
        SpExpr::Assign { name, value, line, id } => match sp_resolve_expr(st, *value) {
            RR::Done(st1) => RR::Done(sp_resolve_local(st1, name, id as int)),
            r => r,
        },
        SpExpr::Grouping(inner) => sp_resolve_expr(st, *inner),
        SpExpr::Unary(_, rhs, _) => sp_resolve_expr(st, *rhs),
        SpExpr::Binary { lhs, op, rhs, line } => match sp_resolve_expr(st, *lhs) {
            RR::Done(st1) => sp_resolve_expr(st1, *rhs),
            r => r,
        },
        SpExpr::Logical { lhs, kw, rhs, line } => match sp_resolve_expr(st, *lhs) {
            RR::Done(st1) => sp_resolve_expr(st1, *rhs),
            r => r,
        },
        SpExpr::Call { callee, args, line } => match sp_resolve_expr(st, *callee) {
            RR::Done(st1) => sp_resolve_exprs(st1, args),
            r => r,
        },
    }
}

pub open spec fn sp_resolve_exprs(st: RS, es: Seq<SpExpr>) -> RR
    decreases es,
{
    if es.len() == 0 {
        RR::Done(st)
    } else {
        match sp_resolve_expr(st, es[0]) {
            RR::Done(st1) => sp_resolve_exprs(st1, es.drop_first()),
            r => r,
        }
    }
}

/// Resolve one statement.
pub open spec fn sp_resolve_stmt(st: RS, s: SpStmt) -> RR
    decreases s,
{
    match s {
        SpStmt::Expr(e) => sp_resolve_expr(st, e),
        SpStmt::Print(e) => sp_resolve_expr(st, e),
        SpStmt::Return(e, _) => match e {
            Some(e) => sp_resolve_expr(st, e),
            None => RR::Done(st),
        },
        SpStmt::Var(name, init) => {
            let st1 = sp_mark(st, name, false);
            match init {
                Some(e) => match sp_resolve_expr(st1, e) {
                    RR::Done(st2) => RR::Done(sp_mark(st2, name, true)),
                    r => r,
                },
                None => RR::Done(sp_mark(st1, name, true)),
            }
        },
        SpStmt::Block(ss) => {
            let st1 = RS { scopes: st.scopes.push(Seq::empty()), ..st };
            match sp_resolve_stmts(st1, ss) {
                RR::Done(st2) => RR::Done(RS { scopes: st2.scopes.drop_last(), ..st2 }),
                r => r,
            }
        },
        SpStmt::If { condition, then, otherwise } => match sp_resolve_expr(st, condition) {
            RR::Done(st1) => match sp_resolve_stmt(st1, *then) {
                RR::Done(st2) => match otherwise {
                    Some(o) => sp_resolve_stmt(st2, *o),
                    None => RR::Done(st2),
                },
                r => r,
            },
            r => r,
        },
        SpStmt::While(cond, body) => match sp_resolve_expr(st, cond) {
            RR::Done(st1) => sp_resolve_stmt(st1, *body),
            r => r,
        },
        SpStmt::Function { name, params, body, line } => {
            let st1 = sp_mark(sp_mark(st, name, false), name, true);
            let st2 = RS { scopes: st1.scopes.push(Seq::empty()), ..st1 };
            let st3 = sp_mark_params(st2, params);
            match sp_resolve_stmts(st3, body) {
                RR::Done(st4) => RR::Done(RS { scopes: st4.scopes.drop_last(), ..st4 }),
                r => r,
            }
        },
    }
}

/// Declare and define every parameter, in order, in the open scope.
pub open spec fn sp_mark_params(st: RS, params: Seq<Seq<char>>) -> RS
    decreases params.len(),
{
    if params.len() == 0 {
        st
    } else {
        sp_mark_params(sp_mark(sp_mark(st, params[0], false), params[0], true), params.drop_first())
    }
}

pub open spec fn sp_resolve_stmts(st: RS, ss: Seq<SpStmt>) -> RR
    decreases ss,
{
    if ss.len() == 0 {
        RR::Done(st)
    } else {
        match sp_resolve_stmt(st, ss[0]) {
            RR::Done(st1) => sp_resolve_stmts(st1, ss.drop_first()),
            r => r,
        }
    }
}

/// The image of one scope's table.
pub open spec fn scope_view(v: Seq<(String, bool)>) -> SpScope {
    v.map_values(|p: (String, bool)| (p.0@, p.1))
}

/// The lexical resolver's scope stack.
#[derive(Debug)]
pub struct Resolver {
    pub scopes: Vec<Vec<(String, bool)>>,
}

impl View for Resolver {
    type V = Seq<SpScope>;

    open spec fn view(&self) -> Seq<SpScope> {
        self.scopes@.map_values(|v: Vec<(String, bool)>| scope_view(v@))
    }
}

/// The resolver's state as `RS`, pairing its scopes with the
/// interpreter's depth table.
pub open spec fn rs_of(r: Resolver, it: Interpreter) -> RS {
    RS { scopes: r@, locals: it@.locals }
}

/// The interpreter fields the resolver never touches.
pub open spec fn untouched(a: Interpreter, b: Interpreter) -> bool {
    &&& a.frames == b.frames
    &&& a.env == b.env
    &&& a.globals == b.globals
    &&& a.output == b.output
    &&& a.clock == b.clock
}

fn scope_find(v: &Vec<(String, bool)>, name: &String, j: usize) -> (r: Option<usize>)
    requires
        j <= v@.len(),
    ensures
        match sp_scope_find(scope_view(v@), name@, j as int) {
            Some(k) => r is Some && r->0 as int == k && k < v@.len(),
            None => r is None,
        },
    decreases v@.len() - j,
{
    proof {
        assert(scope_view(v@).len() == v@.len());
    }
    if j >= v.len() {
        None
    } else if v[j].0 == *name {
        Some(j)
    } else {
        scope_find(v, name, j + 1)
    }
}

fn scope_get(v: &Vec<(String, bool)>, name: &String) -> (r: Option<bool>)
    ensures
        r == sp_scope_get(scope_view(v@), name@, 0),
{
    proof {
        lemma_scope_get_find(scope_view(v@), name@, 0);
    }
    match scope_find(v, name, 0) {
        Some(j) => Some(v[j].1),
        None => None,
    }
}

/// `sp_scope_get` reads the entry `sp_scope_find` locates.
proof fn lemma_scope_get_find(scope: SpScope, name: Seq<char>, j: int)
    requires
        0 <= j <= scope.len(),
    ensures
        match sp_scope_find(scope, name, j) {
            Some(k) => j <= k < scope.len() && scope[k].0 == name && sp_scope_get(scope, name, j)
                == Some(scope[k].1),
            None => sp_scope_get(scope, name, j) is None,
        },
    decreases scope.len() - j,
{
    if j < scope.len() && scope[j].0 != name {
        lemma_scope_get_find(scope, name, j + 1);
    }
}

impl Resolver {
    pub fn new() -> (r: Resolver)
        ensures
            r@ == Seq::<SpScope>::empty(),
    {
        let r = Resolver { scopes: Vec::new() };
        proof {
            assert(r@ =~= Seq::<SpScope>::empty());
        }
        r
    }

    fn begin_scope(&mut self)
        ensures
            final(self)@ == old(self)@.push(Seq::empty()),
    {
        self.scopes.push(Vec::new());
        proof {
            assert(self@ =~~= old(self)@.push(Seq::<(Seq<char>, bool)>::empty()));
        }
    }

    fn end_scope(&mut self)
        requires
            old(self)@.len() > 0,
        ensures
            final(self)@ == old(self)@.drop_last(),
    {
        proof {
            assert(self@.len() == self.scopes@.len());
        }
        let _ = self.scopes.pop();
        proof {
            assert(self@ =~~= old(self)@.drop_last());
        }
    }

    /// Mark `name` in the innermost scope, if one is open.
    fn mark(&mut self, name: &String, defined: bool)
        ensures
            (RS { scopes: final(self)@, locals: Seq::empty() }) == sp_mark(
                (RS { scopes: old(self)@, locals: Seq::empty() }),
                name@,
                defined,
            ),
    {
        proof {
            assert(self@.len() == self.scopes@.len());
        }
        let n = self.scopes.len();
        if n == 0 {
            return ;
        }
        let found = scope_find(&self.scopes[n - 1], name, 0);
        proof {
            assert(self@[n - 1 as int] == scope_view(self.scopes@[n - 1 as int]@));
        }
        match found {
            Some(j) => {
                let sc: &mut Vec<(String, bool)> = &mut self.scopes[n - 1];
                proof {
                    assert(j < sc@.len());
                }
                let slot: &mut (String, bool) = &mut sc[j];
                slot.1 = defined;
                proof {
                    lemma_scope_get_find(scope_view(old(self).scopes@[n - 1 as int]@), name@, 0);
                    assert(scope_view(sc@) =~~= sp_scope_set(
                        scope_view(old(self).scopes@[n - 1 as int]@),
                        name@,
                        defined,
                    ));
                }
            },
            None => {
                let sc: &mut Vec<(String, bool)> = &mut self.scopes[n - 1];
                sc.push((name.clone(), defined));
                proof {
                    assert(scope_view(sc@) =~~= sp_scope_set(
                        scope_view(old(self).scopes@[n - 1 as int]@),
                        name@,
                        defined,
                    ));
                }
            },
        }
        proof {
            assert(self@ =~~= old(self)@.update(
                old(self)@.len() - 1,
                sp_scope_set(old(self)@.last(), name@, defined),
            ));
        }
    }

    /// Record the depth of occurrence `id` of `name` with the interpreter.
    fn resolve_local(&mut self, it: &mut Interpreter, name: &String, id: usize)
        ensures
            final(self)@ == old(self)@,
            rs_of(*final(self), *final(it)) == sp_resolve_local(
                rs_of(*old(self), *old(it)),
                name@,
                id as int,
            ),
            untouched(*final(it), *old(it)),
            old(it).wf() ==> final(it).wf(),
    {
        proof {
            assert(self@.len() == self.scopes@.len());
        }
        let r = self.find_scope(name, self.scopes.len());
        match r {
            Some(k) => {
                let depth = self.scopes.len() - 1 - k;
                it.resolve(id, #[verifier::truncate] (depth as u32));
            },
            None => {},
        }
    }

    /// The innermost scope declaring `name`, looking at scopes below `n`.
    fn find_scope(&self, name: &String, n: usize) -> (r: Option<usize>)
        requires
            n <= self@.len(),
        ensures
            match sp_find_scope(self@, name@, n - 1) {
                Some(k) => r is Some && r->0 as int == k && k < self@.len(),
                None => r is None,
            },
        decreases n,
    {
        proof {
            assert(self@.len() == self.scopes@.len());
        }
        if n == 0 {
            return None;
        }
        proof {
            assert(self@[n - 1 as int] == scope_view(self.scopes@[n - 1 as int]@));
            lemma_scope_get_find(self@[n - 1 as int], name@, 0);
        }
        match scope_find(&self.scopes[n - 1], name, 0) {
            Some(_) => Some(n - 1),
            None => self.find_scope(name, n - 1),
        }
    }
}

/// Resolving an expression keeps the scope depth.
pub proof fn lemma_rexpr_depth(st: RS, e: SpExpr)
    ensures
        sp_resolve_expr(st, e) matches RR::Done(rs) ==> rs.scopes.len() == st.scopes.len(),
    decreases e, 0int,
{
    match e {
        SpExpr::Assign { name, value, line, id } => {
            lemma_rexpr_depth(st, *value);
        },
        SpExpr::Grouping(inner) => {
            lemma_rexpr_depth(st, *inner);
        },
        SpExpr::Unary(_, rhs, _) => {
            lemma_rexpr_depth(st, *rhs);
        },
        SpExpr::Binary { lhs, op, rhs, line } => {
            lemma_rexpr_depth(st, *lhs);
            match sp_resolve_expr(st, *lhs) {
                RR::Done(st1) => lemma_rexpr_depth(st1, *rhs),
                _ => {},
            }
        },
        SpExpr::Logical { lhs, kw, rhs, line } => {
            lemma_rexpr_depth(st, *lhs);
            match sp_resolve_expr(st, *lhs) {
                RR::Done(st1) => lemma_rexpr_depth(st1, *rhs),
                _ => {},
            }
        },
        SpExpr::Call { callee, args, line } => {
            lemma_rexpr_depth(st, *callee);
            match sp_resolve_expr(st, *callee) {
                RR::Done(st1) => lemma_rexprs_depth(st1, args),
                _ => {},
            }
        },
        _ => {},
    }
}

pub proof fn lemma_rexprs_depth(st: RS, es: Seq<SpExpr>)
    ensures
        sp_resolve_exprs(st, es) matches RR::Done(rs) ==> rs.scopes.len() == st.scopes.len(),
    decreases es, 0int,
{
    if es.len() > 0 {
        lemma_rexpr_depth(st, es[0]);
        match sp_resolve_expr(st, es[0]) {
            RR::Done(st1) => lemma_rexprs_depth(st1, es.drop_first()),
            _ => {},
        }
    }
}

/// Resolving a statement keeps the scope depth: every scope it opens it
/// also closes.
pub proof fn lemma_rstmt_depth(st: RS, s: SpStmt)
    ensures
        sp_resolve_stmt(st, s) matches RR::Done(rs) ==> rs.scopes.len() == st.scopes.len(),
    decreases s, 0int,
{
    match s {
        SpStmt::Expr(e) => {
            lemma_rexpr_depth(st, e);
        },
        SpStmt::Print(e) => {
            lemma_rexpr_depth(st, e);
        },
        SpStmt::Return(e, _) => {
            match e {
                Some(e) => lemma_rexpr_depth(st, e),
                None => {},
            }
        },
        SpStmt::Var(name, init) => {
            match init {
                Some(e) => lemma_rexpr_depth(sp_mark(st, name, false), e),
                None => {},
            }
        },
        SpStmt::Block(ss) => {
            let st1 = RS { scopes: st.scopes.push(Seq::empty()), ..st };
            lemma_rstmts_depth(st1, ss);
        },
        SpStmt::If { condition, then, otherwise } => {
            lemma_rexpr_depth(st, condition);
            match sp_resolve_expr(st, condition) {
                RR::Done(st1) => {
                    lemma_rstmt_depth(st1, *then);
                    match sp_resolve_stmt(st1, *then) {
                        RR::Done(st2) => {
                            match otherwise {
                                Some(o) => lemma_rstmt_depth(st2, *o),
                                None => {},
                            }
                        },
                        _ => {},
                    }
                },
                _ => {},
            }
        },
        SpStmt::While(cond, body) => {
            lemma_rexpr_depth(st, cond);
            match sp_resolve_expr(st, cond) {
                RR::Done(st1) => lemma_rstmt_depth(st1, *body),
                _ => {},
            }
        },
        SpStmt::Function { name, params, body, line } => {
            let st1 = sp_mark(sp_mark(st, name, false), name, true);
            let st2 = RS { scopes: st1.scopes.push(Seq::empty()), ..st1 };
            lemma_rparams_depth(st2, params);
            let st3 = sp_mark_params(st2, params);
            lemma_rstmts_depth(st3, body);
        },
    }
}

pub proof fn lemma_rparams_depth(st: RS, params: Seq<Seq<char>>)
    ensures
        sp_mark_params(st, params).scopes.len() == st.scopes.len(),
    decreases params.len(),
{
    if params.len() > 0 {
        lemma_rparams_depth(
            sp_mark(sp_mark(st, params[0], false), params[0], true),
            params.drop_first(),
        );
    }
}

/// Marking parameters neither reads nor writes the depth table, and its
/// effect on the scopes does not depend on it.
pub proof fn lemma_mark_params_parts(st: RS, params: Seq<Seq<char>>)
    ensures
        sp_mark_params(st, params).locals == st.locals,
        sp_mark_params(st, params).scopes == sp_mark_params(
            (RS { scopes: st.scopes, locals: Seq::empty() }),
            params,
        ).scopes,
    decreases params.len(),
{
    if params.len() > 0 {
        let st1 = sp_mark(sp_mark(st, params[0], false), params[0], true);
        let base = RS { scopes: st.scopes, locals: Seq::<Option<u32>>::empty() };
        let base1 = sp_mark(sp_mark(base, params[0], false), params[0], true);
        assert(base1.scopes == st1.scopes);
        lemma_mark_params_parts(st1, params.drop_first());
        lemma_mark_params_parts(base1, params.drop_first());
        assert(sp_mark_params(base1, params.drop_first()).scopes == sp_mark_params(
            (RS { scopes: base1.scopes, locals: Seq::<Option<u32>>::empty() }),
            params.drop_first(),
        ).scopes);
    }
}

pub proof fn lemma_rstmts_depth(st: RS, ss: Seq<SpStmt>)
    ensures
        sp_resolve_stmts(st, ss) matches RR::Done(rs) ==> rs.scopes.len() == st.scopes.len(),
    decreases ss, 0int,
{
    if ss.len() > 0 {
        lemma_rstmt_depth(st, ss[0]);
        match sp_resolve_stmt(st, ss[0]) {
            RR::Done(st1) => lemma_rstmts_depth(st1, ss.drop_first()),
            _ => {},
        }
    }
}

impl Resolver {
    /// Resolve one expression, recording depths with the interpreter.
    pub fn resolve_expr(&mut self, it: &mut Interpreter, e: &Expr) -> (r: Result<(), LoxError>)
        ensures
            match sp_resolve_expr(rs_of(*old(self), *old(it)), e.deep_view()) {
                RR::Done(rs) => r is Ok && final(self)@ == rs.scopes && final(it)@.locals
                    == rs.locals,
                RR::Fail(m) => r is Err && r->Err_0 is Compile && r->Err_0->Compile_0@ == m,
            },
            untouched(*final(it), *old(it)),
            old(it).wf() ==> final(it).wf(),
        decreases e, 0int,
    {
        match e {
            Expr::Literal(_) => Ok(()),
            Expr::Variable { name, line, id } => {
                proof {
                    assert(self@.len() == self.scopes@.len());
                }
                let n = self.scopes.len();
                if n > 0 {
                    proof {
                        assert(self@[n - 1 as int] == scope_view(self.scopes@[n - 1 as int]@));
                    }
                    match scope_get(&self.scopes[n - 1], name) {
                        Some(false) => {
                            return Err(LoxError::Compile(MSG_OWN_INITIALIZER.to_owned()));
                        },
                        _ => {},
                    }
                }
                self.resolve_local(it, name, *id);
                Ok(())
            },
            Expr::Assign { name, value, line, id } => {
                match self.resolve_expr(it, value) {
                    Ok(()) => {},
                    Err(er) => {
                        return Err(er);
                    },
                }
                self.resolve_local(it, name, *id);
                Ok(())
            },
            Expr::Grouping(inner) => self.resolve_expr(it, inner),
            Expr::Unary(_, rhs, _) => self.resolve_expr(it, rhs),
            Expr::Binary { lhs, op, rhs, line } => {
                match self.resolve_expr(it, lhs) {
                    Ok(()) => {},
                    Err(er) => {
                        return Err(er);
                    },
                }
                self.resolve_expr(it, rhs)
            },
            Expr::Logical { lhs, kw, rhs, line } => {
                match self.resolve_expr(it, lhs) {
                    Ok(()) => {},
                    Err(er) => {
                        return Err(er);
                    },
                }
                self.resolve_expr(it, rhs)
            },
            Expr::Call { callee, args, line } => {
                match self.resolve_expr(it, callee) {
                    Ok(()) => {},
                    Err(er) => {
                        return Err(er);
                    },
                }
                proof {
                    assert(decreases_to!(*e => e->Call_args));
                    assert(decreases_to!(*args => args@));
                    crate::ast::lemma_exprs_view_index(args@);
                    assert(crate::ast::exprs_view(args@).subrange(0, args@.len() as int)
                        =~= crate::ast::exprs_view(args@));
                }
                self.resolve_exprs(it, args, 0)
            },
        }
    }

    /// Resolve the expressions from position `i` on.
    fn resolve_exprs(&mut self, it: &mut Interpreter, es: &Vec<Expr>, i: usize) -> (r: Result<
        (),
        LoxError,
    >)
        requires
            i <= es@.len(),
        ensures
            match sp_resolve_exprs(
                rs_of(*old(self), *old(it)),
                crate::ast::exprs_view(es@).subrange(i as int, es@.len() as int),
            ) {
                RR::Done(rs) => r is Ok && final(self)@ == rs.scopes && final(it)@.locals
                    == rs.locals,
                RR::Fail(m) => r is Err && r->Err_0 is Compile && r->Err_0->Compile_0@ == m,
            },
            untouched(*final(it), *old(it)),
            old(it).wf() ==> final(it).wf(),
        decreases es@, es@.len() - i,
    {
        proof {
            crate::ast::lemma_exprs_view_index(es@);
        }
        let ghost suffix = crate::ast::exprs_view(es@).subrange(i as int, es@.len() as int);
        if i == es.len() {
            return Ok(());
        }
        proof {
            assert(suffix[0] == es@[i as int].deep_view());
            assert(decreases_to!(es@ => es@[i as int]));
        }
        match self.resolve_expr(it, &es[i]) {
            Ok(()) => {},
            Err(er) => {
                return Err(er);
            },
        }
        proof {
            assert(suffix.drop_first() =~= crate::ast::exprs_view(es@).subrange(
                i + 1 as int,
                es@.len() as int,
            ));
        }
        self.resolve_exprs(it, es, i + 1)
    }

    /// Resolve one statement.
    pub fn resolve_stmt(&mut self, it: &mut Interpreter, s: &Stmt) -> (r: Result<(), LoxError>)
        ensures
            match sp_resolve_stmt(rs_of(*old(self), *old(it)), s.deep_view()) {
                RR::Done(rs) => r is Ok && final(self)@ == rs.scopes && final(it)@.locals
                    == rs.locals,
                RR::Fail(m) => r is Err && r->Err_0 is Compile && r->Err_0->Compile_0@ == m,
            },
            untouched(*final(it), *old(it)),
            old(it).wf() ==> final(it).wf(),
        decreases s, 0int,
    {
        match s {
            Stmt::Expr(e) => self.resolve_expr(it, e),
            Stmt::Print(e) => self.resolve_expr(it, e),
            Stmt::Return(e, _) => match e {
                Some(e) => self.resolve_expr(it, e),
                None => Ok(()),
            },
            Stmt::Var(name, init) => {
                self.mark(name, false);
                match init {
                    Some(e) => {
                        match self.resolve_expr(it, e) {
                            Ok(()) => {},
                            Err(er) => {
                                return Err(er);
                            },
                        }
                        self.mark(name, true);
                        Ok(())
                    },
                    None => {
                        self.mark(name, true);
                        Ok(())
                    },
                }
            },
            Stmt::Block(ss) => {
                self.begin_scope();
                proof {
                    assert(decreases_to!(*s => s->Block_0));
                    assert(decreases_to!(*ss => ss@));
                    crate::ast::lemma_stmts_view_index(ss@);
                    assert(stmts_view(ss@).subrange(0, ss@.len() as int) =~= stmts_view(ss@));
                }
                match self.resolve_stmts(it, ss, 0) {
                    Ok(()) => {
                        proof {
                            lemma_rstmts_depth(
                                (RS {
                                    scopes: old(self)@.push(Seq::empty()),
                                    locals: old(it)@.locals,
                                }),
                                stmts_view(ss@),
                            );
                            assert(self@.len() > 0);
                        }
                        self.end_scope();
                        Ok(())
                    },
                    Err(er) => Err(er),
                }
            },
            Stmt::If { condition, then, otherwise } => {
                match self.resolve_expr(it, condition) {
                    Ok(()) => {},
                    Err(er) => {
                        return Err(er);
                    },
                }
                match self.resolve_stmt(it, then) {
                    Ok(()) => {},
                    Err(er) => {
                        return Err(er);
                    },
                }
                match otherwise {
                    Some(o) => self.resolve_stmt(it, o),
                    None => Ok(()),
                }
            },
            Stmt::While(cond, body) => {
                match self.resolve_expr(it, cond) {
                    Ok(()) => {},
                    Err(er) => {
                        return Err(er);
                    },
                }
                self.resolve_stmt(it, body)
            },
            Stmt::Function { name, params, body, line } => {
                self.mark(name, false);
                self.mark(name, true);
                self.begin_scope();
                let ghost st2 = rs_of(*self, *it);
                proof {
                    crate::ast::lemma_vec_names_view(*params);
                    assert(names_view(params@).subrange(0, params@.len() as int) =~= names_view(
                        params@,
                    ));
                }
                self.mark_params(params, 0);
                proof {
                    lemma_mark_params_parts(st2, names_view(params@));
                    lemma_rparams_depth(st2, names_view(params@));
                    assert(self@ == sp_mark_params(st2, names_view(params@)).scopes);
                    assert(rs_of(*self, *it) == sp_mark_params(st2, names_view(params@)));
                    assert(decreases_to!(*s => s->Function_body));
                    assert(decreases_to!(*body => body@));
                    crate::ast::lemma_stmts_view_index(body@);
                    assert(stmts_view(body@).subrange(0, body@.len() as int) =~= stmts_view(
                        body@,
                    ));
                }
                let ghost st3 = rs_of(*self, *it);
                match self.resolve_stmts(it, body, 0) {
                    Ok(()) => {
                        proof {
                            lemma_rstmts_depth(st3, stmts_view(body@));
                            assert(self@.len() > 0);
                        }
                        self.end_scope();
                        Ok(())
                    },
                    Err(er) => Err(er),
                }
            },
        }
    }

    /// Declare and define every parameter from position `i` on.
    fn mark_params(&mut self, params: &Vec<String>, i: usize)
        requires
            i <= params@.len(),
        ensures
            (RS { scopes: final(self)@, locals: Seq::empty() }) == sp_mark_params(
                (RS { scopes: old(self)@, locals: Seq::empty() }),
                names_view(params@).subrange(i as int, params@.len() as int),
            ),
        decreases params@.len() - i,
    {
        proof {
            assert(names_view(params@).len() == params@.len());
        }
        let ghost suffix = names_view(params@).subrange(i as int, params@.len() as int);
        if i == params.len() {
            return ;
        }
        proof {
            assert(suffix[0] == params@[i as int]@);
        }
        self.mark(&params[i], false);
        self.mark(&params[i], true);
        proof {
            assert(suffix.drop_first() =~= names_view(params@).subrange(
                i + 1 as int,
                params@.len() as int,
            ));
        }
        self.mark_params(params, i + 1)
    }

    /// Resolve the statements from position `i` on.
    fn resolve_stmts(&mut self, it: &mut Interpreter, ss: &Vec<Stmt>, i: usize) -> (r: Result<
        (),
        LoxError,
    >)
        requires
            i <= ss@.len(),
        ensures
            match sp_resolve_stmts(
                rs_of(*old(self), *old(it)),
                stmts_view(ss@).subrange(i as int, ss@.len() as int),
            ) {
                RR::Done(rs) => r is Ok && final(self)@ == rs.scopes && final(it)@.locals
                    == rs.locals,
                RR::Fail(m) => r is Err && r->Err_0 is Compile && r->Err_0->Compile_0@ == m,
            },
            untouched(*final(it), *old(it)),
            old(it).wf() ==> final(it).wf(),
        decreases ss@, ss@.len() - i,
    {
        proof {
            crate::ast::lemma_stmts_view_index(ss@);
        }
        let ghost suffix = stmts_view(ss@).subrange(i as int, ss@.len() as int);
        if i == ss.len() {
            return Ok(());
        }
        proof {
            assert(suffix[0] == ss@[i as int].deep_view());
            assert(decreases_to!(ss@ => ss@[i as int]));
        }
        match self.resolve_stmt(it, &ss[i]) {
            Ok(()) => {},
            Err(er) => {
                return Err(er);
            },
        }
        proof {
            assert(suffix.drop_first() =~= stmts_view(ss@).subrange(
                i + 1 as int,
                ss@.len() as int,
            ));
        }
        self.resolve_stmts(it, ss, i + 1)
    }

    /// Resolve a whole program, stopping at the first fault.
    pub fn resolve(&mut self, it: &mut Interpreter, stmts: &Vec<Stmt>) -> (r: Result<(), LoxError>)
        ensures
            match sp_resolve_stmts(rs_of(*old(self), *old(it)), stmts_view(stmts@)) {
                RR::Done(rs) => r is Ok && final(self)@ == rs.scopes && final(it)@.locals
                    == rs.locals,
                RR::Fail(m) => r is Err && r->Err_0 is Compile && r->Err_0->Compile_0@ == m,
            },
            untouched(*final(it), *old(it)),
            old(it).wf() ==> final(it).wf(),
    {
        proof {
            crate::ast::lemma_stmts_view_index(stmts@);
            assert(stmts_view(stmts@).subrange(0, stmts@.len() as int) =~= stmts_view(stmts@));
        }
        self.resolve_stmts(it, stmts, 0)
    }
}

} // verus!
