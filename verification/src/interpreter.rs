//! The tree-walking evaluator. `sp_eval` / `sp_exec` give the exact
//! big-step semantics of expressions and statements over a mathematical
//! state: the frame store, the active frame, the lines printed so far, the
//! resolver's depth table, and the value the native clock reads. Evaluation
//! is step-indexed: every recursive step consumes one unit of fuel, and a
//! run that exhausts its fuel stops with a distinguished outcome.
//!
//! The executable `Interpreter` computes exactly what the specification
//! says, for every program and every fuel bound.
use vstd::prelude::*;

use crate::ast::{Expr, SpExpr, SpLit, SpStmt, Stmt, BinOp, Keyword, UnOp, names_view,
    lemma_vec_names_view, lemma_vec_stmts_view, stmts_view};
use crate::env::{Env, Frame, SpFrame, sp_assign, sp_assign_at, sp_define, sp_env_wf, sp_frame_get,
    sp_get, sp_get_at, sp_frame_set};
use crate::error::LoxError;
use crate::value::{Callable, Clock, Func, SpCallable, SpFunc, SpValue, Value, sp_add, sp_arity,
    sp_arity_message, sp_display, sp_div, sp_ge, sp_gt, sp_le, sp_lt, sp_mul, sp_neg, sp_sub,
    sp_truthy, sp_undefined_message, sp_value_eq};

verus! {

/// The mathematical state of a run: the frame store (frame 0 is the global
/// frame), the active frame, the output printed so far, the resolver's
/// depth for each variable-occurrence identity, and the seconds the native
/// clock reads.
#[verifier::ext_equal]
pub struct SpState {
    pub frames: Seq<SpFrame>,
    pub env: int,
    pub output: Seq<Seq<char>>,
    pub locals: Seq<Option<u32>>,
    pub clock: u64,
}

pub enum SpEval {
    Val(SpValue, SpState),
    Fail(Seq<char>, nat, SpState),
    Stop(SpState),
}

pub enum SpExec {
    Done(SpState),
    Ret(SpValue, SpState),
    Fail(Seq<char>, nat, SpState),
    Stop(SpState),
}

pub enum SpArgs {
    Vals(Seq<SpValue>, SpState),
    Fail(Seq<char>, nat, SpState),
    Stop(SpState),
}

pub const MSG_NOT_CALLABLE: &'static str = "Can only call functions and classes.";

/// Read a variable occurrence: through its resolved depth when the
/// resolver recorded one, else in the global frame.
pub open spec fn sp_lookup_var(st: SpState, name: Seq<char>, id: nat, line: nat) -> SpEval {
    let resolved = if id < st.locals.len() {
        st.locals[id as int]
    } else {
        None
    };
    match resolved {
        Some(d) => match sp_get_at(st.frames, st.env, d as nat, name) {
            Some(v) => SpEval::Val(v, st),
            None => SpEval::Fail(sp_undefined_message(name), line, st),
        },
        None => match sp_get(st.frames, 0, name) {
            Some(v) => SpEval::Val(v, st),
            None => SpEval::Fail(sp_undefined_message(name), line, st),
        },
    }
}

/// Write a variable occurrence: through its resolved depth when the
/// resolver recorded one, else in the global frame.
pub open spec fn sp_assign_var(
    st: SpState,
    name: Seq<char>,
    id: nat,
    line: nat,
    value: SpValue,
) -> SpEval {
    let resolved = if id < st.locals.len() {
        st.locals[id as int]
    } else {
        None
    };
    match resolved {
        Some(d) => match sp_assign_at(st.frames, st.env, d as nat, name, value) {
            Some(frames) => SpEval::Val(value, SpState { frames, ..st }),
            None => SpEval::Fail(sp_undefined_message(name), line, st),
        },
        None => match sp_assign(st.frames, 0, name, value) {
            Some(frames) => SpEval::Val(value, SpState { frames, ..st }),
            None => SpEval::Fail(sp_undefined_message(name), line, st),
        },
    }
}

/// Bind parameter names to argument values in order, later bindings
/// shadowing earlier ones.
pub open spec fn sp_bind(params: Seq<Seq<char>>, args: Seq<SpValue>) -> Seq<(Seq<char>, SpValue)>
    decreases params.len(),
{
    if params.len() == 0 || args.len() == 0 {
        Seq::empty()
    } else {
        sp_frame_set(
            sp_bind(params.drop_last(), args.drop_last()),
            params.last(),
            args.last(),
        )
    }
}

/// The result of a binary operator on two evaluated operands.
pub open spec fn sp_binop(op: BinOp, a: SpValue, b: SpValue) -> Result<SpValue, Seq<char>> {
    match op {
        BinOp::Sub => sp_sub(a, b),
        BinOp::Div => sp_div(a, b),
        BinOp::Mul => sp_mul(a, b),
        BinOp::Add => sp_add(a, b),
        BinOp::Gt => sp_gt(a, b),
        BinOp::GtEq => sp_ge(a, b),
        BinOp::Lt => sp_lt(a, b),
        BinOp::LtEq => sp_le(a, b),
        BinOp::Eq => Ok(SpValue::Bool(sp_value_eq(a, b))),
        BinOp::NotEq => Ok(SpValue::Bool(!sp_value_eq(a, b))),
    }
}

pub open spec fn sp_lit_value(l: SpLit) -> SpValue {
    match l {
        SpLit::Bool(b) => SpValue::Bool(b),
        SpLit::Nil => SpValue::Nil,
        SpLit::Num(n) => SpValue::Num(n),
        SpLit::Str(s) => SpValue::Str(s),
    }
}

/// Evaluate one expression.
pub open spec fn sp_eval(st: SpState, e: SpExpr, fuel: nat) -> SpEval
    decreases fuel,
{
    if fuel == 0 {
        SpEval::Stop(st)
    } else {
        match e {
            SpExpr::Literal(l) => SpEval::Val(sp_lit_value(l), st),
            SpExpr::Variable { name, line, id } => sp_lookup_var(st, name, id, line),
            SpExpr::Assign { name, value, line, id } => match sp_eval(st, *value, (fuel - 1) as nat) {
                SpEval::Val(v, st1) => sp_assign_var(st1, name, id, line, v),
                r => r,
            },
            SpExpr::Grouping(inner) => sp_eval(st, *inner, (fuel - 1) as nat),
            SpExpr::Unary(op, rhs, line) => match sp_eval(st, *rhs, (fuel - 1) as nat) {
                SpEval::Val(v, st1) => match op {
                    UnOp::Neg => match sp_neg(v) {
                        Ok(w) => SpEval::Val(w, st1),
                        Err(m) => SpEval::Fail(m, line, st1),
                    },
                    UnOp::Not => SpEval::Val(SpValue::Bool(!sp_truthy(v)), st1),
                },
                r => r,
            },
            SpExpr::Binary { lhs, op, rhs, line } => match sp_eval(st, *lhs, (fuel - 1) as nat) {
                SpEval::Val(a, st1) => match sp_eval(st1, *rhs, (fuel - 1) as nat) {
                    SpEval::Val(b, st2) => match sp_binop(op, a, b) {
                        Ok(v) => SpEval::Val(v, st2),
                        Err(m) => SpEval::Fail(m, line, st2),
                    },
                    r => r,
                },
                r => r,
            },
            SpExpr::Logical { lhs, kw, rhs, line } => match sp_eval(st, *lhs, (fuel - 1) as nat) {
                SpEval::Val(a, st1) => match kw {
                    Keyword::Or => if sp_truthy(a) {
                        SpEval::Val(a, st1)
                    } else {
                        sp_eval(st1, *rhs, (fuel - 1) as nat)
                    },
                    Keyword::And => if !sp_truthy(a) {
                        SpEval::Val(a, st1)
                    } else {
                        sp_eval(st1, *rhs, (fuel - 1) as nat)
                    },
                },
                r => r,
            },
            SpExpr::Call { callee, args, line } => match sp_eval(st, *callee, (fuel - 1) as nat) {
                SpEval::Val(c, st1) => if !(c is Call) {
                    SpEval::Fail(MSG_NOT_CALLABLE@, line, st1)
                } else {
                    match sp_eval_args(st1, args, (fuel - 1) as nat) {
                        SpArgs::Vals(vs, st2) => sp_call(st2, c, vs, line, (fuel - 1) as nat),
                        SpArgs::Fail(m, l, st2) => SpEval::Fail(m, l, st2),
                        SpArgs::Stop(st2) => SpEval::Stop(st2),
                    }
                },
                r => r,
            },
        }
    }
}

/// Evaluate a list of argument expressions, left to right.
pub open spec fn sp_eval_args(st: SpState, es: Seq<SpExpr>, fuel: nat) -> SpArgs
    decreases fuel,
{
    if fuel == 0 {
        SpArgs::Stop(st)
    } else if es.len() == 0 {
        SpArgs::Vals(Seq::empty(), st)
    } else {
        match sp_eval(st, es[0], (fuel - 1) as nat) {
            SpEval::Val(v, st1) => match sp_eval_args(st1, es.drop_first(), (fuel - 1) as nat) {
                SpArgs::Vals(vs, st2) => SpArgs::Vals(seq![v] + vs, st2),
                r => r,
            },
            SpEval::Fail(m, l, st1) => SpArgs::Fail(m, l, st1),
            SpEval::Stop(st1) => SpArgs::Stop(st1),
        }
    }
}

/// Invoke a callable value on evaluated arguments. A user function runs
/// its body in a fresh frame whose enclosing frame is the one the function
/// captured at its declaration; the active frame is restored afterwards on
/// every path.
pub open spec fn sp_call(
    st: SpState,
    callee: SpValue,
    args: Seq<SpValue>,
    line: nat,
    fuel: nat,
) -> SpEval
    decreases fuel,
{
    if fuel == 0 {
        SpEval::Stop(st)
    } else {
        match callee {
            SpValue::Call(c) => if args.len() != sp_arity(c) {
                SpEval::Fail(sp_arity_message(sp_arity(c), args.len()), line, st)
            } else {
                match c {
                    SpCallable::Native => SpEval::Val(SpValue::Num(crate::num::bits_of_seconds(st.clock)), st),
                    SpCallable::Func(f) => {
                        let frame = SpFrame {
                            entries: sp_bind(f.params, args),
                            enclosing: Some(f.closure as int),
                        };
                        let st1 = SpState {
                            frames: st.frames.push(frame),
                            env: st.frames.len() as int,
                            ..st
                        };
                        match sp_exec_seq(st1, f.body, (fuel - 1) as nat) {
                            SpExec::Done(st2) => SpEval::Val(
                                SpValue::Nil,
                                SpState { env: st.env, ..st2 },
                            ),
                            SpExec::Ret(v, st2) => SpEval::Val(v, SpState { env: st.env, ..st2 }),
                            SpExec::Fail(m, l, st2) => SpEval::Fail(
                                m,
                                l,
                                SpState { env: st.env, ..st2 },
                            ),
                            SpExec::Stop(st2) => SpEval::Stop(SpState { env: st.env, ..st2 }),
                        }
                    },
                }
            },
            _ => SpEval::Fail(MSG_NOT_CALLABLE@, line, st),
        }
    }
}

/// Execute one statement.
pub open spec fn sp_exec(st: SpState, s: SpStmt, fuel: nat) -> SpExec
    decreases fuel,
{
    if fuel == 0 {
        SpExec::Stop(st)
    } else {
        match s {
            SpStmt::Expr(e) => match sp_eval(st, e, (fuel - 1) as nat) {
                SpEval::Val(_, st1) => SpExec::Done(st1),
                SpEval::Fail(m, l, st1) => SpExec::Fail(m, l, st1),
                SpEval::Stop(st1) => SpExec::Stop(st1),
            },
            SpStmt::Print(e) => match sp_eval(st, e, (fuel - 1) as nat) {
                SpEval::Val(v, st1) => SpExec::Done(
                    SpState { output: st1.output.push(sp_display(v)), ..st1 },
                ),
                SpEval::Fail(m, l, st1) => SpExec::Fail(m, l, st1),
                SpEval::Stop(st1) => SpExec::Stop(st1),
            },
            SpStmt::Var(name, init) => match init {
                Some(e) => match sp_eval(st, e, (fuel - 1) as nat) {
                    SpEval::Val(v, st1) => SpExec::Done(
                        SpState { frames: sp_define(st1.frames, st1.env, name, v), ..st1 },
                    ),
                    SpEval::Fail(m, l, st1) => SpExec::Fail(m, l, st1),
                    SpEval::Stop(st1) => SpExec::Stop(st1),
                },
                None => SpExec::Done(
                    SpState { frames: sp_define(st.frames, st.env, name, SpValue::Nil), ..st },
                ),
            },
            SpStmt::Block(stmts) => {
                let frame = SpFrame { entries: Seq::empty(), enclosing: Some(st.env) };
                let st1 = SpState {
                    frames: st.frames.push(frame),
                    env: st.frames.len() as int,
                    ..st
                };
                sp_restore(st.env, sp_exec_seq(st1, stmts, (fuel - 1) as nat))
            },
            SpStmt::If { condition, then, otherwise } => match sp_eval(st, condition, (fuel - 1) as nat) {
                SpEval::Val(v, st1) => if sp_truthy(v) {
                    sp_exec(st1, *then, (fuel - 1) as nat)
                } else {
                    match otherwise {
                        Some(o) => sp_exec(st1, *o, (fuel - 1) as nat),
                        None => SpExec::Done(st1),
                    }
                },
                SpEval::Fail(m, l, st1) => SpExec::Fail(m, l, st1),
                SpEval::Stop(st1) => SpExec::Stop(st1),
            },
            SpStmt::While(cond, body) => match sp_eval(st, cond, (fuel - 1) as nat) {
                SpEval::Val(v, st1) => if sp_truthy(v) {
                    match sp_exec(st1, *body, (fuel - 1) as nat) {
                        SpExec::Done(st2) => sp_exec(st2, SpStmt::While(cond, body), (fuel - 1) as nat),
                        r => r,
                    }
                } else {
                    SpExec::Done(st1)
                },
                SpEval::Fail(m, l, st1) => SpExec::Fail(m, l, st1),
                SpEval::Stop(st1) => SpExec::Stop(st1),
            },
            SpStmt::Function { name, params, body, line } => {
                let f = SpValue::Call(
                    SpCallable::Func(
                        SpFunc { name, params, body, closure: st.env as nat },
                    ),
                );
                SpExec::Done(SpState { frames: sp_define(st.frames, st.env, name, f), ..st })
            },
            SpStmt::Return(e, line) => match e {
                Some(e) => match sp_eval(st, e, (fuel - 1) as nat) {
                    SpEval::Val(v, st1) => SpExec::Ret(v, st1),
                    SpEval::Fail(m, l, st1) => SpExec::Fail(m, l, st1),
                    SpEval::Stop(st1) => SpExec::Stop(st1),
                },
                None => SpExec::Ret(SpValue::Nil, st),
            },
        }
    }
}

/// Restore the active frame to `env` on every exit path of a block.
pub open spec fn sp_restore(env: int, r: SpExec) -> SpExec {
    match r {
        SpExec::Done(st) => SpExec::Done(SpState { env, ..st }),
        SpExec::Ret(v, st) => SpExec::Ret(v, SpState { env, ..st }),
        SpExec::Fail(m, l, st) => SpExec::Fail(m, l, SpState { env, ..st }),
        SpExec::Stop(st) => SpExec::Stop(SpState { env, ..st }),
    }
}

/// Execute a statement list in order; a return signal, an error or fuel
/// exhaustion cuts it short.
pub open spec fn sp_exec_seq(st: SpState, ss: Seq<SpStmt>, fuel: nat) -> SpExec
    decreases fuel,
{
    if fuel == 0 {
        SpExec::Stop(st)
    } else if ss.len() == 0 {
        SpExec::Done(st)
    } else {
        match sp_exec(st, ss[0], (fuel - 1) as nat) {
            SpExec::Done(st1) => sp_exec_seq(st1, ss.drop_first(), (fuel - 1) as nat),
            r => r,
        }
    }
}

/// What interrupts straight-line execution: a runtime failure with its
/// line, the internal return signal, or an exhausted step budget.
#[derive(Debug)]
pub enum Interrupt {
    Failure(String, u64),
    Return(Value),
    OutOfFuel,
}

/// The interpreter: the frame store, the active and global frame indices,
/// the resolver's depth table, the output printed so far, and the seconds
/// the clock read when the interpreter was made.
#[derive(Debug)]
pub struct Interpreter {
    pub frames: Env,
    pub env: usize,
    pub globals: usize,
    pub locals: Vec<Option<u32>>,
    pub output: Vec<String>,
    pub clock: u64,
}

impl View for Interpreter {
    type V = SpState;

    open spec fn view(&self) -> SpState {
        SpState {
            frames: self.frames@,
            env: self.env as int,
            output: names_view(self.output@),
            locals: self.locals@,
            clock: self.clock,
        }
    }
}

/// Relies on `std::time::SystemTime`: the seconds of the current Unix
/// time; a clock reading before the epoch comes back as zero.
#[verifier::external_body]
fn unix_seconds() -> u64 {
    match std::time::SystemTime::now().duration_since(std::time::SystemTime::UNIX_EPOCH) {
        Ok(d) => d.as_secs(),
        Err(_) => 0,
    }
}

/// An executable evaluation result agrees with a specification outcome.
pub open spec fn matches_eval(r: Result<Value, Interrupt>, s: SpState, sp: SpEval) -> bool {
    match sp {
        SpEval::Val(v, st) => r is Ok && r->Ok_0@ == v && s == st,
        SpEval::Fail(m, l, st) => r is Err && r->Err_0 is Failure && r->Err_0->Failure_0@ == m
            && r->Err_0->Failure_1 as nat == l && s == st,
        SpEval::Stop(st) => r is Err && r->Err_0 is OutOfFuel && s == st,
    }
}

pub open spec fn matches_exec(r: Result<(), Interrupt>, s: SpState, sp: SpExec) -> bool {
    match sp {
        SpExec::Done(st) => r is Ok && s == st,
        SpExec::Ret(v, st) => r is Err && r->Err_0 is Return && r->Err_0->Return_0@ == v && s
            == st,
        SpExec::Fail(m, l, st) => r is Err && r->Err_0 is Failure && r->Err_0->Failure_0@ == m
            && r->Err_0->Failure_1 as nat == l && s == st,
        SpExec::Stop(st) => r is Err && r->Err_0 is OutOfFuel && s == st,
    }
}

pub open spec fn matches_args(r: Result<Vec<Value>, Interrupt>, s: SpState, sp: SpArgs) -> bool {
    match sp {
        SpArgs::Vals(vs, st) => r is Ok && crate::value::values_view(r->Ok_0@) == vs && s == st,
        SpArgs::Fail(m, l, st) => r is Err && r->Err_0 is Failure && r->Err_0->Failure_0@ == m
            && r->Err_0->Failure_1 as nat == l && s == st,
        SpArgs::Stop(st) => r is Err && r->Err_0 is OutOfFuel && s == st,
    }
}

/// Every value of a list is valid for a store of `n` frames.
pub open spec fn sp_values_ok(vs: Seq<SpValue>, n: int) -> bool {
    forall|i: int| 0 <= i < vs.len() ==> crate::value::sp_value_ok(#[trigger] vs[i], n)
}

proof fn lemma_names_view_push(v: Seq<String>, s: String)
    ensures
        names_view(v.push(s)) == names_view(v).push(s@),
{
    assert(names_view(v.push(s)) =~= names_view(v).push(s@));
}

impl Interpreter {
    /// The interpreter's structural invariant: the chains of the store are
    /// acyclic, every captured frame exists, the active frame exists, and
    /// frame 0 is the global frame.
    pub open spec fn wf(&self) -> bool {
        &&& sp_env_wf(self.frames@)
        &&& crate::env::sp_frames_ok(self.frames@)
        &&& self.frames@.len() >= 1
        &&& (self.env as int) < self.frames@.len()
        &&& self.globals == 0
    }

    /// A fresh interpreter: one global frame holding the native `clock`,
    /// nothing printed, nothing resolved.
    pub fn new() -> (r: Interpreter)
        ensures
            r.wf(),
            r@.frames == sp_define(
                seq![SpFrame { entries: Seq::empty(), enclosing: None }],
                0,
                "clock"@,
                SpValue::Call(SpCallable::Native),
            ),
            r@.env == 0,
            r@.output == Seq::<Seq<char>>::empty(),
            r@.locals == Seq::<Option<u32>>::empty(),
    {
        let mut frames = Env::new();
        let name: String = "clock".to_owned();
        frames.define(0, &name, Value::Call(Callable::Native(Clock)));
        let r = Interpreter {
            frames,
            env: 0,
            globals: 0,
            locals: Vec::new(),
            output: Vec::new(),
            clock: unix_seconds(),
        };
        proof {
            assert(names_view(r.output@) =~= Seq::<Seq<char>>::empty());
        }
        r
    }

    /// The index of the global frame.
    pub fn globals(&self) -> (r: usize)
        ensures
            r == self.globals,
    {
        self.globals
    }

    /// Record the resolved depth of the variable occurrence with identity
    /// `id`, growing the table as needed.
    pub fn resolve(&mut self, id: usize, depth: u32)
        ensures
            final(self)@.locals == sp_record(old(self)@.locals, id as int, depth),
            final(self).frames == old(self).frames,
            final(self).env == old(self).env,
            final(self).globals == old(self).globals,
            final(self).output == old(self).output,
            final(self).clock == old(self).clock,
            old(self).wf() ==> final(self).wf(),
    {
        while self.locals.len() <= id
            invariant
                old(self)@.locals.len() <= self.locals@.len(),
                old(self)@.locals.len() > id ==> self.locals@.len() == old(self)@.locals.len(),
                old(self)@.locals.len() <= id ==> self.locals@.len() <= id + 1,
                self.locals@ =~= old(self)@.locals + Seq::new(
                    (self.locals@.len() - old(self)@.locals.len()) as nat,
                    |i: int| None::<u32>,
                ),
                self.frames == old(self).frames,
                self.env == old(self).env,
                self.globals == old(self).globals,
                self.output == old(self).output,
                self.clock == old(self).clock,
            decreases id + 1 - self.locals.len(),
        {
            self.locals.push(None);
            assert(self.locals@ =~= old(self)@.locals + Seq::new(
                (self.locals@.len() - old(self)@.locals.len()) as nat,
                |i: int| None::<u32>,
            ));
        }
        if id < self.locals.len() {
            let slot: &mut Option<u32> = &mut self.locals[id];
            *slot = Some(depth);
        }
        assert(self.locals@ =~= sp_record(old(self)@.locals, id as int, depth));
    }
}

pub fn lit_value(l: &crate::ast::Lit) -> (r: Value)
    ensures
        r@ == sp_lit_value(l@),
{
    match l {
        crate::ast::Lit::Bool(b) => Value::Bool(*b),
        crate::ast::Lit::Nil => Value::Nil,
        crate::ast::Lit::Num(n) => Value::Num(*n),
        crate::ast::Lit::Str(s) => Value::Str(s.clone()),
    }
}

impl Interpreter {
    /// Evaluate one expression: exactly what `sp_eval` says.
    pub fn evaluate(&mut self, e: &Expr, fuel: u64) -> (r: Result<Value, Interrupt>)
        requires
            old(self).wf(),
        ensures
            final(self).wf(),
            old(self)@.frames.len() <= final(self)@.frames.len(),
            matches_eval(r, final(self)@, sp_eval(old(self)@, e.deep_view(), fuel as nat)),
            r is Ok ==> crate::value::sp_value_ok(r->Ok_0@, final(self)@.frames.len() as int),
        decreases fuel, 0int,
    {
        if fuel == 0 {
            return Err(Interrupt::OutOfFuel);
        }
        match e {
            Expr::Literal(l) => Ok(lit_value(l)),
            Expr::Variable { name, line, id } => {
                let resolved: Option<u32> = if *id < self.locals.len() {
                    self.locals[*id]
                } else {
                    None
                };
                match resolved {
                    Some(d) => match self.frames.get_at(self.env, d, name) {
                        Some(v) => Ok(v),
                        None => Err(
                            Interrupt::Failure(crate::value::undefined_message(name), *line),
                        ),
                    },
                    None => match self.frames.get(0, name) {
                        Some(v) => Ok(v),
                        None => Err(
                            Interrupt::Failure(crate::value::undefined_message(name), *line),
                        ),
                    },
                }
            },
            Expr::Assign { name, value, line, id } => {
                let v = match self.evaluate(value, fuel - 1) {
                    Ok(v) => v,
                    Err(i) => {
                        return Err(i);
                    },
                };
                let resolved: Option<u32> = if *id < self.locals.len() {
                    self.locals[*id]
                } else {
                    None
                };
                match resolved {
                    Some(d) => {
                        if self.frames.assign_at(self.env, d, name, v.duplicate()) {
                            Ok(v)
                        } else {
                            Err(Interrupt::Failure(crate::value::undefined_message(name), *line))
                        }
                    },
                    None => {
                        if self.frames.assign(0, name, v.duplicate()) {
                            Ok(v)
                        } else {
                            Err(Interrupt::Failure(crate::value::undefined_message(name), *line))
                        }
                    },
                }
            },
            Expr::Grouping(inner) => self.evaluate(inner, fuel - 1),
            Expr::Unary(op, rhs, line) => {
                let v = match self.evaluate(rhs, fuel - 1) {
                    Ok(v) => v,
                    Err(i) => {
                        return Err(i);
                    },
                };
                match op {
                    UnOp::Neg => match v.neg() {
                        Ok(w) => Ok(w),
                        Err(m) => Err(Interrupt::Failure(m, *line)),
                    },
                    UnOp::Not => Ok(Value::Bool(!v.is_truthy())),
                }
            },
            Expr::Binary { lhs, op, rhs, line } => {
                let a = match self.evaluate(lhs, fuel - 1) {
                    Ok(v) => v,
                    Err(i) => {
                        return Err(i);
                    },
                };
                let b = match self.evaluate(rhs, fuel - 1) {
                    Ok(v) => v,
                    Err(i) => {
                        return Err(i);
                    },
                };
                let res = match op {
                    BinOp::Sub => a.sub(&b),
                    BinOp::Div => a.div(&b),
                    BinOp::Mul => a.mul(&b),
                    BinOp::Add => a.add(&b),
                    BinOp::Gt => a.gt(&b),
                    BinOp::GtEq => a.ge(&b),
                    BinOp::Lt => a.lt(&b),
                    BinOp::LtEq => a.le(&b),
                    BinOp::Eq => Ok(Value::Bool(a.equals(&b))),
                    BinOp::NotEq => Ok(Value::Bool(!a.equals(&b))),
                };
                match res {
                    Ok(v) => Ok(v),
                    Err(m) => Err(Interrupt::Failure(m, *line)),
                }
            },
            Expr::Logical { lhs, kw, rhs, line } => {
                let a = match self.evaluate(lhs, fuel - 1) {
                    Ok(v) => v,
                    Err(i) => {
                        return Err(i);
                    },
                };
                match kw {
                    Keyword::Or => if a.is_truthy() {
                        Ok(a)
                    } else {
                        self.evaluate(rhs, fuel - 1)
                    },
                    Keyword::And => if !a.is_truthy() {
                        Ok(a)
                    } else {
                        self.evaluate(rhs, fuel - 1)
                    },
                }
            },
            Expr::Call { callee, args, line } => {
                let c = match self.evaluate(callee, fuel - 1) {
                    Ok(v) => v,
                    Err(i) => {
                        return Err(i);
                    },
                };
                let c = match c {
                    Value::Call(_) => c,
                    _ => {
                        return Err(Interrupt::Failure(MSG_NOT_CALLABLE.to_owned(), *line));
                    },
                };
                proof {
                    crate::ast::lemma_exprs_view_index(args@);
                    assert(crate::ast::exprs_view(args@).subrange(
                        0,
                        args@.len() as int,
                    ) =~= crate::ast::exprs_view(args@));
                }
                let vs = match self.eval_args(args, 0, fuel - 1) {
                    Ok(vs) => vs,
                    Err(i) => {
                        return Err(i);
                    },
                };
                self.call_value(c, vs, *line, fuel - 1)
            },
        }
    }

    /// Evaluate the argument expressions from position `i` on, left to
    /// right: exactly what `sp_eval_args` says of that suffix.
    pub fn eval_args(&mut self, es: &Vec<Expr>, i: usize, fuel: u64) -> (r: Result<
        Vec<Value>,
        Interrupt,
    >)
        requires
            old(self).wf(),
            i <= es@.len(),
        ensures
            final(self).wf(),
            old(self)@.frames.len() <= final(self)@.frames.len(),
            matches_args(
                r,
                final(self)@,
                sp_eval_args(
                    old(self)@,
                    crate::ast::exprs_view(es@).subrange(i as int, es@.len() as int),
                    fuel as nat,
                ),
            ),
            r is Ok ==> sp_values_ok(
                crate::value::values_view(r->Ok_0@),
                final(self)@.frames.len() as int,
            ),
        decreases fuel, 0int,
    {
        proof {
            crate::ast::lemma_exprs_view_index(es@);
        }
        let ghost suffix = crate::ast::exprs_view(es@).subrange(i as int, es@.len() as int);
        if fuel == 0 {
            return Err(Interrupt::OutOfFuel);
        }
        if i == es.len() {
            let r: Vec<Value> = Vec::new();
            proof {
                assert(crate::value::values_view(r@) =~= Seq::<SpValue>::empty());
            }
            return Ok(r);
        }
        proof {
            assert(suffix[0] == es@[i as int].deep_view());
        }
        let v = match self.evaluate(&es[i], fuel - 1) {
            Ok(v) => v,
            Err(ir) => {
                return Err(ir);
            },
        };
        proof {
            assert(suffix.drop_first() =~= crate::ast::exprs_view(es@).subrange(
                i + 1 as int,
                es@.len() as int,
            ));
        }
        let mut rest = match self.eval_args(es, i + 1, fuel - 1) {
            Ok(vs) => vs,
            Err(ir) => {
                return Err(ir);
            },
        };
        let ghost tail = rest@;
        proof {
            assert(crate::value::sp_value_ok(v@, self@.frames.len() as int));
        }
        rest.insert(0, v);
        proof {
            assert(rest@ =~= seq![v] + tail);
            assert(crate::value::values_view(rest@) =~= seq![v@] + crate::value::values_view(
                tail,
            ));
            assert forall|j: int|
                0 <= j < crate::value::values_view(rest@).len() implies crate::value::sp_value_ok(
                #[trigger] crate::value::values_view(rest@)[j],
                self@.frames.len() as int,
            ) by {
                if j > 0 {
                    assert(crate::value::values_view(rest@)[j] == crate::value::values_view(
                        tail,
                    )[j - 1]);
                }
            }
        }
        Ok(rest)
    }

    /// Invoke a callable on evaluated arguments: exactly what `sp_call`
    /// says.
    pub fn call_value(&mut self, callee: Value, args: Vec<Value>, line: u64, fuel: u64) -> (r:
        Result<Value, Interrupt>)
        requires
            old(self).wf(),
            crate::value::sp_value_ok(callee@, old(self)@.frames.len() as int),
            sp_values_ok(crate::value::values_view(args@), old(self)@.frames.len() as int),
        ensures
            final(self).wf(),
            old(self)@.frames.len() <= final(self)@.frames.len(),
            matches_eval(
                r,
                final(self)@,
                sp_call(
                    old(self)@,
                    callee@,
                    crate::value::values_view(args@),
                    line as nat,
                    fuel as nat,
                ),
            ),
            r is Ok ==> crate::value::sp_value_ok(r->Ok_0@, final(self)@.frames.len() as int),
        decreases fuel, 0int,
    {
        proof {
            crate::value::lemma_vec_values_view(args);
        }
        if fuel == 0 {
            return Err(Interrupt::OutOfFuel);
        }
        let c = match callee {
            Value::Call(c) => c,
            other => {
                return Err(Interrupt::Failure(MSG_NOT_CALLABLE.to_owned(), line));
            },
        };
        let n = c.arity();
        if args.len() != n {
            return Err(
                Interrupt::Failure(crate::value::arity_message(n as u64, args.len() as u64), line),
            );
        }
        match c {
            Callable::Native(_) => Ok(Value::Num(crate::num::exec_bits_of_seconds(self.clock))),
            Callable::Func(f) => {
                let ghost st0 = self@;
                let new_env = self.frames.with_environment(f.closure);
                proof {
                    crate::ast::lemma_vec_names_view(f.params);
                }
                let mut k: usize = 0;
                #[verifier::loop_isolation(false)]
                while k < f.params.len()
                    invariant
                        k <= f.params.len(),
                        self.frames@.len() == st0.frames.len() + 1,
                        new_env as int == st0.frames.len(),
                        self.frames@ =~~= st0.frames.push(
                            SpFrame {
                                entries: sp_bind(
                                    f@.params.take(k as int),
                                    crate::value::values_view(args@).take(k as int),
                                ),
                                enclosing: Some(f.closure as int),
                            },
                        ),
                        self.env == old(self).env,
                        self.globals == old(self).globals,
                        self.locals == old(self).locals,
                        self.output == old(self).output,
                        self.clock == old(self).clock,
                        sp_env_wf(self.frames@),
                        crate::env::sp_frames_ok(self.frames@),
                    decreases f.params.len() - k,
                {
                    let ghost pre = self.frames@;
                    proof {
                        assert(crate::value::sp_value_ok(args@[k as int]@, self.frames@.len() as int));
                    }
                    self.frames.define(new_env, &f.params[k], args[k].duplicate());
                    proof {
                        assert(f@.params.take(k + 1 as int).drop_last() =~= f@.params.take(
                            k as int,
                        ));
                        assert(crate::value::values_view(args@).take(k + 1 as int).drop_last()
                            =~= crate::value::values_view(args@).take(k as int));
                        assert(f@.params.take(k + 1 as int).last() == f@.params[k as int]);
                        assert(sp_bind(
                            f@.params.take(k + 1 as int),
                            crate::value::values_view(args@).take(k + 1 as int),
                        ) == sp_frame_set(
                            sp_bind(
                                f@.params.take(k as int),
                                crate::value::values_view(args@).take(k as int),
                            ),
                            f@.params[k as int],
                            args@[k as int]@,
                        ));
                        assert(self.frames@ =~~= st0.frames.push(
                            SpFrame {
                                entries: sp_bind(
                                    f@.params.take(k + 1 as int),
                                    crate::value::values_view(args@).take(k + 1 as int),
                                ),
                                enclosing: Some(f.closure as int),
                            },
                        ));
                    }
                    k = k + 1;
                }
                proof {
                    assert(f@.params.take(f.params@.len() as int) =~= f@.params);
                    assert(crate::value::values_view(args@).take(f.params@.len() as int)
                        =~= crate::value::values_view(args@));
                }
                let r = self.execute_block(&f.body, new_env, fuel - 1);
                match r {
                    Ok(()) => Ok(Value::Nil),
                    Err(Interrupt::Return(v)) => Ok(v),
                    Err(i) => Err(i),
                }
            },
        }
    }
}

impl Interpreter {
    /// Execute one statement: exactly what `sp_exec` says.
    pub fn execute(&mut self, s: &Stmt, fuel: u64) -> (r: Result<(), Interrupt>)
        requires
            old(self).wf(),
        ensures
            final(self).wf(),
            old(self)@.frames.len() <= final(self)@.frames.len(),
            matches_exec(r, final(self)@, sp_exec(old(self)@, s.deep_view(), fuel as nat)),
            r is Err && r->Err_0 is Return ==> crate::value::sp_value_ok(
                r->Err_0->Return_0@,
                final(self)@.frames.len() as int,
            ),
        decreases fuel, 0int,
    {
        if fuel == 0 {
            return Err(Interrupt::OutOfFuel);
        }
        match s {
            Stmt::Expr(e) => match self.evaluate(e, fuel - 1) {
                Ok(_) => Ok(()),
                Err(i) => Err(i),
            },
            Stmt::Print(e) => {
                let v = match self.evaluate(e, fuel - 1) {
                    Ok(v) => v,
                    Err(i) => {
                        return Err(i);
                    },
                };
                let line = v.render();
                proof {
                    lemma_names_view_push(self.output@, line);
                }
                self.output.push(line);
                Ok(())
            },
            Stmt::Var(name, init) => {
                let v = match init {
                    Some(e) => match self.evaluate(e, fuel - 1) {
                        Ok(v) => v,
                        Err(i) => {
                            return Err(i);
                        },
                    },
                    None => Value::Nil,
                };
                self.frames.define(self.env, name, v);
                Ok(())
            },
            Stmt::Block(stmts) => {
                let new_env = self.frames.with_environment(self.env);
                self.execute_block(stmts, new_env, fuel - 1)
            },
            Stmt::If { condition, then, otherwise } => {
                let v = match self.evaluate(condition, fuel - 1) {
                    Ok(v) => v,
                    Err(i) => {
                        return Err(i);
                    },
                };
                if v.is_truthy() {
                    self.execute(then, fuel - 1)
                } else {
                    match otherwise {
                        Some(o) => self.execute(o, fuel - 1),
                        None => Ok(()),
                    }
                }
            },
            Stmt::While(cond, body) => {
                let v = match self.evaluate(cond, fuel - 1) {
                    Ok(v) => v,
                    Err(i) => {
                        return Err(i);
                    },
                };
                if v.is_truthy() {
                    match self.execute(body, fuel - 1) {
                        Ok(()) => self.execute(s, fuel - 1),
                        r => r,
                    }
                } else {
                    Ok(())
                }
            },
            Stmt::Function { name, params, body, line } => {
                let f = Func::new(name, params, body, self.env);
                self.frames.define(self.env, name, Value::Call(Callable::Func(f)));
                Ok(())
            },
            Stmt::Return(e, line) => match e {
                Some(e) => match self.evaluate(e, fuel - 1) {
                    Ok(v) => Err(Interrupt::Return(v)),
                    Err(i) => Err(i),
                },
                None => Err(Interrupt::Return(Value::Nil)),
            },
        }
    }

    /// Execute the statements from position `i` on, in order: exactly what
    /// `sp_exec_seq` says of that suffix.
    pub fn execute_from(&mut self, stmts: &Vec<Stmt>, i: usize, fuel: u64) -> (r: Result<
        (),
        Interrupt,
    >)
        requires
            old(self).wf(),
            i <= stmts@.len(),
        ensures
            final(self).wf(),
            old(self)@.frames.len() <= final(self)@.frames.len(),
            matches_exec(
                r,
                final(self)@,
                sp_exec_seq(
                    old(self)@,
                    stmts_view(stmts@).subrange(i as int, stmts@.len() as int),
                    fuel as nat,
                ),
            ),
            r is Err && r->Err_0 is Return ==> crate::value::sp_value_ok(
                r->Err_0->Return_0@,
                final(self)@.frames.len() as int,
            ),
        decreases fuel, 1int,
    {
        proof {
            crate::ast::lemma_stmts_view_index(stmts@);
        }
        let ghost suffix = stmts_view(stmts@).subrange(i as int, stmts@.len() as int);
        if fuel == 0 {
            return Err(Interrupt::OutOfFuel);
        }
        if i == stmts.len() {
            return Ok(());
        }
        proof {
            assert(suffix[0] == stmts@[i as int].deep_view());
        }
        match self.execute(&stmts[i], fuel - 1) {
            Ok(()) => {
                proof {
                    assert(suffix.drop_first() =~= stmts_view(stmts@).subrange(
                        i + 1 as int,
                        stmts@.len() as int,
                    ));
                }
                self.execute_from(stmts, i + 1, fuel - 1)
            },
            r => r,
        }
    }

    /// Execute a statement list on the frame `env_id`, restoring the
    /// previously active frame on every exit path.
    pub fn execute_block(&mut self, stmts: &Vec<Stmt>, env_id: usize, fuel: u64) -> (r: Result<
        (),
        Interrupt,
    >)
        requires
            old(self).wf(),
            env_id < old(self)@.frames.len(),
        ensures
            final(self).wf(),
            old(self)@.frames.len() <= final(self)@.frames.len(),
            final(self)@.env == old(self)@.env,
            matches_exec(
                r,
                final(self)@,
                sp_restore(
                    old(self)@.env,
                    sp_exec_seq(
                        SpState { env: env_id as int, ..old(self)@ },
                        stmts_view(stmts@),
                        fuel as nat,
                    ),
                ),
            ),
            r is Err && r->Err_0 is Return ==> crate::value::sp_value_ok(
                r->Err_0->Return_0@,
                final(self)@.frames.len() as int,
            ),
        decreases fuel, 2int,
    {
        let saved = self.env;
        self.env = env_id;
        proof {
            crate::ast::lemma_stmts_view_index(stmts@);
            assert(stmts_view(stmts@).subrange(0, stmts@.len() as int) =~= stmts_view(stmts@));
            assert(self@ =~~= SpState { env: env_id as int, ..old(self)@ });
        }
        let r = self.execute_from(stmts, 0, fuel);
        self.env = saved;
        r
    }

    /// Run a program's statements in order, from the current state:
    /// exactly what `sp_exec_seq` says, except that this outer boundary
    /// intercepts the return signal: a `return` at the top level ends the
    /// run normally, and the signal never escapes to a caller.
    pub fn interpret(&mut self, stmts: &Vec<Stmt>, fuel: u64) -> (r: Result<(), Interrupt>)
        requires
            old(self).wf(),
        ensures
            final(self).wf(),
            ({
                let sp = sp_exec_seq(old(self)@, stmts_view(stmts@), fuel as nat);
                match sp {
                    SpExec::Done(st) => r is Ok && final(self)@ == st,
                    SpExec::Ret(v, st) => r is Ok && final(self)@ == st,
                    SpExec::Fail(m, l, st) => r is Err && r->Err_0 is Failure
                        && r->Err_0->Failure_0@ == m && r->Err_0->Failure_1 as nat == l
                        && final(self)@ == st,
                    SpExec::Stop(st) => r is Err && r->Err_0 is OutOfFuel && final(self)@ == st,
                }
            }),
            r is Err ==> !(r->Err_0 is Return),
    {
        proof {
            crate::ast::lemma_stmts_view_index(stmts@);
            assert(stmts_view(stmts@).subrange(0, stmts@.len() as int) =~= stmts_view(stmts@));
        }
        match self.execute_from(stmts, 0, fuel) {
            Err(Interrupt::Return(_)) => Ok(()),
            r => r,
        }
    }
}

pub open spec fn eval_state(r: SpEval) -> SpState {
    match r {
        SpEval::Val(_, st) => st,
        SpEval::Fail(_, _, st) => st,
        SpEval::Stop(st) => st,
    }
}

pub open spec fn exec_state(r: SpExec) -> SpState {
    match r {
        SpExec::Done(st) => st,
        SpExec::Ret(_, st) => st,
        SpExec::Fail(_, _, st) => st,
        SpExec::Stop(st) => st,
    }
}

pub open spec fn args_state(r: SpArgs) -> SpState {
    match r {
        SpArgs::Vals(_, st) => st,
        SpArgs::Fail(_, _, st) => st,
        SpArgs::Stop(st) => st,
    }
}

/// Evaluating an expression leaves the active frame where it was, on
/// every exit path: blocks and calls restore it, and nothing else moves
/// it. The depth table and the clock are never written either.
pub proof fn lemma_eval_keeps_env(st: SpState, e: SpExpr, fuel: nat)
    ensures
        eval_state(sp_eval(st, e, fuel)).env == st.env,
        eval_state(sp_eval(st, e, fuel)).locals == st.locals,
        eval_state(sp_eval(st, e, fuel)).clock == st.clock,
    decreases fuel, 0int,
{
    if fuel > 0 {
        match e {
            SpExpr::Assign { name, value, line, id } => {
                lemma_eval_keeps_env(st, *value, (fuel - 1) as nat);
            },
            SpExpr::Grouping(inner) => {
                lemma_eval_keeps_env(st, *inner, (fuel - 1) as nat);
            },
            SpExpr::Unary(op, rhs, line) => {
                lemma_eval_keeps_env(st, *rhs, (fuel - 1) as nat);
            },
            SpExpr::Binary { lhs, op, rhs, line } => {
                lemma_eval_keeps_env(st, *lhs, (fuel - 1) as nat);
                match sp_eval(st, *lhs, (fuel - 1) as nat) {
                    SpEval::Val(_, st1) => lemma_eval_keeps_env(st1, *rhs, (fuel - 1) as nat),
                    _ => {},
                }
            },
            SpExpr::Logical { lhs, kw, rhs, line } => {
                lemma_eval_keeps_env(st, *lhs, (fuel - 1) as nat);
                match sp_eval(st, *lhs, (fuel - 1) as nat) {
                    SpEval::Val(_, st1) => lemma_eval_keeps_env(st1, *rhs, (fuel - 1) as nat),
                    _ => {},
                }
            },
            SpExpr::Call { callee, args, line } => {
                lemma_eval_keeps_env(st, *callee, (fuel - 1) as nat);
                match sp_eval(st, *callee, (fuel - 1) as nat) {
                    SpEval::Val(c, st1) => if c is Call {
                        lemma_args_keep_env(st1, args, (fuel - 1) as nat);
                        match sp_eval_args(st1, args, (fuel - 1) as nat) {
                            SpArgs::Vals(vs, st2) => {
                                lemma_call_keeps_env(st2, c, vs, line, (fuel - 1) as nat);
                            },
                            _ => {},
                        }
                    },
                    _ => {},
                }
            },
            _ => {},
        }
    }
}

pub proof fn lemma_args_keep_env(st: SpState, es: Seq<SpExpr>, fuel: nat)
    ensures
        args_state(sp_eval_args(st, es, fuel)).env == st.env,
        args_state(sp_eval_args(st, es, fuel)).locals == st.locals,
        args_state(sp_eval_args(st, es, fuel)).clock == st.clock,
    decreases fuel, 1int,
{
    if fuel > 0 && es.len() > 0 {
        lemma_eval_keeps_env(st, es[0], (fuel - 1) as nat);
        match sp_eval(st, es[0], (fuel - 1) as nat) {
            SpEval::Val(_, st1) => lemma_args_keep_env(st1, es.drop_first(), (fuel - 1) as nat),
            _ => {},
        }
    }
}

pub proof fn lemma_call_keeps_env(st: SpState, callee: SpValue, args: Seq<SpValue>, line: nat, fuel: nat)
    ensures
        eval_state(sp_call(st, callee, args, line, fuel)).env == st.env,
        eval_state(sp_call(st, callee, args, line, fuel)).locals == st.locals,
        eval_state(sp_call(st, callee, args, line, fuel)).clock == st.clock,
    decreases fuel, 2int,
{
    if fuel > 0 {
        match callee {
            SpValue::Call(SpCallable::Func(f)) => {
                if args.len() == f.params.len() {
                    let frame = SpFrame {
                        entries: sp_bind(f.params, args),
                        enclosing: Some(f.closure as int),
                    };
                    let st1 = SpState {
                        frames: st.frames.push(frame),
                        env: st.frames.len() as int,
                        ..st
                    };
                    lemma_exec_seq_keeps_env(st1, f.body, (fuel - 1) as nat);
                }
            },
            _ => {},
        }
    }
}

/// Executing a statement restores the active frame on every exit path:
/// normal completion, a return signal, a failure, or exhaustion.
pub proof fn lemma_exec_keeps_env(st: SpState, s: SpStmt, fuel: nat)
    ensures
        exec_state(sp_exec(st, s, fuel)).env == st.env,
        exec_state(sp_exec(st, s, fuel)).locals == st.locals,
        exec_state(sp_exec(st, s, fuel)).clock == st.clock,
    decreases fuel, 3int,
{
    if fuel > 0 {
        match s {
            SpStmt::Expr(e) => {
                lemma_eval_keeps_env(st, e, (fuel - 1) as nat);
            },
            SpStmt::Print(e) => {
                lemma_eval_keeps_env(st, e, (fuel - 1) as nat);
            },
            SpStmt::Var(name, init) => {
                match init {
                    Some(e) => lemma_eval_keeps_env(st, e, (fuel - 1) as nat),
                    None => {},
                }
            },
            SpStmt::Block(stmts) => {
                let frame = SpFrame { entries: Seq::empty(), enclosing: Some(st.env) };
                let st1 = SpState {
                    frames: st.frames.push(frame),
                    env: st.frames.len() as int,
                    ..st
                };
                lemma_exec_seq_keeps_env(st1, stmts, (fuel - 1) as nat);
            },
            SpStmt::If { condition, then, otherwise } => {
                lemma_eval_keeps_env(st, condition, (fuel - 1) as nat);
                match sp_eval(st, condition, (fuel - 1) as nat) {
                    SpEval::Val(v, st1) => {
                        if sp_truthy(v) {
                            lemma_exec_keeps_env(st1, *then, (fuel - 1) as nat);
                        } else {
                            match otherwise {
                                Some(o) => lemma_exec_keeps_env(st1, *o, (fuel - 1) as nat),
                                None => {},
                            }
                        }
                    },
                    _ => {},
                }
            },
            SpStmt::While(cond, body) => {
                lemma_eval_keeps_env(st, cond, (fuel - 1) as nat);
                match sp_eval(st, cond, (fuel - 1) as nat) {
                    SpEval::Val(v, st1) => {
                        if sp_truthy(v) {
                            lemma_exec_keeps_env(st1, *body, (fuel - 1) as nat);
                            match sp_exec(st1, *body, (fuel - 1) as nat) {
                                SpExec::Done(st2) => lemma_exec_keeps_env(
                                    st2,
                                    SpStmt::While(cond, body),
                                    (fuel - 1) as nat,
                                ),
                                _ => {},
                            }
                        }
                    },
                    _ => {},
                }
            },
            SpStmt::Return(e, line) => {
                match e {
                    Some(e) => lemma_eval_keeps_env(st, e, (fuel - 1) as nat),
                    None => {},
                }
            },
            SpStmt::Function { name, params, body, line } => {},
        }
    }
}

pub proof fn lemma_exec_seq_keeps_env(st: SpState, ss: Seq<SpStmt>, fuel: nat)
    ensures
        exec_state(sp_exec_seq(st, ss, fuel)).env == st.env,
        exec_state(sp_exec_seq(st, ss, fuel)).locals == st.locals,
        exec_state(sp_exec_seq(st, ss, fuel)).clock == st.clock,
    decreases fuel, 4int,
{
    if fuel > 0 && ss.len() > 0 {
        lemma_exec_keeps_env(st, ss[0], (fuel - 1) as nat);
        match sp_exec(st, ss[0], (fuel - 1) as nat) {
            SpExec::Done(st1) => lemma_exec_seq_keeps_env(st1, ss.drop_first(), (fuel - 1) as nat),
            _ => {},
        }
    }
}

/// When a whole program has run, the active frame is the global frame
/// again, whatever the program did and however the run ended: the only
/// environment frame still active is the root.
pub proof fn lemma_program_ends_on_global_frame(
    locals: Seq<Option<u32>>,
    clock: u64,
    prog: Seq<SpStmt>,
    fuel: nat,
)
    ensures
        exec_state(sp_exec_seq(crate::sp_initial_state(locals, clock), prog, fuel)).env == 0,
{
    lemma_exec_seq_keeps_env(crate::sp_initial_state(locals, clock), prog, fuel);
}

/// Double negation yields a boolean: `!!v` is exactly the truthiness of
/// the operand's value.
pub proof fn lemma_double_not(st: SpState, e: SpExpr, l1: nat, l2: nat, fuel: nat)
    requires
        sp_eval(st, e, fuel) is Val,
    ensures
        ({
            let v = sp_eval(st, e, fuel)->Val_0;
            let st1 = sp_eval(st, e, fuel)->Val_1;
            sp_eval(
                st,
                SpExpr::Unary(
                    UnOp::Not,
                    Box::new(SpExpr::Unary(UnOp::Not, Box::new(e), l1)),
                    l2,
                ),
                fuel + 2,
            ) == SpEval::Val(SpValue::Bool(sp_truthy(v)), st1)
        }),
{
    reveal_with_fuel(sp_eval, 3);
}

/// `or` and `and` return an operand, not a coerced boolean: `or` yields
/// the left value when it is truthy and otherwise whatever the right
/// operand evaluates to; `and` dually.
pub proof fn lemma_logical_returns_operand(
    st: SpState,
    lhs: SpExpr,
    rhs: SpExpr,
    line: nat,
    fuel: nat,
)
    requires
        fuel > 0,
        sp_eval(st, lhs, (fuel - 1) as nat) is Val,
    ensures
        ({
            let a = sp_eval(st, lhs, (fuel - 1) as nat)->Val_0;
            let st1 = sp_eval(st, lhs, (fuel - 1) as nat)->Val_1;
            &&& sp_truthy(a) ==> sp_eval(
                st,
                SpExpr::Logical { lhs: Box::new(lhs), kw: Keyword::Or, rhs: Box::new(rhs), line },
                fuel,
            ) == SpEval::Val(a, st1)
            &&& !sp_truthy(a) ==> sp_eval(
                st,
                SpExpr::Logical { lhs: Box::new(lhs), kw: Keyword::Or, rhs: Box::new(rhs), line },
                fuel,
            ) == sp_eval(st1, rhs, (fuel - 1) as nat)
            &&& !sp_truthy(a) ==> sp_eval(
                st,
                SpExpr::Logical { lhs: Box::new(lhs), kw: Keyword::And, rhs: Box::new(rhs), line },
                fuel,
            ) == SpEval::Val(a, st1)
            &&& sp_truthy(a) ==> sp_eval(
                st,
                SpExpr::Logical { lhs: Box::new(lhs), kw: Keyword::And, rhs: Box::new(rhs), line },
                fuel,
            ) == sp_eval(st1, rhs, (fuel - 1) as nat)
        }),
{
}

/// An arity mismatch fails with exactly the text
/// `Expected N arguments but got M.` for the declared and supplied counts.
pub proof fn lemma_arity_mismatch_message(
    st: SpState,
    c: SpCallable,
    args: Seq<SpValue>,
    line: nat,
    fuel: nat,
)
    requires
        fuel > 0,
        args.len() != sp_arity(c),
    ensures
        sp_call(st, SpValue::Call(c), args, line, fuel) == SpEval::Fail(
            "Expected "@ + crate::text::dec_digits(sp_arity(c)) + " arguments but got "@
                + crate::text::dec_digits(args.len()) + "."@,
            line,
            st,
        ),
{
}

/// Invoking a function value runs its body in a fresh frame whose
/// enclosing frame is the one the function captured at its declaration,
/// never the caller's active frame; the caller's frame is restored on
/// every exit path.
pub proof fn lemma_call_reads_captured_scope(
    st: SpState,
    f: SpFunc,
    args: Seq<SpValue>,
    line: nat,
    fuel: nat,
)
    requires
        fuel > 0,
        args.len() == f.params.len(),
    ensures
        ({
            let frame = SpFrame { entries: sp_bind(f.params, args), enclosing: Some(f.closure as int) };
            let st1 = SpState { frames: st.frames.push(frame), env: st.frames.len() as int, ..st };
            let body = sp_exec_seq(st1, f.body, (fuel - 1) as nat);
            &&& st1.frames.last().enclosing == Some(f.closure as int)
            &&& sp_call(st, SpValue::Call(SpCallable::Func(f)), args, line, fuel) == (match body {
                SpExec::Done(st2) => SpEval::Val(SpValue::Nil, SpState { env: st.env, ..st2 }),
                SpExec::Ret(v, st2) => SpEval::Val(v, SpState { env: st.env, ..st2 }),
                SpExec::Fail(m, l, st2) => SpEval::Fail(m, l, SpState { env: st.env, ..st2 }),
                SpExec::Stop(st2) => SpEval::Stop(SpState { env: st.env, ..st2 }),
            })
        }),
{
}

/// Declaring a variable and then reading the same name in the same scope
/// yields the value the initializer produced: either the occurrence is
/// resolved to the declaring scope itself, or both fall back to the
/// global frame.
pub proof fn lemma_var_then_read(
    st: SpState,
    name: Seq<char>,
    init: SpExpr,
    line: nat,
    id: nat,
    fuel: nat,
    fuel2: nat,
)
    requires
        fuel > 0,
        fuel2 > 0,
        sp_eval(st, init, (fuel - 1) as nat) is Val,
        sp_env_wf(eval_state(sp_eval(st, init, (fuel - 1) as nat)).frames),
        0 <= eval_state(sp_eval(st, init, (fuel - 1) as nat)).env < eval_state(
            sp_eval(st, init, (fuel - 1) as nat),
        ).frames.len(),
        ({
            let st1 = eval_state(sp_eval(st, init, (fuel - 1) as nat));
            ||| (id < st1.locals.len() && st1.locals[id as int] == Some(0u32))
            ||| ((id >= st1.locals.len() || st1.locals[id as int] is None) && st1.env == 0)
        }),
    ensures
        ({
            let v = sp_eval(st, init, (fuel - 1) as nat)->Val_0;
            let st2 = exec_state(sp_exec(st, SpStmt::Var(name, Some(init)), fuel));
            sp_eval(st2, SpExpr::Variable { name, line, id }, fuel2) == SpEval::Val(v, st2)
        }),
{
    let v = sp_eval(st, init, (fuel - 1) as nat)->Val_0;
    let st1 = eval_state(sp_eval(st, init, (fuel - 1) as nat));
    let st2 = exec_state(sp_exec(st, SpStmt::Var(name, Some(init)), fuel));
    assert(st2 == SpState { frames: sp_define(st1.frames, st1.env, name, v), ..st1 });
    crate::env::lemma_frame_get_set(st1.frames[st1.env].entries, name, v, name);
    assert(st2.frames == sp_define(st1.frames, st1.env, name, v));
    assert(st2.frames.len() == st1.frames.len());
    assert(st2.frames[st1.env].entries == crate::env::sp_frame_set(
        st1.frames[st1.env].entries,
        name,
        v,
    ));
    assert(crate::env::sp_frame_get(st2.frames[st1.env].entries, name) == Some(v));
    assert forall|i: int| 0 <= i < st2.frames.len() implies (#[trigger] st2.frames[i]).enclosing
        == st1.frames[i].enclosing by {
        if i != st1.env {
            assert(st2.frames[i] == st1.frames[i]);
        }
    }
    crate::env::lemma_wf_same_links(st1.frames, st2.frames);
    if id < st1.locals.len() && st1.locals[id as int] == Some(0u32) {
        assert(st2.env == st1.env);
        assert(crate::env::sp_ancestor(st2.frames, st2.env, 0) == Some(st2.env));
        assert(crate::env::sp_get_at(st2.frames, st2.env, 0, name) == Some(v));
    } else {
        assert(st1.env == 0);
        assert(crate::env::sp_frame_get(st2.frames[0].entries, name) == Some(v));
        assert(crate::env::sp_get(st2.frames, 0, name) == Some(v));
    }
}

/// Record a depth in the table, padding absent identities with `None`.
pub open spec fn sp_record(locals: Seq<Option<u32>>, id: int, depth: u32) -> Seq<Option<u32>> {
    if id < locals.len() {
        locals.update(id, Some(depth))
    } else {
        (locals + Seq::new((id + 1 - locals.len()) as nat, |i: int| None::<u32>)).update(id, Some(depth))
    }
}

} // verus!
