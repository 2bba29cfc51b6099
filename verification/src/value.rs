//! The value domain: booleans, nil, numbers (as IEEE-754 bit patterns),
//! strings, and callables. Callables are either the one native function
//! (the clock) or a user function closing over the environment frame that
//! was active at its declaration.
use vstd::prelude::*;

use crate::ast::{Stmt, SpStmt, names_view, stmts_view, lemma_vec_names_view, lemma_vec_stmts_view};
use crate::num;
use crate::text::dec_digits;
use crate::views::{clone_stmts, clone_names};

verus! {

/// The built-in zero-arity native function returning the current Unix time
/// in seconds.
#[derive(Clone, Copy, Debug)]
pub struct Clock;

/// A user function value: its display name, parameter names, body, and the
/// environment frame captured at its declaration.
#[derive(Debug)]
pub struct Func {
    pub name: String,
    pub params: Vec<String>,
    pub body: Vec<Stmt>,
    pub closure: usize,
}

pub struct SpFunc {
    pub name: Seq<char>,
    pub params: Seq<Seq<char>>,
    pub body: Seq<SpStmt>,
    pub closure: nat,
}

impl View for Func {
    type V = SpFunc;

    open spec fn view(&self) -> SpFunc {
        SpFunc {
            name: self.name@,
            params: names_view(self.params@),
            body: stmts_view(self.body@),
            closure: self.closure as nat,
        }
    }
}

impl Func {
    pub fn new(name: &String, params: &Vec<String>, body: &Vec<Stmt>, closure: usize) -> (r: Func)
        ensures
            r@ == (SpFunc {
                name: name@,
                params: names_view(params@),
                body: stmts_view(body@),
                closure: closure as nat,
            }),
    {
        proof {
            lemma_vec_names_view(*params);
            lemma_vec_stmts_view(*body);
        }
        let r = Func { name: name.clone(), params: clone_names(params), body: clone_stmts(body), closure };
        proof {
            lemma_vec_names_view(r.params);
            lemma_vec_stmts_view(r.body);
        }
        r
    }

    pub fn arity(&self) -> (r: usize)
        ensures
            r == self@.params.len(),
    {
        proof {
            lemma_vec_names_view(self.params);
        }
        self.params.len()
    }

    /// A copy with the same mathematical image.
    pub fn duplicate(&self) -> (r: Func)
        ensures
            r@ == self@,
    {
        Func::new(&self.name, &self.params, &self.body, self.closure)
    }
}

#[derive(Debug)]
pub enum Callable {
    Native(Clock),
    Func(Func),
}

pub enum SpCallable {
    Native,
    Func(SpFunc),
}

impl View for Callable {
    type V = SpCallable;

    open spec fn view(&self) -> SpCallable {
        match self {
            Callable::Native(_) => SpCallable::Native,
            Callable::Func(f) => SpCallable::Func(f@),
        }
    }
}

/// The arity of a callable: 0 for the native clock, the parameter count
/// for a user function.
pub open spec fn sp_arity(c: SpCallable) -> nat {
    match c {
        SpCallable::Native => 0,
        SpCallable::Func(f) => f.params.len(),
    }
}

impl Callable {
    pub fn arity(&self) -> (r: usize)
        ensures
            r == sp_arity(self@),
    {
        match self {
            Callable::Native(_) => 0,
            Callable::Func(f) => f.arity(),
        }
    }

    pub fn duplicate(&self) -> (r: Callable)
        ensures
            r@ == self@,
    {
        match self {
            Callable::Native(c) => Callable::Native(*c),
            Callable::Func(f) => Callable::Func(f.duplicate()),
        }
    }
}

#[derive(Debug)]
pub enum Value {
    Bool(bool),
    Nil,
    Call(Callable),
    Num(u64),
    Str(String),
}

pub enum SpValue {
    Bool(bool),
    Nil,
    Call(SpCallable),
    Num(u64),
    Str(Seq<char>),
}

impl View for Value {
    type V = SpValue;

    open spec fn view(&self) -> SpValue {
        match self {
            Value::Bool(b) => SpValue::Bool(*b),
            Value::Nil => SpValue::Nil,
            Value::Call(c) => SpValue::Call(c@),
            Value::Num(n) => SpValue::Num(*n),
            Value::Str(s) => SpValue::Str(s@),
        }
    }
}

impl DeepView for Value {
    type V = SpValue;

    open spec fn deep_view(&self) -> SpValue {
        self.view()
    }
}

/// The images of a sequence of values.
pub open spec fn values_view(v: Seq<Value>) -> Seq<SpValue> {
    v.map_values(|x: Value| x@)
}

pub proof fn lemma_vec_values_view(v: Vec<Value>)
    ensures
        v.deep_view() == values_view(v@),
{
    assert(v.deep_view() =~= values_view(v@));
}

/// A value is valid for a frame store of `n` frames when any environment
/// frame it captured exists in the store.
pub open spec fn sp_value_ok(v: SpValue, n: int) -> bool {
    match v {
        SpValue::Call(SpCallable::Func(f)) => f.closure < n,
        _ => true,
    }
}

pub const MSG_NUMBERS_OR_STRINGS: &'static str = "Operands must be two numbers or two strings.";

pub const MSG_TWO_NUMBERS: &'static str = "Operands must be numbers.";

pub const MSG_ONE_NUMBER: &'static str = "Operand must be a number.";

/// `+`: numeric addition on two numbers, concatenation on two strings,
/// a type error otherwise.
pub open spec fn sp_add(a: SpValue, b: SpValue) -> Result<SpValue, Seq<char>> {
    match (a, b) {
        (SpValue::Num(x), SpValue::Num(y)) => Ok(SpValue::Num(num::add_bits(x, y))),
        (SpValue::Str(x), SpValue::Str(y)) => Ok(SpValue::Str(x + y)),
        _ => Err(MSG_NUMBERS_OR_STRINGS@),
    }
}

pub open spec fn sp_sub(a: SpValue, b: SpValue) -> Result<SpValue, Seq<char>> {
    match (a, b) {
        (SpValue::Num(x), SpValue::Num(y)) => Ok(SpValue::Num(num::sub_bits(x, y))),
        _ => Err(MSG_TWO_NUMBERS@),
    }
}

pub open spec fn sp_mul(a: SpValue, b: SpValue) -> Result<SpValue, Seq<char>> {
    match (a, b) {
        (SpValue::Num(x), SpValue::Num(y)) => Ok(SpValue::Num(num::mul_bits(x, y))),
        _ => Err(MSG_TWO_NUMBERS@),
    }
}

pub open spec fn sp_div(a: SpValue, b: SpValue) -> Result<SpValue, Seq<char>> {
    match (a, b) {
        (SpValue::Num(x), SpValue::Num(y)) => Ok(SpValue::Num(num::div_bits(x, y))),
        _ => Err(MSG_TWO_NUMBERS@),
    }
}

pub open spec fn sp_neg(a: SpValue) -> Result<SpValue, Seq<char>> {
    match a {
        SpValue::Num(x) => Ok(SpValue::Num(num::f64_neg(x))),
        _ => Err(MSG_ONE_NUMBER@),
    }
}

pub open spec fn sp_lt(a: SpValue, b: SpValue) -> Result<SpValue, Seq<char>> {
    match (a, b) {
        (SpValue::Num(x), SpValue::Num(y)) => Ok(SpValue::Bool(num::f64_lt(x, y))),
        _ => Err(MSG_TWO_NUMBERS@),
    }
}

pub open spec fn sp_le(a: SpValue, b: SpValue) -> Result<SpValue, Seq<char>> {
    match (a, b) {
        (SpValue::Num(x), SpValue::Num(y)) => Ok(SpValue::Bool(num::f64_le(x, y))),
        _ => Err(MSG_TWO_NUMBERS@),
    }
}

pub open spec fn sp_gt(a: SpValue, b: SpValue) -> Result<SpValue, Seq<char>> {
    match (a, b) {
        (SpValue::Num(x), SpValue::Num(y)) => Ok(SpValue::Bool(num::f64_lt(y, x))),
        _ => Err(MSG_TWO_NUMBERS@),
    }
}

pub open spec fn sp_ge(a: SpValue, b: SpValue) -> Result<SpValue, Seq<char>> {
    match (a, b) {
        (SpValue::Num(x), SpValue::Num(y)) => Ok(SpValue::Bool(num::f64_le(y, x))),
        _ => Err(MSG_TWO_NUMBERS@),
    }
}

/// Structural equality across the value domain: different tags are never
/// equal, numbers compare by IEEE-754 equality, and callables equal nothing.
pub open spec fn sp_value_eq(a: SpValue, b: SpValue) -> bool {
    match (a, b) {
        (SpValue::Bool(x), SpValue::Bool(y)) => x == y,
        (SpValue::Nil, SpValue::Nil) => true,
        (SpValue::Num(x), SpValue::Num(y)) => num::f64_eq(x, y),
        (SpValue::Str(x), SpValue::Str(y)) => x == y,
        _ => false,
    }
}

/// Nil and false are falsy; every other value is truthy.
pub open spec fn sp_truthy(v: SpValue) -> bool {
    match v {
        SpValue::Nil => false,
        SpValue::Bool(b) => b,
        _ => true,
    }
}

/// How a value prints: numbers by `num_display`, strings as themselves,
/// user functions as `<fn NAME>` and the native function as `<native fn>`.
pub open spec fn sp_display(v: SpValue) -> Seq<char> {
    match v {
        SpValue::Bool(b) => if b {
            "true"@
        } else {
            "false"@
        },
        SpValue::Nil => "nil"@,
        SpValue::Num(n) => num::num_display(n),
        SpValue::Str(s) => s,
        SpValue::Call(SpCallable::Native) => "<native fn>"@,
        SpValue::Call(SpCallable::Func(f)) => "<fn "@ + f.name + ">"@,
    }
}

impl Value {
    pub fn add(&self, other: &Self) -> (r: Result<Value, String>)
        ensures
            match sp_add(self@, other@) {
                Ok(v) => r is Ok && r->Ok_0@ == v,
                Err(m) => r is Err && r->Err_0@ == m,
            },
    {
        match (self, other) {
            (Value::Num(a), Value::Num(b)) => Ok(Value::Num(num::exec_add_bits(*a, *b))),
            (Value::Str(a), Value::Str(b)) => Ok(Value::Str(a.clone().concat(b.as_str()))),
            _ => Err(MSG_NUMBERS_OR_STRINGS.to_owned()),
        }
    }

    pub fn sub(&self, other: &Self) -> (r: Result<Value, String>)
        ensures
            match sp_sub(self@, other@) {
                Ok(v) => r is Ok && r->Ok_0@ == v,
                Err(m) => r is Err && r->Err_0@ == m,
            },
    {
        match (self, other) {
            (Value::Num(a), Value::Num(b)) => Ok(Value::Num(num::exec_sub_bits(*a, *b))),
            _ => Err(MSG_TWO_NUMBERS.to_owned()),
        }
    }

    pub fn mul(&self, other: &Self) -> (r: Result<Value, String>)
        ensures
            match sp_mul(self@, other@) {
                Ok(v) => r is Ok && r->Ok_0@ == v,
                Err(m) => r is Err && r->Err_0@ == m,
            },
    {
        match (self, other) {
            (Value::Num(a), Value::Num(b)) => Ok(Value::Num(num::exec_mul_bits(*a, *b))),
            _ => Err(MSG_TWO_NUMBERS.to_owned()),
        }
    }

    pub fn div(&self, other: &Self) -> (r: Result<Value, String>)
        ensures
            match sp_div(self@, other@) {
                Ok(v) => r is Ok && r->Ok_0@ == v,
                Err(m) => r is Err && r->Err_0@ == m,
            },
    {
        match (self, other) {
            (Value::Num(a), Value::Num(b)) => Ok(Value::Num(num::exec_div_bits(*a, *b))),
            _ => Err(MSG_TWO_NUMBERS.to_owned()),
        }
    }

    pub fn neg(&self) -> (r: Result<Value, String>)
        ensures
            match sp_neg(self@) {
                Ok(v) => r is Ok && r->Ok_0@ == v,
                Err(m) => r is Err && r->Err_0@ == m,
            },
    {
        match self {
            Value::Num(a) => Ok(Value::Num(num::bits_neg(*a))),
            _ => Err(MSG_ONE_NUMBER.to_owned()),
        }
    }

    pub fn lt(&self, other: &Self) -> (r: Result<Value, String>)
        ensures
            match sp_lt(self@, other@) {
                Ok(v) => r is Ok && r->Ok_0@ == v,
                Err(m) => r is Err && r->Err_0@ == m,
            },
    {
        match (self, other) {
            (Value::Num(a), Value::Num(b)) => Ok(Value::Bool(num::bits_lt(*a, *b))),
            _ => Err(MSG_TWO_NUMBERS.to_owned()),
        }
    }

    pub fn le(&self, other: &Self) -> (r: Result<Value, String>)
        ensures
            match sp_le(self@, other@) {
                Ok(v) => r is Ok && r->Ok_0@ == v,
                Err(m) => r is Err && r->Err_0@ == m,
            },
    {
        match (self, other) {
            (Value::Num(a), Value::Num(b)) => Ok(Value::Bool(num::bits_le(*a, *b))),
            _ => Err(MSG_TWO_NUMBERS.to_owned()),
        }
    }

    pub fn gt(&self, other: &Self) -> (r: Result<Value, String>)
        ensures
            match sp_gt(self@, other@) {
                Ok(v) => r is Ok && r->Ok_0@ == v,
                Err(m) => r is Err && r->Err_0@ == m,
            },
    {
        match (self, other) {
            (Value::Num(a), Value::Num(b)) => Ok(Value::Bool(num::bits_lt(*b, *a))),
            _ => Err(MSG_TWO_NUMBERS.to_owned()),
        }
    }

    pub fn ge(&self, other: &Self) -> (r: Result<Value, String>)
        ensures
            match sp_ge(self@, other@) {
                Ok(v) => r is Ok && r->Ok_0@ == v,
                Err(m) => r is Err && r->Err_0@ == m,
            },
    {
        match (self, other) {
            (Value::Num(a), Value::Num(b)) => Ok(Value::Bool(num::bits_le(*b, *a))),
            _ => Err(MSG_TWO_NUMBERS.to_owned()),
        }
    }

    pub fn equals(&self, other: &Self) -> (r: bool)
        ensures
            r == sp_value_eq(self@, other@),
    {
        match (self, other) {
            (Value::Bool(a), Value::Bool(b)) => *a == *b,
            (Value::Nil, Value::Nil) => true,
            (Value::Num(a), Value::Num(b)) => num::bits_eq(*a, *b),
            (Value::Str(a), Value::Str(b)) => *a == *b,
            _ => false,
        }
    }

    pub fn is_truthy(&self) -> (r: bool)
        ensures
            r == sp_truthy(self@),
    {
        match self {
            Value::Nil => false,
            Value::Bool(b) => *b,
            _ => true,
        }
    }

    /// A copy with the same mathematical image.
    pub fn duplicate(&self) -> (r: Value)
        ensures
            r@ == self@,
    {
        match self {
            Value::Bool(b) => Value::Bool(*b),
            Value::Nil => Value::Nil,
            Value::Call(c) => Value::Call(c.duplicate()),
            Value::Num(n) => Value::Num(*n),
            Value::Str(s) => Value::Str(s.clone()),
        }
    }

    /// The display form of this value.
    pub fn render(&self) -> (r: String)
        ensures
            r@ == sp_display(self@),
    {
        match self {
            Value::Bool(b) => if *b {
                "true".to_owned()
            } else {
                "false".to_owned()
            },
            Value::Nil => "nil".to_owned(),
            Value::Num(n) => num::display_num_bits(*n),
            Value::Str(s) => s.clone(),
            Value::Call(Callable::Native(_)) => "<native fn>".to_owned(),
            Value::Call(Callable::Func(f)) => "<fn ".to_owned().concat(f.name.as_str()).concat(
                ">",
            ),
        }
    }
}

/// The arity-mismatch diagnostic: `Expected N arguments but got M.`.
pub open spec fn sp_arity_message(n: nat, m: nat) -> Seq<char> {
    "Expected "@ + dec_digits(n) + " arguments but got "@ + dec_digits(m) + "."@
}

/// The unknown-name diagnostic: `Undefined variable 'NAME'.`.
pub open spec fn sp_undefined_message(name: Seq<char>) -> Seq<char> {
    "Undefined variable '"@ + name + "'."@
}

pub fn arity_message(n: u64, m: u64) -> (r: String)
    ensures
        r@ == sp_arity_message(n as nat, m as nat),
{
    "Expected ".to_owned().concat(crate::text::dec_string(n).as_str()).concat(
        " arguments but got ",
    ).concat(crate::text::dec_string(m).as_str()).concat(".")
}

pub fn undefined_message(name: &String) -> (r: String)
    ensures
        r@ == sp_undefined_message(name@),
{
    "Undefined variable '".to_owned().concat(name.as_str()).concat("'.")
}

} // verus!
