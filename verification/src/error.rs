//! The interpreter's failure channel: compile diagnostics, runtime errors
//! carrying the line of the responsible token, and the internal return
//! signal that unwinds a function body to its call site.
use vstd::prelude::*;

use crate::value::{SpValue, Value};

verus! {

#[derive(Debug)]
pub enum LoxError {
    Compile(String),
    Runtime(String, u64),
    /// Internal control flow only: carries a return value up to the
    /// nearest call boundary, and never reaches a user.
    Return(Value),
}

pub enum SpError {
    Compile(Seq<char>),
    Runtime(Seq<char>, nat),
    Return(SpValue),
}

impl View for LoxError {
    type V = SpError;

    open spec fn view(&self) -> SpError {
        match self {
            LoxError::Compile(m) => SpError::Compile(m@),
            LoxError::Runtime(m, line) => SpError::Runtime(m@, *line as nat),
            LoxError::Return(v) => SpError::Return(v@),
        }
    }
}

impl LoxError {
    /// The diagnostic text of this failure.
    pub fn message(&self) -> (r: String)
        ensures
            r@ == sp_error_message(self@),
    {
        match self {
            LoxError::Compile(m) => m.clone(),
            LoxError::Runtime(m, _) => m.clone(),
            LoxError::Return(v) => "RET(".to_owned().concat(v.render().as_str()).concat(")"),
        }
    }
}

pub open spec fn sp_error_message(e: SpError) -> Seq<char> {
    match e {
        SpError::Compile(m) => m,
        SpError::Runtime(m, _) => m,
        SpError::Return(v) => "RET("@ + crate::value::sp_display(v) + ")"@,
    }
}

} // verus!
