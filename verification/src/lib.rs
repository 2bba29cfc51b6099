//! A tree-walking interpreter for a small dynamically typed scripting
//! language in the Lox family: a lexer with line tracking, a
//! recursive-descent parser, a lexical resolver, and an evaluator with a
//! lexically scoped, closure-capturing environment chain.
//!
//! Every stage is verified against a mathematical account of its work:
//! `sp_tokens` for the lexer, `sp_program` for the parser,
//! `sp_resolve_stmts` for the resolver and `sp_exec_seq` for the
//! evaluator. `sp_interpret` composes them, and `interpret` computes
//! exactly that, for some clock reading.
use vstd::prelude::*;

pub mod num;
pub mod text;
pub mod token;
pub mod scanner;
pub mod ast;
pub mod views;
pub mod value;
pub mod env;
pub mod error;
pub mod interpreter;
pub mod parser;
pub mod resolver;
pub mod printer;

use crate::ast::{SpStmt, Stmt, stmts_view};
use crate::error::{LoxError, SpError};
use crate::interpreter::{Interpreter, SpExec, SpState, sp_exec_seq};
use crate::parser::{Parser, SpParse, all_compile, compile_errors_view, sp_program};
use crate::resolver::{RR, RS, Resolver, sp_resolve_stmts};
use crate::scanner::{sp_tokens, tokenize};

verus! {

/// How a run ended: normally, with a failure, or out of steps.
#[derive(Debug)]
pub enum Halt {
    Done,
    Faulted(LoxError),
    OutOfFuel,
}

pub enum SpHalt {
    Done,
    Faulted(SpError),
    OutOfFuel,
}

impl View for Halt {
    type V = SpHalt;

    open spec fn view(&self) -> SpHalt {
        match self {
            Halt::Done => SpHalt::Done,
            Halt::Faulted(e) => SpHalt::Faulted(e@),
            Halt::OutOfFuel => SpHalt::OutOfFuel,
        }
    }
}

/// What a run produced: the lines printed to standard output, the
/// diagnostics for standard error, and how it ended.
#[derive(Debug)]
pub struct Interpretation {
    pub output: Vec<String>,
    pub diagnostics: Vec<String>,
    pub halt: Halt,
}

#[verifier::ext_equal]
pub struct SpInterpretation {
    pub output: Seq<Seq<char>>,
    pub diagnostics: Seq<Seq<char>>,
    pub halt: SpHalt,
}

impl View for Interpretation {
    type V = SpInterpretation;

    open spec fn view(&self) -> SpInterpretation {
        SpInterpretation {
            output: crate::ast::names_view(self.output@),
            diagnostics: crate::ast::names_view(self.diagnostics@),
            halt: self.halt@,
        }
    }
}

/// The statements and diagnostics the source parses to.
pub open spec fn sp_parse_source(src: Seq<char>, fuel: nat) -> SpParse {
    sp_program(sp_tokens(src, 0), 0, 0, fuel)
}

/// The state a run starts from: one global frame holding the native
/// clock, and the depth table the resolver produced.
pub open spec fn sp_initial_state(locals: Seq<Option<u32>>, clock: u64) -> SpState {
    SpState {
        frames: crate::env::sp_define(
            seq![crate::env::SpFrame { entries: Seq::empty(), enclosing: None }],
            0,
            "clock"@,
            crate::value::SpValue::Call(crate::value::SpCallable::Native),
        ),
        env: 0,
        output: Seq::empty(),
        locals,
        clock,
    }
}

/// The whole pipeline on a source text, for a given step budget and clock
/// reading: lex, parse, resolve, then run. Parse faults halt the run with
/// the last diagnostic, the earlier ones set aside; a resolver fault halts
/// it; a runtime fault carries its line. The return signal is intercepted
/// at the outer boundary: a `return` at the top level ends the run
/// normally, and the signal never reaches the host.
pub open spec fn sp_interpret(src: Seq<char>, fuel: nat, clock: u64) -> SpInterpretation {
    let parsed = sp_parse_source(src, fuel);
    if parsed.overflowed {
        SpInterpretation { output: Seq::empty(), diagnostics: Seq::empty(), halt: SpHalt::OutOfFuel }
    } else if parsed.errors.len() > 0 {
        SpInterpretation {
            output: Seq::empty(),
            diagnostics: parsed.errors.drop_last(),
            halt: SpHalt::Faulted(SpError::Compile(parsed.errors.last())),
        }
    } else {
        match sp_resolve_stmts(RS { scopes: Seq::empty(), locals: Seq::empty() }, parsed.stmts) {
            RR::Fail(m) => SpInterpretation {
                output: Seq::empty(),
                diagnostics: Seq::empty(),
                halt: SpHalt::Faulted(SpError::Compile(m)),
            },
            RR::Done(rs) => match sp_exec_seq(
                sp_initial_state(rs.locals, clock),
                parsed.stmts,
                fuel,
            ) {
                SpExec::Done(st) => SpInterpretation {
                    output: st.output,
                    diagnostics: Seq::empty(),
                    halt: SpHalt::Done,
                },
                SpExec::Ret(v, st) => SpInterpretation {
                    output: st.output,
                    diagnostics: Seq::empty(),
                    halt: SpHalt::Done,
                },
                SpExec::Fail(m, l, st) => SpInterpretation {
                    output: st.output,
                    diagnostics: Seq::empty(),
                    halt: SpHalt::Faulted(SpError::Runtime(m, l)),
                },
                SpExec::Stop(st) => SpInterpretation {
                    output: st.output,
                    diagnostics: Seq::empty(),
                    halt: SpHalt::OutOfFuel,
                },
            },
        }
    }
}

/// Lex and parse a source text: the statements that parsed, the
/// diagnostics collected, and whether the step budget ran out.
pub fn parse(source: &str, fuel: u64) -> (r: (Vec<Stmt>, Vec<LoxError>, bool))
    requires
        source@.len() < 0xffff_ffff_ffff_ffff,
    ensures
        ({
            let sp = sp_parse_source(source@, fuel as nat);
            &&& stmts_view(r.0@) == sp.stmts
            &&& compile_errors_view(r.1@) == sp.errors
            &&& r.2 == sp.overflowed
            &&& all_compile(r.1@)
        }),
{
    let tokens = tokenize(source);
    let mut parser = Parser::new(tokens);
    parser.parse(fuel)
}

/// Run a source text with the given step budget: exactly what
/// `sp_interpret` says, for the clock reading the interpreter took.
#[verifier::rlimit(100)]
pub fn interpret(source: &str, fuel: u64) -> (r: Interpretation)
    requires
        source@.len() < 0xffff_ffff_ffff_ffff,
    ensures
        exists|clock: u64| r@ == sp_interpret(source@, fuel as nat, clock),
{
    let (stmts, mut errors, overflowed) = parse(source, fuel);
    let ghost sp = sp_parse_source(source@, fuel as nat);
    proof {
        assert(overflowed == sp.overflowed);
        assert(compile_errors_view(errors@) == sp.errors);
        assert(all_compile(errors@));
    }
    if overflowed {
        let r = Interpretation {
            output: Vec::new(),
            diagnostics: Vec::new(),
            halt: Halt::OutOfFuel,
        };
        proof {
            assert(crate::ast::names_view(Seq::<String>::empty()) =~= Seq::<Seq<char>>::empty());
            assert(r@ =~~= sp_interpret(source@, fuel as nat, 0));
        }
        return r;
    }
    if errors.len() > 0 {
        let ghost all = errors@;
        proof {
            assert(all_compile(all));
        }
        let last = match errors.pop() {
            Some(e) => e,
            None => LoxError::Compile(String::new()),
        };
        let mut diagnostics: Vec<String> = Vec::new();
        let mut k: usize = 0;
        #[verifier::loop_isolation(false)]
        while k < errors.len()
            invariant
                k <= errors.len(),
                errors@ == all.drop_last(),
                crate::ast::names_view(diagnostics@) =~= compile_errors_view(errors@).subrange(
                    0,
                    k as int,
                ),
            decreases errors.len() - k,
        {
            diagnostics.push(errors[k].message());
            proof {
                assert(crate::ast::names_view(diagnostics@) =~= compile_errors_view(
                    errors@,
                ).subrange(0, k + 1 as int));
            }
            k = k + 1;
        }
        let r = Interpretation { output: Vec::new(), diagnostics, halt: Halt::Faulted(last) };
        proof {
            assert(compile_errors_view(errors@) =~= sp.errors.drop_last());
            assert(crate::ast::names_view(r.diagnostics@) =~= sp.errors.drop_last());
            assert(crate::ast::names_view(Seq::<String>::empty()) =~= Seq::<Seq<char>>::empty());
            assert(last == all[all.len() - 1]);
            assert((all[all.len() - 1]@) is Compile);
            assert(last@ is Compile);
            assert(last@->Compile_0 == sp.errors.last());
            assert(r@ =~~= sp_interpret(source@, fuel as nat, 0));
        }
        return r;
    }
    let mut interp = Interpreter::new();
    let ghost clock = interp.clock;
    let mut resolver = Resolver::new();
    match resolver.resolve(&mut interp, &stmts) {
        Err(e) => {
            let r = Interpretation {
                output: Vec::new(),
                diagnostics: Vec::new(),
                halt: Halt::Faulted(e),
            };
            proof {
                assert(crate::ast::names_view(Seq::<String>::empty())
                    =~= Seq::<Seq<char>>::empty());
                assert(r@ =~~= sp_interpret(source@, fuel as nat, clock));
            }
            r
        },
        Ok(()) => {
            proof {
                assert(interp@ =~~= sp_initial_state(interp@.locals, clock));
            }
            let result = interp.interpret(&stmts, fuel);
            let halt = match result {
                Ok(()) => Halt::Done,
                Err(crate::interpreter::Interrupt::Return(_)) => Halt::Done,
                Err(crate::interpreter::Interrupt::Failure(m, l)) => Halt::Faulted(
                    LoxError::Runtime(m, l),
                ),
                Err(crate::interpreter::Interrupt::OutOfFuel) => Halt::OutOfFuel,
            };
            let r = Interpretation { output: interp.output, diagnostics: Vec::new(), halt };
            proof {
                assert(crate::ast::names_view(Seq::<String>::empty())
                    =~= Seq::<Seq<char>>::empty());
                assert(r@ =~~= sp_interpret(source@, fuel as nat, clock));
            }
            r
        },
    }
}

} // verus!
