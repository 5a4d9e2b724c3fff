//! The expression abstraction: what every node of the syntax tree can do.
//!
//! A node can be evaluated, by walking the tree, and it can be lowered into
//! the backend's intermediate representation. The two are independent, so
//! that one tree serves both an interpreter and a compiler.
use crate::compiler::Compiler;
use crate::backend::{const_int_of, i64_type_of};
use crate::number::{integer_bits, twos_complement, Number};
use inkwell::context::Context;
use inkwell::values::{AnyValueEnum, IntValue};
use vstd::prelude::*;

verus! {

/// A value of the language.
#[derive(Debug, Clone, Copy)]
pub enum Expr {
    /// A number.
    Num(Number),
}

/// Why an evaluation failed. This says that the program could not be run,
/// never that it could not be lowered.
#[derive(Debug)]
pub struct EvalError {
    pub message: String,
}

/// What lowering a node gives.
#[derive(Debug, Clone, Copy)]
pub enum BackendValue<'ctx> {
    /// A handle to an integer value in the backend.
    Int(IntValue<'ctx>),
    /// A double-precision constant, by its IEEE-754 bit pattern, for the
    /// embedding program to hand to the backend.
    Double(u64),
    /// A handle to any other value in the backend.
    Other(AnyValueEnum<'ctx>),
}

impl Number {
    /// What a number lowers to in the context of a session: an integer to
    /// the constant, of the context's 64-bit integer type, that has the
    /// integer's bits in two's complement; a float to the double constant of
    /// exactly its bits. The kind follows the tag, and nothing is widened.
    pub open spec fn lowered<'ctx>(self, context: &'ctx Context) -> BackendValue<'ctx> {
        match self {
            Number::Integer(n) => BackendValue::Int(
                const_int_of(i64_type_of(context), twos_complement(n), true),
            ),
            Number::Float(bits) => BackendValue::Double(bits),
        }
    }
}

/// What every node of the syntax tree can do.
pub trait Expression {
    /// The value of a node that evaluates to itself, whatever the
    /// environment; `None` for a node whose value depends on it.
    open spec fn self_value(&self) -> Option<Expr> {
        None
    }

    /// Whether lowering the node may take the session from `before` to
    /// `after` and give `outcome`. A node kind says here what its lowering
    /// does; by default nothing is said.
    open spec fn lowering<'ctx>(
        &self,
        before: Compiler<'ctx>,
        after: Compiler<'ctx>,
        outcome: Result<BackendValue<'ctx>, String>,
    ) -> bool {
        true
    }

    /// Evaluates the node in `scope`. A self-evaluating node gives its own
    /// value.
    fn eval<R, S>(&self, runtime: &R, scope: &S) -> (r: Result<Expr, EvalError>)
        ensures
            self.self_value() matches Some(value) ==> r == Ok::<Expr, EvalError>(value),
    ;

    /// Lowers the node into the namespace that is current in `compiler`, and
    /// gives the resulting value or a diagnostic. A namespace must be
    /// selected. The registry keeps its namespaces, their keys and its
    /// selection, and no namespace but the current one is changed.
    fn code_gen<'ctx>(&self, compiler: &mut Compiler<'ctx>) -> (r: Result<
        BackendValue<'ctx>,
        String,
    >)
        requires
            old(compiler).wf(),
            old(compiler).has_current(),
        ensures
            final(compiler).wf(),
            old(compiler).confines(final(compiler)),
            self.lowering(*old(compiler), *final(compiler), r),
    ;
}

impl Expression for Number {
    open spec fn self_value(&self) -> Option<Expr> {
        Some(Expr::Num(*self))
    }

    /// A number lowers to the constant of its own kind and value, and leaves
    /// the session as it was.
    open spec fn lowering<'ctx>(
        &self,
        before: Compiler<'ctx>,
        after: Compiler<'ctx>,
        outcome: Result<BackendValue<'ctx>, String>,
    ) -> bool {
        &&& after == before
        &&& outcome == Ok::<BackendValue<'ctx>, String>(self.lowered(before.session_context()))
    }

    fn eval<R, S>(&self, runtime: &R, scope: &S) -> (r: Result<Expr, EvalError>) {
        Ok(Expr::Num(*self))
    }

    fn code_gen<'ctx>(&self, compiler: &mut Compiler<'ctx>) -> (r: Result<
        BackendValue<'ctx>,
        String,
    >) {
        match self {
            Number::Integer(n) => {
                let ty = compiler.context().i64_type();
                Ok(BackendValue::Int(ty.const_int(integer_bits(*n), true)))
            },
            Number::Float(bits) => Ok(BackendValue::Double(*bits)),
        }
    }
}

impl Expression for Expr {
    open spec fn self_value(&self) -> Option<Expr> {
        Some(*self)
    }

    open spec fn lowering<'ctx>(
        &self,
        before: Compiler<'ctx>,
        after: Compiler<'ctx>,
        outcome: Result<BackendValue<'ctx>, String>,
    ) -> bool {
        match *self {
            Expr::Num(n) => n.lowering(before, after, outcome),
        }
    }

    fn eval<R, S>(&self, runtime: &R, scope: &S) -> (r: Result<Expr, EvalError>) {
        match self {
            Expr::Num(n) => n.eval(runtime, scope),
        }
    }

    fn code_gen<'ctx>(&self, compiler: &mut Compiler<'ctx>) -> (r: Result<
        BackendValue<'ctx>,
        String,
    >) {
        match self {
            Expr::Num(n) => n.code_gen(compiler),
        }
    }
}

/// A number evaluates to itself, and so does the value it gives: evaluating
/// again changes nothing.
pub proof fn lemma_numbers_evaluate_to_themselves(n: Number)
    ensures
        n.self_value() == Some(Expr::Num(n)),
        Expr::Num(n).self_value() == n.self_value(),
{
}

} // verus!
