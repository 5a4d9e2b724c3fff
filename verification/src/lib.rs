//! The code-generation core of Serene, a small Lisp: numeric values, the
//! expression abstraction shared by every syntax node, namespaces, and the
//! compiler session that lowers top-level forms into LLVM values.
//!
//! The logic here is verified with Verus; what it takes on trust from the
//! LLVM binding is declared in [`backend`]. Floating-point numbers are held
//! by their IEEE-754 bit patterns, so that their semantics can be stated and
//! proved over integers.
pub mod backend;
pub mod compiler;
pub mod double;
pub mod error;
pub mod expression;
pub mod namespace;
pub mod number;

pub use compiler::{compile, create_context, try_compile, Compiler};
pub use error::Error;
pub use expression::{BackendValue, EvalError, Expr, Expression};
pub use namespace::Namespace;
pub use number::Number;
