//! A tree-walking interpreter for the Lox language, verified with Verus.
//!
//! Source text is scanned into tokens ([`scanner`]), parsed into a tree
//! ([`parser`]), resolved ([`resolver`]) and evaluated ([`interpreter`]).
//! Each stage is proved against a mathematical description of what it
//! computes: the scanner against [`scanner::scan`], the parser against the
//! productions of [`grammar`], the resolver against [`scoping`], and the
//! evaluator against the step function of [`semantics`].
//!
//! The evaluator is a step machine. It performs no I/O and no arithmetic
//! on numbers: a step that needs either hands the work to its host as an
//! [`machine::Action`], and the host hands the answer to the next step. A
//! host runs a program like this:
//!
//! ```text
//! let scanned = tokenize(&source);
//! let program = Parser::new(scanned.tokens).parse()?;
//! let mut resolver = Resolver::new();
//! resolver.resolve_statements(&program)?;
//! let mut interpreter = Interpreter::new(&program, resolver.locals);
//! let mut reply = None;
//! loop {
//!     match interpreter.interpret(reply.take(), budget) {
//!         Action::Continue => {}
//!         Action::Print(line) => println!("{}", line),
//!         Action::Ask(request) => reply = Some(answer(request)),
//!         Action::Done => break,
//!         Action::Fail(error) => return Err(error),
//!     }
//! }
//! ```
//!
//! What holds of the whole is stated and proved in [`laws`], [`progress`]
//! and [`construction`], and beside the functions that it is about.

pub mod text;
pub mod token;
pub mod scanner;
pub mod value;
pub mod ast;
pub mod copy;
pub mod grammar;
pub mod parser;
pub mod printer;
pub mod scoping;
pub mod resolver;
pub mod error;
pub mod environment;
pub mod heap;
pub mod machine;
pub mod semantics;
pub mod interpreter;
pub mod laws;
pub mod progress;
pub mod construction;
