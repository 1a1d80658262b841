//! A gradual type-checker for a Starlark-like configuration language.
//!
//! The crate is organised bottom-up:
//! - [`codemap`] holds source spans;
//! - [`ty`] is the type algebra: `Ty` as a union of `TyBasic` variants, with
//!   `Any` and `Never` as the absorbing top and bottom, and the concrete
//!   runtime types described by `TyStarlarkValue` descriptors;
//! - [`ops`] names the operator pseudo-attributes;
//! - [`error`] holds the diagnostics: violations and approximations;
//! - [`oracle`] is the capability surface the checker queries for facts
//!   about concrete runtime types, and the validation routines built on it;
//! - [`lexer`] turns source text into tokens;
//! - [`syntax`] is the abstract syntax consumed from the parser and scope
//!   resolver;
//! - [`bindings`] collects, per binding slot, every expression that may flow
//!   into it, and holds the exported [`bindings::Interface`];
//! - [`ctx`] infers a type for every expression and accumulates diagnostics;
//! - [`typecheck`] drives a whole-module check;
//! - [`build_api`] models the value shapes of the build system that embeds
//!   the checker.

pub mod bindings;
pub mod build_api;
pub mod codemap;
pub mod ctx;
pub mod error;
pub mod lexer;
pub mod ops;
pub mod oracle;
pub mod syntax;
pub mod ty;
pub mod typecheck;

pub use codemap::Span;
pub use codemap::Spanned;
