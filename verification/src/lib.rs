//! An embeddable builder for well-formed Lua source text.
//!
//! The crate offers an imperative construction API for nested function and
//! block scopes, local declarations, assignments and expressions, together
//! with a deterministic renderer that serializes the built tree into
//! correctly indented Lua text.

use vstd::prelude::*;

pub mod ast;
pub mod backend;
pub mod text;
pub mod render;
pub mod builder;
pub mod driver;
pub mod laws;

pub use ast::Call;
pub use backend::LuaCodegenBackend;
pub use backend::LuaContext;
pub use backend::LuaPassesCallback;
pub use backend::LuaPassesCallbacks;
pub use backend::ModuleBuffer;
pub use backend::ThinBuffer;
pub use render::Ident;
pub use builder::Context;
pub use builder::ExprBuilder;
pub use builder::StatBuilder;
pub use ast::ContextView;
pub use ast::Number;
pub use ast::Place;
pub use ast::Value;

verus! {

/// The one failure of the scope-stack API: closing a scope when none is open.
#[derive(Clone, Copy, Debug, PartialEq, Eq, Structural)]
pub enum Error {
    NoCurrentBlock,
}

impl Error {
    /// A human-readable description of the error.
    pub fn message(&self) -> (r: &'static str)
        ensures
            r@ == "Not currently generating a block"@,
    {
        "Not currently generating a block"
    }
}

} // verus!
