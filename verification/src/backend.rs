//! The data side of the host-compiler integration. A host embeds the
//! builder as a code-generation backend; the handles below are what such a
//! host passes around. Their behaviour consists of implementations of the
//! host compiler's own traits, which live with the host (they need its
//! private crates); only the data stands here.

use vstd::prelude::*;

verus! {

/// The backend handle a host compiler constructs and drives.
#[derive(Clone, Copy, Debug)]
pub struct LuaCodegenBackend;

/// The per-module state the backend keeps while a module is generated.
pub struct LuaContext {}

/// A serialized module, as the host's link step sees it.
pub struct ModuleBuffer;

/// A serialized module in the host's thin-link form.
pub struct ThinBuffer;

/// Callbacks for a driver that always uses this backend.
pub struct LuaPassesCallback;

/// Callbacks for a driver that switches the backend on by flag.
pub struct LuaPassesCallbacks {
    /// Whether the driver routes code generation through this backend.
    pub use_lua: bool,
}

} // verus!
