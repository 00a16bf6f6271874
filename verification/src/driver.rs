//! Host-facing helpers for a compiler driver that embeds the builder: the
//! sysroot choice and the target-cpu name. They work on the plain values the
//! host reads from its environment and session.

use vstd::prelude::*;
use vstd::pervasive::unreached;
use vstd::string::StringExecFns;

verus! {

/// The sysroot of the host toolchain: a rustup-style home and toolchain pair
/// joins to `<home>/toolchains/<toolchain>`; otherwise an explicitly given
/// sysroot is taken as it is. The caller must supply one of the two.
pub fn find_sysroot(home: Option<String>, toolchain: Option<String>, sysroot: Option<String>) -> (r:
    String)
    requires
        (home is Some && toolchain is Some) || sysroot is Some,
    ensures
        match (home, toolchain) {
            (Some(h), Some(t)) => r@ == h@ + "/toolchains/"@ + t@,
            _ => r@ == sysroot->Some_0@,
        },
{
    match (home, toolchain) {
        (Some(h), Some(t)) => {
            let joined = h.concat("/toolchains/");
            joined.concat(t.as_str())
        },
        _ => match sysroot {
            Some(s) => s,
            None => unreached(),
        },
    }
}

/// The target-cpu name as the code generator uses it. The name `native`
/// stands for the host machine and needs a lookup this crate does not make,
/// so it is left to the caller.
pub fn handle_native<'a>(name: &'a str) -> (r: &'a str)
    requires
        name@ != "native"@,
    ensures
        r@ == name@,
{
    name
}

/// The cpu the generated code is built for: the explicitly requested one if
/// any, otherwise the target's default.
pub fn target_cpu<'a>(requested: Option<&'a str>, default_cpu: &'a str) -> (r: &'a str)
    requires
        match requested {
            Some(n) => n@ != "native"@,
            None => default_cpu@ != "native"@,
        },
    ensures
        r@ == match requested {
            Some(n) => n@,
            None => default_cpu@,
        },
{
    match requested {
        Some(name) => handle_native(name),
        None => handle_native(default_cpu),
    }
}

} // verus!
