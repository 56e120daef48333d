//! The Wasm engine as the service uses it: how it is set up, the names
//! under which host and guest meet, and the two calls into the engine
//! that only compute.

use crate::webload::ResolvedModule;
use vstd::prelude::*;

verus! {

/// The namespace of the host functions `output`, `input` and `print`.
pub const HOST_NAMESPACE: &'static str = "wotto";

/// The namespace of the host function `abort`.
pub const ABORT_NAMESPACE: &'static str = "env";

/// The name under which a guest exports its memory.
pub const MEMORY_EXPORT: &'static str = "memory";

/// How the engine of the service is set up.
#[derive(Debug, Clone, Copy, PartialEq, Eq)]
pub struct EngineOptions {
    /// Debug information is kept in compiled code.
    pub debug_info: bool,
    /// Backtraces of traps show the functions by name.
    pub backtrace_details: bool,
    /// Guests run as tasks that can be suspended.
    pub async_support: bool,
    /// Guests are interrupted at the ticks of the epoch.
    pub epoch_interruption: bool,
    /// Code is generated for speed.
    pub optimize_for_speed: bool,
}

/// The set-up of the service's engine: everything is on.
pub fn engine_options() -> (r: EngineOptions)
    ensures
        r == (EngineOptions {
            debug_info: true,
            backtrace_details: true,
            async_support: true,
            epoch_interruption: true,
            optimize_for_speed: true,
        }),
{
    EngineOptions {
        debug_info: true,
        backtrace_details: true,
        async_support: true,
        epoch_interruption: true,
        optimize_for_speed: true,
    }
}

/// An engine of the `wasmtime` crate.
#[verifier::external_type_specification]
#[verifier::external_body]
pub struct ExEngine(wasmtime::Engine);

/// A compiled module of the `wasmtime` crate.
#[verifier::external_type_specification]
#[verifier::external_body]
pub struct ExModule(wasmtime::Module);

/// Why the engine refuses to compile the bytes: the message of the error
/// that `wasmtime::Module::new` gives for them, or nothing where it
/// compiles them. It is for the engine to say what a module is; the same
/// engine says the same of the same bytes.
pub uninterp spec fn compile_failure(engine: wasmtime::Engine, bytes: Seq<u8>) -> Option<Seq<char>>;

/// Calls `wasmtime::Module::new`, which validates and compiles the bytes
/// for the engine; an error is handed back as its message. The contract
/// only gives the outcome its name.
#[verifier::external_body]
fn compile_with_wasmtime(engine: &wasmtime::Engine, bytes: &Vec<u8>) -> (r: Result<
    wasmtime::Module,
    String,
>)
    ensures
        match r {
            Ok(_) => compile_failure(*engine, bytes@) is None,
            Err(message) => compile_failure(*engine, bytes@) == Some(message@),
        },
{
    wasmtime::Module::new(engine, bytes).map_err(|e| e.to_string())
}

/// Compiles the bytes of a resolved module, which are there, for the
/// engine: the module's own bytes are what the engine is given, and its
/// answer is handed back as it is. It goes on to
/// `Service::load_web_module`.
pub fn compile_module(engine: &wasmtime::Engine, webmodule: &ResolvedModule) -> (r: Result<
    wasmtime::Module,
    String,
>)
    requires
        webmodule.content_of() is Some,
    ensures
        match r {
            Ok(_) => compile_failure(*engine, webmodule.content_of()->0) is None,
            Err(message) => compile_failure(*engine, webmodule.content_of()->0) == Some(
                message@,
            ),
        },
{
    compile_with_wasmtime(engine, webmodule.content().unwrap())
}

/// Calls `wasmtime::Engine::increment_epoch`: the epoch of the engine
/// moves on by one tick, at which guests with epoch interruption yield.
#[verifier::external_body]
pub fn increment_epoch(engine: &wasmtime::Engine) {
    engine.increment_epoch()
}

} // verus!
