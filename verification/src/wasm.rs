//! WebAssembly build of the engine.
use vstd::prelude::*;

verus! {

/// Version string of the WebAssembly engine.
pub fn thz_wasm_versao() -> (r: &'static str)
    ensures
        r@ == "0.4.0-WASM"@,
{
    "0.4.0-WASM"
}

} // verus!
