//! The runtime module that notifies callbacks once chunks have loaded.
use vstd::prelude::*;
use vstd::string::StringExecFns;

verus! {

/// A template-driven runtime module, known by a stable identifier.
pub struct OnChunkLoadedRuntimeModule {
    id: String,
}

impl OnChunkLoadedRuntimeModule {
    pub open spec fn spec_default_id() -> Seq<char> {
        "webpack/runtime/on_chunk_loaded"@
    }

    pub closed spec fn spec_id(&self) -> Seq<char> {
        self.id@
    }

    /// The identifier the module is rendered under.
    pub fn name(&self) -> (r: String)
        ensures
            r@ == self.spec_id(),
    {
        self.id.clone()
    }
}

impl Default for OnChunkLoadedRuntimeModule {
    fn default() -> (r: Self)
        ensures
            r.spec_id() == Self::spec_default_id(),
    {
        OnChunkLoadedRuntimeModule { id: String::from_str("webpack/runtime/on_chunk_loaded") }
    }
}

} // verus!
