//! Incremental-build core of a module bundler: a handle arena, the chunk
//! group graph built on it, the cache strategies that wrap the make and
//! compile phases, and the built-in loader interpretation.
pub mod arena;
pub mod binding;
pub mod cache;
pub mod chunk_group;
pub mod compilation;
pub mod loader;
pub mod runtime_module;

pub use binding::{
    children_iterable, get_chunk_group, get_runtime_chunk, parents_iterable, JsChunk, JsChunkGroup,
};
pub use cache::{new_cache, Cache};
pub use loader::{LoaderDispatcherPlugin, LoaderInterpreterPlugin};
pub use runtime_module::OnChunkLoadedRuntimeModule;
