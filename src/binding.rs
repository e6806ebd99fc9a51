//! Read-only projections of chunk groups for callers outside the core.
use vstd::prelude::*;

use crate::arena::Handle;
use crate::chunk_group::ChunkGroup;
use crate::compilation::{clone_name, Chunk, Compilation};

verus! {

/// A chunk as seen by a caller outside the core.
pub struct JsChunk {
    pub inner_ukey: u32,
    pub name: Option<String>,
}

impl JsChunk {
    pub open spec fn spec_from(c: Chunk) -> JsChunk {
        JsChunk { inner_ukey: c.ukey.index, name: c.name }
    }

    pub fn from_chunk(c: &Chunk) -> (r: JsChunk)
        ensures
            r == JsChunk::spec_from(*c),
    {
        JsChunk { inner_ukey: c.ukey.index, name: clone_name(&c.name) }
    }
}

/// A chunk group as seen by a caller outside the core.
pub struct JsChunkGroup {
    pub inner_ukey: u32,
    pub chunks: Vec<JsChunk>,
    pub index: Option<u32>,
    pub name: Option<String>,
    pub is_initial: bool,
}

impl JsChunkGroup {
    /// `self` shows group `cg` of `compilation`: its key, index, name and
    /// kind, and each of its chunks in order.
    pub open spec fn shows(&self, cg: ChunkGroup, compilation: Compilation) -> bool {
        &&& self.inner_ukey == cg.ukey.index
        &&& self.index == cg.index
        &&& self.name == cg.name
        &&& self.is_initial == cg.spec_is_initial()
        &&& self.chunks@.len() == cg.chunks@.len()
        &&& forall|k: int|
            0 <= k < cg.chunks@.len() ==> #[trigger] self.chunks@[k] == JsChunk::spec_from(
                compilation.chunk_by_ukey@[cg.chunks@[k].index as int],
            )
    }

    pub fn from_chunk_group(cg: &ChunkGroup, compilation: &Compilation) -> (r: Self)
        requires
            compilation.listed_chunks_known(*cg),
        ensures
            r.shows(*cg, *compilation),
    {
        let mut chunks: Vec<JsChunk> = Vec::new();
        let mut i: usize = 0;
        while i < cg.chunks.len()
            invariant
                i <= cg.chunks@.len(),
                compilation.listed_chunks_known(*cg),
                chunks@.len() == i,
                forall|k: int|
                    0 <= k < i ==> #[trigger] chunks@[k] == JsChunk::spec_from(
                        compilation.chunk_by_ukey@[cg.chunks@[k].index as int],
                    ),
            decreases cg.chunks@.len() - i,
        {
            let chunk = compilation.chunk_by_ukey.get(cg.chunks[i]);
            chunks.push(JsChunk::from_chunk(chunk));
            i += 1;
        }
        JsChunkGroup {
            chunks,
            index: cg.index,
            inner_ukey: cg.ukey.index,
            name: clone_name(&cg.name),
            is_initial: cg.is_initial(),
        }
    }
}

/// The handle of the group that `ukey` names in `compilation`.
pub open spec fn group_handle(ukey: u32, compilation: Compilation) -> Handle {
    Handle { arena: compilation.chunk_group_by_ukey.spec_id(), index: ukey }
}

/// The group that `ukey` names; `ukey` must name a group of the compilation.
pub fn chunk_group(ukey: u32, compilation: &Compilation) -> (r: &ChunkGroup)
    requires
        (ukey as int) < compilation.chunk_group_by_ukey.len(),
    ensures
        *r == compilation.chunk_group_by_ukey.group(group_handle(ukey, *compilation)),
{
    let h = Handle { arena: compilation.chunk_group_by_ukey.id(), index: ukey };
    compilation.chunk_group_by_ukey.get(h)
}

pub fn get_chunk_group(ukey: u32, compilation: &Compilation) -> (r: JsChunkGroup)
    requires
        compilation.wf(),
        (ukey as int) < compilation.chunk_group_by_ukey.len(),
    ensures
        r.shows(compilation.chunk_group_by_ukey.group(group_handle(ukey, *compilation)), *compilation),
{
    let cg = chunk_group(ukey, compilation);
    proof {
        assert(compilation.chunk_group_by_ukey.issued(group_handle(ukey, *compilation)));
    }
    JsChunkGroup::from_chunk_group(cg, compilation)
}

/// Projects each group of `keys`, in order.
fn project_groups(keys: &Vec<Handle>, compilation: &Compilation) -> (r: Vec<JsChunkGroup>)
    requires
        compilation.wf(),
        forall|k: int| 0 <= k < keys@.len() ==> compilation.chunk_group_by_ukey.issued(#[trigger] keys@[k]),
    ensures
        r@.len() == keys@.len(),
        forall|k: int|
            0 <= k < keys@.len() ==> (#[trigger] r@[k]).shows(
                compilation.chunk_group_by_ukey.group(keys@[k]),
                *compilation,
            ),
{
    let mut out: Vec<JsChunkGroup> = Vec::new();
    let mut i: usize = 0;
    while i < keys.len()
        invariant
            i <= keys@.len(),
            compilation.wf(),
            forall|k: int| 0 <= k < keys@.len() ==> compilation.chunk_group_by_ukey.issued(#[trigger] keys@[k]),
            out@.len() == i,
            forall|k: int|
                0 <= k < i ==> (#[trigger] out@[k]).shows(
                    compilation.chunk_group_by_ukey.group(keys@[k]),
                    *compilation,
                ),
        decreases keys@.len() - i,
    {
        let key = keys[i];
        assert(compilation.chunk_group_by_ukey.issued(keys@[i as int]));
        let cg = compilation.chunk_group_by_ukey.get(key);
        out.push(JsChunkGroup::from_chunk_group(cg, compilation));
        i += 1;
    }
    out
}

/// The parents of the group that `ukey` names, in their stored order.
pub fn parents_iterable(ukey: u32, compilation: &Compilation) -> (r: Vec<JsChunkGroup>)
    requires
        compilation.wf(),
        (ukey as int) < compilation.chunk_group_by_ukey.len(),
    ensures
        ({
            let parents = compilation.chunk_group_by_ukey.group(group_handle(ukey, *compilation)).parents@;
            &&& r@.len() == parents.len()
            &&& forall|k: int|
                0 <= k < parents.len() ==> (#[trigger] r@[k]).shows(
                    compilation.chunk_group_by_ukey.group(parents[k]),
                    *compilation,
                )
        }),
{
    let h = Handle { arena: compilation.chunk_group_by_ukey.id(), index: ukey };
    let parents = compilation.chunk_group_by_ukey.parents_of(h);
    project_groups(parents, compilation)
}

/// The children of the group that `ukey` names, in their stored order.
pub fn children_iterable(ukey: u32, compilation: &Compilation) -> (r: Vec<JsChunkGroup>)
    requires
        compilation.wf(),
        (ukey as int) < compilation.chunk_group_by_ukey.len(),
    ensures
        ({
            let children = compilation.chunk_group_by_ukey.group(group_handle(ukey, *compilation)).children@;
            &&& r@.len() == children.len()
            &&& forall|k: int|
                0 <= k < children.len() ==> (#[trigger] r@[k]).shows(
                    compilation.chunk_group_by_ukey.group(children[k]),
                    *compilation,
                )
        }),
{
    let h = Handle { arena: compilation.chunk_group_by_ukey.id(), index: ukey };
    let children = compilation.chunk_group_by_ukey.children_of(h);
    project_groups(children, compilation)
}

/// The runtime chunk of the entry group that `ukey` names; that group must
/// have one.
pub fn get_runtime_chunk(ukey: u32, compilation: &Compilation) -> (r: JsChunk)
    requires
        compilation.wf(),
        (ukey as int) < compilation.chunk_group_by_ukey.len(),
        compilation.chunk_group_by_ukey.spec_runtime_chunk(group_handle(ukey, *compilation)) is Some,
    ensures
        r == JsChunk::spec_from(
            compilation.chunk_by_ukey@[compilation.chunk_group_by_ukey.spec_runtime_chunk(
                group_handle(ukey, *compilation),
            )->Some_0.index as int],
        ),
{
    let h = Handle { arena: compilation.chunk_group_by_ukey.id(), index: ukey };
    proof {
        assert(compilation.chunks_known(compilation.chunk_group_by_ukey.group(h)));
    }
    let c = compilation.chunk_group_by_ukey.runtime_chunk_of(h).unwrap();
    JsChunk::from_chunk(compilation.chunk_by_ukey.get(c))
}

} // verus!
