//! The compilation: owner of the chunk arena and the chunk group graph.
use vstd::prelude::*;

use crate::arena::{Arena, Handle};
use crate::chunk_group::{ChunkGroup, ChunkGroupGraph, ChunkGroupKind};

verus! {

/// An output unit; the graph only needs its identity and optional name.
pub struct Chunk {
    pub ukey: Handle,
    pub name: Option<String>,
}

/// A copy of an optional name.
pub fn clone_name(name: &Option<String>) -> (r: Option<String>)
    ensures
        r == *name,
{
    match name {
        Some(s) => Some(s.clone()),
        None => None,
    }
}

pub struct Compilation {
    pub chunk_by_ukey: Arena<Chunk>,
    pub chunk_group_by_ukey: ChunkGroupGraph,
}

impl Compilation {
    /// Every chunk that group `g` lists is a chunk of this compilation.
    pub open spec fn listed_chunks_known(&self, g: ChunkGroup) -> bool {
        forall|k: int| 0 <= k < g.chunks@.len() ==> self.chunk_by_ukey.issued(#[trigger] g.chunks@[k])
    }

    /// Every chunk that group `g` lists, and its runtime chunk if it has one,
    /// is a chunk of this compilation.
    pub open spec fn chunks_known(&self, g: ChunkGroup) -> bool {
        &&& self.listed_chunks_known(g)
        &&& match g.kind {
            ChunkGroupKind::Entrypoint { runtime_chunk: Some(c) } => self.chunk_by_ukey.issued(c),
            _ => true,
        }
    }

    pub open spec fn wf(&self) -> bool {
        &&& self.chunk_group_by_ukey.wf()
        &&& self.chunk_by_ukey@.len() <= u32::MAX
        &&& forall|k: int|
            0 <= k < self.chunk_by_ukey@.len() ==> (#[trigger] self.chunk_by_ukey@[k]).ukey == (
            Handle { arena: self.chunk_by_ukey.spec_id(), index: k as u32 })
        &&& forall|h: Handle|
            self.chunk_group_by_ukey.issued(h) ==> self.chunks_known(
                #[trigger] self.chunk_group_by_ukey.group(h),
            )
    }

    /// `self` and `other` hold the same chunks and the same chunk group graph.
    pub open spec fn same(&self, other: Compilation) -> bool {
        &&& self.chunk_by_ukey.spec_id() == other.chunk_by_ukey.spec_id()
        &&& self.chunk_by_ukey@ == other.chunk_by_ukey@
        &&& self.chunk_group_by_ukey.same(other.chunk_group_by_ukey)
    }

    /// A copy of the compilation's chunks and chunk group graph.
    pub fn duplicate(&self) -> (r: Compilation)
        requires
            self.wf(),
        ensures
            r.wf(),
            r.same(*self),
    {
        let mut chunks: Arena<Chunk> = Arena::new(self.chunk_by_ukey.id());
        let mut i: usize = 0;
        while i < self.chunk_by_ukey.len()
            invariant
                self.wf(),
                i <= self.chunk_by_ukey@.len(),
                chunks.spec_id() == self.chunk_by_ukey.spec_id(),
                chunks@ == self.chunk_by_ukey@.subrange(0, i as int),
            decreases self.chunk_by_ukey@.len() - i,
        {
            let h = self.chunk_by_ukey.handle_at(i);
            let c = self.chunk_by_ukey.get(h);
            let copy = Chunk { ukey: c.ukey, name: clone_name(&c.name) };
            assert(copy == self.chunk_by_ukey@[i as int]);
            chunks.insert(copy);
            i += 1;
            assert(chunks@ == self.chunk_by_ukey@.subrange(0, i as int));
        }
        assert(chunks@ == self.chunk_by_ukey@.subrange(0, self.chunk_by_ukey@.len() as int));
        let groups = self.chunk_group_by_ukey.duplicate();
        let r = Compilation { chunk_by_ukey: chunks, chunk_group_by_ukey: groups };
        proof {
            assert(r.chunk_by_ukey@ == self.chunk_by_ukey@);
            assert(r.chunk_group_by_ukey.same(self.chunk_group_by_ukey));
            assert forall|h: Handle|
                r.chunk_group_by_ukey.issued(h) implies r.chunks_known(
                #[trigger] r.chunk_group_by_ukey.group(h),
            ) by {
                assert(self.chunk_group_by_ukey.issued(h));
                assert(r.chunk_group_by_ukey.group(h).same(self.chunk_group_by_ukey.group(h)));
                assert(self.chunks_known(self.chunk_group_by_ukey.group(h)));
            }
        }
        r
    }

    /// An empty compilation; chunks and groups get arenas of distinct ids.
    pub fn new() -> (r: Self)
        ensures
            r.wf(),
            r.chunk_by_ukey@.len() == 0,
            r.chunk_group_by_ukey.len() == 0,
            r.chunk_by_ukey.spec_id() != r.chunk_group_by_ukey.spec_id(),
    {
        Compilation { chunk_by_ukey: Arena::new(0), chunk_group_by_ukey: ChunkGroupGraph::new(1) }
    }

    pub fn add_chunk(&mut self, name: Option<String>) -> (h: Handle)
        requires
            old(self).wf(),
            old(self).chunk_by_ukey@.len() < u32::MAX,
        ensures
            final(self).wf(),
            h == old(self).chunk_by_ukey.next_handle(),
            final(self).chunk_by_ukey@ == old(self).chunk_by_ukey@.push(Chunk { ukey: h, name }),
            final(self).chunk_by_ukey.spec_id() == old(self).chunk_by_ukey.spec_id(),
            final(self).chunk_group_by_ukey == old(self).chunk_group_by_ukey,
    {
        let ukey = Handle { arena: self.chunk_by_ukey.id(), index: self.chunk_by_ukey.len() as u32 };
        let h = self.chunk_by_ukey.insert(Chunk { ukey, name });
        proof {
            self.lemma_chunks_still_known(*old(self));
        }
        h
    }

    pub fn add_entrypoint(&mut self, name: String, index: u32) -> (h: Handle)
        requires
            old(self).wf(),
            old(self).chunk_group_by_ukey.len() < u32::MAX,
        ensures
            final(self).wf(),
            h == old(self).chunk_group_by_ukey.arena().next_handle(),
            final(self).chunk_by_ukey == old(self).chunk_by_ukey,
            final(self).chunk_group_by_ukey.issued(h),
            final(self).chunk_group_by_ukey.group(h).name == Some(name),
            final(self).chunk_group_by_ukey.group(h).index == Some(index),
            final(self).chunk_group_by_ukey.group(h).chunks@ == Seq::<Handle>::empty(),
            final(self).chunk_group_by_ukey.group(h).parents@ == Seq::<Handle>::empty(),
            final(self).chunk_group_by_ukey.group(h).children@ == Seq::<Handle>::empty(),
            final(self).chunk_group_by_ukey.group(h).spec_is_initial(),
            final(self).chunk_group_by_ukey.spec_runtime_chunk(h) == None::<Handle>,
            final(self).chunk_group_by_ukey.len() == old(self).chunk_group_by_ukey.len() + 1,
            final(self).chunk_group_by_ukey.spec_id() == old(self).chunk_group_by_ukey.spec_id(),
            forall|g: Handle|
                old(self).chunk_group_by_ukey.issued(g) ==> final(self).chunk_group_by_ukey.group(g)
                    == old(self).chunk_group_by_ukey.group(g),
    {
        let h = self.chunk_group_by_ukey.add_entrypoint(name, index);
        proof {
            assert(self.chunks_known(self.chunk_group_by_ukey.group(h)));
            self.lemma_chunks_still_known(*old(self));
        }
        h
    }

    /// Adds a group made by a dynamic import in group `parent`.
    pub fn add_async(&mut self, parent: Handle, name: Option<String>) -> (h: Handle)
        requires
            old(self).wf(),
            old(self).chunk_group_by_ukey.issued(parent),
            old(self).chunk_group_by_ukey.len() < u32::MAX,
        ensures
            final(self).wf(),
            h == old(self).chunk_group_by_ukey.arena().next_handle(),
            final(self).chunk_by_ukey == old(self).chunk_by_ukey,
            final(self).chunk_group_by_ukey.issued(h),
            final(self).chunk_group_by_ukey.group(h).name == name,
            final(self).chunk_group_by_ukey.group(h).index == None::<u32>,
            final(self).chunk_group_by_ukey.group(h).chunks@ == Seq::<Handle>::empty(),
            final(self).chunk_group_by_ukey.group(h).parents@ == seq![parent],
            final(self).chunk_group_by_ukey.has_child(parent, h),
            final(self).chunk_group_by_ukey.group(h).children@ == Seq::<Handle>::empty(),
            !final(self).chunk_group_by_ukey.group(h).spec_is_initial(),
            final(self).chunk_group_by_ukey.len() == old(self).chunk_group_by_ukey.len() + 1,
            final(self).chunk_group_by_ukey.spec_id() == old(self).chunk_group_by_ukey.spec_id(),
            forall|g: Handle|
                old(self).chunk_group_by_ukey.issued(g) && g != parent
                    ==> final(self).chunk_group_by_ukey.group(g).same(
                    old(self).chunk_group_by_ukey.group(g),
                ),
    {
        let h = self.chunk_group_by_ukey.add_async(parent, name);
        proof {
            assert(self.chunks_known(self.chunk_group_by_ukey.group(h)));
            assert(old(self).chunks_known(old(self).chunk_group_by_ukey.group(parent)));
            self.lemma_chunks_still_known(*old(self));
        }
        h
    }

    /// After a change that keeps the chunk arena's id and drops no chunk,
    /// every group still names known chunks when each group either does so
    /// outright or keeps the chunks and kind it had before.
    proof fn lemma_chunks_still_known(&self, before: Compilation)
        requires
            before.wf(),
            self.chunk_by_ukey.spec_id() == before.chunk_by_ukey.spec_id(),
            before.chunk_by_ukey@.len() <= self.chunk_by_ukey@.len(),
            forall|g: Handle|
                #![trigger self.chunk_group_by_ukey.group(g)]
                self.chunk_group_by_ukey.issued(g) ==> {
                    ||| self.chunks_known(self.chunk_group_by_ukey.group(g))
                    ||| {
                        &&& before.chunk_group_by_ukey.issued(g)
                        &&& self.chunk_group_by_ukey.group(g).chunks@
                            == before.chunk_group_by_ukey.group(g).chunks@
                        &&& self.chunk_group_by_ukey.group(g).kind
                            == before.chunk_group_by_ukey.group(g).kind
                    }
                },
        ensures
            forall|g: Handle|
                self.chunk_group_by_ukey.issued(g) ==> self.chunks_known(
                    #[trigger] self.chunk_group_by_ukey.group(g),
                ),
    {
        assert forall|g: Handle|
            self.chunk_group_by_ukey.issued(g) implies self.chunks_known(
            #[trigger] self.chunk_group_by_ukey.group(g),
        ) by {
            if !self.chunks_known(self.chunk_group_by_ukey.group(g)) {
                assert(before.chunks_known(before.chunk_group_by_ukey.group(g)));
            }
        }
    }

    /// Appends chunk `c` to group `g`.
    pub fn connect_chunk(&mut self, g: Handle, c: Handle)
        requires
            old(self).wf(),
            old(self).chunk_group_by_ukey.issued(g),
            old(self).chunk_by_ukey.issued(c),
        ensures
            final(self).wf(),
            final(self).chunk_by_ukey == old(self).chunk_by_ukey,
            final(self).chunk_group_by_ukey.spec_id() == old(self).chunk_group_by_ukey.spec_id(),
            final(self).chunk_group_by_ukey.len() == old(self).chunk_group_by_ukey.len(),
            final(self).chunk_group_by_ukey.group(g).chunks@ == old(self).chunk_group_by_ukey.group(g).chunks@.push(c),
            forall|x: Handle|
                old(self).chunk_group_by_ukey.issued(x) && x != g ==> final(self).chunk_group_by_ukey.group(x) == old(self).chunk_group_by_ukey.group(x),
            ({
                let (a, b) = (
                    final(self).chunk_group_by_ukey.group(g),
                    old(self).chunk_group_by_ukey.group(g),
                );
                &&& a.ukey == b.ukey
                &&& a.index == b.index
                &&& a.name == b.name
                &&& a.kind == b.kind
                &&& a.parents == b.parents
                &&& a.children == b.children
            }),
    {
        self.chunk_group_by_ukey.add_chunk(g, c);
        proof {
            assert(old(self).chunks_known(old(self).chunk_group_by_ukey.group(g)));
            assert(self.chunks_known(self.chunk_group_by_ukey.group(g)));
            self.lemma_chunks_still_known(*old(self));
        }
    }

    /// Designates chunk `c` as the runtime chunk of entry group `g`.
    pub fn set_runtime_chunk(&mut self, g: Handle, c: Handle)
        requires
            old(self).wf(),
            old(self).chunk_group_by_ukey.issued(g),
            old(self).chunk_group_by_ukey.group(g).spec_is_initial(),
            old(self).chunk_by_ukey.issued(c),
        ensures
            final(self).wf(),
            final(self).chunk_by_ukey == old(self).chunk_by_ukey,
            final(self).chunk_group_by_ukey.spec_id() == old(self).chunk_group_by_ukey.spec_id(),
            final(self).chunk_group_by_ukey.len() == old(self).chunk_group_by_ukey.len(),
            final(self).chunk_group_by_ukey.spec_runtime_chunk(g) == Some(c),
            forall|x: Handle|
                old(self).chunk_group_by_ukey.issued(x) && x != g ==> final(self).chunk_group_by_ukey.group(x) == old(self).chunk_group_by_ukey.group(x),
            ({
                let (a, b) = (
                    final(self).chunk_group_by_ukey.group(g),
                    old(self).chunk_group_by_ukey.group(g),
                );
                &&& a.ukey == b.ukey
                &&& a.chunks == b.chunks
                &&& a.index == b.index
                &&& a.name == b.name
                &&& a.kind is Entrypoint
                &&& a.parents == b.parents
                &&& a.children == b.children
            }),
    {
        self.chunk_group_by_ukey.set_runtime_chunk(g, c);
        proof {
            assert(old(self).chunks_known(old(self).chunk_group_by_ukey.group(g)));
            assert(self.chunks_known(self.chunk_group_by_ukey.group(g)));
            self.lemma_chunks_still_known(*old(self));
        }
    }

    /// Records the edge from group `parent` to group `child`.
    pub fn add_edge(&mut self, parent: Handle, child: Handle)
        requires
            old(self).wf(),
            old(self).chunk_group_by_ukey.issued(parent),
            old(self).chunk_group_by_ukey.issued(child),
            parent.index < child.index,
        ensures
            final(self).wf(),
            final(self).chunk_by_ukey == old(self).chunk_by_ukey,
            final(self).chunk_group_by_ukey.spec_id() == old(self).chunk_group_by_ukey.spec_id(),
            final(self).chunk_group_by_ukey.len() == old(self).chunk_group_by_ukey.len(),
            final(self).chunk_group_by_ukey.has_child(parent, child),
            final(self).chunk_group_by_ukey.has_parent(child, parent),
            forall|p: Handle, c: Handle|
                old(self).chunk_group_by_ukey.issued(p) && old(self).chunk_group_by_ukey.issued(c)
                    && !(p == parent && c == child) ==> (final(self).chunk_group_by_ukey.has_child(
                    p,
                    c,
                ) == old(self).chunk_group_by_ukey.has_child(p, c)),
            forall|g: Handle|
                #![trigger final(self).chunk_group_by_ukey.group(g)]
                old(self).chunk_group_by_ukey.issued(g) ==> {
                    &&& final(self).chunk_group_by_ukey.group(g).children@ == if g == parent
                        && !old(self).chunk_group_by_ukey.has_child(parent, child) {
                        old(self).chunk_group_by_ukey.group(g).children@.push(child)
                    } else {
                        old(self).chunk_group_by_ukey.group(g).children@
                    }
                    &&& final(self).chunk_group_by_ukey.group(g).parents@ == if g == child
                        && !old(self).chunk_group_by_ukey.has_child(parent, child) {
                        old(self).chunk_group_by_ukey.group(g).parents@.push(parent)
                    } else {
                        old(self).chunk_group_by_ukey.group(g).parents@
                    }
                    &&& final(self).chunk_group_by_ukey.group(g).ukey
                        == old(self).chunk_group_by_ukey.group(g).ukey
                    &&& final(self).chunk_group_by_ukey.group(g).chunks
                        == old(self).chunk_group_by_ukey.group(g).chunks
                    &&& final(self).chunk_group_by_ukey.group(g).index
                        == old(self).chunk_group_by_ukey.group(g).index
                    &&& final(self).chunk_group_by_ukey.group(g).name
                        == old(self).chunk_group_by_ukey.group(g).name
                    &&& final(self).chunk_group_by_ukey.group(g).kind
                        == old(self).chunk_group_by_ukey.group(g).kind
                },
            old(self).chunk_group_by_ukey.has_child(parent, child) ==> *final(self) == *old(self),
    {
        self.chunk_group_by_ukey.add_edge(parent, child);
        proof {
            self.lemma_chunks_still_known(*old(self));
        }
    }
}

/// Holding the same chunks and graph is transitive.
pub proof fn lemma_same_transitive(a: Compilation, b: Compilation, c: Compilation)
    requires
        a.same(b),
        b.same(c),
    ensures
        a.same(c),
{
    assert forall|h: Handle| #[trigger] a.chunk_group_by_ukey.issued(h) implies a.chunk_group_by_ukey.group(
        h,
    ).same(c.chunk_group_by_ukey.group(h)) by {
        assert(b.chunk_group_by_ukey.issued(h));
    }
}

} // verus!
