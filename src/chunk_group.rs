//! Chunk groups and the parent/child graph between them.
use vstd::prelude::*;

use crate::arena::{Arena, Handle};

verus! {

/// What kind of chunk group a group is: an entry point, which may carry
/// the chunk that hosts its runtime, or a group made by a dynamic import.
pub enum ChunkGroupKind {
    Entrypoint { runtime_chunk: Option<Handle> },
    Normal,
}

/// A set of chunks loaded together.
pub struct ChunkGroup {
    pub ukey: Handle,
    pub chunks: Vec<Handle>,
    pub index: Option<u32>,
    pub name: Option<String>,
    pub kind: ChunkGroupKind,
    pub parents: Vec<Handle>,
    pub children: Vec<Handle>,
}

impl ChunkGroup {
    pub open spec fn spec_is_initial(&self) -> bool {
        self.kind is Entrypoint
    }

    pub fn is_initial(&self) -> (r: bool)
        ensures
            r == self.spec_is_initial(),
    {
        match self.kind {
            ChunkGroupKind::Entrypoint { .. } => true,
            ChunkGroupKind::Normal => false,
        }
    }

    pub fn name(&self) -> (r: &Option<String>)
        ensures
            *r == self.name,
    {
        &self.name
    }
}

impl ChunkGroupKind {
    pub fn duplicate(&self) -> (r: ChunkGroupKind)
        ensures
            r == *self,
    {
        match self {
            ChunkGroupKind::Entrypoint { runtime_chunk } => ChunkGroupKind::Entrypoint {
                runtime_chunk: *runtime_chunk,
            },
            ChunkGroupKind::Normal => ChunkGroupKind::Normal,
        }
    }
}

impl ChunkGroup {
    /// `self` and `other` hold the same key, chunks, index, name, kind and edges.
    pub open spec fn same(&self, other: ChunkGroup) -> bool {
        &&& self.ukey == other.ukey
        &&& self.chunks@ == other.chunks@
        &&& self.index == other.index
        &&& self.name == other.name
        &&& self.kind == other.kind
        &&& self.parents@ == other.parents@
        &&& self.children@ == other.children@
    }

    pub fn duplicate(&self) -> (r: ChunkGroup)
        ensures
            r.same(*self),
    {
        ChunkGroup {
            ukey: self.ukey,
            chunks: copy_handles(&self.chunks),
            index: self.index,
            name: crate::compilation::clone_name(&self.name),
            kind: self.kind.duplicate(),
            parents: copy_handles(&self.parents),
            children: copy_handles(&self.children),
        }
    }
}

/// A copy of a list of handles.
pub fn copy_handles(v: &Vec<Handle>) -> (r: Vec<Handle>)
    ensures
        r@ == v@,
{
    let mut out: Vec<Handle> = Vec::new();
    let mut i: usize = 0;
    while i < v.len()
        invariant
            i <= v@.len(),
            out@ == v@.subrange(0, i as int),
        decreases v@.len() - i,
    {
        out.push(v[i]);
        i += 1;
    }
    assert(out@ == v@.subrange(0, v@.len() as int));
    out
}

/// Whether `h` occurs in `v`.
pub fn contains_handle(v: &Vec<Handle>, h: Handle) -> (r: bool)
    ensures
        r == v@.contains(h),
{
    let mut i: usize = 0;
    while i < v.len()
        invariant
            i <= v@.len(),
            forall|k: int| 0 <= k < i ==> v@[k] != h,
        decreases v@.len() - i,
    {
        if v[i] == h {
            assert(v@[i as int] == h);
            return true;
        }
        i += 1;
    }
    false
}

/// The chunk groups of one compilation, with their parent/child edges
/// stored on both ends.
pub struct ChunkGroupGraph {
    groups: Arena<ChunkGroup>,
}

impl ChunkGroupGraph {
    pub closed spec fn arena(&self) -> Arena<ChunkGroup> {
        self.groups
    }

    pub open spec fn spec_id(&self) -> u32 {
        self.arena().spec_id()
    }

    pub open spec fn len(&self) -> nat {
        self.arena()@.len()
    }

    pub open spec fn issued(&self, h: Handle) -> bool {
        self.arena().issued(h)
    }

    pub open spec fn group(&self, h: Handle) -> ChunkGroup {
        self.arena()@[h.index as int]
    }

    /// `child` is recorded among the children of `parent`.
    pub open spec fn has_child(&self, parent: Handle, child: Handle) -> bool {
        self.group(parent).children@.contains(child)
    }

    /// `parent` is recorded among the parents of `child`.
    pub open spec fn has_parent(&self, child: Handle, parent: Handle) -> bool {
        self.group(child).parents@.contains(parent)
    }

    /// The runtime chunk recorded on an entry group; none for other groups.
    pub open spec fn spec_runtime_chunk(&self, h: Handle) -> Option<Handle> {
        match self.group(h).kind {
            ChunkGroupKind::Entrypoint { runtime_chunk } => runtime_chunk,
            ChunkGroupKind::Normal => None,
        }
    }

    /// Group `h` knows its own handle, carries an index exactly when it is
    /// initial, and lists each of its parents and children once, all of them
    /// groups of this graph.
    pub open spec fn group_ok(&self, h: Handle) -> bool {
        &&& self.group(h).ukey == h
        &&& (self.group(h).index is Some <==> self.group(h).spec_is_initial())
        &&& self.group(h).parents@.no_duplicates()
        &&& self.group(h).children@.no_duplicates()
        &&& forall|k: int|
            0 <= k < self.group(h).parents@.len() ==> self.issued(
                #[trigger] self.group(h).parents@[k],
            )
        &&& forall|k: int|
            0 <= k < self.group(h).children@.len() ==> self.issued(
                #[trigger] self.group(h).children@[k],
            )
    }

    /// Every group is well formed and every edge is stored on both of its ends.
    pub open spec fn edges_ok(&self) -> bool {
        &&& self.len() <= u32::MAX
        &&& forall|h: Handle| self.issued(h) ==> #[trigger] self.group_ok(h)
        &&& forall|p: Handle, c: Handle|
            #![trigger self.has_child(p, c)]
            #![trigger self.has_parent(c, p)]
            self.issued(p) && self.issued(c) ==> (self.has_child(p, c) <==> self.has_parent(c, p))
    }

    /// Every edge goes from a group to one made after it.
    pub open spec fn rank_ok(&self) -> bool {
        forall|p: Handle, c: Handle|
            #![trigger self.has_child(p, c)]
            self.issued(p) && self.issued(c) && self.has_child(p, c) ==> p.index < c.index
    }

    /// Every group that is not an entry has a parent.
    pub open spec fn parented(&self) -> bool {
        forall|h: Handle|
            #![trigger self.group(h)]
            self.issued(h) && !self.group(h).spec_is_initial() ==> self.group(h).parents@.len() > 0
    }

    /// Edges are stored on both ends, only entry groups are without a
    /// parent, and a parent is always made before its child, so no group is
    /// its own transitive parent.
    pub open spec fn wf(&self) -> bool {
        &&& self.edges_ok()
        &&& self.rank_ok()
        &&& self.parented()
    }

    /// `self` and `other` have the same id and hold the same groups.
    pub open spec fn same(&self, other: ChunkGroupGraph) -> bool {
        &&& self.spec_id() == other.spec_id()
        &&& self.len() == other.len()
        &&& forall|h: Handle| #[trigger] self.issued(h) ==> self.group(h).same(other.group(h))
    }

    /// A copy of the graph: same id, same groups, same edges.
    pub fn duplicate(&self) -> (r: ChunkGroupGraph)
        requires
            self.wf(),
        ensures
            r.wf(),
            r.same(*self),
    {
        let mut groups: Arena<ChunkGroup> = Arena::new(self.groups.id());
        let mut i: usize = 0;
        while i < self.groups.len()
            invariant
                self.wf(),
                i <= self.len(),
                groups.spec_id() == self.spec_id(),
                groups@.len() == i,
                forall|k: int| 0 <= k < i ==> (#[trigger] groups@[k]).same(self.arena()@[k]),
            decreases self.len() - i,
        {
            let h = self.groups.handle_at(i);
            let g = self.groups.get(h).duplicate();
            groups.insert(g);
            i += 1;
        }
        let r = ChunkGroupGraph { groups };
        proof {
            assert forall|h: Handle| #[trigger] r.issued(h) implies r.group(h).same(self.group(h)) by {
                assert(r.group(h) == r.arena()@[h.index as int]);
            }
            assert forall|h: Handle| r.issued(h) implies #[trigger] r.group_ok(h) by {
                assert(self.issued(h));
                assert(self.group_ok(h));
                assert(r.group(h).same(self.group(h)));
            }
            assert forall|p: Handle, c: Handle|
                #![trigger r.has_child(p, c)]
                #![trigger r.has_parent(c, p)]
                r.issued(p) && r.issued(c) implies (r.has_child(p, c) <==> r.has_parent(c, p)) by {
                assert(self.issued(p) && self.issued(c));
                assert(r.group(p).same(self.group(p)));
                assert(r.group(c).same(self.group(c)));
                assert(self.has_child(p, c) <==> self.has_parent(c, p));
            }
            assert forall|p: Handle, c: Handle|
                #![trigger r.has_child(p, c)]
                r.issued(p) && r.issued(c) && r.has_child(p, c) implies p.index < c.index by {
                assert(r.group(p).same(self.group(p)));
                assert(self.has_child(p, c));
            }
            assert forall|g: Handle|
                #![trigger r.group(g)]
                r.issued(g) && !r.group(g).spec_is_initial() implies r.group(g).parents@.len()
                > 0 by {
                assert(r.group(g).same(self.group(g)));
                assert(self.issued(g));
                assert(self.group(g).parents@.len() > 0);
            }
        }
        r
    }

    pub fn new(id: u32) -> (r: Self)
        ensures
            r.wf(),
            r.spec_id() == id,
            r.len() == 0,
    {
        ChunkGroupGraph { groups: Arena::new(id) }
    }

    pub fn id(&self) -> (r: u32)
        ensures
            r == self.spec_id(),
    {
        self.groups.id()
    }

    pub fn count(&self) -> (r: usize)
        ensures
            r == self.len(),
    {
        self.groups.len()
    }

    pub fn contains(&self, h: Handle) -> (r: bool)
        ensures
            r == self.issued(h),
    {
        self.groups.contains(h)
    }

    fn add_group(
        &mut self,
        name: Option<String>,
        index: Option<u32>,
        kind: ChunkGroupKind,
    ) -> (h: Handle)
        requires
            old(self).edges_ok(),
            old(self).rank_ok(),
            old(self).len() < u32::MAX,
            index is Some <==> kind is Entrypoint,
        ensures
            final(self).edges_ok(),
            final(self).rank_ok(),
            old(self).parented() && kind is Entrypoint ==> final(self).parented(),
            h == old(self).arena().next_handle(),
            final(self).spec_id() == old(self).spec_id(),
            final(self).len() == old(self).len() + 1,
            forall|g: Handle| old(self).issued(g) ==> final(self).group(g) == old(self).group(g),
            final(self).issued(h),
            final(self).group(h).chunks@ == Seq::<Handle>::empty(),
            final(self).group(h).parents@ == Seq::<Handle>::empty(),
            final(self).group(h).children@ == Seq::<Handle>::empty(),
            final(self).group(h).name == name,
            final(self).group(h).index == index,
            final(self).group(h).kind == kind,
    {
        let ukey = Handle { arena: self.groups.id(), index: self.groups.len() as u32 };
        let group = ChunkGroup {
            ukey,
            chunks: Vec::new(),
            index,
            name,
            kind,
            parents: Vec::new(),
            children: Vec::new(),
        };
        let h = self.groups.insert(group);
        proof {
            let new_h = h;
            assert forall|g: Handle| self.issued(g) implies #[trigger] self.group_ok(g) by {
                if g != new_h {
                    assert(old(self).issued(g));
                    assert(old(self).group_ok(g));
                }
            }
            assert forall|p: Handle, c: Handle|
                #![trigger self.has_child(p, c)]
                #![trigger self.has_parent(c, p)]
                self.issued(p) && self.issued(c) implies (self.has_child(p, c) <==> self.has_parent(
                c,
                p,
            )) by {
                if p != new_h && c != new_h {
                    assert(old(self).has_child(p, c) <==> old(self).has_parent(c, p));
                } else if p == new_h {
                    assert(!self.has_child(p, c));
                    if self.has_parent(c, p) {
                        assert(old(self).issued(c));
                        assert(old(self).group_ok(c));
                        let k = choose|k: int|
                            0 <= k < old(self).group(c).parents@.len()
                                && old(self).group(c).parents@[k] == p;
                        assert(old(self).issued(old(self).group(c).parents@[k]));
                    }
                } else {
                    assert(!self.has_parent(c, p));
                    if self.has_child(p, c) {
                        assert(old(self).issued(p));
                        assert(old(self).group_ok(p));
                        let k = choose|k: int|
                            0 <= k < old(self).group(p).children@.len()
                                && old(self).group(p).children@[k] == c;
                        assert(old(self).issued(old(self).group(p).children@[k]));
                    }
                }
            }
            assert forall|p: Handle, c: Handle|
                #![trigger self.has_child(p, c)]
                self.issued(p) && self.issued(c) && self.has_child(p, c) implies p.index
                < c.index by {
                if p == new_h {
                    assert(!self.has_child(p, c));
                } else if c == new_h {
                    assert(self.has_parent(c, p));
                } else {
                    assert(old(self).has_child(p, c));
                }
            }
            if old(self).parented() && kind is Entrypoint {
                assert forall|g: Handle|
                    #![trigger self.group(g)]
                    self.issued(g) && !self.group(g).spec_is_initial() implies self.group(
                    g,
                ).parents@.len() > 0 by {
                    assert(g != new_h);
                    assert(old(self).issued(g));
                    assert(old(self).group(g) == self.group(g));
                }
            }
        }
        h
    }

    /// Adds an entry group with its name and evaluation index.
    pub fn add_entrypoint(&mut self, name: String, index: u32) -> (h: Handle)
        requires
            old(self).wf(),
            old(self).len() < u32::MAX,
        ensures
            final(self).wf(),
            h == old(self).arena().next_handle(),
            final(self).spec_id() == old(self).spec_id(),
            final(self).len() == old(self).len() + 1,
            forall|g: Handle| old(self).issued(g) ==> final(self).group(g) == old(self).group(g),
            final(self).issued(h),
            final(self).group(h).chunks@ == Seq::<Handle>::empty(),
            final(self).group(h).parents@ == Seq::<Handle>::empty(),
            final(self).group(h).children@ == Seq::<Handle>::empty(),
            final(self).group(h).name == Some(name),
            final(self).group(h).index == Some(index),
            final(self).group(h).kind == (ChunkGroupKind::Entrypoint { runtime_chunk: None }),
    {
        self.add_group(Some(name), Some(index), ChunkGroupKind::Entrypoint { runtime_chunk: None })
    }

    /// Adds a group made by a dynamic import in group `parent`, named or
    /// anonymous, and records the edge from `parent` to it.
    pub fn add_async(&mut self, parent: Handle, name: Option<String>) -> (h: Handle)
        requires
            old(self).wf(),
            old(self).issued(parent),
            old(self).len() < u32::MAX,
        ensures
            final(self).wf(),
            h == old(self).arena().next_handle(),
            final(self).spec_id() == old(self).spec_id(),
            final(self).len() == old(self).len() + 1,
            forall|g: Handle|
                old(self).issued(g) && g != parent ==> final(self).group(g).same(old(self).group(g)),
            final(self).group(parent).children@ == old(self).group(parent).children@.push(h),
            final(self).has_child(parent, h),
            ({
                let (a, b) = (final(self).group(parent), old(self).group(parent));
                &&& a.ukey == b.ukey
                &&& a.chunks == b.chunks
                &&& a.index == b.index
                &&& a.name == b.name
                &&& a.kind == b.kind
                &&& a.parents@ == b.parents@
            }),
            final(self).issued(h),
            final(self).group(h).chunks@ == Seq::<Handle>::empty(),
            final(self).group(h).parents@ == seq![parent],
            final(self).group(h).children@ == Seq::<Handle>::empty(),
            final(self).group(h).name == name,
            final(self).group(h).index == None::<u32>,
            final(self).group(h).kind == ChunkGroupKind::Normal,
    {
        let h = self.add_group(name, None, ChunkGroupKind::Normal);
        let ghost mid = *self;
        proof {
            assert(!mid.has_child(parent, h));
        }
        self.add_edge(parent, h);
        proof {
            assert(self.group(h).parents@ =~= seq![parent]);
            assert forall|g: Handle|
                #![trigger self.group(g)]
                self.issued(g) && !self.group(g).spec_is_initial() implies self.group(
                g,
            ).parents@.len() > 0 by {
                assert(mid.issued(g));
                if g != h {
                    assert(old(self).issued(g));
                    assert(mid.group(g) == old(self).group(g));
                    assert(old(self).group(g).parents@.len() > 0);
                }
            }
            assert forall|g: Handle|
                old(self).issued(g) && g != parent implies self.group(g).same(old(self).group(g)) by {
                assert(mid.issued(g));
                assert(mid.group(g) == old(self).group(g));
            }
            assert(self.group(parent).children@[old(self).group(parent).children@.len() as int] == h);
        }
        h
    }

    /// Records `child` under `parent` and `parent` over `child`; adding an
    /// edge that is already there changes nothing.
    pub fn add_edge(&mut self, parent: Handle, child: Handle)
        requires
            old(self).edges_ok(),
            old(self).rank_ok(),
            old(self).issued(parent),
            old(self).issued(child),
            parent.index < child.index,
        ensures
            final(self).edges_ok(),
            final(self).rank_ok(),
            old(self).parented() ==> final(self).parented(),
            old(self).wf() ==> final(self).wf(),
            final(self).spec_id() == old(self).spec_id(),
            final(self).len() == old(self).len(),
            final(self).has_child(parent, child),
            final(self).has_parent(child, parent),
            forall|p: Handle, c: Handle|
                old(self).issued(p) && old(self).issued(c) && !(p == parent && c == child) ==> (
                final(self).has_child(p, c) == old(self).has_child(p, c)),
            forall|g: Handle|
                #![trigger final(self).group(g)]
                old(self).issued(g) ==> {
                    &&& final(self).group(g).children@ == if g == parent && !old(self).has_child(
                        parent,
                        child,
                    ) {
                        old(self).group(g).children@.push(child)
                    } else {
                        old(self).group(g).children@
                    }
                    &&& final(self).group(g).parents@ == if g == child && !old(self).has_child(
                        parent,
                        child,
                    ) {
                        old(self).group(g).parents@.push(parent)
                    } else {
                        old(self).group(g).parents@
                    }
                    &&& final(self).group(g).ukey == old(self).group(g).ukey
                    &&& final(self).group(g).chunks == old(self).group(g).chunks
                    &&& final(self).group(g).index == old(self).group(g).index
                    &&& final(self).group(g).name == old(self).group(g).name
                    &&& final(self).group(g).kind == old(self).group(g).kind
                },
            old(self).has_child(parent, child) ==> *final(self) == *old(self),
    {
        if contains_handle(&self.groups.get(parent).children, child) {
            return ;
        }
        proof {
            assert(!old(self).has_child(parent, child));
            assert(!old(self).has_parent(child, parent));
        }
        {
            let pg = self.groups.get_mut(parent);
            pg.children.push(child);
        }
        let ghost mid = *self;
        {
            let cg = self.groups.get_mut(child);
            cg.parents.push(parent);
        }
        proof {
            assert forall|g: Handle| #[trigger] self.issued(g) implies {
                &&& self.group(g).children@ == if g == parent {
                    old(self).group(g).children@.push(child)
                } else {
                    old(self).group(g).children@
                }
                &&& self.group(g).parents@ == if g == child {
                    old(self).group(g).parents@.push(parent)
                } else {
                    old(self).group(g).parents@
                }
                &&& self.group(g).ukey == old(self).group(g).ukey
                &&& self.group(g).chunks == old(self).group(g).chunks
                &&& self.group(g).index == old(self).group(g).index
                &&& self.group(g).name == old(self).group(g).name
                &&& self.group(g).kind == old(self).group(g).kind
            } by {
                assert(mid.issued(g));
                assert(old(self).issued(g));
            }
            assert forall|p: Handle, c: Handle| self.issued(p) && self.issued(c) implies (
            self.has_child(p, c) == (old(self).has_child(p, c) || (p == parent && c == child))
                && self.has_parent(c, p) == (old(self).has_parent(c, p) || (p == parent && c
                == child))) by {
                assert(old(self).issued(p));
                assert(old(self).issued(c));
                if p == parent {
                    assert(self.group(p).children@ == old(self).group(p).children@.push(child));
                    assert(self.group(p).children@.last() == child);
                    if old(self).has_child(p, c) {
                        let k = choose|k: int|
                            0 <= k < old(self).group(p).children@.len()
                                && old(self).group(p).children@[k] == c;
                        assert(self.group(p).children@[k] == c);
                    }
                }
                if c == child {
                    assert(self.group(c).parents@ == old(self).group(c).parents@.push(parent));
                    assert(self.group(c).parents@.last() == parent);
                    if old(self).has_parent(c, p) {
                        let k = choose|k: int|
                            0 <= k < old(self).group(c).parents@.len()
                                && old(self).group(c).parents@[k] == p;
                        assert(self.group(c).parents@[k] == p);
                    }
                }
            }
            assert forall|h: Handle| self.issued(h) implies #[trigger] self.group_ok(h) by {
                assert(old(self).issued(h));
                assert(old(self).group_ok(h));
                if h == parent {
                    assert(!old(self).group(h).children@.contains(child));
                }
                if h == child {
                    assert(!old(self).group(h).parents@.contains(parent));
                }
            }
            assert forall|p: Handle, c: Handle|
                #![trigger self.has_child(p, c)]
                #![trigger self.has_parent(c, p)]
                self.issued(p) && self.issued(c) implies (self.has_child(p, c) <==> self.has_parent(
                c,
                p,
            )) by {
                assert(old(self).has_child(p, c) <==> old(self).has_parent(c, p));
            }
            assert(self.has_child(parent, child));
            assert forall|p: Handle, c: Handle|
                #![trigger self.has_child(p, c)]
                self.issued(p) && self.issued(c) && self.has_child(p, c) implies p.index
                < c.index by {
                if !(p == parent && c == child) {
                    assert(old(self).has_child(p, c));
                }
            }
            if old(self).parented() {
                assert forall|g: Handle|
                    #![trigger self.group(g)]
                    self.issued(g) && !self.group(g).spec_is_initial() implies self.group(
                    g,
                ).parents@.len() > 0 by {
                    assert(old(self).issued(g));
                    assert(old(self).group(g).parents@.len() > 0);
                }
            }
        }
    }

    /// Appends `chunk` to the chunks of group `h`.
    pub fn add_chunk(&mut self, h: Handle, chunk: Handle)
        requires
            old(self).wf(),
            old(self).issued(h),
        ensures
            final(self).wf(),
            final(self).spec_id() == old(self).spec_id(),
            final(self).len() == old(self).len(),
            final(self).group(h).chunks@ == old(self).group(h).chunks@.push(chunk),
            forall|g: Handle| old(self).issued(g) && g != h ==> final(self).group(g) == old(self).group(g),
            ({
                let (a, b) = (final(self).group(h), old(self).group(h));
                &&& a.ukey == b.ukey
                &&& a.index == b.index
                &&& a.name == b.name
                &&& a.kind == b.kind
                &&& a.parents == b.parents
                &&& a.children == b.children
            }),
    {
        let g = self.groups.get_mut(h);
        g.chunks.push(chunk);
        proof {
            assert forall|p: Handle, c: Handle|
                #![trigger self.has_child(p, c)]
                #![trigger self.has_parent(c, p)]
                self.issued(p) && self.issued(c) implies (self.has_child(p, c) <==> self.has_parent(
                c,
                p,
            )) by {
                assert(old(self).has_child(p, c) <==> old(self).has_parent(c, p));
            }
            assert forall|g: Handle| self.issued(g) implies #[trigger] self.group_ok(g) by {
                assert(old(self).issued(g));
                assert(old(self).group_ok(g));
            }
            assert forall|p: Handle, c: Handle|
                #![trigger self.has_child(p, c)]
                self.issued(p) && self.issued(c) && self.has_child(p, c) implies p.index
                < c.index by {
                assert(old(self).has_child(p, c));
            }
            assert forall|g: Handle|
                #![trigger self.group(g)]
                self.issued(g) && !self.group(g).spec_is_initial() implies self.group(
                g,
            ).parents@.len() > 0 by {
                assert(old(self).issued(g));
                assert(old(self).group(g).parents@.len() > 0);
            }
        }
    }

    /// Designates `chunk` as the runtime chunk of the entry group `h`.
    pub fn set_runtime_chunk(&mut self, h: Handle, chunk: Handle)
        requires
            old(self).wf(),
            old(self).issued(h),
            old(self).group(h).spec_is_initial(),
        ensures
            final(self).wf(),
            final(self).spec_id() == old(self).spec_id(),
            final(self).len() == old(self).len(),
            final(self).spec_runtime_chunk(h) == Some(chunk),
            forall|g: Handle| old(self).issued(g) && g != h ==> final(self).group(g) == old(self).group(g),
            ({
                let (a, b) = (final(self).group(h), old(self).group(h));
                &&& a.ukey == b.ukey
                &&& a.chunks == b.chunks
                &&& a.index == b.index
                &&& a.name == b.name
                &&& a.kind is Entrypoint
                &&& a.parents == b.parents
                &&& a.children == b.children
            }),
    {
        let g = self.groups.get_mut(h);
        g.kind = ChunkGroupKind::Entrypoint { runtime_chunk: Some(chunk) };
        proof {
            assert forall|p: Handle, c: Handle|
                #![trigger self.has_child(p, c)]
                #![trigger self.has_parent(c, p)]
                self.issued(p) && self.issued(c) implies (self.has_child(p, c) <==> self.has_parent(
                c,
                p,
            )) by {
                assert(old(self).has_child(p, c) <==> old(self).has_parent(c, p));
            }
            assert forall|g: Handle| self.issued(g) implies #[trigger] self.group_ok(g) by {
                assert(old(self).issued(g));
                assert(old(self).group_ok(g));
            }
            assert forall|p: Handle, c: Handle|
                #![trigger self.has_child(p, c)]
                self.issued(p) && self.issued(c) && self.has_child(p, c) implies p.index
                < c.index by {
                assert(old(self).has_child(p, c));
            }
            assert forall|g: Handle|
                #![trigger self.group(g)]
                self.issued(g) && !self.group(g).spec_is_initial() implies self.group(
                g,
            ).parents@.len() > 0 by {
                assert(old(self).issued(g));
                assert(old(self).group(g).parents@.len() > 0);
            }
        }
    }

    pub fn get(&self, h: Handle) -> (r: &ChunkGroup)
        requires
            self.issued(h),
        ensures
            *r == self.group(h),
    {
        self.groups.get(h)
    }

    pub fn is_initial(&self, h: Handle) -> (r: bool)
        requires
            self.issued(h),
        ensures
            r == self.group(h).spec_is_initial(),
    {
        self.groups.get(h).is_initial()
    }

    pub fn index_of(&self, h: Handle) -> (r: Option<u32>)
        requires
            self.issued(h),
        ensures
            r == self.group(h).index,
    {
        self.groups.get(h).index
    }

    pub fn name_of(&self, h: Handle) -> (r: &Option<String>)
        requires
            self.issued(h),
        ensures
            *r == self.group(h).name,
    {
        self.groups.get(h).name()
    }

    /// The parents of `h`, in the order their edges were added.
    pub fn parents_of(&self, h: Handle) -> (r: &Vec<Handle>)
        requires
            self.wf(),
            self.issued(h),
        ensures
            r@ == self.group(h).parents@,
            forall|k: int| 0 <= k < r@.len() ==> self.issued(#[trigger] r@[k]),
    {
        proof {
            assert(self.group_ok(h));
        }
        &self.groups.get(h).parents
    }

    /// The children of `h`, in the order their edges were added.
    pub fn children_of(&self, h: Handle) -> (r: &Vec<Handle>)
        requires
            self.wf(),
            self.issued(h),
        ensures
            r@ == self.group(h).children@,
            forall|k: int| 0 <= k < r@.len() ==> self.issued(#[trigger] r@[k]),
    {
        proof {
            assert(self.group_ok(h));
        }
        &self.groups.get(h).children
    }

    /// The chunk designated to host the runtime of entry group `h`; none for
    /// a group that is not initial or has no runtime chunk yet.
    pub fn runtime_chunk_of(&self, h: Handle) -> (r: Option<Handle>)
        requires
            self.issued(h),
        ensures
            r == self.spec_runtime_chunk(h),
    {
        match self.groups.get(h).kind {
            ChunkGroupKind::Entrypoint { runtime_chunk } => runtime_chunk,
            ChunkGroupKind::Normal => None,
        }
    }
}

/// In a well-formed graph every edge is seen from both ends: `c` is a child
/// of `p` exactly when `p` is a parent of `c`.
pub proof fn lemma_edge_symmetry(g: ChunkGroupGraph, p: Handle, c: Handle)
    requires
        g.wf(),
        g.issued(p),
        g.issued(c),
    ensures
        g.has_child(p, c) <==> g.has_parent(c, p),
{
}

/// `to` is reached from `from` by following `steps` child edges.
pub open spec fn reaches(g: ChunkGroupGraph, from: Handle, to: Handle, steps: nat) -> bool
    decreases steps,
{
    if steps == 0 {
        from == to
    } else {
        exists|m: Handle| #[trigger]
            g.has_child(from, m) && g.issued(m) && reaches(g, m, to, (steps - 1) as nat)
    }
}

/// Following one or more child edges always leads to a later group.
pub proof fn lemma_reach_goes_forward(g: ChunkGroupGraph, from: Handle, to: Handle, steps: nat)
    requires
        g.wf(),
        g.issued(from),
        steps > 0,
        reaches(g, from, to, steps),
    ensures
        from.index < to.index,
    decreases steps,
{
    let m = choose|m: Handle| #[trigger]
        g.has_child(from, m) && g.issued(m) && reaches(g, m, to, (steps - 1) as nat);
    assert(from.index < m.index);
    if steps > 1 {
        lemma_reach_goes_forward(g, m, to, (steps - 1) as nat);
    }
}

/// No group is its own transitive parent.
pub proof fn lemma_no_cycle(g: ChunkGroupGraph, h: Handle, steps: nat)
    requires
        g.wf(),
        g.issued(h),
        steps > 0,
    ensures
        !reaches(g, h, h, steps),
{
    if reaches(g, h, h, steps) {
        lemma_reach_goes_forward(g, h, h, steps);
    }
}

/// A group without parents is an entry group.
pub proof fn lemma_parentless_is_initial(g: ChunkGroupGraph, h: Handle)
    requires
        g.wf(),
        g.issued(h),
        g.group(h).parents@.len() == 0,
    ensures
        g.group(h).spec_is_initial(),
{
    if !g.group(h).spec_is_initial() {
        assert(g.group(h).parents@.len() > 0);
    }
}

/// A group is initial exactly when it carries an index.
pub proof fn lemma_initial_iff_index(g: ChunkGroupGraph, h: Handle)
    requires
        g.wf(),
        g.issued(h),
    ensures
        g.group(h).spec_is_initial() <==> g.group(h).index is Some,
        !g.group(h).spec_is_initial() ==> g.group(h).index == None::<u32>,
{
    assert(g.group_ok(h));
}

/// The runtime chunk of a group is a function of the graph's state: two
/// graphs that agree on the group agree on its runtime chunk, and so do
/// repeated lookups in one graph.
pub proof fn lemma_runtime_chunk_deterministic(a: ChunkGroupGraph, b: ChunkGroupGraph, h: Handle)
    requires
        a.issued(h),
        b.issued(h),
        a.group(h) == b.group(h),
    ensures
        a.spec_runtime_chunk(h) == b.spec_runtime_chunk(h),
{
}

} // verus!
