use rspack_core_graph::arena::{Arena, Handle};
use rspack_core_graph::binding::{
    chunk_group, children_iterable, get_chunk_group, get_runtime_chunk, parents_iterable,
    JsChunkGroup,
};
use rspack_core_graph::chunk_group::ChunkGroupGraph;
use rspack_core_graph::compilation::Compilation;

#[test]
fn arena_get_after_insert() {
    let mut arena: Arena<String> = Arena::new(7);
    let a = arena.insert("a".to_string());
    let b = arena.insert("b".to_string());
    assert_eq!(arena.get(a), "a");
    assert_eq!(arena.get(b), "b");
    assert_eq!(a, Handle { arena: 7, index: 0 });
    assert_eq!(b, Handle { arena: 7, index: 1 });
    assert_eq!(arena.len(), 2);
}

#[test]
fn arena_refuses_foreign_handle() {
    let mut first: Arena<u64> = Arena::new(1);
    let mut second: Arena<u64> = Arena::new(2);
    let h = first.insert(10);
    second.insert(20);
    assert!(first.contains(h));
    assert!(!second.contains(h));
    assert!(!first.contains(Handle { arena: 1, index: 1 }));
}

#[test]
fn arena_get_mut_changes_one_value() {
    let mut arena: Arena<u64> = Arena::new(3);
    let a = arena.insert(1);
    let b = arena.insert(2);
    *arena.get_mut(a) = 5;
    assert_eq!(*arena.get(a), 5);
    assert_eq!(*arena.get(b), 2);
}

#[test]
fn edges_are_symmetric_and_idempotent() {
    let mut g = ChunkGroupGraph::new(1);
    let main = g.add_entrypoint("main".to_string(), 0);
    let lazy = g.add_async(main, None);
    g.add_edge(main, lazy);
    let other = g.add_async(lazy, Some("other".to_string()));
    g.add_edge(lazy, other);
    assert_eq!(g.children_of(main).clone(), vec![lazy]);
    assert_eq!(g.parents_of(lazy).clone(), vec![main]);
    assert_eq!(g.children_of(lazy).clone(), vec![other]);
    assert_eq!(g.parents_of(other).clone(), vec![lazy]);
    assert!(g.parents_of(main).is_empty());
    assert!(g.children_of(other).is_empty());
}

#[test]
fn only_initial_groups_have_an_index() {
    let mut g = ChunkGroupGraph::new(1);
    let main = g.add_entrypoint("main".to_string(), 0);
    let vendor = g.add_entrypoint("vendor".to_string(), 1);
    let lazy = g.add_async(vendor, Some("lazy".to_string()));
    assert_eq!(g.parents_of(lazy).clone(), vec![vendor]);
    assert!(g.is_initial(main));
    assert_eq!(g.index_of(main), Some(0));
    assert!(g.is_initial(vendor));
    assert_eq!(g.index_of(vendor), Some(1));
    assert!(!g.is_initial(lazy));
    assert_eq!(g.index_of(lazy), None);
    assert_eq!(g.name_of(lazy).as_deref(), Some("lazy"));
}

#[test]
fn runtime_chunk_lookup_is_repeatable() {
    let mut c = Compilation::new();
    let main = c.add_entrypoint("main".to_string(), 0);
    let rt = c.add_chunk(Some("runtime".to_string()));
    assert_eq!(c.chunk_group_by_ukey.runtime_chunk_of(main), None);
    c.set_runtime_chunk(main, rt);
    let first = c.chunk_group_by_ukey.runtime_chunk_of(main);
    let second = c.chunk_group_by_ukey.runtime_chunk_of(main);
    assert_eq!(first, Some(rt));
    assert_eq!(first, second);
    let lazy = c.add_async(main, None);
    assert_eq!(c.chunk_group_by_ukey.runtime_chunk_of(lazy), None);
}

fn two_entries(shared_runtime: bool) -> (Compilation, Vec<u32>) {
    let mut c = Compilation::new();
    let main = c.add_entrypoint("main".to_string(), 0);
    let vendor = c.add_entrypoint("vendor".to_string(), 1);
    let shared = c.add_async(main, Some("C".to_string()));
    let main_chunk = c.add_chunk(Some("main".to_string()));
    let vendor_chunk = c.add_chunk(Some("vendor".to_string()));
    let shared_chunk = c.add_chunk(None);
    c.connect_chunk(main, main_chunk);
    c.connect_chunk(vendor, vendor_chunk);
    c.connect_chunk(shared, shared_chunk);
    if shared_runtime {
        let rt = c.add_chunk(Some("runtime".to_string()));
        c.set_runtime_chunk(main, rt);
        c.set_runtime_chunk(vendor, rt);
    } else {
        c.set_runtime_chunk(main, main_chunk);
        c.set_runtime_chunk(vendor, vendor_chunk);
    }
    c.add_edge(main, shared);
    c.add_edge(vendor, shared);
    (c, vec![main.index, vendor.index, shared.index])
}

fn names(groups: &[JsChunkGroup]) -> Vec<Option<String>> {
    groups.iter().map(|g| g.name.clone()).collect()
}

#[test]
fn two_entries_share_an_async_child() {
    let (c, keys) = two_entries(false);
    let (main, vendor, shared) = (keys[0], keys[1], keys[2]);
    let parents = parents_iterable(shared, &c);
    assert_eq!(names(&parents), vec![Some("main".to_string()), Some("vendor".to_string())]);
    assert_eq!(parents_iterable(shared, &c).len(), 2);
    let children = children_iterable(main, &c);
    assert_eq!(children.len(), 1);
    assert_eq!(children[0].inner_ukey, shared);
    assert!(!children[0].is_initial);
    assert_eq!(children[0].index, None);
    let main_rt = get_runtime_chunk(main, &c);
    let vendor_rt = get_runtime_chunk(vendor, &c);
    assert_ne!(main_rt.inner_ukey, vendor_rt.inner_ukey);
    assert_eq!(main_rt.name.as_deref(), Some("main"));
    assert_eq!(vendor_rt.name.as_deref(), Some("vendor"));
}

#[test]
fn two_entries_with_a_shared_runtime() {
    let (c, keys) = two_entries(true);
    let main_rt = get_runtime_chunk(keys[0], &c);
    let vendor_rt = get_runtime_chunk(keys[1], &c);
    assert_eq!(main_rt.inner_ukey, vendor_rt.inner_ukey);
    assert_eq!(main_rt.name.as_deref(), Some("runtime"));
}

#[test]
fn chunk_group_projection_shows_fields() {
    let (c, keys) = two_entries(false);
    let g = get_chunk_group(keys[1], &c);
    assert_eq!(g.inner_ukey, keys[1]);
    assert_eq!(g.index, Some(1));
    assert_eq!(g.name.as_deref(), Some("vendor"));
    assert!(g.is_initial);
    assert_eq!(g.chunks.len(), 1);
    assert_eq!(g.chunks[0].name.as_deref(), Some("vendor"));
    assert_eq!(g.chunks[0].inner_ukey, 1);
    let raw = chunk_group(keys[2], &c);
    assert_eq!(raw.ukey.index, keys[2]);
    let direct = JsChunkGroup::from_chunk_group(raw, &c);
    assert_eq!(direct.name.as_deref(), Some("C"));
    assert!(children_iterable(keys[2], &c).is_empty());
}

#[test]
fn compilation_copy_keeps_graph() {
    let (c, keys) = two_entries(true);
    let copy = c.duplicate();
    assert_eq!(names(&parents_iterable(keys[2], &copy)), names(&parents_iterable(keys[2], &c)));
    assert_eq!(get_runtime_chunk(keys[0], &copy).inner_ukey, get_runtime_chunk(keys[0], &c).inner_ukey);
    assert_eq!(copy.chunk_by_ukey.len(), c.chunk_by_ukey.len());
}
