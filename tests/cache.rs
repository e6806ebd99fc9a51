use rspack_core_graph::binding::{get_runtime_chunk, parents_iterable};
use rspack_core_graph::cache::{
    new_cache, new_cache_with_snapshots, same_signatures, Cache, CacheOptions, CompilerOptions, FileSignature, MakeArtifact,
    PersistentCache, PersistentCacheOptions,
};
use rspack_core_graph::compilation::Compilation;

fn sig(path: &str, signature: u64) -> FileSignature {
    FileSignature { path: path.to_string(), signature }
}

fn built_artifact() -> MakeArtifact {
    MakeArtifact {
        modules: vec![1, 2, 3],
        dependencies: vec![(1, 2), (2, 3)],
        diagnostics: vec!["unused export".to_string()],
    }
}

fn options(config: &str, cache: CacheOptions) -> CompilerOptions {
    CompilerOptions { config: config.to_string(), cache }
}

fn persistent(config: &str) -> Cache {
    new_cache(&options(
        config,
        CacheOptions::Persistent(PersistentCacheOptions { storage: "cache-dir".to_string() }),
    ))
}

fn small_compilation() -> Compilation {
    let mut c = Compilation::new();
    let main = c.add_entrypoint("main".to_string(), 0);
    let lazy = c.add_async(main, Some("lazy".to_string()));
    let rt = c.add_chunk(Some("main".to_string()));
    c.connect_chunk(main, rt);
    c.set_runtime_chunk(main, rt);
    c.add_edge(main, lazy);
    c
}

#[test]
fn factory_selects_strategy() {
    assert!(matches!(new_cache(&options("k", CacheOptions::Disabled)), Cache::Disabled));
    assert!(matches!(new_cache(&options("k", CacheOptions::Memory)), Cache::Memory));
    match persistent("k") {
        Cache::Persistent(p) => {
            assert_eq!(p.config, "k");
            assert_eq!(p.options.storage, "cache-dir");
            assert!(p.make_entry.is_none());
            assert!(p.compile_entry.is_none());
        }
        _ => panic!("expected a persistent cache"),
    }
}

#[test]
fn disabled_and_memory_hooks_change_nothing() {
    for choice in [CacheOptions::Disabled, CacheOptions::Memory] {
        let mut cache = new_cache(&options("k", choice));
        let inputs = vec![sig("a.js", 1)];
        cache.after_make(&built_artifact(), &inputs);
        cache.after_compile(&small_compilation(), &inputs);
        let mut artifact = MakeArtifact::new();
        assert!(!cache.before_make(&mut artifact, &inputs));
        assert!(artifact.modules.is_empty());
        assert!(artifact.dependencies.is_empty());
        assert!(artifact.diagnostics.is_empty());
        let mut compilation = Compilation::new();
        assert!(!cache.before_compile(&mut compilation, &inputs));
        assert_eq!(compilation.chunk_by_ukey.len(), 0);
        assert_eq!(compilation.chunk_group_by_ukey.count(), 0);
    }
}

#[test]
fn persistent_make_round_trip() {
    let mut cache = persistent("k1");
    let inputs = vec![sig("a.js", 1), sig("b.js", 2)];
    cache.after_make(&built_artifact(), &inputs);
    let mut artifact = MakeArtifact::new();
    assert!(cache.before_make(&mut artifact, &inputs));
    assert_eq!(artifact.modules, vec![1, 2, 3]);
    assert_eq!(artifact.dependencies, vec![(1, 2), (2, 3)]);
    assert_eq!(artifact.diagnostics, vec!["unused export".to_string()]);
}

#[test]
fn persistent_make_misses_on_changed_file() {
    let mut cache = persistent("k1");
    cache.after_make(&built_artifact(), &vec![sig("a.js", 1), sig("b.js", 2)]);
    let mut artifact = MakeArtifact::new();
    assert!(!cache.before_make(&mut artifact, &vec![sig("a.js", 1), sig("b.js", 3)]));
    assert!(artifact.modules.is_empty());
    assert!(!cache.before_make(&mut artifact, &vec![sig("a.js", 1)]));
    assert!(!cache.before_make(&mut artifact, &vec![sig("a.js", 1), sig("c.js", 2)]));
}

fn stored(cache: Cache) -> (Option<rspack_core_graph::cache::MakeEntry>, Option<rspack_core_graph::cache::CompileEntry>) {
    match cache {
        Cache::Persistent(p) => (p.make_entry, p.compile_entry),
        _ => (None, None),
    }
}

fn next_build(config: &str, cache: Cache) -> Cache {
    let (make_entry, compile_entry) = stored(cache);
    new_cache_with_snapshots(
        &options(
            config,
            CacheOptions::Persistent(PersistentCacheOptions { storage: "cache-dir".to_string() }),
        ),
        make_entry,
        compile_entry,
    )
}

#[test]
fn persistent_round_trip_across_builds() {
    let mut first = persistent("k1");
    let inputs = vec![sig("a.js", 1), sig("b.js", 2)];
    first.after_make(&built_artifact(), &inputs);
    first.after_compile(&small_compilation(), &inputs);
    let second = next_build("k1", first);
    let mut artifact = MakeArtifact::new();
    assert!(second.before_make(&mut artifact, &inputs));
    assert_eq!(artifact.modules, vec![1, 2, 3]);
    assert_eq!(artifact.dependencies, vec![(1, 2), (2, 3)]);
    let mut compilation = Compilation::new();
    assert!(second.before_compile(&mut compilation, &inputs));
    assert_eq!(compilation.chunk_group_by_ukey.count(), 2);
    assert_eq!(parents_iterable(1, &compilation)[0].name.as_deref(), Some("main"));
}

#[test]
fn persistent_make_misses_on_changed_config() {
    let mut writer = persistent("k1");
    let inputs = vec![sig("a.js", 1)];
    writer.after_make(&built_artifact(), &inputs);
    writer.after_compile(&small_compilation(), &inputs);
    let reader = next_build("k2", writer);
    let mut artifact = MakeArtifact::new();
    assert!(!reader.before_make(&mut artifact, &inputs));
    assert!(artifact.modules.is_empty());
    let mut compilation = Compilation::new();
    assert!(!reader.before_compile(&mut compilation, &inputs));
    assert_eq!(compilation.chunk_group_by_ukey.count(), 0);
    let (make_entry, compile_entry) = stored(reader);
    let seeded = PersistentCache::with_snapshots(
        PersistentCacheOptions { storage: "cache-dir".to_string() },
        "k1".to_string(),
        make_entry,
        compile_entry,
    );
    assert!(seeded.before_make(&mut artifact, &inputs));
    assert_eq!(artifact.modules, vec![1, 2, 3]);
}

#[test]
fn non_persistent_factory_ignores_snapshots() {
    let mut writer = persistent("k1");
    let inputs = vec![sig("a.js", 1)];
    writer.after_make(&built_artifact(), &inputs);
    let (make_entry, _) = stored(writer);
    let memory = new_cache_with_snapshots(&options("k1", CacheOptions::Memory), make_entry, None);
    let mut artifact = MakeArtifact::new();
    assert!(!memory.before_make(&mut artifact, &inputs));
    assert!(artifact.modules.is_empty());
}

#[test]
fn persistent_compile_round_trip() {
    let mut cache = persistent("k1");
    let inputs = vec![sig("a.js", 1)];
    cache.after_compile(&small_compilation(), &inputs);
    let mut restored = Compilation::new();
    assert!(cache.before_compile(&mut restored, &inputs));
    assert_eq!(restored.chunk_group_by_ukey.count(), 2);
    let parents = parents_iterable(1, &restored);
    assert_eq!(parents.len(), 1);
    assert_eq!(parents[0].name.as_deref(), Some("main"));
    assert_eq!(get_runtime_chunk(0, &restored).name.as_deref(), Some("main"));
    let mut missed = Compilation::new();
    assert!(!cache.before_compile(&mut missed, &vec![sig("a.js", 9)]));
    assert_eq!(missed.chunk_group_by_ukey.count(), 0);
}

#[test]
fn signatures_compare_by_path_and_value() {
    assert!(same_signatures(&vec![sig("a", 1)], &vec![sig("a", 1)]));
    assert!(!same_signatures(&vec![sig("a", 1)], &vec![sig("b", 1)]));
    assert!(!same_signatures(&vec![sig("a", 1)], &vec![sig("a", 2)]));
    assert!(same_signatures(&vec![], &vec![]));
}
