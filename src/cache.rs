//! Cache strategies that wrap the make and compile phases with before/after
//! hooks, and the factory that picks one from the compiler options.
use vstd::prelude::*;

use crate::compilation::{lemma_same_transitive, Compilation};

verus! {

/// The content signature of one tracked input file.
pub struct FileSignature {
    pub path: String,
    pub signature: u64,
}

/// What a list of signatures says: each path with its signature, in order.
pub open spec fn signatures(v: Seq<FileSignature>) -> Seq<(Seq<char>, u64)> {
    v.map_values(|f: FileSignature| (f.path@, f.signature))
}

/// Whether two lists of signatures say the same.
pub fn same_signatures(a: &Vec<FileSignature>, b: &Vec<FileSignature>) -> (r: bool)
    ensures
        r == (signatures(a@) == signatures(b@)),
{
    if a.len() != b.len() {
        assert(signatures(a@).len() != signatures(b@).len());
        return false;
    }
    let mut i: usize = 0;
    while i < a.len()
        invariant
            a@.len() == b@.len(),
            i <= a@.len(),
            forall|k: int| 0 <= k < i ==> signatures(a@)[k] == signatures(b@)[k],
        decreases a@.len() - i,
    {
        if a[i].signature != b[i].signature || a[i].path != b[i].path {
            assert(signatures(a@)[i as int] != signatures(b@)[i as int]);
            return false;
        }
        i += 1;
    }
    assert(signatures(a@) =~= signatures(b@));
    true
}

/// A copy of a list of signatures.
pub fn copy_signatures(v: &Vec<FileSignature>) -> (r: Vec<FileSignature>)
    ensures
        r@ == v@,
{
    let mut out: Vec<FileSignature> = Vec::new();
    let mut i: usize = 0;
    while i < v.len()
        invariant
            i <= v@.len(),
            out@ == v@.subrange(0, i as int),
        decreases v@.len() - i,
    {
        let f = FileSignature { path: v[i].path.clone(), signature: v[i].signature };
        assert(f == v@[i as int]);
        out.push(f);
        i += 1;
        assert(out@ == v@.subrange(0, i as int));
    }
    assert(out@ == v@.subrange(0, v@.len() as int));
    out
}

/// The module graph after the make phase: the modules, the dependency edges
/// between them and the diagnostics raised while building it.
pub struct MakeArtifact {
    pub modules: Vec<u64>,
    pub dependencies: Vec<(u64, u64)>,
    pub diagnostics: Vec<String>,
}

pub struct MakeArtifactView {
    pub modules: Seq<u64>,
    pub dependencies: Seq<(u64, u64)>,
    pub diagnostics: Seq<String>,
}

impl View for MakeArtifact {
    type V = MakeArtifactView;

    open spec fn view(&self) -> MakeArtifactView {
        MakeArtifactView {
            modules: self.modules@,
            dependencies: self.dependencies@,
            diagnostics: self.diagnostics@,
        }
    }
}

/// A copy of a list.
fn copy_list<T: Copy>(v: &Vec<T>) -> (r: Vec<T>)
    ensures
        r@ == v@,
{
    let mut out: Vec<T> = Vec::new();
    let mut i: usize = 0;
    while i < v.len()
        invariant
            i <= v@.len(),
            out@ == v@.subrange(0, i as int),
        decreases v@.len() - i,
    {
        out.push(v[i]);
        i += 1;
        assert(out@ == v@.subrange(0, i as int));
    }
    assert(out@ == v@.subrange(0, v@.len() as int));
    out
}

/// A copy of a list of strings.
fn copy_strings(v: &Vec<String>) -> (r: Vec<String>)
    ensures
        r@ == v@,
{
    let mut out: Vec<String> = Vec::new();
    let mut i: usize = 0;
    while i < v.len()
        invariant
            i <= v@.len(),
            out@ == v@.subrange(0, i as int),
        decreases v@.len() - i,
    {
        out.push(v[i].clone());
        i += 1;
        assert(out@ == v@.subrange(0, i as int));
    }
    assert(out@ == v@.subrange(0, v@.len() as int));
    out
}

impl MakeArtifact {
    /// The artifact of a cold build: nothing built yet.
    pub fn new() -> (r: MakeArtifact)
        ensures
            r@.modules.len() == 0,
            r@.dependencies.len() == 0,
            r@.diagnostics.len() == 0,
    {
        MakeArtifact { modules: Vec::new(), dependencies: Vec::new(), diagnostics: Vec::new() }
    }

    pub fn duplicate(&self) -> (r: MakeArtifact)
        ensures
            r@ == self@,
    {
        MakeArtifact {
            modules: copy_list(&self.modules),
            dependencies: copy_list(&self.dependencies),
            diagnostics: copy_strings(&self.diagnostics),
        }
    }
}

/// Where a persistent cache keeps its snapshots.
pub struct PersistentCacheOptions {
    pub storage: String,
}

/// Which cache strategy a compilation uses.
pub enum CacheOptions {
    Disabled,
    Memory,
    Persistent(PersistentCacheOptions),
}

/// The options a cache is chosen and keyed by: the resolved compiler
/// configuration, as text, and the cache choice.
pub struct CompilerOptions {
    pub config: String,
    pub cache: CacheOptions,
}

/// A make-phase snapshot with the configuration and input signatures it was
/// taken under.
pub struct MakeEntry {
    pub config: String,
    pub inputs: Vec<FileSignature>,
    pub artifact: MakeArtifact,
}

/// A compile-phase snapshot, keyed like the make-phase one so that the two
/// are only ever restored together.
pub struct CompileEntry {
    pub config: String,
    pub inputs: Vec<FileSignature>,
    pub compilation: Compilation,
}

/// The persistent strategy: snapshots keyed by the compiler configuration
/// and the signatures of the tracked inputs.
pub struct PersistentCache {
    pub options: PersistentCacheOptions,
    pub config: String,
    pub make_entry: Option<MakeEntry>,
    pub compile_entry: Option<CompileEntry>,
}

impl PersistentCache {
    pub open spec fn wf(&self) -> bool {
        match self.compile_entry {
            Some(e) => e.compilation.wf(),
            None => true,
        }
    }

    /// A snapshot taken under `config` and `taken` may be used now, under
    /// this cache's configuration and the signatures `now`.
    pub open spec fn key_matches(
        &self,
        config: String,
        taken: Seq<FileSignature>,
        now: Seq<FileSignature>,
    ) -> bool {
        config@ == self.config@ && signatures(taken) == signatures(now)
    }

    /// What `before_make` restores for inputs with signatures `now`, if anything.
    pub open spec fn make_restore(&self, now: Seq<FileSignature>) -> Option<MakeArtifactView> {
        match self.make_entry {
            Some(e) => if self.key_matches(e.config, e.inputs@, now) {
                Some(e.artifact@)
            } else {
                None
            },
            None => None,
        }
    }

    /// What `before_compile` restores for inputs with signatures `now`, if anything.
    pub open spec fn compile_restore(&self, now: Seq<FileSignature>) -> Option<Compilation> {
        match self.compile_entry {
            Some(e) => if self.key_matches(e.config, e.inputs@, now) {
                Some(e.compilation)
            } else {
                None
            },
            None => None,
        }
    }

    /// A cache with no snapshot yet.
    pub fn new(options: PersistentCacheOptions, config: String) -> (r: PersistentCache)
        ensures
            r.wf(),
            r.options == options,
            r.config == config,
            r.make_entry is None,
            r.compile_entry is None,
    {
        PersistentCache { options, config, make_entry: None, compile_entry: None }
    }

    /// A cache that starts from snapshots kept by an earlier build, as read
    /// back from storage.
    pub fn with_snapshots(
        options: PersistentCacheOptions,
        config: String,
        make_entry: Option<MakeEntry>,
        compile_entry: Option<CompileEntry>,
    ) -> (r: PersistentCache)
        requires
            compile_entry is Some ==> compile_entry->Some_0.compilation.wf(),
        ensures
            r.wf(),
            r.options == options,
            r.config == config,
            r.make_entry == make_entry,
            r.compile_entry == compile_entry,
    {
        PersistentCache { options, config, make_entry, compile_entry }
    }

    /// Replaces `artifact` by the stored snapshot when its key matches;
    /// otherwise leaves it to be built from scratch.
    pub fn before_make(&self, artifact: &mut MakeArtifact, inputs: &Vec<FileSignature>) -> (restored: bool)
        ensures
            restored == self.make_restore(inputs@) is Some,
            restored ==> final(artifact)@ == self.make_restore(inputs@)->Some_0,
            !restored ==> *final(artifact) == *old(artifact),
    {
        match &self.make_entry {
            Some(e) => {
                if e.config == self.config && same_signatures(&e.inputs, inputs) {
                    *artifact = e.artifact.duplicate();
                    true
                } else {
                    false
                }
            },
            None => false,
        }
    }

    /// Stores a snapshot of `artifact` under the current key.
    pub fn after_make(&mut self, artifact: &MakeArtifact, inputs: &Vec<FileSignature>)
        ensures
            final(self).wf() == old(self).wf(),
            final(self).options == old(self).options,
            final(self).config == old(self).config,
            final(self).compile_entry == old(self).compile_entry,
            final(self).make_entry is Some,
            final(self).make_entry->Some_0.config == old(self).config,
            final(self).make_entry->Some_0.inputs@ == inputs@,
            final(self).make_entry->Some_0.artifact@ == artifact@,
            final(self).make_restore(inputs@) == Some(artifact@),
    {
        let entry = MakeEntry {
            config: self.config.clone(),
            inputs: copy_signatures(inputs),
            artifact: artifact.duplicate(),
        };
        self.make_entry = Some(entry);
    }

    /// Replaces `compilation` by the stored snapshot when its key matches;
    /// otherwise leaves it to be built from scratch.
    pub fn before_compile(&self, compilation: &mut Compilation, inputs: &Vec<FileSignature>) -> (restored: bool)
        requires
            self.wf(),
        ensures
            restored == self.compile_restore(inputs@) is Some,
            restored ==> final(compilation).wf() && final(compilation).same(
                self.compile_restore(inputs@)->Some_0,
            ),
            !restored ==> *final(compilation) == *old(compilation),
    {
        match &self.compile_entry {
            Some(e) => {
                if e.config == self.config && same_signatures(&e.inputs, inputs) {
                    *compilation = e.compilation.duplicate();
                    true
                } else {
                    false
                }
            },
            None => false,
        }
    }

    /// Stores a snapshot of `compilation` under the current key.
    pub fn after_compile(&mut self, compilation: &Compilation, inputs: &Vec<FileSignature>)
        requires
            compilation.wf(),
        ensures
            final(self).wf(),
            final(self).options == old(self).options,
            final(self).config == old(self).config,
            final(self).make_entry == old(self).make_entry,
            final(self).compile_entry is Some,
            final(self).compile_entry->Some_0.config == old(self).config,
            final(self).compile_entry->Some_0.inputs@ == inputs@,
            final(self).compile_entry->Some_0.compilation.same(*compilation),
            final(self).compile_restore(inputs@) is Some,
            final(self).compile_restore(inputs@)->Some_0.same(*compilation),
    {
        let entry = CompileEntry {
            config: self.config.clone(),
            inputs: copy_signatures(inputs),
            compilation: compilation.duplicate(),
        };
        self.compile_entry = Some(entry);
    }
}

/// The cache strategy of a compilation. Disabled and Memory leave every
/// argument of every hook as it was; Persistent restores and stores snapshots.
pub enum Cache {
    Disabled,
    Memory,
    Persistent(PersistentCache),
}

impl Cache {
    pub open spec fn wf(&self) -> bool {
        match self {
            Cache::Persistent(p) => p.wf(),
            _ => true,
        }
    }

    /// Called before chunk-graph construction; returns whether a snapshot
    /// was restored into `compilation`.
    pub fn before_compile(&self, compilation: &mut Compilation, inputs: &Vec<FileSignature>) -> (restored: bool)
        requires
            self.wf(),
        ensures
            match self {
                Cache::Persistent(p) => {
                    &&& restored == p.compile_restore(inputs@) is Some
                    &&& restored ==> final(compilation).wf() && final(compilation).same(
                        p.compile_restore(inputs@)->Some_0,
                    )
                    &&& !restored ==> *final(compilation) == *old(compilation)
                },
                _ => !restored && *final(compilation) == *old(compilation),
            },
    {
        match self {
            Cache::Persistent(p) => p.before_compile(compilation, inputs),
            _ => false,
        }
    }

    /// Called after chunk-graph construction.
    pub fn after_compile(&mut self, compilation: &Compilation, inputs: &Vec<FileSignature>)
        requires
            old(self).wf(),
            compilation.wf(),
        ensures
            final(self).wf(),
            match *old(self) {
                Cache::Persistent(p) => match *final(self) {
                    Cache::Persistent(q) => {
                        &&& q.options == p.options
                        &&& q.config == p.config
                        &&& q.make_entry == p.make_entry
                        &&& q.compile_entry is Some
                        &&& q.compile_entry->Some_0.config == p.config
                        &&& q.compile_entry->Some_0.inputs@ == inputs@
                        &&& q.compile_entry->Some_0.compilation.same(*compilation)
                    },
                    _ => false,
                },
                _ => *final(self) == *old(self),
            },
    {
        match self {
            Cache::Persistent(p) => p.after_compile(compilation, inputs),
            _ => {},
        }
    }

    /// Called before module-graph construction; returns whether a snapshot
    /// was restored into `artifact`.
    pub fn before_make(&self, artifact: &mut MakeArtifact, inputs: &Vec<FileSignature>) -> (restored: bool)
        ensures
            match self {
                Cache::Persistent(p) => {
                    &&& restored == p.make_restore(inputs@) is Some
                    &&& restored ==> final(artifact)@ == p.make_restore(inputs@)->Some_0
                    &&& !restored ==> *final(artifact) == *old(artifact)
                },
                _ => !restored && *final(artifact) == *old(artifact),
            },
    {
        match self {
            Cache::Persistent(p) => p.before_make(artifact, inputs),
            _ => false,
        }
    }

    /// Called after module-graph construction.
    pub fn after_make(&mut self, artifact: &MakeArtifact, inputs: &Vec<FileSignature>)
        ensures
            final(self).wf() == old(self).wf(),
            match *old(self) {
                Cache::Persistent(p) => match *final(self) {
                    Cache::Persistent(q) => {
                        &&& q.options == p.options
                        &&& q.config == p.config
                        &&& q.compile_entry == p.compile_entry
                        &&& q.make_entry is Some
                        &&& q.make_entry->Some_0.config == p.config
                        &&& q.make_entry->Some_0.inputs@ == inputs@
                        &&& q.make_entry->Some_0.artifact@ == artifact@
                    },
                    _ => false,
                },
                _ => *final(self) == *old(self),
            },
    {
        match self {
            Cache::Persistent(p) => p.after_make(artifact, inputs),
            _ => {},
        }
    }
}

/// The strategy that `compiler_option` selects, keyed by its configuration.
pub fn new_cache(compiler_option: &CompilerOptions) -> (r: Cache)
    ensures
        r.wf(),
        match compiler_option.cache {
            CacheOptions::Disabled => r is Disabled,
            CacheOptions::Memory => r is Memory,
            CacheOptions::Persistent(o) => match r {
                Cache::Persistent(p) => {
                    &&& p.options == o
                    &&& p.config == compiler_option.config
                    &&& p.make_entry is None
                    &&& p.compile_entry is None
                },
                _ => false,
            },
        },
{
    match &compiler_option.cache {
        CacheOptions::Disabled => Cache::Disabled,
        CacheOptions::Memory => Cache::Memory,
        CacheOptions::Persistent(o) => Cache::Persistent(
            PersistentCache::new(
                PersistentCacheOptions { storage: o.storage.clone() },
                compiler_option.config.clone(),
            ),
        ),
    }
}

/// The strategy that `compiler_option` selects; a persistent one starts
/// from the snapshots an earlier build stored, the others ignore them.
pub fn new_cache_with_snapshots(
    compiler_option: &CompilerOptions,
    make_entry: Option<MakeEntry>,
    compile_entry: Option<CompileEntry>,
) -> (r: Cache)
    requires
        compile_entry is Some ==> compile_entry->Some_0.compilation.wf(),
    ensures
        r.wf(),
        match compiler_option.cache {
            CacheOptions::Disabled => r is Disabled,
            CacheOptions::Memory => r is Memory,
            CacheOptions::Persistent(o) => match r {
                Cache::Persistent(p) => {
                    &&& p.options == o
                    &&& p.config == compiler_option.config
                    &&& p.make_entry == make_entry
                    &&& p.compile_entry == compile_entry
                },
                _ => false,
            },
        },
{
    match &compiler_option.cache {
        CacheOptions::Disabled => Cache::Disabled,
        CacheOptions::Memory => Cache::Memory,
        CacheOptions::Persistent(o) => Cache::Persistent(
            PersistentCache::with_snapshots(
                PersistentCacheOptions { storage: o.storage.clone() },
                compiler_option.config.clone(),
                make_entry,
                compile_entry,
            ),
        ),
    }
}

/// A make snapshot, once stored by one cache and handed to another (the
/// next build's cache, made by `new_cache_with_snapshots` from storage), is
/// restored by that cache under the same configuration for inputs with the same signatures, and missed when the
/// configuration or any signature differs.
pub proof fn lemma_make_round_trip(
    writer: PersistentCache,
    reader: PersistentCache,
    captured: MakeArtifactView,
    taken: Seq<FileSignature>,
    now: Seq<FileSignature>,
)
    requires
        writer.make_entry is Some,
        writer.make_entry->Some_0.config == writer.config,
        writer.make_entry->Some_0.inputs@ == taken,
        writer.make_entry->Some_0.artifact@ == captured,
        reader.make_entry == writer.make_entry,
    ensures
        reader.config@ == writer.config@ && signatures(now) == signatures(taken)
            ==> reader.make_restore(now) == Some(captured),
        reader.config@ != writer.config@ || signatures(now) != signatures(taken)
            ==> reader.make_restore(now) is None,
{
}

/// A compile snapshot, once stored by one cache and handed to another (the
/// next build's cache, made by `new_cache_with_snapshots` from storage), is
/// restored by that cache under the same configuration for inputs with the same signatures, and what
/// `before_compile` then leaves holds the same chunks and graph as the
/// captured compilation; the restore misses when the configuration or any
/// signature differs.
pub proof fn lemma_compile_round_trip(
    writer: PersistentCache,
    reader: PersistentCache,
    captured: Compilation,
    restored: Compilation,
    taken: Seq<FileSignature>,
    now: Seq<FileSignature>,
)
    requires
        writer.compile_entry is Some,
        writer.compile_entry->Some_0.config == writer.config,
        writer.compile_entry->Some_0.inputs@ == taken,
        writer.compile_entry->Some_0.compilation.same(captured),
        reader.compile_entry == writer.compile_entry,
        reader.compile_restore(now) is Some ==> restored.same(reader.compile_restore(now)->Some_0),
    ensures
        reader.config@ == writer.config@ && signatures(now) == signatures(taken) ==> {
            &&& reader.compile_restore(now) is Some
            &&& restored.same(captured)
        },
        reader.config@ != writer.config@ || signatures(now) != signatures(taken)
            ==> reader.compile_restore(now) is None,
{
    if reader.compile_restore(now) is Some {
        lemma_same_transitive(restored, reader.compile_restore(now)->Some_0, captured);
    }
}

} // verus!
