//! The node template store and the build root that owns it. Lookup walks
//! three tiers: already-built templates, registered filesystem paths, and
//! registered inline sources. Reading a file and parsing a source are the
//! caller's work; the cache hands out directives for them and memoizes
//! what the caller builds, so a path is read at most once.

use vstd::prelude::*;

use crate::error::Error;
use crate::exec::ExecIR;
use crate::seed::Seed;
use crate::strmap::StrMap;
use crate::tensor::{node_similar, TensorNode};

verus! {

/// The answer to a template lookup: a ready clone, or the work the caller
/// must do to produce the template.
#[derive(Debug)]
pub enum CacheQuery {
    /// An independent duplicate of the cached template.
    Hit(TensorNode),
    /// The registered source text; parse and build it, then store it.
    BuildSource { source: String },
    /// The registered path; read it, build the text, then store it.
    LoadPath { path: String },
}

/// Whether a name stack holds a name.
pub open spec fn stack_contains(s: Seq<String>, name: Seq<char>) -> bool {
    exists|i: int| 0 <= i < s.len() && s[i]@ == name
}

#[derive(Debug)]
pub struct NodeCache {
    paths: StrMap<String>,
    caches_source: StrMap<String>,
    caches: StrMap<TensorNode>,
    building: Vec<String>,
}

impl NodeCache {
    pub closed spec fn spec_paths(&self) -> StrMap<String> {
        self.paths
    }

    pub closed spec fn spec_sources(&self) -> StrMap<String> {
        self.caches_source
    }

    pub closed spec fn spec_built(&self) -> StrMap<TensorNode> {
        self.caches
    }

    pub closed spec fn spec_building(&self) -> Seq<String> {
        self.building@
    }

    /// A fresh cache over the given inline sources.
    pub fn new(caches: StrMap<String>) -> (r: Self)
        ensures
            r.spec_sources() == caches,
            r.spec_paths().spec_len() == 0,
            r.spec_built().spec_len() == 0,
            r.spec_building().len() == 0,
    {
        NodeCache {
            paths: StrMap::new(),
            caches_source: caches,
            caches: StrMap::new(),
            building: Vec::new(),
        }
    }

    /// Registers inline source text under a name.
    pub fn add_source(&mut self, name: String, source: String)
        ensures
            final(self).spec_sources().spec_get(name@) == Some(source),
            forall|k: Seq<char>|
                k != name@ ==> final(self).spec_sources().spec_get(k) == old(
                    self,
                ).spec_sources().spec_get(k),
            final(self).spec_paths() == old(self).spec_paths(),
            final(self).spec_built() == old(self).spec_built(),
            final(self).spec_building() == old(self).spec_building(),
    {
        let mut m = StrMap::new();
        core::mem::swap(&mut self.caches_source, &mut m);
        m.insert(name, source);
        core::mem::swap(&mut self.caches_source, &mut m);
    }

    /// Registers a filesystem path under a name.
    pub fn add_path(&mut self, name: String, path: String)
        ensures
            final(self).spec_paths().spec_get(name@) == Some(path),
            forall|k: Seq<char>|
                k != name@ ==> final(self).spec_paths().spec_get(k) == old(
                    self,
                ).spec_paths().spec_get(k),
            final(self).spec_sources() == old(self).spec_sources(),
            final(self).spec_built() == old(self).spec_built(),
            final(self).spec_building() == old(self).spec_building(),
    {
        let mut m = StrMap::new();
        core::mem::swap(&mut self.paths, &mut m);
        m.insert(name, path);
        core::mem::swap(&mut self.paths, &mut m);
    }

    /// An independent duplicate of an already-built template, if there is
    /// one; the cache itself does not change.
    pub fn get_built(&self, name: &String, seed: &mut Seed) -> (r: Option<TensorNode>)
        ensures
            match r {
                Some(n) => self.spec_built().spec_get(name@) matches Some(c) && node_similar(n, c),
                None => self.spec_built().spec_get(name@) is None,
            },
    {
        match self.caches.get(name) {
            Some(node) => {
                let mut minted: Vec<String> = Vec::new();
                Some(node.clone_safe(seed, &mut minted))
            },
            None => None,
        }
    }

    /// Looks a name up through the tiers. A built template answers with an
    /// independent clone and changes nothing. A path- or source-backed
    /// entry is taken out of its tier, the name is put on the building
    /// stack, and the caller is told what to do; a name already being
    /// built is a cycle and is refused. An unknown name is refused and the
    /// cache is left exactly as it was.
    pub fn get(&mut self, name: &String, seed: &mut Seed) -> (r: Result<CacheQuery, Error>)
        ensures
            match r {
                Ok(CacheQuery::Hit(n)) => {
                    &&& old(self).spec_built().spec_get(name@) matches Some(c) && node_similar(n, c)
                    &&& *final(self) == *old(self)
                },
                Ok(CacheQuery::BuildSource { source }) => {
                    &&& old(self).spec_built().spec_get(name@) is None
                    &&& !stack_contains(old(self).spec_building(), name@)
                    &&& old(self).spec_paths().spec_get(name@) is None
                    &&& old(self).spec_sources().spec_get(name@) == Some(source)
                    &&& final(self).spec_sources().spec_get(name@) is None
                    &&& forall|k: Seq<char>|
                        k != name@ ==> final(self).spec_sources().spec_get(k) == old(
                            self,
                        ).spec_sources().spec_get(k)
                    &&& final(self).spec_paths() == old(self).spec_paths()
                    &&& final(self).spec_built() == old(self).spec_built()
                    &&& final(self).spec_building() == old(self).spec_building().push(*name)
                },
                Ok(CacheQuery::LoadPath { path }) => {
                    &&& old(self).spec_built().spec_get(name@) is None
                    &&& !stack_contains(old(self).spec_building(), name@)
                    &&& old(self).spec_paths().spec_get(name@) == Some(path)
                    &&& final(self).spec_paths().spec_get(name@) is None
                    &&& forall|k: Seq<char>|
                        k != name@ ==> final(self).spec_paths().spec_get(k) == old(
                            self,
                        ).spec_paths().spec_get(k)
                    &&& final(self).spec_sources() == old(self).spec_sources()
                    &&& final(self).spec_built() == old(self).spec_built()
                    &&& final(self).spec_building() == old(self).spec_building().push(*name)
                },
                Err(e) => {
                    &&& *final(self) == *old(self)
                    &&& old(self).spec_built().spec_get(name@) is None
                    &&& (e matches Error::CyclicNodeReference { .. } <==> stack_contains(
                        old(self).spec_building(),
                        name@,
                    ))
                    &&& (e matches Error::NoSuchNode { .. } ==> {
                        &&& old(self).spec_paths().spec_get(name@) is None
                        &&& old(self).spec_sources().spec_get(name@) is None
                    })
                    &&& (e matches Error::NoSuchNode { name: n } ==> n@ == name@)
                    &&& (e matches Error::CyclicNodeReference { name: n } ==> n@ == name@)
                    &&& (e matches Error::NoSuchNode { .. } || e
                        matches Error::CyclicNodeReference { .. })
                },
            },
    {
        if let Some(node) = self.get_built(name, seed) {
            return Ok(CacheQuery::Hit(node));
        }
        if self.is_building(name) {
            return Err(Error::CyclicNodeReference { name: name.clone() });
        }
        let from_path = {
            let mut m = StrMap::new();
            core::mem::swap(&mut self.paths, &mut m);
            let taken = m.remove(name);
            core::mem::swap(&mut self.paths, &mut m);
            taken
        };
        if let Some(path) = from_path {
            self.push_building(name.clone());
            return Ok(CacheQuery::LoadPath { path });
        }
        let from_source = {
            let mut m = StrMap::new();
            core::mem::swap(&mut self.caches_source, &mut m);
            let taken = m.remove(name);
            core::mem::swap(&mut self.caches_source, &mut m);
            taken
        };
        if let Some(source) = from_source {
            self.push_building(name.clone());
            return Ok(CacheQuery::BuildSource { source });
        }
        Err(Error::NoSuchNode { name: name.clone() })
    }

    fn is_building(&self, name: &String) -> (r: bool)
        ensures
            r == stack_contains(self.spec_building(), name@),
    {
        let n = self.building.len();
        let mut i: usize = 0;
        while i < n
            invariant
                n == self.building@.len(),
                i <= n,
                forall|j: int| 0 <= j < i ==> self.building@[j]@ != name@,
            decreases n - i,
        {
            if self.building[i] == *name {
                return true;
            }
            i = i + 1;
        }
        false
    }

    fn push_building(&mut self, name: String)
        ensures
            final(self).spec_building() == old(self).spec_building().push(name),
            final(self).spec_paths() == old(self).spec_paths(),
            final(self).spec_sources() == old(self).spec_sources(),
            final(self).spec_built() == old(self).spec_built(),
    {
        let mut v: Vec<String> = Vec::new();
        core::mem::swap(&mut self.building, &mut v);
        v.push(name);
        core::mem::swap(&mut self.building, &mut v);
    }

    /// Memoizes a template the caller has built and hands back an
    /// independent duplicate. A template whose declared name differs from
    /// the requested one is refused and nothing changes; on success the
    /// name's entry on the building stack, if any, is taken off.
    pub fn store_built(&mut self, name: String, node: TensorNode, seed: &mut Seed) -> (r: Result<
        TensorNode,
        Error,
    >)
        ensures
            match r {
                Ok(cloned) => {
                    &&& node.spec_name() == name@
                    &&& node_similar(cloned, node)
                    &&& final(self).spec_built().spec_get(name@) == Some(node)
                    &&& forall|k: Seq<char>|
                        k != name@ ==> final(self).spec_built().spec_get(k) == old(
                            self,
                        ).spec_built().spec_get(k)
                    &&& final(self).spec_paths() == old(self).spec_paths()
                    &&& final(self).spec_sources() == old(self).spec_sources()
                    &&& (!stack_contains(old(self).spec_building(), name@)
                        ==> final(self).spec_building() == old(self).spec_building())
                    &&& (stack_contains(old(self).spec_building(), name@) ==> exists|i: int|
                        0 <= i < old(self).spec_building().len() && old(self).spec_building()[i]@
                            == name@ && final(self).spec_building() == old(
                            self,
                        ).spec_building().remove(i))
                },
                Err(e) => {
                    &&& node.spec_name() != name@
                    &&& *final(self) == *old(self)
                    &&& e matches Error::MismatchedName { expected, given } && expected@ == name@
                        && given@ == node.spec_name()
                },
            },
    {
        if *node.name() != name {
            return Err(
                Error::MismatchedName { expected: name, given: node.name().clone() },
            );
        }
        let mut minted: Vec<String> = Vec::new();
        let cloned = node.clone_safe(seed, &mut minted);
        let mut m = StrMap::new();
        core::mem::swap(&mut self.caches, &mut m);
        m.insert(name.clone(), node);
        core::mem::swap(&mut self.caches, &mut m);
        self.pop_building(&name);
        Ok(cloned)
    }

    fn pop_building(&mut self, name: &String)
        ensures
            final(self).spec_paths() == old(self).spec_paths(),
            final(self).spec_sources() == old(self).spec_sources(),
            final(self).spec_built() == old(self).spec_built(),
            !stack_contains(old(self).spec_building(), name@) ==> final(self).spec_building()
                == old(self).spec_building(),
            stack_contains(old(self).spec_building(), name@) ==> exists|i: int|
                0 <= i < old(self).spec_building().len() && old(self).spec_building()[i]@ == name@
                    && final(self).spec_building() == old(self).spec_building().remove(i),
    {
        let n = self.building.len();
        let mut i: usize = n;
        while i > 0
            invariant
                i <= n,
                n == self.building@.len(),
                *self == *old(self),
                forall|j: int| i <= j < n ==> self.building@[j]@ != name@,
            decreases i,
        {
            if self.building[i - 1] == *name {
                let ghost hit = i - 1;
                let mut v: Vec<String> = Vec::new();
                core::mem::swap(&mut self.building, &mut v);
                v.remove(i - 1);
                core::mem::swap(&mut self.building, &mut v);
                proof {
                    assert(old(self).spec_building()[hit as int]@ == name@);
                    assert(self.spec_building() == old(self).spec_building().remove(hit as int));
                }
                return ;
            }
            i = i - 1;
        }
    }
}

/// The shared build root: the deterministic id source, the template
/// cache, the registered auxiliary scripts, and the built program
/// templates.
#[derive(Debug)]
pub struct NodeRoot {
    pub seed: Seed,
    pub cache: NodeCache,
    pub extern_sources: StrMap<String>,
    pub execs: StrMap<ExecIR>,
}

impl NodeRoot {
    pub fn new() -> (r: Self)
        ensures
            r.cache.spec_built().spec_len() == 0,
            r.cache.spec_paths().spec_len() == 0,
            r.cache.spec_sources().spec_len() == 0,
            r.extern_sources.spec_len() == 0,
            r.execs.spec_len() == 0,
    {
        NodeRoot {
            seed: Seed::new(),
            cache: NodeCache::new(StrMap::new()),
            extern_sources: StrMap::new(),
            execs: StrMap::new(),
        }
    }

    /// An independent duplicate of a built template.
    pub fn get_built(&mut self, name: &String) -> (r: Option<TensorNode>)
        ensures
            match r {
                Some(n) => old(self).cache.spec_built().spec_get(name@) matches Some(c)
                    && node_similar(n, c),
                None => old(self).cache.spec_built().spec_get(name@) is None,
            },
            final(self).cache == old(self).cache,
            final(self).extern_sources == old(self).extern_sources,
            final(self).execs == old(self).execs,
    {
        let NodeRoot { seed, cache, extern_sources: _, execs: _ } = self;
        cache.get_built(name, seed)
    }

    /// The auxiliary script registered under a name.
    pub fn get_extern(&self, name: &String) -> (r: Result<String, Error>)
        ensures
            match r {
                Ok(s) => self.extern_sources.spec_get(name@) matches Some(src) && src@ == s@,
                Err(e) => self.extern_sources.spec_get(name@) is None && e
                    matches Error::NoSuchExtern { .. },
            },
    {
        match self.extern_sources.get(name) {
            Some(s) => Ok(s.clone()),
            None => Err(Error::NoSuchExtern { name: name.clone() }),
        }
    }

    pub fn add_extern_source(&mut self, name: String, source: String)
        ensures
            final(self).extern_sources.spec_get(name@) == Some(source),
            forall|k: Seq<char>|
                k != name@ ==> final(self).extern_sources.spec_get(k) == old(
                    self,
                ).extern_sources.spec_get(k),
            final(self).cache == old(self).cache,
            final(self).execs == old(self).execs,
            final(self).seed == old(self).seed,
    {
        let mut m = StrMap::new();
        core::mem::swap(&mut self.extern_sources, &mut m);
        m.insert(name, source);
        core::mem::swap(&mut self.extern_sources, &mut m);
    }
}

} // verus!
