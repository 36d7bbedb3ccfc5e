//! A cache of loaded resources. A resource is loaded when it is first asked
//! for and is handed out shared from then on; nothing is ever evicted.

use std::rc::Rc;
use vstd::prelude::*;

verus! {

/// What can load a resource of kind `R` from a description of it.
pub trait ResourceLoader<'l, R> {
    /// The description of a resource.
    type Args;

    /// Loads the resource that `data` describes, or says why it cannot.
    fn load(&'l self, data: &Self::Args) -> Result<R, String>;
}

/// A description that can serve as the key of the cache: two descriptions
/// stand for the same resource when their views are equal.
pub trait ResourceKey: View + Sized {
    /// Whether the two descriptions stand for the same resource.
    fn same_key(&self, other: &Self) -> (same: bool)
        ensures
            same == (self@ == other@),
    ;

    /// Another description of the same resource.
    fn duplicate(&self) -> (copy: Self)
        ensures
            copy@ == self@,
    ;
}

/// What is needed to load a font: the bytes of the font file and the point size.
pub struct FontDetails {
    pub content: &'static [u8],
    pub size: u16,
}

impl View for FontDetails {
    type V = (Seq<u8>, u16);

    open spec fn view(&self) -> (Seq<u8>, u16) {
        (self.content@, self.size)
    }
}

impl ResourceKey for FontDetails {
    fn same_key(&self, other: &Self) -> (same: bool) {
        if self.size != other.size || self.content.len() != other.content.len() {
            return false;
        }
        let mut i: usize = 0;
        while i < self.content.len()
            invariant
                i <= self.content.len(),
                self.content.len() == other.content.len(),
                self.content@.take(i as int) == other.content@.take(i as int),
            decreases self.content.len() - i,
        {
            if self.content[i] != other.content[i] {
                return false;
            }
            assert(self.content@.take(i + 1) =~= self.content@.take(i as int).push(
                self.content@[i as int],
            ));
            assert(other.content@.take(i + 1) =~= other.content@.take(i as int).push(
                other.content@[i as int],
            ));
            i += 1;
        }
        assert(self.content@.take(i as int) =~= self.content@);
        assert(other.content@.take(i as int) =~= other.content@);
        true
    }

    fn duplicate(&self) -> (copy: Self) {
        FontDetails { content: self.content, size: self.size }
    }
}

/// The resource that is cached under a key, if there is one: the first entry
/// with that key.
pub open spec fn cached<KV, R>(entries: Seq<(KV, Rc<R>)>, key: KV) -> Option<Rc<R>>
    decreases entries.len(),
{
    if entries.len() == 0 {
        None
    } else if entries[0].0 == key {
        Some(entries[0].1)
    } else {
        cached(entries.skip(1), key)
    }
}

/// The cache: a loader, and what it has loaded so far, each resource under
/// the description that it was loaded from.
pub struct ResourceManager<'l, K, R, L> {
    loader: &'l L,
    cache: Vec<(K, Rc<R>)>,
}

impl<'l, K: ResourceKey, R, L: ResourceLoader<'l, R, Args = K>> ResourceManager<'l, K, R, L> {
    /// What is cached: keys with their resources, in the order in which they
    /// were loaded.
    pub closed spec fn entries(&self) -> Seq<(K::V, Rc<R>)> {
        Seq::new(self.cache@.len(), |i: int| (self.cache@[i].0@, self.cache@[i].1))
    }

    /// What loads the resources.
    pub closed spec fn loader(&self) -> &'l L {
        self.loader
    }

    /// An empty cache in front of `loader`.
    pub fn new(loader: &'l L) -> (manager: Self)
        ensures
            manager.entries() == Seq::<(K::V, Rc<R>)>::empty(),
            manager.loader() == loader,
    {
        let manager = ResourceManager { loader, cache: Vec::new() };
        assert(manager.entries() =~= Seq::<(K::V, Rc<R>)>::empty());
        manager
    }

    /// The resource that is cached under `details`, if there is one.
    pub fn lookup(&self, details: &K) -> (found: Option<Rc<R>>)
        ensures
            found == cached(self.entries(), details@),
    {
        let mut i: usize = 0;
        assert(self.entries().skip(0) =~= self.entries());
        while i < self.cache.len()
            invariant
                i <= self.cache.len(),
                cached(self.entries(), details@) == cached(self.entries().skip(i as int), details@),
            decreases self.cache.len() - i,
        {
            let ghost rest = self.entries().skip(i as int);
            assert(rest.skip(1) =~= self.entries().skip(i + 1));
            assert(rest[0] == self.entries()[i as int]);
            if self.cache[i].0.same_key(details) {
                return Some(self.cache[i].1.clone());
            }
            i += 1;
        }
        None
    }

    /// Takes what the loader made of `details`: a resource is cached under
    /// `details` and handed out, a failure is handed on and caches nothing.
    pub fn store(&mut self, details: &K, loaded: Result<R, String>) -> (outcome: Result<
        Rc<R>,
        String,
    >)
        ensures
            final(self).loader() == old(self).loader(),
            match loaded {
                Ok(resource) => outcome is Ok && *outcome->Ok_0 == resource && final(self).entries()
                    == old(self).entries().push((details@, outcome->Ok_0)),
                Err(e) => outcome == Err::<Rc<R>, String>(e) && final(self).entries() == old(
                    self,
                ).entries(),
            },
    {
        match loaded {
            Ok(resource) => {
                let resource = Rc::new(resource);
                self.cache.push((details.duplicate(), resource.clone()));
                assert(self.entries() =~= old(self).entries().push((details@, resource)));
                Ok(resource)
            },
            Err(e) => Err(e),
        }
    }

    /// The resource that `details` describes. What is cached is handed out
    /// as it is, and the loader is not asked. What is not cached is loaded,
    /// and cached if that succeeds; a failure of the loader is handed on and
    /// leaves the cache as it was.
    pub fn load(&mut self, details: &K) -> (outcome: Result<Rc<R>, String>)
        ensures
            final(self).loader() == old(self).loader(),
            match cached(old(self).entries(), details@) {
                Some(resource) => outcome == Ok::<Rc<R>, String>(resource) && final(self).entries()
                    == old(self).entries(),
                None => match outcome {
                    Ok(resource) => final(self).entries() == old(self).entries().push(
                        (details@, resource),
                    ),
                    Err(_) => final(self).entries() == old(self).entries(),
                },
            },
            outcome is Ok ==> cached(final(self).entries(), details@) == Some(outcome->Ok_0),
    {
        match self.lookup(details) {
            Some(resource) => Ok(resource),
            None => {
                let loaded = self.loader.load(details);
                let outcome = self.store(details, loaded);
                proof {
                    if outcome is Ok {
                        lemma_cached_after_push(
                            old(self).entries(),
                            details@,
                            outcome->Ok_0,
                            details@,
                        );
                    }
                }
                outcome
            },
        }
    }
}

/// A resource that is stored behind the others is found under its key, unless
/// an earlier entry has that key; what was found under any key before is
/// still found.
pub proof fn lemma_cached_after_push<KV, R>(
    entries: Seq<(KV, Rc<R>)>,
    key: KV,
    resource: Rc<R>,
    asked: KV,
)
    ensures
        cached(entries.push((key, resource)), asked) == (match cached(entries, asked) {
            Some(found) => Some(found),
            None => if asked == key {
                Some(resource)
            } else {
                None
            },
        }),
    decreases entries.len(),
{
    let pushed = entries.push((key, resource));
    if entries.len() == 0 {
        assert(pushed.skip(1) =~= Seq::<(KV, Rc<R>)>::empty());
    } else {
        assert(pushed.skip(1) =~= entries.skip(1).push((key, resource)));
        lemma_cached_after_push(entries.skip(1), key, resource, asked);
    }
}

} // verus!
