use vstd::prelude::*;

use crate::providers::ProviderError;
use std::rc::Rc;

verus! {

/// Converts a decoded raster image into a display-ready resource. The
/// display-backed implementation lives outside the library, beside the
/// rendering context it needs.
pub trait ResourceLoader<R> {
    fn load(&self, image: image::DynamicImage) -> Result<R, String>;
}

/// The resources cached so far, keyed by page file name. A later binding of
/// the same key would shadow an earlier one, but the cache never inserts a
/// key twice.
pub open spec fn resource_map<R>(s: Seq<(String, Rc<R>)>) -> Map<Seq<char>, Rc<R>>
    decreases s.len(),
{
    if s.len() == 0 {
        Map::empty()
    } else {
        resource_map(s.drop_last()).insert(s.last().0@, s.last().1)
    }
}

/// Every binding is in the map, and a key the list nowhere names is absent.
proof fn lemma_resource_map_lookup<R>(s: Seq<(String, Rc<R>)>, key: Seq<char>)
    ensures
        resource_map(s).contains_key(key) <==> exists|i: int|
            0 <= i < s.len() && #[trigger] s[i].0@ == key,
    decreases s.len(),
{
    if s.len() > 0 {
        lemma_resource_map_lookup(s.drop_last(), key);
        if resource_map(s).contains_key(key) {
            if s.last().0@ == key {
                assert(s[s.len() - 1].0@ == key);
            } else {
                assert(exists|i: int| 0 <= i < s.len() - 1 && #[trigger] s.drop_last()[i].0@
                    == key);
                let i = choose|i: int| 0 <= i < s.len() - 1 && #[trigger] s.drop_last()[i].0@
                    == key;
                assert(s[i].0@ == key);
            }
        }
        if exists|i: int| 0 <= i < s.len() && #[trigger] s[i].0@ == key {
            let i = choose|i: int| 0 <= i < s.len() && #[trigger] s[i].0@ == key;
            if i < s.len() - 1 {
                assert(s.drop_last()[i].0@ == key);
            }
        }
    }
}

/// When the keys in the list are pairwise distinct, the map returns the
/// resource bound beside each key.
proof fn lemma_resource_map_index<R>(s: Seq<(String, Rc<R>)>, i: int)
    requires
        0 <= i < s.len(),
        forall|a: int, b: int| 0 <= a < b < s.len() ==> s[a].0@ != s[b].0@,
    ensures
        resource_map(s).contains_key(s[i].0@),
        resource_map(s)[s[i].0@] == s[i].1,
    decreases s.len(),
{
    lemma_resource_map_lookup(s, s[i].0@);
    if i == s.len() - 1 {
    } else {
        assert(s.drop_last()[i] == s[i]);
        lemma_resource_map_index(s.drop_last(), i);
        assert(s.last().0@ != s[i].0@);
    }
}

/// Relies on Rc::clone: the returned handle points at the same allocation,
/// so it equals the one cloned.
#[verifier::external_body]
fn rc_clone<T>(rc: &Rc<T>) -> (r: Rc<T>)
    ensures
        r == *rc,
{
    Rc::clone(rc)
}

/// A key-value cache from a page's file name to its display-ready resource.
/// Each key's resource is converted at most once and never evicted for the
/// manager's lifetime. The cache trusts the keys it is given: a caller that
/// reads several archives whose members share names should qualify the key
/// with the comic's title, or two pages will collapse into one entry.
pub struct TextureManager<R, L> {
    pub loader: L,
    pub cache: Vec<(String, Rc<R>)>,
}

impl<R, L: ResourceLoader<R>> TextureManager<R, L> {
    /// The cache's invariant: no key is bound twice.
    pub open spec fn wf(self) -> bool {
        forall|a: int, b: int| 0 <= a < b < self.cache@.len() ==> self.cache@[a].0@
            != self.cache@[b].0@
    }

    /// The cache's contents, as a map from file name to resource.
    pub open spec fn contents(self) -> Map<Seq<char>, Rc<R>> {
        resource_map(self.cache@)
    }

    pub fn new(loader: L) -> (r: Self)
        ensures
            r.wf(),
            r.contents() == Map::<Seq<char>, Rc<R>>::empty(),
    {
        TextureManager { loader, cache: Vec::new() }
    }

    /// Whether a resource is already cached under `key`.
    pub fn has(&self, key: &str) -> (r: bool)
        requires
            self.wf(),
        ensures
            r == self.contents().contains_key(key@),
    {
        proof {
            lemma_resource_map_lookup(self.cache@, key@);
        }
        let owned = key.to_owned();
        let n = self.cache.len();
        let mut i: usize = 0;
        while i < n
            invariant
                i <= n,
                n == self.cache@.len(),
                owned@ == key@,
                forall|k: int| 0 <= k < i ==> #[trigger] self.cache@[k].0@ != key@,
            decreases n - i,
        {
            if self.cache[i].0 == owned {
                proof {
                    assert(exists|j: int|
                        0 <= j < self.cache@.len() && #[trigger] self.cache@[j].0@ == key@) by {
                        assert(self.cache@[i as int].0@ == key@);
                    }
                    lemma_resource_map_lookup(self.cache@, key@);
                }
                return true;
            }
            i = i + 1;
        }
        false
    }

    /// The resource cached under `key`, without any conversion being run.
    pub fn get(&self, key: &str) -> (r: Option<Rc<R>>)
        requires
            self.wf(),
        ensures
            r is Some <==> self.contents().contains_key(key@),
            r is Some ==> r.unwrap() == self.contents()[key@],
    {
        proof {
            lemma_resource_map_lookup(self.cache@, key@);
        }
        let owned = key.to_owned();
        let n = self.cache.len();
        let mut i: usize = 0;
        while i < n
            invariant
                i <= n,
                n == self.cache@.len(),
                self.wf(),
                owned@ == key@,
                forall|k: int| 0 <= k < i ==> #[trigger] self.cache@[k].0@ != key@,
            decreases n - i,
        {
            if self.cache[i].0 == owned {
                proof {
                    lemma_resource_map_index(self.cache@, i as int);
                }
                return Some(rc_clone(&self.cache[i].1));
            }
            i = i + 1;
        }
        None
    }

    /// Returns the resource for `key`: the cached one when present — the
    /// supplied image is then ignored — else the one the loader converts the
    /// image into, cached under `key` from now on. The conversion cost is
    /// paid at most once per key for the manager's lifetime.
    pub fn load(&mut self, key: &str, img: image::DynamicImage) -> (r: Result<
        Rc<R>,
        ProviderError,
    >)
        requires
            old(self).wf(),
        ensures
            final(self).wf(),
            old(self).contents().contains_key(key@) ==> {
                &&& r is Ok
                &&& r.unwrap() == old(self).contents()[key@]
                &&& final(self).contents() == old(self).contents()
            },
            !old(self).contents().contains_key(key@) ==> match r {
                Ok(res) => final(self).contents() == old(self).contents().insert(key@, res),
                Err(e) => e == ProviderError::LoadError && final(self).contents()
                    == old(self).contents(),
            },
            final(self).contents().contains_key(key@) ==> r is Ok
                && final(self).contents()[key@] == r.unwrap(),
    {
        let existing = self.get(key);
        match existing {
            Some(res) => Ok(res),
            None => {
                match self.loader.load(img) {
                    Ok(texture) => {
                        let rc = Rc::new(texture);
                        let ghost prev = self.cache@;
                        self.cache.push((key.to_owned(), rc_clone(&rc)));
                        proof {
                            assert(self.cache@.drop_last() =~= prev);
                            lemma_resource_map_lookup(prev, key@);
                            assert forall|a: int, b: int|
                                0 <= a < b < self.cache@.len() implies self.cache@[a].0@
                                != self.cache@[b].0@ by {
                                if b == self.cache@.len() - 1 {
                                    assert(prev[a].0@ != key@);
                                }
                            }
                        }
                        Ok(rc)
                    },
                    Err(_) => Err(ProviderError::LoadError),
                }
            },
        }
    }
}

} // verus!
