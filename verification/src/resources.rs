use std::hash::Hash;
use std::rc::Rc;
use vstd::prelude::*;
use vstd::std_specs::cmp::PartialEqSpec;

verus! {

/// Relies on std's `Rc::clone`: the clone is a new shared handle to the same
/// allocation, so it carries the same value as the handle it was cloned from.
#[verifier::external_body]
fn clone_handle<T>(handle: &Rc<T>) -> (res: Rc<T>)
    ensures
        res == *handle,
{
    Rc::clone(handle)
}

/// A key type is fit for cache lookups when its executable `==` agrees with
/// its specification-level `eq_spec`, and that relation is an equivalence
/// (reflexive, symmetric, transitive), as the `Eq` contract demands.
pub open spec fn lawful_key<K: PartialEqSpec>() -> bool {
    &&& K::obeys_eq_spec()
    &&& forall|k: K| #[trigger] k.eq_spec(&k)
    &&& forall|k1: K, k2: K| #[trigger] k1.eq_spec(&k2) ==> k2.eq_spec(&k1)
    &&& forall|k1: K, k2: K, k3: K| k1.eq_spec(&k2) && #[trigger] k2.eq_spec(&k3)
        ==> #[trigger] k1.eq_spec(&k3)
}

/// What an association sequence of cache entries yields for a descriptor,
/// searched front to back: the first entry whose key matches the descriptor
/// under `eq_spec` decides, and `None` means a cache miss.
pub open spec fn lookup<K: PartialEqSpec, V>(entries: Seq<(K, V)>, d: K) -> Option<V>
    decreases entries.len(),
{
    if entries.len() == 0 {
        None
    } else if entries[0].0.eq_spec(&d) {
        Some(entries[0].1)
    } else {
        lookup(entries.drop_first(), d)
    }
}

proof fn lemma_lookup_first_match<K: PartialEqSpec, V>(s: Seq<(K, V)>, d: K, i: int)
    requires
        0 <= i < s.len(),
        s[i].0.eq_spec(&d),
        forall|j: int| 0 <= j < i ==> !(#[trigger] s[j].0.eq_spec(&d)),
    ensures
        lookup(s, d) == Some(s[i].1),
    decreases i,
{
    if i > 0 {
        lemma_lookup_first_match(s.drop_first(), d, i - 1);
    }
}

proof fn lemma_lookup_no_match<K: PartialEqSpec, V>(s: Seq<(K, V)>, d: K)
    requires
        forall|j: int| 0 <= j < s.len() ==> !(#[trigger] s[j].0.eq_spec(&d)),
    ensures
        lookup(s, d) is None,
    decreases s.len(),
{
    if s.len() > 0 {
        lemma_lookup_no_match(s.drop_first(), d);
    }
}

proof fn lemma_lookup_push<K: PartialEqSpec, V>(s: Seq<(K, V)>, k: K, v: V, d: K)
    ensures
        lookup(s.push((k, v)), d) == (if lookup(s, d) is Some {
            lookup(s, d)
        } else if k.eq_spec(&d) {
            Some(v)
        } else {
            None
        }),
    decreases s.len(),
{
    if s.len() == 0 {
        assert(s.push((k, v))[0] == (k, v));
        assert(s.push((k, v)).drop_first() =~= Seq::<(K, V)>::empty());
        assert(lookup(Seq::<(K, V)>::empty(), d) is None);
    } else {
        assert(s.push((k, v)).drop_first() =~= s.drop_first().push((k, v)));
        lemma_lookup_push(s.drop_first(), k, v, d);
    }
}

/// Descriptor for a typeface resource: the font file together with the
/// point size it is to be rendered at.
#[derive(Eq, Hash, Clone, Debug)]
pub struct FontDetails {
    pub path: String,
    pub size: u16,
}

impl PartialEq for FontDetails {
    fn eq(&self, other: &FontDetails) -> bool {
        self.path == other.path && self.size == other.size
    }
}

impl vstd::std_specs::cmp::PartialEqSpecImpl for FontDetails {
    open spec fn obeys_eq_spec() -> bool {
        true
    }

    open spec fn eq_spec(&self, other: &FontDetails) -> bool {
        self.path@ == other.path@ && self.size == other.size
    }
}

impl<'a> From<&'a FontDetails> for FontDetails {
    /// Converts a borrowed descriptor into an owned, equal one.
    fn from(details: &'a FontDetails) -> FontDetails {
        FontDetails { path: details.path.clone(), size: details.size }
    }
}

impl<'a> vstd::std_specs::convert::FromSpecImpl<&'a FontDetails> for FontDetails {
    open spec fn obeys_from_spec() -> bool {
        true
    }

    open spec fn from_spec(details: &'a FontDetails) -> FontDetails {
        *details
    }
}

/// Font descriptors are lawful cache keys: their equality compares the
/// path's characters and the size, which is an equivalence relation.
pub proof fn lemma_font_details_lawful_key()
    ensures
        lawful_key::<FontDetails>(),
{
}

/// An external capability that can produce a resource of type `R` from a
/// lookup descriptor of type `Args`, or fail with a message. Implementors
/// are supplied by the caller; the cache promises nothing about what a
/// loader returns, only about how it stores and reuses the outcome.
pub trait ResourceLoader<R> {
    type Args;

    fn load(&self, data: &Self::Args) -> Result<R, String>;
}

/// A keyed resource cache: it is bound to one loader capability for its
/// lifetime and hands out shared handles to resources, producing each
/// resource at most once per distinct descriptor value.
pub struct ResourceManager<K, R, L>
    where
        K: Hash + Eq,
        L: ResourceLoader<R>,
{
    loader: L,
    cache: Vec<(K, Rc<R>)>,
}

impl<K, R, L> ResourceManager<K, R, L>
    where
        K: Hash + Eq + PartialEqSpec,
        L: ResourceLoader<R>,
{
    /// The cached entries, oldest first, each a key paired with the shared
    /// handle stored for it.
    pub closed spec fn entries(self) -> Seq<(K, Rc<R>)> {
        self.cache@
    }

    /// The loader capability the cache was bound to at construction.
    pub closed spec fn loader(self) -> L {
        self.loader
    }

    /// Whether a resource is cached for a descriptor equal to `d`.
    pub open spec fn contains(self, d: K) -> bool {
        lookup(self.entries(), d) is Some
    }

    /// The shared handle cached for `d`; meaningful only when `contains(d)`.
    pub open spec fn resource_at(self, d: K) -> Rc<R> {
        lookup(self.entries(), d).unwrap()
    }

    /// Creates an empty cache bound to `loader` for its whole lifetime.
    pub fn new(loader: L) -> (res: Self)
        ensures
            res.entries().len() == 0,
            res.loader() == loader,
    {
        ResourceManager { cache: Vec::new(), loader }
    }

    /// Returns a shared handle to the resource for `details`. A hit returns
    /// the cached handle without consulting the loader; a miss asks the
    /// loader once and, only on success, stores the fresh handle under
    /// `details`; a loader failure is surfaced unchanged and leaves the
    /// cache exactly as it was.
    #[verifier::loop_isolation(false)]
    pub fn load(&mut self, details: K) -> (res: Result<Rc<R>, String>)
        where
            L: ResourceLoader<R, Args = K>,
        requires
            lawful_key::<K>(),
        ensures
            final(self).loader() == old(self).loader(),
            old(self).contains(details) ==> res is Ok,
            res matches Ok(h) ==> ({
                &&& final(self).contains(details)
                &&& final(self).resource_at(details) == h
                &&& old(self).contains(details) ==> h == old(self).resource_at(details)
                    && *final(self) == *old(self)
                &&& !old(self).contains(details) ==> final(self).entries()
                    == old(self).entries().push((details, h))
            }),
            res matches Err(_) ==> *final(self) == *old(self)
                && !old(self).contains(details),
    {
        let n = self.cache.len();
        let mut i: usize = 0;
        while i < n
            invariant
                i <= n,
                forall|j: int| 0 <= j < i ==> !(#[trigger] self.cache@[j].0.eq_spec(&details)),
            decreases n - i,
        {
            if self.cache[i].0 == details {
                proof {
                    lemma_lookup_first_match(self.cache@, details, i as int);
                }
                return Ok(clone_handle(&self.cache[i].1));
            }
            i = i + 1;
        }
        proof {
            lemma_lookup_no_match(self.cache@, details);
        }
        match self.loader.load(&details) {
            Ok(resource) => {
                let handle = Rc::new(resource);
                let out = clone_handle(&handle);
                proof {
                    lemma_lookup_push(self.cache@, details, handle, details);
                }
                self.cache.push((details, handle));
                Ok(out)
            },
            Err(message) => Err(message),
        }
    }
}

proof fn lemma_lookup_respects_eq<K: PartialEqSpec, V>(s: Seq<(K, V)>, d1: K, d2: K)
    requires
        lawful_key::<K>(),
        d1.eq_spec(&d2),
    ensures
        lookup(s, d1) == lookup(s, d2),
    decreases s.len(),
{
    if s.len() > 0 {
        lemma_lookup_respects_eq(s.drop_first(), d1, d2);
    }
}

/// Memoization: once the resource for a previously missing descriptor has
/// been inserted, the cache contains that descriptor and a lookup with it
/// yields exactly the inserted handle — so a later `load` returns the same
/// shared handle instead of producing a fresh resource.
pub proof fn lemma_memoization<K, R, L>(
    pre: ResourceManager<K, R, L>,
    post: ResourceManager<K, R, L>,
    d: K,
    h: Rc<R>,
)
    where
        K: Hash + Eq + PartialEqSpec,
        L: ResourceLoader<R>,
    requires
        lawful_key::<K>(),
        !pre.contains(d),
        post.entries() == pre.entries().push((d, h)),
    ensures
        post.contains(d),
        post.resource_at(d) == h,
{
    lemma_lookup_push(pre.entries(), d, h, d);
}

/// Key equivalence: two descriptors that are equal by value name the same
/// cache entry — they are cached or missing together, and when cached they
/// yield the same shared handle.
pub proof fn lemma_key_equivalence<K, R, L>(c: ResourceManager<K, R, L>, d1: K, d2: K)
    where
        K: Hash + Eq + PartialEqSpec,
        L: ResourceLoader<R>,
    requires
        lawful_key::<K>(),
        d1.eq_spec(&d2),
    ensures
        c.contains(d1) == c.contains(d2),
        c.contains(d1) ==> c.resource_at(d1) == c.resource_at(d2),
{
    lemma_lookup_respects_eq(c.entries(), d1, d2);
}

/// Independence across distinct descriptors: inserting a resource for one
/// descriptor neither adds, removes, nor changes the entry of any
/// descriptor that is not equal to it by value.
pub proof fn lemma_independence<K, R, L>(
    pre: ResourceManager<K, R, L>,
    post: ResourceManager<K, R, L>,
    d1: K,
    h: Rc<R>,
    d2: K,
)
    where
        K: Hash + Eq + PartialEqSpec,
        L: ResourceLoader<R>,
    requires
        lawful_key::<K>(),
        !d1.eq_spec(&d2),
        post.entries() == pre.entries().push((d1, h)),
    ensures
        post.contains(d2) == pre.contains(d2),
        pre.contains(d2) ==> post.resource_at(d2) == pre.resource_at(d2),
{
    lemma_lookup_push(pre.entries(), d1, h, d2);
}

} // verus!
