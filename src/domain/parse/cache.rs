//! A bounded, least-recently-used cache of parsed trees, keyed by a hash of
//! the raw input.

use crate::domain::parse::error::ParseError;
use crate::infra::parser::html::{markup_tree, parses, HtmlParser};
use crate::infra::parser::vdom::{well_formed, VDom, VDomView};
use lru::LruCache;
use std::collections::hash_map::{DefaultHasher, RandomState};
use std::hash::Hasher;
use std::num::NonZeroUsize;
use std::sync::Arc;
use vstd::prelude::*;
use vstd::std_specs::hash::DefaultHasherAdditionalSpecFns;
use vstd::utf8::encode_utf8;

verus! {

#[verifier::external_type_specification]
#[verifier::external_body]
#[verifier::reject_recursive_types(K)]
#[verifier::reject_recursive_types(V)]
#[verifier::reject_recursive_types(S)]
pub struct ExLruCache<K, V, S>(LruCache<K, V, S>);

/// The cache that holds the parsed trees.
pub type TreeCache = LruCache<u64, Arc<VDom>, RandomState>;

/// What a tree cache holds, from the least to the most recently used entry.
pub uninterp spec fn cached_entries(c: TreeCache) -> Seq<(u64, VDomView)>;

/// The capacity that a tree cache was made with.
pub uninterp spec fn cache_capacity(c: TreeCache) -> nat;

/// Each key occurs at most once.
pub open spec fn keys_unique(s: Seq<(u64, VDomView)>) -> bool {
    forall|i: int, j: int| 0 <= i < j < s.len() ==> #[trigger] s[i].0 != #[trigger] s[j].0
}

/// The first index before `n` that holds `key`, or -1.
pub open spec fn key_index(s: Seq<(u64, VDomView)>, key: u64, n: int) -> int
    decreases n,
{
    if n <= 0 {
        -1
    } else if key_index(s, key, n - 1) >= 0 {
        key_index(s, key, n - 1)
    } else if s[n - 1].0 == key {
        n - 1
    } else {
        -1
    }
}

/// The index of `key` in the entries, or -1.
pub open spec fn index_of(s: Seq<(u64, VDomView)>, key: u64) -> int {
    key_index(s, key, s.len() as int)
}

/// The entries after entry `i` is used: it becomes the most recent.
pub open spec fn touched(s: Seq<(u64, VDomView)>, i: int) -> Seq<(u64, VDomView)> {
    s.remove(i).push(s[i])
}

/// The entries after a key that they lack is stored, evicting the least
/// recently used entry when full.
pub open spec fn stored(s: Seq<(u64, VDomView)>, cap: nat, key: u64, t: VDomView) -> Seq<(u64, VDomView)> {
    if s.len() < cap {
        s.push((key, t))
    } else {
        s.drop_first().push((key, t))
    }
}

/// Relies on `LruCache::with_hasher`: a new cache is empty and keeps the
/// capacity it is given.
#[verifier::external_body]
fn new_tree_cache(cap: usize) -> (r: TreeCache)
    requires
        cap > 0,
    ensures
        cached_entries(r) == Seq::<(u64, VDomView)>::empty(),
        cache_capacity(r) == cap,
{
    LruCache::with_hasher(NonZeroUsize::new(cap).unwrap(), RandomState::new())
}

/// Relies on `LruCache::get`: a present key returns its tree and becomes the
/// most recently used; an absent key changes nothing.
#[verifier::external_body]
fn cache_get(c: &mut TreeCache, key: u64) -> (r: Option<Arc<VDom>>)
    requires
        keys_unique(cached_entries(*old(c))),
    ensures
        cache_capacity(*final(c)) == cache_capacity(*old(c)),
        keys_unique(cached_entries(*final(c))),
        index_of(cached_entries(*old(c)), key) >= 0 ==> {
            let i = index_of(cached_entries(*old(c)), key);
            &&& r matches Some(t) && t@ == cached_entries(*old(c))[i].1
            &&& cached_entries(*final(c)) == touched(cached_entries(*old(c)), i)
        },
        index_of(cached_entries(*old(c)), key) < 0 ==> r is None && cached_entries(*final(c)) == cached_entries(*old(c)),
{
    c.get(&key).cloned()
}

/// Relies on `LruCache::contains`: whether the key is present, without
/// touching its recency.
#[verifier::external_body]
fn cache_contains(c: &TreeCache, key: u64) -> (r: bool)
    ensures
        r == (index_of(cached_entries(*c), key) >= 0),
{
    c.contains(&key)
}

/// Relies on `LruCache::put`: a present key gets the new tree and becomes
/// the most recent; a new key is added as the most recent, after evicting
/// the least recently used entry when the cache is full.
#[verifier::external_body]
fn cache_put(c: &mut TreeCache, key: u64, tree: &Arc<VDom>)
    requires
        keys_unique(cached_entries(*old(c))),
        cached_entries(*old(c)).len() <= cache_capacity(*old(c)),
    ensures
        cache_capacity(*final(c)) == cache_capacity(*old(c)),
        keys_unique(cached_entries(*final(c))),
        cached_entries(*final(c)).len() <= cache_capacity(*final(c)),
        index_of(cached_entries(*old(c)), key) >= 0 ==> {
            let i = index_of(cached_entries(*old(c)), key);
            cached_entries(*final(c)) == cached_entries(*old(c)).remove(i).push((key, tree@))
        },
        index_of(cached_entries(*old(c)), key) < 0 ==> cached_entries(*final(c)) == stored(
            cached_entries(*old(c)),
            cache_capacity(*old(c)),
            key,
            tree@,
        ),
{
    c.put(key, Arc::clone(tree));
}

/// The cache key of a document: the standard library's default hash of its
/// UTF-8 bytes.
pub open spec fn content_key(html: Seq<char>) -> u64 {
    DefaultHasher::spec_finish(seq![encode_utf8(html)])
}

/// Computes the cache key of a document.
pub fn key_of(html: &str) -> (r: u64)
    ensures
        r == content_key(html@),
{
    let mut hasher = DefaultHasher::new();
    hasher.write(html.as_bytes());
    hasher.finish()
}

proof fn lemma_key_index(s: Seq<(u64, VDomView)>, key: u64, n: int)
    requires
        0 <= n <= s.len(),
    ensures
        key_index(s, key, n) < 0 <==> forall|j: int| 0 <= j < n ==> #[trigger] s[j].0 != key,
        key_index(s, key, n) >= 0 ==> key_index(s, key, n) < n && s[key_index(s, key, n)].0 == key,
    decreases n,
{
    if n > 0 {
        lemma_key_index(s, key, n - 1);
    }
}

/// One use of a parse cache: with entries `old` and capacity `cap`, parsing
/// `html` gives the tree `r` (`None` where the parse fails) and leaves the
/// entries `new`. A key already present is a hit (a hash collision counts as
/// one); otherwise the document is parsed and, where the capacity allows,
/// stored as the most recent entry.
pub open spec fn parse_step(
    old: Seq<(u64, VDomView)>,
    cap: nat,
    html: Seq<char>,
    new: Seq<(u64, VDomView)>,
    r: Option<VDomView>,
) -> bool {
    let k = content_key(html);
    let i = index_of(old, k);
    if i >= 0 {
        r == Some(old[i].1) && new == touched(old, i)
    } else if parses(html) {
        let t = markup_tree(html);
        &&& r == Some(t)
        &&& new == if cap == 0 {
            old
        } else {
            stored(old, cap, k, t)
        }
    } else {
        r is None && new == old
    }
}

/// The tree that a parse result holds, if any.
pub open spec fn result_tree(r: Result<Arc<VDom>, ParseError>) -> Option<VDomView> {
    match r {
        Ok(t) => Some(t@),
        Err(_) => None,
    }
}

/// Parsing the same document twice through a cache gives structurally
/// identical trees (or fails twice), whatever the cache held before.
pub proof fn lemma_same_input_same_tree(
    e0: Seq<(u64, VDomView)>,
    cap: nat,
    html: Seq<char>,
    e1: Seq<(u64, VDomView)>,
    r1: Option<VDomView>,
    e2: Seq<(u64, VDomView)>,
    r2: Option<VDomView>,
)
    requires
        keys_unique(e0),
        e0.len() <= cap,
        parse_step(e0, cap, html, e1, r1),
        parse_step(e1, cap, html, e2, r2),
    ensures
        r1 == r2,
{
    let k = content_key(html);
    lemma_key_index(e0, k, e0.len() as int);
    lemma_key_index(e1, k, e1.len() as int);
    let i = index_of(e0, k);
    if i >= 0 {
        let rest = e0.remove(i);
        assert forall|j: int| 0 <= j < rest.len() implies #[trigger] rest[j].0 != k by {
            if j < i {
                assert(rest[j] == e0[j]);
            } else {
                assert(rest[j] == e0[j + 1]);
            }
        }
        assert(e1[e1.len() - 1] == e0[i]);
        assert forall|j: int| 0 <= j < e1.len() - 1 implies #[trigger] e1[j].0 != k by {
            assert(e1[j] == rest[j]);
        }
        assert(index_of(e1, k) == e1.len() - 1);
    } else if parses(html) {
        if cap != 0 {
            let rest = if e0.len() < cap { e0 } else { e0.drop_first() };
            assert(e1 == rest.push((k, markup_tree(html))));
            assert forall|j: int| 0 <= j < e1.len() - 1 implies #[trigger] e1[j].0 != k by {
                assert(e1[j] == rest[j]);
                if e0.len() >= cap {
                    assert(rest[j] == e0[j + 1]);
                }
            }
            assert(index_of(e1, k) == e1.len() - 1);
        }
    }
}

/// A cached tree is the tree of some document with the entry's key.
pub open spec fn entry_faithful(e: (u64, VDomView)) -> bool {
    exists|h: Seq<char>| #[trigger] content_key(h) == e.0 && parses(h) && e.1 == markup_tree(h)
}

/// A cache entry holds a well-formed tree of a document with its key.
pub open spec fn entry_ok(e: (u64, VDomView)) -> bool {
    well_formed(e.1) && entry_faithful(e)
}

/// Every entry holds a well-formed tree of a document with its key.
pub open spec fn entries_ok(s: Seq<(u64, VDomView)>) -> bool {
    forall|j: int| 0 <= j < s.len() ==> entry_ok(#[trigger] s[j])
}

/// What one use of a cache keeps: entries that hold trees of documents with
/// their keys, each key once, within capacity.
pub proof fn lemma_parse_step_keeps_entries(
    old: Seq<(u64, VDomView)>,
    cap: nat,
    html: Seq<char>,
    new: Seq<(u64, VDomView)>,
    r: Option<VDomView>,
)
    requires
        keys_unique(old),
        old.len() <= cap,
        entries_ok(old),
        parse_step(old, cap, html, new, r),
        r is Some ==> well_formed(r->Some_0),
    ensures
        r matches Some(t) ==> entry_faithful((content_key(html), t)),
        new.len() <= cap,
        forall|j: int| 0 <= j < new.len() ==> entry_faithful(#[trigger] new[j]),
{
    let k = content_key(html);
    lemma_key_index(old, k, old.len() as int);
    let i = index_of(old, k);
    if i >= 0 {
        assert(entry_ok(old[i]));
        assert forall|j: int| 0 <= j < new.len() implies entry_faithful(#[trigger] new[j]) by {
            if j < i {
                assert(new[j] == old[j]);
            } else if j < new.len() - 1 {
                assert(new[j] == old[j + 1]);
            } else {
                assert(new[j] == old[i]);
            }
            assert(entry_ok(old[if j < i { j } else if j < new.len() - 1 { j + 1 } else { i }]));
        }
    } else if parses(html) {
        assert(content_key(html) == k && parses(html) && markup_tree(html) == markup_tree(html));
        assert forall|j: int| 0 <= j < new.len() implies entry_faithful(#[trigger] new[j]) by {
            if cap != 0 {
                if j == new.len() - 1 {
                    assert(new[j] == (k, markup_tree(html)));
                } else if old.len() < cap {
                    assert(new[j] == old[j]);
                    assert(entry_ok(old[j]));
                } else {
                    assert(new[j] == old[j + 1]);
                    assert(entry_ok(old[j + 1]));
                }
            } else {
                assert(entry_ok(old[j]));
            }
        }
    } else {
        assert forall|j: int| 0 <= j < new.len() implies entry_faithful(#[trigger] new[j]) by {
            assert(entry_ok(old[j]));
        }
    }
}

/// Without a hash collision among parsed documents, any tree that a cache
/// gives for a document, at any time, is that document's own tree: every
/// result is the tree of some document with the same key.
pub proof fn lemma_result_is_own_tree(html: Seq<char>, t: VDomView)
    requires
        entry_faithful((content_key(html), t)),
        forall|h: Seq<char>| #[trigger] content_key(h) == content_key(html) && parses(h) ==> markup_tree(h) == markup_tree(html),
    ensures
        t == markup_tree(html),
{
}

/// A bounded cache of parsed trees; a capacity of zero caches nothing.
pub struct ParseCache {
    parser: HtmlParser,
    cache: Option<TreeCache>,
    capacity: usize,
}

impl ParseCache {
    /// The cached entries, from the least to the most recently used.
    pub closed spec fn entries(self) -> Seq<(u64, VDomView)> {
        match self.cache {
            Some(c) => cached_entries(c),
            None => Seq::empty(),
        }
    }

    /// The most entries the cache holds.
    pub closed spec fn capacity(self) -> nat {
        self.capacity as nat
    }

    /// Keys are unique, the capacity is respected, and every entry holds a
    /// well-formed tree of a document with its key.
    pub closed spec fn inv(self) -> bool {
        &&& keys_unique(self.entries())
        &&& self.entries().len() <= self.capacity()
        &&& forall|j: int| 0 <= j < self.entries().len() ==> entry_ok(#[trigger] self.entries()[j])
        &&& match self.cache {
            Some(c) => cache_capacity(c) == self.capacity && self.capacity > 0,
            None => self.capacity == 0,
        }
    }

    /// What the invariant gives callers: unique keys, capacity respected, and
    /// every entry a well-formed tree of a document with its key.
    pub proof fn lemma_inv(self)
        requires
            self.inv(),
        ensures
            keys_unique(self.entries()),
            self.entries().len() <= self.capacity(),
            entries_ok(self.entries()),
    {
    }

    /// Creates an empty cache holding at most `capacity` trees.
    pub fn new(capacity: usize) -> (r: ParseCache)
        ensures
            r.inv(),
            r.entries() == Seq::<(u64, VDomView)>::empty(),
            r.capacity() == capacity,
    {
        let cache = if capacity == 0 {
            None
        } else {
            Some(new_tree_cache(capacity))
        };
        ParseCache { parser: HtmlParser::new(), cache, capacity }
    }

    /// The tree cached under `key`, which becomes the most recently used.
    pub fn lookup(&mut self, key: u64) -> (r: Option<Arc<VDom>>)
        requires
            old(self).inv(),
        ensures
            final(self).inv(),
            final(self).capacity() == old(self).capacity(),
            index_of(old(self).entries(), key) >= 0 ==> {
                let i = index_of(old(self).entries(), key);
                &&& r matches Some(t) && t@ == old(self).entries()[i].1
                &&& final(self).entries() == touched(old(self).entries(), i)
            },
            index_of(old(self).entries(), key) < 0 ==> r is None && final(self).entries() == old(self).entries(),
            r matches Some(t) ==> entry_ok((key, t@)),
    {
        match &mut self.cache {
            Some(c) => {
                let r = cache_get(c, key);
                proof {
                    let ghost i = index_of(old(self).entries(), key);
                    let ghost e = old(self).entries();
                    if i >= 0 {
                        lemma_key_index(e, key, e.len() as int);
                        let ghost f = touched(e, i);
                        assert forall|j: int| 0 <= j < f.len() implies entry_ok(#[trigger] f[j]) by {
                            if j < i {
                                assert(f[j] == e[j]);
                            } else if j < f.len() - 1 {
                                assert(f[j] == e[j + 1]);
                            } else {
                                assert(f[j] == e[i]);
                            }
                        }
                    }
                }
                r
            },
            None => None,
        }
    }

    /// Stores `tree` under `key` as the most recent entry, evicting the least
    /// recently used one when full.
    pub fn store(&mut self, key: u64, tree: &Arc<VDom>)
        requires
            old(self).inv(),
            entry_ok((key, tree@)),
        ensures
            final(self).inv(),
            final(self).capacity() == old(self).capacity(),
            old(self).capacity() == 0 ==> final(self).entries() == old(self).entries(),
            old(self).capacity() > 0 && index_of(old(self).entries(), key) >= 0 ==> final(self).entries()
                == old(self).entries().remove(index_of(old(self).entries(), key)).push((key, tree@)),
            old(self).capacity() > 0 && index_of(old(self).entries(), key) < 0 ==> final(self).entries()
                == stored(old(self).entries(), old(self).capacity(), key, tree@),
    {
        match &mut self.cache {
            Some(c) => {
                cache_put(c, key, tree);
                proof {
                    let ghost e = old(self).entries();
                    let ghost i = index_of(e, key);
                    let ghost f = self.entries();
                    lemma_key_index(e, key, e.len() as int);
                    assert forall|j: int| 0 <= j < f.len() implies entry_ok(#[trigger] f[j]) by {
                        if j == f.len() - 1 {
                            assert(f[j] == (key, tree@));
                        } else if i >= 0 {
                            if j < i {
                                assert(f[j] == e[j]);
                            } else {
                                assert(f[j] == e[j + 1]);
                            }
                        } else if e.len() < self.capacity() {
                            assert(f[j] == e[j]);
                        } else {
                            assert(f[j] == e[j + 1]);
                        }
                    }
                }
            },
            None => {},
        }
    }

    /// Whether a document's key is cached, without touching recency.
    pub fn is_cached(&self, html: &str) -> (r: bool)
        ensures
            r == (index_of(self.entries(), content_key(html@)) >= 0),
    {
        let key = key_of(html);
        match &self.cache {
            Some(c) => cache_contains(c, key),
            None => false,
        }
    }

    /// The shared tree of a document: the cached one on a hit, else a fresh
    /// parse that is then stored.
    pub fn get_or_parse(&mut self, html: &str) -> (r: Result<Arc<VDom>, ParseError>)
        requires
            old(self).inv(),
        ensures
            final(self).inv(),
            final(self).capacity() == old(self).capacity(),
            parse_step(old(self).entries(), old(self).capacity(), html@, final(self).entries(), result_tree(r)),
            r matches Err(e) ==> e is ParsingFailed,
            r matches Ok(t) ==> entry_ok((content_key(html@), t@)),
    {
        let key = key_of(html);
        if let Some(tree) = self.lookup(key) {
            return Ok(tree);
        }
        match self.parser.parse(html) {
            Ok(tree) => {
                let shared = Arc::new(tree);
                proof {
                    assert(content_key(html@) == key && parses(html@) && shared@ == markup_tree(html@));
                }
                self.store(key, &shared);
                Ok(shared)
            },
            Err(e) => Err(e),
        }
    }
}

} // verus!
