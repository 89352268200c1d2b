//! Conversion state: identity allocation, resource deduplication, scoped
//! resource dictionaries, and glyph-usage collection.
//!
//! One [`Ctx`] belongs to exactly one conversion call; independent
//! conversions never share state.  Its mathematical model is [`CtxModel`],
//! and every operation's contract states the new model exactly, so the whole
//! conversion stays a function of its inputs.

use crate::content::{IccKind, ResKind};
use crate::transform::Transform;
use vstd::prelude::*;

verus! {

/// The logical key of a deduplicated shared resource: a resource is written
/// once per distinct key and afterwards referenced by its identity.
#[derive(Clone, Copy, PartialEq, Eq, Structural, Debug)]
pub enum ResKey {
    /// A global ICC profile.
    Icc(IccKind),
    /// A paint server, emitted at one effective paint-space matrix.
    PaintAt { paint: usize, matrix: Transform },
    /// An image of the image arena.
    Image(usize),
    /// A subset font.
    FontRes(usize),
    /// A tiling pattern definition, emitted at one effective matrix.
    PatternAt { def: usize, matrix: Transform },
    /// A constant-alpha graphics state.
    Alpha(i64),
}

#[derive(Clone, Copy, PartialEq, Eq, Structural, Debug)]
pub struct CacheEntry {
    pub key: ResKey,
    pub id: u64,
}

/// One entry of a resource dictionary: the kind slot, the in-stream name
/// number, and the object identity it resolves to.
#[derive(Clone, Copy, PartialEq, Eq, Structural, Debug)]
pub struct ResEntry {
    pub kind: ResKind,
    pub name: usize,
    pub id: u64,
}

/// One resource scope, collecting the entries first referenced since its
/// push.
pub struct Frame {
    pub entries: Vec<ResEntry>,
}

/// One recorded use of a glyph of a font.
#[derive(Clone, Copy, PartialEq, Eq, Structural, Debug)]
pub struct GlyphUse {
    pub font: usize,
    pub gid: u16,
}

/// Conversion state.
pub struct Ctx {
    /// The next identity to issue; identities grow strictly until the
    /// (unreachable in practice) top of the identity space.
    pub next_id: u64,
    /// Already-written shared resources, in order of first use.
    pub cache: Vec<CacheEntry>,
    /// The stack of open resource scopes, innermost last.
    pub scopes: Vec<Frame>,
    /// Every distinct (font, glyph) pair shown so far, in order of first use.
    pub glyphs: Vec<GlyphUse>,
}

/// The mathematical model of a [`Ctx`].
#[verifier::ext_equal]
pub struct CtxModel {
    pub next_id: u64,
    pub cache: Seq<CacheEntry>,
    pub scopes: Seq<Seq<ResEntry>>,
    pub glyphs: Seq<GlyphUse>,
}

impl View for Ctx {
    type V = CtxModel;

    open spec fn view(&self) -> CtxModel {
        CtxModel {
            next_id: self.next_id,
            cache: self.cache@,
            scopes: self.scopes@.map_values(|f: Frame| f.entries@),
            glyphs: self.glyphs@,
        }
    }
}

/// No two cache entries share a key: each logical resource is recorded, and
/// hence written, at most once.
pub open spec fn cache_keys_distinct(cache: Seq<CacheEntry>) -> bool {
    forall|i: int, j: int|
        0 <= i < j < cache.len() ==> (#[trigger] cache[i]).key != (#[trigger] cache[j]).key
}

/// The identity recorded for `key`, if any (first match; keys are unique
/// whenever `cache_keys_distinct` holds).
pub open spec fn cache_find(cache: Seq<CacheEntry>, key: ResKey) -> Option<u64>
    decreases cache.len(),
{
    if cache.len() == 0 {
        None
    } else if cache[0].key == key {
        Some(cache[0].id)
    } else {
        cache_find(cache.skip(1), key)
    }
}

/// An absent key occurs nowhere in the cache.
pub proof fn lemma_cache_find_none(cache: Seq<CacheEntry>, key: ResKey)
    requires
        cache_find(cache, key) is None,
    ensures
        forall|i: int| 0 <= i < cache.len() ==> (#[trigger] cache[i]).key != key,
    decreases cache.len(),
{
    if cache.len() > 0 {
        lemma_cache_find_none(cache.skip(1), key);
        assert forall|i: int| 0 <= i < cache.len() implies (#[trigger] cache[i]).key != key by {
            if i > 0 {
                assert(cache.skip(1)[i - 1] == cache[i]);
            }
        }
    }
}

/// The name recorded for `(kind, id)` in one frame, if any.
pub open spec fn frame_find(entries: Seq<ResEntry>, kind: ResKind, id: u64) -> Option<usize>
    decreases entries.len(),
{
    if entries.len() == 0 {
        None
    } else if entries[0].kind == kind && entries[0].id == id {
        Some(entries[0].name)
    } else {
        frame_find(entries.skip(1), kind, id)
    }
}

/// The next identity after one has been issued; saturates at the top of the
/// identity space, which no real document reaches.
pub open spec fn spec_next_after(next: u64) -> u64 {
    if next < u64::MAX {
        (next + 1) as u64
    } else {
        next
    }
}

/// Issue one identity.
pub open spec fn spec_allocate(m: CtxModel) -> (u64, CtxModel) {
    (m.next_id, CtxModel { next_id: spec_next_after(m.next_id), ..m })
}

/// Look a key up; on a miss, allocate an identity and record the mapping.
/// Returns the identity and whether it is fresh (the caller must then emit
/// the resource's object exactly once).
pub open spec fn spec_get_or_create(m: CtxModel, key: ResKey) -> (u64, bool, CtxModel) {
    match cache_find(m.cache, key) {
        Some(id) => (id, false, m),
        None => {
            let id = m.next_id;
            (
                id,
                true,
                CtxModel {
                    next_id: spec_next_after(m.next_id),
                    cache: m.cache.push(CacheEntry { key, id }),
                    ..m
                },
            )
        },
    }
}

/// Open a nested resource scope.
pub open spec fn spec_push_scope(m: CtxModel) -> CtxModel {
    CtxModel { scopes: m.scopes.push(Seq::empty()), ..m }
}

/// Close the innermost scope: its entries become the resource dictionary of
/// the block being finished.
pub open spec fn spec_pop_scope(m: CtxModel) -> (Seq<ResEntry>, CtxModel)
    recommends
        m.scopes.len() > 0,
{
    (m.scopes.last(), CtxModel { scopes: m.scopes.drop_last(), ..m })
}

/// Record that the innermost scope references resource `id` under `kind`,
/// and give back its name slot (reusing the slot on a repeated reference).
pub open spec fn spec_register(m: CtxModel, kind: ResKind, id: u64) -> (usize, CtxModel)
    recommends
        m.scopes.len() > 0,
{
    let top = m.scopes.last();
    match frame_find(top, kind, id) {
        Some(name) => (name, m),
        None => {
            let name = top.len() as usize;
            (
                name,
                CtxModel {
                    scopes: m.scopes.drop_last().push(top.push(ResEntry { kind, name, id })),
                    ..m
                },
            )
        },
    }
}

/// Record one glyph use, keeping the log free of duplicates.
pub open spec fn spec_record_glyph(m: CtxModel, g: GlyphUse) -> CtxModel {
    if m.glyphs.contains(g) {
        m
    } else {
        CtxModel { glyphs: m.glyphs.push(g), ..m }
    }
}

fn find_in_cache(cache: &Vec<CacheEntry>, key: ResKey) -> (r: Option<u64>)
    ensures
        r == cache_find(cache@, key),
{
    let mut i: usize = 0;
    proof {
        assert(cache@.skip(0) =~= cache@);
    }
    while i < cache.len()
        invariant
            i <= cache.len(),
            cache_find(cache@, key) == cache_find(cache@.skip(i as int), key),
        decreases cache.len() - i,
    {
        proof {
            assert(cache@.skip(i as int)[0] == cache@[i as int]);
            assert(cache@.skip(i as int).skip(1) =~= cache@.skip(i as int + 1));
        }
        if cache[i].key == key {
            return Some(cache[i].id);
        }
        i = i + 1;
    }
    None
}

fn find_in_frame(entries: &Vec<ResEntry>, kind: ResKind, id: u64) -> (r: Option<usize>)
    ensures
        r == frame_find(entries@, kind, id),
{
    let mut i: usize = 0;
    proof {
        assert(entries@.skip(0) =~= entries@);
    }
    while i < entries.len()
        invariant
            i <= entries.len(),
            frame_find(entries@, kind, id) == frame_find(entries@.skip(i as int), kind, id),
        decreases entries.len() - i,
    {
        proof {
            assert(entries@.skip(i as int)[0] == entries@[i as int]);
            assert(entries@.skip(i as int).skip(1) =~= entries@.skip(i as int + 1));
        }
        if entries[i].kind == kind && entries[i].id == id {
            return Some(entries[i].name);
        }
        i = i + 1;
    }
    None
}

impl Ctx {
    /// A fresh state whose first issued identity is `start` (a caller
    /// embedding the output into a larger document passes the first free
    /// identity of that document).
    pub fn new(start: u64) -> (r: Ctx)
        ensures
            r@ == (CtxModel {
                next_id: start,
                cache: Seq::empty(),
                scopes: Seq::empty(),
                glyphs: Seq::empty(),
            }),
    {
        let r = Ctx { next_id: start, cache: Vec::new(), scopes: Vec::new(), glyphs: Vec::new() };
        proof {
            assert(r@.scopes =~= Seq::<Seq<ResEntry>>::empty());
        }
        r
    }

    /// Issue a previously-unissued identity, strictly greater than every
    /// identity issued so far in this conversion.
    pub fn allocate(&mut self) -> (r: u64)
        ensures
            r == spec_allocate(old(self)@).0,
            final(self)@ == spec_allocate(old(self)@).1,
    {
        let id = self.next_id;
        if self.next_id < u64::MAX {
            self.next_id = self.next_id + 1;
        }
        id
    }

    /// Deduplicated resource lookup (§ resource deduplication): a hit
    /// returns the recorded identity and changes nothing; a miss allocates a
    /// fresh identity and records it under the key.
    pub fn get_or_create(&mut self, key: ResKey) -> (r: (u64, bool))
        ensures
            r.0 == spec_get_or_create(old(self)@, key).0,
            r.1 == spec_get_or_create(old(self)@, key).1,
            final(self)@ == spec_get_or_create(old(self)@, key).2,
            cache_keys_distinct(old(self)@.cache) ==> cache_keys_distinct(final(self)@.cache),
    {
        proof {
            if cache_keys_distinct(self@.cache) {
                lemma_get_or_create_distinct(self@, key);
            }
        }
        match find_in_cache(&self.cache, key) {
            Some(id) => (id, false),
            None => {
                let id = self.allocate();
                self.cache.push(CacheEntry { key, id });
                (id, true)
            },
        }
    }

    pub fn push_scope(&mut self)
        ensures
            final(self)@ == spec_push_scope(old(self)@),
    {
        self.scopes.push(Frame { entries: Vec::new() });
        proof {
            assert(final(self)@.scopes =~= spec_push_scope(old(self)@).scopes);
        }
    }

    pub fn pop_scope(&mut self) -> (r: Vec<ResEntry>)
        requires
            old(self)@.scopes.len() > 0,
        ensures
            r@ == spec_pop_scope(old(self)@).0,
            final(self)@ == spec_pop_scope(old(self)@).1,
    {
        let f = match self.scopes.pop() {
            Some(f) => f,
            None => Frame { entries: Vec::new() },
        };
        proof {
            assert(old(self)@.scopes[old(self)@.scopes.len() - 1] == f.entries@);
            assert(final(self)@.scopes =~= spec_pop_scope(old(self)@).1.scopes);
        }
        f.entries
    }

    pub fn register(&mut self, kind: ResKind, id: u64) -> (r: usize)
        requires
            old(self)@.scopes.len() > 0,
        ensures
            r == spec_register(old(self)@, kind, id).0,
            final(self)@ == spec_register(old(self)@, kind, id).1,
    {
        let mut top = match self.scopes.pop() {
            Some(f) => f,
            None => Frame { entries: Vec::new() },
        };
        proof {
            assert(old(self)@.scopes[old(self)@.scopes.len() - 1] == top.entries@);
        }
        let name = match find_in_frame(&top.entries, kind, id) {
            Some(name) => name,
            None => {
                let name = top.entries.len();
                top.entries.push(ResEntry { kind, name, id });
                name
            },
        };
        self.scopes.push(top);
        proof {
            assert(final(self)@.scopes =~= spec_register(old(self)@, kind, id).1.scopes);
        }
        name
    }

    pub fn record_glyph(&mut self, font: usize, gid: u16)
        ensures
            final(self)@ == spec_record_glyph(old(self)@, GlyphUse { font, gid }),
    {
        let g = GlyphUse { font, gid };
        if !glyphs_contain(&self.glyphs, g) {
            self.glyphs.push(g);
            proof {
                assert(self@ =~= spec_record_glyph(old(self)@, g));
            }
        }
    }
}

fn glyphs_contain(glyphs: &Vec<GlyphUse>, g: GlyphUse) -> (b: bool)
    ensures
        b == glyphs@.contains(g),
{
    let mut i: usize = 0;
    while i < glyphs.len()
        invariant
            i <= glyphs.len(),
            forall|j: int| 0 <= j < i ==> glyphs@[j] != g,
        decreases glyphs.len() - i,
    {
        if glyphs[i] == g {
            proof {
                assert(glyphs@.contains(g));
            }
            return true;
        }
        i = i + 1;
    }
    proof {
        assert forall|j: int| 0 <= j < glyphs@.len() implies glyphs@[j] != g by {}
        assert(!glyphs@.contains(g));
    }
    false
}

/// Resource deduplication never records one key twice.
pub proof fn lemma_get_or_create_distinct(m: CtxModel, key: ResKey)
    requires
        cache_keys_distinct(m.cache),
    ensures
        cache_keys_distinct(spec_get_or_create(m, key).2.cache),
{
    match cache_find(m.cache, key) {
        Some(_) => {},
        None => {
            lemma_cache_find_none(m.cache, key);
            let c = spec_get_or_create(m, key).2.cache;
            assert forall|i: int, j: int| 0 <= i < j < c.len() implies (#[trigger] c[i]).key != (
            #[trigger] c[j]).key by {
                if j < c.len() - 1 {
                    assert(c[i] == m.cache[i] && c[j] == m.cache[j]);
                } else {
                    assert(c[i] == m.cache[i]);
                }
            }
        },
    }
}

} // verus!
