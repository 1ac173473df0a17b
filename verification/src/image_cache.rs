//! Which decoded images are at hand, which are on their way, and which could not be decoded.
//!
//! The textures themselves are held elsewhere, under the numbers of their photos: here stands what
//! is known of them.
use crate::pixels::ImageHistogram;
use std::collections::HashMap;
use vstd::prelude::*;

verus! {

broadcast use {vstd::std_specs::hash::group_hash_axioms, vstd::string::group_string_axioms};

/// `lru::LruCache`.
#[verifier::external_type_specification]
#[verifier::external_body]
#[verifier::reject_recursive_types(K)]
#[verifier::reject_recursive_types(V)]
#[verifier::reject_recursive_types(S)]
pub struct ExLruCache<K, V, S>(lru::LruCache<K, V, S>);

/// The hasher of an `lru::LruCache`.
#[verifier::external_type_specification]
#[verifier::external_body]
pub struct ExDefaultHasher(lru::DefaultHasher);

/// What an `lru::LruCache` holds, the most recently used entry first.
pub uninterp spec fn lru_entries(cache: lru::LruCache<usize, Option<u32>>) -> Seq<(usize, Option<u32>)>;

/// How many entries an `lru::LruCache` holds at most.
pub uninterp spec fn lru_limit(cache: lru::LruCache<usize, Option<u32>>) -> nat;

/// The value of `key`.
pub open spec fn value_of(entries: Seq<(usize, Option<u32>)>, key: usize) -> Option<Option<u32>>
    decreases entries.len(),
{
    if entries.len() == 0 {
        None
    } else if entries[0].0 == key {
        Some(entries[0].1)
    } else {
        value_of(entries.drop_first(), key)
    }
}

/// The entries without that of `key`.
pub open spec fn without(entries: Seq<(usize, Option<u32>)>, key: usize) -> Seq<(usize, Option<u32>)> {
    entries.filter(|e: (usize, Option<u32>)| e.0 != key)
}

/// The entries with that of `key` in front.
pub open spec fn used(entries: Seq<(usize, Option<u32>)>, key: usize) -> Seq<(usize, Option<u32>)> {
    match value_of(entries, key) {
        Some(v) => seq![(key, v)] + without(entries, key),
        None => entries,
    }
}

/// The entries after `key` was put in front with a new value. A new key drives out the entry that
/// was used longest ago, where there is no room for both.
pub open spec fn put_in(
    entries: Seq<(usize, Option<u32>)>,
    limit: nat,
    key: usize,
    value: Option<u32>,
) -> Seq<(usize, Option<u32>)> {
    if value_of(entries, key) is Some {
        seq![(key, value)] + without(entries, key)
    } else if entries.len() >= limit {
        seq![(key, value)] + entries.drop_last()
    } else {
        seq![(key, value)] + entries
    }
}

/// `lru::LruCache::new` makes an empty cache. It sets aside room for all the entries, so there must
/// not be too many.
#[verifier::external_body]
fn lru_new(limit: usize) -> (cache: lru::LruCache<usize, Option<u32>>)
    requires
        limit >= 1,
        64 * limit <= isize::MAX,
    ensures
        lru_entries(cache) == Seq::<(usize, Option<u32>)>::empty(),
        lru_limit(cache) == limit,
{
    lru::LruCache::new(std::num::NonZeroUsize::new(limit).unwrap())
}

/// `lru::LruCache::peek` looks up a key and moves nothing.
#[verifier::external_body]
fn lru_peek(cache: &lru::LruCache<usize, Option<u32>>, key: usize) -> (v: Option<Option<u32>>)
    ensures
        v == value_of(lru_entries(*cache), key),
{
    cache.peek(&key).copied()
}

/// `lru::LruCache::get` looks up a key, and moves its entry to the front.
#[verifier::external_body]
fn lru_get(cache: &mut lru::LruCache<usize, Option<u32>>, key: usize) -> (v: Option<Option<u32>>)
    ensures
        v == value_of(lru_entries(*old(cache)), key),
        lru_entries(*final(cache)) == used(lru_entries(*old(cache)), key),
        lru_limit(*final(cache)) == lru_limit(*old(cache)),
{
    cache.get(&key).copied()
}

/// `lru::LruCache::put` gives a key a value, and puts its entry in front. Where the cache is full, a
/// new key takes the place of the entry used longest ago.
#[verifier::external_body]
fn lru_put(cache: &mut lru::LruCache<usize, Option<u32>>, key: usize, value: Option<u32>)
    ensures
        lru_entries(*final(cache)) == put_in(
            lru_entries(*old(cache)),
            lru_limit(*old(cache)),
            key,
            value,
        ),
        lru_limit(*final(cache)) == lru_limit(*old(cache)),
{
    cache.put(key, value);
}

/// `lru::LruCache::pop` takes out the entry of a key.
#[verifier::external_body]
fn lru_pop(cache: &mut lru::LruCache<usize, Option<u32>>, key: usize)
    ensures
        lru_entries(*final(cache)) == without(lru_entries(*old(cache)), key),
        lru_limit(*final(cache)) == lru_limit(*old(cache)),
{
    cache.pop(&key);
}

/// `lru::LruCache::clear` takes out all entries.
#[verifier::external_body]
fn lru_clear(cache: &mut lru::LruCache<usize, Option<u32>>)
    ensures
        lru_entries(*final(cache)) == Seq::<(usize, Option<u32>)>::empty(),
        lru_limit(*final(cache)) == lru_limit(*old(cache)),
{
    cache.clear();
}

/// `incoming` is at least as good as `existing`. The numbers are the largest sides of the images;
/// `None` is the full resolution.
pub open spec fn at_least_as_good(incoming: Option<u32>, existing: Option<u32>) -> bool {
    match (incoming, existing) {
        (None, _) => true,
        (Some(_), None) => false,
        (Some(i), Some(e)) => i >= e,
    }
}

/// Whether a decoded image is at least as good as the one at hand.
pub fn is_better_quality(incoming: Option<u32>, existing: Option<u32>) -> (b: bool)
    ensures
        b == at_least_as_good(incoming, existing),
{
    match (incoming, existing) {
        (None, _) => true,
        (Some(_), None) => false,
        (Some(i), Some(e)) => i >= e,
    }
}

/// Whether the image at hand is good enough for a request.
pub fn is_adequate_quality(cached: Option<u32>, requested: Option<u32>) -> (b: bool)
    ensures
        b == at_least_as_good(cached, requested),
{
    match (cached, requested) {
        (None, _) => true,
        (Some(_), None) => false,
        (Some(c), Some(r)) => c >= r,
    }
}

/// Of two images one is at least as good as the other, and what is as good as a better one is as
/// good as a worse one.
pub proof fn quality_is_an_order(a: Option<u32>, b: Option<u32>, c: Option<u32>)
    ensures
        at_least_as_good(a, b) || at_least_as_good(b, a),
        at_least_as_good(a, b) && at_least_as_good(b, a) ==> a == b,
        at_least_as_good(a, b) && at_least_as_good(b, c) ==> at_least_as_good(a, c),
{
}

/// What is known of an image.
#[derive(Debug, PartialEq)]
pub enum LoadState {
    NotRequested,
    Pending,
    Ready,
    Error(String),
}

/// What there is to show of an image, and the quality in which it is to be asked for.
#[derive(Debug, PartialEq)]
pub struct Lookup {
    pub state: LoadState,
    pub request: Option<Option<u32>>,
}

/// Which images are at hand, which are on their way, and which could not be decoded.
pub struct ImageCache {
    pub lru: lru::LruCache<usize, Option<u32>>,
    /// The quality in which an image was asked for.
    pub pending: HashMap<usize, Option<u32>>,
    pub errors: HashMap<usize, String>,
    pub histograms: HashMap<usize, ImageHistogram>,
}

/// The model of an `ImageCache`.
pub ghost struct CacheView {
    pub entries: Seq<(usize, Option<u32>)>,
    pub limit: nat,
    pub pending: Map<usize, Option<u32>>,
    pub errors: Map<usize, String>,
    pub histograms: Map<usize, ImageHistogram>,
}

impl View for ImageCache {
    type V = CacheView;

    open spec fn view(&self) -> CacheView {
        CacheView {
            entries: lru_entries(self.lru),
            limit: lru_limit(self.lru),
            pending: self.pending@,
            errors: self.errors@,
            histograms: self.histograms@,
        }
    }
}

impl CacheView {
    /// No image is at hand twice, and no more are than the limit allows.
    pub open spec fn wf(self) -> bool {
        &&& self.limit >= 1
        &&& self.entries.len() <= self.limit
        &&& forall|i: int, j: int|
            0 <= i < j < self.entries.len() ==> (#[trigger] self.entries[i]).0 != (
            #[trigger] self.entries[j]).0
    }

    /// After a decoded image came in.
    pub open spec fn settled(
        self,
        index: usize,
        max_size: Option<u32>,
        histogram: Option<ImageHistogram>,
    ) -> CacheView {
        let stored = self.takes(index, max_size);
        CacheView {
            entries: if stored {
                put_in(self.entries, self.limit, index, max_size)
            } else {
                self.entries
            },
            limit: self.limit,
            pending: self.pending.remove(index),
            errors: if stored {
                self.errors.remove(index)
            } else {
                self.errors
            },
            histograms: match histogram {
                Some(h) => self.histograms.insert(index, h),
                None => self.histograms,
            },
        }
    }

    /// A decoded image is kept, unless a better one is at hand.
    pub open spec fn takes(self, index: usize, max_size: Option<u32>) -> bool {
        match value_of(self.entries, index) {
            None => true,
            Some(have) => at_least_as_good(max_size, have),
        }
    }

    /// After an image turned out not to be readable.
    pub open spec fn failed(self, index: usize, error: String) -> CacheView {
        CacheView {
            pending: self.pending.remove(index),
            errors: self.errors.insert(index, error),
            ..self
        }
    }

    /// Without anything on the photo `index`.
    pub open spec fn forgetting(self, index: usize) -> CacheView {
        CacheView {
            entries: without(self.entries, index),
            limit: self.limit,
            pending: self.pending.remove(index),
            errors: self.errors.remove(index),
            histograms: self.histograms.remove(index),
        }
    }

    /// Without anything on any photo.
    pub open spec fn emptied(self) -> CacheView {
        CacheView {
            entries: Seq::empty(),
            limit: self.limit,
            pending: Map::empty(),
            errors: Map::empty(),
            histograms: Map::empty(),
        }
    }

    /// What there is to show of a photo that is wanted in some quality.
    pub open spec fn shows(self, index: usize, state: LoadState) -> bool {
        if value_of(self.entries, index) is Some {
            state is Ready
        } else if self.errors.contains_key(index) {
            state matches LoadState::Error(e) && e@ == self.errors[index]@
        } else if self.pending.contains_key(index) {
            state is Pending
        } else {
            state is NotRequested
        }
    }

    /// The quality in which a photo is to be asked for. One that is at hand or on its way, but not
    /// good enough, is asked for in full resolution, and one that could not be read not at all.
    pub open spec fn wants(self, index: usize, max_size: Option<u32>) -> Option<Option<u32>> {
        match value_of(self.entries, index) {
            Some(have) => if at_least_as_good(have, max_size) || (self.pending.contains_key(index)
                && self.pending[index] is None) {
                None
            } else {
                Some(None)
            },
            None => if self.errors.contains_key(index) {
                None
            } else if self.pending.contains_key(index) {
                if at_least_as_good(self.pending[index], max_size) {
                    None
                } else {
                    Some(None)
                }
            } else {
                Some(max_size)
            },
        }
    }
}

proof fn lemma_without(entries: Seq<(usize, Option<u32>)>, key: usize)
    ensures
        without(entries, key).len() <= entries.len(),
        value_of(entries, key) is Some ==> without(entries, key).len() < entries.len(),
        forall|i: int|
            0 <= i < without(entries, key).len() ==> (#[trigger] without(entries, key)[i]).0 != key
                && entries.contains(without(entries, key)[i]),
    decreases entries.len(),
{
    reveal(Seq::filter);
    if entries.len() > 0 {
        let rest = entries.drop_last();
        lemma_without(rest, key);
        lemma_value_of_prefix(entries, key);
        let less = without(rest, key);
        assert forall|i: int| 0 <= i < without(entries, key).len() implies (#[trigger] without(
            entries,
            key,
        )[i]).0 != key && entries.contains(without(entries, key)[i]) by {
            if i < less.len() {
                assert(less[i].0 != key && rest.contains(less[i]));
                let j = choose|j: int| 0 <= j < rest.len() && rest[j] == less[i];
                assert(entries[j] == less[i]);
            } else {
                assert(entries[entries.len() - 1] == without(entries, key)[i]);
            }
        }
    }
}

proof fn lemma_value_of_prefix(entries: Seq<(usize, Option<u32>)>, key: usize)
    requires
        entries.len() > 0,
    ensures
        value_of(entries, key) == match value_of(entries.drop_last(), key) {
            Some(v) => Some(v),
            None => if entries.last().0 == key {
                Some(entries.last().1)
            } else {
                None
            },
        },
    decreases entries.len(),
{
    reveal_with_fuel(value_of, 2);
    if entries.len() > 1 {
        assert(entries.drop_last()[0] == entries[0]);
    }
    if entries.len() > 1 && entries[0].0 != key {
        let rest = entries.drop_first();
        lemma_value_of_prefix(rest, key);
        assert(rest.drop_last() == entries.drop_last().drop_first());
    } else if entries.len() == 1 {
        assert(entries.drop_last().len() == 0);
        assert(entries.drop_first().len() == 0);
    }
}

/// Nothing is at hand of a key that was taken out, and the same as before of any other.
pub proof fn lemma_value_without(entries: Seq<(usize, Option<u32>)>, key: usize, other: usize)
    ensures
        value_of(without(entries, key), other) == if other == key {
            None
        } else {
            value_of(entries, other)
        },
    decreases entries.len(),
{
    reveal(Seq::filter);
    if entries.len() > 0 {
        let rest = entries.drop_last();
        lemma_value_without(rest, key, other);
        lemma_value_of_prefix(entries, other);
        let all = without(entries, key);
        if entries.last().0 != key {
            assert(all.drop_last() =~= without(rest, key));
            lemma_value_of_prefix(all, other);
        }
    }
}

proof fn lemma_value_of_absent(entries: Seq<(usize, Option<u32>)>, key: usize)
    requires
        value_of(entries, key) is None,
    ensures
        forall|i: int| 0 <= i < entries.len() ==> (#[trigger] entries[i]).0 != key,
    decreases entries.len(),
{
    if entries.len() > 0 {
        let rest = entries.drop_first();
        lemma_value_of_absent(rest, key);
        assert forall|i: int| 0 <= i < entries.len() implies (#[trigger] entries[i]).0 != key by {
            if i > 0 {
                assert(rest[i - 1] == entries[i]);
            }
        }
    }
}

proof fn lemma_without_differs(entries: Seq<(usize, Option<u32>)>, key: usize)
    requires
        forall|i: int, j: int|
            0 <= i < j < entries.len() ==> (#[trigger] entries[i]).0 != (#[trigger] entries[j]).0,
    ensures
        forall|i: int, j: int|
            0 <= i < j < without(entries, key).len() ==> (#[trigger] without(entries, key)[i]).0
                != (#[trigger] without(entries, key)[j]).0,
    decreases entries.len(),
{
    reveal(Seq::filter);
    if entries.len() > 0 {
        let rest = entries.drop_last();
        lemma_without_differs(rest, key);
        lemma_without(rest, key);
        let less = without(rest, key);
        let all = without(entries, key);
        assert forall|i: int, j: int| 0 <= i < j < all.len() implies (#[trigger] all[i]).0 != (
        #[trigger] all[j]).0 by {
            if j < less.len() {
                assert(less[i].0 != less[j].0);
            } else {
                assert(rest.contains(less[i]));
                let k = choose|k: int| 0 <= k < rest.len() && rest[k] == less[i];
                assert(entries[k].0 != entries[entries.len() - 1].0);
            }
        }
    }
}

/// The cache stays within its limit and holds no image twice, whatever comes in, is asked for or is
/// forgotten.
pub proof fn cache_stays_within_limit(
    cache: CacheView,
    index: usize,
    max_size: Option<u32>,
    histogram: Option<ImageHistogram>,
)
    requires
        cache.wf(),
    ensures
        cache.settled(index, max_size, histogram).wf(),
        cache.forgetting(index).wf(),
        (CacheView { entries: used(cache.entries, index), ..cache }).wf(),
        cache.emptied().wf(),
{
    lemma_without(cache.entries, index);
    lemma_without_differs(cache.entries, index);
    if value_of(cache.entries, index) is None {
        lemma_value_of_absent(cache.entries, index);
    }
}

/// An image in full resolution is never replaced by a smaller one.
pub proof fn full_resolution_is_kept(
    cache: CacheView,
    index: usize,
    max_size: Option<u32>,
    histogram: Option<ImageHistogram>,
)
    requires
        value_of(cache.entries, index) == Some(None::<u32>),
    ensures
        value_of(cache.settled(index, max_size, histogram).entries, index) == Some(None::<u32>),
{
    if max_size is None {
        let after = cache.settled(index, max_size, histogram).entries;
        assert(after[0] == (index, max_size));
    }
}

/// After an image came in, what is at hand of its photo is at least as good as that image.
pub proof fn incoming_image_is_at_hand(
    cache: CacheView,
    index: usize,
    max_size: Option<u32>,
    histogram: Option<ImageHistogram>,
)
    ensures
        value_of(cache.settled(index, max_size, histogram).entries, index) matches Some(have)
            && at_least_as_good(have, max_size),
{
    let after = cache.settled(index, max_size, histogram).entries;
    if cache.takes(index, max_size) {
        assert(after[0] == (index, max_size));
    }
}

/// Once a photo was asked for in the quality that is wanted, it is not asked for again until it
/// comes in.
pub proof fn photos_are_asked_for_once(cache: CacheView, index: usize, max_size: Option<u32>)
    requires
        cache.wants(index, max_size) is Some,
    ensures
        (CacheView {
            pending: cache.pending.insert(index, cache.wants(index, max_size)->0),
            ..cache
        }).wants(index, max_size) is None,
{
}

/// The size in which a tile is decoded, given the pixels that it has on the screen.
pub fn tile_size(pixels: u32) -> (r: u32)
    ensures
        r == if pixels >= 64 {
            pixels
        } else {
            64
        },
        r >= 64,
        r >= pixels,
        r == 64 || r == pixels,
{
    if pixels >= 64 {
        pixels
    } else {
        64
    }
}

impl ImageCache {
    /// A cache for `capacity` images, and at least one.
    pub fn new(capacity: usize) -> (c: Self)
        requires
            64 * capacity <= isize::MAX,
        ensures
            c@.wf(),
            c@ == (CacheView {
                entries: Seq::empty(),
                limit: if capacity >= 1 {
                    capacity as nat
                } else {
                    1
                },
                pending: Map::empty(),
                errors: Map::empty(),
                histograms: Map::empty(),
            }),
    {
        let limit = if capacity >= 1 {
            capacity
        } else {
            1
        };
        ImageCache {
            lru: lru_new(limit),
            pending: HashMap::new(),
            errors: HashMap::new(),
            histograms: HashMap::new(),
        }
    }

    /// Takes note of a decoded image. Says whether its texture is to be kept.
    pub fn settle(
        &mut self,
        index: usize,
        max_size: Option<u32>,
        histogram: Option<ImageHistogram>,
    ) -> (keep: bool)
        requires
            old(self)@.wf(),
        ensures
            final(self)@.wf(),
            keep == old(self)@.takes(index, max_size),
            final(self)@ == old(self)@.settled(index, max_size, histogram),
    {
        proof {
            cache_stays_within_limit(self@, index, max_size, histogram);
        }
        let _ = self.pending.remove(&index);
        let keep = match lru_peek(&self.lru, index) {
            None => true,
            Some(have) => is_better_quality(max_size, have),
        };
        if keep {
            lru_put(&mut self.lru, index, max_size);
            let _ = self.errors.remove(&index);
        }
        if let Some(h) = histogram {
            let _ = self.histograms.insert(index, h);
        }
        keep
    }

    /// Takes note of an image that could not be decoded.
    pub fn fail(&mut self, index: usize, error: String)
        ensures
            final(self)@ == old(self)@.failed(index, error),
    {
        let _ = self.pending.remove(&index);
        let _ = self.errors.insert(index, error);
    }

    /// Forgets all on a photo, so that it is decoded anew.
    pub fn invalidate(&mut self, index: usize)
        requires
            old(self)@.wf(),
        ensures
            final(self)@.wf(),
            final(self)@ == old(self)@.forgetting(index),
    {
        proof {
            cache_stays_within_limit(self@, index, None, None);
        }
        lru_pop(&mut self.lru, index);
        let _ = self.pending.remove(&index);
        let _ = self.errors.remove(&index);
        let _ = self.histograms.remove(&index);
    }

    /// Forgets all on all photos.
    pub fn invalidate_all(&mut self)
        requires
            old(self)@.wf(),
        ensures
            final(self)@.wf(),
            final(self)@ == old(self)@.emptied(),
    {
        lru_clear(&mut self.lru);
        self.pending.clear();
        self.errors.clear();
        self.histograms.clear();
    }

    /// The histogram of a photo.
    pub fn get_histogram(&self, index: usize) -> (h: Option<&ImageHistogram>)
        ensures
            h is Some <==> self@.histograms.contains_key(index),
            h matches Some(x) ==> *x == self@.histograms[index],
    {
        self.histograms.get(&index)
    }

    /// Whether an image of the photo is at hand.
    pub fn holds(&self, index: usize) -> (b: bool)
        ensures
            b == (value_of(self@.entries, index) is Some),
    {
        lru_peek(&self.lru, index).is_some()
    }

    /// What there is to show of a photo, and the quality in which it is to be asked for.
    pub fn get_or_request(&mut self, index: usize, max_size: Option<u32>) -> (l: Lookup)
        requires
            old(self)@.wf(),
        ensures
            final(self)@.wf(),
            final(self)@ == (CacheView { entries: used(old(self)@.entries, index), ..old(self)@ }),
            old(self)@.shows(index, l.state),
            l.request == old(self)@.wants(index, max_size),
    {
        proof {
            cache_stays_within_limit(self@, index, None, None);
        }
        let cached = lru_get(&mut self.lru, index);
        if let Some(have) = cached {
            if is_adequate_quality(have, max_size) {
                return Lookup { state: LoadState::Ready, request: None };
            }
            let full = match self.pending.get(&index) {
                Some(p) => p.is_none(),
                None => false,
            };
            return Lookup {
                state: LoadState::Ready,
                request: if full {
                    None
                } else {
                    Some(None)
                },
            };
        }
        if let Some(e) = self.errors.get(&index) {
            return Lookup { state: LoadState::Error(e.clone()), request: None };
        }
        if let Some(p) = self.pending.get(&index) {
            return Lookup {
                state: LoadState::Pending,
                request: if is_adequate_quality(*p, max_size) {
                    None
                } else {
                    Some(None)
                },
            };
        }
        Lookup { state: LoadState::NotRequested, request: Some(max_size) }
    }

    /// Takes note of a photo that was asked for.
    pub fn note_request(&mut self, index: usize, max_size: Option<u32>)
        ensures
            final(self)@ == (CacheView {
                pending: old(self)@.pending.insert(index, max_size),
                ..old(self)@
            }),
    {
        let _ = self.pending.insert(index, max_size);
    }
}

} // verus!
