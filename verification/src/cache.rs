//! The cache of public keys, with its registry of fetches under way.
//!
//! Each identity is absent, being fetched, or present with its key. A fetch
//! is started only from absent, so at most one is under way per identity;
//! whoever asks meanwhile is told to wait for it. A key stays until it is
//! invalidated: entries never expire by themselves.
use vstd::prelude::*;
use crate::bytes::copy_bytes;
use crate::error::SignerError;
use crate::identity::{KeyIdentity, KeyIdentityView};

verus! {

/// The state of one identity that the cache knows.
#[derive(Debug)]
enum Entry {
    InFlight,
    Ready(Vec<u8>),
}

/// The mathematical value of an entry.
pub enum EntryView {
    /// A fetch of the key is under way.
    InFlight,
    /// The key is cached.
    Ready(Seq<u8>),
}

#[derive(Debug)]
struct Slot {
    identity: KeyIdentity,
    entry: Entry,
}

/// What a caller that wants a key does next.
#[derive(Debug)]
pub enum FetchDecision {
    /// The key is cached: here it is.
    Cached(Vec<u8>),
    /// The key is absent and this caller fetches it, then calls `complete`.
    Start,
    /// Another caller is fetching the key: wait for that fetch to end.
    Wait,
}

/// The mathematical value of a decision.
pub enum DecisionView {
    Cached(Seq<u8>),
    Start,
    Wait,
}

impl View for Entry {
    type V = EntryView;

    closed spec fn view(&self) -> EntryView {
        match self {
            Entry::InFlight => EntryView::InFlight,
            Entry::Ready(key) => EntryView::Ready(key@),
        }
    }
}

impl View for FetchDecision {
    type V = DecisionView;

    open spec fn view(&self) -> DecisionView {
        match self {
            FetchDecision::Cached(key) => DecisionView::Cached(key@),
            FetchDecision::Start => DecisionView::Start,
            FetchDecision::Wait => DecisionView::Wait,
        }
    }
}

/// The view of a fetch result.
pub open spec fn fetch_view(result: Result<Vec<u8>, SignerError>) -> Result<Seq<u8>, SignerError> {
    match result {
        Ok(key) => Ok(key@),
        Err(e) => Err(e),
    }
}

/// A cache as a map from identities to their entries; an identity outside
/// the map's domain is absent.
pub type CacheView = Map<KeyIdentityView, EntryView>;

/// The key cached for `id`, if there is one.
pub open spec fn cached_key(cache: CacheView, id: KeyIdentityView) -> Option<Seq<u8>> {
    if cache.dom().contains(id) {
        match cache[id] {
            EntryView::Ready(key) => Some(key),
            EntryView::InFlight => None,
        }
    } else {
        None
    }
}

/// Whether a fetch for `id` is under way.
pub open spec fn in_flight(cache: CacheView, id: KeyIdentityView) -> bool {
    cache.dom().contains(id) && cache[id] == EntryView::InFlight
}

/// Asking for a key: the cache afterwards and the decision.
pub open spec fn begin_spec(cache: CacheView, id: KeyIdentityView) -> (CacheView, DecisionView) {
    if !cache.dom().contains(id) {
        (cache.insert(id, EntryView::InFlight), DecisionView::Start)
    } else {
        match cache[id] {
            EntryView::Ready(key) => (cache, DecisionView::Cached(key)),
            EntryView::InFlight => (cache, DecisionView::Wait),
        }
    }
}

/// The end of a fetch: a key is stored, a failure leaves the identity
/// absent. A result for an identity that has no fetch under way (it was
/// invalidated meanwhile) changes nothing.
pub open spec fn complete_spec(
    cache: CacheView,
    id: KeyIdentityView,
    result: Result<Seq<u8>, SignerError>,
) -> CacheView {
    if in_flight(cache, id) {
        match result {
            Ok(key) => cache.insert(id, EntryView::Ready(key)),
            Err(_) => cache.remove(id),
        }
    } else {
        cache
    }
}

/// The cache after a fetch made on the spot: a key is stored, a failure
/// changes nothing.
pub open spec fn store_spec(
    cache: CacheView,
    id: KeyIdentityView,
    result: Result<Seq<u8>, SignerError>,
) -> CacheView {
    match result {
        Ok(key) => cache.insert(id, EntryView::Ready(key)),
        Err(_) => cache,
    }
}

spec fn distinct(slots: Seq<Slot>) -> bool {
    forall|i: int, j: int|
        0 <= i < j < slots.len() ==> #[trigger] slots[i].identity@ != #[trigger] slots[j].identity@
}

spec fn holds(slots: Seq<Slot>, id: KeyIdentityView, i: int) -> bool {
    0 <= i < slots.len() && slots[i].identity@ == id
}

spec fn model(slots: Seq<Slot>) -> CacheView {
    Map::new(
        |id: KeyIdentityView| exists|i: int| holds(slots, id, i),
        |id: KeyIdentityView| slots[choose|i: int| holds(slots, id, i)].entry@,
    )
}

proof fn lemma_model_at(slots: Seq<Slot>, i: int)
    requires
        distinct(slots),
        0 <= i < slots.len(),
    ensures
        model(slots).dom().contains(slots[i].identity@),
        model(slots)[slots[i].identity@] == slots[i].entry@,
{
    let id = slots[i].identity@;
    assert(holds(slots, id, i));
    let j = choose|j: int| holds(slots, id, j);
    assert(holds(slots, id, j));
    if i < j {
        assert(slots[i].identity@ != slots[j].identity@);
    } else if j < i {
        assert(slots[j].identity@ != slots[i].identity@);
    }
}

proof fn lemma_model_is(slots: Seq<Slot>, target: CacheView)
    requires
        distinct(slots),
        forall|i: int|
            0 <= i < slots.len() ==> target.dom().contains(#[trigger] slots[i].identity@)
                && target[slots[i].identity@] == slots[i].entry@,
        forall|id: KeyIdentityView|
            target.dom().contains(id) ==> exists|i: int| holds(slots, id, i),
    ensures
        model(slots) == target,
{
    assert forall|id: KeyIdentityView| model(slots).dom().contains(id) implies target.dom().contains(
        id,
    ) && model(slots)[id] == target[id] by {
        let i = choose|i: int| holds(slots, id, i);
        assert(holds(slots, id, i));
        assert(target.dom().contains(slots[i].identity@));
    }
    assert(model(slots) =~= target);
}

proof fn lemma_push(slots: Seq<Slot>, slot: Slot)
    requires
        distinct(slots),
        forall|i: int| 0 <= i < slots.len() ==> #[trigger] slots[i].identity@ != slot.identity@,
    ensures
        distinct(slots.push(slot)),
        model(slots.push(slot)) == model(slots).insert(slot.identity@, slot.entry@),
{
    let after = slots.push(slot);
    let target = model(slots).insert(slot.identity@, slot.entry@);
    assert(distinct(after));
    assert forall|i: int| 0 <= i < after.len() implies target.dom().contains(
        #[trigger] after[i].identity@,
    ) && target[after[i].identity@] == after[i].entry@ by {
        if i < slots.len() {
            lemma_model_at(slots, i);
            assert(slots[i].identity@ != slot.identity@);
        }
    }
    assert forall|id: KeyIdentityView| target.dom().contains(id) implies exists|i: int|
        holds(after, id, i) by {
        if id == slot.identity@ {
            assert(holds(after, id, slots.len() as int));
        } else {
            let i = choose|i: int| holds(slots, id, i);
            assert(holds(slots, id, i));
            assert(holds(after, id, i));
        }
    }
    lemma_model_is(after, target);
}

proof fn lemma_update(slots: Seq<Slot>, at: int, slot: Slot)
    requires
        distinct(slots),
        0 <= at < slots.len(),
        slot.identity@ == slots[at].identity@,
    ensures
        distinct(slots.update(at, slot)),
        model(slots.update(at, slot)) == model(slots).insert(slot.identity@, slot.entry@),
{
    let after = slots.update(at, slot);
    let target = model(slots).insert(slot.identity@, slot.entry@);
    assert forall|i: int, j: int| 0 <= i < j < after.len() implies #[trigger] after[i].identity@
        != #[trigger] after[j].identity@ by {
        assert(after[i].identity@ == slots[i].identity@);
        assert(after[j].identity@ == slots[j].identity@);
    }
    assert forall|i: int| 0 <= i < after.len() implies target.dom().contains(
        #[trigger] after[i].identity@,
    ) && target[after[i].identity@] == after[i].entry@ by {
        if i != at {
            lemma_model_at(slots, i);
            if i < at {
                assert(slots[i].identity@ != slots[at].identity@);
            } else {
                assert(slots[at].identity@ != slots[i].identity@);
            }
        }
    }
    assert forall|id: KeyIdentityView| target.dom().contains(id) implies exists|i: int|
        holds(after, id, i) by {
        if id == slot.identity@ {
            assert(holds(after, id, at));
        } else {
            let i = choose|i: int| holds(slots, id, i);
            assert(holds(slots, id, i));
            assert(holds(after, id, i));
        }
    }
    lemma_model_is(after, target);
}

proof fn lemma_remove(slots: Seq<Slot>, at: int)
    requires
        distinct(slots),
        0 <= at < slots.len(),
    ensures
        distinct(slots.remove(at)),
        model(slots.remove(at)) == model(slots).remove(slots[at].identity@),
{
    let after = slots.remove(at);
    let gone = slots[at].identity@;
    let target = model(slots).remove(gone);
    assert forall|i: int, j: int| 0 <= i < j < after.len() implies #[trigger] after[i].identity@
        != #[trigger] after[j].identity@ by {
        let si = if i < at { i } else { i + 1 };
        let sj = if j < at { j } else { j + 1 };
        assert(after[i] == slots[si]);
        assert(after[j] == slots[sj]);
        assert(slots[si].identity@ != slots[sj].identity@);
    }
    assert forall|i: int| 0 <= i < after.len() implies target.dom().contains(
        #[trigger] after[i].identity@,
    ) && target[after[i].identity@] == after[i].entry@ by {
        let si = if i < at { i } else { i + 1 };
        assert(after[i] == slots[si]);
        lemma_model_at(slots, si);
        if si < at {
            assert(slots[si].identity@ != slots[at].identity@);
        } else {
            assert(slots[at].identity@ != slots[si].identity@);
        }
    }
    assert forall|id: KeyIdentityView| target.dom().contains(id) implies exists|i: int|
        holds(after, id, i) by {
        let i = choose|i: int| holds(slots, id, i);
        assert(holds(slots, id, i));
        let ai = if i < at { i } else { i - 1 };
        assert(after[ai] == slots[i]);
        assert(holds(after, id, ai));
    }
    lemma_model_is(after, target);
}

/// The process-wide memory of public keys.
#[derive(Debug)]
pub struct KeyCache {
    slots: Vec<Slot>,
}

impl View for KeyCache {
    type V = CacheView;

    closed spec fn view(&self) -> CacheView {
        model(self.slots@)
    }
}

impl KeyCache {
    /// No identity is held twice.
    pub closed spec fn wf(&self) -> bool {
        distinct(self.slots@)
    }

    /// An empty cache: every identity is absent.
    pub fn new() -> (cache: KeyCache)
        ensures
            cache.wf(),
            cache@ == Map::<KeyIdentityView, EntryView>::empty(),
    {
        let cache = KeyCache { slots: Vec::new() };
        proof {
            lemma_model_is(cache.slots@, Map::<KeyIdentityView, EntryView>::empty());
        }
        cache
    }

    fn find(&self, identity: &KeyIdentity) -> (found: Option<usize>)
        requires
            self.wf(),
        ensures
            match found {
                Some(i) => {
                    &&& i < self.slots@.len()
                    &&& self.slots@[i as int].identity@ == identity@
                    &&& self@.dom().contains(identity@)
                    &&& self@[identity@] == self.slots@[i as int].entry@
                },
                None => !self@.dom().contains(identity@) && forall|i: int|
                    0 <= i < self.slots@.len() ==> #[trigger] self.slots@[i].identity@
                        != identity@,
            },
    {
        let mut i: usize = 0;
        while i < self.slots.len()
            invariant
                self.wf(),
                i <= self.slots@.len(),
                forall|j: int| 0 <= j < i ==> #[trigger] self.slots@[j].identity@ != identity@,
            decreases self.slots.len() - i,
        {
            if self.slots[i].identity.same_as(identity) {
                proof {
                    lemma_model_at(self.slots@, i as int);
                }
                return Some(i);
            }
            i += 1;
        }
        proof {
            if self@.dom().contains(identity@) {
                let j = choose|j: int| holds(self.slots@, identity@, j);
                assert(holds(self.slots@, identity@, j));
                assert(self.slots@[j].identity@ != identity@);
            }
        }
        None
    }

    /// The key cached for `identity`, if there is one.
    pub fn cached(&self, identity: &KeyIdentity) -> (key: Option<Vec<u8>>)
        requires
            self.wf(),
        ensures
            crate::codec::key_view(key) == cached_key(self@, identity@),
    {
        match self.find(identity) {
            Some(i) => match &self.slots[i].entry {
                Entry::Ready(key) => Some(copy_bytes(key)),
                Entry::InFlight => None,
            },
            None => None,
        }
    }

    /// Asks for the key of `identity`. A cached key is handed out. An absent
    /// identity is registered as being fetched and the caller is told to
    /// start the fetch. While a fetch is under way nobody else is told to
    /// start one.
    pub fn begin(&mut self, identity: &KeyIdentity) -> (decision: FetchDecision)
        requires
            old(self).wf(),
        ensures
            final(self).wf(),
            (final(self)@, decision@) == begin_spec(old(self)@, identity@),
    {
        match self.find(identity) {
            Some(i) => match &self.slots[i].entry {
                Entry::Ready(key) => FetchDecision::Cached(copy_bytes(key)),
                Entry::InFlight => FetchDecision::Wait,
            },
            None => {
                let slot = Slot { identity: identity.clone(), entry: Entry::InFlight };
                proof {
                    lemma_push(self.slots@, slot);
                }
                self.slots.push(slot);
                FetchDecision::Start
            },
        }
    }

    /// Ends the fetch for `identity` with its result, which is handed back
    /// for the waiters. A key is cached; a failure is not, so that the next
    /// caller fetches again.
    pub fn complete(&mut self, identity: &KeyIdentity, result: Result<Vec<u8>, SignerError>) -> (out:
        Result<Vec<u8>, SignerError>)
        requires
            old(self).wf(),
        ensures
            final(self).wf(),
            final(self)@ == complete_spec(old(self)@, identity@, fetch_view(result)),
            out == result,
    {
        match self.find(identity) {
            Some(i) => {
                let waiting = match &self.slots[i].entry {
                    Entry::InFlight => true,
                    Entry::Ready(_) => false,
                };
                if waiting {
                    match &result {
                        Ok(key) => {
                            let slot = Slot {
                                identity: identity.clone(),
                                entry: Entry::Ready(copy_bytes(key)),
                            };
                            proof {
                                lemma_update(self.slots@, i as int, slot);
                            }
                            self.slots.set(i, slot);
                        },
                        Err(_) => {
                            proof {
                                lemma_remove(self.slots@, i as int);
                            }
                            self.slots.remove(i);
                        },
                    }
                }
            },
            None => {},
        }
        result
    }

    /// Forgets whatever is held for `identity`: the next caller fetches
    /// afresh.
    pub fn invalidate(&mut self, identity: &KeyIdentity)
        requires
            old(self).wf(),
        ensures
            final(self).wf(),
            final(self)@ == old(self)@.remove(identity@),
    {
        match self.find(identity) {
            Some(i) => {
                proof {
                    lemma_remove(self.slots@, i as int);
                }
                self.slots.remove(i);
            },
            None => {
                assert(self@.remove(identity@) =~= self@);
            },
        }
    }

    /// Stores `key` for `identity`, whatever was held before.
    pub(crate) fn store(&mut self, identity: &KeyIdentity, key: &Vec<u8>)
        requires
            old(self).wf(),
        ensures
            final(self).wf(),
            final(self)@ == old(self)@.insert(identity@, EntryView::Ready(key@)),
    {
        let slot = Slot { identity: identity.clone(), entry: Entry::Ready(copy_bytes(key)) };
        match self.find(identity) {
            Some(i) => {
                proof {
                    lemma_update(self.slots@, i as int, slot);
                }
                self.slots.set(i, slot);
            },
            None => {
                proof {
                    lemma_push(self.slots@, slot);
                }
                self.slots.push(slot);
            },
        }
    }

    /// Returns the cached key of `identity`, or else calls `fetcher` once,
    /// stores the key it returns and hands the result on. Where the key is
    /// cached nothing is asked of the fetcher: it is not called. A failed
    /// fetch caches nothing.
    pub fn get_or_fetch<F: FnOnce() -> Result<Vec<u8>, SignerError>>(
        &mut self,
        identity: &KeyIdentity,
        fetcher: F,
    ) -> (out: Result<Vec<u8>, SignerError>)
        requires
            old(self).wf(),
            cached_key(old(self)@, identity@) is None ==> fetcher.requires(()),
        ensures
            final(self).wf(),
            match cached_key(old(self)@, identity@) {
                Some(key) => fetch_view(out) == Ok::<Seq<u8>, SignerError>(key) && final(self)@ == old(
                    self,
                )@,
                None => fetcher.ensures((), out) && final(self)@ == store_spec(
                    old(self)@,
                    identity@,
                    fetch_view(out),
                ),
            },
    {
        match self.cached(identity) {
            Some(key) => Ok(key),
            None => {
                let fetched = fetcher();
                match &fetched {
                    Ok(key) => {
                        self.store(identity, key);
                    },
                    Err(_) => {},
                }
                fetched
            },
        }
    }
}

/// While a fetch is under way, asking again starts no second fetch and
/// leaves the cache as it is.
pub proof fn lemma_single_flight(cache: CacheView, id: KeyIdentityView)
    ensures
        begin_spec(begin_spec(cache, id).0, id).1 != DecisionView::Start,
        begin_spec(begin_spec(cache, id).0, id).0 == begin_spec(cache, id).0,
{
}

/// Once a fetch has ended with a key, every later request is answered with
/// those same bytes, and none of them starts a fetch.
pub proof fn lemma_fetched_key_is_served(cache: CacheView, id: KeyIdentityView, key: Seq<u8>)
    requires
        in_flight(cache, id),
    ensures
        ({
            let stored = complete_spec(cache, id, Ok(key));
            &&& begin_spec(stored, id) == (stored, DecisionView::Cached(key))
            &&& begin_spec(begin_spec(stored, id).0, id) == (stored, DecisionView::Cached(key))
        }),
{
}

/// A failed fetch caches nothing: the next request starts a new fetch.
pub proof fn lemma_failed_fetch_is_retried(cache: CacheView, id: KeyIdentityView, e: SignerError)
    requires
        in_flight(cache, id),
    ensures
        !complete_spec(cache, id, Err(e)).dom().contains(id),
        begin_spec(complete_spec(cache, id, Err(e)), id).1 == DecisionView::Start,
{
}

/// After an invalidation the next request starts a new fetch.
pub proof fn lemma_invalidated_key_is_refetched(cache: CacheView, id: KeyIdentityView)
    ensures
        begin_spec(cache.remove(id), id).1 == DecisionView::Start,
{
}

/// What happens to one identity leaves every other identity as it was.
pub proof fn lemma_identities_are_independent(
    cache: CacheView,
    id: KeyIdentityView,
    other: KeyIdentityView,
    result: Result<Seq<u8>, SignerError>,
)
    requires
        id != other,
    ensures
        begin_spec(cache, id).0.dom().contains(other) == cache.dom().contains(other),
        complete_spec(cache, id, result).dom().contains(other) == cache.dom().contains(other),
        cache.remove(id).dom().contains(other) == cache.dom().contains(other),
        cache.dom().contains(other) ==> {
            &&& begin_spec(cache, id).0[other] == cache[other]
            &&& complete_spec(cache, id, result)[other] == cache[other]
            &&& cache.remove(id)[other] == cache[other]
        },
{
}

} // verus!
