//! Remembering what the metadata provider has answered.
//!
//! A cache is a map from the provider's id to what it resolved to. An entry
//! is written when an id is first resolved and read ever after; nothing is
//! evicted. Failures are not remembered. The provider is asked by the
//! caller, between a `lookup` that misses and the `settle` that follows.

use crate::json::Song;
use vstd::hash_map::StringHashMap;
use vstd::prelude::*;

verus! {

/// A memoizing map from ids to values of one kind.
#[verifier::reject_recursive_types(V)]
pub struct Cache<V> {
    entries: StringHashMap<V>,
}

impl<V> View for Cache<V> {
    type V = Map<Seq<char>, V>;

    closed spec fn view(&self) -> Map<Seq<char>, V> {
        self.entries@
    }
}

/// The map after an answer of the provider for `id` has been settled: a
/// value is remembered under `id`, a failure leaves the map as it was.
pub open spec fn settled<V, E>(entries: Map<Seq<char>, V>, id: Seq<char>, answer: Result<V, E>) -> Map<
    Seq<char>,
    V,
> {
    match answer {
        Ok(value) => entries.insert(id, value),
        Err(_) => entries,
    }
}

/// The map after each of `songs` has been remembered under its own id,
/// first to last.
pub open spec fn with_songs(entries: Map<Seq<char>, Song>, songs: Seq<Song>) -> Map<
    Seq<char>,
    Song,
>
    decreases songs.len(),
{
    if songs.len() == 0 {
        entries
    } else {
        with_songs(entries, songs.drop_last()).insert(songs.last().id@, songs.last())
    }
}

impl<V> Cache<V> {
    /// A cache that remembers nothing yet.
    pub fn new() -> (cache: Self)
        ensures
            cache@ == Map::<Seq<char>, V>::empty(),
    {
        Cache { entries: StringHashMap::new() }
    }

    /// What is remembered under `id`, if anything. On a hit there is no
    /// need to ask the provider.
    pub fn lookup<'a>(&'a self, id: &str) -> (hit: Option<&'a V>)
        ensures
            hit is Some <==> self@.contains_key(id@),
            hit matches Some(value) ==> *value == self@[id@],
    {
        self.entries.get(id)
    }

    /// Remembers `value` under `id`, in place of what was there.
    pub fn store(&mut self, id: String, value: V)
        ensures
            final(self)@ == old(self)@.insert(id@, value),
    {
        self.entries.insert(id, value);
    }

    /// Settles a miss with the provider's answer: a value is remembered
    /// before it is handed back, a failure is handed back and not
    /// remembered.
    pub fn settle<E>(&mut self, id: &str, answer: Result<V, E>) -> (r: Result<(), E>)
        ensures
            final(self)@ == settled(old(self)@, id@, answer),
            r is Ok <==> answer is Ok,
            r matches Err(e) ==> answer == Err::<V, E>(e),
    {
        match answer {
            Ok(value) => {
                self.entries.insert(id.to_owned(), value);
                Ok(())
            },
            Err(e) => Err(e),
        }
    }

    /// The number of entries.
    pub fn len(&self) -> (n: usize)
        ensures
            n == self@.len(),
    {
        self.entries.len()
    }
}

impl Cache<Song> {
    /// Remembers every song of a search result under its own id, so that
    /// asking for one of them later is a hit.
    pub fn store_all(&mut self, songs: &Vec<Song>)
        ensures
            final(self)@ == with_songs(old(self)@, songs@),
    {
        let mut i: usize = 0;
        while i < songs.len()
            invariant
                i <= songs.len(),
                self@ == with_songs(old(self)@, songs@.take(i as int)),
            decreases songs.len() - i,
        {
            let song = songs[i].duplicate();
            self.entries.insert(song.id.clone(), song);
            i += 1;
            assert(songs@.take(i as int).drop_last() =~= songs@.take(i - 1));
        }
        assert(songs@.take(songs.len() as int) =~= songs@);
    }
}

/// Exactly one question per id: once an answer for `id` was settled, a
/// lookup of `id` is a hit with that answer, and every other id is found
/// as it was before.
pub proof fn lemma_second_request_hits<V, E>(
    entries: Map<Seq<char>, V>,
    id: Seq<char>,
    value: V,
    other: Seq<char>,
)
    ensures
        settled(entries, id, Ok::<V, E>(value)).contains_key(id),
        settled(entries, id, Ok::<V, E>(value))[id] == value,
        other != id ==> (settled(entries, id, Ok::<V, E>(value)).contains_key(other)
            <==> entries.contains_key(other)),
        other != id && entries.contains_key(other) ==> settled(entries, id, Ok::<V, E>(value))[other]
            == entries[other],
{
}

/// The cache after a run of requests, each settled with the provider's
/// answer where it missed. `answer` gives the provider's answer for an id.
pub open spec fn after_requests<V>(
    entries: Map<Seq<char>, V>,
    ids: Seq<Seq<char>>,
    answer: spec_fn(Seq<char>) -> Option<V>,
) -> Map<Seq<char>, V>
    decreases ids.len(),
{
    if ids.len() == 0 {
        entries
    } else {
        let before = after_requests(entries, ids.drop_last(), answer);
        if before.contains_key(ids.last()) {
            before
        } else {
            match answer(ids.last()) {
                Some(value) => before.insert(ids.last(), value),
                None => before,
            }
        }
    }
}

/// How often the provider is asked over a run of requests: once for every
/// request that misses.
pub open spec fn provider_calls<V>(
    entries: Map<Seq<char>, V>,
    ids: Seq<Seq<char>>,
    answer: spec_fn(Seq<char>) -> Option<V>,
) -> nat
    decreases ids.len(),
{
    if ids.len() == 0 {
        0
    } else {
        provider_calls(entries, ids.drop_last(), answer) + if after_requests(
            entries,
            ids.drop_last(),
            answer,
        ).contains_key(ids.last()) {
            0nat
        } else {
            1nat
        }
    }
}

/// Asking for the same id twice asks the provider once, if it answers,
/// and the second request finds what the first was answered.
pub proof fn lemma_same_id_twice<V>(id: Seq<char>, answer: spec_fn(Seq<char>) -> Option<V>)
    requires
        answer(id) is Some,
    ensures
        provider_calls(Map::<Seq<char>, V>::empty(), seq![id, id], answer) == 1,
        after_requests(Map::<Seq<char>, V>::empty(), seq![id], answer)[id] == answer(id)->0,
        after_requests(Map::<Seq<char>, V>::empty(), seq![id, id], answer) == after_requests(
            Map::<Seq<char>, V>::empty(),
            seq![id],
            answer,
        ),
{
    let none = Map::<Seq<char>, V>::empty();
    let once = seq![id];
    let twice = seq![id, id];
    assert(once.drop_last() =~= Seq::<Seq<char>>::empty());
    assert(twice.drop_last() =~= once);
    assert(once.last() == id);
    assert(twice.last() == id);
    assert(after_requests(none, once.drop_last(), answer) == none);
    assert(after_requests(none, once, answer) == none.insert(id, answer(id)->0));
    assert(provider_calls(none, once.drop_last(), answer) == 0);
    assert(provider_calls(none, once, answer) == 1);
}

/// Failures are not remembered: after a failed answer the cache is what it
/// was, so the next request for the same id asks the provider again.
pub proof fn lemma_failures_not_cached<V, E>(entries: Map<Seq<char>, V>, id: Seq<char>, error: E)
    ensures
        settled(entries, id, Err::<V, E>(error)) == entries,
{
}

} // verus!
