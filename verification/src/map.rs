use vstd::prelude::*;

use crate::timeline::{
    insertion_point, last_at_or_before, lemma_new_marking_in_effect, sorted, MarkingTimeline,
    TempoMapEntry,
};

verus! {

/// What a tempo map holds: the keys ordering its markings, the markings in
/// that order, the total number of beats and the tempo used before the first
/// marking.
pub struct TempoMapView<B> {
    pub keys: Seq<u64>,
    pub entries: Seq<TempoMapEntry<B>>,
    pub total_beats: B,
    pub default_bpm: B,
}

/// The tempo in effect at `query`: that of the last marking whose key is at
/// or before `query`, or `default_bpm` when there is none.
pub open spec fn bpm_in_effect<B>(
    keys: Seq<u64>,
    entries: Seq<TempoMapEntry<B>>,
    default_bpm: B,
    query: u64,
) -> B
    decreases keys.len(),
{
    if keys.len() == 0 {
        default_bpm
    } else if keys.last() <= query {
        entries[keys.len() - 1].bpm_view()
    } else {
        bpm_in_effect(keys.drop_last(), entries, default_bpm, query)
    }
}

/// Tempo markings across a session timeline.
///
/// Each marking is placed by an integer key that orders it along the
/// session; the map finds the marking in effect at any point. It also keeps
/// the total length of the session in beats and a default tempo used before
/// the first marking.
#[derive(Debug, Clone)]
pub struct TempoMap<B> {
    timeline: MarkingTimeline<TempoMapEntry<B>>,
    total_beats: B,
    default_bpm: B,
}

impl<B: Copy> TempoMap<B> {
    /// The contents of the map.
    pub closed spec fn view(&self) -> TempoMapView<B> {
        TempoMapView {
            keys: self.timeline.keys_view(),
            entries: self.timeline.payloads_view(),
            total_beats: self.total_beats,
            default_bpm: self.default_bpm,
        }
    }

    /// An empty map with the given default tempo, whose total length starts
    /// at `origin`.
    pub fn with_origin(default_bpm: B, origin: B) -> (m: Self)
        ensures
            m@.keys == Seq::<u64>::empty(),
            m@.entries == Seq::<TempoMapEntry<B>>::empty(),
            m@.total_beats == origin,
            m@.default_bpm == default_bpm,
    {
        TempoMap { timeline: MarkingTimeline::new(), total_beats: origin, default_bpm }
    }

    /// Adds a marking at position `key` and returns where it was placed:
    /// after every marking whose key is not greater, before every marking
    /// whose key is greater.
    pub fn add_marking_at(&mut self, key: u64, entry: TempoMapEntry<B>) -> (pos: usize)
        ensures
            insertion_point(old(self)@.keys, key, pos as int),
            final(self)@.keys == old(self)@.keys.insert(pos as int, key),
            final(self)@.entries == old(self)@.entries.insert(pos as int, entry),
            sorted(final(self)@.keys),
            final(self)@.keys.len() == final(self)@.entries.len(),
            final(self)@.total_beats == old(self)@.total_beats,
            final(self)@.default_bpm == old(self)@.default_bpm,
    {
        self.timeline.insert(key, entry)
    }

    /// Sets the total length of the session, in beats.
    pub fn set_total_beats(&mut self, total_beats: B)
        ensures
            final(self)@ == (TempoMapView { total_beats, ..old(self)@ }),
    {
        self.total_beats = total_beats;
    }

    /// The tempo at position `query`: that of the last marking at or before
    /// it, or the default tempo when there is none.
    pub fn bpm_at_key(&self, query: u64) -> (r: B)
        ensures
            r == bpm_in_effect(self@.keys, self@.entries, self@.default_bpm, query),
            (forall|j: int| 0 <= j < self@.keys.len() ==> self@.keys[j] > query) ==> r
                == self@.default_bpm,
            forall|i: int|
                0 <= i < self@.keys.len() && self@.keys[i] <= query && (forall|j: int|
                    i < j < self@.keys.len() ==> self@.keys[j] > query) ==> r
                    == self@.entries[i].bpm_view(),
    {
        let found = self.timeline.find_at_or_before(query);
        let entries = self.timeline.payloads();
        proof {
            lemma_bpm_in_effect_is_last(
                self@.keys,
                self@.entries,
                self@.default_bpm,
                query,
                found,
            );
        }
        match found {
            Some(i) => entries[i].bpm(),
            None => self.default_bpm,
        }
    }

    /// Total length of the session, in beats.
    pub fn total_beats(&self) -> (r: B)
        ensures
            r == self@.total_beats,
    {
        self.total_beats
    }

    /// The tempo used before the first marking.
    pub fn default_bpm(&self) -> (r: B)
        ensures
            r == self@.default_bpm,
    {
        self.default_bpm
    }

    /// Number of markings.
    pub fn entry_count(&self) -> (r: usize)
        ensures
            r == self@.entries.len(),
            r == self@.keys.len(),
    {
        self.timeline.len()
    }

    /// Whether the map has no marking.
    pub fn is_empty(&self) -> (r: bool)
        ensures
            r == (self@.entries.len() == 0),
    {
        self.timeline.is_empty()
    }

    /// All markings, in timeline order.
    pub fn entries(&self) -> (r: &[TempoMapEntry<B>])
        ensures
            r@ == self@.entries,
    {
        self.timeline.payloads()
    }

    /// The keys of the markings, in timeline order.
    pub fn keys(&self) -> (r: &[u64])
        ensures
            r@ == self@.keys,
            sorted(r@),
    {
        self.timeline.keys()
    }
}

/// The marking in effect is the last one at or before the query: for any
/// result of a lookup that finds the last marking at or before `query`,
/// `bpm_in_effect` is that marking's tempo, or the default when there is
/// none.
pub proof fn lemma_bpm_in_effect_is_last<B>(
    keys: Seq<u64>,
    entries: Seq<TempoMapEntry<B>>,
    default_bpm: B,
    query: u64,
    found: Option<usize>,
)
    requires
        last_at_or_before(keys, query, found),
    ensures
        bpm_in_effect(keys, entries, default_bpm, query) == match found {
            Some(i) => entries[i as int].bpm_view(),
            None => default_bpm,
        },
    decreases keys.len(),
{
    if keys.len() > 0 {
        if keys.last() <= query {
            match found {
                Some(i) => {
                    if (i as int) < keys.len() - 1 {
                        assert(keys[keys.len() - 1] > query);
                    }
                },
                None => {
                    assert(keys[keys.len() - 1] > query);
                },
            }
        } else {
            match found {
                Some(i) => {
                    assert(i != keys.len() - 1);
                },
                None => {},
            }
            lemma_bpm_in_effect_is_last(keys.drop_last(), entries, default_bpm, query, found);
        }
    }
}

/// A marking that has just been added gives the tempo at its own position,
/// whatever markings were there before.
pub proof fn lemma_added_marking_in_effect<B>(
    keys: Seq<u64>,
    entries: Seq<TempoMapEntry<B>>,
    default_bpm: B,
    key: u64,
    entry: TempoMapEntry<B>,
    pos: usize,
)
    requires
        sorted(keys),
        entries.len() == keys.len(),
        insertion_point(keys, key, pos as int),
    ensures
        bpm_in_effect(keys.insert(pos as int, key), entries.insert(pos as int, entry), default_bpm, key)
            == entry.bpm_view(),
{
    lemma_new_marking_in_effect(keys, key, pos);
    lemma_bpm_in_effect_is_last(
        keys.insert(pos as int, key),
        entries.insert(pos as int, entry),
        default_bpm,
        key,
        Some(pos),
    );
}

} // verus!
