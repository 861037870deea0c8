use vstd::prelude::*;

use crate::curve::label_view;

verus! {

/// Whether `keys` is in non-decreasing order.
pub open spec fn sorted(keys: Seq<u64>) -> bool {
    forall|i: int, j: int| 0 <= i <= j < keys.len() ==> keys[i] <= keys[j]
}

/// Whether `pos` is where a marking with `key` goes in `keys`: after every
/// key that is not greater, before every key that is greater.
pub open spec fn insertion_point(keys: Seq<u64>, key: u64, pos: int) -> bool {
    &&& 0 <= pos <= keys.len()
    &&& forall|i: int| 0 <= i < pos ==> keys[i] <= key
    &&& forall|i: int| pos <= i < keys.len() ==> keys[i] > key
}

/// Whether `found` is the position of the last key at or before `query`, or
/// `None` when every key is after `query`.
pub open spec fn last_at_or_before(keys: Seq<u64>, query: u64, found: Option<usize>) -> bool {
    match found {
        Some(i) => {
            &&& i < keys.len()
            &&& keys[i as int] <= query
            &&& forall|j: int| i < j < keys.len() ==> keys[j] > query
        },
        None => forall|j: int| 0 <= j < keys.len() ==> keys[j] > query,
    }
}

/// Markings placed along a session, kept in order of their position.
///
/// Each marking has an integer key that orders it along the timeline and a
/// payload. Markings are kept sorted by key; markings with equal keys keep
/// the order in which they were added.
#[derive(Debug)]
pub struct MarkingTimeline<P> {
    keys: Vec<u64>,
    payloads: Vec<P>,
}

impl<P> MarkingTimeline<P> {
    #[verifier::type_invariant]
    closed spec fn well_formed(self) -> bool {
        &&& self.keys@.len() == self.payloads@.len()
        &&& sorted(self.keys@)
    }

    /// The keys of the markings, in timeline order.
    pub closed spec fn keys_view(&self) -> Seq<u64> {
        self.keys@
    }

    /// The payloads of the markings, in timeline order.
    pub closed spec fn payloads_view(&self) -> Seq<P> {
        self.payloads@
    }

    /// An empty timeline.
    pub fn new() -> (t: Self)
        ensures
            t.keys_view() == Seq::<u64>::empty(),
            t.payloads_view() == Seq::<P>::empty(),
    {
        MarkingTimeline { keys: Vec::new(), payloads: Vec::new() }
    }

    /// Adds a marking and returns the position it was placed at: after every
    /// marking whose key is not greater, before every marking whose key is
    /// greater. The other markings keep their relative order.
    pub fn insert(&mut self, key: u64, payload: P) -> (pos: usize)
        ensures
            insertion_point(old(self).keys_view(), key, pos as int),
            final(self).keys_view() == old(self).keys_view().insert(pos as int, key),
            final(self).payloads_view() == old(self).payloads_view().insert(pos as int, payload),
            sorted(final(self).keys_view()),
            final(self).keys_view().len() == final(self).payloads_view().len(),
    {
        proof {
            use_type_invariant(&*self);
        }
        let n: usize = self.keys.len();
        let mut pos: usize = 0;
        while pos < n && self.keys[pos] <= key
            invariant
                n == self.keys@.len(),
                sorted(self.keys@),
                pos <= n,
                forall|i: int| 0 <= i < pos ==> self.keys@[i] <= key,
            decreases n - pos,
        {
            pos = pos + 1;
        }
        let ghost old_keys = self.keys@;
        let mut t = MarkingTimeline::new();
        std::mem::swap(&mut t, self);
        let MarkingTimeline { mut keys, mut payloads } = t;
        keys.insert(pos, key);
        payloads.insert(pos, payload);
        proof {
            assert forall|i: int, j: int| 0 <= i <= j < keys@.len() implies keys@[i] <= keys@[j] by {
                if j < pos {
                } else if i > pos {
                    assert(keys@[i] == old_keys[i - 1]);
                    assert(keys@[j] == old_keys[j - 1]);
                } else if i == pos && j > pos {
                    assert(keys@[j] == old_keys[j - 1]);
                } else if i < pos && j > pos {
                    assert(keys@[j] == old_keys[j - 1]);
                } else if i < pos && j == pos {
                }
            }
        }
        *self = MarkingTimeline { keys, payloads };
        pos
    }

    /// The position of the last marking whose key is at or before `query`,
    /// or `None` when there is none.
    pub fn find_at_or_before(&self, query: u64) -> (r: Option<usize>)
        ensures
            last_at_or_before(self.keys_view(), query, r),
    {
        proof {
            use_type_invariant(self);
        }
        let n: usize = self.keys.len();
        let mut found: Option<usize> = None;
        let mut i: usize = 0;
        while i < n
            invariant_except_break
                n == self.keys@.len(),
                sorted(self.keys@),
                i <= n,
                found matches Some(f) ==> f < i && self.keys@[f as int] <= query && forall|j: int|
                    f < j < i ==> self.keys@[j] > query,
                found is None ==> forall|j: int| 0 <= j < i ==> self.keys@[j] > query,
            ensures
                last_at_or_before(self.keys@, query, found),
            decreases n - i,
        {
            if self.keys[i] <= query {
                found = Some(i);
            } else {
                break;
            }
            i = i + 1;
        }
        found
    }

    /// Number of markings.
    pub fn len(&self) -> (r: usize)
        ensures
            r == self.keys_view().len(),
            r == self.payloads_view().len(),
    {
        proof {
            use_type_invariant(self);
        }
        self.keys.len()
    }

    /// Whether the timeline has no marking.
    pub fn is_empty(&self) -> (r: bool)
        ensures
            r == (self.keys_view().len() == 0),
            r == (self.payloads_view().len() == 0),
    {
        proof {
            use_type_invariant(self);
        }
        self.keys.len() == 0
    }

    /// The keys of the markings, in timeline order.
    pub fn keys(&self) -> (r: &[u64])
        ensures
            r@ == self.keys_view(),
            sorted(r@),
    {
        proof {
            use_type_invariant(self);
        }
        self.keys.as_slice()
    }

    /// The payloads of the markings, in timeline order.
    pub fn payloads(&self) -> (r: &[P])
        ensures
            r@ == self.payloads_view(),
            r@.len() == self.keys_view().len(),
    {
        proof {
            use_type_invariant(self);
        }
        self.payloads.as_slice()
    }
}

impl<P: Clone> Clone for MarkingTimeline<P> {
    /// A copy of the timeline: the same keys, and a clone of each payload.
    fn clone(&self) -> (t: Self)
        ensures
            t.keys_view() == self.keys_view(),
            t.payloads_view().len() == self.payloads_view().len(),
            forall|i: int|
                0 <= i < self.payloads_view().len() ==> cloned::<P>(
                    self.payloads_view()[i],
                    t.payloads_view()[i],
                ),
    {
        proof {
            use_type_invariant(self);
        }
        let keys = self.keys.clone();
        proof {
            assert forall|i: int| 0 <= i < keys@.len() implies keys@[i] == self.keys@[i] by {
                assert(cloned::<u64>(self.keys[i], keys[i]));
            }
            assert(keys@ =~= self.keys@);
        }
        let payloads = self.payloads.clone();
        MarkingTimeline { keys, payloads }
    }
}

/// There is at most one place for a key in a sorted timeline.
pub proof fn lemma_insertion_point_unique(keys: Seq<u64>, key: u64, p: int, q: int)
    requires
        insertion_point(keys, key, p),
        insertion_point(keys, key, q),
    ensures
        p == q,
{
    if p < q {
        assert(keys[p] <= key);
        assert(keys[p] > key);
    } else if q < p {
        assert(keys[q] <= key);
        assert(keys[q] > key);
    }
}

/// A marking that has just been added is the one in effect at its own key:
/// the last marking at or before that key is the new one.
pub proof fn lemma_new_marking_in_effect(keys: Seq<u64>, key: u64, pos: usize)
    requires
        sorted(keys),
        insertion_point(keys, key, pos as int),
    ensures
        last_at_or_before(keys.insert(pos as int, key), key, Some(pos)),
{
    let ks = keys.insert(pos as int, key);
    assert forall|j: int| pos < j < ks.len() implies ks[j] > key by {
        assert(ks[j] == keys[j - 1]);
    }
}

/// Adding two markings with different keys gives the same timeline in
/// either order.
pub proof fn lemma_insert_order_irrelevant<P>(
    keys: Seq<u64>,
    payloads: Seq<P>,
    a: u64,
    x: P,
    b: u64,
    y: P,
    p1: int,
    p2: int,
    q1: int,
    q2: int,
)
    requires
        sorted(keys),
        payloads.len() == keys.len(),
        a != b,
        insertion_point(keys, a, p1),
        insertion_point(keys.insert(p1, a), b, p2),
        insertion_point(keys, b, q1),
        insertion_point(keys.insert(q1, b), a, q2),
    ensures
        keys.insert(p1, a).insert(p2, b) == keys.insert(q1, b).insert(q2, a),
        payloads.insert(p1, x).insert(p2, y) == payloads.insert(q1, y).insert(q2, x),
{
    if a < b {
        lemma_insert_pair_lower_first(keys, a, b, p1, p2, q1, q2);
    } else {
        lemma_insert_pair_lower_first(keys, b, a, q1, q2, p1, p2);
    }
    if a < b {
        assert(payloads.insert(p1, x).insert(p2, y) =~= payloads.insert(q1, y).insert(q2, x));
    } else {
        assert(payloads.insert(p1, x).insert(p2, y) =~= payloads.insert(q1, y).insert(q2, x));
    }
    assert(keys.insert(p1, a).insert(p2, b) =~= keys.insert(q1, b).insert(q2, a));
}

/// With `a < b`: `a` goes first in either order of insertion, at the same
/// place, and `b` lands one past its own place.
proof fn lemma_insert_pair_lower_first(
    keys: Seq<u64>,
    a: u64,
    b: u64,
    p1: int,
    p2: int,
    q1: int,
    q2: int,
)
    requires
        sorted(keys),
        a < b,
        insertion_point(keys, a, p1),
        insertion_point(keys.insert(p1, a), b, p2),
        insertion_point(keys, b, q1),
        insertion_point(keys.insert(q1, b), a, q2),
    ensures
        p1 <= q1,
        p2 == q1 + 1,
        q2 == p1,
{
    if p1 > q1 {
        assert(keys[q1] <= a);
        assert(keys[q1] > b);
    }
    let ka = keys.insert(p1, a);
    assert forall|i: int| 0 <= i < q1 + 1 implies ka[i] <= b by {
        if i < p1 {
            assert(ka[i] == keys[i]);
        } else if i > p1 {
            assert(ka[i] == keys[i - 1]);
        }
    }
    assert forall|i: int| q1 + 1 <= i < ka.len() implies ka[i] > b by {
        assert(ka[i] == keys[i - 1]);
    }
    lemma_insertion_point_unique(ka, b, p2, q1 + 1);
    let kb = keys.insert(q1, b);
    assert forall|i: int| 0 <= i < p1 implies kb[i] <= a by {
        assert(kb[i] == keys[i]);
    }
    assert forall|i: int| p1 <= i < kb.len() implies kb[i] > a by {
        if i < q1 {
            assert(kb[i] == keys[i]);
        } else if i > q1 {
            assert(kb[i] == keys[i - 1]);
        }
    }
    lemma_insertion_point_unique(kb, a, q2, p1);
}

/// A tempo marking placed on a session timeline: the beat it starts at, its
/// tempo and an optional label.
#[derive(Debug, Clone)]
pub struct TempoMapEntry<B> {
    start_beat: B,
    bpm: B,
    label: Option<String>,
}

impl<B> TempoMapEntry<B> {
    /// The beat the marking starts at.
    pub closed spec fn start_beat_view(&self) -> B {
        self.start_beat
    }

    /// The tempo of the marking.
    pub closed spec fn bpm_view(&self) -> B {
        self.bpm
    }

    /// The label of the marking, as text.
    pub closed spec fn label_view(&self) -> Option<Seq<char>> {
        label_view(self.label)
    }
}

impl<B: Copy> TempoMapEntry<B> {
    /// A marking at `start_beat` with tempo `bpm` and an optional label.
    pub fn new(start_beat: B, bpm: B, label: Option<String>) -> (e: Self)
        ensures
            e.start_beat_view() == start_beat,
            e.bpm_view() == bpm,
            e.label_view() == label_view(label),
    {
        TempoMapEntry { start_beat, bpm, label }
    }

    /// The beat the marking starts at.
    pub fn start_beat(&self) -> (r: B)
        ensures
            r == self.start_beat_view(),
    {
        self.start_beat
    }

    /// The tempo of the marking.
    pub fn bpm(&self) -> (r: B)
        ensures
            r == self.bpm_view(),
    {
        self.bpm
    }

    /// The label, if any.
    pub fn label(&self) -> (r: Option<&str>)
        ensures
            r is Some <==> self.label_view() is Some,
            r matches Some(s) ==> self.label_view() == Some(s@),
    {
        match &self.label {
            Some(s) => Some(s.as_str()),
            None => None,
        }
    }
}

} // verus!
