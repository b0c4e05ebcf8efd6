//! Turns periodic snapshots of the pressed keys into key-down events.

use vstd::prelude::*;

verus! {

/// Whether `key` occurs in `v`.
fn contains_key(v: &Vec<i32>, key: i32) -> (found: bool)
    ensures
        found == v@.contains(key),
{
    let mut i: usize = 0;
    while i < v.len()
        invariant
            i <= v@.len(),
            forall|j: int| 0 <= j < i ==> v@[j] != key,
        decreases v@.len() - i,
    {
        if v[i] == key {
            assert(v@[i as int] == key);
            return true;
        }
        i = i + 1;
    }
    false
}

proof fn lemma_push_contains(s: Seq<i32>, x: i32, k: i32)
    ensures
        s.push(x).contains(k) <==> (s.contains(k) || k == x),
{
    if s.contains(k) {
        let n = choose|n: int| 0 <= n < s.len() && s[n] == k;
        assert(s.push(x)[n] == k);
    }
    if k == x {
        assert(s.push(x)[s.len() as int] == k);
    }
    if s.push(x).contains(k) && k != x {
        let n = choose|n: int| 0 <= n < s.push(x).len() && s.push(x)[n] == k;
        assert(s[n] == k);
    }
}

/// The keys that are held down, by key code, as seen in the latest snapshot.
pub struct KeyTracker {
    down: Vec<i32>,
}

impl View for KeyTracker {
    type V = Set<i32>;

    closed spec fn view(&self) -> Set<i32> {
        self.down@.to_set()
    }
}

impl KeyTracker {
    /// Each key is held at most once.
    pub closed spec fn wf(&self) -> bool {
        self.down@.no_duplicates()
    }

    /// A tracker with every key up.
    pub fn new() -> (t: KeyTracker)
        ensures
            t.wf(),
            t@ == Set::<i32>::empty(),
    {
        let t = KeyTracker { down: Vec::new() };
        assert(t@ =~= Set::<i32>::empty());
        t
    }

    /// Whether `key` is held down.
    pub fn is_down(&self, key: i32) -> (r: bool)
        ensures
            r == self@.contains(key),
    {
        contains_key(&self.down, key)
    }

    /// The number of keys held down.
    pub fn held_count(&self) -> (n: usize)
        requires
            self.wf(),
        ensures
            n == self@.len(),
    {
        proof {
            self.down@.unique_seq_to_set();
        }
        self.down.len()
    }

    /// Processes one snapshot of the keys that are physically down. Each key
    /// of the snapshot that was up becomes down and is returned once as a
    /// down-event; each key that was down and is missing from the snapshot
    /// becomes up, silently. Afterwards exactly the snapshot's keys are down.
    pub fn observe(&mut self, snapshot: &Vec<i32>) -> (events: Vec<i32>)
        requires
            old(self).wf(),
        ensures
            final(self).wf(),
            final(self)@ == snapshot@.to_set(),
            events@.no_duplicates(),
            events@.to_set() == snapshot@.to_set().difference(old(self)@),
    {
        let mut next: Vec<i32> = Vec::new();
        let mut events: Vec<i32> = Vec::new();
        let mut i: usize = 0;
        while i < snapshot.len()
            invariant
                i <= snapshot@.len(),
                next@.no_duplicates(),
                events@.no_duplicates(),
                forall|k: i32|
                    next@.contains(k) <==> exists|j: int| 0 <= j < i && #[trigger] snapshot@[j] == k,
                forall|k: i32| events@.contains(k) <==> (next@.contains(k) && !self.down@.contains(k)),
            decreases snapshot@.len() - i,
        {
            let key = snapshot[i];
            let ghost next0 = next@;
            let ghost events0 = events@;
            let seen = contains_key(&next, key);
            let mut held = true;
            if !seen {
                next.push(key);
                held = contains_key(&self.down, key);
                if !held {
                    events.push(key);
                }
            }
            proof {
                assert(snapshot@[i as int] == key);
                if seen {
                    assert(next@ == next0);
                    assert(events@ == events0);
                } else {
                    assert(next@ == next0.push(key));
                    assert(!held ==> events@ == events0.push(key));
                    assert(held ==> events@ == events0);
                }
                assert forall|k: i32|
                    next@.contains(k) <==> exists|j: int|
                        0 <= j < i + 1 && #[trigger] snapshot@[j] == k by {
                    if exists|j: int| 0 <= j < i + 1 && #[trigger] snapshot@[j] == k {
                        let j = choose|j: int| 0 <= j < i + 1 && #[trigger] snapshot@[j] == k;
                        if j < i {
                            assert(next0.contains(k));
                        }
                    }
                    if next0.contains(k) {
                        let j = choose|j: int| 0 <= j < i && #[trigger] snapshot@[j] == k;
                        assert(snapshot@[j] == k);
                    }
                    lemma_push_contains(next0, key, k);
                }
                assert forall|k: i32|
                    events@.contains(k) <==> (next@.contains(k) && !self.down@.contains(k)) by {
                    lemma_push_contains(next0, key, k);
                    lemma_push_contains(events0, key, k);
                }
            }
            i = i + 1;
        }
        assert forall|k: i32| snapshot@.contains(k) <==> next@.contains(k) by {
            if snapshot@.contains(k) {
                let j = choose|j: int| 0 <= j < snapshot@.len() && snapshot@[j] == k;
                assert(snapshot@[j] == k);
            }
        }
        assert(next@.to_set() =~= snapshot@.to_set());
        assert(events@.to_set() =~= snapshot@.to_set().difference(self@));
        self.down = next;
        events
    }
}

} // verus!
