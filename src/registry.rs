use vstd::prelude::*;

verus! {

/// What the registry knows about one document id.
pub enum Slot<H> {
    /// One caller has claimed the id and is building its editor.
    InFlight,
    /// The id has a live editor handle.
    Ready(H),
}

struct Entry<H> {
    id: String,
    slot: Slot<H>,
}

/// The outcome of claiming an id.
#[derive(Clone, Copy, Debug, PartialEq, Eq, Structural)]
pub enum Claim {
    /// The id already has a live handle.
    Live,
    /// Another caller holds the claim and is building the editor.
    Building,
    /// The caller now holds the claim and must build the editor.
    Claimed,
}

/// Live editor handles keyed by document id, with at most one slot per id.
///
/// No reference count is kept: since an id is claimed before its editor is built, each id
/// is registered at most once, and removing it releases the handle.
pub struct EditorRegistry<H> {
    entries: Vec<Entry<H>>,
    slots: Ghost<Map<Seq<char>, Slot<H>>>,
}

/// The handle that is live for `id`, if any.
pub open spec fn live_handle<H>(m: Map<Seq<char>, Slot<H>>, id: Seq<char>) -> Option<H> {
    if m.contains_key(id) {
        match m[id] {
            Slot::Ready(h) => Some(h),
            Slot::InFlight => None,
        }
    } else {
        None
    }
}

/// Whether some caller is building the editor for `id`.
pub open spec fn in_flight<H>(m: Map<Seq<char>, Slot<H>>, id: Seq<char>) -> bool {
    m.contains_key(id) && m[id] is InFlight
}

/// What claiming `id` in `m` reports.
pub open spec fn claim_outcome<H>(m: Map<Seq<char>, Slot<H>>, id: Seq<char>) -> Claim {
    if !m.contains_key(id) {
        Claim::Claimed
    } else if m[id] is InFlight {
        Claim::Building
    } else {
        Claim::Live
    }
}

/// The slots after claiming `id` in `m`: only an unknown id changes, to in flight.
pub open spec fn claim_state<H>(m: Map<Seq<char>, Slot<H>>, id: Seq<char>) -> Map<Seq<char>, Slot<H>> {
    if m.contains_key(id) {
        m
    } else {
        m.insert(id, Slot::InFlight)
    }
}

impl<H> View for EditorRegistry<H> {
    type V = Map<Seq<char>, Slot<H>>;

    closed spec fn view(&self) -> Map<Seq<char>, Slot<H>> {
        self.slots@
    }
}

impl<H> EditorRegistry<H> {
    /// The entries are keyed by distinct ids, and the ghost map holds exactly them.
    pub closed spec fn wf(&self) -> bool {
        &&& forall|i: int, j: int|
            0 <= i < j < self.entries.len() ==> self.entries[i].id@ != self.entries[j].id@
        &&& forall|i: int|
            0 <= i < self.entries.len() ==> {
                &&& self.slots@.contains_key(#[trigger] self.entries[i].id@)
                &&& self.slots@[self.entries[i].id@] == self.entries[i].slot
            }
        &&& forall|k: Seq<char>|
            self.slots@.contains_key(k) ==> exists|i: int|
                0 <= i < self.entries.len() && #[trigger] self.entries[i].id@ == k
    }

    pub fn new() -> (r: Self)
        ensures
            r.wf(),
            r@ == Map::<Seq<char>, Slot<H>>::empty(),
    {
        EditorRegistry { entries: Vec::new(), slots: Ghost(Map::empty()) }
    }

    fn position(&self, id: &String) -> (r: Option<usize>)
        requires
            self.wf(),
        ensures
            match r {
                Some(i) => i < self.entries.len() && self.entries[i as int].id@ == id@,
                None => !self@.contains_key(id@),
            },
    {
        let mut i: usize = 0;
        while i < self.entries.len()
            invariant
                self.wf(),
                i <= self.entries.len(),
                forall|j: int| 0 <= j < i ==> self.entries[j].id@ != id@,
            decreases self.entries.len() - i,
        {
            if self.entries[i].id == *id {
                return Some(i);
            }
            i = i + 1;
        }
        None
    }

    /// Looks up the live handle for `id` without changing anything.
    pub fn get(&self, id: &str) -> (r: Option<&H>)
        requires
            self.wf(),
        ensures
            match r {
                Some(h) => live_handle(self@, id@) == Some(*h),
                None => live_handle(self@, id@) is None,
            },
    {
        let key = id.to_owned();
        match self.position(&key) {
            None => None,
            Some(i) => {
                proof {
                    assert(self.slots@[self.entries[i as int].id@] == self.entries[i as int].slot);
                }
                match &self.entries[i].slot {
                    Slot::Ready(h) => Some(h),
                    Slot::InFlight => None,
                }
            },
        }
    }
    /// Whether some caller holds the claim on `id`.
    pub fn is_in_flight(&self, id: &str) -> (r: bool)
        requires
            self.wf(),
        ensures
            r == in_flight(self@, id@),
    {
        let key = id.to_owned();
        match self.position(&key) {
            None => false,
            Some(i) => {
                proof {
                    assert(self.slots@[self.entries[i as int].id@] == self.entries[i as int].slot);
                }
                matches!(self.entries[i].slot, Slot::InFlight)
            },
        }
    }

    /// Claims `id` for construction unless it is live or already claimed.
    /// The check and the claim are one step, so at most one caller builds an editor per id.
    pub fn claim(&mut self, id: &str) -> (r: Claim)
        requires
            old(self).wf(),
        ensures
            final(self).wf(),
            r == claim_outcome(old(self)@, id@),
            final(self)@ == claim_state(old(self)@, id@),
    {
        let key = id.to_owned();
        match self.position(&key) {
            Some(i) => {
                proof {
                    assert(self.slots@[self.entries[i as int].id@] == self.entries[i as int].slot);
                }
                match &self.entries[i].slot {
                    Slot::Ready(_) => Claim::Live,
                    Slot::InFlight => Claim::Building,
                }
            },
            None => {
                proof {
                    assert forall|j: int| 0 <= j < self.entries.len() implies self.entries[j].id@
                        != key@ by {
                        assert(self.slots@.contains_key(self.entries[j].id@));
                    }
                }
                let ghost old_entries = self.entries@;
                self.entries.push(Entry { id: key, slot: Slot::InFlight });
                self.slots = Ghost(self.slots@.insert(id@, Slot::InFlight));
                proof {
                    assert forall|k: Seq<char>| self.slots@.contains_key(k) implies exists|i: int|
                        0 <= i < self.entries.len() && #[trigger] self.entries[i].id@ == k by {
                        if k != id@ {
                            let i = choose|i: int|
                                0 <= i < old_entries.len() && #[trigger] old_entries[i].id@ == k;
                            assert(self.entries[i].id@ == k);
                        } else {
                            assert(self.entries[old_entries.len() as int].id@ == k);
                        }
                    }
                }
                Claim::Claimed
            },
        }
    }

    /// Turns the claim on `id` into a live handle.
    pub fn complete(&mut self, id: &str, handle: H)
        requires
            old(self).wf(),
            in_flight(old(self)@, id@),
        ensures
            final(self).wf(),
            final(self)@ == old(self)@.insert(id@, Slot::Ready(handle)),
    {
        let key = id.to_owned();
        let pos = self.position(&key);
        let i = pos.unwrap();
        let ghost old_entries = self.entries@;
        self.entries[i].slot = Slot::Ready(handle);
        self.slots = Ghost(self.slots@.insert(id@, Slot::Ready(handle)));
        proof {
            assert forall|k: Seq<char>| self.slots@.contains_key(k) implies exists|j: int|
                0 <= j < self.entries.len() && #[trigger] self.entries[j].id@ == k by {
                let j = choose|j: int| 0 <= j < old_entries.len() && #[trigger] old_entries[j].id@ == k;
                assert(self.entries[j].id@ == k);
            }
        }
    }

    /// Drops the claim on `id`, leaving it unregistered.
    pub fn abandon(&mut self, id: &str)
        requires
            old(self).wf(),
            in_flight(old(self)@, id@),
        ensures
            final(self).wf(),
            final(self)@ == old(self)@.remove(id@),
    {
        let key = id.to_owned();
        let i = self.position(&key).unwrap();
        self.drop_entry(i);
    }

    /// Releases the live handle for `id` and hands it back for teardown; an id with no
    /// live handle is left as it is.
    pub fn remove(&mut self, id: &str) -> (r: Option<H>)
        requires
            old(self).wf(),
        ensures
            final(self).wf(),
            r == live_handle(old(self)@, id@),
            r is Some ==> final(self)@ == old(self)@.remove(id@),
            r is None ==> final(self)@ == old(self)@,
    {
        let key = id.to_owned();
        match self.position(&key) {
            None => None,
            Some(i) => {
                proof {
                    assert(self.slots@[self.entries[i as int].id@] == self.entries[i as int].slot);
                }
                if matches!(self.entries[i].slot, Slot::InFlight) {
                    None
                } else {
                    let e = self.drop_entry(i);
                    match e.slot {
                        Slot::Ready(h) => Some(h),
                        Slot::InFlight => None,
                    }
                }
            },
        }
    }

    fn drop_entry(&mut self, i: usize) -> (r: Entry<H>)
        requires
            old(self).wf(),
            i < old(self).entries.len(),
        ensures
            final(self).wf(),
            r == old(self).entries[i as int],
            final(self)@ == old(self)@.remove(r.id@),
            old(self)@.contains_key(r.id@),
            old(self)@[r.id@] == r.slot,
    {
        let ghost old_entries = self.entries@;
        let ghost gone = self.entries[i as int].id@;
        proof {
            assert(self.slots@.contains_key(self.entries[i as int].id@));
        }
        let e = self.entries.remove(i);
        self.slots = Ghost(self.slots@.remove(gone));
        proof {
            assert forall|j: int| 0 <= j < self.entries.len() implies {
                &&& self.slots@.contains_key(#[trigger] self.entries[j].id@)
                &&& self.slots@[self.entries[j].id@] == self.entries[j].slot
            } by {
                if j < i {
                    assert(old_entries[j] == self.entries[j]);
                } else {
                    assert(old_entries[j + 1] == self.entries[j]);
                }
            }
            assert forall|k: Seq<char>| self.slots@.contains_key(k) implies exists|j: int|
                0 <= j < self.entries.len() && #[trigger] self.entries[j].id@ == k by {
                let j = choose|j: int| 0 <= j < old_entries.len() && #[trigger] old_entries[j].id@ == k;
                if j < i {
                    assert(self.entries[j].id@ == k);
                } else {
                    assert(j != i);
                    assert(self.entries[j - 1].id@ == k);
                }
            }
        }
        e
    }
}

} // verus!
