use crate::names::NameGenerator;
use vstd::prelude::*;

verus! {

/// How many candidate names `RoomStore::create` draws before it gives up.
pub const MAX_NAME_ATTEMPTS: u64 = 256;

/// One room: its version, its current data, and the notifier handle that
/// readers wait on until the next successful write.
pub struct Room<N> {
    pub version: u64,
    pub data: serde_json::Value,
    pub notifier: N,
}

/// The outcome of one look at a room by a reader that has seen `known`.
pub enum ReadPoll {
    /// The room holds a version newer than the one the reader knows.
    Ready { version: u64, data: serde_json::Value },
    /// Nothing newer yet: wait on the room's notifier, then poll again.
    Pending,
    NotFound,
}

/// Why a write was refused. A refused write changes nothing.
#[derive(Debug, Clone, Copy, PartialEq, Eq, Structural)]
pub enum WriteError {
    NotFound,
    VersionConflict,
    /// The room's version has reached the largest value it can hold.
    VersionExhausted,
}

/// Why no room was created. The store is left as it was.
#[derive(Debug, Clone, Copy, PartialEq, Eq, Structural)]
pub enum CreateError {
    /// Every candidate name tried was already taken.
    NameExhausted,
}

/// What a reader that has seen version `known` of room `id` gets.
pub open spec fn read_poll<N>(m: Map<Seq<char>, Room<N>>, id: Seq<char>, known: u64) -> ReadPoll {
    if !m.contains_key(id) {
        ReadPoll::NotFound
    } else if m[id].version > known {
        ReadPoll::Ready { version: m[id].version, data: m[id].data }
    } else {
        ReadPoll::Pending
    }
}

/// Why a write of room `id` that expects version `expected` is refused, if it is.
pub open spec fn write_refusal<N>(m: Map<Seq<char>, Room<N>>, id: Seq<char>, expected: u64) -> Option<
    WriteError,
> {
    if !m.contains_key(id) {
        Some(WriteError::NotFound)
    } else if m[id].version != expected {
        Some(WriteError::VersionConflict)
    } else if expected == u64::MAX {
        Some(WriteError::VersionExhausted)
    } else {
        None
    }
}

/// The rooms after a successful write of `data` to room `id`, with `notifier`
/// as the room's new notifier.
pub open spec fn written<N>(
    m: Map<Seq<char>, Room<N>>,
    id: Seq<char>,
    data: serde_json::Value,
    notifier: N,
) -> Map<Seq<char>, Room<N>> {
    m.insert(id, Room { version: (m[id].version + 1) as u64, data, notifier })
}

/// The rooms after a write to room `id` that expects version `expected`:
/// written if it is accepted, unchanged if it is refused.
pub open spec fn after_write<N>(
    m: Map<Seq<char>, Room<N>>,
    id: Seq<char>,
    expected: u64,
    data: serde_json::Value,
    notifier: N,
) -> Map<Seq<char>, Room<N>> {
    if write_refusal(m, id, expected) is None {
        written(m, id, data, notifier)
    } else {
        m
    }
}

/// The rooms after room `id` is created with `data`.
pub open spec fn created<N>(
    m: Map<Seq<char>, Room<N>>,
    id: Seq<char>,
    data: serde_json::Value,
    notifier: N,
) -> Map<Seq<char>, Room<N>> {
    m.insert(id, Room { version: 1, data, notifier })
}

/// Every room's version is at least 1.
pub open spec fn versions_start_at_one<N>(m: Map<Seq<char>, Room<N>>) -> bool {
    forall|k: Seq<char>| m.contains_key(k) ==> #[trigger] m[k].version >= 1
}

/// The rooms, keyed by name. Rooms are never removed.
#[verifier::reject_recursive_types(N)]
pub struct RoomStore<N> {
    entries: Vec<(String, Room<N>)>,
    model: Ghost<Map<Seq<char>, Room<N>>>,
}

impl<N> View for RoomStore<N> {
    type V = Map<Seq<char>, Room<N>>;

    closed spec fn view(&self) -> Map<Seq<char>, Room<N>> {
        self.model@
    }
}

impl<N> RoomStore<N> {
    /// Names are unique, the entries hold exactly the rooms of the view, and
    /// every version is at least 1.
    pub closed spec fn wf(&self) -> bool {
        &&& forall|i: int, j: int|
            0 <= i < j < self.entries@.len() ==> self.entries@[i].0@ != self.entries@[j].0@
        &&& forall|i: int|
            0 <= i < self.entries@.len() ==> self.model@.contains_key(#[trigger] self.entries@[i].0@)
                && self.model@[self.entries@[i].0@] == self.entries@[i].1
        &&& forall|k: Seq<char>|
            #[trigger] self.model@.contains_key(k) ==> exists|i: int|
                0 <= i < self.entries@.len() && self.entries@[i].0@ == k
        &&& versions_start_at_one(self.model@)
    }

    /// Every room's version is at least 1.
    pub proof fn lemma_versions_start_at_one(&self)
        requires
            self.wf(),
        ensures
            versions_start_at_one(self@),
    {
    }

    pub fn new() -> (r: Self)
        ensures
            r.wf(),
            r@ == Map::<Seq<char>, Room<N>>::empty(),
    {
        RoomStore { entries: Vec::new(), model: Ghost(Map::empty()) }
    }

    fn find(&self, id: &String) -> (r: Option<usize>)
        requires
            self.wf(),
        ensures
            match r {
                Some(i) => i < self.entries@.len() && self.entries@[i as int].0@ == id@
                    && self@.contains_key(id@),
                None => !self@.contains_key(id@),
            },
    {
        let mut i: usize = 0;
        while i < self.entries.len()
            invariant
                self.wf(),
                i <= self.entries@.len(),
                forall|j: int| 0 <= j < i ==> self.entries@[j].0@ != id@,
            decreases self.entries@.len() - i,
        {
            if self.entries[i].0 == *id {
                return Some(i);
            }
            i = i + 1;
        }
        proof {
            if self.model@.contains_key(id@) {
                let j = choose|j: int| 0 <= j < self.entries@.len() && self.entries@[j].0@ == id@;
                assert(self.entries@[j].0@ != id@);
            }
        }
        None
    }

    /// Whether a room named `id` exists.
    pub fn contains(&self, id: &String) -> (r: bool)
        requires
            self.wf(),
        ensures
            r == self@.contains_key(id@),
    {
        self.find(id).is_some()
    }

    /// Looks once at room `id` for a version newer than `known`.
    pub fn poll_read(&self, id: &String, known: u64) -> (r: ReadPoll)
        requires
            self.wf(),
        ensures
            r == read_poll(self@, id@, known),
    {
        match self.find(id) {
            None => ReadPoll::NotFound,
            Some(i) => {
                let room = &self.entries[i].1;
                if room.version > known {
                    ReadPoll::Ready { version: room.version, data: room.data.clone() }
                } else {
                    ReadPoll::Pending
                }
            },
        }
    }

    /// The notifier that readers of room `id` wait on for the next write.
    pub fn notifier(&self, id: &String) -> (r: Option<&N>)
        requires
            self.wf(),
        ensures
            match r {
                Some(n) => self@.contains_key(id@) && *n == self@[id@].notifier,
                None => !self@.contains_key(id@),
            },
    {
        match self.find(id) {
            None => None,
            Some(i) => Some(&self.entries[i].1.notifier),
        }
    }

    /// Replaces the data of room `id` and advances its version by one, if the
    /// room's version is `expected`. On success `fresh` becomes the room's
    /// notifier and the retired one is returned, to be fired by the caller.
    pub fn commit(&mut self, id: &String, expected: u64, data: serde_json::Value, fresh: N) -> (r:
        Result<N, WriteError>)
        requires
            old(self).wf(),
        ensures
            final(self).wf(),
            final(self)@ == after_write(old(self)@, id@, expected, data, fresh),
            match r {
                Ok(retired) => write_refusal(old(self)@, id@, expected) is None && retired
                    == old(self)@[id@].notifier && final(self)@ == written(
                    old(self)@,
                    id@,
                    data,
                    fresh,
                ),
                Err(e) => write_refusal(old(self)@, id@, expected) == Some(e) && final(self)@
                    == old(self)@,
            },
    {
        let i = match self.find(id) {
            None => {
                return Err(WriteError::NotFound);
            },
            Some(i) => i,
        };
        if self.entries[i].1.version != expected {
            return Err(WriteError::VersionConflict);
        }
        if expected == u64::MAX {
            return Err(WriteError::VersionExhausted);
        }
        let ghost before = self.entries@;
        self.model = Ghost(written(self.model@, id@, data, fresh));
        let (name, room) = self.entries.remove(i);
        let updated = Room { version: expected + 1, data, notifier: fresh };
        self.entries.insert(i, (name, updated));
        proof {
            assert(self.entries@ =~= before.update(i as int, (name, updated)));
            assert forall|k: Seq<char>| #[trigger] self.model@.contains_key(k) implies exists|j: int|
                0 <= j < self.entries@.len() && self.entries@[j].0@ == k by {
                if k != id@ {
                    let j = choose|j: int| 0 <= j < before.len() && before[j].0@ == k;
                    assert(self.entries@[j].0@ == k);
                } else {
                    assert(self.entries@[i as int].0@ == k);
                }
            }
        }
        Ok(room.notifier)
    }
    fn insert_new(&mut self, id: String, data: serde_json::Value, notifier: N)
        requires
            old(self).wf(),
            !old(self)@.contains_key(id@),
        ensures
            final(self).wf(),
            final(self)@ == created(old(self)@, id@, data, notifier),
    {
        let ghost before = self.entries@;
        self.model = Ghost(created(self.model@, id@, data, notifier));
        let room = Room { version: 1, data, notifier };
        self.entries.push((id, room));
        proof {
            assert forall|i: int| 0 <= i < before.len() implies before[i].0@ != id@ by {
                assert(old(self).model@.contains_key(before[i].0@));
            }
            assert forall|k: Seq<char>| #[trigger] self.model@.contains_key(k) implies exists|j: int|
                0 <= j < self.entries@.len() && self.entries@[j].0@ == k by {
                if k != id@ {
                    let j = choose|j: int| 0 <= j < before.len() && before[j].0@ == k;
                    assert(self.entries@[j].0@ == k);
                } else {
                    assert(self.entries@[before.len() as int].0@ == k);
                }
            }
        }
    }

    /// Creates a room with version 1 under the first of `candidates` that no
    /// room holds yet.
    pub fn create_from(&mut self, candidates: &Vec<String>, data: serde_json::Value, notifier: N) -> (r:
        Result<String, CreateError>)
        requires
            old(self).wf(),
        ensures
            final(self).wf(),
            match r {
                Ok(id) => exists|k: int|
                    0 <= k < candidates@.len() && candidates@[k]@ == id@ && forall|j: int|
                        0 <= j < k ==> old(self)@.contains_key(#[trigger] candidates@[j]@),
                Err(_) => forall|j: int|
                    0 <= j < candidates@.len() ==> old(self)@.contains_key(#[trigger] candidates@[j]@),
            },
            match r {
                Ok(id) => !old(self)@.contains_key(id@) && final(self)@ == created(
                    old(self)@,
                    id@,
                    data,
                    notifier,
                ),
                Err(_) => final(self)@ == old(self)@,
            },
    {
        let mut k: usize = 0;
        while k < candidates.len()
            invariant
                self.wf(),
                self@ == old(self)@,
                k <= candidates@.len(),
                forall|j: int| 0 <= j < k ==> old(self)@.contains_key(#[trigger] candidates@[j]@),
            decreases candidates@.len() - k,
        {
            let id = &candidates[k];
            if !self.contains(id) {
                let name = id.clone();
                self.insert_new(name, data, notifier);
                return Ok(id.clone());
            }
            k = k + 1;
        }
        Err(CreateError::NameExhausted)
    }

    /// Creates a room with version 1 under a name drawn from `names` that no
    /// room holds yet. Gives up after `MAX_NAME_ATTEMPTS` names that were all
    /// taken, and then changes nothing. Where the store holds none of the
    /// names that `names` can make, the first draw is free and succeeds.
    pub fn create(&mut self, names: &NameGenerator, data: serde_json::Value, notifier: N) -> (r:
        Result<String, CreateError>)
        requires
            old(self).wf(),
            names.wf(),
        ensures
            final(self).wf(),
            match r {
                Ok(id) => names.produces(id@) && !old(self)@.contains_key(id@) && final(self)@
                    == created(old(self)@, id@, data, notifier),
                Err(_) => final(self)@ == old(self)@,
            },
            names.leaves_free(old(self)@) ==> r is Ok,
    {
        let mut attempt: u64 = 0;
        while attempt < MAX_NAME_ATTEMPTS
            invariant
                self.wf(),
                self@ == old(self)@,
                names.wf(),
                names.leaves_free(old(self)@) ==> attempt == 0,
            decreases MAX_NAME_ATTEMPTS - attempt,
        {
            let id = names.draw();
            if !self.contains(&id) {
                let candidates = vec![id];
                return self.create_from(&candidates, data, notifier);
            }
            attempt = attempt + 1;
        }
        Err(CreateError::NameExhausted)
    }
}

} // verus!
