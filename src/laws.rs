//! Facts about sequences of store operations, stated over the same spec
//! functions that the operations' contracts use.
use crate::store::{
    after_write, created, read_poll, write_refusal, written, ReadPoll, Room, WriteError,
};
use vstd::prelude::*;

verus! {

/// The rooms after `writes` (each an expected version and the data to
/// write) are tried on room `id` one after another, as `RoomStore::commit`
/// would apply them.
pub open spec fn replay<N>(
    m: Map<Seq<char>, Room<N>>,
    id: Seq<char>,
    writes: Seq<(u64, serde_json::Value)>,
    notifier: N,
) -> Map<Seq<char>, Room<N>>
    decreases writes.len(),
{
    if writes.len() == 0 {
        m
    } else {
        let before = replay(m, id, writes.drop_last(), notifier);
        after_write(before, id, writes.last().0, writes.last().1, notifier)
    }
}

/// How many of `writes` are accepted when they are tried in order on room `id`.
pub open spec fn accepted<N>(
    m: Map<Seq<char>, Room<N>>,
    id: Seq<char>,
    writes: Seq<(u64, serde_json::Value)>,
    notifier: N,
) -> nat
    decreases writes.len(),
{
    if writes.len() == 0 {
        0
    } else {
        let before = replay(m, id, writes.drop_last(), notifier);
        let step: nat = if write_refusal(before, id, writes.last().0) is None {
            1
        } else {
            0
        };
        accepted(m, id, writes.drop_last(), notifier) + step
    }
}

proof fn lemma_replay_version<N>(
    m: Map<Seq<char>, Room<N>>,
    id: Seq<char>,
    writes: Seq<(u64, serde_json::Value)>,
    notifier: N,
)
    requires
        m.contains_key(id),
    ensures
        replay(m, id, writes, notifier).contains_key(id),
        replay(m, id, writes, notifier)[id].version == m[id].version + accepted(
            m,
            id,
            writes,
            notifier,
        ),
    decreases writes.len(),
{
    if writes.len() > 0 {
        lemma_replay_version(m, id, writes.drop_last(), notifier);
    }
}

/// A room's versions count its accepted writes. Created at version 1, after
/// any run of writes, accepted and refused in any order, it holds version
/// 1 + (the writes accepted so far); each accepted write raises the version
/// by exactly one and each refused one leaves it as it was, so the versions
/// that accepted writes produce are 2, 3, 4, ... with no gap or repeat.
pub proof fn lemma_versions_are_consecutive<N>(
    m: Map<Seq<char>, Room<N>>,
    id: Seq<char>,
    data: serde_json::Value,
    notifier: N,
    writes: Seq<(u64, serde_json::Value)>,
)
    requires
        !m.contains_key(id),
    ensures
        forall|k: int|
            #![trigger writes.take(k)]
            0 <= k <= writes.len() ==> replay(
                created(m, id, data, notifier),
                id,
                writes.take(k),
                notifier,
            ).contains_key(id) && replay(
                created(m, id, data, notifier),
                id,
                writes.take(k),
                notifier,
            )[id].version == 1 + accepted(created(m, id, data, notifier), id, writes.take(k), notifier),
        forall|k: int|
            #![trigger writes.take(k)]
            0 <= k < writes.len() ==> replay(
                created(m, id, data, notifier),
                id,
                writes.take(k + 1),
                notifier,
            )[id].version == replay(created(m, id, data, notifier), id, writes.take(k), notifier)[id].version
                + (if write_refusal(
                replay(created(m, id, data, notifier), id, writes.take(k), notifier),
                id,
                writes[k].0,
            ) is None {
                1int
            } else {
                0int
            }),
{
    let start = created(m, id, data, notifier);
    assert forall|k: int| #![trigger writes.take(k)] 0 <= k <= writes.len() implies replay(
        start,
        id,
        writes.take(k),
        notifier,
    ).contains_key(id) && replay(start, id, writes.take(k), notifier)[id].version == 1 + accepted(
        start,
        id,
        writes.take(k),
        notifier,
    ) by {
        lemma_replay_version(start, id, writes.take(k), notifier);
    }
    assert forall|k: int| #![trigger writes.take(k)] 0 <= k < writes.len() implies replay(
        start,
        id,
        writes.take(k + 1),
        notifier,
    )[id].version == replay(start, id, writes.take(k), notifier)[id].version + (if write_refusal(
        replay(start, id, writes.take(k), notifier),
        id,
        writes[k].0,
    ) is None {
        1int
    } else {
        0int
    }) by {
        assert(writes.take(k + 1).drop_last() =~= writes.take(k));
        assert(writes.take(k + 1).last() == writes[k]);
        lemma_replay_version(start, id, writes.take(k), notifier);
    }
}

/// A refused write changes nothing, and a write whose expected version differs
/// from the room's is refused as a conflict.
pub proof fn lemma_stale_write_is_refused<N>(
    m: Map<Seq<char>, Room<N>>,
    id: Seq<char>,
    expected: u64,
)
    requires
        m.contains_key(id),
        m[id].version != expected,
    ensures
        write_refusal(m, id, expected) == Some(WriteError::VersionConflict),
{
}

/// Of two writes to one room that both expect its current version, the one
/// applied first is accepted and the other is refused as a conflict: the room
/// ends one version higher, holding the data of the accepted write.
pub proof fn lemma_one_of_two_writes_wins<N>(
    m: Map<Seq<char>, Room<N>>,
    id: Seq<char>,
    expected: u64,
    first: serde_json::Value,
    first_notifier: N,
    second: serde_json::Value,
    second_notifier: N,
)
    requires
        m.contains_key(id),
        m[id].version == expected,
        expected < u64::MAX,
    ensures
        write_refusal(m, id, expected) is None,
        write_refusal(after_write(m, id, expected, first, first_notifier), id, expected) == Some(
            WriteError::VersionConflict,
        ),
        after_write(
            after_write(m, id, expected, first, first_notifier),
            id,
            expected,
            second,
            second_notifier,
        )[id].version == expected + 1,
        after_write(
            after_write(m, id, expected, first, first_notifier),
            id,
            expected,
            second,
            second_notifier,
        )[id].data == first,
{
}

/// A reader that already knows the room's current version waits, and after
/// the next write it gets exactly the version and data of that write.
pub proof fn lemma_waiting_reader_sees_next_write<N>(
    m: Map<Seq<char>, Room<N>>,
    id: Seq<char>,
    data: serde_json::Value,
    notifier: N,
)
    requires
        m.contains_key(id),
        m[id].version < u64::MAX,
    ensures
        read_poll(m, id, m[id].version) == ReadPoll::Pending,
        write_refusal(m, id, m[id].version) is None,
        read_poll(written(m, id, data, notifier), id, m[id].version) == (ReadPoll::Ready {
            version: (m[id].version + 1) as u64,
            data,
        }),
{
}

/// A name taken by a creation is in the store from then on, so no later
/// creation (which only takes names that are free) can return it again; the
/// rooms that were there stay as they were.
pub proof fn lemma_created_name_is_taken<N>(
    m: Map<Seq<char>, Room<N>>,
    id: Seq<char>,
    data: serde_json::Value,
    notifier: N,
    later: Seq<char>,
)
    requires
        !m.contains_key(id),
        !created(m, id, data, notifier).contains_key(later),
    ensures
        later != id,
        forall|k: Seq<char>|
            #[trigger] m.contains_key(k) ==> created(m, id, data, notifier).contains_key(k)
                && created(m, id, data, notifier)[k] == m[k],
{
}

} // verus!
