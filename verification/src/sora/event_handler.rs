//! What the handler of Sora's connection events decides: which events show that the
//! connection was established, and the registry of received video tracks on display.

use vstd::prelude::*;

use crate::text::str_eq;

verus! {

/// The events of a Sora connection.
#[derive(Debug, Clone, Copy, PartialEq, Eq, Structural)]
pub enum SoraEvent {
    SignalingMessage,
    Notify,
    Push,
    Track,
    RemoveTrack,
    Switched,
    WebsocketClose,
    Message,
    DataChannel,
    DataChannelOpen,
    DataChannelMessage,
    DataChannelClose,
}

/// Whether an event shows that the connection was established: notifications, pushes,
/// received tracks, the switch to DataChannel signaling and the WebSocket closing all
/// happen only after it.
pub open spec fn spec_marks_connected(event: SoraEvent) -> bool {
    match event {
        SoraEvent::Notify | SoraEvent::Push | SoraEvent::Track | SoraEvent::Switched | SoraEvent::WebsocketClose => true,
        _ => false,
    }
}

/// Whether an event shows that the connection was established (and the reconnection
/// count restarts).
pub fn marks_connected(event: SoraEvent) -> (r: bool)
    ensures
        r == spec_marks_connected(event),
{
    match event {
        SoraEvent::Notify | SoraEvent::Push | SoraEvent::Track | SoraEvent::Switched | SoraEvent::WebsocketClose => true,
        _ => false,
    }
}

/// A received video track on display, by its id, with what keeps it attached (`T`: the
/// track and the sink attached to it).
pub struct RegisteredTrack<T> {
    pub id: String,
    pub item: T,
}

/// The index of the first entry for track `id`.
pub open spec fn registry_position<T>(entries: Seq<RegisteredTrack<T>>, id: Seq<char>) -> Option<int>
    decreases entries.len(),
{
    if entries.len() == 0 {
        None
    } else {
        match registry_position(entries.drop_last(), id) {
            Some(i) => Some(i),
            None => if entries.last().id@ == id { Some(entries.len() - 1) } else { None },
        }
    }
}

proof fn lemma_registry_position_prefix<T>(entries: Seq<RegisteredTrack<T>>, id: Seq<char>, k: nat)
    requires
        k <= entries.len(),
        registry_position(entries.take(k as int), id) is Some,
    ensures
        registry_position(entries, id) == registry_position(entries.take(k as int), id),
    decreases entries.len() - k,
{
    if k < entries.len() {
        assert(entries.take((k + 1) as int).drop_last() =~= entries.take(k as int));
        lemma_registry_position_prefix(entries, id, k + 1);
    } else {
        assert(entries.take(k as int) =~= entries);
    }
}

fn find_track<T>(entries: &Vec<RegisteredTrack<T>>, id: &str) -> (r: Option<usize>)
    ensures
        match registry_position(entries@, id@) {
            Some(i) => 0 <= i < entries@.len() && r == Some(i as usize),
            None => r is None,
        },
{
    let mut i: usize = 0;
    while i < entries.len()
        invariant
            i <= entries@.len(),
            registry_position(entries@.take(i as int), id@) is None,
        decreases entries@.len() - i,
    {
        proof {
            assert(entries@.take((i + 1) as int).drop_last() =~= entries@.take(i as int));
        }
        if str_eq(entries[i].id.as_str(), id) {
            proof {
                lemma_registry_position_prefix(entries@, id@, (i + 1) as nat);
            }
            return Some(i);
        }
        i = i + 1;
    }
    assert(entries@.take(i as int) =~= entries@);
    None
}

/// Registers a received video track. A track added again (after a renegotiation) replaces
/// its entry; what kept the old one attached is handed back, to be detached.
pub fn register_track<T>(entries: &mut Vec<RegisteredTrack<T>>, id: String, item: T) -> (replaced: Option<T>)
    ensures
        match registry_position(old(entries)@, id@) {
            Some(i) => replaced == Some(old(entries)@[i].item)
                && final(entries)@ == old(entries)@.remove(i).push(RegisteredTrack { id, item }),
            None => replaced is None && final(entries)@ == old(entries)@.push(RegisteredTrack { id, item }),
        },
{
    let replaced = match find_track(entries, id.as_str()) {
        Some(index) => {
            let old_entry = entries.remove(index);
            Some(old_entry.item)
        },
        None => None,
    };
    entries.push(RegisteredTrack { id, item });
    replaced
}

/// Unregisters a removed video track; what kept it attached is handed back, to be
/// detached.
pub fn unregister_track<T>(entries: &mut Vec<RegisteredTrack<T>>, id: &str) -> (removed: Option<T>)
    ensures
        match registry_position(old(entries)@, id@) {
            Some(i) => removed == Some(old(entries)@[i].item) && final(entries)@ == old(entries)@.remove(i),
            None => removed is None && final(entries)@ == old(entries)@,
        },
{
    match find_track(entries, id) {
        Some(index) => {
            let old_entry = entries.remove(index);
            Some(old_entry.item)
        },
        None => None,
    }
}

/// Unregistering a track right after registering it hands back what was registered and
/// leaves the registry as it was before, when the track was not registered yet.
pub proof fn lemma_register_then_unregister<T>(entries: Seq<RegisteredTrack<T>>, entry: RegisteredTrack<T>)
    requires
        registry_position(entries, entry.id@) is None,
    ensures
        registry_position(entries.push(entry), entry.id@) == Some(entries.len() as int),
        entries.push(entry).remove(entries.len() as int) == entries,
        entries.push(entry)[entries.len() as int].item == entry.item,
{
    assert(entries.push(entry).drop_last() =~= entries);
    assert(entries.push(entry).remove(entries.len() as int) =~= entries);
}

} // verus!
