//! The room repository's in-memory side: the cache of rooms keyed by
//! identity, message append with its publish side-effect, and the lifecycle
//! events that tell subscribers the room list changed.
//!
//! The caller talks to the durable store around these calls: it persists a
//! row before committing it here, and deletes rows before dropping the
//! cached room.

use vstd::prelude::*;

use crate::broadcast::publish;
use crate::entity::{Message, Room};
use crate::ext::{fresh_id, now_rfc3339};
use crate::text::str_eq;

verus! {

/// Index of the first cached room carrying this identity, or -1.
pub open spec fn spec_room_idx(rs: Seq<Room>, id: Seq<char>) -> int
    decreases rs.len(),
{
    if rs.len() == 0 {
        -1
    } else if rs[0].id@ == id {
        0
    } else if spec_room_idx(rs.skip(1), id) == -1 {
        -1
    } else {
        1 + spec_room_idx(rs.skip(1), id)
    }
}

pub proof fn lemma_room_idx(rs: Seq<Room>, id: Seq<char>)
    ensures
        -1 <= spec_room_idx(rs, id) < rs.len(),
        spec_room_idx(rs, id) >= 0 ==> rs[spec_room_idx(rs, id)].id@ == id,
        forall|j: int|
            0 <= j < rs.len() && (spec_room_idx(rs, id) == -1 || j < spec_room_idx(rs, id))
                ==> (#[trigger] rs[j]).id@ != id,
    decreases rs.len(),
{
    if rs.len() > 0 && rs[0].id@ != id {
        lemma_room_idx(rs.skip(1), id);
        assert forall|j: int|
            0 <= j < rs.len() && (spec_room_idx(rs, id) == -1 || j < spec_room_idx(rs, id))
            implies (#[trigger] rs[j]).id@ != id by {
            if j > 0 {
                assert(rs.skip(1)[j - 1] == rs[j]);
            }
        }
    }
}

/// The first occurrence is pinned by "this id at i, at none before i".
pub proof fn lemma_room_idx_is(rs: Seq<Room>, id: Seq<char>, i: int)
    requires
        0 <= i <= rs.len(),
        i < rs.len() ==> rs[i].id@ == id,
        forall|j: int| 0 <= j < i ==> (#[trigger] rs[j]).id@ != id,
        i == rs.len() ==> forall|j: int| 0 <= j < rs.len() ==> (#[trigger] rs[j]).id@ != id,
    ensures
        i < rs.len() ==> spec_room_idx(rs, id) == i,
        i == rs.len() ==> spec_room_idx(rs, id) == -1,
{
    lemma_room_idx(rs, id);
    let f = spec_room_idx(rs, id);
    if i < rs.len() {
        if f == -1 || f > i {
            assert(rs[i].id@ != id);
        }
        if 0 <= f < i {
            assert(rs[f].id@ != id);
        }
    } else {
        if f >= 0 {
            assert(rs[f].id@ != id);
        }
    }
}

/// Position of the room with this identity, or the room count when absent.
fn find_room(rooms: &Vec<Room>, id: &str) -> (r: usize)
    ensures
        r <= rooms@.len(),
        r < rooms@.len() ==> spec_room_idx(rooms@, id@) == r,
        r == rooms@.len() ==> spec_room_idx(rooms@, id@) == -1,
{
    let n = rooms.len();
    let mut i: usize = 0;
    while i < n
        invariant
            0 <= i <= n,
            n == rooms@.len(),
            forall|j: int| 0 <= j < i ==> (#[trigger] rooms@[j]).id@ != id@,
        decreases n - i,
    {
        if str_eq(rooms[i].id.as_str(), id) {
            proof {
                lemma_room_idx_is(rooms@, id@, i as int);
            }
            return i;
        }
        i = i + 1;
    }
    proof {
        lemma_room_idx_is(rooms@, id@, n as int);
    }
    n
}

/// Bring one room into the cache under its identity: replace the entry that
/// carries it, or append a new room. Used to warm the cache from store rows,
/// message history included.
pub fn warm_room(rooms: &mut Vec<Room>, id: String, name: String, messages: Vec<Message>)
    ensures
        ({
            let i = spec_room_idx(old(rooms)@, id@);
            if i >= 0 {
                final(rooms)@.len() == old(rooms)@.len() && final(rooms)@[i].id@ == id@
                    && final(rooms)@[i].name@ == name@ && final(rooms)@[i].messages@ == messages@
                    && forall|j: int|
                    0 <= j < old(rooms)@.len() && j != i ==> final(rooms)@[j] == old(rooms)@[j]
            } else {
                final(rooms)@.len() == old(rooms)@.len() + 1 && final(rooms)@.last().id@ == id@
                    && final(rooms)@.last().name@ == name@ && final(rooms)@.last().messages@
                    == messages@ && final(rooms)@.drop_last() == old(rooms)@
            }
        }),
{
    proof {
        lemma_room_idx(old(rooms)@, id@);
    }
    let mut room = Room::new(id, name);
    room.messages = messages;
    let i = find_room(rooms, &room.id);
    let n = rooms.len();
    if i < n {
        let ghost pre = rooms@;
        rooms.remove(i);
        rooms.insert(i, room);
        proof {
            assert(rooms@ =~= pre.update(i as int, room));
        }
    } else {
        let ghost pre = rooms@;
        rooms.push(room);
        proof {
            assert(rooms@.drop_last() =~= pre);
        }
    }
}

/// A new room for this name under a fresh random identity, with an empty
/// history and its own just-created channel. The caller persists it first
/// and then commits it with `create`.
pub fn new_room(name: String) -> (r: Room)
    ensures
        r.name@ == name@,
        r.messages@.len() == 0,
        r.id@.len() == 36,
{
    Room::new(fresh_id(), name)
}

/// Commit a room to the cache and announce it on the lifecycle channel;
/// subscribers of the room list learn of the change, and their absence is
/// no error.
pub fn create(rooms: &mut Vec<Room>, lifecycle: &tokio::sync::broadcast::Sender<Room>, room: Room)
    ensures
        ({
            let i = spec_room_idx(old(rooms)@, room.id@);
            if i >= 0 {
                final(rooms)@ == old(rooms)@.update(i, room)
            } else {
                final(rooms)@ == old(rooms)@.push(room)
            }
        }),
{
    proof {
        lemma_room_idx(old(rooms)@, room.id@);
    }
    let announced = room.clone();
    let i = find_room(rooms, &room.id);
    let n = rooms.len();
    let ghost pre = rooms@;
    if i < n {
        rooms.remove(i);
        rooms.insert(i, room);
        proof {
            assert(rooms@ =~= pre.update(i as int, rooms@[i as int]));
        }
    } else {
        rooms.push(room);
    }
    let outcome = publish(lifecycle, announced);
    if outcome.is_err() {
        // Nobody watches the room list right now; the commit above stands.
    }
}

/// Drop the room with this identity from the cache, announcing its last
/// known state so subscribers can detect the removal. The caller has already
/// deleted the row and its messages from the store.
pub fn delete(rooms: &mut Vec<Room>, lifecycle: &tokio::sync::broadcast::Sender<Room>, id: &str)
    -> (r: Option<Room>)
    ensures
        ({
            let i = spec_room_idx(old(rooms)@, id@);
            if i >= 0 {
                final(rooms)@ == old(rooms)@.remove(i) && r == Some(old(rooms)@[i])
            } else {
                final(rooms)@ == old(rooms)@ && r is None
            }
        }),
{
    proof {
        lemma_room_idx(old(rooms)@, id@);
    }
    let i = find_room(rooms, id);
    let n = rooms.len();
    if i < n {
        let room = rooms.remove(i);
        let announced = room.clone();
        let outcome = publish(lifecycle, announced);
        if outcome.is_err() {
            // No subscriber saw the event; the removal stands regardless.
        }
        Some(room)
    } else {
        None
    }
}

/// The whole cached room list, cloned entry by entry. When the cache is
/// still cold the caller fills it from the store first and asks again.
pub fn get(rooms: &Vec<Room>) -> (r: Vec<Room>)
    ensures
        r@.len() == rooms@.len(),
        forall|i: int|
            0 <= i < r@.len() ==> (#[trigger] r@[i]).id == rooms@[i].id && r@[i].name
                == rooms@[i].name && r@[i].messages@ == rooms@[i].messages@,
{
    let n = rooms.len();
    let mut out: Vec<Room> = Vec::new();
    let mut i: usize = 0;
    while i < n
        invariant
            0 <= i <= n,
            n == rooms@.len(),
            out@.len() == i,
            forall|j: int|
                0 <= j < i ==> (#[trigger] out@[j]).id == rooms@[j].id && out@[j].name
                    == rooms@[j].name && out@[j].messages@ == rooms@[j].messages@,
        decreases n - i,
    {
        out.push(rooms[i].clone());
        i = i + 1;
    }
    out
}

/// Cache probe of the single-room read path; a miss sends the caller to the
/// store, after which `warm_room` commits what was found.
pub fn get_one_by_id(rooms: &Vec<Room>, id: &str) -> (r: Option<Room>)
    ensures
        ({
            let i = spec_room_idx(rooms@, id@);
            if i >= 0 {
                r matches Some(room) && room.id == rooms@[i].id && room.name == rooms@[i].name
                    && room.messages@ == rooms@[i].messages@
            } else {
                r is None
            }
        }),
{
    proof {
        lemma_room_idx(rooms@, id@);
    }
    let i = find_room(rooms, id);
    if i < rooms.len() {
        Some(rooms[i].clone())
    } else {
        None
    }
}

/// The error a message bound for an unknown room comes back with; it names
/// the offending identity.
pub open spec fn spec_room_not_found(id: Seq<char>) -> Seq<char> {
    "Room with id "@ + id + " not found"@
}

fn room_not_found(id: &str) -> (r: String)
    ensures
        r@ == spec_room_not_found(id@),
{
    let mut e = "Room with id ".to_owned();
    e.append(id);
    e.append(" not found");
    proof {
        assert(e@ =~= spec_room_not_found(id@));
    }
    e
}

/// Stamp a message for this room: a fresh random identity, the author's
/// name as it is now, and the clock's timestamp. An unknown room id is
/// refused, and nothing anywhere changes. The caller persists the message
/// and then commits it with `add_message_to_room`.
pub fn prepare_message(rooms: &Vec<Room>, id: &str, username: String, content: String) -> (r:
    Result<Message, String>)
    ensures
        r is Ok <==> spec_room_idx(rooms@, id@) >= 0,
        r matches Ok(m) ==> m.username@ == username@ && m.content@ == content@ && m.id@.len()
            == 36,
        r matches Err(e) ==> e@ == spec_room_not_found(id@),
{
    proof {
        lemma_room_idx(rooms@, id@);
    }
    let i = find_room(rooms, id);
    if i < rooms.len() {
        Ok(Message { id: fresh_id(), username, content, date: now_rfc3339() })
    } else {
        Err(room_not_found(id))
    }
}

/// Append a stamped message to its room's history and fan it out on the
/// room's channel; with no live subscriber the fan-out is skipped and the
/// append still stands. An unknown room id is refused with an error naming
/// it, and no room's history moves.
pub fn add_message_to_room(rooms: &mut Vec<Room>, id: &str, message: Message) -> (r: Result<
    Message,
    String,
>)
    ensures
        ({
            let i = spec_room_idx(old(rooms)@, id@);
            if i >= 0 {
                (r matches Ok(m) && m == message) && final(rooms)@.len() == old(rooms)@.len()
                    && final(rooms)@[i].id == old(rooms)@[i].id
                    && final(rooms)@[i].name == old(rooms)@[i].name
                    && final(rooms)@[i].messages@ == old(rooms)@[i].messages@.push(message)
                    && forall|j: int|
                    0 <= j < old(rooms)@.len() && j != i ==> final(rooms)@[j] == old(rooms)@[j]
            } else {
                final(rooms)@ == old(rooms)@ && (r matches Err(e) && e@ == spec_room_not_found(
                    id@,
                ))
            }
        }),
{
    proof {
        lemma_room_idx(old(rooms)@, id@);
    }
    let i = find_room(rooms, id);
    let n = rooms.len();
    if i < n {
        let ghost pre = rooms@;
        let mut room = rooms.remove(i);
        room.messages.push(message.clone());
        let outcome = publish(&room.sender, message.clone());
        if outcome.is_err() {
            // The room has no live subscriber; the durable append stands.
        }
        rooms.insert(i, room);
        proof {
            assert(rooms@ =~= pre.update(i as int, rooms@[i as int]));
        }
        Ok(message)
    } else {
        Err(room_not_found(id))
    }
}

} // verus!
