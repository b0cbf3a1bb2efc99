//! A chat server in one process: users, rooms and messages held as owned
//! state, message delivery by room membership, and running totals. The
//! server for several threads is the state that they share behind a lock,
//! and the step that a worker takes for each command of its queue.

use vstd::prelude::*;
use std::collections::HashMap;
use std::time::{Duration, SystemTime, UNIX_EPOCH};

verus! {

pub type UserId = u64;

pub type RoomId = u64;

/// The test "is `x`".
pub open spec fn is_id(x: u64) -> spec_fn(u64) -> bool {
    |y: u64| y == x
}

/// The test "is not `x`".
pub open spec fn is_other_id(x: u64) -> spec_fn(u64) -> bool {
    |y: u64| y != x
}

/// How often `x` occurs in `s`.
pub open spec fn occurrences(s: Seq<u64>, x: u64) -> nat {
    s.filter(is_id(x)).len()
}

/// `s` without any occurrence of `x`, the rest in order.
pub open spec fn without(s: Seq<u64>, x: u64) -> Seq<u64> {
    s.filter(is_other_id(x))
}

/// `n` copies of one message.
pub open spec fn copies(m: Message, n: nat) -> Seq<Message> {
    Seq::new(n, |i: int| m)
}

/// Counting occurrences goes item by item.
pub proof fn lemma_occurrences_push(s: Seq<u64>, y: u64, x: u64)
    ensures
        occurrences(s.push(y), x) == occurrences(s, x) + (if y == x {
            1nat
        } else {
            0nat
        }),
{
    Seq::<u64>::lemma_filter_push(s, y, is_id(x));
}

/// Nothing occurs in the empty sequence.
pub proof fn lemma_occurrences_empty(x: u64)
    ensures
        occurrences(Seq::<u64>::empty(), x) == 0,
{
    Seq::<u64>::lemma_filter_len(Seq::<u64>::empty(), is_id(x));
}

/// A message with its sender and the time it was written, in seconds since
/// the Unix epoch.
#[derive(Debug)]
pub struct Message {
    pub sender_id: UserId,
    pub sender_name: String,
    pub content: String,
    pub timestamp: u64,
}

impl Clone for Message {
    fn clone(&self) -> (r: Self)
        ensures
            r == *self,
    {
        Message {
            sender_id: self.sender_id,
            sender_name: self.sender_name.clone(),
            content: self.content.clone(),
            timestamp: self.timestamp,
        }
    }
}

/// Makes `std::time::SystemTime` known as a type whose inside is not read.
#[verifier::external_type_specification]
#[verifier::external_body]
pub struct ExSystemTime(SystemTime);

/// Calls `SystemTime::now`, the reading of the clock. Nothing is promised
/// of it.
#[verifier::external_body]
fn clock_now() -> (r: SystemTime) {
    SystemTime::now()
}

/// Calls `SystemTime::duration_since` with the Unix epoch: the time from
/// the epoch to `t`, or `None` where `t` is earlier. Nothing is promised of
/// it.
#[verifier::external_body]
fn since_epoch(t: &SystemTime) -> (r: Option<Duration>) {
    match t.duration_since(UNIX_EPOCH) {
        Ok(elapsed) => Some(elapsed),
        Err(_) => None,
    }
}

/// Calls `Duration::as_secs`, the whole seconds of a span of time. Nothing
/// is promised of the number.
#[verifier::external_body]
fn whole_seconds(span: &Duration) -> (r: u64) {
    span.as_secs()
}

/// The time now in whole seconds since the Unix epoch, and 0 where the
/// clock reads a time before the epoch.
fn current_timestamp() -> (r: u64) {
    let now = clock_now();
    match since_epoch(&now) {
        Some(span) => whole_seconds(&span),
        None => 0,
    }
}

impl Message {
    /// A message written at `timestamp`.
    pub fn at(sender_id: UserId, sender_name: &str, content: &str, timestamp: u64) -> (r: Self)
        ensures
            r.sender_id == sender_id,
            r.sender_name@ == sender_name@,
            r.content@ == content@,
            r.timestamp == timestamp,
    {
        Message {
            sender_id,
            sender_name: sender_name.to_owned(),
            content: content.to_owned(),
            timestamp,
        }
    }

    /// A message written now. The timestamp is what the clock gives, and 0
    /// where the clock reads a time before the epoch.
    pub fn new(sender_id: UserId, sender_name: &str, content: &str) -> (r: Self)
        ensures
            r.sender_id == sender_id,
            r.sender_name@ == sender_name@,
            r.content@ == content@,
    {
        let timestamp = current_timestamp();
        Message::at(sender_id, sender_name, content, timestamp)
    }
}

/// A copy of every message of `items`, in order.
pub fn clone_messages(items: &Vec<Message>) -> (r: Vec<Message>)
    ensures
        r@ == items@,
{
    let mut out: Vec<Message> = Vec::new();
    let mut i: usize = 0;
    while i < items.len()
        invariant
            i <= items.len(),
            out@ == items@.subrange(0, i as int),
        decreases items.len() - i,
    {
        out.push(items[i].clone());
        assert(out@ =~= items@.subrange(0, i + 1));
        i += 1;
    }
    assert(out@ =~= items@);
    out
}

/// Takes every occurrence of `x` out of `ids` and keeps the rest in order.
pub fn remove_id(ids: &mut Vec<u64>, x: u64)
    ensures
        final(ids)@ == without(old(ids)@, x),
{
    let ghost all = ids@;
    let ghost pred = is_other_id(x);
    let mut kept: Vec<u64> = Vec::new();
    let mut i: usize = 0;
    assert(kept@ =~= all.subrange(0, 0).filter(pred)) by {
        Seq::<u64>::lemma_filter_len(all.subrange(0, 0), pred);
    }
    while i < ids.len()
        invariant
            i <= ids.len(),
            ids@ == all,
            pred == is_other_id(x),
            kept@ == all.subrange(0, i as int).filter(pred),
        decreases ids.len() - i,
    {
        let y = ids[i];
        proof {
            assert(all.subrange(0, i + 1) =~= all.subrange(0, i as int).push(y));
            Seq::<u64>::lemma_filter_push(all.subrange(0, i as int), y, pred);
        }
        if y != x {
            kept.push(y);
        }
        i += 1;
    }
    assert(all.subrange(0, all.len() as int) =~= all);
    *ids = kept;
}

/// Whether `x` is among `ids`.
pub fn contains_id(ids: &Vec<u64>, x: u64) -> (r: bool)
    ensures
        r == ids@.contains(x),
{
    let mut i: usize = 0;
    while i < ids.len()
        invariant
            i <= ids.len(),
            forall|j: int| 0 <= j < i ==> ids@[j] != x,
        decreases ids.len() - i,
    {
        if ids[i] == x {
            return true;
        }
        i += 1;
    }
    false
}

/// Someone to whom messages are delivered.
pub trait Recipient {
    /// The messages received, oldest first.
    spec fn received_messages(&self) -> Seq<Message>;

    /// What a delivery leaves as it is: the number, the name and, where
    /// there are any, the rooms noted.
    spec fn rest(&self) -> (UserId, String, Option<Vec<RoomId>>);

    /// Puts `message` at the end of the messages received.
    fn deliver(&mut self, message: Message)
        ensures
            final(self).received_messages() == old(self).received_messages().push(message),
            final(self).rest() == old(self).rest(),
    ;
}

/// What `n` deliveries of `m` make of a recipient: the messages received
/// grow by `n` copies and nothing else changes.
pub open spec fn received<U: Recipient>(before: U, after: U, m: Message, n: nat) -> bool {
    &&& after.rest() == before.rest()
    &&& after.received_messages() == before.received_messages() + copies(m, n)
}

/// Delivers `message` to every member found in `users`, once for each time
/// the member is listed.
pub fn deliver_to_members<U: Recipient>(
    users: &mut HashMap<UserId, U>,
    members: &Vec<UserId>,
    message: &Message,
)
    ensures
        final(users)@.dom() == old(users)@.dom(),
        forall|uid: UserId| #[trigger]
            old(users)@.contains_key(uid) ==> received(
                old(users)@[uid],
                final(users)@[uid],
                *message,
                occurrences(members@, uid),
            ),
{
    let mut k: usize = 0;
    proof {
        assert forall|uid: UserId| #[trigger] old(users)@.contains_key(uid) implies received(
            old(users)@[uid],
            users@[uid],
            *message,
            occurrences(members@.subrange(0, 0), uid),
        ) by {
            assert(members@.subrange(0, 0) =~= Seq::<u64>::empty());
            lemma_occurrences_empty(uid);
            assert(users@[uid].received_messages() =~= users@[uid].received_messages() + copies(
                *message,
                0,
            ));
        }
    }
    while k < members.len()
        invariant
            k <= members.len(),
            users@.dom() == old(users)@.dom(),
            forall|uid: UserId| #[trigger]
                old(users)@.contains_key(uid) ==> received(
                    old(users)@[uid],
                    users@[uid],
                    *message,
                    occurrences(members@.subrange(0, k as int), uid),
                ),
        decreases members.len() - k,
    {
        let mid = members[k];
        let ghost before = users@;
        let ghost head = members@.subrange(0, k as int);
        proof {
            assert(members@.subrange(0, k + 1) =~= head.push(mid));
        }
        match users.remove(&mid) {
            Some(mut user) => {
                user.deliver(message.clone());
                users.insert(mid, user);
                proof {
                    assert(users@.dom() =~= before.dom());
                    assert forall|uid: UserId| #[trigger]
                        old(users)@.contains_key(uid) implies received(
                        old(users)@[uid],
                        users@[uid],
                        *message,
                        occurrences(members@.subrange(0, k + 1), uid),
                    ) by {
                        lemma_occurrences_push(head, mid, uid);
                        if uid == mid {
                            let n = occurrences(head, uid);
                            assert(copies(*message, n).push(*message) =~= copies(
                                *message,
                                n + 1,
                            ));
                            assert(users@[uid].received_messages() =~= old(users)@[uid].received_messages() + copies(*message, n + 1));
                        }
                    }
                }
            },
            None => {
                proof {
                    assert(users@ =~= before);
                    assert forall|uid: UserId| #[trigger]
                        old(users)@.contains_key(uid) implies received(
                        old(users)@[uid],
                        users@[uid],
                        *message,
                        occurrences(members@.subrange(0, k + 1), uid),
                    ) by {
                        lemma_occurrences_push(head, mid, uid);
                    }
                }
            },
        }
        k += 1;
    }
    assert(members@.subrange(0, members@.len() as int) =~= members@);
}

/// A user: the rooms joined, in the order of joining, and the messages
/// received, oldest first.
#[derive(Debug)]
pub struct User {
    pub id: UserId,
    pub name: String,
    pub joined_rooms: Vec<RoomId>,
    pub inbox: Vec<Message>,
}

impl User {
    pub fn new(id: UserId, name: &str) -> (r: Self)
        ensures
            r.id == id,
            r.name@ == name@,
            r.joined_rooms@.len() == 0,
            r.inbox@.len() == 0,
    {
        User { id, name: name.to_owned(), joined_rooms: Vec::new(), inbox: Vec::new() }
    }

    /// Notes that this user is in `room`.
    pub fn join_room(&mut self, room: &Room)
        ensures
            final(self).joined_rooms@ == old(self).joined_rooms@.push(room.id),
            final(self).id == old(self).id,
            final(self).name == old(self).name,
            final(self).inbox == old(self).inbox,
    {
        self.joined_rooms.push(room.id);
    }

    /// Forgets every note of the room `room_id`.
    pub fn leave_room(&mut self, room_id: RoomId)
        ensures
            final(self).joined_rooms@ == without(old(self).joined_rooms@, room_id),
            final(self).id == old(self).id,
            final(self).name == old(self).name,
            final(self).inbox == old(self).inbox,
    {
        remove_id(&mut self.joined_rooms, room_id);
    }

    /// The number of rooms noted.
    pub fn room_count(&self) -> (r: usize)
        ensures
            r == self.joined_rooms@.len(),
    {
        self.joined_rooms.len()
    }

    /// Puts `message` at the end of the inbox.
    pub fn receive_message(&mut self, message: Message)
        ensures
            final(self).inbox@ == old(self).inbox@.push(message),
            final(self).id == old(self).id,
            final(self).name == old(self).name,
            final(self).joined_rooms == old(self).joined_rooms,
    {
        self.inbox.push(message);
    }

    /// A copy of the inbox.
    pub fn get_messages(&self) -> (r: Vec<Message>)
        ensures
            r@ == self.inbox@,
    {
        clone_messages(&self.inbox)
    }
}

impl Recipient for User {
    open spec fn received_messages(&self) -> Seq<Message> {
        self.inbox@
    }

    open spec fn rest(&self) -> (UserId, String, Option<Vec<RoomId>>) {
        (self.id, self.name, Some(self.joined_rooms))
    }

    fn deliver(&mut self, message: Message) {
        self.receive_message(message);
    }
}

/// What `n` deliveries of `m` make of a user: the inbox grows by `n`
/// copies and nothing else changes.
pub open spec fn delivered(before: User, after: User, m: Message, n: nat) -> bool {
    &&& after.id == before.id
    &&& after.name == before.name
    &&& after.joined_rooms == before.joined_rooms
    &&& after.inbox@ == before.inbox@ + copies(m, n)
}

/// A room: its members, in the order of joining, and every message
/// broadcast in it, oldest first.
#[derive(Debug)]
pub struct Room {
    pub id: RoomId,
    pub name: String,
    pub members: Vec<UserId>,
    pub history: Vec<Message>,
}

impl Room {
    pub fn new(id: RoomId, name: &str) -> (r: Self)
        ensures
            r.id == id,
            r.name@ == name@,
            r.members@.len() == 0,
            r.history@.len() == 0,
    {
        Room { id, name: name.to_owned(), members: Vec::new(), history: Vec::new() }
    }

    /// Adds `user` to the members. A user added twice is a member twice.
    pub fn add_member(&mut self, user: &User)
        ensures
            final(self).members@ == old(self).members@.push(user.id),
            final(self).id == old(self).id,
            final(self).name == old(self).name,
            final(self).history == old(self).history,
    {
        self.members.push(user.id);
    }

    /// Takes the user `user_id` out of the members, however often it is
    /// there.
    pub fn remove_member(&mut self, user_id: UserId)
        ensures
            final(self).members@ == without(old(self).members@, user_id),
            final(self).id == old(self).id,
            final(self).name == old(self).name,
            final(self).history == old(self).history,
    {
        remove_id(&mut self.members, user_id);
    }

    /// The number of memberships.
    pub fn member_count(&self) -> (r: usize)
        ensures
            r == self.members@.len(),
    {
        self.members.len()
    }

    /// Delivers `message` to the inbox of every member found in `users`,
    /// once for each membership, and records it in the history.
    pub fn broadcast(&mut self, message: Message, users: &mut HashMap<UserId, User>)
        ensures
            final(self).history@ == old(self).history@.push(message),
            final(self).id == old(self).id,
            final(self).name == old(self).name,
            final(self).members == old(self).members,
            final(users)@.dom() == old(users)@.dom(),
            forall|uid: UserId| #[trigger]
                old(users)@.contains_key(uid) ==> delivered(
                    old(users)@[uid],
                    final(users)@[uid],
                    message,
                    occurrences(old(self).members@, uid),
                ),
    {
        deliver_to_members(users, &self.members, &message);
        self.history.push(message);
    }

    /// A copy of the history.
    pub fn get_history(&self) -> (r: Vec<Message>)
        ensures
            r@ == self.history@,
    {
        clone_messages(&self.history)
    }
}

/// The text of the error for a user that is not there.
pub open spec fn user_not_found() -> Seq<char> {
    "User not found"@
}

/// The text of the error for a room that is not there.
pub open spec fn room_not_found() -> Seq<char> {
    "Room not found"@
}

/// `after` is `before` with one more room noted at the end.
pub open spec fn user_joined(before: User, after: User, room_id: RoomId) -> bool {
    &&& after.id == before.id
    &&& after.name == before.name
    &&& after.inbox == before.inbox
    &&& after.joined_rooms@ == before.joined_rooms@.push(room_id)
}

/// `after` is `before` without any note of the room.
pub open spec fn user_left(before: User, after: User, room_id: RoomId) -> bool {
    &&& after.id == before.id
    &&& after.name == before.name
    &&& after.inbox == before.inbox
    &&& after.joined_rooms@ == without(before.joined_rooms@, room_id)
}

/// `after` is `before` with other members.
pub open spec fn room_with_members(before: Room, after: Room, members: Seq<UserId>) -> bool {
    &&& after.id == before.id
    &&& after.name == before.name
    &&& after.history == before.history
    &&& after.members@ == members
}

/// `after` is `before` with one more message at the end of the history.
pub open spec fn room_heard(before: Room, after: Room, m: Message) -> bool {
    &&& after.id == before.id
    &&& after.name == before.name
    &&& after.members == before.members
    &&& after.history@ == before.history@.push(m)
}

/// A chat server for one thread. It owns its users and rooms and numbers
/// each kind from 1 in the order of creation.
pub struct SingleThreadChatServer {
    users: HashMap<UserId, User>,
    rooms: HashMap<RoomId, Room>,
    next_user_id: UserId,
    next_room_id: RoomId,
}

impl SingleThreadChatServer {
    /// Every user and room is filed under its own number, and the numbers
    /// given out so far lie below the next ones.
    pub closed spec fn wf(&self) -> bool {
        &&& forall|id: UserId| #[trigger]
            self.users@.contains_key(id) ==> id < self.next_user_id && self.users@[id].id == id
        &&& forall|id: RoomId| #[trigger]
            self.rooms@.contains_key(id) ==> id < self.next_room_id && self.rooms@[id].id == id
    }

    /// The users by their number.
    pub closed spec fn users(&self) -> Map<UserId, User> {
        self.users@
    }

    /// The rooms by their number.
    pub closed spec fn rooms(&self) -> Map<RoomId, Room> {
        self.rooms@
    }

    /// The number that the next user gets.
    pub closed spec fn next_user_id(&self) -> UserId {
        self.next_user_id
    }

    /// The number that the next room gets.
    pub closed spec fn next_room_id(&self) -> RoomId {
        self.next_room_id
    }

    /// Both servers hold the same users, rooms and next numbers.
    pub open spec fn same_state(&self, other: &Self) -> bool {
        &&& self.users() == other.users()
        &&& self.rooms() == other.rooms()
        &&& self.next_user_id() == other.next_user_id()
        &&& self.next_room_id() == other.next_room_id()
    }

    /// Why an operation on a user and a room cannot go ahead, the user
    /// looked up first.
    pub open spec fn lookup_error(&self, user_id: UserId, room_id: RoomId) -> Option<Seq<char>> {
        if !self.users().contains_key(user_id) {
            Some(user_not_found())
        } else if !self.rooms().contains_key(room_id) {
            Some(room_not_found())
        } else {
            None
        }
    }

    /// `after` is this server once the user has joined the room.
    pub open spec fn joined(&self, after: &Self, user_id: UserId, room_id: RoomId) -> bool {
        &&& after.next_user_id() == self.next_user_id()
        &&& after.next_room_id() == self.next_room_id()
        &&& after.users() == self.users().insert(user_id, after.users()[user_id])
        &&& after.rooms() == self.rooms().insert(room_id, after.rooms()[room_id])
        &&& user_joined(self.users()[user_id], after.users()[user_id], room_id)
        &&& room_with_members(
            self.rooms()[room_id],
            after.rooms()[room_id],
            self.rooms()[room_id].members@.push(user_id),
        )
    }

    /// `after` is this server once the user has left the room.
    pub open spec fn left(&self, after: &Self, user_id: UserId, room_id: RoomId) -> bool {
        &&& after.next_user_id() == self.next_user_id()
        &&& after.next_room_id() == self.next_room_id()
        &&& after.users() == self.users().insert(user_id, after.users()[user_id])
        &&& after.rooms() == self.rooms().insert(room_id, after.rooms()[room_id])
        &&& user_left(self.users()[user_id], after.users()[user_id], room_id)
        &&& room_with_members(
            self.rooms()[room_id],
            after.rooms()[room_id],
            without(self.rooms()[room_id].members@, user_id),
        )
    }

    /// `after` is this server once `m` has been broadcast in the room: the
    /// room has recorded it, and every user has received it once for each
    /// membership in the room.
    pub open spec fn posted(&self, after: &Self, room_id: RoomId, m: Message) -> bool {
        &&& after.next_user_id() == self.next_user_id()
        &&& after.next_room_id() == self.next_room_id()
        &&& after.rooms() == self.rooms().insert(room_id, after.rooms()[room_id])
        &&& room_heard(self.rooms()[room_id], after.rooms()[room_id], m)
        &&& after.users().dom() == self.users().dom()
        &&& forall|uid: UserId| #[trigger]
            self.users().contains_key(uid) ==> delivered(
                self.users()[uid],
                after.users()[uid],
                m,
                occurrences(self.rooms()[room_id].members@, uid),
            )
    }

    /// A server without users or rooms.
    pub fn new() -> (r: Self)
        ensures
            r.wf(),
            r.users() == Map::<UserId, User>::empty(),
            r.rooms() == Map::<RoomId, Room>::empty(),
            r.next_user_id() == 1,
            r.next_room_id() == 1,
    {
        SingleThreadChatServer {
            users: HashMap::new(),
            rooms: HashMap::new(),
            next_user_id: 1,
            next_room_id: 1,
        }
    }

    /// Whether a number is left for one more user.
    pub fn can_create_user(&self) -> (r: bool)
        ensures
            r == (self.next_user_id() < u64::MAX),
    {
        self.next_user_id < u64::MAX
    }

    /// Whether a number is left for one more room.
    pub fn can_create_room(&self) -> (r: bool)
        ensures
            r == (self.next_room_id() < u64::MAX),
    {
        self.next_room_id < u64::MAX
    }

    /// Creates a user under the next free number and returns the number.
    pub fn create_user(&mut self, name: &str) -> (r: UserId)
        requires
            old(self).wf(),
            old(self).next_user_id() < u64::MAX,
        ensures
            final(self).wf(),
            r == old(self).next_user_id(),
            final(self).next_user_id() == r + 1,
            final(self).next_room_id() == old(self).next_room_id(),
            final(self).rooms() == old(self).rooms(),
            !old(self).users().contains_key(r),
            final(self).users() == old(self).users().insert(r, final(self).users()[r]),
            final(self).users()[r].id == r,
            final(self).users()[r].name@ == name@,
            final(self).users()[r].joined_rooms@.len() == 0,
            final(self).users()[r].inbox@.len() == 0,
    {
        let id = self.next_user_id;
        let user = User::new(id, name);
        self.next_user_id = id + 1;
        self.users.insert(id, user);
        assert(self.users@ =~= old(self).users@.insert(id, self.users@[id]));
        id
    }

    /// Creates a room under the next free number and returns the number.
    pub fn create_room(&mut self, name: &str) -> (r: RoomId)
        requires
            old(self).wf(),
            old(self).next_room_id() < u64::MAX,
        ensures
            final(self).wf(),
            r == old(self).next_room_id(),
            final(self).next_room_id() == r + 1,
            final(self).next_user_id() == old(self).next_user_id(),
            final(self).users() == old(self).users(),
            !old(self).rooms().contains_key(r),
            final(self).rooms() == old(self).rooms().insert(r, final(self).rooms()[r]),
            final(self).rooms()[r].id == r,
            final(self).rooms()[r].name@ == name@,
            final(self).rooms()[r].members@.len() == 0,
            final(self).rooms()[r].history@.len() == 0,
    {
        let id = self.next_room_id;
        let room = Room::new(id, name);
        self.next_room_id = id + 1;
        self.rooms.insert(id, room);
        assert(self.rooms@ =~= old(self).rooms@.insert(id, self.rooms@[id]));
        id
    }

    /// Lets the user join the room: the room gets the member and the user
    /// notes the room. Fails, changing nothing, when either is not there.
    pub fn join_room(&mut self, user_id: UserId, room_id: RoomId) -> (r: Result<(), String>)
        requires
            old(self).wf(),
        ensures
            final(self).wf(),
            r is Err <==> old(self).lookup_error(user_id, room_id) is Some,
            r matches Err(e) ==> Some(e@) == old(self).lookup_error(user_id, room_id),
            r is Err ==> old(self).same_state(final(self)),
            r is Ok ==> old(self).joined(final(self), user_id, room_id),
    {
        if !self.users.contains_key(&user_id) {
            return Err("User not found".to_owned());
        }
        if !self.rooms.contains_key(&room_id) {
            return Err("Room not found".to_owned());
        }
        let mut room = self.rooms.remove(&room_id).unwrap();
        let mut user = self.users.remove(&user_id).unwrap();
        room.add_member(&user);
        user.join_room(&room);
        self.rooms.insert(room_id, room);
        self.users.insert(user_id, user);
        proof {
            assert(self.users@ =~= old(self).users@.insert(user_id, self.users@[user_id]));
            assert(self.rooms@ =~= old(self).rooms@.insert(room_id, self.rooms@[room_id]));
        }
        Ok(())
    }

    /// Lets the user leave the room: the room loses the member and the user
    /// forgets the room. Fails, changing nothing, when either is not there.
    pub fn leave_room(&mut self, user_id: UserId, room_id: RoomId) -> (r: Result<(), String>)
        requires
            old(self).wf(),
        ensures
            final(self).wf(),
            r is Err <==> old(self).lookup_error(user_id, room_id) is Some,
            r matches Err(e) ==> Some(e@) == old(self).lookup_error(user_id, room_id),
            r is Err ==> old(self).same_state(final(self)),
            r is Ok ==> old(self).left(final(self), user_id, room_id),
    {
        if !self.users.contains_key(&user_id) {
            return Err("User not found".to_owned());
        }
        if !self.rooms.contains_key(&room_id) {
            return Err("Room not found".to_owned());
        }
        let mut room = self.rooms.remove(&room_id).unwrap();
        let mut user = self.users.remove(&user_id).unwrap();
        room.remove_member(user_id);
        user.leave_room(room_id);
        self.rooms.insert(room_id, room);
        self.users.insert(user_id, user);
        proof {
            assert(self.users@ =~= old(self).users@.insert(user_id, self.users@[user_id]));
            assert(self.rooms@ =~= old(self).rooms@.insert(room_id, self.rooms@[room_id]));
        }
        Ok(())
    }

    /// Broadcasts in the room a message from the user, written at
    /// `timestamp`. Fails, changing nothing, when either is not there.
    pub fn send_message_at(
        &mut self,
        user_id: UserId,
        room_id: RoomId,
        content: &str,
        timestamp: u64,
    ) -> (r: Result<(), String>)
        requires
            old(self).wf(),
        ensures
            final(self).wf(),
            r is Err <==> old(self).lookup_error(user_id, room_id) is Some,
            r matches Err(e) ==> Some(e@) == old(self).lookup_error(user_id, room_id),
            r is Err ==> old(self).same_state(final(self)),
            r is Ok ==> exists|m: Message|
                {
                    &&& m.sender_id == user_id
                    &&& m.sender_name@ == old(self).users()[user_id].name@
                    &&& m.content@ == content@
                    &&& m.timestamp == timestamp
                    &&& #[trigger] old(self).posted(final(self), room_id, m)
                },
    {
        if !self.users.contains_key(&user_id) {
            return Err("User not found".to_owned());
        }
        if !self.rooms.contains_key(&room_id) {
            return Err("Room not found".to_owned());
        }
        let message = match self.users.get(&user_id) {
            Some(user) => Message::at(user_id, user.name.as_str(), content, timestamp),
            None => Message::at(user_id, "", content, timestamp),
        };
        let ghost m = message;
        let mut room = self.rooms.remove(&room_id).unwrap();
        room.broadcast(message, &mut self.users);
        self.rooms.insert(room_id, room);
        proof {
            assert(self.rooms@ =~= old(self).rooms@.insert(room_id, self.rooms@[room_id]));
            assert(old(self).posted(&*self, room_id, m));
        }
        Ok(())
    }

    /// Broadcasts in the room a message from the user, written now. Fails,
    /// changing nothing, when either is not there.
    pub fn send_message(&mut self, user_id: UserId, room_id: RoomId, content: &str) -> (r: Result<
        (),
        String,
    >)
        requires
            old(self).wf(),
        ensures
            final(self).wf(),
            r is Err <==> old(self).lookup_error(user_id, room_id) is Some,
            r matches Err(e) ==> Some(e@) == old(self).lookup_error(user_id, room_id),
            r is Err ==> old(self).same_state(final(self)),
            r is Ok ==> exists|m: Message|
                {
                    &&& m.sender_id == user_id
                    &&& m.sender_name@ == old(self).users()[user_id].name@
                    &&& m.content@ == content@
                    &&& #[trigger] old(self).posted(final(self), room_id, m)
                },
    {
        let timestamp = current_timestamp();
        self.send_message_at(user_id, room_id, content, timestamp)
    }

    /// A copy of the user's inbox.
    pub fn get_user_messages(&self, user_id: UserId) -> (r: Result<Vec<Message>, String>)
        ensures
            r is Ok <==> self.users().contains_key(user_id),
            r matches Ok(v) ==> v@ == self.users()[user_id].inbox@,
            r matches Err(e) ==> e@ == user_not_found(),
    {
        match self.users.get(&user_id) {
            Some(user) => Ok(user.get_messages()),
            None => Err("User not found".to_owned()),
        }
    }

    /// A copy of the room's history.
    pub fn get_room_history(&self, room_id: RoomId) -> (r: Result<Vec<Message>, String>)
        ensures
            r is Ok <==> self.rooms().contains_key(room_id),
            r matches Ok(v) ==> v@ == self.rooms()[room_id].history@,
            r matches Err(e) ==> e@ == room_not_found(),
    {
        match self.rooms.get(&room_id) {
            Some(room) => Ok(room.get_history()),
            None => Err("Room not found".to_owned()),
        }
    }

    /// The number of users.
    pub fn user_count(&self) -> (r: usize)
        ensures
            r == self.users().len(),
    {
        self.users.len()
    }

    /// The number of rooms.
    pub fn room_count(&self) -> (r: usize)
        ensures
            r == self.rooms().len(),
    {
        self.rooms.len()
    }
}

impl Default for SingleThreadChatServer {
    fn default() -> (r: Self)
        ensures
            r.wf(),
            r.users() == Map::<UserId, User>::empty(),
            r.rooms() == Map::<RoomId, Room>::empty(),
            r.next_user_id() == 1,
            r.next_room_id() == 1,
    {
        SingleThreadChatServer::new()
    }
}

/// A user of the multi-thread server: the messages received, oldest first.
#[derive(Debug)]
pub struct ThreadSafeUser {
    pub id: UserId,
    pub name: String,
    pub inbox: Vec<Message>,
}

impl Clone for ThreadSafeUser {
    fn clone(&self) -> (r: Self)
        ensures
            r.id == self.id,
            r.name == self.name,
            r.inbox@ == self.inbox@,
    {
        ThreadSafeUser {
            id: self.id,
            name: self.name.clone(),
            inbox: clone_messages(&self.inbox),
        }
    }
}

impl ThreadSafeUser {
    pub fn new(id: UserId, name: &str) -> (r: Self)
        ensures
            r.id == id,
            r.name@ == name@,
            r.inbox@.len() == 0,
    {
        ThreadSafeUser { id, name: name.to_owned(), inbox: Vec::new() }
    }

    /// Puts `message` at the end of the inbox.
    pub fn receive_message(&mut self, message: Message)
        ensures
            final(self).inbox@ == old(self).inbox@.push(message),
            final(self).id == old(self).id,
            final(self).name == old(self).name,
    {
        self.inbox.push(message);
    }

    /// A copy of the inbox.
    pub fn get_messages(&self) -> (r: Vec<Message>)
        ensures
            r@ == self.inbox@,
    {
        clone_messages(&self.inbox)
    }

    /// The number of messages received.
    pub fn message_count(&self) -> (r: usize)
        ensures
            r == self.inbox@.len(),
    {
        self.inbox.len()
    }
}

impl Recipient for ThreadSafeUser {
    open spec fn received_messages(&self) -> Seq<Message> {
        self.inbox@
    }

    open spec fn rest(&self) -> (UserId, String, Option<Vec<RoomId>>) {
        (self.id, self.name, None)
    }

    fn deliver(&mut self, message: Message) {
        self.receive_message(message);
    }
}

/// What `n` deliveries of `m` make of a user of the multi-thread server.
pub open spec fn delivered_safe(
    before: ThreadSafeUser,
    after: ThreadSafeUser,
    m: Message,
    n: nat,
) -> bool {
    &&& after.id == before.id
    &&& after.name == before.name
    &&& after.inbox@ == before.inbox@ + copies(m, n)
}

/// The members of a room once `user_id` has been added: a user already
/// there is not added again.
pub open spec fn with_member(members: Seq<UserId>, user_id: UserId) -> Seq<UserId> {
    if members.contains(user_id) {
        members
    } else {
        members.push(user_id)
    }
}

/// A room of the multi-thread server: its members, each once, in the order
/// of joining, and its messages, oldest first.
#[derive(Debug)]
pub struct ThreadSafeRoom {
    pub id: RoomId,
    pub name: String,
    pub members: Vec<UserId>,
    pub history: Vec<Message>,
}

impl ThreadSafeRoom {
    pub fn new(id: RoomId, name: &str) -> (r: Self)
        ensures
            r.id == id,
            r.name@ == name@,
            r.members@.len() == 0,
            r.history@.len() == 0,
    {
        ThreadSafeRoom { id, name: name.to_owned(), members: Vec::new(), history: Vec::new() }
    }

    /// Adds the user to the members unless it is one already.
    pub fn add_member(&mut self, user_id: UserId)
        ensures
            final(self).members@ == with_member(old(self).members@, user_id),
            old(self).members@.no_duplicates() ==> final(self).members@.no_duplicates(),
            final(self).id == old(self).id,
            final(self).name == old(self).name,
            final(self).history == old(self).history,
    {
        if !contains_id(&self.members, user_id) {
            self.members.push(user_id);
        }
    }

    /// Takes the user out of the members.
    pub fn remove_member(&mut self, user_id: UserId)
        ensures
            final(self).members@ == without(old(self).members@, user_id),
            !final(self).members@.contains(user_id),
            final(self).id == old(self).id,
            final(self).name == old(self).name,
            final(self).history == old(self).history,
    {
        remove_id(&mut self.members, user_id);
        proof {
            let kept = without(old(self).members@, user_id);
            if kept.contains(user_id) {
                Seq::<u64>::lemma_filter_contains_rev(
                    old(self).members@,
                    is_other_id(user_id),
                    user_id,
                );
            }
        }
    }

    /// The number of members.
    pub fn member_count(&self) -> (r: usize)
        ensures
            r == self.members@.len(),
    {
        self.members.len()
    }

    /// Whether the user is a member.
    pub fn has_member(&self, user_id: UserId) -> (r: bool)
        ensures
            r == self.members@.contains(user_id),
    {
        contains_id(&self.members, user_id)
    }

    /// Records `message` at the end of the history.
    pub fn add_to_history(&mut self, message: Message)
        ensures
            final(self).history@ == old(self).history@.push(message),
            final(self).id == old(self).id,
            final(self).name == old(self).name,
            final(self).members == old(self).members,
    {
        self.history.push(message);
    }

    /// A copy of the history.
    pub fn get_history(&self) -> (r: Vec<Message>)
        ensures
            r@ == self.history@,
    {
        clone_messages(&self.history)
    }

    /// The members, in the order of joining.
    pub fn get_member_ids(&self) -> (r: Vec<UserId>)
        ensures
            r@ == self.members@,
    {
        let mut out: Vec<UserId> = Vec::new();
        let mut i: usize = 0;
        while i < self.members.len()
            invariant
                i <= self.members.len(),
                out@ == self.members@.subrange(0, i as int),
            decreases self.members.len() - i,
        {
            out.push(self.members[i]);
            assert(out@ =~= self.members@.subrange(0, i + 1));
            i += 1;
        }
        assert(out@ =~= self.members@);
        out
    }
}

/// `after` is `before` with other members.
pub open spec fn safe_room_with_members(
    before: ThreadSafeRoom,
    after: ThreadSafeRoom,
    members: Seq<UserId>,
) -> bool {
    &&& after.id == before.id
    &&& after.name == before.name
    &&& after.history == before.history
    &&& after.members@ == members
}

/// `after` is `before` with one more message at the end of the history.
pub open spec fn safe_room_heard(
    before: ThreadSafeRoom,
    after: ThreadSafeRoom,
    m: Message,
) -> bool {
    &&& after.id == before.id
    &&& after.name == before.name
    &&& after.members == before.members
    &&& after.history@ == before.history@.push(m)
}

/// The state of a chat server that several threads share behind a lock.
/// It owns its users and rooms and numbers each kind from 1 in the order of
/// creation.
pub struct MultiThreadChatServer {
    users: HashMap<UserId, ThreadSafeUser>,
    rooms: HashMap<RoomId, ThreadSafeRoom>,
    next_user_id: UserId,
    next_room_id: RoomId,
}

impl MultiThreadChatServer {
    /// Every user and room is filed under its own number, and the numbers
    /// given out so far lie below the next ones.
    pub closed spec fn wf(&self) -> bool {
        &&& forall|id: UserId| #[trigger]
            self.users@.contains_key(id) ==> id < self.next_user_id && self.users@[id].id == id
        &&& forall|id: RoomId| #[trigger]
            self.rooms@.contains_key(id) ==> id < self.next_room_id && self.rooms@[id].id == id
    }

    /// The users by their number.
    pub closed spec fn users(&self) -> Map<UserId, ThreadSafeUser> {
        self.users@
    }

    /// The rooms by their number.
    pub closed spec fn rooms(&self) -> Map<RoomId, ThreadSafeRoom> {
        self.rooms@
    }

    /// The number that the next user gets.
    pub closed spec fn next_user_id(&self) -> UserId {
        self.next_user_id
    }

    /// The number that the next room gets.
    pub closed spec fn next_room_id(&self) -> RoomId {
        self.next_room_id
    }

    /// Both servers hold the same users, rooms and next numbers.
    pub open spec fn same_state(&self, other: &Self) -> bool {
        &&& self.users() == other.users()
        &&& self.rooms() == other.rooms()
        &&& self.next_user_id() == other.next_user_id()
        &&& self.next_room_id() == other.next_room_id()
    }

    /// Why an operation on a user and a room cannot go ahead, the user
    /// looked up first.
    pub open spec fn lookup_error(&self, user_id: UserId, room_id: RoomId) -> Option<Seq<char>> {
        if !self.users().contains_key(user_id) {
            Some(user_not_found())
        } else if !self.rooms().contains_key(room_id) {
            Some(room_not_found())
        } else {
            None
        }
    }

    /// `after` is this server with other members in one room.
    pub open spec fn regrouped(&self, after: &Self, room_id: RoomId, members: Seq<UserId>) -> bool {
        &&& after.next_user_id() == self.next_user_id()
        &&& after.next_room_id() == self.next_room_id()
        &&& after.users() == self.users()
        &&& after.rooms() == self.rooms().insert(room_id, after.rooms()[room_id])
        &&& safe_room_with_members(self.rooms()[room_id], after.rooms()[room_id], members)
    }

    /// `after` is this server once the user has joined the room.
    pub open spec fn joined(&self, after: &Self, user_id: UserId, room_id: RoomId) -> bool {
        self.regrouped(after, room_id, with_member(self.rooms()[room_id].members@, user_id))
    }

    /// `after` is this server once the user has left the room.
    pub open spec fn left(&self, after: &Self, user_id: UserId, room_id: RoomId) -> bool {
        self.regrouped(after, room_id, without(self.rooms()[room_id].members@, user_id))
    }

    /// `after` is this server once `m` has been sent in the room: the room
    /// has recorded it, and every user has received it once for each time
    /// the room lists the user.
    pub open spec fn posted(&self, after: &Self, room_id: RoomId, m: Message) -> bool {
        &&& after.next_user_id() == self.next_user_id()
        &&& after.next_room_id() == self.next_room_id()
        &&& after.rooms() == self.rooms().insert(room_id, after.rooms()[room_id])
        &&& safe_room_heard(self.rooms()[room_id], after.rooms()[room_id], m)
        &&& after.users().dom() == self.users().dom()
        &&& forall|uid: UserId| #[trigger]
            self.users().contains_key(uid) ==> delivered_safe(
                self.users()[uid],
                after.users()[uid],
                m,
                occurrences(self.rooms()[room_id].members@, uid),
            )
    }

    /// A server without users or rooms.
    pub fn new() -> (r: Self)
        ensures
            r.wf(),
            r.users() == Map::<UserId, ThreadSafeUser>::empty(),
            r.rooms() == Map::<RoomId, ThreadSafeRoom>::empty(),
            r.next_user_id() == 1,
            r.next_room_id() == 1,
    {
        MultiThreadChatServer {
            users: HashMap::new(),
            rooms: HashMap::new(),
            next_user_id: 1,
            next_room_id: 1,
        }
    }

    /// Whether a number is left for one more user.
    pub fn can_create_user(&self) -> (r: bool)
        ensures
            r == (self.next_user_id() < u64::MAX),
    {
        self.next_user_id < u64::MAX
    }

    /// Whether a number is left for one more room.
    pub fn can_create_room(&self) -> (r: bool)
        ensures
            r == (self.next_room_id() < u64::MAX),
    {
        self.next_room_id < u64::MAX
    }

    /// Creates a user under the next free number and returns the number.
    pub fn create_user(&mut self, name: &str) -> (r: UserId)
        requires
            old(self).wf(),
            old(self).next_user_id() < u64::MAX,
        ensures
            final(self).wf(),
            r == old(self).next_user_id(),
            final(self).next_user_id() == r + 1,
            final(self).next_room_id() == old(self).next_room_id(),
            final(self).rooms() == old(self).rooms(),
            !old(self).users().contains_key(r),
            final(self).users() == old(self).users().insert(r, final(self).users()[r]),
            final(self).users()[r].id == r,
            final(self).users()[r].name@ == name@,
            final(self).users()[r].inbox@.len() == 0,
    {
        let id = self.next_user_id;
        let user = ThreadSafeUser::new(id, name);
        self.next_user_id = id + 1;
        self.users.insert(id, user);
        assert(self.users@ =~= old(self).users@.insert(id, self.users@[id]));
        id
    }

    /// Creates a room under the next free number and returns the number.
    pub fn create_room(&mut self, name: &str) -> (r: RoomId)
        requires
            old(self).wf(),
            old(self).next_room_id() < u64::MAX,
        ensures
            final(self).wf(),
            r == old(self).next_room_id(),
            final(self).next_room_id() == r + 1,
            final(self).next_user_id() == old(self).next_user_id(),
            final(self).users() == old(self).users(),
            !old(self).rooms().contains_key(r),
            final(self).rooms() == old(self).rooms().insert(r, final(self).rooms()[r]),
            final(self).rooms()[r].id == r,
            final(self).rooms()[r].name@ == name@,
            final(self).rooms()[r].members@.len() == 0,
            final(self).rooms()[r].history@.len() == 0,
    {
        let id = self.next_room_id;
        let room = ThreadSafeRoom::new(id, name);
        self.next_room_id = id + 1;
        self.rooms.insert(id, room);
        assert(self.rooms@ =~= old(self).rooms@.insert(id, self.rooms@[id]));
        id
    }

    /// Lets the user join the room. Fails, changing nothing, when either is
    /// not there.
    pub fn join_room(&mut self, user_id: UserId, room_id: RoomId) -> (r: Result<(), String>)
        requires
            old(self).wf(),
        ensures
            final(self).wf(),
            r is Err <==> old(self).lookup_error(user_id, room_id) is Some,
            r matches Err(e) ==> Some(e@) == old(self).lookup_error(user_id, room_id),
            r is Err ==> old(self).same_state(final(self)),
            r is Ok ==> old(self).joined(final(self), user_id, room_id),
    {
        if !self.users.contains_key(&user_id) {
            return Err("User not found".to_owned());
        }
        if !self.rooms.contains_key(&room_id) {
            return Err("Room not found".to_owned());
        }
        let mut room = self.rooms.remove(&room_id).unwrap();
        room.add_member(user_id);
        self.rooms.insert(room_id, room);
        proof {
            assert(self.rooms@ =~= old(self).rooms@.insert(room_id, self.rooms@[room_id]));
        }
        Ok(())
    }

    /// Lets the user leave the room. Fails, changing nothing, when either is
    /// not there.
    pub fn leave_room(&mut self, user_id: UserId, room_id: RoomId) -> (r: Result<(), String>)
        requires
            old(self).wf(),
        ensures
            final(self).wf(),
            r is Err <==> old(self).lookup_error(user_id, room_id) is Some,
            r matches Err(e) ==> Some(e@) == old(self).lookup_error(user_id, room_id),
            r is Err ==> old(self).same_state(final(self)),
            r is Ok ==> old(self).left(final(self), user_id, room_id),
    {
        if !self.users.contains_key(&user_id) {
            return Err("User not found".to_owned());
        }
        if !self.rooms.contains_key(&room_id) {
            return Err("Room not found".to_owned());
        }
        let mut room = self.rooms.remove(&room_id).unwrap();
        room.remove_member(user_id);
        self.rooms.insert(room_id, room);
        proof {
            assert(self.rooms@ =~= old(self).rooms@.insert(room_id, self.rooms@[room_id]));
        }
        Ok(())
    }

    /// Sends in the room a message from the user, written at `timestamp`,
    /// to every member. Fails, changing nothing, when either is not there.
    pub fn send_message_at(
        &mut self,
        user_id: UserId,
        room_id: RoomId,
        content: &str,
        timestamp: u64,
    ) -> (r: Result<(), String>)
        requires
            old(self).wf(),
        ensures
            final(self).wf(),
            r is Err <==> old(self).lookup_error(user_id, room_id) is Some,
            r matches Err(e) ==> Some(e@) == old(self).lookup_error(user_id, room_id),
            r is Err ==> old(self).same_state(final(self)),
            r is Ok ==> exists|m: Message|
                {
                    &&& m.sender_id == user_id
                    &&& m.sender_name@ == old(self).users()[user_id].name@
                    &&& m.content@ == content@
                    &&& m.timestamp == timestamp
                    &&& #[trigger] old(self).posted(final(self), room_id, m)
                },
    {
        if !self.users.contains_key(&user_id) {
            return Err("User not found".to_owned());
        }
        if !self.rooms.contains_key(&room_id) {
            return Err("Room not found".to_owned());
        }
        let message = match self.users.get(&user_id) {
            Some(user) => Message::at(user_id, user.name.as_str(), content, timestamp),
            None => Message::at(user_id, "", content, timestamp),
        };
        let ghost m = message;
        let mut room = self.rooms.remove(&room_id).unwrap();
        deliver_to_members(&mut self.users, &room.members, &message);
        room.add_to_history(message);
        self.rooms.insert(room_id, room);
        proof {
            assert(self.rooms@ =~= old(self).rooms@.insert(room_id, self.rooms@[room_id]));
            assert(old(self).posted(&*self, room_id, m));
        }
        Ok(())
    }

    /// Sends in the room a message from the user, written now, to every
    /// member. Fails, changing nothing, when either is not there.
    pub fn send_message(&mut self, user_id: UserId, room_id: RoomId, content: &str) -> (r: Result<
        (),
        String,
    >)
        requires
            old(self).wf(),
        ensures
            final(self).wf(),
            r is Err <==> old(self).lookup_error(user_id, room_id) is Some,
            r matches Err(e) ==> Some(e@) == old(self).lookup_error(user_id, room_id),
            r is Err ==> old(self).same_state(final(self)),
            r is Ok ==> exists|m: Message|
                {
                    &&& m.sender_id == user_id
                    &&& m.sender_name@ == old(self).users()[user_id].name@
                    &&& m.content@ == content@
                    &&& #[trigger] old(self).posted(final(self), room_id, m)
                },
    {
        let timestamp = current_timestamp();
        self.send_message_at(user_id, room_id, content, timestamp)
    }

    /// The user under this number, if there is one.
    pub fn get_user(&self, user_id: UserId) -> (r: Option<&ThreadSafeUser>)
        ensures
            r is Some <==> self.users().contains_key(user_id),
            r matches Some(u) ==> *u == self.users()[user_id],
    {
        self.users.get(&user_id)
    }

    /// The room under this number, if there is one.
    pub fn get_room(&self, room_id: RoomId) -> (r: Option<&ThreadSafeRoom>)
        ensures
            r is Some <==> self.rooms().contains_key(room_id),
            r matches Some(room) ==> *room == self.rooms()[room_id],
    {
        self.rooms.get(&room_id)
    }

    /// The number of users.
    pub fn user_count(&self) -> (r: usize)
        ensures
            r == self.users().len(),
    {
        self.users.len()
    }

    /// The number of rooms.
    pub fn room_count(&self) -> (r: usize)
        ensures
            r == self.rooms().len(),
    {
        self.rooms.len()
    }
}

impl Default for MultiThreadChatServer {
    fn default() -> (r: Self)
        ensures
            r.wf(),
            r.users() == Map::<UserId, ThreadSafeUser>::empty(),
            r.rooms() == Map::<RoomId, ThreadSafeRoom>::empty(),
            r.next_user_id() == 1,
            r.next_room_id() == 1,
    {
        MultiThreadChatServer::new()
    }
}

/// What a client may ask of the server through a queue of commands.
#[derive(Debug)]
pub enum ChatCommand {
    SendMessage { user_id: UserId, room_id: RoomId, content: String },
    JoinRoom { user_id: UserId, room_id: RoomId },
    LeaveRoom { user_id: UserId, room_id: RoomId },
    Shutdown,
}

impl Clone for ChatCommand {
    fn clone(&self) -> (r: Self)
        ensures
            r == *self,
    {
        match self {
            ChatCommand::SendMessage { user_id, room_id, content } => ChatCommand::SendMessage {
                user_id: *user_id,
                room_id: *room_id,
                content: content.clone(),
            },
            ChatCommand::JoinRoom { user_id, room_id } => ChatCommand::JoinRoom {
                user_id: *user_id,
                room_id: *room_id,
            },
            ChatCommand::LeaveRoom { user_id, room_id } => ChatCommand::LeaveRoom {
                user_id: *user_id,
                room_id: *room_id,
            },
            ChatCommand::Shutdown => ChatCommand::Shutdown,
        }
    }
}

/// What one command makes of a server: a command that names a user or a
/// room that is not there changes nothing, and so does `Shutdown`.
pub open spec fn command_applied(
    before: &MultiThreadChatServer,
    after: &MultiThreadChatServer,
    command: ChatCommand,
) -> bool {
    match command {
        ChatCommand::Shutdown => before.same_state(after),
        ChatCommand::JoinRoom { user_id, room_id } => if before.lookup_error(user_id, room_id)
            is Some {
            before.same_state(after)
        } else {
            before.joined(after, user_id, room_id)
        },
        ChatCommand::LeaveRoom { user_id, room_id } => if before.lookup_error(user_id, room_id)
            is Some {
            before.same_state(after)
        } else {
            before.left(after, user_id, room_id)
        },
        ChatCommand::SendMessage { user_id, room_id, content } => if before.lookup_error(
            user_id,
            room_id,
        ) is Some {
            before.same_state(after)
        } else {
            exists|m: Message|
                {
                    &&& m.sender_id == user_id
                    &&& m.sender_name@ == before.users()[user_id].name@
                    &&& m.content@ == content@
                    &&& #[trigger] before.posted(after, room_id, m)
                }
        },
    }
}

/// One step of the worker that serves a command queue: carries the command
/// out on the server and says whether the worker goes on, which it does
/// until `Shutdown` comes.
pub fn handle_command(server: &mut MultiThreadChatServer, command: ChatCommand) -> (go_on: bool)
    requires
        old(server).wf(),
    ensures
        final(server).wf(),
        go_on == !(command is Shutdown),
        command_applied(old(server), final(server), command),
{
    match command {
        ChatCommand::SendMessage { user_id, room_id, content } => {
            let _ = server.send_message(user_id, room_id, content.as_str());
            true
        },
        ChatCommand::JoinRoom { user_id, room_id } => {
            let _ = server.join_room(user_id, room_id);
            true
        },
        ChatCommand::LeaveRoom { user_id, room_id } => {
            let _ = server.leave_room(user_id, room_id);
            true
        },
        ChatCommand::Shutdown => false,
    }
}

/// Running totals of a server.
#[derive(Debug, Clone, Copy, PartialEq, Eq, Structural)]
pub struct ServerStats {
    pub total_messages: u64,
    pub total_joins: u64,
    pub total_leaves: u64,
    pub active_users: u64,
    pub active_rooms: u64,
}

impl Default for ServerStats {
    fn default() -> (r: Self)
        ensures
            r == (ServerStats {
                total_messages: 0,
                total_joins: 0,
                total_leaves: 0,
                active_users: 0,
                active_rooms: 0,
            }),
    {
        ServerStats {
            total_messages: 0,
            total_joins: 0,
            total_leaves: 0,
            active_users: 0,
            active_rooms: 0,
        }
    }
}

/// Keeps the running totals of a server.
pub struct StatsCollector {
    stats: ServerStats,
}

impl StatsCollector {
    /// The totals as they stand.
    pub closed spec fn stats(&self) -> ServerStats {
        self.stats
    }

    /// A collector with every total at zero.
    pub fn new() -> (r: Self)
        ensures
            r.stats() == (ServerStats {
                total_messages: 0,
                total_joins: 0,
                total_leaves: 0,
                active_users: 0,
                active_rooms: 0,
            }),
    {
        StatsCollector { stats: ServerStats::default() }
    }

    /// Counts one message.
    pub fn record_message(&mut self)
        requires
            old(self).stats().total_messages < u64::MAX,
        ensures
            final(self).stats() == (ServerStats {
                total_messages: (old(self).stats().total_messages + 1) as u64,
                ..old(self).stats()
            }),
    {
        self.stats.total_messages = self.stats.total_messages + 1;
    }

    /// Counts one join.
    pub fn record_join(&mut self)
        requires
            old(self).stats().total_joins < u64::MAX,
        ensures
            final(self).stats() == (ServerStats {
                total_joins: (old(self).stats().total_joins + 1) as u64,
                ..old(self).stats()
            }),
    {
        self.stats.total_joins = self.stats.total_joins + 1;
    }

    /// Counts one leave.
    pub fn record_leave(&mut self)
        requires
            old(self).stats().total_leaves < u64::MAX,
        ensures
            final(self).stats() == (ServerStats {
                total_leaves: (old(self).stats().total_leaves + 1) as u64,
                ..old(self).stats()
            }),
    {
        self.stats.total_leaves = self.stats.total_leaves + 1;
    }

    /// Sets the number of active users.
    pub fn set_active_users(&mut self, count: u64)
        ensures
            final(self).stats() == (ServerStats { active_users: count, ..old(self).stats() }),
    {
        self.stats.active_users = count;
    }

    /// Sets the number of active rooms.
    pub fn set_active_rooms(&mut self, count: u64)
        ensures
            final(self).stats() == (ServerStats { active_rooms: count, ..old(self).stats() }),
    {
        self.stats.active_rooms = count;
    }

    /// The totals as they stand.
    pub fn get_stats(&self) -> (r: ServerStats)
        ensures
            r == self.stats(),
    {
        self.stats
    }
}

impl Default for StatsCollector {
    fn default() -> (r: Self)
        ensures
            r.stats() == (ServerStats {
                total_messages: 0,
                total_joins: 0,
                total_leaves: 0,
                active_users: 0,
                active_rooms: 0,
            }),
    {
        StatsCollector::new()
    }
}

} // verus!
