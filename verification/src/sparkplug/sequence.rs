//! Counts the `seq` number that each edge node's messages carry.
//!
//! Sparkplug gives one counter to each edge node. An NBIRTH sets
//! that counter to 0. Every message after it adds 1, and the count wraps
//! from 255 back to 0, because `seq` holds one byte. A host application
//! reads the count to find a message it did not receive.
//!
//! Sparkplug names an edge node by the pair `group_id/edge_node_id`, so the
//! map keys on the pair. The same node id in two groups names two edge
//! nodes, and each one counts alone.
//!
//! One client publishes for many edge nodes, so the map holds one count for
//! each pair. Nothing removes an entry.
//!
//! # The lock
//!
//! Each count sits behind its own lock. A publish takes the lock of its edge
//! node, draws the number, hands the message to the MQTT client, and gives
//! the lock back. So one publish for one edge node runs at a time, and the
//! number a message carries and the order it reaches the MQTT client agree.
//! Publishes for different edge nodes take different locks and do not wait
//! for each other.

use crate::sparkplug::topic::ids::{
    self, EdgeNode, EdgeNodeId, EdgeNodeView, GroupId, OwnedEdgeNode,
};
use vstd::hash_map::StringHashMap;
use vstd::prelude::*;

verus! {

// ---------------------------------------------------------------------------
// What the counts are
// ---------------------------------------------------------------------------

/// The count of one edge node, and whether a publish holds its lock.
#[derive(Debug, Clone, Copy, PartialEq, Eq, Structural)]
pub struct Lock {
    /// The number the last message of this edge node carried.
    pub count: u8,
    /// Whether a publish is on its way with a number drawn from here.
    pub held: bool,
}

/// Every lock, under the text that names its edge node.
pub type Locks = Map<Seq<char>, Lock>;

/// The text that names one edge node.
pub open spec fn key_of(pair: EdgeNodeView) -> Seq<char> {
    pair.group.push('/') + pair.edge_node_id
}

/// The lock of an edge node. One that has not published yet holds 0.
pub open spec fn lock_of(locks: Locks, pair: EdgeNodeView) -> Lock {
    if locks.contains_key(key_of(pair)) {
        locks[key_of(pair)]
    } else {
        Lock { count: 0, held: false }
    }
}

/// The number the last message of an edge node carried.
pub open spec fn count_of(locks: Locks, pair: EdgeNodeView) -> u8 {
    lock_of(locks, pair).count
}

/// Whether a publish holds the lock of an edge node.
pub open spec fn is_held(locks: Locks, pair: EdgeNodeView) -> bool {
    lock_of(locks, pair).held
}

/// The number after `count`, in one byte.
pub open spec fn following(count: u8) -> u8 {
    if count == 255 {
        0
    } else {
        (count + 1) as u8
    }
}

/// What a [`SeqReservation`] holds.
#[verifier::ext_equal]
pub struct ReservationView {
    /// The edge node whose lock is held.
    pub edge_node: EdgeNodeView,
    /// The number the message carries.
    pub number: u8,
    /// The number before it, which stays when no message goes out.
    pub previous: u8,
}

/// The locks once a publish took the lock of an edge node.
pub open spec fn locks_taken(locks: Locks, pair: EdgeNodeView) -> Locks {
    locks.insert(key_of(pair), Lock { count: count_of(locks, pair), held: true })
}

/// The locks once the MQTT client took the message of a reservation.
pub open spec fn locks_committed(locks: Locks, reservation: ReservationView) -> Locks {
    locks.insert(
        key_of(reservation.edge_node),
        Lock { count: reservation.number, held: false },
    )
}

/// The locks once a reservation ended with no message.
pub open spec fn locks_released(locks: Locks, reservation: ReservationView) -> Locks {
    locks.insert(
        key_of(reservation.edge_node),
        Lock { count: reservation.previous, held: false },
    )
}

// ---------------------------------------------------------------------------
// SeqCounters
// ---------------------------------------------------------------------------

/// One `seq` count for each edge node a client publishes for.
pub struct SeqCounters {
    locks: StringHashMap<Lock>,
}

impl View for SeqCounters {
    type V = Locks;

    closed spec fn view(&self) -> Locks {
        self.locks@
    }
}

impl Default for SeqCounters {
    fn default() -> (counters: Self)
        ensures
            counters@ == Map::<Seq<char>, Lock>::empty(),
    {
        SeqCounters::new()
    }
}

impl SeqCounters {
    /// Build a set of counts that holds no edge node yet.
    #[must_use]
    pub fn new() -> (counters: Self)
        ensures
            counters@ == Map::<Seq<char>, Lock>::empty(),
    {
        SeqCounters { locks: StringHashMap::new() }
    }

    /// Take the lock of the edge node `group`/`node` and set its count back
    /// to 0.
    ///
    /// An NBIRTH calls this. Returns `None` when another publish for that
    /// edge node holds the lock; the caller waits and asks again.
    pub fn reserve_reset(&mut self, group: GroupId<'_>, node: EdgeNodeId<'_>) -> (reservation:
        Option<SeqReservation>)
        ensures
            ({
                let pair = EdgeNodeView { group: group@, edge_node_id: node@ };
                match reservation {
                    Some(reservation) => {
                        &&& !is_held(old(self)@, pair)
                        &&& reservation@ == (ReservationView {
                            edge_node: pair,
                            number: 0,
                            previous: count_of(old(self)@, pair),
                        })
                        &&& final(self)@ == locks_taken(old(self)@, pair)
                    },
                    None => is_held(old(self)@, pair) && final(self)@ == old(self)@,
                }
            }),
    {
        let previous = match self.take_lock(group, node) {
            Some(previous) => previous,
            None => return None,
        };
        Some(
            SeqReservation {
                edge_node: OwnedEdgeNode::from(EdgeNode::new(group, node)),
                number: 0,
                previous,
            },
        )
    }

    /// Take the lock of the edge node `group`/`node` and add 1 to its count.
    ///
    /// The count wraps from 255 to 0. An edge node this has not seen holds
    /// 0, so its first message reads 1. Returns `None` when another publish
    /// for that edge node holds the lock; the caller waits and asks again.
    pub fn reserve(&mut self, group: GroupId<'_>, node: EdgeNodeId<'_>) -> (reservation: Option<
        SeqReservation,
    >)
        ensures
            ({
                let pair = EdgeNodeView { group: group@, edge_node_id: node@ };
                match reservation {
                    Some(reservation) => {
                        &&& !is_held(old(self)@, pair)
                        &&& reservation@ == (ReservationView {
                            edge_node: pair,
                            number: following(count_of(old(self)@, pair)),
                            previous: count_of(old(self)@, pair),
                        })
                        &&& final(self)@ == locks_taken(old(self)@, pair)
                    },
                    None => is_held(old(self)@, pair) && final(self)@ == old(self)@,
                }
            }),
    {
        let previous = match self.take_lock(group, node) {
            Some(previous) => previous,
            None => return None,
        };
        Some(
            SeqReservation {
                edge_node: OwnedEdgeNode::from(EdgeNode::new(group, node)),
                number: previous.wrapping_add(1),
                previous,
            },
        )
    }

    /// Keep the number of a reservation, because the MQTT client took the
    /// message, and give the lock back.
    pub fn commit(&mut self, reservation: SeqReservation)
        ensures
            final(self)@ == locks_committed(old(self)@, reservation@),
    {
        let key = key_text(reservation.edge_node.borrowed());
        self.locks.insert(key, Lock { count: reservation.number, held: false });
    }

    /// Put the previous number back, because no message went out, and give
    /// the lock back.
    ///
    /// A refused publish and a cancelled one both end here, so the number a
    /// message never carried stays for the message after it, and a host
    /// application reads no gap.
    pub fn release(&mut self, reservation: SeqReservation)
        ensures
            final(self)@ == locks_released(old(self)@, reservation@),
    {
        let key = key_text(reservation.edge_node.borrowed());
        self.locks.insert(key, Lock { count: reservation.previous, held: false });
    }

    /// The number the last message of the edge node `group`/`node` carried.
    #[must_use]
    pub fn count(&self, group: GroupId<'_>, node: EdgeNodeId<'_>) -> (count: u8)
        ensures
            count == count_of(self@, (EdgeNodeView { group: group@, edge_node_id: node@ })),
    {
        let key = key_text(EdgeNode::new(group, node));
        match self.locks.get(key.as_str()) {
            Some(lock) => lock.count,
            None => 0,
        }
    }

    /// Take the lock of an edge node, unless it is held, and read its count.
    fn take_lock(&mut self, group: GroupId<'_>, node: EdgeNodeId<'_>) -> (previous: Option<u8>)
        ensures
            ({
                let pair = EdgeNodeView { group: group@, edge_node_id: node@ };
                match previous {
                    Some(previous) => {
                        &&& !is_held(old(self)@, pair)
                        &&& previous == count_of(old(self)@, pair)
                        &&& final(self)@ == locks_taken(old(self)@, pair)
                    },
                    None => is_held(old(self)@, pair) && final(self)@ == old(self)@,
                }
            }),
    {
        let key = key_text(EdgeNode::new(group, node));
        let lock = match self.locks.get(key.as_str()) {
            Some(lock) => *lock,
            None => Lock { count: 0, held: false },
        };
        if lock.held {
            return None;
        }
        self.locks.insert(key, Lock { count: lock.count, held: true });
        Some(lock.count)
    }
}

/// Name one edge node with one string.
fn key_text(edge_node: EdgeNode<'_>) -> (key: String)
    ensures
        key@ == key_of(edge_node@),
{
    proof {
        reveal_strlit("/");
    }
    let mut key = edge_node.group().to_string();
    key.append("/");
    key.append(edge_node.edge_node_id().as_str());
    assert(key@ =~= key_of(edge_node@));
    key
}

/// One number drawn for one edge node, and the lock that holds it.
///
/// [`SeqCounters::commit`] keeps the number, because the MQTT client took
/// the message. Every other end goes to [`SeqCounters::release`], which puts
/// the previous number back.
///
/// The lock stays held until one of the two, so no other publish for that
/// edge node can draw a number while this one waits. The type is neither
/// `Copy` nor `Clone`, so one draw ends once.
#[derive(Debug)]
#[must_use]
pub struct SeqReservation {
    edge_node: OwnedEdgeNode,
    number: u8,
    previous: u8,
}

impl View for SeqReservation {
    type V = ReservationView;

    closed spec fn view(&self) -> ReservationView {
        ReservationView {
            edge_node: self.edge_node@,
            number: self.number,
            previous: self.previous,
        }
    }
}

impl SeqReservation {
    /// The number the message carries.
    #[must_use]
    pub fn number(&self) -> (number: u8)
        ensures
            number == self@.number,
    {
        self.number
    }

    /// Add 1 to the number this reservation holds, and return the new one.
    ///
    /// A birth calls this between the NBIRTH and the DBIRTH. One reservation
    /// covers both messages, so the pair carries 0 then 1 and no other
    /// publish for that edge node draws a number between them. The
    /// reservation still puts back the count the edge node held before the
    /// NBIRTH, so a refused DBIRTH leaves the count as it was.
    pub fn next(&mut self) -> (number: u8)
        ensures
            number == following(old(self)@.number),
            final(self)@ == (ReservationView { number, ..old(self)@ }),
    {
        self.number = self.number.wrapping_add(1);
        self.number
    }
}

// ---------------------------------------------------------------------------
// What holds of the counts
// ---------------------------------------------------------------------------

/// No two edge nodes share a key, because neither segment holds a `/`.
pub proof fn law_each_edge_node_has_its_own_key(a: EdgeNodeView, b: EdgeNodeView)
    requires
        ids::is_usable_pair(a),
        ids::is_usable_pair(b),
        key_of(a) == key_of(b),
    ensures
        a == b,
{
    let key = key_of(a);
    let n = a.group.len() as int;
    let m = b.group.len() as int;
    assert(key[n] == '/' && key[m] == '/');
    if n < m {
        assert(key[n] == b.group[n]);
        assert(ids::is_plain(b.group[n]));
    } else if m < n {
        assert(key[m] == a.group[m]);
        assert(ids::is_plain(a.group[m]));
    }
    assert(a.group =~= key.take(n));
    assert(b.group =~= key.take(m));
    assert(a.edge_node_id =~= key.skip(n + 1));
    assert(b.edge_node_id =~= key.skip(m + 1));
}

/// Nothing that happens to one edge node moves the lock of another: neither
/// taking its lock, nor keeping a number, nor putting one back.
pub proof fn law_edge_nodes_count_apart(
    locks: Locks,
    reservation: ReservationView,
    other: EdgeNodeView,
)
    requires
        ids::is_usable_pair(reservation.edge_node),
        ids::is_usable_pair(other),
        other != reservation.edge_node,
    ensures
        lock_of(locks_taken(locks, reservation.edge_node), other) == lock_of(locks, other),
        lock_of(locks_committed(locks, reservation), other) == lock_of(locks, other),
        lock_of(locks_released(locks, reservation), other) == lock_of(locks, other),
{
    if key_of(reservation.edge_node) == key_of(other) {
        law_each_edge_node_has_its_own_key(reservation.edge_node, other);
    }
}

/// An edge node that has not published holds 0, so its first message reads
/// 1.
pub proof fn law_an_unseen_edge_node_starts_at_one(pair: EdgeNodeView)
    ensures
        !is_held(Map::empty(), pair),
        following(count_of(Map::empty(), pair)) == 1,
{
}

/// While one publish holds a lock, the lock stays held and the count stays
/// what it was.
pub proof fn law_a_taken_lock_is_held(locks: Locks, pair: EdgeNodeView)
    ensures
        is_held(locks_taken(locks, pair), pair),
        count_of(locks_taken(locks, pair), pair) == count_of(locks, pair),
{
}

/// A publish the MQTT client took leaves its number as the count and its
/// lock free.
pub proof fn law_a_committed_number_is_the_count(locks: Locks, reservation: ReservationView)
    ensures
        count_of(locks_committed(locks, reservation), reservation.edge_node) == reservation.number,
        !is_held(locks_committed(locks, reservation), reservation.edge_node),
{
}

/// A publish that never left leaves every count as it was, so the next
/// message of that edge node carries the number the lost one drew.
pub proof fn law_a_released_number_goes_to_the_next_message(
    locks: Locks,
    reservation: ReservationView,
    pair: EdgeNodeView,
)
    requires
        ids::is_usable_pair(reservation.edge_node),
        ids::is_usable_pair(pair),
        !is_held(locks, reservation.edge_node),
        reservation.previous == count_of(locks, reservation.edge_node),
    ensures
        lock_of(locks_released(locks_taken(locks, reservation.edge_node), reservation), pair)
            == lock_of(locks, pair),
{
    if pair != reservation.edge_node {
        let taken = locks_taken(locks, reservation.edge_node);
        law_edge_nodes_count_apart(locks, reservation, pair);
        law_edge_nodes_count_apart(taken, reservation, pair);
    }
}

/// The locks after `times` messages of one edge node, each of which drew the
/// next number and was kept.
pub open spec fn locks_after(locks: Locks, pair: EdgeNodeView, times: nat) -> Locks
    decreases times,
{
    if times == 0 {
        locks
    } else {
        let before = locks_after(locks, pair, (times - 1) as nat);
        let count = count_of(before, pair);
        locks_committed(
            locks_taken(before, pair),
            ReservationView { edge_node: pair, number: following(count), previous: count },
        )
    }
}

/// The count goes round every 256 messages: after `times` messages it has
/// moved by that many, in one byte.
pub proof fn law_the_count_wraps(locks: Locks, pair: EdgeNodeView, times: nat)
    ensures
        count_of(locks_after(locks, pair, times), pair) == (count_of(locks, pair) + times) % 256,
    decreases times,
{
    if times > 0 {
        law_the_count_wraps(locks, pair, (times - 1) as nat);
    }
}

/// The number after a number is one more, in one byte: 255 is followed by 0.
pub proof fn law_the_next_number_is_one_more(count: u8)
    ensures
        following(count) == (count + 1) % 256,
{
}

/// A publish that ends with no message leaves the number before its own as
/// the count, and its lock free.
pub proof fn law_a_released_lock_holds_the_number_before(
    locks: Locks,
    reservation: ReservationView,
)
    ensures
        count_of(locks_released(locks, reservation), reservation.edge_node)
            == reservation.previous,
        !is_held(locks_released(locks, reservation), reservation.edge_node),
{
}

/// A count is read where its edge node wrote it, under the group and the edge
/// node id with a `/` between them. An edge node nothing was written for
/// holds 0, and its lock is free.
pub proof fn law_a_lock_is_found_under_its_edge_node(
    locks: Locks,
    pair: EdgeNodeView,
    lock: Lock,
)
    ensures
        key_of(pair) == pair.group + seq!['/'] + pair.edge_node_id,
        lock_of(locks.insert(key_of(pair), lock), pair) == lock,
        count_of(locks.insert(key_of(pair), lock), pair) == lock.count,
        is_held(locks.insert(key_of(pair), lock), pair) == lock.held,
        !locks.contains_key(key_of(pair)) ==> count_of(locks, pair) == 0,
        !locks.contains_key(key_of(pair)) ==> !is_held(locks, pair),
{
    assert(pair.group.push('/') =~= pair.group + seq!['/']);
}

} // verus!
