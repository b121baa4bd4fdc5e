//! The `seq` counts.

use sparkplug_mqtt::sparkplug::sequence::SeqCounters;
use sparkplug_mqtt::{EdgeNodeId, GroupId};

fn group(id: &str) -> GroupId<'_> {
    GroupId::new(id).expect("the test uses a usable group id")
}

fn node(id: &str) -> EdgeNodeId<'_> {
    EdgeNodeId::new(id).expect("the test uses a usable edge node id")
}

/// Draw one number and keep it, the way a publish the client takes does.
fn drawn(counters: &mut SeqCounters, group: GroupId<'_>, node: EdgeNodeId<'_>) -> u8 {
    let reservation = counters
        .reserve(group, node)
        .expect("nothing holds the lock");
    let count = reservation.number();
    counters.commit(reservation);
    count
}

/// Set one count back to 0 and keep it, the way an NBIRTH does.
fn restarted(counters: &mut SeqCounters, group: GroupId<'_>, node: EdgeNodeId<'_>) -> u8 {
    let reservation = counters
        .reserve_reset(group, node)
        .expect("nothing holds the lock");
    let count = reservation.number();
    counters.commit(reservation);
    count
}

#[test]
fn the_first_message_of_an_unseen_edge_node_reads_one() {
    let mut counters = SeqCounters::new();
    assert_eq!(drawn(&mut counters, group("PlantFloor"), node("edge1")), 1);
}

#[test]
fn each_message_adds_one() {
    let mut counters = SeqCounters::default();
    let mut counts = Vec::new();
    for _ in 0..3 {
        counts.push(drawn(&mut counters, group("PlantFloor"), node("edge1")));
    }
    assert_eq!(counts, vec![1, 2, 3]);
}

#[test]
fn a_reset_starts_the_count_at_zero() {
    let mut counters = SeqCounters::new();
    let _ = drawn(&mut counters, group("PlantFloor"), node("edge1"));
    assert_eq!(
        restarted(&mut counters, group("PlantFloor"), node("edge1")),
        0
    );
    assert_eq!(
        drawn(&mut counters, group("PlantFloor"), node("edge1")),
        1,
        "the message after an NBIRTH reads 1"
    );
}

#[test]
fn each_edge_node_holds_its_own_count() {
    let mut counters = SeqCounters::new();
    let _ = drawn(&mut counters, group("PlantFloor"), node("edge1"));
    let _ = drawn(&mut counters, group("PlantFloor"), node("edge1"));

    assert_eq!(
        drawn(&mut counters, group("PlantFloor"), node("edge2")),
        1,
        "a second edge node keeps its own count"
    );
    assert_eq!(drawn(&mut counters, group("PlantFloor"), node("edge1")), 3);
}

#[test]
fn the_same_node_id_in_two_groups_counts_apart() {
    let mut counters = SeqCounters::new();
    let _ = drawn(&mut counters, group("PlantFloor"), node("edge1"));
    let _ = drawn(&mut counters, group("PlantFloor"), node("edge1"));

    assert_eq!(
        drawn(&mut counters, group("Boiler"), node("edge1")),
        1,
        "a node id in another group names another edge node"
    );
    assert_eq!(drawn(&mut counters, group("PlantFloor"), node("edge1")), 3);
}

#[test]
fn a_reset_moves_one_edge_node_only() {
    let mut counters = SeqCounters::new();
    let _ = drawn(&mut counters, group("PlantFloor"), node("edge1"));
    let _ = drawn(&mut counters, group("PlantFloor"), node("edge2"));
    let _ = drawn(&mut counters, group("Boiler"), node("edge1"));
    let _ = restarted(&mut counters, group("PlantFloor"), node("edge1"));

    assert_eq!(
        drawn(&mut counters, group("PlantFloor"), node("edge2")),
        2,
        "an NBIRTH from one edge node must not restart another"
    );
    assert_eq!(
        drawn(&mut counters, group("Boiler"), node("edge1")),
        2,
        "an NBIRTH in one group must not restart the same node id in another"
    );
}

#[test]
fn the_count_wraps_from_255_to_zero_without_panicking() {
    let mut counters = SeqCounters::new();
    assert_eq!(
        restarted(&mut counters, group("PlantFloor"), node("edge1")),
        0
    );

    let mut last = 0;
    for _ in 0..256 {
        last = drawn(&mut counters, group("PlantFloor"), node("edge1"));
    }

    assert_eq!(
        last, 0,
        "the count holds one byte, so it wraps from 255 to 0"
    );
}

#[test]
fn a_dropped_reservation_leaves_its_number_for_the_next_message() {
    let mut counters = SeqCounters::new();
    let _ = drawn(&mut counters, group("PlantFloor"), node("edge1"));

    let reservation = counters
        .reserve(group("PlantFloor"), node("edge1"))
        .expect("nothing holds the lock");
    counters.release(reservation);

    assert_eq!(
        drawn(&mut counters, group("PlantFloor"), node("edge1")),
        2,
        "a message that never left must leave its number for the next one"
    );
}

#[test]
fn one_edge_node_does_not_wait_behind_another() {
    let mut counters = SeqCounters::new();
    let held = counters
        .reserve(group("PlantFloor"), node("edge1"))
        .expect("nothing holds the lock");

    let other = counters.reserve(group("PlantFloor"), node("edge2"));
    assert!(
        other.is_some(),
        "each edge node holds its own lock, so one slow publish must not \
         stop a publish for another edge node"
    );
    counters.release(held);
}

#[test]
fn a_held_lock_stops_a_second_publish_for_the_same_edge_node() {
    let mut counters = SeqCounters::new();
    let held = counters
        .reserve(group("PlantFloor"), node("edge1"))
        .expect("nothing holds the lock");
    assert!(counters
        .reserve(group("PlantFloor"), node("edge1"))
        .is_none());
    assert!(counters
        .reserve_reset(group("PlantFloor"), node("edge1"))
        .is_none());
    assert_eq!(counters.count(group("PlantFloor"), node("edge1")), 0);

    counters.commit(held);
    assert_eq!(counters.count(group("PlantFloor"), node("edge1")), 1);
    assert!(counters
        .reserve(group("PlantFloor"), node("edge1"))
        .is_some());
}

#[test]
fn one_reservation_covers_two_births() {
    let mut counters = SeqCounters::new();
    let _ = drawn(&mut counters, group("PlantFloor"), node("edge1"));
    let _ = drawn(&mut counters, group("PlantFloor"), node("edge1"));

    let mut births = counters
        .reserve_reset(group("PlantFloor"), node("edge1"))
        .expect("nothing holds the lock");
    assert_eq!(births.number(), 0);
    assert_eq!(births.next(), 1);
    assert_eq!(births.number(), 1);
    counters.release(births);
    assert_eq!(
        drawn(&mut counters, group("PlantFloor"), node("edge1")),
        3,
        "births that never left must leave the count as it was"
    );
}
