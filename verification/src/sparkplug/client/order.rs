//! What a host application reads of one edge node, over a whole run of
//! publishes.
//!
//! Publishes for different edge nodes overlap as they like. Publishes for
//! one edge node do not, because each holds the lock from the draw to the
//! end, and a birth holds it over both of its messages. So the numbers that
//! reach the MQTT client count up with no gap and no repeat, whatever was
//! refused or cancelled in between. The one exception is a birth whose
//! NBIRTH was taken and whose DBIRTH was not: the count then goes back to
//! where the NBIRTH found it.

use crate::sparkplug::client::publish;
use crate::sparkplug::sequence::{self, Locks, ReservationView};
use crate::sparkplug::topic::ids::{self, EdgeNodeView};
use crate::sparkplug::topic::TopicView;
use crate::sparkplug::types::MessageType;
use vstd::prelude::*;

verus! {

/// One turn of a run.
pub enum Turn {
    /// A publish on a topic starts, unless its edge node has one under way.
    Begin(TopicView),
    /// The MQTT client took the NBIRTH that an edge node has under way, and
    /// its birth goes on to the DBIRTH.
    Continue(EdgeNodeView),
    /// The publish that an edge node has under way ends, and the flag says
    /// whether the MQTT client took its message.
    End(EdgeNodeView, bool),
}

/// A publish under way.
pub struct UnderWay {
    pub message_type: MessageType,
    pub reservation: ReservationView,
    /// Whether this is the DBIRTH of a birth whose NBIRTH was taken.
    pub goes_on: bool,
}

/// What a reader that watches one edge node notes down.
pub enum Note {
    /// The MQTT client took a message with this number.
    Taken(MessageType, u8),
    /// The DBIRTH of a birth was refused or cancelled, and the count went
    /// back to this number.
    WentBack(u8),
}

/// A run so far, as seen by a reader that watches one edge node.
pub struct Run {
    pub locks: Locks,
    /// What each publish under way holds.
    pub under_way: Map<EdgeNodeView, UnderWay>,
    /// What the reader noted down, in order.
    pub notes: Seq<Note>,
}

/// The notes, with one more if it is about the edge node that is watched.
pub open spec fn noted(
    notes: Seq<Note>,
    pair: EdgeNodeView,
    watched: EdgeNodeView,
    note: Note,
) -> Seq<Note> {
    if pair == watched {
        notes.push(note)
    } else {
        notes
    }
}

/// A run after a publish on a topic starts.
pub open spec fn after_begin(run: Run, topic: TopicView) -> Run {
    let pair = publish::pair_of(topic);
    if sequence::is_held(run.locks, pair) {
        run
    } else {
        let begun = UnderWay {
            message_type: topic.message_type,
            reservation: publish::drawn(run.locks, topic),
            goes_on: false,
        };
        Run {
            locks: sequence::locks_taken(run.locks, pair),
            under_way: run.under_way.insert(pair, begun),
            ..run
        }
    }
}

/// A run after a birth goes on from its NBIRTH to its DBIRTH. The lock stays
/// held, and the reservation moves on by one.
pub open spec fn after_continue(run: Run, pair: EdgeNodeView, watched: EdgeNodeView) -> Run {
    if !run.under_way.contains_key(pair) || run.under_way[pair].message_type
        != MessageType::NBIRTH {
        run
    } else {
        let nbirth = run.under_way[pair].reservation;
        let dbirth = UnderWay {
            message_type: MessageType::DBIRTH,
            reservation: ReservationView {
                number: sequence::following(nbirth.number),
                ..nbirth
            },
            goes_on: true,
        };
        Run {
            under_way: run.under_way.insert(pair, dbirth),
            notes: noted(
                run.notes,
                pair,
                watched,
                Note::Taken(MessageType::NBIRTH, nbirth.number),
            ),
            ..run
        }
    }
}

/// A run after the publish of an edge node ends.
pub open spec fn after_end(
    run: Run,
    pair: EdgeNodeView,
    taken: bool,
    watched: EdgeNodeView,
) -> Run {
    if !run.under_way.contains_key(pair) {
        run
    } else {
        let ended = run.under_way[pair];
        Run {
            locks: if taken {
                sequence::locks_committed(run.locks, ended.reservation)
            } else {
                sequence::locks_released(run.locks, ended.reservation)
            },
            under_way: run.under_way.remove(pair),
            notes: if taken {
                noted(
                    run.notes,
                    pair,
                    watched,
                    Note::Taken(ended.message_type, ended.reservation.number),
                )
            } else if ended.goes_on {
                noted(run.notes, pair, watched, Note::WentBack(ended.reservation.previous))
            } else {
                run.notes
            },
        }
    }
}

/// A run after one more turn.
pub open spec fn after_turn(run: Run, turn: Turn, watched: EdgeNodeView) -> Run {
    match turn {
        Turn::Begin(topic) => after_begin(run, topic),
        Turn::Continue(pair) => after_continue(run, pair, watched),
        Turn::End(pair, taken) => after_end(run, pair, taken, watched),
    }
}

/// A run after every turn.
pub open spec fn after_turns(start: Locks, turns: Seq<Turn>, watched: EdgeNodeView) -> Run
    decreases turns.len(),
{
    if turns.len() == 0 {
        Run { locks: start, under_way: Map::empty(), notes: seq![] }
    } else {
        after_turn(after_turns(start, turns.drop_last(), watched), turns.last(), watched)
    }
}

/// The number that a message carries after one that carried `previous`.
pub open spec fn number_after(message_type: MessageType, previous: u8) -> u8 {
    if message_type == MessageType::NBIRTH {
        0
    } else {
        sequence::following(previous)
    }
}

/// The number that counts before note `i`.
pub open spec fn number_before(first: u8, notes: Seq<Note>, i: int) -> u8 {
    if i <= 0 {
        first
    } else {
        match notes[i - 1] {
            Note::Taken(_, number) => number,
            Note::WentBack(number) => number,
        }
    }
}

/// Whether notes count up from `first` with no gap and no repeat.
///
/// An NBIRTH carries 0, and every other message carries one more than the
/// number before it. The count goes back only after an NBIRTH, and then to
/// the number before that NBIRTH.
pub open spec fn is_in_order(first: u8, notes: Seq<Note>) -> bool {
    forall|i: int|
        0 <= i < notes.len() ==> match #[trigger] notes[i] {
            Note::Taken(message_type, number) => number == number_after(
                message_type,
                number_before(first, notes, i),
            ),
            Note::WentBack(number) => {
                &&& i > 0
                &&& notes[i - 1] == Note::Taken(MessageType::NBIRTH, 0)
                &&& number == number_before(first, notes, i - 1)
            },
        }
}

/// Whether every publish of a run is on a topic that can carry metrics.
pub open spec fn carry_metrics(turns: Seq<Turn>) -> bool {
    forall|i: int|
        0 <= i < turns.len() ==> ((#[trigger] turns[i]) matches Turn::Begin(topic)
            ==> publish::carries_metrics(topic))
}

/// The messages of an edge node reach the MQTT client in the order of their
/// numbers, with no gap and no repeat, however publishes and births overlap
/// and however many are refused or cancelled. Only a birth whose DBIRTH did
/// not go out puts the count back, to where its NBIRTH found it.
pub proof fn law_a_host_reads_no_gap(start: Locks, turns: Seq<Turn>, watched: EdgeNodeView)
    requires
        ids::is_usable_pair(watched),
        carry_metrics(turns),
    ensures
        is_in_order(
            sequence::count_of(start, watched),
            after_turns(start, turns, watched).notes,
        ),
{
    lemma_run_is_sound(start, turns, watched);
}

/// What the watched edge node holds, in every run.
spec fn is_watched_sound(first: u8, run: Run, watched: EdgeNodeView) -> bool {
    let count = sequence::count_of(run.locks, watched);
    let len = run.notes.len() as int;
    if run.under_way.contains_key(watched) {
        let held = run.under_way[watched];
        &&& sequence::is_held(run.locks, watched)
        &&& held.reservation.previous == count
        &&& if held.goes_on {
            &&& held.message_type == MessageType::DBIRTH
            &&& held.reservation.number == 1
            &&& len > 0
            &&& run.notes[len - 1] == Note::Taken(MessageType::NBIRTH, 0)
            &&& count == number_before(first, run.notes, len - 1)
        } else {
            &&& held.reservation.number == number_after(held.message_type, count)
            &&& count == number_before(first, run.notes, len)
        }
    } else {
        count == number_before(first, run.notes, len)
    }
}

/// What every run keeps.
spec fn is_sound(start: Locks, run: Run, watched: EdgeNodeView) -> bool {
    let first = sequence::count_of(start, watched);
    &&& is_in_order(first, run.notes)
    &&& is_watched_sound(first, run, watched)
    &&& forall|pair: EdgeNodeView| #[trigger]
        run.under_way.contains_key(pair) ==> ids::is_usable_pair(pair)
            && run.under_way[pair].reservation.edge_node == pair
}

proof fn lemma_run_is_sound(start: Locks, turns: Seq<Turn>, watched: EdgeNodeView)
    requires
        ids::is_usable_pair(watched),
        carry_metrics(turns),
    ensures
        is_sound(start, after_turns(start, turns, watched), watched),
    decreases turns.len(),
{
    if turns.len() > 0 {
        let before = turns.drop_last();
        assert forall|i: int| 0 <= i < before.len() implies ((#[trigger] before[i]) matches
            Turn::Begin(topic) ==> publish::carries_metrics(topic)) by {
            assert(before[i] == turns[i]);
        }
        lemma_run_is_sound(start, before, watched);
        assert(turns[turns.len() - 1] == turns.last());
        lemma_turn_is_sound(start, after_turns(start, before, watched), turns.last(), watched);
    }
}

/// Notes stay in order when the next one is.
proof fn lemma_one_more_note(first: u8, notes: Seq<Note>, note: Note)
    requires
        is_in_order(first, notes),
        match note {
            Note::Taken(message_type, number) => number == number_after(
                message_type,
                number_before(first, notes, notes.len() as int),
            ),
            Note::WentBack(number) => {
                &&& notes.len() > 0
                &&& notes[notes.len() - 1] == Note::Taken(MessageType::NBIRTH, 0)
                &&& number == number_before(first, notes, notes.len() - 1)
            },
        },
    ensures
        is_in_order(first, notes.push(note)),
{
    let more = notes.push(note);
    assert forall|i: int| 0 <= i < more.len() implies match #[trigger] more[i] {
        Note::Taken(message_type, number) => number == number_after(
            message_type,
            number_before(first, more, i),
        ),
        Note::WentBack(number) => {
            &&& i > 0
            &&& more[i - 1] == Note::Taken(MessageType::NBIRTH, 0)
            &&& number == number_before(first, more, i - 1)
        },
    } by {
        assert(number_before(first, more, i) == number_before(first, notes, i));
        assert(number_before(first, more, i - 1) == number_before(first, notes, i - 1));
        if i < notes.len() {
            assert(more[i] == notes[i]);
        }
    }
}

proof fn lemma_turn_is_sound(start: Locks, run: Run, turn: Turn, watched: EdgeNodeView)
    requires
        ids::is_usable_pair(watched),
        is_sound(start, run, watched),
        turn matches Turn::Begin(topic) ==> publish::carries_metrics(topic),
    ensures
        is_sound(start, after_turn(run, turn, watched), watched),
{
    let first = sequence::count_of(start, watched);
    match turn {
        Turn::Begin(topic) => {
            let reservation = publish::drawn(run.locks, topic);
            if reservation.edge_node != watched {
                sequence::law_edge_nodes_count_apart(run.locks, reservation, watched);
            }
        },
        Turn::Continue(pair) => {
            if run.under_way.contains_key(pair) && run.under_way[pair].message_type
                == MessageType::NBIRTH && pair == watched {
                let note = Note::Taken(
                    MessageType::NBIRTH,
                    run.under_way[pair].reservation.number,
                );
                lemma_one_more_note(first, run.notes, note);
                let more = run.notes.push(note);
                assert(number_before(first, more, more.len() - 1) == number_before(
                    first,
                    run.notes,
                    run.notes.len() as int,
                ));
            }
        },
        Turn::End(pair, taken) => {
            if run.under_way.contains_key(pair) {
                let ended = run.under_way[pair];
                if pair != watched {
                    sequence::law_edge_nodes_count_apart(run.locks, ended.reservation, watched);
                } else if taken {
                    lemma_one_more_note(
                        first,
                        run.notes,
                        Note::Taken(ended.message_type, ended.reservation.number),
                    );
                } else if ended.goes_on {
                    lemma_one_more_note(
                        first,
                        run.notes,
                        Note::WentBack(ended.reservation.previous),
                    );
                }
            }
        },
    }
}

} // verus!
