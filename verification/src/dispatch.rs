//! Ordered replay of one run's output stream.
//!
//! The process-supervision collaborator outside the library reads the
//! spawned driver's output line by line and forwards each decoded
//! message, in arrival order, on the run's own channel; at end of
//! stream it forwards the terminal marker.  This module is that whole
//! protocol on a captured stream: it fixes the exact message sequence a
//! run delivers — one message per line, in order, and `Finished` last,
//! whether or not the raw stream ever contained a `finished` line.

use vstd::prelude::*;

use crate::messages::{decode_line_spec, CargoTestMessage, MsgModel};

verus! {

/// The views of a run's raw output lines, in arrival order.
pub open spec fn line_views(lines: Seq<String>) -> Seq<Seq<char>> {
    Seq::new(lines.len(), |i: int| lines[i]@)
}

/// The models of a run's delivered messages, in delivery order.
pub open spec fn msg_views(events: Seq<CargoTestMessage>) -> Seq<MsgModel> {
    Seq::new(events.len(), |i: int| events[i]@)
}

/// The whole message sequence of one run: each line decoded in arrival
/// order, then the synthetic terminal marker.
pub open spec fn events_spec(lines: Seq<Seq<char>>) -> Seq<MsgModel> {
    Seq::new(
        lines.len() + 1,
        |i: int|
            if i < lines.len() {
                decode_line_spec(lines[i])
            } else {
                MsgModel::Finished
            },
    )
}

/// The message sequence of one whole run over its raw output lines.
pub fn run_events(lines: &Vec<String>) -> (events: Vec<CargoTestMessage>)
    ensures
        msg_views(events@) == events_spec(line_views(lines@)),
        events@.len() == lines@.len() + 1,
        forall|i: int|
            0 <= i < lines@.len() ==> #[trigger] events@[i]@ == decode_line_spec(lines@[i]@),
        events@.last()@ == MsgModel::Finished,
{
    let mut events: Vec<CargoTestMessage> = Vec::new();
    let mut accum = String::new();
    let mut i: usize = 0;
    while i < lines.len()
        invariant
            i <= lines.len(),
            events@.len() == i,
            forall|k: int|
                0 <= k < i ==> #[trigger] events@[k]@ == decode_line_spec(lines@[k]@),
        decreases lines.len() - i,
    {
        let msg = CargoTestMessage::from_line(lines[i].as_str(), &mut accum);
        events.push(msg);
        i = i + 1;
    }
    events.push(CargoTestMessage::from_eof());
    proof {
        assert(msg_views(events@) =~= events_spec(line_views(lines@)));
    }
    events
}

/// Runs do not interfere: a run's message sequence is a function of its
/// own raw lines alone, so concurrently executing runs — each with its
/// own process, accumulator and channel — deliver the same independent,
/// ordered sequences they would deliver alone.
pub proof fn lemma_runs_independent(lines_a: Seq<Seq<char>>, lines_b: Seq<Seq<char>>)
    requires
        lines_a == lines_b,
    ensures
        events_spec(lines_a) == events_spec(lines_b),
{
}

} // verus!
