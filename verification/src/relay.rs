//! The event relay: for each event of the sidecar process, the log record it
//! owes, the step that decides it, and the drain of a whole delivered
//! sequence.

use vstd::prelude::*;

use crate::event::{EventModel, LogLevel, LogRecord, ProcessEvent, RecordModel};
use crate::text::{decimal_of_int, decode_lossy, i32_decimal, lossy_decode};

verus! {

/// Tag put in front of every forwarded output chunk.
pub open spec fn output_tag() -> Seq<char> {
    "[sidecar] "@
}

/// Prefix of a forwarded failure message.
pub open spec fn error_prefix() -> Seq<char> {
    "[sidecar] error: "@
}

/// Prefix of the record that announces the child's termination.
pub open spec fn terminated_prefix() -> Seq<char> {
    "[sidecar] terminated with status: "@
}

/// The record the relay owes for one event: output chunks are decoded lossily
/// and tagged, failure messages and the termination status are prefixed, and
/// unhandled events owe nothing.
pub open spec fn record_for(event: EventModel) -> Option<RecordModel> {
    match event {
        EventModel::Stdout(bytes) => Some(
            RecordModel { level: LogLevel::Info, message: output_tag() + lossy_decode(bytes) },
        ),
        EventModel::Stderr(bytes) => Some(
            RecordModel { level: LogLevel::Error, message: output_tag() + lossy_decode(bytes) },
        ),
        EventModel::Error(text) => Some(
            RecordModel { level: LogLevel::Error, message: error_prefix() + text },
        ),
        EventModel::Terminated(status) => Some(
            RecordModel {
                level: LogLevel::Info,
                message: terminated_prefix() + decimal_of_int(status),
            },
        ),
        EventModel::Other => None,
    }
}

/// State of the relay: it runs until it has seen a termination event, and is
/// ended for good afterwards.
#[derive(Clone, Copy, PartialEq, Eq, Structural, Debug)]
pub enum RelayState {
    Running,
    Ended,
}

/// The model of an optional record.
pub open spec fn option_record_view(record: Option<LogRecord>) -> Option<RecordModel> {
    match record {
        Some(r) => Some(r@),
        None => None,
    }
}

/// One decision of the relay: from its state and the next event to the state
/// after the event and the record owed for it. An ended relay owes nothing,
/// whatever else the channel still holds; a running one owes exactly the
/// record of `record_for`, and ends exactly on a termination event.
pub fn relay_step(state: RelayState, event: &ProcessEvent) -> (outcome: (
    RelayState,
    Option<LogRecord>,
))
    ensures
        state is Ended ==> outcome.0 is Ended && outcome.1 is None,
        state is Running ==> option_record_view(outcome.1) == record_for(event@),
        state is Running ==> (outcome.0 is Ended <==> event@ is Terminated),
{
    match state {
        RelayState::Ended => (RelayState::Ended, None),
        RelayState::Running => match event {
            ProcessEvent::Stdout(bytes) => {
                let text = decode_lossy(bytes);
                let message = String::from_str("[sidecar] ").concat(text.as_str());
                (RelayState::Running, Some(LogRecord { level: LogLevel::Info, message }))
            },
            ProcessEvent::Stderr(bytes) => {
                let text = decode_lossy(bytes);
                let message = String::from_str("[sidecar] ").concat(text.as_str());
                (RelayState::Running, Some(LogRecord { level: LogLevel::Error, message }))
            },
            ProcessEvent::Error(text) => {
                let message = String::from_str("[sidecar] error: ").concat(text.as_str());
                (RelayState::Running, Some(LogRecord { level: LogLevel::Error, message }))
            },
            ProcessEvent::Terminated(status) => {
                let digits = i32_decimal(*status);
                let message = String::from_str("[sidecar] terminated with status: ").concat(
                    digits.as_str(),
                );
                (RelayState::Ended, Some(LogRecord { level: LogLevel::Info, message }))
            },
            ProcessEvent::Other => (RelayState::Running, None),
        },
    }
}

/// The models of a delivered sequence of events.
pub open spec fn event_views(events: Seq<ProcessEvent>) -> Seq<EventModel> {
    events.map(|i: int, e: ProcessEvent| e@)
}

/// The models of a sequence of records.
pub open spec fn record_views(records: Seq<LogRecord>) -> Seq<RecordModel> {
    records.map(|i: int, r: LogRecord| r@)
}

/// The records the relay owes for a delivered sequence: one record per event
/// that owes one, in delivery order, and nothing past the first termination
/// event.
pub open spec fn relay_log(events: Seq<EventModel>) -> Seq<RecordModel>
    decreases events.len(),
{
    if events.len() == 0 {
        Seq::empty()
    } else {
        let head_records = match record_for(events.first()) {
            Some(r) => seq![r],
            None => Seq::empty(),
        };
        if events.first() is Terminated {
            head_records
        } else {
            head_records + relay_log(events.drop_first())
        }
    }
}

/// Drains a delivered sequence of events in order: emits the record owed for
/// each event, stops at the first termination event, and ends gracefully when
/// the sequence ends without one.
pub fn relay_run(events: &Vec<ProcessEvent>) -> (log: Vec<LogRecord>)
    ensures
        record_views(log@) == relay_log(event_views(events@)),
{
    let ghost delivered = event_views(events@);
    let mut log: Vec<LogRecord> = Vec::new();
    let mut state = RelayState::Running;
    let mut i: usize = 0;
    proof {
        assert(record_views(log@) =~= Seq::<RecordModel>::empty());
        assert(delivered.skip(0) =~= delivered);
        assert(Seq::<RecordModel>::empty() + relay_log(delivered) =~= relay_log(delivered));
    }
    while i < events.len() && state == RelayState::Running
        invariant
            i <= events.len(),
            delivered == event_views(events@),
            state is Running ==> relay_log(delivered) == record_views(log@) + relay_log(
                delivered.skip(i as int),
            ),
            state is Ended ==> relay_log(delivered) == record_views(log@),
        decreases events.len() - i,
    {
        let ghost log_before = log@;
        let ghost rest = delivered.skip(i as int);
        let (next, record) = relay_step(state, &events[i]);
        proof {
            assert(rest.first() == events@[i as int]@);
            assert(rest.drop_first() =~= delivered.skip(i as int + 1));
        }
        match record {
            Some(r) => {
                log.push(r);
                proof {
                    assert(record_views(log@) =~= record_views(log_before) + seq![r@]);
                }
            },
            None => {},
        }
        state = next;
        i = i + 1;
    }
    proof {
        if state is Running {
            assert(delivered.skip(events@.len() as int) =~= Seq::<EventModel>::empty());
            assert(record_views(log@) + Seq::<RecordModel>::empty() =~= record_views(log@));
        }
    }
    log
}

/// Every stream chunk is forwarded, without loss and in delivery order: a
/// delivered sequence made only of standard-output and standard-error chunks
/// yields exactly one record per event, and the record at each position is
/// the one owed for the event at that position.
pub proof fn lemma_one_record_per_stream_event(events: Seq<EventModel>)
    requires
        forall|i: int| 0 <= i < events.len() ==> (events[i] is Stdout || events[i] is Stderr),
    ensures
        relay_log(events).len() == events.len(),
        forall|i: int|
            0 <= i < events.len() ==> relay_log(events)[i] == record_for(events[i]).unwrap(),
    decreases events.len(),
{
    if events.len() > 0 {
        let tail = events.drop_first();
        assert(forall|i: int| 0 <= i < tail.len() ==> tail[i] == events[i + 1]);
        lemma_one_record_per_stream_event(tail);
        assert(forall|i: int|
            0 <= i < events.len() ==> relay_log(events)[i] == record_for(events[i]).unwrap()) by {
            assert(relay_log(events)[0] == record_for(events[0]).unwrap());
            assert(forall|i: int|
                1 <= i < events.len() ==> relay_log(events)[i] == relay_log(tail)[i - 1]);
        }
    }
}

/// After the first termination event nothing more is logged: the records for
/// a delivered sequence equal the records for its prefix ending at that
/// event, whatever events erroneously follow it.
pub proof fn lemma_nothing_after_terminated(events: Seq<EventModel>, i: int)
    requires
        0 <= i < events.len(),
        events[i] is Terminated,
        forall|j: int| 0 <= j < i ==> !(events[j] is Terminated),
    ensures
        relay_log(events) == relay_log(events.take(i + 1)),
    decreases i,
{
    let prefix = events.take(i + 1);
    assert(prefix.first() == events.first());
    if i == 0 {
        assert(relay_log(events) =~= relay_log(prefix));
    } else {
        let tail = events.drop_first();
        assert(tail[i - 1] is Terminated);
        assert(forall|j: int| 0 <= j < i - 1 ==> tail[j] == events[j + 1]);
        lemma_nothing_after_terminated(tail, i - 1);
        assert(prefix.drop_first() =~= tail.take(i));
        assert(relay_log(events) =~= relay_log(prefix));
    }
}

/// All the records a delivered sequence owes, one event after another, with
/// no stopping rule.
pub open spec fn records_of_all(events: Seq<EventModel>) -> Seq<RecordModel>
    decreases events.len(),
{
    if events.len() == 0 {
        Seq::empty()
    } else {
        (match record_for(events.first()) {
            Some(r) => seq![r],
            None => Seq::empty(),
        }) + records_of_all(events.drop_first())
    }
}

/// A channel that closes without a termination event is drained gracefully:
/// the relay ends without error and forwards the record owed for every event,
/// cutting nothing short.
pub proof fn lemma_graceful_close(events: Seq<EventModel>)
    requires
        forall|i: int| 0 <= i < events.len() ==> !(events[i] is Terminated),
    ensures
        relay_log(events) == records_of_all(events),
    decreases events.len(),
{
    if events.len() > 0 {
        let tail = events.drop_first();
        assert(forall|i: int| 0 <= i < tail.len() ==> tail[i] == events[i + 1]);
        lemma_graceful_close(tail);
    }
}

} // verus!
