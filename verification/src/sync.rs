//! Pairing of raw records into logical events.
//!
//! A button edge arrives as a scan record followed by a key record.  The
//! synchronizer holds at most one scan record that still waits for its key
//! record, and recovers when the two arrive in the wrong order.

use vstd::prelude::*;
use crate::record::{event_of_values, LogicalEvent, RawRecord, RecordKind};

verus! {

/// The two states of the synchronizer.
#[derive(Clone, Copy, Debug, PartialEq, Eq, Structural)]
pub enum SyncState {
    /// No scan record is held.
    AwaitingPair,
    /// The scan record is held until its key record arrives.
    HaveScanAwaitingKey(RawRecord),
}

/// What feeding one record to the synchronizer led to.
#[derive(Clone, Copy, Debug, PartialEq, Eq, Structural)]
pub enum Step {
    /// The record was neither a scan record nor a key record.
    Ignored,
    /// A scan record was taken and now waits for its key record.
    ScanHeld,
    /// A key record came without a scan record before it and was dropped.
    KeyDiscarded,
    /// A scan record came while another one was waiting: the older one was
    /// dropped and the new one waits in its place.
    ScanReplaced,
    /// A key record completed the pair.
    Event(LogicalEvent),
}

/// The state after `record` is fed in state `state`.
pub open spec fn next_state(state: SyncState, record: RawRecord) -> SyncState {
    match record.spec_kind() {
        RecordKind::Scan => SyncState::HaveScanAwaitingKey(record),
        RecordKind::Key => SyncState::AwaitingPair,
        RecordKind::Other => state,
    }
}

/// What feeding `record` in state `state` leads to.
pub open spec fn step_of(state: SyncState, record: RawRecord) -> Step {
    match (state, record.spec_kind()) {
        (_, RecordKind::Other) => Step::Ignored,
        (SyncState::AwaitingPair, RecordKind::Scan) => Step::ScanHeld,
        (SyncState::AwaitingPair, RecordKind::Key) => Step::KeyDiscarded,
        (SyncState::HaveScanAwaitingKey(_), RecordKind::Scan) => Step::ScanReplaced,
        (SyncState::HaveScanAwaitingKey(scan), RecordKind::Key) => Step::Event(
            event_of_values(scan.value, record.value),
        ),
    }
}

/// The events that one step yields: one for a completed pair, none otherwise.
pub open spec fn events_of_step(step: Step) -> Seq<LogicalEvent> {
    match step {
        Step::Event(event) => seq![event],
        _ => Seq::empty(),
    }
}

/// The state after all of `records` are fed, in order, starting in `state`.
pub open spec fn state_after(state: SyncState, records: Seq<RawRecord>) -> SyncState
    decreases records.len(),
{
    if records.len() == 0 {
        state
    } else {
        state_after(next_state(state, records.first()), records.drop_first())
    }
}

/// The events yielded while all of `records` are fed, in order, starting in
/// `state`.
pub open spec fn events_of(state: SyncState, records: Seq<RawRecord>) -> Seq<LogicalEvent>
    decreases records.len(),
{
    if records.len() == 0 {
        Seq::empty()
    } else {
        events_of_step(step_of(state, records.first())) + events_of(
            next_state(state, records.first()),
            records.drop_first(),
        )
    }
}

/// Whether a requested stop may be honoured after `step`: only once a pair
/// has been completed, never in the middle of one.
pub open spec fn may_stop_after(step: Step, stop_requested: bool) -> bool {
    stop_requested && step is Event
}

/// The synchronizer: a state machine driven record by record.
#[derive(Clone, Copy, Debug)]
pub struct Synchronizer {
    state: SyncState,
}

impl View for Synchronizer {
    type V = SyncState;

    closed spec fn view(&self) -> SyncState {
        self.state
    }
}

impl Synchronizer {
    /// A synchronizer that holds no scan record.
    pub fn new() -> (sync: Synchronizer)
        ensures
            sync@ == SyncState::AwaitingPair,
    {
        Synchronizer { state: SyncState::AwaitingPair }
    }

    /// The state of the synchronizer.
    pub fn state(&self) -> (state: SyncState)
        ensures
            state == self@,
    {
        self.state
    }

    /// The scan record that waits for its key record, if there is one.
    pub fn pending(&self) -> (pending: Option<RawRecord>)
        ensures
            pending == match self@ {
                SyncState::AwaitingPair => None::<RawRecord>,
                SyncState::HaveScanAwaitingKey(scan) => Some(scan),
            },
    {
        match self.state {
            SyncState::AwaitingPair => None,
            SyncState::HaveScanAwaitingKey(scan) => Some(scan),
        }
    }

    /// Feeds one record and says what it led to.
    pub fn feed(&mut self, record: RawRecord) -> (step: Step)
        ensures
            final(self)@ == next_state(old(self)@, record),
            step == step_of(old(self)@, record),
    {
        match record.kind() {
            RecordKind::Other => Step::Ignored,
            RecordKind::Scan => {
                let step = match self.state {
                    SyncState::AwaitingPair => Step::ScanHeld,
                    SyncState::HaveScanAwaitingKey(_) => Step::ScanReplaced,
                };
                self.state = SyncState::HaveScanAwaitingKey(record);
                step
            },
            RecordKind::Key => {
                let step = match self.state {
                    SyncState::AwaitingPair => Step::KeyDiscarded,
                    SyncState::HaveScanAwaitingKey(scan) => Step::Event(
                        LogicalEvent { scancode: scan.scancode(), pressed: record.pressed() },
                    ),
                };
                self.state = SyncState::AwaitingPair;
                step
            },
        }
    }

    /// Feeds `records`, in order, up to the first one that completes a pair.
    /// Returns the event of that pair and how many records were fed; where
    /// no record completes a pair, all are fed and no event is returned.
    pub fn next_logical_event(&mut self, records: &[RawRecord]) -> (found: (
        Option<LogicalEvent>,
        usize,
    ))
        ensures
            found.1 <= records@.len(),
            final(self)@ == state_after(old(self)@, records@.take(found.1 as int)),
            match found.0 {
                Some(event) => {
                    &&& found.1 > 0
                    &&& events_of(old(self)@, records@.take(found.1 - 1)) == Seq::<
                        LogicalEvent,
                    >::empty()
                    &&& events_of(old(self)@, records@.take(found.1 as int)) == seq![event]
                },
                None => {
                    &&& found.1 == records@.len()
                    &&& events_of(old(self)@, records@) == Seq::<LogicalEvent>::empty()
                },
            },
    {
        let ghost start = self@;
        let mut i: usize = 0;
        while i < records.len()
            invariant
                i <= records.len(),
                start == old(self)@,
                self@ == state_after(start, records@.take(i as int)),
                events_of(start, records@.take(i as int)) == Seq::<LogicalEvent>::empty(),
            decreases records.len() - i,
        {
            let record = records[i];
            proof {
                lemma_feed_last(start, records@.take(i as int), record);
                assert(records@.take(i as int).push(record) =~= records@.take(i + 1));
            }
            let step = self.feed(record);
            i += 1;
            match step {
                Step::Event(event) => {
                    proof {
                        assert(events_of(start, records@.take(i as int)) =~= seq![event]);
                    }
                    return (Some(event), i);
                },
                _ => {
                    proof {
                        assert(events_of(start, records@.take(i as int)) =~= Seq::<
                            LogicalEvent,
                        >::empty());
                    }
                },
            }
        }
        proof {
            assert(records@.take(i as int) =~= records@);
        }
        (None, i)
    }

    /// Feeds all of `records`, in order, and returns the events they yield.
    pub fn feed_all(&mut self, records: &[RawRecord]) -> (events: Vec<LogicalEvent>)
        ensures
            final(self)@ == state_after(old(self)@, records@),
            events@ == events_of(old(self)@, records@),
    {
        let ghost start = self@;
        let mut events: Vec<LogicalEvent> = Vec::new();
        let mut i: usize = 0;
        while i < records.len()
            invariant
                i <= records.len(),
                self@ == state_after(start, records@.take(i as int)),
                events@ == events_of(start, records@.take(i as int)),
            decreases records.len() - i,
        {
            let record = records[i];
            proof {
                lemma_feed_last(start, records@.take(i as int), record);
                assert(records@.take(i as int).push(record) =~= records@.take(i + 1));
            }
            match self.feed(record) {
                Step::Event(event) => events.push(event),
                _ => {},
            }
            i += 1;
        }
        proof {
            assert(records@.take(i as int) =~= records@);
        }
        events
    }
}

impl Step {
    /// Whether a requested stop may be honoured after this step.
    pub fn may_stop(&self, stop_requested: bool) -> (stop: bool)
        ensures
            stop == may_stop_after(*self, stop_requested),
    {
        match self {
            Step::Event(_) => stop_requested,
            _ => false,
        }
    }
}

/// Feeding one more record at the end extends the state and the events by
/// the step that the record takes in the state reached before it.
pub proof fn lemma_feed_last(state: SyncState, records: Seq<RawRecord>, record: RawRecord)
    ensures
        state_after(state, records.push(record)) == next_state(
            state_after(state, records),
            record,
        ),
        events_of(state, records.push(record)) == events_of(state, records) + events_of_step(
            step_of(state_after(state, records), record),
        ),
    decreases records.len(),
{
    if records.len() == 0 {
        let next = next_state(state, record);
        assert(records.push(record).drop_first() =~= Seq::<RawRecord>::empty());
        assert(state_after(next, Seq::<RawRecord>::empty()) == next);
        assert(events_of(next, Seq::<RawRecord>::empty()) =~= Seq::<LogicalEvent>::empty());
        assert(events_of(state, records.push(record)) =~= events_of_step(step_of(state, record)));
    } else {
        let rest = records.drop_first();
        assert(records.push(record).drop_first() =~= rest.push(record));
        lemma_feed_last(next_state(state, records.first()), rest, record);
        assert(events_of(state, records.push(record)) =~= events_of(state, records)
            + events_of_step(step_of(state_after(state, records), record)));
    }
}

/// The scan record of the pair with index `pair`.
pub open spec fn scan_of_pair(records: Seq<RawRecord>, pair: int) -> RawRecord {
    records[2 * pair]
}

/// The key record of the pair with index `pair`.
pub open spec fn key_of_pair(records: Seq<RawRecord>, pair: int) -> RawRecord {
    records[2 * pair + 1]
}

/// A sequence in which scan records and key records alternate, starting
/// with a scan record and ending with a key record.
pub open spec fn well_paired(records: Seq<RawRecord>) -> bool {
    &&& records.len() % 2 == 0
    &&& forall|pair: int|
        0 <= pair < records.len() / 2 ==> (#[trigger] scan_of_pair(records, pair)).is_scan()
            && key_of_pair(records, pair).is_key()
}

/// One event for each pair of a well-paired sequence, made of the pair's
/// two values.
pub open spec fn events_of_pairs(records: Seq<RawRecord>) -> Seq<LogicalEvent> {
    Seq::new(
        (records.len() / 2) as nat,
        |pair: int|
            event_of_values(scan_of_pair(records, pair).value, key_of_pair(records, pair).value),
    )
}

/// A well-paired sequence yields exactly one event per pair: its scancode
/// is the scan record's value without the flag bits, its press state says
/// whether the key record's value is non-zero.  No record is left waiting.
pub proof fn lemma_one_event_per_pair(records: Seq<RawRecord>)
    requires
        well_paired(records),
    ensures
        events_of(SyncState::AwaitingPair, records) == events_of_pairs(records),
        events_of(SyncState::AwaitingPair, records).len() == records.len() / 2,
        state_after(SyncState::AwaitingPair, records) == SyncState::AwaitingPair,
    decreases records.len(),
{
    if records.len() == 0 {
        assert(events_of(SyncState::AwaitingPair, records) =~= events_of_pairs(records));
    } else {
        let scan = records[0];
        let key = records[1];
        let after_scan = records.drop_first();
        let rest = after_scan.drop_first();
        assert(scan == scan_of_pair(records, 0) && key == key_of_pair(records, 0));
        assert(well_paired(rest)) by {
            assert forall|pair: int| 0 <= pair < rest.len() / 2 implies (#[trigger] scan_of_pair(
                rest,
                pair,
            )).is_scan() && key_of_pair(rest, pair).is_key() by {
                assert(scan_of_pair(rest, pair) == scan_of_pair(records, pair + 1));
                assert(key_of_pair(rest, pair) == key_of_pair(records, pair + 1));
            }
        }
        lemma_one_event_per_pair(rest);
        assert(after_scan.first() == key);
        assert(next_state(SyncState::AwaitingPair, scan) == SyncState::HaveScanAwaitingKey(scan));
        assert(next_state(SyncState::HaveScanAwaitingKey(scan), key) == SyncState::AwaitingPair);
        assert(events_of(SyncState::HaveScanAwaitingKey(scan), after_scan) == seq![
            event_of_values(scan.value, key.value),
        ] + events_of(SyncState::AwaitingPair, rest));
        assert(state_after(SyncState::HaveScanAwaitingKey(scan), after_scan) == state_after(
            SyncState::AwaitingPair,
            rest,
        ));
        assert forall|pair: int| 0 <= pair < rest.len() / 2 implies events_of_pairs(rest)[pair]
            == events_of_pairs(records)[pair + 1] by {
            assert(scan_of_pair(rest, pair) == scan_of_pair(records, pair + 1));
            assert(key_of_pair(rest, pair) == key_of_pair(records, pair + 1));
        }
        assert(events_of(SyncState::AwaitingPair, records) =~= events_of_pairs(records));
    }
}

/// A key record that arrives while no scan record is held is dropped: it
/// yields no event, and what follows it is handled as if it had not come.
pub proof fn lemma_early_key_is_discarded(key: RawRecord, rest: Seq<RawRecord>)
    requires
        key.is_key(),
    ensures
        step_of(SyncState::AwaitingPair, key) == Step::KeyDiscarded,
        next_state(SyncState::AwaitingPair, key) == SyncState::AwaitingPair,
        events_of(SyncState::AwaitingPair, seq![key] + rest) == events_of(
            SyncState::AwaitingPair,
            rest,
        ),
        state_after(SyncState::AwaitingPair, seq![key] + rest) == state_after(
            SyncState::AwaitingPair,
            rest,
        ),
        well_paired(rest) ==> events_of(SyncState::AwaitingPair, seq![key] + rest)
            == events_of_pairs(rest),
{
    let records = seq![key] + rest;
    assert(records.first() == key);
    assert(records.drop_first() =~= rest);
    assert(events_of(SyncState::AwaitingPair, records) =~= events_of(
        SyncState::AwaitingPair,
        rest,
    ));
    if well_paired(rest) {
        lemma_one_event_per_pair(rest);
    }
}

/// Whether none of the records is a scan record or a key record.
pub open spec fn all_other(records: Seq<RawRecord>) -> bool {
    forall|i: int|
        0 <= i < records.len() ==> (#[trigger] records[i]).spec_kind() == RecordKind::Other
}

/// Records that are neither scan records nor key records are passed over:
/// they yield no event, and what follows them is handled as if they had
/// not come.
pub proof fn lemma_other_records_are_skipped(
    state: SyncState,
    others: Seq<RawRecord>,
    rest: Seq<RawRecord>,
)
    requires
        all_other(others),
    ensures
        events_of(state, others + rest) == events_of(state, rest),
        state_after(state, others + rest) == state_after(state, rest),
    decreases others.len(),
{
    if others.len() == 0 {
        assert(others + rest =~= rest);
    } else {
        let all = others + rest;
        assert(all.first() == others[0]);
        assert(all.drop_first() =~= others.drop_first() + rest);
        assert(next_state(state, others[0]) == state);
        assert(all_other(others.drop_first())) by {
            assert forall|i: int| 0 <= i < others.drop_first().len() implies (
            #[trigger] others.drop_first()[i]).spec_kind() == RecordKind::Other by {
                assert(others.drop_first()[i] == others[i + 1]);
            }
        }
        lemma_other_records_are_skipped(state, others.drop_first(), rest);
        assert(events_of(state, all) =~= events_of(state, all.drop_first()));
    }
}

/// Of two scan records with no key record between them the first is
/// dropped and the second waits in its place: whatever follows is handled
/// as if only the second had come, and a key record that follows forms its
/// event with the second scan record's value alone.
pub proof fn lemma_later_scan_replaces_earlier(
    state: SyncState,
    first: RawRecord,
    between: Seq<RawRecord>,
    second: RawRecord,
    key: RawRecord,
    rest: Seq<RawRecord>,
)
    requires
        first.is_scan(),
        all_other(between),
        second.is_scan(),
        key.is_key(),
    ensures
        step_of(state_after(state, seq![first] + between), second) == Step::ScanReplaced,
        state_after(state, seq![first] + between + seq![second])
            == SyncState::HaveScanAwaitingKey(second),
        events_of(state, seq![first] + between + seq![second] + rest) == events_of(
            state,
            seq![second] + rest,
        ),
        state_after(state, seq![first] + between + seq![second] + rest) == state_after(
            state,
            seq![second] + rest,
        ),
        events_of(state, seq![first] + between + seq![second, key]) == seq![
            event_of_values(second.value, key.value),
        ],
{
    lemma_scan_then_scan(state, first, between, second, rest);
    lemma_scan_then_scan(state, first, between, second, Seq::empty());
    lemma_scan_then_scan(state, first, between, second, seq![key]);
    let held_first = SyncState::HaveScanAwaitingKey(first);
    let held_second = SyncState::HaveScanAwaitingKey(second);
    let empty = Seq::<RawRecord>::empty();

    // up to the second scan record
    assert(seq![first] + between + seq![second] + empty =~= seq![first] + between + seq![second]);
    assert(seq![second] + empty =~= seq![second]);
    assert(seq![second].first() == second && seq![second].drop_first() =~= empty);
    assert(state_after(held_second, empty) == held_second);
    assert(state_after(state, seq![second]) == held_second);
    let before = seq![first] + between;
    assert(before + empty =~= before);
    assert(before.first() == first && before.drop_first() =~= between);
    lemma_other_records_are_skipped(held_first, between, empty);
    assert(between + empty =~= between);
    assert(state_after(held_first, empty) == held_first);
    assert(state_after(state, before) == held_first);

    // with the key record behind it
    assert(seq![first] + between + seq![second] + seq![key] =~= seq![first] + between + seq![
        second,
        key,
    ]);
    let pair = seq![second] + seq![key];
    assert(pair.first() == second && pair.drop_first() =~= seq![key]);
    assert(seq![key].first() == key && seq![key].drop_first() =~= empty);
    assert(events_of(SyncState::AwaitingPair, empty) =~= Seq::<LogicalEvent>::empty());
    assert(events_of(held_second, seq![key]) =~= seq![event_of_values(second.value, key.value)]);
    assert(events_of(state, pair) =~= events_of(held_second, seq![key]));
}

/// The core of the law above: a scan record, records of no interest and a
/// second scan record leave the synchronizer where the second one alone
/// would have left it, and yield no event.
proof fn lemma_scan_then_scan(
    state: SyncState,
    first: RawRecord,
    between: Seq<RawRecord>,
    second: RawRecord,
    rest: Seq<RawRecord>,
)
    requires
        first.is_scan(),
        all_other(between),
        second.is_scan(),
    ensures
        events_of(state, seq![first] + between + seq![second] + rest) == events_of(
            state,
            seq![second] + rest,
        ),
        state_after(state, seq![first] + between + seq![second] + rest) == state_after(
            state,
            seq![second] + rest,
        ),
{
    let held_first = SyncState::HaveScanAwaitingKey(first);
    let held_second = SyncState::HaveScanAwaitingKey(second);
    let short = seq![second] + rest;
    let long = seq![first] + between + seq![second] + rest;
    assert(long.first() == first);
    assert(long.drop_first() =~= between + short);
    assert(short.first() == second && short.drop_first() =~= rest);
    assert(next_state(state, first) == held_first);
    assert(next_state(held_first, second) == held_second);
    assert(next_state(state, second) == held_second);
    lemma_other_records_are_skipped(held_first, between, short);
    assert(events_of(held_first, short) =~= events_of(held_second, rest));
    assert(events_of(state, short) =~= events_of(held_second, rest));
    assert(events_of(state, long) =~= events_of(held_first, between + short));
    assert(state_after(held_first, short) == state_after(held_second, rest));
    assert(state_after(state, short) == state_after(held_second, rest));
    assert(state_after(state, long) == state_after(held_first, between + short));
}

} // verus!
