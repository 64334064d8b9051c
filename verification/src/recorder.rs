//! The recorder loop as a state machine.
//!
//! The recorder owns what is carried from one tick to the next: the height
//! and the snapshot of the previous tick, and the second at which it fired.
//! It performs no input or output itself. Its driver hands it one event at a
//! time and carries out the action that comes back:
//!
//! 1. the clock is read; off a cadence boundary, or within the second of the
//!    last tick, the recorder idles, otherwise it asks for the chain height;
//! 2. the height arrives; where it differs from the previous one the previous
//!    snapshot is dropped and the tick is a full dump, and the recorder asks
//!    for the mempool;
//! 3. the mempool arrives; the recorder computes the delta against the
//!    previous snapshot, names the file, rotates its state and hands out the
//!    table to write.
//!
//! A driver whose fetch or write fails stops, and steps the recorder no
//! further: nothing is retried and no tick is skipped over.

use crate::calendar::{utc_date, utc_date_text};
use crate::delta::{added_row, delta_rows, lemma_delta_from_empty_is_full, DeltaRow, DeltaTable};
use crate::mempool::{MempoolEntry, MempoolSnapshot};
use crate::output::{path_text, snapshot_path, Mode};
use crate::record::Record;
use crate::scheduler::{should_tick, tick_due};
use crate::txid::TransactionId;
use vstd::prelude::*;

verus! {

/// How long the driver idles before it reads the clock again, in
/// milliseconds.
pub const IDLE_MILLIS: u64 = 50;

/// What the recorder is waiting for.
#[derive(Debug, PartialEq, Eq)]
pub enum Phase {
    /// No tick is under way: the next event is a reading of the clock.
    Waiting,
    /// The tick of the second `now`, on the day `date`, has begun and waits
    /// for the height.
    AwaitingHeight { now: i64, date: String },
    /// The tick knows its height and waits for the pool.
    AwaitingMempool { now: i64, date: String, height: u64 },
}

/// Why the recorder refused an event.
#[derive(Clone, Copy, Debug, PartialEq, Eq, Structural)]
pub enum Fault {
    /// The clock shows a time whose day the calendar cannot name.
    ClockOutOfRange,
    /// The event does not answer what the recorder asked for.
    UnexpectedEvent,
}

/// What the driver tells the recorder.
#[derive(Debug, PartialEq, Eq)]
pub enum Event {
    /// The clock was read: it shows the unix time `now`, in whole seconds,
    /// and `date` is the text of that day, if the calendar names it.
    /// `Event::clock` makes this event from the time alone.
    Clock { now: i64, date: Option<String> },
    /// The node answered with the height of its best block.
    Height { height: u64 },
    /// The node answered with the contents of its mempool.
    Mempool { snapshot: MempoolSnapshot },
}

/// What the recorder asks of the driver.
#[derive(Debug, PartialEq, Eq)]
pub enum Action {
    /// Idle for `IDLE_MILLIS`, then read the clock.
    Idle,
    /// Fetch the chain height.
    FetchHeight,
    /// Fetch the mempool; the tick will be written in `mode`.
    FetchMempool { mode: Mode },
    /// Write `table` to the file at `path`, then read the clock.
    Write { mode: Mode, table: DeltaTable, path: String },
    /// Stop: the event could not be handled, and nothing has changed.
    Fail { fault: Fault },
}

/// A phase as contracts see it: the day is its text.
pub enum PhaseModel {
    /// No tick is under way.
    Waiting,
    /// The tick of the second `now` waits for the height.
    AwaitingHeight { now: i64, date: Seq<char> },
    /// The tick of the second `now` waits for the pool.
    AwaitingMempool { now: i64, date: Seq<char>, height: u64 },
}

/// An event as contracts see it: the snapshot is the list of pairs that it
/// walks.
pub enum EventModel {
    /// The clock shows the unix time `now`, of the day `date`.
    Clock { now: i64, date: Option<Seq<char>> },
    /// The chain is `height` blocks high.
    Height { height: u64 },
    /// The pool holds `entries`.
    Mempool { entries: Seq<(TransactionId, MempoolEntry)> },
}

/// An action as contracts see it: the table is its rows, the path its text.
pub enum ActionModel {
    /// Idle, then read the clock.
    Idle,
    /// Fetch the chain height.
    FetchHeight,
    /// Fetch the mempool.
    FetchMempool { mode: Mode },
    /// Write `rows` to the file at `path`.
    Write { mode: Mode, rows: Seq<DeltaRow>, path: Seq<char> },
    /// Stop.
    Fail { fault: Fault },
}

/// The state of a recorder as contracts see it.
pub struct RecorderState {
    /// What the recorder is waiting for.
    pub phase: PhaseModel,
    /// Height at the last tick, 0 before the first.
    pub prev_height: u64,
    /// The snapshot that the next delta is taken against.
    pub prev_entries: Seq<(TransactionId, MempoolEntry)>,
    /// Second of the last tick, `None` before the first.
    pub prev_tick_second: Option<i64>,
}

impl View for Phase {
    type V = PhaseModel;

    open spec fn view(&self) -> PhaseModel {
        match self {
            Phase::Waiting => PhaseModel::Waiting,
            Phase::AwaitingHeight { now, date } => PhaseModel::AwaitingHeight {
                now: *now,
                date: date@,
            },
            Phase::AwaitingMempool { now, date, height } => PhaseModel::AwaitingMempool {
                now: *now,
                date: date@,
                height: *height,
            },
        }
    }
}

impl View for Event {
    type V = EventModel;

    open spec fn view(&self) -> EventModel {
        match self {
            Event::Clock { now, date } => EventModel::Clock {
                now: *now,
                date: match date {
                    Some(text) => Some(text@),
                    None => None,
                },
            },
            Event::Height { height } => EventModel::Height { height: *height },
            Event::Mempool { snapshot } => EventModel::Mempool { entries: snapshot.entries() },
        }
    }
}

impl View for Action {
    type V = ActionModel;

    open spec fn view(&self) -> ActionModel {
        match self {
            Action::Idle => ActionModel::Idle,
            Action::FetchHeight => ActionModel::FetchHeight,
            Action::FetchMempool { mode } => ActionModel::FetchMempool { mode: *mode },
            Action::Write { mode, table, path } => ActionModel::Write {
                mode: *mode,
                rows: table@,
                path: path@,
            },
            Action::Fail { fault } => ActionModel::Fail { fault: *fault },
        }
    }
}

impl Event {
    /// The event of a reading of the clock that shows the unix time `now`:
    /// it carries the text of that day in UTC, where the calendar names it.
    pub fn clock(now: i64) -> (event: Event)
        ensures
            event@ == (EventModel::Clock { now, date: utc_date_text(now as int) }),
    {
        Event::Clock { now, date: utc_date(now) }
    }
}

/// The mode of a tick that sees `height` after `prev_height`: a full dump
/// exactly when the height has changed.
pub open spec fn mode_of(prev_height: u64, height: u64) -> Mode {
    if height != prev_height {
        Mode::Full
    } else {
        Mode::Delta
    }
}

impl RecorderState {
    /// The state before the first tick.
    pub open spec fn initial() -> RecorderState {
        RecorderState {
            phase: PhaseModel::Waiting,
            prev_height: 0,
            prev_entries: Seq::empty(),
            prev_tick_second: None,
        }
    }

    /// What a reading of the clock leads to: nothing while no tick is due, a
    /// tick that begins by asking for the height otherwise.
    pub open spec fn on_clock(self, now: i64, date: Option<Seq<char>>) -> (
        RecorderState,
        ActionModel,
    ) {
        if !(self.phase is Waiting) {
            (self, ActionModel::Fail { fault: Fault::UnexpectedEvent })
        } else if !tick_due(now, self.prev_tick_second) {
            (self, ActionModel::Idle)
        } else {
            match date {
                Some(date) => (
                    RecorderState { phase: PhaseModel::AwaitingHeight { now, date }, ..self },
                    ActionModel::FetchHeight,
                ),
                None => (self, ActionModel::Fail { fault: Fault::ClockOutOfRange }),
            }
        }
    }

    /// What the arrival of the chain height leads to: at a new height the
    /// previous snapshot is dropped and the tick becomes a full dump.
    pub open spec fn on_height(self, height: u64) -> (RecorderState, ActionModel) {
        match self.phase {
            PhaseModel::AwaitingHeight { now, date } => {
                let mode = mode_of(self.prev_height, height);
                (
                    RecorderState {
                        phase: PhaseModel::AwaitingMempool { now, date, height },
                        prev_entries: if mode == Mode::Full {
                            Seq::empty()
                        } else {
                            self.prev_entries
                        },
                        ..self
                    },
                    ActionModel::FetchMempool { mode },
                )
            },
            _ => (self, ActionModel::Fail { fault: Fault::UnexpectedEvent }),
        }
    }

    /// What the arrival of the mempool leads to: the delta against the
    /// previous snapshot is handed out to be written, and the tick becomes
    /// the previous one.
    pub open spec fn on_mempool(self, entries: Seq<(TransactionId, MempoolEntry)>) -> (
        RecorderState,
        ActionModel,
    ) {
        match self.phase {
            PhaseModel::AwaitingMempool { now, date, height } => {
                let mode = mode_of(self.prev_height, height);
                (
                    RecorderState {
                        phase: PhaseModel::Waiting,
                        prev_height: height,
                        prev_entries: entries,
                        prev_tick_second: Some(now),
                    },
                    ActionModel::Write {
                        mode,
                        rows: delta_rows(self.prev_entries, entries),
                        path: path_text(date, height, now, mode),
                    },
                )
            },
            _ => (self, ActionModel::Fail { fault: Fault::UnexpectedEvent }),
        }
    }

    /// The state after `event`, and the action that answers it.
    pub open spec fn step(self, event: EventModel) -> (RecorderState, ActionModel) {
        match event {
            EventModel::Clock { now, date } => self.on_clock(now, date),
            EventModel::Height { height } => self.on_height(height),
            EventModel::Mempool { entries } => self.on_mempool(entries),
        }
    }
}

/// The recorder: the state carried across ticks.
#[derive(Debug)]
pub struct RecorderLoop {
    phase: Phase,
    prev_height: u64,
    prev_snapshot: MempoolSnapshot,
    prev_tick_second: Option<i64>,
}

impl View for RecorderLoop {
    type V = RecorderState;

    closed spec fn view(&self) -> RecorderState {
        RecorderState {
            phase: self.phase@,
            prev_height: self.prev_height,
            prev_entries: self.prev_snapshot.entries(),
            prev_tick_second: self.prev_tick_second,
        }
    }
}

impl RecorderLoop {
    /// A recorder that has not ticked yet.
    pub fn new() -> (recorder: RecorderLoop)
        ensures
            recorder@ == RecorderState::initial(),
    {
        RecorderLoop {
            phase: Phase::Waiting,
            prev_height: 0,
            prev_snapshot: MempoolSnapshot::new(),
            prev_tick_second: None,
        }
    }

    /// Takes one event, moves to the next state and answers with the action
    /// that the driver is to carry out.
    pub fn step(&mut self, event: Event) -> (action: Action)
        ensures
            (final(self)@, action@) == old(self)@.step(event@),
    {
        let mut phase = Phase::Waiting;
        core::mem::swap(&mut self.phase, &mut phase);
        match event {
            Event::Clock { now, date } => {
                match phase {
                    Phase::Waiting => {
                        if !should_tick(now, self.prev_tick_second) {
                            Action::Idle
                        } else {
                            match date {
                                Some(date) => {
                                    self.phase = Phase::AwaitingHeight { now, date };
                                    Action::FetchHeight
                                },
                                None => Action::Fail { fault: Fault::ClockOutOfRange },
                            }
                        }
                    },
                    other => {
                        self.phase = other;
                        Action::Fail { fault: Fault::UnexpectedEvent }
                    },
                }
            },
            Event::Height { height } => {
                match phase {
                    Phase::AwaitingHeight { now, date } => {
                        let is_new_height = height != self.prev_height;
                        if is_new_height {
                            self.prev_snapshot = MempoolSnapshot::new();
                        }
                        self.phase = Phase::AwaitingMempool { now, date, height };
                        Action::FetchMempool {
                            mode: if is_new_height {
                                Mode::Full
                            } else {
                                Mode::Delta
                            },
                        }
                    },
                    other => {
                        self.phase = other;
                        Action::Fail { fault: Fault::UnexpectedEvent }
                    },
                }
            },
            Event::Mempool { snapshot } => {
                match phase {
                    Phase::AwaitingMempool { now, date, height } => {
                        let mode = if height != self.prev_height {
                            Mode::Full
                        } else {
                            Mode::Delta
                        };
                        let table = Record::create_delta_from_pools(&self.prev_snapshot, &snapshot);
                        let path = snapshot_path(date.as_str(), height, now, mode);
                        self.prev_height = height;
                        self.prev_snapshot = snapshot;
                        self.prev_tick_second = Some(now);
                        Action::Write { mode, table, path }
                    },
                    other => {
                        self.phase = other;
                        Action::Fail { fault: Fault::UnexpectedEvent }
                    },
                }
            },
        }
    }

    /// What the recorder is waiting for.
    pub fn phase(&self) -> (phase: &Phase)
        ensures
            phase@ == self@.phase,
    {
        &self.phase
    }

    /// Height at the last tick, 0 before the first.
    pub fn prev_height(&self) -> (height: u64)
        ensures
            height == self@.prev_height,
    {
        self.prev_height
    }

    /// The snapshot that the next delta is taken against.
    pub fn prev_snapshot(&self) -> (snapshot: &MempoolSnapshot)
        ensures
            snapshot.entries() == self@.prev_entries,
    {
        &self.prev_snapshot
    }

    /// Second of the last tick, `None` before the first.
    pub fn prev_tick_second(&self) -> (second: Option<i64>)
        ensures
            second == self@.prev_tick_second,
    {
        self.prev_tick_second
    }
}

/// One whole tick. From a waiting recorder, a reading of the clock at which
/// a tick is due, then the height, then the mempool lead to one write: of the
/// delta against the previous snapshot where the height has stayed, of the
/// whole pool where it has changed, to the file named after day, height,
/// second and mode. After it the recorder waits again, and remembers the
/// height, the snapshot and the second of this tick.
pub proof fn lemma_whole_tick(
    state: RecorderState,
    now: i64,
    date: Seq<char>,
    height: u64,
    entries: Seq<(TransactionId, MempoolEntry)>,
)
    requires
        state.phase is Waiting,
        tick_due(now, state.prev_tick_second),
    ensures
        ({
            let (asked_height, first) = state.on_clock(now, Some(date));
            let (asked_mempool, second) = asked_height.on_height(height);
            let (rotated, third) = asked_mempool.on_mempool(entries);
            let mode = mode_of(state.prev_height, height);
            &&& first == ActionModel::FetchHeight
            &&& second == (ActionModel::FetchMempool { mode })
            &&& third == (ActionModel::Write {
                mode,
                rows: if height != state.prev_height {
                    delta_rows(Seq::empty(), entries)
                } else {
                    delta_rows(state.prev_entries, entries)
                },
                path: path_text(date, height, now, mode),
            })
            &&& rotated == (RecorderState {
                phase: PhaseModel::Waiting,
                prev_height: height,
                prev_entries: entries,
                prev_tick_second: Some(now),
            })
        }),
{
}

/// A tick that sees a new height is a full dump: whatever the previous
/// snapshot held, and even where the pool has not changed at all, the table
/// lists every current entry as an added row, and the file is named `full`.
pub proof fn lemma_new_height_gives_full_dump(
    state: RecorderState,
    height: u64,
    entries: Seq<(TransactionId, MempoolEntry)>,
)
    requires
        state.phase is AwaitingHeight,
        height != state.prev_height,
    ensures
        state.on_height(height).1 == (ActionModel::FetchMempool { mode: Mode::Full }),
        state.on_height(height).0.on_mempool(entries).1 == (ActionModel::Write {
            mode: Mode::Full,
            rows: entries.map_values(|pair: (TransactionId, MempoolEntry)| added_row(pair)),
            path: path_text(
                state.phase->AwaitingHeight_date,
                height,
                state.phase->AwaitingHeight_now,
                Mode::Full,
            ),
        }),
{
    lemma_delta_from_empty_is_full(entries);
}

/// A tick that sees the height of the previous tick writes the delta
/// against the previous snapshot, in a file named `delta`.
pub proof fn lemma_same_height_gives_delta(
    state: RecorderState,
    entries: Seq<(TransactionId, MempoolEntry)>,
)
    requires
        state.phase is AwaitingHeight,
    ensures
        state.on_height(state.prev_height).1 == (ActionModel::FetchMempool { mode: Mode::Delta }),
        state.on_height(state.prev_height).0.on_mempool(entries).1 == (ActionModel::Write {
            mode: Mode::Delta,
            rows: delta_rows(state.prev_entries, entries),
            path: path_text(
                state.phase->AwaitingHeight_date,
                state.prev_height,
                state.phase->AwaitingHeight_now,
                Mode::Delta,
            ),
        }),
{
}

/// After a tick, every further reading of the clock within the second of
/// that tick is answered by idling: no second fires twice.
pub proof fn lemma_no_second_tick_in_a_second(
    state: RecorderState,
    entries: Seq<(TransactionId, MempoolEntry)>,
    date: Option<Seq<char>>,
)
    requires
        state.phase is AwaitingMempool,
    ensures
        state.on_mempool(entries).0.on_clock(state.phase->AwaitingMempool_now, date).1
            == ActionModel::Idle,
{
}

/// A step that fails changes nothing.
pub proof fn lemma_failed_step_changes_nothing(state: RecorderState, event: EventModel)
    ensures
        state.step(event).1 is Fail ==> state.step(event).0 == state,
{
}

} // verus!
