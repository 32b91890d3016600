//! Compressed memory reader: the decisions around the performance-counter
//! query for `\Process(Memory Compression)\Working Set`.
//!
//! The query is opened lazily on the first read; every read collects the
//! counter and formats its value. The caller performs each requested action
//! and reports what it gave back; `CompressedMemoryReader::step` decides what
//! comes next.

use vstd::prelude::*;

verus! {

/// Status a counter collection returns when there is no data yet.
pub const PDH_NO_DATA: u32 = 0x8000_07D5;

/// Errors while reading memory counters.
#[derive(Clone, Copy, Debug, PartialEq, Eq)]
pub enum MemoryError {
    /// A Windows API call failed with this HRESULT.
    Win32(i32),
    /// A performance-counter call failed with this status.
    Pdh(u32),
}

/// Where the reader stands in a read.
#[derive(Clone, Copy, Debug, PartialEq, Eq)]
pub enum ReadPhase {
    /// No read in progress.
    Idle,
    /// Waiting for the query to be opened.
    Opening,
    /// Waiting for the counter to be added to the query.
    AddingCounter,
    /// Waiting for the baseline collection after initialization.
    Baseline,
    /// Waiting for the counter data to be collected.
    Collecting,
    /// Waiting for the counter value to be formatted.
    Formatting,
}

/// What the caller reports back.
#[derive(Clone, Copy, Debug, PartialEq, Eq)]
pub enum PdhEvent {
    /// A read of the compressed memory size is requested.
    ReadRequested,
    /// The query was opened with this status.
    QueryOpened(u32),
    /// The counter was added with this status.
    CounterAdded(u32),
    /// The baseline collection was made (its status is not used).
    BaselineCollected,
    /// The counter data was collected with this status.
    DataCollected(u32),
    /// The counter value was formatted with this status and 64-bit value.
    ValueFormatted(u32, i64),
}

/// What the caller is to do next.
#[derive(Clone, Copy, Debug, PartialEq, Eq)]
pub enum PdhAction {
    /// Open a performance query.
    OpenQuery,
    /// Add the compressed-memory working-set counter to the query.
    AddCounter,
    /// Collect once as a baseline (the first collection has no data).
    CollectBaseline,
    /// Collect the query data.
    CollectData,
    /// Format the counter value as a 64-bit integer.
    FormatValue,
    /// The read is over with this result (bytes of compressed memory).
    Finish(Result<u64, MemoryError>),
}

/// State of the reader: whether the query is set up, and the read's phase.
#[derive(Clone, Copy, Debug, PartialEq, Eq)]
pub struct CompressedMemoryReader {
    pub initialized: bool,
    pub phase: ReadPhase,
}

/// The events the reader accepts in each phase.
pub open spec fn event_expected(phase: ReadPhase, event: PdhEvent) -> bool {
    match (phase, event) {
        (ReadPhase::Idle, PdhEvent::ReadRequested) => true,
        (ReadPhase::Opening, PdhEvent::QueryOpened(_)) => true,
        (ReadPhase::AddingCounter, PdhEvent::CounterAdded(_)) => true,
        (ReadPhase::Baseline, PdhEvent::BaselineCollected) => true,
        (ReadPhase::Collecting, PdhEvent::DataCollected(_)) => true,
        (ReadPhase::Formatting, PdhEvent::ValueFormatted(_, _)) => true,
        _ => false,
    }
}

/// A negative counter value counts as zero bytes.
pub open spec fn clamp_bytes(v: i64) -> u64 {
    if v < 0 {
        0
    } else {
        v as u64
    }
}

/// The next state and action of the reader after `event`.
pub open spec fn transition(r: CompressedMemoryReader, event: PdhEvent) -> (
    CompressedMemoryReader,
    PdhAction,
) {
    let idle = CompressedMemoryReader { initialized: r.initialized, phase: ReadPhase::Idle };
    match event {
        PdhEvent::ReadRequested => if r.initialized {
            (CompressedMemoryReader { initialized: true, phase: ReadPhase::Collecting }, PdhAction::CollectData)
        } else {
            (CompressedMemoryReader { initialized: false, phase: ReadPhase::Opening }, PdhAction::OpenQuery)
        },
        PdhEvent::QueryOpened(status) => if status != 0 {
            (idle, PdhAction::Finish(Err(MemoryError::Pdh(status))))
        } else {
            (CompressedMemoryReader { initialized: r.initialized, phase: ReadPhase::AddingCounter }, PdhAction::AddCounter)
        },
        PdhEvent::CounterAdded(status) => if status != 0 {
            (idle, PdhAction::Finish(Err(MemoryError::Pdh(status))))
        } else {
            (CompressedMemoryReader { initialized: true, phase: ReadPhase::Baseline }, PdhAction::CollectBaseline)
        },
        PdhEvent::BaselineCollected => (
            CompressedMemoryReader { initialized: r.initialized, phase: ReadPhase::Collecting },
            PdhAction::CollectData,
        ),
        PdhEvent::DataCollected(status) => if status == PDH_NO_DATA {
            (idle, PdhAction::Finish(Ok(0)))
        } else if status != 0 {
            (idle, PdhAction::Finish(Err(MemoryError::Pdh(status))))
        } else {
            (CompressedMemoryReader { initialized: r.initialized, phase: ReadPhase::Formatting }, PdhAction::FormatValue)
        },
        PdhEvent::ValueFormatted(status, value) => if status != 0 {
            (idle, PdhAction::Finish(Err(MemoryError::Pdh(status))))
        } else {
            (idle, PdhAction::Finish(Ok(clamp_bytes(value))))
        },
    }
}

impl CompressedMemoryReader {
    /// A reader whose query is not set up yet.
    pub fn new() -> (r: Self)
        ensures
            r == (CompressedMemoryReader { initialized: false, phase: ReadPhase::Idle }),
    {
        CompressedMemoryReader { initialized: false, phase: ReadPhase::Idle }
    }

    /// Whether `event` is one the reader waits for now.
    pub fn expects(&self, event: PdhEvent) -> (b: bool)
        ensures
            b == event_expected(self.phase, event),
    {
        match (self.phase, event) {
            (ReadPhase::Idle, PdhEvent::ReadRequested) => true,
            (ReadPhase::Opening, PdhEvent::QueryOpened(_)) => true,
            (ReadPhase::AddingCounter, PdhEvent::CounterAdded(_)) => true,
            (ReadPhase::Baseline, PdhEvent::BaselineCollected) => true,
            (ReadPhase::Collecting, PdhEvent::DataCollected(_)) => true,
            (ReadPhase::Formatting, PdhEvent::ValueFormatted(_, _)) => true,
            _ => false,
        }
    }

    /// Takes what the last action gave back and decides the next action.
    pub fn step(&mut self, event: PdhEvent) -> (action: PdhAction)
        requires
            event_expected(old(self).phase, event),
        ensures
            (*final(self), action) == transition(*old(self), event),
    {
        match event {
            PdhEvent::ReadRequested => {
                if self.initialized {
                    self.phase = ReadPhase::Collecting;
                    PdhAction::CollectData
                } else {
                    self.phase = ReadPhase::Opening;
                    PdhAction::OpenQuery
                }
            },
            PdhEvent::QueryOpened(status) => {
                if status != 0 {
                    self.phase = ReadPhase::Idle;
                    PdhAction::Finish(Err(MemoryError::Pdh(status)))
                } else {
                    self.phase = ReadPhase::AddingCounter;
                    PdhAction::AddCounter
                }
            },
            PdhEvent::CounterAdded(status) => {
                if status != 0 {
                    self.phase = ReadPhase::Idle;
                    PdhAction::Finish(Err(MemoryError::Pdh(status)))
                } else {
                    self.initialized = true;
                    self.phase = ReadPhase::Baseline;
                    PdhAction::CollectBaseline
                }
            },
            PdhEvent::BaselineCollected => {
                self.phase = ReadPhase::Collecting;
                PdhAction::CollectData
            },
            PdhEvent::DataCollected(status) => {
                if status == PDH_NO_DATA {
                    self.phase = ReadPhase::Idle;
                    PdhAction::Finish(Ok(0))
                } else if status != 0 {
                    self.phase = ReadPhase::Idle;
                    PdhAction::Finish(Err(MemoryError::Pdh(status)))
                } else {
                    self.phase = ReadPhase::Formatting;
                    PdhAction::FormatValue
                }
            },
            PdhEvent::ValueFormatted(status, value) => {
                self.phase = ReadPhase::Idle;
                if status != 0 {
                    PdhAction::Finish(Err(MemoryError::Pdh(status)))
                } else if value < 0 {
                    PdhAction::Finish(Ok(0))
                } else {
                    PdhAction::Finish(Ok(value as u64))
                }
            },
        }
    }
}


/// What the system answers to each action during one read.
pub struct PdhAnswers {
    pub open_status: u32,
    pub add_status: u32,
    pub collect_status: u32,
    pub format_status: u32,
    pub value: i64,
}

/// The event that reports the answer to `action`.
pub open spec fn answer(action: PdhAction, a: PdhAnswers) -> PdhEvent {
    match action {
        PdhAction::OpenQuery => PdhEvent::QueryOpened(a.open_status),
        PdhAction::AddCounter => PdhEvent::CounterAdded(a.add_status),
        PdhAction::CollectBaseline => PdhEvent::BaselineCollected,
        PdhAction::CollectData => PdhEvent::DataCollected(a.collect_status),
        PdhAction::FormatValue => PdhEvent::ValueFormatted(a.format_status, a.value),
        PdhAction::Finish(_) => PdhEvent::ReadRequested,
    }
}

/// Runs the reader on `action`'s answers until it finishes or `fuel` runs out.
pub open spec fn drive(r: CompressedMemoryReader, action: PdhAction, a: PdhAnswers, fuel: nat) -> (
    CompressedMemoryReader,
    PdhAction,
)
    decreases fuel,
{
    if fuel == 0 || action is Finish {
        (r, action)
    } else {
        let (r2, next) = transition(r, answer(action, a));
        drive(r2, next, a, (fuel - 1) as nat)
    }
}

/// One read as a whole: set the query up if it is not yet, then collect and
/// format the counter. Gives whether the query is set up afterwards and the
/// read's result.
pub open spec fn read_result(initialized: bool, a: PdhAnswers) -> (bool, Result<u64, MemoryError>) {
    if !initialized && a.open_status != 0 {
        (false, Err(MemoryError::Pdh(a.open_status)))
    } else if !initialized && a.add_status != 0 {
        (false, Err(MemoryError::Pdh(a.add_status)))
    } else if a.collect_status == PDH_NO_DATA {
        (true, Ok(0))
    } else if a.collect_status != 0 {
        (true, Err(MemoryError::Pdh(a.collect_status)))
    } else if a.format_status != 0 {
        (true, Err(MemoryError::Pdh(a.format_status)))
    } else {
        (true, Ok(clamp_bytes(a.value)))
    }
}

/// A read requested of an idle reader finishes within six steps, back in
/// the idle phase, with the result of `read_result`: the query is opened and
/// the counter added only while not yet set up, a failed setup leaves it
/// unset so that the next read tries again, no data yet reads as zero bytes,
/// and every failing status is reported as it came.
pub proof fn lemma_read_protocol(initialized: bool, a: PdhAnswers)
    ensures
        ({
            let start = CompressedMemoryReader { initialized, phase: ReadPhase::Idle };
            let (first_state, first_action) = transition(start, PdhEvent::ReadRequested);
            let (end, last) = drive(first_state, first_action, a, 6);
            &&& end.phase == ReadPhase::Idle
            &&& end.initialized == read_result(initialized, a).0
            &&& last == PdhAction::Finish(read_result(initialized, a).1)
        }),
{
    reveal_with_fuel(drive, 7);
}

/// Once the query is set up it stays set up, whatever happens next.
pub proof fn lemma_setup_is_kept(r: CompressedMemoryReader, event: PdhEvent)
    requires
        r.initialized,
    ensures
        transition(r, event).0.initialized,
{
}

/// The reader is idle exactly when it has just finished a read: every
/// `Finish` action returns it to `Idle`, every other action leaves it waiting.
pub proof fn lemma_idle_iff_finished(r: CompressedMemoryReader, event: PdhEvent)
    requires
        event_expected(r.phase, event),
    ensures
        (transition(r, event).1 is Finish) <==> transition(r, event).0.phase == ReadPhase::Idle,
{
}


/// With the query set up, a read request goes straight to collecting the
/// counter: no query is opened, no counter added and no baseline taken, and
/// the reader stays set up.
pub proof fn lemma_setup_happens_once(r: CompressedMemoryReader)
    requires
        r.initialized,
    ensures
        transition(r, PdhEvent::ReadRequested) == (
            CompressedMemoryReader { initialized: true, phase: ReadPhase::Collecting },
            PdhAction::CollectData,
        ),
{
}

/// A read of a set-up reader does not depend on what opening the query or
/// adding the counter would answer: those calls are not made.
pub proof fn lemma_set_up_read_ignores_setup(a: PdhAnswers, b: PdhAnswers)
    requires
        a.collect_status == b.collect_status,
        a.format_status == b.format_status,
        a.value == b.value,
    ensures
        read_result(true, a) == read_result(true, b),
        read_result(true, a).0,
{
}


/// A formatted counter value ends the read with that value in bytes: any
/// non-negative 64-bit value exactly, a negative one as zero; a failing
/// format status ends it with that status as the error.
pub proof fn lemma_formatted_value(r: CompressedMemoryReader, status: u32, value: i64)
    ensures
        status == 0 && value >= 0 ==> transition(r, PdhEvent::ValueFormatted(status, value)).1
            == PdhAction::Finish(Ok(value as u64)),
        value >= 0 ==> (value as u64) as int == value as int,
        status == 0 && value < 0 ==> transition(r, PdhEvent::ValueFormatted(status, value)).1
            == PdhAction::Finish(Ok(0)),
        status != 0 ==> transition(r, PdhEvent::ValueFormatted(status, value)).1 == PdhAction::Finish(
            Err(MemoryError::Pdh(status)),
        ),
        transition(r, PdhEvent::ValueFormatted(status, value)).0 == (CompressedMemoryReader {
            initialized: r.initialized,
            phase: ReadPhase::Idle,
        }),
{
}

/// A collection with no data yet (status 0x800007D5) reads as zero bytes; a
/// successful one (status 0) goes on to format the value; any other status
/// ends the read with that status as the error.
pub proof fn lemma_collected(r: CompressedMemoryReader, status: u32)
    ensures
        status == 0x8000_07D5 ==> transition(r, PdhEvent::DataCollected(status)).1 == PdhAction::Finish(
            Ok(0),
        ),
        status == 0 ==> transition(r, PdhEvent::DataCollected(status)).1 == PdhAction::FormatValue,
        status != 0 && status != 0x8000_07D5 ==> transition(r, PdhEvent::DataCollected(status)).1
            == PdhAction::Finish(Err(MemoryError::Pdh(status))),
        transition(r, PdhEvent::DataCollected(status)).0.initialized == r.initialized,
        status == 0 ==> transition(r, PdhEvent::DataCollected(status)).0.phase == ReadPhase::Formatting,
{
}

/// Opening the query and adding the counter: status 0 moves on (to adding
/// the counter, then to the baseline collection, after which the reader is
/// set up); any other status ends the read with it as the error and leaves
/// the reader's setup as it was.
pub proof fn lemma_setup_steps(r: CompressedMemoryReader, status: u32)
    ensures
        status == 0 ==> transition(r, PdhEvent::QueryOpened(status)).1 == PdhAction::AddCounter,
        status != 0 ==> transition(r, PdhEvent::QueryOpened(status)) == (
            CompressedMemoryReader { initialized: r.initialized, phase: ReadPhase::Idle },
            PdhAction::Finish(Err(MemoryError::Pdh(status))),
        ),
        status == 0 ==> transition(r, PdhEvent::CounterAdded(status)) == (
            CompressedMemoryReader { initialized: true, phase: ReadPhase::Baseline },
            PdhAction::CollectBaseline,
        ),
        status != 0 ==> transition(r, PdhEvent::CounterAdded(status)) == (
            CompressedMemoryReader { initialized: r.initialized, phase: ReadPhase::Idle },
            PdhAction::Finish(Err(MemoryError::Pdh(status))),
        ),
        transition(r, PdhEvent::BaselineCollected) == (
            CompressedMemoryReader { initialized: r.initialized, phase: ReadPhase::Collecting },
            PdhAction::CollectData,
        ),
        !r.initialized ==> transition(r, PdhEvent::ReadRequested) == (
            CompressedMemoryReader { initialized: false, phase: ReadPhase::Opening },
            PdhAction::OpenQuery,
        ),
{
}

/// A whole read with every call succeeding returns the counter value itself
/// when it is not negative (zero otherwise), whether or not the query was
/// already set up.
pub proof fn lemma_successful_read_value(initialized: bool, a: PdhAnswers)
    requires
        a.open_status == 0,
        a.add_status == 0,
        a.collect_status == 0,
        a.format_status == 0,
    ensures
        read_result(initialized, a).0,
        a.value >= 0 ==> read_result(initialized, a).1 == Ok::<u64, MemoryError>(a.value as u64),
        a.value < 0 ==> read_result(initialized, a).1 == Ok::<u64, MemoryError>(0),
{
}


/// A counter value is read as bytes unchanged when it is not negative, and
/// as zero when it is.
pub proof fn lemma_clamp_bytes(v: i64)
    ensures
        v >= 0 ==> clamp_bytes(v) as int == v as int,
        v < 0 ==> clamp_bytes(v) == 0,
{
}


/// The protocol never gets stuck: an idle reader accepts a read request,
/// and after any accepted event that does not finish the read, the reader
/// accepts the answer to the action it asked for, whatever that answer is.
pub proof fn lemma_protocol_continues(r: CompressedMemoryReader, event: PdhEvent, a: PdhAnswers)
    requires
        event_expected(r.phase, event),
    ensures
        event_expected(ReadPhase::Idle, PdhEvent::ReadRequested),
        !(transition(r, event).1 is Finish) ==> event_expected(
            transition(r, event).0.phase,
            answer(transition(r, event).1, a),
        ),
        transition(r, event).1 is Finish ==> event_expected(
            transition(r, event).0.phase,
            PdhEvent::ReadRequested,
        ),
{
}

/// Each phase waits for exactly one kind of event.
pub proof fn lemma_expected_events(phase: ReadPhase, event: PdhEvent)
    ensures
        event_expected(phase, event) <==> match event {
            PdhEvent::ReadRequested => phase == ReadPhase::Idle,
            PdhEvent::QueryOpened(_) => phase == ReadPhase::Opening,
            PdhEvent::CounterAdded(_) => phase == ReadPhase::AddingCounter,
            PdhEvent::BaselineCollected => phase == ReadPhase::Baseline,
            PdhEvent::DataCollected(_) => phase == ReadPhase::Collecting,
            PdhEvent::ValueFormatted(_, _) => phase == ReadPhase::Formatting,
        },
{
}

} // verus!
