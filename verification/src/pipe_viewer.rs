//! The decisions of the copy loop. The caller reads into the buffer and
//! writes from it, and tells the viewer what came of each; the viewer keeps
//! the counts, says what to do next, and hands back what is to be shown.

use vstd::prelude::*;
use vstd::string::*;
use crate::progress_display::{Phase, ProgressDisplay, ProgressDisplayer};
use crate::progress_stats::{elapsed, ProgressStats};

verus! {

/// Where a transfer stands.
#[derive(Clone, Copy, Debug, PartialEq, Eq, Structural)]
pub enum DriverState {
    /// Made, and nothing shown yet.
    Idle,
    /// Bytes are moved.
    Running,
    /// A source has ended, or the transfer has failed.
    Draining,
    /// The last snapshot has been shown.
    Done,
}

/// Why a transfer has ended before its source did.
#[derive(Clone, Copy, Debug, PartialEq, Eq, Structural)]
pub enum TransferError {
    /// The source could not be read.
    ReadError,
    /// The sink could not be written.
    WriteError,
}

/// What came of the read or the write that the viewer asked for.
#[derive(Clone, Copy, Debug, PartialEq, Eq, Structural)]
pub enum Event {
    /// So many bytes were read into the front of the buffer.
    Read(usize),
    /// The source has no more bytes.
    EndOfInput,
    /// The read failed.
    ReadFailed,
    /// The pending bytes were written in full.
    Written,
    /// The write failed.
    WriteFailed,
}

/// What the caller is to do next.
#[derive(Clone, Copy, Debug, PartialEq, Eq, Structural)]
pub enum Action {
    /// Read into the buffer.
    Read,
    /// Write the pending bytes.
    Write,
    /// Neither: this source is done with.
    Stop,
}

/// What a step of the transfer hands back.
#[derive(Clone, Debug, PartialEq, Eq)]
pub struct Step {
    /// What to write to the error stream; often nothing.
    pub text: String,
    /// What to do next.
    pub action: Action,
}

/// A transfer as its steps see it.
pub struct Transfer {
    /// The counts and times, as a snapshot taken now would hold them.
    pub stats: ProgressStats,
    /// The bytes in the buffer.
    pub buffer: Seq<u8>,
    /// The nanoseconds that must have passed before progress is shown again.
    pub interval: u64,
    /// What shows the progress.
    pub displayer: ProgressDisplayer,
    /// Where the transfer stands.
    pub state: DriverState,
    /// The bytes at the front of the buffer that were read and not yet
    /// written.
    pub pending: nat,
    /// Why the transfer has failed, if it has.
    pub failure: Option<TransferError>,
}

impl Transfer {
    /// A transfer that is made at the time `now`: no byte moved, nothing
    /// shown, a buffer of `buffer_size` zero bytes.
    pub open spec fn initial(
        buffer_size: usize,
        expected_size: Option<u128>,
        interval: u64,
        displayer: ProgressDisplayer,
        now: u64,
    ) -> Transfer {
        Transfer {
            stats: ProgressStats {
                bytes_processed: 0,
                expected_size,
                start_time: now,
                last_display: now,
                bytes_processed_since_last_display: 0,
            },
            buffer: Seq::new(buffer_size as nat, |i: int| 0u8),
            interval,
            displayer,
            state: DriverState::Idle,
            pending: 0,
            failure: None,
        }
    }

    /// What holds of every transfer: no more bytes are pending than the
    /// buffer holds, and none unless bytes are moved; its snapshot is one
    /// that a transfer gives; before it starts no byte is counted; and until
    /// a source has ended or failed there is no failure.
    pub open spec fn wf(self) -> bool {
        &&& self.pending <= self.buffer.len()
        &&& self.stats.wf()
        &&& self.state is Idle ==> self.stats.bytes_processed == 0
        &&& self.state is Running || self.pending == 0
        &&& self.state is Idle || self.state is Running ==> self.failure is None
    }

    /// Whether progress is to be shown at the time `now`: more than the
    /// interval has passed since it was last shown.
    pub open spec fn display_due(self, now: u64) -> bool {
        elapsed(self.stats.last_display, now) > self.interval
    }

    /// The snapshot once `count` more bytes are moved.
    pub open spec fn stats_with(self, count: usize) -> ProgressStats {
        ProgressStats {
            bytes_processed: (self.stats.bytes_processed + count) as u128,
            bytes_processed_since_last_display: (self.stats.bytes_processed_since_last_display
                + count) as u128,
            ..self.stats
        }
    }

    /// The transfer once it has shown `stats` at this point.
    pub open spec fn shown(self, phase: Phase, stats: ProgressStats) -> Transfer {
        Transfer { displayer: self.displayer.after(phase, stats), ..self }
    }

    /// The snapshot once progress was shown at the time `now`.
    pub open spec fn stats_shown(stats: ProgressStats, now: u64) -> ProgressStats {
        ProgressStats { last_display: now, bytes_processed_since_last_display: 0, ..stats }
    }

    /// Whether `event` is in step with the transfer: bytes are moved, a
    /// read is answered while nothing is pending and a write while
    /// something is, and a read has brought at least one byte and no more
    /// than the buffer holds.
    pub open spec fn in_step(self, event: Event) -> bool {
        &&& self.state is Running
        &&& match event {
            Event::Read(count) => self.pending == 0 && 0 < count <= self.buffer.len(),
            Event::EndOfInput | Event::ReadFailed => self.pending == 0,
            Event::Written | Event::WriteFailed => self.pending > 0,
        }
    }

    /// Whether the transfer can take `event` at the time `now`: the event
    /// is in step, and after a read the count of all bytes is no larger than
    /// a count can be, and what is then to be shown can be shown.
    pub open spec fn admits(self, event: Event, now: u64) -> bool {
        &&& self.in_step(event)
        &&& event matches Event::Read(count) ==> {
            &&& self.stats.bytes_processed + count <= u128::MAX
            &&& self.display_due(now) ==> self.displayer.can_show(
                Phase::Progress,
                self.stats_with(count),
                now,
            )
        }
    }

    /// The transfer after `event` at the time `now`.
    pub open spec fn after(self, event: Event, now: u64) -> Transfer {
        match event {
            Event::Read(count) => if self.display_due(now) {
                Transfer {
                    stats: Self::stats_shown(self.stats_with(count), now),
                    displayer: self.displayer.after(Phase::Progress, self.stats_with(count)),
                    pending: count as nat,
                    ..self
                }
            } else {
                Transfer { stats: self.stats_with(count), pending: count as nat, ..self }
            },
            Event::Written => Transfer { pending: 0, ..self },
            Event::EndOfInput => Transfer { state: DriverState::Draining, ..self },
            Event::ReadFailed => Transfer {
                state: DriverState::Draining,
                failure: Some(TransferError::ReadError),
                ..self
            },
            Event::WriteFailed => Transfer {
                state: DriverState::Draining,
                failure: Some(TransferError::WriteError),
                pending: 0,
                ..self
            },
        }
    }

    /// What the caller is to do after `event`.
    pub open spec fn action(event: Event) -> Action {
        match event {
            Event::Read(_) => Action::Write,
            Event::Written => Action::Read,
            _ => Action::Stop,
        }
    }

    /// Whether `text` is what `event` at the time `now` gives to show: the
    /// progress after a read for which it is due, and else nothing.
    pub open spec fn shows(self, event: Event, now: u64, text: Seq<char>) -> bool {
        match event {
            Event::Read(count) if self.display_due(now) => self.displayer.may_show(
                Phase::Progress,
                self.stats_with(count),
                now,
                text,
            ),
            _ => text == Seq::<char>::empty(),
        }
    }
}

/// The bytes that a run of events, each with its time, has read.
pub open spec fn bytes_read(events: Seq<(Event, u64)>) -> nat
    decreases events.len(),
{
    if events.len() == 0 {
        0
    } else {
        bytes_read(events.drop_last()) + match events.last().0 {
            Event::Read(count) => count as nat,
            _ => 0,
        }
    }
}

impl Transfer {
    /// The transfer after a run of events, each at its time.
    pub open spec fn after_all(self, events: Seq<(Event, u64)>) -> Transfer
        decreases events.len(),
    {
        if events.len() == 0 {
            self
        } else {
            self.after_all(events.drop_last()).after(events.last().0, events.last().1)
        }
    }

    /// Whether the transfer can take a run of events, one after the other.
    pub open spec fn admits_all(self, events: Seq<(Event, u64)>) -> bool
        decreases events.len(),
    {
        events.len() == 0 || {
            &&& self.admits_all(events.drop_last())
            &&& self.after_all(events.drop_last()).admits(events.last().0, events.last().1)
        }
    }
}

/// A transfer counts what was read: after any run of events the bytes moved
/// are those before it and those that the run has read, and the start, the
/// expected size and the interval are what they were.
pub proof fn lemma_counts_what_was_read(transfer: Transfer, events: Seq<(Event, u64)>)
    requires
        transfer.admits_all(events),
    ensures
        transfer.after_all(events).stats.bytes_processed == transfer.stats.bytes_processed
            + bytes_read(events),
        transfer.after_all(events).stats.start_time == transfer.stats.start_time,
        transfer.after_all(events).stats.expected_size == transfer.stats.expected_size,
        transfer.after_all(events).interval == transfer.interval,
    decreases events.len(),
{
    if events.len() > 0 {
        lemma_counts_what_was_read(transfer, events.drop_last());
    }
}

/// Every step keeps a transfer well-formed.
pub proof fn lemma_step_keeps_wf(transfer: Transfer, event: Event, now: u64)
    requires
        transfer.wf(),
        transfer.admits(event, now),
    ensures
        transfer.after(event, now).wf(),
{
}

/// A run in which no read and no write fails, from a transfer that has
/// not yet ended a source, ends without a failure.
pub proof fn lemma_clean_run_has_no_failure(transfer: Transfer, events: Seq<(Event, u64)>)
    requires
        transfer.wf(),
        transfer.state is Idle || transfer.state is Running,
        transfer.admits_all(events),
        forall|i: int|
            0 <= i < events.len() ==> !((#[trigger] events[i]).0 is ReadFailed) && !(events[i].0
                is WriteFailed),
    ensures
        transfer.after_all(events).wf(),
        transfer.after_all(events).failure is None,
    decreases events.len(),
{
    if events.len() > 0 {
        let before = events.drop_last();
        assert forall|i: int| 0 <= i < before.len() implies !((#[trigger] before[i]).0
            is ReadFailed) && !(before[i].0 is WriteFailed) by {
            assert(before[i] == events[i]);
        }
        lemma_clean_run_has_no_failure(transfer, before);
        lemma_step_keeps_wf(transfer.after_all(before), events.last().0, events.last().1);
        assert(!(events[events.len() - 1].0 is ReadFailed));
    }
}

/// Progress is shown no more often than the interval allows: a read
/// changes the time of the last display only to a time that lies more than
/// the interval after it, and the count since the last display starts anew
/// only then.
pub proof fn lemma_display_waits_for_interval(transfer: Transfer, count: usize, now: u64)
    requires
        transfer.stats.wf(),
        transfer.admits(Event::Read(count), now),
    ensures
        ({
            let before = transfer.stats.last_display;
            let after = transfer.after(Event::Read(count), now).stats;
            if now - before > transfer.interval {
                after.last_display == now && after.bytes_processed_since_last_display == 0
            } else {
                after.last_display == before && after.bytes_processed_since_last_display
                    == transfer.stats.bytes_processed_since_last_display + count
            }
        }),
{
}

/// Copies a stream while it watches it: holds the buffer through which the
/// bytes go, counts them, and decides when their progress is shown.
#[derive(Clone, Debug)]
pub struct PipeViewer {
    bytes_processed: u128,
    buffer: Vec<u8>,
    start_time: u64,
    last_display: u64,
    bytes_processed_since_last_display: u128,
    expected_size: Option<u128>,
    interval: u64,
    progress_displayer: ProgressDisplayer,
    state: DriverState,
    pending: usize,
    failure: Option<TransferError>,
}

impl View for PipeViewer {
    type V = Transfer;

    closed spec fn view(&self) -> Transfer {
        Transfer {
            stats: ProgressStats {
                bytes_processed: self.bytes_processed,
                expected_size: self.expected_size,
                start_time: self.start_time,
                last_display: self.last_display,
                bytes_processed_since_last_display: self.bytes_processed_since_last_display,
            },
            buffer: self.buffer@,
            interval: self.interval,
            displayer: self.progress_displayer,
            state: self.state,
            pending: self.pending as nat,
            failure: self.failure,
        }
    }
}

impl PipeViewer {
    /// What holds of every viewer: what holds of every transfer.
    pub open spec fn wf(&self) -> bool {
        self@.wf()
    }

    /// A viewer for a transfer that starts at the time `now`, with a buffer
    /// of `buffer_size` bytes. Progress is shown by `progress_displayer`,
    /// and again whenever more than `interval` nanoseconds have passed.
    pub fn new(
        buffer_size: usize,
        expected_size: Option<u128>,
        interval: u64,
        progress_displayer: ProgressDisplayer,
        now: u64,
    ) -> (viewer: Self)
        ensures
            viewer@ == Transfer::initial(
                buffer_size,
                expected_size,
                interval,
                progress_displayer,
                now,
            ),
            viewer.wf(),
    {
        let bytes_processed: u128 = 0;
        let bytes_processed_since_last_display: u128 = 0;
        let buffer = vec![0u8; buffer_size];
        let start_time = now;
        let last_display = start_time;
        assert(buffer@ =~= Seq::new(buffer_size as nat, |i: int| 0u8));
        Self {
            bytes_processed,
            buffer,
            start_time,
            last_display,
            bytes_processed_since_last_display,
            expected_size,
            interval,
            progress_displayer,
            state: DriverState::Idle,
            pending: 0,
            failure: None,
        }
    }

    /// Where the transfer stands.
    pub fn state(&self) -> (state: DriverState)
        ensures
            state == self@.state,
    {
        self.state
    }

    /// Why the transfer has failed, if it has.
    pub fn failure(&self) -> (failure: Option<TransferError>)
        ensures
            failure == self@.failure,
    {
        self.failure
    }

    /// The progress as it stands.
    pub fn snapshot(&self) -> (progress_stats: ProgressStats)
        ensures
            progress_stats == self@.stats,
    {
        ProgressStats {
            bytes_processed: self.bytes_processed,
            expected_size: self.expected_size,
            start_time: self.start_time,
            last_display: self.last_display,
            bytes_processed_since_last_display: self.bytes_processed_since_last_display,
        }
    }

    /// The buffer, for the next read to fill from its front. The viewer
    /// stays well-formed, as a slice keeps its length.
    pub fn buffer_mut(&mut self) -> (buffer: &mut [u8])
        requires
            old(self).wf(),
        ensures
            buffer@ == old(self)@.buffer,
            final(self)@ == (Transfer { buffer: final(buffer)@, ..old(self)@ }),
            final(buffer)@.len() == buffer@.len() ==> final(self).wf(),
    {
        self.buffer.as_mut_slice()
    }

    /// The bytes that were read and are to be written.
    pub fn chunk(&self) -> (chunk: &[u8])
        requires
            self.wf(),
        ensures
            chunk@ == self@.buffer.subrange(0, self@.pending as int),
    {
        vstd::slice::slice_subrange(self.buffer.as_slice(), 0, self.pending)
    }
}

impl PipeViewer {
    /// Whether the display can show the progress as it stands, at this
    /// point of the transfer and at the time `now`.
    pub fn ready(&self, phase: Phase, now: u64) -> (ready: bool)
        ensures
            ready == self@.displayer.can_show(phase, self@.stats, now),
    {
        self.progress_displayer.ready(phase, &self.snapshot(), now)
    }

    /// Whether `event` is in step with the transfer.
    pub fn in_step(&self, event: Event) -> (in_step: bool)
        ensures
            in_step == self@.in_step(event),
    {
        matches!(self.state, DriverState::Running) && match event {
            Event::Read(count) => self.pending == 0 && 0 < count && count <= self.buffer.len(),
            Event::EndOfInput | Event::ReadFailed => self.pending == 0,
            Event::Written | Event::WriteFailed => self.pending > 0,
        }
    }

    /// Whether the transfer can take `event` at the time `now`.
    pub fn admits(&self, event: Event, now: u64) -> (admits: bool)
        requires
            self.wf(),
        ensures
            admits == self@.admits(event, now),
    {
        if !self.in_step(event) {
            return false;
        }
        match event {
            Event::Read(count) => {
                match self.bytes_processed.checked_add(count as u128) {
                    None => false,
                    Some(bytes_processed) => {
                        if now.saturating_sub(self.last_display) > self.interval {
                            let progress_stats = ProgressStats {
                                bytes_processed,
                                expected_size: self.expected_size,
                                start_time: self.start_time,
                                last_display: self.last_display,
                                bytes_processed_since_last_display: self.bytes_processed_since_last_display
                                    + count as u128,
                            };
                            self.progress_displayer.ready(Phase::Progress, &progress_stats, now)
                        } else {
                            true
                        }
                    },
                }
            },
            _ => true,
        }
    }
}

impl PipeViewer {
    /// Shows the progress before the first byte is read, none yet, and
    /// starts the transfer.
    pub fn init_display(&mut self, now: u64) -> (text: String)
        requires
            old(self).wf(),
            old(self)@.state is Idle,
            old(self)@.displayer.can_show(Phase::Init, old(self)@.stats, now),
        ensures
            final(self).wf(),
            old(self)@.displayer.may_show(Phase::Init, old(self)@.stats, now, text@),
            final(self)@ == (Transfer {
                state: DriverState::Running,
                ..old(self)@.shown(Phase::Init, old(self)@.stats)
            }),
    {
        let progress_stats = self.snapshot();
        let text = self.progress_displayer.init_display(progress_stats, now);
        self.state = DriverState::Running;
        text
    }

    /// Shows the progress as it stands.
    pub fn display(&mut self, now: u64) -> (text: String)
        requires
            old(self).wf(),
            old(self)@.displayer.can_show(Phase::Progress, old(self)@.stats, now),
        ensures
            final(self).wf(),
            old(self)@.displayer.may_show(Phase::Progress, old(self)@.stats, now, text@),
            final(self)@ == old(self)@.shown(Phase::Progress, old(self)@.stats),
    {
        let progress_stats = self.snapshot();
        self.progress_displayer.display_progress(progress_stats, now)
    }

    /// Takes what came of the last read or write, at the time `now`, and
    /// says what to do next.
    ///
    /// After a read the bytes are counted, and their progress is shown if
    /// more than the interval has passed since it last was; the count since
    /// the last display starts anew then. The bytes are then to be written.
    /// After a write the next read is due. The end of the source and a
    /// failure of a read or of a write end the copy.
    pub fn process(&mut self, event: Event, now: u64) -> (step: Step)
        requires
            old(self).wf(),
            old(self)@.admits(event, now),
        ensures
            final(self).wf(),
            final(self)@ == old(self)@.after(event, now),
            step.action == Transfer::action(event),
            old(self)@.shows(event, now, step.text@),
    {
        match event {
            Event::Read(count) => {
                self.bytes_processed = self.bytes_processed + count as u128;
                self.bytes_processed_since_last_display = self.bytes_processed_since_last_display
                    + count as u128;
                self.pending = count;
                let mut text = String::new();
                if now.saturating_sub(self.last_display) > self.interval {
                    text = self.display(now);
                    self.last_display = now;
                    self.bytes_processed_since_last_display = 0;
                }
                Step { text, action: Action::Write }
            },
            Event::Written => {
                self.pending = 0;
                Step { text: String::new(), action: Action::Read }
            },
            Event::EndOfInput => {
                self.state = DriverState::Draining;
                Step { text: String::new(), action: Action::Stop }
            },
            Event::ReadFailed => {
                self.state = DriverState::Draining;
                self.failure = Some(TransferError::ReadError);
                Step { text: String::new(), action: Action::Stop }
            },
            Event::WriteFailed => {
                self.state = DriverState::Draining;
                self.failure = Some(TransferError::WriteError);
                self.pending = 0;
                Step { text: String::new(), action: Action::Stop }
            },
        }
    }

    /// Goes on with the next source, after one has ended without a failure.
    /// The counts and times go on as they are.
    pub fn resume(&mut self)
        requires
            old(self).wf(),
            old(self)@.state is Draining,
            old(self)@.failure is None,
        ensures
            final(self).wf(),
            final(self)@ == (Transfer { state: DriverState::Running, ..old(self)@ }),
    {
        self.state = DriverState::Running;
    }

    /// Shows the progress as it stands at the end, and ends the transfer.
    pub fn exit_display(&mut self, now: u64) -> (text: String)
        requires
            old(self).wf(),
            old(self)@.state is Draining,
            old(self)@.displayer.can_show(Phase::Exit, old(self)@.stats, now),
        ensures
            final(self).wf(),
            old(self)@.displayer.may_show(Phase::Exit, old(self)@.stats, now, text@),
            final(self)@ == (Transfer {
                state: DriverState::Done,
                ..old(self)@.shown(Phase::Exit, old(self)@.stats)
            }),
    {
        let progress_stats = self.snapshot();
        let text = self.progress_displayer.exit_display(progress_stats, now);
        self.state = DriverState::Done;
        text
    }
}

} // verus!
