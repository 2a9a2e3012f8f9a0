//! One connection from the first read to its end.
//!
//! A connection task first frames the request, then sends the preamble, and
//! from then on replays the frame set forever: the header of a part, the
//! frame, a pause, the next frame. It ends only when the request overflows
//! the buffer or a write fails. The task itself touches no socket: it says
//! what to do next, and is told what came of it.

use vstd::arithmetic::div_mod::lemma_add_mod_noop_right;
use vstd::arithmetic::div_mod::lemma_small_mod;
use vstd::prelude::*;
use crate::frames::{position_after, successor, FrameSet};
use crate::framing::{read_limit, Framer, FramerState, FramerStatus, joined, verdict,
    lemma_chunking_does_not_matter};
use crate::wire::{part_header, part_header_bytes, preamble, preamble_bytes, PACING_MILLIS};

verus! {

/// Why a connection task ended.
#[derive(Clone, Copy, Debug, PartialEq, Eq, Structural)]
pub enum TaskError {
    /// The request outgrew the read buffer before its end was seen.
    FramingOverflow,
    /// A write to the peer failed.
    WriteFailed,
}

impl TaskError {
    /// The words that stand for `self` in a report.
    pub open spec fn message_text(self) -> Seq<char> {
        match self {
            TaskError::FramingOverflow => "request headers exceed the read buffer"@,
            TaskError::WriteFailed => "write to the peer failed"@,
        }
    }

    /// A short description of the error, for a report.
    pub fn message(self) -> (text: &'static str)
        ensures
            text@ == self.message_text(),
    {
        match self {
            TaskError::FramingOverflow => "request headers exceed the read buffer",
            TaskError::WriteFailed => "write to the peer failed",
        }
    }
}

/// What a connection task is busy with.
#[derive(Clone, Copy, Debug, PartialEq, Eq, Structural)]
pub enum Phase {
    /// Reading the request.
    Reading,
    /// Sending the response preamble.
    Preamble,
    /// Sending the header of the current frame's part.
    PartHeader,
    /// Sending the current frame.
    FrameBody,
    /// Pausing after the current frame.
    Pause,
    /// Ended, for the reason given.
    Failed(TaskError),
}

/// What the program around a task is asked to do, as a mathematical value.
pub enum ActionView {
    /// Read at most `limit` bytes from the peer.
    Read { limit: nat },
    /// Write all of these bytes to the peer.
    Send(Seq<u8>),
    /// Wait for `millis` milliseconds.
    Sleep { millis: nat },
    /// Drop the connection and report the error.
    Finish(TaskError),
}

/// What happened to the action a task asked for, as a mathematical value.
pub enum EventView {
    /// A read returned these bytes; none means that the peer has closed.
    Received(Seq<u8>),
    /// A read failed.
    ReadFailed,
    /// A write went through.
    Written,
    /// A write failed.
    WriteFailed,
    /// A wait is over.
    Elapsed,
}

/// A connection task as a mathematical value.
pub struct TaskState {
    /// The frames that the task replays.
    pub frames: Seq<Seq<u8>>,
    /// The framing of the request.
    pub framer: FramerState,
    /// What the task is busy with.
    pub phase: Phase,
    /// Position of the current frame.
    pub frame_index: nat,
}

/// The phase that follows the reading of the request, by what framing decided.
pub open spec fn phase_after_read(status: FramerStatus) -> Phase {
    match status {
        FramerStatus::NeedMore => Phase::Reading,
        FramerStatus::Ready => Phase::Preamble,
        FramerStatus::Overflow => Phase::Failed(TaskError::FramingOverflow),
    }
}

impl TaskState {
    /// A task that has just been handed its connection.
    pub open spec fn initial(frames: Seq<Seq<u8>>, capacity: nat) -> TaskState {
        TaskState {
            frames,
            framer: FramerState::initial(capacity),
            phase: Phase::Reading,
            frame_index: 0,
        }
    }

    /// The task is consistent: it has frames, its position is one of them,
    /// it reads only as long as the request is undecided, and it stands at
    /// the first frame until the preamble is out.
    pub open spec fn wf(self) -> bool {
        &&& self.frames.len() > 0
        &&& self.frame_index < self.frames.len()
        &&& self.phase == Phase::Reading ==> self.framer.status == FramerStatus::NeedMore
        &&& (self.phase == Phase::Reading || self.phase == Phase::Preamble) ==> self.frame_index
            == 0
    }

    /// The frame at the task's position.
    pub open spec fn current_frame(self) -> Seq<u8> {
        self.frames[self.frame_index as int]
    }

    /// What the task wants done next.
    pub open spec fn action(self) -> ActionView {
        match self.phase {
            Phase::Reading => ActionView::Read { limit: read_limit(self.framer) },
            Phase::Preamble => ActionView::Send(preamble_bytes()),
            Phase::PartHeader => ActionView::Send(part_header_bytes(self.current_frame().len())),
            Phase::FrameBody => ActionView::Send(self.current_frame()),
            Phase::Pause => ActionView::Sleep { millis: PACING_MILLIS as nat },
            Phase::Failed(error) => ActionView::Finish(error),
        }
    }

    /// The task after the request's framing moved to `framer`.
    pub open spec fn with_framer(self, framer: FramerState) -> TaskState {
        TaskState { framer, phase: phase_after_read(framer.status), ..self }
    }

    /// The task in another phase.
    pub open spec fn in_phase(self, phase: Phase) -> TaskState {
        TaskState { phase, ..self }
    }

    /// The task after `event`. An event that does not answer the action the
    /// task is waiting on changes nothing. A failed read ends the request
    /// as a closed connection does.
    pub open spec fn next(self, event: EventView) -> TaskState {
        match (self.phase, event) {
            (Phase::Reading, EventView::Received(chunk)) => self.with_framer(
                self.framer.accept(chunk),
            ),
            (Phase::Reading, EventView::ReadFailed) => self.with_framer(
                self.framer.accept(Seq::empty()),
            ),
            (Phase::Preamble, EventView::Written) => self.in_phase(Phase::PartHeader),
            (Phase::PartHeader, EventView::Written) => self.in_phase(Phase::FrameBody),
            (Phase::FrameBody, EventView::Written) => self.in_phase(Phase::Pause),
            (Phase::Pause, EventView::Elapsed) => TaskState {
                phase: Phase::PartHeader,
                frame_index: successor(self.frame_index, self.frames.len()),
                ..self
            },
            (Phase::Preamble, EventView::WriteFailed)
            | (Phase::PartHeader, EventView::WriteFailed)
            | (Phase::FrameBody, EventView::WriteFailed) => self.in_phase(
                Phase::Failed(TaskError::WriteFailed),
            ),
            _ => self,
        }
    }

    /// The task after one full round: part header written, frame written,
    /// pause over.
    pub open spec fn after_round(self) -> TaskState {
        self.next(EventView::Written).next(EventView::Written).next(EventView::Elapsed)
    }

    /// The task after `rounds` full rounds.
    pub open spec fn after_rounds(self, rounds: nat) -> TaskState
        decreases rounds,
    {
        if rounds == 0 {
            self
        } else {
            self.after_rounds((rounds - 1) as nat).after_round()
        }
    }

    /// The task after the reads `chunks`, in order.
    pub open spec fn after_reads(self, chunks: Seq<Seq<u8>>) -> TaskState
        decreases chunks.len(),
    {
        if chunks.len() == 0 {
            self
        } else {
            self.after_reads(chunks.drop_last()).next(EventView::Received(chunks.last()))
        }
    }
}

/// What the program around a task is asked to do.
#[derive(Debug)]
pub enum Action<'a> {
    /// Read at most `limit` bytes from the peer.
    Read { limit: usize },
    /// Write all of these bytes to the peer.
    Send(Vec<u8>),
    /// Write all the bytes of this frame to the peer.
    SendFrame(&'a [u8]),
    /// Wait for `millis` milliseconds.
    Sleep { millis: u64 },
    /// Drop the connection and report the error.
    Finish(TaskError),
}

impl<'a> View for Action<'a> {
    type V = ActionView;

    open spec fn view(&self) -> ActionView {
        match *self {
            Action::Read { limit } => ActionView::Read { limit: limit as nat },
            Action::Send(bytes) => ActionView::Send(bytes@),
            Action::SendFrame(bytes) => ActionView::Send(bytes@),
            Action::Sleep { millis } => ActionView::Sleep { millis: millis as nat },
            Action::Finish(error) => ActionView::Finish(error),
        }
    }
}

/// What happened to the action a task asked for.
#[derive(Debug)]
pub enum Event<'a> {
    /// A read returned these bytes; none means that the peer has closed.
    Received(&'a [u8]),
    /// A read failed.
    ReadFailed,
    /// A write went through.
    Written,
    /// A write failed.
    WriteFailed,
    /// A wait is over.
    Elapsed,
}

impl<'a> View for Event<'a> {
    type V = EventView;

    open spec fn view(&self) -> EventView {
        match *self {
            Event::Received(bytes) => EventView::Received(bytes@),
            Event::ReadFailed => EventView::ReadFailed,
            Event::Written => EventView::Written,
            Event::WriteFailed => EventView::WriteFailed,
            Event::Elapsed => EventView::Elapsed,
        }
    }
}

/// The work done for one accepted connection.
pub struct ConnectionTask<'a> {
    frames: &'a FrameSet,
    framer: Framer,
    phase: Phase,
    frame_index: usize,
}

impl<'a> ConnectionTask<'a> {
    /// The task as a mathematical value.
    pub closed spec fn view(&self) -> TaskState {
        TaskState {
            frames: self.frames@,
            framer: self.framer@,
            phase: self.phase,
            frame_index: self.frame_index as nat,
        }
    }

    /// The task is consistent, and so are its frame set and its framer.
    pub closed spec fn wf(&self) -> bool {
        &&& self.frames.wf()
        &&& self.framer.wf()
        &&& self@.wf()
    }

    /// A task for a connection that was just accepted. It will replay
    /// `frames` and reads the request into a buffer of `capacity` bytes.
    pub fn new(frames: &'a FrameSet, capacity: usize) -> (task: ConnectionTask<'a>)
        requires
            frames.wf(),
        ensures
            task.wf(),
            task@ == TaskState::initial(frames@, capacity as nat),
    {
        proof {
            frames.lemma_never_empty();
        }
        ConnectionTask { frames, framer: Framer::new(capacity), phase: Phase::Reading, frame_index: 0 }
    }

    /// What the task is busy with.
    pub fn phase(&self) -> (phase: Phase)
        ensures
            phase == self@.phase,
    {
        self.phase
    }

    /// Position of the current frame.
    pub fn frame_index(&self) -> (index: usize)
        ensures
            index == self@.frame_index,
    {
        self.frame_index
    }

    /// The error that ended the task, if it has ended.
    pub fn error(&self) -> (error: Option<TaskError>)
        ensures
            error == match self@.phase {
                Phase::Failed(e) => Some(e),
                _ => None,
            },
    {
        match self.phase {
            Phase::Failed(e) => Some(e),
            _ => None,
        }
    }

    /// What the task wants done next. Asking changes nothing: the answer
    /// stays the same until an event is handed in.
    pub fn pending(&self) -> (action: Action<'a>)
        requires
            self.wf(),
        ensures
            action@ == self@.action(),
    {
        let frames: &'a FrameSet = self.frames;
        match self.phase {
            Phase::Reading => Action::Read { limit: self.framer.read_limit() },
            Phase::Preamble => Action::Send(preamble()),
            Phase::PartHeader => Action::Send(part_header(frames.frame_len(self.frame_index))),
            Phase::FrameBody => Action::SendFrame(frames.frame(self.frame_index)),
            Phase::Pause => Action::Sleep { millis: PACING_MILLIS },
            Phase::Failed(error) => Action::Finish(error),
        }
    }

    /// Tells the task what came of the action it asked for.
    pub fn advance(&mut self, event: Event<'_>)
        requires
            old(self).wf(),
        ensures
            final(self).wf(),
            final(self)@ == old(self)@.next(event@),
    {
        match self.phase {
            Phase::Reading => {
                let status = match event {
                    Event::Received(chunk) => self.framer.feed(chunk),
                    Event::ReadFailed => {
                        let nothing: Vec<u8> = Vec::new();
                        assert(nothing@ =~= Seq::empty());
                        self.framer.feed(nothing.as_slice())
                    },
                    _ => FramerStatus::NeedMore,
                };
                match status {
                    FramerStatus::NeedMore => {},
                    FramerStatus::Ready => {
                        self.phase = Phase::Preamble;
                    },
                    FramerStatus::Overflow => {
                        self.phase = Phase::Failed(TaskError::FramingOverflow);
                    },
                }
            },
            Phase::Preamble => match event {
                Event::Written => {
                    self.phase = Phase::PartHeader;
                },
                Event::WriteFailed => {
                    self.phase = Phase::Failed(TaskError::WriteFailed);
                },
                _ => {},
            },
            Phase::PartHeader => match event {
                Event::Written => {
                    self.phase = Phase::FrameBody;
                },
                Event::WriteFailed => {
                    self.phase = Phase::Failed(TaskError::WriteFailed);
                },
                _ => {},
            },
            Phase::FrameBody => match event {
                Event::Written => {
                    self.phase = Phase::Pause;
                },
                Event::WriteFailed => {
                    self.phase = Phase::Failed(TaskError::WriteFailed);
                },
                _ => {},
            },
            Phase::Pause => match event {
                Event::Elapsed => {
                    self.frame_index = self.frames.next_index(self.frame_index);
                    self.phase = Phase::PartHeader;
                },
                _ => {},
            },
            Phase::Failed(_) => {},
        }
    }
}

/// Frames go out in a strict cycle. A task that is about to send a part
/// header, after any number of further rounds, stands that many frames
/// further on, counted cyclically; and each round is the header that
/// announces the exact length of its frame, then the frame itself, then one
/// pause of the pacing interval.
pub proof fn lemma_emission_is_cyclic(task: TaskState, rounds: nat)
    requires
        task.wf(),
        task.phase == Phase::PartHeader,
    ensures
        task.after_rounds(rounds).wf(),
        task.after_rounds(rounds).frames == task.frames,
        task.after_rounds(rounds).framer == task.framer,
        task.after_rounds(rounds).phase == Phase::PartHeader,
        task.after_rounds(rounds).frame_index == position_after(
            task.frame_index,
            rounds,
            task.frames.len(),
        ),
        task.after_rounds(rounds).action() == ActionView::Send(
            part_header_bytes(
                task.frames[position_after(task.frame_index, rounds, task.frames.len()) as int].len(),
            ),
        ),
        task.after_rounds(rounds).next(EventView::Written).action() == ActionView::Send(
            task.frames[position_after(task.frame_index, rounds, task.frames.len()) as int],
        ),
        task.after_rounds(rounds).next(EventView::Written).next(EventView::Written).action()
            == (ActionView::Sleep { millis: 40 }),
    decreases rounds,
{
    let count = task.frames.len();
    if rounds == 0 {
        lemma_small_mod(task.frame_index, count);
    } else {
        let earlier = (rounds - 1) as nat;
        lemma_emission_is_cyclic(task, earlier);
        lemma_add_mod_noop_right(1, (task.frame_index + earlier) as int, count as int);
    }
}

/// A failed write ends the task with that error, at whatever point of the
/// response it happens.
pub proof fn lemma_write_failure_ends_task(task: TaskState)
    requires
        task.phase == Phase::Preamble || task.phase == Phase::PartHeader || task.phase
            == Phase::FrameBody,
    ensures
        task.next(EventView::WriteFailed).action() == ActionView::Finish(TaskError::WriteFailed),
{
}

/// A task that has ended stays as it is, whatever it is told.
pub proof fn lemma_ended_task_stays_ended(task: TaskState, event: EventView)
    requires
        task.phase is Failed,
    ensures
        task.next(event) == task,
{
}

/// Once the request is received the response opens with the preamble and
/// then the first frame, whatever the request held and however it ended.
pub proof fn lemma_response_opens_with_preamble(task: TaskState, event: EventView)
    requires
        task.wf(),
        task.phase == Phase::Reading,
        task.next(event).phase != Phase::Reading,
        task.next(event).phase != Phase::Failed(TaskError::FramingOverflow),
    ensures
        task.next(event).action() == ActionView::Send(preamble_bytes()),
        task.next(event).next(EventView::Written).action() == ActionView::Send(
            part_header_bytes(task.frames[0].len()),
        ),
{
}

/// A peer that closes, or a read that fails, before the end of the headers
/// still gets the response.
pub proof fn lemma_close_starts_response(task: TaskState)
    requires
        task.wf(),
        task.phase == Phase::Reading,
    ensures
        task.next(EventView::Received(Seq::empty())).action() == ActionView::Send(
            preamble_bytes(),
        ),
        task.next(EventView::ReadFailed).action() == ActionView::Send(preamble_bytes()),
{
}

/// What a fresh task does after any run of non-empty reads depends only on
/// the bytes that arrived in total: it goes on reading, starts the response,
/// or ends with an overflow, as `verdict` says of those bytes.
pub proof fn lemma_reads_decide_by_verdict(
    frames: Seq<Seq<u8>>,
    capacity: nat,
    chunks: Seq<Seq<u8>>,
)
    requires
        frames.len() > 0,
        forall|k: int| 0 <= k < chunks.len() ==> (#[trigger] chunks[k]).len() > 0,
    ensures
        TaskState::initial(frames, capacity).after_reads(chunks).wf(),
        TaskState::initial(frames, capacity).after_reads(chunks).frames == frames,
        TaskState::initial(frames, capacity).after_reads(chunks).frame_index == 0,
        TaskState::initial(frames, capacity).after_reads(chunks).framer == FramerState::initial(
            capacity,
        ).accept_all(chunks),
        TaskState::initial(frames, capacity).after_reads(chunks).phase == phase_after_read(
            verdict(capacity, joined(chunks)),
        ),
    decreases chunks.len(),
{
    lemma_chunking_does_not_matter(capacity, chunks);
    if chunks.len() > 0 {
        lemma_reads_decide_by_verdict(frames, capacity, chunks.drop_last());
        lemma_chunking_does_not_matter(capacity, chunks.drop_last());
    }
}

/// The stream does not depend on the request. Two tasks over the same frames
/// that stand at the same point of the response ask for the same action, and
/// after the same event they stand at the same point again, whatever each
/// of them has read.
pub proof fn lemma_stream_ignores_request(one: TaskState, other: TaskState, event: EventView)
    requires
        one.frames == other.frames,
        one.phase == other.phase,
        one.phase != Phase::Reading,
        one.frame_index == other.frame_index,
    ensures
        one.action() == other.action(),
        one.next(event).frames == other.next(event).frames,
        one.next(event).phase == other.next(event).phase,
        one.next(event).phase != Phase::Reading,
        one.next(event).frame_index == other.next(event).frame_index,
        one.next(event).action() == other.next(event).action(),
{
}

} // verus!
