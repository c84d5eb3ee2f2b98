use vstd::prelude::*;
use crate::chapter::{
    applied, decide, modify_or_push_chapter, offsets_wf, views, Chapter, ChapterView, Decision,
    LiveStatus,
};
use crate::time::Time;

verus! {

/// A recording shorter than this many seconds is thrown away.
pub const MIN_SESSION_SECS: u64 = 15;

/// The seconds between two ticks of the recorder's loop.
pub const TICK_SECS: u64 = 5;

/// What is kept of a recording while it runs: the chapters seen so far.
pub struct Encoder {
    pub chapters: Vec<Chapter>,
}

/// Where the recorder stands between two ticks.
pub enum State {
    /// No recording runs.
    Idle,
    /// A recording runs.
    Capturing(Encoder),
    /// A stop was asked for; nothing more happens.
    Stopped,
}

/// What a non-blocking look at the capture process found.
#[derive(Debug, Clone, Copy, PartialEq, Eq, Structural)]
pub enum CaptureStatus {
    Running,
    Exited,
    /// The look itself failed; this ends the recording as an exit does.
    Failed,
}

/// What happened since the last transition.
pub enum Event {
    /// While idle: the channel is not on air.
    Offline,
    /// While idle: asking the channel, or starting the processes, failed.
    WatchFailed,
    /// While idle: the channel is on air and the processes were started.
    Started(LiveStatus),
    /// While capturing: one tick's look at the capture process, the time
    /// into the recording, and the channel's status where it was fetched.
    Observed { capture: CaptureStatus, elapsed: Time, status: Option<LiveStatus> },
    /// A stop was asked for, at this time into the recording if one runs.
    Shutdown { elapsed: Time },
}

/// What becomes of a recording that ended.
pub enum Finish {
    /// No recording ended.
    Nothing,
    /// Remove the recording's directory.
    Discard,
    /// Keep the recording and embed these chapters.
    Embed(Vec<Chapter>),
}

/// What the loop does after a transition.
#[derive(Debug, Clone, Copy, PartialEq, Eq, Structural)]
pub enum Next {
    /// Wait one tick, unless a stop is asked for first.
    Wait,
    /// Go on at once.
    Retry,
    /// Leave the loop.
    Exit,
}

/// A transition: the new state and what the caller has to carry out, in
/// the order `terminate`, `finish`, `next`.
pub struct Transition {
    pub state: State,
    /// Stop the capture process and wait for it.
    pub terminate: bool,
    pub finish: Finish,
    /// The chapters changed because of the status just seen.
    pub announce: bool,
    pub next: Next,
}

/// A state as plain values.
pub enum StateView {
    Idle,
    Capturing(Seq<ChapterView>),
    Stopped,
}

/// What becomes of a recording, as plain values.
pub enum FinishView {
    Nothing,
    Discard,
    Embed(Seq<ChapterView>),
}

/// A transition as plain values.
pub struct TransitionView {
    pub state: StateView,
    pub terminate: bool,
    pub finish: FinishView,
    pub announce: bool,
    pub next: Next,
}

impl View for State {
    type V = StateView;

    open spec fn view(&self) -> StateView {
        match *self {
            State::Idle => StateView::Idle,
            State::Capturing(encoder) => StateView::Capturing(views(encoder.chapters@)),
            State::Stopped => StateView::Stopped,
        }
    }
}

impl View for Finish {
    type V = FinishView;

    open spec fn view(&self) -> FinishView {
        match *self {
            Finish::Nothing => FinishView::Nothing,
            Finish::Discard => FinishView::Discard,
            Finish::Embed(chapters) => FinishView::Embed(views(chapters@)),
        }
    }
}

impl View for Transition {
    type V = TransitionView;

    open spec fn view(&self) -> TransitionView {
        TransitionView {
            state: self.state@,
            terminate: self.terminate,
            finish: self.finish@,
            announce: self.announce,
            next: self.next,
        }
    }
}

impl State {
    /// Every offset of a running recording can be counted in seconds.
    pub open spec fn wf(self) -> bool {
        match self {
            State::Capturing(encoder) => offsets_wf(encoder.chapters@),
            _ => true,
        }
    }
}

impl Event {
    /// The time that the event carries can be counted in seconds.
    pub open spec fn wf(self) -> bool {
        match self {
            Event::Observed { capture, elapsed, status } => elapsed.wf(),
            Event::Shutdown { elapsed } => elapsed.wf(),
            _ => true,
        }
    }
}

/// What becomes of a recording with these chapters that ended after
/// `elapsed`: it is discarded if shorter than the minimum, else kept.
pub open spec fn concluded(chapters: Seq<ChapterView>, elapsed: Time) -> FinishView {
    if elapsed.total_secs() < MIN_SESSION_SECS {
        FinishView::Discard
    } else {
        FinishView::Embed(chapters)
    }
}

/// A transition that changes nothing and asks for nothing but `next`.
pub open spec fn stay(state: StateView, next: Next) -> TransitionView {
    TransitionView { state, terminate: false, finish: FinishView::Nothing, announce: false, next }
}

/// The recorder's rule: for each state and event, the new state and what is
/// to be carried out.
pub open spec fn transition(state: StateView, event: Event) -> TransitionView {
    match (state, event) {
        (StateView::Stopped, _) => stay(StateView::Stopped, Next::Exit),
        (StateView::Idle, Event::Shutdown { elapsed }) => stay(StateView::Stopped, Next::Exit),
        (StateView::Idle, Event::Started(status)) => TransitionView {
            state: StateView::Capturing(seq![Chapter(Time(0, 0, 0), status)@]),
            terminate: false,
            finish: FinishView::Nothing,
            announce: true,
            next: Next::Wait,
        },
        (StateView::Idle, _) => stay(StateView::Idle, Next::Wait),
        (StateView::Capturing(history), Event::Shutdown { elapsed }) => TransitionView {
            state: StateView::Stopped,
            terminate: true,
            finish: concluded(history, elapsed),
            announce: false,
            next: Next::Exit,
        },
        (StateView::Capturing(history), Event::Observed { capture, elapsed, status }) => {
            if capture != CaptureStatus::Running {
                TransitionView {
                    state: StateView::Idle,
                    terminate: false,
                    finish: concluded(history, elapsed),
                    announce: false,
                    next: Next::Retry,
                }
            } else {
                match status {
                    Some(seen) => {
                        let candidate = Chapter(elapsed, seen)@;
                        let decision = decide(history, candidate);
                        TransitionView {
                            state: StateView::Capturing(applied(history, candidate, decision)),
                            terminate: false,
                            finish: FinishView::Nothing,
                            announce: decision != Decision::Ignore,
                            next: Next::Wait,
                        }
                    },
                    None => stay(state, Next::Wait),
                }
            }
        },
        (StateView::Capturing(history), _) => stay(state, Next::Wait),
    }
}

/// Whether a recording of this length is thrown away.
pub fn is_too_short(elapsed: Time) -> (short: bool)
    requires
        elapsed.wf(),
    ensures
        short == (elapsed.total_secs() < MIN_SESSION_SECS),
{
    elapsed.as_secs() < MIN_SESSION_SECS
}

/// Ends a recording: discards it or hands its chapters out for embedding.
pub fn conclude(encoder: Encoder, elapsed: Time) -> (finish: Finish)
    requires
        elapsed.wf(),
    ensures
        finish@ == concluded(views(encoder.chapters@), elapsed),
{
    if is_too_short(elapsed) {
        Finish::Discard
    } else {
        Finish::Embed(encoder.chapters)
    }
}

fn unchanged(state: State, next: Next) -> (t: Transition)
    ensures
        t@ == stay(state@, next),
        t.state == state,
{
    Transition { state, terminate: false, finish: Finish::Nothing, announce: false, next }
}

/// Carries out one transition of the recorder.
pub fn step(state: State, event: Event) -> (t: Transition)
    requires
        state.wf(),
        event.wf(),
    ensures
        t@ == transition(state@, event),
        t.state.wf(),
{
    match state {
        State::Stopped => unchanged(State::Stopped, Next::Exit),
        State::Idle => match event {
            Event::Shutdown { elapsed } => unchanged(State::Stopped, Next::Exit),
            Event::Started(status) => {
                let mut chapters: Vec<Chapter> = Vec::new();
                chapters.push(Chapter(Time(0, 0, 0), status));
                assert(views(chapters@) =~= seq![Chapter(Time(0, 0, 0), status)@]);
                Transition {
                    state: State::Capturing(Encoder { chapters }),
                    terminate: false,
                    finish: Finish::Nothing,
                    announce: true,
                    next: Next::Wait,
                }
            },
            _ => unchanged(State::Idle, Next::Wait),
        },
        State::Capturing(encoder) => match event {
            Event::Shutdown { elapsed } => Transition {
                state: State::Stopped,
                terminate: true,
                finish: conclude(encoder, elapsed),
                announce: false,
                next: Next::Exit,
            },
            Event::Observed { capture, elapsed, status } => {
                if capture != CaptureStatus::Running {
                    Transition {
                        state: State::Idle,
                        terminate: false,
                        finish: conclude(encoder, elapsed),
                        announce: false,
                        next: Next::Retry,
                    }
                } else {
                    match status {
                        Some(seen) => {
                            let mut chapters = encoder.chapters;
                            let announce = modify_or_push_chapter(
                                &mut chapters,
                                Chapter(elapsed, seen),
                            );
                            Transition {
                                state: State::Capturing(Encoder { chapters }),
                                terminate: false,
                                finish: Finish::Nothing,
                                announce,
                                next: Next::Wait,
                            }
                        },
                        None => unchanged(State::Capturing(encoder), Next::Wait),
                    }
                }
            },
            _ => unchanged(State::Capturing(encoder), Next::Wait),
        },
    }
}

/// How many recordings are ended, kept or discarded, while the events are
/// taken in turn from `state`.
pub open spec fn finishes(state: StateView, events: Seq<Event>) -> nat
    decreases events.len(),
{
    if events.len() == 0 {
        0
    } else {
        let t = transition(state, events[0]);
        let rest = finishes(t.state, events.drop_first());
        if t.finish is Nothing {
            rest
        } else {
            rest + 1
        }
    }
}

/// A recording that ends before the minimum length is discarded, whatever
/// ended it: its chapters are handed out to nobody.
pub proof fn lemma_short_session_is_discarded(history: Seq<ChapterView>, event: Event)
    requires
        match event {
            Event::Observed { capture, elapsed, status } => capture != CaptureStatus::Running
                && elapsed.total_secs() < MIN_SESSION_SECS,
            Event::Shutdown { elapsed } => elapsed.total_secs() < MIN_SESSION_SECS,
            _ => false,
        },
    ensures
        transition(StateView::Capturing(history), event).finish == FinishView::Discard,
        !(transition(StateView::Capturing(history), event).state is Capturing),
{
}

/// Where the capture process has ended, the recording ends with the
/// chapters it had: a status seen in the same tick decides nothing.
pub proof fn lemma_exit_precedes_status(
    history: Seq<ChapterView>,
    capture: CaptureStatus,
    elapsed: Time,
    status: Option<LiveStatus>,
)
    requires
        capture != CaptureStatus::Running,
    ensures
        transition(
            StateView::Capturing(history),
            Event::Observed { capture, elapsed, status },
        ) == transition(
            StateView::Capturing(history),
            Event::Observed { capture, elapsed, status: None },
        ),
        transition(
            StateView::Capturing(history),
            Event::Observed { capture, elapsed, status },
        ) == (TransitionView {
            state: StateView::Idle,
            terminate: false,
            finish: concluded(history, elapsed),
            announce: false,
            next: Next::Retry,
        }),
{
}

/// Once stopped, no event ends a recording.
pub proof fn lemma_stopped_finishes_nothing(events: Seq<Event>)
    ensures
        finishes(StateView::Stopped, events) == 0,
    decreases events.len(),
{
    if events.len() > 0 {
        lemma_stopped_finishes_nothing(events.drop_first());
    }
}

/// A stop asked for while a recording runs ends that recording exactly
/// once, whatever events follow, an exit of the capture process among them.
pub proof fn lemma_shutdown_finishes_once(
    history: Seq<ChapterView>,
    elapsed: Time,
    later: Seq<Event>,
)
    ensures
        finishes(StateView::Capturing(history), seq![Event::Shutdown { elapsed }] + later) == 1,
        transition(StateView::Capturing(history), Event::Shutdown { elapsed }).terminate,
        transition(StateView::Capturing(history), Event::Shutdown { elapsed }).next == Next::Exit,
{
    let events = seq![Event::Shutdown { elapsed }] + later;
    assert(events.drop_first() =~= later);
    lemma_stopped_finishes_nothing(later);
}

} // verus!
