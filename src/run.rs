//! The decisions of one supervised download run: what each event, a
//! cancellation or a broken output stream does to the run, and how the run
//! ends. The caller performs the I/O and hands the results in.
use vstd::prelude::*;
use crate::progress::{DownloadEvent, EventView};

verus! {

/// The mathematical value of a `RunState`.
pub struct RunView {
    pub final_filename: Option<Seq<char>>,
    pub had_error: bool,
    pub error_message: Option<Seq<char>>,
    pub max_percent: u64,
}

/// What a run has learnt so far.
pub struct RunState {
    final_filename: Option<String>,
    had_error: bool,
    error_message: Option<String>,
    max_percent: u64,
}

/// What the caller does after an event.
pub enum RunAction {
    /// Nothing to record.
    Idle,
    /// Record `percent` (hundredths, the highest seen in this run) and show
    /// speed and ETA.
    Progress { percent: u64, speed: Option<u64>, eta: Option<u64> },
    /// Show that the tool is post-processing.
    Processing { status: String },
}

pub enum ActionView {
    Idle,
    Progress { percent: u64, speed: Option<u64>, eta: Option<u64> },
    Processing { status: Seq<char> },
}

impl View for RunAction {
    type V = ActionView;

    open spec fn view(&self) -> ActionView {
        match self {
            RunAction::Idle => ActionView::Idle,
            RunAction::Progress { percent, speed, eta } => ActionView::Progress {
                percent: *percent,
                speed: *speed,
                eta: *eta,
            },
            RunAction::Processing { status } => ActionView::Processing { status: status@ },
        }
    }
}

/// How a run ended.
pub enum RunOutcome {
    /// The tool finished and named its file.
    Completed { filename: String },
    /// The tool, its output stream or the user stopped the run.
    Failed { message: String },
    /// The tool finished without naming a file.
    NoFile,
}

pub enum OutcomeView {
    Completed { filename: Seq<char> },
    Failed { message: Seq<char> },
    NoFile,
}

impl View for RunOutcome {
    type V = OutcomeView;

    open spec fn view(&self) -> OutcomeView {
        match self {
            RunOutcome::Completed { filename } => OutcomeView::Completed { filename: filename@ },
            RunOutcome::Failed { message } => OutcomeView::Failed { message: message@ },
            RunOutcome::NoFile => OutcomeView::NoFile,
        }
    }
}

pub open spec fn opt_str(o: Option<String>) -> Option<Seq<char>> {
    match o {
        Some(s) => Some(s@),
        None => None,
    }
}

impl View for RunState {
    type V = RunView;

    closed spec fn view(&self) -> RunView {
        RunView {
            final_filename: opt_str(self.final_filename),
            had_error: self.had_error,
            error_message: opt_str(self.error_message),
            max_percent: self.max_percent,
        }
    }
}

/// A run before its first event.
pub open spec fn run_start() -> RunView {
    RunView { final_filename: None, had_error: false, error_message: None, max_percent: 0 }
}

/// The percent a progress event reports, 0 when it gives none.
pub open spec fn reported_percent(e: EventView) -> u64 {
    match e {
        EventView::Progress(p) => match p.percent {
            Some(x) => x,
            None => 0,
        },
        _ => 0,
    }
}

/// The run after one event.
pub open spec fn run_step(s: RunView, e: EventView) -> RunView {
    match e {
        EventView::Progress(_) => RunView {
            max_percent: if reported_percent(e) > s.max_percent {
                reported_percent(e)
            } else {
                s.max_percent
            },
            ..s
        },
        EventView::DownloadStarted { filename } => RunView { final_filename: Some(filename), ..s },
        EventView::Finished { filename } => RunView { final_filename: Some(filename), ..s },
        EventView::Error { message } => RunView {
            had_error: true,
            error_message: Some(message),
            ..s
        },
        _ => s,
    }
}

/// What the caller does after one event.
pub open spec fn step_action(s: RunView, e: EventView) -> ActionView {
    match e {
        EventView::Progress(p) => ActionView::Progress {
            percent: run_step(s, e).max_percent,
            speed: p.speed,
            eta: p.eta,
        },
        EventView::PostProcessing { status } => ActionView::Processing { status },
        _ => ActionView::Idle,
    }
}

/// The run after a sequence of events.
pub open spec fn run_all(s: RunView, events: Seq<EventView>) -> RunView
    decreases events.len(),
{
    if events.len() == 0 {
        s
    } else {
        run_step(run_all(s, events.drop_last()), events.last())
    }
}

/// The run once the user cancelled it.
pub open spec fn run_cancelled(s: RunView) -> RunView {
    RunView { had_error: true, error_message: Some("Cancelled by user"@), ..s }
}

/// The run once its output stream broke with `message`.
pub open spec fn run_broken(s: RunView, message: Seq<char>) -> RunView {
    RunView { had_error: true, error_message: Some(message), ..s }
}

/// How a run that has seen everything ends: failed on any error, else
/// completed with the file last named, else without a file.
pub open spec fn outcome_of(s: RunView) -> OutcomeView {
    if s.had_error {
        OutcomeView::Failed {
            message: match s.error_message {
                Some(m) => m,
                None => "Unknown error"@,
            },
        }
    } else {
        match s.final_filename {
            Some(f) => OutcomeView::Completed { filename: f },
            None => OutcomeView::NoFile,
        }
    }
}

impl RunState {
    pub fn new() -> (r: Self)
        ensures
            r@ == run_start(),
    {
        RunState { final_filename: None, had_error: false, error_message: None, max_percent: 0 }
    }

    /// The highest percent seen in this run, in hundredths.
    pub fn max_percent(&self) -> (r: u64)
        ensures
            r == self@.max_percent,
    {
        self.max_percent
    }

    /// Takes one classified event into account.
    pub fn on_event(&mut self, event: &DownloadEvent) -> (r: RunAction)
        ensures
            final(self)@ == run_step(old(self)@, event@),
            r@ == step_action(old(self)@, event@),
    {
        match event {
            DownloadEvent::Progress(p) => {
                let percent = match p.percent {
                    Some(x) => x,
                    None => 0,
                };
                if percent > self.max_percent {
                    self.max_percent = percent;
                }
                RunAction::Progress { percent: self.max_percent, speed: p.speed, eta: p.eta }
            },
            DownloadEvent::DownloadStarted { filename } => {
                self.final_filename = Some(filename.clone());
                RunAction::Idle
            },
            DownloadEvent::PostProcessing { status } => RunAction::Processing {
                status: status.clone(),
            },
            DownloadEvent::Finished { filename } => {
                self.final_filename = Some(filename.clone());
                RunAction::Idle
            },
            DownloadEvent::Error { message } => {
                self.had_error = true;
                self.error_message = Some(message.clone());
                RunAction::Idle
            },
            _ => RunAction::Idle,
        }
    }

    /// The user's cancellation won the race against the next event.
    pub fn on_cancel(&mut self)
        ensures
            final(self)@ == run_cancelled(old(self)@),
    {
        self.had_error = true;
        self.error_message = Some("Cancelled by user".to_owned());
    }

    /// Reading the tool's output failed with `message`.
    pub fn on_stream_error(&mut self, message: String)
        ensures
            final(self)@ == run_broken(old(self)@, message@),
    {
        self.had_error = true;
        self.error_message = Some(message);
    }

    /// How the run ends.
    pub fn outcome(&self) -> (r: RunOutcome)
        ensures
            r@ == outcome_of(self@),
    {
        if self.had_error {
            let message = match &self.error_message {
                Some(m) => m.clone(),
                None => "Unknown error".to_owned(),
            };
            RunOutcome::Failed { message }
        } else {
            match &self.final_filename {
                Some(f) => RunOutcome::Completed { filename: f.clone() },
                None => RunOutcome::NoFile,
            }
        }
    }
}

/// The displayed percent never falls: after more events of a run it is at
/// least what it was after fewer, and it is at least every percent reported
/// so far.
pub proof fn lemma_displayed_percent_monotone(s: RunView, events: Seq<EventView>, i: int, j: int)
    requires
        0 <= i <= j <= events.len(),
    ensures
        run_all(s, events.take(i)).max_percent <= run_all(s, events.take(j)).max_percent,
        forall|k: int|
            0 <= k < j && (#[trigger] events[k] is Progress) ==> reported_percent(events[k])
                <= run_all(s, events.take(j)).max_percent,
    decreases j,
{
    if j > 0 {
        let prev = events.take(j - 1);
        assert(events.take(j).drop_last() == prev);
        assert(events.take(j).last() == events[j - 1]);
        if i < j {
            lemma_displayed_percent_monotone(s, events, i, j - 1);
        } else {
            lemma_displayed_percent_monotone(s, events, j - 1, j - 1);
        }
    }
}

/// Each progress event shows the highest percent of the run so far: the
/// larger of what was shown before and what the event reports.
pub proof fn lemma_displayed_percent_is_running_max(s: RunView, e: EventView)
    requires
        e is Progress,
    ensures
        step_action(s, e) matches ActionView::Progress { percent, .. } && percent == (
        if reported_percent(e) > s.max_percent {
            reported_percent(e)
        } else {
            s.max_percent
        }),
{
}

} // verus!
