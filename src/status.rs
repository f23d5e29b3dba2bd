//! The in-memory, lossy status of running jobs, keyed by job id, for quick
//! polling. An entry is created when a run starts, replaced on every event
//! and removed a fixed delay after the run ends.
use vstd::prelude::*;
use crate::job::{job_completed, job_failed, JobRecord, JobView, TransitionError};
use crate::progress::EventView;
use crate::text::str_eq;
use crate::run::{
    outcome_of, run_all, run_cancelled, run_start, ActionView, OutcomeView, RunAction, RunOutcome,
    RunView,
};

verus! {

/// Seconds that a finished job's status stays visible.
pub const CLEANUP_DELAY_SECS: u64 = 5;

#[derive(Clone, Copy, Debug, PartialEq, Eq, Structural)]
pub enum StatusLabel {
    Started,
    Progress,
    Processing,
    Completed,
    Failed,
}

pub open spec fn label_text(l: StatusLabel) -> Seq<char> {
    match l {
        StatusLabel::Started => "started"@,
        StatusLabel::Progress => "progress"@,
        StatusLabel::Processing => "processing"@,
        StatusLabel::Completed => "completed"@,
        StatusLabel::Failed => "failed"@,
    }
}

impl StatusLabel {
    pub fn as_str(self) -> (r: &'static str)
        ensures
            r@ == label_text(self),
    {
        match self {
            StatusLabel::Started => "started",
            StatusLabel::Progress => "progress",
            StatusLabel::Processing => "processing",
            StatusLabel::Completed => "completed",
            StatusLabel::Failed => "failed",
        }
    }

    /// Whether a job with this label is still running.
    pub fn is_active(self) -> (r: bool)
        ensures
            r == (self is Started || self is Progress || self is Processing),
    {
        match self {
            StatusLabel::Started | StatusLabel::Progress | StatusLabel::Processing => true,
            _ => false,
        }
    }
}

/// What a poller sees of one job.
pub struct EphemeralStatus {
    pub label: StatusLabel,
    /// Hundredths of a percent.
    pub percent: u64,
    /// Bytes per second.
    pub speed: Option<u64>,
    /// Whole seconds left.
    pub eta: Option<u64>,
    pub error: Option<String>,
}

pub struct StatusView {
    pub label: StatusLabel,
    pub percent: u64,
    pub speed: Option<u64>,
    pub eta: Option<u64>,
    pub error: Option<Seq<char>>,
}

pub open spec fn opt_text(o: Option<String>) -> Option<Seq<char>> {
    match o {
        Some(s) => Some(s@),
        None => None,
    }
}

impl View for EphemeralStatus {
    type V = StatusView;

    open spec fn view(&self) -> StatusView {
        StatusView {
            label: self.label,
            percent: self.percent,
            speed: self.speed,
            eta: self.eta,
            error: opt_text(self.error),
        }
    }
}

/// The status shown between the start of a run and its first event.
pub open spec fn started_view() -> StatusView {
    StatusView { label: StatusLabel::Started, percent: 0, speed: None, eta: None, error: None }
}

/// The status an action of a run shows, if it shows one.
pub open spec fn action_status(a: ActionView) -> Option<StatusView> {
    match a {
        ActionView::Idle => None,
        ActionView::Progress { percent, speed, eta } => Some(
            StatusView { label: StatusLabel::Progress, percent, speed, eta, error: None },
        ),
        ActionView::Processing { status } => Some(
            StatusView {
                label: StatusLabel::Processing,
                percent: 10000,
                speed: None,
                eta: None,
                error: Some(status),
            },
        ),
    }
}

/// The status a finished run shows until it is removed.
pub open spec fn outcome_status(o: OutcomeView) -> StatusView {
    match o {
        OutcomeView::Completed { .. } => StatusView {
            label: StatusLabel::Completed,
            percent: 10000,
            speed: None,
            eta: None,
            error: None,
        },
        OutcomeView::Failed { message } => StatusView {
            label: StatusLabel::Failed,
            percent: 0,
            speed: None,
            eta: None,
            error: Some(message),
        },
        OutcomeView::NoFile => StatusView {
            label: StatusLabel::Failed,
            percent: 0,
            speed: None,
            eta: None,
            error: Some("No file found"@),
        },
    }
}

/// The persisted record once a run has ended with `o`.
pub open spec fn outcome_job(j: JobView, o: OutcomeView, size: Option<u64>) -> JobView {
    match o {
        OutcomeView::Completed { filename } => job_completed(j, filename, size),
        OutcomeView::Failed { message } => job_failed(j, message),
        OutcomeView::NoFile => job_failed(j, "Download completed but no file found"@),
    }
}

impl EphemeralStatus {
    /// A copy of this status.
    pub fn copy(&self) -> (r: Self)
        ensures
            r@ == self@,
    {
        EphemeralStatus {
            label: self.label,
            percent: self.percent,
            speed: self.speed,
            eta: self.eta,
            error: match &self.error {
                Some(e) => Some(e.clone()),
                None => None,
            },
        }
    }

    pub fn started() -> (r: Self)
        ensures
            r@ == started_view(),
    {
        EphemeralStatus {
            label: StatusLabel::Started,
            percent: 0,
            speed: None,
            eta: None,
            error: None,
        }
    }

    /// The status that a run's action shows, if any.
    pub fn for_action(a: &RunAction) -> (r: Option<Self>)
        ensures
            match r {
                Some(s) => action_status(a@) == Some(s@),
                None => action_status(a@) is None,
            },
    {
        match a {
            RunAction::Idle => None,
            RunAction::Progress { percent, speed, eta } => Some(
                EphemeralStatus {
                    label: StatusLabel::Progress,
                    percent: *percent,
                    speed: *speed,
                    eta: *eta,
                    error: None,
                },
            ),
            RunAction::Processing { status } => Some(
                EphemeralStatus {
                    label: StatusLabel::Processing,
                    percent: 10000,
                    speed: None,
                    eta: None,
                    error: Some(status.clone()),
                },
            ),
        }
    }

    /// The status a finished run shows.
    pub fn for_outcome(o: &RunOutcome) -> (r: Self)
        ensures
            r@ == outcome_status(o@),
    {
        match o {
            RunOutcome::Completed { .. } => EphemeralStatus {
                label: StatusLabel::Completed,
                percent: 10000,
                speed: None,
                eta: None,
                error: None,
            },
            RunOutcome::Failed { message } => EphemeralStatus {
                label: StatusLabel::Failed,
                percent: 0,
                speed: None,
                eta: None,
                error: Some(message.clone()),
            },
            RunOutcome::NoFile => EphemeralStatus {
                label: StatusLabel::Failed,
                percent: 0,
                speed: None,
                eta: None,
                error: Some("No file found".to_owned()),
            },
        }
    }
}

/// Records how a run ended: the job completes with its file and size, or
/// fails with the run's message; the status to show until removal is
/// returned.
pub fn settle(record: &mut JobRecord, outcome: &RunOutcome, file_size: Option<u64>) -> (r: (
    Result<(), TransitionError>,
    EphemeralStatus,
))
    ensures
        old(record).status is Downloading ==> r.0 is Ok && final(record)@ == outcome_job(
            old(record)@,
            outcome@,
            file_size,
        ),
        !(old(record).status is Downloading) ==> r.0 is Err && final(record)@ == old(record)@,
        r.1@ == outcome_status(outcome@),
{
    let done = match outcome {
        RunOutcome::Completed { filename } => record.complete(filename.clone(), file_size),
        RunOutcome::Failed { message } => record.fail(message.clone()),
        RunOutcome::NoFile => record.fail("Download completed but no file found".to_owned()),
    };
    (done, EphemeralStatus::for_outcome(outcome))
}

/// One entry of the status table.
pub struct StatusEntry {
    pub id: String,
    pub status: EphemeralStatus,
}

pub open spec fn entry_views(v: Seq<StatusEntry>) -> Seq<(Seq<char>, StatusView)> {
    Seq::new(v.len(), |i: int| (v[i].id@, v[i].status@))
}

/// The statuses that a list of entries holds; a later entry for an id wins.
pub open spec fn entry_map(v: Seq<(Seq<char>, StatusView)>) -> Map<Seq<char>, StatusView>
    decreases v.len(),
{
    if v.len() == 0 {
        Map::empty()
    } else {
        entry_map(v.drop_last()).insert(v.last().0, v.last().1)
    }
}

/// Number of ids whose status is still running.
pub open spec fn active_in(v: Seq<(Seq<char>, StatusView)>) -> nat
    decreases v.len(),
{
    if v.len() == 0 {
        0
    } else {
        active_in(v.drop_last()) + (if v.last().1.label is Started || v.last().1.label is Progress
            || v.last().1.label is Processing {
            1nat
        } else {
            0nat
        })
    }
}

/// Whether a status shows a job that is still running.
pub open spec fn is_running_label(l: StatusLabel) -> bool {
    l is Started || l is Progress || l is Processing
}

/// The ids whose status shows a running job.
pub open spec fn running_ids(m: Map<Seq<char>, StatusView>) -> Set<Seq<char>> {
    m.dom().filter(|k: Seq<char>| is_running_label(m[k].label))
}

/// No id occurs twice.
pub open spec fn unique_keys(v: Seq<(Seq<char>, StatusView)>) -> bool {
    forall|i: int, j: int| 0 <= i < j < v.len() ==> v[i].0 != v[j].0
}

proof fn lemma_entry_map_dom(v: Seq<(Seq<char>, StatusView)>)
    ensures
        entry_map(v).dom().finite(),
        forall|k: Seq<char>| #[trigger]
            entry_map(v).dom().contains(k) <==> exists|i: int| 0 <= i < v.len() && v[i].0 == k,
    decreases v.len(),
{
    if v.len() > 0 {
        let w = v.drop_last();
        lemma_entry_map_dom(w);
        assert forall|k: Seq<char>| #[trigger]
            entry_map(v).dom().contains(k) <==> exists|i: int| 0 <= i < v.len() && v[i].0 == k by {
            if entry_map(w).dom().contains(k) {
                let i = choose|i: int| 0 <= i < w.len() && w[i].0 == k;
                assert(v[i].0 == k);
            }
            if exists|i: int| 0 <= i < v.len() && v[i].0 == k {
                let i = choose|i: int| 0 <= i < v.len() && v[i].0 == k;
                if i < w.len() {
                    assert(w[i].0 == k);
                }
            }
        }
    }
}

proof fn lemma_active_in_counts_running(v: Seq<(Seq<char>, StatusView)>)
    requires
        unique_keys(v),
    ensures
        running_ids(entry_map(v)).finite(),
        active_in(v) == running_ids(entry_map(v)).len(),
    decreases v.len(),
{
    lemma_entry_map_dom(v);
    if v.len() == 0 {
        assert(running_ids(entry_map(v)) =~= Set::<Seq<char>>::empty());
    } else {
        let w = v.drop_last();
        let (k, st) = v.last();
        assert(unique_keys(w));
        lemma_active_in_counts_running(w);
        lemma_entry_map_dom(w);
        let m = entry_map(w);
        assert(!m.dom().contains(k)) by {
            if m.dom().contains(k) {
                let i = choose|i: int| 0 <= i < w.len() && w[i].0 == k;
                assert(v[i].0 == v[v.len() - 1].0);
            }
        }
        if is_running_label(st.label) {
            assert(running_ids(m.insert(k, st)) =~= running_ids(m).insert(k));
        } else {
            assert(running_ids(m.insert(k, st)) =~= running_ids(m));
        }
    }
}

/// The ephemeral status of each job, by id; an id appears at most once.
pub struct StatusTable {
    entries: Vec<StatusEntry>,
}

impl View for StatusTable {
    type V = Map<Seq<char>, StatusView>;

    closed spec fn view(&self) -> Map<Seq<char>, StatusView> {
        entry_map(entry_views(self.entries@))
    }
}

proof fn lemma_entry_map_step(v: Seq<(Seq<char>, StatusView)>, i: int)
    requires
        0 <= i < v.len(),
    ensures
        entry_map(v.take(i + 1)) == entry_map(v.take(i)).insert(v[i].0, v[i].1),
{
    assert(v.take(i + 1).drop_last() == v.take(i));
}

impl StatusTable {
    #[verifier::type_invariant]
    spec fn ids_unique(&self) -> bool {
        unique_keys(entry_views(self.entries@))
    }

    pub fn new() -> (r: Self)
        ensures
            r@ == Map::<Seq<char>, StatusView>::empty(),
    {
        let r = StatusTable { entries: Vec::new() };
        assert(entry_views(r.entries@) =~= Seq::<(Seq<char>, StatusView)>::empty());
        r
    }

    /// The status of job `id`, if it has one.
    pub fn get(&self, id: &str) -> (r: Option<&EphemeralStatus>)
        ensures
            match r {
                Some(s) => self@.contains_key(id@) && self@[id@] == s@,
                None => !self@.contains_key(id@),
            },
    {
        let ghost ev = entry_views(self.entries@);
        let mut found: Option<&EphemeralStatus> = None;
        let mut i: usize = 0;
        assert(ev.take(0) =~= Seq::<(Seq<char>, StatusView)>::empty());
        while i < self.entries.len()
            invariant
                ev == entry_views(self.entries@),
                i <= self.entries@.len(),
                match found {
                    Some(s) => entry_map(ev.take(i as int)).contains_key(id@) && entry_map(
                        ev.take(i as int),
                    )[id@] == s@,
                    None => !entry_map(ev.take(i as int)).contains_key(id@),
                },
            decreases self.entries@.len() - i,
        {
            proof {
                lemma_entry_map_step(ev, i as int);
            }
            if str_eq(self.entries[i].id.as_str(), id) {
                found = Some(&self.entries[i].status);
            }
            i += 1;
        }
        assert(ev.take(self.entries@.len() as int) == ev);
        found
    }

    /// A copy of the entries other than `id`'s.
    fn without(&self, id: &str) -> (r: Vec<StatusEntry>)
        ensures
            entry_map(entry_views(r@)) == self@.remove(id@),
            unique_keys(entry_views(r@)),
            forall|i: int| 0 <= i < r@.len() ==> (#[trigger] r@[i]).id@ != id@,
    {
        proof {
            use_type_invariant(self);
        }
        let ghost ev = entry_views(self.entries@);
        let mut kept: Vec<StatusEntry> = Vec::new();
        assert(entry_views(kept@) =~= Seq::<(Seq<char>, StatusView)>::empty());
        assert(ev.take(0) =~= Seq::<(Seq<char>, StatusView)>::empty());
        assert(entry_map(ev.take(0)).remove(id@) =~= Map::empty());
        let mut i: usize = 0;
        while i < self.entries.len()
            invariant
                ev == entry_views(self.entries@),
                unique_keys(ev),
                i <= self.entries@.len(),
                entry_map(entry_views(kept@)) == entry_map(ev.take(i as int)).remove(id@),
                unique_keys(entry_views(kept@)),
                forall|k: int| 0 <= k < kept@.len() ==> (#[trigger] kept@[k]).id@ != id@,
                forall|k: int|
                    0 <= k < kept@.len() ==> exists|j: int| 0 <= j < i && (#[trigger] kept@[k]).id@
                        == ev[j].0,
            decreases self.entries@.len() - i,
        {
            proof {
                lemma_entry_map_step(ev, i as int);
            }
            let ghost m0 = entry_map(ev.take(i as int));
            let e = &self.entries[i];
            if !str_eq(e.id.as_str(), id) {
                let ghost kv = entry_views(kept@);
                let ghost k0 = kept@;
                kept.push(StatusEntry { id: e.id.clone(), status: e.status.copy() });
                assert(entry_views(kept@).drop_last() =~= kv);
                assert(entry_views(kept@).last() == ev[i as int]);
                assert(entry_map(ev.take(i + 1)).remove(id@) =~= m0.remove(id@).insert(
                    ev[i as int].0,
                    ev[i as int].1,
                ));
                assert forall|k: int| 0 <= k < kept@.len() implies exists|j: int|
                    0 <= j < i + 1 && (#[trigger] kept@[k]).id@ == ev[j].0 by {
                    if k < k0.len() {
                        assert(kept@[k] == k0[k]);
                    } else {
                        assert(kept@[k].id@ == ev[i as int].0);
                    }
                }
                assert(unique_keys(entry_views(kept@))) by {
                    assert forall|a: int, b: int|
                        0 <= a < b < entry_views(kept@).len() implies entry_views(kept@)[a].0
                        != entry_views(kept@)[b].0 by {
                        if b == k0.len() {
                            assert(kept@[a] == k0[a]);
                            let j = choose|j: int| 0 <= j < i && k0[a].id@ == ev[j].0;
                            assert(ev[j].0 != ev[i as int].0);
                        } else {
                            assert(kept@[a] == k0[a]);
                            assert(kept@[b] == k0[b]);
                            assert(kv[a].0 != kv[b].0);
                        }
                    }
                }
            } else {
                assert(entry_map(ev.take(i + 1)).remove(id@) =~= m0.remove(id@));
                assert forall|k: int| 0 <= k < kept@.len() implies exists|j: int|
                    0 <= j < i + 1 && (#[trigger] kept@[k]).id@ == ev[j].0 by {
                    let j = choose|j: int| 0 <= j < i && kept@[k].id@ == ev[j].0;
                }
            }
            i += 1;
        }
        assert(ev.take(self.entries@.len() as int) == ev);
        kept
    }

    /// Drops the status of job `id`, if there is one.
    pub fn remove(&mut self, id: &str)
        ensures
            final(self)@ == old(self)@.remove(id@),
    {
        let kept = self.without(id);
        self.entries = kept;
    }

    /// Sets the status of job `id`, replacing any earlier one.
    pub fn insert(&mut self, id: String, status: EphemeralStatus)
        ensures
            final(self)@ == old(self)@.insert(id@, status@),
    {
        let mut kept = self.without(id.as_str());
        let ghost before = entry_views(kept@);
        let ghost k0 = kept@;
        let ghost kv = (id@, status@);
        kept.push(StatusEntry { id, status });
        assert(entry_views(kept@).drop_last() =~= before);
        assert(entry_views(kept@).last() == kv);
        assert(unique_keys(entry_views(kept@))) by {
            assert forall|a: int, b: int|
                0 <= a < b < entry_views(kept@).len() implies entry_views(kept@)[a].0
                != entry_views(kept@)[b].0 by {
                assert(kept@[a] == k0[a]);
                if b < k0.len() {
                    assert(kept@[b] == k0[b]);
                    assert(before[a].0 != before[b].0);
                } else {
                    assert(k0[a].id@ != kv.0);
                }
            }
        }
        self.entries = kept;
        assert(self@ =~= old(self)@.remove(kv.0).insert(kv.0, kv.1));
    }

    /// How many jobs still show a running status.
    pub fn active_count(&self) -> (r: usize)
        ensures
            r == running_ids(self@).len(),
    {
        proof {
            use_type_invariant(self);
            lemma_active_in_counts_running(entry_views(self.entries@));
        }
        let ghost ev = entry_views(self.entries@);
        let mut count: usize = 0;
        let mut i: usize = 0;
        assert(ev.take(0) =~= Seq::<(Seq<char>, StatusView)>::empty());
        while i < self.entries.len()
            invariant
                ev == entry_views(self.entries@),
                i <= self.entries@.len(),
                count == active_in(ev.take(i as int)),
                count <= i,
            decreases self.entries@.len() - i,
        {
            assert(ev.take(i + 1).drop_last() == ev.take(i as int));
            if self.entries[i].status.label.is_active() {
                count += 1;
            }
            i += 1;
        }
        assert(ev.take(self.entries@.len() as int) == ev);
        count
    }
}

proof fn lemma_no_error_seen(events: Seq<EventView>)
    requires
        forall|k: int| 0 <= k < events.len() ==> !(#[trigger] events[k] is Error),
    ensures
        !run_all(run_start(), events).had_error,
    decreases events.len(),
{
    if events.len() > 0 {
        let rest = events.drop_last();
        assert forall|k: int| 0 <= k < rest.len() implies !(#[trigger] rest[k] is Error) by {
            assert(rest[k] == events[k]);
        }
        lemma_no_error_seen(rest);
        assert(!(events[events.len() - 1] is Error));
    }
}

/// A run that reports no error and whose last event is `Finished` with file
/// `f` ends completed with `f`; settling it records the job completed, with
/// `f`, at 100% and with no error message, and shows it completed.
pub proof fn lemma_clean_run_completes(
    events: Seq<EventView>,
    f: Seq<char>,
    j: JobView,
    size: Option<u64>,
)
    requires
        events.len() > 0,
        events.last() == (EventView::Finished { filename: f }),
        forall|k: int| 0 <= k < events.len() ==> !(#[trigger] events[k] is Error),
    ensures
        outcome_of(run_all(run_start(), events)) == (OutcomeView::Completed { filename: f }),
        outcome_job(j, OutcomeView::Completed { filename: f }, size).status is Completed,
        outcome_job(j, OutcomeView::Completed { filename: f }, size).file_path == Some(f),
        outcome_job(j, OutcomeView::Completed { filename: f }, size).progress == 10000,
        outcome_job(j, OutcomeView::Completed { filename: f }, size).error_message is None,
        outcome_status(OutcomeView::Completed { filename: f }).label is Completed,
{
    lemma_no_error_seen(events);
}

/// Cancelling a run, whatever it has seen, makes it fail with
/// "Cancelled by user"; settling that records the job failed with that
/// message and shows it failed with the same message.
pub proof fn lemma_cancelled_run_fails(s: RunView, j: JobView, size: Option<u64>)
    ensures
        outcome_of(run_cancelled(s)) == (OutcomeView::Failed { message: "Cancelled by user"@ }),
        outcome_job(j, outcome_of(run_cancelled(s)), size).status is Failed,
        outcome_job(j, outcome_of(run_cancelled(s)), size).error_message == Some(
            "Cancelled by user"@,
        ),
        outcome_status(outcome_of(run_cancelled(s))).label is Failed,
        outcome_status(outcome_of(run_cancelled(s))).error == Some("Cancelled by user"@),
{
}

} // verus!
