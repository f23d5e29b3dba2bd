//! The command dispatcher: it accepts Start and Cancel commands, keeps one
//! cancellation handle per running job, and names the work to do; the
//! caller spawns runs and signals cancellations.
use vstd::prelude::*;
use crate::job::{job_failed, job_retried, JobRecord, TransitionError};
use crate::text::{chars_of, str_eq, string_of, trim, trimmed};

verus! {

/// What a job's files are named after.
#[derive(Clone, Debug)]
pub struct VideoMeta {
    pub youtube_id: String,
    pub title: String,
    pub description: Option<String>,
    pub duration_seconds: Option<i64>,
    pub upload_date: Option<String>,
}

/// A request to the dispatcher.
#[derive(Clone, Debug)]
pub enum DownloadCommand {
    Start { download_id: String, video_url: String, channel_name: String, video_meta: VideoMeta },
    Cancel { download_id: String },
}

/// What the caller does for a command.
pub enum WorkerAction {
    /// Start a run of this job.
    Spawn { download_id: String, video_url: String, channel_name: String, video_meta: VideoMeta },
    /// Signal the running job to stop.
    SignalCancel { download_id: String },
    /// Nothing: the job is not running.
    Ignore,
}

pub open spec fn id_views(v: Seq<String>) -> Seq<Seq<char>> {
    Seq::new(v.len(), |i: int| v[i]@)
}

/// The ids of the running jobs: those with a cancellation handle. Every
/// accepted Start runs at once; a configured maximum of concurrent downloads
/// is advisory and not applied here.
pub struct Dispatcher {
    active: Vec<String>,
}

impl View for Dispatcher {
    type V = Set<Seq<char>>;

    closed spec fn view(&self) -> Set<Seq<char>> {
        id_views(self.active@).to_set()
    }
}

impl Dispatcher {
    pub fn new() -> (r: Self)
        ensures
            r@ == Set::<Seq<char>>::empty(),
    {
        let r = Dispatcher { active: Vec::new() };
        assert(id_views(r.active@) =~= Seq::<Seq<char>>::empty());
        assert(r@ =~= Set::<Seq<char>>::empty());
        r
    }

    /// Whether job `id` is running.
    pub fn is_running(&self, id: &str) -> (r: bool)
        ensures
            r == self@.contains(id@),
    {
        let ghost ids = id_views(self.active@);
        let mut i: usize = 0;
        while i < self.active.len()
            invariant
                ids == id_views(self.active@),
                i <= self.active@.len(),
                forall|j: int| 0 <= j < i ==> ids[j] != id@,
            decreases self.active@.len() - i,
        {
            if str_eq(self.active[i].as_str(), id) {
                assert(ids[i as int] == id@);
                return true;
            }
            i += 1;
        }
        assert(!ids.contains(id@));
        false
    }

    fn register(&mut self, id: &str)
        ensures
            final(self)@ == old(self)@.insert(id@),
    {
        if !self.is_running(id) {
            let ghost before = id_views(self.active@);
            self.active.push(id.to_owned());
            assert(id_views(self.active@) =~= before.push(id@));
            assert(self@ =~= before.to_set().insert(id@)) by {
                before.lemma_push_to_set_commute(id@);
            }
        } else {
            assert(self@ =~= old(self)@.insert(id@));
        }
    }

    fn unregister(&mut self, id: &str)
        ensures
            final(self)@ == old(self)@.remove(id@),
    {
        let ghost ids = id_views(self.active@);
        let mut kept: Vec<String> = Vec::new();
        let mut i: usize = 0;
        assert(id_views(kept@) =~= Seq::<Seq<char>>::empty());
        assert(ids.take(0) =~= Seq::<Seq<char>>::empty());
        assert(ids.take(0).to_set() =~= Set::<Seq<char>>::empty());
        assert(id_views(kept@).to_set() =~= Set::<Seq<char>>::empty());
        while i < self.active.len()
            invariant
                ids == id_views(self.active@),
                i <= self.active@.len(),
                id_views(kept@).to_set() == ids.take(i as int).to_set().remove(id@),
            decreases self.active@.len() - i,
        {
            let ghost k0 = id_views(kept@);
            assert(ids.take(i + 1) == ids.take(i as int).push(ids[i as int]));
            proof {
                ids.take(i as int).lemma_push_to_set_commute(ids[i as int]);
            }
            if !str_eq(self.active[i].as_str(), id) {
                kept.push(self.active[i].clone());
                assert(id_views(kept@) =~= k0.push(ids[i as int]));
                proof {
                    k0.lemma_push_to_set_commute(ids[i as int]);
                }
                assert(id_views(kept@).to_set() =~= ids.take(i + 1).to_set().remove(id@));
            } else {
                let ghost before = ids.take(i as int).to_set();
                assert(ids.take(i + 1).to_set().remove(id@) =~= before.remove(id@));
            }
            i += 1;
        }
        assert(ids.take(self.active@.len() as int) == ids);
        self.active = kept;
        assert(self@ =~= old(self)@.remove(id@));
    }

    /// Takes one command: a Start registers its job as running and asks for
    /// a run; a Cancel of a running job unregisters it and asks for the
    /// signal; a Cancel of any other job does nothing.
    pub fn on_command(&mut self, cmd: DownloadCommand) -> (r: WorkerAction)
        ensures
            match cmd {
                DownloadCommand::Start { download_id, video_url, channel_name, video_meta } => {
                    &&& final(self)@ == old(self)@.insert(download_id@)
                    &&& r == (WorkerAction::Spawn {
                        download_id,
                        video_url,
                        channel_name,
                        video_meta,
                    })
                },
                DownloadCommand::Cancel { download_id } => if old(self)@.contains(download_id@) {
                    &&& final(self)@ == old(self)@.remove(download_id@)
                    &&& r == (WorkerAction::SignalCancel { download_id })
                } else {
                    &&& final(self)@ == old(self)@
                    &&& r is Ignore
                },
            },
    {
        match cmd {
            DownloadCommand::Start { download_id, video_url, channel_name, video_meta } => {
                self.register(download_id.as_str());
                WorkerAction::Spawn { download_id, video_url, channel_name, video_meta }
            },
            DownloadCommand::Cancel { download_id } => {
                if self.is_running(download_id.as_str()) {
                    self.unregister(download_id.as_str());
                    WorkerAction::SignalCancel { download_id }
                } else {
                    WorkerAction::Ignore
                }
            },
        }
    }

    /// A run has ended, successfully or not: its job is no longer running.
    pub fn on_run_finished(&mut self, id: &str)
        ensures
            final(self)@ == old(self)@.remove(id@),
    {
        self.unregister(id);
    }
}

/// A user's cancellation of a job: only a downloading job can be
/// cancelled; it is recorded failed with "Cancelled by user" and the
/// dispatcher is to be told to stop its run.
pub fn request_cancel(record: &mut JobRecord, download_id: String) -> (r: Result<
    DownloadCommand,
    TransitionError,
>)
    ensures
        old(record).status is Downloading ==> final(record)@ == job_failed(
            old(record)@,
            "Cancelled by user"@,
        ) && r == Ok::<_, TransitionError>(DownloadCommand::Cancel { download_id }),
        !(old(record).status is Downloading) ==> final(record)@ == old(record)@ && r == Err::<
            DownloadCommand,
            _,
        >(TransitionError::NotDownloading),
{
    match record.fail("Cancelled by user".to_owned()) {
        Ok(()) => Ok(DownloadCommand::Cancel { download_id }),
        Err(e) => Err(e),
    }
}

/// A user's retry of a job: only a failed job can be retried; it goes back
/// to pending and a new Start with the same id and details is to be queued.
pub fn request_retry(
    record: &mut JobRecord,
    download_id: String,
    video_url: String,
    channel_name: String,
    video_meta: VideoMeta,
) -> (r: Result<DownloadCommand, TransitionError>)
    ensures
        old(record).status is Failed ==> final(record)@ == job_retried(old(record)@) && r == Ok::<
            _,
            TransitionError,
        >(DownloadCommand::Start { download_id, video_url, channel_name, video_meta }),
        !(old(record).status is Failed) ==> final(record)@ == old(record)@ && r == Err::<
            DownloadCommand,
            _,
        >(TransitionError::NotFailed),
{
    match record.retry() {
        Ok(()) => Ok(DownloadCommand::Start { download_id, video_url, channel_name, video_meta }),
        Err(e) => Err(e),
    }
}

/// Whether `c` may not stand in a file name.
pub open spec fn is_reserved(c: char) -> bool {
    c == '/' || c == '\\' || c == ':' || c == '*' || c == '?' || c == '"' || c == '<' || c == '>'
        || c == '|'
}

/// `name` with each reserved character replaced by `_`.
pub open spec fn replace_reserved(name: Seq<char>) -> Seq<char> {
    Seq::new(name.len(), |i: int| if is_reserved(name[i]) { '_' } else { name[i] })
}

/// A name that is safe as a directory name: reserved characters become `_`,
/// and surrounding whitespace goes.
pub fn sanitize_filename(name: &str) -> (r: String)
    ensures
        r@ == trim(replace_reserved(name@)),
{
    let v = chars_of(name);
    let mut out: Vec<char> = Vec::new();
    let mut i: usize = 0;
    while i < v.len()
        invariant
            v@ == name@,
            i <= v@.len(),
            out@ == replace_reserved(v@).take(i as int),
        decreases v@.len() - i,
    {
        let c = v[i];
        let d = if c == '/' || c == '\\' || c == ':' || c == '*' || c == '?' || c == '"' || c == '<'
            || c == '>' || c == '|' {
            '_'
        } else {
            c
        };
        out.push(d);
        assert(out@ =~= replace_reserved(v@).take(i + 1));
        i += 1;
    }
    assert(out@ =~= replace_reserved(v@));
    string_of(&trimmed(&out))
}

/// The directory a channel's downloads go to: `base/channel`, the channel
/// name sanitized.
pub open spec fn channel_dir(base: Seq<char>, channel: Seq<char>) -> Seq<char> {
    base + "/"@ + trim(replace_reserved(channel))
}

pub fn download_dir(base: &str, channel_name: &str) -> (r: String)
    ensures
        r@ == channel_dir(base@, channel_name@),
{
    let mut r = base.to_owned();
    r.append("/");
    r.append(sanitize_filename(channel_name).as_str());
    r
}

/// The tool's output template for files in `dir`: named after the title,
/// with the extension the tool picks.
pub fn output_template_in(dir: &str) -> (r: String)
    ensures
        r@ == dir@ + "/%(title)s.%(ext)s"@,
{
    let mut r = dir.to_owned();
    r.append("/%(title)s.%(ext)s");
    r
}

/// The URL of a video's largest thumbnail.
pub fn thumbnail_url(youtube_id: &str) -> (r: String)
    ensures
        r@ == "https://i.ytimg.com/vi/"@ + youtube_id@ + "/maxresdefault.jpg"@,
{
    let mut r = "https://i.ytimg.com/vi/".to_owned();
    r.append(youtube_id);
    r.append("/maxresdefault.jpg");
    r
}

} // verus!
