//! Making one partition file local, step by step. The library decides what
//! is done next; its caller does it and reports what came of it.

use crate::error::TripError;
use crate::random::draw;
use crate::random::thread_generator;
use crate::store::file_name;
use crate::text::decimal;
use crate::store::PartitionStore;
use vstd::prelude::*;

verus! {

/// Why a download failed.
#[derive(Clone, Copy, Debug, PartialEq, Eq, Structural)]
pub enum Failure {
    /// The local file could not be looked at.
    Probe,
    /// The remote source answered with a status that is no success, or
    /// (`None`) gave no complete answer.
    Fetch(Option<u16>),
    /// The file could not be written.
    Store,
}

/// How far a download has come.
#[derive(Clone, Copy, Debug, PartialEq, Eq, Structural)]
pub enum Phase {
    /// The local file is to be looked at.
    Probing,
    /// The file is to be fetched from the remote source.
    Fetching,
    /// What was fetched is to be written.
    Storing,
    /// The file is local.
    Local,
    /// The download failed.
    Failed(Failure),
}

/// What the caller of a download is to do next.
#[derive(Clone, Copy, Debug, PartialEq, Eq, Structural)]
pub enum Action {
    /// Look at the file at the download's `path`, and report `Probed` or
    /// `ProbeFailed`.
    Probe,
    /// Get the download's `url`, and report `Responded` or `Unanswered`.
    Fetch,
    /// Write the body of the answer to the download's `staging` path, give
    /// the file the name `path`, and report `Stored`; or remove what was
    /// written and report `StoreFailed`.
    Store,
    /// Nothing more: the file at `path` is local.
    Finish,
    /// Nothing more: the download failed.
    Fail,
}

/// What came of an action.
#[derive(Clone, Copy, Debug, PartialEq, Eq, Structural)]
pub enum Event {
    /// The local file was looked at: it has `size` bytes, or (`None`) there
    /// is no such file.
    Probed { size: Option<u64> },
    /// The local file could not be looked at.
    ProbeFailed,
    /// The remote source answered in full, with `status`.
    Responded { status: u16 },
    /// The remote source gave no complete answer in time.
    Unanswered,
    /// The file was written and has its name.
    Stored,
    /// The file could not be written, and nothing is left under its name.
    StoreFailed,
}

/// Whether `status` is one of the HTTP statuses of success.
pub open spec fn is_success(status: u16) -> bool {
    200 <= status < 300
}

/// The phase that follows `phase` when `event` is reported. A file that is
/// there and not empty is taken as it is; an event that does not answer the
/// action of the phase changes nothing.
pub open spec fn next_phase(phase: Phase, event: Event) -> Phase {
    match (phase, event) {
        (Phase::Probing, Event::Probed { size: Some(bytes) }) => if bytes > 0 {
            Phase::Local
        } else {
            Phase::Fetching
        },
        (Phase::Probing, Event::Probed { size: None }) => Phase::Fetching,
        (Phase::Probing, Event::ProbeFailed) => Phase::Failed(Failure::Probe),
        (Phase::Fetching, Event::Responded { status }) => if is_success(status) {
            Phase::Storing
        } else {
            Phase::Failed(Failure::Fetch(Some(status)))
        },
        (Phase::Fetching, Event::Unanswered) => Phase::Failed(Failure::Fetch(None)),
        (Phase::Storing, Event::Stored) => Phase::Local,
        (Phase::Storing, Event::StoreFailed) => Phase::Failed(Failure::Store),
        _ => phase,
    }
}

/// What is to be done in `phase`.
pub open spec fn action_of(phase: Phase) -> Action {
    match phase {
        Phase::Probing => Action::Probe,
        Phase::Fetching => Action::Fetch,
        Phase::Storing => Action::Store,
        Phase::Local => Action::Finish,
        Phase::Failed(_) => Action::Fail,
    }
}

/// The download of one partition file.
pub struct Download {
    /// The local path of the file.
    pub path: String,
    /// The path under which the file is written before it takes its name.
    pub staging: String,
    /// The remote address of the file.
    pub url: String,
    /// How far the download has come.
    pub phase: Phase,
}

impl Download {
    /// Whether this is the attempt numbered `tag` at the download of `month`
    /// in `year` from and to `store`.
    pub open spec fn is_of(self, store: PartitionStore, year: int, month: int, tag: int) -> bool {
        &&& self.path@ == store.path_of(year, month)
        &&& self.staging@ == store.staging_of(year, month, tag)
        &&& self.url@ == store.url_of(year, month)
    }

    /// Whether nothing is left to do.
    pub open spec fn ended(self) -> bool {
        self.phase is Local || self.phase is Failed
    }

    /// Whether the error `error` says why this download failed.
    pub open spec fn failed_with(self, error: TripError) -> bool {
        match self.phase {
            Phase::Failed(Failure::Probe) | Phase::Failed(Failure::Store) => {
                &&& error matches TripError::Io { path }
                &&& path@ == self.path@
            },
            Phase::Failed(Failure::Fetch(answer)) => {
                &&& error matches TripError::Fetch { url, status }
                &&& url@ == self.url@
                &&& status == answer
            },
            _ => false,
        }
    }

    /// The attempt numbered `tag` at the download of `month` in `year` from
    /// and to `store`, before its first step. Attempts with different numbers
    /// write to different files, and each gives what it wrote the one name of
    /// the partition's file once it is whole.
    pub fn begin(store: &PartitionStore, year: i32, month: i32, tag: u32) -> (download: Download)
        ensures
            download.is_of(*store, year as int, month as int, tag as int),
            download.phase == Phase::Probing,
    {
        Download {
            path: store.file_path(year, month),
            staging: store.staging_path(year, month, tag),
            url: store.remote_url(year, month),
            phase: Phase::Probing,
        }
    }

    /// What is to be done next.
    pub fn action(&self) -> (action: Action)
        ensures
            action == action_of(self.phase),
    {
        match self.phase {
            Phase::Probing => Action::Probe,
            Phase::Fetching => Action::Fetch,
            Phase::Storing => Action::Store,
            Phase::Local => Action::Finish,
            Phase::Failed(_) => Action::Fail,
        }
    }

    /// Whether nothing is left to do.
    pub fn has_ended(&self) -> (ended: bool)
        ensures
            ended == self.ended(),
    {
        match self.phase {
            Phase::Local => true,
            Phase::Failed(_) => true,
            _ => false,
        }
    }

    /// Takes in what came of the last action.
    pub fn step(&mut self, event: Event)
        ensures
            final(self).phase == next_phase(old(self).phase, event),
            final(self).path == old(self).path,
            final(self).staging == old(self).staging,
            final(self).url == old(self).url,
    {
        let next = match (self.phase, event) {
            (Phase::Probing, Event::Probed { size: Some(bytes) }) => if bytes > 0 {
                Phase::Local
            } else {
                Phase::Fetching
            },
            (Phase::Probing, Event::Probed { size: None }) => Phase::Fetching,
            (Phase::Probing, Event::ProbeFailed) => Phase::Failed(Failure::Probe),
            (Phase::Fetching, Event::Responded { status }) => if 200 <= status && status < 300 {
                Phase::Storing
            } else {
                Phase::Failed(Failure::Fetch(Some(status)))
            },
            (Phase::Fetching, Event::Unanswered) => Phase::Failed(Failure::Fetch(None)),
            (Phase::Storing, Event::Stored) => Phase::Local,
            (Phase::Storing, Event::StoreFailed) => Phase::Failed(Failure::Store),
            (phase, _) => phase,
        };
        self.phase = next;
    }

    /// How the download ended: with the path of the local file, or with the
    /// error that says why it failed. `None` while it has not ended.
    pub fn outcome(&self) -> (outcome: Option<Result<String, TripError>>)
        ensures
            outcome is Some <==> self.ended(),
            outcome matches Some(Ok(path)) ==> self.phase is Local && path@ == self.path@,
            outcome matches Some(Err(error)) ==> self.failed_with(error),
    {
        match self.phase {
            Phase::Local => Some(Ok(self.path.clone())),
            Phase::Failed(Failure::Fetch(status)) => Some(
                Err(TripError::Fetch { url: self.url.clone(), status }),
            ),
            Phase::Failed(_) => Some(Err(TripError::Io { path: self.path.clone() })),
            _ => None,
        }
    }
}

/// An attempt at the download of the partition file of `month` in `year`
/// from the public source to the working directory, before its first step.
/// The number of the attempt is drawn at random.
pub fn download_parquet_file(year: i32, month: i32) -> (download: Download)
    ensures
        download.path@ == file_name(year as int, month as int),
        exists|tag: int|
            0 <= tag <= u32::MAX && download.staging@ == file_name(year as int, month as int)
                + "."@ + #[trigger] decimal(tag) + ".part"@,
        download.url@ == "https://d37ci6vzurychx.cloudfront.net/trip-data/"@ + file_name(
            year as int,
            month as int,
        ),
        download.phase == Phase::Probing,
{
    let store = PartitionStore::standard();
    let tag = attempt_number();
    let download = Download::begin(&store, year, month, tag);
    assert(download.path@ =~= file_name(year as int, month as int));
    assert(download.staging@ =~= file_name(year as int, month as int) + "."@ + decimal(tag as int)
        + ".part"@);
    download
}

/// A number for an attempt at a download, drawn at random.
pub(crate) fn attempt_number() -> (tag: u32) {
    let mut generator = thread_generator();
    let drawn = draw(&mut generator, 0, 4_294_967_296);
    drawn as u32
}

/// What surrounds a download, as far as its steps depend on it: the files
/// of the cache, and how the remote source answers.
pub struct World {
    /// The length in bytes of each local file, by its path.
    pub files: Map<Seq<char>, u64>,
    /// The status with which the remote source answers, or `None` where it
    /// gives no complete answer.
    pub status: Option<u16>,
    /// The length in bytes of what the remote source sends.
    pub body: u64,
    /// Whether the local directory takes a new file.
    pub writable: bool,
    /// How often the remote source has been asked.
    pub fetches: nat,
}

impl World {
    /// What comes of the action of `phase` on the file at `path`, and the
    /// world after it.
    pub open spec fn perform(self, path: Seq<char>, phase: Phase) -> (World, Event) {
        match phase {
            Phase::Probing => (
                self,
                Event::Probed {
                    size: if self.files.dom().contains(path) {
                        Some(self.files[path])
                    } else {
                        None
                    },
                },
            ),
            Phase::Fetching => (
                World { fetches: self.fetches + 1, ..self },
                match self.status {
                    Some(status) => Event::Responded { status },
                    None => Event::Unanswered,
                },
            ),
            Phase::Storing => if self.writable {
                (World { files: self.files.insert(path, self.body), ..self }, Event::Stored)
            } else {
                (self, Event::StoreFailed)
            },
            _ => (self, Event::Stored),
        }
    }

    /// The world and the phase after at most `steps` actions of a download
    /// of the file at `path` that is in `phase`.
    pub open spec fn run(self, path: Seq<char>, phase: Phase, steps: nat) -> (World, Phase)
        decreases steps,
    {
        if steps == 0 || phase is Local || phase is Failed {
            (self, phase)
        } else {
            let (world, event) = self.perform(path, phase);
            world.run(path, next_phase(phase, event), (steps - 1) as nat)
        }
    }

    /// The world and the phase after a whole download of the file at `path`.
    pub open spec fn download(self, path: Seq<char>) -> (World, Phase) {
        self.run(path, Phase::Probing, 3)
    }

    /// Whether the cache holds a file at `path` that is not empty.
    pub open spec fn holds(self, path: Seq<char>) -> bool {
        self.files.dom().contains(path) && self.files[path] > 0
    }
}

/// A download ends within three actions, and asks the remote source once
/// at most.
pub proof fn lemma_download_ends(world: World, path: Seq<char>)
    ensures
        world.download(path).1 is Local || world.download(path).1 is Failed,
        world.download(path).0.fetches <= world.fetches + 1,
{
    reveal_with_fuel(World::run, 4);
}

/// A file that the cache holds is reused: the download asks the remote
/// source nothing and leaves the world as it is.
pub proof fn lemma_cached_file_is_reused(world: World, path: Seq<char>)
    requires
        world.holds(path),
    ensures
        world.download(path) == (world, Phase::Local),
{
    reveal_with_fuel(World::run, 4);
}

/// After a download that made the file local, from a source that sends
/// something, a second download of the same file asks the remote source
/// nothing, leaves the file as the first left it, and ends as the first did.
pub proof fn lemma_second_download_is_free(world: World, path: Seq<char>)
    requires
        world.download(path).1 is Local,
        world.body > 0,
    ensures
        world.download(path).0.holds(path),
        world.download(path).0.download(path) == world.download(path),
{
    reveal_with_fuel(World::run, 4);
    let after = world.download(path).0;
    if world.holds(path) {
    } else {
        assert(after.files == world.files.insert(path, world.body));
    }
    lemma_cached_file_is_reused(after, path);
}

/// Where the cache lacks the file and the remote source answers with a
/// status that is no success, the download fails with that status and leaves
/// the files of the cache as they were.
pub proof fn lemma_refused_fetch_leaves_no_file(world: World, path: Seq<char>, status: u16)
    requires
        !world.holds(path),
        world.status == Some(status),
        !is_success(status),
    ensures
        world.download(path).1 == Phase::Failed(Failure::Fetch(Some(status))),
        world.download(path).0.files == world.files,
        world.download(path).0.fetches == world.fetches + 1,
{
    reveal_with_fuel(World::run, 4);
}

/// Where the cache lacks the file, the remote source answers with a success
/// and the directory takes the file, the download makes the file local with
/// one fetch.
pub proof fn lemma_fetch_makes_local(world: World, path: Seq<char>, status: u16)
    requires
        !world.holds(path),
        world.status == Some(status),
        is_success(status),
        world.writable,
    ensures
        world.download(path).1 == Phase::Local,
        world.download(path).0.files == world.files.insert(path, world.body),
        world.download(path).0.fetches == world.fetches + 1,
{
    reveal_with_fuel(World::run, 4);
}

} // verus!
