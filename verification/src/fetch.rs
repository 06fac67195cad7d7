use vstd::prelude::*;
use crate::digest::{checksum_of, content_checksum};
use crate::error::Error;
use crate::reporter::Status;
use crate::resources::FileResource;

verus! {

/// What a fetch worker is waiting for.
#[derive(Debug, PartialEq, Eq)]
pub enum FetchPhase {
    /// For the content of the local file.
    Checking,
    /// For the response to the request.
    Fetching,
    /// For the parent directory; the downloaded body is kept meanwhile.
    Preparing(Vec<u8>),
    /// For the write to end.
    Writing,
    /// For nothing: the worker ended with this result.
    Ended(Result<Status, Error>),
}

/// What happened to the last action of a fetch worker.
#[derive(Debug, PartialEq, Eq)]
pub enum FetchEvent {
    /// The local file was read: its content, or `None` where there is no
    /// file or it cannot be read.
    LocalRead(Option<Vec<u8>>),
    /// The request was answered: the body, or the transport failure or
    /// failure status.
    Response(Result<Vec<u8>, Error>),
    /// The parent directory exists now, or could not be created.
    DirReady(Result<(), Error>),
    /// The body was written, or the write failed.
    Written(Result<(), Error>),
}

/// What a fetch worker asks of its caller.
#[derive(Debug, PartialEq, Eq)]
pub enum FetchAction {
    /// Read the file at `path` under the output root.
    ReadLocal { path: String },
    /// Request `url`.
    Get { url: String },
    /// Create the parent directory of `path` under the output root, and
    /// those above it, where they are missing.
    CreateParentDir { path: String },
    /// Write `body` to `path` under the output root.
    Write { path: String, body: Vec<u8> },
    /// Nothing more: the worker ended with this result.
    Finish(Result<Status, Error>),
    /// The event was not the one awaited. The worker still waits for the
    /// answer to its last action.
    Ignored,
}

/// The local content is current: there is a readable file and its checksum
/// is the one that the descriptor gives.
pub open spec fn cache_hit(file: FileResource, local: Option<Vec<u8>>) -> bool {
    local matches Some(content) && content_checksum(content@) == file.sum@
}

/// The phase and the action after the local check, given the checksum of the
/// local content, or `None` where there is no readable file: the worker ends
/// as skipped if that checksum is the descriptor's, and asks for the URL if
/// it is not.
pub open spec fn check_outcome(file: FileResource, local: Option<String>) -> (
    FetchPhase,
    FetchAction,
) {
    if local matches Some(checksum) && checksum@ == file.sum@ {
        (FetchPhase::Ended(Ok(Status::Skipped)), FetchAction::Finish(Ok(Status::Skipped)))
    } else {
        (FetchPhase::Fetching, FetchAction::Get { url: file.url })
    }
}

/// The phase after `event` and the action it leads to.
///
/// A current local file ends the worker as skipped, with no request made.
/// Any other local state leads to the request; its body is written to the
/// destination once the parent directory exists, and the worker ends as
/// downloaded. The first failure of a request, a directory or a write ends
/// the worker with that error. A worker that ended repeats its result.
pub open spec fn fetch_step(file: FileResource, phase: FetchPhase, event: FetchEvent) -> (
    FetchPhase,
    FetchAction,
) {
    match (phase, event) {
        (FetchPhase::Ended(result), _) => (FetchPhase::Ended(result), FetchAction::Finish(result)),
        (FetchPhase::Checking, FetchEvent::LocalRead(local)) => if cache_hit(file, local) {
            (FetchPhase::Ended(Ok(Status::Skipped)), FetchAction::Finish(Ok(Status::Skipped)))
        } else {
            (FetchPhase::Fetching, FetchAction::Get { url: file.url })
        },
        (FetchPhase::Fetching, FetchEvent::Response(Ok(body))) => (
            FetchPhase::Preparing(body),
            FetchAction::CreateParentDir { path: file.path },
        ),
        (FetchPhase::Fetching, FetchEvent::Response(Err(e))) => (
            FetchPhase::Ended(Err(e)),
            FetchAction::Finish(Err(e)),
        ),
        (FetchPhase::Preparing(body), FetchEvent::DirReady(Ok(_))) => (
            FetchPhase::Writing,
            FetchAction::Write { path: file.path, body },
        ),
        (FetchPhase::Preparing(_), FetchEvent::DirReady(Err(e))) => (
            FetchPhase::Ended(Err(e)),
            FetchAction::Finish(Err(e)),
        ),
        (FetchPhase::Writing, FetchEvent::Written(Ok(_))) => (
            FetchPhase::Ended(Ok(Status::Downloaded)),
            FetchAction::Finish(Ok(Status::Downloaded)),
        ),
        (FetchPhase::Writing, FetchEvent::Written(Err(e))) => (
            FetchPhase::Ended(Err(e)),
            FetchAction::Finish(Err(e)),
        ),
        (phase, _) => (phase, FetchAction::Ignored),
    }
}

fn copy_outcome(result: &Result<Status, Error>) -> (copy: Result<Status, Error>)
    ensures
        copy == *result,
{
    match result {
        Ok(status) => Ok(*status),
        Err(e) => Err(e.duplicate()),
    }
}

/// The unit of work for one descriptor: it brings the file at the
/// descriptor's path up to date.
#[derive(Debug)]
pub struct FetchWorker {
    file: FileResource,
    phase: FetchPhase,
}

impl FetchWorker {
    /// The descriptor that the worker fetches.
    pub closed spec fn file(&self) -> FileResource {
        self.file
    }

    /// What the worker is waiting for.
    pub closed spec fn phase(&self) -> FetchPhase {
        self.phase
    }

    /// A worker for `file`, and its first action: to read the local file.
    pub fn begin(file: FileResource) -> (started: (FetchWorker, FetchAction))
        ensures
            started.0.file() == file,
            started.0.phase() == FetchPhase::Checking,
            started.1 == (FetchAction::ReadLocal { path: file.path }),
    {
        let path = file.path.clone();
        (FetchWorker { file, phase: FetchPhase::Checking }, FetchAction::ReadLocal { path })
    }

    /// The result, once the worker ended.
    pub fn outcome(&self) -> (result: Option<Result<Status, Error>>)
        ensures
            result == match self.phase() {
                FetchPhase::Ended(r) => Some(r),
                _ => None,
            },
    {
        match &self.phase {
            FetchPhase::Ended(r) => Some(copy_outcome(r)),
            _ => None,
        }
    }

    /// Delivers the checksum of the local content, for a caller that has it
    /// at hand: `None` where there is no readable file. See
    /// [`check_outcome`]. A worker that is not waiting for the local content
    /// ignores it.
    pub fn checked(self, local: Option<String>) -> (next: (FetchWorker, FetchAction))
        ensures
            next.0.file() == self.file(),
            self.phase() is Checking ==> (next.0.phase(), next.1) == check_outcome(
                self.file(),
                local,
            ),
            !(self.phase() is Checking) ==> next.0.phase() == self.phase() && next.1
                == FetchAction::Ignored,
    {
        let FetchWorker { file, phase } = self;
        match phase {
            FetchPhase::Checking => {
                let hit = match &local {
                    Some(checksum) => *checksum == file.sum,
                    None => false,
                };
                if hit {
                    (
                        FetchWorker { file, phase: FetchPhase::Ended(Ok(Status::Skipped)) },
                        FetchAction::Finish(Ok(Status::Skipped)),
                    )
                } else {
                    let url = file.url.clone();
                    (FetchWorker { file, phase: FetchPhase::Fetching }, FetchAction::Get { url })
                }
            },
            phase => (FetchWorker { file, phase }, FetchAction::Ignored),
        }
    }

    /// Delivers `event` and decides the next action. See [`fetch_step`].
    ///
    /// A checksum that is not sixty-four characters long, an empty one
    /// among them, is the checksum of no content: with such a descriptor
    /// the local file is never current, and the worker asks for the URL.
    pub fn step(self, event: FetchEvent) -> (next: (FetchWorker, FetchAction))
        ensures
            next.0.file() == self.file(),
            (next.0.phase(), next.1) == fetch_step(self.file(), self.phase(), event),
            self.phase() is Checking && event is LocalRead && self.file().sum@.len() != 64
                ==> next.1 == (FetchAction::Get { url: self.file().url }),
    {
        let FetchWorker { file, phase } = self;
        match (phase, event) {
            (FetchPhase::Ended(result), _) => {
                let again = copy_outcome(&result);
                (FetchWorker { file, phase: FetchPhase::Ended(result) }, FetchAction::Finish(again))
            },
            (FetchPhase::Checking, FetchEvent::LocalRead(local)) => {
                let checksum = match &local {
                    Some(content) => Some(checksum_of(content.as_slice())),
                    None => None,
                };
                (FetchWorker { file, phase: FetchPhase::Checking }).checked(checksum)
            },
            (FetchPhase::Fetching, FetchEvent::Response(Ok(body))) => {
                let path = file.path.clone();
                (
                    FetchWorker { file, phase: FetchPhase::Preparing(body) },
                    FetchAction::CreateParentDir { path },
                )
            },
            (FetchPhase::Fetching, FetchEvent::Response(Err(e))) => {
                let again = e.duplicate();
                (
                    FetchWorker { file, phase: FetchPhase::Ended(Err(e)) },
                    FetchAction::Finish(Err(again)),
                )
            },
            (FetchPhase::Preparing(body), FetchEvent::DirReady(Ok(_))) => {
                let path = file.path.clone();
                (FetchWorker { file, phase: FetchPhase::Writing }, FetchAction::Write { path, body })
            },
            (FetchPhase::Preparing(_), FetchEvent::DirReady(Err(e))) => {
                let again = e.duplicate();
                (
                    FetchWorker { file, phase: FetchPhase::Ended(Err(e)) },
                    FetchAction::Finish(Err(again)),
                )
            },
            (FetchPhase::Writing, FetchEvent::Written(Ok(_))) => {
                (
                    FetchWorker { file, phase: FetchPhase::Ended(Ok(Status::Downloaded)) },
                    FetchAction::Finish(Ok(Status::Downloaded)),
                )
            },
            (FetchPhase::Writing, FetchEvent::Written(Err(e))) => {
                let again = e.duplicate();
                (
                    FetchWorker { file, phase: FetchPhase::Ended(Err(e)) },
                    FetchAction::Finish(Err(again)),
                )
            },
            (phase, _) => (FetchWorker { file, phase }, FetchAction::Ignored),
        }
    }
}

} // verus!
