//! The order in which the steps of fetching one asset follow each other.
//!
//! Fetching touches the file system and the network, which this library does
//! not do itself. A [`MapDownload`] holds what has been decided so far; the
//! caller performs each [`FetchAction`] it is handed and reports what came of
//! it as a [`FetchEvent`].

use crate::adapter::ProgressReporter;
use crate::copier::{added, copy_result, copy_with_cb, drawn_from};
use crate::error::{FetchError, IoError, PreconditionError};
use crate::guard::{disposal, Disposal, DownloadFile};
use crate::stream::{ByteSink, ByteSource, ChunkObserver};
use vstd::prelude::*;
use vstd::string::StringExecFns;

verus! {

/// Name of the local file and of the remote object for the asset `name`.
pub open spec fn file_name_of(name: Seq<char>) -> Seq<char> {
    name + ".kfm"@
}

/// Address from which the asset `name` is requested.
pub open spec fn url_of(name: Seq<char>) -> Seq<char> {
    "http://kf2.tripwirecdn.com/"@ + file_name_of(name)
}

/// The statuses that count as success: the class 2xx.
pub open spec fn success_status(status: u16) -> bool {
    200 <= status <= 299
}

/// Builds the file name of an asset. The name is taken as it is.
pub fn map_filename(map_name: &str) -> (file_name: String)
    ensures
        file_name@ == file_name_of(map_name@),
{
    String::from_str(map_name).concat(".kfm")
}

/// Builds the address of an asset on the content network.
pub fn download_url(map_name: &str) -> (url: String)
    ensures
        url@ == url_of(map_name@),
{
    let file_name = map_filename(map_name);
    String::from_str("http://kf2.tripwirecdn.com/").concat(file_name.as_str())
}

/// Classifies a status through `hyper::status::StatusCode`: the number is
/// turned into a status code with `from_u16`, and `is_success` is asked. The
/// contract claims that the answer is yes exactly for the numbers 200 to 299,
/// which is how hyper assigns the class `Success`.
#[verifier::external_body]
fn status_is_success(status: u16) -> (ok: bool)
    ensures
        ok == success_status(status),
{
    hyper::status::StatusCode::from_u16(status).is_success()
}

/// Where a fetch stands.
#[derive(Clone, Copy, Debug, PartialEq, Eq, Structural)]
pub enum FetchPhase {
    /// The destination has to be probed.
    Resolve,
    /// The request is out; the answer is awaited.
    Request,
    /// The answer was a success; the destination file has to be created.
    Prepare,
    /// The body is being copied into the file.
    Stream,
    /// The whole body is in the file.
    Complete,
    /// The fetch has failed and nothing more will be done.
    Failed,
}

/// What the caller found out by performing an action.
#[derive(Clone, Debug, PartialEq, Eq)]
pub enum FetchEvent {
    /// The destination was probed; `exists` says whether a file is there.
    DestinationProbed { exists: bool },
    /// The endpoint could not be reached.
    ConnectionFailed { detail: String },
    /// The endpoint answered.
    ResponseReceived { status: u16, content_length: Option<u64> },
    /// The destination file was created and is open for writing.
    FileCreated,
    /// The destination file could not be created.
    FileRefused { error: IoError },
    /// The body was copied to its end.
    BodyCopied { bytes: u64 },
    /// Copying the body failed.
    CopyFailed { error: IoError },
}

/// What the caller is to do next.
#[derive(Clone, Debug, PartialEq, Eq)]
pub enum FetchAction {
    /// Find out whether a file exists at the destination.
    ProbeDestination,
    /// Send a GET for the asset's address.
    SendRequest,
    /// Create the destination file for writing.
    CreateFile,
    /// Copy the response body into the file, reporting progress against
    /// `total` where the endpoint announced one.
    StreamBody { total: Option<u64> },
    /// Clear the progress line; the asset is in place.
    Finish,
    /// Give up on the whole run with `error`.
    Abort { error: FetchError },
}

/// Whether a fetch in `phase` is waiting for `event`.
pub open spec fn awaits(phase: FetchPhase, event: FetchEvent) -> bool {
    match phase {
        FetchPhase::Resolve => event is DestinationProbed,
        FetchPhase::Request => event is ConnectionFailed || event is ResponseReceived,
        FetchPhase::Prepare => event is FileCreated || event is FileRefused,
        FetchPhase::Stream => event is BodyCopied || event is CopyFailed,
        FetchPhase::Complete | FetchPhase::Failed => false,
    }
}

/// Whether `event` lets the fetch go on.
pub open spec fn favourable(event: FetchEvent) -> bool {
    match event {
        FetchEvent::DestinationProbed { exists } => !exists,
        FetchEvent::ConnectionFailed { .. } => false,
        FetchEvent::ResponseReceived { status, .. } => success_status(status),
        FetchEvent::FileCreated => true,
        FetchEvent::FileRefused { .. } => false,
        FetchEvent::BodyCopied { .. } => true,
        FetchEvent::CopyFailed { .. } => false,
    }
}

/// The phase that follows `phase`. The steps are taken in one fixed order
/// and never again; the first unfavourable event ends the fetch.
pub open spec fn next_phase(phase: FetchPhase, event: FetchEvent) -> FetchPhase {
    if !awaits(phase, event) {
        phase
    } else if !favourable(event) {
        FetchPhase::Failed
    } else {
        match phase {
            FetchPhase::Resolve => FetchPhase::Request,
            FetchPhase::Request => FetchPhase::Prepare,
            FetchPhase::Prepare => FetchPhase::Stream,
            _ => FetchPhase::Complete,
        }
    }
}

/// Position of a phase in the order of the steps.
pub open spec fn phase_rank(phase: FetchPhase) -> nat {
    match phase {
        FetchPhase::Resolve => 0,
        FetchPhase::Request => 1,
        FetchPhase::Prepare => 2,
        FetchPhase::Stream => 3,
        FetchPhase::Complete => 4,
        FetchPhase::Failed => 5,
    }
}

/// The failure that an unfavourable event stands for.
pub open spec fn failure_of(event: FetchEvent) -> FetchError {
    match event {
        FetchEvent::ConnectionFailed { detail } => FetchError::Connection(detail),
        FetchEvent::ResponseReceived { status, .. } => FetchError::Http(status),
        FetchEvent::FileRefused { error } => FetchError::Io(error),
        FetchEvent::CopyFailed { error } => FetchError::Io(error),
        _ => FetchError::Precondition(PreconditionError::DestinationExists),
    }
}

/// The content length known after `event`, given the one known before.
pub open spec fn next_announced(announced: Option<u64>, event: FetchEvent) -> Option<u64> {
    match event {
        FetchEvent::ResponseReceived { status, content_length } if success_status(status) =>
            content_length,
        _ => announced,
    }
}

/// The action that answers `event` in a fetch that was waiting for it.
pub open spec fn reply(announced: Option<u64>, event: FetchEvent) -> FetchAction {
    if !favourable(event) {
        FetchAction::Abort { error: failure_of(event) }
    } else {
        match event {
            FetchEvent::DestinationProbed { .. } => FetchAction::SendRequest,
            FetchEvent::ResponseReceived { .. } => FetchAction::CreateFile,
            FetchEvent::FileCreated => FetchAction::StreamBody { total: announced },
            _ => FetchAction::Finish,
        }
    }
}

/// What is to be done in `phase`, if anything: each phase before the last
/// has its one action, a complete fetch is finished off, and a failed one has
/// nothing left to do.
pub open spec fn task(phase: FetchPhase, announced: Option<u64>) -> Option<FetchAction> {
    match phase {
        FetchPhase::Resolve => Some(FetchAction::ProbeDestination),
        FetchPhase::Request => Some(FetchAction::SendRequest),
        FetchPhase::Prepare => Some(FetchAction::CreateFile),
        FetchPhase::Stream => Some(FetchAction::StreamBody { total: announced }),
        FetchPhase::Complete => Some(FetchAction::Finish),
        FetchPhase::Failed => None,
    }
}

/// The guard held after `event`, given the one held before: `None` while no
/// guard has been acquired, else whether it has been marked complete. The
/// guard is acquired when the answer is a success, before the file is
/// created, and marked complete when the body has been copied to its end.
pub open spec fn next_guard(guard: Option<bool>, event: FetchEvent) -> Option<bool> {
    match event {
        FetchEvent::ResponseReceived { status, .. } if success_status(status) => Some(false),
        FetchEvent::BodyCopied { .. } => Some(true),
        _ => guard,
    }
}

/// The number of bytes known to have been copied after `event`, given what
/// was known before.
pub open spec fn next_copied(copied: Option<u64>, event: FetchEvent) -> Option<u64> {
    match event {
        FetchEvent::BodyCopied { bytes } => Some(bytes),
        _ => copied,
    }
}

/// The event that tells how a copy ended.
pub open spec fn copy_event(result: Result<u64, IoError>) -> FetchEvent {
    match result {
        Ok(bytes) => FetchEvent::BodyCopied { bytes },
        Err(error) => FetchEvent::CopyFailed { error },
    }
}

/// What becomes of the file at the destination when a fetch holding `guard`
/// is let go. A fetch without a guard has not created the file and leaves
/// alone whatever is there.
pub open spec fn fetch_disposal(guard: Option<bool>, file_exists: bool) -> Disposal {
    match guard {
        Some(completed) => disposal(completed, file_exists),
        None => Disposal::Keep,
    }
}

/// Whether a fetch in `phase` may hold `guard`.
pub open spec fn guard_fits(phase: FetchPhase, guard: Option<bool>) -> bool {
    match phase {
        FetchPhase::Resolve | FetchPhase::Request => guard.is_none(),
        FetchPhase::Prepare | FetchPhase::Stream => guard == Some(false),
        FetchPhase::Complete => guard == Some(true),
        FetchPhase::Failed => guard != Some(true),
    }
}

/// The fetch of one asset.
#[derive(Debug)]
pub struct MapDownload {
    name: String,
    file_name: String,
    url: String,
    phase: FetchPhase,
    announced: Option<u64>,
    copied: Option<u64>,
    guard: Option<DownloadFile>,
}

impl MapDownload {
    /// The asset's name, as it was given.
    pub closed spec fn name(&self) -> Seq<char> {
        self.name@
    }

    /// Where the fetch stands.
    pub closed spec fn phase(&self) -> FetchPhase {
        self.phase
    }

    /// The content length that the endpoint announced, if it did.
    pub closed spec fn announced(&self) -> Option<u64> {
        self.announced
    }

    /// The length of the body, once it has been copied to its end.
    pub closed spec fn copied(&self) -> Option<u64> {
        self.copied
    }

    /// `None` while no guard has been acquired, else whether the guard has
    /// been marked complete.
    pub closed spec fn guard_state(&self) -> Option<bool> {
        match self.guard {
            Some(guard) => Some(guard.completed()),
            None => None,
        }
    }

    /// What holds of every fetch: its names belong to its asset, its guard is
    /// for its file, and it holds the guard that belongs to its phase.
    pub closed spec fn wf(&self) -> bool {
        &&& self.file_name@ == file_name_of(self.name@)
        &&& self.url@ == url_of(self.name@)
        &&& self.guard matches Some(guard) ==> guard.path() == self.file_name@
        &&& guard_fits(self.phase, self.guard_state())
        &&& self.copied.is_some() <==> self.phase == FetchPhase::Complete
    }

    /// Whether the fetch is waiting for `event`.
    pub fn expects(&self, event: &FetchEvent) -> (yes: bool)
        ensures
            yes == awaits(self.phase(), *event),
    {
        match self.phase {
            FetchPhase::Resolve => matches!(event, FetchEvent::DestinationProbed { .. }),
            FetchPhase::Request => matches!(
                event,
                FetchEvent::ConnectionFailed { .. } | FetchEvent::ResponseReceived { .. }
            ),
            FetchPhase::Prepare => matches!(
                event,
                FetchEvent::FileCreated | FetchEvent::FileRefused { .. }
            ),
            FetchPhase::Stream => matches!(
                event,
                FetchEvent::BodyCopied { .. } | FetchEvent::CopyFailed { .. }
            ),
            FetchPhase::Complete | FetchPhase::Failed => false,
        }
    }

    /// Where the fetch stands.
    pub fn current_phase(&self) -> (phase: FetchPhase)
        ensures
            phase == self.phase(),
    {
        self.phase
    }

    /// Name of the destination file inside the map directory.
    pub fn file_name(&self) -> (file_name: &str)
        requires
            self.wf(),
        ensures
            file_name@ == file_name_of(self.name()),
    {
        self.file_name.as_str()
    }

    /// Address that the asset is requested from.
    pub fn url(&self) -> (url: &str)
        requires
            self.wf(),
        ensures
            url@ == url_of(self.name()),
    {
        self.url.as_str()
    }

    /// The guard over the destination, once it has been acquired.
    pub fn guard(&self) -> (guard: Option<&DownloadFile>)
        requires
            self.wf(),
        ensures
            match guard {
                Some(guard) => self.guard_state() == Some(guard.completed())
                    && guard.path() == file_name_of(self.name()),
                None => self.guard_state().is_none(),
            },
    {
        self.guard.as_ref()
    }

    /// What is to be done now. For a fetch that has just begun this is the
    /// probe of the destination.
    pub fn pending(&self) -> (action: Option<FetchAction>)
        ensures
            action == task(self.phase(), self.announced()),
    {
        match self.phase {
            FetchPhase::Resolve => Some(FetchAction::ProbeDestination),
            FetchPhase::Request => Some(FetchAction::SendRequest),
            FetchPhase::Prepare => Some(FetchAction::CreateFile),
            FetchPhase::Stream => Some(FetchAction::StreamBody { total: self.announced }),
            FetchPhase::Complete => Some(FetchAction::Finish),
            FetchPhase::Failed => None,
        }
    }

    /// The announced length of the body, once a successful answer is in.
    pub fn content_length(&self) -> (announced: Option<u64>)
        ensures
            announced == self.announced(),
    {
        self.announced
    }

    /// The length of the body, once it has been copied to its end.
    pub fn bytes_copied(&self) -> (copied: Option<u64>)
        ensures
            copied == self.copied(),
    {
        self.copied
    }

    /// Decides what happens to the file at the destination when the fetch is
    /// let go, however it went, given whether a file exists there now.
    pub fn release(&self, file_exists: bool) -> (verdict: Disposal)
        ensures
            verdict == fetch_disposal(self.guard_state(), file_exists),
    {
        match &self.guard {
            Some(guard) => guard.release(file_exists),
            None => Disposal::Keep,
        }
    }

    /// Streams the body: copies `body` into `file`, drawing the progress
    /// against the announced length after every chunk and handing each
    /// drawing to `show`, and takes in how the copy ended. The guard is
    /// marked complete only if the copy came to the end of the body.
    ///
    /// This does in one call what a caller does who copies the body by other
    /// means and then reports `BodyCopied` or `CopyFailed`.
    ///
    /// A fetch that is not at this step reads nothing, writes nothing and
    /// gives no answer.
    pub fn stream<R: ByteSource, W: ByteSink, D: FnMut(u64, &str)>(
        &mut self,
        body: &mut R,
        file: &mut W,
        show: D,
    ) -> (action: Option<FetchAction>)
        requires
            old(self).wf(),
            old(body).wf(),
            old(file).wf(),
            forall|bytes: u64, text: &str| call_requires(show, (bytes, text)),
        ensures
            final(self).wf(),
            final(body).wf(),
            final(file).wf(),
            final(self).name() == old(self).name(),
            final(self).announced() == old(self).announced(),
            old(self).phase() != FetchPhase::Stream ==> {
                &&& action.is_none()
                &&& final(body).reads() == old(body).reads()
                &&& final(file).writes() == old(file).writes()
                &&& final(self).phase() == old(self).phase()
                &&& final(self).copied() == old(self).copied()
                &&& final(self).guard_state() == old(self).guard_state()
            },
            old(self).phase() == FetchPhase::Stream ==> {
                &&& old(body).reads().is_prefix_of(final(body).reads())
                &&& old(file).writes().is_prefix_of(final(file).writes())
                &&& exists|result: Result<u64, IoError>, reports: Seq<u64>|
                    {
                        &&& #[trigger] copy_result(
                            added(old(body).reads(), final(body).reads()),
                            added(old(file).writes(), final(file).writes()),
                            reports,
                            result,
                        )
                        &&& old(body).remaining() matches Some(rest) ==> drawn_from(
                            rest,
                            added(old(body).reads(), final(body).reads()),
                            final(body).remaining(),
                            result,
                        )
                        &&& action == Some(reply(old(self).announced(), copy_event(result)))
                        &&& final(self).phase() == next_phase(
                            FetchPhase::Stream,
                            copy_event(result),
                        )
                        &&& final(self).copied() == next_copied(
                            old(self).copied(),
                            copy_event(result),
                        )
                        &&& final(self).guard_state() == next_guard(
                            old(self).guard_state(),
                            copy_event(result),
                        )
                    }
            },
    {
        match self.phase {
            FetchPhase::Stream => {},
            _ => {
                return None;
            },
        }
        let mut reporter = ProgressReporter::new(self.announced, show);
        let result = copy_with_cb(body, file, &mut reporter);
        proof {
            assert(added(Seq::<u64>::empty(), reporter.seen()) =~= reporter.seen());
            assert(copy_result(
                added(old(body).reads(), body.reads()),
                added(old(file).writes(), file.writes()),
                reporter.seen(),
                result,
            ));
        }
        let event = match result {
            Ok(bytes) => FetchEvent::BodyCopied { bytes },
            Err(error) => FetchEvent::CopyFailed { error },
        };
        Some(self.step(event))
    }

    /// Takes in `event` if the fetch is waiting for it, and says what to do
    /// next. An event that comes out of turn changes nothing and gets no
    /// answer.
    pub fn advance(&mut self, event: FetchEvent) -> (action: Option<FetchAction>)
        requires
            old(self).wf(),
        ensures
            final(self).wf(),
            final(self).name() == old(self).name(),
            awaits(old(self).phase(), event) ==> {
                &&& action == Some(reply(old(self).announced(), event))
                &&& final(self).phase() == next_phase(old(self).phase(), event)
                &&& final(self).announced() == next_announced(old(self).announced(), event)
                &&& final(self).copied() == next_copied(old(self).copied(), event)
                &&& final(self).guard_state() == next_guard(old(self).guard_state(), event)
            },
            !awaits(old(self).phase(), event) ==> {
                &&& action.is_none()
                &&& final(self).phase() == old(self).phase()
                &&& final(self).announced() == old(self).announced()
                &&& final(self).copied() == old(self).copied()
                &&& final(self).guard_state() == old(self).guard_state()
            },
    {
        if self.expects(&event) {
            Some(self.step(event))
        } else {
            None
        }
    }

    /// Takes in what the caller found out and says what to do next. The
    /// fetch must be waiting for `event`; see [`MapDownload::advance`] for a
    /// caller that cannot be sure of it.
    pub fn step(&mut self, event: FetchEvent) -> (action: FetchAction)
        requires
            old(self).wf(),
            awaits(old(self).phase(), event),
        ensures
            final(self).wf(),
            final(self).name() == old(self).name(),
            final(self).phase() == next_phase(old(self).phase(), event),
            final(self).announced() == next_announced(old(self).announced(), event),
            final(self).copied() == next_copied(old(self).copied(), event),
            final(self).guard_state() == next_guard(old(self).guard_state(), event),
            action == reply(old(self).announced(), event),
    {
        match event {
            FetchEvent::DestinationProbed { exists } => {
                if exists {
                    self.phase = FetchPhase::Failed;
                    FetchAction::Abort {
                        error: FetchError::Precondition(PreconditionError::DestinationExists),
                    }
                } else {
                    self.phase = FetchPhase::Request;
                    FetchAction::SendRequest
                }
            },
            FetchEvent::ConnectionFailed { detail } => {
                self.phase = FetchPhase::Failed;
                FetchAction::Abort { error: FetchError::Connection(detail) }
            },
            FetchEvent::ResponseReceived { status, content_length } => {
                if status_is_success(status) {
                    self.announced = content_length;
                    self.guard = Some(DownloadFile::acquire(self.file_name.clone()));
                    self.phase = FetchPhase::Prepare;
                    FetchAction::CreateFile
                } else {
                    self.phase = FetchPhase::Failed;
                    FetchAction::Abort { error: FetchError::Http(status) }
                }
            },
            FetchEvent::FileCreated => {
                self.phase = FetchPhase::Stream;
                FetchAction::StreamBody { total: self.announced }
            },
            FetchEvent::FileRefused { error } => {
                self.phase = FetchPhase::Failed;
                FetchAction::Abort { error: FetchError::Io(error) }
            },
            FetchEvent::BodyCopied { bytes } => {
                self.copied = Some(bytes);
                if let Some(mut guard) = self.guard.take() {
                    guard.mark_complete();
                    self.guard = Some(guard);
                }
                self.phase = FetchPhase::Complete;
                FetchAction::Finish
            },
            FetchEvent::CopyFailed { error } => {
                self.phase = FetchPhase::Failed;
                FetchAction::Abort { error: FetchError::Io(error) }
            },
        }
    }
}

/// A request is sent for one reason only: the destination was probed and no
/// file was found there.
pub proof fn lemma_request_follows_free_destination(
    phase: FetchPhase,
    announced: Option<u64>,
    event: FetchEvent,
)
    requires
        awaits(phase, event),
        reply(announced, event) == FetchAction::SendRequest,
    ensures
        phase == FetchPhase::Resolve,
        event == (FetchEvent::DestinationProbed { exists: false }),
{
}

/// The guard of a fetch is marked complete exactly when the fetch is
/// complete, that is when the body has been copied to its end. In every other
/// phase, releasing the guard removes the file.
pub proof fn lemma_guard_complete_iff_fetch_complete(fetch: MapDownload)
    requires
        fetch.wf(),
    ensures
        fetch.guard_state() == Some(true) <==> fetch.phase() == FetchPhase::Complete,
        fetch.phase() == FetchPhase::Prepare || fetch.phase() == FetchPhase::Stream
            ==> fetch.guard_state() == Some(false),
        fetch.phase() == FetchPhase::Resolve || fetch.phase() == FetchPhase::Request
            ==> fetch.guard_state().is_none(),
{
}

/// Letting go of a fetch that is not complete leaves no file of its own
/// behind: if it had come as far as creating one, the file is removed. Letting
/// go of a complete fetch keeps the file, and a fetch that was stopped before
/// it held a guard touches nothing, so a file that was in the way stays.
pub proof fn lemma_only_complete_fetch_keeps_file(fetch: MapDownload, file_exists: bool)
    requires
        fetch.wf(),
    ensures
        fetch.phase() == FetchPhase::Complete ==> fetch_disposal(fetch.guard_state(), file_exists)
            == Disposal::Keep,
        fetch.guard_state().is_some() && fetch.phase() != FetchPhase::Complete && file_exists
            ==> fetch_disposal(fetch.guard_state(), file_exists) == Disposal::Remove,
        fetch.guard_state().is_none() ==> fetch_disposal(fetch.guard_state(), file_exists)
            == Disposal::Keep,
{
}

/// Streaming completes a fetch exactly when the copy came to the end of the
/// body, and only then is the guard marked complete. A copy that failed fails
/// the fetch with the failure of the copy, and leaves the guard as it was.
pub proof fn lemma_stream_completes_on_full_copy(
    announced: Option<u64>,
    result: Result<u64, IoError>,
)
    ensures
        next_phase(FetchPhase::Stream, copy_event(result)) == (if result is Ok {
            FetchPhase::Complete
        } else {
            FetchPhase::Failed
        }),
        next_guard(Some(false), copy_event(result)) == Some(result is Ok),
        result matches Ok(bytes) ==> reply(announced, copy_event(result)) == FetchAction::Finish
            && next_copied(None, copy_event(result)) == Some(bytes),
        result matches Err(error) ==> reply(announced, copy_event(result)) == (FetchAction::Abort {
            error: FetchError::Io(error),
        }),
{
}

/// The answer to a favourable event is the task of the phase that the event
/// leads to; the answer to any other is to give up with the failure that the
/// event stands for.
pub proof fn lemma_reply_is_next_task(phase: FetchPhase, announced: Option<u64>, event: FetchEvent)
    requires
        awaits(phase, event),
    ensures
        favourable(event) ==> Some(reply(announced, event)) == task(
            next_phase(phase, event),
            next_announced(announced, event),
        ),
        !favourable(event) ==> reply(announced, event) == (FetchAction::Abort {
            error: failure_of(event),
        }),
{
}

/// A fetch never goes back: every event moves it to a later phase, and an
/// unfavourable one moves it to `Failed`.
pub proof fn lemma_phases_advance(phase: FetchPhase, event: FetchEvent)
    requires
        awaits(phase, event),
    ensures
        phase_rank(next_phase(phase, event)) > phase_rank(phase),
        !favourable(event) <==> next_phase(phase, event) == FetchPhase::Failed,
{
}

/// The phase that a fetch in `phase` is in after `events`, taken in one by
/// one. The first event that comes out of turn, and all after it, are left
/// aside.
pub open spec fn phase_after(phase: FetchPhase, events: Seq<FetchEvent>) -> FetchPhase
    decreases events.len(),
{
    if events.len() == 0 || !awaits(phase, events[0]) {
        phase
    } else {
        phase_after(next_phase(phase, events[0]), events.drop_first())
    }
}

/// The actions with which a fetch in `phase` answers `events`, in order.
pub open spec fn replies(phase: FetchPhase, announced: Option<u64>, events: Seq<FetchEvent>) -> Seq<
    FetchAction,
>
    decreases events.len(),
{
    if events.len() == 0 || !awaits(phase, events[0]) {
        Seq::empty()
    } else {
        seq![reply(announced, events[0])] + replies(
            next_phase(phase, events[0]),
            next_announced(announced, events[0]),
            events.drop_first(),
        )
    }
}

/// What a fetch that goes well is told to do after the probe, in this order
/// and each once: send the request, create the file, stream the body, finish.
pub open spec fn full_course(total: Option<u64>) -> Seq<FetchAction> {
    seq![
        FetchAction::SendRequest,
        FetchAction::CreateFile,
        FetchAction::StreamBody { total },
        FetchAction::Finish,
    ]
}

/// Whatever a new fetch is told happened, it is never answered with more
/// than the full course. A fetch that ends complete was answered with exactly
/// the full course, so one request was sent and one file created for it. A
/// fetch that ends failed was answered with the beginning of the full course
/// and then told, once, to give up.
pub proof fn lemma_fetch_follows_the_course(events: Seq<FetchEvent>)
    ensures
        ({
            let actions = replies(FetchPhase::Resolve, None, events);
            let end = phase_after(FetchPhase::Resolve, events);
            &&& actions.len() <= 4
            &&& end == FetchPhase::Complete ==> exists|total: Option<u64>|
                actions == #[trigger] full_course(total)
            &&& end == FetchPhase::Failed ==> exists|total: Option<u64>|
                {
                    &&& actions.drop_last() == #[trigger] full_course(total).take(
                        actions.len() - 1,
                    )
                    &&& actions.last() is Abort
                }
            &&& end != FetchPhase::Complete && end != FetchPhase::Failed ==> exists|
                total: Option<u64>,
            |
                actions == #[trigger] full_course(total).take(actions.len() as int)
        }),
{
    reveal_with_fuel(replies, 6);
    reveal_with_fuel(phase_after, 6);
    let actions = replies(FetchPhase::Resolve, None, events);
    let end = phase_after(FetchPhase::Resolve, events);
    let total = if events.len() >= 2 {
        next_announced(None, events[1])
    } else {
        None
    };
    if events.len() >= 2 {
        assert(events.drop_first()[0] == events[1]);
    }
    if end == FetchPhase::Complete {
        assert(actions =~= full_course(total));
    } else if end == FetchPhase::Failed {
        assert(actions.drop_last() =~= full_course(total).take(actions.len() - 1));
    } else {
        assert(actions =~= full_course(total).take(actions.len() as int));
    }
}

/// A new fetch that finds a file at its destination is answered once, with
/// the precondition failure, and with nothing else whatever it is told
/// afterwards: no request is sent.
pub proof fn lemma_no_request_for_existing_destination(later: Seq<FetchEvent>)
    ensures
        replies(
            FetchPhase::Resolve,
            None,
            seq![FetchEvent::DestinationProbed { exists: true }] + later,
        ) == seq![
            FetchAction::Abort {
                error: FetchError::Precondition(PreconditionError::DestinationExists),
            },
        ],
{
    reveal_with_fuel(replies, 3);
    let events = seq![FetchEvent::DestinationProbed { exists: true }] + later;
    assert(events[0] == (FetchEvent::DestinationProbed { exists: true }));
    assert(replies(FetchPhase::Resolve, None, events) =~= seq![
        FetchAction::Abort { error: FetchError::Precondition(PreconditionError::DestinationExists) },
    ]);
}

/// Begins the fetch of the asset `map_name`. The first thing to do is to
/// probe the destination.
pub fn download_map_file(map_name: &str) -> (fetch: MapDownload)
    ensures
        fetch.wf(),
        fetch.name() == map_name@,
        fetch.phase() == FetchPhase::Resolve,
        fetch.announced().is_none(),
        fetch.copied().is_none(),
        fetch.guard_state().is_none(),
{
    MapDownload {
        name: String::from_str(map_name),
        file_name: map_filename(map_name),
        url: download_url(map_name),
        phase: FetchPhase::Resolve,
        announced: None,
        copied: None,
        guard: None,
    }
}

} // verus!
