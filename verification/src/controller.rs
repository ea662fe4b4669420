//! The render job controller: validates the selected paths, builds the
//! command line for the external transcoding tool, and tracks the lifecycle
//! of the single job that may be in flight, delivering its events to the
//! presentation side through a FIFO queue.

use vstd::prelude::*;
use vstd::string::*;

use crate::paths::{escaped_filter_path, escape_filter_path, ensure_mp4_extension, with_mp4_ext};
use crate::progress::{EventQueue, ProgressEvent};

verus! {

/// Whether a render job is currently in flight. At most one job may run at a
/// time; a second start is refused until the running job's terminal event has
/// been consumed.
#[derive(Clone, Copy, Debug, PartialEq, Eq, Structural)]
pub enum JobState {
    Idle,
    Running,
}

/// Why a job could not be started, or how it failed before running. The
/// spawn-failure variant carries the operating-system error code the spawn
/// attempt reported.
#[derive(Clone, Copy, Debug, PartialEq, Eq, Structural)]
pub enum ControllerError {
    AlreadyRunning,
    InvalidInputs,
    SpawnFailed(i32),
}

/// What a started job asks of the process layer: the argument list for the
/// external tool, and the output path it will write (extension enforced).
#[derive(Debug)]
pub struct RenderRequest {
    pub args: Vec<String>,
    pub output_path: String,
}

/// The subtitle path wrapped into the filter-graph argument that requests the
/// burn-in step.
pub open spec fn subtitle_filter_spec(sub: Seq<char>) -> Seq<char> {
    "ass='"@ + escaped_filter_path(sub) + "'"@
}

/// The full argument list handed to the external tool: overwrite the output,
/// report machine-parseable progress on the diagnostic stream, read the
/// input video, burn the subtitles in, fix quality, preset and codecs, lay
/// the container out for fast start, and name the output.
pub open spec fn render_args_spec(video: Seq<char>, sub: Seq<char>, output: Seq<char>) -> Seq<
    Seq<char>,
> {
    seq![
        "-y"@,
        "-progress"@,
        "pipe:2"@,
        "-i"@,
        video,
        "-vf"@,
        subtitle_filter_spec(sub),
        "-crf"@,
        "18"@,
        "-preset"@,
        "slow"@,
        "-movflags"@,
        "+faststart"@,
        "-c:v"@,
        "libx264"@,
        "-c:a"@,
        "copy"@,
        output,
    ]
}

/// Builds the filter-graph argument for the subtitle burn-in step.
pub fn build_subtitle_filter(sub: &str) -> (r: String)
    ensures
        r@ == subtitle_filter_spec(sub@),
{
    let mut r = String::from_str("ass='");
    let esc = escape_filter_path(sub);
    r.append(esc.as_str());
    r.append("'");
    r
}

/// Builds the argument list for the external tool; the output path is taken
/// as already carrying the container extension.
fn build_render_args(video: &str, sub: &str, output: &str) -> (r: Vec<String>)
    ensures
        r.deep_view() == render_args_spec(video@, sub@, output@),
{
    let mut args: Vec<String> = Vec::new();
    args.push(String::from_str("-y"));
    args.push(String::from_str("-progress"));
    args.push(String::from_str("pipe:2"));
    args.push(String::from_str("-i"));
    args.push(String::from_str(video));
    args.push(String::from_str("-vf"));
    args.push(build_subtitle_filter(sub));
    args.push(String::from_str("-crf"));
    args.push(String::from_str("18"));
    args.push(String::from_str("-preset"));
    args.push(String::from_str("slow"));
    args.push(String::from_str("-movflags"));
    args.push(String::from_str("+faststart"));
    args.push(String::from_str("-c:v"));
    args.push(String::from_str("libx264"));
    args.push(String::from_str("-c:a"));
    args.push(String::from_str("copy"));
    args.push(String::from_str(output));
    proof {
        assert(args.deep_view() =~= render_args_spec(video@, sub@, output@));
    }
    args
}

/// The render job controller. It owns the job state and the event queue; the
/// process layer around it performs the spawn it requests and feeds the
/// events its worker produces back in.
pub struct Controller {
    state: JobState,
    queue: EventQueue,
}

impl Controller {
    /// The lifecycle state of the current job, if any.
    pub closed spec fn spec_state(&self) -> JobState {
        self.state
    }

    /// The events buffered for the presentation side, oldest first.
    pub closed spec fn pending(&self) -> Seq<ProgressEvent> {
        self.queue@
    }

    pub fn new() -> (c: Controller)
        ensures
            c.spec_state() is Idle,
            c.pending() == Seq::<ProgressEvent>::empty(),
    {
        Controller { state: JobState::Idle, queue: EventQueue::new() }
    }

    pub fn is_idle(&self) -> (r: bool)
        ensures
            r == (self.spec_state() is Idle),
    {
        self.state == JobState::Idle
    }

    /// Starts a render job. Refused while a job is already running — the
    /// refusal changes nothing, so no second process can be requested — and
    /// refused when any selected path is empty. On success the controller is
    /// `Running` and the returned request carries the argument list, with the
    /// output path's container extension enforced.
    pub fn start(&mut self, video: &str, subtitle: &str, output: &str) -> (r: Result<
        RenderRequest,
        ControllerError,
    >)
        ensures
            old(self).spec_state() is Running ==> {
                &&& r == Err::<RenderRequest, ControllerError>(ControllerError::AlreadyRunning)
                &&& final(self).spec_state() == old(self).spec_state()
                &&& final(self).pending() == old(self).pending()
            },
            old(self).spec_state() is Idle && (video@.len() == 0 || subtitle@.len() == 0
                || output@.len() == 0) ==> {
                &&& r == Err::<RenderRequest, ControllerError>(ControllerError::InvalidInputs)
                &&& final(self).spec_state() == old(self).spec_state()
                &&& final(self).pending() == old(self).pending()
            },
            old(self).spec_state() is Idle && video@.len() > 0 && subtitle@.len() > 0
                && output@.len() > 0 ==> {
                &&& r is Ok
                &&& final(self).spec_state() is Running
                &&& final(self).pending() == old(self).pending()
                &&& r->Ok_0.output_path@ == with_mp4_ext(output@)
                &&& r->Ok_0.args.deep_view() == render_args_spec(
                    video@,
                    subtitle@,
                    with_mp4_ext(output@),
                )
            },
    {
        match self.state {
            JobState::Running => Err(ControllerError::AlreadyRunning),
            JobState::Idle => {
                if video.unicode_len() == 0 || subtitle.unicode_len() == 0 || output.unicode_len()
                    == 0 {
                    Err(ControllerError::InvalidInputs)
                } else {
                    let out_path = ensure_mp4_extension(output);
                    let args = build_render_args(video, subtitle, out_path.as_str());
                    self.state = JobState::Running;
                    Ok(RenderRequest { args, output_path: out_path })
                }
            },
        }
    }

    /// Records that the spawn attempt failed: the job never ran, the failure
    /// is terminal, and the controller is ready again at once. No terminal
    /// event will follow. Returns the error to surface to the user.
    pub fn spawn_failure(&mut self, os_error: i32) -> (e: ControllerError)
        ensures
            final(self).spec_state() is Idle,
            final(self).pending() == old(self).pending(),
            e == ControllerError::SpawnFailed(os_error),
    {
        self.state = JobState::Idle;
        ControllerError::SpawnFailed(os_error)
    }

    /// Accepts one event from the worker of the running job, preserving the
    /// order in which the worker emitted them.
    pub fn deliver(&mut self, ev: ProgressEvent)
        ensures
            final(self).spec_state() == old(self).spec_state(),
            final(self).pending() == old(self).pending().push(ev),
    {
        self.queue.send(ev);
    }

    /// The non-blocking poll of the presentation side: hands out the oldest
    /// buffered event, if any. Consuming the terminal event returns the
    /// controller to `Idle`, so a new job may be started.
    pub fn poll(&mut self) -> (r: Option<ProgressEvent>)
        ensures
            old(self).pending().len() == 0 ==> {
                &&& r is None
                &&& final(self).spec_state() == old(self).spec_state()
                &&& final(self).pending() == old(self).pending()
            },
            old(self).pending().len() > 0 ==> {
                &&& r == Some(old(self).pending()[0])
                &&& final(self).pending() == old(self).pending().drop_first()
                &&& final(self).spec_state() == (if old(self).pending()[0] is Done {
                    JobState::Idle
                } else {
                    old(self).spec_state()
                })
            },
    {
        match self.queue.poll() {
            None => None,
            Some(ev) => {
                if ev == ProgressEvent::Done {
                    self.state = JobState::Idle;
                }
                Some(ev)
            },
        }
    }

    /// How many events are buffered and not yet consumed.
    pub fn pending_len(&self) -> (n: usize)
        ensures
            n == self.pending().len(),
    {
        self.queue.len()
    }
}

} // verus!
