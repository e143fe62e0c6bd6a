//! Worker state machine: the decisions behind the decode-process loop.
//!
//! One worker owns the external decoder process. The host loop performs
//! the outside work — spawning, terminating, and reading from the process
//! — and this module decides what to do and digests what came back:
//! which command demands which step, how a probe's text changes the
//! session, when the old process must be terminated, how many bytes one
//! frame takes, and what event a read's outcome produces. At most one
//! decode stream is live at a time: every start plan demands that the
//! old process be terminated and reaped before the new spawn, and the
//! stream counts as dead until the new spawn is reported successful.

use crate::detect::MarkerPos;
use crate::detect::find_position;
use crate::detect::first_marker_from;
use crate::detect::row_stride;
use crate::frame::FrameBuffer;
use crate::probe::HmsTime;
use crate::probe::ProbeInfo;
use crate::probe::first_dur_from;
use crate::probe::hms_matches;
use crate::probe::opt_hms_eq;
use crate::probe::parse_metadata;
use crate::probe::spec_video_dims;
use vstd::prelude::*;

verus! {

/// An intent from the control side.
#[derive(Debug)]
pub enum Command {
    /// Load a new file: probe it, report its metadata, start decoding at
    /// the beginning and read the first frame.
    LoadFile { path: String },
    /// Restart the stream at the offset (milliseconds) and read a frame.
    Seek { start_ms: u64 },
    /// Read exactly one frame.
    Step,
    /// Recognized, but a no-op here: timing is the control side's business.
    Play,
    /// Recognized, but a no-op here.
    Pause,
}

/// An observation sent back to the control side.
#[derive(Debug)]
pub enum Event {
    /// A file was probed successfully.
    Metadata { duration: Option<HmsTime>, width: u32, height: u32 },
    /// One frame was decoded, with the marker coordinate if one was found.
    FrameReady { frame: FrameBuffer, width: u32, height: u32, position: Option<MarkerPos> },
    /// Something failed; the worker reports and keeps accepting commands.
    Error { message: String },
}

/// The step a command demands of the worker loop.
#[derive(Debug)]
pub enum CommandPlan {
    /// Probe the file; on success start at the beginning and read a frame.
    Load { path: String },
    /// Restart the stream at the offset and read a frame.
    Restart { start_ms: u64 },
    /// Read one frame.
    Read,
    /// Do nothing.
    Idle,
}

/// A request to spawn the decoder process.
#[derive(Debug)]
pub struct SpawnRequest {
    /// The file to decode.
    pub path: String,
    /// Start offset in milliseconds; `None` starts at the beginning, with
    /// no seek argument passed.
    pub seek_ms: Option<u64>,
}

/// What the host must do to (re)start the decode stream, in order: first
/// terminate and reap the old process if one was live, then spawn the new
/// one if a file is loaded.
#[derive(Debug)]
pub struct StartPlan {
    /// Terminate and reap the current process before anything else.
    pub terminate_old: bool,
    /// Spawn a new decoder process; `None` when no file is loaded.
    pub spawn: Option<SpawnRequest>,
}

/// The worker's session state: the loaded file, its dimensions and
/// duration, and whether a decode stream is currently live.
pub struct Worker {
    pub current_file: Option<String>,
    pub width: u32,
    pub height: u32,
    pub duration: Option<HmsTime>,
    pub stream_live: bool,
}

/// `a` and `b` are the same worker state, path and stamp included.
pub open spec fn worker_eq(a: Worker, b: Worker) -> bool {
    &&& match (a.current_file, b.current_file) {
        (None, None) => true,
        (Some(x), Some(y)) => x@ == y@,
        _ => false,
    }
    &&& a.width == b.width
    &&& a.height == b.height
    &&& opt_hms_eq(a.duration, b.duration)
    &&& a.stream_live == b.stream_live
}

/// The session invariant: once a file is loaded, its dimensions are
/// positive. A worker with a file but a zero width or height would read
/// malformed frames, and no method ever produces one.
pub open spec fn session_wf(w: Worker) -> bool {
    w.current_file is Some ==> w.width > 0 && w.height > 0
}

/// The text probed successfully: it holds a video descriptor that reads
/// as a positive width and height.
pub open spec fn probe_ok(s: Seq<u8>) -> bool {
    match spec_video_dims(s) {
        Some(dims) => dims.0 > 0 && dims.1 > 0,
        None => false,
    }
}

impl Worker {
    /// A fresh worker: no file, no dimensions, no live stream.
    pub fn new() -> (w: Worker)
        ensures
            w.current_file is None,
            w.width == 0,
            w.height == 0,
            w.duration is None,
            !w.stream_live,
            session_wf(w),
    {
        Worker { current_file: None, width: 0, height: 0, duration: None, stream_live: false }
    }

    /// The step each command demands: `LoadFile` probes and reloads,
    /// `Seek` restarts the stream and reads one frame, `Step` reads one
    /// frame, and `Play` and `Pause` are no-ops at this boundary.
    pub fn plan_for(cmd: Command) -> (r: CommandPlan)
        ensures
            match cmd {
                Command::LoadFile { path } => match r {
                    CommandPlan::Load { path: p } => p@ == path@,
                    _ => false,
                },
                Command::Seek { start_ms } => r == (CommandPlan::Restart { start_ms }),
                Command::Step => r == CommandPlan::Read,
                Command::Play => r == CommandPlan::Idle,
                Command::Pause => r == CommandPlan::Idle,
            },
    {
        match cmd {
            Command::LoadFile { path } => CommandPlan::Load { path },
            Command::Seek { start_ms } => CommandPlan::Restart { start_ms },
            Command::Step => CommandPlan::Read,
            Command::Play => CommandPlan::Idle,
            Command::Pause => CommandPlan::Idle,
        }
    }

    /// Digests a probe's outcome for `path`. On a parsed video descriptor
    /// the session is replaced wholesale and the Metadata event is due;
    /// otherwise the old session is kept untouched and an Error event is
    /// due. `probe_text` is the captured diagnostic text, or the host's
    /// message when the probe process could not run at all.
    pub fn apply_probe(&mut self, path: String, probe_text: Result<Vec<u8>, String>) -> (ev: Event)
        ensures
            session_wf(*old(self)) ==> session_wf(*final(self)),
            match probe_text {
                Err(msg) => {
                    &&& worker_eq(*final(self), *old(self))
                    &&& match ev {
                        Event::Error { message } => message@ == msg@,
                        _ => false,
                    }
                },
                Ok(text) => {
                    if probe_ok(text@) {
                        &&& match final(self).current_file {
                            Some(p) => p@ == path@,
                            None => false,
                        }
                        &&& spec_video_dims(text@) == Some(
                            (final(self).width as int, final(self).height as int),
                        )
                        &&& final(self).width > 0
                        &&& final(self).height > 0
                        &&& match (first_dur_from(text@, 0), final(self).duration) {
                            (None, None) => true,
                            (Some(i), Some(t)) => hms_matches(t, text@, i),
                            _ => false,
                        }
                        &&& final(self).stream_live == old(self).stream_live
                        &&& match ev {
                            Event::Metadata { duration, width, height } => {
                                &&& opt_hms_eq(duration, final(self).duration)
                                &&& width == final(self).width
                                &&& height == final(self).height
                            },
                            _ => false,
                        }
                    } else {
                        &&& worker_eq(*final(self), *old(self))
                        &&& match ev {
                            Event::Error { message } => message@
                                == "Could not parse video metadata"@,
                            _ => false,
                        }
                    }
                },
            },
    {
        let text = match probe_text {
            Ok(text) => text,
            Err(msg) => {
                return Event::Error { message: msg };
            },
        };
        match parse_metadata(&text) {
            Ok(info) => {
                let ProbeInfo { duration, width, height } = info;
                let stored = match &duration {
                    Some(t) => Some(t.clone()),
                    None => None,
                };
                self.duration = stored;
                self.width = width;
                self.height = height;
                self.current_file = Some(path);
                Event::Metadata { duration, width, height }
            },
            Err(e) => Event::Error { message: e.message() },
        }
    }

    /// Plans a (re)start of the decode stream at `start_ms` milliseconds.
    /// Any live process must be terminated and reaped first; a new
    /// process is requested only when a file is loaded, with a seek
    /// argument exactly when the offset is positive. The stream counts
    /// as dead until the host reports the spawn's outcome.
    pub fn start_stream(&mut self, start_ms: u64) -> (r: StartPlan)
        ensures
            session_wf(*old(self)) ==> session_wf(*final(self)),
            r.terminate_old == old(self).stream_live,
            !final(self).stream_live,
            final(self).width == old(self).width,
            final(self).height == old(self).height,
            opt_hms_eq(final(self).duration, old(self).duration),
            match (final(self).current_file, old(self).current_file) {
                (None, None) => true,
                (Some(x), Some(y)) => x@ == y@,
                _ => false,
            },
            match (old(self).current_file, r.spawn) {
                (None, None) => true,
                (Some(p), Some(req)) => {
                    &&& req.path@ == p@
                    &&& req.seek_ms == (if start_ms > 0 {
                        Some(start_ms)
                    } else {
                        None::<u64>
                    })
                },
                _ => false,
            },
    {
        let terminate_old = self.stream_live;
        self.stream_live = false;
        let spawn = match &self.current_file {
            Some(p) => Some(
                SpawnRequest {
                    path: p.clone(),
                    seek_ms: if start_ms > 0 {
                        Some(start_ms)
                    } else {
                        None
                    },
                },
            ),
            None => None,
        };
        StartPlan { terminate_old, spawn }
    }

    /// Records the outcome the host reports for the planned spawn: the
    /// stream is live exactly when the spawn succeeded, and a failure is
    /// surfaced as an Error event carrying the host's message.
    pub fn stream_started(&mut self, outcome: Result<(), String>) -> (ev: Option<Event>)
        ensures
            session_wf(*old(self)) ==> session_wf(*final(self)),
            final(self).stream_live == (outcome is Ok),
            final(self).width == old(self).width,
            final(self).height == old(self).height,
            opt_hms_eq(final(self).duration, old(self).duration),
            match (final(self).current_file, old(self).current_file) {
                (None, None) => true,
                (Some(x), Some(y)) => x@ == y@,
                _ => false,
            },
            match (outcome, ev) {
                (Ok(u), None) => true,
                (Err(msg), Some(e)) => match e {
                    Event::Error { message } => message@ == msg@,
                    _ => false,
                },
                _ => false,
            },
    {
        match outcome {
            Ok(()) => {
                self.stream_live = true;
                None
            },
            Err(msg) => {
                self.stream_live = false;
                Some(Event::Error { message: msg })
            },
        }
    }

    /// The exact byte count of one frame, when a frame can be read at
    /// all: reading needs a live stream and positive dimensions, and the
    /// frame must be addressable. Zero dimensions or a dead stream make
    /// reads silent no-ops rather than errors.
    pub fn frame_request(&self) -> (r: Option<usize>)
        ensures
            r == (if self.width > 0 && self.height > 0 && self.stream_live && self.width
                * self.height * 4 <= usize::MAX {
                Some((self.width * self.height * 4) as usize)
            } else {
                None::<usize>
            }),
    {
        if self.width == 0 || self.height == 0 || !self.stream_live {
            return None;
        }
        let w = self.width as usize;
        let h = self.height as usize;
        let wh = match w.checked_mul(h) {
            Some(v) => v,
            None => {
                return None;
            },
        };
        match wh.checked_mul(4) {
            Some(sz) => Some(sz),
            None => None,
        }
    }

    /// Turns a read's outcome into the event it produces. Bytes that
    /// arrive with the session's exact frame size become a FrameReady
    /// event: the marker scan runs over them and they are framed at the
    /// session's dimensions, ownership moving into the event. No bytes —
    /// a short read, end of stream, or no live process — yield no event
    /// and no error, and so does a byte count that does not match.
    pub fn frame_event(&self, bytes: Option<Vec<u8>>) -> (ev: Option<Event>)
        ensures
            match bytes {
                None => ev is None,
                Some(buf) => {
                    if self.width > 0 && self.height > 0 && buf@.len() == self.width * self.height
                        * 4 {
                        match ev {
                            Some(e) => match e {
                                Event::FrameReady { frame, width, height, position } => {
                                    &&& frame.spec_data() == buf@
                                    &&& frame.spec_width() == self.width
                                    &&& frame.spec_height() == self.height
                                    &&& width == self.width
                                    &&& height == self.height
                                    &&& match (
                                        position,
                                        first_marker_from(buf@, self.width as int, 0),
                                    ) {
                                        (None, None) => true,
                                        (Some(pos), Some(i)) => {
                                            &&& pos.x == (i % row_stride(self.width as int)) / 4
                                            &&& pos.y == i / row_stride(self.width as int)
                                        },
                                        _ => false,
                                    }
                                },
                                _ => false,
                            },
                            None => false,
                        }
                    } else {
                        ev is None
                    }
                },
            },
    {
        let buf = match bytes {
            Some(b) => b,
            None => {
                return None;
            },
        };
        if self.width == 0 || self.height == 0 {
            return None;
        }
        let position = find_position(&buf, self.width as usize);
        match FrameBuffer::from_raw(self.width, self.height, buf) {
            Some(frame) => Some(
                Event::FrameReady { frame, width: self.width, height: self.height, position },
            ),
            None => None,
        }
    }
}

/// At most one decode stream lives at a time: whenever a stream is live,
/// the plan for starting a new one demands that the old process be
/// terminated and reaped, the plan's spawn coming only after that step,
/// and the worker counts no stream as live until the new spawn is
/// reported successful.
pub proof fn lemma_single_stream(pre: Worker, post: Worker, plan: StartPlan)
    requires
        plan.terminate_old == pre.stream_live,
        !post.stream_live,
    ensures
        pre.stream_live ==> plan.terminate_old,
        !post.stream_live,
{
}

} // verus!
