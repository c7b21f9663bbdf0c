//! The recorder process supervisor: it owns the handle of the single external
//! recording process, builds the command line for it from the configuration,
//! sends it the stop and save signals, and plans where a finished replay file
//! is moved.
//!
//! The OS spawn itself (with piped output streams) is I/O that the caller
//! performs; the supervisor is handed the outcome and records it, so that
//! every state transition of the supervisor is verified for every outcome.

use vstd::prelude::*;

use crate::config::Config;
use crate::text::{
    chars_to_string, render_u64, spec_dec_digits, spec_replace_all, string_to_chars, replace_all,
};

verus! {

/// The kind of an OS error from spawning the recorder binary, keeping only
/// the distinction the user messages need.
#[derive(Clone, Copy, PartialEq, Eq, Structural, Debug)]
pub enum IoErrorKind {
    NotFound,
    Other,
}

/// Errors surfaced by the supervisor.
#[derive(Clone, Copy, PartialEq, Eq, Structural, Debug)]
pub enum Error {
    /// The recorder binary could not be started.
    IoError(IoErrorKind),
    /// Sending a signal to the recorder process failed with this OS error
    /// number.
    NixErrno(i32),
    /// The operation needs a running recorder process and none is held.
    RecorderNotRunning,
}

/// The signals the supervisor sends to the running recorder.
#[derive(Clone, Copy, PartialEq, Eq, Structural, Debug)]
pub enum RecorderSignal {
    /// Graceful termination.
    Terminate,
    /// Save the current rolling buffer as a replay.
    SaveReplay,
}

/// A handle to the running recorder process: its OS process id.
#[derive(Clone, Copy, PartialEq, Eq, Structural, Debug)]
pub struct RecorderProcessHandle {
    pub pid: i32,
}

/// Relies on nix::sys::signal::kill: sends the chosen signal to the process
/// with id `pid` and reports the OS error number on failure. The positive-pid
/// requirement keeps the call from addressing a process group.
#[verifier::external_body]
fn send_signal(pid: i32, signal: &RecorderSignal) -> (r: Result<(), i32>)
    requires
        pid >= 1,
{
    let sig = match signal {
        RecorderSignal::Terminate => nix::sys::signal::Signal::SIGTERM,
        RecorderSignal::SaveReplay => nix::sys::signal::Signal::SIGUSR1,
    };
    match nix::sys::signal::kill(nix::unistd::Pid::from_raw(pid), sig) {
        Ok(()) => Ok(()),
        Err(e) => Err(e as i32),
    }
}

/// The name of the external recorder binary.
pub fn recorder_program() -> (r: String)
    ensures
        r@ == "gpu-screen-recorder"@,
{
    String::from_str("gpu-screen-recorder")
}

/// The `-a` flag pair for each configured audio track, in order.
pub open spec fn spec_audio_args(tracks: Seq<Seq<char>>) -> Seq<Seq<char>>
    decreases tracks.len(),
{
    if tracks.len() == 0 {
        Seq::empty()
    } else {
        Seq::empty().push("-a"@).push(tracks[0]) + spec_audio_args(tracks.skip(1))
    }
}

/// The fixed flags that precede the audio tracks on the command line.
pub open spec fn spec_recorder_head(c: Config) -> Seq<Seq<char>> {
    Seq::empty().push("-w"@).push(c.screen@).push("-c"@).push(c.container.spec_token()).push(
        "-f"@,
    ).push(spec_dec_digits(c.framerate as nat)).push("-r"@).push(
        spec_dec_digits(c.replay_duration_secs as nat),
    ).push("-restart-replay-on-save"@).push(
        if c.clear_buffer_on_save {
            "yes"@
        } else {
            "no"@
        },
    ).push("-bm"@).push("qp"@).push("-q"@).push(c.quality.spec_token())
}

/// The full argument list handed to the recorder binary for a configuration.
pub open spec fn spec_recorder_args(c: Config) -> Seq<Seq<char>> {
    spec_recorder_head(c) + spec_audio_args(c.audio_tracks.deep_view()) + Seq::empty().push(
        "-o"@,
    ).push(c.replay_directory@)
}

/// The audio-flag list holds one `-a` pair per track, in order.
proof fn lemma_audio_args_index(tracks: Seq<Seq<char>>)
    ensures
        spec_audio_args(tracks).len() == 2 * tracks.len(),
        forall|k: int|
            0 <= k < tracks.len() ==> #[trigger] spec_audio_args(tracks)[2 * k] == "-a"@
                && spec_audio_args(tracks)[2 * k + 1] == tracks[k],
    decreases tracks.len(),
{
    if tracks.len() > 0 {
        let rest = tracks.skip(1);
        lemma_audio_args_index(rest);
        assert forall|k: int| 0 <= k < tracks.len() implies #[trigger] spec_audio_args(tracks)[2
            * k] == "-a"@ && spec_audio_args(tracks)[2 * k + 1] == tracks[k] by {
            if k > 0 {
                assert(spec_audio_args(rest)[2 * (k - 1)] == "-a"@);
                assert(spec_audio_args(rest)[2 * (k - 1) + 1] == rest[k - 1]);
                assert(spec_audio_args(tracks)[2 * k] == spec_audio_args(rest)[2 * k - 2]);
                assert(spec_audio_args(tracks)[2 * k + 1] == spec_audio_args(rest)[2 * k - 1]);
                assert(rest[k - 1] == tracks[k]);
            }
        }
    }
}

/// Builds the argument list for the recorder binary: capture source,
/// container, framerate, replay duration, buffer-clear behaviour, quality,
/// one `-a` pair per audio track, and the output directory.
pub fn recorder_args(c: &Config) -> (r: Vec<String>)
    requires
        c.valid(),
    ensures
        r.deep_view() == spec_recorder_args(*c),
{
    let ghost target = spec_recorder_args(*c);
    proof {
        lemma_audio_args_index(c.audio_tracks.deep_view());
        assert(c.audio_tracks.deep_view().len() == c.audio_tracks@.len());
    }
    let mut args: Vec<String> = Vec::new();
    args.push(String::from_str("-w"));
    args.push(c.screen.clone());
    args.push(String::from_str("-c"));
    args.push(c.container.to_string());
    args.push(String::from_str("-f"));
    args.push(chars_to_string(&render_u64(c.framerate as u64)));
    args.push(String::from_str("-r"));
    args.push(chars_to_string(&render_u64(c.replay_duration_secs as u64)));
    args.push(String::from_str("-restart-replay-on-save"));
    args.push(
        if c.clear_buffer_on_save {
            String::from_str("yes")
        } else {
            String::from_str("no")
        },
    );
    args.push(String::from_str("-bm"));
    args.push(String::from_str("qp"));
    args.push(String::from_str("-q"));
    args.push(c.quality.to_string());
    proof {
        assert(spec_recorder_head(*c).len() == 14);
        assert forall|j: int| 0 <= j < 14 implies args@[j]@ == target[j] by {
            assert(target[j] == spec_recorder_head(*c)[j]);
        }
    }
    let mut i: usize = 0;
    while i < c.audio_tracks.len()
        invariant
            0 <= i <= c.audio_tracks@.len(),
            target == spec_recorder_args(*c),
            target.len() == 16 + 2 * c.audio_tracks@.len(),
            args@.len() == 14 + 2 * i,
            forall|j: int| 0 <= j < args@.len() ==> args@[j]@ == target[j],
            c.audio_tracks.deep_view().len() == c.audio_tracks@.len(),
            forall|k: int|
                0 <= k < c.audio_tracks.deep_view().len() ==> #[trigger] spec_audio_args(
                    c.audio_tracks.deep_view(),
                )[2 * k] == "-a"@ && spec_audio_args(c.audio_tracks.deep_view())[2 * k + 1]
                == c.audio_tracks.deep_view()[k],
        decreases c.audio_tracks.len() - i,
    {
        args.push(String::from_str("-a"));
        args.push(c.audio_tracks[i].clone());
        proof {
            assert(target[14 + 2 * i] == spec_audio_args(c.audio_tracks.deep_view())[2 * i]);
            assert(target[14 + 2 * i + 1] == spec_audio_args(c.audio_tracks.deep_view())[2 * i
                + 1]);
            assert(c.audio_tracks.deep_view()[i as int] == c.audio_tracks@[i as int]@);
        }
        i += 1;
    }
    args.push(String::from_str("-o"));
    args.push(c.replay_directory.clone());
    proof {
        assert(target[target.len() - 2] == "-o"@);
        assert(target[target.len() - 1] == c.replay_directory@);
        assert(args.deep_view() =~~= target);
    }
    args
}

/// The recorder process supervisor. It holds the handle of the running
/// process while one exists, and nothing else.
pub struct GpuScreenRecorder {
    process: Option<RecorderProcessHandle>,
}

impl GpuScreenRecorder {
    /// The held handle, if any.
    pub closed spec fn spec_handle(&self) -> Option<RecorderProcessHandle> {
        self.process
    }

    /// Whether a process handle is currently held.
    pub open spec fn spec_is_running(&self) -> bool {
        self.spec_handle() is Some
    }

    /// A held handle always carries a positive process id.
    pub open spec fn wf(&self) -> bool {
        self.spec_handle() matches Some(h) ==> h.pid >= 1
    }

    /// A fresh supervisor holds no process.
    pub fn new() -> (r: Self)
        ensures
            !r.spec_is_running(),
            r.wf(),
    {
        GpuScreenRecorder { process: None }
    }

    /// True iff a process handle is currently held.
    pub fn is_running(&self) -> (r: bool)
        ensures
            r == self.spec_is_running(),
    {
        self.process.is_some()
    }

    /// Records the outcome of spawning the recorder binary, which the caller
    /// performed with the program and arguments of [`recorder_program`] and
    /// [`recorder_args`]. On success the supervisor holds the new handle; on
    /// failure it is unchanged and surfaces the spawn error.
    pub fn start(&mut self, outcome: Result<RecorderProcessHandle, IoErrorKind>) -> (r: Result<
        (),
        Error,
    >)
        requires
            old(self).wf(),
            outcome matches Ok(h) ==> h.pid >= 1,
        ensures
            final(self).wf(),
            match outcome {
                Ok(h) => r is Ok && final(self).spec_handle() == Some(h),
                Err(k) => r == Err::<(), Error>(Error::IoError(k)) && *final(self) == *old(self),
            },
    {
        match outcome {
            Ok(handle) => {
                self.process = Some(handle);
                Ok(())
            },
            Err(kind) => Err(Error::IoError(kind)),
        }
    }

    /// Sends the graceful-termination signal to the running process and
    /// releases the handle; the OS reaps the process independently. Fails
    /// with [`Error::RecorderNotRunning`] when no process is held. The
    /// handle is released even if the signal could not be delivered: the
    /// process is then treated as leaked rather than kept as live.
    pub fn stop(&mut self) -> (r: Result<(), Error>)
        requires
            old(self).wf(),
        ensures
            final(self).wf(),
            !old(self).spec_is_running() ==> r == Err::<(), Error>(Error::RecorderNotRunning)
                && *final(self) == *old(self),
            old(self).spec_is_running() ==> !final(self).spec_is_running() && (r is Ok || (
            r matches Err(Error::NixErrno(_)))),
    {
        match self.process {
            Some(handle) => {
                self.process = None;
                match send_signal(handle.pid, &RecorderSignal::Terminate) {
                    Ok(()) => Ok(()),
                    Err(errno) => Err(Error::NixErrno(errno)),
                }
            },
            None => Err(Error::RecorderNotRunning),
        }
    }

    /// Sends the save-replay signal to the running process; the recorder then
    /// writes the current rolling buffer out as a replay file. Fails with
    /// [`Error::RecorderNotRunning`] when no process is held. The handle is
    /// kept either way.
    pub fn save_replay(&mut self) -> (r: Result<(), Error>)
        requires
            old(self).wf(),
        ensures
            final(self).wf(),
            *final(self) == *old(self),
            !old(self).spec_is_running() ==> r == Err::<(), Error>(Error::RecorderNotRunning),
            old(self).spec_is_running() ==> (r is Ok || (r matches Err(Error::NixErrno(_)))),
    {
        match self.process {
            Some(handle) => {
                match send_signal(handle.pid, &RecorderSignal::SaveReplay) {
                    Ok(()) => Ok(()),
                    Err(errno) => Err(Error::NixErrno(errno)),
                }
            },
            None => Err(Error::RecorderNotRunning),
        }
    }
}

/// The name part of a path: the characters after the last `/`, or the whole
/// path when it has none.
pub open spec fn spec_basename(s: Seq<char>) -> Seq<char>
    decreases s.len(),
{
    if s.len() == 0 {
        s
    } else if s.last() == '/' {
        Seq::empty()
    } else {
        spec_basename(s.drop_last()) + seq![s.last()]
    }
}

/// Where a finished replay file is moved: the per-application directory, and
/// the full target path inside it.
pub struct ReplayMove {
    /// The subdirectory of the replay directory named after the application;
    /// the caller creates it when it does not exist yet.
    pub directory: String,
    /// The target path: the original file name with the recorder's generic
    /// `Replay` token replaced by `{application}_replay`.
    pub target: String,
}

/// The replacement applied to the file name of a finished replay.
pub open spec fn spec_replay_file_name(line: Seq<char>, app_name: Seq<char>) -> Seq<char> {
    spec_replace_all(spec_basename(line), "Replay"@, app_name + "_replay"@)
}

/// Plans the move of a finished replay file, whose path the recorder printed
/// as `line`, into the subdirectory of `replay_directory` named after the
/// active application.
pub fn replay_move_plan(replay_directory: &String, app_name: &String, line: &String) -> (r:
    ReplayMove)
    ensures
        r.directory@ == replay_directory@ + "/"@ + app_name@,
        r.target@ == replay_directory@ + "/"@ + app_name@ + "/"@ + spec_replay_file_name(
            line@,
            app_name@,
        ),
{
    let directory = replay_directory.clone().concat("/").concat(app_name.as_str());
    let line_chars = string_to_chars(line.as_str());
    let base = basename(&line_chars);
    let needle = string_to_chars("Replay");
    let repl = string_to_chars(app_name.clone().concat("_replay").as_str());
    let new_name = replace_all(&base, &needle, &repl);
    let target = directory.clone().concat("/").concat(chars_to_string(&new_name).as_str());
    ReplayMove { directory, target }
}

/// The characters after the last `/` of `s`, or all of `s` when it has none.
fn basename(s: &Vec<char>) -> (r: Vec<char>)
    ensures
        r@ == spec_basename(s@),
{
    let mut i: usize = s.len();
    let mut out: Vec<char> = Vec::new();
    proof {
        assert(s@.take(s@.len() as int) =~= s@);
        assert(spec_basename(s@) + Seq::<char>::empty() =~= spec_basename(s@));
    }
    while i > 0
        invariant
            0 <= i <= s@.len(),
            spec_basename(s@) == spec_basename(s@.take(i as int)) + out@,
        decreases i,
    {
        let ghost t = s@.take(i as int);
        proof {
            assert(t.last() == s@[i - 1]);
            assert(t.drop_last() =~= s@.take(i - 1));
        }
        if s[i - 1] == '/' {
            proof {
                assert(spec_basename(t) =~= Seq::<char>::empty());
                assert(spec_basename(s@) =~= out@);
            }
            return out;
        }
        let ghost prev = out@;
        out.insert(0, s[i - 1]);
        proof {
            assert(out@ =~= seq![s@[i - 1]] + prev);
            assert(spec_basename(t) == spec_basename(s@.take(i - 1)) + seq![s@[i - 1]]);
            assert((spec_basename(s@.take(i - 1)) + seq![s@[i - 1]]) + prev =~= spec_basename(
                s@.take(i - 1),
            ) + (seq![s@[i - 1]] + prev));
        }
        i -= 1;
    }
    proof {
        assert(s@.take(0) =~= Seq::<char>::empty());
        assert(spec_basename(Seq::<char>::empty()) + out@ =~= out@);
    }
    out
}

} // verus!
