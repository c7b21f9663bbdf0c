//! The central event dispatcher: the single control loop of the application.
//! It consumes one [`ActionEvent`] at a time, in FIFO arrival order, mutates
//! the configuration, and tells its runner which side effects to perform, in
//! which order, until `Quit`.

use vstd::prelude::*;

use crate::ActionEvent;
use crate::config::Config;
use crate::gsr::Error;

verus! {

/// A side effect the dispatcher asks its runner to perform. The commands of
/// one step are performed in order, against the state as it stands after the
/// step.
#[derive(Clone, Copy, PartialEq, Eq, Structural, Debug)]
pub enum Command {
    /// Send the save-replay signal to the supervisor.
    SaveReplay,
    /// Stop the recorder process.
    StopRecorder,
    /// Start the recorder process with the current configuration.
    StartRecorder,
    /// Show the "recording stopped" on-screen notification.
    OsdStopped,
    /// Show the "recording started" on-screen notification.
    OsdStarted,
    /// Open the directory picker at the current replay directory and hand
    /// the choice back through [`apply_picked_directory`].
    AskReplayDirectory,
    /// Write the configuration to persisted storage.
    PersistConfig,
    /// Refresh the tray menu.
    RefreshTray,
    /// Unload the desktop-integration script.
    UnloadKwinScript,
    /// Leave the dispatcher loop and terminate.
    Exit,
    /// Log a warning about an event nothing handles.
    LogUnhandled,
}

/// The dispatcher's own state: the configuration it owns, and whether `Quit`
/// has been processed.
pub struct DispatcherState {
    pub config: Config,
    pub stopped: bool,
}

/// The commands of one dispatcher step for an event, given whether the
/// recorder was running when the event was taken.
pub open spec fn spec_step_commands(event: ActionEvent, running: bool) -> Seq<Command> {
    match event {
        ActionEvent::SaveReplay => seq![Command::SaveReplay],
        ActionEvent::Quit => seq![Command::UnloadKwinScript, Command::StopRecorder, Command::Exit],
        ActionEvent::ChangeReplayPath => seq![Command::AskReplayDirectory],
        ActionEvent::ConfigSaved => if running {
            seq![Command::StopRecorder, Command::StartRecorder]
        } else {
            Seq::empty()
        },
        ActionEvent::ToggleReplay => if running {
            seq![Command::StopRecorder, Command::OsdStopped, Command::PersistConfig, Command::RefreshTray]
        } else {
            seq![Command::StartRecorder, Command::OsdStarted, Command::PersistConfig, Command::RefreshTray]
        },
        ActionEvent::Unknown => seq![Command::LogUnhandled],
    }
}

/// Processes one event: returns the state afterwards and the commands to
/// perform. A configuration change while the recorder runs is applied by a
/// full restart: exactly one stop followed by exactly one start.
pub fn dispatch_step(state: DispatcherState, running: bool, event: ActionEvent) -> (r: (
    DispatcherState,
    Vec<Command>,
))
    ensures
        r.1@ == spec_step_commands(event, running),
        match event {
            ActionEvent::ToggleReplay => r.0.config == (Config {
                recording_enabled: !running,
                ..state.config
            }) && r.0.stopped == state.stopped,
            ActionEvent::Quit => r.0.config == state.config && r.0.stopped == true,
            _ => r.0.config == state.config && r.0.stopped == state.stopped,
        },
{
    let mut commands: Vec<Command> = Vec::new();
    match event {
        ActionEvent::SaveReplay => {
            commands.push(Command::SaveReplay);
            assert(commands@ =~= spec_step_commands(event, running));
            (state, commands)
        },
        ActionEvent::Quit => {
            commands.push(Command::UnloadKwinScript);
            commands.push(Command::StopRecorder);
            commands.push(Command::Exit);
            assert(commands@ =~= spec_step_commands(event, running));
            (DispatcherState { config: state.config, stopped: true }, commands)
        },
        ActionEvent::ChangeReplayPath => {
            commands.push(Command::AskReplayDirectory);
            assert(commands@ =~= spec_step_commands(event, running));
            (state, commands)
        },
        ActionEvent::ConfigSaved => {
            if running {
                commands.push(Command::StopRecorder);
                commands.push(Command::StartRecorder);
            }
            assert(commands@ =~= spec_step_commands(event, running));
            (state, commands)
        },
        ActionEvent::ToggleReplay => {
            let mut state = state;
            if running {
                commands.push(Command::StopRecorder);
                commands.push(Command::OsdStopped);
                state.config.recording_enabled = false;
            } else {
                commands.push(Command::StartRecorder);
                commands.push(Command::OsdStarted);
                state.config.recording_enabled = true;
            }
            commands.push(Command::PersistConfig);
            commands.push(Command::RefreshTray);
            assert(commands@ =~= spec_step_commands(event, running));
            (state, commands)
        },
        ActionEvent::Unknown => {
            commands.push(Command::LogUnhandled);
            assert(commands@ =~= spec_step_commands(event, running));
            (state, commands)
        },
    }
}

/// Applies the directory the user picked after [`Command::AskReplayDirectory`]:
/// a choice replaces the replay directory and is persisted, a cancellation
/// changes nothing.
pub fn apply_picked_directory(state: DispatcherState, choice: Option<String>) -> (r: (
    DispatcherState,
    Vec<Command>,
))
    ensures
        match choice {
            Some(directory) => r.0.config == (Config {
                replay_directory: directory,
                ..state.config
            }) && r.0.stopped == state.stopped && r.1@ == seq![Command::PersistConfig],
            None => r.0.config == state.config && r.0.stopped == state.stopped && r.1@ == Seq::<
                Command,
            >::empty(),
        },
{
    let mut commands: Vec<Command> = Vec::new();
    match choice {
        Some(directory) => {
            let mut state = state;
            state.config.replay_directory = directory;
            commands.push(Command::PersistConfig);
            assert(commands@ =~= seq![Command::PersistConfig]);
            (state, commands)
        },
        None => (state, commands),
    }
}

/// The on-screen notification for a command, if it has one: the icon name
/// and the text shown.
pub fn osd_message(command: &Command) -> (r: Option<(String, String)>)
    ensures
        match command {
            Command::OsdStopped => r matches Some(m) && m.0@ == "media-playback-stopped"@ && m.1@
                == "Replay recording stopped"@,
            Command::OsdStarted => r matches Some(m) && m.0@ == "media-playback-playing"@ && m.1@
                == "Replay recording started"@,
            _ => r is None,
        },
{
    match command {
        Command::OsdStopped => Some(
            (
                String::from_str("media-playback-stopped"),
                String::from_str("Replay recording stopped"),
            ),
        ),
        Command::OsdStarted => Some(
            (
                String::from_str("media-playback-playing"),
                String::from_str("Replay recording started"),
            ),
        ),
        _ => None,
    }
}

/// What the user sees after a save-replay attempt.
#[derive(Clone, Copy, PartialEq, Eq, Structural, Debug)]
pub enum SaveFeedback {
    /// The save signal was delivered: show the saved notification.
    Notify,
    /// Recording is either turned off or has crashed: log a warning.
    WarnNotRunning,
    /// Another error: log it.
    LogError,
}

/// Decides the feedback for the outcome of a save-replay attempt.
pub fn save_feedback(outcome: &Result<(), Error>) -> (r: SaveFeedback)
    ensures
        match outcome {
            Ok(_) => r == SaveFeedback::Notify,
            Err(Error::RecorderNotRunning) => r == SaveFeedback::WarnNotRunning,
            Err(_) => r == SaveFeedback::LogError,
        },
{
    match outcome {
        Ok(_) => SaveFeedback::Notify,
        Err(Error::RecorderNotRunning) => SaveFeedback::WarnNotRunning,
        Err(_) => SaveFeedback::LogError,
    }
}

/// The on-screen notification after a successful save: icon name and text
/// naming the application the replay came from.
pub fn osd_saved_message(app_name: &String) -> (r: (String, String))
    ensures
        r.0@ == "media-record"@,
        r.1@ == "Replay from \""@ + app_name@ + "\" saved!"@,
{
    let text = String::from_str("Replay from \"").concat(app_name.as_str()).concat("\" saved!");
    (String::from_str("media-record"), text)
}

/// The events a queue yields until the dispatcher stops: every event up to
/// and including the first `Quit`, in arrival order; all of them when no
/// `Quit` is queued.
pub open spec fn spec_processed_prefix(events: Seq<ActionEvent>) -> Seq<ActionEvent>
    decreases events.len(),
{
    if events.len() == 0 {
        events
    } else if events[0] == ActionEvent::Quit {
        seq![ActionEvent::Quit]
    } else {
        seq![events[0]] + spec_processed_prefix(events.skip(1))
    }
}

/// The outcome of draining a queue of events.
pub struct ProcessOutcome {
    /// The dispatcher state after the last processed event.
    pub state: DispatcherState,
    /// Whether the model recorder is running after the last processed event.
    pub running: bool,
    /// The events that were processed, in processing order.
    pub processed: Vec<ActionEvent>,
    /// The commands of all processed steps, concatenated in order.
    pub commands: Vec<Command>,
}

/// Drains a queue of events through [`dispatch_step`], strictly first-in
/// first-out, stopping after the first `Quit`: no event behind a `Quit` is
/// processed. The recorder is modelled as running after a start command and
/// stopped after a stop command.
pub fn process_events(events: &Vec<ActionEvent>, state: DispatcherState, running: bool) -> (r:
    ProcessOutcome)
    ensures
        r.processed@ == spec_processed_prefix(events@),
{
    let mut state = state;
    let mut running = running;
    let mut processed: Vec<ActionEvent> = Vec::new();
    let mut commands: Vec<Command> = Vec::new();
    let mut i: usize = 0;
    proof {
        assert(events@.skip(0) =~= events@);
        assert(processed@ + spec_processed_prefix(events@) =~= spec_processed_prefix(events@));
    }
    while i < events.len()
        invariant
            0 <= i <= events@.len(),
            spec_processed_prefix(events@) == processed@ + spec_processed_prefix(
                events@.skip(i as int),
            ),
        decreases events.len() - i,
    {
        let event = events[i];
        let ghost prev = processed@;
        processed.push(event);
        let step = dispatch_step(state, running, event);
        state = step.0;
        let step_commands = step.1;
        let mut k: usize = 0;
        while k < step_commands.len()
            invariant
                0 <= k <= step_commands@.len(),
            decreases step_commands.len() - k,
        {
            let command = step_commands[k];
            if command == Command::StartRecorder {
                running = true;
            }
            if command == Command::StopRecorder {
                running = false;
            }
            commands.push(command);
            k += 1;
        }
        if matches!(event, ActionEvent::Quit) {
            proof {
                assert(events@.skip(i as int)[0] == event);
                assert(spec_processed_prefix(events@.skip(i as int)) =~= seq![ActionEvent::Quit]);
                assert(processed@ =~= prev + seq![ActionEvent::Quit]);
            }
            return ProcessOutcome { state, running, processed, commands };
        }
        proof {
            assert(events@.skip(i as int)[0] == event);
            assert(events@.skip(i as int).skip(1) =~= events@.skip(i + 1));
            assert(spec_processed_prefix(events@.skip(i as int)) == seq![event]
                + spec_processed_prefix(events@.skip(i + 1)));
            assert(processed@ =~= prev + seq![event]);
            assert(prev + (seq![event] + spec_processed_prefix(events@.skip(i + 1))) =~= (prev
                + seq![event]) + spec_processed_prefix(events@.skip(i + 1)));
        }
        i += 1;
    }
    proof {
        assert(events@.skip(i as int) =~= Seq::<ActionEvent>::empty());
        assert(processed@ + Seq::<ActionEvent>::empty() =~= processed@);
    }
    ProcessOutcome { state, running, processed, commands }
}

} // verus!
