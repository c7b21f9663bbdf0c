use trayplay::ActionEvent;
use trayplay::config::Config;
use trayplay::dispatcher::{
    Command, DispatcherState, SaveFeedback, apply_picked_directory, dispatch_step, osd_message,
    osd_saved_message, process_events, save_feedback,
};
use trayplay::gsr::{Error, IoErrorKind};

fn state() -> DispatcherState {
    DispatcherState { config: Config::default_config(String::from("/videos")), stopped: false }
}

#[test]
fn events_are_processed_in_fifo_order_until_quit() {
    let events = vec![ActionEvent::SaveReplay, ActionEvent::ToggleReplay, ActionEvent::Quit];
    let outcome = process_events(&events, state(), true);
    assert_eq!(
        outcome.processed,
        vec![ActionEvent::SaveReplay, ActionEvent::ToggleReplay, ActionEvent::Quit]
    );
    assert!(outcome.state.stopped);
}

#[test]
fn nothing_after_quit_is_processed() {
    let events = vec![
        ActionEvent::SaveReplay,
        ActionEvent::Quit,
        ActionEvent::SaveReplay,
        ActionEvent::ToggleReplay,
    ];
    let outcome = process_events(&events, state(), false);
    assert_eq!(outcome.processed, vec![ActionEvent::SaveReplay, ActionEvent::Quit]);
}

#[test]
fn config_change_while_running_restarts_exactly_once() {
    let (_, commands) = dispatch_step(state(), true, ActionEvent::ConfigSaved);
    assert_eq!(commands, vec![Command::StopRecorder, Command::StartRecorder]);
}

#[test]
fn config_change_while_stopped_does_nothing() {
    let (_, commands) = dispatch_step(state(), false, ActionEvent::ConfigSaved);
    assert_eq!(commands, Vec::new());
}

#[test]
fn toggle_while_running_stops_and_persists_off() {
    let (next, commands) = dispatch_step(state(), true, ActionEvent::ToggleReplay);
    assert_eq!(
        commands,
        vec![
            Command::StopRecorder,
            Command::OsdStopped,
            Command::PersistConfig,
            Command::RefreshTray,
        ]
    );
    assert!(!next.config.recording_enabled);
}

#[test]
fn toggle_while_stopped_starts_and_persists_on() {
    let mut s = state();
    s.config.recording_enabled = false;
    let (next, commands) = dispatch_step(s, false, ActionEvent::ToggleReplay);
    assert_eq!(
        commands,
        vec![
            Command::StartRecorder,
            Command::OsdStarted,
            Command::PersistConfig,
            Command::RefreshTray,
        ]
    );
    assert!(next.config.recording_enabled);
}

#[test]
fn save_replay_event_emits_save_command() {
    let (next, commands) = dispatch_step(state(), true, ActionEvent::SaveReplay);
    assert_eq!(commands, vec![Command::SaveReplay]);
    assert!(!next.stopped);
}

#[test]
fn quit_event_unloads_stops_and_exits() {
    let (next, commands) = dispatch_step(state(), true, ActionEvent::Quit);
    assert_eq!(
        commands,
        vec![Command::UnloadKwinScript, Command::StopRecorder, Command::Exit]
    );
    assert!(next.stopped);
}

#[test]
fn unknown_event_is_logged_only() {
    let (next, commands) = dispatch_step(state(), true, ActionEvent::Unknown);
    assert_eq!(commands, vec![Command::LogUnhandled]);
    assert!(!next.stopped);
}

#[test]
fn change_replay_path_asks_for_a_directory() {
    let (_, commands) = dispatch_step(state(), false, ActionEvent::ChangeReplayPath);
    assert_eq!(commands, vec![Command::AskReplayDirectory]);
}

#[test]
fn picked_directory_is_applied_and_persisted() {
    let (next, commands) = apply_picked_directory(state(), Some(String::from("/new/place")));
    assert_eq!(next.config.replay_directory, "/new/place");
    assert_eq!(commands, vec![Command::PersistConfig]);
}

#[test]
fn cancelled_picker_changes_nothing() {
    let (next, commands) = apply_picked_directory(state(), None);
    assert_eq!(next.config.replay_directory, "/videos");
    assert_eq!(commands, Vec::new());
}

#[test]
fn osd_messages() {
    let stopped = osd_message(&Command::OsdStopped).unwrap();
    assert_eq!(stopped.0, "media-playback-stopped");
    assert_eq!(stopped.1, "Replay recording stopped");
    let started = osd_message(&Command::OsdStarted).unwrap();
    assert_eq!(started.0, "media-playback-playing");
    assert_eq!(started.1, "Replay recording started");
    assert!(osd_message(&Command::SaveReplay).is_none());
}

#[test]
fn save_feedback_cases() {
    assert_eq!(save_feedback(&Ok(())), SaveFeedback::Notify);
    assert_eq!(save_feedback(&Err(Error::RecorderNotRunning)), SaveFeedback::WarnNotRunning);
    assert_eq!(save_feedback(&Err(Error::IoError(IoErrorKind::Other))), SaveFeedback::LogError);
    assert_eq!(save_feedback(&Err(Error::NixErrno(1))), SaveFeedback::LogError);
}

#[test]
fn saved_notification_names_the_application() {
    let (icon, text) = osd_saved_message(&String::from("Game"));
    assert_eq!(icon, "media-record");
    assert_eq!(text, "Replay from \"Game\" saved!");
}
