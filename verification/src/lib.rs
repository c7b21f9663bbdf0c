//! TrayPlay: a library for a tray utility that supervises an external
//! screen-recording process ("instant replay"), routes user intents through a
//! single event dispatcher, tracks the active application, and keeps a
//! persisted recorder configuration.

use vstd::prelude::*;

pub mod active_window;
pub mod config;
pub mod dispatcher;
pub mod gsr;
pub mod kdialog;
pub mod settings;
pub mod shortcuts;
pub mod text;
pub mod tray;
pub mod utils;

verus! {

/// An intent event produced by a UI surface (tray menu, global shortcut,
/// settings panel) and consumed exactly once by the central dispatcher.
#[derive(Clone, Copy, PartialEq, Eq, Structural, Debug)]
pub enum ActionEvent {
    SaveReplay,
    Quit,
    Unknown,
    ChangeReplayPath,
    ConfigSaved,
    ToggleReplay,
}

/// The user-facing message for a failed recorder start, distinguishing a
/// missing binary from other OS failures; `None` when the start succeeded.
pub fn handle_gsr_start_result(result: &Result<(), gsr::Error>) -> (r: Option<String>)
    ensures
        match result {
            Ok(_) => r is None,
            Err(gsr::Error::IoError(gsr::IoErrorKind::NotFound)) => r matches Some(m) && m@
                == "gpu-screen-recorder is not installed!"@,
            Err(_) => r matches Some(m) && m@ == "Error while starting gpu-screen-recorder."@,
        },
{
    match result {
        Ok(_) => None,
        Err(gsr::Error::IoError(gsr::IoErrorKind::NotFound)) => Some(
            String::from_str("gpu-screen-recorder is not installed!"),
        ),
        Err(_) => Some(String::from_str("Error while starting gpu-screen-recorder.")),
    }
}

} // verus!
