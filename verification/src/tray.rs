//! The tray menu model: a closed set of entry kinds and the exact menu shown
//! for a configuration. Rendering the entries into the desktop tray library
//! and wiring their activations is the caller's concern.

use vstd::prelude::*;

use crate::ActionEvent;
use crate::config::Config;

verus! {

/// What activating a menu entry does.
#[derive(Clone, Copy, PartialEq, Eq, Structural, Debug)]
pub enum MenuAction {
    /// Send this event into the dispatcher queue.
    Dispatch(ActionEvent),
    /// Open the settings window.
    OpenSettings,
    /// Show the about box.
    ShowAbout,
}

/// One tray menu entry.
pub enum TrayMenuEntry {
    /// A checkable entry.
    Toggle { label: String, icon: String, checked: bool, action: MenuAction },
    /// A plain entry.
    Standard { label: String, icon: String, action: MenuAction },
    /// A separator line.
    Separator,
}

/// The identifier the tray icon registers under.
pub fn tray_id() -> (r: String)
    ensures
        r@ == "trayplay"@,
{
    String::from_str("trayplay")
}

/// The icon the tray shows.
pub fn tray_icon_name() -> (r: String)
    ensures
        r@ == "media-skip-backward"@,
{
    String::from_str("media-skip-backward")
}

/// The tray title.
pub fn tray_title() -> (r: String)
    ensures
        r@ == "TrayPlay"@,
{
    String::from_str("TrayPlay")
}

/// The menu shown for a configuration: the recording toggle reflecting the
/// recording-enabled flag, save replay, settings, the about box, and quit,
/// with separators between the groups.
pub fn tray_menu(config: &Config) -> (r: Vec<TrayMenuEntry>)
    ensures
        r@.len() == 7,
        r@[0] matches TrayMenuEntry::Toggle { label, icon, checked, action } && label@
            == "Record replays"@ && icon@ == "media-record"@ && checked
            == config.recording_enabled && action == MenuAction::Dispatch(ActionEvent::ToggleReplay),
        r@[1] matches TrayMenuEntry::Standard { label, icon, action } && label@ == "Save replay"@
            && icon@ == "document-save"@ && action == MenuAction::Dispatch(ActionEvent::SaveReplay),
        r@[2] is Separator,
        r@[3] matches TrayMenuEntry::Standard { label, icon, action } && label@ == "Settings"@
            && icon@ == "configure"@ && action == MenuAction::OpenSettings,
        r@[4] matches TrayMenuEntry::Standard { label, icon, action } && label@ == "About"@
            && icon@ == "help-about"@ && action == MenuAction::ShowAbout,
        r@[5] is Separator,
        r@[6] matches TrayMenuEntry::Standard { label, icon, action } && label@ == "Quit"@ && icon@
            == "gtk-quit"@ && action == MenuAction::Dispatch(ActionEvent::Quit),
{
    let mut menu: Vec<TrayMenuEntry> = Vec::new();
    menu.push(
        TrayMenuEntry::Toggle {
            label: String::from_str("Record replays"),
            icon: String::from_str("media-record"),
            checked: config.recording_enabled,
            action: MenuAction::Dispatch(ActionEvent::ToggleReplay),
        },
    );
    menu.push(
        TrayMenuEntry::Standard {
            label: String::from_str("Save replay"),
            icon: String::from_str("document-save"),
            action: MenuAction::Dispatch(ActionEvent::SaveReplay),
        },
    );
    menu.push(TrayMenuEntry::Separator);
    menu.push(
        TrayMenuEntry::Standard {
            label: String::from_str("Settings"),
            icon: String::from_str("configure"),
            action: MenuAction::OpenSettings,
        },
    );
    menu.push(
        TrayMenuEntry::Standard {
            label: String::from_str("About"),
            icon: String::from_str("help-about"),
            action: MenuAction::ShowAbout,
        },
    );
    menu.push(TrayMenuEntry::Separator);
    menu.push(
        TrayMenuEntry::Standard {
            label: String::from_str("Quit"),
            icon: String::from_str("gtk-quit"),
            action: MenuAction::Dispatch(ActionEvent::Quit),
        },
    );
    menu
}

} // verus!
