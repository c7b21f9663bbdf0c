use trayplay::ActionEvent;
use trayplay::config::Config;
use trayplay::shortcuts::{event_for_shortcut, shortcut_specs, shortcuts_to_bind};
use trayplay::tray::{MenuAction, TrayMenuEntry, tray_icon_name, tray_id, tray_menu, tray_title};

#[test]
fn shortcut_specs_are_exact() {
    let specs = shortcut_specs();
    assert_eq!(specs.len(), 3);
    assert_eq!(specs[0].id, "save-replay");
    assert_eq!(specs[0].description, "Save replay");
    assert_eq!(specs[0].trigger, "ALT+F10");
    assert_eq!(specs[1].id, "toggle-replay");
    assert_eq!(specs[1].description, "Toggle replay");
    assert_eq!(specs[1].trigger, "ALT+SHIFT+F10");
    assert_eq!(specs[2].id, "quit");
    assert_eq!(specs[2].description, "Quit program");
    assert_eq!(specs[2].trigger, "ALT+SHIFT+F11");
}

#[test]
fn only_unknown_shortcuts_are_bound() {
    let existing = vec![String::from("save-replay")];
    let to_bind = shortcuts_to_bind(&existing);
    assert_eq!(to_bind.len(), 2);
    assert_eq!(to_bind[0].id, "toggle-replay");
    assert_eq!(to_bind[1].id, "quit");
    assert_eq!(to_bind[1].trigger, "ALT+SHIFT+F11");
    let all_known = vec![
        String::from("save-replay"),
        String::from("toggle-replay"),
        String::from("quit"),
    ];
    assert!(shortcuts_to_bind(&all_known).is_empty());
    let none_known: Vec<String> = Vec::new();
    assert_eq!(shortcuts_to_bind(&none_known).len(), 3);
}

#[test]
fn shortcut_activations_map_to_events() {
    assert_eq!(event_for_shortcut(&String::from("save-replay")), ActionEvent::SaveReplay);
    assert_eq!(event_for_shortcut(&String::from("toggle-replay")), ActionEvent::ToggleReplay);
    assert_eq!(event_for_shortcut(&String::from("quit")), ActionEvent::Quit);
    assert_eq!(event_for_shortcut(&String::from("whatever")), ActionEvent::Unknown);
}

#[test]
fn tray_identity() {
    assert_eq!(tray_id(), "trayplay");
    assert_eq!(tray_icon_name(), "media-skip-backward");
    assert_eq!(tray_title(), "TrayPlay");
}

#[test]
fn tray_menu_reflects_recording_flag() {
    let mut config = Config::default_config(String::from("/videos"));
    config.recording_enabled = false;
    let menu = tray_menu(&config);
    assert_eq!(menu.len(), 7);
    match &menu[0] {
        TrayMenuEntry::Toggle { label, icon, checked, action } => {
            assert_eq!(label, "Record replays");
            assert_eq!(icon, "media-record");
            assert!(!checked);
            assert_eq!(*action, MenuAction::Dispatch(ActionEvent::ToggleReplay));
        },
        _ => panic!("first entry must be the recording toggle"),
    }
    match &menu[1] {
        TrayMenuEntry::Standard { label, icon, action } => {
            assert_eq!(label, "Save replay");
            assert_eq!(icon, "document-save");
            assert_eq!(*action, MenuAction::Dispatch(ActionEvent::SaveReplay));
        },
        _ => panic!("second entry must be save replay"),
    }
    assert!(matches!(menu[2], TrayMenuEntry::Separator));
    match &menu[3] {
        TrayMenuEntry::Standard { label, action, .. } => {
            assert_eq!(label, "Settings");
            assert_eq!(*action, MenuAction::OpenSettings);
        },
        _ => panic!("fourth entry must be settings"),
    }
    match &menu[4] {
        TrayMenuEntry::Standard { label, action, .. } => {
            assert_eq!(label, "About");
            assert_eq!(*action, MenuAction::ShowAbout);
        },
        _ => panic!("fifth entry must be about"),
    }
    assert!(matches!(menu[5], TrayMenuEntry::Separator));
    match &menu[6] {
        TrayMenuEntry::Standard { label, icon, action } => {
            assert_eq!(label, "Quit");
            assert_eq!(icon, "gtk-quit");
            assert_eq!(*action, MenuAction::Dispatch(ActionEvent::Quit));
        },
        _ => panic!("last entry must be quit"),
    }
}
