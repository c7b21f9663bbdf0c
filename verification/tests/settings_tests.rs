use trayplay::config::{Codec, Config, Container, Quality};
use trayplay::settings::{
    Settings, applications_list, codec_of_index, container_of_index, devices_list, join_strings,
    quality_of_index, sources_list, split_string,
};

fn sample_config() -> Config {
    let mut c = Config::default_config(String::from("/videos"));
    c.audio_tracks = vec![String::from("default_output|app:Game"), String::from("mic")];
    c
}

fn sample_settings() -> Settings {
    Settings::new(&sample_config(), Vec::new(), Vec::new(), Vec::new())
}

#[test]
fn model_mirrors_config() {
    let c = sample_config();
    let s = Settings::new(
        &c,
        vec![String::from("app:Game")],
        vec![String::from("dev1")],
        vec![String::from("screen"), String::from("DP-1")],
    );
    assert_eq!(s.framerate, 60);
    assert_eq!(s.duration, 180);
    assert_eq!(s.quality, 3);
    assert_eq!(s.container, 0);
    assert_eq!(s.codec, 0);
    assert_eq!(s.directory, "/videos");
    assert!(s.clear_buffer);
    assert!(s.record_replays);
    assert_eq!(s.video_source_choice, "screen");
    assert_eq!(s.audio_applications, vec![String::from("app:Game")]);
    assert_eq!(s.audio_devices, vec![String::from("dev1")]);
    assert_eq!(s.video_sources, vec![String::from("screen"), String::from("DP-1")]);
    assert_eq!(
        s.get_audio_tracks(),
        vec![
            vec![String::from("default_output"), String::from("app:Game")],
            vec![String::from("mic")],
        ]
    );
}

#[test]
fn audio_track_rows_can_be_edited() {
    let mut s = sample_settings();
    s.add_audio_track();
    assert_eq!(s.get_audio_tracks().len(), 3);
    s.add_audio_source(2, String::from("extra"));
    assert_eq!(s.get_audio_tracks()[2], vec![String::from("extra")]);
    s.remove_audio_source(0, 1);
    assert_eq!(s.get_audio_tracks()[0], vec![String::from("default_output")]);
    s.remove_audio_track(1);
    assert_eq!(
        s.get_audio_tracks(),
        vec![vec![String::from("default_output")], vec![String::from("extra")]]
    );
}

#[test]
fn moving_a_track_swaps_or_moves_to_end() {
    let mut s = sample_settings();
    s.move_audio_track(0, 1);
    assert_eq!(
        s.get_audio_tracks(),
        vec![
            vec![String::from("mic")],
            vec![String::from("default_output"), String::from("app:Game")],
        ]
    );
    s.move_audio_track(0, 9);
    assert_eq!(
        s.get_audio_tracks(),
        vec![
            vec![String::from("default_output"), String::from("app:Game")],
            vec![String::from("mic")],
        ]
    );
}

#[test]
fn apply_config_writes_every_field_back() {
    let mut s = sample_settings();
    s.framerate = 120;
    s.duration = 60;
    s.quality = 1;
    s.container = 3;
    s.codec = 8;
    s.directory = String::from("/elsewhere");
    s.clear_buffer = false;
    s.record_replays = true;
    s.file_name_pattern = String::from("%app%");
    s.video_source_choice = String::from("DP-1");
    let mut c = sample_config();
    let toggled = s.apply_config(&mut c);
    assert!(!toggled);
    assert_eq!(c.framerate, 120);
    assert_eq!(c.replay_duration_secs, 60);
    assert_eq!(c.quality, Quality::High);
    assert_eq!(c.container, Container::WEBM);
    assert_eq!(c.codec, Codec::VP9);
    assert_eq!(c.replay_directory, "/elsewhere");
    assert!(!c.clear_buffer_on_save);
    assert!(c.recording_enabled);
    assert_eq!(c.file_name_pattern, "%app%");
    assert_eq!(c.screen, "DP-1");
    assert_eq!(
        c.audio_tracks,
        vec![String::from("default_output|app:Game"), String::from("mic")]
    );
}

#[test]
fn apply_config_reports_recording_toggle() {
    let mut s = sample_settings();
    s.record_replays = false;
    let mut c = sample_config();
    assert!(s.apply_config(&mut c));
    assert!(!c.recording_enabled);
}

#[test]
fn index_maps() {
    assert_eq!(quality_of_index(0), Quality::Medium);
    assert_eq!(quality_of_index(2), Quality::VeryHigh);
    assert_eq!(container_of_index(1), Container::MP4);
    assert_eq!(codec_of_index(4), Codec::AV1);
    assert_eq!(codec_of_index(7), Codec::VP8);
}

#[test]
fn join_and_split_tracks() {
    let parts = vec![String::from("a"), String::from("b"), String::from("c")];
    assert_eq!(join_strings(&parts, '|'), "a|b|c");
    assert_eq!(split_string(&String::from("a|b|c"), '|'), parts);
    assert_eq!(join_strings(&Vec::new(), '|'), "");
    assert_eq!(split_string(&String::from("solo"), '|'), vec![String::from("solo")]);
}

#[test]
fn application_list_drops_empty_lines() {
    let text = String::from("app:Game\n\napp:Browser\n");
    assert_eq!(
        applications_list(&text),
        vec![String::from("app:Game"), String::from("app:Browser")]
    );
}

#[test]
fn device_list_drops_defaults() {
    let text = String::from(
        "default_output Monitor\nalsa_output.pci Speaker\ndefault_input Mic\nalsa_input.pci Line\n",
    );
    assert_eq!(
        devices_list(&text),
        vec![String::from("alsa_output.pci Speaker"), String::from("alsa_input.pci Line")]
    );
}

#[test]
fn source_list_drops_region() {
    let text = String::from("screen\nregion\nDP-1\n");
    assert_eq!(sources_list(&text), vec![String::from("screen"), String::from("DP-1")]);
}
