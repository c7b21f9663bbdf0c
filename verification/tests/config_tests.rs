use trayplay::config::{Codec, Config, Container, Quality, default_bool_true,
    default_file_name_pattern};

fn sample_config() -> Config {
    Config::default_config(String::from("/videos"))
}

#[test]
fn default_config_fields() {
    let c = sample_config();
    assert!(c.recording_enabled);
    assert_eq!(c.screen, "screen");
    assert_eq!(c.container, Container::MKV);
    assert_eq!(c.codec, Codec::H264);
    assert_eq!(c.audio_tracks, vec![String::from("default_output"), String::from("default_input")]);
    assert_eq!(c.framerate, 60);
    assert!(c.clear_buffer_on_save);
    assert_eq!(c.quality, Quality::Ultra);
    assert_eq!(c.replay_directory, "/videos");
    assert_eq!(c.replay_duration_secs, 180);
    assert_eq!(c.file_name_pattern, "%app%/%app%_replay_%year%-%month%-%day%_%hour%-%minute%-%second%");
}

#[test]
fn default_helpers() {
    assert!(default_bool_true());
    assert_eq!(
        default_file_name_pattern(),
        "%app%/%app%_replay_%year%-%month%-%day%_%hour%-%minute%-%second%"
    );
}

fn assert_round_trip(c: &Config) {
    let text = c.encode();
    let d = Config::decode(&text).expect("persisted text must decode");
    assert_eq!(d.recording_enabled, c.recording_enabled);
    assert_eq!(d.screen, c.screen);
    assert_eq!(d.container, c.container);
    assert_eq!(d.codec, c.codec);
    assert_eq!(d.audio_tracks, c.audio_tracks);
    assert_eq!(d.framerate, c.framerate);
    assert_eq!(d.clear_buffer_on_save, c.clear_buffer_on_save);
    assert_eq!(d.quality, c.quality);
    assert_eq!(d.replay_directory, c.replay_directory);
    assert_eq!(d.replay_duration_secs, c.replay_duration_secs);
    assert_eq!(d.file_name_pattern, c.file_name_pattern);
}

#[test]
fn round_trip_default() {
    assert_round_trip(&sample_config());
}

#[test]
fn round_trip_every_container() {
    for container in [Container::MKV, Container::MP4, Container::FLV, Container::WEBM] {
        let mut c = sample_config();
        c.container = container;
        assert_round_trip(&c);
    }
}

#[test]
fn round_trip_every_codec() {
    for codec in [
        Codec::H264,
        Codec::HEVC,
        Codec::HEVCHDR,
        Codec::HEVC10Bit,
        Codec::AV1,
        Codec::AV1HDR,
        Codec::AV110Bit,
        Codec::VP8,
        Codec::VP9,
    ] {
        let mut c = sample_config();
        c.codec = codec;
        assert_round_trip(&c);
    }
}

#[test]
fn round_trip_every_quality() {
    for quality in [Quality::Medium, Quality::High, Quality::VeryHigh, Quality::Ultra] {
        let mut c = sample_config();
        c.quality = quality;
        assert_round_trip(&c);
    }
}

#[test]
fn round_trip_awkward_strings() {
    let mut c = sample_config();
    c.screen = String::from("DP-1 \"main\"");
    c.replay_directory = String::from("/videos/with\nnewline\\and\\backslash");
    c.file_name_pattern = String::from("a=b\"c\"");
    c.audio_tracks = vec![
        String::from("app:Game|default_output"),
        String::from(""),
        String::from("weird \\\"track\nname"),
    ];
    assert_round_trip(&c);
}

#[test]
fn round_trip_no_audio_tracks() {
    let mut c = sample_config();
    c.audio_tracks = Vec::new();
    assert_round_trip(&c);
}

#[test]
fn round_trip_flags_off() {
    let mut c = sample_config();
    c.recording_enabled = false;
    c.clear_buffer_on_save = false;
    assert_round_trip(&c);
}

#[test]
fn decode_rejects_garbage() {
    assert!(Config::decode(&String::from("")).is_none());
    assert!(Config::decode(&String::from("not a config")).is_none());
    assert!(Config::decode(&String::from("recording_enabled = maybe\n")).is_none());
}

#[test]
fn decode_rejects_zero_framerate() {
    let mut c = sample_config();
    let text = c.encode().replace("framerate = 60", "framerate = 0");
    assert!(Config::decode(&text).is_none());
    c.framerate = 61;
    let text = c.encode();
    assert_eq!(Config::decode(&text).unwrap().framerate, 61);
}

#[test]
fn decode_rejects_wrong_track_count() {
    let c = sample_config();
    let text = c.encode().replace("audio_tracks = 2", "audio_tracks = 3");
    assert!(Config::decode(&text).is_none());
}

#[test]
fn enum_tokens() {
    assert_eq!(Quality::Medium.to_string(), "medium");
    assert_eq!(Quality::VeryHigh.to_string(), "very_high");
    assert_eq!(Container::WEBM.to_string(), "webm");
    assert_eq!(Codec::HEVC10Bit.to_string(), "hevc_10bit");
    assert_eq!(Codec::AV1HDR.to_string(), "av1_hdr");
    assert_eq!(Quality::default(), Quality::VeryHigh);
    assert_eq!(Codec::default(), Codec::H264);
}
