use trayplay::utils::{
    Timestamp, apply_pattern, desktop_entry_candidates, parse_number_input, pick_existing,
    process_pattern, script_path_candidates,
};

#[test]
fn pattern_substitution_is_exact() {
    let t = Timestamp { year: 2024, month: 3, day: 7, hour: 9, minute: 5, second: 42 };
    let out = apply_pattern(
        &String::from("%app%/%app%_replay_%year%-%month%-%day%_%hour%-%minute%-%second%"),
        &String::from("Game"),
        &t,
    );
    assert_eq!(out, "Game/Game_replay_2024-3-7_9-5-42");
}

#[test]
fn pattern_without_placeholders_is_unchanged() {
    let t = Timestamp { year: 2024, month: 1, day: 1, hour: 0, minute: 0, second: 0 };
    let out = apply_pattern(&String::from("plain name"), &String::from("App"), &t);
    assert_eq!(out, "plain name");
}

#[test]
fn pattern_with_negative_year() {
    let t = Timestamp { year: -44, month: 3, day: 15, hour: 12, minute: 0, second: 0 };
    let out = apply_pattern(&String::from("y%year%"), &String::from("App"), &t);
    assert_eq!(out, "y-44");
}

#[test]
fn process_pattern_substitutes_placeholders_when_time_is_known() {
    // The local offset may be indeterminate in a test environment; when it
    // is known every placeholder must be gone.
    if let Some(out) = process_pattern(&String::from("%app%-%year%"), &String::from("App")) {
        assert!(out.starts_with("App-"));
        assert!(!out.contains("%year%"));
    }
}

#[test]
fn desktop_entry_candidates_in_probe_order() {
    let c = desktop_entry_candidates(&String::from("game"), &String::from("/home/u/.local/share"));
    assert_eq!(
        c,
        vec![
            String::from("/usr/share/applications/game.desktop"),
            String::from("/home/u/.local/share/applications/game.desktop"),
            String::from("/var/lib/flatpak/exports/share/applications/game.desktop"),
            String::from("game.desktop"),
        ]
    );
}

#[test]
fn script_path_candidates_in_probe_order() {
    let c = script_path_candidates(&String::from("/cwd/dist/kwin_script.js"));
    assert_eq!(
        c,
        vec![
            String::from("/usr/share/trayplay/kwin_script.js"),
            String::from("/cwd/dist/kwin_script.js"),
        ]
    );
}

#[test]
fn pick_existing_prefers_the_last_hit() {
    assert_eq!(pick_existing(&vec![true, false, true, false]), Some(2));
    assert_eq!(pick_existing(&vec![true]), Some(0));
    assert_eq!(pick_existing(&vec![false, false]), None);
    assert_eq!(pick_existing(&Vec::new()), None);
}

#[test]
fn number_input_parses_plain_and_signed() {
    assert_eq!(parse_number_input(&String::from("42\n")), Some(42));
    assert_eq!(parse_number_input(&String::from("180")), Some(180));
    assert_eq!(parse_number_input(&String::from("-7")), Some(-7));
    assert_eq!(parse_number_input(&String::from("0")), Some(0));
}

#[test]
fn number_input_rejects_bad_text() {
    assert_eq!(parse_number_input(&String::from("")), None);
    assert_eq!(parse_number_input(&String::from("\n")), None);
    assert_eq!(parse_number_input(&String::from("abc")), None);
    assert_eq!(parse_number_input(&String::from("4 2")), None);
    assert_eq!(parse_number_input(&String::from("-")), None);
    assert_eq!(parse_number_input(&String::from("12.5")), None);
}

#[test]
fn number_input_bounds() {
    assert_eq!(
        parse_number_input(&String::from("9223372036854775807")),
        Some(i64::MAX)
    );
    assert_eq!(
        parse_number_input(&String::from("-9223372036854775808")),
        Some(i64::MIN)
    );
    assert_eq!(parse_number_input(&String::from("9223372036854775808")), None);
    assert_eq!(parse_number_input(&String::from("99999999999999999999")), None);
}
