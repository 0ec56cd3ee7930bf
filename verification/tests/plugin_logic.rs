use vrc_osc_manager::pishock::{
    classify_api_response, classify_param, clamp_duration, extend_deadline, parse_share_codes,
    trim_ws, ApiOutcome, Button, ButtonActions, CoreConfig, Direction, ModifierAction, Operation,
    PiShockParam, PiShockState, ShockAction,
};
use vrc_osc_manager::plugins::{
    build_default_service, create_plugin_items, known_plugin_ids, MediaControl, MediaKey, Watch,
};
use vrc_osc_manager::service::{OscHostInfo, QueryResponse};

#[test]
fn media_keys_map_one_to_one() {
    assert_eq!(
        MediaControl::media_key_for("/avatar/parameters/MC_PrevTrack", true),
        Some(MediaKey::PrevTrack)
    );
    assert_eq!(
        MediaControl::media_key_for("/avatar/parameters/MC_NextTrack", true),
        Some(MediaKey::NextTrack)
    );
    assert_eq!(
        MediaControl::media_key_for("/avatar/parameters/MC_PlayPause", true),
        Some(MediaKey::PlayPause)
    );
    assert_eq!(
        MediaControl::media_key_for("/avatar/parameters/MC_Stop", true),
        Some(MediaKey::Stop)
    );
    // a released button presses nothing, an unknown address neither
    assert_eq!(MediaControl::media_key_for("/avatar/parameters/MC_Stop", false), None);
    assert_eq!(MediaControl::media_key_for("/avatar/parameters/Other", true), None);
}

#[test]
fn watch_hands_encode_the_time_exactly() {
    // 3:30:00 — hour hand halfway between 3 and 4, minute hand at 6 o'clock
    let (h, m) = Watch::watch_hands(3, 30, 0);
    assert_eq!(h, 3 * 60 + 30 - 360);
    assert_eq!(m, 30 * 60 - 1800);
    assert_eq!(m, 0);
    // midnight
    assert_eq!(Watch::watch_hands(0, 0, 0), (-360, -1800));
    // afternoon hours wrap to the 12-hour dial
    assert_eq!(Watch::watch_hands(15, 30, 0), Watch::watch_hands(3, 30, 0));
    // the top of the ranges stays inside the dial
    let (h, m) = Watch::watch_hands(23, 59, 59);
    assert!((-360..360).contains(&h));
    assert!((-1800..1800).contains(&m));
}

#[test]
fn watch_tick_reads_the_clock_within_range() {
    let (h, m) = Watch.watch_tick();
    assert!((-360..360).contains(&h));
    assert!((-1800..1800).contains(&m));
}

#[test]
fn api_responses_are_classified() {
    assert_eq!(classify_api_response("Operation Succeeded."), ApiOutcome::Accepted);
    assert_eq!(classify_api_response("Operation Attempted."), ApiOutcome::Accepted);
    assert_eq!(classify_api_response("Not Authorized."), ApiOutcome::NotAuthorized);
    assert_eq!(classify_api_response("banana"), ApiOutcome::Unrecognized);
}

#[test]
fn durations_clamp_into_the_api_range() {
    assert_eq!(clamp_duration(0), 1);
    assert_eq!(clamp_duration(1), 1);
    assert_eq!(clamp_duration(4), 4);
    assert_eq!(clamp_duration(15), 15);
    assert_eq!(clamp_duration(200), 15);
}

#[test]
fn operations_have_wire_codes() {
    assert_eq!(Operation::Shock.into_byte(), 0);
    assert_eq!(Operation::Vibrate.into_byte(), 1);
    assert!(Operation::Shock.is_shock());
    assert!(!Operation::Vibrate.is_shock());
}

#[test]
fn addresses_classify_into_parameters() {
    assert_eq!(
        classify_param("/avatar/parameters/PS_Minus_Pressed"),
        PiShockParam::MinusPressed
    );
    assert_eq!(classify_param("/avatar/parameters/PS_Plus_Pressed"), PiShockParam::PlusPressed);
    assert_eq!(
        classify_param("/avatar/parameters/PS_ShockLeft_Pressed"),
        PiShockParam::ShockLeftPressed
    );
    assert_eq!(
        classify_param("/avatar/parameters/PS_ShockRight_Pressed"),
        PiShockParam::ShockRightPressed
    );
    assert_eq!(classify_param("/avatar/parameters/PS_Intensity"), PiShockParam::Intensity);
    assert_eq!(classify_param("/avatar/parameters/PS_IntensityCap"), PiShockParam::IntensityCap);
    assert_eq!(classify_param("/avatar/parameters/PS_QuickVibrate"), PiShockParam::QuickVibrate);
    assert_eq!(classify_param("/avatar/parameters/PS_QuickShock"), PiShockParam::QuickShock);
    assert_eq!(classify_param("/avatar/change"), PiShockParam::AvatarChange);
    assert_eq!(classify_param("/something/else"), PiShockParam::Unrecognized);
}

#[test]
fn holding_one_modifier_button_starts_and_releasing_stops() {
    let mut s = PiShockState::new();
    s.toggle_button(Button::Minus, true);
    assert_eq!(s.check_modifier_state(), ModifierAction::Start(Direction::Down));
    // a second edge while one runs stops it
    s.toggle_button(Button::Minus, false);
    assert_eq!(s.check_modifier_state(), ModifierAction::Stop);
    // plus alone goes up
    s.toggle_button(Button::Plus, true);
    assert_eq!(s.check_modifier_state(), ModifierAction::Start(Direction::Up));
}

#[test]
fn both_modifier_buttons_start_nothing() {
    let mut s = PiShockState::new();
    s.toggle_button(Button::Minus, true);
    s.toggle_button(Button::Plus, true);
    assert_eq!(s.check_modifier_state(), ModifierAction::Keep);
}

#[test]
fn the_shock_grip_needs_both_buttons() {
    let mut s = PiShockState::new();
    s.toggle_button(Button::ShockLeft, true);
    assert_eq!(s.check_shock_state(), ShockAction::Keep);
    s.toggle_button(Button::ShockRight, true);
    assert_eq!(s.check_shock_state(), ShockAction::Start);
    assert_eq!(s.check_shock_state(), ShockAction::Keep);
    s.toggle_button(Button::ShockLeft, false);
    assert_eq!(s.check_shock_state(), ShockAction::Stop);
    // reset clears everything
    s.reset();
    assert_eq!(s, PiShockState::new());
}

#[test]
fn deadlines_only_extend_forward() {
    assert_eq!(extend_deadline(10, 5, 10), Some(15));
    assert_eq!(extend_deadline(15, 5, 4), None);
    assert_eq!(extend_deadline(9, 5, 4), None);
}

#[test]
fn the_default_core_config_matches_first_run() {
    let c = CoreConfig::default();
    assert_eq!(c.username, "");
    assert_eq!(c.api_key, "");
    assert_eq!(c.codes, vec!["".to_string()]);
    assert_eq!(c.duration, 4);
}

#[test]
fn the_catalogue_lists_the_three_plugins() {
    let ids = known_plugin_ids();
    assert_eq!(ids, vec!["media_control", "watch", "pishock"]);
}

#[test]
fn the_default_namespace_serves_every_plugin_parameter() {
    let service = build_default_service(OscHostInfo::new(
        "VRC OSC Manager".to_string(),
        "127.0.0.1".to_string(),
        9001,
    ));
    assert!(matches!(
        service.respond("/avatar/change".to_string(), None),
        QueryResponse::FullNode
    ));
    match service.respond("/avatar/parameters/MC_Stop".to_string(), Some("ACCESS")) {
        QueryResponse::AccessField(n) => assert_eq!(n, 1),
        _ => panic!("expected the ACCESS projection"),
    }
    match service.respond("/avatar/parameters/RMBA_WatchHours".to_string(), Some("ACCESS")) {
        QueryResponse::AccessField(n) => assert_eq!(n, 2),
        _ => panic!("expected the ACCESS projection"),
    }
    match service.respond("/avatar/parameters/PS_Intensity".to_string(), Some("ACCESS")) {
        QueryResponse::AccessField(n) => assert_eq!(n, 3),
        _ => panic!("expected the ACCESS projection"),
    }
    assert!(matches!(
        service.respond("/avatar/parameters/Absent".to_string(), None),
        QueryResponse::NotFound
    ));
}

#[test]
fn plugin_identities_read_as_expected() {
    assert_eq!(MediaControl.title(), "Media Control");
    assert_eq!(Watch.title(), "OSC Watch");
    assert!(Watch.info_url().is_some());
    assert_eq!(
        vrc_osc_manager::pishock::PiShock.title(),
        "PiShock Controller"
    );
}

#[test]
fn bool_params_drive_the_whole_session_state_machine() {
    let mut s = PiShockState::new();
    let r = s.handle_bool_param(PiShockParam::MinusPressed, true);
    assert_eq!(
        r,
        ButtonActions { modifier: ModifierAction::Start(Direction::Down), shock: ShockAction::Keep }
    );
    let r = s.handle_bool_param(PiShockParam::ShockLeftPressed, true);
    assert_eq!(r.shock, ShockAction::Keep);
    let r = s.handle_bool_param(PiShockParam::ShockRightPressed, true);
    assert_eq!(r.shock, ShockAction::Start);
    // a float-valued or unknown parameter leaves the machine alone
    let before = s;
    let r = s.handle_bool_param(PiShockParam::Intensity, true);
    assert_eq!(r, ButtonActions { modifier: ModifierAction::Keep, shock: ShockAction::Keep });
    assert_eq!(s, before);
}

#[test]
fn plugin_items_mirror_the_enabled_set() {
    let items = create_plugin_items(&vec!["watch".to_string()]);
    assert_eq!(items.len(), 3);
    assert_eq!(items[0].id, "media_control");
    assert!(!items[0].enabled);
    assert_eq!(items[1].id, "watch");
    assert!(items[1].enabled);
    assert_eq!(items[1].title, "OSC Watch");
    assert_eq!(items[2].id, "pishock");
    assert!(!items[2].enabled);
}

#[test]
fn share_codes_parse_line_by_line() {
    let input = "ABC123\n  https://pishock.example/#/control?sharecode=XYZ789  \n\n   \ncode2";
    let codes = parse_share_codes(input);
    assert_eq!(codes, vec!["ABC123", "XYZ789", "code2"]);
}

#[test]
fn share_code_lines_are_trimmed_and_empty_ones_dropped() {
    assert_eq!(parse_share_codes(""), Vec::<String>::new());
    assert_eq!(parse_share_codes("  \n\t\n"), Vec::<String>::new());
    assert_eq!(parse_share_codes("  A1  "), vec!["A1"]);
    // the marker may sit anywhere in the line; only what follows it is kept
    assert_eq!(parse_share_codes("x?sharecode="), Vec::<String>::new());
    assert_eq!(parse_share_codes("?sharecode=Z"), vec!["Z"]);
}

#[test]
fn trim_removes_surrounding_whitespace_only() {
    assert_eq!(trim_ws("  a b \t"), "a b");
    assert_eq!(trim_ws(""), "");
    assert_eq!(trim_ws(" \r\n "), "");
    assert_eq!(trim_ws("plain"), "plain");
}
