use piano_core::cli::{choose_model_index, parse_args, resolve_models_dir, CliCommand, CliError};
use piano_core::collect::{parse_command, RecordingSession, SessionAction, SessionCommand};
use piano_core::text::{eq_ignore_ascii_case, parse_usize};

fn args(a: &[&str]) -> Vec<String> {
    a.iter().map(|s| s.to_string()).collect()
}

#[test]
fn parse_defaults() {
    match parse_args(&args(&["tracker"]), true) {
        Ok(CliCommand::Run(a)) => {
            assert_eq!(a.device_index, None);
            assert_eq!(a.settings_path, "settings.json");
            assert_eq!(a.model_index, None);
            assert_eq!(a.models_dir, None);
        }
        other => panic!("unexpected {:?}", other),
    }
    assert!(matches!(parse_args(&[], false), Ok(CliCommand::Run(_))));
}

#[test]
fn parse_all_options() {
    let r = parse_args(
        &args(&["tracker", "--device", "3", "x", "--settings", "s.json", "--model", "+2", "--models-dir", "m", "--device", "7"]),
        true,
    );
    match r {
        Ok(CliCommand::Run(a)) => {
            assert_eq!(a.device_index, Some(7));
            assert_eq!(a.settings_path, "s.json");
            assert_eq!(a.model_index, Some(2));
            assert_eq!(a.models_dir.as_deref(), Some("m"));
        }
        other => panic!("unexpected {:?}", other),
    }
}

#[test]
fn collector_passes_over_models_dir() {
    match parse_args(&args(&["collector", "--models-dir", "m", "--device", "1"]), false) {
        Ok(CliCommand::Run(a)) => {
            assert_eq!(a.models_dir, None);
            assert_eq!(a.device_index, Some(1));
        }
        other => panic!("unexpected {:?}", other),
    }
}

#[test]
fn parse_list_devices_and_errors() {
    assert!(matches!(parse_args(&args(&["t", "--list-devices", "--device"]), true), Ok(CliCommand::ListDevices)));
    assert!(matches!(parse_args(&args(&["t", "--device"]), true), Err(CliError::MissingValue)));
    assert!(matches!(parse_args(&args(&["t", "--settings"]), true), Err(CliError::MissingValue)));
    assert!(matches!(parse_args(&args(&["t", "--model"]), true), Err(CliError::MissingValue)));
    assert!(matches!(parse_args(&args(&["t", "--models-dir"]), true), Err(CliError::MissingValue)));
    assert!(matches!(parse_args(&args(&["t", "--device", "x1"]), true), Err(CliError::InvalidDeviceIndex)));
    assert!(matches!(parse_args(&args(&["t", "--model", "-1"]), true), Err(CliError::InvalidModelIndex)));
    assert!(matches!(parse_args(&args(&["t", "--device", "1", "--list-devices"]), true), Ok(CliCommand::ListDevices)));
}

#[test]
fn usize_parsing_matches_std() {
    for s in ["0", "42", "+7", "", "+", "-1", " 1", "1 ", "a", "007", "18446744073709551615", "18446744073709551616", "99999999999999999999999", "١"] {
        assert_eq!(parse_usize(s), s.parse::<usize>().ok(), "{s:?}");
    }
}

#[test]
fn ascii_case_comparison_matches_std() {
    for (a, b) in [("cpal", "CPAL"), ("CpAl", "cpal"), ("cpa", "cpal"), ("cpal ", "cpal"), ("çpal", "cpal"), ("", "")] {
        assert_eq!(eq_ignore_ascii_case(a, b), a.eq_ignore_ascii_case(b), "{a:?} {b:?}");
    }
}

#[test]
fn model_choice_and_directory() {
    assert_eq!(choose_model_index(Some(3), Some(1)), 3);
    assert_eq!(choose_model_index(None, Some(1)), 1);
    assert_eq!(choose_model_index(None, None), 0);
    let s = |x: &str| Some(x.to_string());
    assert_eq!(resolve_models_dir(s("a"), s("b"), s("c")), "a");
    assert_eq!(resolve_models_dir(None, s("b"), s("c")), "b");
    assert_eq!(resolve_models_dir(None, None, s("c")), "c");
    assert_eq!(resolve_models_dir(None, None, None), ".models");
}

#[test]
fn session_commands() {
    assert_eq!(parse_command("q"), SessionCommand::Quit);
    assert_eq!(parse_command("b"), SessionCommand::Back);
    assert_eq!(parse_command("r"), SessionCommand::Rerecord);
    assert_eq!(parse_command(""), SessionCommand::Confirm);
    assert_eq!(parse_command("Q"), SessionCommand::Confirm);
}

#[test]
fn session_walks_through_the_notes() {
    let mut s = RecordingSession::new(2);
    assert_eq!(s.step(SessionCommand::Back, 0, 0), SessionAction::AlreadyAtFirst);
    assert_eq!(s.step(SessionCommand::Confirm, 0, 0), SessionAction::NoAudio);
    assert_eq!(s.idx, 0);
    assert_eq!(s.step(SessionCommand::Confirm, 0, 4), SessionAction::Confirmed { frames: 4 });
    assert_eq!(s.idx, 1);
    assert_eq!(s.step(SessionCommand::Rerecord, 2, 2), SessionAction::Rerecord { clear: 1 });
    assert_eq!(s.step(SessionCommand::Back, 2, 2), SessionAction::MovedBack { clear: 0 });
    assert_eq!(s.idx, 0);
    assert_eq!(s.step(SessionCommand::Confirm, 1, 3), SessionAction::Confirmed { frames: 2 });
    assert_eq!(s.step(SessionCommand::Confirm, 0, 1), SessionAction::Confirmed { frames: 1 });
    assert!(s.is_done());
    let mut q = RecordingSession::new(3);
    assert_eq!(q.step(SessionCommand::Quit, 0, 9), SessionAction::Quit);
    assert_eq!(q.idx, 0);
}

#[test]
fn session_ignores_frame_counts_unless_confirming() {
    let mut s = RecordingSession::new(3);
    assert_eq!(s.step(SessionCommand::Confirm, 0, 5), SessionAction::Confirmed { frames: 5 });
    assert_eq!(s.step(SessionCommand::Back, 7, 0), SessionAction::MovedBack { clear: 0 });
    assert_eq!(s.step(SessionCommand::Rerecord, 7, 0), SessionAction::Rerecord { clear: 0 });
    assert_eq!(s.step(SessionCommand::Quit, 7, 0), SessionAction::Quit);
    assert_eq!(s.idx, 0);
}
