use augenblick::cli::{parse_args, Command};

fn run(args: &[&str]) -> Result<Command, String> {
    let v: Vec<String> = args.iter().map(|s| s.to_string()).collect();
    parse_args(&v, "/home/u/.config/augenblick/augenblick.toml".to_string())
}

#[test]
fn no_arguments_runs_with_defaults() {
    match run(&[]) {
        Ok(Command::Run(a)) => {
            assert_eq!(a.config_path, "/home/u/.config/augenblick/augenblick.toml");
            assert_eq!(a.overrides.sleep_secs, None);
            assert_eq!(a.overrides.animation_frames, None);
            assert_eq!(a.overrides.color, None);
        },
        _ => panic!("expected a run"),
    }
}

#[test]
fn all_options_are_read() {
    match run(&["-c", "/tmp/x.toml", "--sleep_secs", "30", "--animation_frames", "+5", "--color", "#ff0000"]) {
        Ok(Command::Run(a)) => {
            assert_eq!(a.config_path, "/tmp/x.toml");
            assert_eq!(a.overrides.sleep_secs, Some(30));
            assert_eq!(a.overrides.animation_frames, Some(5));
            assert_eq!(a.overrides.color.as_deref(), Some("#ff0000"));
        },
        _ => panic!("expected a run"),
    }
}

#[test]
fn later_option_wins() {
    match run(&["--sleep_secs", "5", "--sleep_secs", "7", "-c", "a", "-c", "b"]) {
        Ok(Command::Run(a)) => {
            assert_eq!(a.overrides.sleep_secs, Some(7));
            assert_eq!(a.config_path, "b");
        },
        _ => panic!("expected a run"),
    }
}

#[test]
fn value_may_look_like_an_option() {
    match run(&["--color", "--help"]) {
        Ok(Command::Run(a)) => assert_eq!(a.overrides.color.as_deref(), Some("--help")),
        _ => panic!("expected a run"),
    }
}

#[test]
fn version_and_help() {
    assert!(matches!(run(&["--version"]), Ok(Command::ShowVersion)));
    assert!(matches!(run(&["-V"]), Ok(Command::ShowVersion)));
    assert!(matches!(run(&["--help"]), Ok(Command::ShowHelp)));
    assert!(matches!(run(&["-h", "--bogus"]), Ok(Command::ShowHelp)));
    assert!(matches!(run(&["--sleep_secs", "3", "-h"]), Ok(Command::ShowHelp)));
}

#[test]
fn earlier_error_comes_before_help() {
    assert_eq!(run(&["--bogus", "-h"]).err(), Some("unknown argument: --bogus".to_string()));
}

#[test]
fn missing_values() {
    assert_eq!(run(&["-c"]).err(), Some("-c requires a path".to_string()));
    assert_eq!(run(&["--sleep_secs"]).err(), Some("--sleep_secs requires a value".to_string()));
    assert_eq!(
        run(&["--animation_frames"]).err(),
        Some("--animation_frames requires a value".to_string())
    );
    assert_eq!(run(&["--color"]).err(), Some("--color requires a value".to_string()));
}

#[test]
fn bad_numbers() {
    assert_eq!(run(&["--sleep_secs", "abc"]).err(), Some("--sleep_secs must be a number".to_string()));
    assert_eq!(run(&["--sleep_secs", "-1"]).err(), Some("--sleep_secs must be a number".to_string()));
    assert_eq!(
        run(&["--sleep_secs", "18446744073709551616"]).err(),
        Some("--sleep_secs must be a number".to_string())
    );
    assert_eq!(
        run(&["--animation_frames", "4294967296"]).err(),
        Some("--animation_frames must be a number".to_string())
    );
    assert_eq!(
        run(&["--animation_frames", ""]).err(),
        Some("--animation_frames must be a number".to_string())
    );
}

#[test]
fn largest_numbers_are_accepted() {
    match run(&["--sleep_secs", "18446744073709551615", "--animation_frames", "4294967295"]) {
        Ok(Command::Run(a)) => {
            assert_eq!(a.overrides.sleep_secs, Some(u64::MAX));
            assert_eq!(a.overrides.animation_frames, Some(u32::MAX));
        },
        _ => panic!("expected a run"),
    }
}

#[test]
fn unknown_argument() {
    assert_eq!(run(&["blink"]).err(), Some("unknown argument: blink".to_string()));
    assert_eq!(run(&["--Help"]).err(), Some("unknown argument: --Help".to_string()));
}

#[test]
fn numbers_agree_with_std() {
    let samples = [
        "0", "7", "+7", "+", "-", "-0", "", "007", " 1", "1 ", "1_000", "99999999999999999999",
        "18446744073709551615", "18446744073709551616", "4294967295", "4294967296", "1e3", "+-1",
        "\u{0661}",
    ];
    for s in samples.iter() {
        let v: Vec<String> = vec!["--sleep_secs".to_string(), s.to_string()];
        let got = match parse_args(&v, String::new()) {
            Ok(Command::Run(a)) => a.overrides.sleep_secs,
            _ => None,
        };
        assert_eq!(got, s.parse::<u64>().ok(), "u64 input {:?}", s);
        let v: Vec<String> = vec!["--animation_frames".to_string(), s.to_string()];
        let got = match parse_args(&v, String::new()) {
            Ok(Command::Run(a)) => a.overrides.animation_frames,
            _ => None,
        };
        assert_eq!(got, s.parse::<u32>().ok(), "u32 input {:?}", s);
    }
}

#[test]
fn successful_command_line_takes_last_values() {
    match run(&["--color", "#111111", "-c", "first", "--animation_frames", "3", "--color", "abc"]) {
        Ok(Command::Run(a)) => {
            assert_eq!(a.config_path, "first");
            assert_eq!(a.overrides.sleep_secs, None);
            assert_eq!(a.overrides.animation_frames, Some(3));
            assert_eq!(a.overrides.color.as_deref(), Some("abc"));
        },
        _ => panic!("expected a run"),
    }
    assert_eq!(
        run(&["--sleep_secs", "x", "--sleep_secs", "5"]).err(),
        Some("--sleep_secs must be a number".to_string())
    );
}
