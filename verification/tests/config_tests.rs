use augenblick::config::{
    default_config_path, parse_color, CliOverrides, Config, DEFAULT_ANIMATION_FRAMES,
    DEFAULT_COLOR, DEFAULT_SLEEP_SECS,
};

fn reference_parse_color(s: &str) -> Option<u32> {
    let s = s.trim_start_matches('#');
    u32::from_str_radix(s, 16).ok().filter(|&v| v <= 0xFFFFFF)
}

#[test]
fn parse_color_plain_and_hashed() {
    assert_eq!(parse_color("ff0000"), Some(0xff0000));
    assert_eq!(parse_color("#ff0000"), Some(0xff0000));
    assert_eq!(parse_color("#00FF00"), Some(0x00ff00));
    assert_eq!(parse_color("#000000"), Some(0));
    assert_eq!(parse_color("#FFFFFF"), Some(0xFFFFFF));
}

#[test]
fn parse_color_many_hashes_and_short_forms() {
    assert_eq!(parse_color("###abc"), Some(0xabc));
    assert_eq!(parse_color("#f"), Some(0xf));
    assert_eq!(parse_color("#+ff"), Some(0xff));
}

#[test]
fn parse_color_rejects() {
    assert_eq!(parse_color(""), None);
    assert_eq!(parse_color("#"), None);
    assert_eq!(parse_color("#+"), None);
    assert_eq!(parse_color("#-1"), None);
    assert_eq!(parse_color("#1000000"), None);
    assert_eq!(parse_color("#ffffffff"), None);
    assert_eq!(parse_color("#1ffffffff"), None);
    assert_eq!(parse_color("#gg0000"), None);
    assert_eq!(parse_color(" #ff0000"), None);
    assert_eq!(parse_color("#ff 00"), None);
    assert_eq!(parse_color("#ä"), None);
}

#[test]
fn parse_color_agrees_with_std() {
    let samples = [
        "", "#", "##", "+", "#+", "++1", "#+0", "-0", "0", "00000000000000000000ff", "#fFfFfF",
        "1000000", "FFFFFF", "#123456", "#12345g", "x1", "0x10", "#\u{0660}", "#+-1", "#abcdef0",
        "ffffffff", "100000000", "#0000000000000", "  ", "#a#b",
    ];
    for s in samples.iter() {
        assert_eq!(parse_color(s), reference_parse_color(s), "input {:?}", s);
    }
}

#[test]
fn defaults_of_empty_config() {
    let cfg = Config::default();
    assert_eq!(cfg.sleep_secs(), 240);
    assert_eq!(cfg.animation_frames(), 20);
    assert_eq!(cfg.color(), 0);
    assert_eq!(DEFAULT_SLEEP_SECS, 240);
    assert_eq!(DEFAULT_ANIMATION_FRAMES, 20);
    assert_eq!(DEFAULT_COLOR, 0);
}

#[test]
fn configured_values_are_used() {
    let cfg = Config {
        sleep_secs: Some(30),
        animation_frames: Some(5),
        color: Some("#ff0000".to_string()),
    };
    assert_eq!(cfg.sleep_secs(), 30);
    assert_eq!(cfg.animation_frames(), 5);
    assert_eq!(cfg.color(), 0xff0000);
}

#[test]
fn invalid_color_falls_back_to_default() {
    let cfg = Config { sleep_secs: None, animation_frames: None, color: Some("red".to_string()) };
    assert_eq!(cfg.color(), DEFAULT_COLOR);
    let cfg = Config { sleep_secs: None, animation_frames: None, color: Some("#1000000".to_string()) };
    assert_eq!(cfg.color(), DEFAULT_COLOR);
}

#[test]
fn overrides_win_over_config() {
    let mut cfg = Config {
        sleep_secs: Some(30),
        animation_frames: Some(5),
        color: Some("#ff0000".to_string()),
    };
    let over = CliOverrides {
        sleep_secs: Some(60),
        animation_frames: None,
        color: Some("00ff00".to_string()),
    };
    cfg.apply_overrides(&over);
    assert_eq!(cfg.sleep_secs, Some(60));
    assert_eq!(cfg.animation_frames, Some(5));
    assert_eq!(cfg.color.as_deref(), Some("00ff00"));
    assert_eq!(cfg.sleep_secs(), 60);
    assert_eq!(cfg.animation_frames(), 5);
    assert_eq!(cfg.color(), 0x00ff00);
}

#[test]
fn overrides_fill_missing_config() {
    let mut cfg = Config::default();
    let over = CliOverrides { sleep_secs: None, animation_frames: Some(7), color: None };
    cfg.apply_overrides(&over);
    assert_eq!(cfg.sleep_secs, None);
    assert_eq!(cfg.animation_frames, Some(7));
    assert_eq!(cfg.color, None);
}

#[test]
fn empty_overrides_change_nothing() {
    let mut cfg = Config { sleep_secs: Some(9), animation_frames: None, color: Some("#abc".to_string()) };
    cfg.apply_overrides(&CliOverrides::default());
    assert_eq!(cfg.sleep_secs, Some(9));
    assert_eq!(cfg.animation_frames, None);
    assert_eq!(cfg.color.as_deref(), Some("#abc"));
}

#[test]
fn applying_overrides_twice_is_applying_once() {
    let over = CliOverrides { sleep_secs: Some(1), animation_frames: None, color: Some("#1".to_string()) };
    let mut once = Config { sleep_secs: Some(2), animation_frames: Some(3), color: None };
    once.apply_overrides(&over);
    let mut twice = Config { sleep_secs: Some(2), animation_frames: Some(3), color: None };
    twice.apply_overrides(&over);
    twice.apply_overrides(&over);
    assert_eq!(once.sleep_secs, twice.sleep_secs);
    assert_eq!(once.animation_frames, twice.animation_frames);
    assert_eq!(once.color, twice.color);
}

#[test]
fn later_overrides_win() {
    let mut cfg = Config::default();
    cfg.apply_overrides(&CliOverrides { sleep_secs: Some(1), animation_frames: Some(2), color: None });
    cfg.apply_overrides(&CliOverrides { sleep_secs: Some(3), animation_frames: None, color: None });
    assert_eq!(cfg.sleep_secs(), 3);
    assert_eq!(cfg.animation_frames(), 2);
}

#[test]
fn config_path_under_home() {
    assert_eq!(default_config_path("/home/ann"), "/home/ann/.config/augenblick/augenblick.toml");
    assert_eq!(default_config_path("."), "./.config/augenblick/augenblick.toml");
    assert_eq!(default_config_path(""), "/.config/augenblick/augenblick.toml");
}

#[test]
fn summary_line_matches_format() {
    let cfgs = [
        Config::default(),
        Config { sleep_secs: Some(0), animation_frames: Some(0), color: Some("#ff0000".to_string()) },
        Config {
            sleep_secs: Some(u64::MAX),
            animation_frames: Some(u32::MAX),
            color: Some("#abcdef".to_string()),
        },
        Config { sleep_secs: Some(10), animation_frames: Some(100), color: Some("#0a0".to_string()) },
        Config { sleep_secs: Some(1234567890), animation_frames: Some(9), color: Some("zz".to_string()) },
    ];
    for cfg in cfgs.iter() {
        let expected = format!(
            "augenblick: blink every {} seconds, animation {} frames, color #{:06X}",
            cfg.sleep_secs(),
            cfg.animation_frames(),
            cfg.color(),
        );
        assert_eq!(cfg.summary(), expected);
    }
}

#[test]
fn summary_of_defaults() {
    assert_eq!(
        Config::default().summary(),
        "augenblick: blink every 240 seconds, animation 20 frames, color #000000"
    );
}

#[test]
fn color_text_round_trip() {
    for c in [0u32, 1, 0xabcdef, 0xFFFFFF, 0x00ff00, 0x10].iter() {
        let text = format!("#{:06X}", c);
        assert_eq!(parse_color(&text), Some(*c));
    }
}

#[test]
fn parse_color_ignores_case() {
    assert_eq!(parse_color("#FFAA00"), Some(0xFFAA00));
    assert_eq!(parse_color("#ffaa00"), Some(0xFFAA00));
    for s in ["#AbCdEf", "#+fF", "#gG", "##1a2B3c", "#1000000"].iter() {
        assert_eq!(parse_color(&s.to_ascii_lowercase()), parse_color(s));
        assert_eq!(parse_color(&s.to_ascii_uppercase()), parse_color(s));
    }
}
