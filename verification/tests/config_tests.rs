use stilch::config::parser::parse_config;
use stilch::config::{AccelProfile, ScrollMethod};
use stilch::text::Decimal;
use stilch::config::parser::{parse_config_reporting, parse_output, ConfigError};
use stilch::config::{keyboard_settings, Command, Config, Direction, Orientation, SplitType, WorkspaceTarget};

fn decimal_value(d: Decimal) -> f64 {
    let v = d.digits as f64 / 10f64.powi(d.frac_digits as i32);
    if d.negative {
        -v
    } else {
        v
    }
}

#[test]
fn test_parse_input_config_keyboard() {
    let config_str = r#"input type:keyboard { repeat_delay 200 repeat_rate 42 xkb_layout us xkb_variant altgr-intl }"#;

    let config = parse_config(config_str).unwrap();
    assert_eq!(config.input_configs.len(), 1);

    let input = &config.input_configs[0];
    assert_eq!(input.identifier, "type:keyboard");
    assert_eq!(input.repeat_delay, Some(200));
    assert_eq!(input.repeat_rate, Some(42));
    assert_eq!(input.xkb_layout.as_deref(), Some("us"));
    assert_eq!(input.xkb_variant.as_deref(), Some("altgr-intl"));
}

#[test]
fn test_parse_input_config_touchpad() {
    let config_str = r#"input type:touchpad { tap enabled natural_scroll disabled accel_speed 0.5 scroll_method two_finger }"#;

    let config = parse_config(config_str).unwrap();
    assert_eq!(config.input_configs.len(), 1);

    let input = &config.input_configs[0];
    assert_eq!(input.identifier, "type:touchpad");
    assert_eq!(input.tap, Some(true));
    assert_eq!(input.natural_scroll, Some(false));
    assert_eq!(input.accel_speed.map(decimal_value), Some(0.5));
    assert!(matches!(input.scroll_method, Some(ScrollMethod::TwoFinger)));
}

#[test]
fn test_parse_input_config_pointer() {
    let config_str = r#"input type:pointer { accel_profile flat left_handed yes middle_emulation enabled }"#;

    let config = parse_config(config_str).unwrap();
    assert_eq!(config.input_configs.len(), 1);

    let input = &config.input_configs[0];
    assert_eq!(input.identifier, "type:pointer");
    assert!(matches!(input.accel_profile, Some(AccelProfile::Flat)));
    assert_eq!(input.left_handed, Some(true));
    assert_eq!(input.middle_emulation, Some(true));
}

fn bound_command(line: &str) -> stilch::config::Command {
    let config = parse_config(&format!("bindsym Mod4+x {line}")).unwrap();
    assert_eq!(config.keybindings.len(), 1);
    config.keybindings[0].command.clone()
}

#[test]
fn fullscreen_words_of_the_readme() {
    assert!(matches!(bound_command("fullscreen container"), Command::FullscreenContainer));
    assert!(matches!(bound_command("fullscreen workspace"), Command::FullscreenVirtualOutput));
    assert!(matches!(bound_command("fullscreen global"), Command::FullscreenPhysicalOutput));
    assert!(matches!(bound_command("fullscreen"), Command::Fullscreen));
    assert!(matches!(bound_command("fullscreen other"), Command::Fullscreen));
}

#[test]
fn focus_mode_toggle_binds() {
    assert!(matches!(bound_command("focus mode_toggle"), Command::FocusModeToggle));
    assert!(matches!(bound_command("focus left"), Command::Focus(Direction::Left)));
    let config = parse_config("bindsym Mod4+x focus sideways").unwrap();
    assert_eq!(config.keybindings.len(), 0);
}

#[test]
fn workspace_number_reads_the_number() {
    assert!(matches!(bound_command("workspace number 1"), Command::Workspace(WorkspaceTarget::Number(1))));
    assert!(matches!(bound_command("workspace number 10"), Command::Workspace(WorkspaceTarget::Number(10))));
    assert!(matches!(
        bound_command("move container to workspace number 3"),
        Command::MoveToWorkspace(WorkspaceTarget::Number(3))
    ));
    match bound_command("workspace number mail") {
        Command::Workspace(WorkspaceTarget::Name(n)) => assert_eq!(n, "mail"),
        other => panic!("unexpected {:?}", other),
    }
    match bound_command("workspace number") {
        Command::Workspace(WorkspaceTarget::Name(n)) => assert_eq!(n, "number"),
        other => panic!("unexpected {:?}", other),
    }
    assert!(matches!(bound_command("workspace 2"), Command::Workspace(WorkspaceTarget::Number(2))));
}

#[test]
fn virtual_output_split_grid() {
    let config = parse_config("output DP-1 scale 2\nvirtual_output DP-1 split 3x2").unwrap();
    assert_eq!(config.outputs.len(), 1);
    assert_eq!(config.outputs[0].name, "DP-1");
    assert_eq!(config.outputs[0].scale.map(decimal_value), Some(2.0));
    assert!(matches!(config.outputs[0].split, Some((SplitType::Grid(2, 3), 6))));
    let config = parse_config("virtual_output DP-2 split 2x2").unwrap();
    assert_eq!(config.outputs.len(), 1);
    assert_eq!(config.outputs[0].name, "DP-2");
    assert!(matches!(config.outputs[0].split, Some((SplitType::Grid(2, 2), 4))));
    let config = parse_config("virtual_output DP-2 split 6x2\nvirtual_output DP-2 split two").unwrap();
    assert_eq!(config.outputs.len(), 0);
}

#[test]
fn virtual_output_merge() {
    let config = parse_config("virtual_output HDMI-1,HDMI-2 merge horizontal").unwrap();
    assert_eq!(config.virtual_outputs.len(), 1);
    let vo = &config.virtual_outputs[0];
    assert_eq!(vo.name, "HDMI-1,HDMI-2");
    assert_eq!(vo.outputs, vec!["HDMI-1".to_string(), "HDMI-2".to_string()]);
    assert!(vo.region.is_none());
    assert!(matches!(vo.merge, Some(Orientation::Horizontal)));
    let config = parse_config("virtual_output A,B merge diagonal").unwrap();
    assert_eq!(config.virtual_outputs.len(), 0);
    let config = parse_config("virtual_output MyVirtual outputs DP-1 region 0,0,1920,1080").unwrap();
    assert_eq!(config.virtual_outputs.len(), 1);
    assert!(config.virtual_outputs[0].merge.is_none());
}

#[test]
fn focus_follows_mouse_line() {
    let config = parse_config("focus_follows_mouse no").unwrap();
    assert!(!config.focus_follows_mouse());
    let config = parse_config("focus_follows_mouse yes").unwrap();
    assert!(config.focus_follows_mouse());
    let config = parse_config("").unwrap();
    assert!(config.focus_follows_mouse());
}

#[test]
fn scale_with_exponent() {
    let config = parse_config("output DP-1 scale 1e0").unwrap();
    assert_eq!(config.outputs[0].scale.map(decimal_value), Some(1.0));
    let config = parse_config("output DP-1 scale 2.5E-1").unwrap();
    assert_eq!(config.outputs.len(), 0);
    let config = parse_config("output DP-1 scale 15e-1").unwrap();
    assert_eq!(config.outputs[0].scale.map(decimal_value), Some(1.5));
    let config = parse_config("output DP-1 scale 0.04e2").unwrap();
    assert_eq!(config.outputs[0].scale.map(decimal_value), Some(4.0));
    let config = parse_config("output DP-1 scale inf").unwrap();
    assert_eq!(config.outputs.len(), 0);
}

#[test]
fn scale_errors_name_the_reason() {
    let words = |s: &str| -> Vec<Vec<char>> { s.split_whitespace().map(|w| w.chars().collect()).collect() };
    let mut c = Config::default();
    assert_eq!(parse_output(&mut c, &words("DP-1 scale inf")), Err(ConfigError::ScaleOutOfRange));
    assert_eq!(parse_output(&mut c, &words("DP-1 scale NaN")), Err(ConfigError::ScaleOutOfRange));
    assert_eq!(parse_output(&mut c, &words("DP-1 scale 5")), Err(ConfigError::ScaleOutOfRange));
    assert_eq!(parse_output(&mut c, &words("DP-1 scale big")), Err(ConfigError::InvalidScale("big".to_string())));
    assert_eq!(parse_output(&mut c, &words("DP-1 scale 1e")), Err(ConfigError::InvalidScale("1e".to_string())));
    assert_eq!(ConfigError::ScaleOutOfRange.to_string(), "Scale must be between 0.5 and 4.0");
    assert_eq!(c.outputs.len(), 0);
    assert_eq!(parse_output(&mut c, &words("DP-1 scale 2e0")), Ok(()));
    assert_eq!(c.outputs.len(), 1);
}

#[test]
fn crossed_input_braces_are_skipped() {
    let (config, warnings) = parse_config_reporting("input kb } x {\ngaps inner 4");
    assert_eq!(config.input_configs.len(), 0);
    assert_eq!(config.gaps.inner, Some(4));
    assert_eq!(warnings.len(), 1);
    assert_eq!(warnings[0].error, ConfigError::InputBracesCrossed);
}

#[test]
fn keyboard_settings_from_config() {
    let k = keyboard_settings(&parse_config("").unwrap());
    assert_eq!((k.delay, k.rate), (200, 25));
    assert_eq!(k.layout, "");
    assert!(k.options.is_none());
    let config = parse_config(
        "input type:touchpad { repeat_delay 1 }\ninput * { repeat_rate 40 xkb_layout de xkb_options caps:escape }\ninput type:keyboard { repeat_delay 300 }",
    )
    .unwrap();
    let k = keyboard_settings(&config);
    assert_eq!((k.delay, k.rate), (200, 40));
    assert_eq!(k.layout, "de");
    assert_eq!(k.variant, "");
    assert_eq!(k.options.as_deref(), Some("caps:escape"));
}

#[test]
fn config_error_texts() {
    assert_eq!(ConfigError::UnknownDirection("x".to_string()).to_string(), "Unknown direction: x");
    assert_eq!(ConfigError::EmptyCommand.to_string(), "Empty command");
    assert_eq!(
        ConfigError::InvalidTransform("45".to_string()).to_string(),
        "Invalid transform value: 45. Valid values are: normal, 90, 180, 270, flipped, flipped-90, flipped-180, flipped-270"
    );
}

#[test]
fn errors_name_the_word_at_fault() {
    let (_, warnings) = parse_config_reporting(
        "bindsym Mod4+x focus sideways\nbindsym Hyper+x kill\nbindsym $nope+x kill\noutput DP-1 resolution 19x20x1\noutput DP-1 position 1,y\nvirtual_output V outputs A region 0,0,w,1\ngaps inner lots",
    );
    let texts: Vec<String> = warnings.iter().map(|w| w.error.to_string()).collect();
    assert_eq!(
        texts,
        vec![
            "Unknown direction: sideways".to_string(),
            "Unknown modifier: Hyper".to_string(),
            "Unknown variable: $nope".to_string(),
            "Invalid resolution format: 19x20x1".to_string(),
            "Invalid y position: y".to_string(),
            "Invalid width: w".to_string(),
            "Invalid integer: lots".to_string(),
        ]
    );
}

#[test]
fn long_fractions_keep_eighteen_places() {
    let config = parse_config("output DP-1 scale 1.0000000000000000001").unwrap();
    assert_eq!(config.outputs[0].scale.map(decimal_value), Some(1.0));
    let config = parse_config("output DP-1 scale 4.00000000000000000001").unwrap();
    assert_eq!(config.outputs.len(), 1);
    let config = parse_config("input t { accel_speed 1e-20 }").unwrap();
    assert_eq!(config.input_configs[0].accel_speed.map(decimal_value), Some(0.0));
    let config = parse_config("input t { accel_speed -0.25 }").unwrap();
    assert_eq!(config.input_configs[0].accel_speed.map(decimal_value), Some(-0.25));
}
