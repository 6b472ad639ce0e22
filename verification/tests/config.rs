use mmk::config::{usage, Config, ConfigError};
use mmk::text::{parse_decimal, same_text, starts_with_dash};

fn args(tokens: &[&str]) -> Vec<String> {
    tokens.iter().map(|t| t.to_string()).collect()
}

#[test]
fn empty_command_line_gives_defaults() {
    let cfg = Config::from_args(args(&[])).unwrap();
    assert!(!cfg.help);
    assert!(!cfg.all_windows);
    assert_eq!(cfg.layout, 0);
    assert_eq!(cfg.wid, None);
    assert_eq!(cfg.class, None);
    assert_eq!(cfg.pid, None);
    assert_eq!(cfg.name, None);
}

#[test]
fn default_config_selects_nothing() {
    let cfg = Config::default();
    assert!(!cfg.help && !cfg.all_windows);
    assert_eq!(cfg.layout, 0);
    assert!(cfg.wid.is_none() && cfg.class.is_none() && cfg.pid.is_none() && cfg.name.is_none());
}

#[test]
fn layout_and_name_as_in_the_help_text() {
    let cfg = Config::from_args(args(&["mmk", "--layout", "1", "--name", "MyWindow"])).unwrap();
    assert_eq!(cfg.layout, 1);
    assert_eq!(cfg.name, Some("MyWindow".to_string()));
    assert_eq!(cfg.wid, None);
    assert!(!cfg.all_windows);
}

#[test]
fn short_options_are_read() {
    let cfg = Config::from_args(args(&[
        "mmk", "-w", "42", "-c", "Term.term", "-p", "1234", "-n", "Editor", "-l", "2", "-a", "-h",
    ]))
    .unwrap();
    assert_eq!(cfg.wid, Some(42));
    assert_eq!(cfg.class, Some("Term.term".to_string()));
    assert_eq!(cfg.pid, Some(1234));
    assert_eq!(cfg.name, Some("Editor".to_string()));
    assert_eq!(cfg.layout, 2);
    assert!(cfg.all_windows);
    assert!(cfg.help);
}

#[test]
fn long_options_are_read() {
    let cfg = Config::from_args(args(&[
        "mmk",
        "--window",
        "7",
        "--class",
        "A.b",
        "--pid",
        "9",
        "--name",
        "N",
        "--layout",
        "3",
        "--all",
        "--help",
    ]))
    .unwrap();
    assert_eq!(cfg.wid, Some(7));
    assert_eq!(cfg.class, Some("A.b".to_string()));
    assert_eq!(cfg.pid, Some(9));
    assert_eq!(cfg.name, Some("N".to_string()));
    assert_eq!(cfg.layout, 3);
    assert!(cfg.all_windows);
    assert!(cfg.help);
}

#[test]
fn value_that_starts_with_a_dash_is_not_taken() {
    let cfg = Config::from_args(args(&["mmk", "-n", "-a"])).unwrap();
    assert_eq!(cfg.name, None);
    assert!(cfg.all_windows);
}

#[test]
fn option_at_the_end_lacks_its_value() {
    let cfg = Config::from_args(args(&["mmk", "-a", "-w"])).unwrap();
    assert_eq!(cfg.wid, None);
    assert!(cfg.all_windows);
}

#[test]
fn number_option_before_a_dash_is_not_parsed() {
    let cfg = Config::from_args(args(&["mmk", "-w", "-5"])).unwrap();
    assert_eq!(cfg.wid, None);
}

#[test]
fn later_option_overrides_earlier() {
    let cfg = Config::from_args(args(&["-l", "1", "-l", "2", "-n", "a", "-n", "b"])).unwrap();
    assert_eq!(cfg.layout, 2);
    assert_eq!(cfg.name, Some("b".to_string()));
}

#[test]
fn value_is_read_again_as_a_token() {
    // "--name" takes "x"; "x" is then no option; "-h" is one.
    let cfg = Config::from_args(args(&["--name", "x", "-h"])).unwrap();
    assert_eq!(cfg.name, Some("x".to_string()));
    assert!(cfg.help);
}

#[test]
fn unknown_tokens_are_ignored() {
    let cfg = Config::from_args(args(&["mmk", "--frobnicate", "stray", "-x"])).unwrap();
    assert!(!cfg.help && !cfg.all_windows);
    assert_eq!(cfg.layout, 0);
    assert!(cfg.wid.is_none() && cfg.class.is_none() && cfg.pid.is_none() && cfg.name.is_none());
}

#[test]
fn window_that_is_no_number_is_an_error() {
    assert_eq!(
        Config::from_args(args(&["mmk", "-w", "0x2a"])).unwrap_err(),
        ConfigError::InvalidWindow
    );
}

#[test]
fn window_that_does_not_fit_is_an_error() {
    assert_eq!(
        Config::from_args(args(&["mmk", "--window", "4294967296"])).unwrap_err(),
        ConfigError::InvalidWindow
    );
    assert_eq!(
        Config::from_args(args(&["mmk", "--window", "4294967295"])).unwrap().wid,
        Some(u32::MAX)
    );
}

#[test]
fn pid_that_is_no_number_is_an_error() {
    assert_eq!(
        Config::from_args(args(&["mmk", "-p", "12a"])).unwrap_err(),
        ConfigError::InvalidPid
    );
}

#[test]
fn layout_that_is_no_number_is_an_error() {
    assert_eq!(
        Config::from_args(args(&["mmk", "--layout", "one"])).unwrap_err(),
        ConfigError::InvalidLayout
    );
}

#[test]
fn first_error_wins() {
    assert_eq!(
        Config::from_args(args(&["-p", "x", "-w", "y"])).unwrap_err(),
        ConfigError::InvalidPid
    );
}

#[test]
fn error_after_valid_options_still_fails() {
    assert_eq!(
        Config::from_args(args(&["-a", "-n", "ok", "-l", "1.5"])).unwrap_err(),
        ConfigError::InvalidLayout
    );
}

#[test]
fn plus_sign_is_accepted_in_numbers() {
    let cfg = Config::from_args(args(&["-w", "+17", "-l", "+1"])).unwrap();
    assert_eq!(cfg.wid, Some(17));
    assert_eq!(cfg.layout, 1);
}

#[test]
fn from_args_agrees_with_std_parse() {
    for token in ["0", "007", "+0", "+", "", " 1", "1 ", "1_0", "٣", "4294967295", "99999999999"] {
        let got = Config::from_args(args(&["-p", token]));
        match token.parse::<u32>() {
            Ok(n) => assert_eq!(got.unwrap().pid, Some(n)),
            Err(_) => assert_eq!(got.unwrap_err(), ConfigError::InvalidPid),
        }
    }
}

#[test]
fn builders_set_one_field_each() {
    let cfg = Config::default()
        .with_wid(5)
        .with_class("C.i".to_string())
        .with_pid(6)
        .with_name("n".to_string())
        .with_layout(2);
    assert_eq!(cfg.wid, Some(5));
    assert_eq!(cfg.class, Some("C.i".to_string()));
    assert_eq!(cfg.pid, Some(6));
    assert_eq!(cfg.name, Some("n".to_string()));
    assert_eq!(cfg.layout, 2);
    assert!(!cfg.help && !cfg.all_windows);
    let cfg = cfg.with_help();
    assert!(cfg.help && !cfg.all_windows);
    let cfg = cfg.with_all_windows();
    assert!(cfg.help && cfg.all_windows);
    assert_eq!(cfg.wid, Some(5));
}

#[test]
fn usage_names_every_option() {
    let text = usage();
    assert!(text.starts_with("mmk(mimic)\n  use a different keyboard layout for a given window.\n"));
    for option in [
        "-h | --help",
        "-l | --layout",
        "-w | --window <wid>",
        "-c | --class <class>.<instance>",
        "-p | --pid <pid>",
        "-n | --name <name>",
        "-a | --all",
    ] {
        assert!(text.contains(option), "{}", option);
    }
    assert!(text.ends_with("3. the window should now receive the mimiced layout keys\n"));
    assert_eq!(text.lines().count(), 21);
}

#[test]
fn parse_decimal_reads_exact_values() {
    assert_eq!(parse_decimal("0", 10), Some(0));
    assert_eq!(parse_decimal("10", 10), Some(10));
    assert_eq!(parse_decimal("11", 10), None);
    assert_eq!(parse_decimal("18446744073709551615", u64::MAX), Some(u64::MAX));
    assert_eq!(parse_decimal("18446744073709551616", u64::MAX), None);
    assert_eq!(parse_decimal("000123", 1000), Some(123));
    assert_eq!(parse_decimal("+42", 100), Some(42));
}

#[test]
fn parse_decimal_rejects_what_is_no_number() {
    for text in ["", "+", "-1", "++1", "1+", "12 ", "a", "1e3", "é", "１２"] {
        assert_eq!(parse_decimal(text, u64::MAX), None, "{:?}", text);
    }
}

#[test]
fn same_text_compares_characters() {
    assert!(same_text("", ""));
    assert!(same_text("--window", "--window"));
    assert!(!same_text("--window", "--windows"));
    assert!(!same_text("-w", "-W"));
    assert!(same_text("naïve", "naïve"));
    assert!(!same_text("naïve", "naive"));
}

#[test]
fn starts_with_dash_looks_at_the_first_character() {
    assert!(starts_with_dash("-"));
    assert!(starts_with_dash("-w"));
    assert!(starts_with_dash("--all"));
    assert!(!starts_with_dash(""));
    assert!(!starts_with_dash("w-"));
    assert!(!starts_with_dash("–w"));
}
