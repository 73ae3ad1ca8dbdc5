use synd::config::Config;
use synd::{ConfigIssue, IntParseError, parse_config_text};

fn parse(text: &str) -> (Config, Vec<ConfigIssue>) {
    parse_config_text(text).expect("the text can be parsed")
}

#[test]
fn empty_text_gives_defaults() {
    let (c, issues) = parse("");
    assert_eq!(c.fetch_interval, 600);
    assert!(c.action.is_none());
    assert_eq!(c.removal_threshold, Some(90 * 86400));
    assert_eq!(c.max_summary_length, 240);
    assert_eq!(c.max_inferred_summary_length, 240);
    assert!(issues.is_empty());
}

#[test]
fn default_matches_empty_file() {
    let d = Config::default();
    let (c, _) = parse("// only a comment\n\n");
    assert_eq!(d.fetch_interval, c.fetch_interval);
    assert_eq!(d.removal_threshold, c.removal_threshold);
    assert_eq!(d.max_summary_length, c.max_summary_length);
}

#[test]
fn all_keys_are_read() {
    let text = "fetch interval = 30\naction = notify.nu\nremoval threshold = 7\nmax summary length = 100\nmax inferred summary length = 50\n";
    let (c, issues) = parse(text);
    assert_eq!(c.fetch_interval, 30);
    assert_eq!(c.action.as_deref(), Some("notify.nu"));
    assert_eq!(c.removal_threshold, Some(7 * 86400));
    assert_eq!(c.max_summary_length, 100);
    assert_eq!(c.max_inferred_summary_length, 50);
    assert!(issues.is_empty());
}

#[test]
fn comments_and_whitespace_are_ignored() {
    let text = "   fetch interval = 45   // very cute comment\r\n\tmax summary length = 12 //x\n";
    let (c, issues) = parse(text);
    assert_eq!(c.fetch_interval, 45);
    assert_eq!(c.max_summary_length, 12);
    assert!(issues.is_empty());
}

#[test]
fn removal_threshold_in_seconds_and_disabled() {
    let (c, _) = parse("removal threshold = 90s");
    assert_eq!(c.removal_threshold, Some(90));
    let (c, _) = parse("removal threshold = 0");
    assert_eq!(c.removal_threshold, None);
    let (c, _) = parse("removal threshold = 0s");
    assert_eq!(c.removal_threshold, None);
}

#[test]
fn later_line_wins() {
    let (c, _) = parse("fetch interval = 10\nfetch interval = 20");
    assert_eq!(c.fetch_interval, 20);
}

#[test]
fn lines_without_separator_are_ignored() {
    let (c, issues) = parse("fetch interval=10\nfetch interval =10\nnonsense");
    assert_eq!(c.fetch_interval, 600);
    assert!(issues.is_empty());
}

#[test]
fn invalid_fetch_interval_is_reported() {
    let (c, issues) = parse("fetch interval = ten");
    assert_eq!(c.fetch_interval, 600);
    assert_eq!(issues.len(), 1);
    match &issues[0] {
        ConfigIssue::InvalidAssignment { var, ass, error } => {
            assert_eq!(var, "fetch interval");
            assert_eq!(ass, "ten");
            assert_eq!(*error, IntParseError::InvalidDigit);
        }
        _ => panic!("wrong issue"),
    }
}

#[test]
fn invalid_numbers_are_reported() {
    let (c, issues) =
        parse("removal threshold = xs\nmax summary length = -1\nmax inferred summary length = 99999999999999999999999");
    assert_eq!(c.removal_threshold, Some(90 * 86400));
    assert_eq!(c.max_summary_length, 240);
    assert_eq!(issues.len(), 3);
    match &issues[0] {
        ConfigIssue::InvalidNumber { var, error } => {
            assert_eq!(var, "removal threshold");
            assert_eq!(*error, IntParseError::InvalidDigit);
        }
        _ => panic!("wrong issue"),
    }
    match &issues[2] {
        ConfigIssue::InvalidNumber { error, .. } => assert_eq!(*error, IntParseError::PosOverflow),
        _ => panic!("wrong issue"),
    }
}

#[test]
fn unknown_key_is_reported() {
    let (_, issues) = parse("colour = blue");
    assert_eq!(issues.len(), 1);
    match &issues[0] {
        ConfigIssue::UnknownVariable { var } => assert_eq!(var, "colour"),
        _ => panic!("wrong issue"),
    }
}

#[test]
fn value_may_hold_the_separator() {
    let (c, _) = parse("action = a = b");
    assert_eq!(c.action.as_deref(), Some("a = b"));
}

#[test]
fn overflowing_threshold_in_days_is_refused() {
    assert!(parse_config_text("removal threshold = 18446744073709551615").is_none());
    assert!(parse_config_text("removal threshold = 213503982334601").is_some());
    assert!(parse_config_text("removal threshold = 213503982334602").is_none());
    assert!(parse_config_text("removal threshold = 18446744073709551615s").is_some());
}

#[test]
fn update_from_config_pair_applies_one_pair() {
    let mut c = Config::default();
    assert!(c.update_from_config_pair("fetch interval", "5").is_none());
    assert_eq!(c.fetch_interval, 5);
    assert!(c.update_from_config_pair("removal threshold", "3").is_none());
    assert_eq!(c.removal_threshold, Some(3 * 86400));
    let issue = c.update_from_config_pair("fetch interval", "");
    assert!(matches!(
        issue,
        Some(ConfigIssue::InvalidAssignment { error: IntParseError::Empty, .. })
    ));
    assert_eq!(c.fetch_interval, 5);
}

#[test]
fn action_is_taken_in_the_config_dir() {
    let (c, _) = parse("action = notify.sh");
    assert_eq!(c.action_path("/home/u/.config/synd").as_deref(), Some("/home/u/.config/synd/notify.sh"));
    assert_eq!(c.action_path("/home/u/.config/synd/").as_deref(), Some("/home/u/.config/synd/notify.sh"));
    let (c, _) = parse("action = /usr/bin/notify");
    assert_eq!(c.action_path("/home/u/.config/synd").as_deref(), Some("/usr/bin/notify"));
    let (c, _) = parse("fetch interval = 5");
    assert!(c.action_path("/home/u/.config/synd").is_none());
}
