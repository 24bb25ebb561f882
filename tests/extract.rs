use cmd_bot::options::{BotOptions, ConfigError, Extraction};

fn prefix_opts(prefix: &str, ignore_caps: bool) -> BotOptions {
    BotOptions::new(prefix, "", ignore_caps).unwrap()
}

fn suffix_opts(suffix: &str, ignore_caps: bool) -> BotOptions {
    BotOptions::new("", suffix, ignore_caps).unwrap()
}

fn matched(trigger: &str, args: &str) -> Extraction {
    Extraction::Matched { trigger: trigger.to_string(), args: args.to_string() }
}

#[test]
fn blank_text_is_no_trigger() {
    let p = prefix_opts("!", false);
    let s = suffix_opts("?", false);
    for raw in ["", " ", "   \t\n ", "\u{3000}"] {
        assert_eq!(p.extract(raw), Extraction::NotATrigger);
        assert_eq!(s.extract(raw), Extraction::NotATrigger);
    }
}

#[test]
fn prefix_bare_command() {
    let o = prefix_opts("!", false);
    assert_eq!(o.extract("!ping"), matched("ping", ""));
}

#[test]
fn prefix_command_with_args() {
    let o = prefix_opts("!", false);
    assert_eq!(o.extract("!ping hello world"), matched("ping", "hello world"));
}

#[test]
fn prefix_missing_is_no_trigger() {
    let o = prefix_opts("!", false);
    assert_eq!(o.extract("ping"), Extraction::NotATrigger);
}

#[test]
fn prefix_only_on_first_word() {
    let o = prefix_opts("!", false);
    assert_eq!(o.extract("say !ping"), Extraction::NotATrigger);
}

#[test]
fn prefix_surrounding_whitespace_trimmed() {
    let o = prefix_opts("!", false);
    assert_eq!(o.extract("  \t!ping   a  b \n"), matched("ping", "a  b"));
}

#[test]
fn prefix_alone_gives_empty_trigger() {
    let o = prefix_opts("!", false);
    assert_eq!(o.extract("!"), matched("", ""));
    assert_eq!(o.extract("! hello"), matched("", "hello"));
}

#[test]
fn text_shorter_than_prefix_is_no_trigger() {
    let o = prefix_opts("!!!", false);
    assert_eq!(o.extract("!!"), Extraction::NotATrigger);
    let s = suffix_opts("???", false);
    assert_eq!(s.extract("?"), Extraction::NotATrigger);
}

#[test]
fn multibyte_prefix() {
    let o = prefix_opts("»", false);
    assert_eq!(o.extract("»héllo wörld"), matched("héllo", "wörld"));
}

#[test]
fn suffix_command_with_args() {
    let o = suffix_opts("?", false);
    assert_eq!(o.extract("weather now?"), matched("weather", "now"));
}

#[test]
fn suffix_missing_is_no_trigger() {
    let o = suffix_opts("?", false);
    assert_eq!(o.extract("weather now"), Extraction::NotATrigger);
}

#[test]
fn suffix_trigger_keeps_the_suffix_on_a_single_word() {
    // The trigger is the first word as it stands, so a one-word message keeps its suffix.
    let o = suffix_opts("?", false);
    assert_eq!(o.extract("ping?"), matched("ping?", ""));
}

#[test]
fn suffix_args_trimmed_on_both_sides() {
    let o = suffix_opts("please", false);
    assert_eq!(o.extract("weather   in  Paris   please"), matched("weather", "in  Paris"));
}

#[test]
fn case_insensitive_prefix_lowercases_trigger_not_args() {
    let o = prefix_opts("!", true);
    assert_eq!(o.extract("!PING Hello"), matched("ping", "Hello"));
}

#[test]
fn case_insensitive_suffix() {
    let o = suffix_opts("PLS", true);
    assert_eq!(o.suffix, "pls");
    assert_eq!(o.extract("Roll d20 pls"), matched("roll", "d20"));
    assert_eq!(o.extract("Roll d20 PLS"), Extraction::NotATrigger);
}

#[test]
fn options_lowercase_only_the_active_marker() {
    let o = BotOptions::new("HEY!", "SFX", true).unwrap();
    assert_eq!(o.prefix, "hey!");
    assert_eq!(o.suffix, "SFX");
    assert!(o.ignore_caps);
    assert!(o.is_prefix_mode());
    let s = BotOptions::new("", "?X", false).unwrap();
    assert_eq!(s.suffix, "?X");
    assert!(!s.is_prefix_mode());
}

#[test]
fn options_without_marker_are_refused() {
    assert_eq!(BotOptions::new("", "", false).err(), Some(ConfigError::NoMarker));
    assert_eq!(BotOptions::new("", "", true).err(), Some(ConfigError::NoMarker));
}

#[test]
fn prefix_round_trip_on_examples() {
    let o = prefix_opts("!", false);
    for raw in ["!ping", "  !ping   hello   world ", "!echo\t a", "! x", "!a\tb"] {
        if let Extraction::Matched { trigger, args } = o.extract(raw) {
            let rebuilt = if args.is_empty() {
                format!("!{}", trigger)
            } else {
                format!("!{} {}", trigger, args)
            };
            assert_eq!(o.extract(&rebuilt), Extraction::Matched { trigger, args });
        } else {
            panic!("expected a match for {:?}", raw);
        }
    }
}
