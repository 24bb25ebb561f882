use cmd_bot::bot::{Bot, Command};
use cmd_bot::options::BotOptions;

type Handler = fn(&str) -> String;

fn pong(args: &str) -> String {
    format!("pong {}", args)
}

fn echo(args: &str) -> String {
    args.to_string()
}

fn shout(args: &str) -> String {
    args.to_uppercase()
}

fn bot(prefix: &str, suffix: &str, ignore_caps: bool) -> Bot<Handler> {
    Bot::new(BotOptions::new(prefix, suffix, ignore_caps).unwrap())
}

#[test]
fn dispatches_to_registered_handler() {
    let mut b = bot("!", "", false);
    b.on("ping", Command { reply: pong as Handler });
    assert_eq!(b.handle("!ping there"), Some("pong there".to_string()));
    assert_eq!(b.handle("!ping"), Some("pong ".to_string()));
}

#[test]
fn case_insensitive_registration_and_lookup() {
    let mut b = bot("!", "", true);
    b.on("Ping", Command { reply: pong as Handler });
    assert_eq!(b.handle("!PING"), Some("pong ".to_string()));
    assert_eq!(b.handle("!pInG x"), Some("pong x".to_string()));
    assert!(b.lookup("ping").is_some());
    assert!(b.lookup("Ping").is_none());
}

#[test]
fn case_sensitive_lookup_is_exact() {
    let mut b = bot("!", "", false);
    b.on("Ping", Command { reply: pong as Handler });
    assert_eq!(b.handle("!ping"), None);
    assert_eq!(b.handle("!Ping"), Some("pong ".to_string()));
}

#[test]
fn last_registration_wins() {
    let mut b = bot("!", "", true);
    b.on("say", Command { reply: echo as Handler });
    b.on("SAY", Command { reply: shout as Handler });
    assert_eq!(b.handle("!say hi"), Some("HI".to_string()));
    let mut c = bot("!", "", false);
    c.on("say", Command { reply: shout as Handler });
    c.on("say", Command { reply: echo as Handler });
    assert_eq!(c.handle("!say hi"), Some("hi".to_string()));
}

#[test]
fn unknown_command_sends_nothing() {
    let mut b = bot("!", "", false);
    b.on("ping", Command { reply: pong as Handler });
    assert_eq!(b.handle("!pong"), None);
    assert!(b.lookup("pong").is_none());
}

#[test]
fn non_command_sends_nothing() {
    let mut b = bot("!", "", false);
    b.on("ping", Command { reply: pong as Handler });
    assert_eq!(b.handle("ping"), None);
    assert_eq!(b.handle("   "), None);
    assert_eq!(b.handle(""), None);
}

#[test]
fn suffix_mode_dispatch() {
    let mut b = bot("", "?", false);
    b.on("weather", Command { reply: echo as Handler });
    assert_eq!(b.handle("weather now?"), Some("now".to_string()));
    assert_eq!(b.handle("weather now"), None);
    assert!(!b.uses_prefix());
}

#[test]
fn bot_reports_its_options() {
    let b = bot("!", "", false);
    assert!(b.uses_prefix());
    assert_eq!(b.bot_options().prefix, "!");
}
