use ssh_notifier::config::{Config, User};
use ssh_notifier::doc::default_document;
use ssh_notifier::greet::{greeting_plan, GreetError};
use ssh_notifier::parser::SSHInfo;
use ssh_notifier::render::{formatted_now, notification_for, notify_content, render};

fn event(line: &str) -> SSHInfo {
    SSHInfo::parse(line)
}

const CANONICAL: &str =
    "Oct 01 12:00:00 host sshd-session[42]: Accepted publickey for alice from 10.0.0.5 port 1234 ssh2: ED25519 SHA256:ABC";

fn alice_config() -> Config {
    let mut config = Config::default();
    config.users.push(User {
        name: "alice".into(),
        key_fingerprints: vec!["SHA256:ABC".into()],
        no_notify: false,
        greeting: "hello".into(),
    });
    config
}

#[test]
fn canonical_line_extracts_all_fields() {
    let info = event(CANONICAL);
    assert_eq!(info.pid, "42");
    assert_eq!(info.user, "alice");
    assert_eq!(info.ip, "10.0.0.5");
    assert_eq!(info.fingerprint, "SHA256:ABC");
}

#[test]
fn missing_anchor_falls_back_alone() {
    // No `for ` anchor: the user alone falls back to its sentinel.
    let info = event(
        "Oct 01 12:00:00 host sshd-session[42]: Accepted publickey from 10.0.0.5 port 1234 ssh2: ED25519 SHA256:ABC",
    );
    assert_eq!(info.pid, "42");
    assert_eq!(info.user, "UNKNOWN");
    assert_eq!(info.ip, "10.0.0.5");
    assert_eq!(info.fingerprint, "SHA256:ABC");
}

#[test]
fn empty_line_yields_all_sentinels() {
    let info = event("");
    assert_eq!(info.pid, "");
    assert_eq!(info.user, "UNKNOWN");
    assert_eq!(info.ip, "UNKNOWN");
    assert_eq!(info.fingerprint, "NONE");
}

#[test]
fn empty_fingerprint_resolves_to_unknown() {
    let config = alice_config();
    let resolved = config.resolve("");
    assert_eq!(resolved.name, "UNKNOWN");
    assert!(resolved.key_fingerprints.is_empty());
    assert!(!resolved.no_notify);
    assert_eq!(resolved.greeting, "");
    assert!(config.verify_ssh("").is_none());
}

#[test]
fn duplicate_fingerprint_first_match_wins() {
    let mut config = Config::default();
    config.users.push(User {
        name: "A".into(),
        key_fingerprints: vec!["x".into(), "y".into()],
        ..Default::default()
    });
    config.users.push(User {
        name: "B".into(),
        key_fingerprints: vec!["y".into(), "z".into()],
        ..Default::default()
    });
    assert_eq!(config.resolve("y").name, "A");
    assert_eq!(config.resolve("z").name, "B");
    assert_eq!(config.resolve("w").name, "UNKNOWN");
}

#[test]
fn render_substitutes_name_and_time() {
    let info = event(CANONICAL);
    let config = alice_config();
    let identity = config.resolve("SHA256:ABC");
    assert_eq!(identity.name, "alice");
    let out = render(
        "{name} at {time}",
        &info,
        &identity,
        "2024-01-02T03:04:05+00:00",
    );
    assert_eq!(out, "alice at 2024-01-02T03:04:05+00:00");
}

#[test]
fn render_substitutes_every_token_and_keeps_strangers() {
    let info = event(CANONICAL);
    let config = alice_config();
    let identity = config.resolve("SHA256:ABC");
    let out = render("{name}|{ip}|{user}|{fpr}|{time}|{nope}", &info, &identity, "T");
    assert_eq!(out, "alice|10.0.0.5|alice|SHA256:ABC|T|{nope}");
}

#[test]
fn default_document_round_trips_to_defaults() {
    let text = default_document();
    let loaded = Config::from_kdl(&text).expect("the example document parses");
    let defaults = Config::default();
    assert_eq!(loaded.notify_title, defaults.notify_title);
    assert_eq!(
        loaded.notify_title_for_stranger,
        defaults.notify_title_for_stranger
    );
    assert_eq!(loaded.notify_message, defaults.notify_message);
    assert_eq!(
        loaded.notify_message_for_stranger,
        defaults.notify_message_for_stranger
    );
    assert_eq!(loaded.time_format, defaults.time_format);
    assert_eq!(loaded.users.len(), 0);
}

#[test]
fn configured_document_loads_identities() {
    let text = "notify-title \"Title!\"\ntime-format \"rfc2822\"\nusers {\n    alice {\n        fingerprint \"SHA256:ABC\" \"SHA256:DEF\"\n        greeting \"welcome back\"\n    }\n    bob {\n        fingerprint \"SHA256:XYZ\"\n        no-notify\n    }\n    ghost\n}\n";
    let config = Config::from_kdl(text).expect("well-formed document");
    assert_eq!(config.notify_title, "Title!");
    assert_eq!(config.time_format, "rfc2822");
    // A child without a children block declares nothing.
    assert_eq!(config.users.len(), 2);
    assert_eq!(config.users[0].name, "alice");
    assert_eq!(
        config.users[0].key_fingerprints,
        vec!["SHA256:ABC".to_string(), "SHA256:DEF".to_string()]
    );
    assert_eq!(config.users[0].greeting, "welcome back");
    assert!(!config.users[0].no_notify);
    assert_eq!(config.users[1].name, "bob");
    assert!(config.users[1].no_notify);
    assert_eq!(config.users[1].greeting, "");
}

#[test]
fn malformed_document_is_an_error() {
    assert!(Config::from_kdl("users {\n").is_err());
}

#[test]
fn end_to_end_known_user_selects_known_templates() {
    let info = event(CANONICAL);
    let config = alice_config();
    assert_eq!(info.pid, "42");
    assert_eq!(info.user, "alice");
    assert_eq!(info.ip, "10.0.0.5");
    assert_eq!(info.fingerprint, "SHA256:ABC");
    let identity = config.resolve(&info.fingerprint);
    assert_eq!(identity.name, "alice");
    let (title, body) =
        notify_content(&config, &identity, &info, "now").expect("not suppressed");
    assert_eq!(title, "New ssh Connection");
    assert_eq!(body, "User alice logined alice at now");
}

#[test]
fn end_to_end_unknown_fingerprint_selects_stranger_templates() {
    let info = event(CANONICAL);
    let config = Config::default();
    let identity = config.resolve(&info.fingerprint);
    assert_eq!(identity.name, "UNKNOWN");
    assert!(!identity.no_notify);
    let (title, body) =
        notify_content(&config, &identity, &info, "now").expect("not suppressed");
    assert_eq!(title, "UNKNOWN SSH CONNECTION");
    assert_eq!(body, "Someone logined alice at now with fingerprint SHA256:ABC");
}

#[test]
fn suppressed_identity_yields_no_notification() {
    let mut config = Config::default();
    config.users.push(User {
        name: "quiet".into(),
        key_fingerprints: vec!["SHA256:ABC".into()],
        no_notify: true,
        greeting: String::new(),
    });
    let info = event(CANONICAL);
    let identity = config.resolve(&info.fingerprint);
    assert!(identity.no_notify);
    assert!(notify_content(&config, &identity, &info, "now").is_none());
}

#[test]
fn notification_for_renders_the_clock() {
    let info = event(CANONICAL);
    let config = alice_config();
    let identity = config.resolve(&info.fingerprint);
    let (title, body) = notification_for(&config, &identity, &info).expect("not suppressed");
    assert_eq!(title, "New ssh Connection");
    assert!(body.starts_with("User alice logined alice at "));
    // The rendered RFC 3339 time is never empty.
    assert!(body.len() > "User alice logined alice at ".len());
}

#[test]
fn title_placeholders_are_expanded() {
    let info = event(CANONICAL);
    let mut config = alice_config();
    config.notify_title = "{name} connected from {ip}".into();
    config.notify_title_for_stranger = "stranger {fpr} at {time}".into();
    let identity = config.resolve(&info.fingerprint);
    let (title, _) = notify_content(&config, &identity, &info, "now").expect("not suppressed");
    assert_eq!(title, "alice connected from 10.0.0.5");
    let stranger = Config {
        notify_title_for_stranger: config.notify_title_for_stranger.clone(),
        ..Config::default()
    };
    let unknown = stranger.resolve(&info.fingerprint);
    let (title, _) = notify_content(&stranger, &unknown, &info, "now").expect("not suppressed");
    assert_eq!(title, "stranger SHA256:ABC at now");
}

#[test]
fn time_formats_render_without_failing() {
    // The two named formats and a custom pattern.
    assert!(!formatted_now("rfc3339").is_empty());
    assert!(!formatted_now("rfc2822").is_empty());
    let year = formatted_now("%Y");
    assert_eq!(year.len(), 4);
    assert!(year.chars().all(|c| c.is_ascii_digit()));
    // A malformed pattern falls back to the RFC 3339 rendering.
    let fallback = formatted_now("%");
    assert!(fallback.contains('T'));
}

#[test]
fn greeting_plan_finds_the_terminal() {
    let table = "5 1000 carol seat0 41 user tty7 no -\n6 1000 alice seat0 42 user tty3 no -\n";
    let plan = greeting_plan("42", "hello", table).expect("session found");
    assert_eq!(plan.0, "tty3");
    assert_eq!(
        plan.1,
        "\x1b[s\x1b[4S\x1b[3F+-----------\nhello\x1b[u"
    );
}

#[test]
fn greeting_plan_reads_crlf_and_unterminated_tables() {
    // Carriage-return line endings are stripped before tokenizing, and a
    // last line without a newline is still read.
    let table = "5 1000 carol seat0 41 user tty7 no -\r\n6 1000 alice seat0 42 user tty3 no -";
    let plan = greeting_plan("41", "hi", table).expect("first session found");
    assert_eq!(plan.0, "tty7");
    let plan = greeting_plan("42", "hi", table).expect("second session found");
    assert_eq!(plan.0, "tty3");
}

#[test]
fn greet_error_messages_name_each_failure() {
    assert_eq!(
        GreetError::EmptyPid.message(),
        "unknown pid, cannot look the session up"
    );
    assert_eq!(GreetError::EmptyGreeting.message(), "no greeting to send");
    assert_eq!(GreetError::MissingTty.message(), "cannot determine the tty");
    assert_eq!(
        GreetError::NoSession.message(),
        "no matching login session found"
    );
}

#[test]
fn greeting_plan_reports_each_failure() {
    let table = "6 1000 alice seat0 42 user tty3 no -\n";
    assert_eq!(
        greeting_plan("", "hello", table),
        Err(GreetError::EmptyPid)
    );
    assert_eq!(
        greeting_plan("42", "", table),
        Err(GreetError::EmptyGreeting)
    );
    assert_eq!(
        greeting_plan("7", "hello", table),
        Err(GreetError::NoSession)
    );
    // The first matching line decides; a short line has no terminal field.
    assert_eq!(
        greeting_plan("42", "hello", "1 2 3 4 42\n6 1000 alice seat0 42 user tty3 no -\n"),
        Err(GreetError::MissingTty)
    );
}
