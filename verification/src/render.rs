//! Rendering of notification text: literal placeholder substitution in the
//! configured templates, and the formatted time that `{time}` expands to.

use vstd::prelude::*;

use crate::config::{Config, User};
use crate::parser::SSHInfo;
use crate::text::{chars_of, replace_chars, spec_replace, str_eq, string_from_chars};

use std::fmt::Write;

verus! {

/// Relies on `chrono::Local::now` and `chrono::DateTime::to_rfc3339`: the
/// RFC 3339 rendering of the present local instant. The result depends on
/// the clock, so nothing can be promised of it. Assumes a sane system
/// clock: chrono panics on a pre-1970 clock reading.
#[verifier::external_body]
fn now_rfc3339() -> String {
    chrono::Local::now().to_rfc3339()
}

/// Relies on `chrono::Local::now` and `chrono::DateTime::to_rfc2822`: the
/// RFC 2822 rendering of the present local instant. Assumes a sane system
/// clock: chrono panics on a pre-1970 clock reading or a year outside
/// 0..=9999.
#[verifier::external_body]
fn now_rfc2822() -> String {
    chrono::Local::now().to_rfc2822()
}

/// Relies on `chrono::Local::now` and `chrono::DateTime::format` with a
/// strftime-like pattern: the pattern's rendering of the present local
/// instant; a malformed pattern comes back as nothing instead of a panic,
/// since formatting reports it as an error value.
#[verifier::external_body]
fn now_custom(fmt: &str) -> Option<String> {
    let mut out = String::new();
    match write!(out, "{}", chrono::Local::now().format(fmt)) {
        Ok(_) => Some(out),
        Err(_) => None,
    }
}

/// The present time rendered per the configured format: `rfc3339` and
/// `rfc2822` name their standard renderings; any other format is a
/// strftime-like pattern, falling back to RFC 3339 when the pattern is
/// malformed. The result depends on the clock, so nothing is stated of it.
pub fn formatted_now(format: &str) -> String {
    if str_eq(format, "rfc3339") {
        now_rfc3339()
    } else if str_eq(format, "rfc2822") {
        now_rfc2822()
    } else {
        match now_custom(format) {
            Some(s) => s,
            None => now_rfc3339(),
        }
    }
}

/// `template` with each recognized placeholder replaced in turn: `{name}`
/// by the identity's name, `{ip}` and `{user}` and `{fpr}` by the event's
/// fields, and `{time}` by the rendered time. Unrecognized braces pass
/// through unchanged.
pub open spec fn spec_render(
    template: Seq<char>,
    name: Seq<char>,
    ip: Seq<char>,
    user: Seq<char>,
    fpr: Seq<char>,
    time: Seq<char>,
) -> Seq<char> {
    spec_replace(
        spec_replace(
            spec_replace(spec_replace(spec_replace(template, "{name}"@, name), "{ip}"@, ip),
                "{user}"@, user),
            "{fpr}"@,
            fpr,
        ),
        "{time}"@,
        time,
    )
}

/// Renders one template for one event: literal token replacement, in the
/// fixed order `{name}`, `{ip}`, `{user}`, `{fpr}`, `{time}`.
pub fn render(template: &str, event: &SSHInfo, identity: &User, time_text: &str) -> (r: String)
    ensures
        r@ == spec_render(
            template@,
            identity.name@,
            event.ip@,
            event.user@,
            event.fingerprint@,
            time_text@,
        ),
{
    proof {
        reveal_strlit("{name}");
        reveal_strlit("{ip}");
        reveal_strlit("{user}");
        reveal_strlit("{fpr}");
        reveal_strlit("{time}");
    }
    let t0 = chars_of(template);
    let t1 = replace_chars(&t0, &chars_of("{name}"), &chars_of(identity.name.as_str()));
    let t2 = replace_chars(&t1, &chars_of("{ip}"), &chars_of(event.ip.as_str()));
    let t3 = replace_chars(&t2, &chars_of("{user}"), &chars_of(event.user.as_str()));
    let t4 = replace_chars(&t3, &chars_of("{fpr}"), &chars_of(event.fingerprint.as_str()));
    let t5 = replace_chars(&t4, &chars_of("{time}"), &chars_of(time_text));
    string_from_chars(&t5)
}

/// The notification for one event with the time already rendered: nothing
/// when the identity suppresses notification; else the title and body of
/// the known-user template pair, or of the stranger pair when the identity
/// is the synthetic `UNKNOWN` one — title and body both rendered with the
/// event's fields, since all four configured strings are templates.
pub fn notify_content(config: &Config, identity: &User, event: &SSHInfo, time_text: &str) -> (r:
    Option<(String, String)>)
    ensures
        identity.no_notify <==> r is None,
        r is Some && identity.name@ != "UNKNOWN"@ ==> r->Some_0.0@ == spec_render(
            config.notify_title@,
            identity.name@,
            event.ip@,
            event.user@,
            event.fingerprint@,
            time_text@,
        ) && r->Some_0.1@ == spec_render(
            config.notify_message@,
            identity.name@,
            event.ip@,
            event.user@,
            event.fingerprint@,
            time_text@,
        ),
        r is Some && identity.name@ == "UNKNOWN"@ ==> r->Some_0.0@ == spec_render(
            config.notify_title_for_stranger@,
            identity.name@,
            event.ip@,
            event.user@,
            event.fingerprint@,
            time_text@,
        ) && r->Some_0.1@ == spec_render(
            config.notify_message_for_stranger@,
            identity.name@,
            event.ip@,
            event.user@,
            event.fingerprint@,
            time_text@,
        ),
{
    if identity.no_notify {
        return None;
    }
    if !str_eq(identity.name.as_str(), "UNKNOWN") {
        let title = render(config.notify_title.as_str(), event, identity, time_text);
        let body = render(config.notify_message.as_str(), event, identity, time_text);
        Some((title, body))
    } else {
        let title = render(config.notify_title_for_stranger.as_str(), event, identity, time_text);
        let body = render(config.notify_message_for_stranger.as_str(), event, identity, time_text);
        Some((title, body))
    }
}

/// The notification for one event at the present moment: as
/// `notify_content`, with `{time}` expanded per the configured time format
/// from the clock — so title and body are stated up to one shared, unknown
/// time text.
pub fn notification_for(config: &Config, identity: &User, event: &SSHInfo) -> (r: Option<
    (String, String),
>)
    ensures
        identity.no_notify <==> r is None,
        r is Some && identity.name@ != "UNKNOWN"@ ==> (exists|time: Seq<char>|
            r->Some_0.0@ == spec_render(
                config.notify_title@,
                identity.name@,
                event.ip@,
                event.user@,
                event.fingerprint@,
                time,
            ) && r->Some_0.1@ == spec_render(
                config.notify_message@,
                identity.name@,
                event.ip@,
                event.user@,
                event.fingerprint@,
                time,
            )),
        r is Some && identity.name@ == "UNKNOWN"@ ==> (exists|time: Seq<char>|
            r->Some_0.0@ == spec_render(
                config.notify_title_for_stranger@,
                identity.name@,
                event.ip@,
                event.user@,
                event.fingerprint@,
                time,
            ) && r->Some_0.1@ == spec_render(
                config.notify_message_for_stranger@,
                identity.name@,
                event.ip@,
                event.user@,
                event.fingerprint@,
                time,
            )),
{
    let time_text = formatted_now(config.time_format.as_str());
    let r = notify_content(config, identity, event, time_text.as_str());
    proof {
        if r is Some {
            if identity.name@ != "UNKNOWN"@ {
                assert(r->Some_0.0@ == spec_render(
                    config.notify_title@,
                    identity.name@,
                    event.ip@,
                    event.user@,
                    event.fingerprint@,
                    time_text@,
                ) && r->Some_0.1@ == spec_render(
                    config.notify_message@,
                    identity.name@,
                    event.ip@,
                    event.user@,
                    event.fingerprint@,
                    time_text@,
                ));
            } else {
                assert(r->Some_0.0@ == spec_render(
                    config.notify_title_for_stranger@,
                    identity.name@,
                    event.ip@,
                    event.user@,
                    event.fingerprint@,
                    time_text@,
                ) && r->Some_0.1@ == spec_render(
                    config.notify_message_for_stranger@,
                    identity.name@,
                    event.ip@,
                    event.user@,
                    event.fingerprint@,
                    time_text@,
                ));
            }
        }
    }
    r
}

} // verus!
