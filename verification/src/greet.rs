//! The greeting decision: from the session table and a parsed event,
//! which terminal receives the greeting and with what text.

use vstd::prelude::*;

use crate::text::{chars_of, spec_lines, spec_tokens, split_lines, str_eq, tokenize};

verus! {

/// Why no greeting is dispatched for an event.
#[derive(Debug, PartialEq, Eq, Structural)]
pub enum GreetError {
    /// The event carries no session id, so no session can be looked up.
    EmptyPid,
    /// The identity has no greeting text.
    EmptyGreeting,
    /// The first matching session line has no terminal field.
    MissingTty,
    /// No session line's owning-process field matches the session id.
    NoSession,
}

/// The diagnostic text of each greeting failure.
pub open spec fn spec_message(e: GreetError) -> Seq<char> {
    match e {
        GreetError::EmptyPid => "unknown pid, cannot look the session up"@,
        GreetError::EmptyGreeting => "no greeting to send"@,
        GreetError::MissingTty => "cannot determine the tty"@,
        GreetError::NoSession => "no matching login session found"@,
    }
}

impl GreetError {
    /// The diagnostic text of this failure, for the operator-facing log.
    pub fn message(&self) -> (r: String)
        ensures
            r@ == spec_message(*self),
    {
        match self {
            GreetError::EmptyPid => String::from_str("unknown pid, cannot look the session up"),
            GreetError::EmptyGreeting => String::from_str("no greeting to send"),
            GreetError::MissingTty => String::from_str("cannot determine the tty"),
            GreetError::NoSession => String::from_str("no matching login session found"),
        }
    }
}

/// Whether one session-table line's fifth white-space-separated field (the
/// owning-process id) equals `pid`.
pub open spec fn line_matches(line: Seq<char>, pid: Seq<char>) -> bool {
    spec_tokens(line).len() > 4 && spec_tokens(line)[4] == pid
}

/// The index of the first matching line at or after `k`, if any.
pub open spec fn first_session_line(lines: Seq<Seq<char>>, pid: Seq<char>, k: int) -> Option<int>
    decreases lines.len() - k + 1,
{
    if k < 0 || k >= lines.len() {
        None
    } else if line_matches(lines[k], pid) {
        Some(k)
    } else {
        first_session_line(lines, pid, k + 1)
    }
}

/// The control-sequence-wrapped greeting block: save the cursor, scroll to
/// make room, print a border and the greeting, restore the cursor.
pub open spec fn spec_greeting_text(greeting: Seq<char>) -> Seq<char> {
    "\x1b[s\x1b[4S\x1b[3F+-----------\n"@ + greeting + "\x1b[u"@
}

/// The greeting decision on one event: which terminal (the seventh field
/// of the first session line whose fifth field is `pid`) receives which
/// text, or why nothing is dispatched.
pub open spec fn spec_greet(pid: Seq<char>, greeting: Seq<char>, table: Seq<char>) -> Result<
    (Seq<char>, Seq<char>),
    GreetError,
> {
    if pid.len() == 0 {
        Err(GreetError::EmptyPid)
    } else if greeting.len() == 0 {
        Err(GreetError::EmptyGreeting)
    } else {
        let lines = spec_lines(table);
        match first_session_line(lines, pid, 0) {
            None => Err(GreetError::NoSession),
            Some(i) => {
                let toks = spec_tokens(lines[i]);
                if toks.len() > 6 {
                    Ok((toks[6], spec_greeting_text(greeting)))
                } else {
                    Err(GreetError::MissingTty)
                }
            },
        }
    }
}

/// Decides the greeting for one event: `pid` and `greeting` are the parsed
/// session id and the resolved identity's greeting, `table` the session
/// table's text, one session per line. On success, the terminal name and
/// the wrapped text to write to it.
pub fn greeting_plan(pid: &str, greeting: &str, table: &str) -> (r: Result<
    (String, String),
    GreetError,
>)
    ensures
        r is Ok ==> spec_greet(pid@, greeting@, table@) == Ok::<_, GreetError>(
            (r->Ok_0.0@, r->Ok_0.1@),
        ),
        r is Err ==> spec_greet(pid@, greeting@, table@) == Err::<(Seq<char>, Seq<char>), _>(
            r->Err_0,
        ),
{
    if pid.unicode_len() == 0 {
        return Err(GreetError::EmptyPid);
    }
    if greeting.unicode_len() == 0 {
        return Err(GreetError::EmptyGreeting);
    }
    let tv = chars_of(table);
    let lines = split_lines(&tv);
    let ghost ls = spec_lines(table@);
    proof {
        assert(lines.deep_view() == ls);
    }
    let mut i: usize = 0;
    while i < lines.len()
        invariant
            i <= lines@.len(),
            pid@.len() != 0,
            greeting@.len() != 0,
            ls == lines.deep_view(),
            ls == spec_lines(table@),
            first_session_line(ls, pid@, 0) == first_session_line(ls, pid@, i as int),
        decreases lines@.len() - i,
    {
        proof {
            assert(ls[i as int] == lines@[i as int]@);
        }
        let lv = chars_of(lines[i].as_str());
        let toks = tokenize(&lv);
        proof {
            assert(toks.deep_view() == spec_tokens(ls[i as int]));
        }
        if toks.len() > 4 && str_eq(toks[4].as_str(), pid) {
            proof {
                assert(toks.deep_view()[4] == toks@[4]@);
                assert(line_matches(ls[i as int], pid@));
            }
            if toks.len() > 6 {
                let tty = toks[6].clone();
                let mut text = String::from_str("\x1b[s\x1b[4S\x1b[3F+-----------\n");
                text.append(greeting);
                text.append("\x1b[u");
                proof {
                    assert(toks.deep_view()[6] == toks@[6]@);
                    assert(text@ =~= spec_greeting_text(greeting@));
                }
                return Ok((tty, text));
            } else {
                return Err(GreetError::MissingTty);
            }
        }
        proof {
            assert(toks.deep_view().len() > 4 ==> toks.deep_view()[4] == toks@[4]@);
            assert(!line_matches(ls[i as int], pid@));
        }
        i = i + 1;
    }
    Err(GreetError::NoSession)
}

} // verus!
