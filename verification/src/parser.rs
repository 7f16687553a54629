//! Parsing of one `sshd` log line into a structured connection event.
//!
//! Extraction is by anchored substring search, never a full grammar: each
//! field independently falls back to its sentinel when its anchor is absent,
//! so the parser never fails.

use vstd::prelude::*;

use crate::text::{
    chars_of, find_from, is_ws, lemma_find_from_first, lemma_find_from_some, lemma_find_shift,
    match_at, spec_find, spec_tokens, string_from_range, tokenize,
};

verus! {

/// The substring of `m` strictly between the first occurrence of `s` and the
/// next occurrence of `e` after it, if both are present.
pub open spec fn spec_extract(m: Seq<char>, s: Seq<char>, e: Seq<char>) -> Option<Seq<char>> {
    if spec_find(m, s) is Some {
        let i = spec_find(m, s)->Some_0;
        let rest = m.subrange(i + s.len(), m.len() as int);
        if spec_find(rest, e) is Some {
            Some(rest.subrange(0, spec_find(rest, e)->Some_0))
        } else {
            None
        }
    } else {
        None
    }
}

/// The session id field of a log line: the text between `sshd-session[` and
/// the next `]`, or empty when either anchor is absent.
pub open spec fn pid_of(m: Seq<char>) -> Seq<char> {
    match spec_extract(m, "sshd-session["@, "]"@) {
        Some(t) => t,
        None => Seq::empty(),
    }
}

/// The remote-user field: the text between `for ` and the next ` from`, or
/// the sentinel `UNKNOWN`.
pub open spec fn user_of(m: Seq<char>) -> Seq<char> {
    match spec_extract(m, "for "@, " from"@) {
        Some(t) => t,
        None => "UNKNOWN"@,
    }
}

/// The remote-address field: the text between `from ` and the next ` port`,
/// or the sentinel `UNKNOWN`.
pub open spec fn ip_of(m: Seq<char>) -> Seq<char> {
    match spec_extract(m, "from "@, " port"@) {
        Some(t) => t,
        None => "UNKNOWN"@,
    }
}

/// The fingerprint field: the last white-space-delimited token of the line,
/// or the sentinel `NONE` for an all-white-space line.
pub open spec fn fingerprint_of(m: Seq<char>) -> Seq<char> {
    if spec_tokens(m).len() > 0 {
        spec_tokens(m).last()
    } else {
        "NONE"@
    }
}

/// One parsed log line: the fields of an accepted-publickey connection
/// event. Absent fields hold their sentinels, never nothing.
#[derive(Debug)]
pub struct SSHInfo {
    /// Process id of the session's `sshd-session` process; empty when
    /// unobtainable.
    pub pid: String,
    /// Remote user name, or `UNKNOWN`.
    pub user: String,
    /// Remote address, or `UNKNOWN`.
    pub ip: String,
    /// Public-key fingerprint, or `NONE`.
    pub fingerprint: String,
}

/// The text of `m` between the first occurrence of `s` and the next
/// occurrence of `e`, if both are present.
fn extract(m: &Vec<char>, s: &str, e: &str) -> (r: Option<String>)
    ensures
        r is Some ==> spec_extract(m@, s@, e@) == Some(r->Some_0@),
        r is None ==> spec_extract(m@, s@, e@) is None,
{
    let sv = chars_of(s);
    let ev = chars_of(e);
    match find_from(m, &sv, 0) {
        None => None,
        Some(i) => {
            proof {
                lemma_find_from_some(m@, sv@, 0, i as int);
                assert(m@.len() == m.len());
            }
            let p = i + sv.len();
            proof {
                lemma_find_shift(m@, ev@, p as int);
            }
            match find_from(m, &ev, p) {
                None => None,
                Some(j) => {
                    proof {
                        lemma_find_from_some(m@, ev@, p as int, j as int);
                        assert(m@.subrange(p as int, m@.len() as int).subrange(0, j - p) =~= m
                            @.subrange(p as int, j as int));
                    }
                    Some(string_from_range(m, p, j))
                },
            }
        },
    }
}

impl SSHInfo {
    /// Parses one log line. Never fails: each field that cannot be
    /// extracted holds its sentinel instead.
    pub fn parse(msg: &str) -> (r: SSHInfo)
        ensures
            r.pid@ == pid_of(msg@),
            r.user@ == user_of(msg@),
            r.ip@ == ip_of(msg@),
            r.fingerprint@ == fingerprint_of(msg@),
    {
        let mv = chars_of(msg);
        let pid = match extract(&mv, "sshd-session[", "]") {
            Some(t) => t,
            None => String::new(),
        };
        let user = match extract(&mv, "for ", " from") {
            Some(t) => t,
            None => String::from_str("UNKNOWN"),
        };
        let ip = match extract(&mv, "from ", " port") {
            Some(t) => t,
            None => String::from_str("UNKNOWN"),
        };
        let toks = tokenize(&mv);
        let fingerprint = if toks.len() > 0 {
            let t = toks[toks.len() - 1].clone();
            proof {
                assert(toks.deep_view()[toks@.len() - 1] == toks@[toks@.len() - 1]@);
            }
            t
        } else {
            String::from_str("NONE")
        };
        SSHInfo { pid, user, ip, fingerprint }
    }
}

/// When a line is a concatenation `a + s + mid + e + b`, `s` occurs nowhere
/// in it before `a.len()`, and `e` occurs nowhere in `mid + e + b` before
/// `mid.len()`, then extraction between `s` and `e` yields exactly `mid`.
pub proof fn lemma_extract_exact(
    a: Seq<char>,
    s: Seq<char>,
    mid: Seq<char>,
    e: Seq<char>,
    b: Seq<char>,
)
    requires
        forall|k: int| 0 <= k < a.len() ==> !match_at(a + s + mid + e + b, s, k),
        forall|k: int| 0 <= k < mid.len() ==> !match_at(mid + e + b, e, k),
    ensures
        spec_extract(a + s + mid + e + b, s, e) == Some(mid),
{
    let m = a + s + mid + e + b;
    assert(match_at(m, s, a.len() as int)) by {
        assert(m.subrange(a.len() as int, a.len() + s.len() as int) =~= s);
    }
    lemma_find_from_first(m, s, 0, a.len() as int);
    let rest = m.subrange(a.len() + s.len() as int, m.len() as int);
    assert(rest =~= mid + e + b);
    assert(match_at(rest, e, mid.len() as int)) by {
        assert(rest.subrange(mid.len() as int, mid.len() + e.len() as int) =~= e);
    }
    lemma_find_from_first(rest, e, 0, mid.len() as int);
    assert(rest.subrange(0, mid.len() as int) =~= mid);
}

/// An all-non-white-space, non-empty text is one single token.
pub proof fn lemma_tokens_single(f: Seq<char>)
    requires
        f.len() > 0,
        forall|k: int| 0 <= k < f.len() ==> !is_ws(f[k]),
    ensures
        spec_tokens(f) == seq![f],
    decreases f.len(),
{
    if f.len() == 1 {
        assert(seq![f[0]] =~= f);
        assert(spec_tokens(f.drop_first()) =~= Seq::<Seq<char>>::empty());
        assert(spec_tokens(f) =~= seq![f]);
    } else {
        lemma_tokens_single(f.drop_first());
        assert(seq![f[0]] + f.drop_first() =~= f);
        assert(spec_tokens(f) =~= seq![f]);
    }
}

/// The last token of `x + ' ' + f`, for a non-empty all-non-white-space
/// `f`, is `f` itself; and when `x` holds any non-white-space character
/// there are at least two tokens.
pub proof fn lemma_tokens_tail(x: Seq<char>, f: Seq<char>)
    requires
        f.len() > 0,
        forall|k: int| 0 <= k < f.len() ==> !is_ws(f[k]),
    ensures
        spec_tokens(x + seq![' '] + f).len() >= 1,
        spec_tokens(x + seq![' '] + f).last() == f,
        (exists|k: int| 0 <= k < x.len() && !is_ws(x[k])) ==> spec_tokens(
            x + seq![' '] + f,
        ).len() >= 2,
    decreases x.len(),
{
    let m = x + seq![' '] + f;
    if x.len() == 0 {
        assert(m.drop_first() =~= f);
        assert(m[0] == ' ');
        lemma_tokens_single(f);
        assert(spec_tokens(m) == seq![f]);
    } else {
        let m2 = x.drop_first() + seq![' '] + f;
        assert(m.drop_first() =~= m2);
        assert(m[0] == x[0]);
        lemma_tokens_tail(x.drop_first(), f);
        let t2 = spec_tokens(m2);
        if is_ws(x[0]) {
            assert(spec_tokens(m) == t2);
            if exists|k: int| 0 <= k < x.len() && !is_ws(x[k]) {
                let k = choose|k: int| 0 <= k < x.len() && !is_ws(x[k]);
                assert(k >= 1 && x.drop_first()[k - 1] == x[k]);
                assert(t2.len() >= 2);
            }
        } else {
            if x.len() == 1 {
                assert(m[1] == ' ');
                assert(spec_tokens(m) == seq![seq![m[0]]] + t2);
                assert(spec_tokens(m).last() == t2.last());
            } else {
                assert(m[1] == x[1]);
                if is_ws(x[1]) {
                    assert(spec_tokens(m) == seq![seq![m[0]]] + t2);
                    assert(spec_tokens(m).last() == t2.last());
                } else {
                    assert(x.drop_first()[0] == x[1]);
                    assert(t2.len() >= 2);
                    assert(spec_tokens(m) == seq![seq![m[0]] + t2[0]] + t2.drop_first());
                    assert(spec_tokens(m).last() == t2.drop_first().last());
                    assert(t2.drop_first().last() == t2.last());
                }
            }
        }
    }
}

/// The shape of a canonical accepted-publickey log line: an arbitrary
/// prefix, then each field bounded by its literal anchors, the fingerprint
/// as the last white-space-delimited token.
pub open spec fn canonical_line(
    pre: Seq<char>,
    pid: Seq<char>,
    user: Seq<char>,
    addr: Seq<char>,
    port: Seq<char>,
    ktype: Seq<char>,
    fpr: Seq<char>,
) -> Seq<char> {
    pre + "sshd-session["@ + pid + "]: Accepted publickey for "@ + user + " from "@ + addr
        + " port "@ + port + " ssh2: "@ + ktype + " "@ + fpr
}

/// On every well-formed canonical line — one where no anchor occurs earlier
/// than its place in the pattern, the session id holds no `]`, the user no
/// ` from`, the address no ` port`, and the fingerprint is non-empty
/// without white space — parsing extracts exactly the session id, user,
/// address and fingerprint bounded by their anchors.
pub proof fn lemma_parse_canonical(
    pre: Seq<char>,
    pid: Seq<char>,
    user: Seq<char>,
    addr: Seq<char>,
    port: Seq<char>,
    ktype: Seq<char>,
    fpr: Seq<char>,
)
    requires
        forall|k: int|
            0 <= k < pre.len() ==> !match_at(
                canonical_line(pre, pid, user, addr, port, ktype, fpr),
                "sshd-session["@,
                k,
            ),
        forall|k: int| 0 <= k < pid.len() ==> pid[k] != ']',
        forall|k: int|
            0 <= k < pre.len() + "sshd-session["@.len() + pid.len()
                + "]: Accepted publickey "@.len() ==> !match_at(
                canonical_line(pre, pid, user, addr, port, ktype, fpr),
                "for "@,
                k,
            ),
        forall|k: int| !match_at(user, " from"@, k),
        forall|k: int|
            0 <= k < pre.len() + "sshd-session["@.len() + pid.len()
                + "]: Accepted publickey for "@.len() + user.len() + " "@.len() ==> !match_at(
                canonical_line(pre, pid, user, addr, port, ktype, fpr),
                "from "@,
                k,
            ),
        forall|k: int| !match_at(addr, " port"@, k),
        fpr.len() > 0,
        forall|k: int| 0 <= k < fpr.len() ==> !is_ws(fpr[k]),
    ensures
        pid_of(canonical_line(pre, pid, user, addr, port, ktype, fpr)) == pid,
        user_of(canonical_line(pre, pid, user, addr, port, ktype, fpr)) == user,
        ip_of(canonical_line(pre, pid, user, addr, port, ktype, fpr)) == addr,
        fingerprint_of(canonical_line(pre, pid, user, addr, port, ktype, fpr)) == fpr,
{
    let line = canonical_line(pre, pid, user, addr, port, ktype, fpr);
    reveal_strlit("sshd-session[");
    reveal_strlit("]");
    reveal_strlit("]: Accepted publickey for ");
    reveal_strlit("]: Accepted publickey ");
    reveal_strlit(": Accepted publickey for ");
    reveal_strlit("for ");
    reveal_strlit(" from");
    reveal_strlit(" from ");
    reveal_strlit("from ");
    reveal_strlit(" port");
    reveal_strlit(" port ");
    reveal_strlit(" ssh2: ");
    reveal_strlit(" ");

    // The session id: between `sshd-session[` and the next `]`.
    let b1 = ": Accepted publickey for "@ + user + " from "@ + addr + " port "@ + port
        + " ssh2: "@ + ktype + " "@ + fpr;
    assert(line =~= pre + "sshd-session["@ + pid + "]"@ + b1);
    assert forall|k: int| 0 <= k < pid.len() implies !match_at(pid + "]"@ + b1, "]"@, k) by {
        if match_at(pid + "]"@ + b1, "]"@, k) {
            assert((pid + "]"@ + b1).subrange(k, k + 1)[0] == (pid + "]"@ + b1)[k]);
            assert(pid[k] == ']');
        }
    }
    lemma_extract_exact(pre, "sshd-session["@, pid, "]"@, b1);
    assert(spec_extract(line, "sshd-session["@, "]"@) == Some(pid));

    // The user: between `for ` and the next ` from`.
    let a2 = pre + "sshd-session["@ + pid + "]: Accepted publickey "@;
    let b2 = " "@ + addr + " port "@ + port + " ssh2: "@ + ktype + " "@ + fpr;
    assert(line =~= a2 + "for "@ + user + " from"@ + b2);
    assert forall|k: int| 0 <= k < user.len() implies !match_at(
        user + " from"@ + b2,
        " from"@,
        k,
    ) by {
        let w = user + " from"@ + b2;
        if match_at(w, " from"@, k) {
            if k + " from"@.len() <= user.len() {
                assert(match_at(user, " from"@, k)) by {
                    assert(user.subrange(k, k + " from"@.len()) =~= w.subrange(
                        k,
                        k + " from"@.len(),
                    ));
                }
            } else {
                let t = user.len() - k;
                assert(1 <= t < " from"@.len());
                assert(w.subrange(k, k + " from"@.len())[t] == w[k + t]);
                assert(w[user.len() as int] == ' ');
                assert(" from"@[t] != ' ');
            }
        }
    }
    lemma_extract_exact(a2, "for "@, user, " from"@, b2);
    assert(spec_extract(line, "for "@, " from"@) == Some(user));

    // The address: between `from ` and the next ` port`.
    let a3 = pre + "sshd-session["@ + pid + "]: Accepted publickey for "@ + user + " "@;
    let b3 = " "@ + port + " ssh2: "@ + ktype + " "@ + fpr;
    assert(line =~= a3 + "from "@ + addr + " port"@ + b3);
    assert forall|k: int| 0 <= k < addr.len() implies !match_at(
        addr + " port"@ + b3,
        " port"@,
        k,
    ) by {
        let w = addr + " port"@ + b3;
        if match_at(w, " port"@, k) {
            if k + " port"@.len() <= addr.len() {
                assert(match_at(addr, " port"@, k)) by {
                    assert(addr.subrange(k, k + " port"@.len()) =~= w.subrange(
                        k,
                        k + " port"@.len(),
                    ));
                }
            } else {
                let t = addr.len() - k;
                assert(1 <= t < " port"@.len());
                assert(w.subrange(k, k + " port"@.len())[t] == w[k + t]);
                assert(w[addr.len() as int] == ' ');
                assert(" port"@[t] != ' ');
            }
        }
    }
    lemma_extract_exact(a3, "from "@, addr, " port"@, b3);
    assert(spec_extract(line, "from "@, " port"@) == Some(addr));

    // The fingerprint: the last white-space-delimited token.
    let x = pre + "sshd-session["@ + pid + "]: Accepted publickey for "@ + user + " from "@ + addr
        + " port "@ + port + " ssh2: "@ + ktype;
    assert(line =~= x + seq![' '] + fpr);
    lemma_tokens_tail(x, fpr);
    assert(fingerprint_of(line) == fpr);
}

/// A line on which an anchored search fails yields that field's sentinel —
/// each field independently of the others.
pub proof fn lemma_missing_anchor(m: Seq<char>)
    ensures
        spec_find(m, "sshd-session["@) is None ==> pid_of(m) == Seq::<char>::empty(),
        spec_find(m, "for "@) is None ==> user_of(m) == "UNKNOWN"@,
        spec_find(m, "from "@) is None ==> ip_of(m) == "UNKNOWN"@,
        spec_tokens(m).len() == 0 ==> fingerprint_of(m) == "NONE"@,
{
}

} // verus!
