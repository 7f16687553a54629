//! The configuration: identities keyed by their key fingerprints, message
//! templates, and the time format, together with fingerprint resolution.

use vstd::prelude::*;

use crate::text::str_eq;

verus! {

/// The view of a [`User`].
#[verifier::ext_equal]
pub struct UserV {
    pub name: Seq<char>,
    pub key_fingerprints: Seq<Seq<char>>,
    pub no_notify: bool,
    pub greeting: Seq<char>,
}

/// One configured identity: a display name, the set of authorized key
/// fingerprints, whether notifications are suppressed, and a greeting.
///
/// The name `UNKNOWN` is reserved for the synthetic no-match identity and
/// must not be a configured user's name.
#[derive(Debug)]
pub struct User {
    pub name: String,
    pub key_fingerprints: Vec<String>,
    pub no_notify: bool,
    pub greeting: String,
}

impl View for User {
    type V = UserV;

    open spec fn view(&self) -> UserV {
        UserV {
            name: self.name@,
            key_fingerprints: self.key_fingerprints.deep_view(),
            no_notify: self.no_notify,
            greeting: self.greeting@,
        }
    }
}

/// The synthetic identity that stands for "no match found": no
/// fingerprints, no suppression, no greeting.
pub open spec fn unknown_user() -> UserV {
    UserV {
        name: "UNKNOWN"@,
        key_fingerprints: Seq::empty(),
        no_notify: false,
        greeting: Seq::empty(),
    }
}

impl Default for User {
    /// The synthetic unknown identity.
    fn default() -> (r: Self)
        ensures
            r@ == unknown_user(),
    {
        let r = User {
            name: String::from_str("UNKNOWN"),
            key_fingerprints: Vec::new(),
            no_notify: false,
            greeting: String::new(),
        };
        proof {
            assert(r.key_fingerprints.deep_view() =~= Seq::<Seq<char>>::empty());
            assert(r@ =~= unknown_user());
        }
        r
    }
}

/// A copy of `v` holding equal strings.
fn clone_strings(v: &Vec<String>) -> (r: Vec<String>)
    ensures
        r@ == v@,
{
    let mut r: Vec<String> = Vec::new();
    let mut i: usize = 0;
    while i < v.len()
        invariant
            i <= v@.len(),
            r@ == v@.subrange(0, i as int),
        decreases v@.len() - i,
    {
        r.push(v[i].clone());
        i = i + 1;
        proof {
            assert(r@ =~= v@.subrange(0, i as int));
        }
    }
    proof {
        assert(r@ =~= v@);
    }
    r
}

impl Clone for User {
    /// A copy with an equal view.
    fn clone(&self) -> (r: Self)
        ensures
            r@ == self@,
    {
        let r = User {
            name: self.name.clone(),
            key_fingerprints: clone_strings(&self.key_fingerprints),
            no_notify: self.no_notify,
            greeting: self.greeting.clone(),
        };
        proof {
            assert(r.key_fingerprints.deep_view() =~= self.key_fingerprints.deep_view());
            assert(r@ =~= self@);
        }
        r
    }
}

impl User {
    /// Whether `fingerprint` is one of this identity's authorized key
    /// fingerprints, by exact string equality.
    pub fn verify(&self, fingerprint: &str) -> (r: bool)
        ensures
            r == self@.key_fingerprints.contains(fingerprint@),
    {
        let mut i: usize = 0;
        while i < self.key_fingerprints.len()
            invariant
                i <= self.key_fingerprints@.len(),
                forall|k: int|
                    0 <= k < i ==> self@.key_fingerprints[k] != fingerprint@,
            decreases self.key_fingerprints@.len() - i,
        {
            if str_eq(self.key_fingerprints[i].as_str(), fingerprint) {
                proof {
                    assert(self@.key_fingerprints[i as int] == fingerprint@);
                }
                return true;
            }
            i = i + 1;
        }
        proof {
            assert forall|k: int| 0 <= k < self@.key_fingerprints.len() implies self
                @.key_fingerprints[k] != fingerprint@ by {}
        }
        false
    }
}

/// The view of a [`Config`].
#[verifier::ext_equal]
pub struct ConfigV {
    pub notify_title: Seq<char>,
    pub notify_title_for_stranger: Seq<char>,
    pub notify_message: Seq<char>,
    pub notify_message_for_stranger: Seq<char>,
    pub time_format: Seq<char>,
    pub users: Seq<UserV>,
}

/// The configuration: the four message templates, the time format, and the
/// identities in their declared order.
#[derive(Debug)]
pub struct Config {
    pub notify_title: String,
    pub notify_title_for_stranger: String,
    pub notify_message: String,
    pub notify_message_for_stranger: String,
    pub time_format: String,
    pub users: Vec<User>,
}

impl View for Config {
    type V = ConfigV;

    open spec fn view(&self) -> ConfigV {
        ConfigV {
            notify_title: self.notify_title@,
            notify_title_for_stranger: self.notify_title_for_stranger@,
            notify_message: self.notify_message@,
            notify_message_for_stranger: self.notify_message_for_stranger@,
            time_format: self.time_format@,
            users: self.users@.map_values(|u: User| u@),
        }
    }
}

/// The built-in default configuration: usable stand-alone, with no
/// identities.
pub open spec fn default_config() -> ConfigV {
    ConfigV {
        notify_title: "New ssh Connection"@,
        notify_title_for_stranger: "UNKNOWN SSH CONNECTION"@,
        notify_message: "User {name} logined {user} at {time}"@,
        notify_message_for_stranger: "Someone logined {user} at {time} with fingerprint {fpr}"@,
        time_format: "rfc3339"@,
        users: Seq::empty(),
    }
}

impl Default for Config {
    /// The built-in defaults.
    fn default() -> (r: Self)
        ensures
            r@ == default_config(),
    {
        let r = Config {
            notify_title: String::from_str("New ssh Connection"),
            notify_title_for_stranger: String::from_str("UNKNOWN SSH CONNECTION"),
            notify_message: String::from_str("User {name} logined {user} at {time}"),
            notify_message_for_stranger: String::from_str(
                "Someone logined {user} at {time} with fingerprint {fpr}",
            ),
            time_format: String::from_str("rfc3339"),
            users: Vec::new(),
        };
        proof {
            assert(r.users@.map_values(|u: User| u@) =~= Seq::<UserV>::empty());
            assert(r@ =~= default_config());
        }
        r
    }
}

/// The first identity, in declared order, whose fingerprint set contains
/// `f`, if any.
pub open spec fn spec_first_match(users: Seq<UserV>, f: Seq<char>) -> Option<UserV>
    decreases users.len(),
{
    if users.len() == 0 {
        None
    } else if users[0].key_fingerprints.contains(f) {
        Some(users[0])
    } else {
        spec_first_match(users.drop_first(), f)
    }
}

/// Fingerprint lookup: an empty fingerprint never matches; otherwise the
/// earliest-declared identity containing `f` wins.
pub open spec fn spec_verify_ssh(users: Seq<UserV>, f: Seq<char>) -> Option<UserV> {
    if f.len() == 0 {
        None
    } else {
        spec_first_match(users, f)
    }
}

/// Resolution of a fingerprint to an identity: the looked-up identity, or
/// the synthetic unknown one.
pub open spec fn spec_resolve(users: Seq<UserV>, f: Seq<char>) -> UserV {
    match spec_verify_ssh(users, f) {
        Some(u) => u,
        None => unknown_user(),
    }
}

impl Config {
    /// Looks `fin` up in the identity list: the earliest-declared identity
    /// whose fingerprint set contains `fin`, or nothing — always nothing for
    /// an empty `fin`.
    pub fn verify_ssh(&self, fin: &str) -> (r: Option<User>)
        ensures
            r is Some ==> spec_verify_ssh(self@.users, fin@) == Some(r->Some_0@),
            r is None ==> spec_verify_ssh(self@.users, fin@) is None,
    {
        if fin.unicode_len() == 0 {
            return None;
        }
        let mut i: usize = 0;
        while i < self.users.len()
            invariant
                i <= self.users@.len(),
                fin@.len() != 0,
                forall|k: int|
                    0 <= k < i ==> !self@.users[k].key_fingerprints.contains(fin@),
            decreases self.users@.len() - i,
        {
            proof {
                assert(self@.users[i as int] == self.users@[i as int]@);
            }
            if self.users[i].verify(fin) {
                let u = self.users[i].clone();
                proof {
                    assert(u@ == self.users@[i as int]@);
                    lemma_first_match_hit(self@.users, fin@, i as int);
                }
                return Some(u);
            }
            i = i + 1;
        }
        proof {
            lemma_first_match_none(self@.users, fin@);
        }
        None
    }

    /// Resolves `fin` to an identity: the earliest-declared match, or the
    /// synthetic unknown identity when `fin` is empty or matches nobody.
    pub fn resolve(&self, fin: &str) -> (r: User)
        ensures
            r@ == spec_resolve(self@.users, fin@),
    {
        match self.verify_ssh(fin) {
            Some(u) => u,
            None => User::default(),
        }
    }
}

/// First match wins: when `users[i]` contains `f` and no earlier identity
/// does, the lookup yields exactly `users[i]` — resolution with duplicate
/// fingerprints across identities is deterministic and favours the
/// earliest-declared identity.
pub proof fn lemma_first_match_hit(users: Seq<UserV>, f: Seq<char>, i: int)
    requires
        0 <= i < users.len(),
        users[i].key_fingerprints.contains(f),
        forall|k: int| 0 <= k < i ==> !users[k].key_fingerprints.contains(f),
    ensures
        spec_first_match(users, f) == Some(users[i]),
    decreases i,
{
    if i > 0 {
        assert forall|k: int| 0 <= k < i - 1 implies !users.drop_first()[k].key_fingerprints
            .contains(f) by {
            assert(users.drop_first()[k] == users[k + 1]);
        }
        assert(users.drop_first()[i - 1] == users[i]);
        lemma_first_match_hit(users.drop_first(), f, i - 1);
    }
}

/// When no identity contains `f`, the lookup yields nothing.
pub proof fn lemma_first_match_none(users: Seq<UserV>, f: Seq<char>)
    requires
        forall|k: int| 0 <= k < users.len() ==> !users[k].key_fingerprints.contains(f),
    ensures
        spec_first_match(users, f) is None,
    decreases users.len(),
{
    if users.len() > 0 {
        assert forall|k: int| 0 <= k < users.len() - 1 implies !users.drop_first()[k]
            .key_fingerprints.contains(f) by {
            assert(users.drop_first()[k] == users[k + 1]);
        }
        lemma_first_match_none(users.drop_first(), f);
    }
}

/// An empty fingerprint resolves to the unknown identity whatever
/// identities are configured: empty input is untrusted, never a wildcard.
pub proof fn lemma_resolve_empty(users: Seq<UserV>)
    ensures
        spec_resolve(users, Seq::empty()) == unknown_user(),
{
}

/// Duplicate-fingerprint tie-break: a non-empty fingerprint held by
/// `users[i]` and by no earlier identity resolves to `users[i]` itself.
pub proof fn lemma_resolve_first_match_wins(users: Seq<UserV>, f: Seq<char>, i: int)
    requires
        f.len() > 0,
        0 <= i < users.len(),
        users[i].key_fingerprints.contains(f),
        forall|k: int| 0 <= k < i ==> !users[k].key_fingerprints.contains(f),
    ensures
        spec_resolve(users, f) == users[i],
{
    lemma_first_match_hit(users, f, i);
}

} // verus!
