//! The configuration document: a plain tree of named nodes with string
//! entries, the verified walk that builds a [`Config`] from it, and the
//! trusted parse of the KDL text into that tree.

use vstd::prelude::*;

use crate::config::{default_config, Config, ConfigV, User, UserV};
use crate::text::str_eq;

verus! {

/// One entry of a document node: an argument (unnamed) or a property
/// (named), carrying its value's text when the value is a string.
pub struct DocEntry {
    pub named: bool,
    pub text: Option<String>,
}

/// One document node: a name, its entries, and an optional children block.
/// A node without a block is distinct from one with an empty block.
pub struct DocNode {
    pub name: String,
    pub entries: Vec<DocEntry>,
    pub children: Option<Vec<DocNode>>,
}

/// The text of an entry, the empty string standing for a non-string value.
pub open spec fn entry_text(e: DocEntry) -> Seq<char> {
    match e.text {
        Some(t) => t@,
        None => Seq::empty(),
    }
}

/// The text of the first argument (first unnamed entry), if that entry
/// exists and its value is a string.
pub open spec fn first_arg_text(entries: Seq<DocEntry>) -> Option<Seq<char>>
    decreases entries.len(),
{
    if entries.len() == 0 {
        None
    } else if !entries[0].named {
        match entries[0].text {
            Some(t) => Some(t@),
            None => None,
        }
    } else {
        first_arg_text(entries.drop_first())
    }
}

/// The first node with the given name, if any.
pub open spec fn doc_get(nodes: Seq<DocNode>, name: Seq<char>) -> Option<DocNode>
    decreases nodes.len(),
{
    if nodes.len() == 0 {
        None
    } else if nodes[0].name@ == name {
        Some(nodes[0])
    } else {
        doc_get(nodes.drop_first(), name)
    }
}

/// The texts of all entries of all children named `fingerprint`, flattened
/// in order; a non-string value contributes an empty string.
pub open spec fn user_fingerprints(children: Seq<DocNode>) -> Seq<Seq<char>>
    decreases children.len(),
{
    if children.len() == 0 {
        Seq::empty()
    } else if children[0].name@ == "fingerprint"@ {
        children[0].entries@.map_values(|e: DocEntry| entry_text(e)) + user_fingerprints(
            children.drop_first(),
        )
    } else {
        user_fingerprints(children.drop_first())
    }
}

/// The identity declared by one user node: its name, its flattened
/// fingerprint list, suppression by the presence of a `no-notify` child,
/// and the `greeting` child's first argument, or empty.
pub open spec fn user_of_node(name: Seq<char>, children: Seq<DocNode>) -> UserV {
    UserV {
        name: name,
        key_fingerprints: user_fingerprints(children),
        no_notify: doc_get(children, "no-notify"@) is Some,
        greeting: match doc_get(children, "greeting"@) {
            Some(g) => match first_arg_text(g.entries@) {
                Some(t) => t,
                None => Seq::empty(),
            },
            None => Seq::empty(),
        },
    }
}

/// The identities declared under a `users` node, in order; a child without
/// a children block declares nothing and is skipped.
pub open spec fn users_of(children: Seq<DocNode>) -> Seq<UserV>
    decreases children.len(),
{
    if children.len() == 0 {
        Seq::empty()
    } else {
        let rest = users_of(children.drop_first());
        match children[0].children {
            Some(gc) => seq![user_of_node(children[0].name@, gc@)] + rest,
            None => rest,
        }
    }
}

/// `c` updated by one top-level node: a recognized key sets its field when
/// the node's first argument is a string, a `users` node appends its
/// identities, and an unrecognized name changes nothing.
pub open spec fn apply_node(c: ConfigV, n: DocNode) -> ConfigV {
    if n.name@ == "notify-title"@ {
        ConfigV { notify_title: set_or(c.notify_title, n), ..c }
    } else if n.name@ == "notify-title-for-stranger"@ {
        ConfigV { notify_title_for_stranger: set_or(c.notify_title_for_stranger, n), ..c }
    } else if n.name@ == "notify-message"@ {
        ConfigV { notify_message: set_or(c.notify_message, n), ..c }
    } else if n.name@ == "notify-message-for-stranger"@ {
        ConfigV { notify_message_for_stranger: set_or(c.notify_message_for_stranger, n), ..c }
    } else if n.name@ == "time-format"@ {
        ConfigV { time_format: set_or(c.time_format, n), ..c }
    } else if n.name@ == "users"@ {
        match n.children {
            Some(ch) => ConfigV { users: c.users + users_of(ch@), ..c },
            None => c,
        }
    } else {
        c
    }
}

/// The node's first argument when it is a string, else the current value.
pub open spec fn set_or(cur: Seq<char>, n: DocNode) -> Seq<char> {
    match first_arg_text(n.entries@) {
        Some(t) => t,
        None => cur,
    }
}

/// The configuration after the first `k` nodes, starting from the
/// defaults.
pub open spec fn fold_nodes(c: ConfigV, nodes: Seq<DocNode>, k: int) -> ConfigV
    decreases k,
{
    if k <= 0 {
        c
    } else {
        apply_node(fold_nodes(c, nodes, k - 1), nodes[k - 1])
    }
}

/// The configuration a document denotes: the defaults updated by each
/// top-level node in order.
pub open spec fn spec_config_of(nodes: Seq<DocNode>) -> ConfigV {
    fold_nodes(default_config(), nodes, nodes.len() as int)
}

/// The index of the first node with the given name, if any.
fn doc_find(nodes: &Vec<DocNode>, name: &str) -> (r: Option<usize>)
    ensures
        r is Some ==> r->Some_0 < nodes@.len() && doc_get(nodes@, name@) == Some(
            nodes@[r->Some_0 as int],
        ),
        r is None ==> doc_get(nodes@, name@) is None,
{
    let mut i: usize = 0;
    proof {
        assert(nodes@.subrange(0, nodes@.len() as int) =~= nodes@);
    }
    while i < nodes.len()
        invariant
            i <= nodes@.len(),
            doc_get(nodes@, name@) == doc_get(
                nodes@.subrange(i as int, nodes@.len() as int),
                name@,
            ),
        decreases nodes@.len() - i,
    {
        let ghost rest = nodes@.subrange(i as int, nodes@.len() as int);
        proof {
            assert(rest[0] == nodes@[i as int]);
            assert(rest.drop_first() =~= nodes@.subrange(i + 1, nodes@.len() as int));
        }
        if str_eq(nodes[i].name.as_str(), name) {
            return Some(i);
        }
        i = i + 1;
    }
    None
}

/// The first argument's text, when present and a string.
fn first_arg(entries: &Vec<DocEntry>) -> (r: Option<String>)
    ensures
        r is Some ==> first_arg_text(entries@) == Some(r->Some_0@),
        r is None ==> first_arg_text(entries@) is None,
{
    let mut i: usize = 0;
    proof {
        assert(entries@.subrange(0, entries@.len() as int) =~= entries@);
    }
    while i < entries.len()
        invariant
            i <= entries@.len(),
            first_arg_text(entries@) == first_arg_text(
                entries@.subrange(i as int, entries@.len() as int),
            ),
        decreases entries@.len() - i,
    {
        let ghost rest = entries@.subrange(i as int, entries@.len() as int);
        proof {
            assert(rest[0] == entries@[i as int]);
            assert(rest.drop_first() =~= entries@.subrange(i + 1, entries@.len() as int));
        }
        if !entries[i].named {
            return match &entries[i].text {
                Some(t) => Some(t.clone()),
                None => None,
            };
        }
        i = i + 1;
    }
    None
}

/// The flattened fingerprint texts of all children named `fingerprint`.
fn collect_fingerprints(children: &Vec<DocNode>) -> (r: Vec<String>)
    ensures
        r.deep_view() == user_fingerprints(children@),
{
    let mut r: Vec<String> = Vec::new();
    let mut i: usize = 0;
    proof {
        assert(children@.subrange(0, children@.len() as int) =~= children@);
        assert(r.deep_view() =~= Seq::<Seq<char>>::empty());
    }
    while i < children.len()
        invariant
            i <= children@.len(),
            r.deep_view() + user_fingerprints(children@.subrange(i as int, children@.len() as int))
                =~~= user_fingerprints(children@),
        decreases children@.len() - i,
    {
        let ghost rest = children@.subrange(i as int, children@.len() as int);
        proof {
            assert(rest[0] == children@[i as int]);
            assert(rest.drop_first() =~= children@.subrange(i + 1, children@.len() as int));
        }
        if str_eq(children[i].name.as_str(), "fingerprint") {
            let entries = &children[i].entries;
            let mut j: usize = 0;
            let ghost base = r.deep_view();
            proof {
                assert(base + entries@.subrange(0, 0).map_values(|e: DocEntry| entry_text(e))
                    =~~= base);
            }
            while j < entries.len()
                invariant
                    j <= entries@.len(),
                    r.deep_view() =~~= base + entries@.subrange(0, j as int).map_values(
                        |e: DocEntry| entry_text(e),
                    ),
                decreases entries@.len() - j,
            {
                let ghost old_r = r.deep_view();
                let t = match &entries[j].text {
                    Some(t) => t.clone(),
                    None => String::new(),
                };
                proof {
                    assert(t@ == entry_text(entries@[j as int]));
                }
                r.push(t);
                j = j + 1;
                proof {
                    let pre = entries@.subrange(0, j as int);
                    assert(pre.map_values(|e: DocEntry| entry_text(e))[j - 1] == entry_text(
                        entries@[j - 1],
                    ));
                    assert(r.deep_view() =~~= old_r.push(t@));
                    assert(r.deep_view() =~~= base + pre.map_values(|e: DocEntry| entry_text(e)));
                }
            }
            proof {
                assert(entries@.subrange(0, entries@.len() as int) =~= entries@);
                assert(r.deep_view() =~~= base + entries@.map_values(|e: DocEntry| entry_text(e)));
            }
        }
        i = i + 1;
        proof {
            assert(r.deep_view() + user_fingerprints(
                children@.subrange(i as int, children@.len() as int),
            ) =~~= user_fingerprints(children@));
        }
    }
    proof {
        assert(children@.subrange(children@.len() as int, children@.len() as int)
            =~= Seq::<DocNode>::empty());
        assert(r.deep_view() =~~= user_fingerprints(children@));
    }
    r
}

/// The identity declared by one user node.
fn build_user(name: &String, children: &Vec<DocNode>) -> (r: User)
    ensures
        r@ == user_of_node(name@, children@),
{
    let greeting = match doc_find(children, "greeting") {
        Some(gi) => match first_arg(&children[gi].entries) {
            Some(t) => t,
            None => String::new(),
        },
        None => String::new(),
    };
    let r = User {
        name: name.clone(),
        key_fingerprints: collect_fingerprints(children),
        no_notify: doc_find(children, "no-notify").is_some(),
        greeting,
    };
    proof {
        assert(r@ =~~= user_of_node(name@, children@));
    }
    r
}

/// The identities declared under a `users` node, in order.
fn build_users(children: &Vec<DocNode>) -> (r: Vec<User>)
    ensures
        r@.map_values(|u: User| u@) =~~= users_of(children@),
{
    let mut r: Vec<User> = Vec::new();
    let mut i: usize = 0;
    proof {
        assert(children@.subrange(0, children@.len() as int) =~= children@);
        assert(r@.map_values(|u: User| u@) =~~= Seq::<UserV>::empty());
    }
    while i < children.len()
        invariant
            i <= children@.len(),
            r@.map_values(|u: User| u@) + users_of(
                children@.subrange(i as int, children@.len() as int),
            ) =~~= users_of(children@),
        decreases children@.len() - i,
    {
        let ghost rest = children@.subrange(i as int, children@.len() as int);
        proof {
            assert(rest[0] == children@[i as int]);
            assert(rest.drop_first() =~= children@.subrange(i + 1, children@.len() as int));
        }
        let ghost old_view = r@.map_values(|u: User| u@);
        match &children[i].children {
            Some(gc) => {
                let u = build_user(&children[i].name, gc);
                r.push(u);
                proof {
                    let m = r@.map_values(|u: User| u@);
                    assert(m[m.len() - 1] == r@[r@.len() - 1]@);
                    assert(m =~~= old_view.push(user_of_node(children@[i as int].name@, gc@)));
                }
            },
            None => {},
        }
        i = i + 1;
        proof {
            assert(r@.map_values(|u: User| u@) + users_of(
                children@.subrange(i as int, children@.len() as int),
            ) =~~= users_of(children@));
        }
    }
    proof {
        assert(children@.subrange(children@.len() as int, children@.len() as int)
            =~= Seq::<DocNode>::empty());
        assert(r@.map_values(|u: User| u@) =~~= users_of(children@));
    }
    r
}

/// Builds the configuration a document denotes: the defaults updated by
/// each top-level node in order.
pub fn config_from_nodes(nodes: &Vec<DocNode>) -> (r: Config)
    ensures
        r@ == spec_config_of(nodes@),
{
    let mut conf = Config::default();
    let mut k: usize = 0;
    while k < nodes.len()
        invariant
            k <= nodes@.len(),
            conf@ == fold_nodes(default_config(), nodes@, k as int),
        decreases nodes@.len() - k,
    {
        let ghost prev = conf@;
        let n = &nodes[k];
        if str_eq(n.name.as_str(), "notify-title") {
            if let Some(t) = first_arg(&n.entries) {
                conf.notify_title = t;
            }
        } else if str_eq(n.name.as_str(), "notify-title-for-stranger") {
            if let Some(t) = first_arg(&n.entries) {
                conf.notify_title_for_stranger = t;
            }
        } else if str_eq(n.name.as_str(), "notify-message") {
            if let Some(t) = first_arg(&n.entries) {
                conf.notify_message = t;
            }
        } else if str_eq(n.name.as_str(), "notify-message-for-stranger") {
            if let Some(t) = first_arg(&n.entries) {
                conf.notify_message_for_stranger = t;
            }
        } else if str_eq(n.name.as_str(), "time-format") {
            if let Some(t) = first_arg(&n.entries) {
                conf.time_format = t;
            }
        } else if str_eq(n.name.as_str(), "users") {
            match &n.children {
                Some(ch) => {
                    let mut us = build_users(ch);
                    let ghost us_view = us@.map_values(|u: User| u@);
                    let ghost old_users = conf.users@;
                    conf.users.append(&mut us);
                    proof {
                        assert(conf.users@.map_values(|u: User| u@) =~~= old_users.map_values(
                            |u: User| u@,
                        ) + us_view);
                    }
                },
                None => {},
            }
        }
        proof {
            assert(conf@ =~~= apply_node(prev, nodes@[k as int]));
        }
        k = k + 1;
    }
    conf
}

/// kdl's node type, declared so that the conversion below can take a
/// reference to it.
#[verifier::external_type_specification]
#[verifier::external_body]
pub struct ExKdlNode(kdl::KdlNode);

/// The top-level nodes that parsing a KDL text yields, or nothing when the
/// text is not well-formed KDL. The parse depends on the text alone.
pub uninterp spec fn kdl_nodes_of(text: Seq<char>) -> Option<Seq<DocNode>>;

/// Relies on `kdl::KdlNode`'s accessors `name`, `entries`, `children`,
/// `KdlEntry::name` and `KdlValue::as_string`: copies one parsed node, its
/// entries and its children into the plain document tree.
#[verifier::external_body]
fn convert_node(node: &kdl::KdlNode) -> DocNode {
    DocNode {
        name: node.name().value().to_string(),
        entries: node.entries().iter().map(
            |e|
                DocEntry {
                    named: e.name().is_some(),
                    text: e.value().as_string().map(|s| s.to_string()),
                },
        ).collect(),
        children: node.children().map(|d| d.nodes().iter().map(convert_node).collect()),
    }
}

/// Relies on `kdl::KdlDocument`'s `FromStr`: parsing well-formed KDL text
/// yields its top-level nodes, and the result depends on the text alone.
#[verifier::external_body]
fn parse_kdl(text: &str) -> (r: Result<Vec<DocNode>, String>)
    ensures
        r is Ok ==> kdl_nodes_of(text@) == Some(r->Ok_0@),
        r is Err ==> kdl_nodes_of(text@) is None,
{
    match text.parse::<kdl::KdlDocument>() {
        Ok(d) => Ok(d.nodes().iter().map(convert_node).collect()),
        Err(e) => Err(e.to_string()),
    }
}

impl Config {
    /// The configuration the given KDL text denotes, or the parse error's
    /// message: the defaults updated by each recognized top-level node.
    pub fn from_kdl(text: &str) -> (r: Result<Config, String>)
        ensures
            r is Ok ==> kdl_nodes_of(text@) is Some && r->Ok_0@ == spec_config_of(
                kdl_nodes_of(text@)->Some_0,
            ),
            r is Err ==> kdl_nodes_of(text@) is None,
    {
        match parse_kdl(text) {
            Ok(nodes) => Ok(config_from_nodes(&nodes)),
            Err(e) => Err(e),
        }
    }
}

/// The commented example document written on first run: every setting
/// appears slash-dash-commented with its default, and the `users` block
/// shows one commented-out identity.
pub open spec fn spec_default_document() -> Seq<char> {
    "/- notify-title \"new ssh connection\"\n/- notify-title-for-stranger \"UNKNOWN SSH CONNECTION\"\n/- notify-message \"User {name} logined {user} at {time}\"\n/- notify-message-for-stranger \"Someone logined {user} at {time} with fingerprint {fpr}\"\n/- time-format \"rfc3339\"\nusers {\n    /- username {\n        fingerprint \"SHA256:xxx...\" \"SHA256:xxx...\"\n        /- no-notify\n        /- greeting \"Hello!\"\n    }\n}\n"@
}

/// The text of the commented example configuration document.
pub fn default_document() -> (r: String)
    ensures
        r@ == spec_default_document(),
{
    String::from_str(
        "/- notify-title \"new ssh connection\"\n/- notify-title-for-stranger \"UNKNOWN SSH CONNECTION\"\n/- notify-message \"User {name} logined {user} at {time}\"\n/- notify-message-for-stranger \"Someone logined {user} at {time} with fingerprint {fpr}\"\n/- time-format \"rfc3339\"\nusers {\n    /- username {\n        fingerprint \"SHA256:xxx...\" \"SHA256:xxx...\"\n        /- no-notify\n        /- greeting \"Hello!\"\n    }\n}\n",
    )
}

} // verus!
