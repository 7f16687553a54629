use ssh_notifier::config::{Config, User};
use ssh_notifier::parser::SSHInfo;

#[test]
fn ssh_verify() {
    let mut config = Config::default();
    config.users.push(User {
        name: "foo".into(),
        key_fingerprints: vec!["key0".into(), "key2".into()],
        greeting: "Content of a greeting test".into(),
        ..Default::default()
    });
    config.users.push(User {
        name: "bar".into(),
        key_fingerprints: vec!["key7".into(), "pmdish".into()],
        greeting: "Margarita pizza is delicious".into(),
        ..Default::default()
    });
    config.users.push(User {
        name: "buz".into(),
        key_fingerprints: vec!["pasta".into(), "onion".into()],
        greeting: "Creamy mushroom soup...".into(),
        ..Default::default()
    });
    let k0 = config.verify_ssh("key0");
    let k1 = config.verify_ssh("key1");
    let k2 = config.verify_ssh("key2");
    let k3 = config.verify_ssh("pmdish");
    let k4 = config.verify_ssh("pasta");

    assert!(k0.is_some());
    assert!(k1.is_none());
    assert!(k2.is_some());
    assert!(k3.is_some());
    assert!(k4.is_some());

    let k0 = k0.unwrap();
    let k2 = k2.unwrap();
    let k3 = k3.unwrap();
    let k4 = k4.unwrap();
    assert!(k0.name == "foo");
    assert!(k0.greeting == "Content of a greeting test");
    assert!(k2.name == "foo");
    assert!(k2.greeting == "Content of a greeting test");
    assert!(k3.name == "bar");
    assert!(k3.greeting == "Margarita pizza is delicious");
    assert!(k4.name == "buz");
    assert!(k4.greeting == "Creamy mushroom soup...");
}

#[test]
fn parsing_sshd_log() {
    let info = SSHInfo::parse(
        "Jan 11 23:10:45 HyprOnion sshd-session[31509]: Accepted publickey for yan from 127.0.0.1 port 50178 ssh2: ED25519 SHA256:EjRavL2HEklAJavw5mtARs0LdvhQ+V+ShZ7oDLmjwhs",
    );
    assert_eq!(info.user, "yan");
    assert_eq!(info.ip, "127.0.0.1");
    assert_eq!(info.pid, "31509");
    assert_eq!(
        info.fingerprint,
        "SHA256:EjRavL2HEklAJavw5mtARs0LdvhQ+V+ShZ7oDLmjwhs"
    );
}
