use znap_core::config::{
    poll_step, select_identity, server_env, Collection, Config, IdentitySource, PollAction, Status,
};

fn config(identity: Option<&str>) -> Config {
    Config {
        collections: None,
        identity: identity.map(|s| s.to_string()),
        rpc_url: Some("http://localhost:8899".to_string()),
    }
}

fn collection() -> Collection {
    Collection {
        name: "types".to_string(),
        address: "127.0.0.1".to_string(),
        port: 3000,
        protocol: "http".to_string(),
    }
}

#[test]
fn identity_precedence() {
    let c = config(Some("~/.config/id.json"));
    match select_identity(Some("/k.json".to_string()), Some("base58".to_string()), &c) {
        Some(IdentitySource::KeypairPath(p)) => assert_eq!(p, "/k.json"),
        _ => panic!("path variable comes first"),
    }
    match select_identity(None, Some("base58".to_string()), &c) {
        Some(IdentitySource::Keypair(k)) => assert_eq!(k, "base58"),
        _ => panic!("keypair variable comes second"),
    }
    match select_identity(None, None, &c) {
        Some(IdentitySource::KeypairPath(p)) => assert_eq!(p, "~/.config/id.json"),
        _ => panic!("configured identity comes last"),
    }
    assert!(select_identity(None, None, &config(None)).is_none());
}

#[test]
fn server_env_defaults_to_collection() {
    let env = server_env(&config(None), &collection(), None, None, None, None, None);
    assert_eq!(env.address, "127.0.0.1");
    assert_eq!(env.port, 3000);
    assert_eq!(env.protocol, "http");
    assert_eq!(env.rpc_url.as_deref(), Some("http://localhost:8899"));
    assert!(env.identity.is_none());

    let env = server_env(
        &config(None),
        &collection(),
        Some("0.0.0.0".to_string()),
        Some(8080),
        Some("https".to_string()),
        None,
        None,
    );
    assert_eq!(env.address, "0.0.0.0");
    assert_eq!(env.port, 8080);
    assert_eq!(env.protocol, "https");
}

#[test]
fn poll_waits_for_active_server() {
    assert_eq!(poll_step(Some(Status { active: true })), PollAction::Ready);
    assert_eq!(poll_step(Some(Status { active: false })), PollAction::RetryAfterMillis(1000));
    assert_eq!(poll_step(None), PollAction::RetryAfterMillis(1000));
}
