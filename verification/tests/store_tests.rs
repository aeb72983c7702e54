use kman::errors::KmanError;
use kman::kubeconfig::{
    Cluster, ClusterContext, KubeConfig, NamedCluster, NamedContext, NamedUser, User,
};
use kman::store::{render_context_list, ContextEntry, Kman};

fn cluster(server: &str) -> Cluster {
    Cluster {
        server: server.to_owned(),
        tls_server_name: None,
        insecure_skip_verify: None,
        certificate_authority: None,
        certificate_authority_data: None,
        proxy_url: None,
        disable_compression: None,
    }
}

fn named_cluster(name: &str, server: &str) -> NamedCluster {
    NamedCluster { name: name.to_owned(), cluster: cluster(server) }
}

fn named_context(name: &str, cluster: &str, user: &str) -> NamedContext {
    NamedContext {
        name: name.to_owned(),
        context: ClusterContext {
            cluster: cluster.to_owned(),
            user: user.to_owned(),
            namespace: None,
        },
    }
}

fn named_user(name: &str, token: &str) -> NamedUser {
    NamedUser { name: name.to_owned(), user: User { token: token.to_owned() } }
}

/// Two contexts `dev` and `prod`, current `dev`; `dev` belongs to `bob`,
/// `prod` to `alice`.
fn sample_config() -> KubeConfig {
    KubeConfig {
        api_version: "v1".to_owned(),
        kind: "Config".to_owned(),
        clusters: vec![named_cluster("c1", "https://one:6443"), named_cluster("c2", "https://two:6443")],
        contexts: vec![named_context("dev", "c1", "bob"), named_context("prod", "c2", "alice")],
        current_context: "dev".to_owned(),
        users: vec![named_user("bob", "sha256~old-bob"), named_user("alice", "sha256~old-alice")],
    }
}

const GOOD_TOKEN: &str = "sha256~AAAAAAAAAAAAAAAAAAAAAAAAAAAAAAAAAAAAAAAAAAA";

#[test]
fn list_contexts_marks_current() {
    let kman = Kman::new(sample_config());
    let entries = kman.list_contexts().unwrap();
    assert_eq!(
        entries,
        vec![
            ContextEntry { name: "dev".to_owned(), is_current: true },
            ContextEntry { name: "prod".to_owned(), is_current: false },
        ]
    );
}

#[test]
fn list_contexts_no_match_marks_none() {
    let mut config = sample_config();
    config.current_context = "gone".to_owned();
    let kman = Kman::new(config);
    let entries = kman.list_contexts().unwrap();
    assert_eq!(entries.len(), 2);
    assert!(entries.iter().all(|e| !e.is_current));
}

#[test]
fn list_contexts_empty_fails() {
    let mut config = sample_config();
    config.contexts = vec![];
    let kman = Kman::new(config);
    assert_eq!(kman.list_contexts(), Err(KmanError::EmptyConfig));
}

#[test]
fn get_all_contexts_in_order() {
    let kman = Kman::new(sample_config());
    assert_eq!(kman.get_all_contexts(), vec!["dev".to_owned(), "prod".to_owned()]);
}

#[test]
fn select_context_switches_current() {
    let mut kman = Kman::new(sample_config());
    assert_eq!(kman.select_context("prod".to_owned()), Ok(()));
    assert_eq!(kman.kubeconfig.current_context, "prod");
    let entries = kman.list_contexts().unwrap();
    assert_eq!(entries[0], ContextEntry { name: "dev".to_owned(), is_current: false });
    assert_eq!(entries[1], ContextEntry { name: "prod".to_owned(), is_current: true });
}

#[test]
fn select_context_absent_fails_and_keeps_model() {
    let mut kman = Kman::new(sample_config());
    assert_eq!(kman.select_context("staging".to_owned()), Err(KmanError::ContextNotFound));
    assert_eq!(kman.kubeconfig, sample_config());
    assert_eq!(kman.kubeconfig.current_context, "dev");
}

#[test]
fn get_user_from_context_name_resolves() {
    let kman = Kman::new(sample_config());
    assert_eq!(kman.get_user_from_context_name("prod".to_owned()), Ok("alice".to_owned()));
    assert_eq!(
        kman.get_user_from_context_name("staging".to_owned()),
        Err(KmanError::ContextNotFound)
    );
}

#[test]
fn apply_token_changes_only_the_matching_user() {
    let mut kman = Kman::new(sample_config());
    assert_eq!(kman.apply_token("alice", GOOD_TOKEN), Ok(()));
    let mut expected = sample_config();
    expected.users[1].user.token = GOOD_TOKEN.to_owned();
    assert_eq!(kman.kubeconfig, expected);
}

#[test]
fn apply_token_duplicate_names_touch_first_only() {
    let mut config = sample_config();
    config.users = vec![
        named_user("alice", "sha256~first"),
        named_user("alice", "sha256~second"),
    ];
    let mut kman = Kman::new(config);
    assert_eq!(kman.apply_token("alice", GOOD_TOKEN), Ok(()));
    assert_eq!(kman.kubeconfig.users[0].user.token, GOOD_TOKEN);
    assert_eq!(kman.kubeconfig.users[1].user.token, "sha256~second");
}

#[test]
fn apply_token_unknown_user_fails_and_keeps_model() {
    let mut kman = Kman::new(sample_config());
    assert_eq!(kman.apply_token("carol", GOOD_TOKEN), Err(KmanError::UserNotFound));
    assert_eq!(kman.kubeconfig, sample_config());
}

#[test]
fn update_token_refreshes_named_context() {
    let mut kman = Kman::new(sample_config());
    assert_eq!(kman.update_token(Some("prod".to_owned()), GOOD_TOKEN), Ok(()));
    let mut expected = sample_config();
    expected.users[1].user.token = GOOD_TOKEN.to_owned();
    assert_eq!(kman.kubeconfig, expected);
}

#[test]
fn update_token_defaults_to_current_context() {
    let mut kman = Kman::new(sample_config());
    assert_eq!(kman.update_token(None, GOOD_TOKEN), Ok(()));
    let mut expected = sample_config();
    expected.users[0].user.token = GOOD_TOKEN.to_owned();
    assert_eq!(kman.kubeconfig, expected);
}

#[test]
fn update_token_rejects_malformed_token() {
    let mut kman = Kman::new(sample_config());
    assert_eq!(
        kman.update_token(Some("prod".to_owned()), "not-a-token"),
        Err(KmanError::InvalidTokenFormat)
    );
    assert_eq!(kman.kubeconfig, sample_config());
}

#[test]
fn update_token_unknown_context_fails() {
    let mut kman = Kman::new(sample_config());
    assert_eq!(
        kman.update_token(Some("staging".to_owned()), GOOD_TOKEN),
        Err(KmanError::ContextNotFound)
    );
    assert_eq!(kman.kubeconfig, sample_config());
}

#[test]
fn update_token_dangling_user_reference_fails() {
    let mut config = sample_config();
    config.contexts.push(named_context("qa", "c1", "carol"));
    let mut kman = Kman::new(config.clone());
    assert_eq!(
        kman.update_token(Some("qa".to_owned()), GOOD_TOKEN),
        Err(KmanError::UserNotFound)
    );
    assert_eq!(kman.kubeconfig, config);
}

#[test]
fn render_marks_current_line() {
    let kman = Kman::new(sample_config());
    let entries = kman.list_contexts().unwrap();
    assert_eq!(render_context_list(&entries), "* dev\nprod\n");
}

#[test]
fn error_messages_name_the_failure() {
    assert_eq!(KmanError::EmptyConfig.message(), "Kubeconfig does not contain any contexts");
    assert_eq!(KmanError::ContextNotFound.message(), "Given context does not exist");
    assert_eq!(
        KmanError::UserNotFound.message(),
        "Context references a user that does not exist"
    );
    assert!(KmanError::InvalidTokenFormat.message().starts_with("Incorrect token given."));
    assert_eq!(KmanError::Decode.message(), "Given file is not a valid Kubeconfig");
}
