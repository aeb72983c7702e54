use kman::codec::{decode_config, encode_config, DocValue};
use kman::errors::KmanError;
use kman::kubeconfig::{
    Cluster, ClusterContext, KubeConfig, NamedCluster, NamedContext, NamedUser, User,
};

fn full_config() -> KubeConfig {
    KubeConfig {
        api_version: "v1".to_owned(),
        kind: "Config".to_owned(),
        clusters: vec![NamedCluster {
            name: "c1".to_owned(),
            cluster: Cluster {
                server: "https://one:6443".to_owned(),
                tls_server_name: Some("one.example".to_owned()),
                insecure_skip_verify: Some(true),
                certificate_authority: Some("/etc/ca.crt".to_owned()),
                certificate_authority_data: Some(vec![0, 1, 254, 255]),
                proxy_url: Some("socks5://proxy:1080".to_owned()),
                disable_compression: Some(false),
            },
        }],
        contexts: vec![NamedContext {
            name: "dev".to_owned(),
            context: ClusterContext {
                cluster: "c1".to_owned(),
                user: "bob".to_owned(),
                namespace: Some("team".to_owned()),
            },
        }],
        current_context: "dev".to_owned(),
        users: vec![NamedUser {
            name: "bob".to_owned(),
            user: User { token: "sha256~tok".to_owned() },
        }],
    }
}

fn bare_config() -> KubeConfig {
    KubeConfig {
        api_version: "v1".to_owned(),
        kind: "Config".to_owned(),
        clusters: vec![NamedCluster {
            name: "c1".to_owned(),
            cluster: Cluster {
                server: "https://one:6443".to_owned(),
                tls_server_name: None,
                insecure_skip_verify: None,
                certificate_authority: None,
                certificate_authority_data: None,
                proxy_url: None,
                disable_compression: None,
            },
        }],
        contexts: vec![NamedContext {
            name: "dev".to_owned(),
            context: ClusterContext {
                cluster: "c1".to_owned(),
                user: "bob".to_owned(),
                namespace: None,
            },
        }],
        current_context: "dev".to_owned(),
        users: vec![NamedUser {
            name: "bob".to_owned(),
            user: User { token: "sha256~tok".to_owned() },
        }],
    }
}

fn scalar_pairs() -> Vec<(String, DocValue)> {
    vec![
        ("apiVersion".to_owned(), DocValue::Text("v1".to_owned())),
        ("kind".to_owned(), DocValue::Text("Config".to_owned())),
        ("clusters".to_owned(), DocValue::List(vec![])),
        ("contexts".to_owned(), DocValue::List(vec![])),
        ("current-context".to_owned(), DocValue::Text("dev".to_owned())),
        ("users".to_owned(), DocValue::List(vec![])),
    ]
}

#[test]
fn round_trip_preserves_every_field() {
    let config = full_config();
    let doc = encode_config(&config);
    assert_eq!(decode_config(&doc), Ok(full_config()));
}

#[test]
fn round_trip_preserves_absent_optional_fields() {
    let config = bare_config();
    let doc = encode_config(&config);
    assert_eq!(decode_config(&doc), Ok(bare_config()));
}

#[test]
fn decode_rejects_missing_required_field() {
    let pairs: Vec<(String, DocValue)> =
        scalar_pairs().into_iter().filter(|(k, _)| k != "kind").collect();
    assert_eq!(decode_config(&DocValue::Mapping(pairs)), Err(KmanError::Decode));
}

#[test]
fn decode_rejects_ill_typed_required_field() {
    let pairs: Vec<(String, DocValue)> = scalar_pairs()
        .into_iter()
        .map(|(k, v)| if k == "kind" { (k, DocValue::Bool(true)) } else { (k, v) })
        .collect();
    assert_eq!(decode_config(&DocValue::Mapping(pairs)), Err(KmanError::Decode));
}

#[test]
fn decode_rejects_non_mapping_document() {
    assert_eq!(decode_config(&DocValue::Text("nope".to_owned())), Err(KmanError::Decode));
    assert_eq!(decode_config(&DocValue::Null), Err(KmanError::Decode));
}

#[test]
fn decode_ignores_unknown_keys() {
    let mut pairs = scalar_pairs();
    pairs.push(("unknown-extension".to_owned(), DocValue::Bool(true)));
    let decoded = decode_config(&DocValue::Mapping(pairs)).unwrap();
    assert_eq!(decoded.kind, "Config");
    assert_eq!(decoded.current_context, "dev");
    assert!(decoded.clusters.is_empty());
}

#[test]
fn decode_takes_first_occurrence_of_duplicate_key() {
    let mut pairs = scalar_pairs();
    pairs.push(("kind".to_owned(), DocValue::Text("Shadowed".to_owned())));
    let decoded = decode_config(&DocValue::Mapping(pairs)).unwrap();
    assert_eq!(decoded.kind, "Config");
}

#[test]
fn decode_rejects_byte_out_of_range() {
    let doc = encode_config(&bare_config());
    let pairs = match doc {
        DocValue::Mapping(pairs) => pairs
            .into_iter()
            .map(|(k, v)| {
                if k == "clusters" {
                    let cluster_pairs = vec![
                        ("name".to_owned(), DocValue::Text("c1".to_owned())),
                        (
                            "cluster".to_owned(),
                            DocValue::Mapping(vec![
                                ("server".to_owned(), DocValue::Text("s".to_owned())),
                                (
                                    "certificate_authority_data".to_owned(),
                                    DocValue::List(vec![DocValue::Num(300)]),
                                ),
                            ]),
                        ),
                    ];
                    (k, DocValue::List(vec![DocValue::Mapping(cluster_pairs)]))
                } else {
                    (k, v)
                }
            })
            .collect::<Vec<_>>(),
        _ => unreachable!(),
    };
    assert_eq!(decode_config(&DocValue::Mapping(pairs)), Err(KmanError::Decode));
}

#[test]
fn decode_accepts_missing_optional_keys_in_cluster() {
    let cluster_pairs = vec![("server".to_owned(), DocValue::Text("https://x".to_owned()))];
    let named = DocValue::Mapping(vec![
        ("name".to_owned(), DocValue::Text("c1".to_owned())),
        ("cluster".to_owned(), DocValue::Mapping(cluster_pairs)),
    ]);
    let pairs = vec![
        ("apiVersion".to_owned(), DocValue::Text("v1".to_owned())),
        ("kind".to_owned(), DocValue::Text("Config".to_owned())),
        ("clusters".to_owned(), DocValue::List(vec![named])),
        ("contexts".to_owned(), DocValue::List(vec![])),
        ("current-context".to_owned(), DocValue::Text("dev".to_owned())),
        ("users".to_owned(), DocValue::List(vec![])),
    ];
    let decoded = decode_config(&DocValue::Mapping(pairs)).unwrap();
    assert_eq!(decoded.clusters[0].cluster.server, "https://x");
    assert_eq!(decoded.clusters[0].cluster.tls_server_name, None);
    assert_eq!(decoded.clusters[0].cluster.certificate_authority_data, None);
}
