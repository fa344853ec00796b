use k8sfwd::config::merge_with::MergeWith;
use k8sfwd::config::operational_config::OperationalConfig;
use k8sfwd::config::port::Port;
use k8sfwd::config::port_forward_config::PortForwardConfig;
use k8sfwd::config::port_forward_configs::{merge_documents, PortForwardConfigs};
use k8sfwd::config::resource_type::ResourceType;
use k8sfwd::config::retry_delay::RetryDelay;
use k8sfwd::config::tag::{Tag, TagSet};
use k8sfwd::config::version::Version;
use k8sfwd::config::{sanitize_config, ConfigMeta};
use k8sfwd::config::port_forward_configs::finalize_document;

fn target(name: &str) -> PortForwardConfig {
    PortForwardConfig {
        source_file: None,
        name: None,
        tags: TagSet::new(),
        context: None,
        cluster: None,
        listen_addrs: Vec::new(),
        namespace: String::from("default"),
        resource_type: ResourceType::Service,
        target: String::from(name),
        ports: Vec::new(),
    }
}

#[test]
fn test_operational_default() {
    let mut config = OperationalConfig {
        retry_delay_sec: None,
    };
    assert_eq!(config.retry_delay_sec, None);

    config.sanitize();
    assert_eq!(config.retry_delay_sec, Some(RetryDelay::default()));
}

#[test]
fn test_operational() {
    // A document declaring `retry_delay_sec: 3.14` arrives as 3140 ms.
    let config = OperationalConfig {
        retry_delay_sec: Some(RetryDelay::from_millis(3140)),
    };
    assert_eq!(config.retry_delay_sec, Some(RetryDelay::from_millis(3140)));
}

#[test]
fn port_forward_configs_test_entire_config() {
    let mut first = target("foo");
    first.name = Some(String::from("Test API (Staging)"));
    first.namespace = String::from("bar");
    first.listen_addrs = vec![String::from("127.0.0.1")];
    first.ports = vec![
        Port::parse_str("5012:80").unwrap(),
        Port::from_number(8080).unwrap(),
    ];
    let mut second = target("foo");
    second.name = Some(String::from("Test API (Production)"));
    second.namespace = String::from("bar");
    second.cluster = Some(String::from("production"));
    second.listen_addrs = vec![String::from("127.1.0.1")];
    second.ports = vec![Port::parse_str("5012:80").unwrap()];

    let config = PortForwardConfigs {
        version: Version::parse("0.1.0").unwrap(),
        config: Some(OperationalConfig {
            retry_delay_sec: Some(RetryDelay::from_millis(3140)),
        }),
        targets: vec![first, second],
    };
    assert_eq!(config.targets.len(), 2);
}

#[test]
fn portfwd_test_entire_config() {
    let config = PortForwardConfigs {
        version: Version::parse("0.1.0").unwrap(),
        config: None,
        targets: vec![target("foo"), target("foo")],
    };
    assert_eq!(config.targets.len(), 2);
}

#[test]
fn merge_precedence_example() {
    // The closer document defines `api` with tag `a`; the farther one
    // defines it with tag `b` and a cluster.
    let mut a = target("api");
    a.tags.insert(Tag::new_unchecked("a"));
    let mut b = target("api");
    b.tags.insert(Tag::new_unchecked("b"));
    b.cluster = Some(String::from("prod"));

    a.merge_with(&b);
    assert!(a.tags.contains(&Tag::new_unchecked("a")));
    assert!(a.tags.contains(&Tag::new_unchecked("b")));
    assert_eq!(a.tags.len(), 2);
    assert_eq!(a.cluster, Some(String::from("prod")));
}

#[test]
fn merge_keeps_present_values() {
    let mut a = target("api");
    a.cluster = Some(String::from("staging"));
    a.context = None;
    a.ports = vec![Port::from_number(80).unwrap()];
    let mut b = target("api");
    b.cluster = Some(String::from("prod"));
    b.context = Some(String::from("ctx"));
    b.ports = vec![Port::from_number(443).unwrap()];

    a.merge_with(&b);
    // Present values survive; absent ones are backfilled.
    assert_eq!(a.cluster, Some(String::from("staging")));
    assert_eq!(a.context, Some(String::from("ctx")));
    // A present port list is never replaced.
    assert_eq!(a.ports, vec![Port::from_number(80).unwrap()]);
}

#[test]
fn merge_adopts_ports_only_when_none() {
    let mut a = target("api");
    let mut b = target("api");
    b.ports = vec![Port::from_number(443).unwrap()];
    a.merge_with(&b);
    assert_eq!(a.ports, vec![Port::from_number(443).unwrap()]);
}

#[test]
fn merged_targets_are_unique() {
    let doc_close = PortForwardConfigs {
        version: Version::new(0, 1, 0),
        config: None,
        targets: vec![target("api"), target("db")],
    };
    let mut far_api = target("api");
    far_api.cluster = Some(String::from("prod"));
    let doc_far = PortForwardConfigs {
        version: Version::new(0, 2, 0),
        config: Some(OperationalConfig {
            retry_delay_sec: Some(RetryDelay::from_millis(2000)),
        }),
        targets: vec![far_api, target("cache")],
    };
    let merged = merge_documents(&vec![doc_close, doc_far]);

    // The closest document's version stands; the first delay found wins.
    assert_eq!(merged.version, Version::new(0, 1, 0));
    assert_eq!(
        merged.config.unwrap().retry_delay_sec,
        Some(RetryDelay::from_millis(2000))
    );

    // No two resolved targets share a name, in first-appearance order,
    // and a record's absent fields are backfilled across documents.
    let names: Vec<&str> = merged.targets.iter().map(|t| t.target.as_str()).collect();
    assert_eq!(names, vec!["api", "db", "cache"]);
    assert_eq!(merged.targets[0].cluster, Some(String::from("prod")));
    assert_eq!(merged.targets[1].cluster, None);
}

#[test]
fn merge_unions_listen_addrs_in_order() {
    let mut a = target("api");
    a.listen_addrs = vec![String::from("127.0.0.1"), String::from("localhost")];
    let mut b = target("api");
    b.listen_addrs = vec![String::from("localhost"), String::from("[::1]")];
    a.merge_with(&b);
    assert_eq!(
        a.listen_addrs,
        vec![
            String::from("127.0.0.1"),
            String::from("localhost"),
            String::from("[::1]")
        ]
    );
}

#[test]
fn version_gate() {
    let doc = PortForwardConfigs {
        version: Version::parse("0.4.0").unwrap(),
        config: None,
        targets: vec![target("api")],
    };
    assert!(!doc.is_supported_version());
    let err = doc.check_version().unwrap_err();
    assert_eq!(err.version, Version::new(0, 4, 0));

    let ok = PortForwardConfigs {
        version: Version::parse("0.1.0").unwrap(),
        config: None,
        targets: Vec::new(),
    };
    assert!(ok.is_supported_version());
    assert!(ok.check_version().is_ok());
}

#[test]
fn version_range_is_a_parameter() {
    let doc = PortForwardConfigs {
        version: Version::new(1, 4, 2),
        config: None,
        targets: Vec::new(),
    };
    assert!(doc.is_version_in_range(&Version::new(1, 0, 0), &Version::new(2, 0, 0)));
    assert!(!doc.is_version_in_range(&Version::new(0, 1, 0), &Version::new(0, 3, 0)));
}

#[test]
fn version_parse_reads_semver() {
    assert_eq!(Version::parse("1.2.3"), Some(Version::new(1, 2, 3)));
    assert_eq!(Version::parse("0.1.0"), Some(Version::new(0, 1, 0)));
    assert_eq!(Version::parse("not a version"), None);
    assert_eq!(Version::parse(""), None);
    // Pre-release labels and metadata do not take part in the range check.
    assert_eq!(Version::parse("1.2.3-alpha.1+sha.5114f85"), Some(Version::new(1, 2, 3)));
    assert_eq!(Version::new(1, 2, 3).display(), "1.2.3");
}

#[test]
fn sanitize_fills_missing_delay() {
    let mut doc = PortForwardConfigs {
        version: Version::new(0, 1, 0),
        config: None,
        targets: Vec::new(),
    };
    sanitize_config(&mut doc);
    assert_eq!(
        doc.config.unwrap().retry_delay_sec,
        Some(RetryDelay::from_millis(5000))
    );

    let mut doc = PortForwardConfigs {
        version: Version::new(0, 1, 0),
        config: Some(OperationalConfig {
            retry_delay_sec: Some(RetryDelay::from_millis(2000)),
        }),
        targets: Vec::new(),
    };
    sanitize_config(&mut doc);
    assert_eq!(
        doc.config.unwrap().retry_delay_sec,
        Some(RetryDelay::from_millis(2000))
    );
}

#[test]
fn finalize_stamps_provenance_or_strips_targets() {
    let mut doc = PortForwardConfigs {
        version: Version::new(0, 1, 0),
        config: None,
        targets: vec![target("api")],
    };
    let source = ConfigMeta {
        path: String::from(".k8sfwd"),
        auto_detected: true,
        load_config_only: false,
    };
    finalize_document(&mut doc, &source);
    assert_eq!(doc.targets[0].source_file, Some(String::from(".k8sfwd")));

    let mut doc = PortForwardConfigs {
        version: Version::new(0, 1, 0),
        config: Some(OperationalConfig {
            retry_delay_sec: Some(RetryDelay::from_millis(1000)),
        }),
        targets: vec![target("api")],
    };
    let settings_only = ConfigMeta {
        path: String::from("~/.k8sfwd"),
        auto_detected: true,
        load_config_only: true,
    };
    finalize_document(&mut doc, &settings_only);
    assert!(doc.targets.is_empty());
    assert!(doc.config.is_some());
}
