use k8sfwd::config::visit_tracker::{FileIdentity, VisitTracker};
use k8sfwd::config::{
    autofill_action, apply_autofill, plan_config_sources, AutofillAction, AutofillAnswer,
    DirCandidate, ExplicitSource, FindConfigFileError,
};
use k8sfwd::config::port_forward_config::PortForwardConfig;
use k8sfwd::config::resource_type::ResourceType;
use k8sfwd::config::tag::TagSet;

fn fid(n: u64) -> FileIdentity {
    FileIdentity { device: 1, index: n }
}

fn dir(n: u64, path: &str, has_config: bool) -> DirCandidate {
    DirCandidate {
        identity: fid(n),
        file_path: String::from(path),
        canonical_file_path: format!("/canon{path}"),
        has_config,
    }
}

#[test]
fn tracker_reports_revisits() {
    let mut tracker = VisitTracker::default();
    assert!(!tracker.track_directory(fid(7)));
    assert!(tracker.track_directory(fid(7)));
    assert!(!tracker.track_directory(fid(8)));
    assert!(!tracker.track_file_path(None));
    assert!(tracker.track_file_path(Some(fid(8))));
}

#[test]
fn symlinked_directory_is_visited_once() {
    // The same physical directory is reached twice: once directly and
    // once through a symlinked path. Only the first visit yields a source.
    let hierarchy = vec![
        dir(10, "/work/.k8sfwd", true),
        dir(10, "/work/link/.k8sfwd", true),
        dir(11, "/.k8sfwd", true),
    ];
    let sources = plan_config_sources(&Vec::new(), &hierarchy, &None, &None, "/work")
        .expect("sources exist");
    assert_eq!(sources.len(), 2);
    assert!(sources[0].auto_detected);
    assert!(!sources[0].load_config_only);
}

#[test]
fn explicit_files_come_first_and_deduplicate() {
    let explicit = vec![
        ExplicitSource {
            path: String::from("a.yaml"),
            file_identity: fid(1),
            parent_identity: Some(fid(100)),
        },
        ExplicitSource {
            path: String::from("a-again.yaml"),
            file_identity: fid(1),
            parent_identity: Some(fid(100)),
        },
        ExplicitSource {
            path: String::from("b.yaml"),
            file_identity: fid(2),
            parent_identity: Some(fid(100)),
        },
    ];
    // The hierarchy reaches the explicit files' directory: it is skipped.
    let hierarchy = vec![dir(100, "/work/.k8sfwd", true), dir(101, "/.k8sfwd", true)];
    let sources =
        plan_config_sources(&explicit, &hierarchy, &None, &None, "/work").expect("sources exist");
    let paths: Vec<&str> = sources.iter().map(|m| m.path.as_str()).collect();
    assert_eq!(paths.len(), 3);
    assert_eq!(paths[0], "a.yaml");
    assert_eq!(paths[1], "b.yaml");
    // Explicit sources load everything; ambient ones only settings.
    assert!(!sources[0].load_config_only);
    assert!(sources[2].auto_detected);
    assert!(sources[2].load_config_only);
}

#[test]
fn home_and_config_dir_are_checked_once() {
    let hierarchy = vec![dir(1, "/work/.k8sfwd", false), dir(2, "/.k8sfwd", false)];
    let home = Some(dir(3, "/home/u/.k8sfwd", true));
    // The platform configuration directory is the home directory again.
    let config_dir = Some(dir(3, "/home/u/.config/.k8sfwd", true));
    let sources = plan_config_sources(&Vec::new(), &hierarchy, &home, &config_dir, "/work")
        .expect("sources exist");
    assert_eq!(sources.len(), 1);
    assert_eq!(sources[0].path, "/home/u/.k8sfwd");
}

#[test]
fn nothing_found_is_an_error() {
    let hierarchy = vec![dir(1, "/work/.k8sfwd", false)];
    let r = plan_config_sources(&Vec::new(), &hierarchy, &None, &None, "/work");
    assert!(matches!(r, Err(FindConfigFileError::FileNotFound)));
}

#[test]
fn close_paths_are_reported_relative() {
    // Within four levels of the working directory the reported path is
    // relative to it; further up, the canonical path is reported.
    let hierarchy = vec![
        dir(1, "/work/a/.k8sfwd", true),
        dir(2, "/x2/.k8sfwd", false),
        dir(3, "/x3/.k8sfwd", false),
        dir(4, "/x4/.k8sfwd", false),
        dir(5, "/far/away/.k8sfwd", true),
    ];
    let sources = plan_config_sources(&Vec::new(), &hierarchy, &None, &None, "/work")
        .expect("sources exist");
    assert_eq!(sources.len(), 2);
    assert_eq!(sources[0].path, "a/.k8sfwd");
    assert_eq!(sources[1].path, "/canon/far/away/.k8sfwd");
}

fn bare_target(context: Option<&str>, cluster: Option<&str>) -> PortForwardConfig {
    PortForwardConfig {
        source_file: None,
        name: None,
        tags: TagSet::new(),
        context: context.map(String::from),
        cluster: cluster.map(String::from),
        listen_addrs: Vec::new(),
        namespace: String::from("default"),
        resource_type: ResourceType::Service,
        target: String::from("api"),
        ports: Vec::new(),
    }
}

#[test]
fn context_resolution_decisions() {
    assert!(matches!(
        autofill_action(&bare_target(Some("c"), Some("k"))),
        AutofillAction::Keep
    ));
    match autofill_action(&bare_target(Some("c"), None)) {
        AutofillAction::LookupClusterOf { context } => assert_eq!(context, "c"),
        _ => panic!("the cluster of the context must be looked up"),
    }
    match autofill_action(&bare_target(None, Some("k"))) {
        AutofillAction::LookupContextOf { cluster } => assert_eq!(cluster, "k"),
        _ => panic!("the context of the cluster must be looked up"),
    }
    assert!(matches!(
        autofill_action(&bare_target(None, None)),
        AutofillAction::UseCurrent
    ));
}

#[test]
fn context_resolution_is_best_effort() {
    let mut t = bare_target(Some("c"), None);
    apply_autofill(&mut t, AutofillAnswer::Cluster(None));
    assert_eq!(t.cluster, None);
    apply_autofill(&mut t, AutofillAnswer::Cluster(Some(String::from("k"))));
    assert_eq!(t.cluster, Some(String::from("k")));

    let mut t = bare_target(None, None);
    apply_autofill(
        &mut t,
        AutofillAnswer::Current {
            context: String::from("active"),
            cluster: None,
        },
    );
    assert_eq!(t.context, Some(String::from("active")));
    assert_eq!(t.cluster, None);
}
