use k8sfwd::config::port_forward_config::PortForwardConfig;
use k8sfwd::config::resource_type::ResourceType;
use k8sfwd::config::tag::{Tag, TagSet};
use k8sfwd::config::tag_selection::TagSelection;
use k8sfwd::target_filter::{select_targets, MatchesAnyFilter, TargetFilter};
use k8sfwd::banner::Banner;

fn tagged_target(name: &str, display: Option<&str>, tags: &[&str]) -> PortForwardConfig {
    let mut set = TagSet::new();
    for t in tags {
        set.insert(Tag::new_unchecked(t));
    }
    PortForwardConfig {
        source_file: None,
        name: display.map(String::from),
        tags: set,
        context: None,
        cluster: None,
        listen_addrs: Vec::new(),
        namespace: String::from("default"),
        resource_type: ResourceType::Service,
        target: String::from(name),
        ports: Vec::new(),
    }
}

#[test]
fn filter_is_a_case_insensitive_prefix() {
    let t = tagged_target("API-server", Some("Billing API"), &[]);
    assert!(TargetFilter::from_str("api").matches(&t));
    assert!(TargetFilter::from_str("BILL").matches(&t));
    assert!(!TargetFilter::from_str("server").matches(&t));
    assert!(TargetFilter::from_str("").matches(&t));
    assert!(TargetFilter::from_str("").is_empty());
}

#[test]
fn selection_is_the_and_of_both_dimensions() {
    let targets = vec![
        tagged_target("api", None, &["web"]),
        tagged_target("db", None, &["data"]),
        tagged_target("api-test", None, &["web", "test"]),
    ];
    let tags = vec![TagSelection::from_str("web").unwrap()];
    let filters = vec![TargetFilter::from_str("api")];
    let selected = select_targets(targets, &tags, &filters);
    let names: Vec<&str> = selected.iter().map(|(_, t)| t.target.as_str()).collect();
    assert_eq!(names, vec!["api", "api-test"]);
    // Identifiers are assigned sequentially in selection order.
    assert_eq!(selected[0].0.display(), "#0");
    assert_eq!(selected[1].0.display(), "#1");
}

#[test]
fn empty_selections_select_everything() {
    let targets = vec![
        tagged_target("api", None, &["web"]),
        tagged_target("db", None, &[]),
    ];
    let selected = select_targets(targets, &Vec::new(), &Vec::new());
    assert_eq!(selected.len(), 2);
}

#[test]
fn conjunction_needs_every_tag() {
    // `foo+bar` matches a superset of its tags, not a partial overlap.
    let expr = TagSelection::from_str("foo+bar").unwrap();
    let mut with_all = TagSet::new();
    with_all.insert(Tag::new_unchecked("foo"));
    with_all.insert(Tag::new_unchecked("bar"));
    with_all.insert(Tag::new_unchecked("baz"));
    let mut only_foo = TagSet::new();
    only_foo.insert(Tag::new_unchecked("foo"));
    assert!(expr.matches(&with_all));
    assert!(!expr.matches(&only_foo));
}

#[test]
fn banner_is_present() {
    assert!(!Banner::text().is_empty());
}
