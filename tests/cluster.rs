use kube_viewer::cluster::{Cluster, ClusterEndpoint, ClusterId, Clusters, NamedCluster};
use kube_viewer::load_status::SimpleLoadStatus;
use kube_viewer::user_config::{UserConfig, WindowId};
use kube_viewer::config_watch::{locate, plan, ConfigSource, WatchPlan};

fn named(name: &str) -> NamedCluster {
    NamedCluster {
        name: name.to_string(),
        cluster: Some(ClusterEndpoint { server: Some(format!("https://{name}")), proxy_url: None }),
    }
}

fn id(s: &str) -> ClusterId {
    ClusterId::new(s.to_string())
}

fn a_b_default_a() -> Clusters {
    Clusters::from_config(vec![named("A"), named("B")], Some("A".to_string()))
}

#[test]
fn resolve_selection_falls_back_to_default() {
    let clusters = a_b_default_a();
    assert_eq!(clusters.selected_or_context_cluster(None), Some(id("A")));
    assert_eq!(clusters.selected_or_context_cluster(Some(id("C"))), Some(id("A")));
    assert_eq!(clusters.selected_or_context_cluster(Some(id("B"))), Some(id("B")));
}

#[test]
fn resolve_selection_without_known_default_is_none() {
    let clusters = Clusters::from_config(vec![named("A")], Some("Z".to_string()));
    assert_eq!(clusters.selected_or_context_cluster(None), None);
    assert_eq!(clusters.selected_or_context_cluster(Some(id("C"))), None);
    assert_eq!(clusters.current_context_cluster_id(), None);
    let empty = Clusters::empty();
    assert_eq!(empty.selected_or_context_cluster(Some(id("A"))), None);
}

#[test]
fn config_entries_without_parameters_are_skipped_and_later_duplicate_wins() {
    let mut second_a = named("A");
    second_a.cluster = Some(ClusterEndpoint { server: Some("https://second".to_string()), proxy_url: None });
    let clusters = Clusters::from_config(
        vec![named("A"), NamedCluster { name: "X".to_string(), cluster: None }, second_a],
        None,
    );
    assert_eq!(clusters.clusters().len(), 1);
    assert!(!clusters.contains(&id("X")));
    let a = clusters.get_cluster(&id("A")).unwrap();
    assert_eq!(a.server, Some("https://second".to_string()));
    assert_eq!(a.load_status, SimpleLoadStatus::Initial);
}

#[test]
fn cluster_try_from_needs_parameters() {
    assert!(Cluster::try_from(NamedCluster { name: "X".to_string(), cluster: None }).is_none());
    let c = Cluster::try_from(named("A")).unwrap();
    assert_eq!(c.id, id("A"));
    assert_eq!(c.nickname, None);
}

#[test]
fn load_status_of_known_cluster_can_be_set() {
    let mut clusters = a_b_default_a();
    assert!(clusters.set_load_status(&id("B"), SimpleLoadStatus::Loaded));
    assert!(clusters.is_loaded(&id("B")));
    assert!(!clusters.is_loaded(&id("A")));
    assert!(!clusters.set_load_status(&id("Q"), SimpleLoadStatus::Loaded));
}

#[test]
fn user_config_prefers_window_selection_then_global() {
    let mut config = UserConfig::new();
    let w1 = WindowId::new("w1".to_string());
    let w2 = WindowId::new("w2".to_string());
    assert_eq!(config.get_selected_cluster(&w1), None);
    config.set_selected_cluster(w1.clone(), id("A"));
    config.set_selected_cluster(w2.clone(), id("B"));
    assert_eq!(config.get_selected_cluster(&w1), Some(id("A")));
    assert_eq!(config.get_selected_cluster(&w2), Some(id("B")));
    config.clear_window_config(&w1);
    assert_eq!(config.get_selected_cluster(&w1), Some(id("B")));
    assert_eq!(config.window_configs.len(), 1);
}

#[test]
fn config_source_prefers_explicit_paths_then_default() {
    let explicit = locate(Some(vec![String::new(), "/a".to_string()]), Some("/home/.kube/config".to_string()), true);
    assert_eq!(explicit, ConfigSource::Explicit(vec!["/a".to_string()]));
    assert_eq!(plan(explicit), WatchPlan::Listen(vec!["/a".to_string()]));
    let default = locate(Some(vec![String::new()]), Some("/d".to_string()), true);
    assert_eq!(default, ConfigSource::Default("/d".to_string()));
    assert_eq!(plan(default), WatchPlan::Listen(vec!["/d".to_string()]));
    let absent = locate(None, Some("/d".to_string()), false);
    assert_eq!(absent, ConfigSource::Absent);
    assert_eq!(plan(absent), WatchPlan::Poll(30));
}
