use kube_viewer::callback_queue::CallbackQueue;
use kube_viewer::cluster::{ClusterEndpoint, ClusterId, Clusters, NamedCluster};
use kube_viewer::connection::{ConnectionRegistry, EnsureStep};
use kube_viewer::coordinator::{Coordinator, GlobalMessage};
use kube_viewer::cache::CacheMessage;
use kube_viewer::node::{Node, NodeId};
use kube_viewer::view_model::ResourceViewModel;
use kube_viewer::watch::{WatchEvent, WatchOutcome};

fn id(s: &str) -> ClusterId {
    ClusterId::new(s.to_string())
}

#[test]
fn concurrent_ensures_build_once_and_share_the_connection() {
    let mut registry: ConnectionRegistry<u32> = ConnectionRegistry::new();
    let a = id("A");
    let steps: Vec<EnsureStep> = (0..5).map(|_| registry.ensure(&a)).collect();
    assert_eq!(steps.iter().filter(|s| **s == EnsureStep::Build).count(), 1);
    assert_eq!(steps[0], EnsureStep::Build);
    assert_eq!(registry.waiters(&a), 5);
    assert!(!registry.contains(&a));
    assert_eq!(registry.finish_build(&a, Some(42)), 5);
    assert!(registry.contains(&a));
    assert_eq!(registry.get(&a), Some(&42));
    assert_eq!(registry.ensure(&a), EnsureStep::Ready);
}

#[test]
fn failed_build_is_not_cached_and_next_ensure_retries() {
    let mut registry: ConnectionRegistry<u32> = ConnectionRegistry::new();
    let a = id("A");
    assert_eq!(registry.ensure(&a), EnsureStep::Build);
    assert_eq!(registry.ensure(&a), EnsureStep::Wait);
    assert_eq!(registry.finish_build(&a, None), 2);
    assert!(registry.get(&a).is_none());
    assert_eq!(registry.ensure(&a), EnsureStep::Build);
}

#[test]
fn queued_messages_drain_in_order_once() {
    let mut queue: CallbackQueue<u32> = CallbackQueue::new();
    assert_eq!(queue.emit(1), None);
    assert_eq!(queue.emit(2), None);
    assert_eq!(queue.emit(3), None);
    assert_eq!(queue.attach(), vec![1, 2, 3]);
    assert_eq!(queue.emit(4), Some(4));
    assert_eq!(queue.pending_len(), 0);
    assert_eq!(queue.attach(), Vec::<u32>::new());
}

fn kinds(msgs: &[GlobalMessage]) -> Vec<String> {
    msgs.iter()
        .map(|m| match m {
            GlobalMessage::RefreshClusters => "refresh".to_string(),
            GlobalMessage::ClustersLoaded { clusters } => format!("clusters:{}", clusters.len()),
            GlobalMessage::LoadingClient => "loading".to_string(),
            GlobalMessage::ClientLoaded => "loaded".to_string(),
            GlobalMessage::ClientLoadError { error } => format!("error:{error}"),
        })
        .collect()
}

fn coordinator() -> Coordinator<u32> {
    let clusters = Clusters::from_config(
        vec![NamedCluster {
            name: "A".to_string(),
            cluster: Some(ClusterEndpoint { server: None, proxy_url: None }),
        }],
        Some("A".to_string()),
    );
    Coordinator::new(clusters)
}

#[test]
fn coordinator_buffers_status_until_listener_attaches() {
    let mut c = coordinator();
    let (step, delivered) = c.ensure_connection(&id("A"));
    assert_eq!(step, EnsureStep::Build);
    assert!(delivered.is_empty());
    let (woken, delivered) = c.connection_built(&id("A"), Ok(7));
    assert_eq!(woken, 1);
    assert!(delivered.is_empty());
    assert_eq!(kinds(&c.attach_listener()), vec!["loading", "loaded", "refresh"]);
    assert!(c.contains_connection(&id("A")));
    assert_eq!(c.connection(&id("A")), Some(&7));
    let (step, delivered) = c.ensure_connection(&id("A"));
    assert_eq!(step, EnsureStep::Ready);
    assert!(delivered.is_empty());
}

#[test]
fn coordinator_reports_build_failure_and_marks_cluster() {
    let mut c = coordinator();
    c.attach_listener();
    let (_, delivered) = c.ensure_connection(&id("A"));
    assert_eq!(kinds(&delivered), vec!["loading"]);
    let (_, delivered) = c.connection_built(&id("A"), Err("denied".to_string()));
    assert_eq!(kinds(&delivered), vec!["error:denied", "refresh"]);
    assert!(!c.contains_connection(&id("A")));
    let (_, delivered) = c.ensure_connection(&id("Q"));
    assert_eq!(kinds(&delivered), vec!["loading"]);
    let (_, delivered) = c.connection_built(&id("Q"), Err("no such".to_string()));
    assert_eq!(kinds(&delivered), vec!["error:no such"]);
}

#[test]
fn coordinator_reload_replaces_cluster_set() {
    let mut c = coordinator();
    c.attach_listener();
    let delivered = c.reload_clusters(None);
    assert_eq!(kinds(&delivered), vec!["clusters:0"]);
    assert_eq!(c.resolve_selection(None), None);
}

#[test]
fn view_model_fetch_replaces_subscription_and_keeps_cache_on_stop() {

    let node = |name: &str| Node { id: NodeId::new(name.to_string()), name: name.to_string(), ..Default::default() };
    let mut view: ResourceViewModel<Node> = ResourceViewModel::new();
    assert!(view.snapshot().is_none());
    assert!(view.can_fetch());
    let (first, message) = view.fetch(id("A"));
    assert!(matches!(message, CacheMessage::Loading));
    match view.load_finished(Ok(vec![node("n1")])) {
        CacheMessage::Loaded { items } => assert_eq!(items.len(), 1),
        _ => panic!("expected Loaded"),
    }
    let (second, _) = view.fetch(id("B"));
    assert!(matches!(view.on_event(first, WatchEvent::Applied(node("n2"))), WatchOutcome::Ignored));
    view.load_finished(Ok(vec![node("n1")]));
    assert!(matches!(view.on_event(second, WatchEvent::Applied(node("n2"))), WatchOutcome::Applied(Some(_))));
    view.stop_watch();
    assert!(view.reconcile_tick(second).is_none());
    assert_eq!(view.snapshot().unwrap().len(), 2);
}
