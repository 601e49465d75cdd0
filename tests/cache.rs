use kube_viewer::cache::{CacheMessage, ResourceCache};
use kube_viewer::pod::{Container, Phase, Pod, PodId};
use kube_viewer::watch::{WatchDriver, WatchEvent, WatchOutcome};
use kube_viewer::cluster::ClusterId;

fn pod(name: &str, namespace: &str, image: &str) -> Pod {
    Pod {
        id: PodId::new(name.to_string()),
        name: name.to_string(),
        namespace: namespace.to_string(),
        containers: vec![Container { image: image.to_string(), ..Default::default() }],
        ..Default::default()
    }
}

fn loaded_names(m: &CacheMessage<Pod>) -> Vec<(String, String)> {
    match m {
        CacheMessage::Loaded { items } => items
            .iter()
            .map(|p| (p.name.clone(), p.containers[0].image.clone()))
            .collect(),
        _ => panic!("expected a Loaded message"),
    }
}

#[test]
fn upsert_of_identical_value_twice_notifies_once() {
    let mut cache: ResourceCache<Pod> = ResourceCache::with_entries(vec![]);
    let first = cache.apply_upsert(pod("pod1", "ns-a", "v1"));
    assert!(first.is_some());
    let second = cache.apply_upsert(pod("pod1", "ns-a", "v1"));
    assert!(second.is_none());
    assert_eq!(cache.snapshot_filtered().unwrap().len(), 1);
}

#[test]
fn identical_watch_event_is_silent_and_changed_one_notifies() {
    let mut cache = ResourceCache::with_entries(vec![pod("pod1", "ns-a", "v1")]);
    let mut driver = WatchDriver::new();
    let token = driver.start(ClusterId::new("A".to_string()));

    match driver.handle_event(token, &mut cache, WatchEvent::Applied(pod("pod1", "ns-a", "v1"))) {
        WatchOutcome::Applied(m) => assert!(m.is_none()),
        _ => panic!("expected the event to be applied"),
    }
    match driver.handle_event(token, &mut cache, WatchEvent::Applied(pod("pod1", "ns-a", "v2"))) {
        WatchOutcome::Applied(Some(m)) => {
            assert_eq!(loaded_names(&m), vec![("pod1".to_string(), "v2".to_string())])
        }
        _ => panic!("expected one Loaded message"),
    }
}

#[test]
fn delete_of_present_id_notifies_once_and_absent_id_is_silent() {
    let mut cache = ResourceCache::with_entries(vec![pod("pod1", "a", "v1"), pod("pod2", "a", "v1")]);
    let m = cache.apply_delete(&"pod1".to_string()).unwrap();
    assert_eq!(loaded_names(&m), vec![("pod2".to_string(), "v1".to_string())]);
    assert!(cache.apply_delete(&"pod1".to_string()).is_none());
    assert!(cache.apply_delete(&"missing".to_string()).is_none());
    assert_eq!(cache.snapshot_filtered().unwrap().len(), 1);
}

#[test]
fn not_loaded_cache_ignores_changes_and_has_no_snapshot() {
    let mut cache: ResourceCache<Pod> = ResourceCache::new();
    assert!(cache.snapshot_filtered().is_none());
    assert!(cache.apply_upsert(pod("pod1", "a", "v1")).is_none());
    assert!(cache.apply_delete(&"pod1".to_string()).is_none());
    assert!(cache.set_search("x".to_string()).is_none());
    assert!(!cache.is_loaded());
}

#[test]
fn search_filters_by_id_or_name_and_empty_search_shows_all() {
    let mut cache = ResourceCache::with_entries(vec![
        pod("web-1", "a", "v1"),
        pod("db-1", "a", "v1"),
        pod("web-2", "b", "v1"),
    ]);
    let m = cache.set_search("web".to_string()).unwrap();
    assert_eq!(loaded_names(&m).len(), 2);
    assert_eq!(cache.snapshot_filtered().unwrap()[1].name, "web-2");
    let m = cache.set_search("Web".to_string()).unwrap();
    assert_eq!(loaded_names(&m).len(), 0);
    let m = cache.set_search(String::new()).unwrap();
    assert_eq!(loaded_names(&m).len(), 3);
}

#[test]
fn bulk_load_keeps_later_duplicate_and_failure_records_error() {
    let mut cache: ResourceCache<Pod> = ResourceCache::new();
    assert!(matches!(cache.start_loading(), CacheMessage::Loading));
    let m = cache.finish_load(Ok(vec![pod("p", "a", "v1"), pod("q", "a", "v1"), pod("p", "a", "v2")]));
    assert_eq!(
        loaded_names(&m),
        vec![("p".to_string(), "v2".to_string()), ("q".to_string(), "v1".to_string())]
    );
    cache.start_loading();
    match cache.finish_load(Err("boom".to_string())) {
        CacheMessage::LoadingFailed { error } => assert_eq!(error, "boom"),
        _ => panic!("expected LoadingFailed"),
    }
    assert!(cache.snapshot_filtered().is_none());
}

#[test]
fn stopped_watch_ignores_events_of_the_cancelled_stream() {
    let mut cache = ResourceCache::with_entries(vec![pod("pod1", "a", "v1")]);
    let mut driver = WatchDriver::new();
    let token = driver.start(ClusterId::new("A".to_string()));
    driver.stop_watch();
    assert!(matches!(
        driver.handle_event(token, &mut cache, WatchEvent::Applied(pod("pod2", "a", "v1"))),
        WatchOutcome::Ignored
    ));
    assert!(matches!(
        driver.handle_event(token, &mut cache, WatchEvent::Deleted(pod("pod1", "a", "v1"))),
        WatchOutcome::Ignored
    ));
    assert!(driver.reconcile_tick(token).is_none());
    let snapshot = cache.snapshot_filtered().unwrap();
    assert_eq!(snapshot.len(), 1);
    assert_eq!(snapshot[0].name, "pod1");
}

#[test]
fn restart_of_subscription_retires_old_token_and_restarted_asks_for_reload() {
    let mut cache = ResourceCache::with_entries(vec![pod("pod1", "a", "v1")]);
    let mut driver = WatchDriver::new();
    let old = driver.start(ClusterId::new("A".to_string()));
    let new = driver.start(ClusterId::new("B".to_string()));
    assert_ne!(old, new);
    assert!(!driver.accepts(old));
    assert!(matches!(driver.handle_event(old, &mut cache, WatchEvent::Restarted), WatchOutcome::Ignored));
    match driver.handle_event(new, &mut cache, WatchEvent::Restarted) {
        WatchOutcome::Reload(c) => assert_eq!(c.raw_value, "B"),
        _ => panic!("expected a reload"),
    }
    assert_eq!(driver.reconcile_tick(new).unwrap().raw_value, "B");
}

#[test]
fn phase_is_read_without_regard_to_case() {
    assert_eq!(Phase::from(Some("Running".to_string())), Phase::Running);
    assert_eq!(Phase::from(Some("SUCCEEDED".to_string())), Phase::Succeeded);
    assert_eq!(Phase::from(None), Phase::Pending);
    assert_eq!(
        Phase::from(Some("Evicted".to_string())),
        Phase::Unknown { raw_value: "evicted".to_string() }
    );
}

#[test]
fn total_restart_count_adds_up_containers() {
    let mut p = pod("p", "a", "v1");
    p.containers = vec![
        Container { restart_count: 3, ..Default::default() },
        Container { restart_count: 4, ..Default::default() },
    ];
    assert_eq!(p.total_restart_count(), 7);
    assert_eq!(pod("q", "a", "v").total_restart_count(), 0);
}
