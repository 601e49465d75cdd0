use kube_viewer::cache::{CacheMessage, ResourceCache};
use kube_viewer::delete::{delete_report, plan_delete, DeleteError, DeletePlan};
use kube_viewer::pod::{Pod, PodId};

fn pod(name: &str, namespace: &str) -> Pod {
    Pod {
        id: PodId::new(name.to_string()),
        name: name.to_string(),
        namespace: namespace.to_string(),
        ..Default::default()
    }
}

fn pid(s: &str) -> PodId {
    PodId::new(s.to_string())
}

#[test]
fn bulk_delete_groups_by_namespace_and_reports_each_failure() {
    let cache = ResourceCache::with_entries(vec![pod("pod1", "ns-a"), pod("pod2", "ns-b")]);
    let plan = plan_delete(&cache, vec![pid("pod1"), pid("pod2")]).unwrap();
    let (groups, not_found) = match plan {
        DeletePlan::Grouped { groups, not_found } => (groups, not_found),
        _ => panic!("expected a grouped plan"),
    };
    assert_eq!(groups.len(), 2);
    assert_eq!(groups[0].namespace, "ns-a");
    assert_eq!(groups[0].ids, vec![pid("pod1")]);
    assert_eq!(groups[1].namespace, "ns-b");
    assert!(not_found.is_empty());

    // ns-b fails, ns-a succeeds
    let report = delete_report(&not_found, &vec![(pid("pod2"), "forbidden".to_string())]);
    assert_eq!(report.len(), 1);
    match &report[0] {
        CacheMessage::ToastErrorMessage { message } => {
            assert_eq!(message, "Unable to delete pod with id (pod2), error: forbidden")
        }
        _ => panic!("expected an error message"),
    }
    // the cache is untouched by the delete itself
    assert_eq!(cache.snapshot_filtered().unwrap().len(), 2);
}

#[test]
fn bulk_delete_warns_for_ids_not_cached() {
    let cache = ResourceCache::with_entries(vec![pod("a1", "a"), pod("a2", "a"), pod("b1", "b")]);
    let plan = plan_delete(&cache, vec![pid("a1"), pid("zz"), pid("b1"), pid("a2")]).unwrap();
    match plan {
        DeletePlan::Grouped { groups, not_found } => {
            assert_eq!(groups.len(), 2);
            assert_eq!(groups[0].ids, vec![pid("a1"), pid("a2")]);
            assert_eq!(groups[1].ids, vec![pid("b1")]);
            assert_eq!(not_found, vec![pid("zz")]);
            let report = delete_report(&not_found, &vec![]);
            match &report[0] {
                CacheMessage::ToastWarningMessage { message } => {
                    assert_eq!(message, "Pod with id (zz) not found, unable to delete")
                }
                _ => panic!("expected a warning"),
            }
        }
        _ => panic!("expected a grouped plan"),
    }
}

#[test]
fn single_delete_short_circuits() {
    let cache = ResourceCache::with_entries(vec![pod("pod1", "ns-a")]);
    match plan_delete(&cache, vec![pid("pod1")]).unwrap() {
        DeletePlan::Single { namespace, id } => {
            assert_eq!(namespace, "ns-a");
            assert_eq!(id, pid("pod1"));
        }
        _ => panic!("expected a single delete"),
    }
    assert_eq!(
        plan_delete(&cache, vec![pid("nope")]).err(),
        Some(DeleteError::NotFound { id: pid("nope") })
    );
    assert!(matches!(plan_delete(&cache, vec![]), Ok(DeletePlan::Nothing)));
}

#[test]
fn delete_before_load_is_an_error() {
    let cache: ResourceCache<Pod> = ResourceCache::new();
    assert_eq!(plan_delete(&cache, vec![pid("a"), pid("b")]).err(), Some(DeleteError::NotLoaded));
}
