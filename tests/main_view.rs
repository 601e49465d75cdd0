use kube_viewer::cluster::ClusterId;
use kube_viewer::key_handler::{FocusRegion, KeyAwareEvent, KeyHandler};
use kube_viewer::main_view::{get_next_tab_group_focus, get_previous_tab_group_focus, MainViewModel};
use kube_viewer::tab::{BorrowedTabs, Tab, TabGroup, TabGroups};
use kube_viewer::tab_ids::{TabGroupId, TabId};
use kube_viewer::timestamps::unix_to_utc_string;
use kube_viewer::user_config::WindowId;

fn model() -> MainViewModel {
    MainViewModel::new(WindowId::new("w".to_string()), Some(ClusterId::new("A".to_string())))
}

#[test]
fn new_main_view_has_fixed_layout() {
    let m = model();
    let groups = &m.tab_groups().0;
    assert_eq!(groups.len(), 6);
    assert_eq!(groups[0].id, TabGroupId::General);
    assert_eq!(groups[5].id, TabGroupId::AccessControl);
    assert_eq!(groups[5].name, "Access Control");
    assert_eq!(m.tabs().len(), 35);
    assert_eq!(m.tabs()[0].name, "Cluster");
    assert_eq!(m.selected_tab(), TabId::ClusterTab);
    assert!(m.tab_group_expansions().iter().all(|(_, e)| *e));
    assert_eq!(m.current_focus_region(), FocusRegion::SidebarGroup { id: TabGroupId::General });
}

#[test]
fn tab_names_and_group_names() {
    assert_eq!(TabId::HorizontalPodAutoscalers.name(), "HPA");
    assert_eq!(TabId::CronJobs.name(), "Cron Jobs");
    assert_eq!(Tab::new(TabId::Pods, "circle".to_string()).name, "Pods");
    assert_eq!(TabGroup::new(TabGroupId::Helm, vec![]).name, "Helm");
}

#[test]
fn tab_group_navigation() {
    let groups = TabGroups(vec![
        TabGroup::new(TabGroupId::General, vec![]),
        TabGroup::new(TabGroupId::Workloads, vec![]),
        TabGroup::new(TabGroupId::Config, vec![]),
    ]);
    assert_eq!(groups.next_tab_group_id(&TabGroupId::General), Some(TabGroupId::Workloads));
    assert_eq!(groups.next_tab_group_id(&TabGroupId::Config), None);
    assert_eq!(groups.next_tab_group_id(&TabGroupId::Helm), Some(TabGroupId::Workloads));
    assert_eq!(groups.previous_tab_group_id(&TabGroupId::Workloads), Some(TabGroupId::General));
    assert_eq!(groups.previous_tab_group_id(&TabGroupId::General), None);
    assert_eq!(groups.get_index_by_id(&TabGroupId::Config), Some(2));
    assert!(groups.get_by_id(&TabGroupId::Helm).is_none());
    assert_eq!(
        get_next_tab_group_focus(&groups, &TabGroupId::Config),
        FocusRegion::ClusterSelection
    );
    assert_eq!(
        get_previous_tab_group_focus(&groups, &TabGroupId::General),
        FocusRegion::SidebarSearch
    );
    assert_eq!(TabGroups(vec![]).next_tab_group_id(&TabGroupId::General), None);
}

#[test]
fn tab_navigation() {
    let tabs = vec![
        Tab::new(TabId::Pods, "a".to_string()),
        Tab::new(TabId::Jobs, "b".to_string()),
    ];
    let b = BorrowedTabs::from(&tabs);
    assert_eq!(b.next_tab_id(&TabId::Pods), Some(TabId::Jobs));
    assert_eq!(b.next_tab_id(&TabId::Jobs), None);
    assert_eq!(b.previous_tab_id(&TabId::Jobs), Some(TabId::Pods));
    assert_eq!(b.previous_tab_id(&TabId::Pods), None);
    assert_eq!(b.get_by_id(&TabId::Jobs).unwrap().icon, "b");
    assert_eq!(b.get_index_by_id(&TabId::Leases), None);
}

#[test]
fn key_handler_starts_on_first_group() {
    let mut k = KeyHandler::new();
    assert_eq!(k.current_focus_region(), FocusRegion::SidebarGroup { id: TabGroupId::General });
    k.set_current_focus_region(FocusRegion::Content);
    assert_eq!(k.current_focus_region(), FocusRegion::Content);
}

#[test]
fn tab_key_cycles_through_regions() {
    let mut m = model();
    assert!(m.handle_key_input(KeyAwareEvent::TabKey));
    assert_eq!(m.current_focus_region(), FocusRegion::SidebarGroup { id: TabGroupId::Workloads });
    m.set_current_focus_region(FocusRegion::SidebarGroup { id: TabGroupId::AccessControl });
    assert!(m.handle_key_input(KeyAwareEvent::TabKey));
    assert_eq!(m.current_focus_region(), FocusRegion::ClusterSelection);
    assert!(m.handle_key_input(KeyAwareEvent::TabKey));
    assert_eq!(m.current_focus_region(), FocusRegion::Content);
    assert!(m.handle_key_input(KeyAwareEvent::TabKey));
    assert_eq!(m.current_focus_region(), FocusRegion::SidebarSearch);
    assert!(m.handle_key_input(KeyAwareEvent::Escape));
    assert_eq!(m.current_focus_region(), FocusRegion::Content);
    assert!(!m.handle_key_input(KeyAwareEvent::LeftArrow));
    assert!(m.handle_key_input(KeyAwareEvent::OptionF));
    assert_eq!(m.current_focus_region(), FocusRegion::SidebarSearch);
}

#[test]
fn arrows_enter_and_move_within_a_group() {
    let mut m = model();
    m.set_current_focus_region(FocusRegion::SidebarGroup { id: TabGroupId::Workloads });
    assert!(m.handle_key_input(KeyAwareEvent::DownArrow));
    assert_eq!(
        m.current_focus_region(),
        FocusRegion::InTabGroup { tab_group_id: TabGroupId::Workloads, tab_id: TabId::Overview }
    );
    assert_eq!(m.selected_tab(), TabId::Overview);
    assert!(m.handle_key_input(KeyAwareEvent::UpArrow));
    assert_eq!(m.selected_tab(), TabId::CronJobs);
    assert!(m.handle_key_input(KeyAwareEvent::DownArrow));
    assert_eq!(m.selected_tab(), TabId::Overview);
    assert!(!m.take_updates().is_empty());
}

#[test]
fn space_toggles_group_and_selecting_expands_it() {
    let mut m = model();
    m.set_current_focus_region(FocusRegion::SidebarGroup { id: TabGroupId::Network });
    assert!(m.handle_key_input(KeyAwareEvent::Space));
    let network = |m: &MainViewModel| {
        m.tab_group_expansions().iter().find(|(g, _)| *g == TabGroupId::Network).unwrap().1
    };
    assert!(!network(&m));
    m.select_tab(TabId::Ingresses);
    assert!(network(&m));
    assert_eq!(m.selected_tab(), TabId::Ingresses);
}

#[test]
fn search_filters_sidebar_case_insensitively() {
    let mut m = model();
    m.set_search("ROLE".to_string());
    let filtered = m.tab_groups_filtered();
    assert_eq!(filtered.0.len(), 1);
    assert_eq!(filtered.0[0].id, TabGroupId::AccessControl);
    assert_eq!(filtered.0[0].tabs.len(), 4);
    assert_eq!(m.get_first_filtered_tab(), Some(TabId::Roles));
    assert_eq!(m.set_first_filtered_tab(), Some(()));
    assert_eq!(m.selected_tab(), TabId::Roles);
    m.set_search("no such tab".to_string());
    assert!(m.tab_groups_filtered().0.is_empty());
    m.set_current_focus_region(FocusRegion::SidebarSearch);
    assert!(m.handle_key_input(KeyAwareEvent::TabKey));
    assert_eq!(m.current_focus_region(), FocusRegion::Content);
    m.set_search(String::new());
    assert_eq!(m.tab_groups_filtered().0.len(), 6);
    assert_eq!(m.get_first_filtered_tab(), None);
}

#[test]
fn unix_time_formats_as_rfc3339() {
    assert_eq!(unix_to_utc_string(0).unwrap(), "1970-01-01T00:00:00+00:00");
    assert_eq!(unix_to_utc_string(86_400 + 61).unwrap(), "1970-01-02T00:01:01+00:00");
    assert_eq!(unix_to_utc_string(i64::MAX), None);
}
