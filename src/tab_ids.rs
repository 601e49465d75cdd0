use vstd::prelude::*;

verus! {

/// A tab of the sidebar.
#[derive(Debug, Clone, Copy, PartialEq, Eq, Structural, Hash)]
pub enum TabId {
    ClusterTab,
    Nodes,
    NameSpaces,
    Events,
    Overview,
    Pods,
    Deployments,
    DaemonSets,
    StatefulSets,
    ReplicaSets,
    Jobs,
    CronJobs,
    ConfigMaps,
    Secrets,
    ResourceQuotas,
    LimitRanges,
    HorizontalPodAutoscalers,
    PodDisruptionBudgets,
    PriorityClasses,
    RuntimeClasses,
    Leases,
    Services,
    Endpoints,
    Ingresses,
    NetworkPolicies,
    PortForwarding,
    PersistentVolumeClaims,
    PersistentVolumes,
    StorageClasses,
    ServiceAccounts,
    ClusterRoles,
    Roles,
    ClusterRoleBindings,
    RoleBindings,
    PodSecurityPolicies,
    Charts,
    Releases,
}

/// The title of a tab.
pub open spec fn tab_name(id: TabId) -> Seq<char> {
    match id {
        TabId::ClusterTab => "Cluster"@,
        TabId::Nodes => "Nodes"@,
        TabId::NameSpaces => "Namespaces"@,
        TabId::Events => "Events"@,
        TabId::Overview => "Overview"@,
        TabId::Pods => "Pods"@,
        TabId::Deployments => "Deployments"@,
        TabId::DaemonSets => "DaemonSets"@,
        TabId::StatefulSets => "StatefulSets"@,
        TabId::ReplicaSets => "ReplicaSets"@,
        TabId::Jobs => "Jobs"@,
        TabId::CronJobs => "Cron Jobs"@,
        TabId::ConfigMaps => "Config Maps"@,
        TabId::Secrets => "Secrets"@,
        TabId::ResourceQuotas => "Resource Quotas"@,
        TabId::LimitRanges => "Limit Ranges"@,
        TabId::HorizontalPodAutoscalers => "HPA"@,
        TabId::PodDisruptionBudgets => "Pod Disruption Budgets"@,
        TabId::PriorityClasses => "Priority Classes"@,
        TabId::RuntimeClasses => "Runtime Classes"@,
        TabId::Leases => "Leases"@,
        TabId::Services => "Services"@,
        TabId::Endpoints => "Endpoints"@,
        TabId::Ingresses => "Ingresses"@,
        TabId::NetworkPolicies => "Network Policies"@,
        TabId::PortForwarding => "Port Forwarding"@,
        TabId::PersistentVolumeClaims => "Persistent Volume Claims"@,
        TabId::PersistentVolumes => "Persistent Volumes"@,
        TabId::StorageClasses => "Storage Classes"@,
        TabId::ServiceAccounts => "Service Accounts"@,
        TabId::ClusterRoles => "Cluster Roles"@,
        TabId::Roles => "Roles"@,
        TabId::ClusterRoleBindings => "Cluster Role Bindings"@,
        TabId::RoleBindings => "Role Bindings"@,
        TabId::PodSecurityPolicies => "Pod Security Policies"@,
        TabId::Charts => "Charts"@,
        TabId::Releases => "Releases"@,
    }
}

impl TabId {
    /// The title of the tab.
    pub fn name(&self) -> (r: String)
        ensures
            r@ == tab_name(*self),
    {
        match self {
            TabId::ClusterTab => String::from_str("Cluster"),
            TabId::Nodes => String::from_str("Nodes"),
            TabId::NameSpaces => String::from_str("Namespaces"),
            TabId::Events => String::from_str("Events"),
            TabId::Overview => String::from_str("Overview"),
            TabId::Pods => String::from_str("Pods"),
            TabId::Deployments => String::from_str("Deployments"),
            TabId::DaemonSets => String::from_str("DaemonSets"),
            TabId::StatefulSets => String::from_str("StatefulSets"),
            TabId::ReplicaSets => String::from_str("ReplicaSets"),
            TabId::Jobs => String::from_str("Jobs"),
            TabId::CronJobs => String::from_str("Cron Jobs"),
            TabId::ConfigMaps => String::from_str("Config Maps"),
            TabId::Secrets => String::from_str("Secrets"),
            TabId::ResourceQuotas => String::from_str("Resource Quotas"),
            TabId::LimitRanges => String::from_str("Limit Ranges"),
            TabId::HorizontalPodAutoscalers => String::from_str("HPA"),
            TabId::PodDisruptionBudgets => String::from_str("Pod Disruption Budgets"),
            TabId::PriorityClasses => String::from_str("Priority Classes"),
            TabId::RuntimeClasses => String::from_str("Runtime Classes"),
            TabId::Leases => String::from_str("Leases"),
            TabId::Services => String::from_str("Services"),
            TabId::Endpoints => String::from_str("Endpoints"),
            TabId::Ingresses => String::from_str("Ingresses"),
            TabId::NetworkPolicies => String::from_str("Network Policies"),
            TabId::PortForwarding => String::from_str("Port Forwarding"),
            TabId::PersistentVolumeClaims => String::from_str("Persistent Volume Claims"),
            TabId::PersistentVolumes => String::from_str("Persistent Volumes"),
            TabId::StorageClasses => String::from_str("Storage Classes"),
            TabId::ServiceAccounts => String::from_str("Service Accounts"),
            TabId::ClusterRoles => String::from_str("Cluster Roles"),
            TabId::Roles => String::from_str("Roles"),
            TabId::ClusterRoleBindings => String::from_str("Cluster Role Bindings"),
            TabId::RoleBindings => String::from_str("Role Bindings"),
            TabId::PodSecurityPolicies => String::from_str("Pod Security Policies"),
            TabId::Charts => String::from_str("Charts"),
            TabId::Releases => String::from_str("Releases"),
        }
    }
}

/// A group of tabs of the sidebar.
#[derive(Debug, Clone, Copy, PartialEq, Eq, Structural, Hash)]
pub enum TabGroupId {
    General,
    Workloads,
    Config,
    Network,
    Storage,
    AccessControl,
    Helm,
}

/// The title of a tab group.
pub open spec fn group_name(id: TabGroupId) -> Seq<char> {
    match id {
        TabGroupId::General => "General"@,
        TabGroupId::Workloads => "Workloads"@,
        TabGroupId::Config => "Config"@,
        TabGroupId::Network => "Network"@,
        TabGroupId::Storage => "Storage"@,
        TabGroupId::AccessControl => "Access Control"@,
        TabGroupId::Helm => "Helm"@,
    }
}

impl TabGroupId {
    /// The title of the group.
    pub fn name(&self) -> (r: String)
        ensures
            r@ == group_name(*self),
    {
        match self {
            TabGroupId::General => String::from_str("General"),
            TabGroupId::Workloads => String::from_str("Workloads"),
            TabGroupId::Config => String::from_str("Config"),
            TabGroupId::Network => String::from_str("Network"),
            TabGroupId::Storage => String::from_str("Storage"),
            TabGroupId::AccessControl => String::from_str("Access Control"),
            TabGroupId::Helm => String::from_str("Helm"),
        }
    }
}

} // verus!
