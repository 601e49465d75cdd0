use vstd::prelude::*;
use crate::snapshot::Snapshot;

verus! {

/// Identifies a node: the node's name.
#[derive(Debug, Clone, PartialEq, Eq, Hash, PartialOrd, Ord, Default)]
pub struct NodeId {
    pub raw_value: String,
}

impl View for NodeId {
    type V = Seq<char>;

    open spec fn view(&self) -> Seq<char> {
        self.raw_value@
    }
}

impl NodeId {
    pub fn new(raw_value: String) -> (r: NodeId)
        ensures
            r@ == raw_value@,
    {
        NodeId { raw_value }
    }
}

#[derive(Debug, Clone, PartialEq, Eq, Default)]
pub struct NodeCondition {
    pub name: String,
    pub status: String,
    pub reason: Option<String>,
    pub message: Option<String>,
}

impl Snapshot for NodeCondition {
    type M = (Seq<char>, Seq<char>, Option<Seq<char>>, Option<Seq<char>>);

    open spec fn model(&self) -> Self::M {
        (self.name@, self.status@, self.reason.model(), self.message.model())
    }

    fn duplicate(&self) -> (r: Self) {
        NodeCondition {
            name: self.name.clone(),
            status: self.status.clone(),
            reason: self.reason.duplicate(),
            message: self.message.duplicate(),
        }
    }

    fn is_same(&self, other: &Self) -> (r: bool) {
        self.name.eq(&other.name) && self.status.eq(&other.status) && self.reason.is_same(
            &other.reason,
        ) && self.message.is_same(&other.message)
    }
}

#[derive(Debug, Clone, PartialEq, Eq, Default)]
pub struct Taint {
    pub effect: String,
    pub key: String,
    pub time_added: Option<String>,
    pub value: Option<String>,
}

impl Snapshot for Taint {
    type M = (Seq<char>, Seq<char>, Option<Seq<char>>, Option<Seq<char>>);

    open spec fn model(&self) -> Self::M {
        (self.effect@, self.key@, self.time_added.model(), self.value.model())
    }

    fn duplicate(&self) -> (r: Self) {
        Taint {
            effect: self.effect.clone(),
            key: self.key.clone(),
            time_added: self.time_added.duplicate(),
            value: self.value.duplicate(),
        }
    }

    fn is_same(&self, other: &Self) -> (r: bool) {
        self.effect.eq(&other.effect) && self.key.eq(&other.key) && self.time_added.is_same(
            &other.time_added,
        ) && self.value.is_same(&other.value)
    }
}

#[derive(Debug, Clone, PartialEq, Eq, Default)]
pub struct NodeAddress {
    pub address: String,
    pub node_type: String,
}

impl Snapshot for NodeAddress {
    type M = (Seq<char>, Seq<char>);

    open spec fn model(&self) -> Self::M {
        (self.address@, self.node_type@)
    }

    fn duplicate(&self) -> (r: Self) {
        NodeAddress { address: self.address.clone(), node_type: self.node_type.clone() }
    }

    fn is_same(&self, other: &Self) -> (r: bool) {
        self.address.eq(&other.address) && self.node_type.eq(&other.node_type)
    }
}

/// A snapshot of one node: the fields the user interface shows.
#[derive(Debug, Clone, PartialEq, Eq, Default)]
pub struct Node {
    pub id: NodeId,
    pub name: String,
    pub created_at: Option<i64>,
    pub labels: Vec<(String, String)>,
    pub annotations: Vec<(String, String)>,
    pub taints: Vec<Taint>,
    pub addresses: Vec<NodeAddress>,
    pub os: Option<String>,
    pub arch: Option<String>,
    pub os_image: Option<String>,
    pub kernel_version: Option<String>,
    pub container_runtime: Option<String>,
    pub kubelet_version: Option<String>,
    pub conditions: Vec<NodeCondition>,
}

impl Snapshot for Node {
    type M = (
        (
            Seq<char>,
            Seq<char>,
            Option<i64>,
            Seq<(Seq<char>, Seq<char>)>,
            Seq<(Seq<char>, Seq<char>)>,
            Seq<<Taint as Snapshot>::M>,
            Seq<<NodeAddress as Snapshot>::M>,
        ),
        (
            Option<Seq<char>>,
            Option<Seq<char>>,
            Option<Seq<char>>,
            Option<Seq<char>>,
            Option<Seq<char>>,
            Option<Seq<char>>,
            Seq<<NodeCondition as Snapshot>::M>,
        ),
    );

    open spec fn model(&self) -> Self::M {
        (
            (
                self.id@,
                self.name@,
                self.created_at.model(),
                self.labels.model(),
                self.annotations.model(),
                self.taints.model(),
                self.addresses.model(),
            ),
            (
                self.os.model(),
                self.arch.model(),
                self.os_image.model(),
                self.kernel_version.model(),
                self.container_runtime.model(),
                self.kubelet_version.model(),
                self.conditions.model(),
            ),
        )
    }

    fn duplicate(&self) -> (r: Self) {
        Node {
            id: NodeId { raw_value: self.id.raw_value.clone() },
            name: self.name.clone(),
            created_at: self.created_at.duplicate(),
            labels: self.labels.duplicate(),
            annotations: self.annotations.duplicate(),
            taints: self.taints.duplicate(),
            addresses: self.addresses.duplicate(),
            os: self.os.duplicate(),
            arch: self.arch.duplicate(),
            os_image: self.os_image.duplicate(),
            kernel_version: self.kernel_version.duplicate(),
            container_runtime: self.container_runtime.duplicate(),
            kubelet_version: self.kubelet_version.duplicate(),
            conditions: self.conditions.duplicate(),
        }
    }

    fn is_same(&self, other: &Self) -> (r: bool) {
        self.id.raw_value.eq(&other.id.raw_value) && self.name.eq(&other.name)
            && self.created_at.is_same(&other.created_at) && self.labels.is_same(&other.labels)
            && self.annotations.is_same(&other.annotations) && self.taints.is_same(&other.taints)
            && self.addresses.is_same(&other.addresses) && self.os.is_same(&other.os)
            && self.arch.is_same(&other.arch) && self.os_image.is_same(&other.os_image)
            && self.kernel_version.is_same(&other.kernel_version)
            && self.container_runtime.is_same(&other.container_runtime)
            && self.kubelet_version.is_same(&other.kubelet_version) && self.conditions.is_same(
            &other.conditions,
        )
    }
}

} // verus!
