use vstd::prelude::*;
use crate::snapshot::Snapshot;
use crate::text::lowercase;
use crate::text::lowercase_of;

verus! {

/// Identifies a pod: derived from the pod's name.
#[derive(Debug, Clone, PartialEq, Eq, Hash, PartialOrd, Ord, Default)]
pub struct PodId(pub String);

/// Identifies a container within its pod: the container's name.
#[derive(Debug, Clone, PartialEq, Eq, Hash, PartialOrd, Ord, Default)]
pub struct ContainerId(pub String);

impl View for PodId {
    type V = Seq<char>;

    open spec fn view(&self) -> Seq<char> {
        self.0@
    }
}

impl View for ContainerId {
    type V = Seq<char>;

    open spec fn view(&self) -> Seq<char> {
        self.0@
    }
}

impl PodId {
    pub fn new(raw: String) -> (r: PodId)
        ensures
            r@ == raw@,
    {
        PodId(raw)
    }

    pub fn as_string(&self) -> (r: &String)
        ensures
            r@ == self@,
    {
        &self.0
    }
}

impl ContainerId {
    pub fn new(raw: String) -> (r: ContainerId)
        ensures
            r@ == raw@,
    {
        ContainerId(raw)
    }
}

impl Snapshot for PodId {
    type M = Seq<char>;

    open spec fn model(&self) -> Seq<char> {
        self.0@
    }

    fn duplicate(&self) -> (r: PodId) {
        PodId(self.0.clone())
    }

    fn is_same(&self, other: &PodId) -> (r: bool) {
        self.0.eq(&other.0)
    }
}

impl Snapshot for ContainerId {
    type M = Seq<char>;

    open spec fn model(&self) -> Seq<char> {
        self.0@
    }

    fn duplicate(&self) -> (r: ContainerId) {
        ContainerId(self.0.clone())
    }

    fn is_same(&self, other: &ContainerId) -> (r: bool) {
        self.0.eq(&other.0)
    }
}

#[derive(Debug, Clone, PartialEq, Eq, Default)]
pub struct ContainerStateRunning {
    pub started_at: i64,
}

#[derive(Debug, Clone, PartialEq, Eq, Default)]
pub struct ContainerStateTerminated {
    pub started_at: i64,
    pub finished_at: i64,
    pub exit_code: i32,
    pub message: Option<String>,
    pub reason: Option<String>,
    pub signal: Option<i32>,
}

#[derive(Debug, Clone, PartialEq, Eq, Default)]
pub struct ContainerStateWaiting {
    pub message: Option<String>,
    pub reason: Option<String>,
}

#[derive(Debug, Clone, PartialEq, Eq)]
pub enum ContainerState {
    Running { data: ContainerStateRunning },
    Terminated { data: ContainerStateTerminated },
    Waiting { data: ContainerStateWaiting },
}

/// The model of a container state.
pub enum ContainerStateModel {
    Running(i64),
    Terminated(
        (i64, i64, i32, Option<Seq<char>>, Option<Seq<char>>, Option<i32>),
    ),
    Waiting((Option<Seq<char>>, Option<Seq<char>>)),
}

impl Snapshot for ContainerStateTerminated {
    type M = (i64, i64, i32, Option<Seq<char>>, Option<Seq<char>>, Option<i32>);

    open spec fn model(&self) -> Self::M {
        (
            self.started_at,
            self.finished_at,
            self.exit_code,
            self.message.model(),
            self.reason.model(),
            self.signal.model(),
        )
    }

    fn duplicate(&self) -> (r: Self) {
        ContainerStateTerminated {
            started_at: self.started_at,
            finished_at: self.finished_at,
            exit_code: self.exit_code,
            message: self.message.duplicate(),
            reason: self.reason.duplicate(),
            signal: self.signal.duplicate(),
        }
    }

    fn is_same(&self, other: &Self) -> (r: bool) {
        self.started_at == other.started_at && self.finished_at == other.finished_at
            && self.exit_code == other.exit_code && self.message.is_same(&other.message)
            && self.reason.is_same(&other.reason) && self.signal.is_same(&other.signal)
    }
}

impl Snapshot for ContainerStateWaiting {
    type M = (Option<Seq<char>>, Option<Seq<char>>);

    open spec fn model(&self) -> Self::M {
        (self.message.model(), self.reason.model())
    }

    fn duplicate(&self) -> (r: Self) {
        ContainerStateWaiting { message: self.message.duplicate(), reason: self.reason.duplicate() }
    }

    fn is_same(&self, other: &Self) -> (r: bool) {
        self.message.is_same(&other.message) && self.reason.is_same(&other.reason)
    }
}

impl Default for ContainerState {
    fn default() -> (r: ContainerState)
        ensures
            r == (ContainerState::Waiting {
                data: ContainerStateWaiting { message: None, reason: None },
            }),
    {
        ContainerState::Waiting { data: ContainerStateWaiting { message: None, reason: None } }
    }
}

impl Snapshot for ContainerState {
    type M = ContainerStateModel;

    open spec fn model(&self) -> ContainerStateModel {
        match self {
            ContainerState::Running { data } => ContainerStateModel::Running(data.started_at),
            ContainerState::Terminated { data } => ContainerStateModel::Terminated(data.model()),
            ContainerState::Waiting { data } => ContainerStateModel::Waiting(data.model()),
        }
    }

    fn duplicate(&self) -> (r: Self) {
        match self {
            ContainerState::Running { data } => ContainerState::Running {
                data: ContainerStateRunning { started_at: data.started_at },
            },
            ContainerState::Terminated { data } => ContainerState::Terminated {
                data: data.duplicate(),
            },
            ContainerState::Waiting { data } => ContainerState::Waiting { data: data.duplicate() },
        }
    }

    fn is_same(&self, other: &Self) -> (r: bool) {
        match (self, other) {
            (ContainerState::Running { data: a }, ContainerState::Running { data: b }) => a.started_at
                == b.started_at,
            (ContainerState::Terminated { data: a }, ContainerState::Terminated { data: b }) => a.is_same(b),
            (ContainerState::Waiting { data: a }, ContainerState::Waiting { data: b }) => a.is_same(b),
            _ => false,
        }
    }
}

/// The lifecycle phase of a pod.
#[derive(Debug, Clone, PartialEq, Eq, Default)]
pub enum Phase {
    #[default]
    Pending,
    Running,
    Failed,
    Succeeded,
    Unknown { raw_value: String },
}

pub enum PhaseModel {
    Pending,
    Running,
    Failed,
    Succeeded,
    Unknown(Seq<char>),
}

/// The phase named by a reported phase string: the known names compared
/// without regard to case, anything else kept lower-cased as unknown, and a
/// missing phase taken as pending.
pub open spec fn phase_of(reported: Option<Seq<char>>) -> PhaseModel {
    match reported {
        None => PhaseModel::Pending,
        Some(s) => {
            let l = lowercase_of(s);
            if l == "pending"@ {
                PhaseModel::Pending
            } else if l == "running"@ {
                PhaseModel::Running
            } else if l == "failed"@ {
                PhaseModel::Failed
            } else if l == "succeeded"@ {
                PhaseModel::Succeeded
            } else {
                PhaseModel::Unknown(l)
            }
        },
    }
}

impl Snapshot for Phase {
    type M = PhaseModel;

    open spec fn model(&self) -> PhaseModel {
        match self {
            Phase::Pending => PhaseModel::Pending,
            Phase::Running => PhaseModel::Running,
            Phase::Failed => PhaseModel::Failed,
            Phase::Succeeded => PhaseModel::Succeeded,
            Phase::Unknown { raw_value } => PhaseModel::Unknown(raw_value@),
        }
    }

    fn duplicate(&self) -> (r: Self) {
        match self {
            Phase::Pending => Phase::Pending,
            Phase::Running => Phase::Running,
            Phase::Failed => Phase::Failed,
            Phase::Succeeded => Phase::Succeeded,
            Phase::Unknown { raw_value } => Phase::Unknown { raw_value: raw_value.clone() },
        }
    }

    fn is_same(&self, other: &Self) -> (r: bool) {
        match (self, other) {
            (Phase::Pending, Phase::Pending) => true,
            (Phase::Running, Phase::Running) => true,
            (Phase::Failed, Phase::Failed) => true,
            (Phase::Succeeded, Phase::Succeeded) => true,
            (Phase::Unknown { raw_value: a }, Phase::Unknown { raw_value: b }) => a.eq(b),
            _ => false,
        }
    }
}

impl Phase {
    /// The phase named by a reported phase string (see `phase_of`).
    pub fn from(phase: Option<String>) -> (r: Phase)
        ensures
            r.model() == phase_of(phase.model()),
    {
        match phase {
            None => Phase::Pending,
            Some(raw) => {
                let l = lowercase(raw.as_str());
                let pending = String::from_str("pending");
                let running = String::from_str("running");
                let failed = String::from_str("failed");
                let succeeded = String::from_str("succeeded");
                if l.eq(&pending) {
                    Phase::Pending
                } else if l.eq(&running) {
                    Phase::Running
                } else if l.eq(&failed) {
                    Phase::Failed
                } else if l.eq(&succeeded) {
                    Phase::Succeeded
                } else {
                    Phase::Unknown { raw_value: l }
                }
            },
        }
    }
}

#[derive(Debug, Clone, PartialEq, Eq, Default)]
pub struct Container {
    pub id: ContainerId,
    pub name: String,
    pub image: String,
    pub image_id: Option<String>,
    pub last_state: Option<ContainerState>,
    pub ready: bool,
    pub restart_count: i32,
    pub started: bool,
    pub state: Option<ContainerState>,
    pub ports: Vec<u32>,
}

impl Snapshot for Container {
    type M = (
        Seq<char>,
        Seq<char>,
        Seq<char>,
        Option<Seq<char>>,
        Option<ContainerStateModel>,
        bool,
        i32,
        bool,
        Option<ContainerStateModel>,
        Seq<u32>,
    );

    open spec fn model(&self) -> Self::M {
        (
            self.id.model(),
            self.name@,
            self.image@,
            self.image_id.model(),
            self.last_state.model(),
            self.ready,
            self.restart_count,
            self.started,
            self.state.model(),
            self.ports.model(),
        )
    }

    fn duplicate(&self) -> (r: Self) {
        Container {
            id: self.id.duplicate(),
            name: self.name.clone(),
            image: self.image.clone(),
            image_id: self.image_id.duplicate(),
            last_state: self.last_state.duplicate(),
            ready: self.ready,
            restart_count: self.restart_count,
            started: self.started,
            state: self.state.duplicate(),
            ports: self.ports.duplicate(),
        }
    }

    fn is_same(&self, other: &Self) -> (r: bool) {
        self.id.is_same(&other.id) && self.name.eq(&other.name) && self.image.eq(&other.image)
            && self.image_id.is_same(&other.image_id) && self.last_state.is_same(
            &other.last_state,
        ) && self.ready == other.ready && self.restart_count == other.restart_count
            && self.started == other.started && self.state.is_same(&other.state)
            && self.ports.is_same(&other.ports)
    }
}

#[derive(Debug, Clone, PartialEq, Eq, Default)]
pub struct PodCondition {
    pub last_probe_time: Option<i64>,
    pub last_transition_time: Option<i64>,
    pub message: Option<String>,
    pub reason: Option<String>,
    pub status: String,
    pub type_: String,
}

impl Snapshot for PodCondition {
    type M = (Option<i64>, Option<i64>, Option<Seq<char>>, Option<Seq<char>>, Seq<char>, Seq<char>);

    open spec fn model(&self) -> Self::M {
        (
            self.last_probe_time.model(),
            self.last_transition_time.model(),
            self.message.model(),
            self.reason.model(),
            self.status@,
            self.type_@,
        )
    }

    fn duplicate(&self) -> (r: Self) {
        PodCondition {
            last_probe_time: self.last_probe_time.duplicate(),
            last_transition_time: self.last_transition_time.duplicate(),
            message: self.message.duplicate(),
            reason: self.reason.duplicate(),
            status: self.status.clone(),
            type_: self.type_.clone(),
        }
    }

    fn is_same(&self, other: &Self) -> (r: bool) {
        self.last_probe_time.is_same(&other.last_probe_time)
            && self.last_transition_time.is_same(&other.last_transition_time)
            && self.message.is_same(&other.message) && self.reason.is_same(&other.reason)
            && self.status.eq(&other.status) && self.type_.eq(&other.type_)
    }
}

/// An object that controls a pod.
#[derive(Debug, Clone, PartialEq, Eq, Default)]
pub struct OwnerReference {
    pub api_version: String,
    pub block_owner_deletion: bool,
    pub controller: bool,
    pub kind: String,
    pub name: String,
    pub uid: String,
}

impl Snapshot for OwnerReference {
    type M = (Seq<char>, bool, bool, Seq<char>, Seq<char>, Seq<char>);

    open spec fn model(&self) -> Self::M {
        (
            self.api_version@,
            self.block_owner_deletion,
            self.controller,
            self.kind@,
            self.name@,
            self.uid@,
        )
    }

    fn duplicate(&self) -> (r: Self) {
        OwnerReference {
            api_version: self.api_version.clone(),
            block_owner_deletion: self.block_owner_deletion,
            controller: self.controller,
            kind: self.kind.clone(),
            name: self.name.clone(),
            uid: self.uid.clone(),
        }
    }

    fn is_same(&self, other: &Self) -> (r: bool) {
        self.api_version.eq(&other.api_version) && self.block_owner_deletion
            == other.block_owner_deletion && self.controller == other.controller
            && self.kind.eq(&other.kind) && self.name.eq(&other.name) && self.uid.eq(&other.uid)
    }
}

/// A toleration of a pod for node taints.
#[derive(Debug, Clone, PartialEq, Eq, Default)]
pub struct Toleration {
    pub effect: Option<String>,
    pub key: Option<String>,
    pub operator: Option<String>,
    pub toleration_seconds: Option<i64>,
    pub value: Option<String>,
}

impl Snapshot for Toleration {
    type M = (
        Option<Seq<char>>,
        Option<Seq<char>>,
        Option<Seq<char>>,
        Option<i64>,
        Option<Seq<char>>,
    );

    open spec fn model(&self) -> Self::M {
        (
            self.effect.model(),
            self.key.model(),
            self.operator.model(),
            self.toleration_seconds.model(),
            self.value.model(),
        )
    }

    fn duplicate(&self) -> (r: Self) {
        Toleration {
            effect: self.effect.duplicate(),
            key: self.key.duplicate(),
            operator: self.operator.duplicate(),
            toleration_seconds: self.toleration_seconds.duplicate(),
            value: self.value.duplicate(),
        }
    }

    fn is_same(&self, other: &Self) -> (r: bool) {
        self.effect.is_same(&other.effect) && self.key.is_same(&other.key)
            && self.operator.is_same(&other.operator) && self.toleration_seconds.is_same(
            &other.toleration_seconds,
        ) && self.value.is_same(&other.value)
    }
}

/// A snapshot of one pod: the fields the user interface shows.
#[derive(Debug, Clone, PartialEq, Eq, Default)]
pub struct Pod {
    pub id: PodId,
    pub name: String,
    pub namespace: String,
    pub created_at: Option<i64>,
    pub labels: Vec<(String, String)>,
    pub annotations: Vec<(String, String)>,
    pub containers: Vec<Container>,
    pub pod_ip: Option<String>,
    pub host_ip: Option<String>,
    pub pod_ips: Vec<String>,
    pub qos_class: Option<String>,
    pub message: Option<String>,
    pub phase: Phase,
    pub controlled_by: Vec<OwnerReference>,
    pub service_account: Option<String>,
    pub conditions: Vec<PodCondition>,
    pub tolerations: Vec<Toleration>,
}

impl Snapshot for Pod {
    type M = (
        (
            Seq<char>,
            Seq<char>,
            Seq<char>,
            Option<i64>,
            Seq<(Seq<char>, Seq<char>)>,
            Seq<(Seq<char>, Seq<char>)>,
            Seq<<Container as Snapshot>::M>,
            Option<Seq<char>>,
            Option<Seq<char>>,
        ),
        (
            Seq<Seq<char>>,
            Option<Seq<char>>,
            Option<Seq<char>>,
            PhaseModel,
            Seq<<OwnerReference as Snapshot>::M>,
            Option<Seq<char>>,
            Seq<<PodCondition as Snapshot>::M>,
            Seq<<Toleration as Snapshot>::M>,
        ),
    );

    open spec fn model(&self) -> Self::M {
        (
            (
                self.id@,
                self.name@,
                self.namespace@,
                self.created_at.model(),
                self.labels.model(),
                self.annotations.model(),
                self.containers.model(),
                self.pod_ip.model(),
                self.host_ip.model(),
            ),
            (
                self.pod_ips.model(),
                self.qos_class.model(),
                self.message.model(),
                self.phase.model(),
                self.controlled_by.model(),
                self.service_account.model(),
                self.conditions.model(),
                self.tolerations.model(),
            ),
        )
    }

    fn duplicate(&self) -> (r: Self) {
        Pod {
            id: self.id.duplicate(),
            name: self.name.clone(),
            namespace: self.namespace.clone(),
            created_at: self.created_at.duplicate(),
            labels: self.labels.duplicate(),
            annotations: self.annotations.duplicate(),
            containers: self.containers.duplicate(),
            pod_ip: self.pod_ip.duplicate(),
            host_ip: self.host_ip.duplicate(),
            pod_ips: self.pod_ips.duplicate(),
            qos_class: self.qos_class.duplicate(),
            message: self.message.duplicate(),
            phase: self.phase.duplicate(),
            controlled_by: self.controlled_by.duplicate(),
            service_account: self.service_account.duplicate(),
            conditions: self.conditions.duplicate(),
            tolerations: self.tolerations.duplicate(),
        }
    }

    fn is_same(&self, other: &Self) -> (r: bool) {
        self.id.is_same(&other.id) && self.name.eq(&other.name) && self.namespace.eq(
            &other.namespace,
        ) && self.created_at.is_same(&other.created_at) && self.labels.is_same(&other.labels)
            && self.annotations.is_same(&other.annotations) && self.containers.is_same(
            &other.containers,
        ) && self.pod_ip.is_same(&other.pod_ip) && self.host_ip.is_same(&other.host_ip)
            && self.pod_ips.is_same(&other.pod_ips) && self.qos_class.is_same(&other.qos_class)
            && self.message.is_same(&other.message) && self.phase.is_same(&other.phase)
            && self.controlled_by.is_same(&other.controlled_by) && self.service_account.is_same(
            &other.service_account,
        ) && self.conditions.is_same(&other.conditions) && self.tolerations.is_same(
            &other.tolerations,
        )
    }
}

/// The sum of the restart counts of a sequence of containers.
pub open spec fn restart_sum(s: Seq<Container>) -> int
    decreases s.len(),
{
    if s.len() == 0 {
        0
    } else {
        restart_sum(s.drop_last()) + s.last().restart_count
    }
}

proof fn lemma_restart_sum_bounds(s: Seq<Container>)
    ensures
        -(s.len() * 0x8000_0000) <= restart_sum(s) <= s.len() * 0x8000_0000,
    decreases s.len(),
{
    if s.len() > 0 {
        lemma_restart_sum_bounds(s.drop_last());
    }
}

impl Pod {
    /// The restarts of all containers of the pod, added up.
    pub fn total_restart_count(&self) -> (r: i32)
        requires
            i32::MIN <= restart_sum(self.containers@) <= i32::MAX,
        ensures
            r == restart_sum(self.containers@),
    {
        let mut total: i128 = 0;
        let mut i: usize = 0;
        while i < self.containers.len()
            invariant
                i <= self.containers@.len(),
                total == restart_sum(self.containers@.subrange(0, i as int)),
            decreases self.containers@.len() - i,
        {
            proof {
                lemma_restart_sum_bounds(self.containers@.subrange(0, i as int));
                assert(self.containers@.subrange(0, i + 1).drop_last() =~= self.containers@.subrange(0, i as int));
            }
            total = total + self.containers[i].restart_count as i128;
            i = i + 1;
        }
        proof {
            assert(self.containers@.subrange(0, i as int) =~= self.containers@);
        }
        total as i32
    }
}

} // verus!
