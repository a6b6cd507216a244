use crate::database::hosts;
use crate::deployment::{Deployment, DeploymentView};
use crate::service::{service_views, Service, ServiceView};
use crate::task::{task_views, Task, TaskView};
use crate::text::{clone_opt, opt_text};
use vstd::prelude::*;

verus! {

/// The ledger of the cluster: the deployments, their services and their
/// tasks, each with the moments at which it began and ended. Rows are never
/// taken out; the row at a place has the number of that place, counted from
/// one, as its identifier.
#[derive(Debug)]
pub struct Ledger {
    deployments: Vec<Deployment>,
    services: Vec<Service>,
    tasks: Vec<Task>,
    clock: i64,
}

/// What the ledger holds. The clock is the latest moment at which something
/// was entered.
pub struct LedgerView {
    pub deployments: Seq<DeploymentView>,
    pub services: Seq<ServiceView>,
    pub tasks: Seq<TaskView>,
    pub clock: i64,
}

/// The row of a deployment that was entered at `now`: it runs, and its
/// services and tasks stand in their own tables.
pub open spec fn deployment_row(d: DeploymentView, id: i64, now: i64) -> DeploymentView {
    DeploymentView {
        id: Some(id),
        name: d.name,
        services: Seq::<ServiceView>::empty(),
        owner: d.owner,
        start: now,
        end: None,
        tasks: Seq::<TaskView>::empty(),
    }
}

/// The row of a service that was entered at `now`: it runs. A row knows
/// neither replicas nor a preferred node.
pub open spec fn service_row(s: ServiceView, id: i64, now: i64) -> ServiceView {
    ServiceView { id: Some(id), replicas: 1, preferred_node: None, start: now, end: None, ..s }
}

/// The row of a task of the deployment of the given identifier.
pub open spec fn task_row(t: TaskView, deployment: i64) -> TaskView {
    TaskView { deployment: Some(deployment), ..t }
}

/// The rows of the tasks of a deployment.
pub open spec fn task_rows(tasks: Seq<TaskView>, deployment: i64) -> Seq<TaskView> {
    Seq::new(tasks.len(), |i: int| task_row(tasks[i], deployment))
}

/// The later of two moments.
pub open spec fn later(a: i64, b: i64) -> i64 {
    if a < b {
        b
    } else {
        a
    }
}

impl LedgerView {
    /// The ledger into which nothing was entered yet: it holds no row, and
    /// its clock stands at the earliest moment there is, so that whatever is
    /// entered first sets it.
    pub open spec fn empty() -> LedgerView {
        LedgerView {
            deployments: Seq::<DeploymentView>::empty(),
            services: Seq::<ServiceView>::empty(),
            tasks: Seq::<TaskView>::empty(),
            clock: i64::MIN,
        }
    }

    /// Every row has the number of its place as its identifier.
    pub open spec fn numbered(self) -> bool {
        &&& forall|i: int|
            0 <= i < self.deployments.len() ==> (#[trigger] self.deployments[i]).id == Some(
                (i + 1) as i64,
            )
        &&& forall|i: int|
            0 <= i < self.services.len() ==> (#[trigger] self.services[i]).id == Some(
                (i + 1) as i64,
            )
        &&& self.deployments.len() < i64::MAX
        &&& self.services.len() < i64::MAX
        &&& self.tasks.len() < i64::MAX
    }

    /// No node hosts two running services.
    pub open spec fn nodes_unique(self) -> bool {
        forall|i: int, j: int|
            0 <= i < j < self.services.len() && (#[trigger] self.services[i]).end is None && (
            #[trigger] self.services[j]).end is None && self.services[i].node is Some
                ==> self.services[i].node != self.services[j].node
    }

    /// Every service of a running deployment runs, and began no later than the
    /// latest moment that the ledger knows.
    pub open spec fn deployments_whole(self) -> bool {
        forall|d: int, s: int|
            0 <= d < self.deployments.len() && 0 <= s < self.services.len() && (
            #[trigger] self.deployments[d]).end is None && (#[trigger] self.services[s]).deployment
                == self.deployments[d].id ==> self.services[s].end is None && self.services[s].start
                <= self.clock
    }

    /// Every service that names a deployment names one that is there.
    pub open spec fn services_refer(self) -> bool {
        forall|s: int|
            0 <= s < self.services.len() ==> ((#[trigger] self.services[s]).deployment matches Some(
                d,
            ) ==> 1 <= d <= self.deployments.len())
    }

    /// The ledger is in order.
    pub open spec fn consistent(self) -> bool {
        self.nodes_unique() && self.deployments_whole() && self.services_refer()
    }

    /// The deployment of the given identifier is there.
    pub open spec fn knows(self, deployment: i64) -> bool {
        1 <= deployment <= self.deployments.len()
    }

    /// The deployment of the given identifier runs.
    pub open spec fn runs(self, deployment: i64) -> bool {
        1 <= deployment <= self.deployments.len() && self.deployments[deployment - 1].end is None
    }

    /// The rows of the services after the service of the given identifier has
    /// ended at `now`. A service that has ended keeps the moment of its end.
    pub open spec fn with_service_ended(self, id: i64, now: i64) -> Seq<ServiceView> {
        Seq::new(
            self.services.len(),
            |i: int|
                if i == id - 1 && self.services[i].end is None {
                    ServiceView { end: Some(now), ..self.services[i] }
                } else {
                    self.services[i]
                },
        )
    }

    /// The rows of the deployments after the deployment of the given
    /// identifier has ended at `now`. A deployment that has ended keeps the
    /// moment of its end.
    pub open spec fn with_deployment_ended(self, id: i64, now: i64) -> Seq<DeploymentView> {
        Seq::new(
            self.deployments.len(),
            |i: int|
                if i == id - 1 && self.deployments[i].end is None {
                    DeploymentView { end: Some(now), ..self.deployments[i] }
                } else {
                    self.deployments[i]
                },
        )
    }

    /// The rows of the services after those of the deployment of the given
    /// identifier that run have ended at `now`.
    pub open spec fn with_services_of_ended(self, deployment: i64, now: i64) -> Seq<ServiceView> {
        Seq::new(
            self.services.len(),
            |i: int|
                if self.services[i].deployment == Some(deployment) && self.services[i].end is None {
                    ServiceView { end: Some(now), ..self.services[i] }
                } else {
                    self.services[i]
                },
        )
    }
}

/// What the deployments of a list hold.
pub open spec fn deployment_views(list: Seq<Deployment>) -> Seq<DeploymentView> {
    Seq::new(list.len(), |i: int| list[i]@)
}

impl View for Ledger {
    type V = LedgerView;

    closed spec fn view(&self) -> LedgerView {
        LedgerView {
            deployments: deployment_views(self.deployments@),
            services: service_views(self.services@),
            tasks: task_views(self.tasks@),
            clock: self.clock,
        }
    }
}

/// In a ledger that is in order, the services of the deployments that run
/// all run themselves and began no later than now, and no two services that
/// run are on the same node.
pub proof fn lemma_running_set(ledger: LedgerView, now: i64, d: int, s: int, other: int)
    requires
        ledger.numbered(),
        ledger.consistent(),
        ledger.clock <= now,
        0 <= d < ledger.deployments.len(),
        0 <= s < ledger.services.len(),
        0 <= other < ledger.services.len(),
        ledger.deployments[d].end is None,
        ledger.services[s].deployment == ledger.deployments[d].id,
    ensures
        ledger.services[s].start <= now,
        ledger.services[s].end is None,
        other != s && ledger.services[other].end is None && ledger.services[s].node is Some
            ==> ledger.services[other].node != ledger.services[s].node,
{
    if other < s {
        assert(ledger.services[other].end is None && ledger.services[other].node is Some
            ==> ledger.services[other].node != ledger.services[s].node);
    }
}

impl Ledger {
    /// An empty ledger.
    pub fn new() -> (ledger: Self)
        ensures
            ledger@ == LedgerView::empty(),
            ledger@.numbered(),
            ledger@.consistent(),
    {
        let ledger = Ledger {
            deployments: Vec::new(),
            services: Vec::new(),
            tasks: Vec::new(),
            clock: i64::MIN,
        };
        assert(ledger@.deployments =~= Seq::<DeploymentView>::empty());
        assert(ledger@.services =~= Seq::<ServiceView>::empty());
        assert(ledger@.tasks =~= Seq::<TaskView>::empty());
        ledger
    }

    /// The ledger of the given rows, where every row has the number of its
    /// place as its identifier, and nothing where one has not. The clock is
    /// the latest moment that the ledger is to know.
    pub fn from_rows(
        deployments: Vec<Deployment>,
        services: Vec<Service>,
        tasks: Vec<Task>,
        clock: i64,
    ) -> (r: Option<Self>)
        ensures
            ({
                let rows = LedgerView {
                    deployments: deployment_views(deployments@),
                    services: service_views(services@),
                    tasks: task_views(tasks@),
                    clock,
                };
                match r {
                    Some(ledger) => ledger@ == rows && rows.numbered(),
                    None => !rows.numbered(),
                }
            }),
    {
        let ghost rows = LedgerView {
            deployments: deployment_views(deployments@),
            services: service_views(services@),
            tasks: task_views(tasks@),
            clock,
        };
        if deployments.len() as u64 >= i64::MAX as u64 || services.len() as u64 >= i64::MAX as u64
            || tasks.len() as u64 >= i64::MAX as u64 {
            return None;
        }
        let mut i: usize = 0;
        while i < deployments.len()
            invariant
                i <= deployments.len() < i64::MAX,
                rows.deployments == deployment_views(deployments@),
                forall|k: int| 0 <= k < i ==> (#[trigger] rows.deployments[k]).id == Some((k + 1) as i64),
            decreases deployments.len() - i,
        {
            assert(rows.deployments[i as int] == deployments@[i as int]@);
            let numbered = match deployments[i].id {
                Some(id) => id == i as i64 + 1,
                None => false,
            };
            if !numbered {
                return None;
            }
            i += 1;
        }
        let mut j: usize = 0;
        while j < services.len()
            invariant
                j <= services.len() < i64::MAX,
                rows.services == service_views(services@),
                forall|k: int| 0 <= k < j ==> (#[trigger] rows.services[k]).id == Some((k + 1) as i64),
            decreases services.len() - j,
        {
            assert(rows.services[j as int] == services@[j as int]@);
            let numbered = match services[j].id {
                Some(id) => id == j as i64 + 1,
                None => false,
            };
            if !numbered {
                return None;
            }
            j += 1;
        }
        Some(Ledger { deployments, services, tasks, clock })
    }

    /// Whether no node hosts two running services.
    pub fn has_unique_nodes(&self) -> (r: bool)
        ensures
            r == self@.nodes_unique(),
    {
        let ghost rows = self@.services;
        let mut j: usize = 0;
        while j < self.services.len()
            invariant
                j <= self.services.len(),
                rows == service_views(self.services@),
                forall|a: int, b: int|
                    0 <= a < b < j && (#[trigger] rows[a]).end is None && (#[trigger] rows[b]).end is None
                        && rows[a].node is Some ==> rows[a].node != rows[b].node,
            decreases self.services.len() - j,
        {
            assert(rows[j as int] == self.services@[j as int]@);
            if self.services[j].end.is_none() {
                let mut i: usize = 0;
                while i < j
                    invariant
                        i <= j < self.services.len(),
                        rows == service_views(self.services@),
                        rows[j as int].end is None,
                        forall|a: int|
                            0 <= a < i && (#[trigger] rows[a]).end is None && rows[a].node is Some
                                ==> rows[a].node != rows[j as int].node,
                    decreases j - i,
                {
                    assert(rows[i as int] == self.services@[i as int]@);
                    assert(rows[j as int] == self.services@[j as int]@);
                    let clash = self.services[i].end.is_none() && match (
                        &self.services[i].node,
                        &self.services[j].node,
                    ) {
                        (Some(a), Some(b)) => *a == *b,
                        _ => false,
                    };
                    if clash {
                        return false;
                    }
                    i += 1;
                }
            }
            j += 1;
        }
        true
    }

    /// Whether every service that names a deployment names one that is there,
    /// and every service of a running deployment runs and began no later than
    /// the latest moment that the ledger knows.
    pub fn has_whole_deployments(&self) -> (r: bool)
        requires
            self@.numbered(),
        ensures
            r == (self@.services_refer() && self@.deployments_whole()),
    {
        let ghost rows = self@;
        assert(rows.deployments.len() == self.deployments.len());
        let mut s: usize = 0;
        while s < self.services.len()
            invariant
                s <= self.services.len(),
                rows == self@,
                rows.numbered(),
                forall|k: int|
                    0 <= k < s ==> ((#[trigger] rows.services[k]).deployment matches Some(d) ==> 1
                        <= d <= rows.deployments.len()),
                forall|d: int, k: int|
                    0 <= d < rows.deployments.len() && 0 <= k < s && (
                    #[trigger] rows.deployments[d]).end is None && (
                    #[trigger] rows.services[k]).deployment == rows.deployments[d].id
                        ==> rows.services[k].end is None && rows.services[k].start <= rows.clock,
            decreases self.services.len() - s,
        {
            assert(rows.services[s as int] == self.services@[s as int]@);
            match self.services[s].deployment {
                Some(deployment) => {
                    if deployment < 1 || deployment as u64 > self.deployments.len() as u64 {
                        return false;
                    }
                    let at = (deployment - 1) as usize;
                    assert(rows.deployments[at as int] == self.deployments@[at as int]@);
                    assert(rows.deployments[at as int].id == Some(deployment));
                    if self.deployments[at].end.is_none() && (self.services[s].end.is_some()
                        || self.services[s].start > self.clock) {
                        return false;
                    }
                    assert forall|d: int|
                        0 <= d < rows.deployments.len() && (#[trigger] rows.deployments[d]).end is None
                            && rows.services[s as int].deployment
                            == rows.deployments[d].id implies rows.services[s as int].end is None
                        && rows.services[s as int].start <= rows.clock by {
                        assert(rows.deployments[d].id == Some((d + 1) as i64));
                    }
                },
                None => {
                    assert forall|d: int|
                        0 <= d < rows.deployments.len() implies (#[trigger] rows.deployments[d]).id
                        != rows.services[s as int].deployment by {
                        assert(rows.deployments[d].id == Some((d + 1) as i64));
                    }
                },
            }
            s += 1;
        }
        true
    }

    /// Whether the ledger is in order.
    pub fn is_consistent(&self) -> (r: bool)
        requires
            self@.numbered(),
        ensures
            r == self@.consistent(),
    {
        self.has_unique_nodes() && self.has_whole_deployments()
    }

    /// Enters a deployment that begins at `now`, and its tasks. Gives the
    /// identifier of the deployment.
    pub fn insert_deployment(&mut self, deployment: &Deployment, now: i64) -> (id: i64)
        requires
            old(self)@.numbered(),
            old(self)@.deployments.len() + 1 < i64::MAX,
            old(self)@.tasks.len() + deployment@.tasks.len() < i64::MAX,
        ensures
            id == old(self)@.deployments.len() + 1,
            final(self)@ == (LedgerView {
                deployments: old(self)@.deployments.push(deployment_row(deployment@, id, now)),
                tasks: old(self)@.tasks + task_rows(deployment@.tasks, id),
                clock: later(old(self)@.clock, now),
                ..old(self)@
            }),
            final(self)@.numbered(),
            old(self)@.consistent() ==> final(self)@.consistent(),
    {
        assert(self@.deployments.len() == self.deployments.len());
        let id = self.deployments.len() as i64 + 1;
        let row = Deployment {
            id: Some(id),
            name: deployment.name.clone(),
            services: Vec::new(),
            owner: deployment.owner.clone(),
            start: now,
            end: None,
            tasks: Vec::new(),
        };
        assert(row@.services =~= Seq::<ServiceView>::empty());
        assert(row@.tasks =~= Seq::<TaskView>::empty());
        let ghost before = self@;
        self.deployments.push(row);
        assert(deployment_views(self.deployments@) =~= before.deployments.push(row@));
        let mut i: usize = 0;
        while i < deployment.tasks.len()
            invariant
                i <= deployment.tasks.len(),
                self.deployments@ == old(self).deployments@.push(row),
                self.services == old(self).services,
                self.clock == old(self).clock,
                task_views(self.tasks@) == before.tasks + task_rows(deployment@.tasks, id).take(
                    i as int,
                ),
            decreases deployment.tasks.len() - i,
        {
            let ghost done = task_views(self.tasks@);
            let mut task = deployment.tasks[i].clone();
            task.deployment = Some(id);
            assert(deployment@.tasks[i as int] == deployment.tasks@[i as int]@);
            self.tasks.push(task);
            assert(task_views(self.tasks@) =~= done.push(task@));
            assert(task_rows(deployment@.tasks, id).take(i + 1) =~= task_rows(
                deployment@.tasks,
                id,
            ).take(i as int).push(task@));
            assert(task_views(self.tasks@) =~= before.tasks + task_rows(deployment@.tasks, id).take(
                i + 1,
            ));
            i += 1;
        }
        assert(task_rows(deployment@.tasks, id).take(i as int) =~= task_rows(deployment@.tasks, id));
        if self.clock < now {
            self.clock = now;
        }
        proof {
            let after = self@;
            if before.consistent() {
                assert forall|d: int, s: int|
                    0 <= d < after.deployments.len() && 0 <= s < after.services.len() && (
                    #[trigger] after.deployments[d]).end is None && (
                    #[trigger] after.services[s]).deployment
                        == after.deployments[d].id implies after.services[s].end is None
                    && after.services[s].start <= after.clock by {
                    if d < before.deployments.len() {
                        assert(after.deployments[d] == before.deployments[d]);
                    } else {
                        assert(after.services[s] == before.services[s]);
                    }
                }
            }
        }
        id
    }

    /// Enters a service that begins at `now`. Gives the identifier of the
    /// service. Where the ledger was in order, the node of the service was
    /// idle and its deployment ran, the ledger stays in order.
    pub fn insert_service(&mut self, service: &Service, now: i64) -> (id: i64)
        requires
            old(self)@.numbered(),
            old(self)@.services.len() + 1 < i64::MAX,
            service@.deployment is Some,
            service@.node is Some,
        ensures
            id == old(self)@.services.len() + 1,
            final(self)@ == (LedgerView {
                services: old(self)@.services.push(service_row(service@, id, now)),
                clock: later(old(self)@.clock, now),
                ..old(self)@
            }),
            final(self)@.numbered(),
            old(self)@.consistent() && !hosts(old(self)@.services, service@.node->0)
                && old(self)@.knows(service@.deployment->0) ==> final(self)@.consistent(),
    {
        assert(self@.services.len() == self.services.len());
        let id = self.services.len() as i64 + 1;
        let mut row = service.clone();
        row.id = Some(id);
        row.replicas = 1;
        row.preferred_node = None;
        row.start = now;
        row.end = None;
        let ghost before = self@;
        self.services.push(row);
        assert(service_views(self.services@) =~= before.services.push(row@));
        if self.clock < now {
            self.clock = now;
        }
        proof {
            let after = self@;
            if before.consistent() && !hosts(before.services, service@.node->0) && before.knows(
                service@.deployment->0,
            ) {
                assert forall|i: int, j: int|
                    0 <= i < j < after.services.len() && (#[trigger] after.services[i]).end is None
                        && (#[trigger] after.services[j]).end is None
                        && after.services[i].node is Some implies after.services[i].node
                    != after.services[j].node by {
                    if j < before.services.len() {
                        assert(after.services[i] == before.services[i]);
                        assert(after.services[j] == before.services[j]);
                    } else {
                        assert(after.services[i] == before.services[i]);
                    }
                }
                assert forall|d: int, s: int|
                    0 <= d < after.deployments.len() && 0 <= s < after.services.len() && (
                    #[trigger] after.deployments[d]).end is None && (
                    #[trigger] after.services[s]).deployment
                        == after.deployments[d].id implies after.services[s].end is None
                    && after.services[s].start <= after.clock by {
                    if s < before.services.len() {
                        assert(after.services[s] == before.services[s]);
                    }
                }
            }
        }
        id
    }

    /// Enters a service that begins at `now`, where its deployment is there
    /// and no service runs on its node. Gives the identifier of the service,
    /// or nothing where the service was not entered; the ledger is as it was
    /// then. A ledger that is in order stays in order.
    pub fn record_service(&mut self, service: &Service, now: i64) -> (r: Option<i64>)
        requires
            old(self)@.numbered(),
            old(self)@.services.len() + 1 < i64::MAX,
            service@.deployment is Some,
            service@.node is Some,
        ensures
            r is Some <==> old(self)@.knows(service@.deployment->0) && !hosts(
                old(self)@.services,
                service@.node->0,
            ),
            r matches Some(id) ==> id == old(self)@.services.len() + 1 && final(self)@
                == (LedgerView {
                services: old(self)@.services.push(service_row(service@, id, now)),
                clock: later(old(self)@.clock, now),
                ..old(self)@
            }),
            r is None ==> final(self)@ == old(self)@,
            final(self)@.numbered(),
            old(self)@.consistent() ==> final(self)@.consistent(),
    {
        let deployment = match service.deployment {
            Some(deployment) => deployment,
            None => 0,
        };
        assert(self@.deployments.len() == self.deployments.len());
        let known = deployment >= 1 && deployment as u64 <= self.deployments.len() as u64;
        let busy = match &service.node {
            Some(node) => crate::database::is_hosting(&self.services, node.as_str()),
            None => true,
        };
        if known && !busy {
            Some(self.insert_service(service, now))
        } else {
            None
        }
    }

    /// Enters a task of the deployment of the given identifier. Gives the
    /// identifier of the task.
    pub fn insert_task(&mut self, task: &Task, deployment_id: i64) -> (id: i64)
        requires
            old(self)@.tasks.len() + 1 < i64::MAX,
        ensures
            id == old(self)@.tasks.len() + 1,
            final(self)@ == (LedgerView {
                tasks: old(self)@.tasks.push(task_row(task@, deployment_id)),
                ..old(self)@
            }),
    {
        assert(self@.tasks.len() == self.tasks.len());
        let id = self.tasks.len() as i64 + 1;
        let mut row = task.clone();
        row.deployment = Some(deployment_id);
        let ghost before = self@;
        self.tasks.push(row);
        assert(task_views(self.tasks@) =~= before.tasks.push(row@));
        id
    }

    /// Notes that a service has ended at `now`. Gives the number of rows of
    /// that identifier: one, or none. No two running services share a node
    /// afterwards where none did before.
    pub fn set_enddate_for_service(&mut self, id: i64, now: i64) -> (rows: usize)
        ensures
            rows == if 1 <= id <= old(self)@.services.len() {
                1usize
            } else {
                0usize
            },
            final(self)@ == (LedgerView {
                services: old(self)@.with_service_ended(id, now),
                ..old(self)@
            }),
            old(self)@.numbered() ==> final(self)@.numbered(),
            old(self)@.nodes_unique() ==> final(self)@.nodes_unique(),
    {
        let ghost before = self@;
        if id >= 1 && id as u64 <= self.services.len() as u64 {
            let at = (id - 1) as usize;
            if self.services[at].end.is_none() {
                let mut row = self.services[at].clone();
                row.end = Some(now);
                self.services.set(at, row);
            }
            assert(service_views(self.services@) =~= before.with_service_ended(id, now));
            1
        } else {
            assert(service_views(self.services@) =~= before.with_service_ended(id, now));
            0
        }
    }

    /// Notes that a deployment has ended at `now`. Gives the number of rows
    /// of that identifier: one, or none.
    pub fn set_enddate_for_deployment(&mut self, id: i64, now: i64) -> (rows: usize)
        ensures
            rows == if 1 <= id <= old(self)@.deployments.len() {
                1usize
            } else {
                0usize
            },
            final(self)@ == (LedgerView {
                deployments: old(self)@.with_deployment_ended(id, now),
                ..old(self)@
            }),
            old(self)@.numbered() ==> final(self)@.numbered(),
            old(self)@.consistent() ==> final(self)@.consistent(),
    {
        let ghost before = self@;
        if id >= 1 && id as u64 <= self.deployments.len() as u64 {
            let at = (id - 1) as usize;
            if self.deployments[at].end.is_none() {
                let mut row = self.deployments[at].clone();
                row.end = Some(now);
                self.deployments.set(at, row);
            }
            assert(deployment_views(self.deployments@) =~= before.with_deployment_ended(id, now));
            1
        } else {
            assert(deployment_views(self.deployments@) =~= before.with_deployment_ended(id, now));
            0
        }
    }

    /// Stops a deployment at `now`: its running services end, then the
    /// deployment itself.
    pub fn stop_deployment(&mut self, id: i64, now: i64)
        ensures
            final(self)@ == (LedgerView {
                services: old(self)@.with_services_of_ended(id, now),
                deployments: old(self)@.with_deployment_ended(id, now),
                ..old(self)@
            }),
            old(self)@.numbered() ==> final(self)@.numbered(),
            old(self)@.numbered() && old(self)@.consistent() ==> final(self)@.consistent(),
    {
        let ghost before = self@;
        let mut i: usize = 0;
        while i < self.services.len()
            invariant
                i <= self.services.len(),
                self.services.len() == old(self).services.len(),
                self.deployments == old(self).deployments,
                self.tasks == old(self).tasks,
                self.clock == old(self).clock,
                before == old(self)@,
                forall|k: int|
                    0 <= k < i ==> (#[trigger] self.services[k])@ == before.with_services_of_ended(
                        id,
                        now,
                    )[k],
                forall|k: int|
                    i <= k < self.services.len() ==> (#[trigger] self.services[k])@
                        == before.services[k],
            decreases self.services.len() - i,
        {
            assert(before.services[i as int] == old(self).services@[i as int]@);
            let belongs = match self.services[i].deployment {
                Some(deployment) => deployment == id,
                None => false,
            };
            if belongs && self.services[i].end.is_none() {
                let mut row = self.services[i].clone();
                row.end = Some(now);
                self.services.set(i, row);
            }
            i += 1;
        }
        assert(service_views(self.services@) =~= before.with_services_of_ended(id, now));
        let ghost between = self@;
        self.set_enddate_for_deployment(id, now);
        proof {
            let after = self@;
            assert(after.deployments =~= before.with_deployment_ended(id, now));
            if before.numbered() && before.consistent() {
                assert forall|a: int, b: int|
                    0 <= a < b < after.services.len() && (#[trigger] after.services[a]).end is None
                        && (#[trigger] after.services[b]).end is None
                        && after.services[a].node is Some implies after.services[a].node
                    != after.services[b].node by {
                    assert(before.services[a].end is None && before.services[b].end is None);
                }
                assert forall|d: int, s: int|
                    0 <= d < after.deployments.len() && 0 <= s < after.services.len() && (
                    #[trigger] after.deployments[d]).end is None && (
                    #[trigger] after.services[s]).deployment
                        == after.deployments[d].id implies after.services[s].end is None
                    && after.services[s].start <= after.clock by {
                    assert(before.deployments[d].end is None);
                    assert(before.deployments[d].id == Some((d + 1) as i64));
                    assert(before.services[s].deployment == before.deployments[d].id);
                    assert(d != id - 1);
                }
            }
        }
    }

    /// The services that run.
    pub fn get_running_services(&self) -> (running: Vec<Service>)
        ensures
            service_views(running@) == self@.services.filter(|s: ServiceView| s.end is None),
    {
        self.select_services(true)
    }

    /// The services that have ended.
    pub fn get_stopped_services(&self) -> (stopped: Vec<Service>)
        ensures
            service_views(stopped@) == self@.services.filter(|s: ServiceView| s.end is Some),
    {
        self.select_services(false)
    }

    fn select_services(&self, running: bool) -> (found: Vec<Service>)
        ensures
            running ==> service_views(found@) == self@.services.filter(
                |s: ServiceView| s.end is None,
            ),
            !running ==> service_views(found@) == self@.services.filter(
                |s: ServiceView| s.end is Some,
            ),
    {
        let ghost runs = |s: ServiceView| s.end is None;
        let ghost ended = |s: ServiceView| s.end is Some;
        let mut found: Vec<Service> = Vec::new();
        let mut i: usize = 0;
        proof {
            reveal(Seq::filter);
        }
        while i < self.services.len()
            invariant
                i <= self.services.len(),
                runs == |s: ServiceView| s.end is None,
                ended == |s: ServiceView| s.end is Some,
                running ==> service_views(found@) == self@.services.take(i as int).filter(runs),
                !running ==> service_views(found@) == self@.services.take(i as int).filter(ended),
            decreases self.services.len() - i,
        {
            let ghost before = service_views(found@);
            proof {
                reveal(Seq::filter);
                let next = self@.services.take(i + 1);
                assert(next.drop_last() =~= self@.services.take(i as int));
                assert(next.last() == self.services@[i as int]@);
            }
            if self.services[i].end.is_none() == running {
                let service = self.services[i].clone();
                found.push(service);
                assert(service_views(found@) =~= before.push(service@));
            }
            i += 1;
        }
        assert(self@.services.take(i as int) =~= self@.services);
        found
    }

    /// All services.
    pub fn get_services(&self) -> (all: Vec<Service>)
        ensures
            service_views(all@) == self@.services,
    {
        crate::deployment::clone_services(&self.services)
    }

    /// The service of the given identifier, among all services or among those
    /// that run.
    pub fn get_service_by_id(&self, id: i64, only_active: bool) -> (r: Option<Service>)
        ensures
            match r {
                Some(service) => 1 <= id <= self@.services.len() && service@ == self@.services[id
                    - 1] && (only_active ==> service@.end is None),
                None => !(1 <= id <= self@.services.len()) || (only_active && self@.services[id
                    - 1].end is Some),
            },
    {
        if id >= 1 && id as u64 <= self.services.len() as u64 {
            let at = (id - 1) as usize;
            assert(self@.services[at as int] == self.services@[at as int]@);
            if only_active && self.services[at].end.is_some() {
                None
            } else {
                Some(self.services[at].clone())
            }
        } else {
            None
        }
    }

    /// The services of the deployment of the given identifier.
    pub fn get_services_by_deployment(&self, id: i64) -> (found: Vec<Service>)
        ensures
            service_views(found@) == self@.services.filter(
                |s: ServiceView| s.deployment == Some(id),
            ),
    {
        let ghost belongs = |s: ServiceView| s.deployment == Some(id);
        let mut found: Vec<Service> = Vec::new();
        let mut i: usize = 0;
        proof {
            reveal(Seq::filter);
        }
        while i < self.services.len()
            invariant
                i <= self.services.len(),
                belongs == |s: ServiceView| s.deployment == Some(id),
                service_views(found@) == self@.services.take(i as int).filter(belongs),
            decreases self.services.len() - i,
        {
            let ghost before = service_views(found@);
            proof {
                reveal(Seq::filter);
                let next = self@.services.take(i + 1);
                assert(next.drop_last() =~= self@.services.take(i as int));
                assert(next.last() == self.services@[i as int]@);
            }
            let here = match self.services[i].deployment {
                Some(deployment) => deployment == id,
                None => false,
            };
            if here {
                let service = self.services[i].clone();
                found.push(service);
                assert(service_views(found@) =~= before.push(service@));
            }
            i += 1;
        }
        assert(self@.services.take(i as int) =~= self@.services);
        found
    }

    /// The tasks of the deployment of the given identifier.
    pub fn get_tasks_by_deployment(&self, id: i64) -> (found: Vec<Task>)
        ensures
            task_views(found@) == self@.tasks.filter(|t: TaskView| t.deployment == Some(id)),
    {
        let ghost belongs = |t: TaskView| t.deployment == Some(id);
        let mut found: Vec<Task> = Vec::new();
        let mut i: usize = 0;
        proof {
            reveal(Seq::filter);
        }
        while i < self.tasks.len()
            invariant
                i <= self.tasks.len(),
                belongs == |t: TaskView| t.deployment == Some(id),
                task_views(found@) == self@.tasks.take(i as int).filter(belongs),
            decreases self.tasks.len() - i,
        {
            let ghost before = task_views(found@);
            proof {
                reveal(Seq::filter);
                let next = self@.tasks.take(i + 1);
                assert(next.drop_last() =~= self@.tasks.take(i as int));
                assert(next.last() == self.tasks@[i as int]@);
            }
            let here = match self.tasks[i].deployment {
                Some(deployment) => deployment == id,
                None => false,
            };
            if here {
                let task = self.tasks[i].clone();
                found.push(task);
                assert(task_views(found@) =~= before.push(task@));
            }
            i += 1;
        }
        assert(self@.tasks.take(i as int) =~= self@.tasks);
        found
    }

    /// The deployment of the given identifier, among all deployments or among
    /// those that run, without its services and tasks.
    pub fn get_deployment_by_id(&self, id: i64, only_active: bool) -> (r: Option<Deployment>)
        ensures
            match r {
                Some(deployment) => self@.knows(id) && deployment@ == self@.deployments[id - 1] && (
                only_active ==> deployment@.end is None),
                None => !self@.knows(id) || (only_active && self@.deployments[id - 1].end is Some),
            },
    {
        if id >= 1 && id as u64 <= self.deployments.len() as u64 {
            let at = (id - 1) as usize;
            assert(self@.deployments[at as int] == self.deployments@[at as int]@);
            if only_active && self.deployments[at].end.is_some() {
                None
            } else {
                Some(self.deployments[at].clone())
            }
        } else {
            None
        }
    }

    /// All deployments, without their services and tasks.
    pub fn get_deployments(&self) -> (all: Vec<Deployment>)
        ensures
            deployment_views(all@) == self@.deployments,
    {
        let mut all: Vec<Deployment> = Vec::new();
        let mut i: usize = 0;
        while i < self.deployments.len()
            invariant
                i <= self.deployments.len(),
                deployment_views(all@) == self@.deployments.take(i as int),
            decreases self.deployments.len() - i,
        {
            let ghost before = deployment_views(all@);
            let deployment = self.deployments[i].clone();
            all.push(deployment);
            assert(deployment_views(all@) =~= before.push(deployment@));
            assert(self@.deployments.take(i + 1) =~= self@.deployments.take(i as int).push(
                deployment@,
            ));
            i += 1;
        }
        assert(self@.deployments.take(i as int) =~= self@.deployments);
        all
    }

    /// The deployments that run, each with its tasks.
    pub fn get_running_deployments(&self) -> (running: Vec<Deployment>)
        ensures
            running@.len() == self@.deployments.filter(|d: DeploymentView| d.end is None).len(),
            forall|i: int|
                0 <= i < running@.len() ==> {
                    let row = self@.deployments.filter(|d: DeploymentView| d.end is None)[i];
                    (#[trigger] running@[i])@ == (DeploymentView {
                        tasks: self@.tasks.filter(|t: TaskView| t.deployment == row.id),
                        ..row
                    })
                },
    {
        let ghost runs = |d: DeploymentView| d.end is None;
        let mut running: Vec<Deployment> = Vec::new();
        let mut i: usize = 0;
        proof {
            reveal(Seq::filter);
        }
        while i < self.deployments.len()
            invariant
                i <= self.deployments.len(),
                runs == |d: DeploymentView| d.end is None,
                running@.len() == self@.deployments.take(i as int).filter(runs).len(),
                forall|k: int|
                    0 <= k < running@.len() ==> {
                        let row = self@.deployments.take(i as int).filter(runs)[k];
                        (#[trigger] running@[k])@ == (DeploymentView {
                            tasks: self@.tasks.filter(|t: TaskView| t.deployment == row.id),
                            ..row
                        })
                    },
            decreases self.deployments.len() - i,
        {
            proof {
                reveal(Seq::filter);
                let next = self@.deployments.take(i + 1);
                assert(next.drop_last() =~= self@.deployments.take(i as int));
                assert(next.last() == self.deployments@[i as int]@);
            }
            if self.deployments[i].end.is_none() {
                let mut deployment = self.deployments[i].clone();
                deployment.tasks = match deployment.id {
                    Some(id) => self.get_tasks_by_deployment(id),
                    None => self.tasks_without_deployment(),
                };
                running.push(deployment);
            }
            i += 1;
        }
        assert(self@.deployments.take(i as int) =~= self@.deployments);
        running
    }

    fn tasks_without_deployment(&self) -> (found: Vec<Task>)
        ensures
            task_views(found@) == self@.tasks.filter(|t: TaskView| t.deployment == None::<i64>),
    {
        let ghost belongs = |t: TaskView| t.deployment == None::<i64>;
        let mut found: Vec<Task> = Vec::new();
        let mut i: usize = 0;
        proof {
            reveal(Seq::filter);
        }
        while i < self.tasks.len()
            invariant
                i <= self.tasks.len(),
                belongs == |t: TaskView| t.deployment == None::<i64>,
                task_views(found@) == self@.tasks.take(i as int).filter(belongs),
            decreases self.tasks.len() - i,
        {
            let ghost before = task_views(found@);
            proof {
                reveal(Seq::filter);
                let next = self@.tasks.take(i + 1);
                assert(next.drop_last() =~= self@.tasks.take(i as int));
                assert(next.last() == self.tasks@[i as int]@);
            }
            if self.tasks[i].deployment.is_none() {
                let task = self.tasks[i].clone();
                found.push(task);
                assert(task_views(found@) =~= before.push(task@));
            }
            i += 1;
        }
        assert(self@.tasks.take(i as int) =~= self@.tasks);
        found
    }

    /// Notes that a task has ended at `now`, which is to say that it was
    /// executed. Gives the number of rows of that identifier: one, or none.
    pub fn set_end_and_executed_for_task(&mut self, id: i64, now: i64) -> (rows: usize)
        ensures
            rows == if 1 <= id <= old(self)@.tasks.len() {
                1usize
            } else {
                0usize
            },
            final(self)@ == (LedgerView {
                tasks: Seq::new(
                    old(self)@.tasks.len(),
                    |i: int|
                        if i == id - 1 {
                            TaskView { end: Some(now), ..old(self)@.tasks[i] }
                        } else {
                            old(self)@.tasks[i]
                        },
                ),
                ..old(self)@
            }),
    {
        let ghost before = self@;
        let ghost wanted = Seq::new(
            before.tasks.len(),
            |i: int|
                if i == id - 1 {
                    TaskView { end: Some(now), ..before.tasks[i] }
                } else {
                    before.tasks[i]
                },
        );
        assert(self@.tasks.len() == self.tasks.len());
        if id >= 1 && id as u64 <= self.tasks.len() as u64 {
            let at = (id - 1) as usize;
            let mut row = self.tasks[at].clone();
            row.end = Some(now);
            self.tasks.set(at, row);
            assert(task_views(self.tasks@) =~= wanted);
            1
        } else {
            assert(task_views(self.tasks@) =~= wanted);
            0
        }
    }

    /// The number of deployments.
    pub fn count_deployments(&self) -> (n: usize)
        ensures
            n == self@.deployments.len(),
    {
        self.deployments.len()
    }

    /// Whether the deployment of the given identifier runs.
    pub fn is_running(&self, id: i64) -> (r: bool)
        ensures
            r == self@.runs(id),
    {
        if id >= 1 && id as u64 <= self.deployments.len() as u64 {
            let at = (id - 1) as usize;
            assert(self@.deployments[at as int] == self.deployments@[at as int]@);
            self.deployments[at].end.is_none()
        } else {
            false
        }
    }
}

} // verus!
