use crate::service::{service_views, Service, ServiceEntry, ServiceView};
use crate::task::{stop_rule_text, task_views, Task, TaskView, Type};
use vstd::prelude::*;

verus! {

/// A named group of services that are brought to the cluster together, with
/// the tasks that go with them. Moments are seconds since the beginning of
/// 1970.
#[derive(Debug)]
pub struct Deployment {
    pub id: Option<i64>,
    pub name: String,
    pub services: Vec<Service>,
    pub owner: String,
    pub start: i64,
    pub end: Option<i64>,
    pub tasks: Vec<Task>,
}

/// What a deployment holds.
pub struct DeploymentView {
    pub id: Option<i64>,
    pub name: Seq<char>,
    pub services: Seq<ServiceView>,
    pub owner: Seq<char>,
    pub start: i64,
    pub end: Option<i64>,
    pub tasks: Seq<TaskView>,
}

impl View for Deployment {
    type V = DeploymentView;

    open spec fn view(&self) -> DeploymentView {
        DeploymentView {
            id: self.id,
            name: self.name@,
            services: service_views(self.services@),
            owner: self.owner@,
            start: self.start,
            end: self.end,
            tasks: task_views(self.tasks@),
        }
    }
}

/// The rule that stops a deployment once `rule.0` has occurred in its logs
/// `rule.1` times, as a task.
pub open spec fn stop_task(rule: (Seq<char>, i64)) -> TaskView {
    TaskView {
        deployment: None,
        service: None,
        task_type: Type::StopIfTrue,
        parameters: stop_rule_text(rule.0, rule.1),
        during_deployment: true,
        start: None,
        end: None,
    }
}

/// The texts of a list of rules.
pub open spec fn rule_texts(rules: Seq<(String, i64)>) -> Seq<(Seq<char>, i64)> {
    Seq::new(rules.len(), |i: int| (rules[i].0@, rules[i].1))
}

impl DeploymentView {
    /// A deployment of which only the name is known: it begins at `now`, and
    /// has neither services nor tasks.
    pub open spec fn fresh(name: Seq<char>, now: i64) -> DeploymentView {
        DeploymentView {
            id: None,
            name,
            services: Seq::<ServiceView>::empty(),
            owner: "aresch"@,
            start: now,
            end: None,
            tasks: Seq::<TaskView>::empty(),
        }
    }
}

/// Copies of the given services, in order.
pub fn clone_services(list: &Vec<Service>) -> (r: Vec<Service>)
    ensures
        service_views(r@) == service_views(list@),
{
    let mut r: Vec<Service> = Vec::new();
    let mut i: usize = 0;
    while i < list.len()
        invariant
            i <= list.len(),
            service_views(r@) == service_views(list@).take(i as int),
        decreases list.len() - i,
    {
        let ghost before = service_views(r@);
        let service = list[i].clone();
        r.push(service);
        assert(service_views(r@) =~= before.push(service@));
        assert(service_views(list@).take(i + 1) =~= service_views(list@).take(i as int).push(
            service@,
        ));
        i += 1;
    }
    assert(service_views(list@).take(i as int) =~= service_views(list@));
    r
}

/// Copies of the given tasks, in order.
pub fn clone_tasks(list: &Vec<Task>) -> (r: Vec<Task>)
    ensures
        task_views(r@) == task_views(list@),
{
    let mut r: Vec<Task> = Vec::new();
    let mut i: usize = 0;
    while i < list.len()
        invariant
            i <= list.len(),
            task_views(r@) == task_views(list@).take(i as int),
        decreases list.len() - i,
    {
        let ghost before = task_views(r@);
        let task = list[i].clone();
        r.push(task);
        assert(task_views(r@) =~= before.push(task@));
        assert(task_views(list@).take(i + 1) =~= task_views(list@).take(i as int).push(task@));
        i += 1;
    }
    assert(task_views(list@).take(i as int) =~= task_views(list@));
    r
}

impl Clone for Deployment {
    fn clone(&self) -> (r: Self)
        ensures
            r@ == self@,
    {
        Deployment {
            id: self.id,
            name: self.name.clone(),
            services: clone_services(&self.services),
            owner: self.owner.clone(),
            start: self.start,
            end: self.end,
            tasks: clone_tasks(&self.tasks),
        }
    }
}

impl Deployment {
    /// A deployment that begins at `now`.
    pub fn new(name: &str, now: i64) -> (r: Self)
        ensures
            r@ == DeploymentView::fresh(name@, now),
    {
        let r = Deployment {
            id: None,
            name: String::from_str(name),
            services: Vec::new(),
            owner: String::from_str("aresch"),
            start: now,
            end: None,
            tasks: Vec::new(),
        };
        assert(r@.services =~= Seq::<ServiceView>::empty());
        assert(r@.tasks =~= Seq::<TaskView>::empty());
        r
    }

    /// The deployment that a deployment file describes: its services, by name,
    /// and one task for each rule that stops it. The services begin at `now`,
    /// as the deployment does.
    pub fn from_yaml(
        name: &str,
        entries: &Vec<(String, ServiceEntry)>,
        rules: &Vec<(String, i64)>,
        now: i64,
    ) -> (r: Self)
        ensures
            r@.id is None,
            r@.name == name@,
            r@.owner == "aresch"@,
            r@.start == now,
            r@.end is None,
            r@.services.len() == entries.len(),
            forall|i: int|
                0 <= i < entries.len() ==> #[trigger] r@.services[i] == (ServiceView {
                    replicas: match entries[i].1.replicas {
                        Some(replicas) => replicas,
                        None => 1,
                    },
                    preferred_node: crate::text::opt_text(entries[i].1.node),
                    ipv4_address: crate::text::opt_text(entries[i].1.ipv4_address),
                    ..ServiceView::fresh(entries[i].0@, entries[i].1.image@, r@.services[i].hostname, now)
                }),
            forall|i: int|
                0 <= i < entries.len() ==> (entries[i].1.hostname matches Some(hostname)
                    ==> (#[trigger] r@.services[i]).hostname == hostname@),
            r@.tasks == rule_texts(rules@).map_values(|rule: (Seq<char>, i64)| stop_task(rule)),
    {
        let mut services: Vec<Service> = Vec::new();
        let mut i: usize = 0;
        while i < entries.len()
            invariant
                i <= entries.len(),
                services.len() == i,
                forall|k: int|
                    0 <= k < i ==> (#[trigger] services[k])@ == (ServiceView {
                        replicas: match entries[k].1.replicas {
                            Some(replicas) => replicas,
                            None => 1,
                        },
                        preferred_node: crate::text::opt_text(entries[k].1.node),
                        ipv4_address: crate::text::opt_text(entries[k].1.ipv4_address),
                        ..ServiceView::fresh(entries[k].0@, entries[k].1.image@, services[k]@.hostname, now)
                    }),
                forall|k: int|
                    0 <= k < i ==> (entries[k].1.hostname matches Some(hostname)
                        ==> (#[trigger] services[k])@.hostname == hostname@),
            decreases entries.len() - i,
        {
            let service = Service::from_yaml(entries[i].0.as_str(), &entries[i].1, now);
            services.push(service);
            i += 1;
        }
        let mut tasks: Vec<Task> = Vec::new();
        let mut j: usize = 0;
        let ghost wanted = rule_texts(rules@).map_values(|rule: (Seq<char>, i64)| stop_task(rule));
        while j < rules.len()
            invariant
                j <= rules.len(),
                wanted == rule_texts(rules@).map_values(|rule: (Seq<char>, i64)| stop_task(rule)),
                task_views(tasks@) == wanted.take(j as int),
            decreases rules.len() - j,
        {
            let ghost before = task_views(tasks@);
            let task = Task::stop_if_true(rules[j].0.as_str(), rules[j].1);
            tasks.push(task);
            assert(task_views(tasks@) =~= before.push(task@));
            assert(wanted.take(j + 1) =~= wanted.take(j as int).push(task@));
            j += 1;
        }
        assert(wanted.take(j as int) =~= wanted);
        Deployment {
            id: None,
            name: String::from_str(name),
            services,
            owner: String::from_str("aresch"),
            start: now,
            end: None,
            tasks,
        }
    }

    /// The deployment as a row of the ledger holds it, without services and
    /// tasks.
    pub fn from_row(id: Option<i64>, name: String, owner: String, start: i64, end: Option<i64>) -> (r:
        Self)
        ensures
            r@ == (DeploymentView {
                id,
                owner: owner@,
                end,
                ..DeploymentView::fresh(name@, start)
            }),
    {
        let r = Deployment {
            id,
            name,
            services: Vec::new(),
            owner,
            start,
            end,
            tasks: Vec::new(),
        };
        assert(r@.services =~= Seq::<ServiceView>::empty());
        assert(r@.tasks =~= Seq::<TaskView>::empty());
        r
    }

    pub fn get_services(&self) -> (services: Vec<Service>)
        ensures
            service_views(services@) == self@.services,
    {
        clone_services(&self.services)
    }
}

} // verus!
