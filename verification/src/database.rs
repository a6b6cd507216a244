use crate::deployment::{clone_services, Deployment, DeploymentView};
use crate::node::{node_views, Node, NodeView};
use crate::service::{service_views, Service, ServiceView};
use crate::task::{task_views, Task, TaskView};
use crate::text::opt_text;
use rand::prelude::SliceRandom;
use vstd::prelude::*;

verus! {

/// The statement that makes the table of the deployments.
pub const CREATE_DEPLOYMENTS: &'static str =
    "CREATE TABLE IF NOT EXISTS deployments (id INTEGER PRIMARY KEY AUTOINCREMENT, name VARCHAR2(20) NOT NULL, owner VARCHAR2(20) NOT NULL, start DATETIME DEFAULT CURRENT_TIMESTAMP, end DATETIME)";

/// The statement that makes the table of the services.
pub const CREATE_SERVICES: &'static str =
    "CREATE TABLE IF NOT EXISTS services (id INTEGER PRIMARY KEY AUTOINCREMENT, name VARCHAR2(20) NOT NULL, image VARCHAR2(20) NOT NULL, deployment INTEGER NOT NULL, node VARCHAR2(20) NOT NULL, start DATETIME DEFAULT CURRENT_TIMESTAMP, end DATETIME, ipv4_address VARCHAR(15), hostname VARCHAR(100) NOT NULL, architecture VARCHAR(20), FOREIGN KEY(deployment) REFERENCES deployments(id), FOREIGN KEY(node) REFERENCES nodes(id))";

/// The statement that makes the table of the log.
pub const CREATE_LOGS: &'static str =
    "CREATE TABLE IF NOT EXISTS logs (timestamp DATETIME DEFAULT CURRENT_TIMESTAMP, message TEXT NOT NULL)";

/// The statement that makes the table of the tasks. A task knows whether it
/// was executed.
pub const CREATE_TASKS: &'static str =
    "CREATE TABLE IF NOT EXISTS tasks (id INTEGER PRIMARY KEY AUTOINCREMENT, deployment INTEGER NOT NULL, service INTEGER, type INTEGER NOT NULL, parameters VARCHAR2(200) NOT NULL, during_deployment BOOLEAN NOT NULL CHECK (during_deployment IN (0, 1)), executed BOOLEAN NOT NULL DEFAULT 0, start DATETIME DEFAULT NULL, end DATETIME DEFAULT NULL, FOREIGN KEY(deployment) REFERENCES deployments(id), FOREIGN KEY(service) REFERENCES services(id))";

/// The statements that set up the tables of the ledger, in the order in which
/// they are run.
pub fn setup() -> (statements: Vec<&'static str>)
    ensures
        statements@ == seq![CREATE_DEPLOYMENTS, CREATE_SERVICES, CREATE_LOGS, CREATE_TASKS],
{
    let mut statements: Vec<&'static str> = Vec::new();
    statements.push(CREATE_DEPLOYMENTS);
    statements.push(CREATE_SERVICES);
    statements.push(CREATE_LOGS);
    statements.push(CREATE_TASKS);
    assert(statements@ =~= seq![CREATE_DEPLOYMENTS, CREATE_SERVICES, CREATE_LOGS, CREATE_TASKS]);
    statements
}

/// The statements that have to succeed before the ledger is used.
pub fn check() -> (statements: Vec<&'static str>)
    ensures
        statements@ == seq![CREATE_DEPLOYMENTS, CREATE_SERVICES, CREATE_LOGS, CREATE_TASKS],
{
    setup()
}

/// The statement that enters a deployment: name and owner; the ledger sets
/// identifier and start.
pub const INSERT_DEPLOYMENT: &'static str = "INSERT INTO deployments (name, owner) VALUES (?1, ?2)";

/// The statement that enters a service: name, image, deployment, node,
/// address, host name and the name of the architecture.
pub const INSERT_SERVICE: &'static str =
    "INSERT INTO services (name, image, deployment, node, ipv4_address, hostname, architecture) VALUES (?1, ?2, ?3, ?4, ?5, ?6, ?7)";

/// The statement that enters a task of a service: deployment, service, the
/// number of the kind, parameters, and whether it is watched during the
/// deployment.
pub const INSERT_SERVICE_TASK: &'static str =
    "INSERT INTO tasks (deployment, service, type, parameters, during_deployment) VALUES (?1, ?2, ?3, ?4, ?5)";

/// The statement that enters a task of a deployment as a whole.
pub const INSERT_TASK: &'static str =
    "INSERT INTO tasks (deployment, type, parameters, during_deployment) VALUES (?1, ?2, ?3, ?4)";

/// The statement that reads the services that run.
pub const RUNNING_SERVICES: &'static str = "SELECT * FROM services s WHERE s.end IS NULL";

/// The statement that reads the services that have ended.
pub const STOPPED_SERVICES: &'static str = "SELECT * FROM services s WHERE s.end IS NOT NULL";

/// The statement that reads all services.
pub const ALL_SERVICES: &'static str = "SELECT * FROM services s";

/// The statement that reads the services of a deployment.
pub const SERVICES_OF_DEPLOYMENT: &'static str = "SELECT * FROM services s WHERE s.deployment = ?1";

/// The statement that reads all deployments.
pub const ALL_DEPLOYMENTS: &'static str = "SELECT * FROM deployments d";

/// The statement that reads the deployments that run.
pub const RUNNING_DEPLOYMENTS: &'static str = "SELECT * FROM deployments d WHERE d.end IS NULL";

/// The statement that reads the tasks of a deployment.
pub const TASKS_OF_DEPLOYMENT: &'static str = "SELECT * FROM tasks t WHERE t.deployment = ?1";

/// The statement that reads all tasks.
pub const ALL_TASKS: &'static str = "SELECT * FROM tasks t";

/// The statement that notes the end of a service that runs. A service that
/// has ended keeps the moment of its end.
pub const END_SERVICE: &'static str =
    "UPDATE services SET end = CURRENT_TIMESTAMP WHERE id = ?1 AND end IS NULL";

/// The statement that notes the end of a deployment that runs.
pub const END_DEPLOYMENT: &'static str =
    "UPDATE deployments SET end = CURRENT_TIMESTAMP WHERE id = ?1 AND end IS NULL";

/// The statement that notes that a task has ended and was executed.
pub const END_TASK: &'static str =
    "UPDATE tasks SET end = CURRENT_TIMESTAMP, executed = 1 WHERE id = ?1";

/// The statement that enters a task: one for the task of a service, another
/// for the task of a deployment as a whole.
pub fn insert_task_statement(for_service: bool) -> (statement: &'static str)
    ensures
        statement == if for_service {
            INSERT_SERVICE_TASK
        } else {
            INSERT_TASK
        },
{
    if for_service {
        INSERT_SERVICE_TASK
    } else {
        INSERT_TASK
    }
}

/// The statement that reads the deployment of an identifier, among all
/// deployments or among those that run.
pub fn deployment_query(only_active: bool) -> (query: String)
    ensures
        query@ == if only_active {
            "SELECT * FROM deployments d WHERE d.id = ?1"@ + " AND d.end IS NULL"@
        } else {
            "SELECT * FROM deployments d WHERE d.id = ?1"@
        },
{
    let mut query = String::from_str("SELECT * FROM deployments d WHERE d.id = ?1");
    if only_active {
        query.append(" AND d.end IS NULL");
    }
    query
}

/// The statement that reads the service of an identifier, among all services
/// or among those that run.
pub fn service_query(only_active: bool) -> (query: String)
    ensures
        query@ == if only_active {
            "SELECT * FROM services s WHERE s.id = ?1"@ + " AND s.end IS NULL"@
        } else {
            "SELECT * FROM services s WHERE s.id = ?1"@
        },
{
    let mut query = String::from_str("SELECT * FROM services s WHERE s.id = ?1");
    if only_active {
        query.append(" AND s.end IS NULL");
    }
    query
}

/// A service runs on the node of the given identifier.
pub open spec fn hosts(services: Seq<ServiceView>, id: Seq<char>) -> bool {
    exists|i: int|
        0 <= i < services.len() && (#[trigger] services[i]).end is None && services[i].node
            == Some(id)
}

/// The nodes of the list on which no service runs, in order.
pub open spec fn idle_nodes(nodes: Seq<NodeView>, services: Seq<ServiceView>) -> Seq<NodeView>
    decreases nodes.len(),
{
    if nodes.len() == 0 {
        seq![]
    } else if hosts(services, nodes.last().id) {
        idle_nodes(nodes.drop_last(), services)
    } else {
        idle_nodes(nodes.drop_last(), services).push(nodes.last())
    }
}

/// Puts nodes into a random order (`SliceRandom::shuffle` with the generator
/// of the thread): the nodes are swapped among themselves, so the same nodes
/// are there afterwards, each as often as before.
#[verifier::external_body]
pub(crate) fn shuffle(nodes: &mut Vec<Node>)
    ensures
        node_views(final(nodes)@).to_multiset() == node_views(old(nodes)@).to_multiset(),
{
    nodes.shuffle(&mut rand::thread_rng())
}

/// Whether a service runs on the node of the given identifier.
pub fn is_hosting(services: &Vec<Service>, id: &str) -> (r: bool)
    ensures
        r == hosts(service_views(services@), id@),
{
    let mut i: usize = 0;
    while i < services.len()
        invariant
            i <= services.len(),
            forall|k: int|
                0 <= k < i ==> !((#[trigger] service_views(services@)[k]).end is None
                    && service_views(services@)[k].node == Some(id@)),
        decreases services.len() - i,
    {
        assert(service_views(services@)[i as int] == services@[i as int]@);
        let here = match &services[i].node {
            Some(node) => crate::text::str_eq(node.as_str(), id),
            None => false,
        };
        if services[i].end.is_none() && here {
            return true;
        }
        i += 1;
    }
    false
}

/// The nodes on which no service runs, in the order of the given nodes.
pub fn free_nodes(nodes: &Vec<Node>, services: &Vec<Service>) -> (free: Vec<Node>)
    ensures
        node_views(free@) == idle_nodes(node_views(nodes@), service_views(services@)),
{
    let mut free: Vec<Node> = Vec::new();
    let mut i: usize = 0;
    assert(node_views(free@) =~= idle_nodes(node_views(nodes@).take(0), service_views(services@)));
    while i < nodes.len()
        invariant
            i <= nodes.len(),
            node_views(free@) == idle_nodes(
                node_views(nodes@).take(i as int),
                service_views(services@),
            ),
        decreases nodes.len() - i,
    {
        let ghost before = node_views(free@);
        proof {
            let next = node_views(nodes@).take(i + 1);
            assert(next.drop_last() =~= node_views(nodes@).take(i as int));
            assert(next.last() == nodes@[i as int]@);
        }
        if !is_hosting(services, nodes[i].id.as_str()) {
            let node = nodes[i].clone();
            free.push(node);
            assert(node_views(free@) =~= before.push(node@));
        }
        i += 1;
    }
    assert(node_views(nodes@).take(i as int) =~= node_views(nodes@));
    free
}

/// The nodes that can take a service: the given nodes without those on which
/// a service runs, in a random order, so that no node is preferred.
pub fn get_idle_nodes(nodes: &Vec<Node>, services: &Vec<Service>) -> (idle: Vec<Node>)
    ensures
        node_views(idle@).to_multiset() == idle_nodes(
            node_views(nodes@),
            service_views(services@),
        ).to_multiset(),
{
    let mut idle = free_nodes(nodes, services);
    shuffle(&mut idle);
    idle
}

/// No idle node hosts a running service.
pub proof fn lemma_idle_nodes_host_nothing(nodes: Seq<NodeView>, services: Seq<ServiceView>, k: int)
    requires
        0 <= k < idle_nodes(nodes, services).len(),
    ensures
        !hosts(services, idle_nodes(nodes, services)[k].id),
        nodes.contains(idle_nodes(nodes, services)[k]),
    decreases nodes.len(),
{
    if nodes.len() > 0 {
        let before = idle_nodes(nodes.drop_last(), services);
        if k < before.len() {
            lemma_idle_nodes_host_nothing(nodes.drop_last(), services, k);
            let j = choose|j: int|
                0 <= j < nodes.drop_last().len() && nodes.drop_last()[j] == before[k];
            assert(nodes[j] == before[k]);
        } else {
            assert(nodes[nodes.len() - 1] == nodes.last());
        }
    }
}

} // verus!
