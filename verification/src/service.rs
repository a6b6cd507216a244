use crate::architecture::Architecture;
use crate::text::{clone_opt, opt_text};
use crate::utils::get_random_name;
use vstd::prelude::*;

verus! {

/// One image to be run on a number of nodes, as part of a deployment. Moments
/// are seconds since the beginning of 1970.
#[derive(Debug)]
pub struct Service {
    pub id: Option<i64>,
    pub name: String,
    pub image: String,
    pub hostname: String,
    pub replicas: i64,
    pub deployment: Option<i64>,
    pub ipv4_address: Option<String>,
    pub preferred_node: Option<String>,
    pub start: i64,
    pub end: Option<i64>,
    pub node: Option<String>,
    pub architecture: Option<Architecture>,
}

/// What a service holds.
pub struct ServiceView {
    pub id: Option<i64>,
    pub name: Seq<char>,
    pub image: Seq<char>,
    pub hostname: Seq<char>,
    pub replicas: i64,
    pub deployment: Option<i64>,
    pub ipv4_address: Option<Seq<char>>,
    pub preferred_node: Option<Seq<char>>,
    pub start: i64,
    pub end: Option<i64>,
    pub node: Option<Seq<char>>,
    pub architecture: Option<Architecture>,
}

impl View for Service {
    type V = ServiceView;

    open spec fn view(&self) -> ServiceView {
        ServiceView {
            id: self.id,
            name: self.name@,
            image: self.image@,
            hostname: self.hostname@,
            replicas: self.replicas,
            deployment: self.deployment,
            ipv4_address: opt_text(self.ipv4_address),
            preferred_node: opt_text(self.preferred_node),
            start: self.start,
            end: self.end,
            node: opt_text(self.node),
            architecture: self.architecture,
        }
    }
}

/// What the services of a list hold.
pub open spec fn service_views(list: Seq<Service>) -> Seq<ServiceView> {
    Seq::new(list.len(), |i: int| list[i]@)
}

/// What a deployment file says of one service. What the file leaves out is
/// absent here.
#[derive(Debug)]
pub struct ServiceEntry {
    pub image: String,
    pub hostname: Option<String>,
    pub replicas: Option<i64>,
    pub node: Option<String>,
    pub ipv4_address: Option<String>,
}

impl ServiceView {
    /// A service of which only name, image and host name are known: one
    /// replica, begun at `now`, bound to no node yet.
    pub open spec fn fresh(
        name: Seq<char>,
        image: Seq<char>,
        hostname: Seq<char>,
        now: i64,
    ) -> ServiceView {
        ServiceView {
            id: None,
            name,
            image,
            hostname,
            replicas: 1,
            deployment: None,
            ipv4_address: None,
            preferred_node: None,
            start: now,
            end: None,
            node: None,
            architecture: None,
        }
    }

    /// Two services belong together: they run the same image in the same
    /// deployment.
    pub open spec fn same_group(self, other: ServiceView) -> bool {
        self.image == other.image && self.deployment == other.deployment
    }
}

/// The place of the service that belongs together with `service`, if there is
/// one.
pub open spec fn group_place(groups: Seq<ServiceView>, service: ServiceView) -> Option<int>
    decreases groups.len(),
{
    if groups.len() == 0 {
        None
    } else if groups.last().same_group(service) {
        Some(groups.len() - 1)
    } else {
        group_place(groups.drop_last(), service)
    }
}

/// One service for each image and deployment: the first of those that belong
/// together, with their number as its replicas, in the order in which the
/// first ones stand.
pub open spec fn grouped_services(list: Seq<ServiceView>) -> Seq<ServiceView>
    decreases list.len(),
{
    if list.len() == 0 {
        seq![]
    } else {
        let before = grouped_services(list.drop_last());
        match group_place(before, list.last()) {
            Some(i) => before.update(
                i,
                ServiceView { replicas: (before[i].replicas + 1) as i64, ..before[i] },
            ),
            None => before.push(ServiceView { replicas: 1, ..list.last() }),
        }
    }
}

impl Clone for Service {
    fn clone(&self) -> (r: Self)
        ensures
            r@ == self@,
    {
        Service {
            id: self.id,
            name: self.name.clone(),
            image: self.image.clone(),
            hostname: self.hostname.clone(),
            replicas: self.replicas,
            deployment: self.deployment,
            ipv4_address: clone_opt(&self.ipv4_address),
            preferred_node: clone_opt(&self.preferred_node),
            start: self.start,
            end: self.end,
            node: clone_opt(&self.node),
            architecture: self.architecture,
        }
    }
}

impl Service {
    /// A service that begins at `now`.
    pub fn new(name: &str, image: &str, hostname: &str, now: i64) -> (r: Self)
        ensures
            r@ == ServiceView::fresh(name@, image@, hostname@, now),
    {
        Service {
            id: None,
            name: String::from_str(name),
            image: String::from_str(image),
            hostname: String::from_str(hostname),
            replicas: 1,
            deployment: None,
            ipv4_address: None,
            preferred_node: None,
            start: now,
            end: None,
            node: None,
            architecture: None,
        }
    }

    /// The service that an entry of a deployment file describes, with the host
    /// name to use where the entry names none.
    pub fn from_entry(name: &str, entry: &ServiceEntry, fallback: String, now: i64) -> (r: Self)
        ensures
            r@ == (ServiceView {
                replicas: match entry.replicas {
                    Some(replicas) => replicas,
                    None => 1,
                },
                preferred_node: opt_text(entry.node),
                ipv4_address: opt_text(entry.ipv4_address),
                ..ServiceView::fresh(
                    name@,
                    entry.image@,
                    match entry.hostname {
                        Some(hostname) => hostname@,
                        None => fallback@,
                    },
                    now,
                )
            }),
    {
        Service {
            id: None,
            name: String::from_str(name),
            image: entry.image.clone(),
            hostname: match &entry.hostname {
                Some(hostname) => hostname.clone(),
                None => fallback,
            },
            replicas: match entry.replicas {
                Some(replicas) => replicas,
                None => 1,
            },
            deployment: None,
            ipv4_address: clone_opt(&entry.ipv4_address),
            preferred_node: clone_opt(&entry.node),
            start: now,
            end: None,
            node: None,
            architecture: None,
        }
    }

    /// The service that an entry of a deployment file describes. Where the
    /// entry names no host name, the service gets a fresh one.
    pub fn from_yaml(name: &str, entry: &ServiceEntry, now: i64) -> (r: Self)
        ensures
            r@ == (ServiceView {
                replicas: match entry.replicas {
                    Some(replicas) => replicas,
                    None => 1,
                },
                preferred_node: opt_text(entry.node),
                ipv4_address: opt_text(entry.ipv4_address),
                ..ServiceView::fresh(name@, entry.image@, r@.hostname, now)
            }),
            entry.hostname matches Some(hostname) ==> r@.hostname == hostname@,
    {
        Service::from_entry(name, entry, get_random_name(), now)
    }

    /// The service as a row of the ledger holds it. A row tells nothing of
    /// replicas or preferred node, and an architecture that cannot be read
    /// counts as 64-bit ARM.
    pub fn from_row(
        id: Option<i64>,
        name: String,
        image: String,
        deployment: Option<i64>,
        node: Option<String>,
        start: i64,
        end: Option<i64>,
        ipv4_address: Option<String>,
        hostname: String,
        architecture: &str,
    ) -> (r: Self)
        ensures
            r@ == (ServiceView {
                id,
                name: name@,
                image: image@,
                hostname: hostname@,
                replicas: 1,
                deployment,
                ipv4_address: opt_text(ipv4_address),
                preferred_node: None,
                start,
                end,
                node: opt_text(node),
                architecture: Some(
                    match crate::parser::named(architecture@) {
                        Some(known) => known,
                        None => Architecture::ARM64,
                    },
                ),
            }),
    {
        let known = match Architecture::parse(architecture) {
            Ok(known) => {
                proof {
                    crate::architecture::lemma_names_differ(known, Architecture::ARM32);
                    crate::architecture::lemma_names_differ(known, Architecture::ARM64);
                    crate::architecture::lemma_names_differ(known, Architecture::X86);
                }
                known
            },
            Err(_) => {
                assert(architecture@ != Architecture::ARM32.name());
                assert(architecture@ != Architecture::ARM64.name());
                assert(architecture@ != Architecture::X86.name());
                Architecture::ARM64
            },
        };
        Service {
            id,
            name,
            image,
            deployment,
            node,
            start,
            end,
            ipv4_address,
            hostname,
            replicas: 1,
            preferred_node: None,
            architecture: Some(known),
        }
    }

    /// Whether two services run the same image in the same deployment.
    pub fn same_group(&self, other: &Service) -> (same: bool)
        ensures
            same == self@.same_group(other@),
    {
        self.image == other.image && self.deployment == other.deployment
    }

    /// Puts the services that run the same image in the same deployment into
    /// one, which counts them as its replicas.
    pub fn group_services(services: Vec<Service>) -> (groups: Vec<Service>)
        requires
            services.len() < i64::MAX,
        ensures
            service_views(groups@) == grouped_services(service_views(services@)),
    {
        let mut groups: Vec<Service> = Vec::new();
        let mut i: usize = 0;
        assert(service_views(groups@) =~= grouped_services(service_views(services@).take(0)));
        while i < services.len()
            invariant
                i <= services.len(),
                services.len() < i64::MAX,
                service_views(groups@) == grouped_services(service_views(services@).take(i as int)),
                forall|k: int| 0 <= k < groups.len() ==> 1 <= (#[trigger] groups[k]).replicas <= i,
            decreases services.len() - i,
        {
            let ghost before = service_views(groups@);
            proof {
                let next = service_views(services@).take(i + 1);
                assert(next.drop_last() =~= service_views(services@).take(i as int));
                assert(next.last() == services@[i as int]@);
            }
            let mut at: usize = groups.len();
            let mut found: Option<usize> = None;
            assert(before.take(at as int) =~= before);
            while at > 0 && found.is_none()
                invariant
                    at <= groups.len(),
                    i < services.len(),
                    before == service_views(groups@),
                    match found {
                        Some(j) => group_place(before, services@[i as int]@) == Some(j as int) && j
                            < groups.len(),
                        None => group_place(before, services@[i as int]@) == group_place(
                            before.take(at as int),
                            services@[i as int]@,
                        ),
                    },
                decreases at + if found is None { 1int } else { 0int },
            {
                at -= 1;
                assert(before.take(at + 1).drop_last() =~= before.take(at as int));
                assert(before.take(at + 1).last() == groups@[at as int]@);
                if groups[at].same_group(&services[i]) {
                    found = Some(at);
                }
            }
            match found {
                Some(j) => {
                    let mut group = groups[j].clone();
                    group.replicas = group.replicas + 1;
                    groups.set(j, group);
                    assert(service_views(groups@) =~= before.update(
                        j as int,
                        ServiceView { replicas: (before[j as int].replicas + 1) as i64, ..before[j as int] },
                    ));
                },
                None => {
                    let mut first = services[i].clone();
                    first.replicas = 1;
                    groups.push(first);
                    assert(service_views(groups@) =~= before.push(
                        ServiceView { replicas: 1, ..services@[i as int]@ },
                    ));
                },
            }
            i += 1;
        }
        assert(service_views(services@).take(i as int) =~= service_views(services@));
        groups
    }
}

} // verus!
