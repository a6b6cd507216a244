use crate::service::{Service, ServiceView};
use crate::text::{clone_opt, opt_text};
use vstd::prelude::*;

verus! {

/// One line of the list of services. Moments are seconds since the beginning
/// of 1970.
#[derive(Debug)]
pub struct ServiceRow {
    pub id: i64,
    pub name: String,
    pub image: String,
    pub node: String,
    pub deployment: String,
    pub hostname: String,
    pub ipv4_address: Option<String>,
    pub start: Option<i64>,
    pub end: Option<i64>,
    pub replicas: i64,
}

/// What a line of the list of services holds.
pub struct ServiceRowView {
    pub id: i64,
    pub name: Seq<char>,
    pub image: Seq<char>,
    pub node: Seq<char>,
    pub deployment: Seq<char>,
    pub hostname: Seq<char>,
    pub ipv4_address: Option<Seq<char>>,
    pub start: Option<i64>,
    pub end: Option<i64>,
    pub replicas: i64,
}

impl View for ServiceRow {
    type V = ServiceRowView;

    open spec fn view(&self) -> ServiceRowView {
        ServiceRowView {
            id: self.id,
            name: self.name@,
            image: self.image@,
            node: self.node@,
            deployment: self.deployment@,
            hostname: self.hostname@,
            ipv4_address: opt_text(self.ipv4_address),
            start: self.start,
            end: self.end,
            replicas: self.replicas,
        }
    }
}

impl ServiceRow {
    /// The line of a service of the ledger, with the names of its node and of
    /// its deployment.
    pub fn new(service: &Service, node: String, deployment: String) -> (r: Self)
        requires
            service@.id is Some,
        ensures
            r@ == (ServiceRowView {
                id: service@.id->0,
                name: service@.name,
                image: service@.image,
                node: node@,
                deployment: deployment@,
                hostname: service@.hostname,
                ipv4_address: service@.ipv4_address,
                start: Some(service@.start),
                end: service@.end,
                replicas: service@.replicas,
            }),
    {
        ServiceRow {
            id: match service.id {
                Some(id) => id,
                None => 0,
            },
            name: service.name.clone(),
            image: service.image.clone(),
            node,
            deployment,
            hostname: service.hostname.clone(),
            ipv4_address: clone_opt(&service.ipv4_address),
            start: Some(service.start),
            end: service.end,
            replicas: service.replicas,
        }
    }
}

} // verus!
