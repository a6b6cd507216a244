use crate::deployment::{Deployment, DeploymentView};
use vstd::prelude::*;

verus! {

/// One line of the list of deployments. Moments are seconds since the
/// beginning of 1970.
#[derive(Debug)]
pub struct DeploymentRow {
    pub id: Option<i64>,
    pub name: String,
    pub start: Option<i64>,
    pub end: Option<i64>,
    pub owner: String,
    pub services: Option<usize>,
}

/// What a line of the list of deployments holds.
pub struct DeploymentRowView {
    pub id: Option<i64>,
    pub name: Seq<char>,
    pub start: Option<i64>,
    pub end: Option<i64>,
    pub owner: Seq<char>,
    pub services: Option<usize>,
}

impl View for DeploymentRow {
    type V = DeploymentRowView;

    open spec fn view(&self) -> DeploymentRowView {
        DeploymentRowView {
            id: self.id,
            name: self.name@,
            start: self.start,
            end: self.end,
            owner: self.owner@,
            services: self.services,
        }
    }
}

impl DeploymentRow {
    /// The line of a deployment, with the number of its services where that
    /// is known.
    pub fn new(deployment: Deployment, services: Option<usize>) -> (r: Self)
        ensures
            r@ == (DeploymentRowView {
                id: deployment@.id,
                name: deployment@.name,
                start: Some(deployment@.start),
                end: deployment@.end,
                owner: deployment@.owner,
                services,
            }),
    {
        DeploymentRow {
            id: deployment.id,
            name: deployment.name,
            start: Some(deployment.start),
            end: deployment.end,
            owner: deployment.owner,
            services,
        }
    }
}

} // verus!
