//! The containers around a job.
use vstd::prelude::*;
use vstd::string::*;

use crate::json::{Json, JsonV};
use crate::str_map::StrMap;
use crate::text;

verus! {

/// The containers that were started for a job.
pub struct JobDockerResources {
    pub job_container_id: Option<String>,
    pub network_name: Option<String>,
    /// The containers of the services, by alias.
    pub service_containers: StrMap<String>,
    /// The ports of the services, by alias.
    pub service_ports: StrMap<Json>,
}

/// What a [`JobDockerResources`] is.
pub struct DockerV {
    pub job_container_id: Option<Seq<char>>,
    pub network_name: Option<Seq<char>>,
    pub services: Seq<(Seq<char>, Seq<char>)>,
    pub ports: Map<Seq<char>, JsonV>,
}

impl View for JobDockerResources {
    type V = DockerV;

    open spec fn view(&self) -> DockerV {
        DockerV {
            job_container_id: text::opt(self.job_container_id),
            network_name: text::opt(self.network_name),
            services: self.service_containers.pairs(),
            ports: self.service_ports@,
        }
    }
}

pub open spec fn opt_docker(d: Option<&JobDockerResources>) -> Option<DockerV> {
    match d {
        Some(x) => Some(x@),
        None => None,
    }
}

/// The container that the job runs in.
pub open spec fn job_container(d: Option<DockerV>) -> Option<Seq<char>> {
    match d {
        Some(x) => x.job_container_id,
        None => None,
    }
}

/// The container that the job runs in.
pub fn find_job_container<'a>(d: Option<&'a JobDockerResources>) -> (r: Option<&'a str>)
    ensures
        text::opt_str(r) == job_container(opt_docker(d)),
{
    match d {
        Some(x) => match &x.job_container_id {
            Some(c) => Some(c.as_str()),
            None => None,
        },
        None => None,
    }
}

} // verus!
