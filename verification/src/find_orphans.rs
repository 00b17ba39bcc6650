//! Finding what belongs to no declared seedling, by the seedlings' names alone.

use crate::find_deadwood::{not_in, undeclared, unknown, unknown_repositories};
use crate::names::Name;
use vstd::prelude::*;

verus! {

/// What belongs to no declared seedling.
#[derive(Debug, PartialEq, Eq)]
pub struct Orphans {
    pub containers: Vec<Name>,
    pub networks: Vec<Name>,
    pub route_files: Vec<Name>,
    pub resin_repositories: Vec<String>,
    pub mounts: Vec<Name>,
    pub openbao_secrets: Vec<Name>,
}

impl Default for Orphans {
    fn default() -> (r: Self)
        ensures
            r.nothing_left(),
    {
        Orphans {
            containers: Vec::new(),
            networks: Vec::new(),
            route_files: Vec::new(),
            resin_repositories: Vec::new(),
            mounts: Vec::new(),
            openbao_secrets: Vec::new(),
        }
    }
}

impl Orphans {
    /// Whether everything belongs to a declared seedling.
    pub open spec fn nothing_left(&self) -> bool {
        &&& self.containers@.len() == 0
        &&& self.networks@.len() == 0
        &&& self.route_files@.len() == 0
        &&& self.resin_repositories@.len() == 0
        &&& self.mounts@.len() == 0
        &&& self.openbao_secrets@.len() == 0
    }

    /// Whether everything belongs to a declared seedling.
    pub fn is_empty(&self) -> (r: bool)
        ensures
            r == self.nothing_left(),
    {
        self.containers.len() == 0 && self.networks.len() == 0 && self.route_files.len() == 0
            && self.resin_repositories.len() == 0 && self.mounts.len() == 0
            && self.openbao_secrets.len() == 0
    }
}

/// What belongs to no declared seedling. Mounts and secrets are not looked for.
pub fn compute_orphans(
    seedbank_names: &Vec<String>,
    container_names: &Vec<Name>,
    network_names: &Vec<Name>,
    route_file_names: &Vec<Name>,
    resin_repository_names: &Vec<String>,
) -> (r: Orphans)
    ensures
        r.containers@ == undeclared(seedbank_names@, container_names@),
        r.networks@ == undeclared(seedbank_names@, network_names@),
        r.route_files@ == undeclared(seedbank_names@, route_file_names@),
        r.resin_repositories@ == unknown(seedbank_names@, resin_repository_names@),
        r.mounts@.len() == 0,
        r.openbao_secrets@.len() == 0,
{
    Orphans {
        containers: not_in(seedbank_names, container_names),
        networks: not_in(seedbank_names, network_names),
        route_files: not_in(seedbank_names, route_file_names),
        resin_repositories: unknown_repositories(seedbank_names, resin_repository_names),
        mounts: Vec::new(),
        openbao_secrets: Vec::new(),
    }
}

/// Nothing is left exactly where no list holds anything.
pub proof fn law_anything_left_is_noticed(orphans: Orphans)
    ensures
        orphans.nothing_left() <==> orphans.containers@.len() + orphans.networks@.len()
            + orphans.route_files@.len() + orphans.resin_repositories@.len() + orphans.mounts@.len()
            + orphans.openbao_secrets@.len() == 0,
{
}

} // verus!
