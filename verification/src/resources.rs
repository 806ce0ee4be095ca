//! Compute resources that a template asks for.

use crate::decimal::{digits, unsigned_to_string};
use vstd::prelude::*;

verus! {

/// An amount of compute: whole CPU cores and megabytes of memory.
#[derive(Debug, Clone, Copy, PartialEq, Eq, Structural)]
pub struct ResourcesInfo {
    pub cpu: u8,
    pub ram: u32,
}

/// What an instance is guaranteed and what it may use at most.
#[derive(Debug, Clone, Copy, PartialEq, Eq, Structural)]
pub struct Resources {
    pub minimum: ResourcesInfo,
    pub maximum: ResourcesInfo,
}

/// Requests and limits of a container, each a list of resource names with
/// their quantities.
#[derive(Debug)]
pub struct ResourceRequirements {
    pub limits: Vec<(String, String)>,
    pub requests: Vec<(String, String)>,
}

/// Name and quantity pairs as plain values.
pub open spec fn quantity_views(pairs: Seq<(String, String)>) -> Seq<(Seq<char>, Seq<char>)> {
    pairs.map_values(|p: (String, String)| (p.0@, p.1@))
}

impl ResourcesInfo {
    /// The amount as the orchestrator reads it: the cores as a plain number,
    /// the memory as a number followed by `M`.
    pub open spec fn quantities(self) -> Seq<(Seq<char>, Seq<char>)> {
        seq![("cpu"@, digits(self.cpu as nat)), ("memory"@, digits(self.ram as nat) + seq!['M'])]
    }

    /// The amount as name and quantity pairs, `cpu` first.
    pub fn kube_quantities(&self) -> (pairs: Vec<(String, String)>)
        ensures
            quantity_views(pairs@) == self.quantities(),
    {
        proof {
            reveal_strlit("M");
        }
        let cpu = unsigned_to_string(self.cpu as u64);
        let mut memory = unsigned_to_string(self.ram as u64);
        memory.append("M");
        assert(memory@ =~= digits(self.ram as nat) + seq!['M']);
        let mut pairs: Vec<(String, String)> = Vec::new();
        pairs.push((String::from_str("cpu"), cpu));
        pairs.push((String::from_str("memory"), memory));
        proof {
            let views = quantity_views(pairs@);
            assert(views.len() == 2);
            assert(views[0] == (pairs@[0].0@, pairs@[0].1@));
            assert(views[1] == (pairs@[1].0@, pairs@[1].1@));
            assert(views =~= self.quantities());
        }
        pairs
    }
}

impl Resources {
    /// The container's requirements: the minimum as requests, the maximum
    /// as limits.
    pub fn kube_resources(&self) -> (requirements: ResourceRequirements)
        ensures
            quantity_views(requirements.limits@) == self.maximum.quantities(),
            quantity_views(requirements.requests@) == self.minimum.quantities(),
    {
        ResourceRequirements {
            limits: self.maximum.kube_quantities(),
            requests: self.minimum.kube_quantities(),
        }
    }
}

} // verus!
