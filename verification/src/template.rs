//! Templates from which instances are made.

use crate::instance_type::InstanceType;
use crate::resources::Resources;
use vstd::prelude::*;

verus! {

/// Describes a workload: its image name, its kind, how many players it
/// takes and the resources it asks for.
#[derive(Debug)]
pub struct Template {
    pub name: String,
    pub parent: String,
    pub t: InstanceType,
    pub slots: i32,
    pub resources: Resources,
}

impl Clone for Template {
    fn clone(&self) -> (copy: Self)
        ensures
            copy == *self,
    {
        Template {
            name: self.name.clone(),
            parent: self.parent.clone(),
            t: self.t,
            slots: self.slots,
            resources: self.resources,
        }
    }
}

} // verus!
