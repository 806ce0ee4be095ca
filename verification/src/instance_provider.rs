//! Queries and commands on the instances of the fleet.

use crate::error::EpsilonError;
use crate::instance::{EpsilonInstance, EpsilonInstanceStatus, InstanceView, StatusView};
use crate::instance_type::InstanceType;
use crate::probe::instance_views;
use crate::state::EpsilonState;
use crate::text::same_text;
use vstd::prelude::*;

verus! {

/// What is asked of the orchestrator to start an instance: the prefix from
/// which it makes the name, the template, and a payload that is passed on
/// as it is.
#[derive(Debug)]
pub struct InstanceRequest {
    pub generate_name: String,
    pub template: String,
    pub content: Option<String>,
}

/// A snapshot of all instances, in the order in which the store lists them.
pub struct InstanceProvider {
    pub instances: Vec<EpsilonInstance>,
}

impl View for InstanceProvider {
    type V = Seq<InstanceView>;

    open spec fn view(&self) -> Seq<InstanceView> {
        self.instances@.map_values(|i: EpsilonInstance| i@)
    }
}

/// Whether each instance of the snapshot has a status.
pub open spec fn all_observed(instances: Seq<InstanceView>) -> bool {
    forall|i: int| 0 <= i < instances.len() ==> (#[trigger] instances[i]).status is Some
}

/// The instances of the snapshot that pass each filter that is given, in
/// the snapshot's order.
pub open spec fn selection(
    instances: Seq<InstanceView>,
    kind: Option<InstanceType>,
    template: Option<Seq<char>>,
    state: Option<EpsilonState>,
) -> Seq<InstanceView> {
    instances.filter(|i: InstanceView| i.matches(kind, template, state))
}

/// The first instance of that name in the snapshot, if there is one.
pub open spec fn find_instance(instances: Seq<InstanceView>, name: Seq<char>) -> Option<InstanceView>
    decreases instances.len(),
{
    if instances.len() == 0 {
        None
    } else if instances[0].name == name {
        Some(instances[0])
    } else {
        find_instance(instances.drop_first(), name)
    }
}

/// The characters of an optional string slice.
pub open spec fn option_str(text: Option<&str>) -> Option<Seq<char>> {
    match text {
        Some(t) => Some(t@),
        None => None,
    }
}

impl InstanceProvider {
    /// A provider that answers from the snapshot `instances`.
    pub fn new(instances: Vec<EpsilonInstance>) -> (provider: InstanceProvider)
        ensures
            provider.instances == instances,
    {
        InstanceProvider { instances }
    }

    /// What to ask of the orchestrator to start an instance of
    /// `template_name`: a name that begins with the template's name and a
    /// hyphen, and no status.
    pub fn start_instance(template_name: &str, content: Option<String>) -> (request: InstanceRequest)
        ensures
            request.generate_name@ == template_name@ + seq!['-'],
            request.template@ == template_name@,
            request.content == content,
    {
        proof {
            reveal_strlit("-");
        }
        let mut generate_name = String::from_str(template_name);
        generate_name.append("-");
        InstanceRequest { generate_name, template: String::from_str(template_name), content }
    }

    /// The instance of that name.
    pub fn get_instance(&self, instance_name: &str) -> (found: Result<&EpsilonInstance, EpsilonError>)
        ensures
            match found {
                Ok(instance) => find_instance(self@, instance_name@) == Some(instance@),
                Err(e) => find_instance(self@, instance_name@) is None
                    && e == EpsilonError::RetrieveInstanceError,
            },
    {
        let mut i: usize = 0;
        proof {
            assert(self@.skip(0) =~= self@);
        }
        while i < self.instances.len()
            invariant
                i <= self.instances@.len(),
                find_instance(self@, instance_name@) == find_instance(
                    self@.skip(i as int),
                    instance_name@,
                ),
            decreases self.instances@.len() - i,
        {
            proof {
                assert(self@.skip(i as int)[0] == self.instances@[i as int]@);
                assert(self@.skip(i as int).drop_first() =~= self@.skip(i + 1));
            }
            if same_text(self.instances[i].name.as_str(), instance_name) {
                return Ok(&self.instances[i]);
            }
            i += 1;
        }
        Err(EpsilonError::RetrieveInstanceError)
    }

    /// The instances that pass each filter that is given, in the snapshot's
    /// order. Fails where an instance of the snapshot has no status yet.
    pub fn get_instances(
        &self,
        type_option: Option<InstanceType>,
        template_option: Option<&str>,
        state_option: Option<EpsilonState>,
    ) -> (found: Result<Vec<&EpsilonInstance>, EpsilonError>)
        ensures
            match found {
                Ok(instances) => all_observed(self@) && instance_views(instances@) == selection(
                    self@,
                    type_option,
                    option_str(template_option),
                    state_option,
                ),
                Err(e) => !all_observed(self@) && e == EpsilonError::RetrieveInstanceError,
            },
    {
        let mut k: usize = 0;
        while k < self.instances.len()
            invariant
                k <= self.instances@.len(),
                forall|i: int| 0 <= i < k ==> (#[trigger] self@[i]).status is Some,
            decreases self.instances@.len() - k,
        {
            if self.instances[k].status.is_none() {
                assert(self@[k as int].status is None);
                return Err(EpsilonError::RetrieveInstanceError);
            }
            k += 1;
        }
        let ghost wanted = |i: InstanceView|
            i.matches(type_option, option_str(template_option), state_option);
        let mut found: Vec<&EpsilonInstance> = Vec::new();
        let mut i: usize = 0;
        proof {
            assert(self@.take(0) =~= Seq::<InstanceView>::empty());
            assert(instance_views(found@) =~= Seq::<InstanceView>::empty());
        }
        while i < self.instances.len()
            invariant
                i <= self.instances@.len(),
                wanted == (|i: InstanceView|
                    i.matches(type_option, option_str(template_option), state_option)),
                instance_views(found@) == self@.take(i as int).filter(wanted),
            decreases self.instances@.len() - i,
        {
            let instance = &self.instances[i];
            let ghost before = instance_views(found@);
            proof {
                assert(self@.take(i + 1) =~= self@.take(i as int).push(instance@));
                self@.take(i as int).lemma_filter_push(instance@, wanted);
            }
            if instance.matches(type_option, template_option, state_option) {
                found.push(instance);
                proof {
                    assert(instance_views(found@) =~= before.push(instance@));
                }
            }
            i += 1;
        }
        proof {
            assert(self@.take(i as int) =~= self@);
        }
        Ok(found)
    }

    /// The status to record so that the instance of that name is in game:
    /// its status with the state replaced. `None` where the snapshot holds
    /// no such instance; an error where it has no status yet.
    pub fn enable_in_game_instance(&self, name: &str) -> (patch: Result<
        Option<EpsilonInstanceStatus>,
        EpsilonError,
    >)
        ensures
            match find_instance(self@, name@) {
                None => patch matches Ok(None),
                Some(instance) => match instance.status {
                    None => patch matches Err(e) && e == EpsilonError::RetrieveStatusError,
                    Some(status) => patch matches Ok(Some(next)) && next@ == StatusView {
                        state: EpsilonState::InGame,
                        ..status
                    },
                },
            },
    {
        match self.get_instance(name) {
            Err(_) => Ok(None),
            Ok(instance) => match &instance.status {
                None => Err(EpsilonError::RetrieveStatusError),
                Some(status) => {
                    let mut next = status.clone();
                    next.state = EpsilonState::InGame;
                    Ok(Some(next))
                },
            },
        }
    }
}

/// Marking an instance as in game keeps its status consistent as long as
/// the instance was not closed.
pub proof fn lemma_in_game_keeps_open_status_consistent(status: StatusView)
    requires
        !status.close,
    ensures
        (StatusView { state: EpsilonState::InGame, ..status }).closed_means_stopping(),
{
}

} // verus!
