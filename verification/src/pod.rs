//! Pods: what the orchestrator reports of one, and what is asked of a new one.

use crate::instance_type::ContainerPort;
use crate::label::Label;
use crate::resources::{quantity_views, ResourceRequirements};
use crate::template::Template;
use crate::text::same_text;
use vstd::prelude::*;

verus! {

/// Registry from which images are pulled where none is configured.
pub const DEFAULT_REGISTRY: &'static str = "dev.registry.epsilon.local";

/// One condition in a pod's status.
#[derive(Debug)]
pub struct PodCondition {
    pub type_: String,
    pub status: String,
}

/// Phase and conditions of a pod.
#[derive(Debug)]
pub struct PodReport {
    pub phase: String,
    pub conditions: Vec<PodCondition>,
}

/// What the orchestrator reports of a pod: its address, and its phase and
/// conditions once it has any.
#[derive(Debug)]
pub struct PodObservation {
    pub ip: Option<String>,
    pub report: Option<PodReport>,
}

impl PodCondition {
    /// Whether the condition says that the pod is ready.
    pub open spec fn says_ready(self) -> bool {
        self.type_@ == "Ready"@ && self.status@ == "True"@
    }
}

impl PodReport {
    /// Whether one of the conditions says that the pod is ready.
    pub open spec fn ready(self) -> bool {
        exists|i: int| 0 <= i < self.conditions@.len() && (#[trigger] self.conditions@[i]).says_ready()
    }

    /// Decides whether one of the conditions says that the pod is ready.
    pub fn is_ready(&self) -> (ready: bool)
        ensures
            ready == self.ready(),
    {
        let mut i: usize = 0;
        while i < self.conditions.len()
            invariant
                i <= self.conditions@.len(),
                forall|k: int| 0 <= k < i ==> !(#[trigger] self.conditions@[k]).says_ready(),
            decreases self.conditions@.len() - i,
        {
            let condition = &self.conditions[i];
            if same_text(condition.type_.as_str(), "Ready") && same_text(
                condition.status.as_str(),
                "True",
            ) {
                return true;
            }
            i += 1;
        }
        false
    }
}

/// A config map whose entries become the container's environment.
#[derive(Debug)]
pub struct ConfigMapSource {
    pub name: String,
    pub optional: bool,
}

/// The command by which the orchestrator asks a container whether it is
/// ready, and how often it asks.
#[derive(Debug)]
pub struct ReadinessProbe {
    pub command: Vec<String>,
    pub initial_delay_seconds: i32,
    pub period_seconds: i32,
    pub success_threshold: i32,
    pub failure_threshold: i32,
}

/// What is asked of the pod that backs an instance.
#[derive(Debug)]
pub struct PodPlan {
    /// The pod's name, which is also the name of the instance that owns it.
    pub name: String,
    /// Whether the owner cannot be deleted before the pod is.
    pub block_owner_deletion: bool,
    pub labels: Vec<Label>,
    pub restart_policy: String,
    pub container_name: String,
    pub image: String,
    pub image_pull_policy: String,
    pub env_from: Vec<ConfigMapSource>,
    pub ports: Vec<ContainerPort>,
    pub resources: ResourceRequirements,
    pub readiness_probe: ReadinessProbe,
}

/// The image of a template: the registry, a slash, the template's name.
pub open spec fn image_name(registry: Option<Seq<char>>, template: Seq<char>) -> Seq<char> {
    let host = match registry {
        Some(host) => host,
        None => "dev.registry.epsilon.local"@,
    };
    host + seq!['/'] + template
}

/// Names the image of a template. `registry` is the configured registry, if
/// one is.
pub fn get_image(registry: Option<&str>, template: &str) -> (image: String)
    ensures
        image@ == image_name(
            match registry {
                Some(host) => Some(host@),
                None => None,
            },
            template@,
        ),
{
    proof {
        reveal_strlit("/");
    }
    let mut image = match registry {
        Some(host) => String::from_str(host),
        None => String::from_str(DEFAULT_REGISTRY),
    };
    image.append("/");
    image.append(template);
    image
}

impl PodPlan {
    /// Whether the plan is the pod of the instance `name` made from
    /// `template`: named after the instance and owned by it, labelled with
    /// the template's kind, running the template's image with the two
    /// config maps as environment, the ports of the kind, the template's
    /// resources and the readiness command, and never restarted.
    pub open spec fn is_pod_of(
        self,
        name: Seq<char>,
        template: Template,
        registry: Option<Seq<char>>,
        template_name: Seq<char>,
    ) -> bool {
        &&& self.name@ == name
        &&& self.block_owner_deletion
        &&& crate::label::label_views(self.labels@) == seq![
            ("epsilon.fr/instance"@, template.t.name()),
        ]
        &&& self.restart_policy@ == "Never"@
        &&& self.container_name@ == "main"@
        &&& self.image@ == image_name(registry, template_name)
        &&& self.image_pull_policy@ == "Always"@
        &&& self.env_from@.len() == 2
        &&& self.env_from@[0].name@ == "epsilon-configuration"@
        &&& !self.env_from@[0].optional
        &&& self.env_from@[1].name@ == "epsilon-configuration-instance"@
        &&& self.env_from@[1].optional
        &&& self.ports@.len() == template.t.ports().len()
        &&& forall|i: int|
            0 <= i < self.ports@.len() ==> (#[trigger] self.ports@[i])@ == (
                template.t.ports()[i].0,
                template.t.ports()[i].1,
                "TCP"@,
            )
        &&& quantity_views(self.resources.requests@) == template.resources.minimum.quantities()
        &&& quantity_views(self.resources.limits@) == template.resources.maximum.quantities()
        &&& self.readiness_probe.command@.len() == 2
        &&& self.readiness_probe.command@[0]@ == "cat"@
        &&& self.readiness_probe.command@[1]@ == "epsilon_start"@
        &&& self.readiness_probe.initial_delay_seconds == 5
        &&& self.readiness_probe.period_seconds == 1
        &&& self.readiness_probe.success_threshold == 1
        &&& self.readiness_probe.failure_threshold == 3
    }

    /// Plans the pod of the instance `name`, which asks for the template
    /// named `template_name`, described by `template`.
    pub fn for_instance(
        name: &str,
        template_name: &str,
        template: &Template,
        registry: Option<&str>,
    ) -> (plan: PodPlan)
        ensures
            plan.is_pod_of(
                name@,
                *template,
                match registry {
                    Some(host) => Some(host@),
                    None => None,
                },
                template_name@,
            ),
    {
        let labels = vec![Label::get_instance_type_label(&template.t)];
        let env_from = vec![
            ConfigMapSource { name: String::from_str("epsilon-configuration"), optional: false },
            ConfigMapSource {
                name: String::from_str("epsilon-configuration-instance"),
                optional: true,
            },
        ];
        let command = vec![String::from_str("cat"), String::from_str("epsilon_start")];
        let plan = PodPlan {
            name: String::from_str(name),
            block_owner_deletion: true,
            labels,
            restart_policy: String::from_str("Never"),
            container_name: String::from_str("main"),
            image: get_image(registry, template_name),
            image_pull_policy: String::from_str("Always"),
            env_from,
            ports: template.t.get_container_ports(),
            resources: template.resources.kube_resources(),
            readiness_probe: ReadinessProbe {
                command,
                initial_delay_seconds: 5,
                period_seconds: 1,
                success_threshold: 1,
                failure_threshold: 3,
            },
        };
        assert(crate::label::label_views(plan.labels@) =~= seq![
            ("epsilon.fr/instance"@, template.t.name()),
        ]);
        plan
    }
}

} // verus!
