//! Instances that are known by their pods alone.
//!
//! Such an instance has no status of its own: its template, its kind and
//! its slots are read from the labels of its pod, and its state from what
//! the pod reports.

use crate::decimal::{i32_value, parse_i32};
use crate::instance_type::InstanceType;
use crate::label::{label_views, Label};
use crate::pod::PodReport;
use crate::state::EpsilonState;
use crate::template::Template;
use crate::text::{lowercase_of, same_text};
use vstd::prelude::*;

verus! {

/// A pod with its labels and what it reports.
#[derive(Debug)]
pub struct LabelledPod {
    pub name: String,
    pub labels: Vec<Label>,
    /// Whether the orchestrator is deleting the pod.
    pub deleting: bool,
    pub ip: Option<String>,
    pub report: PodReport,
}

/// An instance of the fleet, by its pod.
#[derive(Debug)]
pub struct Instance {
    pod: LabelledPod,
}

/// What the public interface tells of such an instance.
#[derive(Debug)]
pub struct InstanceJson {
    pub name: String,
    pub template: String,
    pub state: EpsilonState,
    pub slots: i32,
    pub online_count: u32,
}

/// The value of the first label with that key, if there is one.
pub open spec fn label_value(labels: Seq<(Seq<char>, Seq<char>)>, key: Seq<char>) -> Option<Seq<char>>
    decreases labels.len(),
{
    if labels.len() == 0 {
        None
    } else if labels[0].0 == key {
        Some(labels[0].1)
    } else {
        label_value(labels.drop_first(), key)
    }
}

/// The state of a pod-backed instance: in game or running while its pod
/// runs and is ready, by the in-game label; else stopping where the pod is
/// being deleted or has succeeded; else starting.
pub open spec fn pod_state(
    labels: Seq<(Seq<char>, Seq<char>)>,
    deleting: bool,
    report: PodReport,
) -> EpsilonState {
    let ready = report.ready() && report.phase@ == "Running"@;
    let in_game = label_value(labels, "epsilon.fr/in-game"@) == Some("true"@);
    if ready && in_game {
        EpsilonState::InGame
    } else if ready {
        EpsilonState::Running
    } else if deleting || report.phase@ == "Succeeded"@ {
        EpsilonState::Stopping
    } else {
        EpsilonState::Starting
    }
}

/// Looks up the value of the first label with that key.
pub fn find_label<'a>(labels: &'a Vec<Label>, key: &str) -> (value: Option<&'a str>)
    ensures
        match value {
            Some(v) => label_value(label_views(labels@), key@) == Some(v@),
            None => label_value(label_views(labels@), key@) is None,
        },
{
    let ghost views = label_views(labels@);
    let mut i: usize = 0;
    proof {
        assert(views.skip(0) =~= views);
    }
    while i < labels.len()
        invariant
            i <= labels@.len(),
            views == label_views(labels@),
            label_value(views, key@) == label_value(views.skip(i as int), key@),
        decreases labels@.len() - i,
    {
        proof {
            assert(views.skip(i as int)[0] == labels@[i as int]@);
            assert(views.skip(i as int).drop_first() =~= views.skip(i + 1));
        }
        if same_text(labels[i].get_key(), key) {
            return Some(labels[i].get_value());
        }
        i += 1;
    }
    None
}

impl Instance {
    /// The labels of the pod, as plain values.
    pub closed spec fn labels(&self) -> Seq<(Seq<char>, Seq<char>)> {
        label_views(self.pod.labels@)
    }

    /// The pod.
    pub closed spec fn pod(&self) -> LabelledPod {
        self.pod
    }

    /// The kind that the pod's label names, if it names one.
    pub open spec fn kind(&self) -> Option<InstanceType> {
        match label_value(self.labels(), "epsilon.fr/instance"@) {
            Some(name) => InstanceType::named(lowercase_of(name)),
            None => None,
        }
    }

    /// The slots that the pod's label tells, if it tells them.
    pub open spec fn slots(&self) -> Option<int> {
        match label_value(self.labels(), "epsilon.fr/slots"@) {
            Some(text) => i32_value(text),
            None => None,
        }
    }

    /// The labels of the pod of a new instance of `template`: its kind,
    /// its template and its slots.
    pub fn creation_labels(template: &Template) -> (labels: Vec<Label>)
        ensures
            label_views(labels@) == seq![
                ("epsilon.fr/instance"@, template.t.name()),
                ("epsilon.fr/template"@, template.name@),
                ("epsilon.fr/slots"@, crate::decimal::decimal(template.slots as int)),
            ],
    {
        let labels = vec![
            Label::get_instance_type_label(&template.t),
            Label::get_template_label(template.name.as_str()),
            Label::get_slots_label(template.slots),
        ];
        assert(label_views(labels@) =~= seq![
            ("epsilon.fr/instance"@, template.t.name()),
            ("epsilon.fr/template"@, template.name@),
            ("epsilon.fr/slots"@, crate::decimal::decimal(template.slots as int)),
        ]);
        labels
    }

    /// The instance of a pod of the fleet: one that carries the default
    /// label. `None` for every other pod.
    pub fn from_pod(pod: LabelledPod) -> (instance: Option<Self>)
        ensures
            match instance {
                Some(i) => i.pod() == pod && i.labels() == label_views(pod.labels@) && label_value(
                    label_views(pod.labels@),
                    "epsilon.fr/default"@,
                ) is Some,
                None => label_value(label_views(pod.labels@), "epsilon.fr/default"@) is None,
            },
    {
        let instance = Self { pod };
        if instance.is_valid() {
            Some(instance)
        } else {
            None
        }
    }

    /// The pod's name.
    pub fn get_name(&self) -> (name: &str)
        ensures
            name@ == self.pod().name@,
    {
        self.pod.name.as_str()
    }

    /// Whether the pod carries the default label.
    pub fn is_valid(&self) -> (valid: bool)
        ensures
            valid == label_value(self.labels(), "epsilon.fr/default"@) is Some,
    {
        find_label(&self.pod.labels, Label::DEFAULT_LABEL).is_some()
    }

    /// The name of the instance's template, where the pod's label tells
    /// it.
    pub fn get_template_name(&self) -> (name: Option<&str>)
        ensures
            match name {
                Some(n) => label_value(self.labels(), "epsilon.fr/template"@) == Some(n@),
                None => label_value(self.labels(), "epsilon.fr/template"@) is None,
            },
    {
        find_label(&self.pod.labels, Label::TEMPLATE_LABEL)
    }

    /// The kind of the instance, where the pod's label names one.
    pub fn get_instance_type(&self) -> (kind: Option<InstanceType>)
        ensures
            kind == self.kind(),
    {
        match find_label(&self.pod.labels, Label::INSTANCE_TYPE_LABEL) {
            Some(name) => match InstanceType::from_str(name) {
                Ok(kind) => Some(kind),
                Err(_) => None,
            },
            None => None,
        }
    }

    /// The slots of the instance, where the pod's label tells them.
    pub fn get_instance_slots(&self) -> (slots: Option<i32>)
        ensures
            match slots {
                Some(n) => self.slots() == Some(n as int),
                None => self.slots() is None,
            },
    {
        match find_label(&self.pod.labels, Label::SLOTS_LABEL) {
            Some(text) => parse_i32(text),
            None => None,
        }
    }

    /// Whether the pod ended well.
    pub fn is_succeeded(&self) -> (succeeded: bool)
        ensures
            succeeded == (self.pod().report.phase@ == "Succeeded"@),
    {
        same_text(self.pod.report.phase.as_str(), "Succeeded")
    }

    /// Whether the pod failed or is lost.
    pub fn is_failed(&self) -> (failed: bool)
        ensures
            failed == (self.pod().report.phase@ == "Failed"@ || self.pod().report.phase@
                == "Unknown"@),
    {
        let phase = self.pod.report.phase.as_str();
        same_text(phase, "Failed") || same_text(phase, "Unknown")
    }

    /// The state of the instance; see [`pod_state`].
    pub fn get_state(&self) -> (state: EpsilonState)
        ensures
            state == pod_state(self.labels(), self.pod().deleting, self.pod().report),
    {
        let is_ready = self.pod.report.is_ready() && same_text(
            self.pod.report.phase.as_str(),
            "Running",
        );
        let is_in_game = match find_label(&self.pod.labels, Label::IN_GAME_LABEL) {
            Some(value) => same_text(value, "true"),
            None => false,
        };
        let is_stopping = self.pod.deleting || self.is_succeeded();
        if is_ready && is_in_game {
            EpsilonState::InGame
        } else if is_ready {
            EpsilonState::Running
        } else if is_stopping {
            EpsilonState::Stopping
        } else {
            EpsilonState::Starting
        }
    }

    /// The players that the instance can still take, given how many are
    /// online; `None` where the pod's label does not tell its slots.
    pub fn get_available_slots(&self, online: i32) -> (available: Option<i64>)
        ensures
            match available {
                Some(n) => self.slots() is Some && n == self.slots()->0 - online,
                None => self.slots() is None,
            },
    {
        match self.get_instance_slots() {
            Some(slots) => Some(slots as i64 - online as i64),
            None => None,
        }
    }

    /// What the public interface tells of the instance. `online` is the
    /// result of probing it, `None` where the probe failed: the count is
    /// then told as zero. `None` where the pod's labels do not tell the
    /// template or the slots.
    pub fn to_json(&self, online: Option<u32>) -> (json: Option<InstanceJson>)
        ensures
            match json {
                Some(j) => {
                    &&& j.name@ == self.pod().name@
                    &&& label_value(self.labels(), "epsilon.fr/template"@) == Some(j.template@)
                    &&& j.state == pod_state(self.labels(), self.pod().deleting, self.pod().report)
                    &&& self.slots() == Some(j.slots as int)
                    &&& j.online_count == match online {
                        Some(n) => n,
                        None => 0,
                    }
                },
                None => label_value(self.labels(), "epsilon.fr/template"@) is None
                    || self.slots() is None,
            },
    {
        let template = match self.get_template_name() {
            Some(template) => template,
            None => {
                return None;
            },
        };
        let slots = match self.get_instance_slots() {
            Some(slots) => slots,
            None => {
                return None;
            },
        };
        Some(
            InstanceJson {
                name: String::from_str(self.get_name()),
                template: String::from_str(template),
                state: self.get_state(),
                slots,
                online_count: match online {
                    Some(n) => n,
                    None => 0,
                },
            },
        )
    }
}

/// The labels by which the pods of a kind are listed, and of a template
/// where one is given.
pub fn selector_labels(instance_type: &InstanceType, template_option: Option<&str>) -> (labels: Vec<
    Label,
>)
    ensures
        label_views(labels@) == match template_option {
            Some(template) => seq![
                ("epsilon.fr/instance"@, instance_type.name()),
                ("epsilon.fr/template"@, template@),
            ],
            None => seq![("epsilon.fr/instance"@, instance_type.name())],
        },
{
    let mut labels = vec![Label::get_instance_type_label(instance_type)];
    let ghost first = label_views(labels@);
    assert(first =~= seq![("epsilon.fr/instance"@, instance_type.name())]);
    if let Some(template_name) = template_option {
        labels.push(Label::get_template_label(template_name));
        assert(label_views(labels@) =~= first.push(("epsilon.fr/template"@, template_name@)));
    }
    labels
}

/// Whether an instance is listed: by its state where one is asked for;
/// else every instance where all are asked for, and those that have not
/// failed where not.
pub open spec fn is_listed(
    state: EpsilonState,
    failed: bool,
    state_option: Option<EpsilonState>,
    get_all: bool,
) -> bool {
    match state_option {
        Some(wanted) => state == wanted,
        None => get_all || !failed,
    }
}

/// Decides whether `instance` is listed; see [`is_listed`].
pub fn lists(instance: &Instance, state_option: Option<EpsilonState>, get_all: bool) -> (listed:
    bool)
    ensures
        listed == is_listed(
            pod_state(instance.labels(), instance.pod().deleting, instance.pod().report),
            instance.pod().report.phase@ == "Failed"@ || instance.pod().report.phase@
                == "Unknown"@,
            state_option,
            get_all,
        ),
{
    match state_option {
        Some(state) => instance.get_state() == state,
        None => get_all || !instance.is_failed(),
    }
}

} // verus!
