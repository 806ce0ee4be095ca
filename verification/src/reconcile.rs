//! The reconciler's decisions.
//!
//! For one instance and what the orchestrator reports of its pod, the
//! reconciler decides what to do next: create the pod, record the instance's
//! status, or close the instance. Doing it is left to the caller.

use crate::instance::{option_text, EpsilonInstance, EpsilonInstanceStatus, InstanceView, StatusView};
use crate::pod::{PodObservation, PodPlan};
use crate::state::EpsilonState;
use crate::template::Template;
use crate::template_provider::TemplateProvider;
use crate::text::same_text;
use vstd::prelude::*;

verus! {

/// What the reconciler asks its caller to do.
#[derive(Debug)]
pub enum ReconcileAction {
    /// Nothing, until the instance or its pod changes.
    AwaitChange,
    /// Create the pod.
    CreatePod(PodPlan),
    /// Record `status` as the instance's status. Where `close` holds a
    /// status, record that one next and then delete the instance.
    PatchStatus { status: EpsilonInstanceStatus, close: Option<EpsilonInstanceStatus> },
}

/// The state of an instance whose pod is in `phase` and is ready or not,
/// given the state recorded before, if one was.
///
/// Without a recorded state, and while the pod is pending or runs without
/// being ready, the instance is starting. With a pod that runs and is ready
/// it is running, or still in game where it was in game before. In every
/// other case it is stopping.
pub open spec fn derive_state(
    phase: Seq<char>,
    ready: bool,
    prior: Option<EpsilonState>,
) -> EpsilonState {
    if phase == "Pending"@ || prior is None || (phase == "Running"@ && !ready) {
        EpsilonState::Starting
    } else if phase == "Running"@ && ready {
        if prior == Some(EpsilonState::InGame) {
            EpsilonState::InGame
        } else {
            EpsilonState::Running
        }
    } else {
        EpsilonState::Stopping
    }
}

/// The status to record for an instance in `state` whose pod has the
/// address `ip`: the status recorded before with address and state
/// replaced, or, where none was recorded, a first status made from the
/// template, closed exactly if the instance is stopping.
pub open spec fn next_status(
    instance: InstanceView,
    ip: Option<Seq<char>>,
    state: EpsilonState,
    template: Template,
    hub_template: Seq<char>,
) -> StatusView {
    match instance.status {
        Some(prior) => StatusView { ip, state, ..prior },
        None => StatusView {
            ip,
            template: instance.template,
            t: template.t,
            hub: template.name@ == hub_template,
            content: Seq::empty(),
            state,
            slots: template.slots as int,
            online: 0,
            close: state == EpsilonState::Stopping,
        },
    }
}

/// Whether reconciling needs the instance's template: to plan a pod that
/// is absent, or to make the first status.
pub open spec fn needs_template(instance: InstanceView, pod: Option<PodObservation>) -> bool {
    match pod {
        None => true,
        Some(observation) => observation.report is Some && instance.status is None,
    }
}

/// The state recorded of an instance, if a status was recorded.
pub open spec fn recorded_state(instance: InstanceView) -> Option<EpsilonState> {
    match instance.status {
        Some(status) => Some(status.state),
        None => None,
    }
}

/// The status that stands once `action` was carried out; `None` where the
/// action records none.
pub open spec fn recorded_after(action: ReconcileAction) -> Option<StatusView> {
    match action {
        ReconcileAction::PatchStatus { status, close } => match close {
            Some(closed) => Some(closed@),
            None => Some(status@),
        },
        _ => None,
    }
}

/// Whether `action` is what the reconciler owes for `instance` and `pod`.
///
/// Without a pod, the pod is created from the template. With a pod that
/// reports phase and conditions, the status of [`next_status`] is recorded
/// for the state of [`derive_state`]; where that state is `Stopping` and the
/// status is not yet closed, the same status is recorded once more as
/// closed, and the instance is deleted. Where the template is needed and
/// missing, or the pod reports nothing yet, nothing is done.
pub open spec fn is_reconciled(
    action: ReconcileAction,
    instance: InstanceView,
    pod: Option<PodObservation>,
    template: Option<Template>,
    hub_template: Seq<char>,
    registry: Option<Seq<char>>,
) -> bool {
    if needs_template(instance, pod) && template is None {
        action is AwaitChange
    } else {
        match pod {
            None => action matches ReconcileAction::CreatePod(plan) && plan.is_pod_of(
                instance.name,
                template->0,
                registry,
                instance.template,
            ),
            Some(observation) => match observation.report {
                None => action is AwaitChange,
                Some(report) => {
                    let state = derive_state(report.phase@, report.ready(), recorded_state(instance));
                    let status = match instance.status {
                        Some(prior) => StatusView { ip: option_text(observation.ip), state, ..prior },
                        None => next_status(
                            instance,
                            option_text(observation.ip),
                            state,
                            template->0,
                            hub_template,
                        ),
                    };
                    &&& action matches ReconcileAction::PatchStatus { status: first, close }
                    &&& first@ == status
                    &&& if state == EpsilonState::Stopping && !status.close {
                        close matches Some(closed) && closed@ == StatusView { close: true, ..status }
                    } else {
                        close is None
                    }
                },
            },
        }
    }
}

/// Decides whether reconciling needs the instance's template.
pub fn reconcile_needs_template(instance: &EpsilonInstance, pod: Option<&PodObservation>) -> (needed:
    bool)
    ensures
        needed == needs_template(
            instance@,
            match pod {
                Some(p) => Some(*p),
                None => None,
            },
        ),
{
    match pod {
        None => true,
        Some(observation) => observation.report.is_some() && instance.status.is_none(),
    }
}

/// Derives the state of an instance; see [`derive_state`].
pub fn compute_state(phase: &str, ready: bool, prior: Option<EpsilonState>) -> (state: EpsilonState)
    ensures
        state == derive_state(phase@, ready, prior),
{
    let is_starting = same_text(phase, "Pending");
    let is_running = same_text(phase, "Running");
    if is_starting || prior.is_none() || (is_running && !ready) {
        EpsilonState::Starting
    } else if is_running && ready {
        match prior {
            Some(EpsilonState::InGame) => EpsilonState::InGame,
            _ => EpsilonState::Running,
        }
    } else {
        EpsilonState::Stopping
    }
}

/// Decides what to do for `instance`, given what the orchestrator reports
/// of its pod (`None` where it has none) and the instance's template
/// (`None` where it was not fetched or could not be).
pub fn reconcile(
    instance: &EpsilonInstance,
    pod: Option<&PodObservation>,
    template: Option<&Template>,
    provider: &TemplateProvider,
    registry: Option<&str>,
) -> (action: ReconcileAction)
    ensures
        is_reconciled(
            action,
            instance@,
            match pod {
                Some(p) => Some(*p),
                None => None,
            },
            match template {
                Some(t) => Some(*t),
                None => None,
            },
            provider.hub_template(),
            match registry {
                Some(host) => Some(host@),
                None => None,
            },
        ),
{
    let observation = match pod {
        None => {
            return match template {
                None => ReconcileAction::AwaitChange,
                Some(t) => ReconcileAction::CreatePod(
                    PodPlan::for_instance(
                        instance.name.as_str(),
                        instance.spec.template.as_str(),
                        t,
                        registry,
                    ),
                ),
            };
        },
        Some(observation) => observation,
    };
    let report = match &observation.report {
        None => {
            return ReconcileAction::AwaitChange;
        },
        Some(report) => report,
    };
    let prior_state = match &instance.status {
        Some(status) => Some(status.state),
        None => None,
    };
    let state = compute_state(report.phase.as_str(), report.is_ready(), prior_state);
    let ip = match &observation.ip {
        Some(ip) => Some(ip.clone()),
        None => None,
    };
    let status = match &instance.status {
        Some(prior) => {
            let mut status = prior.clone();
            status.ip = ip;
            status.state = state;
            status
        },
        None => match template {
            None => {
                return ReconcileAction::AwaitChange;
            },
            Some(t) => EpsilonInstanceStatus {
                ip,
                template: instance.spec.template.clone(),
                t: t.t,
                hub: provider.is_hub(t),
                content: String::new(),
                state,
                slots: t.slots,
                online: 0,
                close: state == EpsilonState::Stopping,
            },
        },
    };
    let close = if state == EpsilonState::Stopping && !status.close {
        let mut closed = status.clone();
        closed.close = true;
        Some(closed)
    } else {
        None
    };
    ReconcileAction::PatchStatus { status, close }
}

/// Reconciling never reopens an instance and keeps its status consistent:
/// a status that was closed stays closed; and where the status recorded
/// before was consistent and a closed instance's pod is not seen to come
/// back, the status that stands afterwards is closed only if the instance
/// is stopping.
pub proof fn lemma_reconcile_keeps_close_latched(
    action: ReconcileAction,
    instance: InstanceView,
    pod: Option<PodObservation>,
    template: Option<Template>,
    hub_template: Seq<char>,
    registry: Option<Seq<char>>,
)
    requires
        is_reconciled(action, instance, pod, template, hub_template, registry),
        recorded_after(action) is Some,
    ensures
        instance.status is Some && instance.status->0.close ==> recorded_after(action)->0.close,
        ({
            let state = derive_state(
                pod->0.report->0.phase@,
                pod->0.report->0.ready(),
                recorded_state(instance),
            );
            let prior_consistent = instance.status matches Some(prior) ==> prior.closed_means_stopping()
                && (prior.close ==> state == EpsilonState::Stopping);
            prior_consistent ==> recorded_after(action)->0.closed_means_stopping()
        }),
{
}

/// From one reconcile to the next the state moves only along the
/// lifecycle, as long as the pod does: a pod that was ready is never
/// pending again and stays ready while it runs, and one that ended never
/// runs again.
pub proof fn lemma_derived_state_follows_lifecycle(
    phase: Seq<char>,
    ready: bool,
    prior: EpsilonState,
)
    requires
        prior != EpsilonState::Starting ==> phase != "Pending"@ && (phase == "Running"@ ==> ready),
        prior == EpsilonState::Stopping ==> phase != "Running"@,
    ensures
        prior.may_precede(derive_state(phase, ready, Some(prior))),
{
}

} // verus!
