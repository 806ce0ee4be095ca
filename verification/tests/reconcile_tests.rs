use epsilon::config::{EpsilonConfig, HubConfig, ProxyConfig};
use epsilon::instance::{EpsilonInstance, EpsilonInstanceSpec, EpsilonInstanceStatus};
use epsilon::instance_type::InstanceType;
use epsilon::pod::{get_image, PodCondition, PodObservation, PodPlan, PodReport};
use epsilon::reconcile::{compute_state, reconcile, reconcile_needs_template, ReconcileAction};
use epsilon::resources::{Resources, ResourcesInfo};
use epsilon::state::EpsilonState;
use epsilon::template::Template;
use epsilon::template_provider::TemplateProvider;

fn proxy_template() -> Template {
    Template {
        name: "proxy".to_string(),
        parent: String::new(),
        t: InstanceType::Proxy,
        slots: 500,
        resources: Resources {
            minimum: ResourcesInfo { cpu: 1, ram: 512 },
            maximum: ResourcesInfo { cpu: 2, ram: 2048 },
        },
    }
}

fn hub_template() -> Template {
    Template {
        name: "hub".to_string(),
        parent: String::new(),
        t: InstanceType::Server,
        slots: 100,
        resources: Resources {
            minimum: ResourcesInfo { cpu: 1, ram: 1024 },
            maximum: ResourcesInfo { cpu: 4, ram: 4096 },
        },
    }
}

fn provider() -> TemplateProvider {
    TemplateProvider::new(EpsilonConfig::default())
}

fn fresh_instance(name: &str, template: &str) -> EpsilonInstance {
    EpsilonInstance {
        name: name.to_string(),
        spec: EpsilonInstanceSpec { template: template.to_string() },
        status: None,
    }
}

fn observed(phase: &str, ready: bool, ip: Option<&str>) -> PodObservation {
    PodObservation {
        ip: ip.map(|s| s.to_string()),
        report: Some(PodReport {
            phase: phase.to_string(),
            conditions: vec![
                PodCondition { type_: "Initialized".to_string(), status: "True".to_string() },
                PodCondition {
                    type_: "Ready".to_string(),
                    status: if ready { "True" } else { "False" }.to_string(),
                },
            ],
        }),
    }
}

fn with_status(instance: EpsilonInstance, status: EpsilonInstanceStatus) -> EpsilonInstance {
    EpsilonInstance { status: Some(status), ..instance }
}

fn patched(action: ReconcileAction) -> (EpsilonInstanceStatus, Option<EpsilonInstanceStatus>) {
    match action {
        ReconcileAction::PatchStatus { status, close } => (status, close),
        other => panic!("expected a status, got {:?}", other),
    }
}

#[test]
fn state_follows_phase_and_readiness() {
    let running = Some(EpsilonState::Running);
    assert_eq!(compute_state("Pending", false, running), EpsilonState::Starting);
    assert_eq!(compute_state("Pending", true, running), EpsilonState::Starting);
    assert_eq!(compute_state("Running", false, running), EpsilonState::Starting);
    assert_eq!(compute_state("Running", true, running), EpsilonState::Running);
    assert_eq!(compute_state("Succeeded", false, running), EpsilonState::Stopping);
    assert_eq!(compute_state("Failed", true, running), EpsilonState::Stopping);
    assert_eq!(compute_state("Unknown", false, running), EpsilonState::Stopping);
}

#[test]
fn state_without_status_is_starting() {
    assert_eq!(compute_state("Running", true, None), EpsilonState::Starting);
    assert_eq!(compute_state("Succeeded", true, None), EpsilonState::Starting);
    assert_eq!(compute_state("Failed", false, None), EpsilonState::Starting);
}

#[test]
fn state_keeps_in_game_while_the_pod_is_ready() {
    let in_game = Some(EpsilonState::InGame);
    assert_eq!(compute_state("Running", true, in_game), EpsilonState::InGame);
    assert_eq!(compute_state("Running", false, in_game), EpsilonState::Starting);
    assert_eq!(compute_state("Succeeded", true, in_game), EpsilonState::Stopping);
    assert_eq!(compute_state("Running", true, Some(EpsilonState::Starting)), EpsilonState::Running);
    assert_eq!(compute_state("Running", true, Some(EpsilonState::Stopping)), EpsilonState::Running);
}

#[test]
fn reconcile_creates_the_missing_pod() {
    let instance = fresh_instance("proxy-x7", "proxy");
    assert!(reconcile_needs_template(&instance, None));
    let template = proxy_template();
    let action = reconcile(&instance, None, Some(&template), &provider(), None);
    let plan = match action {
        ReconcileAction::CreatePod(plan) => plan,
        other => panic!("expected a pod, got {:?}", other),
    };
    assert_eq!(plan.name, "proxy-x7");
    assert!(plan.block_owner_deletion);
    assert_eq!(plan.labels.len(), 1);
    assert_eq!(plan.labels[0].get_key(), "epsilon.fr/instance");
    assert_eq!(plan.labels[0].get_value(), "proxy");
    assert_eq!(plan.restart_policy, "Never");
    assert_eq!(plan.container_name, "main");
    assert_eq!(plan.image, "dev.registry.epsilon.local/proxy");
    assert_eq!(plan.image_pull_policy, "Always");
    assert_eq!(plan.env_from.len(), 2);
    assert_eq!(plan.env_from[0].name, "epsilon-configuration");
    assert!(!plan.env_from[0].optional);
    assert_eq!(plan.env_from[1].name, "epsilon-configuration-instance");
    assert!(plan.env_from[1].optional);
    assert_eq!(plan.ports.len(), 2);
    assert_eq!(plan.ports[0].name, "proxy");
    assert_eq!(plan.ports[0].container_port, 25577);
    assert_eq!(plan.ports[0].protocol, "TCP");
    assert_eq!(plan.ports[1].name, "metrics");
    assert_eq!(plan.ports[1].container_port, 9090);
    assert_eq!(plan.ports[1].protocol, "TCP");
    assert_eq!(
        plan.resources.requests,
        vec![("cpu".to_string(), "1".to_string()), ("memory".to_string(), "512M".to_string())]
    );
    assert_eq!(
        plan.resources.limits,
        vec![("cpu".to_string(), "2".to_string()), ("memory".to_string(), "2048M".to_string())]
    );
    assert_eq!(plan.readiness_probe.command, vec!["cat".to_string(), "epsilon_start".to_string()]);
    assert_eq!(plan.readiness_probe.initial_delay_seconds, 5);
    assert_eq!(plan.readiness_probe.period_seconds, 1);
    assert_eq!(plan.readiness_probe.success_threshold, 1);
    assert_eq!(plan.readiness_probe.failure_threshold, 3);
}

#[test]
fn server_pod_exposes_the_server_port_only() {
    let plan = PodPlan::for_instance("hub-1", "hub", &hub_template(), Some("registry.example"));
    assert_eq!(plan.image, "registry.example/hub");
    assert_eq!(plan.ports.len(), 1);
    assert_eq!(plan.ports[0].name, "server");
    assert_eq!(plan.ports[0].container_port, 25565);
    assert_eq!(plan.labels[0].get_value(), "server");
}

#[test]
fn image_names_the_registry_and_the_template() {
    assert_eq!(get_image(None, "hub"), "dev.registry.epsilon.local/hub");
    assert_eq!(get_image(Some("r.example:5000"), "bedwars"), "r.example:5000/bedwars");
}

#[test]
fn reconcile_without_template_waits() {
    let instance = fresh_instance("proxy-x7", "proxy");
    let action = reconcile(&instance, None, None, &provider(), None);
    assert!(matches!(action, ReconcileAction::AwaitChange));
    let pod = observed("Running", true, Some("10.1.1.1"));
    assert!(reconcile_needs_template(&instance, Some(&pod)));
    let action = reconcile(&instance, Some(&pod), None, &provider(), None);
    assert!(matches!(action, ReconcileAction::AwaitChange));
}

#[test]
fn reconcile_waits_for_a_pod_that_reports_nothing() {
    let instance = fresh_instance("proxy-x7", "proxy");
    let pod = PodObservation { ip: None, report: None };
    assert!(!reconcile_needs_template(&instance, Some(&pod)));
    let action = reconcile(&instance, Some(&pod), Some(&proxy_template()), &provider(), None);
    assert!(matches!(action, ReconcileAction::AwaitChange));
}

#[test]
fn cold_start_proxy_converges_to_running() {
    let template = proxy_template();
    let instance = fresh_instance("proxy-x7", "proxy");
    let pod = observed("Running", true, Some("10.1.1.1"));
    let (first, close) =
        patched(reconcile(&instance, Some(&pod), Some(&template), &provider(), None));
    assert!(close.is_none());
    assert_eq!(first.state, EpsilonState::Starting);
    assert_eq!(first.t, InstanceType::Proxy);
    assert!(!first.hub);
    assert_eq!(first.template, "proxy");
    assert_eq!(first.content, "");
    assert_eq!(first.slots, 500);
    assert_eq!(first.ip.as_deref(), Some("10.1.1.1"));
    assert!(!first.close);

    let instance = with_status(instance, first);
    assert!(!reconcile_needs_template(&instance, Some(&pod)));
    let (second, close) = patched(reconcile(&instance, Some(&pod), None, &provider(), None));
    assert!(close.is_none());
    assert_eq!(second.state, EpsilonState::Running);
    assert_eq!(second.t, InstanceType::Proxy);
    assert!(!second.hub);
    assert!(!second.close);
}

#[test]
fn first_status_of_a_hub_is_marked_as_hub() {
    let instance = fresh_instance("hub-1", "hub");
    let pod = observed("Pending", false, None);
    let (status, close) =
        patched(reconcile(&instance, Some(&pod), Some(&hub_template()), &provider(), None));
    assert!(close.is_none());
    assert!(status.hub);
    assert_eq!(status.t, InstanceType::Server);
    assert_eq!(status.state, EpsilonState::Starting);
    assert_eq!(status.slots, 100);
    assert!(status.ip.is_none());

    let other = TemplateProvider::new(EpsilonConfig {
        proxy: ProxyConfig { template: "proxy".to_string(), minimum_proxies: 1 },
        hub: HubConfig { template: "lobby".to_string(), minimum_hubs: 1 },
    });
    let (status, _) = patched(reconcile(&instance, Some(&pod), Some(&hub_template()), &other, None));
    assert!(!status.hub);
}

#[test]
fn reconcile_closes_a_stopping_instance_once() {
    let template = hub_template();
    let instance = fresh_instance("hub-1", "hub");
    let running = observed("Running", true, Some("10.1.1.2"));
    let (first, _) = patched(reconcile(&instance, Some(&running), Some(&template), &provider(), None));
    let instance = with_status(instance, first);
    let (second, _) = patched(reconcile(&instance, Some(&running), None, &provider(), None));
    assert_eq!(second.state, EpsilonState::Running);
    let instance = EpsilonInstance { status: Some(second), ..instance };

    let ended = observed("Succeeded", false, Some("10.1.1.2"));
    let (third, close) = patched(reconcile(&instance, Some(&ended), None, &provider(), None));
    assert_eq!(third.state, EpsilonState::Stopping);
    assert!(!third.close);
    let closed = close.expect("a stopping instance is closed");
    assert_eq!(closed.state, EpsilonState::Stopping);
    assert!(closed.close);
    assert_eq!(closed.slots, 100);
    assert_eq!(closed.template, "hub");

    let instance = EpsilonInstance { status: Some(closed), ..instance };
    let (fourth, close) = patched(reconcile(&instance, Some(&ended), None, &provider(), None));
    assert_eq!(fourth.state, EpsilonState::Stopping);
    assert!(fourth.close);
    assert!(close.is_none());
}

#[test]
fn reconcile_keeps_the_recorded_fields() {
    let instance = with_status(
        fresh_instance("T-1", "T"),
        EpsilonInstanceStatus {
            ip: Some("10.0.0.9".to_string()),
            template: "T".to_string(),
            t: InstanceType::Server,
            hub: false,
            content: "{\"map\":\"castle\"}".to_string(),
            state: EpsilonState::InGame,
            slots: 16,
            online: 12,
            close: false,
        },
    );
    let pod = observed("Running", true, Some("10.0.0.10"));
    let (status, close) = patched(reconcile(&instance, Some(&pod), None, &provider(), None));
    assert!(close.is_none());
    assert_eq!(status.state, EpsilonState::InGame);
    assert_eq!(status.ip.as_deref(), Some("10.0.0.10"));
    assert_eq!(status.content, "{\"map\":\"castle\"}");
    assert_eq!(status.slots, 16);
    assert_eq!(status.online, 12);
    assert_eq!(status.template, "T");
}

#[test]
fn readiness_needs_a_true_ready_condition() {
    let ready = PodReport {
        phase: "Running".to_string(),
        conditions: vec![PodCondition { type_: "Ready".to_string(), status: "True".to_string() }],
    };
    assert!(ready.is_ready());
    let not_ready = PodReport {
        phase: "Running".to_string(),
        conditions: vec![
            PodCondition { type_: "Ready".to_string(), status: "False".to_string() },
            PodCondition { type_: "PodScheduled".to_string(), status: "True".to_string() },
        ],
    };
    assert!(!not_ready.is_ready());
    let none = PodReport { phase: "Running".to_string(), conditions: Vec::new() };
    assert!(!none.is_ready());
}
