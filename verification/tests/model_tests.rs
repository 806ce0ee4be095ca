use epsilon::config::EpsilonConfig;
use epsilon::decimal::{parse_i32, signed_to_string, unsigned_to_string};
use epsilon::error::EpsilonError;
use epsilon::events::{EpsilonEvent, EVENT_BUS_CAPACITY};
use epsilon::group::Group;
use epsilon::instance::{
    EpsilonInstance, EpsilonInstanceSpec, EpsilonInstanceStatus, PROBE_TIMEOUT_MILLIS,
};
use epsilon::instance_provider::InstanceProvider;
use epsilon::instance_type::InstanceType;
use epsilon::label::Label;
use epsilon::labels_builder::LabelsBuilder;
use epsilon::pod::{PodCondition, PodReport};
use epsilon::pod_instance::{find_label, lists, selector_labels, Instance, LabelledPod};
use epsilon::resources::{Resources, ResourcesInfo};
use epsilon::state::EpsilonState;
use epsilon::template::Template;
use epsilon::template_provider::TemplateProvider;
use epsilon::text::same_text;
use epsilon::wire::{decode_status, encode_status, kind_from_name, state_from_name, StatusRecord};

fn status_of(kind: InstanceType, state: EpsilonState) -> EpsilonInstanceStatus {
    EpsilonInstanceStatus {
        ip: Some("10.0.0.1".to_string()),
        template: "T".to_string(),
        t: kind,
        hub: false,
        content: "payload".to_string(),
        state,
        slots: 20,
        online: 3,
        close: false,
    }
}

fn instance_of(name: &str, template: &str, status: Option<EpsilonInstanceStatus>) -> EpsilonInstance {
    EpsilonInstance {
        name: name.to_string(),
        spec: EpsilonInstanceSpec { template: template.to_string() },
        status,
    }
}

fn names(found: &[&EpsilonInstance]) -> Vec<String> {
    found.iter().map(|i| i.get_name()).collect()
}

fn labelled_pod(labels: Vec<Label>, phase: &str, ready: bool, deleting: bool) -> LabelledPod {
    LabelledPod {
        name: "T-abc".to_string(),
        labels,
        deleting,
        ip: Some("10.0.0.1".to_string()),
        report: PodReport {
            phase: phase.to_string(),
            conditions: vec![PodCondition {
                type_: "Ready".to_string(),
                status: if ready { "True" } else { "False" }.to_string(),
            }],
        },
    }
}

fn fleet_labels(in_game: Option<bool>) -> Vec<Label> {
    let mut labels = vec![
        Label::get_default_label(),
        Label::get_instance_type_label(&InstanceType::Server),
        Label::get_template_label("T"),
        Label::get_slots_label(20),
    ];
    if let Some(enable) = in_game {
        labels.push(Label::get_in_game_label(enable));
    }
    labels
}

#[test]
fn default_configuration() {
    let config = EpsilonConfig::default();
    assert_eq!(config.proxy.template, "proxy");
    assert_eq!(config.proxy.minimum_proxies, 1);
    assert_eq!(config.hub.template, "hub");
    assert_eq!(config.hub.minimum_hubs, 1);
}

#[test]
fn numbers_in_decimal_notation() {
    assert_eq!(unsigned_to_string(0), "0");
    assert_eq!(unsigned_to_string(7), "7");
    assert_eq!(unsigned_to_string(10), "10");
    assert_eq!(unsigned_to_string(4096), "4096");
    assert_eq!(unsigned_to_string(u64::MAX), "18446744073709551615");
    assert_eq!(signed_to_string(0), "0");
    assert_eq!(signed_to_string(-1), "-1");
    assert_eq!(signed_to_string(2147483647), "2147483647");
    assert_eq!(signed_to_string(-2147483648), "-2147483648");
    assert_eq!(signed_to_string(i64::MIN), "-9223372036854775808");
}

#[test]
fn numbers_are_read_as_the_standard_library_reads_them() {
    for text in [
        "0", "7", "20", "007", "+5", "-5", "-0", "2147483647", "2147483648", "-2147483648",
        "-2147483649", "", "-", "+", "+-5", "--5", " 5", "5 ", "5a", "a5", "1_000", "0x10",
        "99999999999999999999", "٣",
    ] {
        assert_eq!(parse_i32(text), text.parse::<i32>().ok(), "reading {:?}", text);
    }
}

#[test]
fn written_numbers_are_read_back() {
    for n in [0, 1, -1, 9, 10, 99, 100, 12345, -12345, i32::MAX, i32::MIN] {
        assert_eq!(parse_i32(&signed_to_string(n as i64)), Some(n));
    }
}

#[test]
fn texts_compare_by_their_characters() {
    assert!(same_text("", ""));
    assert!(same_text("Ready", "Ready"));
    assert!(!same_text("Ready", "ready"));
    assert!(!same_text("Ready", "Ready "));
}

#[test]
fn kinds_expose_their_ports() {
    assert_eq!(InstanceType::Server.get_entry_port(), 25565);
    assert_eq!(InstanceType::Proxy.get_entry_port(), 25577);
    assert_eq!(InstanceType::Server.get_associated_ports(), vec![("server", 25565)]);
    assert_eq!(
        InstanceType::Proxy.get_associated_ports(),
        vec![("proxy", 25577), ("metrics", 9090)]
    );
    let ports = InstanceType::Proxy.get_container_ports();
    assert_eq!(ports.len(), 2);
    assert_eq!(ports[1].name, "metrics");
    assert_eq!(ports[1].container_port, 9090);
    assert_eq!(ports[1].protocol, "TCP");
    assert_eq!(InstanceType::Server.get_container_ports().len(), 1);
}

#[test]
fn kinds_are_read_in_any_case() {
    assert_eq!(InstanceType::Server.to_string(), "server");
    assert_eq!(InstanceType::Proxy.to_string(), "proxy");
    assert_eq!(InstanceType::from_str("server"), Ok(InstanceType::Server));
    assert_eq!(InstanceType::from_str("SERVER"), Ok(InstanceType::Server));
    assert_eq!(InstanceType::from_str("Proxy"), Ok(InstanceType::Proxy));
    assert_eq!(
        InstanceType::from_str("Lobby"),
        Err("Invalid instance type, Lobby".to_string())
    );
    assert_eq!(InstanceType::from_str(""), Err("Invalid instance type, ".to_string()));
    assert_eq!(InstanceType::from_lowercase("server"), Some(InstanceType::Server));
    assert_eq!(InstanceType::from_lowercase("Server"), None);
    for kind in [InstanceType::Server, InstanceType::Proxy] {
        assert_eq!(InstanceType::from_lowercase(&kind.to_string()), Some(kind));
    }
}

#[test]
fn states_follow_the_lifecycle() {
    let all = [
        EpsilonState::Starting,
        EpsilonState::Running,
        EpsilonState::InGame,
        EpsilonState::Stopping,
    ];
    for next in all {
        assert!(EpsilonState::Starting.can_become(next));
        assert_eq!(EpsilonState::Stopping.can_become(next), next == EpsilonState::Stopping);
        assert_eq!(EpsilonState::Running.can_become(next), next != EpsilonState::Starting);
        assert_eq!(EpsilonState::InGame.can_become(next), next != EpsilonState::Starting);
    }
    assert!(EpsilonState::Stopping.is_terminal());
    assert!(!EpsilonState::Running.is_terminal());
    assert_eq!(EpsilonState::InGame.to_string(), "InGame");
    assert_eq!(EpsilonState::Starting.to_string(), "Starting");
}

#[test]
fn labels_carry_key_and_value() {
    let label = Label::new("k", "v");
    assert_eq!(label.get_key(), "k");
    assert_eq!(label.get_value(), "v");
    assert_eq!(label.to_string(), "k=v");
    assert_eq!(Label::get_default_label().to_string(), "epsilon.fr/default=true");
    assert_eq!(
        Label::get_instance_type_label(&InstanceType::Proxy).to_string(),
        "epsilon.fr/instance=proxy"
    );
    assert_eq!(Label::get_template_label("hub").to_string(), "epsilon.fr/template=hub");
    assert_eq!(Label::get_slots_label(20).to_string(), "epsilon.fr/slots=20");
    assert_eq!(Label::get_slots_label(-3).to_string(), "epsilon.fr/slots=-3");
    assert_eq!(Label::get_in_game_label(true).to_string(), "epsilon.fr/in-game=true");
    assert_eq!(Label::get_in_game_label(false).to_string(), "epsilon.fr/in-game=false");
    assert_eq!(Label::DEFAULT_LABEL, "epsilon.fr/default");
    assert_eq!(Label::INSTANCE_TYPE_LABEL, "epsilon.fr/instance");
    assert_eq!(Label::TEMPLATE_LABEL, "epsilon.fr/template");
    assert_eq!(Label::SLOTS_LABEL, "epsilon.fr/slots");
    assert_eq!(Label::IN_GAME_LABEL, "epsilon.fr/in-game");
}

#[test]
fn labels_join_into_a_selector() {
    assert_eq!(Label::concat(&[]), "");
    assert_eq!(Label::concat(&[Label::new("a", "1")]), "a=1");
    assert_eq!(
        Label::concat(&[Label::new("a", "1"), Label::new("b", "2"), Label::new("c", "")]),
        "a=1,b=2,c="
    );
    let labels = selector_labels(&InstanceType::Server, Some("hub"));
    assert_eq!(Label::concat(&labels), "epsilon.fr/instance=server,epsilon.fr/template=hub");
    let labels = selector_labels(&InstanceType::Proxy, None);
    assert_eq!(Label::concat(&labels), "epsilon.fr/instance=proxy");
}

#[test]
fn builder_collects_labels_into_a_map() {
    let mut builder = LabelsBuilder::new();
    builder.with_instance_type_label(&InstanceType::Server);
    builder.with_template_label("hub");
    builder.with_slots_label(100);
    builder.with_in_game_label(false);
    builder.with_in_game_label(true);
    builder.with_template_label("lobby");
    let pairs = builder.build();
    let expected: Vec<(String, String)> = [
        ("epsilon.fr/default", "true"),
        ("epsilon.fr/instance", "server"),
        ("epsilon.fr/template", "lobby"),
        ("epsilon.fr/slots", "100"),
        ("epsilon.fr/in-game", "true"),
    ]
    .iter()
    .map(|(k, v)| (k.to_string(), v.to_string()))
    .collect();
    assert_eq!(pairs, expected);
    assert_eq!(
        LabelsBuilder::new().build(),
        vec![("epsilon.fr/default".to_string(), "true".to_string())]
    );
}

#[test]
fn resources_become_requests_and_limits() {
    let resources = Resources {
        minimum: ResourcesInfo { cpu: 1, ram: 512 },
        maximum: ResourcesInfo { cpu: 255, ram: 4294967295 },
    };
    let requirements = resources.kube_resources();
    assert_eq!(
        requirements.requests,
        vec![("cpu".to_string(), "1".to_string()), ("memory".to_string(), "512M".to_string())]
    );
    assert_eq!(
        requirements.limits,
        vec![
            ("cpu".to_string(), "255".to_string()),
            ("memory".to_string(), "4294967295M".to_string())
        ]
    );
}

#[test]
fn template_provider_knows_proxy_and_hub() {
    let provider = TemplateProvider::new(EpsilonConfig::default());
    let template = |name: &str| Template {
        name: name.to_string(),
        parent: String::new(),
        t: InstanceType::Server,
        slots: 1,
        resources: Resources {
            minimum: ResourcesInfo { cpu: 1, ram: 1 },
            maximum: ResourcesInfo { cpu: 1, ram: 1 },
        },
    };
    assert!(provider.is_hub(&template("hub")));
    assert!(!provider.is_hub(&template("proxy")));
    assert!(provider.is_proxy(&template("proxy")));
    assert!(!provider.is_proxy(&template("Proxy")));
    assert_eq!(provider.get_proxy_template_name(), "proxy");
    assert_eq!(provider.get_hub_template_name(), "hub");
    assert_eq!(
        TemplateProvider::get_template_host("templates.local", "templates"),
        "http://templates.local:8000/templates"
    );
    assert_eq!(
        TemplateProvider::templates_url("templates.local"),
        "http://templates.local:8000/templates"
    );
    assert_eq!(
        TemplateProvider::template_url("templates.local", "hub"),
        "http://templates.local:8000/templates/hub"
    );
    let copy = template("hub").clone();
    assert_eq!(copy.name, "hub");
}

#[test]
fn errors_have_messages_and_status_codes() {
    let cases: Vec<(EpsilonError, &str, u16)> = vec![
        (EpsilonError::ApiServerError("down".to_string()), "API server error down", 500),
        (EpsilonError::ParseJsonError, "Failed to parse json", 500),
        (
            EpsilonError::SendEventError("SendToServer".to_string()),
            "Send event error SendToServer",
            500,
        ),
        (
            EpsilonError::CreateInstanceError("hub".to_string()),
            "Create instance error, template is hub",
            500,
        ),
        (
            EpsilonError::RemoveInstanceError("hub-1".to_string()),
            "Remove instance error hub-1",
            500,
        ),
        (EpsilonError::RetrieveInstanceError, "Retrieve instance error", 500),
        (EpsilonError::RetrieveStatusError, "Retrieve status error", 500),
        (EpsilonError::RetrieveIpAddressError, "Retrieve ip address error", 500),
        (
            EpsilonError::QueueNotFoundError("skywars".to_string()),
            "Queue not found error skywars",
            404,
        ),
        (EpsilonError::RequestError("refused".to_string()), "Request error refused", 500),
        (
            EpsilonError::PingMinecraftError("eof".to_string()),
            "Ping response error eof",
            500,
        ),
        (EpsilonError::TimeoutError("150ms".to_string()), "Timeout error 150ms", 500),
    ];
    for (error, message, code) in cases {
        assert_eq!(error.to_string(), message);
        assert_eq!(error.status_code(), code);
    }
}

#[test]
fn interface_errors_quote_their_subject() {
    let detail = |e: EpsilonError| match e {
        EpsilonError::ApiServerError(detail) => detail,
        other => panic!("unexpected error {:?}", other),
    };
    assert_eq!(
        detail(EpsilonError::create_failed("hub")),
        "Failed to create an instance from template (hub)"
    );
    assert_eq!(detail(EpsilonError::close_failed("hub-1")), "Failed to close instance (hub-1)");
    assert_eq!(
        detail(EpsilonError::in_game_failed("hub-1")),
        "Failed to set in game instance (hub-1)"
    );
    assert_eq!(detail(EpsilonError::get_all_failed()), "Failed to get every instance");
    assert_eq!(
        detail(EpsilonError::get_from_template_failed("hub")),
        "Failed to get instance from template hub"
    );
}

#[test]
fn events_are_named_by_their_kind() {
    let group = Group { players: vec!["alice".to_string()], queue: "T".to_string() };
    let send = EpsilonEvent::SendToServer(group, "T-1".to_string());
    assert_eq!(send.to_string(), "SendToServer");
    assert_eq!(EpsilonEvent::ClearServer("T-1".to_string()).to_string(), "ClearServer");
    match send.send_error() {
        EpsilonError::SendEventError(kind) => assert_eq!(kind, "SendToServer"),
        other => panic!("unexpected error {:?}", other),
    }
    assert_eq!(EVENT_BUS_CAPACITY, 1024);
}

#[test]
fn instance_tells_name_and_state() {
    let fresh = instance_of("T-1", "T", None);
    assert_eq!(fresh.get_name(), "T-1");
    assert_eq!(fresh.get_state(), EpsilonState::Starting);
    let running = instance_of("T-2", "T", Some(status_of(InstanceType::Server, EpsilonState::Running)));
    assert_eq!(running.get_state(), EpsilonState::Running);
    assert_eq!(running.get_available_slots(15).unwrap(), 5);
    assert_eq!(running.get_available_slots(-1).unwrap(), 21);
    assert!(matches!(fresh.get_available_slots(0), Err(EpsilonError::RetrieveStatusError)));
}

#[test]
fn instance_probe_target_needs_status_and_address() {
    let fresh = instance_of("T-1", "T", None);
    assert!(matches!(fresh.probe_target(), Err(EpsilonError::RetrieveStatusError)));
    let mut status = status_of(InstanceType::Proxy, EpsilonState::Running);
    status.ip = None;
    let hidden = instance_of("T-2", "T", Some(status));
    assert!(matches!(hidden.probe_target(), Err(EpsilonError::RetrieveIpAddressError)));
    let proxy = instance_of("T-3", "T", Some(status_of(InstanceType::Proxy, EpsilonState::Running)));
    assert_eq!(proxy.probe_target().unwrap(), ("10.0.0.1".to_string(), 25577));
    let server = instance_of("T-4", "T", Some(status_of(InstanceType::Server, EpsilonState::Running)));
    assert_eq!(server.probe_target().unwrap(), ("10.0.0.1".to_string(), 25565));
    assert_eq!(PROBE_TIMEOUT_MILLIS, 150);
}

#[test]
fn instance_json_tells_zero_players_when_the_probe_failed() {
    let instance = instance_of("T-1", "T", Some(status_of(InstanceType::Server, EpsilonState::InGame)));
    let json = instance.to_json(Some(12)).unwrap();
    assert_eq!(json.name, "T-1");
    assert_eq!(json.template, "T");
    assert_eq!(json.content, "payload");
    assert!(!json.hub);
    assert_eq!(json.t, InstanceType::Server);
    assert_eq!(json.state, EpsilonState::InGame);
    assert_eq!(json.slots, 20);
    assert_eq!(json.online_count, 12);
    assert_eq!(json.ip.as_deref(), Some("10.0.0.1"));
    assert_eq!(instance.to_json(None).unwrap().online_count, 0);
    let fresh = instance_of("T-2", "T", None);
    assert!(matches!(fresh.to_json(Some(1)), Err(EpsilonError::RetrieveStatusError)));
}

#[test]
fn queries_filter_by_kind_template_and_state() {
    let provider = InstanceProvider::new(vec![
        instance_of("p-1", "proxy", Some(status_of(InstanceType::Proxy, EpsilonState::Running))),
        instance_of("a-1", "A", Some(status_of(InstanceType::Server, EpsilonState::Running))),
        instance_of("b-1", "B", Some(status_of(InstanceType::Server, EpsilonState::Starting))),
        instance_of("a-2", "A", Some(status_of(InstanceType::Server, EpsilonState::Stopping))),
        instance_of("a-3", "A", Some(status_of(InstanceType::Server, EpsilonState::Running))),
    ]);
    let all = provider.get_instances(None, None, None).unwrap();
    assert_eq!(names(&all), vec!["p-1", "a-1", "b-1", "a-2", "a-3"]);
    let servers = provider.get_instances(Some(InstanceType::Server), None, None).unwrap();
    assert_eq!(names(&servers), vec!["a-1", "b-1", "a-2", "a-3"]);
    let of_a = provider.get_instances(None, Some("A"), None).unwrap();
    assert_eq!(names(&of_a), vec!["a-1", "a-2", "a-3"]);
    let running = provider
        .get_instances(Some(InstanceType::Server), Some("A"), Some(EpsilonState::Running))
        .unwrap();
    assert_eq!(names(&running), vec!["a-1", "a-3"]);
    let none = provider
        .get_instances(Some(InstanceType::Proxy), Some("A"), None)
        .unwrap();
    assert!(none.is_empty());
    assert!(InstanceProvider::new(Vec::new()).get_instances(None, None, None).unwrap().is_empty());
}

#[test]
fn queries_reject_a_store_with_an_unobserved_instance() {
    let provider = InstanceProvider::new(vec![
        instance_of("a-1", "A", Some(status_of(InstanceType::Server, EpsilonState::Running))),
        instance_of("b-1", "B", None),
    ]);
    assert!(matches!(
        provider.get_instances(Some(InstanceType::Server), Some("A"), None),
        Err(EpsilonError::RetrieveInstanceError)
    ));
    assert!(matches!(
        provider.get_instances(None, None, None),
        Err(EpsilonError::RetrieveInstanceError)
    ));
}

#[test]
fn instances_are_found_by_name() {
    let provider = InstanceProvider::new(vec![
        instance_of("a-1", "A", Some(status_of(InstanceType::Server, EpsilonState::Running))),
        instance_of("b-1", "B", None),
    ]);
    assert_eq!(provider.get_instance("b-1").unwrap().spec.template, "B");
    assert!(matches!(
        provider.get_instance("c-1"),
        Err(EpsilonError::RetrieveInstanceError)
    ));
}

#[test]
fn in_game_replaces_the_state_only() {
    let provider = InstanceProvider::new(vec![
        instance_of("a-1", "A", Some(status_of(InstanceType::Server, EpsilonState::Running))),
        instance_of("b-1", "B", None),
    ]);
    let patch = provider.enable_in_game_instance("a-1").unwrap().unwrap();
    assert_eq!(patch.state, EpsilonState::InGame);
    assert_eq!(patch.slots, 20);
    assert_eq!(patch.online, 3);
    assert_eq!(patch.content, "payload");
    assert_eq!(patch.ip.as_deref(), Some("10.0.0.1"));
    assert!(!patch.close);
    assert!(provider.enable_in_game_instance("c-1").unwrap().is_none());
    assert!(matches!(
        provider.enable_in_game_instance("b-1"),
        Err(EpsilonError::RetrieveStatusError)
    ));
}

#[test]
fn start_request_carries_the_content() {
    let request = InstanceProvider::start_instance("bedwars", Some("{\"map\":1}".to_string()));
    assert_eq!(request.generate_name, "bedwars-");
    assert_eq!(request.template, "bedwars");
    assert_eq!(request.content.as_deref(), Some("{\"map\":1}"));
}

#[test]
fn status_survives_the_wire() {
    for kind in [InstanceType::Server, InstanceType::Proxy] {
        for state in [
            EpsilonState::Starting,
            EpsilonState::Running,
            EpsilonState::InGame,
            EpsilonState::Stopping,
        ] {
            let mut status = status_of(kind, state);
            status.close = state == EpsilonState::Stopping;
            status.hub = kind == InstanceType::Server;
            let record = encode_status(&status);
            let back = decode_status(&record).unwrap();
            assert_eq!(back.ip, status.ip);
            assert_eq!(back.template, status.template);
            assert_eq!(back.t, status.t);
            assert_eq!(back.hub, status.hub);
            assert_eq!(back.content, status.content);
            assert_eq!(back.state, status.state);
            assert_eq!(back.slots, status.slots);
            assert_eq!(back.online, status.online);
            assert_eq!(back.close, status.close);
        }
    }
    let mut status = status_of(InstanceType::Server, EpsilonState::Running);
    status.ip = None;
    assert!(decode_status(&encode_status(&status)).unwrap().ip.is_none());
}

#[test]
fn wire_names_are_the_variant_names() {
    let record = encode_status(&status_of(InstanceType::Proxy, EpsilonState::InGame));
    assert_eq!(record.t, "Proxy");
    assert_eq!(record.state, "InGame");
    assert_eq!(kind_from_name("Server"), Some(InstanceType::Server));
    assert_eq!(kind_from_name("server"), None);
    assert_eq!(state_from_name("Stopping"), Some(EpsilonState::Stopping));
    assert_eq!(state_from_name("Stopped"), None);
}

#[test]
fn wire_rejects_unknown_names() {
    let record = |t: &str, state: &str| StatusRecord {
        ip: None,
        template: "T".to_string(),
        t: t.to_string(),
        hub: false,
        content: String::new(),
        state: state.to_string(),
        slots: 1,
        online: 0,
        close: false,
    };
    assert!(decode_status(&record("Server", "Running")).is_ok());
    assert!(matches!(
        decode_status(&record("Lobby", "Running")),
        Err(EpsilonError::ParseJsonError)
    ));
    assert!(matches!(
        decode_status(&record("Server", "running")),
        Err(EpsilonError::ParseJsonError)
    ));
}

#[test]
fn pod_instance_reads_its_labels() {
    let instance = Instance::from_pod(labelled_pod(fleet_labels(None), "Running", true, false))
        .expect("a pod of the fleet");
    assert!(instance.is_valid());
    assert_eq!(instance.get_name(), "T-abc");
    assert_eq!(instance.get_template_name(), Some("T"));
    assert_eq!(instance.get_instance_type(), Some(InstanceType::Server));
    assert_eq!(instance.get_instance_slots(), Some(20));
    assert_eq!(instance.get_available_slots(15), Some(5));
    let json = instance.to_json(Some(4)).unwrap();
    assert_eq!(json.name, "T-abc");
    assert_eq!(json.template, "T");
    assert_eq!(json.state, EpsilonState::Running);
    assert_eq!(json.slots, 20);
    assert_eq!(json.online_count, 4);
    assert_eq!(instance.to_json(None).unwrap().online_count, 0);
}

#[test]
fn pod_without_the_default_label_is_no_instance() {
    let labels = vec![Label::get_template_label("T")];
    assert!(Instance::from_pod(labelled_pod(labels, "Running", true, false)).is_none());
}

#[test]
fn pod_instance_with_unreadable_labels() {
    let labels = vec![
        Label::get_default_label(),
        Label::new(Label::INSTANCE_TYPE_LABEL, "lobby"),
        Label::new(Label::SLOTS_LABEL, "many"),
    ];
    let instance = Instance::from_pod(labelled_pod(labels, "Running", true, false)).unwrap();
    assert_eq!(instance.get_instance_type(), None);
    assert_eq!(instance.get_instance_slots(), None);
    assert_eq!(instance.get_template_name(), None);
    assert_eq!(instance.get_available_slots(1), None);
    assert!(instance.to_json(None).is_none());
}

#[test]
fn pod_instance_state_follows_pod_and_labels() {
    let state = |labels: Vec<Label>, phase: &str, ready: bool, deleting: bool| {
        Instance::from_pod(labelled_pod(labels, phase, ready, deleting)).unwrap().get_state()
    };
    assert_eq!(state(fleet_labels(None), "Running", true, false), EpsilonState::Running);
    assert_eq!(state(fleet_labels(Some(false)), "Running", true, false), EpsilonState::Running);
    assert_eq!(state(fleet_labels(Some(true)), "Running", true, false), EpsilonState::InGame);
    assert_eq!(state(fleet_labels(Some(true)), "Running", true, true), EpsilonState::InGame);
    assert_eq!(state(fleet_labels(Some(true)), "Running", false, false), EpsilonState::Starting);
    assert_eq!(state(fleet_labels(None), "Pending", false, false), EpsilonState::Starting);
    assert_eq!(state(fleet_labels(None), "Pending", true, false), EpsilonState::Starting);
    assert_eq!(state(fleet_labels(None), "Running", false, true), EpsilonState::Stopping);
    assert_eq!(state(fleet_labels(None), "Succeeded", false, false), EpsilonState::Stopping);
    assert_eq!(state(fleet_labels(None), "Failed", false, false), EpsilonState::Starting);
}

#[test]
fn pod_instance_listing() {
    let make = |phase: &str, ready: bool| {
        Instance::from_pod(labelled_pod(fleet_labels(None), phase, ready, false)).unwrap()
    };
    let running = make("Running", true);
    let failed = make("Failed", false);
    let unknown = make("Unknown", false);
    let done = make("Succeeded", false);
    assert!(failed.is_failed());
    assert!(unknown.is_failed());
    assert!(!running.is_failed());
    assert!(done.is_succeeded());
    assert!(!failed.is_succeeded());
    assert!(lists(&running, None, false));
    assert!(!lists(&failed, None, false));
    assert!(lists(&failed, None, true));
    assert!(lists(&running, Some(EpsilonState::Running), false));
    assert!(!lists(&running, Some(EpsilonState::Starting), true));
    assert!(lists(&failed, Some(EpsilonState::Starting), false));
}

#[test]
fn pod_labels_are_looked_up_by_key() {
    let labels = vec![Label::new("a", "1"), Label::new("b", "2"), Label::new("a", "3")];
    assert_eq!(find_label(&labels, "a"), Some("1"));
    assert_eq!(find_label(&labels, "b"), Some("2"));
    assert_eq!(find_label(&labels, "c"), None);
    let made = Instance::creation_labels(&Template {
        name: "hub".to_string(),
        parent: String::new(),
        t: InstanceType::Server,
        slots: 100,
        resources: Resources {
            minimum: ResourcesInfo { cpu: 1, ram: 1 },
            maximum: ResourcesInfo { cpu: 1, ram: 1 },
        },
    });
    assert_eq!(
        Label::concat(&made),
        "epsilon.fr/instance=server,epsilon.fr/template=hub,epsilon.fr/slots=100"
    );
}
