use std::collections::HashMap;

use smarthome_mcp::backend_status::BackendStatus;
use smarthome_mcp::backend_status::Health;
use smarthome_mcp::config::default_all_scopes;
use smarthome_mcp::config::default_base_topic;
use smarthome_mcp::config::parse_port;
use smarthome_mcp::config::Config;
use smarthome_mcp::config::EnvOverrides;
use smarthome_mcp::config::HaConfig;
use smarthome_mcp::config::ServerConfig;
use smarthome_mcp::config::Z2mConfig;
use smarthome_mcp::ha::client::area_entities_template;
use smarthome_mcp::ha::client::area_name_template;
use smarthome_mcp::ha::client::areas_template;
use smarthome_mcp::ha::client::entity_meta_template;
use smarthome_mcp::ha::client::filter_states_by_domain;
use smarthome_mcp::ha::client::HaEntityState;
use smarthome_mcp::ha::HaClient;
use smarthome_mcp::server::ping_reply;
use smarthome_mcp::table::NameTable;
use smarthome_mcp::util::parse_jinja_list;
use smarthome_mcp::z2m::client::is_online;
use smarthome_mcp::z2m::client::parse_mqtt_url;
use smarthome_mcp::z2m::client::DeviceDefinition;
use smarthome_mcp::z2m::client::TopicKind;
use smarthome_mcp::z2m::client::BridgeResponse;
use smarthome_mcp::z2m::client::Z2mDevice;
use smarthome_mcp::z2m::client::Z2mMessage;
use smarthome_mcp::z2m::client::PayloadNeed;
use smarthome_mcp::z2m::Z2mClient;
use smarthome_mcp::z2m::Z2mError;

// ---- jinja lists ----

#[test]
fn parse_empty_list() {
    assert_eq!(parse_jinja_list("[]"), Vec::<String>::new());
}

#[test]
fn parse_single_quoted_list() {
    assert_eq!(parse_jinja_list("['kitchen', 'living_room']"), vec!["kitchen", "living_room"]);
}

#[test]
fn parse_double_quoted_list() {
    assert_eq!(parse_jinja_list(r#"["kitchen", "bedroom"]"#), vec!["kitchen", "bedroom"]);
}

#[test]
fn parse_with_whitespace() {
    assert_eq!(parse_jinja_list("  [ 'a' , 'b' ]  "), vec!["a", "b"]);
}

#[test]
fn parse_single_item() {
    assert_eq!(parse_jinja_list("['only']"), vec!["only"]);
}

#[test]
fn parse_jinja_list_edges() {
    assert_eq!(parse_jinja_list("  []\n"), Vec::<String>::new());
    assert_eq!(parse_jinja_list("[ ]"), Vec::<String>::new());
    assert_eq!(parse_jinja_list(""), Vec::<String>::new());
    assert_eq!(parse_jinja_list("['a',,'b',]"), vec!["a", "b"]);
    assert_eq!(parse_jinja_list("[['x']]"), vec!["x"]);
    assert_eq!(parse_jinja_list("plain"), vec!["plain"]);
    assert_eq!(parse_jinja_list("['it''s']"), vec!["it''s"]);
    assert_eq!(parse_jinja_list("['a b', \"c\"]"), vec!["a b", "c"]);
}

// ---- MQTT URLs ----

#[test]
fn parse_mqtt_url_with_scheme() {
    let (host, port) = parse_mqtt_url("mqtt://localhost:1883").unwrap();
    assert_eq!(host, "localhost");
    assert_eq!(port, 1883);
}

#[test]
fn parse_mqtt_url_without_scheme() {
    let (host, port) = parse_mqtt_url("192.168.1.100:1884").unwrap();
    assert_eq!(host, "192.168.1.100");
    assert_eq!(port, 1884);
}

#[test]
fn parse_mqtt_url_default_port() {
    let (host, port) = parse_mqtt_url("mqtt://broker.local").unwrap();
    assert_eq!(host, "broker.local");
    assert_eq!(port, 1883);
}

#[test]
fn parse_mqtt_url_tcp_and_errors() {
    let (host, port) = parse_mqtt_url("tcp://b:+8883").unwrap();
    assert_eq!((host.as_str(), port), ("b", 8883));
    let (host, port) = parse_mqtt_url("a:b:1").unwrap();
    assert_eq!((host.as_str(), port), ("a:b", 1));
    match parse_mqtt_url("mqtt://broker:notaport") {
        Err(Z2mError::Parse(m)) => assert_eq!(m, "invalid MQTT port: notaport"),
        other => panic!("unexpected {other:?}"),
    }
    assert!(matches!(parse_mqtt_url("host:65536"), Err(Z2mError::Parse(_))));
    assert!(matches!(parse_mqtt_url("host:"), Err(Z2mError::Parse(_))));
    assert!(matches!(parse_mqtt_url("host:-1"), Err(Z2mError::Parse(_))));
    assert_eq!(parse_mqtt_url("host:65535").unwrap().1, 65535);
}

// ---- port numbers ----

#[test]
fn parse_port_as_std_does() {
    for s in ["0", "80", "+80", "0080", "65535", "65536", "", "+", "-1", " 80", "80 ", "8o", "99999999999"] {
        assert_eq!(parse_port(s), s.parse::<u16>().ok(), "{s:?}");
    }
}

// ---- the Zigbee2MQTT client ----

fn z2m_config(host: &str) -> Z2mConfig {
    Z2mConfig {
        mqtt_host: host.to_string(),
        mqtt_user: None,
        mqtt_pass: None,
        base_topic: default_base_topic(),
    }
}

fn client() -> Z2mClient {
    Z2mClient::new(&z2m_config("mqtt://localhost:1883")).unwrap()
}

#[test]
fn z2m_client_new_reads_broker() {
    let c = client();
    assert_eq!(c.host(), "localhost");
    assert_eq!(c.port(), 1883);
    assert_eq!(c.base_topic(), "zigbee2mqtt");
    assert!(!c.is_connected());
    assert!(matches!(Z2mClient::new(&z2m_config("x:y")), Err(Z2mError::Parse(_))));
}

#[test]
fn z2m_topics() {
    let c = client();
    assert_eq!(
        c.subscription_topics(),
        vec![
            "zigbee2mqtt/bridge/devices",
            "zigbee2mqtt/bridge/groups",
            "zigbee2mqtt/bridge/info",
            "zigbee2mqtt/bridge/state",
            "zigbee2mqtt/bridge/response/#",
            "zigbee2mqtt/+/availability",
        ]
    );
    assert_eq!(c.state_topic("lamp"), "zigbee2mqtt/lamp");
    assert_eq!(c.get_topic("lamp"), "zigbee2mqtt/lamp/get");
    assert_eq!(c.set_topic("lamp"), "zigbee2mqtt/lamp/set");
    assert_eq!(c.bridge_request_topic("device/rename"), "zigbee2mqtt/bridge/request/device/rename");
}

#[test]
fn z2m_topic_classification() {
    let c = client();
    assert!(matches!(c.classify_topic("zigbee2mqtt/bridge/devices"), TopicKind::Devices));
    assert!(matches!(c.classify_topic("zigbee2mqtt/bridge/groups"), TopicKind::Groups));
    assert!(matches!(c.classify_topic("zigbee2mqtt/bridge/info"), TopicKind::Info));
    match c.classify_topic("zigbee2mqtt/bridge/response/device/rename") {
        TopicKind::BridgeResponse(r) => assert_eq!(r, "device/rename"),
        _ => panic!(),
    }
    match c.classify_topic("zigbee2mqtt/lamp/availability") {
        TopicKind::Availability(d) => assert_eq!(d, "lamp"),
        _ => panic!(),
    }
    match c.classify_topic("zigbee2mqtt/room/lamp/availability") {
        TopicKind::Availability(d) => assert_eq!(d, "room/lamp"),
        _ => panic!(),
    }
    match c.classify_topic("zigbee2mqtt/lamp") {
        TopicKind::DeviceState(d) => assert_eq!(d, "lamp"),
        _ => panic!(),
    }
    assert!(matches!(c.classify_topic("zigbee2mqtt/bridge/state"), TopicKind::Other));
    assert!(matches!(c.classify_topic("zigbee2mqtt/lamp/set"), TopicKind::Other));
    assert!(matches!(c.classify_topic("other/lamp"), TopicKind::Other));
}

#[test]
fn z2m_state_topic_round_trip() {
    let c = client();
    for name in ["lamp", "bridge", "kitchen sensor", ""] {
        match c.classify_topic(&c.state_topic(name)) {
            TopicKind::DeviceState(d) => assert_eq!(d, name),
            _ => panic!("{name}"),
        }
    }
}

#[test]
fn z2m_cache_read_after_write() {
    let mut c = client();
    assert!(c.get_device_state("lamp").is_none());
    c.record_device_state("lamp".to_string(), obj("state", "ON"));
    c.record_device_state("plug".to_string(), obj("state", "OFF"));
    c.record_device_state("lamp".to_string(), obj("state", "OFF"));
    assert_eq!(c.get_device_state("lamp"), Some(&obj("state", "OFF")));
    assert_eq!(c.get_device_state("plug"), Some(&obj("state", "OFF")));
    assert_eq!(c.get_device_availability("lamp"), None);
    c.record_availability("lamp".to_string(), true);
    c.record_availability("lamp".to_string(), false);
    assert_eq!(c.get_device_availability("lamp"), Some(false));
    c.set_connected(true);
    assert!(c.is_connected());
    c.set_bridge_info(obj("version", "1"));
    assert_eq!(c.get_bridge_info(), Some(&obj("version", "1")));
}

#[test]
fn availability_state() {
    assert!(is_online(Some("online")));
    assert!(!is_online(Some("offline")));
    assert!(!is_online(Some("Online")));
    assert!(!is_online(None));
}

fn obj(key: &str, value: &str) -> serde_json::Value {
    let mut m = serde_json::Map::new();
    m.insert(key.to_string(), serde_json::Value::String(value.to_string()));
    serde_json::Value::Object(m)
}

fn device(name: &str, exposes: Option<Vec<serde_json::Value>>) -> Z2mDevice {
    Z2mDevice {
        ieee_address: "0x1".to_string(),
        friendly_name: name.to_string(),
        device_type: "Router".to_string(),
        definition: exposes.map(|e| DeviceDefinition { model: None, vendor: None, description: None, exposes: e }),
        model_id: None,
        manufacturer: None,
        description: None,
    }
}

#[test]
fn find_device_exposes_first_match() {
    let mut c = client();
    let devices = vec![
        device("bare", None),
        device("lamp", Some(vec![obj("name", "state")])),
        device("lamp", Some(vec![])),
    ];
    assert_eq!(c.find_device_exposes(&devices, "lamp"), Some(vec![obj("name", "state")]));
    assert_eq!(c.find_device_exposes(&devices, "bare"), None);
    assert_eq!(c.find_device_exposes(&devices, "ghost"), None);
    c.set_devices(devices);
    assert_eq!(c.get_devices().len(), 3);
    c.set_groups(vec![]);
    assert!(c.get_groups().is_empty());
}

#[test]
fn name_table_replaces() {
    let mut t: NameTable<u32> = NameTable::new();
    t.insert("a".to_string(), 1);
    t.insert("b".to_string(), 2);
    t.insert("a".to_string(), 3);
    assert_eq!(t.len(), 2);
    assert_eq!(t.get("a"), Some(&3));
    assert_eq!(t.get("c"), None);
}

// ---- configuration ----

#[test]
fn config_defaults() {
    let c = Config::default();
    assert_eq!(c.server.port, 3000);
    assert!(c.is_open_auth());
    assert!(c.ha.is_none() && c.z2m.is_none());
    assert_eq!(ServerConfig::default().port, 3000);
    assert_eq!(default_base_topic(), "zigbee2mqtt");
    assert_eq!(default_all_scopes(), vec!["*"]);
}

fn no_env() -> EnvOverrides {
    EnvOverrides {
        port: None,
        ha_url: None,
        ha_token: None,
        z2m_mqtt_host: None,
        z2m_mqtt_user: None,
        z2m_mqtt_pass: None,
        z2m_base_topic: None,
    }
}

#[test]
fn env_overrides_replace_and_create() {
    let mut c = Config::default();
    let mut env = no_env();
    env.port = Some("8080".to_string());
    env.ha_url = Some("http://ha".to_string());
    env.ha_token = Some("tok".to_string());
    env.z2m_mqtt_host = Some("mqtt://m".to_string());
    env.z2m_mqtt_user = Some("u".to_string());
    c.apply_env_overrides(env);
    assert_eq!(c.server.port, 8080);
    let ha = c.ha.as_ref().unwrap();
    assert_eq!((ha.url.as_str(), ha.token.as_str()), ("http://ha", "tok"));
    let z = c.z2m.as_ref().unwrap();
    assert_eq!(z.mqtt_host, "mqtt://m");
    assert_eq!(z.mqtt_user.as_deref(), Some("u"));
    assert_eq!(z.mqtt_pass, None);
    assert_eq!(z.base_topic, "zigbee2mqtt");
}

#[test]
fn env_overrides_partial() {
    let mut c = Config::default();
    c.ha = Some(HaConfig { url: "http://old".to_string(), token: "old".to_string() });
    c.z2m = Some(Z2mConfig {
        mqtt_host: "old".to_string(),
        mqtt_user: Some("ou".to_string()),
        mqtt_pass: Some("op".to_string()),
        base_topic: "z2m".to_string(),
    });
    let mut env = no_env();
    env.port = Some("not-a-port".to_string());
    env.ha_url = Some("http://new".to_string());
    env.z2m_base_topic = Some("ignored".to_string());
    c.apply_env_overrides(env);
    assert_eq!(c.server.port, 3000);
    assert_eq!(c.ha.as_ref().unwrap().url, "http://old");
    assert_eq!(c.z2m.as_ref().unwrap().base_topic, "z2m");
    let mut env = no_env();
    env.z2m_mqtt_host = Some("new".to_string());
    env.z2m_mqtt_pass = Some("np".to_string());
    c.apply_env_overrides(env);
    let z = c.z2m.as_ref().unwrap();
    assert_eq!(z.mqtt_host, "new");
    assert_eq!(z.mqtt_user.as_deref(), Some("ou"));
    assert_eq!(z.mqtt_pass.as_deref(), Some("np"));
    assert_eq!(z.base_topic, "z2m");
}

// ---- Home Assistant ----

fn ha() -> HaClient {
    HaClient::new(&HaConfig { url: "http://ha.local:8123//".to_string(), token: "secret".to_string() })
}

#[test]
fn ha_urls() {
    let c = ha();
    assert_eq!(c.base_url(), "http://ha.local:8123");
    assert_eq!(c.authorization(), "Bearer secret");
    assert_eq!(c.api_url(), "http://ha.local:8123/api/");
    assert_eq!(c.states_url(), "http://ha.local:8123/api/states");
    assert_eq!(c.state_url("light.kitchen"), "http://ha.local:8123/api/states/light.kitchen");
    assert_eq!(c.service_url("light", "turn_on", false), "http://ha.local:8123/api/services/light/turn_on");
    assert_eq!(
        c.service_url("todo", "get_items", true),
        "http://ha.local:8123/api/services/todo/get_items?return_response"
    );
    assert_eq!(c.template_url(), "http://ha.local:8123/api/template");
}

#[test]
fn ha_templates() {
    assert_eq!(areas_template(), "{{ areas() | list }}");
    assert_eq!(area_name_template("kitchen"), "{{ area_name('kitchen') }}");
    assert_eq!(area_entities_template("kitchen"), "{{ area_entities('kitchen') | list }}");
    assert_eq!(entity_meta_template(&[]), None);
    let ids = vec!["light.a".to_string(), "sensor.b".to_string()];
    let expected = format!(
        r#"{{%- set ns = namespace(d={{}}) -%}}
{{%- for eid in [{id_list}] -%}}
  {{%- set ea = area_name(eid) -%}}
  {{%- set da = device_attr(eid, 'area_id') -%}}
  {{%- set dn = device_attr(eid, 'name_by_user') or device_attr(eid, 'name') -%}}
  {{%- set area = ea if ea else (area_name(da) if da else None) -%}}
  {{%- set ns.d = dict(ns.d, **{{eid: {{'area': area, 'device': dn}}}}) -%}}
{{%- endfor -%}}
{{{{ ns.d | tojson }}}}"#,
        id_list = "'light.a', 'sensor.b'"
    );
    assert_eq!(entity_meta_template(&ids).unwrap(), expected);
}

fn state(id: &str) -> HaEntityState {
    HaEntityState {
        entity_id: id.to_string(),
        state: "on".to_string(),
        attributes: HashMap::new(),
        last_changed: String::new(),
        last_updated: String::new(),
    }
}

#[test]
fn ha_states_by_domain() {
    let states = vec![state("light.a"), state("lights.b"), state("switch.c"), state("light.d"), state("light")];
    let ids: Vec<String> = filter_states_by_domain(states, "light").into_iter().map(|s| s.entity_id).collect();
    assert_eq!(ids, vec!["light.a", "light.d"]);
}

// ---- backend status ----

#[test]
fn backend_status_tracks_ha() {
    let mut s = BackendStatus::new(true, true);
    assert!(s.ha_configured() && s.z2m_configured());
    assert_eq!(s.ha_available(), Some(false));
    assert_eq!(s.tool_backend_available("ha_light.turn_on"), Some(false));
    let step = s.record_ha_check(true);
    assert_eq!(step.change, Some(true));
    assert_eq!(step.next_check_secs, 30);
    assert_eq!(s.tool_backend_available("ha_light.turn_on"), Some(true));
    assert_eq!(s.tool_backend_available("z2m_device.set"), None);
    assert_eq!(s.tool_backend_available("ping"), Some(true));
    let step = s.record_ha_check(true);
    assert_eq!(step.change, None);
    let step = s.record_ha_check(false);
    assert_eq!(step.change, Some(false));
    assert_eq!(step.next_check_secs, 5);
}

#[test]
fn backend_status_without_ha() {
    let mut s = BackendStatus::new(false, false);
    assert_eq!(s.ha_available(), None);
    assert_eq!(s.tool_backend_available("ha_entity.list"), None);
    let step = s.record_ha_check(true);
    assert_eq!(step.change, None);
    assert_eq!(s.ha_available(), None);
    assert_eq!(s.health(false), Health::Healthy);
    assert_eq!(s.z2m_available(true), None);
}

#[test]
fn z2m_availability_follows_connection() {
    let s = BackendStatus::new(false, true);
    assert_eq!(s.z2m_available(true), Some(true));
    assert_eq!(s.z2m_available(false), Some(false));
    assert_eq!(s.health(false), Health::Unavailable);
    assert_eq!(s.health(true), Health::Healthy);
}

#[test]
fn overall_health() {
    let mut s = BackendStatus::new(true, true);
    assert_eq!(s.health(false), Health::Unavailable);
    assert_eq!(s.health(true), Health::Degraded);
    s.record_ha_check(true);
    assert_eq!(s.health(true), Health::Healthy);
    assert_eq!(s.health(true).as_str(), "ok");
    assert_eq!(Health::Degraded.as_str(), "degraded");
    assert_eq!(Health::Unavailable.as_str(), "unavailable");
}

// ---- the ping tool ----

#[test]
fn ping_replies() {
    assert_eq!(ping_reply(None), "pong");
    assert_eq!(ping_reply(Some("hi")), "pong: hi");
}

#[test]
fn z2m_messages_fill_the_cache() {
    let mut c = client();
    assert!(c.handle_message(Z2mMessage::Devices(vec![device("lamp", None)])).is_none());
    assert_eq!(c.get_devices().len(), 1);
    assert_eq!(c.get_devices()[0].friendly_name, "lamp");
    assert!(c.handle_message(Z2mMessage::Groups(vec![])).is_none());
    assert!(c.get_groups().is_empty());
    assert!(c.handle_message(Z2mMessage::Info(obj("version", "2"))).is_none());
    assert_eq!(c.get_bridge_info(), Some(&obj("version", "2")));
    c.handle_message(Z2mMessage::Availability("lamp".to_string(), Some("online".to_string())));
    assert_eq!(c.get_device_availability("lamp"), Some(true));
    c.handle_message(Z2mMessage::Availability("lamp".to_string(), Some("offline".to_string())));
    assert_eq!(c.get_device_availability("lamp"), Some(false));
    c.handle_message(Z2mMessage::Availability("plug".to_string(), None));
    assert_eq!(c.get_device_availability("plug"), Some(false));
    c.handle_message(Z2mMessage::DeviceState("lamp".to_string(), obj("state", "ON")));
    assert_eq!(c.get_device_state("lamp"), Some(&obj("state", "ON")));
}

#[test]
fn z2m_bridge_response_handed_back() {
    let mut c = client();
    let resp = BridgeResponse { status: "ok".to_string(), data: obj("id", "7"), error: None };
    let out = c.handle_message(Z2mMessage::BridgeResponse("device/rename".to_string(), resp));
    let (command, got) = out.expect("a bridge response is handed back");
    assert_eq!(command, "device/rename");
    assert_eq!(got.status, "ok");
    assert_eq!(got.data, obj("id", "7"));
    assert!(got.error.is_none());
    assert!(c.get_device_state("device/rename").is_none());
}

#[test]
fn z2m_raw_payloads_fill_the_cache() {
    let mut c = client();
    assert!(matches!(c.handle_publish("zigbee2mqtt/lamp", br#"{"state": "ON"}"#), PayloadNeed::Done));
    assert_eq!(c.get_device_state("lamp"), Some(&obj("state", "ON")));
    assert!(matches!(c.handle_publish("zigbee2mqtt/lamp", b"not json"), PayloadNeed::Done));
    assert_eq!(c.get_device_state("lamp"), Some(&obj("state", "ON")));
    c.handle_publish("zigbee2mqtt/lamp/availability", br#"{"state": "online"}"#);
    assert_eq!(c.get_device_availability("lamp"), Some(true));
    c.handle_publish("zigbee2mqtt/lamp/availability", br#"{"state": 1}"#);
    assert_eq!(c.get_device_availability("lamp"), Some(false));
    c.handle_publish("zigbee2mqtt/plug/availability", b"{oops");
    assert_eq!(c.get_device_availability("plug"), None);
    c.handle_publish("zigbee2mqtt/bridge/info", br#"{"version": "2"}"#);
    assert_eq!(c.get_bridge_info(), Some(&obj("version", "2")));
    assert!(matches!(c.handle_publish("zigbee2mqtt/bridge/devices", b"[]"), PayloadNeed::Devices));
    assert!(matches!(c.handle_publish("zigbee2mqtt/bridge/groups", b"[]"), PayloadNeed::Groups));
    match c.handle_publish("zigbee2mqtt/bridge/response/device/rename", b"{}") {
        PayloadNeed::BridgeResponse(cmd) => assert_eq!(cmd, "device/rename"),
        _ => panic!("expected a bridge response"),
    }
    assert!(matches!(c.handle_publish("elsewhere/lamp", b"{}"), PayloadNeed::Done));
    assert!(c.get_device_state("elsewhere/lamp").is_none());
}

#[test]
fn availability_payloads() {
    assert_eq!(smarthome_mcp::z2m::client::availability_state(br#"{"state": "online"}"#), Some(Some("online".to_string())));
    assert_eq!(smarthome_mcp::z2m::client::availability_state(br#"{"state": false}"#), Some(None));
    assert_eq!(smarthome_mcp::z2m::client::availability_state(br#"{}"#), Some(None));
    assert_eq!(smarthome_mcp::z2m::client::availability_state(b"online"), None);
}

#[test]
fn connection_events() {
    let mut c = client();
    assert_eq!(c.on_connection_event(true), None);
    assert!(c.is_connected());
    assert_eq!(c.on_connection_event(false), Some(5));
    assert!(!c.is_connected());
}
