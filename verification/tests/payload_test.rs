use smarthome_mcp::config::Z2mConfig;
use smarthome_mcp::util::parse_jinja_list;
use smarthome_mcp::z2m::client::mqtt_credentials;
use smarthome_mcp::z2m::payload::collect_exposed_fields;
use smarthome_mcp::z2m::payload::exposed_field;
use smarthome_mcp::z2m::payload::join_strings;
use smarthome_mcp::z2m::payload::validate_payload;
use smarthome_mcp::z2m::payload::Expose;
use smarthome_mcp::z2m::payload::ExposeDef;
use smarthome_mcp::z2m::payload::ExposedField;
use smarthome_mcp::z2m::payload::PayloadMember;

fn strings(v: &[&str]) -> Vec<String> {
    v.iter().map(|s| s.to_string()).collect()
}

fn def(name: Option<&str>, values: Option<&[&str]>) -> ExposeDef {
    ExposeDef { name: name.map(str::to_string), values: values.map(strings) }
}

/// A light exposing `state` (ON/OFF) and `brightness` as features.
fn light(features: Vec<ExposeDef>) -> Vec<ExposedField> {
    collect_exposed_fields(&[Expose { def: def(None, None), features: Some(features) }])
}

fn member(key: &str, text: Option<&str>, range_errors: &[&str]) -> PayloadMember {
    PayloadMember { key: key.to_string(), text: text.map(str::to_string), range_errors: strings(range_errors) }
}

#[test]
fn validate_payload_valid() {
    let fields = light(vec![def(Some("state"), Some(&["ON", "OFF"])), def(Some("brightness"), None)]);
    let members = vec![member("state", Some("ON"), &[]), member("brightness", None, &[])];
    assert!(validate_payload(&fields, Some(members)).is_ok());
}

#[test]
fn validate_payload_unknown_field() {
    let fields = light(vec![def(Some("state"), Some(&["ON", "OFF"]))]);
    let errors = validate_payload(&fields, Some(vec![member("bogus", Some("value"), &[])])).unwrap_err();
    assert!(errors[0].contains("unknown field 'bogus'"));
    assert_eq!(errors, vec!["unknown field 'bogus'. Available: state".to_string()]);
}

#[test]
fn validate_payload_out_of_range() {
    let fields = light(vec![def(Some("brightness"), None)]);
    let members = vec![member("brightness", None, &["'brightness' must be <= 254, got 300"])];
    let errors = validate_payload(&fields, Some(members)).unwrap_err();
    assert!(errors[0].contains("must be <= 254"));
}

#[test]
fn validate_payload_invalid_enum() {
    let fields = light(vec![def(Some("state"), Some(&["ON", "OFF"]))]);
    let errors = validate_payload(&fields, Some(vec![member("state", Some("MAYBE"), &[])])).unwrap_err();
    assert!(errors[0].contains("must be one of"));
    assert_eq!(errors, vec!["'state' must be one of [ON, OFF], got 'MAYBE'".to_string()]);
}

#[test]
fn payload_not_an_object() {
    let fields = light(vec![]);
    assert_eq!(validate_payload(&fields, None), Err(vec!["payload must be a JSON object".to_string()]));
}

#[test]
fn payload_errors_in_order() {
    let fields = light(vec![def(Some("state"), Some(&["ON", "OFF"])), def(Some("brightness"), None)]);
    let members = vec![
        member("state", Some("DIM"), &[]),
        member("color", None, &[]),
        member("brightness", None, &["low", "high"]),
        member("mode", Some("x"), &["ignored for unknown keys"]),
    ];
    let errors = validate_payload(&fields, Some(members)).unwrap_err();
    assert_eq!(
        errors,
        strings(&[
            "unknown field 'color'. Available: state, brightness",
            "unknown field 'mode'. Available: state, brightness",
            "'state' must be one of [ON, OFF], got 'DIM'",
            "low",
            "high",
        ])
    );
}

#[test]
fn later_definition_counts() {
    let exposes = [
        Expose { def: def(Some("state"), Some(&["A"])), features: Some(vec![def(Some("state"), Some(&["B"])), def(None, None)]) },
        Expose { def: def(None, None), features: None },
        Expose { def: def(Some("state"), None), features: None },
    ];
    let fields = collect_exposed_fields(&exposes);
    let names: Vec<&str> = fields.iter().map(|f| f.name.as_str()).collect();
    assert_eq!(names, vec!["state", "state", "state"]);
    assert_eq!((fields[0].expose, fields[0].feature), (0, Some(0)));
    assert_eq!((fields[1].expose, fields[1].feature), (0, None));
    assert_eq!((fields[2].expose, fields[2].feature), (2, None));
    assert_eq!(exposed_field(&fields, "state"), Some(2));
    assert_eq!(exposed_field(&fields, "other"), None);
    // The last definition lists no values, so any string passes.
    assert!(validate_payload(&fields, Some(vec![member("state", Some("Z"), &[])])).is_ok());
}

#[test]
fn join_strings_separates() {
    assert_eq!(join_strings(&strings(&[]), ", "), "");
    assert_eq!(join_strings(&strings(&["a"]), ", "), "a");
    assert_eq!(join_strings(&strings(&["a", "b", "c"]), "-"), "a-b-c");
}

fn z2m(user: Option<&str>, pass: Option<&str>) -> Z2mConfig {
    Z2mConfig {
        mqtt_host: "mqtt://localhost".to_string(),
        mqtt_user: user.map(str::to_string),
        mqtt_pass: pass.map(str::to_string),
        base_topic: "zigbee2mqtt".to_string(),
    }
}

#[test]
fn credentials_need_both() {
    assert_eq!(mqtt_credentials(&z2m(Some("u"), Some("p"))), Some(("u".to_string(), "p".to_string())));
    assert_eq!(mqtt_credentials(&z2m(Some("u"), None)), None);
    assert_eq!(mqtt_credentials(&z2m(None, Some("p"))), None);
    assert_eq!(mqtt_credentials(&z2m(None, None)), None);
}

#[test]
fn printed_list_reads_back() {
    assert_eq!(parse_jinja_list("['kitchen', 'living room', 'x']"), strings(&["kitchen", "living room", "x"]));
    assert_eq!(parse_jinja_list("['a b']"), strings(&["a b"]));
}
