//! The Zigbee2MQTT client's state and rules: where the broker is, which
//! topics it listens to, what each incoming topic means, and the cache of
//! what Zigbee2MQTT has reported.
use vstd::prelude::*;

use serde_json::Value;

use crate::config::Z2mConfig;
use crate::json::json_member;
use crate::json::json_parses;
use crate::json::json_text;
use crate::json::parse_json;
use crate::table::NameTable;
use crate::text::chars_of;
use crate::text::ends_with;
use crate::text::has_char;
use crate::text::join2;
use crate::text::join3;
use crate::text::parse_u16_range;
use crate::text::parse_u16_spec;
use crate::text::starts_with;
use crate::text::str_eq;
use crate::text::tail_from;

verus! {

/// A device as Zigbee2MQTT lists it on `bridge/devices`.
#[derive(Debug, Clone)]
pub struct Z2mDevice {
    pub ieee_address: String,
    pub friendly_name: String,
    pub device_type: String,
    pub definition: Option<DeviceDefinition>,
    pub model_id: Option<String>,
    pub manufacturer: Option<String>,
    pub description: Option<String>,
}

/// What a device model is and what it exposes.
#[derive(Debug, Clone)]
pub struct DeviceDefinition {
    pub model: Option<String>,
    pub vendor: Option<String>,
    pub description: Option<String>,
    pub exposes: Vec<Value>,
}

/// A group as Zigbee2MQTT lists it on `bridge/groups`.
#[derive(Debug, Clone)]
pub struct Z2mGroup {
    pub id: u32,
    pub friendly_name: String,
    pub members: Vec<GroupMember>,
}

/// A device endpoint in a group.
#[derive(Debug, Clone)]
pub struct GroupMember {
    pub ieee_address: String,
    pub endpoint: u32,
}

/// Zigbee2MQTT's answer to a bridge request.
#[derive(Debug, Clone)]
pub struct BridgeResponse {
    pub status: String,
    pub data: Value,
    pub error: Option<String>,
}

/// What can go wrong talking to Zigbee2MQTT.
#[derive(Debug)]
pub enum Z2mError {
    Mqtt(String),
    Parse(String),
    Timeout,
}

/// The model of [`Z2mError`].
pub enum Z2mErrorModel {
    Mqtt(Seq<char>),
    Parse(Seq<char>),
    Timeout,
}

impl View for Z2mError {
    type V = Z2mErrorModel;

    open spec fn view(&self) -> Z2mErrorModel {
        match self {
            Z2mError::Mqtt(m) => Z2mErrorModel::Mqtt(m@),
            Z2mError::Parse(m) => Z2mErrorModel::Parse(m@),
            Z2mError::Timeout => Z2mErrorModel::Timeout,
        }
    }
}

/// Whether `p` begins `s`.
pub open spec fn has_prefix(s: Seq<char>, p: Seq<char>) -> bool {
    p.len() <= s.len() && s.subrange(0, p.len() as int) == p
}

/// Whether `p` ends `s`.
pub open spec fn has_suffix(s: Seq<char>, p: Seq<char>) -> bool {
    p.len() <= s.len() && s.subrange(s.len() - p.len(), s.len() as int) == p
}

/// The position of the last `c` in `s`.
pub open spec fn last_index_of(s: Seq<char>, c: char) -> Option<int>
    decreases s.len(),
{
    if s.len() == 0 {
        None
    } else if s.last() == c {
        Some(s.len() - 1)
    } else {
        last_index_of(s.drop_last(), c)
    }
}

/// The broker address without its `mqtt://` or `tcp://` scheme.
pub open spec fn without_scheme(url: Seq<char>) -> Seq<char> {
    if has_prefix(url, "mqtt://"@) {
        url.subrange(7, url.len() as int)
    } else if has_prefix(url, "tcp://"@) {
        url.subrange(6, url.len() as int)
    } else {
        url
    }
}

/// What a broker URL means: host and port, the port following the last
/// `:` and 1883 where there is none; a port that is no number is an error
/// naming it.
pub open spec fn mqtt_url_spec(url: Seq<char>) -> Result<(Seq<char>, u16), Z2mErrorModel> {
    let u = without_scheme(url);
    match last_index_of(u, ':') {
        Some(k) => {
            let p = u.subrange(k + 1, u.len() as int);
            match parse_u16_spec(p) {
                Some(port) => Ok((u.subrange(0, k), port)),
                None => Err(Z2mErrorModel::Parse("invalid MQTT port: "@ + p)),
            }
        },
        None => Ok((u, 1883)),
    }
}

proof fn lemma_last_index_none(s: Seq<char>, c: char, j: int)
    requires
        0 <= j <= s.len(),
        forall|i: int| j <= i < s.len() ==> s[i] != c,
    ensures
        last_index_of(s, c) == last_index_of(s.subrange(0, j), c),
    decreases s.len() - j,
{
    if j < s.len() {
        assert(s.drop_last() =~= s.subrange(0, s.len() - 1));
        lemma_last_index_none(s.drop_last(), c, j);
        assert(s.drop_last().subrange(0, j) =~= s.subrange(0, j));
    } else {
        assert(s.subrange(0, j) =~= s);
    }
}

/// Splits a broker URL such as `mqtt://localhost:1883` into host and port.
pub fn parse_mqtt_url(url: &str) -> (r: Result<(String, u16), Z2mError>)
    ensures
        match r {
            Ok((h, p)) => mqtt_url_spec(url@) == Ok::<(Seq<char>, u16), Z2mErrorModel>((h@, p)),
            Err(e) => mqtt_url_spec(url@) == Err::<(Seq<char>, u16), Z2mErrorModel>(e@),
        },
{
    let skip: usize = if starts_with(url, "mqtt://") {
        7
    } else if starts_with(url, "tcp://") {
        6
    } else {
        0
    };
    proof {
        reveal_strlit("mqtt://");
        reveal_strlit("tcp://");
    }
    let rest = tail_from(url, skip);
    assert(rest@ == without_scheme(url@)) by {
        if skip == 0 {
            assert(url@.subrange(0, url@.len() as int) =~= url@);
        }
    };
    let v = chars_of(rest.as_str());
    let mut k = v.len();
    while k > 0 && v[k - 1] != ':'
        invariant
            k <= v.len(),
            v@ == rest@,
            forall|i: int| k <= i < v.len() ==> v@[i] != ':',
        decreases k,
    {
        k = k - 1;
    }
    proof {
        lemma_last_index_none(v@, ':', k as int);
    }
    if k == 0 {
        assert(v@.subrange(0, 0) =~= Seq::<char>::empty());
        assert(last_index_of(v@, ':') is None);
        return Ok((rest, 1883));
    }
    let colon = k - 1;
    assert(v@.subrange(0, k as int).drop_last() =~= v@.subrange(0, colon as int));
    assert(last_index_of(v@, ':') == Some(colon as int));
    let port_text = rest.as_str().substring_char(colon + 1, v.len());
    match parse_u16_range(&v, colon + 1, v.len()) {
        Some(port) => {
            let host = String::from_str(rest.as_str().substring_char(0, colon));
            Ok((host, port))
        },
        None => Err(Z2mError::Parse(join2("invalid MQTT port: ", port_text))),
    }
}

/// The broker credentials of `config`: user and password, given only
/// where both are configured.
pub fn mqtt_credentials(config: &Z2mConfig) -> (r: Option<(String, String)>)
    ensures
        match r {
            Some((u, p)) => config.mqtt_user matches Some(cu) && config.mqtt_pass matches Some(cp)
                && u@ == cu@ && p@ == cp@,
            None => config.mqtt_user is None || config.mqtt_pass is None,
        },
{
    match (&config.mqtt_user, &config.mqtt_pass) {
        (Some(u), Some(p)) => Some((u.clone(), p.clone())),
        _ => None,
    }
}

/// What a topic that the client receives carries.
pub enum TopicKind {
    /// The device list.
    Devices,
    /// The group list.
    Groups,
    /// Bridge information.
    Info,
    /// The response to the bridge request of this name.
    BridgeResponse(String),
    /// The availability of this device.
    Availability(String),
    /// The state of this device.
    DeviceState(String),
    /// Nothing the client keeps.
    Other,
}

/// The model of [`TopicKind`].
pub enum TopicModel {
    Devices,
    Groups,
    Info,
    BridgeResponse(Seq<char>),
    Availability(Seq<char>),
    DeviceState(Seq<char>),
    Other,
}

impl View for TopicKind {
    type V = TopicModel;

    open spec fn view(&self) -> TopicModel {
        match self {
            TopicKind::Devices => TopicModel::Devices,
            TopicKind::Groups => TopicModel::Groups,
            TopicKind::Info => TopicModel::Info,
            TopicKind::BridgeResponse(s) => TopicModel::BridgeResponse(s@),
            TopicKind::Availability(s) => TopicModel::Availability(s@),
            TopicKind::DeviceState(s) => TopicModel::DeviceState(s@),
            TopicKind::Other => TopicModel::Other,
        }
    }
}

/// The meaning of `topic` under the base topic `base`, the first rule that
/// fits deciding: the three bridge lists; a bridge response, named by the
/// rest of the topic; `<device>/availability`; a device's own topic,
/// whose name holds no `/`; anything else.
pub open spec fn topic_kind(base: Seq<char>, topic: Seq<char>) -> TopicModel {
    let dev_prefix = base + "/"@;
    let resp_prefix = base + "/bridge/response/"@;
    let rest = topic.subrange(dev_prefix.len() as int, topic.len() as int);
    if topic == base + "/bridge/devices"@ {
        TopicModel::Devices
    } else if topic == base + "/bridge/groups"@ {
        TopicModel::Groups
    } else if topic == base + "/bridge/info"@ {
        TopicModel::Info
    } else if has_prefix(topic, resp_prefix) {
        TopicModel::BridgeResponse(topic.subrange(resp_prefix.len() as int, topic.len() as int))
    } else if has_prefix(topic, dev_prefix) && has_suffix(rest, "/availability"@) {
        TopicModel::Availability(rest.subrange(0, rest.len() - "/availability"@.len()))
    } else if has_prefix(topic, dev_prefix) && !rest.contains('/') {
        TopicModel::DeviceState(rest)
    } else {
        TopicModel::Other
    }
}

/// Whether an availability report says the device is online: its `state`
/// member is the string `online`.
pub fn is_online(state: Option<&str>) -> (r: bool)
    ensures
        r == (state matches Some(s) && s@ == "online"@),
{
    match state {
        Some(s) => str_eq(s, "online"),
        None => false,
    }
}

/// A message that Zigbee2MQTT published, its payload read according to
/// what its topic carries.
pub enum Z2mMessage {
    /// A new device list.
    Devices(Vec<Z2mDevice>),
    /// A new group list.
    Groups(Vec<Z2mGroup>),
    /// New bridge information.
    Info(Value),
    /// The answer to the bridge request of this name.
    BridgeResponse(String, BridgeResponse),
    /// An availability report of this device, with its `state` member
    /// where that is a string.
    Availability(String, Option<String>),
    /// A state report of this device.
    DeviceState(String, Value),
}

/// What an availability report says: `None` where the payload is not
/// JSON; otherwise its `state` member where that is a string.
pub fn availability_state(payload: &[u8]) -> (r: Option<Option<String>>)
    ensures
        r is Some <==> json_parses(payload@),
{
    match parse_json(payload) {
        Some(v) => match json_member(&v, "state") {
            Some(s) => Some(json_text(s)),
            None => Some(None),
        },
        None => None,
    }
}

/// What the caller still has to do with a published message: nothing, or
/// read its payload as the device list, the group list, or the response
/// to the bridge request of this name, and hand that to
/// [`Z2mClient::handle_message`].
pub enum PayloadNeed {
    Done,
    Devices,
    Groups,
    BridgeResponse(String),
}

/// The model of [`PayloadNeed`].
pub enum PayloadNeedModel {
    Done,
    Devices,
    Groups,
    BridgeResponse(Seq<char>),
}

impl View for PayloadNeed {
    type V = PayloadNeedModel;

    open spec fn view(&self) -> PayloadNeedModel {
        match self {
            PayloadNeed::Done => PayloadNeedModel::Done,
            PayloadNeed::Devices => PayloadNeedModel::Devices,
            PayloadNeed::Groups => PayloadNeedModel::Groups,
            PayloadNeed::BridgeResponse(c) => PayloadNeedModel::BridgeResponse(c@),
        }
    }
}

/// The model of the client: its broker, its base topic, and the cache.
pub struct Z2mModel {
    pub base_topic: Seq<char>,
    pub host: Seq<char>,
    pub port: u16,
    pub devices: Seq<Z2mDevice>,
    pub groups: Seq<Z2mGroup>,
    pub bridge_info: Option<Value>,
    pub device_states: Map<Seq<char>, Value>,
    pub availability: Map<Seq<char>, bool>,
    pub connected: bool,
}

/// A Zigbee2MQTT client: where its broker is, and what it has heard.
pub struct Z2mClient {
    base_topic: String,
    host: String,
    port: u16,
    devices: Vec<Z2mDevice>,
    groups: Vec<Z2mGroup>,
    bridge_info: Option<Value>,
    device_states: NameTable<Value>,
    availability: NameTable<bool>,
    connected: bool,
}

impl View for Z2mClient {
    type V = Z2mModel;

    closed spec fn view(&self) -> Z2mModel {
        Z2mModel {
            base_topic: self.base_topic@,
            host: self.host@,
            port: self.port,
            devices: self.devices@,
            groups: self.groups@,
            bridge_info: self.bridge_info,
            device_states: self.device_states@,
            availability: self.availability@,
            connected: self.connected,
        }
    }
}

/// The model after a state report of `name`.
pub open spec fn with_state(m: Z2mModel, name: Seq<char>, state: Value) -> Z2mModel {
    Z2mModel { device_states: m.device_states.insert(name, state), ..m }
}

/// The model after new bridge information.
pub open spec fn with_info(m: Z2mModel, info: Value) -> Z2mModel {
    Z2mModel { bridge_info: Some(info), ..m }
}

/// The cache after a state report of `name` with `payload`: a JSON
/// payload becomes the device's state, any other changes nothing.
pub open spec fn took_state(before: Z2mModel, after: Z2mModel, name: Seq<char>, payload: Seq<u8>) -> bool {
    if json_parses(payload) {
        exists|v: Value| after == #[trigger] with_state(before, name, v)
    } else {
        after == before
    }
}

/// The cache after bridge information `payload`: a JSON payload becomes
/// the bridge information, any other changes nothing.
pub open spec fn took_info(before: Z2mModel, after: Z2mModel, payload: Seq<u8>) -> bool {
    if json_parses(payload) {
        exists|v: Value| after == #[trigger] with_info(before, v)
    } else {
        after == before
    }
}

/// The cache after an availability report of `name` with `payload`: for
/// a JSON payload the device is online exactly when its `state` member is
/// the string `online`; any other payload changes nothing.
pub open spec fn took_availability(before: Z2mModel, after: Z2mModel, name: Seq<char>, payload: Seq<u8>) -> bool {
    if json_parses(payload) {
        exists|state: Option<Seq<char>>| after == #[trigger] with_availability(
            before,
            name,
            reports_online(state),
        )
    } else {
        after == before
    }
}

/// Whether an availability report's `state` member says online.
pub open spec fn reports_online(state: Option<Seq<char>>) -> bool {
    state == Some("online"@)
}

/// The view of an optional string.
pub open spec fn opt_seq(s: Option<String>) -> Option<Seq<char>> {
    match s {
        Some(x) => Some(x@),
        None => None,
    }
}

/// The model after an availability report of `name`.
pub open spec fn with_availability(m: Z2mModel, name: Seq<char>, online: bool) -> Z2mModel {
    Z2mModel { availability: m.availability.insert(name, online), ..m }
}

/// The friendly name that the first device in `devices` with that name
/// has, and its position.
pub open spec fn first_named(devices: Seq<Z2mDevice>, name: Seq<char>, i: int) -> Option<int>
    decreases devices.len() - i,
{
    if i < 0 || i >= devices.len() {
        None
    } else if devices[i].friendly_name@ == name {
        Some(i)
    } else {
        first_named(devices, name, i + 1)
    }
}

/// What a device exposes: the exposes of the first device of that name,
/// none where it has no definition or no such device exists.
pub open spec fn exposes_of(devices: Seq<Z2mDevice>, name: Seq<char>) -> Option<Seq<Value>> {
    match first_named(devices, name, 0) {
        Some(k) => match devices[k].definition {
            Some(d) => Some(d.exposes@),
            None => None,
        },
        None => None,
    }
}

impl Z2mClient {
    /// A client for the broker and base topic of `config`, with nothing
    /// heard yet; fails where the broker URL's port is no number.
    pub fn new(config: &Z2mConfig) -> (r: Result<Z2mClient, Z2mError>)
        ensures
            match r {
                Ok(c) => mqtt_url_spec(config.mqtt_host@) == Ok::<
                    (Seq<char>, u16),
                    Z2mErrorModel,
                >((c@.host, c@.port)) && c@.base_topic == config.base_topic@ && c@.devices.len()
                    == 0 && c@.groups.len() == 0 && c@.bridge_info is None && c@.device_states
                    == Map::<Seq<char>, Value>::empty() && c@.availability == Map::<
                    Seq<char>,
                    bool,
                >::empty() && !c@.connected,
                Err(e) => mqtt_url_spec(config.mqtt_host@) == Err::<
                    (Seq<char>, u16),
                    Z2mErrorModel,
                >(e@),
            },
    {
        let (host, port) = match parse_mqtt_url(config.mqtt_host.as_str()) {
            Ok(hp) => hp,
            Err(e) => return Err(e),
        };
        Ok(
            Z2mClient {
                base_topic: config.base_topic.clone(),
                host,
                port,
                devices: Vec::new(),
                groups: Vec::new(),
                bridge_info: None,
                device_states: NameTable::new(),
                availability: NameTable::new(),
                connected: false,
            },
        )
    }

    /// The base topic.
    pub fn base_topic(&self) -> (r: &str)
        ensures
            r@ == self@.base_topic,
    {
        self.base_topic.as_str()
    }

    /// The broker's host.
    pub fn host(&self) -> (r: &str)
        ensures
            r@ == self@.host,
    {
        self.host.as_str()
    }

    /// The broker's port.
    pub fn port(&self) -> (r: u16)
        ensures
            r == self@.port,
    {
        self.port
    }

    /// The topics the client subscribes to: the bridge's device list,
    /// groups, info, state and responses, and every device's availability.
    pub fn subscription_topics(&self) -> (r: Vec<String>)
        ensures
            r@.len() == 6,
            r@[0]@ == self@.base_topic + "/bridge/devices"@,
            r@[1]@ == self@.base_topic + "/bridge/groups"@,
            r@[2]@ == self@.base_topic + "/bridge/info"@,
            r@[3]@ == self@.base_topic + "/bridge/state"@,
            r@[4]@ == self@.base_topic + "/bridge/response/#"@,
            r@[5]@ == self@.base_topic + "/+/availability"@,
    {
        let b = self.base_topic.as_str();
        let mut v: Vec<String> = Vec::new();
        v.push(join2(b, "/bridge/devices"));
        v.push(join2(b, "/bridge/groups"));
        v.push(join2(b, "/bridge/info"));
        v.push(join2(b, "/bridge/state"));
        v.push(join2(b, "/bridge/response/#"));
        v.push(join2(b, "/+/availability"));
        v
    }

    /// The topic on which `device_name` reports its state.
    pub fn state_topic(&self, device_name: &str) -> (r: String)
        ensures
            r@ == self@.base_topic + "/"@ + device_name@,
    {
        join3(self.base_topic.as_str(), "/", device_name)
    }

    /// The topic that asks `device_name` to report its state.
    pub fn get_topic(&self, device_name: &str) -> (r: String)
        ensures
            r@ == self@.base_topic + "/"@ + device_name@ + "/get"@,
    {
        let mut t = join3(self.base_topic.as_str(), "/", device_name);
        t.append("/get");
        t
    }

    /// The topic that sets the state of `device_name`.
    pub fn set_topic(&self, device_name: &str) -> (r: String)
        ensures
            r@ == self@.base_topic + "/"@ + device_name@ + "/set"@,
    {
        let mut t = join3(self.base_topic.as_str(), "/", device_name);
        t.append("/set");
        t
    }

    /// The topic of the bridge request `command`.
    pub fn bridge_request_topic(&self, command: &str) -> (r: String)
        ensures
            r@ == self@.base_topic + "/bridge/request/"@ + command@,
    {
        join3(self.base_topic.as_str(), "/bridge/request/", command)
    }

    /// What `topic` carries.
    pub fn classify_topic(&self, topic: &str) -> (r: TopicKind)
        ensures
            r@ == topic_kind(self@.base_topic, topic@),
    {
        let b = self.base_topic.as_str();
        let devices = join2(b, "/bridge/devices");
        let groups = join2(b, "/bridge/groups");
        let info = join2(b, "/bridge/info");
        let resp_prefix = join2(b, "/bridge/response/");
        let dev_prefix = join2(b, "/");
        if str_eq(topic, devices.as_str()) {
            return TopicKind::Devices;
        }
        if str_eq(topic, groups.as_str()) {
            return TopicKind::Groups;
        }
        if str_eq(topic, info.as_str()) {
            return TopicKind::Info;
        }
        if starts_with(topic, resp_prefix.as_str()) {
            let n = resp_prefix.as_str().unicode_len();
            return TopicKind::BridgeResponse(tail_from(topic, n));
        }
        if starts_with(topic, dev_prefix.as_str()) {
            let n = dev_prefix.as_str().unicode_len();
            let rest = tail_from(topic, n);
            if ends_with(rest.as_str(), "/availability") {
                let len = rest.as_str().unicode_len();
                proof {
                    reveal_strlit("/availability");
                }
                let name = String::from_str(rest.as_str().substring_char(0, len - 13));
                return TopicKind::Availability(name);
            }
            if !has_char(rest.as_str(), '/') {
                return TopicKind::DeviceState(rest);
            }
        }
        TopicKind::Other
    }

    /// Whether the broker connection is up.
    pub fn is_connected(&self) -> (r: bool)
        ensures
            r == self@.connected,
    {
        self.connected
    }

    /// Records whether the broker connection is up.
    pub fn set_connected(&mut self, up: bool)
        ensures
            final(self)@ == (Z2mModel { connected: up, ..old(self)@ }),
    {
        self.connected = up;
    }

    /// The devices last listed.
    pub fn get_devices(&self) -> (r: &[Z2mDevice])
        ensures
            r@ == self@.devices,
    {
        self.devices.as_slice()
    }

    /// Replaces the device list.
    pub fn set_devices(&mut self, devices: Vec<Z2mDevice>)
        ensures
            final(self)@ == (Z2mModel { devices: devices@, ..old(self)@ }),
    {
        self.devices = devices;
    }

    /// The groups last listed.
    pub fn get_groups(&self) -> (r: &[Z2mGroup])
        ensures
            r@ == self@.groups,
    {
        self.groups.as_slice()
    }

    /// Replaces the group list.
    pub fn set_groups(&mut self, groups: Vec<Z2mGroup>)
        ensures
            final(self)@ == (Z2mModel { groups: groups@, ..old(self)@ }),
    {
        self.groups = groups;
    }

    /// The bridge information last reported.
    pub fn get_bridge_info(&self) -> (r: Option<&Value>)
        ensures
            match r {
                Some(v) => self@.bridge_info == Some(*v),
                None => self@.bridge_info is None,
            },
    {
        match &self.bridge_info {
            Some(v) => Some(v),
            None => None,
        }
    }

    /// Records the bridge information.
    pub fn set_bridge_info(&mut self, info: Value)
        ensures
            final(self)@ == (Z2mModel { bridge_info: Some(info), ..old(self)@ }),
    {
        self.bridge_info = Some(info);
    }

    /// The state last reported by `device_name`.
    pub fn get_device_state(&self, device_name: &str) -> (r: Option<&Value>)
        ensures
            match r {
                Some(v) => self@.device_states.contains_key(device_name@) && *v
                    == self@.device_states[device_name@],
                None => !self@.device_states.contains_key(device_name@),
            },
    {
        self.device_states.get(device_name)
    }

    /// Records the state that `device_name` reported.
    pub fn record_device_state(&mut self, device_name: String, state: Value)
        ensures
            final(self)@ == with_state(old(self)@, device_name@, state),
    {
        self.device_states.insert(device_name, state);
    }

    /// Whether `device_name` was last reported online.
    pub fn get_device_availability(&self, device_name: &str) -> (r: Option<bool>)
        ensures
            match r {
                Some(b) => self@.availability.contains_key(device_name@) && b
                    == self@.availability[device_name@],
                None => !self@.availability.contains_key(device_name@),
            },
    {
        match self.availability.get(device_name) {
            Some(b) => Some(*b),
            None => None,
        }
    }

    /// Records whether `device_name` is online.
    pub fn record_availability(&mut self, device_name: String, online: bool)
        ensures
            final(self)@ == with_availability(old(self)@, device_name@, online),
    {
        self.availability.insert(device_name, online);
    }

    /// Takes in what Zigbee2MQTT published: lists, bridge information,
    /// availability and state replace what the cache held; a bridge
    /// response changes nothing and is handed back, with the name of the
    /// request it answers, for whoever waits on it.
    pub fn handle_message(&mut self, msg: Z2mMessage) -> (r: Option<(String, BridgeResponse)>)
        ensures
            match msg {
                Z2mMessage::Devices(d) => r is None && final(self)@ == (Z2mModel {
                    devices: d@,
                    ..old(self)@
                }),
                Z2mMessage::Groups(g) => r is None && final(self)@ == (Z2mModel {
                    groups: g@,
                    ..old(self)@
                }),
                Z2mMessage::Info(v) => r is None && final(self)@ == (Z2mModel {
                    bridge_info: Some(v),
                    ..old(self)@
                }),
                Z2mMessage::BridgeResponse(cmd, resp) => final(self)@ == old(self)@ && (r matches Some(
                    (c, x),
                ) && c@ == cmd@ && x == resp),
                Z2mMessage::Availability(name, state) => r is None && final(self)@
                    == with_availability(
                    old(self)@,
                    name@,
                    state matches Some(s) && s@ == "online"@,
                ),
                Z2mMessage::DeviceState(name, v) => r is None && final(self)@ == with_state(
                    old(self)@,
                    name@,
                    v,
                ),
            },
    {
        match msg {
            Z2mMessage::Devices(d) => {
                self.set_devices(d);
                None
            },
            Z2mMessage::Groups(g) => {
                self.set_groups(g);
                None
            },
            Z2mMessage::Info(v) => {
                self.set_bridge_info(v);
                None
            },
            Z2mMessage::BridgeResponse(cmd, resp) => Some((cmd, resp)),
            Z2mMessage::Availability(name, state) => {
                let online = match &state {
                    Some(s) => is_online(Some(s.as_str())),
                    None => false,
                };
                self.record_availability(name, online);
                None
            },
            Z2mMessage::DeviceState(name, v) => {
                self.record_device_state(name, v);
                None
            },
        }
    }

    /// Takes in a state report of `name`: a JSON payload becomes the
    /// device's state, replacing what was cached, and is handed back;
    /// any other payload changes nothing.
    pub fn apply_state_payload(&mut self, name: String, payload: &[u8]) -> (r: Option<Value>)
        ensures
            took_state(old(self)@, final(self)@, name@, payload@),
            r is Some <==> json_parses(payload@),
            r matches Some(v) ==> final(self)@ == with_state(old(self)@, name@, v),
    {
        match parse_json(payload) {
            Some(v) => {
                let kept = v.clone();
                let _ = self.handle_message(Z2mMessage::DeviceState(name, v));
                Some(kept)
            },
            None => None,
        }
    }

    /// Takes in bridge information: a JSON payload becomes the bridge
    /// information; any other payload changes nothing.
    pub fn apply_info_payload(&mut self, payload: &[u8]) -> (r: Option<Value>)
        ensures
            took_info(old(self)@, final(self)@, payload@),
            r is Some <==> json_parses(payload@),
            r matches Some(v) ==> final(self)@ == with_info(old(self)@, v),
    {
        match parse_json(payload) {
            Some(v) => {
                let kept = v.clone();
                let _ = self.handle_message(Z2mMessage::Info(v));
                assert(self@ == with_info(old(self)@, kept));
                Some(kept)
            },
            None => None,
        }
    }

    /// Takes in an availability report of `name`: for a JSON payload the
    /// `state` member it read is handed back, and the device is recorded
    /// online exactly when that is the string `online`; any other payload
    /// changes nothing.
    pub fn apply_availability_payload(&mut self, name: String, payload: &[u8]) -> (r: Option<
        Option<String>,
    >)
        ensures
            took_availability(old(self)@, final(self)@, name@, payload@),
            r is Some <==> json_parses(payload@),
            r matches Some(st) ==> final(self)@ == with_availability(
                old(self)@,
                name@,
                reports_online(opt_seq(st)),
            ),
    {
        match availability_state(payload) {
            Some(state) => {
                let ghost st = opt_seq(state);
                let read = match &state {
                    Some(s) => Some(s.clone()),
                    None => None,
                };
                assert(opt_seq(read) == st);
                let _ = self.handle_message(Z2mMessage::Availability(name, state));
                assert(final(self)@ == with_availability(old(self)@, name@, reports_online(st)));
                Some(read)
            },
            None => None,
        }
    }

    /// Takes in a message published on `topic`: lists and bridge
    /// responses are left to the caller to read, other payloads are taken
    /// in here as their topic says, and topics the client does not keep
    /// change nothing.
    pub fn handle_publish(&mut self, topic: &str, payload: &[u8]) -> (r: PayloadNeed)
        ensures
            topic_kind(old(self)@.base_topic, topic@) is Devices ==> r@ == PayloadNeedModel::Devices
                && final(self)@ == old(self)@,
            topic_kind(old(self)@.base_topic, topic@) is Groups ==> r@ == PayloadNeedModel::Groups
                && final(self)@ == old(self)@,
            topic_kind(old(self)@.base_topic, topic@) matches TopicModel::BridgeResponse(c) ==> r@
                == PayloadNeedModel::BridgeResponse(c) && final(self)@ == old(self)@,
            topic_kind(old(self)@.base_topic, topic@) is Other ==> r@ == PayloadNeedModel::Done
                && final(self)@ == old(self)@,
            topic_kind(old(self)@.base_topic, topic@) is Info ==> r@ == PayloadNeedModel::Done
                && took_info(old(self)@, final(self)@, payload@),
            topic_kind(old(self)@.base_topic, topic@) matches TopicModel::Availability(name) ==> r@
                == PayloadNeedModel::Done && took_availability(old(self)@, final(self)@, name, payload@),
            topic_kind(old(self)@.base_topic, topic@) matches TopicModel::DeviceState(name) ==> r@
                == PayloadNeedModel::Done && took_state(old(self)@, final(self)@, name, payload@),
    {
        match self.classify_topic(topic) {
            TopicKind::Devices => PayloadNeed::Devices,
            TopicKind::Groups => PayloadNeed::Groups,
            TopicKind::BridgeResponse(c) => PayloadNeed::BridgeResponse(c),
            TopicKind::Info => {
                let _ = self.apply_info_payload(payload);
                PayloadNeed::Done
            },
            TopicKind::Availability(name) => {
                let _ = self.apply_availability_payload(name, payload);
                PayloadNeed::Done
            },
            TopicKind::DeviceState(name) => {
                let _ = self.apply_state_payload(name, payload);
                PayloadNeed::Done
            },
            TopicKind::Other => PayloadNeed::Done,
        }
    }

    /// Reacts to the broker connection coming up or failing: records it,
    /// and after a failure asks for a retry after this many seconds.
    pub fn on_connection_event(&mut self, up: bool) -> (retry_secs: Option<u64>)
        ensures
            final(self)@ == (Z2mModel { connected: up, ..old(self)@ }),
            retry_secs == (if up {
                None::<u64>
            } else {
                Some(5u64)
            }),
    {
        self.set_connected(up);
        if up {
            None
        } else {
            Some(5)
        }
    }

    /// The exposes of the first device in `devices` named `device_name`,
    /// where it has a definition.
    pub fn find_device_exposes(&self, devices: &[Z2mDevice], device_name: &str) -> (r: Option<Vec<Value>>)
        ensures
            match r {
                Some(v) => exposes_of(devices@, device_name@) == Some(v@),
                None => exposes_of(devices@, device_name@) is None,
            },
    {
        let mut i: usize = 0;
        while i < devices.len()
            invariant
                i <= devices.len(),
                first_named(devices@, device_name@, 0) == first_named(
                    devices@,
                    device_name@,
                    i as int,
                ),
            decreases devices.len() - i,
        {
            if str_eq(devices[i].friendly_name.as_str(), device_name) {
                return match &devices[i].definition {
                    Some(d) => {
                        let e = d.exposes.clone();
                        assert(e@ =~= d.exposes@);
                        Some(e)
                    },
                    None => None,
                };
            }
            i = i + 1;
        }
        None
    }
}

/// A device's own topic is read back as that device's state, for a device
/// name without `/`.
pub proof fn law_state_topic_round_trip(base: Seq<char>, name: Seq<char>)
    requires
        !name.contains('/'),
    ensures
        topic_kind(base, base + "/"@ + name) == TopicModel::DeviceState(name),
{
    reveal_strlit("/");
    reveal_strlit("/bridge/devices");
    reveal_strlit("/bridge/groups");
    reveal_strlit("/bridge/info");
    reveal_strlit("/bridge/response/");
    reveal_strlit("/availability");
    let topic = base + "/"@ + name;
    let b = base.len() as int;
    assert(topic.subrange(0, b + 1) =~= base + "/"@);
    let rest = topic.subrange(b + 1, topic.len() as int);
    assert(rest =~= name);
    if name.len() > 6 {
        assert(topic[b + 7] == name[6]);
        assert(name[6] != '/');
    }
    if topic == base + "/bridge/devices"@ {
        assert(topic[b + 7] == '/');
    }
    if topic == base + "/bridge/groups"@ {
        assert(topic[b + 7] == '/');
    }
    if topic == base + "/bridge/info"@ {
        assert(topic[b + 7] == '/');
    }
    if has_prefix(topic, base + "/bridge/response/"@) {
        assert(topic.subrange(0, b + 17)[b + 7] == '/');
    }
    if has_suffix(rest, "/availability"@) {
        assert(rest.subrange(rest.len() - 13, rest.len() as int)[0] == '/');
        assert(name[name.len() - 13] == '/');
    }
}

/// The response to a bridge request is routed by the request's name.
pub proof fn law_bridge_response_routed(base: Seq<char>, command: Seq<char>)
    ensures
        topic_kind(base, base + "/bridge/response/"@ + command) == TopicModel::BridgeResponse(
            command,
        ),
{
    reveal_strlit("/bridge/devices");
    reveal_strlit("/bridge/groups");
    reveal_strlit("/bridge/info");
    reveal_strlit("/bridge/response/");
    let topic = base + "/bridge/response/"@ + command;
    let b = base.len() as int;
    assert(topic.subrange(0, b + 17) =~= base + "/bridge/response/"@);
    assert(topic.subrange(b + 17, topic.len() as int) =~= command);
}

/// A device's availability topic is read back as that device's
/// availability, for a device name without `/`.
pub proof fn law_availability_topic_round_trip(base: Seq<char>, name: Seq<char>)
    requires
        !name.contains('/'),
    ensures
        topic_kind(base, base + "/"@ + name + "/availability"@) == TopicModel::Availability(name),
{
    reveal_strlit("/");
    reveal_strlit("/bridge/devices");
    reveal_strlit("/bridge/groups");
    reveal_strlit("/bridge/info");
    reveal_strlit("/bridge/response/");
    reveal_strlit("/availability");
    let topic = base + "/"@ + name + "/availability"@;
    let b = base.len() as int;
    let n = name.len() as int;
    assert(topic.subrange(0, b + 1) =~= base + "/"@);
    let rest = topic.subrange(b + 1, topic.len() as int);
    assert(rest =~= name + "/availability"@);
    assert(rest.subrange(rest.len() - 13, rest.len() as int) =~= "/availability"@);
    assert(rest.subrange(0, rest.len() - 13) =~= name);
    assert(topic[b + 1 + n] == '/');
    assert(topic[b + 2 + n] == 'a');
    assert forall|i: int| 0 <= i < n implies #[trigger] name[i] != '/' && topic[b + 1 + i] == name[i] by {
        assert(topic[b + 1 + i] == name[i]);
    }
    if topic == base + "/bridge/devices"@ {
        assert(topic[b + 7] == '/');
        assert(n == 1);
        assert(topic[b + 2] == 'r');
    }
    if topic == base + "/bridge/groups"@ {
        assert(n == 0);
        assert(topic[b + 1] == 'b');
    }
    if topic == base + "/bridge/info"@ {
        assert(topic.len() == b + 12);
    }
    if has_prefix(topic, base + "/bridge/response/"@) {
        let p = topic.subrange(0, b + 17);
        assert(p[b + 7] == '/');
        assert(topic[b + 7] == '/');
        assert(n == 6);
        assert(p[b + 8] == 'r');
        assert(topic[b + 8] == 'r');
    }
}

/// A reported state is what the cache then gives for that device; other
/// devices keep theirs.
pub proof fn law_device_state_read_after_write(m: Z2mModel, name: Seq<char>, state: Value, other: Seq<char>)
    ensures
        with_state(m, name, state).device_states.contains_key(name),
        with_state(m, name, state).device_states[name] == state,
        other != name ==> with_state(m, name, state).device_states.contains_key(other)
            == m.device_states.contains_key(other),
        other != name ==> with_state(m, name, state).device_states[other] == m.device_states[other],
{
}

/// A reported availability is what the cache then gives for that device;
/// other devices keep theirs.
pub proof fn law_availability_read_after_write(m: Z2mModel, name: Seq<char>, online: bool, other: Seq<char>)
    ensures
        with_availability(m, name, online).availability.contains_key(name),
        with_availability(m, name, online).availability[name] == online,
        other != name ==> with_availability(m, name, online).availability.contains_key(other)
            == m.availability.contains_key(other),
        other != name ==> with_availability(m, name, online).availability[other]
            == m.availability[other],
{
}

/// An availability report records the device online only when its state
/// is the string `online`: `offline`, any other string, or no string
/// records it offline; and the latest report is what counts.
pub proof fn law_availability_follows_report(
    m: Z2mModel,
    name: Seq<char>,
    earlier: Option<Seq<char>>,
    state: Option<Seq<char>>,
)
    ensures
        state == Some("online"@) ==> with_availability(
            with_availability(m, name, reports_online(earlier)),
            name,
            reports_online(state),
        ).availability[name],
        state != Some("online"@) ==> !with_availability(
            with_availability(m, name, reports_online(earlier)),
            name,
            reports_online(state),
        ).availability[name],
        state == Some("offline"@) ==> !with_availability(m, name, reports_online(state)).availability[name],
{
    reveal_strlit("offline");
    reveal_strlit("online");
    assert("offline"@ != "online"@) by {
        assert("offline"@[1] != "online"@[1]);
    };
}

/// Of two state reports of one device, the second is what the cache then
/// holds for it, whatever the first was; other devices keep theirs.
pub proof fn law_latest_state_report_wins(
    m: Z2mModel,
    name: Seq<char>,
    first: Value,
    second: Value,
    other: Seq<char>,
)
    ensures
        with_state(with_state(m, name, first), name, second).device_states[name] == second,
        with_state(with_state(m, name, first), name, second).device_states.contains_key(name),
        other != name ==> with_state(with_state(m, name, first), name, second).device_states.contains_key(other)
            == m.device_states.contains_key(other),
        other != name ==> with_state(with_state(m, name, first), name, second).device_states[other]
            == m.device_states[other],
{
}

} // verus!
