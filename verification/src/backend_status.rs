//! Which backends are configured and reachable, and how the reachability
//! of Home Assistant is tracked over time.
use vstd::prelude::*;

use crate::auth::scopes::required_scope;
use crate::auth::scopes::Scope;
use crate::text::starts_with;
use crate::z2m::client::has_prefix;

verus! {

/// The model of the backend status.
pub struct StatusModel {
    pub ha_available: Option<bool>,
    pub z2m_configured: bool,
}

/// What the backends are known to be: Home Assistant's reachability where
/// it is configured, and whether Zigbee2MQTT is configured.
pub struct BackendStatus {
    ha_available: Option<bool>,
    z2m_configured: bool,
}

impl View for BackendStatus {
    type V = StatusModel;

    closed spec fn view(&self) -> StatusModel {
        StatusModel { ha_available: self.ha_available, z2m_configured: self.z2m_configured }
    }
}

/// What one health check of Home Assistant leads to.
pub struct HealthStep {
    /// `Some(true)` where Home Assistant came back, `Some(false)` where it
    /// went away, `None` where nothing changed.
    pub change: Option<bool>,
    /// The seconds to wait before the next check.
    pub next_check_secs: u64,
}

/// Whether a tool belongs to Home Assistant.
pub open spec fn is_ha_tool_name(t: Seq<char>) -> bool {
    has_prefix(t, "ha_"@)
}

/// Whether a tool belongs to Zigbee2MQTT.
pub open spec fn is_z2m_tool_name(t: Seq<char>) -> bool {
    has_prefix(t, "z2m_"@)
}

/// Whether the backend of `tool` is available: Home Assistant's tools go
/// by its reachability, Zigbee2MQTT's are not known here, other tools
/// always are.
pub open spec fn backend_available(m: StatusModel, tool: Seq<char>) -> Option<bool> {
    if is_ha_tool_name(tool) {
        m.ha_available
    } else if is_z2m_tool_name(tool) {
        None
    } else {
        Some(true)
    }
}

/// The overall health.
#[derive(Debug, Clone, Copy, PartialEq, Eq, Structural)]
pub enum Health {
    /// Every configured backend is reachable.
    Healthy,
    /// Some configured backend is down, and some is up.
    Degraded,
    /// Every configured backend is down.
    Unavailable,
}

/// The overall health from each backend's reachability, `None` for a
/// backend that is not configured.
pub open spec fn health_of(ha: Option<bool>, z2m: Option<bool>) -> Health {
    let up = (if ha == Some(true) { 1int } else { 0 }) + (if z2m == Some(true) { 1int } else { 0 });
    let down = (if ha == Some(false) { 1int } else { 0 }) + (if z2m == Some(false) {
        1int
    } else {
        0
    });
    if down == 0 {
        Health::Healthy
    } else if up == 0 {
        Health::Unavailable
    } else {
        Health::Degraded
    }
}

impl BackendStatus {
    /// The status of the configured backends before any check: Home
    /// Assistant, where configured, counts as unreachable until a check
    /// succeeds.
    pub fn new(ha_configured: bool, z2m_configured: bool) -> (r: BackendStatus)
        ensures
            r@.ha_available == (if ha_configured {
                Some(false)
            } else {
                None
            }),
            r@.z2m_configured == z2m_configured,
    {
        BackendStatus {
            ha_available: if ha_configured {
                Some(false)
            } else {
                None
            },
            z2m_configured,
        }
    }

    /// Whether Home Assistant was reachable at the last check; `None`
    /// where it is not configured.
    pub fn ha_available(&self) -> (r: Option<bool>)
        ensures
            r == self@.ha_available,
    {
        self.ha_available
    }

    /// Whether Zigbee2MQTT is available, given whether its broker
    /// connection is up; `None` where it is not configured.
    pub fn z2m_available(&self, connected: bool) -> (r: Option<bool>)
        ensures
            r == (if self@.z2m_configured {
                Some(connected)
            } else {
                None
            }),
    {
        if self.z2m_configured {
            Some(connected)
        } else {
            None
        }
    }

    /// Whether Home Assistant is configured.
    pub fn ha_configured(&self) -> (r: bool)
        ensures
            r == self@.ha_available is Some,
    {
        self.ha_available.is_some()
    }

    /// Whether Zigbee2MQTT is configured.
    pub fn z2m_configured(&self) -> (r: bool)
        ensures
            r == self@.z2m_configured,
    {
        self.z2m_configured
    }

    /// Whether the backend that serves `tool_name` is available.
    pub fn tool_backend_available(&self, tool_name: &str) -> (r: Option<bool>)
        ensures
            r == backend_available(self@, tool_name@),
    {
        if starts_with(tool_name, "ha_") {
            self.ha_available
        } else if starts_with(tool_name, "z2m_") {
            None
        } else {
            Some(true)
        }
    }

    /// Records the outcome `ok` of a health check of Home Assistant: the
    /// new reachability, whether it changed, and when to check next, soon
    /// while it is down. Nothing is recorded where it is not configured.
    pub fn record_ha_check(&mut self, ok: bool) -> (r: HealthStep)
        ensures
            final(self)@.z2m_configured == old(self)@.z2m_configured,
            final(self)@.ha_available == (if old(self)@.ha_available is Some {
                Some(ok)
            } else {
                None
            }),
            r.change == (match old(self)@.ha_available {
                Some(was) => if was != ok {
                    Some(ok)
                } else {
                    None
                },
                None => None,
            }),
            r.next_check_secs == (if ok {
                30u64
            } else {
                5u64
            }),
    {
        let change = match self.ha_available {
            Some(was) => {
                self.ha_available = Some(ok);
                if was != ok {
                    Some(ok)
                } else {
                    None
                }
            },
            None => None,
        };
        HealthStep {
            change,
            next_check_secs: if ok {
                30
            } else {
                5
            },
        }
    }

    /// The overall health, given whether Zigbee2MQTT is connected where it
    /// is configured.
    pub fn health(&self, z2m_connected: bool) -> (r: Health)
        ensures
            r == health_of(
                self@.ha_available,
                if self@.z2m_configured {
                    Some(z2m_connected)
                } else {
                    None
                },
            ),
    {
        let z2m: Option<bool> = if self.z2m_configured {
            Some(z2m_connected)
        } else {
            None
        };
        let mut up: u8 = 0;
        let mut down: u8 = 0;
        match self.ha_available {
            Some(true) => up = up + 1,
            Some(false) => down = down + 1,
            None => {},
        }
        match z2m {
            Some(true) => up = up + 1,
            Some(false) => down = down + 1,
            None => {},
        }
        if down == 0 {
            Health::Healthy
        } else if up == 0 {
            Health::Unavailable
        } else {
            Health::Degraded
        }
    }
}

/// The word that reports a health.
pub open spec fn health_word(h: Health) -> Seq<char> {
    match h {
        Health::Healthy => "ok"@,
        Health::Degraded => "degraded"@,
        Health::Unavailable => "unavailable"@,
    }
}

impl Health {
    /// The word that reports this health.
    pub fn as_str(&self) -> (r: &'static str)
        ensures
            r@ == health_word(*self),
    {
        match self {
            Health::Healthy => "ok",
            Health::Degraded => "degraded",
            Health::Unavailable => "unavailable",
        }
    }
}

/// The health is `ok` when every configured backend is reachable,
/// `unavailable` when every configured backend is down and at least one is
/// configured, and `degraded` when some are up and some down.
pub proof fn law_health_reports_backends(ha: Option<bool>, z2m: Option<bool>)
    ensures
        health_of(ha, z2m) == Health::Healthy <==> (ha != Some(false) && z2m != Some(false)),
        health_of(ha, z2m) == Health::Unavailable <==> ((ha == Some(false) || z2m == Some(false))
            && ha != Some(true) && z2m != Some(true)),
        health_of(ha, z2m) == Health::Degraded <==> ((ha == Some(false) || z2m == Some(false)) && (
        ha == Some(true) || z2m == Some(true))),
{
}

/// Every tool that a Home Assistant scope guards is served by Home
/// Assistant, and every tool that a Zigbee2MQTT scope guards by
/// Zigbee2MQTT: the availability check and the scope check agree on which
/// backend a tool belongs to.
pub proof fn law_tools_routed_to_their_backend(m: StatusModel, tool: Seq<char>)
    ensures
        (required_scope(tool) == Some(Scope::HaRead) || required_scope(tool) == Some(
            Scope::HaControl,
        )) ==> backend_available(m, tool) == m.ha_available,
        (required_scope(tool) == Some(Scope::Z2mRead) || required_scope(tool) == Some(
            Scope::Z2mControl,
        )) ==> backend_available(m, tool) is None,
{
    reveal_strlit("ha_");
    reveal_strlit("z2m_");
    reveal_strlit("ha_entity.get_state");
    reveal_strlit("ha_entity.list");
    reveal_strlit("ha_entity.search");
    reveal_strlit("ha_area.get_status");
    reveal_strlit("ha_area.list");
    reveal_strlit("ha_todo.get_items");
    reveal_strlit("ha_light.turn_on");
    reveal_strlit("ha_light.turn_off");
    reveal_strlit("ha_light.set_brightness");
    reveal_strlit("ha_light.turn_on_in_area");
    reveal_strlit("ha_light.turn_off_in_area");
    reveal_strlit("ha_todo.add_item");
    reveal_strlit("ha_todo.update_item");
    reveal_strlit("ha_todo.remove_item");
    reveal_strlit("ha_service.call");
    reveal_strlit("z2m_device.list");
    reveal_strlit("z2m_device.get_state");
    reveal_strlit("z2m_group.list");
    reveal_strlit("z2m_bridge.info");
    reveal_strlit("z2m_device.set");
    reveal_strlit("z2m_device.rename");
    reveal_strlit("z2m_group.add");
    reveal_strlit("z2m_bridge.permit_join");
    reveal_strlit("z2m_bridge.networkmap");
    if required_scope(tool) is Some {
        assert(tool.len() > 4);
        assert(tool.subrange(0, 3) =~= seq![tool[0], tool[1], tool[2]]);
        assert(tool.subrange(0, 4) =~= seq![tool[0], tool[1], tool[2], tool[3]]);
        assert("ha_"@ =~= seq!['h', 'a', '_']);
        assert("z2m_"@ =~= seq!['z', '2', 'm', '_']);
    }
}

} // verus!
