//! Scopes, the sets of them that a client is granted, and the scope that
//! each tool requires.
use vstd::prelude::*;

use crate::text::chars_of;
use crate::text::range_eq;
use crate::text::str_eq;

verus! {

/// A permission that a client may hold.
#[derive(Clone, Copy, Debug, PartialEq, Eq, Structural, Hash)]
pub enum Scope {
    HaRead,
    HaControl,
    Z2mRead,
    Z2mControl,
}

/// The configuration name of each scope.
pub open spec fn scope_name(s: Scope) -> Seq<char> {
    match s {
        Scope::HaRead => "ha:read"@,
        Scope::HaControl => "ha:control"@,
        Scope::Z2mRead => "z2m:read"@,
        Scope::Z2mControl => "z2m:control"@,
    }
}

/// The scope that a configuration name denotes, if any.
pub open spec fn scope_named(s: Seq<char>) -> Option<Scope> {
    if s == "ha:read"@ {
        Some(Scope::HaRead)
    } else if s == "ha:control"@ {
        Some(Scope::HaControl)
    } else if s == "z2m:read"@ {
        Some(Scope::Z2mRead)
    } else if s == "z2m:control"@ {
        Some(Scope::Z2mControl)
    } else {
        None
    }
}

impl Scope {
    /// The scope that `s` names, or `None` for any other string.
    pub fn parse(s: &str) -> (r: Option<Scope>)
        ensures
            r == scope_named(s@),
    {
        if str_eq(s, "ha:read") {
            Some(Scope::HaRead)
        } else if str_eq(s, "ha:control") {
            Some(Scope::HaControl)
        } else if str_eq(s, "z2m:read") {
            Some(Scope::Z2mRead)
        } else if str_eq(s, "z2m:control") {
            Some(Scope::Z2mControl)
        } else {
            None
        }
    }

    /// The configuration name of this scope.
    pub fn as_str(&self) -> (r: &'static str)
        ensures
            r@ == scope_name(*self),
    {
        match self {
            Scope::HaRead => "ha:read",
            Scope::HaControl => "ha:control",
            Scope::Z2mRead => "z2m:read",
            Scope::Z2mControl => "z2m:control",
        }
    }
}

/// `rest`, with `s` added where `present` holds.
pub open spec fn add_if(present: bool, s: Scope, rest: Set<Scope>) -> Set<Scope> {
    if present {
        rest.insert(s)
    } else {
        rest
    }
}

/// All four scopes.
pub open spec fn every_scope() -> Set<Scope> {
    set![Scope::HaRead, Scope::HaControl, Scope::Z2mRead, Scope::Z2mControl]
}

/// A set of scopes.
#[derive(Clone, Copy, Debug, PartialEq, Eq, Structural)]
pub struct ScopeSet {
    ha_read: bool,
    ha_control: bool,
    z2m_read: bool,
    z2m_control: bool,
}

impl View for ScopeSet {
    type V = Set<Scope>;

    closed spec fn view(&self) -> Set<Scope> {
        add_if(
            self.ha_read,
            Scope::HaRead,
            add_if(
                self.ha_control,
                Scope::HaControl,
                add_if(
                    self.z2m_read,
                    Scope::Z2mRead,
                    add_if(self.z2m_control, Scope::Z2mControl, Set::empty()),
                ),
            ),
        )
    }
}

impl ScopeSet {
    /// The empty set.
    pub fn new() -> (r: ScopeSet)
        ensures
            r@ == Set::<Scope>::empty(),
    {
        ScopeSet { ha_read: false, ha_control: false, z2m_read: false, z2m_control: false }
    }

    /// The set of all four scopes.
    pub fn full() -> (r: ScopeSet)
        ensures
            r@ == every_scope(),
    {
        let r = ScopeSet { ha_read: true, ha_control: true, z2m_read: true, z2m_control: true };
        assert(r@ =~= every_scope());
        r
    }

    /// Whether `s` is in the set.
    pub fn contains(&self, s: &Scope) -> (r: bool)
        ensures
            r == self@.contains(*s),
    {
        match s {
            Scope::HaRead => self.ha_read,
            Scope::HaControl => self.ha_control,
            Scope::Z2mRead => self.z2m_read,
            Scope::Z2mControl => self.z2m_control,
        }
    }

    /// Adds `s` to the set.
    pub fn insert(&mut self, s: Scope)
        ensures
            final(self)@ == old(self)@.insert(s),
    {
        match s {
            Scope::HaRead => self.ha_read = true,
            Scope::HaControl => self.ha_control = true,
            Scope::Z2mRead => self.z2m_read = true,
            Scope::Z2mControl => self.z2m_control = true,
        }
        assert(self@ =~= old(self)@.insert(s));
    }

    /// The number of scopes in the set.
    pub fn len(&self) -> (r: usize)
        ensures
            r as nat == self@.len(),
            self@.finite(),
    {
        let mut n: usize = 0;
        if self.z2m_control {
            n = n + 1;
        }
        if self.z2m_read {
            n = n + 1;
        }
        if self.ha_control {
            n = n + 1;
        }
        if self.ha_read {
            n = n + 1;
        }
        n
    }

    /// Whether the set is empty.
    pub fn is_empty(&self) -> (r: bool)
        ensures
            r == (self@ == Set::<Scope>::empty()),
    {
        let r = !(self.ha_read || self.ha_control || self.z2m_read || self.z2m_control);
        if !r {
            assert(self@.contains(Scope::HaRead) || self@.contains(Scope::HaControl)
                || self@.contains(Scope::Z2mRead) || self@.contains(Scope::Z2mControl));
        } else {
            assert(self@ =~= Set::<Scope>::empty());
        }
        r
    }
}

/// The views of a list of strings.
pub open spec fn string_views(strings: Seq<String>) -> Seq<Seq<char>> {
    strings.map_values(|s: String| s@)
}

/// The scopes granted by a list of scope names: all four when the
/// wildcard `*` is among them, and otherwise the scopes that the names
/// denote, names that denote none being ignored.
pub open spec fn scopes_granted(names: Seq<Seq<char>>) -> Set<Scope> {
    if names.contains("*"@) {
        every_scope()
    } else {
        Set::new(|sc: Scope| exists|i: int| 0 <= i < names.len() && scope_named(names[i]) == Some(sc))
    }
}

/// Turns a list of scope names into the set of scopes they grant.
pub fn parse_scopes(strings: &[String]) -> (r: ScopeSet)
    ensures
        r@ == scopes_granted(string_views(strings@)),
{
    let ghost names = string_views(strings@);
    let mut scopes = ScopeSet::new();
    let star = chars_of("*");
    let mut i: usize = 0;
    while i < strings.len()
        invariant
            i <= strings.len(),
            names == string_views(strings@),
            star@ == "*"@,
            forall|j: int| 0 <= j < i ==> names[j] != "*"@,
            scopes@ == Set::new(
                |sc: Scope| exists|j: int| 0 <= j < i && scope_named(names[j]) == Some(sc),
            ),
        decreases strings.len() - i,
    {
        let s = strings[i].as_str();
        let v = chars_of(s);
        assert(v@.subrange(0, v@.len() as int) =~= v@);
        if range_eq(&v, 0, v.len(), &star) {
            let all = ScopeSet::full();
            assert(names[i as int] == "*"@);
            assert(names.contains("*"@));
            return all;
        }
        let ghost before = scopes@;
        match Scope::parse(s) {
            Some(sc) => {
                scopes.insert(sc);
                assert(scopes@ =~= Set::new(
                    |c: Scope| exists|j: int| 0 <= j < i + 1 && scope_named(names[j]) == Some(c),
                )) by {
                    assert(scope_named(names[i as int]) == Some(sc));
                };
            },
            None => {
                assert(scopes@ =~= Set::new(
                    |c: Scope| exists|j: int| 0 <= j < i + 1 && scope_named(names[j]) == Some(c),
                )) by {
                    assert(scope_named(names[i as int]) == None::<Scope>);
                };
            },
        }
        i = i + 1;
    }
    assert(!names.contains("*"@));
    scopes
}

/// The tools that read Home Assistant state.
pub open spec fn is_ha_read_tool(t: Seq<char>) -> bool {
    ||| t == "ha_entity.get_state"@
    ||| t == "ha_entity.list"@
    ||| t == "ha_entity.search"@
    ||| t == "ha_area.get_status"@
    ||| t == "ha_area.list"@
    ||| t == "ha_todo.get_items"@
}

/// The tools that change Home Assistant state.
pub open spec fn is_ha_control_tool(t: Seq<char>) -> bool {
    ||| t == "ha_light.turn_on"@
    ||| t == "ha_light.turn_off"@
    ||| t == "ha_light.set_brightness"@
    ||| t == "ha_light.turn_on_in_area"@
    ||| t == "ha_light.turn_off_in_area"@
    ||| t == "ha_todo.add_item"@
    ||| t == "ha_todo.update_item"@
    ||| t == "ha_todo.remove_item"@
    ||| t == "ha_service.call"@
}

/// The tools that read Zigbee2MQTT state.
pub open spec fn is_z2m_read_tool(t: Seq<char>) -> bool {
    ||| t == "z2m_device.list"@
    ||| t == "z2m_device.get_state"@
    ||| t == "z2m_group.list"@
    ||| t == "z2m_bridge.info"@
}

/// The tools that change Zigbee2MQTT state.
pub open spec fn is_z2m_control_tool(t: Seq<char>) -> bool {
    ||| t == "z2m_device.set"@
    ||| t == "z2m_device.rename"@
    ||| t == "z2m_group.add"@
    ||| t == "z2m_bridge.permit_join"@
    ||| t == "z2m_bridge.networkmap"@
}

/// The scope that calling the tool `t` requires; `None` for a tool that
/// is not listed.
pub open spec fn required_scope(t: Seq<char>) -> Option<Scope> {
    if is_ha_read_tool(t) {
        Some(Scope::HaRead)
    } else if is_ha_control_tool(t) {
        Some(Scope::HaControl)
    } else if is_z2m_read_tool(t) {
        Some(Scope::Z2mRead)
    } else if is_z2m_control_tool(t) {
        Some(Scope::Z2mControl)
    } else {
        None
    }
}

/// Whether the characters `v` spell out `lit`.
fn is_lit(v: &Vec<char>, lit: &str) -> (r: bool)
    ensures
        r == (v@ == lit@),
{
    let w = chars_of(lit);
    assert(v@.subrange(0, v@.len() as int) =~= v@);
    range_eq(v, 0, v.len(), &w)
}

/// The scope that calling `tool_name` requires, or `None` for a tool that
/// no scope guards.
pub fn tool_required_scope(tool_name: &str) -> (r: Option<Scope>)
    ensures
        r == required_scope(tool_name@),
{
    let t = chars_of(tool_name);
    if is_lit(&t, "ha_entity.get_state") || is_lit(&t, "ha_entity.list") || is_lit(
        &t,
        "ha_entity.search",
    ) || is_lit(&t, "ha_area.get_status") || is_lit(&t, "ha_area.list") || is_lit(
        &t,
        "ha_todo.get_items",
    ) {
        Some(Scope::HaRead)
    } else if is_lit(&t, "ha_light.turn_on") || is_lit(&t, "ha_light.turn_off") || is_lit(
        &t,
        "ha_light.set_brightness",
    ) || is_lit(&t, "ha_light.turn_on_in_area") || is_lit(&t, "ha_light.turn_off_in_area")
        || is_lit(&t, "ha_todo.add_item") || is_lit(&t, "ha_todo.update_item") || is_lit(
        &t,
        "ha_todo.remove_item",
    ) || is_lit(&t, "ha_service.call") {
        Some(Scope::HaControl)
    } else if is_lit(&t, "z2m_device.list") || is_lit(&t, "z2m_device.get_state") || is_lit(
        &t,
        "z2m_group.list",
    ) || is_lit(&t, "z2m_bridge.info") {
        Some(Scope::Z2mRead)
    } else if is_lit(&t, "z2m_device.set") || is_lit(&t, "z2m_device.rename") || is_lit(
        &t,
        "z2m_group.add",
    ) || is_lit(&t, "z2m_bridge.permit_join") || is_lit(&t, "z2m_bridge.networkmap") {
        Some(Scope::Z2mControl)
    } else {
        None
    }
}

/// Each scope's configuration name parses back to that scope.
pub proof fn law_scope_names_round_trip(s: Scope)
    ensures
        scope_named(scope_name(s)) == Some(s),
{
    reveal_strlit("ha:read");
    reveal_strlit("ha:control");
    reveal_strlit("z2m:read");
    reveal_strlit("z2m:control");
    assert("ha:read"@.len() == 7);
    assert("ha:control"@.len() == 10);
    assert("z2m:read"@.len() == 8);
    assert("z2m:control"@.len() == 11);
    assert("ha:control"@ != "ha:read"@);
    assert("z2m:read"@ != "ha:read"@);
    assert("z2m:read"@ != "ha:control"@);
    assert("z2m:control"@ != "ha:read"@);
    assert("z2m:control"@ != "ha:control"@);
    assert("z2m:control"@ != "z2m:read"@);
}

/// The wildcard grants every scope, whatever else is listed.
pub proof fn law_wildcard_grants_every_scope(names: Seq<Seq<char>>)
    requires
        names.contains("*"@),
    ensures
        scopes_granted(names) == every_scope(),
{
}

/// A name that denotes no scope, and is not the wildcard, changes nothing.
pub proof fn law_unknown_names_ignored(names: Seq<Seq<char>>, extra: Seq<char>)
    requires
        scope_named(extra) is None,
        extra != "*"@,
    ensures
        scopes_granted(names.push(extra)) == scopes_granted(names),
{
    let longer = names.push(extra);
    if names.contains("*"@) {
        let i = choose|i: int| 0 <= i < names.len() && names[i] == "*"@;
        assert(longer[i] == "*"@);
    } else {
        assert(!longer.contains("*"@)) by {
            if longer.contains("*"@) {
                let i = choose|i: int| 0 <= i < longer.len() && longer[i] == "*"@;
                if i < names.len() {
                    assert(names[i] == longer[i]);
                }
            }
        }
        assert(scopes_granted(longer) =~= scopes_granted(names)) by {
            assert forall|sc: Scope| #[trigger] scopes_granted(longer).contains(sc) implies scopes_granted(
                names,
            ).contains(sc) by {
                let i = choose|i: int| 0 <= i < longer.len() && scope_named(longer[i]) == Some(sc);
                assert(i < names.len());
                assert(names[i] == longer[i]);
            }
            assert forall|sc: Scope| #[trigger] scopes_granted(names).contains(sc) implies scopes_granted(
                longer,
            ).contains(sc) by {
                let i = choose|i: int| 0 <= i < names.len() && scope_named(names[i]) == Some(sc);
                assert(names[i] == longer[i]);
            }
        }
    }
}

} // verus!
