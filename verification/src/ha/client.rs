//! Home Assistant's REST API as the client uses it: the URLs and templates
//! it sends, and what it makes of the answers.
use vstd::prelude::*;

use std::collections::HashMap;

use serde_json::Value;

use crate::config::HaConfig;
use crate::text::join2;
use crate::text::join3;
use crate::text::starts_with;
use crate::text::trim_end;
use crate::text::trim_trailing_slashes;
use crate::text::CharClass;
use crate::z2m::client::has_prefix;

verus! {

/// The state of an entity, as `GET /api/states` lists it.
#[derive(Debug, Clone)]
pub struct HaEntityState {
    pub entity_id: String,
    pub state: String,
    pub attributes: HashMap<String, Value>,
    pub last_changed: String,
    pub last_updated: String,
}

/// The area and device of an entity.
#[derive(Debug, Clone)]
pub struct EntityMeta {
    pub area: Option<String>,
    pub device: Option<String>,
}

/// The model of a Home Assistant client: its base URL and its token.
pub struct HaModel {
    pub base_url: Seq<char>,
    pub token: Seq<char>,
}

/// A Home Assistant client: the base URL, without trailing slashes, and
/// the access token.
pub struct HaClient {
    base_url: String,
    token: String,
}

impl View for HaClient {
    type V = HaModel;

    closed spec fn view(&self) -> HaModel {
        HaModel { base_url: self.base_url@, token: self.token@ }
    }
}

/// Whether an entity belongs to `domain`: its id begins `<domain>.`.
pub open spec fn in_domain(entity_id: Seq<char>, domain: Seq<char>) -> bool {
    has_prefix(entity_id, domain + "."@)
}

/// The ids of a list of entity ids, each in single quotes, joined by
/// `, `.
pub open spec fn quoted_list(ids: Seq<Seq<char>>) -> Seq<char>
    decreases ids.len(),
{
    if ids.len() == 0 {
        seq![]
    } else if ids.len() == 1 {
        "'"@ + ids[0] + "'"@
    } else {
        quoted_list(ids.drop_last()) + ", "@ + "'"@ + ids.last() + "'"@
    }
}

/// The template text before the entity ids.
pub open spec fn meta_template_head() -> Seq<char> {
    "{%- set ns = namespace(d={}) -%}\n{%- for eid in ["@
}

/// The template text after the entity ids.
pub open spec fn meta_template_tail() -> Seq<char> {
    "] -%}\n  {%- set ea = area_name(eid) -%}\n  {%- set da = device_attr(eid, 'area_id') -%}\n  {%- set dn = device_attr(eid, 'name_by_user') or device_attr(eid, 'name') -%}\n  {%- set area = ea if ea else (area_name(da) if da else None) -%}\n  {%- set ns.d = dict(ns.d, **{eid: {'area': area, 'device': dn}}) -%}\n{%- endfor -%}\n{{ ns.d | tojson }}"@
}

/// The views of a list of strings.
pub open spec fn ids_of(ids: Seq<String>) -> Seq<Seq<char>> {
    ids.map_values(|s: String| s@)
}

impl HaClient {
    /// A client for `config`: the URL without its trailing slashes.
    pub fn new(config: &HaConfig) -> (r: HaClient)
        ensures
            r@.base_url == trim_end(config.url@, CharClass::Only('/')),
            r@.token == config.token@,
    {
        HaClient { base_url: trim_trailing_slashes(config.url.as_str()), token: config.token.clone() }
    }

    /// The base URL.
    pub fn base_url(&self) -> (r: &str)
        ensures
            r@ == self@.base_url,
    {
        self.base_url.as_str()
    }

    /// The value of the `Authorization` header of every request.
    pub fn authorization(&self) -> (r: String)
        ensures
            r@ == "Bearer "@ + self@.token,
    {
        join2("Bearer ", self.token.as_str())
    }

    /// The API root, which answers when Home Assistant is reachable.
    pub fn api_url(&self) -> (r: String)
        ensures
            r@ == self@.base_url + "/api/"@,
    {
        join2(self.base_url.as_str(), "/api/")
    }

    /// The list of all entity states.
    pub fn states_url(&self) -> (r: String)
        ensures
            r@ == self@.base_url + "/api/states"@,
    {
        join2(self.base_url.as_str(), "/api/states")
    }

    /// The state of one entity.
    pub fn state_url(&self, entity_id: &str) -> (r: String)
        ensures
            r@ == self@.base_url + "/api/states/"@ + entity_id@,
    {
        join3(self.base_url.as_str(), "/api/states/", entity_id)
    }

    /// The call of `domain.service`, answered with the states it changed;
    /// or, with `with_response`, with the service's own response.
    pub fn service_url(&self, domain: &str, service: &str, with_response: bool) -> (r: String)
        ensures
            r@ == self@.base_url + "/api/services/"@ + domain@ + "/"@ + service@ + (if with_response {
                "?return_response"@
            } else {
                ""@
            }),
    {
        let mut u = join3(self.base_url.as_str(), "/api/services/", domain);
        u.append("/");
        u.append(service);
        if with_response {
            u.append("?return_response");
        } else {
            proof {
                reveal_strlit("");
            }
            assert(u@ + ""@ =~= u@);
        }
        u
    }

    /// The template renderer.
    pub fn template_url(&self) -> (r: String)
        ensures
            r@ == self@.base_url + "/api/template"@,
    {
        join2(self.base_url.as_str(), "/api/template")
    }
}

/// The template that lists all area ids.
pub fn areas_template() -> (r: String)
    ensures
        r@ == "{{ areas() | list }}"@,
{
    String::from_str("{{ areas() | list }}")
}

/// The template that gives the name of area `area_id`.
pub fn area_name_template(area_id: &str) -> (r: String)
    ensures
        r@ == "{{ area_name('"@ + area_id@ + "') }}"@,
{
    join3("{{ area_name('", area_id, "') }}")
}

/// The template that lists the entities of area `area_id`.
pub fn area_entities_template(area_id: &str) -> (r: String)
    ensures
        r@ == "{{ area_entities('"@ + area_id@ + "') | list }}"@,
{
    join3("{{ area_entities('", area_id, "') | list }}")
}

/// The template that maps each of `entity_ids` to its area and device, as
/// JSON; `None` for no ids, which need no request.
pub fn entity_meta_template(entity_ids: &[String]) -> (r: Option<String>)
    ensures
        match r {
            Some(t) => entity_ids@.len() > 0 && t@ == meta_template_head() + quoted_list(
                ids_of(entity_ids@),
            ) + meta_template_tail(),
            None => entity_ids@.len() == 0,
        },
{
    if entity_ids.len() == 0 {
        return None;
    }
    let ghost ids = ids_of(entity_ids@);
    let mut list = String::new();
    let mut i: usize = 0;
    while i < entity_ids.len()
        invariant
            i <= entity_ids.len(),
            ids == ids_of(entity_ids@),
            list@ == quoted_list(ids.take(i as int)),
        decreases entity_ids.len() - i,
    {
        assert(ids.take(i + 1).drop_last() =~= ids.take(i as int));
        if i > 0 {
            list.append(", ");
        } else {
            assert(list@ =~= Seq::<char>::empty());
        }
        list.append("'");
        list.append(entity_ids[i].as_str());
        list.append("'");
        proof {
            if i == 0 {
                assert(list@ =~= "'"@ + ids.take(1)[0] + "'"@);
            } else {
                assert(list@ =~= quoted_list(ids.take(i as int)) + ", "@ + "'"@ + ids.take(i + 1).last()
                    + "'"@);
            }
        }
        i = i + 1;
    }
    assert(ids.take(entity_ids.len() as int) =~= ids);
    let mut t = String::from_str(
        "{%- set ns = namespace(d={}) -%}\n{%- for eid in [",
    );
    t.append(list.as_str());
    t.append(
        "] -%}\n  {%- set ea = area_name(eid) -%}\n  {%- set da = device_attr(eid, 'area_id') -%}\n  {%- set dn = device_attr(eid, 'name_by_user') or device_attr(eid, 'name') -%}\n  {%- set area = ea if ea else (area_name(da) if da else None) -%}\n  {%- set ns.d = dict(ns.d, **{eid: {'area': area, 'device': dn}}) -%}\n{%- endfor -%}\n{{ ns.d | tojson }}",
    );
    Some(t)
}

/// The states of `states` whose entity belongs to `domain`, in order.
pub fn filter_states_by_domain(states: Vec<HaEntityState>, domain: &str) -> (r: Vec<HaEntityState>)
    ensures
        r@ == states@.filter(|s: HaEntityState| in_domain(s.entity_id@, domain@)),
{
    let prefix = join2(domain, ".");
    let ghost keep = |s: HaEntityState| in_domain(s.entity_id@, domain@);
    let ghost all = states@;
    let mut out: Vec<HaEntityState> = Vec::new();
    assert(all.take(0).filter(keep) =~= Seq::<HaEntityState>::empty()) by {
        reveal(Seq::filter);
    };
    for s in it: states
        invariant
            it.seq() == all,
            prefix@ == domain@ + "."@,
            keep == (|s: HaEntityState| in_domain(s.entity_id@, domain@)),
            out@ == all.take(it.index() as int).filter(keep),
    {
        let ghost k = it.index() as int;
        assert(all.take(k + 1) =~= all.take(k).push(all[k]));
        proof {
            all.take(k).lemma_filter_push(all[k], keep);
        }
        if starts_with(s.entity_id.as_str(), prefix.as_str()) {
            out.push(s);
        }
    }
    assert(all.take(all.len() as int) =~= all);
    out
}

} // verus!
