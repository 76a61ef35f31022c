//! Checking a device payload against what the device exposes: the field
//! table built from the exposes, unknown fields, allowed values, and the
//! list of errors.
use vstd::prelude::*;

use crate::config::copy_strings;
use crate::text::join2;
use crate::text::join_list;
use crate::text::str_eq;
use crate::util::views_of;

verus! {

/// What a JSON object among the exposes says, as far as the checks read
/// it: its `name` where that is a string, and the string members of its
/// `values` where that is an array.
pub struct ExposeDef {
    pub name: Option<String>,
    pub values: Option<Vec<String>>,
}

/// One entry of a device's exposes: the object itself, and its `features`
/// where that is an array.
pub struct Expose {
    pub def: ExposeDef,
    pub features: Option<Vec<ExposeDef>>,
}

/// A field that a payload may set: its name, its allowed values where
/// they are listed, and where its definition stands (the expose, and the
/// feature within it where it is one).
pub struct ExposedField {
    pub name: String,
    pub values: Option<Vec<String>>,
    pub expose: usize,
    pub feature: Option<usize>,
}

/// A member of a payload: its key, its value where that is a string, and
/// the range errors that its number raised against the field's bounds.
pub struct PayloadMember {
    pub key: String,
    pub text: Option<String>,
    pub range_errors: Vec<String>,
}

/// The views of an optional list of strings.
pub open spec fn opt_views(v: Option<Vec<String>>) -> Option<Seq<Seq<char>>> {
    match v {
        Some(x) => Some(views_of(x@)),
        None => None,
    }
}

/// The view of an optional string.
pub open spec fn opt_text(s: Option<String>) -> Option<Seq<char>> {
    match s {
        Some(x) => Some(x@),
        None => None,
    }
}

/// The model of an exposed field.
pub struct FieldModel {
    pub name: Seq<char>,
    pub values: Option<Seq<Seq<char>>>,
    pub expose: usize,
    pub feature: Option<usize>,
}

impl View for ExposedField {
    type V = FieldModel;

    open spec fn view(&self) -> FieldModel {
        FieldModel {
            name: self.name@,
            values: opt_views(self.values),
            expose: self.expose,
            feature: self.feature,
        }
    }
}

/// The model of a payload member.
pub struct MemberModel {
    pub key: Seq<char>,
    pub text: Option<Seq<char>>,
    pub range_errors: Seq<Seq<char>>,
}

impl View for PayloadMember {
    type V = MemberModel;

    open spec fn view(&self) -> MemberModel {
        MemberModel {
            key: self.key@,
            text: opt_text(self.text),
            range_errors: views_of(self.range_errors@),
        }
    }
}

/// The models of a list of fields.
pub open spec fn field_models(f: Seq<ExposedField>) -> Seq<FieldModel> {
    f.map_values(|x: ExposedField| x@)
}

/// The models of a list of members.
pub open spec fn member_models(m: Seq<PayloadMember>) -> Seq<MemberModel> {
    m.map_values(|x: PayloadMember| x@)
}

/// The field that a definition gives, where it is named.
pub open spec fn field_of(d: ExposeDef, expose: usize, feature: Option<usize>) -> Seq<FieldModel> {
    match d.name {
        Some(n) => seq![FieldModel { name: n@, values: opt_views(d.values), expose, feature }],
        None => seq![],
    }
}

/// The fields that the named features `fs` of expose `i` give, in order.
pub open spec fn feature_fields(fs: Seq<ExposeDef>, i: usize) -> Seq<FieldModel>
    decreases fs.len(),
{
    if fs.len() == 0 {
        seq![]
    } else {
        feature_fields(fs.drop_last(), i) + field_of(
            fs.last(),
            i,
            Some((fs.len() - 1) as usize),
        )
    }
}

/// The fields that expose `i` gives: its named features, then itself
/// where it is named.
pub open spec fn expose_fields(e: Expose, i: usize) -> Seq<FieldModel> {
    let features = match e.features {
        Some(fs) => feature_fields(fs@, i),
        None => seq![],
    };
    features + field_of(e.def, i, None)
}

/// The field table of a list of exposes, in the order the definitions
/// are met; where a name occurs twice, the later definition counts.
pub open spec fn fields_of(exposes: Seq<Expose>) -> Seq<FieldModel>
    decreases exposes.len(),
{
    if exposes.len() == 0 {
        seq![]
    } else {
        fields_of(exposes.drop_last()) + expose_fields(
            exposes.last(),
            (exposes.len() - 1) as usize,
        )
    }
}

/// The position of the last field named `key`: the definition that
/// counts for it.
pub open spec fn last_named(fields: Seq<FieldModel>, key: Seq<char>) -> Option<int>
    decreases fields.len(),
{
    if fields.len() == 0 {
        None
    } else if fields.last().name == key {
        Some(fields.len() - 1)
    } else {
        last_named(fields.drop_last(), key)
    }
}

proof fn lemma_last_named_bounds(fields: Seq<FieldModel>, key: Seq<char>)
    ensures
        last_named(fields, key) matches Some(k) ==> 0 <= k < fields.len() && fields[k].name
            == key,
    decreases fields.len(),
{
    if fields.len() > 0 && fields.last().name != key {
        lemma_last_named_bounds(fields.drop_last(), key);
    }
}

/// The names of a list of fields.
pub open spec fn names_of(fields: Seq<FieldModel>) -> Seq<Seq<char>> {
    fields.map_values(|f: FieldModel| f.name)
}

/// The distinct items of `s`, each where it first occurs.
pub open spec fn distinct(s: Seq<Seq<char>>) -> Seq<Seq<char>>
    decreases s.len(),
{
    if s.len() == 0 {
        seq![]
    } else {
        let d = distinct(s.drop_last());
        if d.contains(s.last()) {
            d
        } else {
            d.push(s.last())
        }
    }
}

/// A copy of an optional list of strings.
fn copy_opt_strings(v: &Option<Vec<String>>) -> (r: Option<Vec<String>>)
    ensures
        opt_views(r) == opt_views(*v),
{
    match v {
        Some(x) => Some(copy_strings(x)),
        None => None,
    }
}

/// Whether `s` is among `items`.
fn contains_str(items: &Vec<String>, s: &str) -> (r: bool)
    ensures
        r == views_of(items@).contains(s@),
{
    let mut i: usize = 0;
    while i < items.len()
        invariant
            i <= items.len(),
            forall|j: int| 0 <= j < i ==> views_of(items@)[j] != s@,
        decreases items.len() - i,
    {
        if str_eq(items[i].as_str(), s) {
            assert(views_of(items@)[i as int] == s@);
            return true;
        }
        i = i + 1;
    }
    false
}

/// The items of `items` joined with `sep` between them.
pub fn join_strings(items: &Vec<String>, sep: &str) -> (r: String)
    ensures
        r@ == join_list(views_of(items@), sep@),
{
    let ghost all = views_of(items@);
    let mut out = String::new();
    let mut i: usize = 0;
    while i < items.len()
        invariant
            i <= items.len(),
            all == views_of(items@),
            out@ == join_list(all.take(i as int), sep@),
        decreases items.len() - i,
    {
        assert(all.take(i + 1).drop_last() =~= all.take(i as int));
        if i > 0 {
            out.append(sep);
        } else {
            assert(out@ =~= Seq::<char>::empty());
        }
        out.append(items[i].as_str());
        proof {
            if i == 0 {
                assert(out@ =~= all.take(1)[0]);
            } else {
                assert(out@ =~= join_list(all.take(i as int), sep@) + sep@ + all.take(i + 1).last());
            }
        }
        i = i + 1;
    }
    assert(all.take(items.len() as int) =~= all);
    out
}

/// Appends the field that `d` gives, where it is named.
fn push_field(d: &ExposeDef, expose: usize, feature: Option<usize>, out: &mut Vec<ExposedField>)
    ensures
        field_models(final(out)@) == field_models(old(out)@) + field_of(*d, expose, feature),
{
    match &d.name {
        Some(n) => {
            out.push(
                ExposedField {
                    name: n.clone(),
                    values: copy_opt_strings(&d.values),
                    expose,
                    feature,
                },
            );
            assert(field_models(out@) =~= field_models(old(out)@) + field_of(*d, expose, feature));
        },
        None => {
            assert(field_models(out@) =~= field_models(old(out)@) + field_of(*d, expose, feature));
        },
    }
}

/// The field table of a device's exposes: each expose's named features,
/// then the expose itself where it is named.
pub fn collect_exposed_fields(exposes: &[Expose]) -> (r: Vec<ExposedField>)
    ensures
        field_models(r@) == fields_of(exposes@),
{
    let mut out: Vec<ExposedField> = Vec::new();
    let mut i: usize = 0;
    while i < exposes.len()
        invariant
            i <= exposes.len(),
            field_models(out@) == fields_of(exposes@.take(i as int)),
        decreases exposes.len() - i,
    {
        let e = &exposes[i];
        let ghost before = field_models(out@);
        assert(exposes@.take(i + 1).drop_last() =~= exposes@.take(i as int));
        match &e.features {
            Some(fs) => {
                let mut j: usize = 0;
                while j < fs.len()
                    invariant
                        j <= fs.len(),
                        field_models(out@) == before + feature_fields(fs@.take(j as int), i),
                    decreases fs.len() - j,
                {
                    assert(fs@.take(j + 1).drop_last() =~= fs@.take(j as int));
                    push_field(&fs[j], i, Some(j), &mut out);
                    assert(field_models(out@) =~= before + feature_fields(
                        fs@.take(j + 1),
                        i,
                    ));
                    j = j + 1;
                }
                assert(fs@.take(fs.len() as int) =~= fs@);
            },
            None => {
                assert(field_models(out@) =~= before + Seq::<FieldModel>::empty());
            },
        }
        push_field(&e.def, i, None, &mut out);
        assert(field_models(out@) =~= fields_of(exposes@.take(i + 1)));
        i = i + 1;
    }
    assert(exposes@.take(exposes.len() as int) =~= exposes@);
    out
}

/// The position of the field that counts for `key`: the last one of
/// that name.
pub fn exposed_field(fields: &[ExposedField], key: &str) -> (r: Option<usize>)
    ensures
        match r {
            Some(k) => last_named(field_models(fields@), key@) == Some(k as int),
            None => last_named(field_models(fields@), key@) is None,
        },
        r matches Some(k) ==> k < fields@.len() && fields@[k as int].name@ == key@,
{
    proof {
        lemma_last_named_bounds(field_models(fields@), key@);
    }
    let ghost all = field_models(fields@);
    let mut i: usize = fields.len();
    assert(all.take(i as int) =~= all);
    while i > 0
        invariant
            i <= fields.len(),
            all == field_models(fields@),
            last_named(all, key@) == last_named(all.take(i as int), key@),
        decreases i,
    {
        assert(all.take(i as int).drop_last() =~= all.take(i - 1));
        if str_eq(fields[i - 1].name.as_str(), key) {
            return Some(i - 1);
        }
        i = i - 1;
    }
    None
}

/// The error for an unknown field `key`: it names the fields there are.
pub open spec fn unknown_message(key: Seq<char>, fields: Seq<FieldModel>) -> Seq<char> {
    "unknown field '"@ + key + "'. Available: "@ + join_list(distinct(names_of(fields)), ", "@)
}

/// One error for each member whose key names no field, in order.
pub open spec fn unknown_errors(fields: Seq<FieldModel>, ms: Seq<MemberModel>) -> Seq<Seq<char>>
    decreases ms.len(),
{
    if ms.len() == 0 {
        seq![]
    } else {
        let rest = unknown_errors(fields, ms.drop_last());
        if last_named(fields, ms.last().key) is None {
            rest.push(unknown_message(ms.last().key, fields))
        } else {
            rest
        }
    }
}

/// The error for a string value that the field does not allow, where it
/// lists the values it allows.
pub open spec fn enum_errors(key: Seq<char>, f: FieldModel, text: Option<Seq<char>>) -> Seq<
    Seq<char>,
> {
    match (f.values, text) {
        (Some(allowed), Some(t)) => if allowed.contains(t) {
            seq![]
        } else {
            seq![
                "'"@ + key + "' must be one of ["@ + join_list(allowed, ", "@) + "], got '"@ + t
                    + "'"@,
            ]
        },
        _ => seq![],
    }
}

/// The errors of a member whose key names a field: its range errors,
/// then its allowed-values error.
pub open spec fn member_errors(fields: Seq<FieldModel>, m: MemberModel) -> Seq<Seq<char>> {
    match last_named(fields, m.key) {
        Some(k) => m.range_errors + enum_errors(m.key, fields[k], m.text),
        None => seq![],
    }
}

/// The errors of the members that name fields, member by member.
pub open spec fn known_errors(fields: Seq<FieldModel>, ms: Seq<MemberModel>) -> Seq<Seq<char>>
    decreases ms.len(),
{
    if ms.len() == 0 {
        seq![]
    } else {
        known_errors(fields, ms.drop_last()) + member_errors(fields, ms.last())
    }
}

/// What checking a payload gives: a payload that is no object is refused
/// with one error; otherwise the unknown-field errors come first, then
/// each known member's errors, and the payload passes exactly when there
/// are none.
pub open spec fn payload_check(fields: Seq<FieldModel>, members: Option<Seq<MemberModel>>) -> Result<
    (),
    Seq<Seq<char>>,
> {
    match members {
        None => Err(seq!["payload must be a JSON object"@]),
        Some(ms) => {
            let e = unknown_errors(fields, ms) + known_errors(fields, ms);
            if e.len() == 0 {
                Ok(())
            } else {
                Err(e)
            }
        },
    }
}

/// The distinct names of `fields`, each where it first occurs.
pub fn field_names(fields: &[ExposedField]) -> (r: Vec<String>)
    ensures
        views_of(r@) == distinct(names_of(field_models(fields@))),
{
    let ghost names = names_of(field_models(fields@));
    let mut out: Vec<String> = Vec::new();
    let mut i: usize = 0;
    while i < fields.len()
        invariant
            i <= fields.len(),
            names == names_of(field_models(fields@)),
            views_of(out@) == distinct(names.take(i as int)),
        decreases fields.len() - i,
    {
        assert(names.take(i + 1).drop_last() =~= names.take(i as int));
        assert(names.take(i + 1).last() == fields@[i as int].name@);
        if !contains_str(&out, fields[i].name.as_str()) {
            out.push(fields[i].name.clone());
            assert(views_of(out@) =~= distinct(names.take(i as int)).push(fields@[i as int].name@));
        }
        i = i + 1;
    }
    assert(names.take(fields.len() as int) =~= names);
    out
}

/// The error for `key`'s value `text` where the field allows other
/// values only.
fn push_enum_error(key: &str, values: &Option<Vec<String>>, text: &Option<String>, out: &mut Vec<String>)
    ensures
        views_of(final(out)@) == views_of(old(out)@) + enum_errors(
            key@,
            FieldModel { name: seq![], values: opt_views(*values), expose: 0, feature: None },
            opt_text(*text),
        ),
{
    match (values, text) {
        (Some(allowed), Some(t)) => {
            if contains_str(allowed, t.as_str()) {
                assert(views_of(out@) =~= views_of(old(out)@) + Seq::<Seq<char>>::empty());
            } else {
                let mut m = join2("'", key);
                m.append("' must be one of [");
                let list = join_strings(allowed, ", ");
                m.append(list.as_str());
                m.append("], got '");
                m.append(t.as_str());
                m.append("'");
                out.push(m);
                assert(views_of(out@) =~= views_of(old(out)@) + seq![m@]);
            }
        },
        _ => {
            assert(views_of(out@) =~= views_of(old(out)@) + Seq::<Seq<char>>::empty());
        },
    }
}

/// Checks a payload against the field table `fields`: `members` are the
/// payload's members in order, `None` where the payload is not an object.
pub fn validate_payload(fields: &[ExposedField], members: Option<Vec<PayloadMember>>) -> (r: Result<(), Vec<String>>)
    ensures
        match r {
            Ok(()) => payload_check(field_models(fields@), opt_members(members)) == Ok::<
                (),
                Seq<Seq<char>>,
            >(()),
            Err(v) => payload_check(field_models(fields@), opt_members(members)) == Err::<
                (),
                Seq<Seq<char>>,
            >(views_of(v@)),
        },
{
    let ms = match members {
        None => {
            let mut v: Vec<String> = Vec::new();
            v.push(String::from_str("payload must be a JSON object"));
            assert(views_of(v@) =~= seq!["payload must be a JSON object"@]);
            return Err(v);
        },
        Some(ms) => ms,
    };
    let ghost fm = field_models(fields@);
    let ghost mm = member_models(ms@);
    let names = field_names(fields);
    let available = join_strings(&names, ", ");
    let mut errors: Vec<String> = Vec::new();
    let mut i: usize = 0;
    while i < ms.len()
        invariant
            i <= ms.len(),
            fm == field_models(fields@),
            mm == member_models(ms@),
            available@ == join_list(distinct(names_of(fm)), ", "@),
            views_of(errors@) == unknown_errors(fm, mm.take(i as int)),
        decreases ms.len() - i,
    {
        assert(mm.take(i + 1).drop_last() =~= mm.take(i as int));
        assert(mm.take(i + 1).last() == ms@[i as int]@);
        if exposed_field(fields, ms[i].key.as_str()).is_none() {
            let mut m = join2("unknown field '", ms[i].key.as_str());
            m.append("'. Available: ");
            m.append(available.as_str());
            errors.push(m);
            assert(views_of(errors@) =~= unknown_errors(fm, mm.take(i as int)).push(m@));
        }
        i = i + 1;
    }
    assert(mm.take(ms.len() as int) =~= mm);
    let ghost unknown = views_of(errors@);
    let mut j: usize = 0;
    while j < ms.len()
        invariant
            j <= ms.len(),
            fm == field_models(fields@),
            mm == member_models(ms@),
            unknown == unknown_errors(fm, mm),
            views_of(errors@) == unknown + known_errors(fm, mm.take(j as int)),
        decreases ms.len() - j,
    {
        assert(mm.take(j + 1).drop_last() =~= mm.take(j as int));
        let m = &ms[j];
        assert(mm.take(j + 1).last() == m@);
        let ghost before = views_of(errors@);
        match exposed_field(fields, m.key.as_str()) {
            Some(k) => {
                let mut r: usize = 0;
                while r < m.range_errors.len()
                    invariant
                        r <= m.range_errors.len(),
                        views_of(errors@) == before + views_of(m.range_errors@).take(r as int),
                    decreases m.range_errors.len() - r,
                {
                    let e = m.range_errors[r].clone();
                    assert(e@ == views_of(m.range_errors@)[r as int]);
                    let ghost prev = errors@;
                    errors.push(e);
                    assert(views_of(errors@) =~= views_of(prev).push(e@));
                    assert(views_of(errors@) =~= before + views_of(m.range_errors@).take(r + 1));
                    r = r + 1;
                }
                assert(views_of(m.range_errors@).take(m.range_errors.len() as int) =~= views_of(
                    m.range_errors@,
                ));
                let ghost mid = views_of(errors@);
                push_enum_error(m.key.as_str(), &fields[k].values, &m.text, &mut errors);
                assert(fm[k as int].values == opt_views(fields@[k as int].values));
                assert(views_of(errors@) =~= before + member_errors(fm, m@));
            },
            None => {
                assert(views_of(errors@) =~= before + member_errors(fm, m@));
            },
        }
        assert(views_of(errors@) =~= unknown + known_errors(fm, mm.take(j + 1)));
        j = j + 1;
    }
    assert(mm.take(ms.len() as int) =~= mm);
    if errors.len() == 0 {
        assert(views_of(errors@).len() == 0);
        Ok(())
    } else {
        Err(errors)
    }
}

/// The models of an optional list of members.
pub open spec fn opt_members(m: Option<Vec<PayloadMember>>) -> Option<Seq<MemberModel>> {
    match m {
        Some(v) => Some(member_models(v@)),
        None => None,
    }
}

proof fn lemma_unknown_listed(fields: Seq<FieldModel>, ms: Seq<MemberModel>, i: int)
    requires
        0 <= i < ms.len(),
        last_named(fields, ms[i].key) is None,
    ensures
        unknown_errors(fields, ms).contains(unknown_message(ms[i].key, fields)),
    decreases ms.len(),
{
    if i < ms.len() - 1 {
        assert(ms.drop_last()[i] == ms[i]);
        lemma_unknown_listed(fields, ms.drop_last(), i);
        let rest = unknown_errors(fields, ms.drop_last());
        let k = choose|k: int| 0 <= k < rest.len() && rest[k] == unknown_message(ms[i].key, fields);
        assert(unknown_errors(fields, ms)[k] == rest[k]);
    } else {
        let rest = unknown_errors(fields, ms.drop_last());
        assert(unknown_errors(fields, ms)[rest.len() as int] == unknown_message(ms[i].key, fields));
    }
}

proof fn lemma_known_listed(fields: Seq<FieldModel>, ms: Seq<MemberModel>, i: int, j: int)
    requires
        0 <= i < ms.len(),
        last_named(fields, ms[i].key) is Some,
        0 <= j < ms[i].range_errors.len(),
    ensures
        known_errors(fields, ms).contains(ms[i].range_errors[j]),
    decreases ms.len(),
{
    let rest = known_errors(fields, ms.drop_last());
    if i < ms.len() - 1 {
        assert(ms.drop_last()[i] == ms[i]);
        lemma_known_listed(fields, ms.drop_last(), i, j);
        let k = choose|k: int| 0 <= k < rest.len() && rest[k] == ms[i].range_errors[j];
        assert(known_errors(fields, ms)[k] == rest[k]);
    } else {
        assert(known_errors(fields, ms)[rest.len() + j] == ms[i].range_errors[j]);
    }
}

proof fn lemma_errors_empty(fields: Seq<FieldModel>, ms: Seq<MemberModel>)
    ensures
        (unknown_errors(fields, ms) + known_errors(fields, ms)).len() == 0 <==> forall|i: int|
            0 <= i < ms.len() ==> #[trigger] last_named(fields, ms[i].key) is Some
                && member_errors(fields, ms[i]).len() == 0,
    decreases ms.len(),
{
    if ms.len() > 0 {
        let d = ms.drop_last();
        lemma_errors_empty(fields, d);
        assert forall|i: int| 0 <= i < d.len() implies #[trigger] d[i] == ms[i] by {}
        if (unknown_errors(fields, ms) + known_errors(fields, ms)).len() == 0 {
            assert forall|i: int| 0 <= i < ms.len() implies #[trigger] last_named(fields, ms[i].key) is Some
                && member_errors(fields, ms[i]).len() == 0 by {
                if i < ms.len() - 1 {
                    assert(d[i] == ms[i]);
                    assert(last_named(fields, d[i].key) is Some);
                }
            }
        }
        if forall|i: int| 0 <= i < ms.len() ==> #[trigger] last_named(fields, ms[i].key) is Some
            && member_errors(fields, ms[i]).len() == 0 {
            assert(last_named(fields, ms[ms.len() - 1].key) is Some);
            assert forall|i: int| 0 <= i < d.len() implies #[trigger] last_named(fields, d[i].key) is Some
                && member_errors(fields, d[i]).len() == 0 by {
                assert(d[i] == ms[i]);
                assert(last_named(fields, ms[i].key) is Some);
            }
        }
    }
}

/// A payload that is not a JSON object is refused.
pub proof fn law_non_object_refused(fields: Seq<FieldModel>)
    ensures
        payload_check(fields, None) is Err,
{
}

/// A payload member whose key names no exposed field is refused, with an
/// error naming it.
pub proof fn law_unknown_field_refused(fields: Seq<FieldModel>, ms: Seq<MemberModel>, i: int)
    requires
        0 <= i < ms.len(),
        last_named(fields, ms[i].key) is None,
    ensures
        payload_check(fields, Some(ms)) matches Err(e) && e.contains(
            unknown_message(ms[i].key, fields),
        ),
{
    lemma_unknown_listed(fields, ms, i);
    let u = unknown_errors(fields, ms);
    let e = u + known_errors(fields, ms);
    let k = choose|k: int| 0 <= k < u.len() && u[k] == unknown_message(ms[i].key, fields);
    assert(e[k] == u[k]);
}

/// A value out of its field's range is refused, with its range error.
pub proof fn law_out_of_range_refused(fields: Seq<FieldModel>, ms: Seq<MemberModel>, i: int, j: int)
    requires
        0 <= i < ms.len(),
        last_named(fields, ms[i].key) is Some,
        0 <= j < ms[i].range_errors.len(),
    ensures
        payload_check(fields, Some(ms)) matches Err(e) && e.contains(ms[i].range_errors[j]),
{
    lemma_known_listed(fields, ms, i, j);
    let u = unknown_errors(fields, ms);
    let kn = known_errors(fields, ms);
    let e = u + kn;
    let k = choose|k: int| 0 <= k < kn.len() && kn[k] == ms[i].range_errors[j];
    assert(e[u.len() + k] == kn[k]);
}

/// An object payload passes exactly when every member names a field and
/// raises no error there.
pub proof fn law_payload_passes_when_clean(fields: Seq<FieldModel>, ms: Seq<MemberModel>)
    ensures
        payload_check(fields, Some(ms)) is Ok <==> forall|i: int|
            0 <= i < ms.len() ==> #[trigger] last_named(fields, ms[i].key) is Some && member_errors(
                fields,
                ms[i],
            ).len() == 0,
{
    lemma_errors_empty(fields, ms);
}

/// A string value that is among its field's allowed values raises no
/// allowed-values error; one that is not raises exactly one, which names
/// the key and the value.
pub proof fn law_allowed_values_accepted(key: Seq<char>, f: FieldModel, t: Seq<char>)
    ensures
        f.values matches Some(a) ==> (a.contains(t) ==> enum_errors(key, f, Some(t)).len() == 0),
        f.values matches Some(a) ==> (!a.contains(t) ==> enum_errors(key, f, Some(t)).len() == 1
            && enum_errors(key, f, Some(t))[0] == "'"@ + key + "' must be one of ["@ + join_list(
            a,
            ", "@,
        ) + "], got '"@ + t + "'"@),
        f.values is None ==> enum_errors(key, f, Some(t)).len() == 0,
        enum_errors(key, f, None).len() == 0,
{
}

/// A payload whose every member names a field, raised no range error and
/// holds, where the field lists its values, one of them, passes.
pub proof fn law_allowed_payload_passes(fields: Seq<FieldModel>, ms: Seq<MemberModel>)
    requires
        forall|i: int| 0 <= i < ms.len() ==> #[trigger] last_named(fields, ms[i].key) is Some,
        forall|i: int| 0 <= i < ms.len() ==> (#[trigger] ms[i]).range_errors.len() == 0,
        forall|i: int|
            0 <= i < ms.len() ==> #[trigger] allowed_or_free(
                fields[last_named(fields, ms[i].key).unwrap()].values,
                ms[i].text,
            ),
    ensures
        payload_check(fields, Some(ms)) == Ok::<(), Seq<Seq<char>>>(()),
{
    assert forall|i: int| 0 <= i < ms.len() implies #[trigger] last_named(fields, ms[i].key) is Some
        && member_errors(fields, ms[i]).len() == 0 by {
        assert(last_named(fields, ms[i].key) is Some);
        assert(ms[i].range_errors.len() == 0);
        assert(allowed_or_free(fields[last_named(fields, ms[i].key).unwrap()].values, ms[i].text));
    }
    lemma_errors_empty(fields, ms);
}

/// Whether a value passes a field's list of allowed values: the field
/// lists none, the value is no string, or it is among them.
pub open spec fn allowed_or_free(values: Option<Seq<Seq<char>>>, text: Option<Seq<char>>) -> bool {
    match (values, text) {
        (Some(a), Some(t)) => a.contains(t),
        _ => true,
    }
}

} // verus!
