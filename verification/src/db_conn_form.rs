//! The database connection add/edit form's decisions: the engine's field list and
//! its initial widget states, collecting and validating the typed values, the
//! add-mode guard, the `save to:` target and the keyring lifecycle of a save.
//!
//! A connection has at most one secret (its password), and its engine is locked on
//! edit, so the old and the new record never disagree about which secret is in play.

use vstd::prelude::*;
use crate::model::{ConnField, ConnFieldKind, DbConnection, DbKind, DefaultScope, Scope};
use crate::numeral::parse_unsigned;
use crate::secrets::{secret_id, mint_secret_id_as, stage_plan, staged_as, opt_view, copy_opt};
use crate::text::{trim_seq, trim_string, str_eq, copy_strings};
use crate::host_form::{copy_scope, origin_target, save_to_rows, SaveToRow};
pub use crate::host_form::{SaveTarget, preselect};
pub use crate::secrets::{SecretPlan, StagedSecret, Staging, KeyringPut, after_put};

verus! {

// ---- collected values --------------------------------------------------------------

/// The text view of a list of `(key, value)` pairs.
pub open spec fn pairs_view(v: Seq<(String, String)>) -> Seq<(Seq<char>, Seq<char>)> {
    v.map_values(|p: (String, String)| (p.0@, p.1@))
}

/// The value stored under `key`: the last pair with that key wins, as when the
/// pairs are inserted into a map in order.
pub open spec fn lookup(values: Seq<(Seq<char>, Seq<char>)>, key: Seq<char>) -> Option<Seq<char>>
    decreases values.len(),
{
    if values.len() == 0 {
        None
    } else if values.last().0 == key {
        Some(values.last().1)
    } else {
        lookup(values.drop_last(), key)
    }
}

/// The map the pairs form when inserted in order — a later pair replaces an earlier
/// one with the same key — so each key stands for one value, as in a map of the
/// widgets' values.
pub open spec fn pairs_map(values: Seq<(Seq<char>, Seq<char>)>) -> Map<Seq<char>, Seq<char>>
    decreases values.len(),
{
    if values.len() == 0 {
        Map::empty()
    } else {
        pairs_map(values.drop_last()).insert(values.last().0, values.last().1)
    }
}

/// A lookup in the pairs is a lookup in the map they form.
pub proof fn lemma_lookup_is_map_get(values: Seq<(Seq<char>, Seq<char>)>, key: Seq<char>)
    ensures
        lookup(values, key) == (if pairs_map(values).contains_key(key) {
            Some(pairs_map(values)[key])
        } else {
            None
        }),
    decreases values.len(),
{
    if values.len() > 0 {
        lemma_lookup_is_map_get(values.drop_last(), key);
    }
}

/// The value stored under `key` in `values`, if any (the last pair with that key).
pub fn lookup_value(values: &Vec<(String, String)>, key: &str) -> (r: Option<String>)
    ensures
        match r {
            Some(v) => lookup(pairs_view(values@), key@) == Some(v@),
            None => lookup(pairs_view(values@), key@) is None,
        },
        (r is Some) == pairs_map(pairs_view(values@)).contains_key(key@),
        r matches Some(v) ==> v@ == pairs_map(pairs_view(values@))[key@],
{
    proof {
        lemma_lookup_is_map_get(pairs_view(values@), key@);
    }
    let ghost pv = pairs_view(values@);
    let mut i: usize = values.len();
    assert(pv.take(i as int) =~= pv);
    while i > 0
        invariant
            i <= values.len(),
            pv == pairs_view(values@),
            lookup(pv, key@) == lookup(pv.take(i as int), key@),
            lookup(pv, key@) == (if pairs_map(pv).contains_key(key@) {
                Some(pairs_map(pv)[key@])
            } else {
                None
            }),
        decreases i,
    {
        let ghost t = pv.take(i as int);
        assert(t.last() == (values@[i - 1].0@, values@[i - 1].1@));
        if str_eq(values[i - 1].0.as_str(), key) {
            return Some(values[i - 1].1.clone());
        }
        assert(t.drop_last() =~= pv.take(i - 1));
        i = i - 1;
    }
    None
}

// ---- validation --------------------------------------------------------------------

/// The error the name field reports, if any.
pub open spec fn name_error(raw: Seq<char>) -> Option<Seq<char>> {
    if trim_seq(raw).len() == 0 {
        Some("name must not be empty"@)
    } else {
        None
    }
}

/// Validate the connection name: the trimmed text, which must not be empty. It
/// doubles as the record's id when adding.
pub fn validate_name(raw: &str) -> (r: Result<String, String>)
    ensures
        match name_error(raw@) {
            Some(m) => r matches Err(e) && e@ == m,
            None => r matches Ok(n) && n@ == trim_seq(raw@),
        },
{
    let name = trim_string(raw);
    if name.as_str().is_empty() {
        return Err(String::from_str("name must not be empty"));
    }
    Ok(name)
}

/// The range error one field contributes: a `Port` field whose value is present and
/// non-empty but, trimmed, is not a `u32` in 1–65535.
pub open spec fn field_port_error(f: ConnField, values: Seq<(Seq<char>, Seq<char>)>) -> Option<
    Seq<char>,
> {
    if f.kind is Port {
        match lookup(values, f.key@) {
            Some(raw) => if raw.len() == 0 {
                None
            } else {
                match parse_unsigned(trim_seq(raw), 4294967295) {
                    Some(p) => if 1 <= p && p <= 65535 {
                        None
                    } else {
                        Some(f.label@ + " must be a number in 1-65535"@)
                    },
                    None => Some(f.label@ + " must be a number in 1-65535"@),
                }
            },
            None => None,
        }
    } else {
        None
    }
}

/// The first port-range error over `fields`, in order.
pub open spec fn port_fields_error(fields: Seq<ConnField>, values: Seq<(Seq<char>, Seq<char>)>) -> Option<
    Seq<char>,
>
    decreases fields.len(),
{
    if fields.len() == 0 {
        None
    } else {
        match field_port_error(fields[0], values) {
            Some(e) => Some(e),
            None => port_fields_error(fields.drop_first(), values),
        }
    }
}

/// The range error of one field, if any.
fn check_port_field(f: &ConnField, values: &Vec<(String, String)>) -> (r: Option<String>)
    ensures
        match field_port_error(*f, pairs_view(values@)) {
            Some(m) => r matches Some(e) && e@ == m,
            None => r is None,
        },
{
    let is_port = match f.kind {
        ConnFieldKind::Port => true,
        _ => false,
    };
    if !is_port {
        return None;
    }
    let raw = match lookup_value(values, f.key.as_str()) {
        Some(v) => v,
        None => {
            return None;
        },
    };
    if raw.as_str().is_empty() {
        return None;
    }
    let t = trim_string(raw.as_str());
    let ok = match crate::numeral::parse_u32(t.as_str()) {
        Some(p) => 1 <= p && p <= 65535,
        None => false,
    };
    if ok {
        None
    } else {
        let mut m = f.label.clone();
        m.append(" must be a number in 1-65535");
        Some(m)
    }
}

/// The port check reads the values only as a map: two lists of pairs that form the
/// same map (the same value under each key, whatever the duplicates or the order)
/// get the same verdict.
pub proof fn law_port_check_reads_the_map(
    fields: Seq<ConnField>,
    v1: Seq<(Seq<char>, Seq<char>)>,
    v2: Seq<(Seq<char>, Seq<char>)>,
)
    requires
        pairs_map(v1) == pairs_map(v2),
    ensures
        port_fields_error(fields, v1) == port_fields_error(fields, v2),
    decreases fields.len(),
{
    if fields.len() > 0 {
        lemma_lookup_is_map_get(v1, fields[0].key@);
        lemma_lookup_is_map_get(v2, fields[0].key@);
        law_port_check_reads_the_map(fields.drop_first(), v1, v2);
    }
}

/// Range-check every `Port` field's value: a present, non-empty value must be, once
/// trimmed, a number in 1–65535. A missing or empty value passes (non-emptiness is the
/// engine descriptor's job); the first offending field, in order, is reported.
pub fn validate_port_fields(fields: &Vec<ConnField>, values: &Vec<(String, String)>) -> (r: Result<
    (),
    String,
>)
    ensures
        match port_fields_error(fields@, pairs_view(values@)) {
            Some(m) => r matches Err(e) && e@ == m,
            None => r is Ok,
        },
{
    let ghost vv = pairs_view(values@);
    let mut i: usize = 0;
    assert(fields@.skip(0) =~= fields@);
    while i < fields.len()
        invariant
            i <= fields.len(),
            vv == pairs_view(values@),
            port_fields_error(fields@, vv) == port_fields_error(fields@.skip(i as int), vv),
        decreases fields.len() - i,
    {
        assert(fields@.skip(i as int)[0] == fields@[i as int]);
        assert(fields@.skip(i as int).drop_first() =~= fields@.skip(i + 1));
        match check_port_field(&fields[i], values) {
            Some(m) => {
                return Err(m);
            },
            None => {},
        }
        i = i + 1;
    }
    Ok(())
}

// ---- the add-mode guard ------------------------------------------------------------

/// The attributive add-mode guard: an *add* into a layer that already holds the
/// connection's id is refused; only an explicit edit upserts. `target_label` names the
/// offending layer in the message.
pub fn add_guard(is_edit: bool, target_holds_id: bool, target_label: &str) -> (r: Result<
    (),
    String,
>)
    ensures
        (!is_edit && target_holds_id) ==> (r matches Err(e) && e@
            == "a connection with this name exists in "@ + target_label@ + " — edit it instead"@),
        !(!is_edit && target_holds_id) ==> r is Ok,
{
    if !is_edit && target_holds_id {
        let mut e = String::from_str("a connection with this name exists in ");
        e.append(target_label);
        e.append(" — edit it instead");
        Err(e)
    } else {
        Ok(())
    }
}

// ---- the keyring lifecycle ---------------------------------------------------------

/// What a save does to the keyring: an engine without a password field clears any old
/// secret; a typed password is minted afresh (deleting the old id after the write);
/// an untouched field keeps the old secret, or stores none.
pub open spec fn plan_spec(old: Option<DbConnection>, has_password_field: bool, secret_entered: bool) -> SecretPlan {
    let old_ref = match old {
        Some(c) => c.secret_ref,
        None => None,
    };
    if !has_password_field {
        SecretPlan::Clear { delete_old: old_ref }
    } else if secret_entered {
        SecretPlan::Mint { delete_old: old_ref }
    } else {
        match old_ref {
            Some(id) => SecretPlan::Keep(id),
            None => SecretPlan::Clear { delete_old: None },
        }
    }
}

/// Decide what a save does to the keyring. `old` is the pre-edit record (`None` when
/// adding); `has_password_field` is whether the engine's fields include a password;
/// `secret_entered` is whether the user typed into it.
pub fn plan_secret(old: Option<&DbConnection>, has_password_field: bool, secret_entered: bool) -> (r:
    SecretPlan)
    ensures
        r == plan_spec(
            match old {
                Some(c) => Some(*c),
                None => None,
            },
            has_password_field,
            secret_entered,
        ),
{
    let old_ref = match old {
        Some(c) => copy_opt(&c.secret_ref),
        None => None,
    };
    if !has_password_field {
        return SecretPlan::Clear { delete_old: old_ref };
    }
    if secret_entered {
        return SecretPlan::Mint { delete_old: old_ref };
    }
    match old_ref {
        Some(id) => SecretPlan::Keep(id),
        None => SecretPlan::Clear { delete_old: None },
    }
}

/// Mint an opaque keyring id `db-<name>-<unix_nanos>` from the clock.
pub fn mint_secret_id(name: &str) -> (id: String)
    ensures
        exists|n: nat| id@ == secret_id("db"@, name@, n),
{
    mint_secret_id_as("db", name)
}

/// Stage a [`SecretPlan`]: for `Mint` (which requires a typed secret) a fresh
/// `db-<name>-<nanos>` id and the keyring write that stores the secret under it;
/// `Keep` and `Clear` pass through and ask nothing of the keyring. Old-id deletion is
/// deferred to after the record's write via `delete_after_write`; the keyring's answer
/// to the write goes to [`after_put`].
pub fn stage_secret(plan: &SecretPlan, name: &str, secret: Option<&str>) -> (r: Result<Staging, String>)
    ensures
        staged_as(*plan, "db"@, name@, opt_view(secret), r),
{
    stage_plan(plan, "db", name, secret)
}

// ---- the form's field widgets -----------------------------------------------------

/// The live state of one field's widget.
#[derive(Clone, Debug, PartialEq, Eq)]
pub enum FieldState {
    /// A text input (masked for a password) and its content.
    Text(String),
    /// A segmented pill row (`Choice` and `Bool` fields) and the selected option.
    Choice { options: Vec<String>, selected: usize },
}

/// The value a widget holds: a text input's content, or the selected option (empty
/// when the selection is out of range).
pub open spec fn state_value(w: FieldState) -> Seq<char> {
    match w {
        FieldState::Text(c) => c@,
        FieldState::Choice { options, selected } => if selected < options.len() {
            options@[selected as int]@
        } else {
            Seq::empty()
        },
    }
}

/// The index of the first option equal to `v`, or the number of options when none is.
pub open spec fn option_position(options: Seq<String>, v: Seq<char>) -> int
    decreases options.len(),
{
    if options.len() == 0 {
        0
    } else if options[0]@ == v {
        0
    } else {
        1 + option_position(options.drop_first(), v)
    }
}

/// The value a field opens with: the prefill's value under its key, else its default.
pub open spec fn opening_value(f: ConnField, prefill: Option<Seq<(Seq<char>, Seq<char>)>>) -> Option<
    Seq<char>,
> {
    let from_prefill = match prefill {
        Some(p) => lookup(p, f.key@),
        None => None,
    };
    match from_prefill {
        Some(v) => Some(v),
        None => match f.default {
            Some(d) => Some(d@),
            None => None,
        },
    }
}

/// Two field descriptions say the same: same key, label, default and kind (a choice
/// with the same options).
pub open spec fn same_field(a: ConnField, b: ConnField) -> bool {
    &&& a.key@ == b.key@
    &&& a.label@ == b.label@
    &&& a.default == b.default
    &&& match (a.kind, b.kind) {
        (ConnFieldKind::Choice { options: x }, ConnFieldKind::Choice { options: y }) => x@ == y@,
        _ => a.kind == b.kind,
    }
}

/// A copy of a field description.
pub fn copy_field(f: &ConnField) -> (r: ConnField)
    ensures
        same_field(r, *f),
{
    let kind = match &f.kind {
        ConnFieldKind::Text => ConnFieldKind::Text,
        ConnFieldKind::Port => ConnFieldKind::Port,
        ConnFieldKind::Path => ConnFieldKind::Path,
        ConnFieldKind::Password => ConnFieldKind::Password,
        ConnFieldKind::Bool => ConnFieldKind::Bool,
        ConnFieldKind::Choice { options } => ConnFieldKind::Choice { options: copy_strings(options) },
    };
    ConnField { key: f.key.clone(), label: f.label.clone(), kind, default: copy_opt(&f.default) }
}

/// The widget a field opens with. A password input always opens empty (a stored
/// secret is never read back); a choice selects the opening value's option (the
/// first option when it names none); a bool is the pill row `false`/`true`,
/// selecting `true` only for the value `true`; other inputs hold the opening value.
pub open spec fn opening_state_ok(f: ConnField, value: Option<Seq<char>>, w: FieldState) -> bool {
    match f.kind {
        ConnFieldKind::Password => w matches FieldState::Text(c) && c@.len() == 0,
        ConnFieldKind::Choice { options } => w matches FieldState::Choice { options: o, selected }
            && o@ == options@ && selected == (match value {
            Some(v) => if option_position(options@, v) < options@.len() {
                option_position(options@, v)
            } else {
                0
            },
            None => 0,
        }),
        ConnFieldKind::Bool => w matches FieldState::Choice { options: o, selected } && o@.len()
            == 2 && o@[0]@ == "false"@ && o@[1]@ == "true"@ && selected == (if value == Some(
            "true"@,
        ) {
            1int
        } else {
            0int
        }),
        _ => w matches FieldState::Text(c) && c@ == (match value {
            Some(v) => v,
            None => Seq::empty(),
        }),
    }
}

/// The index of the first option equal to `v`, or the number of options.
fn find_option(options: &Vec<String>, v: &str) -> (r: usize)
    ensures
        r as int == option_position(options@, v@),
{
    let mut i: usize = 0;
    assert(options@.skip(0) =~= options@);
    while i < options.len()
        invariant
            i <= options.len(),
            option_position(options@, v@) == i + option_position(options@.skip(i as int), v@),
        decreases options.len() - i,
    {
        assert(options@.skip(i as int)[0] == options@[i as int]);
        assert(options@.skip(i as int).drop_first() =~= options@.skip(i + 1));
        if str_eq(options[i].as_str(), v) {
            return i;
        }
        i = i + 1;
    }
    i
}

/// The widget a field opens with, seeded from `prefill` (the values recovered from an
/// edited record's DSN) or the field's default.
pub fn opening_state(f: &ConnField, prefill: Option<&Vec<(String, String)>>) -> (w: FieldState)
    ensures
        opening_state_ok(
            *f,
            opening_value(
                *f,
                match prefill {
                    Some(p) => Some(pairs_view(p@)),
                    None => None,
                },
            ),
            w,
        ),
{
    let from_prefill = match prefill {
        Some(p) => lookup_value(p, f.key.as_str()),
        None => None,
    };
    let value = match from_prefill {
        Some(v) => Some(v),
        None => copy_opt(&f.default),
    };
    match &f.kind {
        ConnFieldKind::Password => FieldState::Text(String::new()),
        ConnFieldKind::Choice { options } => {
            let selected = match &value {
                Some(v) => {
                    let k = find_option(options, v.as_str());
                    if k < options.len() {
                        k
                    } else {
                        0
                    }
                },
                None => 0,
            };
            FieldState::Choice { options: copy_strings(options), selected }
        },
        ConnFieldKind::Bool => {
            let is_true = match &value {
                Some(v) => str_eq(v.as_str(), "true"),
                None => false,
            };
            proof {
                reveal_strlit("true");
                reveal_strlit("false");
            }
            let options = vec![String::from_str("false"), String::from_str("true")];
            FieldState::Choice {
                options,
                selected: if is_true {
                    1
                } else {
                    0
                },
            }
        },
        _ => match value {
            Some(v) => FieldState::Text(v),
            None => FieldState::Text(String::new()),
        },
    }
}

/// `out` holds one widget per field of `fields`, each seeded as [`opening_state_ok`]
/// says from `prefill`.
pub open spec fn built_from(
    out: Seq<(ConnField, FieldState)>,
    fields: Seq<ConnField>,
    prefill: Option<Seq<(Seq<char>, Seq<char>)>>,
) -> bool {
    &&& out.len() == fields.len()
    &&& forall|i: int|
        0 <= i < fields.len() ==> same_field((#[trigger] out[i]).0, fields[i]) && opening_state_ok(
            fields[i],
            opening_value(fields[i], prefill),
            out[i].1,
        )
}

/// One widget per field, each seeded as [`opening_state`] says.
pub fn build_fields(fields: &Vec<ConnField>, prefill: Option<&Vec<(String, String)>>) -> (out: Vec<
    (ConnField, FieldState),
>)
    ensures
        built_from(
            out@,
            fields@,
            match prefill {
                Some(p) => Some(pairs_view(p@)),
                None => None,
            },
        ),
{
    let mut out: Vec<(ConnField, FieldState)> = Vec::new();
    let mut i: usize = 0;
    while i < fields.len()
        invariant
            i <= fields.len(),
            out@.len() == i,
            forall|k: int|
                0 <= k < i ==> same_field((#[trigger] out@[k]).0, fields@[k]) && opening_state_ok(
                    fields@[k],
                    opening_value(
                        fields@[k],
                        match prefill {
                            Some(p) => Some(pairs_view(p@)),
                            None => None,
                        },
                    ),
                    out@[k].1,
                ),
        decreases fields.len() - i,
    {
        let w = opening_state(&fields[i], prefill);
        out.push((copy_field(&fields[i]), w));
        i = i + 1;
    }
    out
}

/// The pairs `(key, value)` the form's widgets hold, in field order.
pub open spec fn collected(fields: Seq<(ConnField, FieldState)>) -> Seq<(Seq<char>, Seq<char>)> {
    fields.map_values(|p: (ConnField, FieldState)| (p.0.key@, state_value(p.1)))
}

/// The value a widget holds.
fn widget_value(w: &FieldState) -> (r: String)
    ensures
        r@ == state_value(*w),
{
    match w {
        FieldState::Text(c) => c.clone(),
        FieldState::Choice { options, selected } => if *selected < options.len() {
            options[*selected].clone()
        } else {
            String::new()
        },
    }
}

/// Collect every field's current value, keyed by the field's key, in field order.
pub fn collect_values(fields: &Vec<(ConnField, FieldState)>) -> (out: Vec<(String, String)>)
    ensures
        pairs_view(out@) == collected(fields@),
{
    let mut out: Vec<(String, String)> = Vec::new();
    let mut i: usize = 0;
    while i < fields.len()
        invariant
            i <= fields.len(),
            out@.len() == i,
            pairs_view(out@) == collected(fields@.take(i as int)),
        decreases fields.len() - i,
    {
        let v = widget_value(&fields[i].1);
        let k = fields[i].0.key.clone();
        let ghost before = out@;
        out.push((k, v));
        assert(out@ == before.push((k, v)));
        proof {
            let ghost t = fields@.take(i + 1);
            assert forall|j: int| 0 <= j < i + 1 implies #[trigger] pairs_view(out@)[j] == collected(
                t,
            )[j] by {
                if j < i {
                    assert(out@[j] == before[j]);
                    assert(pairs_view(before)[j] == collected(fields@.take(i as int))[j]);
                    assert(t[j] == fields@.take(i as int)[j]);
                }
            }
        }
        i = i + 1;
        assert(pairs_view(out@) =~= collected(fields@.take(i as int)));
    }
    assert(fields@.take(fields.len() as int) =~= fields@);
    out
}

/// The password typed this session: the content of the first password field whose
/// input is non-empty.
pub open spec fn entered_spec(fields: Seq<(ConnField, FieldState)>) -> Option<Seq<char>>
    decreases fields.len(),
{
    if fields.len() == 0 {
        None
    } else if fields[0].0.kind is Password && (fields[0].1 matches FieldState::Text(c)
        && c@.len() > 0) {
        Some(state_value(fields[0].1))
    } else {
        entered_spec(fields.drop_first())
    }
}

/// The password text the user typed this session, if any.
pub fn entered_secret(fields: &Vec<(ConnField, FieldState)>) -> (r: Option<String>)
    ensures
        match r {
            Some(s) => entered_spec(fields@) == Some(s@),
            None => entered_spec(fields@) is None,
        },
{
    let mut i: usize = 0;
    assert(fields@.skip(0) =~= fields@);
    while i < fields.len()
        invariant
            i <= fields.len(),
            entered_spec(fields@) == entered_spec(fields@.skip(i as int)),
        decreases fields.len() - i,
    {
        assert(fields@.skip(i as int)[0] == fields@[i as int]);
        assert(fields@.skip(i as int).drop_first() =~= fields@.skip(i + 1));
        let is_password = match fields[i].0.kind {
            ConnFieldKind::Password => true,
            _ => false,
        };
        if is_password {
            match &fields[i].1 {
                FieldState::Text(c) => {
                    if !c.as_str().is_empty() {
                        return Some(c.clone());
                    }
                },
                _ => {},
            }
        }
        i = i + 1;
    }
    None
}

/// Whether any of `fields` is a password.
pub fn has_password_field(fields: &Vec<ConnField>) -> (b: bool)
    ensures
        b == exists|i: int| 0 <= i < fields@.len() && (#[trigger] fields@[i]).kind is Password,
{
    let mut i: usize = 0;
    while i < fields.len()
        invariant
            i <= fields.len(),
            forall|k: int| 0 <= k < i ==> !((#[trigger] fields@[k]).kind is Password),
        decreases fields.len() - i,
    {
        let p = match fields[i].kind {
            ConnFieldKind::Password => true,
            _ => false,
        };
        if p {
            assert(fields@[i as int].kind is Password);
            return true;
        }
        i = i + 1;
    }
    false
}

// ---- the form's mode, target and submission ---------------------------------------

/// Add a new connection, or edit an existing one in place.
#[derive(Debug, PartialEq, Eq)]
pub enum FormMode {
    /// Fresh record; the add-mode guard applies.
    Add,
    /// Upsert of `original` into its `origin` layer; the engine and id are locked.
    Edit { original: DbConnection, origin: Scope },
}

/// Whether choosing `requested` in the engine selector switches the engine (and
/// rebuilds the field list from scratch): only in add mode, and only to a different
/// engine.
pub open spec fn switches_kind_spec(mode: FormMode, current: DbKind, requested: DbKind) -> bool {
    mode is Add && current != requested
}

/// Whether choosing `requested` switches the engine, as [`switches_kind_spec`] says.
pub fn switches_kind(mode: &FormMode, current: DbKind, requested: DbKind) -> (b: bool)
    ensures
        b == switches_kind_spec(*mode, current, requested),
{
    match mode {
        FormMode::Add => current != requested,
        FormMode::Edit { .. } => false,
    }
}

/// The concrete layer a save would write into: an edit's origin, else the `save to:`
/// selection (`None` until the user chooses, or when it names the workspace and none
/// is focused).
pub open spec fn target_spec(mode: FormMode, save_to: Option<SaveTarget>, workspace: Option<Scope>) -> Option<
    Scope,
> {
    match mode {
        FormMode::Edit { origin, .. } => Some(origin),
        FormMode::Add => match save_to {
            None => None,
            Some(SaveTarget::Global) => Some(Scope::Global),
            Some(SaveTarget::Workspace) => workspace,
        },
    }
}

/// The concrete layer a save would write into.
pub fn target_scope(mode: &FormMode, save_to: Option<SaveTarget>, workspace: Option<&Scope>) -> (r:
    Option<Scope>)
    ensures
        r == target_spec(
            *mode,
            save_to,
            match workspace {
                Some(w) => Some(*w),
                None => None,
            },
        ),
{
    match mode {
        FormMode::Edit { origin, .. } => Some(copy_scope(origin)),
        FormMode::Add => match save_to {
            None => None,
            Some(SaveTarget::Global) => Some(Scope::Global),
            Some(SaveTarget::Workspace) => match workspace {
                Some(w) => Some(copy_scope(w)),
                None => None,
            },
        },
    }
}

/// A validated form submission.
#[derive(Debug)]
pub struct Submission {
    /// The validated connection, with no `secret_ref` yet.
    pub connection: DbConnection,
    /// The layer to write into.
    pub target: Scope,
    /// The original record when editing (source of the old `secret_ref`).
    pub old: Option<DbConnection>,
    /// The password typed this session, if any; only ever handed to the keyring.
    pub secret: Option<String>,
}

/// A copy of a connection record.
pub fn copy_connection(c: &DbConnection) -> (r: DbConnection)
    ensures
        r == *c,
{
    DbConnection {
        id: c.id.clone(),
        dsn: c.dsn.clone(),
        secret_ref: copy_opt(&c.secret_ref),
        kind: c.kind,
        name: c.name.clone(),
        folder: copy_opt(&c.folder),
    }
}

/// The first port-range error over the form's fields, in order.
fn first_port_error(fields: &Vec<(ConnField, FieldState)>, values: &Vec<(String, String)>) -> (r:
    Option<String>)
    ensures
        ({
            let defs = fields@.map_values(|p: (ConnField, FieldState)| p.0);
            match port_fields_error(defs, pairs_view(values@)) {
                Some(m) => r matches Some(e) && e@ == m,
                None => r is None,
            }
        }),
{
    let ghost defs = fields@.map_values(|p: (ConnField, FieldState)| p.0);
    let ghost vv = pairs_view(values@);
    let mut i: usize = 0;
    assert(defs.skip(0) =~= defs);
    while i < fields.len()
        invariant
            i <= fields.len(),
            defs == fields@.map_values(|p: (ConnField, FieldState)| p.0),
            vv == pairs_view(values@),
            port_fields_error(defs, vv) == port_fields_error(defs.skip(i as int), vv),
        decreases fields.len() - i,
    {
        assert(defs.skip(i as int)[0] == fields@[i as int].0);
        assert(defs.skip(i as int).drop_first() =~= defs.skip(i + 1));
        match check_port_field(&fields[i].0, values) {
            Some(m) => {
                return Some(m);
            },
            None => {},
        }
        i = i + 1;
    }
    None
}

/// What pressing Save yields, or the first reason not to: an empty name; no
/// descriptor for the engine (`assembled` is `None`); a port field out of range; the
/// descriptor refusing the values (`assembled` holds its verdict on the collected
/// values: the DSN, or its message); no save target. The connection's id is its name
/// when adding and the original id when editing; an edit keeps the record's folder.
pub open spec fn submission_spec(
    mode: FormMode,
    name_raw: Seq<char>,
    kind: DbKind,
    fields: Seq<(ConnField, FieldState)>,
    assembled: Option<Result<String, String>>,
    save_to: Option<SaveTarget>,
    workspace: Option<Scope>,
    r: Result<Submission, String>,
) -> bool {
    let defs = fields.map_values(|p: (ConnField, FieldState)| p.0);
    let target = target_spec(mode, save_to, workspace);
    match name_error(name_raw) {
        Some(m) => r matches Err(e) && e@ == m,
        None => match assembled {
            None => r matches Err(e) && e@ == "internal: no descriptor for this engine"@,
            Some(a) => match port_fields_error(defs, collected(fields)) {
                Some(m) => r matches Err(e) && e@ == m,
                None => match a {
                    Err(m) => r matches Err(e) && e@ == m@,
                    Ok(dsn) => match target {
                        None => r matches Err(e) && e@
                            == "choose where to save: workspace or global"@,
                        Some(t) => r matches Ok(s) && s.target == t && s.connection.dsn == dsn
                            && s.connection.secret_ref is None && s.connection.kind == kind
                            && s.connection.name@ == trim_seq(name_raw) && (match mode {
                            FormMode::Add => s.connection.id@ == trim_seq(name_raw)
                                && s.connection.folder is None && s.old is None,
                            FormMode::Edit { original, .. } => s.connection.id == original.id
                                && s.connection.folder == original.folder && s.old == Some(
                                original,
                            ),
                        }) && match entered_spec(fields) {
                            Some(p) => s.secret matches Some(x) && x@ == p,
                            None => s.secret is None,
                        },
                    },
                },
            },
        },
    }
}

/// What pressing Save submits, as [`submission_spec`] says.
pub fn submission(
    mode: &FormMode,
    name_raw: &str,
    kind: DbKind,
    fields: &Vec<(ConnField, FieldState)>,
    assembled: Option<Result<String, String>>,
    save_to: Option<SaveTarget>,
    workspace: Option<&Scope>,
) -> (r: Result<Submission, String>)
    ensures
        submission_spec(
            *mode,
            name_raw@,
            kind,
            fields@,
            assembled,
            save_to,
            match workspace {
                Some(w) => Some(*w),
                None => None,
            },
            r,
        ),
{
    let name = match validate_name(name_raw) {
        Ok(n) => n,
        Err(e) => {
            return Err(e);
        },
    };
    let a = match assembled {
        Some(a) => a,
        None => {
            return Err(String::from_str("internal: no descriptor for this engine"));
        },
    };
    let values = collect_values(fields);
    match first_port_error(fields, &values) {
        Some(e) => {
            return Err(e);
        },
        None => {},
    }
    let dsn = match a {
        Ok(d) => d,
        Err(e) => {
            return Err(e);
        },
    };
    let target = match target_scope(mode, save_to, workspace) {
        Some(t) => t,
        None => {
            return Err(String::from_str("choose where to save: workspace or global"));
        },
    };
    let (id, folder, old) = match mode {
        FormMode::Add => (name.clone(), None, None),
        FormMode::Edit { original, .. } => (
            original.id.clone(),
            copy_opt(&original.folder),
            Some(copy_connection(original)),
        ),
    };
    let secret = entered_secret(fields);
    Ok(
        Submission {
            connection: DbConnection { id, dsn, secret_ref: None, kind, name, folder },
            target,
            old,
            secret,
        },
    )
}

// ---- the form -----------------------------------------------------------------------

/// Events the form hands its owner.
#[derive(Debug)]
pub enum DbConnFormEvent {
    /// Dismiss without saving.
    Cancel,
    /// A locally validated submission; the owner runs the add-mode guard, the secret
    /// lifecycle and the store write.
    Submit(Box<Submission>),
}

/// The connection add/edit form: its mode, the name field, the engine, one widget per
/// engine field, the `save to:` selection, the focused workspace (scope and label) and
/// the error line. The engine's descriptor is read by the owner, which hands the form
/// the descriptor's fields, what a stored DSN reads back as, and its verdict on the
/// collected values.
#[derive(Debug)]
pub struct DbConnForm {
    pub mode: FormMode,
    pub name: String,
    pub kind: DbKind,
    pub fields: Vec<(ConnField, FieldState)>,
    pub save_to: Option<SaveTarget>,
    pub workspace: Option<(Scope, String)>,
    pub error: Option<String>,
}

/// The fields a descriptor declares, or none when the engine has no descriptor.
pub open spec fn declared(fields: Option<Vec<ConnField>>) -> Seq<ConnField> {
    match fields {
        Some(f) => f@,
        None => Seq::empty(),
    }
}

impl DbConnForm {
    fn new_inner(
        workspace: Option<(Scope, String)>,
        kind: DbKind,
        name: String,
        fields: Option<Vec<ConnField>>,
        prefill: Option<&Vec<(String, String)>>,
    ) -> (f: DbConnForm)
        ensures
            f.mode is Add,
            f.name == name,
            f.kind == kind,
            built_from(
                f.fields@,
                declared(fields),
                match prefill {
                    Some(p) => Some(pairs_view(p@)),
                    None => None,
                },
            ),
            f.save_to is None,
            f.workspace == workspace,
            f.error is None,
    {
        let built = match &fields {
            Some(defs) => build_fields(defs, prefill),
            None => {
                let empty: Vec<ConnField> = Vec::new();
                build_fields(&empty, prefill)
            },
        };
        DbConnForm {
            mode: FormMode::Add,
            name,
            kind,
            fields: built,
            save_to: None,
            workspace,
            error: None,
        }
    }

    /// An empty add form on the default engine (Postgres), whose descriptor declares
    /// `fields` (`None` when it has no descriptor); the `save to:` selection follows
    /// [`preselect`].
    pub fn new_add(
        workspace: Option<(Scope, String)>,
        default_scope: DefaultScope,
        fields: Option<Vec<ConnField>>,
    ) -> (f: DbConnForm)
        ensures
            f.mode is Add,
            f.name@.len() == 0,
            f.kind == DbKind::Postgres,
            built_from(f.fields@, declared(fields), None),
            f.save_to == crate::host_form::preselect_spec(default_scope, workspace is Some),
            f.workspace == workspace,
            f.error is None,
    {
        let active = workspace.is_some();
        let mut form = DbConnForm::new_inner(workspace, DbKind::Postgres, String::new(), fields, None);
        form.save_to = preselect(default_scope, active);
        form
    }

    /// An edit form on `original`, writing back into `origin`, its engine locked.
    /// `descriptor` is the engine's declared fields with what `original`'s DSN reads
    /// back as (`None` without a descriptor); the password field always opens empty.
    pub fn new_edit(
        original: DbConnection,
        origin: Scope,
        workspace: Option<(Scope, String)>,
        descriptor: Option<(Vec<ConnField>, Vec<(String, String)>)>,
    ) -> (f: DbConnForm)
        ensures
            f.mode == (FormMode::Edit { original, origin }),
            f.name == original.name,
            f.kind == original.kind,
            match descriptor {
                Some((defs, values)) => built_from(f.fields@, defs@, Some(pairs_view(values@))),
                None => f.fields@.len() == 0,
            },
            f.save_to == Some(
                match origin {
                    Scope::Global => SaveTarget::Global,
                    Scope::Workspace(_) => SaveTarget::Workspace,
                },
            ),
            f.workspace == workspace,
            f.error is None,
    {
        let name = original.name.clone();
        let mut form = match descriptor {
            Some((defs, values)) => DbConnForm::new_inner(
                workspace,
                original.kind,
                name,
                Some(defs),
                Some(&values),
            ),
            None => DbConnForm::new_inner(workspace, original.kind, name, None, None),
        };
        form.save_to = Some(origin_target(&origin));
        form.mode = FormMode::Edit { original, origin };
        form
    }

    /// Show an owner-side failure (guard, keyring, store) on the error line.
    pub fn set_error(&mut self, msg: String)
        ensures
            final(self).error == Some(msg),
            final(self).mode == old(self).mode,
            final(self).name == old(self).name,
            final(self).kind == old(self).kind,
            final(self).fields == old(self).fields,
            final(self).save_to == old(self).save_to,
            final(self).workspace == old(self).workspace,
    {
        self.error = Some(msg);
    }

    /// Choose engine `kind` (whose descriptor declares `fields`): in add mode and for a
    /// different engine, the field list is rebuilt from scratch — values typed for the
    /// old engine do not carry over. Says whether it switched; otherwise nothing
    /// changes.
    pub fn set_kind(&mut self, kind: DbKind, fields: Option<Vec<ConnField>>) -> (switched: bool)
        ensures
            switched == switches_kind_spec(old(self).mode, old(self).kind, kind),
            !switched ==> final(self).kind == old(self).kind && final(self).fields == old(
                self,
            ).fields,
            switched ==> final(self).kind == kind && built_from(
                final(self).fields@,
                declared(fields),
                None,
            ),
            final(self).mode == old(self).mode,
            final(self).name == old(self).name,
            final(self).save_to == old(self).save_to,
            final(self).workspace == old(self).workspace,
            final(self).error == old(self).error,
    {
        if !switches_kind(&self.mode, self.kind, kind) {
            return false;
        }
        self.kind = kind;
        self.fields = match &fields {
            Some(defs) => build_fields(defs, None),
            None => {
                let empty: Vec<ConnField> = Vec::new();
                build_fields(&empty, None)
            },
        };
        true
    }

    /// The values the widgets hold, keyed by field, in field order — what the engine's
    /// descriptor assembles a DSN from.
    pub fn values(&self) -> (out: Vec<(String, String)>)
        ensures
            pairs_view(out@) == collected(self.fields@),
    {
        collect_values(&self.fields)
    }

    /// Press Save, given the descriptor's verdict on [`Self::values`] (`None` without a
    /// descriptor): the submission [`submission_spec`] gives, with the error line
    /// cleared; or no event and the refusal on the error line. Only the error line
    /// changes.
    pub fn submit(&mut self, assembled: Option<Result<String, String>>) -> (ev: Option<
        DbConnFormEvent,
    >)
        ensures
            final(self).mode == old(self).mode,
            final(self).name == old(self).name,
            final(self).kind == old(self).kind,
            final(self).fields == old(self).fields,
            final(self).save_to == old(self).save_to,
            final(self).workspace == old(self).workspace,
            ({
                let f = *old(self);
                let ws = crate::host_form::workspace_scope(f.workspace);
                match ev {
                    Some(DbConnFormEvent::Submit(b)) => final(self).error is None
                        && submission_spec(
                        f.mode,
                        f.name@,
                        f.kind,
                        f.fields@,
                        assembled,
                        f.save_to,
                        ws,
                        Ok(*b),
                    ),
                    Some(DbConnFormEvent::Cancel) => false,
                    None => final(self).error matches Some(e) && submission_spec(
                        f.mode,
                        f.name@,
                        f.kind,
                        f.fields@,
                        assembled,
                        f.save_to,
                        ws,
                        Err(e),
                    ),
                }
            }),
    {
        let ws = match &self.workspace {
            Some((scope, _)) => Some(scope),
            None => None,
        };
        match submission(
            &self.mode,
            self.name.as_str(),
            self.kind,
            &self.fields,
            assembled,
            self.save_to,
            ws,
        ) {
            Ok(sub) => {
                self.error = None;
                Some(DbConnFormEvent::Submit(Box::new(sub)))
            },
            Err(e) => {
                self.error = Some(e);
                None
            },
        }
    }
}

impl DbConnForm {
    /// The `save to:` picker: its label (fixed while editing) and its two options.
    pub fn save_to_view(&self) -> (r: (&'static str, (SaveToRow, SaveToRow)))
        ensures
            r.0@ == (if self.mode is Edit {
                "save to — fixed while editing (use ⤒/⤓ to move a connection)"@
            } else {
                "save to:"@
            }),
            r.1.0.enabled == (self.workspace is Some && self.mode is Add),
            r.1.1.enabled == self.mode is Add,
            r.1.0.selected == (self.save_to == Some(SaveTarget::Workspace)),
            r.1.1.selected == (self.save_to == Some(SaveTarget::Global)),
            r.1.0.note@ == "— .sid/ · travels with git"@,
    {
        let locked = match &self.mode {
            FormMode::Edit { .. } => true,
            FormMode::Add => false,
        };
        let label = if locked {
            "save to — fixed while editing (use ⤒/⤓ to move a connection)"
        } else {
            "save to:"
        };
        (label, save_to_rows(locked, self.workspace.is_some(), self.save_to, "— .sid/ · travels with git"))
    }

    /// A click on a `save to:` option: only a choosable one takes — the workspace
    /// while one is focused, either only when adding. Says whether it did.
    pub fn choose_save_to(&mut self, target: SaveTarget) -> (taken: bool)
        ensures
            taken == (old(self).mode is Add && (target == SaveTarget::Global
                || old(self).workspace is Some)),
            taken ==> final(self).save_to == Some(target),
            !taken ==> final(self).save_to == old(self).save_to,
            final(self).mode == old(self).mode,
            final(self).name == old(self).name,
            final(self).kind == old(self).kind,
            final(self).fields == old(self).fields,
            final(self).workspace == old(self).workspace,
            final(self).error == old(self).error,
    {
        let adding = match &self.mode {
            FormMode::Add => true,
            FormMode::Edit { .. } => false,
        };
        let ok = adding && match target {
            SaveTarget::Workspace => self.workspace.is_some(),
            SaveTarget::Global => true,
        };
        if ok {
            self.save_to = Some(target);
        }
        ok
    }
}

} // verus!
