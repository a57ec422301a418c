use vstd::prelude::*;
use crate::json::{json_text, lemma_get_wf, lemma_member_views, lemma_views, member_views, views, Json, JsonV};
use crate::text::{
    after_last_char, ascii_lower, before_char, pad_right, pad_spec, repeat_char, leading_ws,
    strip_prefixes, strip_suffix_chars, trim_end_char, trim_start_matches, trim_start_spec,
    starts_with, ends_with, chars_of, concat, eq_ignore_ascii_case, find_from,
    find_sub, join, join_strings, sort_strings, split_all, split_by, split_first, str_eq, str_leq,
    string_of, string_views, to_ascii_lowercase,
};

verus! {

fn owned(s: &str) -> (r: String)
    ensures
        r@ == s@,
{
    s.to_owned()
}

/// The column heading for a column path.
pub open spec fn display_name_spec(p: Seq<char>) -> Seq<char> {
    if p == "@resourceType"@ {
        "ResourceType"@
    } else if p == "@name"@ {
        "Name"@
    } else if p == "@locations"@ {
        "Locations"@
    } else if p == "@zones"@ {
        "Zones"@
    } else if p == "@restrictions"@ {
        "Restrictions"@
    } else if p == "@scopeShort"@ {
        "Scope"@
    } else if p == "@resourceGroup"@ {
        "ResourceGroup"@
    } else if p == "roleName"@ {
        "Role"@
    } else if p == "state"@ {
        "State"@
    } else if p == "assignmentType"@ {
        "Type"@
    } else if p == "startDateTime"@ {
        "Start"@
    } else if p == "endDateTime"@ {
        "End"@
    } else if p == "principalType"@ {
        "PrincipalType"@
    } else if p == "principalId"@ {
        "PrincipalId"@
    } else if p == "type"@ {
        "Type"@
    } else if p == "name"@ {
        "Name"@
    } else if p == "description"@ {
        "Description"@
    } else if p == "tenantId"@ {
        "TenantId"@
    } else if p == "isDefault"@ {
        "IsDefault"@
    } else if p == "displayName"@ {
        "DisplayName"@
    } else if p == "regionalDisplayName"@ {
        "Region"@
    } else if p == "id"@ {
        "Id"@
    } else {
        after_last_char(p, '.')
    }
}

/// The heading of a table column: a fixed name for the known paths, else
/// the last dotted segment of the path.
pub fn display_name(path: &str) -> (r: String)
    ensures
        r@ == display_name_spec(path@),
{
    if str_eq(path, "@resourceType") {
        owned("ResourceType")
    } else if str_eq(path, "@name") {
        owned("Name")
    } else if str_eq(path, "@locations") {
        owned("Locations")
    } else if str_eq(path, "@zones") {
        owned("Zones")
    } else if str_eq(path, "@restrictions") {
        owned("Restrictions")
    } else if str_eq(path, "@scopeShort") {
        owned("Scope")
    } else if str_eq(path, "@resourceGroup") {
        owned("ResourceGroup")
    } else if str_eq(path, "roleName") {
        owned("Role")
    } else if str_eq(path, "state") {
        owned("State")
    } else if str_eq(path, "assignmentType") {
        owned("Type")
    } else if str_eq(path, "startDateTime") {
        owned("Start")
    } else if str_eq(path, "endDateTime") {
        owned("End")
    } else if str_eq(path, "principalType") {
        owned("PrincipalType")
    } else if str_eq(path, "principalId") {
        owned("PrincipalId")
    } else if str_eq(path, "type") {
        owned("Type")
    } else if str_eq(path, "name") {
        owned("Name")
    } else if str_eq(path, "description") {
        owned("Description")
    } else if str_eq(path, "tenantId") {
        owned("TenantId")
    } else if str_eq(path, "isDefault") {
        owned("IsDefault")
    } else if str_eq(path, "displayName") {
        owned("DisplayName")
    } else if str_eq(path, "regionalDisplayName") {
        owned("Region")
    } else if str_eq(path, "id") {
        owned("Id")
    } else {
        let pieces = split_by(path, '.');
        proof {
            crate::text::lemma_split_all_nonempty(path@, '.');
        }
        pieces[pieces.len() - 1].clone()
    }
}

/// The value at a dotted path of object keys.
pub open spec fn resolve_path_spec(v: JsonV, path: Seq<char>) -> Option<JsonV> {
    v.get_path(split_all(path, '.'))
}

/// Follows the dotted `path` through nested objects.
pub fn resolve_path<'a>(value: &'a Json, path: &str) -> (r: Option<&'a Json>)
    ensures
        match r {
            Some(v) => resolve_path_spec(value.view_json(), path@) == Some(v.view_json()),
            None => resolve_path_spec(value.view_json(), path@) is None,
        },
{
    let segments = split_by(path, '.');
    value.get_path(&segments)
}

/// The resource group of an item: its `resourceGroup` text, else the
/// segment after `/resourceGroups/` (any ASCII case) in its `id`.
pub open spec fn item_resource_group(item: JsonV) -> Seq<char> {
    match item.str_field("resourceGroup"@) {
        Some(rg) => rg,
        None => match item.str_field("id"@) {
            None => seq![],
            Some(id) => rg_from_id(id),
        },
    }
}

/// The segment after the first `/resourcegroups/`, compared in ASCII
/// lowercase, up to the next `/`.
pub open spec fn rg_from_id(id: Seq<char>) -> Seq<char> {
    match find_from(ascii_lower(id), "/resourcegroups/"@, 0) {
        None => seq![],
        Some(i) => before_char(id.skip(i + "/resourcegroups/"@.len()), '/'),
    }
}

/// The segment after `/resourcegroups/` in a resource id, or `None` when
/// the id holds no such segment.
pub fn resource_group_of_id(id: &str) -> (r: Option<String>)
    ensures
        match r {
            Some(s) => find_from(ascii_lower(id@), "/resourcegroups/"@, 0) is Some && s@ == rg_from_id(id@),
            None => find_from(ascii_lower(id@), "/resourcegroups/"@, 0) is None,
        },
{
    let lower = to_ascii_lowercase(id);
    let hay = chars_of(lower.as_str());
    let needle = chars_of("/resourcegroups/");
    match find_sub(&hay, &needle) {
        None => None,
        Some(i) => {
            let v = chars_of(id);
            proof {
                crate::text::lemma_find_from_bounds(hay@, needle@, 0);
                assert(i + needle@.len() <= hay@.len());
                assert(hay@.len() == v@.len());
                assert(hay@.len() == hay.len());
                assert(needle@.len() == needle.len());
                assert(i + needle.len() <= hay.len());
            }
            let start = i + needle.len();
            let rest = crate::text::chars_from(&v, start);
            let rest_s = string_of(&rest);
            Some(split_first(rest_s.as_str(), '/'))
        },
    }
}

/// The resource group column of a table row.
pub fn extract_resource_group(item: &Json) -> (r: String)
    ensures
        r@ == item_resource_group(item.view_json()),
{
    if let Some(rg) = item.str_field("resourceGroup") {
        return owned(rg);
    }
    match item.str_field("id") {
        None => String::new(),
        Some(id) => match resource_group_of_id(id) {
            Some(s) => s,
            None => String::new(),
        },
    }
}


/// The texts of the string items of an array, in order.
pub open spec fn str_items(items: Seq<JsonV>) -> Seq<Seq<char>>
    decreases items.len(),
{
    if items.len() == 0 {
        seq![]
    } else {
        match items.last().as_str() {
            Some(t) => str_items(items.drop_last()).push(t),
            None => str_items(items.drop_last()),
        }
    }
}

/// The string items of an array value, sorted and joined with commas;
/// empty when the value is missing or not an array.
pub open spec fn joined_strings(v: Option<JsonV>) -> Seq<char> {
    match v {
        Some(JsonV::Array(items)) => join(str_items(items).sort_by(str_leq()), ","@),
        _ => seq![],
    }
}

/// Joins the string items of an array in ascending order with `,`.
pub fn join_string_array(value: Option<&Json>) -> (r: String)
    ensures
        r@ == joined_strings(match value {
            Some(v) => Some(v.view_json()),
            None => None,
        }),
{
    let arr = match value {
        Some(v) => match v.as_array() {
            Some(a) => a,
            None => return String::new(),
        },
        None => return String::new(),
    };
    proof {
        lemma_views(arr@);
    }
    let ghost vs = views(arr@);
    let mut parts: Vec<String> = Vec::new();
    let mut i: usize = 0;
    while i < arr.len()
        invariant
            i <= arr.len(),
            vs == views(arr@),
            vs.len() == arr@.len(),
            forall|j: int| 0 <= j < arr@.len() ==> #[trigger] vs[j] == arr@[j].view_json(),
            string_views(parts@) == str_items(vs.take(i as int)),
        decreases arr.len() - i,
    {
        let ghost t = vs.take(i + 1);
        assert(t.drop_last() =~= vs.take(i as int));
        match arr[i].as_str() {
            Some(s) => {
                let ghost before = string_views(parts@);
                parts.push(owned(s));
                assert(string_views(parts@) =~= before.push(s@));
            },
            None => {},
        }
        i = i + 1;
    }
    assert(vs.take(arr.len() as int) =~= vs);
    let sorted = sort_strings(parts);
    join_strings(&sorted, ",")
}


/// The sorted, comma-joined strings under `key` of an optional object.
pub open spec fn joined_under(info: Option<JsonV>, key: Seq<char>) -> Seq<char> {
    match info {
        Some(i) => match i.get(key) {
            Some(v) => joined_strings(Some(v)),
            None => seq![],
        },
        None => seq![],
    }
}

/// One restriction as text: its reason, then its type, locations and
/// zones where those are not empty.
pub open spec fn restriction_text(r: JsonV) -> Seq<char> {
    let reason = match r.str_field("reasonCode"@) {
        Some(x) => x,
        None => "Restricted"@,
    };
    let rtype = match r.str_field("type"@) {
        Some(x) => x,
        None => seq![],
    };
    let info = r.get("restrictionInfo"@);
    let locs = joined_under(info, "locations"@);
    let zones = joined_under(info, "zones"@);
    let parts = seq![reason] + (if rtype.len() > 0 {
        seq!["type: "@ + rtype]
    } else {
        seq![]
    }) + (if locs.len() > 0 {
        seq!["locations: "@ + locs]
    } else {
        seq![]
    }) + (if zones.len() > 0 {
        seq!["zones: "@ + zones]
    } else {
        seq![]
    });
    join(parts, ", "@)
}

/// The restrictions column: each restriction's text joined with `; `, or
/// `None` when there are none.
pub open spec fn restrictions_text(v: Option<JsonV>) -> Seq<char> {
    match v {
        Some(JsonV::Array(a)) => if a.len() > 0 {
            join(Seq::new(a.len(), |i: int| restriction_text(a[i])), "; "@)
        } else {
            "None"@
        },
        _ => "None"@,
    }
}

fn joined_under_exec(info: Option<&Json>, key: &str) -> (r: String)
    ensures
        r@ == joined_under(match info {
            Some(i) => Some(i.view_json()),
            None => None,
        }, key@),
{
    match info {
        Some(i) => match i.get(key) {
            Some(v) => join_string_array(Some(v)),
            None => String::new(),
        },
        None => String::new(),
    }
}

fn restriction_summary(r: &Json) -> (t: String)
    ensures
        t@ == restriction_text(r.view_json()),
{
    let reason = match r.str_field("reasonCode") {
        Some(x) => owned(x),
        None => owned("Restricted"),
    };
    let rtype = match r.str_field("type") {
        Some(x) => owned(x),
        None => String::new(),
    };
    let info = r.get("restrictionInfo");
    let locs = joined_under_exec(info, "locations");
    let zones = joined_under_exec(info, "zones");
    let ghost tail1: Seq<Seq<char>> = if rtype@.len() > 0 { seq!["type: "@ + rtype@] } else { seq![] };
    let ghost tail2: Seq<Seq<char>> = if locs@.len() > 0 { seq!["locations: "@ + locs@] } else { seq![] };
    let ghost tail3: Seq<Seq<char>> = if zones@.len() > 0 { seq!["zones: "@ + zones@] } else { seq![] };
    let mut parts: Vec<String> = Vec::new();
    parts.push(reason);
    assert(string_views(parts@) =~= seq![reason@]);
    if !rtype.as_str().is_empty() {
        let ghost b = string_views(parts@);
        parts.push(concat("type: ", rtype.as_str()));
        assert(string_views(parts@) =~= b.push("type: "@ + rtype@));
    }
    assert(string_views(parts@) =~= seq![reason@] + tail1);
    if !locs.as_str().is_empty() {
        let ghost b = string_views(parts@);
        parts.push(concat("locations: ", locs.as_str()));
        assert(string_views(parts@) =~= b.push("locations: "@ + locs@));
    }
    assert(string_views(parts@) =~= seq![reason@] + tail1 + tail2);
    if !zones.as_str().is_empty() {
        let ghost b = string_views(parts@);
        parts.push(concat("zones: ", zones.as_str()));
        assert(string_views(parts@) =~= b.push("zones: "@ + zones@));
    }
    assert(string_views(parts@) =~= seq![reason@] + tail1 + tail2 + tail3);
    join_strings(&parts, ", ")
}

/// Summarises the `restrictions` array of a SKU.
pub fn summarize_restrictions(value: Option<&Json>) -> (r: String)
    ensures
        r@ == restrictions_text(match value {
            Some(v) => Some(v.view_json()),
            None => None,
        }),
{
    let arr = match value {
        Some(v) => match v.as_array() {
            Some(a) => a,
            None => return owned("None"),
        },
        None => return owned("None"),
    };
    if arr.len() == 0 {
        proof {
            lemma_views(arr@);
        }
        return owned("None");
    }
    proof {
        lemma_views(arr@);
    }
    let ghost vs = views(arr@);
    let ghost texts = Seq::new(vs.len(), |i: int| restriction_text(vs[i]));
    let mut parts: Vec<String> = Vec::new();
    let mut i: usize = 0;
    while i < arr.len()
        invariant
            i <= arr.len(),
            vs == views(arr@),
            vs.len() == arr@.len(),
            texts == Seq::new(vs.len(), |i: int| restriction_text(vs[i])),
            forall|j: int| 0 <= j < arr@.len() ==> #[trigger] vs[j] == arr@[j].view_json(),
            string_views(parts@) == texts.take(i as int),
        decreases arr.len() - i,
    {
        let ghost b = string_views(parts@);
        let t = restriction_summary(&arr[i]);
        assert(t@ == texts[i as int]);
        parts.push(t);
        assert(string_views(parts@) =~= b.push(t@));
        assert(texts.take(i + 1) =~= texts.take(i as int).push(texts[i as int]));
        i = i + 1;
    }
    assert(texts.take(arr.len() as int) =~= texts);
    join_strings(&parts, "; ")
}


/// The non-empty pieces, in order.
pub open spec fn nonempty_pieces(ps: Seq<Seq<char>>) -> Seq<Seq<char>>
    decreases ps.len(),
{
    if ps.len() == 0 {
        seq![]
    } else if ps.last().len() > 0 {
        nonempty_pieces(ps.drop_last()).push(ps.last())
    } else {
        nonempty_pieces(ps.drop_last())
    }
}

/// Walks the segments of a scope, picking the subscription, the resource
/// group and, after a `providers` segment with at least three more, the
/// last segment.
pub open spec fn scan_scope(
    parts: Seq<Seq<char>>,
    i: int,
    sub: Seq<char>,
    rg: Option<Seq<char>>,
    leaf: Option<Seq<char>>,
) -> (Seq<char>, Option<Seq<char>>, Option<Seq<char>>)
    decreases parts.len() - i,
{
    if i < 0 || i >= parts.len() {
        (sub, rg, leaf)
    } else {
        let w = ascii_lower(parts[i]);
        if w == "subscriptions"@ && i + 1 < parts.len() {
            scan_scope(parts, i + 2, parts[i + 1], rg, leaf)
        } else if w == "resourcegroups"@ && i + 1 < parts.len() {
            scan_scope(parts, i + 2, sub, Some(parts[i + 1]), leaf)
        } else if w == "providers"@ && i + 3 < parts.len() {
            (sub, rg, Some(parts[parts.len() - 1]))
        } else {
            scan_scope(parts, i + 1, sub, rg, leaf)
        }
    }
}

/// A short label for a role scope: `sub:<first block of the subscription
/// id>`, then `/<group>` and `/.../<leaf>` where present.
pub open spec fn short_scope_spec(scope: Seq<char>) -> Seq<char> {
    let parts = nonempty_pieces(split_all(scope, '/'));
    let (sub, rg, leaf) = scan_scope(parts, 0, seq![], None, None);
    let sub_short = before_char(sub, '-');
    match rg {
        None => "sub:"@ + sub_short,
        Some(r) => match leaf {
            None => "sub:"@ + sub_short + "/"@ + r,
            Some(l) => "sub:"@ + sub_short + "/"@ + r + "/.../"@ + l,
        },
    }
}

/// Shortens a role-assignment scope for display.
pub fn short_scope(scope: &str) -> (r: String)
    ensures
        r@ == short_scope_spec(scope@),
{
    let pieces = split_by(scope, '/');
    let mut parts: Vec<String> = Vec::new();
    let mut k: usize = 0;
    while k < pieces.len()
        invariant
            k <= pieces.len(),
            string_views(pieces@) == split_all(scope@, '/'),
            string_views(parts@) == nonempty_pieces(string_views(pieces@).take(k as int)),
        decreases pieces.len() - k,
    {
        let ghost t = string_views(pieces@).take(k + 1);
        assert(t.drop_last() =~= string_views(pieces@).take(k as int));
        assert(t.last() == pieces@[k as int]@);
        if !pieces[k].as_str().is_empty() {
            let ghost b = string_views(parts@);
            parts.push(pieces[k].clone());
            assert(string_views(parts@) =~= b.push(pieces@[k as int]@));
        }
        k = k + 1;
    }
    assert(string_views(pieces@).take(pieces.len() as int) =~= string_views(pieces@));
    let ghost ps = string_views(parts@);
    let mut sub = String::new();
    let mut rg: Option<String> = None;
    let mut leaf: Option<String> = None;
    let mut i: usize = 0;
    let n = parts.len();
    while i < n
        invariant
            n == parts.len(),
            ps == string_views(parts@),
            ps.len() == n,
            i <= n,
            scan_scope(ps, 0, seq![], None, None) == scan_scope(
                ps,
                i as int,
                sub@,
                match rg {
                    Some(x) => Some(x@),
                    None => None,
                },
                match leaf {
                    Some(x) => Some(x@),
                    None => None,
                },
            ),
        decreases n - i,
    {
        let w = to_ascii_lowercase(parts[i].as_str());
        assert(ps[i as int] == parts@[i as int]@);
        if str_eq(w.as_str(), "subscriptions") && i + 1 < n {
            sub = parts[i + 1].clone();
            i = i + 2;
        } else if str_eq(w.as_str(), "resourcegroups") && i + 1 < n {
            rg = Some(parts[i + 1].clone());
            i = i + 2;
        } else if str_eq(w.as_str(), "providers") && n > 3 && i < n - 3 {
            leaf = Some(parts[n - 1].clone());
            assert(ps[n - 1] == parts@[n - 1]@);
            i = n;
        } else {
            i = i + 1;
        }
    }
    assert(ps == nonempty_pieces(split_all(scope@, '/')));
    let sub_short = split_first(sub.as_str(), '-');
    let head = concat("sub:", sub_short.as_str());
    match rg {
        None => head,
        Some(r) => {
            let a = concat(head.as_str(), "/");
            let b = concat(a.as_str(), r.as_str());
            match leaf {
                None => b,
                Some(l) => {
                    let c = concat(b.as_str(), "/.../");
                    concat(c.as_str(), l.as_str())
                },
            }
        },
    }
}


/// The text of an optional string value, or empty.
pub open spec fn str_or_empty(v: Option<JsonV>) -> Seq<char> {
    match v {
        Some(JsonV::Str(s)) => s,
        _ => seq![],
    }
}

/// The text shown in a table cell for `path` of `item`.
pub open spec fn field_text(item: JsonV, path: Seq<char>) -> Seq<char> {
    if path == "@resourceType"@ {
        str_or_empty(resolve_path_spec(item, "resourceType"@))
    } else if path == "@name"@ {
        str_or_empty(resolve_path_spec(item, "name"@))
    } else if path == "@locations"@ {
        joined_strings(item.get("locations"@))
    } else if path == "@zones"@ {
        match item.get("locationInfo"@) {
            Some(JsonV::Array(a)) => if a.len() > 0 {
                joined_strings(a[0].get("zones"@))
            } else {
                seq![]
            },
            _ => seq![],
        }
    } else if path == "@restrictions"@ {
        restrictions_text(item.get("restrictions"@))
    } else if path == "@scopeShort"@ {
        short_scope_spec(str_or_empty(item.get("scope"@)))
    } else if path == "@resourceGroup"@ {
        item_resource_group(item)
    } else {
        match resolve_path_spec(item, path) {
            Some(JsonV::Str(s)) => s,
            Some(JsonV::Null) => seq![],
            Some(v) => json_text(v),
            None => seq![],
        }
    }
}

fn str_of_opt(v: Option<&Json>) -> (r: String)
    ensures
        r@ == str_or_empty(match v {
            Some(x) => Some(x.view_json()),
            None => None,
        }),
{
    match v {
        Some(x) => match x.as_str() {
            Some(s) => owned(s),
            None => String::new(),
        },
        None => String::new(),
    }
}

/// The text of one table cell.
pub fn extract_field(item: &Json, path: &str) -> (r: String)
    ensures
        r@ == field_text(item.view_json(), path@),
{
    if str_eq(path, "@resourceType") {
        str_of_opt(resolve_path(item, "resourceType"))
    } else if str_eq(path, "@name") {
        str_of_opt(resolve_path(item, "name"))
    } else if str_eq(path, "@locations") {
        join_string_array(item.get("locations"))
    } else if str_eq(path, "@zones") {
        match item.get("locationInfo") {
            Some(li) => match li.as_array() {
                Some(a) => {
                    proof {
                        lemma_views(a@);
                    }
                    if a.len() > 0 {
                        join_string_array(a[0].get("zones"))
                    } else {
                        String::new()
                    }
                },
                None => String::new(),
            },
            None => String::new(),
        }
    } else if str_eq(path, "@restrictions") {
        summarize_restrictions(item.get("restrictions"))
    } else if str_eq(path, "@scopeShort") {
        let scope = str_of_opt(item.get("scope"));
        short_scope(scope.as_str())
    } else if str_eq(path, "@resourceGroup") {
        extract_resource_group(item)
    } else {
        match resolve_path(item, path) {
            Some(v) => match v {
                Json::Str(s) => s.clone(),
                Json::Null => String::new(),
                _ => v.to_compact_string(),
            },
            None => String::new(),
        }
    }
}

/// `item` with `state` recorded under `"state"` when it is an object.
pub open spec fn tagged(item: JsonV, state: Seq<char>) -> JsonV {
    item.insert("state"@, JsonV::Str(state))
}

/// Records `state` under the key `"state"` of an object item.
pub fn tag_state(item: Json, state: &str) -> (r: Json)
    requires
        item.view_json().wf(),
    ensures
        r.view_json() == tagged(item.view_json(), state@),
        r.view_json().wf(),
{
    let mut item = item;
    item.insert(owned("state"), Json::string(state));
    item
}

/// The items of an optional array value, or none.
pub open spec fn array_or_empty(v: Option<JsonV>) -> Seq<JsonV> {
    match v {
        Some(JsonV::Array(a)) => a,
        _ => seq![],
    }
}

/// The rows a table shows for a value: an array's items; an object's
/// `value` array; its `eligible` and `active` arrays, each item tagged with
/// its state; or the value itself.
pub open spec fn unwrapped(v: JsonV) -> Seq<JsonV> {
    match v {
        JsonV::Array(a) => a,
        JsonV::Object(_) => match v.get("value"@) {
            Some(JsonV::Array(a)) => a,
            _ => {
                let el = v.get("eligible"@);
                let ac = v.get("active"@);
                if el matches Some(JsonV::Array(_)) || ac matches Some(JsonV::Array(_)) {
                    let e = array_or_empty(el);
                    let a = array_or_empty(ac);
                    Seq::new(e.len(), |i: int| tagged(e[i], "Eligible"@)) + Seq::new(
                        a.len(),
                        |i: int| tagged(a[i], "Active"@),
                    )
                } else {
                    seq![v]
                }
            },
        },
        _ => seq![v],
    }
}

fn clone_items(a: &Vec<Json>) -> (r: Vec<Json>)
    ensures
        views(r@) == views(a@),
{
    let mut out: Vec<Json> = Vec::new();
    let mut i: usize = 0;
    proof {
        lemma_views(a@);
    }
    while i < a.len()
        invariant
            i <= a.len(),
            out@.len() == i,
            forall|j: int| 0 <= j < i ==> (#[trigger] out@[j]).view_json() == a@[j].view_json(),
        decreases a.len() - i,
    {
        out.push(a[i].deep_clone());
        i = i + 1;
    }
    proof {
        lemma_views(out@);
    }
    assert(views(out@) =~= views(a@));
    out
}

fn push_tagged(out: &mut Vec<Json>, a: &Vec<Json>, state: &str)
    requires
        forall|j: int| 0 <= j < a@.len() ==> (#[trigger] a@[j]).view_json().wf(),
    ensures
        views(final(out)@) == views(old(out)@) + Seq::new(
            a@.len(),
            |i: int| tagged(a@[i].view_json(), state@),
        ),
{
    let ghost start = views(out@);
    let ghost tail = Seq::new(a@.len(), |i: int| tagged(a@[i].view_json(), state@));
    proof {
        lemma_views(out@);
    }
    let mut i: usize = 0;
    while i < a.len()
        invariant
            i <= a.len(),
            forall|j: int| 0 <= j < a@.len() ==> (#[trigger] a@[j]).view_json().wf(),
            views(out@) == start + tail.take(i as int),
            tail == Seq::new(a@.len(), |i: int| tagged(a@[i].view_json(), state@)),
        decreases a.len() - i,
    {
        let ghost before = out@;
        let t = tag_state(a[i].deep_clone(), state);
        out.push(t);
        proof {
            lemma_views(out@);
            lemma_views(before);
            assert(views(out@) =~= views(before).push(t.view_json()));
            assert(tail.take(i + 1) =~= tail.take(i as int).push(tail[i as int]));
        }
        i = i + 1;
    }
    assert(tail.take(a.len() as int) =~= tail);
}

/// The rows of a value for table and TSV output.
pub fn unwrap_items(value: &Json) -> (r: Vec<Json>)
    requires
        value.view_json().wf(),
    ensures
        views(r@) == unwrapped(value.view_json()),
{
    match value {
        Json::Array(a) => clone_items(a),
        Json::Object(_) => {
            if let Some(v) = value.get("value") {
                if let Some(a) = v.as_array() {
                    return clone_items(a);
                }
            }
            let el = value.get("eligible");
            let ac = value.get("active");
            let el_arr = match el {
                Some(x) => x.as_array(),
                None => None,
            };
            let ac_arr = match ac {
                Some(x) => x.as_array(),
                None => None,
            };
            proof {
                lemma_get_wf(value.view_json(), "eligible"@);
                lemma_get_wf(value.view_json(), "active"@);
            }
            if el_arr.is_some() || ac_arr.is_some() {
                let mut out: Vec<Json> = Vec::new();
                proof {
                    lemma_views(out@);
                    assert(views(out@) =~= seq![]);
                }
                if let Some(a) = el_arr {
                    proof {
                        lemma_views(a@);
                        assert forall|j: int| 0 <= j < a@.len() implies (#[trigger] a@[j]).view_json().wf() by {
                            assert(views(a@)[j] == a@[j].view_json());
                        }
                    }
                    push_tagged(&mut out, a, "Eligible");
                }
                if let Some(a) = ac_arr {
                    proof {
                        lemma_views(a@);
                        assert forall|j: int| 0 <= j < a@.len() implies (#[trigger] a@[j]).view_json().wf() by {
                            assert(views(a@)[j] == a@[j].view_json());
                        }
                    }
                    push_tagged(&mut out, a, "Active");
                }
                proof {
                    let e = array_or_empty(value.view_json().get("eligible"@));
                    let aa = array_or_empty(value.view_json().get("active"@));
                    if el_arr.is_none() {
                        assert(Seq::new(e.len(), |i: int| tagged(e[i], "Eligible"@)) =~= seq![]);
                    } else {
                        lemma_views(el_arr.unwrap()@);
                        assert(Seq::new(e.len(), |i: int| tagged(e[i], "Eligible"@)) =~= Seq::new(
                            el_arr.unwrap()@.len(),
                            |i: int| tagged(el_arr.unwrap()@[i].view_json(), "Eligible"@),
                        ));
                    }
                    if ac_arr.is_none() {
                        assert(Seq::new(aa.len(), |i: int| tagged(aa[i], "Active"@)) =~= seq![]);
                    } else {
                        lemma_views(ac_arr.unwrap()@);
                        assert(Seq::new(aa.len(), |i: int| tagged(aa[i], "Active"@)) =~= Seq::new(
                            ac_arr.unwrap()@.len(),
                            |i: int| tagged(ac_arr.unwrap()@[i].view_json(), "Active"@),
                        ));
                    }
                }
                return out;
            }
            let mut out: Vec<Json> = Vec::new();
            out.push(value.deep_clone());
            proof {
                lemma_views(out@);
            }
            assert(views(out@) =~= seq![value.view_json()]);
            out
        },
        _ => {
            let mut out: Vec<Json> = Vec::new();
            out.push(value.deep_clone());
            proof {
                lemma_views(out@);
            }
            assert(views(out@) =~= seq![value.view_json()]);
            out
        },
    }
}


fn push_owned(v: &mut Vec<String>, s: &str)
    ensures
        string_views(final(v)@) == string_views(old(v)@).push(s@),
{
    v.push(owned(s));
    assert(string_views(v@) =~= string_views(old(v)@).push(s@));
}

/// The columns a known resource type is shown with.
pub open spec fn type_columns(t: Seq<char>) -> Option<Seq<Seq<char>>> {
    if ascii_lower(t) == ascii_lower("Microsoft.Compute/images"@) {
        Some(seq!["name"@, "@resourceGroup"@, "location"@, "properties.hyperVGeneration"@, "properties.provisioningState"@])
    } else if ascii_lower(t) == ascii_lower("Microsoft.VirtualMachineImages/imageTemplates"@) {
        Some(seq!["name"@, "@resourceGroup"@, "location"@, "properties.provisioningState"@, "properties.lastRunStatus.runState"@])
    } else if ascii_lower(t) == ascii_lower("Microsoft.Compute/galleries"@) {
        Some(seq!["name"@, "@resourceGroup"@, "location"@, "properties.provisioningState"@, "properties.sharingProfile.permissions"@])
    } else if ascii_lower(t) == ascii_lower("Microsoft.Compute/galleries/images"@) {
        Some(seq!["name"@, "@resourceGroup"@, "location"@, "properties.osType"@, "properties.hyperVGeneration"@, "properties.provisioningState"@])
    } else if ascii_lower(t) == ascii_lower("Microsoft.Compute/galleries/images/versions"@) {
        Some(seq!["name"@, "@resourceGroup"@, "location"@, "properties.publishingProfile.excludeFromLatest"@, "properties.provisioningState"@])
    } else if ascii_lower(t) == ascii_lower("microsoft.compute/locations/communitygalleries"@) {
        Some(seq!["name"@, "location"@, "properties.publicNames"@])
    } else if ascii_lower(t) == ascii_lower("Microsoft.Network/virtualNetworks"@) {
        Some(seq!["name"@, "@resourceGroup"@, "location"@, "properties.addressSpace.addressPrefixes"@, "properties.provisioningState"@])
    } else if ascii_lower(t) == ascii_lower("Microsoft.Network/virtualNetworks/subnets"@) {
        Some(seq!["name"@, "properties.addressPrefix"@, "properties.provisioningState"@])
    } else if ascii_lower(t) == ascii_lower("Microsoft.Network/virtualNetworks/virtualNetworkPeerings"@) {
        Some(seq!["name"@, "properties.peeringState"@, "properties.peeringSyncLevel"@, "properties.provisioningState"@])
    } else if ascii_lower(t) == ascii_lower("Microsoft.Network/networkSecurityGroups"@) {
        Some(seq!["name"@, "@resourceGroup"@, "location"@, "properties.provisioningState"@])
    } else if ascii_lower(t) == ascii_lower("Microsoft.Network/networkSecurityGroups/securityRules"@) {
        Some(seq!["name"@, "properties.priority"@, "properties.direction"@, "properties.access"@, "properties.protocol"@, "properties.destinationPortRange"@])
    } else if ascii_lower(t) == ascii_lower("Microsoft.Network/publicIPAddresses"@) {
        Some(seq!["name"@, "@resourceGroup"@, "location"@, "properties.ipAddress"@, "properties.publicIPAllocationMethod"@, "properties.provisioningState"@])
    } else if ascii_lower(t) == ascii_lower("Microsoft.Network/networkInterfaces"@) {
        Some(seq!["name"@, "@resourceGroup"@, "location"@, "properties.macAddress"@, "properties.primary"@, "properties.provisioningState"@])
    } else if ascii_lower(t) == ascii_lower("Microsoft.Network/networkInterfaces/ipConfigurations"@) {
        Some(seq!["name"@, "properties.privateIPAddress"@, "properties.privateIPAllocationMethod"@, "properties.primary"@, "properties.provisioningState"@])
    } else if ascii_lower(t) == ascii_lower("Microsoft.Network/privateEndpoints"@) {
        Some(seq!["name"@, "@resourceGroup"@, "location"@, "properties.provisioningState"@])
    } else {
        None
    }
}

fn type_columns_exec(t: &str) -> (r: Option<Vec<String>>)
    ensures
        match r {
            Some(c) => type_columns(t@) == Some(string_views(c@)),
            None => type_columns(t@) is None,
        },
{
    if eq_ignore_ascii_case(t, "Microsoft.Compute/images") {
        let mut c: Vec<String> = Vec::new();
        push_owned(&mut c, "name");
        push_owned(&mut c, "@resourceGroup");
        push_owned(&mut c, "location");
        push_owned(&mut c, "properties.hyperVGeneration");
        push_owned(&mut c, "properties.provisioningState");
        assert(string_views(c@) =~= seq!["name"@, "@resourceGroup"@, "location"@, "properties.hyperVGeneration"@, "properties.provisioningState"@]);
        Some(c)
    } else if eq_ignore_ascii_case(t, "Microsoft.VirtualMachineImages/imageTemplates") {
        let mut c: Vec<String> = Vec::new();
        push_owned(&mut c, "name");
        push_owned(&mut c, "@resourceGroup");
        push_owned(&mut c, "location");
        push_owned(&mut c, "properties.provisioningState");
        push_owned(&mut c, "properties.lastRunStatus.runState");
        assert(string_views(c@) =~= seq!["name"@, "@resourceGroup"@, "location"@, "properties.provisioningState"@, "properties.lastRunStatus.runState"@]);
        Some(c)
    } else if eq_ignore_ascii_case(t, "Microsoft.Compute/galleries") {
        let mut c: Vec<String> = Vec::new();
        push_owned(&mut c, "name");
        push_owned(&mut c, "@resourceGroup");
        push_owned(&mut c, "location");
        push_owned(&mut c, "properties.provisioningState");
        push_owned(&mut c, "properties.sharingProfile.permissions");
        assert(string_views(c@) =~= seq!["name"@, "@resourceGroup"@, "location"@, "properties.provisioningState"@, "properties.sharingProfile.permissions"@]);
        Some(c)
    } else if eq_ignore_ascii_case(t, "Microsoft.Compute/galleries/images") {
        let mut c: Vec<String> = Vec::new();
        push_owned(&mut c, "name");
        push_owned(&mut c, "@resourceGroup");
        push_owned(&mut c, "location");
        push_owned(&mut c, "properties.osType");
        push_owned(&mut c, "properties.hyperVGeneration");
        push_owned(&mut c, "properties.provisioningState");
        assert(string_views(c@) =~= seq!["name"@, "@resourceGroup"@, "location"@, "properties.osType"@, "properties.hyperVGeneration"@, "properties.provisioningState"@]);
        Some(c)
    } else if eq_ignore_ascii_case(t, "Microsoft.Compute/galleries/images/versions") {
        let mut c: Vec<String> = Vec::new();
        push_owned(&mut c, "name");
        push_owned(&mut c, "@resourceGroup");
        push_owned(&mut c, "location");
        push_owned(&mut c, "properties.publishingProfile.excludeFromLatest");
        push_owned(&mut c, "properties.provisioningState");
        assert(string_views(c@) =~= seq!["name"@, "@resourceGroup"@, "location"@, "properties.publishingProfile.excludeFromLatest"@, "properties.provisioningState"@]);
        Some(c)
    } else if eq_ignore_ascii_case(t, "microsoft.compute/locations/communitygalleries") {
        let mut c: Vec<String> = Vec::new();
        push_owned(&mut c, "name");
        push_owned(&mut c, "location");
        push_owned(&mut c, "properties.publicNames");
        assert(string_views(c@) =~= seq!["name"@, "location"@, "properties.publicNames"@]);
        Some(c)
    } else if eq_ignore_ascii_case(t, "Microsoft.Network/virtualNetworks") {
        let mut c: Vec<String> = Vec::new();
        push_owned(&mut c, "name");
        push_owned(&mut c, "@resourceGroup");
        push_owned(&mut c, "location");
        push_owned(&mut c, "properties.addressSpace.addressPrefixes");
        push_owned(&mut c, "properties.provisioningState");
        assert(string_views(c@) =~= seq!["name"@, "@resourceGroup"@, "location"@, "properties.addressSpace.addressPrefixes"@, "properties.provisioningState"@]);
        Some(c)
    } else if eq_ignore_ascii_case(t, "Microsoft.Network/virtualNetworks/subnets") {
        let mut c: Vec<String> = Vec::new();
        push_owned(&mut c, "name");
        push_owned(&mut c, "properties.addressPrefix");
        push_owned(&mut c, "properties.provisioningState");
        assert(string_views(c@) =~= seq!["name"@, "properties.addressPrefix"@, "properties.provisioningState"@]);
        Some(c)
    } else if eq_ignore_ascii_case(t, "Microsoft.Network/virtualNetworks/virtualNetworkPeerings") {
        let mut c: Vec<String> = Vec::new();
        push_owned(&mut c, "name");
        push_owned(&mut c, "properties.peeringState");
        push_owned(&mut c, "properties.peeringSyncLevel");
        push_owned(&mut c, "properties.provisioningState");
        assert(string_views(c@) =~= seq!["name"@, "properties.peeringState"@, "properties.peeringSyncLevel"@, "properties.provisioningState"@]);
        Some(c)
    } else if eq_ignore_ascii_case(t, "Microsoft.Network/networkSecurityGroups") {
        let mut c: Vec<String> = Vec::new();
        push_owned(&mut c, "name");
        push_owned(&mut c, "@resourceGroup");
        push_owned(&mut c, "location");
        push_owned(&mut c, "properties.provisioningState");
        assert(string_views(c@) =~= seq!["name"@, "@resourceGroup"@, "location"@, "properties.provisioningState"@]);
        Some(c)
    } else if eq_ignore_ascii_case(t, "Microsoft.Network/networkSecurityGroups/securityRules") {
        let mut c: Vec<String> = Vec::new();
        push_owned(&mut c, "name");
        push_owned(&mut c, "properties.priority");
        push_owned(&mut c, "properties.direction");
        push_owned(&mut c, "properties.access");
        push_owned(&mut c, "properties.protocol");
        push_owned(&mut c, "properties.destinationPortRange");
        assert(string_views(c@) =~= seq!["name"@, "properties.priority"@, "properties.direction"@, "properties.access"@, "properties.protocol"@, "properties.destinationPortRange"@]);
        Some(c)
    } else if eq_ignore_ascii_case(t, "Microsoft.Network/publicIPAddresses") {
        let mut c: Vec<String> = Vec::new();
        push_owned(&mut c, "name");
        push_owned(&mut c, "@resourceGroup");
        push_owned(&mut c, "location");
        push_owned(&mut c, "properties.ipAddress");
        push_owned(&mut c, "properties.publicIPAllocationMethod");
        push_owned(&mut c, "properties.provisioningState");
        assert(string_views(c@) =~= seq!["name"@, "@resourceGroup"@, "location"@, "properties.ipAddress"@, "properties.publicIPAllocationMethod"@, "properties.provisioningState"@]);
        Some(c)
    } else if eq_ignore_ascii_case(t, "Microsoft.Network/networkInterfaces") {
        let mut c: Vec<String> = Vec::new();
        push_owned(&mut c, "name");
        push_owned(&mut c, "@resourceGroup");
        push_owned(&mut c, "location");
        push_owned(&mut c, "properties.macAddress");
        push_owned(&mut c, "properties.primary");
        push_owned(&mut c, "properties.provisioningState");
        assert(string_views(c@) =~= seq!["name"@, "@resourceGroup"@, "location"@, "properties.macAddress"@, "properties.primary"@, "properties.provisioningState"@]);
        Some(c)
    } else if eq_ignore_ascii_case(t, "Microsoft.Network/networkInterfaces/ipConfigurations") {
        let mut c: Vec<String> = Vec::new();
        push_owned(&mut c, "name");
        push_owned(&mut c, "properties.privateIPAddress");
        push_owned(&mut c, "properties.privateIPAllocationMethod");
        push_owned(&mut c, "properties.primary");
        push_owned(&mut c, "properties.provisioningState");
        assert(string_views(c@) =~= seq!["name"@, "properties.privateIPAddress"@, "properties.privateIPAllocationMethod"@, "properties.primary"@, "properties.provisioningState"@]);
        Some(c)
    } else if eq_ignore_ascii_case(t, "Microsoft.Network/privateEndpoints") {
        let mut c: Vec<String> = Vec::new();
        push_owned(&mut c, "name");
        push_owned(&mut c, "@resourceGroup");
        push_owned(&mut c, "location");
        push_owned(&mut c, "properties.provisioningState");
        assert(string_views(c@) =~= seq!["name"@, "@resourceGroup"@, "location"@, "properties.provisioningState"@]);
        Some(c)
    } else {
        None
    }
}


pub open spec fn has(v: JsonV, k: Seq<char>) -> bool {
    v.get(k) is Some
}

pub open spec fn has_path(v: JsonV, p: Seq<char>) -> bool {
    resolve_path_spec(v, p) is Some
}

pub open spec fn if_has_path(v: JsonV, p: Seq<char>) -> Seq<Seq<char>> {
    if has_path(v, p) {
        seq![p]
    } else {
        seq![]
    }
}

/// The common columns among those the sample holds, in a fixed order.
pub open spec fn preferred_columns(v: JsonV) -> Seq<Seq<char>> {
    if_has_path(v, "name"@) + if_has_path(v, "location"@) + if_has_path(v, "resourceGroup"@) + if_has_path(v, "provisioningState"@) + if_has_path(v, "properties.provisioningState"@) + if_has_path(v, "hardwareProfile.vmSize"@) + if_has_path(v, "sku.name"@) + if_has_path(v, "properties.dnsName"@)
}

/// The first (at most six) keys of an object, in key order.
pub open spec fn first_keys(m: Seq<(Seq<char>, JsonV)>) -> Seq<Seq<char>> {
    Seq::new(if m.len() < 6 { m.len() } else { 6 }, |i: int| m[i].0)
}

/// The columns a table shows, chosen from the first row.
pub open spec fn table_columns(v: JsonV) -> Seq<Seq<char>> {
    match v {
        JsonV::Object(m) => {
            if has(v, "resourceType"@) && has(v, "capabilities"@) && has(v, "locationInfo"@) {
                seq!["@resourceType"@, "@locations"@, "@name"@, "@zones"@, "@restrictions"@]
            } else if has(v, "roleName"@) && has(v, "roleDefinitionId"@) && has(v, "scope"@) {
                if has(v, "principalType"@) {
                    seq!["roleName"@, "principalType"@, "principalId"@, "@scopeShort"@]
                } else {
                    seq!["roleName"@] + (if has(v, "state"@) {
                        seq!["state"@]
                    } else {
                        seq![]
                    }) + (if has(v, "assignmentType"@) {
                        seq!["assignmentType"@]
                    } else {
                        seq![]
                    }) + seq!["@scopeShort"@, "startDateTime"@] + (if has(v, "endDateTime"@) {
                        seq!["endDateTime"@]
                    } else {
                        seq![]
                    })
                }
            } else if has(v, "roleName"@) && has(v, "type"@) && has(v, "assignableScopes"@) {
                seq!["roleName"@, "type"@, "name"@, "description"@]
            } else if has(v, "isDefault"@) && has(v, "tenantId"@) && has(v, "id"@) {
                if has(v, "state"@) {
                    seq!["name"@, "id"@, "tenantId"@, "state"@, "isDefault"@]
                } else {
                    seq!["name"@, "id"@, "tenantId"@, "isDefault"@]
                }
            } else if has(v, "regionalDisplayName"@) && has(v, "displayName"@) {
                seq!["name"@, "displayName"@, "regionalDisplayName"@]
            } else if v.str_field("type"@) matches Some(t) && type_columns(t) is Some {
                type_columns(v.str_field("type"@)->0)->0
            } else if has(v, "identifier"@) && has(v, "uniqueId"@) && has(v, "location"@) {
                seq!["name"@, "location"@, "identifier.uniqueId"@]
            } else if has_path(v, "properties.addressPrefix"@) && has_path(v, "properties.privateEndpointNetworkPolicies"@) {
                seq!["name"@, "properties.addressPrefix"@, "properties.provisioningState"@]
            } else if has_path(v, "properties.peeringState"@) {
                seq!["name"@, "properties.peeringState"@, "properties.peeringSyncLevel"@, "properties.provisioningState"@]
            } else if has_path(v, "properties.priority"@) && has_path(v, "properties.direction"@)
                && has_path(v, "properties.access"@) {
                seq!["name"@, "properties.priority"@, "properties.direction"@, "properties.access"@, "properties.protocol"@, "properties.destinationPortRange"@]
            } else if has_path(v, "properties.privateIPAddress"@) && has_path(v, "properties.privateIPAllocationMethod"@) {
                seq!["name"@, "properties.privateIPAddress"@, "properties.privateIPAllocationMethod"@, "properties.primary"@, "properties.provisioningState"@]
            } else if preferred_columns(v).len() > 0 {
                preferred_columns(v)
            } else {
                first_keys(m)
            }
        },
        _ => seq![],
    }
}

fn has_exec(v: &Json, k: &str) -> (r: bool)
    ensures
        r == has(v.view_json(), k@),
{
    v.get(k).is_some()
}

fn has_path_exec(v: &Json, p: &str) -> (r: bool)
    ensures
        r == has_path(v.view_json(), p@),
{
    resolve_path(v, p).is_some()
}

fn push_if_path(c: &mut Vec<String>, v: &Json, p: &str)
    ensures
        string_views(final(c)@) == string_views(old(c)@) + if_has_path(v.view_json(), p@),
{
    if has_path_exec(v, p) {
        push_owned(c, p);
    } else {
        assert(string_views(c@) =~= string_views(c@) + if_has_path(v.view_json(), p@));
    }
}

/// Chooses the table columns from a sample row.
pub fn pick_table_columns(sample: &Json) -> (r: Vec<String>)
    ensures
        string_views(r@) == table_columns(sample.view_json()),
{
    let m = match sample {
        Json::Object(m) => m,
        _ => return Vec::new(),
    };
    let v = sample;
    if has_exec(v, "resourceType") && has_exec(v, "capabilities") && has_exec(v, "locationInfo") {
        let mut c: Vec<String> = Vec::new();
        push_owned(&mut c, "@resourceType");
        push_owned(&mut c, "@locations");
        push_owned(&mut c, "@name");
        push_owned(&mut c, "@zones");
        push_owned(&mut c, "@restrictions");
        assert(string_views(c@) =~= seq!["@resourceType"@, "@locations"@, "@name"@, "@zones"@, "@restrictions"@]);
        return c;
    }
    if has_exec(v, "roleName") && has_exec(v, "roleDefinitionId") && has_exec(v, "scope") {
        if has_exec(v, "principalType") {
            let mut c: Vec<String> = Vec::new();
            push_owned(&mut c, "roleName");
            push_owned(&mut c, "principalType");
            push_owned(&mut c, "principalId");
            push_owned(&mut c, "@scopeShort");
            assert(string_views(c@) =~= seq!["roleName"@, "principalType"@, "principalId"@, "@scopeShort"@]);
            return c;
        }
        let mut c: Vec<String> = Vec::new();
        push_owned(&mut c, "roleName");
        let ghost c0 = string_views(c@);
        if has_exec(v, "state") {
            push_owned(&mut c, "state");
        }
        let ghost c1 = string_views(c@);
        if has_exec(v, "assignmentType") {
            push_owned(&mut c, "assignmentType");
        }
        let ghost c2 = string_views(c@);
        push_owned(&mut c, "@scopeShort");
        push_owned(&mut c, "startDateTime");
        let ghost c3 = string_views(c@);
        if has_exec(v, "endDateTime") {
            push_owned(&mut c, "endDateTime");
        }
        assert(string_views(c@) =~= table_columns(v.view_json()));
        return c;
    }
    if has_exec(v, "roleName") && has_exec(v, "type") && has_exec(v, "assignableScopes") {
        let mut c: Vec<String> = Vec::new();
        push_owned(&mut c, "roleName");
        push_owned(&mut c, "type");
        push_owned(&mut c, "name");
        push_owned(&mut c, "description");
        assert(string_views(c@) =~= seq!["roleName"@, "type"@, "name"@, "description"@]);
        return c;
    }
    if has_exec(v, "isDefault") && has_exec(v, "tenantId") && has_exec(v, "id") {
        let mut c: Vec<String> = Vec::new();
        push_owned(&mut c, "name");
        push_owned(&mut c, "id");
        push_owned(&mut c, "tenantId");
        if has_exec(v, "state") {
            push_owned(&mut c, "state");
        }
        push_owned(&mut c, "isDefault");
        assert(string_views(c@) =~= table_columns(v.view_json()));
        return c;
    }
    if has_exec(v, "regionalDisplayName") && has_exec(v, "displayName") {
        let mut c: Vec<String> = Vec::new();
        push_owned(&mut c, "name");
        push_owned(&mut c, "displayName");
        push_owned(&mut c, "regionalDisplayName");
        assert(string_views(c@) =~= seq!["name"@, "displayName"@, "regionalDisplayName"@]);
        return c;
    }
    if let Some(t) = v.str_field("type") {
        if let Some(c) = type_columns_exec(t) {
            return c;
        }
    }
    if has_exec(v, "identifier") && has_exec(v, "uniqueId") && has_exec(v, "location") {
        let mut c: Vec<String> = Vec::new();
        push_owned(&mut c, "name");
        push_owned(&mut c, "location");
        push_owned(&mut c, "identifier.uniqueId");
        assert(string_views(c@) =~= seq!["name"@, "location"@, "identifier.uniqueId"@]);
        return c;
    }
    if has_path_exec(v, "properties.addressPrefix") && has_path_exec(v, "properties.privateEndpointNetworkPolicies") {
        let mut c: Vec<String> = Vec::new();
        push_owned(&mut c, "name");
        push_owned(&mut c, "properties.addressPrefix");
        push_owned(&mut c, "properties.provisioningState");
        assert(string_views(c@) =~= seq!["name"@, "properties.addressPrefix"@, "properties.provisioningState"@]);
        return c;
    }
    if has_path_exec(v, "properties.peeringState") {
        let mut c: Vec<String> = Vec::new();
        push_owned(&mut c, "name");
        push_owned(&mut c, "properties.peeringState");
        push_owned(&mut c, "properties.peeringSyncLevel");
        push_owned(&mut c, "properties.provisioningState");
        assert(string_views(c@) =~= seq!["name"@, "properties.peeringState"@, "properties.peeringSyncLevel"@, "properties.provisioningState"@]);
        return c;
    }
    if has_path_exec(v, "properties.priority") && has_path_exec(v, "properties.direction")
        && has_path_exec(v, "properties.access") {
        let mut c: Vec<String> = Vec::new();
        push_owned(&mut c, "name");
        push_owned(&mut c, "properties.priority");
        push_owned(&mut c, "properties.direction");
        push_owned(&mut c, "properties.access");
        push_owned(&mut c, "properties.protocol");
        push_owned(&mut c, "properties.destinationPortRange");
        assert(string_views(c@) =~= seq!["name"@, "properties.priority"@, "properties.direction"@, "properties.access"@, "properties.protocol"@, "properties.destinationPortRange"@]);
        return c;
    }
    if has_path_exec(v, "properties.privateIPAddress") && has_path_exec(v, "properties.privateIPAllocationMethod") {
        let mut c: Vec<String> = Vec::new();
        push_owned(&mut c, "name");
        push_owned(&mut c, "properties.privateIPAddress");
        push_owned(&mut c, "properties.privateIPAllocationMethod");
        push_owned(&mut c, "properties.primary");
        push_owned(&mut c, "properties.provisioningState");
        assert(string_views(c@) =~= seq!["name"@, "properties.privateIPAddress"@, "properties.privateIPAllocationMethod"@, "properties.primary"@, "properties.provisioningState"@]);
        return c;
    }
    let mut c: Vec<String> = Vec::new();
    assert(string_views(c@) =~= seq![]);
    push_if_path(&mut c, v, "name");
    push_if_path(&mut c, v, "location");
    push_if_path(&mut c, v, "resourceGroup");
    push_if_path(&mut c, v, "provisioningState");
    push_if_path(&mut c, v, "properties.provisioningState");
    push_if_path(&mut c, v, "hardwareProfile.vmSize");
    push_if_path(&mut c, v, "sku.name");
    push_if_path(&mut c, v, "properties.dnsName");
    assert(string_views(c@) =~= preferred_columns(v.view_json()));
    if c.len() > 0 {
        return c;
    }
    proof {
        lemma_member_views(m@);
    }
    let ghost mv = member_views(m@);
    let mut i: usize = 0;
    while i < m.len() && i < 6
        invariant
            i <= m.len(),
            i <= 6,
            mv == member_views(m@),
            mv.len() == m@.len(),
            forall|j: int| 0 <= j < m@.len() ==> #[trigger] mv[j] == (m@[j].0@, m@[j].1.view_json()),
            string_views(c@) == Seq::new(i as nat, |j: int| mv[j].0),
        decreases m.len() - i,
    {
        let ghost b = string_views(c@);
        let k = m[i].0.clone();
        assert(k@ == mv[i as int].0);
        c.push(k);
        assert(string_views(c@) =~= b.push(k@));
        assert(string_views(c@) =~= Seq::new((i + 1) as nat, |j: int| mv[j].0));
        i = i + 1;
    }
    assert(sample.view_json() == JsonV::Object(mv));
    assert(string_views(c@) =~= first_keys(mv));
    c
}


/// Length in UTF-8 bytes, as `str::len` reports it.
pub open spec fn byte_len(s: Seq<char>) -> nat {
    (vstd::utf8::encode_utf8(s).len() as usize) as nat
}

/// The cell texts of the rows under the columns.
pub open spec fn table_cells(items: Seq<JsonV>, cols: Seq<Seq<char>>) -> Seq<Seq<Seq<char>>> {
    Seq::new(items.len(), |r: int| Seq::new(cols.len(), |c: int| field_text(items[r], cols[c])))
}

/// The widest byte length in column `c` among the first `n` rows.
pub open spec fn widest(cells: Seq<Seq<Seq<char>>>, c: int, n: int) -> nat
    decreases n,
{
    if n <= 0 {
        0
    } else {
        let w = widest(cells, c, n - 1);
        let l = byte_len(cells[n - 1][c]);
        if l > w {
            l
        } else {
            w
        }
    }
}

/// Width of column `c`: the byte length of its heading or of its longest
/// cell, whichever is larger.
pub open spec fn column_width(cols: Seq<Seq<char>>, cells: Seq<Seq<Seq<char>>>, c: int) -> nat {
    let h = byte_len(display_name_spec(cols[c]));
    let w = widest(cells, c, cells.len() as int);
    if h > w {
        h
    } else {
        w
    }
}

/// One table line: each cell left-aligned to its width, two spaces apart.
pub open spec fn table_line(cells: Seq<Seq<char>>, widths: Seq<nat>) -> Seq<char> {
    join(Seq::new(cells.len(), |i: int| pad_spec(cells[i], widths[i])), "  "@) + seq!['\n']
}

/// The lines, one after another.
pub open spec fn concat_lines(lines: Seq<Seq<char>>) -> Seq<char>
    decreases lines.len(),
{
    if lines.len() == 0 {
        seq![]
    } else {
        concat_lines(lines.drop_last()) + lines.last()
    }
}

/// The text of a table: heading line, dash line, one line per row; `None`
/// when the first row yields no columns; empty when there are no rows.
pub open spec fn table_text(v: JsonV) -> Option<Seq<char>> {
    let items = unwrapped(v);
    if items.len() == 0 {
        Some(seq![])
    } else {
        let cols = table_columns(items[0]);
        if cols.len() == 0 {
            None
        } else {
            let cells = table_cells(items, cols);
            let widths = Seq::new(cols.len(), |c: int| column_width(cols, cells, c));
            let head = table_line(Seq::new(cols.len(), |c: int| display_name_spec(cols[c])), widths);
            let dashes = table_line(Seq::new(cols.len(), |c: int| Seq::new(widths[c], |_i: int| '-')), widths);
            let rows = concat_lines(Seq::new(items.len(), |r: int| table_line(cells[r], widths)));
            Some(head + dashes + rows)
        }
    }
}

fn format_line(cells: &Vec<String>, widths: &Vec<usize>) -> (r: String)
    requires
        cells.len() == widths.len(),
    ensures
        r@ == table_line(string_views(cells@), Seq::new(widths@.len(), |i: int| widths@[i] as nat)),
{
    let ghost cv = string_views(cells@);
    let ghost wv = Seq::new(widths@.len(), |i: int| widths@[i] as nat);
    let ghost padded = Seq::new(cv.len(), |i: int| pad_spec(cv[i], wv[i]));
    let mut parts: Vec<String> = Vec::new();
    let mut i: usize = 0;
    while i < cells.len()
        invariant
            i <= cells.len(),
            cells.len() == widths.len(),
            cv == string_views(cells@),
            wv == Seq::new(widths@.len(), |i: int| widths@[i] as nat),
            padded == Seq::new(cv.len(), |i: int| pad_spec(cv[i], wv[i])),
            string_views(parts@) == padded.take(i as int),
        decreases cells.len() - i,
    {
        let ghost b = string_views(parts@);
        let p = pad_right(cells[i].as_str(), widths[i]);
        parts.push(p);
        assert(string_views(parts@) =~= b.push(p@));
        assert(padded.take(i + 1) =~= padded.take(i as int).push(padded[i as int]));
        i = i + 1;
    }
    assert(padded.take(cells.len() as int) =~= padded);
    let line = join_strings(&parts, "  ");
    let mut out = line;
    crate::text::push_char(&mut out, '\n');
    out
}

/// The rows as text, padded into columns under a heading and a dash line;
/// `None` when the first row yields no columns (the value is then shown as
/// JSON).
pub fn format_table(value: &Json) -> (r: Option<String>)
    requires
        value.view_json().wf(),
    ensures
        match r {
            Some(t) => table_text(value.view_json()) == Some(t@),
            None => table_text(value.view_json()) is None,
        },
{
    let items = unwrap_items(value);
    proof {
        lemma_views(items@);
    }
    if items.len() == 0 {
        return Some(String::new());
    }
    let columns = pick_table_columns(&items[0]);
    if columns.len() == 0 {
        return None;
    }
    let ghost iv = views(items@);
    let ghost cols = string_views(columns@);
    let ghost cells = table_cells(iv, cols);
    let nc = columns.len();
    // cell texts
    let mut rows: Vec<Vec<String>> = Vec::new();
    let mut r: usize = 0;
    while r < items.len()
        invariant
            r <= items.len(),
            iv == views(items@),
            iv.len() == items@.len(),
            forall|j: int| 0 <= j < items@.len() ==> #[trigger] iv[j] == items@[j].view_json(),
            cols == string_views(columns@),
            nc == columns.len(),
            cells == table_cells(iv, cols),
            rows@.len() == r,
            forall|j: int| 0 <= j < r ==> string_views((#[trigger] rows@[j])@) == cells[j],
        decreases items.len() - r,
    {
        let mut row: Vec<String> = Vec::new();
        let mut c: usize = 0;
        while c < nc
            invariant
                c <= nc,
                r < items.len(),
                iv == views(items@),
                forall|j: int| 0 <= j < items@.len() ==> #[trigger] iv[j] == items@[j].view_json(),
                cols == string_views(columns@),
                nc == columns.len(),
                cells == table_cells(iv, cols),
                iv.len() == items@.len(),
                cols.len() == columns@.len(),
                string_views(row@) == cells[r as int].take(c as int),
            decreases nc - c,
        {
            let ghost b = string_views(row@);
            let cell = extract_field(&items[r], columns[c].as_str());
            assert(cols[c as int] == columns@[c as int]@);
            assert(cell@ == cells[r as int][c as int]);
            row.push(cell);
            assert(string_views(row@) =~= b.push(cell@));
            assert(cells[r as int].take(c + 1) =~= cells[r as int].take(c as int).push(cells[r as int][c as int]));
            c = c + 1;
        }
        assert(cells[r as int].take(nc as int) =~= cells[r as int]);
        rows.push(row);
        r = r + 1;
    }
    // widths
    let mut names: Vec<String> = Vec::new();
    let mut widths: Vec<usize> = Vec::new();
    let mut c: usize = 0;
    while c < nc
        invariant
            c <= nc,
            nc == columns.len(),
            cols == string_views(columns@),
            cells == table_cells(iv, cols),
            iv.len() == items@.len(),
            rows@.len() == items@.len(),
            forall|j: int| 0 <= j < rows@.len() ==> string_views((#[trigger] rows@[j])@) == cells[j],
            names@.len() == c,
            widths@.len() == c,
            forall|k: int| 0 <= k < c ==> (#[trigger] names@[k])@ == display_name_spec(cols[k]),
            forall|k: int| 0 <= k < c ==> #[trigger] widths@[k] as nat == column_width(cols, cells, k),
        decreases nc - c,
    {
        let name = display_name(columns[c].as_str());
        let mut w: usize = name.as_str().len();
        let mut k: usize = 0;
        while k < rows.len()
            invariant
                k <= rows.len(),
                c < nc,
                nc == columns.len(),
                cols == string_views(columns@),
                cells == table_cells(iv, cols),
                iv.len() == items@.len(),
                rows@.len() == items@.len(),
                forall|j: int| 0 <= j < rows@.len() ==> string_views((#[trigger] rows@[j])@) == cells[j],
                name@ == display_name_spec(cols[c as int]),
                w as nat == if byte_len(name@) > widest(cells, c as int, k as int) {
                    byte_len(name@)
                } else {
                    widest(cells, c as int, k as int)
                },
            decreases rows.len() - k,
        {
            assert(string_views(rows@[k as int]@)[c as int] == rows@[k as int]@[c as int]@);
            let l = rows[k][c].as_str().len();
            if l > w {
                w = l;
            }
            k = k + 1;
        }
        names.push(name);
        widths.push(w);
        c = c + 1;
    }
    let ghost wv = Seq::new(widths@.len(), |i: int| widths@[i] as nat);
    assert(wv =~= Seq::new(cols.len(), |k: int| column_width(cols, cells, k)));
    let mut out = format_line(&names, &widths);
    assert(string_views(names@) =~= Seq::new(cols.len(), |k: int| display_name_spec(cols[k])));
    let mut dashes: Vec<String> = Vec::new();
    let mut c: usize = 0;
    while c < nc
        invariant
            c <= nc,
            widths@.len() == nc,
            wv == Seq::new(widths@.len(), |i: int| widths@[i] as nat),
            string_views(dashes@) == Seq::new(c as nat, |k: int| Seq::new(wv[k], |_i: int| '-')),
        decreases nc - c,
    {
        let ghost b = string_views(dashes@);
        let d = repeat_char('-', widths[c]);
        dashes.push(d);
        assert(string_views(dashes@) =~= b.push(d@));
        assert(string_views(dashes@) =~= Seq::new((c + 1) as nat, |k: int| Seq::new(wv[k], |_i: int| '-')));
        c = c + 1;
    }
    let dl = format_line(&dashes, &widths);
    out.append(dl.as_str());
    let ghost lines = Seq::new(iv.len(), |r: int| table_line(cells[r], wv));
    let ghost head = out@;
    let mut r: usize = 0;
    while r < rows.len()
        invariant
            r <= rows.len(),
            rows@.len() == iv.len(),
            forall|j: int| 0 <= j < rows@.len() ==> string_views((#[trigger] rows@[j])@) == cells[j],
            forall|j: int| 0 <= j < rows@.len() ==> (#[trigger] rows@[j])@.len() == nc,
            cells == table_cells(iv, cols),
            cols.len() == nc,
            widths@.len() == nc,
            wv == Seq::new(widths@.len(), |i: int| widths@[i] as nat),
            lines == Seq::new(iv.len(), |r: int| table_line(cells[r], wv)),
            out@ == head + concat_lines(lines.take(r as int)),
        decreases rows.len() - r,
    {
        assert(string_views(rows@[r as int]@).len() == nc);
        let line = format_line(&rows[r], &widths);
        out.append(line.as_str());
        assert(lines.take(r + 1).drop_last() =~= lines.take(r as int));
        r = r + 1;
    }
    assert(lines.take(rows.len() as int) =~= lines);
    Some(out)
}

/// The rows as tab-separated lines, columns chosen from the first row.
pub open spec fn tsv_text(v: JsonV) -> Seq<char> {
    let items = unwrapped(v);
    if items.len() == 0 {
        seq![]
    } else {
        let cols = table_columns(items[0]);
        let cells = table_cells(items, cols);
        concat_lines(Seq::new(items.len(), |r: int| join(cells[r], "\t"@) + seq!['\n']))
    }
}

/// The rows as tab-separated text.
pub fn format_tsv(value: &Json) -> (r: String)
    requires
        value.view_json().wf(),
    ensures
        r@ == tsv_text(value.view_json()),
{
    let items = unwrap_items(value);
    proof {
        lemma_views(items@);
    }
    if items.len() == 0 {
        return String::new();
    }
    let columns = pick_table_columns(&items[0]);
    let ghost iv = views(items@);
    let ghost cols = string_views(columns@);
    let ghost cells = table_cells(iv, cols);
    let ghost lines = Seq::new(iv.len(), |r: int| join(cells[r], "\t"@) + seq!['\n']);
    let mut out = String::new();
    let mut r: usize = 0;
    while r < items.len()
        invariant
            r <= items.len(),
            iv == views(items@),
            iv.len() == items@.len(),
            forall|j: int| 0 <= j < items@.len() ==> #[trigger] iv[j] == items@[j].view_json(),
            cols == string_views(columns@),
            cells == table_cells(iv, cols),
            lines == Seq::new(iv.len(), |r: int| join(cells[r], "\t"@) + seq!['\n']),
            out@ == concat_lines(lines.take(r as int)),
        decreases items.len() - r,
    {
        let mut row: Vec<String> = Vec::new();
        let mut c: usize = 0;
        while c < columns.len()
            invariant
                c <= columns.len(),
                r < items.len(),
                iv == views(items@),
                forall|j: int| 0 <= j < items@.len() ==> #[trigger] iv[j] == items@[j].view_json(),
                cols == string_views(columns@),
                cells == table_cells(iv, cols),
                iv.len() == items@.len(),
                cols.len() == columns@.len(),
                string_views(row@) == cells[r as int].take(c as int),
            decreases columns.len() - c,
        {
            let ghost b = string_views(row@);
            let cell = extract_field(&items[r], columns[c].as_str());
            assert(cols[c as int] == columns@[c as int]@);
            assert(cell@ == cells[r as int][c as int]);
            row.push(cell);
            assert(string_views(row@) =~= b.push(cell@));
            assert(cells[r as int].take(c + 1) =~= cells[r as int].take(c as int).push(cells[r as int][c as int]));
            c = c + 1;
        }
        assert(cells[r as int].take(columns.len() as int) =~= cells[r as int]);
        let mut line = join_strings(&row, "\t");
        crate::text::push_char(&mut line, '\n');
        out.append(line.as_str());
        assert(lines.take(r + 1).drop_last() =~= lines.take(r as int));
        r = r + 1;
    }
    assert(lines.take(items.len() as int) =~= lines);
    out
}


/// The first character is an ASCII digit or `-`.
pub open spec fn starts_numeric(t: Seq<char>) -> bool {
    t.len() > 0 && (('0' <= t[0] && t[0] <= '9') || t[0] == '-')
}

/// `t` wrapped in an ANSI colour escape and a reset.
pub open spec fn painted(color: Seq<char>, t: Seq<char>) -> Seq<char> {
    color + t + "\u{1b}[0m"@
}

/// A value after a key in pretty JSON, coloured by its kind: strings green,
/// booleans yellow, null grey, numbers cyan; otherwise unchanged.
pub open spec fn colorize_value_spec(s: Seq<char>) -> Seq<char> {
    let t = strip_suffix_chars(strip_prefixes(s, ": "@), ',');
    let suffix = if ",".view().is_suffix_of(s) { ","@ } else { seq![] };
    if "\""@.is_prefix_of(t) {
        ": "@ + painted("\u{1b}[32m"@, t) + suffix
    } else if t == "true"@ || t == "false"@ {
        ": "@ + painted("\u{1b}[33m"@, t) + suffix
    } else if t == "null"@ {
        ": "@ + painted("\u{1b}[90m"@, t) + suffix
    } else if starts_numeric(t) {
        ": "@ + painted("\u{1b}[36m"@, t) + suffix
    } else {
        s
    }
}

/// One line of pretty JSON with ANSI colours: keys blue, then the value
/// coloured by kind; a lone string, boolean, null or number coloured alike.
pub open spec fn colorize_line_spec(line: Seq<char>) -> Seq<char> {
    let t = trim_start_spec(line);
    let indent = line.take(line.len() - t.len());
    if "\""@.is_prefix_of(t) && find_from(t, "\":"@, 0) is Some {
        let p = find_from(t, "\":"@, 0)->0;
        indent + painted("\u{1b}[34m"@, t.take(p + 1)) + colorize_value_spec(t.skip(p + 1))
    } else if "\""@.is_prefix_of(t) {
        indent + painted("\u{1b}[32m"@, t)
    } else if "true"@.is_prefix_of(t) || "false"@.is_prefix_of(t) {
        indent + painted("\u{1b}[33m"@, t)
    } else if "null"@.is_prefix_of(t) {
        indent + painted("\u{1b}[90m"@, t)
    } else if starts_numeric(t) {
        indent + painted("\u{1b}[36m"@, t)
    } else {
        line
    }
}

fn paint(color: &str, t: &str) -> (r: String)
    ensures
        r@ == painted(color@, t@),
{
    let a = concat(color, t);
    concat(a.as_str(), "\u{1b}[0m")
}

fn first_is_numeric(t: &str) -> (r: bool)
    ensures
        r == starts_numeric(t@),
{
    let v = chars_of(t);
    v.len() > 0 && (('0' <= v[0] && v[0] <= '9') || v[0] == '-')
}

/// Colours the value part of a `"key": value` line.
pub fn colorize_json_value(s: &str) -> (r: String)
    ensures
        r@ == colorize_value_spec(s@),
{
    let a = trim_start_matches(s, ": ");
    let t = trim_end_char(a.as_str(), ',');
    let suffix = if ends_with(s, ",") { owned(",") } else { String::new() };
    let color = if starts_with(t.as_str(), "\"") {
        "\u{1b}[32m"
    } else if str_eq(t.as_str(), "true") || str_eq(t.as_str(), "false") {
        "\u{1b}[33m"
    } else if str_eq(t.as_str(), "null") {
        "\u{1b}[90m"
    } else if first_is_numeric(t.as_str()) {
        "\u{1b}[36m"
    } else {
        return owned(s);
    };
    let p = paint(color, t.as_str());
    let b = concat(": ", p.as_str());
    concat(b.as_str(), suffix.as_str())
}

/// Colours one line of pretty-printed JSON.
pub fn colorize_json_line(line: &str) -> (r: String)
    ensures
        r@ == colorize_line_spec(line@),
{
    let v = chars_of(line);
    let k = leading_ws(&v);
    let indent_v = crate::text::chars_range(&v, 0, k);
    let t_v = crate::text::chars_from(&v, k);
    let indent = string_of(&indent_v);
    let t = string_of(&t_v);
    assert(indent@ =~= line@.take(line@.len() - t@.len()));
    if starts_with(t.as_str(), "\"") {
        let needle = chars_of("\":");
        match find_sub(&t_v, &needle) {
            Some(p) => {
                proof {
                    reveal_strlit("\":");
                    assert(needle@.len() == 2);
                    crate::text::lemma_find_from_bounds(t_v@, needle@, 0);
                    assert(p + needle@.len() <= t_v@.len());
                    assert(needle@.len() == needle.len());
                }
                let key_v = crate::text::chars_range(&t_v, 0, p + 1);
                let rest_v = crate::text::chars_from(&t_v, p + 1);
                let key = string_of(&key_v);
                let rest = string_of(&rest_v);
                assert(key@ =~= t@.take(p + 1));
                let a = paint("\u{1b}[34m", key.as_str());
                let b = colorize_json_value(rest.as_str());
                let c = concat(indent.as_str(), a.as_str());
                return concat(c.as_str(), b.as_str());
            },
            None => {
                let a = paint("\u{1b}[32m", t.as_str());
                return concat(indent.as_str(), a.as_str());
            },
        }
    }
    let color = if starts_with(t.as_str(), "true") || starts_with(t.as_str(), "false") {
        "\u{1b}[33m"
    } else if starts_with(t.as_str(), "null") {
        "\u{1b}[90m"
    } else if first_is_numeric(t.as_str()) {
        "\u{1b}[36m"
    } else {
        return owned(line);
    };
    let a = paint(color, t.as_str());
    concat(indent.as_str(), a.as_str())
}

/// A dotted path without dots names one key.
proof fn lemma_plain_path(v: JsonV, k: Seq<char>)
    requires
        forall|j: int| 0 <= j < k.len() ==> k[j] != '.',
    ensures
        resolve_path_spec(v, k) == v.get(k),
{
    crate::text::lemma_index_of_char(k, '.');
    assert(split_all(k, '.') == seq![k]);
    let path = seq![k];
    assert(path.drop_first() =~= Seq::<Seq<char>>::empty());
    match v.get(k) {
        Some(x) => {
            assert(x.get_path(path.drop_first()) == Some(x));
        },
        None => {},
    }
}

/// A dotted path whose first key is absent leads nowhere.
proof fn lemma_dotted_path_absent(v: JsonV, head: Seq<char>, rest: Seq<char>)
    requires
        forall|j: int| 0 <= j < head.len() ==> head[j] != '.',
        v.get(head) is None,
    ensures
        resolve_path_spec(v, head + "."@ + rest) is None,
{
    reveal_strlit(".");
    let s = head + "."@ + rest;
    crate::text::lemma_index_of_char(s, '.');
    assert(s[head.len() as int] == '.');
    let i = crate::text::index_of_char(s, '.')->0;
    assert forall|j: int| 0 <= j < head.len() implies s[j] != '.' by {
        assert(s[j] == head[j]);
    }
    assert(i == head.len());
    assert(s.take(i) =~= head);
    let path = split_all(s, '.');
    assert(path[0] == head);
}

/// A key that some member has is found.
proof fn lemma_lookup_some(m: Seq<(Seq<char>, JsonV)>, i: int)
    requires
        0 <= i < m.len(),
    ensures
        crate::json::lookup(m, m[i].0) is Some,
    decreases m.len(),
{
    if m.last().0 != m[i].0 {
        assert(m.drop_last()[i] == m[i]);
        lemma_lookup_some(m.drop_last(), i);
    }
}

/// A row of plain fields (no `type`, `properties`, `sku`, `hardwareProfile`,
/// `resourceType`, `roleName`, `isDefault`, `regionalDisplayName` or
/// `identifier`) is shown with columns that are fields of the row; each of
/// `name`, `location`, `resourceGroup` and `provisioningState` it holds is a
/// column, `name` first; a row with some field shows some column.
pub proof fn lemma_plain_row_columns(m: Seq<(Seq<char>, JsonV)>)
    requires
        crate::json::lookup(m, "type"@) is None,
        crate::json::lookup(m, "properties"@) is None,
        crate::json::lookup(m, "sku"@) is None,
        crate::json::lookup(m, "hardwareProfile"@) is None,
        crate::json::lookup(m, "resourceType"@) is None,
        crate::json::lookup(m, "roleName"@) is None,
        crate::json::lookup(m, "isDefault"@) is None,
        crate::json::lookup(m, "regionalDisplayName"@) is None,
        crate::json::lookup(m, "identifier"@) is None,
    ensures
        ({
            let c = table_columns(JsonV::Object(m));
            &&& crate::json::lookup(m, "name"@) is Some ==> c.len() > 0 && c[0] == "name"@
            &&& crate::json::lookup(m, "location"@) is Some ==> c.contains("location"@)
            &&& crate::json::lookup(m, "resourceGroup"@) is Some ==> c.contains("resourceGroup"@)
            &&& crate::json::lookup(m, "provisioningState"@) is Some ==> c.contains("provisioningState"@)
            &&& forall|i: int| 0 <= i < c.len() ==> crate::json::lookup(m, #[trigger] c[i]) is Some
            &&& m.len() > 0 ==> c.len() > 0
        }),
{
    let v = JsonV::Object(m);
    reveal_strlit("name");
    reveal_strlit("location");
    reveal_strlit("resourceGroup");
    reveal_strlit("provisioningState");
    reveal_strlit("properties");
    reveal_strlit("provisioningState");
    reveal_strlit("hardwareProfile");
    reveal_strlit("vmSize");
    reveal_strlit("sku");
    reveal_strlit("dnsName");
    reveal_strlit("addressPrefix");
    reveal_strlit("privateEndpointNetworkPolicies");
    reveal_strlit("peeringState");
    reveal_strlit("priority");
    reveal_strlit("direction");
    reveal_strlit("access");
    reveal_strlit("privateIPAddress");
    reveal_strlit("privateIPAllocationMethod");
    reveal_strlit("properties.provisioningState");
    reveal_strlit("hardwareProfile.vmSize");
    reveal_strlit("sku.name");
    reveal_strlit("properties.dnsName");
    reveal_strlit("properties.addressPrefix");
    reveal_strlit("properties.privateEndpointNetworkPolicies");
    reveal_strlit("properties.peeringState");
    reveal_strlit("properties.priority");
    reveal_strlit("properties.direction");
    reveal_strlit("properties.access");
    reveal_strlit("properties.privateIPAddress");
    reveal_strlit("properties.privateIPAllocationMethod");
    reveal_strlit(".");
    lemma_plain_path(v, "name"@);
    lemma_plain_path(v, "location"@);
    lemma_plain_path(v, "resourceGroup"@);
    lemma_plain_path(v, "provisioningState"@);
    let pr = "properties"@;
    assert("properties.provisioningState"@ =~= pr + "."@ + "provisioningState"@);
    lemma_dotted_path_absent(v, pr, "provisioningState"@);
    assert("properties.dnsName"@ =~= pr + "."@ + "dnsName"@);
    lemma_dotted_path_absent(v, pr, "dnsName"@);
    assert("properties.addressPrefix"@ =~= pr + "."@ + "addressPrefix"@);
    lemma_dotted_path_absent(v, pr, "addressPrefix"@);
    assert("properties.peeringState"@ =~= pr + "."@ + "peeringState"@);
    lemma_dotted_path_absent(v, pr, "peeringState"@);
    assert("properties.priority"@ =~= pr + "."@ + "priority"@);
    lemma_dotted_path_absent(v, pr, "priority"@);
    assert("properties.privateIPAddress"@ =~= pr + "."@ + "privateIPAddress"@);
    lemma_dotted_path_absent(v, pr, "privateIPAddress"@);
    assert("hardwareProfile.vmSize"@ =~= "hardwareProfile"@ + "."@ + "vmSize"@);
    lemma_dotted_path_absent(v, "hardwareProfile"@, "vmSize"@);
    assert("sku.name"@ =~= "sku"@ + "."@ + "name"@);
    lemma_dotted_path_absent(v, "sku"@, "name"@);
    let p = preferred_columns(v);
    assert(p =~= if_has_path(v, "name"@) + if_has_path(v, "location"@) + if_has_path(v, "resourceGroup"@)
        + if_has_path(v, "provisioningState"@));
    let c = table_columns(v);
    if p.len() > 0 {
        assert(c == p);
        if crate::json::lookup(m, "location"@) is Some {
            assert(p[if_has_path(v, "name"@).len() as int] == "location"@);
        }
        if crate::json::lookup(m, "resourceGroup"@) is Some {
            assert(p[(if_has_path(v, "name"@).len() + if_has_path(v, "location"@).len()) as int]
                == "resourceGroup"@);
        }
        if crate::json::lookup(m, "provisioningState"@) is Some {
            assert(p[(if_has_path(v, "name"@).len() + if_has_path(v, "location"@).len() + if_has_path(
                v,
                "resourceGroup"@,
            ).len()) as int] == "provisioningState"@);
        }
    } else {
        assert(c == first_keys(m));
        assert forall|i: int| 0 <= i < c.len() implies crate::json::lookup(m, #[trigger] c[i]) is Some by {
            lemma_lookup_some(m, i);
        }
    }
}

} // verus!
