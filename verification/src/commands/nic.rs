use vstd::prelude::*;
use crate::json::{lemma_views, member_views, push_member, views, Json, JsonV};
use crate::text::{
    after_last_char, concat, last_segment, seq_lt, starts_with, str_eq, to_lowercase, unicode_lower,
};
use crate::tui::rows::field_or_empty;
use super::CommandError;

verus! {

/// The resource id of a NIC named `nic` in a group, or `nic` itself when it
/// is an id already (starts with `/`).
pub open spec fn nic_id_spec(subscription_id: Seq<char>, resource_group: Seq<char>, nic: Seq<char>) -> Seq<char> {
    if nic.len() > 0 && nic[0] == '/' {
        nic
    } else {
        "/subscriptions/"@ + subscription_id + "/resourceGroups/"@ + resource_group
            + "/providers/Microsoft.Network/networkInterfaces/"@ + nic
    }
}

/// The resource id for a NIC given by name or by id.
pub fn resolve_nic_id(subscription_id: &str, resource_group: &str, nic: &str) -> (r: String)
    ensures
        r@ == nic_id_spec(subscription_id@, resource_group@, nic@),
{
    proof {
        reveal_strlit("/");
    }
    if starts_with(nic, "/") {
        proof {
            assert(nic@.subrange(0, 1)[0] == nic@[0]);
        }
        return nic.to_owned();
    }
    proof {
        if nic@.len() > 0 && nic@[0] == '/' {
            assert(nic@.subrange(0, 1) =~= "/"@);
        }
    }
    let a = concat("/subscriptions/", subscription_id);
    let b = concat(a.as_str(), "/resourceGroups/");
    let c = concat(b.as_str(), resource_group);
    let d = concat(c.as_str(), "/providers/Microsoft.Network/networkInterfaces/");
    concat(d.as_str(), nic)
}

/// The NIC name at the end of a resource id.
pub fn nic_name_from_id(id: &str) -> (r: String)
    ensures
        r@ == after_last_char(id@, '/'),
{
    last_segment(id, '/')
}

/// The id of a NIC entry, or the empty text.
pub open spec fn nic_id_of(n: JsonV) -> Seq<char> {
    field_or_empty(n, "id"@)
}

/// The entry is the NIC asked for: by name or by full id, compared in
/// lowercase.
pub open spec fn names_nic(n: JsonV, wanted_lower: Seq<char>) -> bool {
    ||| unicode_lower(after_last_char(nic_id_of(n), '/')) == wanted_lower
    ||| unicode_lower(nic_id_of(n)) == wanted_lower
}

/// The entry says `"primary": true`.
pub open spec fn marked_primary(n: JsonV) -> bool {
    match n.get("primary"@) {
        Some(v) => v.as_bool() == Some(true),
        None => false,
    }
}

/// Some entry says `"primary": true`.
pub open spec fn any_primary(nics: Seq<JsonV>) -> bool {
    exists|i: int| 0 <= i < nics.len() && marked_primary(#[trigger] nics[i])
}

/// The entries with exactly one primary: the named one when a NIC is
/// named (all others false), else the first one when none was primary.
pub open spec fn primary_applied(nics: Seq<JsonV>, primary: Option<Seq<char>>) -> Seq<JsonV> {
    if nics.len() == 0 {
        nics
    } else {
        match primary {
            Some(p) => Seq::new(
                nics.len(),
                |i: int| nics[i].set("primary"@, JsonV::Bool(names_nic(nics[i], unicode_lower(p)))),
            ),
            None => if any_primary(nics) {
                nics
            } else {
                Seq::new(
                    nics.len(),
                    |i: int|
                        if i == 0 {
                            nics[0].set("primary"@, JsonV::Bool(true))
                        } else if nics[i].get("primary"@) is None {
                            nics[i].set("primary"@, JsonV::Bool(false))
                        } else {
                            nics[i]
                        },
                )
            },
        }
    }
}

/// The named NIC is among the entries (always so when none is named).
pub open spec fn primary_found(nics: Seq<JsonV>, primary: Option<Seq<char>>) -> bool {
    match primary {
        Some(p) => exists|i: int|
            0 <= i < nics.len() && names_nic(#[trigger] nics[i], unicode_lower(p)),
        None => true,
    }
}

/// Entries that `entry["primary"] = ..` can write to.
pub open spec fn writable_entries(nics: Seq<JsonV>) -> bool {
    forall|i: int|
        0 <= i < nics.len() ==> (#[trigger] nics[i]).wf() && (nics[i] is Object || nics[i] is Null)
}

/// Whether the entry is the NIC asked for.
fn entry_names_nic(n: &Json, wanted_lower: &str) -> (r: bool)
    ensures
        r == names_nic(n.view_json(), wanted_lower@),
{
    proof {
        reveal_strlit("id");
    }
    let id = match n.str_field("id") {
        Some(s) => s.to_owned(),
        None => String::new(),
    };
    let name = to_lowercase(nic_name_from_id(id.as_str()).as_str());
    if str_eq(name.as_str(), wanted_lower) {
        return true;
    }
    let idl = to_lowercase(id.as_str());
    str_eq(idl.as_str(), wanted_lower)
}

/// Whether the entry says `"primary": true`.
fn entry_is_primary(n: &Json) -> (r: bool)
    ensures
        r == marked_primary(n.view_json()),
{
    proof {
        reveal_strlit("primary");
    }
    match n.get("primary") {
        Some(v) => match v.as_bool() {
            Some(b) => b,
            None => false,
        },
        None => false,
    }
}

/// `nics[i]["primary"] = value`.
fn set_primary(nics: &mut Vec<Json>, i: usize, value: bool)
    requires
        i < old(nics)@.len(),
        writable_entries(views(old(nics)@)),
    ensures
        final(nics)@.len() == old(nics)@.len(),
        views(final(nics)@) == views(old(nics)@).update(
            i as int,
            views(old(nics)@)[i as int].set("primary"@, JsonV::Bool(value)),
        ),
        writable_entries(views(final(nics)@)),
{
    proof {
        lemma_views(nics@);
        reveal_strlit("primary");
    }
    let ghost before = views(nics@);
    let mut n = nics[i].deep_clone();
    n.set("primary".to_owned(), Json::Bool(value));
    nics.set(i, n);
    proof {
        lemma_views(nics@);
        assert(views(nics@) =~= before.update(i as int, before[i as int].set("primary"@, JsonV::Bool(value))));
    }
}

/// Makes exactly one NIC primary: the one named by `primary_nic` (all
/// others become non-primary; an error when none matches), or, with no
/// name, the first one when none is primary yet.
pub fn apply_primary(nics: &mut Vec<Json>, primary_nic: Option<&str>) -> (r: Result<(), CommandError>)
    requires
        super::disk::entries_wf(views(old(nics)@)),
        primary_nic is Some || !any_primary(views(old(nics)@)) ==> writable_entries(views(old(nics)@)),
    ensures
        final(nics)@.len() == old(nics)@.len(),
        super::disk::entries_wf(views(final(nics)@)),
        writable_entries(views(old(nics)@)) ==> writable_entries(views(final(nics)@)),
        views(final(nics)@) == primary_applied(
            views(old(nics)@),
            match primary_nic {
                Some(p) => Some(p@),
                None => None,
            },
        ),
        r is Ok <==> primary_found(
            views(old(nics)@),
            match primary_nic {
                Some(p) => Some(p@),
                None => None,
            },
        ),
        match r {
            Err(e) => e.message_spec() == "--primary-nic '"@ + primary_nic.unwrap()@
                + "' did not match any NIC in the resulting set"@,
            Ok(_) => true,
        },
{
    let ghost old_v = views(nics@);
    proof {
        lemma_views(nics@);
    }
    match primary_nic {
        Some(primary) => {
            let lower = to_lowercase(primary);
            let mut found = false;
            let mut i: usize = 0;
            while i < nics.len()
                invariant
                    i <= nics@.len(),
                    nics@.len() == old_v.len(),
                    writable_entries(views(nics@)),
                    lower@ == unicode_lower(primary@),
                    forall|k: int| 0 <= k < i ==> #[trigger] views(nics@)[k] == old_v[k].set(
                        "primary"@,
                        JsonV::Bool(names_nic(old_v[k], lower@)),
                    ),
                    forall|k: int| i <= k < nics@.len() ==> #[trigger] views(nics@)[k] == old_v[k],
                    found <==> exists|k: int| 0 <= k < i && names_nic(#[trigger] old_v[k], lower@),
                decreases nics@.len() - i,
            {
                proof {
                    lemma_views(nics@);
                }
                let hit = entry_names_nic(&nics[i], lower.as_str());
                set_primary(nics, i, hit);
                if hit {
                    found = true;
                }
                i = i + 1;
            }
            proof {
                lemma_views(nics@);
                assert(views(nics@) =~= primary_applied(old_v, Some(primary@)));
            }
            if !found {
                return Err(CommandError::PrimaryNotMatched { primary: primary.to_owned() });
            }
            Ok(())
        },
        None => {
            if nics.len() == 0 {
                return Ok(());
            }
            let mut any = false;
            let mut i: usize = 0;
            while i < nics.len()
                invariant
                    i <= nics@.len(),
                    views(nics@) == old_v,
                    nics@.len() == old_v.len(),
                    any <==> exists|k: int| 0 <= k < i && marked_primary(#[trigger] old_v[k]),
                decreases nics@.len() - i,
            {
                proof {
                    lemma_views(nics@);
                }
                let hit = entry_is_primary(&nics[i]);
                proof {
                    assert(old_v[i as int] == nics@[i as int].view_json());
                    assert(hit == marked_primary(old_v[i as int]));
                }
                if hit {
                    any = true;
                }
                i = i + 1;
            }
            if any {
                return Ok(());
            }
            set_primary(nics, 0, true);
            let mut i: usize = 1;
            while i < nics.len()
                invariant
                    1 <= i <= nics@.len(),
                    nics@.len() == old_v.len(),
                    old_v.len() > 0,
                    writable_entries(views(nics@)),
                    views(nics@)[0] == old_v[0].set("primary"@, JsonV::Bool(true)),
                    forall|k: int| 1 <= k < i ==> #[trigger] views(nics@)[k] == if old_v[k].get(
                        "primary"@,
                    ) is None {
                        old_v[k].set("primary"@, JsonV::Bool(false))
                    } else {
                        old_v[k]
                    },
                    forall|k: int| i <= k < nics@.len() ==> #[trigger] views(nics@)[k] == old_v[k],
                decreases nics@.len() - i,
            {
                proof {
                    lemma_views(nics@);
                    reveal_strlit("primary");
                }
                if nics[i].get("primary").is_none() {
                    set_primary(nics, i, false);
                }
                i = i + 1;
            }
            proof {
                lemma_views(nics@);
                assert(views(nics@) =~= primary_applied(old_v, None));
            }
            Ok(())
        },
    }
}

} // verus!

verus! {

/// A NIC reference entry: `{"id": id, "primary": false}`.
pub open spec fn nic_entry_spec(id: Seq<char>) -> JsonV {
    JsonV::Object(seq![("id"@, JsonV::Str(id)), ("primary"@, JsonV::Bool(false))])
}

pub fn nic_entry(id: &str) -> (r: Json)
    ensures
        r.view_json() == nic_entry_spec(id@),
        r.view_json().wf(),
{
    let mut m: Vec<(String, Json)> = Vec::new();
    push_member(&mut m, "id", Json::Str(id.to_owned()));
    push_member(&mut m, "primary", Json::Bool(false));
    let r = Json::Object(m);
    proof {
        reveal_strlit("id");
        reveal_strlit("primary");
        assert(member_views(m@) =~= seq![("id"@, JsonV::Str(id@)), ("primary"@, JsonV::Bool(false))]);
        let ms = seq![("id"@, JsonV::Str(id@)), ("primary"@, JsonV::Bool(false))];
        assert(seq_lt("id"@, "primary"@));
        assert(crate::json::keys_sorted(ms)) by {
            assert forall|i: int, j: int| 0 <= i < j < ms.len() implies seq_lt(#[trigger] ms[i].0, #[trigger] ms[j].0) by {
                assert(i == 0 && j == 1);
            }
        }
        assert(forall|i: int| 0 <= i < ms.len() ==> (#[trigger] ms[i]).1.wf());
    }
    r
}

/// The body that replaces the NICs of a VM:
/// `{"properties": {"networkProfile": {"networkInterfaces": nics}}}`.
pub open spec fn network_patch_spec(nics: Seq<JsonV>) -> JsonV {
    JsonV::Object(
        seq![(
            "properties"@,
            JsonV::Object(
                seq![(
                    "networkProfile"@,
                    JsonV::Object(seq![("networkInterfaces"@, JsonV::Array(nics))]),
                )],
            ),
        )],
    )
}

pub fn network_patch_body(nics: Vec<Json>) -> (r: Json)
    ensures
        r.view_json() == network_patch_spec(views(nics@)),
{
    let mut a: Vec<(String, Json)> = Vec::new();
    push_member(&mut a, "networkInterfaces", Json::Array(nics));
    let mut b: Vec<(String, Json)> = Vec::new();
    push_member(&mut b, "networkProfile", Json::Object(a));
    let mut c: Vec<(String, Json)> = Vec::new();
    push_member(&mut c, "properties", Json::Object(b));
    proof {
        assert(member_views(a@) =~= seq![("networkInterfaces"@, JsonV::Array(views(nics@)))]);
    }
    Json::Object(c)
}

/// Some entry has this id, compared in lowercase.
pub open spec fn has_nic_id(arr: Seq<JsonV>, id_lower: Seq<char>) -> bool {
    exists|k: int|
        0 <= k < arr.len() && match (#[trigger] arr[k]).str_field("id"@) {
            Some(e) => unicode_lower(e) == id_lower,
            None => false,
        }
}

/// The entries after adding each named NIC that is not there yet.
pub open spec fn nics_added(arr: Seq<JsonV>, sub: Seq<char>, rg: Seq<char>, nics: Seq<Seq<char>>) -> Seq<JsonV>
    decreases nics.len(),
{
    if nics.len() == 0 {
        arr
    } else {
        let prev = nics_added(arr, sub, rg, nics.drop_last());
        let id = nic_id_spec(sub, rg, nics.last());
        if has_nic_id(prev, unicode_lower(id)) {
            prev
        } else {
            prev.push(nic_entry_spec(id))
        }
    }
}

/// The entries without those named, by id or by name, in lowercase.
pub open spec fn nics_kept(arr: Seq<JsonV>, sub: Seq<char>, rg: Seq<char>, nics: Seq<Seq<char>>) -> Seq<JsonV>
    decreases arr.len(),
{
    if arr.len() == 0 {
        arr
    } else {
        let prev = nics_kept(arr.drop_last(), sub, rg, nics);
        if removes_nic(arr.last(), sub, rg, nics) {
            prev
        } else {
            prev.push(arr.last())
        }
    }
}

/// The entry is one of the NICs to remove.
pub open spec fn removes_nic(n: JsonV, sub: Seq<char>, rg: Seq<char>, nics: Seq<Seq<char>>) -> bool {
    let id = nic_id_of(n);
    exists|k: int|
        0 <= k < nics.len() && (unicode_lower(nic_id_spec(sub, rg, #[trigger] nics[k])) == unicode_lower(id)
            || unicode_lower(nics[k]) == unicode_lower(after_last_char(id, '/')))
}

/// The NIC reference array of a VM (`networkProfile.networkInterfaces`).
pub open spec fn vm_nics(vm: JsonV) -> Option<Seq<JsonV>> {
    match vm.get_path(seq!["networkProfile"@, "networkInterfaces"@]) {
        Some(v) => v.as_array(),
        None => None,
    }
}

/// The NIC reference array of a flattened VM document.
pub fn network_interfaces(vm: &Json) -> (r: Result<Vec<Json>, CommandError>)
    ensures
        match r {
            Ok(a) => vm_nics(vm.view_json()) == Some(views(a@)),
            Err(e) => vm_nics(vm.view_json()) is None && e == CommandError::NoNetworkInterfaces,
        },
{
    let path = vec!["networkProfile".to_owned(), "networkInterfaces".to_owned()];
    proof {
        assert(crate::text::string_views(path@) =~= seq!["networkProfile"@, "networkInterfaces"@]);
    }
    match vm.get_path(&path) {
        Some(v) => match v.as_array() {
            Some(a) => {
                let mut out: Vec<Json> = Vec::new();
                let mut i: usize = 0;
                proof {
                    lemma_views(a@);
                }
                while i < a.len()
                    invariant
                        i <= a@.len(),
                        views(a@).len() == a@.len(),
                        forall|k: int| 0 <= k < a@.len() ==> #[trigger] views(a@)[k] == a@[k].view_json(),
                        views(out@) == views(a@).take(i as int),
                    decreases a@.len() - i,
                {
                    let ghost before = out@;
                    out.push(a[i].deep_clone());
                    proof {
                        assert(out@.drop_last() =~= before);
                        assert(views(a@).take(i + 1) =~= views(a@).take(i as int).push(a@[i as int].view_json()));
                    }
                    i = i + 1;
                }
                proof {
                    assert(views(a@).take(a@.len() as int) =~= views(a@));
                }
                Ok(out)
            },
            None => Err(CommandError::NoNetworkInterfaces),
        },
        None => Err(CommandError::NoNetworkInterfaces),
    }
}

} // verus!

verus! {

/// Whether some entry has this id, compared in lowercase.
fn has_id_lower(arr: &Vec<Json>, id_lower: &str) -> (r: bool)
    ensures
        r == has_nic_id(views(arr@), id_lower@),
{
    proof {
        lemma_views(arr@);
        reveal_strlit("id");
    }
    let mut i: usize = 0;
    while i < arr.len()
        invariant
            i <= arr@.len(),
            views(arr@).len() == arr@.len(),
            forall|k: int| 0 <= k < arr@.len() ==> #[trigger] views(arr@)[k] == arr@[k].view_json(),
            forall|k: int|
                0 <= k < i ==> match (#[trigger] views(arr@)[k]).str_field("id"@) {
                    Some(e) => unicode_lower(e) != id_lower@,
                    None => true,
                },
        decreases arr@.len() - i,
    {
        match arr[i].str_field("id") {
            Some(e) => {
                let el = to_lowercase(e);
                if str_eq(el.as_str(), id_lower) {
                    assert(views(arr@)[i as int].str_field("id"@) == Some(e@));
                    return true;
                }
            },
            None => {},
        }
        i = i + 1;
    }
    false
}

/// Adds the NICs that are not attached yet and applies the primary choice;
/// the result is the body that sets the VM's NICs.
pub fn add_nics(
    current: Vec<Json>,
    subscription_id: &str,
    resource_group: &str,
    nics: &Vec<String>,
    primary_nic: Option<&str>,
) -> (r: Result<Json, CommandError>)
    requires
        writable_entries(views(current@)),
    ensures
        ({
            let added = nics_added(
                views(current@),
                subscription_id@,
                resource_group@,
                crate::text::string_views(nics@),
            );
            let p = match primary_nic {
                Some(p) => Some(p@),
                None => None,
            };
            match r {
                Ok(body) => primary_found(added, p) && body.view_json() == network_patch_spec(
                    primary_applied(added, p),
                ),
                Err(e) => !primary_found(added, p) && e.message_spec() == "--primary-nic '"@
                    + primary_nic.unwrap()@ + "' did not match any NIC in the resulting set"@,
            }
        }),
{
    let ghost sn = crate::text::string_views(nics@);
    let mut arr = current;
    let mut i: usize = 0;
    while i < nics.len()
        invariant
            i <= nics@.len(),
            sn == crate::text::string_views(nics@),
            writable_entries(views(arr@)),
            views(arr@) == nics_added(views(current@), subscription_id@, resource_group@, sn.take(i as int)),
        decreases nics@.len() - i,
    {
        let id = resolve_nic_id(subscription_id, resource_group, nics[i].as_str());
        let idl = to_lowercase(id.as_str());
        let already = has_id_lower(&arr, idl.as_str());
        proof {
            assert(sn.take(i + 1).drop_last() =~= sn.take(i as int));
            assert(sn.take(i + 1).last() == nics@[i as int]@);
        }
        if !already {
            let ghost before = arr@;
            let e = nic_entry(id.as_str());
            arr.push(e);
            proof {
                lemma_views(arr@);
                lemma_views(before);
                assert(views(arr@) =~= views(before).push(nic_entry_spec(id@)));
            }
        }
        i = i + 1;
    }
    proof {
        assert(sn.take(nics@.len() as int) =~= sn);
    }
    match apply_primary(&mut arr, primary_nic) {
        Ok(()) => Ok(network_patch_body(arr)),
        Err(e) => Err(e),
    }
}

/// Whether the entry is one of the NICs to remove.
fn entry_removed(n: &Json, subscription_id: &str, resource_group: &str, nics: &Vec<String>) -> (r: bool)
    ensures
        r == removes_nic(n.view_json(), subscription_id@, resource_group@, crate::text::string_views(nics@)),
{
    proof {
        reveal_strlit("id");
    }
    let id = match n.str_field("id") {
        Some(s) => s.to_owned(),
        None => String::new(),
    };
    let idl = to_lowercase(id.as_str());
    let namel = to_lowercase(nic_name_from_id(id.as_str()).as_str());
    let ghost sn = crate::text::string_views(nics@);
    let mut k: usize = 0;
    while k < nics.len()
        invariant
            k <= nics@.len(),
            sn == crate::text::string_views(nics@),
            id@ == nic_id_of(n.view_json()),
            idl@ == unicode_lower(id@),
            namel@ == unicode_lower(after_last_char(id@, '/')),
            forall|j: int|
                0 <= j < k ==> !(unicode_lower(nic_id_spec(subscription_id@, resource_group@, #[trigger] sn[j]))
                    == unicode_lower(id@) || unicode_lower(sn[j]) == unicode_lower(after_last_char(id@, '/'))),
        decreases nics@.len() - k,
    {
        let rid = to_lowercase(resolve_nic_id(subscription_id, resource_group, nics[k].as_str()).as_str());
        let nl = to_lowercase(nics[k].as_str());
        assert(sn[k as int] == nics@[k as int]@);
        if str_eq(rid.as_str(), idl.as_str()) || str_eq(nl.as_str(), namel.as_str()) {
            return true;
        }
        k = k + 1;
    }
    false
}

/// Drops the named NICs (by id or name, in lowercase) and applies the
/// primary choice; the result is the body that sets the VM's NICs.
pub fn remove_nics(
    current: Vec<Json>,
    subscription_id: &str,
    resource_group: &str,
    nics: &Vec<String>,
    primary_nic: Option<&str>,
) -> (r: Result<Json, CommandError>)
    requires
        writable_entries(views(current@)),
    ensures
        ({
            let kept = nics_kept(
                views(current@),
                subscription_id@,
                resource_group@,
                crate::text::string_views(nics@),
            );
            let p = match primary_nic {
                Some(p) => Some(p@),
                None => None,
            };
            match r {
                Ok(body) => primary_found(kept, p) && body.view_json() == network_patch_spec(
                    primary_applied(kept, p),
                ),
                Err(e) => !primary_found(kept, p) && e.message_spec() == "--primary-nic '"@
                    + primary_nic.unwrap()@ + "' did not match any NIC in the resulting set"@,
            }
        }),
{
    let ghost cv = views(current@);
    let ghost sn = crate::text::string_views(nics@);
    proof {
        lemma_views(current@);
    }
    let mut arr: Vec<Json> = Vec::new();
    let mut i: usize = 0;
    while i < current.len()
        invariant
            i <= current@.len(),
            cv == views(current@),
            cv.len() == current@.len(),
            forall|k: int| 0 <= k < current@.len() ==> #[trigger] cv[k] == current@[k].view_json(),
            writable_entries(cv),
            sn == crate::text::string_views(nics@),
            views(arr@) == nics_kept(cv.take(i as int), subscription_id@, resource_group@, sn),
            forall|k: int| 0 <= k < views(arr@).len() ==> exists|j: int| 0 <= j < i && #[trigger] views(arr@)[k] == cv[j],
        decreases current@.len() - i,
    {
        let gone = entry_removed(&current[i], subscription_id, resource_group, nics);
        proof {
            assert(cv.take(i + 1).drop_last() =~= cv.take(i as int));
            assert(cv.take(i + 1).last() == cv[i as int]);
        }
        if !gone {
            let ghost before = arr@;
            arr.push(current[i].deep_clone());
            proof {
                lemma_views(arr@);
                lemma_views(before);
                assert(views(arr@) =~= views(before).push(cv[i as int]));
                assert forall|k: int| 0 <= k < views(arr@).len() implies exists|j: int| 0 <= j < i + 1 && #[trigger] views(arr@)[k] == cv[j] by {
                    if k < views(before).len() {
                        assert(views(arr@)[k] == views(before)[k]);
                    } else {
                        assert(views(arr@)[k] == cv[i as int]);
                    }
                }
            }
        }
        i = i + 1;
    }
    proof {
        assert(cv.take(current@.len() as int) =~= cv);
        assert forall|k: int| 0 <= k < views(arr@).len() implies (#[trigger] views(arr@)[k]).wf() && (views(arr@)[k] is Object || views(arr@)[k] is Null) by {
            let j = choose|j: int| 0 <= j < current@.len() && views(arr@)[k] == cv[j];
        }
    }
    match apply_primary(&mut arr, primary_nic) {
        Ok(()) => Ok(network_patch_body(arr)),
        Err(e) => Err(e),
    }
}

/// Replaces the NICs with the named ones and applies the primary choice;
/// the result is the body that sets the VM's NICs.
pub fn set_nics(
    subscription_id: &str,
    resource_group: &str,
    nics: &Vec<String>,
    primary_nic: Option<&str>,
) -> (r: Result<Json, CommandError>)
    ensures
        ({
            let entries = Seq::new(
                nics@.len(),
                |k: int| nic_entry_spec(nic_id_spec(subscription_id@, resource_group@, nics@[k]@)),
            );
            let p = match primary_nic {
                Some(p) => Some(p@),
                None => None,
            };
            match r {
                Ok(body) => primary_found(entries, p) && body.view_json() == network_patch_spec(
                    primary_applied(entries, p),
                ),
                Err(e) => !primary_found(entries, p) && e.message_spec() == "--primary-nic '"@
                    + primary_nic.unwrap()@ + "' did not match any NIC in the resulting set"@,
            }
        }),
{
    let ghost entries = Seq::new(
        nics@.len(),
        |k: int| nic_entry_spec(nic_id_spec(subscription_id@, resource_group@, nics@[k]@)),
    );
    let mut arr: Vec<Json> = Vec::new();
    let mut i: usize = 0;
    while i < nics.len()
        invariant
            i <= nics@.len(),
            entries == Seq::new(
                nics@.len(),
                |k: int| nic_entry_spec(nic_id_spec(subscription_id@, resource_group@, nics@[k]@)),
            ),
            views(arr@) == entries.take(i as int),
            writable_entries(views(arr@)),
        decreases nics@.len() - i,
    {
        let id = resolve_nic_id(subscription_id, resource_group, nics[i].as_str());
        let ghost before = arr@;
        arr.push(nic_entry(id.as_str()));
        proof {
            lemma_views(arr@);
            lemma_views(before);
            assert(views(arr@) =~= entries.take(i + 1));
        }
        i = i + 1;
    }
    proof {
        assert(entries.take(nics@.len() as int) =~= entries);
    }
    match apply_primary(&mut arr, primary_nic) {
        Ok(()) => Ok(network_patch_body(arr)),
        Err(e) => Err(e),
    }
}

/// Some entry is the NIC: by id, or by name, in lowercase.
pub open spec fn nic_attached(arr: Seq<JsonV>, sub: Seq<char>, rg: Seq<char>, nic: Seq<char>) -> bool {
    exists|k: int|
        0 <= k < arr.len() && (unicode_lower(nic_id_of(#[trigger] arr[k])) == unicode_lower(
            nic_id_spec(sub, rg, nic),
        ) || unicode_lower(after_last_char(nic_id_of(arr[k]), '/')) == unicode_lower(nic))
}

/// The id of a NIC to show, when the VM has it attached.
pub fn attached_nic_id(
    current: &Vec<Json>,
    subscription_id: &str,
    resource_group: &str,
    vm_name: &str,
    nic: &str,
) -> (r: Result<String, CommandError>)
    ensures
        match r {
            Ok(id) => nic_attached(views(current@), subscription_id@, resource_group@, nic@) && id@
                == nic_id_spec(subscription_id@, resource_group@, nic@),
            Err(e) => !nic_attached(views(current@), subscription_id@, resource_group@, nic@)
                && e.message_spec() == "NIC '"@ + nic@ + "' is not attached to VM '"@ + vm_name@
                + "' in resource group '"@ + resource_group@ + "'"@,
        },
{
    proof {
        lemma_views(current@);
        reveal_strlit("id");
    }
    let resolved = resolve_nic_id(subscription_id, resource_group, nic);
    let rl = to_lowercase(resolved.as_str());
    let nl = to_lowercase(nic);
    let mut i: usize = 0;
    while i < current.len()
        invariant
            i <= current@.len(),
            views(current@).len() == current@.len(),
            forall|k: int| 0 <= k < current@.len() ==> #[trigger] views(current@)[k] == current@[k].view_json(),
            resolved@ == nic_id_spec(subscription_id@, resource_group@, nic@),
            rl@ == unicode_lower(nic_id_spec(subscription_id@, resource_group@, nic@)),
            nl@ == unicode_lower(nic@),
            forall|k: int|
                0 <= k < i ==> !(unicode_lower(nic_id_of(#[trigger] views(current@)[k])) == rl@ || unicode_lower(
                    after_last_char(nic_id_of(views(current@)[k]), '/'),
                ) == nl@),
        decreases current@.len() - i,
    {
        let id = match current[i].str_field("id") {
            Some(s) => s.to_owned(),
            None => String::new(),
        };
        let idl = to_lowercase(id.as_str());
        let namel = to_lowercase(nic_name_from_id(id.as_str()).as_str());
        assert(id@ == nic_id_of(views(current@)[i as int]));
        if str_eq(idl.as_str(), rl.as_str()) || str_eq(namel.as_str(), nl.as_str()) {
            proof {
                let v = views(current@)[i as int];
                assert(unicode_lower(nic_id_of(v)) == rl@ || unicode_lower(after_last_char(nic_id_of(v), '/'))
                    == nl@);
                assert(nic_attached(views(current@), subscription_id@, resource_group@, nic@));
            }
            return Ok(resolved);
        }
        i = i + 1;
    }
    Err(
        CommandError::NicNotAttached {
            nic: nic.to_owned(),
            vm: vm_name.to_owned(),
            resource_group: resource_group.to_owned(),
        },
    )
}

} // verus!

verus! {

/// A NIC given by name (no `/` in it) resolves to an id whose NIC name is
/// that name again.
pub proof fn lemma_name_of_resolved_id(subscription_id: Seq<char>, resource_group: Seq<char>, nic: Seq<char>)
    requires
        forall|j: int| 0 <= j < nic.len() ==> nic[j] != '/',
    ensures
        after_last_char(nic_id_spec(subscription_id, resource_group, nic), '/') == nic,
{
    reveal_strlit("/subscriptions/");
    reveal_strlit("/resourceGroups/");
    reveal_strlit("/providers/Microsoft.Network/networkInterfaces/");
    if nic.len() > 0 {
        assert(nic[0] != '/');
    }
    let tail = "/providers/Microsoft.Network/networkInterfaces/"@;
    let pre = "/subscriptions/"@ + subscription_id + "/resourceGroups/"@ + resource_group + tail;
    assert(pre.last() == tail.last());
    assert(tail.last() == '/');
    crate::text::lemma_after_last_char_suffix(pre, nic, '/');
}

/// With no NIC named, some NIC is primary afterwards.
pub proof fn lemma_some_primary(nics: Seq<JsonV>)
    requires
        nics.len() > 0,
        writable_entries(nics),
    ensures
        any_primary(primary_applied(nics, None)),
{
    if !any_primary(nics) {
        let r = primary_applied(nics, None);
        crate::json::lemma_get_after_set(nics[0], "primary"@, JsonV::Bool(true));
        assert(marked_primary(r[0]));
    }
}

/// With a NIC named, exactly the entries naming it are primary afterwards.
pub proof fn lemma_named_primary(nics: Seq<JsonV>, p: Seq<char>, i: int)
    requires
        writable_entries(nics),
        0 <= i < nics.len(),
    ensures
        marked_primary(primary_applied(nics, Some(p))[i]) <==> names_nic(nics[i], unicode_lower(p)),
{
    crate::json::lemma_get_after_set(nics[i], "primary"@, JsonV::Bool(names_nic(nics[i], unicode_lower(p))));
}

} // verus!
