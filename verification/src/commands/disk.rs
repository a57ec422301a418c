use vstd::prelude::*;
use crate::json::{lemma_views, member_views, push_member, views, Json, JsonV};
use crate::text::{
    after_last_char, concat, ends_with, eq_ignore_ascii_case, ascii_lower, i64_to_string, int_text,
    last_segment, starts_with, to_lowercase, unicode_lower,
};
use super::CommandError;

verus! {

/// The resource id of a managed disk given by name or by id.
pub open spec fn disk_id_spec(subscription_id: Seq<char>, resource_group: Seq<char>, disk: Seq<char>) -> Seq<char> {
    if disk.len() > 0 && disk[0] == '/' {
        disk
    } else {
        "/subscriptions/"@ + subscription_id + "/resourceGroups/"@ + resource_group
            + "/providers/Microsoft.Compute/disks/"@ + disk
    }
}

pub fn resolve_disk_id(subscription_id: &str, resource_group: &str, disk: &str) -> (r: String)
    ensures
        r@ == disk_id_spec(subscription_id@, resource_group@, disk@),
{
    proof {
        reveal_strlit("/");
    }
    if starts_with(disk, "/") {
        proof {
            assert(disk@.subrange(0, 1)[0] == disk@[0]);
        }
        return disk.to_owned();
    }
    proof {
        if disk@.len() > 0 && disk@[0] == '/' {
            assert(disk@.subrange(0, 1) =~= "/"@);
        }
    }
    let a = concat("/subscriptions/", subscription_id);
    let b = concat(a.as_str(), "/resourceGroups/");
    let c = concat(b.as_str(), resource_group);
    let d = concat(c.as_str(), "/providers/Microsoft.Compute/disks/");
    concat(d.as_str(), disk)
}

/// The body that creates an empty managed disk.
pub open spec fn new_disk_spec(location: Seq<char>, size_gb: Option<i64>, sku: Option<Seq<char>>) -> JsonV {
    let size = match size_gb {
        Some(n) => n as int,
        None => 1023,
    };
    let props = JsonV::Object(
        seq![
            ("creationData"@, JsonV::Object(seq![("createOption"@, JsonV::Str("Empty"@))])),
            ("diskSizeGB"@, JsonV::Number(int_text(size))),
        ],
    );
    let head = seq![("location"@, JsonV::Str(location)), ("properties"@, props)];
    JsonV::Object(
        match sku {
            Some(s) => head.push(("sku"@, JsonV::Object(seq![("name"@, JsonV::Str(s))]))),
            None => head,
        },
    )
}

pub fn new_disk_body(location: &str, size_gb: Option<i64>, sku: Option<&str>) -> (r: Json)
    ensures
        r.view_json() == new_disk_spec(
            location@,
            size_gb,
            match sku {
                Some(s) => Some(s@),
                None => None,
            },
        ),
{
    let size: i64 = match size_gb {
        Some(n) => n,
        None => 1023,
    };
    let mut cd: Vec<(String, Json)> = Vec::new();
    push_member(&mut cd, "createOption", Json::Str("Empty".to_owned()));
    let mut props: Vec<(String, Json)> = Vec::new();
    push_member(&mut props, "creationData", Json::Object(cd));
    push_member(&mut props, "diskSizeGB", Json::Number(i64_to_string(size)));
    let mut top: Vec<(String, Json)> = Vec::new();
    push_member(&mut top, "location", Json::Str(location.to_owned()));
    push_member(&mut top, "properties", Json::Object(props));
    let ghost head = member_views(top@);
    match sku {
        Some(s) => {
            let mut sk: Vec<(String, Json)> = Vec::new();
            push_member(&mut sk, "name", Json::Str(s.to_owned()));
            push_member(&mut top, "sku", Json::Object(sk));
            proof {
                assert(member_views(sk@) =~= seq![("name"@, JsonV::Str(s@))]);
            }
        },
        None => {},
    }
    proof {
        assert(member_views(cd@) =~= seq![("createOption"@, JsonV::Str("Empty"@))]);
        assert(member_views(props@) =~= seq![
            ("creationData"@, JsonV::Object(seq![("createOption"@, JsonV::Str("Empty"@))])),
            ("diskSizeGB"@, JsonV::Number(int_text(size as int))),
        ]);
        assert(head =~= seq![
            ("location"@, JsonV::Str(location@)),
            ("properties"@, JsonV::Object(member_views(props@))),
        ]);
    }
    Json::Object(top)
}

/// The LUN a data disk entry uses, if it gives one.
pub open spec fn disk_lun(d: JsonV) -> Option<int> {
    match d.get("lun"@) {
        Some(v) => v.as_i64(),
        None => None,
    }
}

/// Some data disk uses LUN `n`.
pub open spec fn lun_used(disks: Seq<JsonV>, n: int) -> bool {
    exists|k: int| 0 <= k < disks.len() && disk_lun(#[trigger] disks[k]) == Some(n)
}

/// `n` is the lowest LUN from 0 up that no data disk uses.
pub open spec fn is_next_free_lun(disks: Seq<JsonV>, n: int) -> bool {
    &&& 0 <= n
    &&& !lun_used(disks, n)
    &&& forall|m: int| 0 <= m < n ==> lun_used(disks, m)
}

/// The lowest LUN that no data disk uses.
pub fn next_free_lun(disks: &Vec<Json>) -> (r: i64)
    requires
        disks@.len() < i64::MAX,
    ensures
        is_next_free_lun(views(disks@), r as int),
{
    proof {
        lemma_views(disks@);
        reveal_strlit("lun");
    }
    let ghost dv = views(disks@);
    let mut used: Vec<i64> = Vec::new();
    let mut i: usize = 0;
    while i < disks.len()
        invariant
            i <= disks@.len(),
            dv == views(disks@),
            dv.len() == disks@.len(),
            forall|k: int| 0 <= k < disks@.len() ==> #[trigger] dv[k] == disks@[k].view_json(),
            used@.len() <= i,
            forall|n: int| #![trigger lun_used(dv.take(i as int), n)]
                (exists|j: int| 0 <= j < used@.len() && used@[j] as int == n) <==> lun_used(dv.take(i as int), n),
        decreases disks@.len() - i,
    {
        let lun = match disks[i].get("lun") {
            Some(v) => v.as_i64(),
            None => None,
        };
        let ghost before = used@;
        proof {
            assert(dv.take(i + 1) =~= dv.take(i as int).push(dv[i as int]));
        }
        match lun {
            Some(n) => {
                used.push(n);
            },
            None => {},
        }
        proof {
            let t = dv.take(i + 1);
            assert forall|n: int| #![trigger lun_used(t, n)]
                (exists|j: int| 0 <= j < used@.len() && used@[j] as int == n) <==> lun_used(t, n) by {
                if lun_used(t, n) {
                    let k = choose|k: int| 0 <= k < t.len() && disk_lun(#[trigger] t[k]) == Some(n);
                    if k < i {
                        assert(dv.take(i as int)[k] == t[k]);
                        assert(lun_used(dv.take(i as int), n));
                        let j = choose|j: int| 0 <= j < before.len() && before[j] as int == n;
                        assert(used@[j] == before[j]);
                    } else {
                        assert(used@[used@.len() - 1] as int == n);
                    }
                }
                if exists|j: int| 0 <= j < used@.len() && used@[j] as int == n {
                    let j = choose|j: int| 0 <= j < used@.len() && used@[j] as int == n;
                    if j < before.len() {
                        assert(before[j] == used@[j]);
                        assert(lun_used(dv.take(i as int), n));
                        let k = choose|k: int| 0 <= k < i && disk_lun(#[trigger] dv.take(i as int)[k]) == Some(n);
                        assert(t[k] == dv.take(i as int)[k]);
                    } else {
                        assert(disk_lun(t[i as int]) == Some(n));
                    }
                }
            }
        }
        i = i + 1;
    }
    proof {
        assert(dv.take(disks@.len() as int) =~= dv);
    }
    let ghost us = used@.map_values(|x: i64| x as int);
    let mut n: i64 = 0;
    loop
        invariant
            0 <= n <= used@.len(),
            used@.len() <= disks@.len(),
            disks@.len() < i64::MAX,
            dv == views(disks@),
            us == used@.map_values(|x: i64| x as int),
            forall|m: int| #![trigger lun_used(dv, m)]
                (exists|j: int| 0 <= j < used@.len() && used@[j] as int == m) <==> lun_used(dv, m),
            forall|m: int| 0 <= m < n ==> lun_used(dv, m),
        decreases used@.len() - n,
    {
        let mut found = false;
        let mut j: usize = 0;
        while j < used.len()
            invariant
                j <= used@.len(),
                found <==> exists|k: int| 0 <= k < j && used@[k] == n,
            decreases used@.len() - j,
        {
            if used[j] == n {
                found = true;
            }
            j = j + 1;
        }
        if !found {
            assert(!lun_used(dv, n as int));
            return n;
        }
        proof {
            assert(lun_used(dv, n as int));
            let r = vstd::set_lib::set_int_range(0, n + 1);
            vstd::set_lib::lemma_int_range(0, n + 1);
            assert forall|m: int| r.contains(m) implies us.to_set().contains(m) by {
                assert(lun_used(dv, m));
                let k = choose|k: int| 0 <= k < used@.len() && used@[k] as int == m;
                assert(us[k] == m);
            }
            assert(r.subset_of(us.to_set()));
            us.lemma_cardinality_of_set();
            vstd::set_lib::lemma_len_subset(r, us.to_set());
        }
        n = n + 1;
    }
}

} // verus!

verus! {

/// The data disk array of a VM (`storageProfile.dataDisks`).
pub open spec fn vm_data_disks(vm: JsonV) -> Option<Seq<JsonV>> {
    match vm.get_path(seq!["storageProfile"@, "dataDisks"@]) {
        Some(v) => v.as_array(),
        None => None,
    }
}

/// The data disk entries of a VM document, or `missing` when there is no
/// such array.
pub fn data_disks(vm: &Json, missing: CommandError) -> (r: Result<Vec<Json>, CommandError>)
    ensures
        match r {
            Ok(a) => vm_data_disks(vm.view_json()) == Some(views(a@)),
            Err(e) => vm_data_disks(vm.view_json()) is None && e == missing,
        },
{
    let path = vec!["storageProfile".to_owned(), "dataDisks".to_owned()];
    proof {
        assert(crate::text::string_views(path@) =~= seq!["storageProfile"@, "dataDisks"@]);
    }
    match vm.array_at(&path) {
        Some(a) => Ok(a),
        None => Err(missing),
    }
}

/// The location of a VM document.
pub fn vm_location(vm: &Json) -> (r: Result<String, CommandError>)
    ensures
        match r {
            Ok(l) => vm.view_json().str_field("location"@) == Some(l@),
            Err(e) => vm.view_json().str_field("location"@) is None && e == CommandError::NoLocation,
        },
{
    match vm.str_field("location") {
        Some(l) => Ok(l.to_owned()),
        None => Err(CommandError::NoLocation),
    }
}

/// The body that replaces the data disks of a VM:
/// `{"properties": {"storageProfile": {"dataDisks": disks}}}`.
pub open spec fn storage_patch_spec(disks: Seq<JsonV>) -> JsonV {
    JsonV::Object(
        seq![(
            "properties"@,
            JsonV::Object(
                seq![("storageProfile"@, JsonV::Object(seq![("dataDisks"@, JsonV::Array(disks))]))],
            ),
        )],
    )
}

pub fn storage_patch_body(disks: Vec<Json>) -> (r: Json)
    ensures
        r.view_json() == storage_patch_spec(views(disks@)),
{
    let mut a: Vec<(String, Json)> = Vec::new();
    push_member(&mut a, "dataDisks", Json::Array(disks));
    let mut b: Vec<(String, Json)> = Vec::new();
    push_member(&mut b, "storageProfile", Json::Object(a));
    let mut c: Vec<(String, Json)> = Vec::new();
    push_member(&mut c, "properties", Json::Object(b));
    proof {
        assert(member_views(a@) =~= seq![("dataDisks"@, JsonV::Array(views(disks@)))]);
    }
    Json::Object(c)
}

/// The entry that attaches a managed disk at a LUN.
pub open spec fn attach_entry_spec(
    lun: int,
    name: Seq<char>,
    disk_id: Seq<char>,
    caching: Option<Seq<char>>,
    write_accelerator: bool,
) -> JsonV {
    let core = seq![
        ("createOption"@, JsonV::Str("Attach"@)),
        ("lun"@, JsonV::Number(int_text(lun))),
        ("managedDisk"@, JsonV::Object(seq![("id"@, JsonV::Str(disk_id))])),
        ("name"@, JsonV::Str(name)),
    ];
    let with_caching = match caching {
        Some(c) => seq![("caching"@, JsonV::Str(c))] + core,
        None => core,
    };
    JsonV::Object(
        if write_accelerator {
            with_caching.push(("writeAcceleratorEnabled"@, JsonV::Bool(true)))
        } else {
            with_caching
        },
    )
}

pub proof fn lemma_next_free_lun_unique(disks: Seq<JsonV>, a: int, b: int)
    requires
        is_next_free_lun(disks, a),
        is_next_free_lun(disks, b),
    ensures
        a == b,
{
    if a < b {
        assert(lun_used(disks, a));
    } else if b < a {
        assert(lun_used(disks, b));
    }
}

/// The LUN a new data disk gets: the one asked for, else the lowest free one.
pub open spec fn chosen_lun(disks: Seq<JsonV>, lun: Option<i64>) -> int {
    match lun {
        Some(l) => l as int,
        None => choose|n: int| is_next_free_lun(disks, n),
    }
}

/// Appends the entry that attaches disk `disk` (a name or an id) and
/// returns the body that sets the VM's data disks.
pub fn attach_disk(
    disks: Vec<Json>,
    subscription_id: &str,
    resource_group: &str,
    disk: &str,
    lun: Option<i64>,
    caching: Option<&str>,
    enable_write_accelerator: bool,
) -> (r: Json)
    requires
        disks@.len() < i64::MAX,
    ensures
        ({
            let id = disk_id_spec(subscription_id@, resource_group@, disk@);
            r.view_json() == storage_patch_spec(
                views(disks@).push(
                    attach_entry_spec(
                        chosen_lun(views(disks@), lun),
                        after_last_char(id, '/'),
                        id,
                        match caching {
                            Some(c) => Some(c@),
                            None => None,
                        },
                        enable_write_accelerator,
                    ),
                ),
            )
        }),
{
    let disk_id = resolve_disk_id(subscription_id, resource_group, disk);
    let disk_name = last_segment(disk_id.as_str(), '/');
    let next: i64 = match lun {
        Some(l) => l,
        None => {
            let n = next_free_lun(&disks);
            proof {
                lemma_next_free_lun_unique(views(disks@), n as int, chosen_lun(views(disks@), lun));
            }
            n
        },
    };
    let mut m: Vec<(String, Json)> = Vec::new();
    match caching {
        Some(c) => push_member(&mut m, "caching", Json::Str(c.to_owned())),
        None => {},
    }
    let ghost pre = member_views(m@);
    let mut md: Vec<(String, Json)> = Vec::new();
    push_member(&mut md, "id", Json::Str(disk_id.clone()));
    push_member(&mut m, "createOption", Json::Str("Attach".to_owned()));
    push_member(&mut m, "lun", Json::Number(i64_to_string(next)));
    push_member(&mut m, "managedDisk", Json::Object(md));
    push_member(&mut m, "name", Json::Str(disk_name));
    let ghost mid = member_views(m@);
    if enable_write_accelerator {
        push_member(&mut m, "writeAcceleratorEnabled", Json::Bool(true));
    }
    let ghost entry = JsonV::Object(member_views(m@));
    let mut out = disks;
    let ghost before = out@;
    out.push(Json::Object(m));
    proof {
        assert(member_views(md@) =~= seq![("id"@, JsonV::Str(disk_id@))]);
        let core = seq![
            ("createOption"@, JsonV::Str("Attach"@)),
            ("lun"@, JsonV::Number(int_text(next as int))),
            ("managedDisk"@, JsonV::Object(seq![("id"@, JsonV::Str(disk_id@))])),
            ("name"@, JsonV::Str(disk_name@)),
        ];
        assert(mid =~= pre + core);
        match caching {
            Some(c) => {
                assert(pre =~= seq![("caching"@, JsonV::Str(c@))]);
            },
            None => {
                assert(pre =~= Seq::<(Seq<char>, JsonV)>::empty());
                assert(mid =~= core);
            },
        }
        lemma_views(out@);
        lemma_views(before);
        assert(views(out@) =~= views(before).push(entry));
    }
    storage_patch_body(out)
}

} // verus!

verus! {

/// The data disk entry is the disk named: by name (ASCII case-insensitive)
/// or by the last segment of its managed disk id (in lowercase).
pub open spec fn disk_matches(d: JsonV, disk_name: Seq<char>) -> bool {
    ||| match d.str_field("name"@) {
        Some(n) => ascii_lower(n) == ascii_lower(disk_name),
        None => false,
    }
    ||| match d.get_path(seq!["managedDisk"@, "id"@]) {
        Some(v) => match v.as_str() {
            Some(id) => ("/"@ + unicode_lower(disk_name)).is_suffix_of(unicode_lower(id)),
            None => false,
        },
        None => false,
    }
}

/// The entries without the named disk.
pub open spec fn disks_kept(disks: Seq<JsonV>, disk_name: Seq<char>) -> Seq<JsonV>
    decreases disks.len(),
{
    if disks.len() == 0 {
        disks
    } else {
        let prev = disks_kept(disks.drop_last(), disk_name);
        if disk_matches(disks.last(), disk_name) {
            prev
        } else {
            prev.push(disks.last())
        }
    }
}

/// The entries with the named disk marked for a forced detach.
pub open spec fn disks_force_marked(disks: Seq<JsonV>, disk_name: Seq<char>) -> Seq<JsonV> {
    Seq::new(
        disks.len(),
        |i: int|
            if disk_matches(disks[i], disk_name) {
                disks[i].set("toBeDetached"@, JsonV::Bool(true)).set(
                    "detachOption"@,
                    JsonV::Str("ForceDetach"@),
                )
            } else {
                disks[i]
            },
    )
}

/// Whether the entry is the disk named.
fn entry_is_disk(d: &Json, disk_name: &str, suffix: &str) -> (r: bool)
    requires
        suffix@ == "/"@ + unicode_lower(disk_name@),
    ensures
        r == disk_matches(d.view_json(), disk_name@),
{
    proof {
        reveal_strlit("name");
    }
    let by_name = match d.str_field("name") {
        Some(n) => eq_ignore_ascii_case(n, disk_name),
        None => false,
    };
    if by_name {
        return true;
    }
    let path = vec!["managedDisk".to_owned(), "id".to_owned()];
    proof {
        assert(crate::text::string_views(path@) =~= seq!["managedDisk"@, "id"@]);
    }
    match d.get_path(&path) {
        Some(v) => match v.as_str() {
            Some(id) => {
                let idl = to_lowercase(id);
                ends_with(idl.as_str(), suffix)
            },
            None => false,
        },
        None => false,
    }
}

/// Every entry is a well-formed document.
pub open spec fn entries_wf(ds: Seq<JsonV>) -> bool {
    forall|i: int| 0 <= i < ds.len() ==> (#[trigger] ds[i]).wf()
}

/// Detaches the named disk: drops its entry, or with `force_detach` marks
/// it `toBeDetached` with `ForceDetach`; returns the body that sets the
/// VM's data disks.
pub fn detach_disk(disks: Vec<Json>, disk_name: &str, force_detach: bool) -> (r: Json)
    requires
        entries_wf(views(disks@)),
    ensures
        r.view_json() == storage_patch_spec(
            if force_detach {
                disks_force_marked(views(disks@), disk_name@)
            } else {
                disks_kept(views(disks@), disk_name@)
            },
        ),
{
    let lower = to_lowercase(disk_name);
    let suffix = concat("/", lower.as_str());
    let ghost dv = views(disks@);
    proof {
        lemma_views(disks@);
        reveal_strlit("toBeDetached");
        reveal_strlit("detachOption");
    }
    let mut out: Vec<Json> = Vec::new();
    let mut i: usize = 0;
    while i < disks.len()
        invariant
            i <= disks@.len(),
            dv == views(disks@),
            dv.len() == disks@.len(),
            forall|k: int| 0 <= k < disks@.len() ==> #[trigger] dv[k] == disks@[k].view_json(),
            entries_wf(dv),
            suffix@ == "/"@ + unicode_lower(disk_name@),
            views(out@) == if force_detach {
                disks_force_marked(dv, disk_name@).take(i as int)
            } else {
                disks_kept(dv.take(i as int), disk_name@)
            },
        decreases disks@.len() - i,
    {
        let hit = entry_is_disk(&disks[i], disk_name, suffix.as_str());
        let ghost before = out@;
        proof {
            assert(dv.take(i + 1).drop_last() =~= dv.take(i as int));
            assert(dv.take(i + 1).last() == dv[i as int]);
        }
        if force_detach {
            let mut d = disks[i].deep_clone();
            proof {
                assert(dv[i as int].wf());
                if hit {
                    let dj = d.view_json();
                    let path = seq!["managedDisk"@, "id"@];
                    assert(path.len() == 2 && path[0] == "managedDisk"@);
                    if dj.get_path(path) is Some {
                        assert(dj.get("managedDisk"@) is Some);
                    }
                    assert(dj is Object);
                }
            }
            if hit {
                d.set("toBeDetached".to_owned(), Json::Bool(true));
                d.set("detachOption".to_owned(), Json::Str("ForceDetach".to_owned()));
            }
            out.push(d);
            proof {
                lemma_views(out@);
                lemma_views(before);
                assert(views(out@) =~= disks_force_marked(dv, disk_name@).take(i + 1));
            }
        } else if !hit {
            out.push(disks[i].deep_clone());
            proof {
                lemma_views(out@);
                lemma_views(before);
                assert(views(out@) =~= views(before).push(dv[i as int]));
            }
        }
        i = i + 1;
    }
    proof {
        assert(dv.take(disks@.len() as int) =~= dv);
        assert(disks_force_marked(dv, disk_name@).take(disks@.len() as int) =~= disks_force_marked(dv, disk_name@));
    }
    storage_patch_body(out)
}

} // verus!
