use vstd::prelude::*;
use crate::json::{lemma_views, member_views, push_member, views, Json, JsonV};
use crate::text::{
    concat, i64_to_string, int_text, parse_i64, parse_i64_spec, split_all, split_by, split_once,
    split_once_spec, str_eq, string_views, unicode_lower,
};

verus! {

/// The publisher, offer, SKU and version of an image given as
/// `publisher:offer:sku:version`; any other text is the publisher, with
/// empty offer and SKU and the `latest` version.
pub open spec fn image_parts(image: Seq<char>) -> (Seq<char>, Seq<char>, Seq<char>, Seq<char>) {
    let p = split_all(image, ':');
    if p.len() == 4 {
        (p[0], p[1], p[2], p[3])
    } else {
        (image, Seq::empty(), Seq::empty(), "latest"@)
    }
}

pub fn parse_image(image: &str) -> (r: (String, String, String, String))
    ensures
        (r.0@, r.1@, r.2@, r.3@) == image_parts(image@),
{
    let parts = split_by(image, ':');
    if parts.len() == 4 {
        assert(string_views(parts@)[0] == parts@[0]@);
        assert(string_views(parts@)[1] == parts@[1]@);
        assert(string_views(parts@)[2] == parts@[2]@);
        assert(string_views(parts@)[3] == parts@[3]@);
        (parts[0].clone(), parts[1].clone(), parts[2].clone(), parts[3].clone())
    } else {
        (image.to_owned(), String::new(), String::new(), "latest".to_owned())
    }
}

/// The body of `vm capture`.
pub fn capture_body(vhd_name_prefix: &str, storage_container: &str, overwrite: bool) -> (r: Json)
    ensures
        r.view_json() == JsonV::Object(
            seq![
                ("destinationContainerName"@, JsonV::Str(storage_container@)),
                ("overwriteVhds"@, JsonV::Bool(overwrite)),
                ("vhdPrefix"@, JsonV::Str(vhd_name_prefix@)),
            ],
        ),
{
    let mut m: Vec<(String, Json)> = Vec::new();
    push_member(&mut m, "destinationContainerName", Json::Str(storage_container.to_owned()));
    push_member(&mut m, "overwriteVhds", Json::Bool(overwrite));
    push_member(&mut m, "vhdPrefix", Json::Str(vhd_name_prefix.to_owned()));
    proof {
        assert(member_views(m@) =~= seq![
            ("destinationContainerName"@, JsonV::Str(storage_container@)),
            ("overwriteVhds"@, JsonV::Bool(overwrite)),
            ("vhdPrefix"@, JsonV::Str(vhd_name_prefix@)),
        ]);
    }
    Json::Object(m)
}

/// `{key: value}`.
pub fn single(key: &str, value: Json) -> (r: Json)
    ensures
        r.view_json() == JsonV::Object(seq![(key@, value.view_json())]),
{
    let mut m: Vec<(String, Json)> = Vec::new();
    push_member(&mut m, key, value);
    assert(member_views(m@) =~= seq![(key@, value.view_json())]);
    Json::Object(m)
}

/// The body of `vm resize`: `{"properties": {"hardwareProfile": {"vmSize": size}}}`.
pub fn resize_body(size: &str) -> (r: Json)
    ensures
        r.view_json() == JsonV::Object(
            seq![(
                "properties"@,
                JsonV::Object(seq![("hardwareProfile"@, JsonV::Object(seq![("vmSize"@, JsonV::Str(size@))]))]),
            )],
        ),
{
    let a = single("vmSize", Json::Str(size.to_owned()));
    let b = single("hardwareProfile", a);
    single("properties", b)
}

/// A list of texts as a JSON array.
pub open spec fn text_array(items: Seq<String>) -> JsonV {
    JsonV::Array(Seq::new(items.len(), |i: int| JsonV::Str(items[i]@)))
}

pub fn text_array_json(items: &Vec<String>) -> (r: Json)
    ensures
        r.view_json() == text_array(items@),
{
    let mut out: Vec<Json> = Vec::new();
    let mut i: usize = 0;
    while i < items.len()
        invariant
            i <= items@.len(),
            views(out@) == Seq::new(i as nat, |k: int| JsonV::Str(items@[k]@)),
        decreases items@.len() - i,
    {
        let ghost b = out@;
        out.push(Json::Str(items[i].clone()));
        proof {
            lemma_views(out@);
            lemma_views(b);
            assert forall|k: int| 0 <= k < i + 1 implies views(out@)[k] == JsonV::Str(items@[k]@) by {
                if k < i {
                    assert(out@[k] == b[k]);
                    assert(views(b)[k] == JsonV::Str(items@[k]@));
                }
            }
            assert(views(out@) =~= Seq::new((i + 1) as nat, |k: int| JsonV::Str(items@[k]@)));
        }
        i = i + 1;
    }
    Json::Array(out)
}

/// The body of `vm install-patches`.
pub open spec fn install_patches_spec(
    maximum_duration: Seq<char>,
    reboot_setting: Seq<char>,
    linux: Option<Seq<String>>,
    windows: Option<Seq<String>>,
) -> JsonV {
    JsonV::Object(
        match linux {
            Some(c) => seq![("linuxParameters"@, JsonV::Object(seq![("classificationsToInclude"@, text_array(c))]))],
            None => seq![],
        } + seq![
            ("maximumDuration"@, JsonV::Str(maximum_duration)),
            ("rebootSetting"@, JsonV::Str(reboot_setting)),
        ] + match windows {
            Some(c) => seq![("windowsParameters"@, JsonV::Object(seq![("classificationsToInclude"@, text_array(c))]))],
            None => seq![],
        },
    )
}

pub fn install_patches_body(
    maximum_duration: &str,
    reboot_setting: &str,
    classifications_linux: Option<&Vec<String>>,
    classifications_win: Option<&Vec<String>>,
) -> (r: Json)
    ensures
        r.view_json() == install_patches_spec(
            maximum_duration@,
            reboot_setting@,
            match classifications_linux {
                Some(c) => Some(c@),
                None => None,
            },
            match classifications_win {
                Some(c) => Some(c@),
                None => None,
            },
        ),
{
    let mut m: Vec<(String, Json)> = Vec::new();
    match classifications_linux {
        Some(c) => push_member(&mut m, "linuxParameters", single("classificationsToInclude", text_array_json(c))),
        None => {},
    }
    let ghost a = member_views(m@);
    push_member(&mut m, "maximumDuration", Json::Str(maximum_duration.to_owned()));
    push_member(&mut m, "rebootSetting", Json::Str(reboot_setting.to_owned()));
    let ghost b = member_views(m@);
    match classifications_win {
        Some(c) => push_member(&mut m, "windowsParameters", single("classificationsToInclude", text_array_json(c))),
        None => {},
    }
    proof {
        assert(b =~= a + seq![
            ("maximumDuration"@, JsonV::Str(maximum_duration@)),
            ("rebootSetting"@, JsonV::Str(reboot_setting@)),
        ]);
        match classifications_linux {
            Some(c) => assert(a =~= seq![("linuxParameters"@, JsonV::Object(seq![("classificationsToInclude"@, text_array(c@))]))]),
            None => assert(a =~= Seq::<(Seq<char>, JsonV)>::empty()),
        }
        assert(member_views(m@) =~= b + match classifications_win {
            Some(c) => seq![("windowsParameters"@, JsonV::Object(seq![("classificationsToInclude"@, text_array(c@))]))],
            None => seq![],
        });
    }
    Json::Object(m)
}

/// A `--set` value: `true`, `false`, an integer, else the text itself.
pub open spec fn parse_value_spec(s: Seq<char>) -> JsonV {
    if s == "true"@ {
        JsonV::Bool(true)
    } else if s == "false"@ {
        JsonV::Bool(false)
    } else {
        match parse_i64_spec(s) {
            Some(n) => JsonV::Number(int_text(n)),
            None => JsonV::Str(s),
        }
    }
}

pub fn parse_value(s: &str) -> (r: Json)
    ensures
        r.view_json() == parse_value_spec(s@),
        r.view_json().wf(),
{
    if str_eq(s, "true") {
        Json::Bool(true)
    } else if str_eq(s, "false") {
        Json::Bool(false)
    } else {
        match parse_i64(s) {
            Some(n) => Json::Number(i64_to_string(n)),
            None => Json::Str(s.to_owned()),
        }
    }
}

/// `value` written at the dotted path `parts` below `obj`, making each
/// step an object (a step that is missing or not an object becomes `{}`).
pub open spec fn set_nested_spec(obj: JsonV, parts: Seq<Seq<char>>, value: JsonV) -> JsonV
    decreases parts.len(),
{
    if parts.len() == 0 {
        obj
    } else if parts.len() == 1 {
        obj.set(parts[0], value)
    } else {
        let child = match obj.get(parts[0]) {
            Some(c) => if c is Object {
                c
            } else {
                JsonV::Object(seq![])
            },
            None => JsonV::Object(seq![]),
        };
        obj.set(parts[0], set_nested_spec(child, parts.drop_first(), value))
    }
}

/// Writes `value` at the dotted path `parts[from..]` below `obj`.
pub fn set_nested(obj: &mut Json, parts: &Vec<String>, from: usize, value: Json)
    requires
        from <= parts@.len(),
        old(obj).view_json().wf(),
        old(obj).view_json() is Object || old(obj).view_json() is Null,
        value.view_json().wf(),
    ensures
        final(obj).view_json() == set_nested_spec(
            old(obj).view_json(),
            string_views(parts@).skip(from as int),
            value.view_json(),
        ),
        final(obj).view_json().wf(),
        final(obj).view_json() is Object || final(obj).view_json() is Null,
    decreases parts@.len() - from,
{
    let ghost ps = string_views(parts@).skip(from as int);
    if from == parts.len() {
        return;
    }
    assert(ps[0] == parts@[from as int]@);
    if from + 1 == parts.len() {
        obj.set(parts[from].clone(), value);
        return;
    }
    let mut child = match obj.get(parts[from].as_str()) {
        Some(c) => if c.is_object() {
            c.deep_clone()
        } else {
            Json::new_object()
        },
        None => Json::new_object(),
    };
    proof {
        let o = old(obj).view_json();
        if let Some(c) = o.get(parts@[from as int]@) {
            crate::json::lemma_get_wf(o, parts@[from as int]@);
        }
        assert(string_views(parts@).skip(from + 1) =~= ps.drop_first());
    }
    set_nested(&mut child, parts, from + 1, value);
    obj.set(parts[from].clone(), child);
}

/// The body of `vm update`: each `path=value` written into `{}` in turn;
/// items without `=` are left out.
pub open spec fn update_body_spec(items: Seq<Seq<char>>) -> JsonV
    decreases items.len(),
{
    if items.len() == 0 {
        JsonV::Object(seq![])
    } else {
        let prev = update_body_spec(items.drop_last());
        match split_once_spec(items.last(), '=') {
            Some(pv) => set_nested_spec(prev, split_all(pv.0, '.'), parse_value_spec(pv.1)),
            None => prev,
        }
    }
}

pub fn update_body(set_values: &Vec<String>) -> (r: Json)
    ensures
        r.view_json() == update_body_spec(string_views(set_values@)),
        r.view_json().wf(),
{
    let ghost sv = string_views(set_values@);
    let mut body = Json::new_object();
    let mut i: usize = 0;
    while i < set_values.len()
        invariant
            i <= set_values@.len(),
            sv == string_views(set_values@),
            body.view_json() == update_body_spec(sv.take(i as int)),
            body.view_json().wf(),
            body.view_json() is Object || body.view_json() is Null,
        decreases set_values@.len() - i,
    {
        proof {
            assert(sv.take(i + 1).drop_last() =~= sv.take(i as int));
            assert(sv.take(i + 1).last() == set_values@[i as int]@);
        }
        match split_once(set_values[i].as_str(), '=') {
            Some((path, value)) => {
                let parts = split_by(path.as_str(), '.');
                let v = parse_value(value.as_str());
                proof {
                    assert(string_views(parts@).skip(0) =~= string_views(parts@));
                }
                set_nested(&mut body, &parts, 0, v);
            },
            None => {},
        }
        i = i + 1;
    }
    proof {
        assert(sv.take(set_values@.len() as int) =~= sv);
    }
    body
}

} // verus!

verus! {

/// After `set_nested`, the dotted path reads back the value written.
pub proof fn lemma_set_nested_reads_back(obj: JsonV, parts: Seq<Seq<char>>, value: JsonV)
    requires
        obj.wf(),
        obj is Object || obj is Null,
        value.wf(),
        parts.len() > 0,
    ensures
        set_nested_spec(obj, parts, value).get_path(parts) == Some(value),
        set_nested_spec(obj, parts, value).wf(),
    decreases parts.len(),
{
    let r = set_nested_spec(obj, parts, value);
    if parts.len() == 1 {
        crate::json::lemma_get_after_set(obj, parts[0], value);
        assert(r.get_path(parts) == r.get(parts[0]).unwrap().get_path(parts.drop_first()));
        assert(parts.drop_first().len() == 0);
    } else {
        let child = match obj.get(parts[0]) {
            Some(c) => if c is Object {
                c
            } else {
                JsonV::Object(seq![])
            },
            None => JsonV::Object(seq![]),
        };
        if let Some(c) = obj.get(parts[0]) {
            crate::json::lemma_get_wf(obj, parts[0]);
        }
        assert(crate::json::keys_sorted(seq![]));
        lemma_set_nested_reads_back(child, parts.drop_first(), value);
        let c2 = set_nested_spec(child, parts.drop_first(), value);
        crate::json::lemma_get_after_set(obj, parts[0], c2);
    }
}

} // verus!

verus! {

/// What `vm create` is given.
pub struct VmCreateArgs {
    pub name: String,
    pub image: String,
    pub location: String,
    pub size: String,
    pub admin_username: Option<String>,
    pub admin_password: Option<String>,
    pub ssh_key_value: Option<String>,
    pub authentication_type: Option<String>,
    pub subnet_id: Option<String>,
    pub os_disk_size_gb: Option<i64>,
    pub data_disk_sizes_gb: Vec<i64>,
    pub tags: Option<Vec<String>>,
}

/// The admin user: the one given, else `azureuser`.
pub open spec fn admin_user_spec(a: VmCreateArgs) -> Seq<char> {
    match a.admin_username {
        Some(u) => u@,
        None => "azureuser"@,
    }
}

/// The authentication type: the one given, else `ssh` when a key is
/// given, else `password`.
pub open spec fn auth_type_spec(a: VmCreateArgs) -> Seq<char> {
    match a.authentication_type {
        Some(t) => t@,
        None => if a.ssh_key_value is Some {
            "ssh"@
        } else {
            "password"@
        },
    }
}

/// A key given as a path (starting with `/` or `~`) is read from that
/// file, `~` standing for the home directory; `None` for a key given
/// inline.
pub open spec fn ssh_key_path_spec(key: Seq<char>, home: Seq<char>) -> Option<Seq<char>> {
    if key.len() > 0 && (key[0] == '/' || key[0] == '~') {
        Some(replace_char(key, '~', home))
    } else {
        None
    }
}

/// Every `c` in `s` replaced by `by`.
pub open spec fn replace_char(s: Seq<char>, c: char, by: Seq<char>) -> Seq<char>
    decreases s.len(),
{
    if s.len() == 0 {
        s
    } else {
        replace_char(s.drop_last(), c, by) + if s.last() == c {
            by
        } else {
            seq![s.last()]
        }
    }
}

/// The file an SSH key is to be read from, if it is given as a path.
pub fn ssh_key_path(key: &str, home: &str) -> (r: Option<String>)
    ensures
        match r {
            Some(p) => ssh_key_path_spec(key@, home@) == Some(p@),
            None => ssh_key_path_spec(key@, home@) is None,
        },
{
    let v = crate::text::chars_of(key);
    if v.len() == 0 || !(v[0] == '/' || v[0] == '~') {
        return None;
    }
    let mut out = String::new();
    let mut i: usize = 0;
    while i < v.len()
        invariant
            i <= v@.len(),
            v@ == key@,
            out@ == replace_char(key@.take(i as int), '~', home@),
        decreases v@.len() - i,
    {
        proof {
            assert(key@.take(i + 1).drop_last() =~= key@.take(i as int));
            assert(key@.take(i + 1).last() == v@[i as int]);
        }
        if v[i] == '~' {
            out = concat(out.as_str(), home);
        } else {
            crate::text::push_char(&mut out, v[i]);
            assert(out@ =~= replace_char(key@.take(i + 1), '~', home@));
        }
        i = i + 1;
    }
    proof {
        assert(key@.take(v@.len() as int) =~= key@);
    }
    Some(out)
}

/// `"Premium_LRS"` managed disk settings.
pub open spec fn premium_disk() -> JsonV {
    JsonV::Object(seq![("storageAccountType"@, JsonV::Str("Premium_LRS"@))])
}

fn premium_disk_json() -> (r: Json)
    ensures
        r.view_json() == premium_disk(),
{
    single("storageAccountType", Json::Str("Premium_LRS".to_owned()))
}

/// The Linux SSH settings for the admin user with one public key.
pub open spec fn linux_config_spec(admin_user: Seq<char>, key_data: Seq<char>) -> JsonV {
    JsonV::Object(
        seq![
            ("disablePasswordAuthentication"@, JsonV::Bool(true)),
            (
                "ssh"@,
                JsonV::Object(
                    seq![(
                        "publicKeys"@,
                        JsonV::Array(
                            seq![JsonV::Object(
                                seq![
                                    ("keyData"@, JsonV::Str(crate::text::trim_spec(key_data))),
                                    ("path"@, JsonV::Str("/home/"@ + admin_user + "/.ssh/authorized_keys"@)),
                                ],
                            )],
                        ),
                    )],
                ),
            ),
        ],
    )
}

/// The OS profile: admin name, computer name, and the password or the SSH
/// key that the authentication type asks for.
pub open spec fn os_profile_spec(a: VmCreateArgs, key_data: Option<Seq<char>>) -> JsonV {
    JsonV::Object(
        password_members(a) + seq![
            ("adminUsername"@, JsonV::Str(admin_user_spec(a))),
            ("computerName"@, JsonV::Str(a.name@)),
        ] + ssh_members(a, key_data),
    )
}

/// The OS disk: from the image, premium storage, the size when given.
pub open spec fn os_disk_spec(size: Option<i64>) -> JsonV {
    JsonV::Object(
        seq![("createOption"@, JsonV::Str("FromImage"@))] + match size {
            Some(n) => seq![("diskSizeGB"@, JsonV::Number(int_text(n as int)))],
            None => seq![],
        } + seq![("managedDisk"@, premium_disk())],
    )
}

/// One empty premium data disk per size, at LUNs 0, 1, ...
pub open spec fn data_disks_spec(sizes: Seq<i64>) -> Seq<JsonV> {
    Seq::new(
        sizes.len(),
        |i: int|
            JsonV::Object(
                seq![
                    ("createOption"@, JsonV::Str("Empty"@)),
                    ("diskSizeGB"@, JsonV::Number(int_text(sizes[i] as int))),
                    ("lun"@, JsonV::Number(crate::text::nat_text(i as nat))),
                    ("managedDisk"@, premium_disk()),
                ],
            ),
    )
}

/// The tags of `KEY=value` items, later keys replacing earlier ones.
pub open spec fn tags_spec(items: Seq<Seq<char>>) -> Seq<(Seq<char>, JsonV)>
    decreases items.len(),
{
    if items.len() == 0 {
        seq![]
    } else {
        let prev = tags_spec(items.drop_last());
        match split_once_spec(items.last(), '=') {
            Some(kv) => crate::json::ins(prev, kv.0, JsonV::Str(kv.1)),
            None => prev,
        }
    }
}

/// The body of `vm create`.
pub open spec fn vm_create_spec(a: VmCreateArgs, key_data: Option<Seq<char>>) -> JsonV {
    JsonV::Object(
        seq![
            ("location"@, JsonV::Str(a.location@)),
            (
                "properties"@,
                JsonV::Object(
                    seq![
                        ("hardwareProfile"@, JsonV::Object(seq![("vmSize"@, JsonV::Str(a.size@))])),
                        ("networkProfile"@, JsonV::Object(seq![("networkInterfaces"@, create_nics_spec(a))])),
                        ("osProfile"@, os_profile_spec(a, key_data)),
                        ("storageProfile"@, storage_profile_spec(a)),
                    ],
                ),
            ),
        ] + match a.tags {
            Some(t) => seq![("tags"@, JsonV::Object(tags_spec(string_views(t@))))],
            None => seq![],
        },
    )
}

/// The OS profile a `vm create` body sends.
pub open spec fn sent_os_profile(a: VmCreateArgs, key_data: Option<Seq<char>>) -> Option<JsonV> {
    match vm_create_spec(a, key_data).get("properties"@) {
        Some(pr) => pr.get("osProfile"@),
        None => None,
    }
}

/// The body of `vm create` names the machine and its admin user (the one
/// given, else `azureuser`), and carries the admin password exactly when
/// the authentication is by password (asked for, or by default when no
/// SSH key is given) and a password is given.
pub proof fn lemma_create_body_credentials(a: VmCreateArgs, key_data: Option<Seq<char>>)
    ensures
        sent_os_profile(a, key_data) matches Some(os) && ({
            let by_password = match a.authentication_type {
                Some(t) => t@ == "password"@,
                None => a.ssh_key_value is None,
            };
            &&& os.get("computerName"@) == Some(JsonV::Str(a.name@))
            &&& os.get("adminUsername"@) == Some(
                JsonV::Str(
                    match a.admin_username {
                        Some(u) => u@,
                        None => "azureuser"@,
                    },
                ),
            )
            &&& os.get("adminPassword"@) == if by_password && a.admin_password is Some {
                Some(JsonV::Str(a.admin_password.unwrap()@))
            } else {
                None
            }
        }),
{
    reveal_strlit("properties");
    reveal_strlit("osProfile");
    reveal_strlit("location");
    reveal_strlit("hardwareProfile");
    reveal_strlit("networkProfile");
    reveal_strlit("storageProfile");
    reveal_strlit("computerName");
    reveal_strlit("adminUsername");
    reveal_strlit("adminPassword");
    reveal_strlit("linuxConfiguration");
    reveal_strlit("password");
    reveal_strlit("ssh");
    reveal_strlit("tags");
    let top = vm_create_spec(a, key_data);
    let os = os_profile_spec(a, key_data);
    let pm = password_members(a);
    let sm = ssh_members(a, key_data);
    let user = ("adminUsername"@, JsonV::Str(admin_user_spec(a)));
    let comp = ("computerName"@, JsonV::Str(a.name@));
    let members = pm + seq![user, comp] + sm;
    assert(comp.0.len() == 12 && user.0.len() == 13);
    assert("adminPassword"@[5] == 'P' && user.0[5] == 'U' && "adminPassword"@.len() == 13);
    assert("linuxConfiguration"@.len() == 18);
    assert(sm.len() == 0 || (sm.len() == 1 && sm[0].0 == "linuxConfiguration"@));
    assert(pm.len() == 0 || (pm.len() == 1 && pm[0].0 == "adminPassword"@));
    let u = pm.len() as int;
    assert(members[u] == user && members[u + 1] == comp);
    assert forall|j: int| 0 <= j < members.len() && j != u implies (#[trigger] members[j]).0 != user.0 by {
        if j < u {
            assert(members[j] == pm[j]);
        } else if j == u + 1 {
            assert(members[j] == comp);
            assert(comp.0 != user.0);
        } else if j > u + 1 {
            assert(members[j] == sm[j - u - 2]);
        }
    }
    assert forall|j: int| 0 <= j < members.len() && j != u + 1 implies (#[trigger] members[j]).0 != comp.0 by {
        if j < u {
            assert(members[j] == pm[j]);
        } else if j == u {
            assert(members[j] == user);
            assert(comp.0 != user.0);
        } else if j > u + 1 {
            assert(members[j] == sm[j - u - 2]);
        }
    }
    lemma_lookup_unique(members, u);
    lemma_lookup_unique(members, u + 1);
    if pm.len() == 1 {
        assert forall|j: int| 0 <= j < members.len() && j != 0 implies (#[trigger] members[j]).0 != "adminPassword"@ by {
            if j == 1 {
                assert(members[j] == user);
            } else if j == 2 {
                assert(members[j] == comp);
            } else {
                assert(members[j] == sm[j - 3]);
            }
        }
        assert(members[0] == pm[0]);
        lemma_lookup_unique(members, 0);
    } else {
        assert forall|j: int| 0 <= j < members.len() implies (#[trigger] members[j]).0 != "adminPassword"@ by {
            if j == 0 {
                assert(members[j] == user);
            } else if j == 1 {
                assert(members[j] == comp);
            } else {
                assert(members[j] == sm[j - 2]);
            }
        }
        crate::json::lemma_lookup_absent(members, "adminPassword"@);
    }
    let pr_members = seq![
        ("hardwareProfile"@, JsonV::Object(seq![("vmSize"@, JsonV::Str(a.size@))])),
        ("networkProfile"@, JsonV::Object(seq![("networkInterfaces"@, create_nics_spec(a))])),
        ("osProfile"@, os),
        ("storageProfile"@, storage_profile_spec(a)),
    ];
    assert("hardwareProfile"@.len() == 15 && "networkProfile"@.len() == 14 && "osProfile"@.len() == 9
        && "storageProfile"@.len() == 14);
    assert forall|j: int| 0 <= j < 4 && j != 2 implies (#[trigger] pr_members[j]).0 != pr_members[2].0 by {
        assert(pr_members[j].0.len() != 9);
    }
    lemma_lookup_unique(pr_members, 2);
    match top {
        JsonV::Object(tm) => {
            assert(tm[1] == ("properties"@, JsonV::Object(pr_members)));
            assert("properties"@.len() == 10 && "location"@.len() == 8 && "tags"@.len() == 4);
            assert forall|j: int| 0 <= j < tm.len() && j != 1 implies (#[trigger] tm[j]).0 != "properties"@ by {
                assert(tm[j].0.len() != 10);
            }
            lemma_lookup_unique(tm, 1);
        },
        _ => {},
    }
    assert(sent_os_profile(a, key_data) == Some(os));
    assert(os == JsonV::Object(members));
    assert("ssh"@.len() == 3 && "password"@.len() == 8);
    assert(members[u].1 == JsonV::Str(admin_user_spec(a)));
}

/// A key held by one member only is found with that member's value.
proof fn lemma_lookup_unique(m: Seq<(Seq<char>, JsonV)>, i: int)
    requires
        0 <= i < m.len(),
        forall|j: int| 0 <= j < m.len() && j != i ==> (#[trigger] m[j]).0 != m[i].0,
    ensures
        crate::json::lookup(m, m[i].0) == Some(m[i].1),
    decreases m.len(),
{
    if i < m.len() - 1 {
        assert(m[m.len() - 1].0 != m[i].0);
        assert forall|j: int| 0 <= j < m.drop_last().len() && j != i implies (#[trigger] m.drop_last()[j]).0
            != m.drop_last()[i].0 by {
            assert(m.drop_last()[j] == m[j]);
        }
        lemma_lookup_unique(m.drop_last(), i);
    }
}

fn linux_config_json(user: &str, k: &str) -> (r: Json)
    ensures
        r.view_json() == linux_config_spec(user@, k@),
{
    let t = crate::text::trim(k);
    let p1 = concat("/home/", user);
    let path = concat(p1.as_str(), "/.ssh/authorized_keys");
    let mut key: Vec<(String, Json)> = Vec::new();
    push_member(&mut key, "keyData", Json::Str(t));
    push_member(&mut key, "path", Json::Str(path));
    let ghost kv = member_views(key@);
    let mut keys: Vec<Json> = Vec::new();
    keys.push(Json::Object(key));
    let ghost ks = keys@;
    let mut ssh: Vec<(String, Json)> = Vec::new();
    push_member(&mut ssh, "publicKeys", Json::Array(keys));
    let mut lc: Vec<(String, Json)> = Vec::new();
    push_member(&mut lc, "disablePasswordAuthentication", Json::Bool(true));
    push_member(&mut lc, "ssh", Json::Object(ssh));
    proof {
        assert(kv =~= seq![
            ("keyData"@, JsonV::Str(crate::text::trim_spec(k@))),
            ("path"@, JsonV::Str("/home/"@ + user@ + "/.ssh/authorized_keys"@)),
        ]);
        lemma_views(ks);
        assert(views(ks) =~= seq![JsonV::Object(kv)]);
        assert(member_views(ssh@) =~= seq![("publicKeys"@, JsonV::Array(views(ks)))]);
        assert(member_views(lc@) =~= seq![
            ("disablePasswordAuthentication"@, JsonV::Bool(true)),
            ("ssh"@, JsonV::Object(member_views(ssh@))),
        ]);
    }
    Json::Object(lc)
}

fn admin_user(a: &VmCreateArgs) -> (r: String)
    ensures
        r@ == admin_user_spec(*a),
{
    match &a.admin_username {
        Some(u) => u.clone(),
        None => "azureuser".to_owned(),
    }
}

fn auth_type(a: &VmCreateArgs) -> (r: String)
    ensures
        r@ == auth_type_spec(*a),
{
    match &a.authentication_type {
        Some(t) => t.clone(),
        None => if a.ssh_key_value.is_some() {
            "ssh".to_owned()
        } else {
            "password".to_owned()
        },
    }
}

/// The password member, when the authentication is by password.
pub open spec fn password_members(a: VmCreateArgs) -> Seq<(Seq<char>, JsonV)> {
    if auth_type_spec(a) == "password"@ {
        match a.admin_password {
            Some(p) => seq![("adminPassword"@, JsonV::Str(p@))],
            None => seq![],
        }
    } else {
        seq![]
    }
}

/// The SSH member, when the authentication is by SSH key.
pub open spec fn ssh_members(a: VmCreateArgs, key_data: Option<Seq<char>>) -> Seq<(Seq<char>, JsonV)> {
    let auth = auth_type_spec(a);
    if auth != "password"@ && auth == "ssh"@ {
        match key_data {
            Some(k) => seq![("linuxConfiguration"@, linux_config_spec(admin_user_spec(a), k))],
            None => seq![],
        }
    } else {
        seq![]
    }
}

fn os_profile_json(a: &VmCreateArgs, key_data: Option<&str>) -> (r: Json)
    ensures
        r.view_json() == os_profile_spec(
            *a,
            match key_data {
                Some(k) => Some(k@),
                None => None,
            },
        ),
{
    let ghost kd = match key_data {
        Some(k) => Some(k@),
        None => None,
    };
    let user = admin_user(a);
    let auth = auth_type(a);
    let is_password = str_eq(auth.as_str(), "password");
    let is_ssh = str_eq(auth.as_str(), "ssh");
    let mut m: Vec<(String, Json)> = Vec::new();
    if is_password {
        match &a.admin_password {
            Some(p) => push_member(&mut m, "adminPassword", Json::Str(p.clone())),
            None => {},
        }
    }
    proof {
        assert(member_views(m@) =~= password_members(*a));
    }
    let ghost first = member_views(m@);
    let ghost uv = user@;
    push_member(&mut m, "adminUsername", Json::Str(user));
    push_member(&mut m, "computerName", Json::Str(a.name.clone()));
    let ghost mid = member_views(m@);
    if !is_password && is_ssh {
        match key_data {
            Some(k) => {
                let user2 = admin_user(a);
                push_member(&mut m, "linuxConfiguration", linux_config_json(user2.as_str(), k));
            },
            None => {},
        }
    }
    proof {
        assert(mid =~= password_members(*a) + seq![
            ("adminUsername"@, JsonV::Str(admin_user_spec(*a))),
            ("computerName"@, JsonV::Str(a.name@)),
        ]);
        assert(member_views(m@) =~= mid + ssh_members(*a, kd));
    }
    Json::Object(m)
}

fn os_disk_json(size: Option<i64>) -> (r: Json)
    ensures
        r.view_json() == os_disk_spec(size),
{
    let mut m: Vec<(String, Json)> = Vec::new();
    push_member(&mut m, "createOption", Json::Str("FromImage".to_owned()));
    let ghost a = member_views(m@);
    match size {
        Some(n) => push_member(&mut m, "diskSizeGB", Json::Number(i64_to_string(n))),
        None => {},
    }
    let ghost b = member_views(m@);
    push_member(&mut m, "managedDisk", premium_disk_json());
    proof {
        assert(member_views(m@) =~= seq![("createOption"@, JsonV::Str("FromImage"@))] + match size {
            Some(n) => seq![("diskSizeGB"@, JsonV::Number(int_text(n as int)))],
            None => seq![],
        } + seq![("managedDisk"@, premium_disk())]);
    }
    Json::Object(m)
}

fn data_disks_json(sizes: &Vec<i64>) -> (r: Json)
    ensures
        r.view_json() == JsonV::Array(data_disks_spec(sizes@)),
{
    let mut out: Vec<Json> = Vec::new();
    let mut i: usize = 0;
    while i < sizes.len()
        invariant
            i <= sizes@.len(),
            views(out@) == data_disks_spec(sizes@).take(i as int),
        decreases sizes@.len() - i,
    {
        let mut m: Vec<(String, Json)> = Vec::new();
        push_member(&mut m, "createOption", Json::Str("Empty".to_owned()));
        push_member(&mut m, "diskSizeGB", Json::Number(i64_to_string(sizes[i])));
        push_member(&mut m, "lun", Json::Number(crate::text::u64_to_string(i as u64)));
        push_member(&mut m, "managedDisk", premium_disk_json());
        let ghost b = out@;
        out.push(Json::Object(m));
        proof {
            assert(member_views(m@) =~= seq![
                ("createOption"@, JsonV::Str("Empty"@)),
                ("diskSizeGB"@, JsonV::Number(int_text(sizes@[i as int] as int))),
                ("lun"@, JsonV::Number(crate::text::nat_text(i as nat))),
                ("managedDisk"@, premium_disk()),
            ]);
            lemma_views(out@);
            lemma_views(b);
            assert(views(out@) =~= data_disks_spec(sizes@).take(i + 1));
        }
        i = i + 1;
    }
    proof {
        assert(data_disks_spec(sizes@).take(sizes@.len() as int) =~= data_disks_spec(sizes@));
    }
    Json::Array(out)
}

fn tags_json(items: &Vec<String>) -> (r: Json)
    ensures
        r.view_json() == JsonV::Object(tags_spec(string_views(items@))),
{
    let ghost sv = string_views(items@);
    let mut m: Vec<(String, Json)> = Vec::new();
    let mut i: usize = 0;
    while i < items.len()
        invariant
            i <= items@.len(),
            sv == string_views(items@),
            member_views(m@) == tags_spec(sv.take(i as int)),
            crate::json::keys_sorted(member_views(m@)),
        decreases items@.len() - i,
    {
        proof {
            assert(sv.take(i + 1).drop_last() =~= sv.take(i as int));
            assert(sv.take(i + 1).last() == items@[i as int]@);
        }
        match split_once(items[i].as_str(), '=') {
            Some((k, v)) => {
                let ghost before = member_views(m@);
                proof {
                    crate::json::lemma_ins(before, k@, JsonV::Str(v@));
                }
                crate::json::insert_member(&mut m, k, Json::Str(v));
            },
            None => {},
        }
        i = i + 1;
    }
    proof {
        assert(sv.take(items@.len() as int) =~= sv);
    }
    Json::Object(m)
}

/// The storage profile of `vm create`.
pub open spec fn storage_profile_spec(a: VmCreateArgs) -> JsonV {
    let img = image_parts(a.image@);
    JsonV::Object(
        seq![
            ("dataDisks"@, JsonV::Array(data_disks_spec(a.data_disk_sizes_gb@))),
            (
                "imageReference"@,
                JsonV::Object(
                    seq![
                        ("offer"@, JsonV::Str(img.1)),
                        ("publisher"@, JsonV::Str(img.0)),
                        ("sku"@, JsonV::Str(img.2)),
                        ("version"@, JsonV::Str(img.3)),
                    ],
                ),
            ),
            ("osDisk"@, os_disk_spec(a.os_disk_size_gb)),
        ],
    )
}

fn storage_profile_json(a: &VmCreateArgs) -> (r: Json)
    ensures
        r.view_json() == storage_profile_spec(*a),
{
    let img = parse_image(a.image.as_str());
    let mut ir: Vec<(String, Json)> = Vec::new();
    push_member(&mut ir, "offer", Json::Str(img.1));
    push_member(&mut ir, "publisher", Json::Str(img.0));
    push_member(&mut ir, "sku", Json::Str(img.2));
    push_member(&mut ir, "version", Json::Str(img.3));
    let ghost irv = member_views(ir@);
    let mut sp: Vec<(String, Json)> = Vec::new();
    push_member(&mut sp, "dataDisks", data_disks_json(&a.data_disk_sizes_gb));
    push_member(&mut sp, "imageReference", Json::Object(ir));
    push_member(&mut sp, "osDisk", os_disk_json(a.os_disk_size_gb));
    proof {
        let i2 = image_parts(a.image@);
        assert(irv =~= seq![
            ("offer"@, JsonV::Str(i2.1)),
            ("publisher"@, JsonV::Str(i2.0)),
            ("sku"@, JsonV::Str(i2.2)),
            ("version"@, JsonV::Str(i2.3)),
        ]);
        assert(member_views(sp@) =~= seq![
            ("dataDisks"@, JsonV::Array(data_disks_spec(a.data_disk_sizes_gb@))),
            ("imageReference"@, JsonV::Object(irv)),
            ("osDisk"@, os_disk_spec(a.os_disk_size_gb)),
        ]);
    }
    Json::Object(sp)
}

/// The NIC references of `vm create`: the subnet id, when given.
pub open spec fn create_nics_spec(a: VmCreateArgs) -> JsonV {
    JsonV::Array(
        match a.subnet_id {
            Some(s) => seq![JsonV::Object(seq![("id"@, JsonV::Str(s@))])],
            None => seq![],
        },
    )
}

fn create_nics_json(a: &VmCreateArgs) -> (r: Json)
    ensures
        r.view_json() == create_nics_spec(*a),
{
    let mut nics: Vec<Json> = Vec::new();
    match &a.subnet_id {
        Some(s) => nics.push(single("id", Json::Str(s.clone()))),
        None => {},
    }
    proof {
        lemma_views(nics@);
        match &a.subnet_id {
            Some(s) => assert(views(nics@) =~= seq![JsonV::Object(seq![("id"@, JsonV::Str(s@))])]),
            None => assert(views(nics@) =~= Seq::<JsonV>::empty()),
        }
    }
    Json::Array(nics)
}

/// The body of `vm create`; `key_data` is the SSH public key (read from
/// its file when the key was given as a path).
pub fn vm_create_body(a: &VmCreateArgs, key_data: Option<&str>) -> (r: Json)
    ensures
        r.view_json() == vm_create_spec(
            *a,
            match key_data {
                Some(k) => Some(k@),
                None => None,
            },
        ),
{
    let ghost kd = match key_data {
        Some(k) => Some(k@),
        None => None,
    };
    let mut props: Vec<(String, Json)> = Vec::new();
    push_member(&mut props, "hardwareProfile", single("vmSize", Json::Str(a.size.clone())));
    push_member(&mut props, "networkProfile", single("networkInterfaces", create_nics_json(a)));
    push_member(&mut props, "osProfile", os_profile_json(a, key_data));
    push_member(&mut props, "storageProfile", storage_profile_json(a));
    let ghost pv = member_views(props@);
    let mut top: Vec<(String, Json)> = Vec::new();
    push_member(&mut top, "location", Json::Str(a.location.clone()));
    push_member(&mut top, "properties", Json::Object(props));
    let ghost tv = member_views(top@);
    match &a.tags {
        Some(t) => push_member(&mut top, "tags", tags_json(t)),
        None => {},
    }
    proof {
        assert(pv =~= seq![
            ("hardwareProfile"@, JsonV::Object(seq![("vmSize"@, JsonV::Str(a.size@))])),
            ("networkProfile"@, JsonV::Object(seq![("networkInterfaces"@, create_nics_spec(*a))])),
            ("osProfile"@, os_profile_spec(*a, kd)),
            ("storageProfile"@, storage_profile_spec(*a)),
        ]);
        assert(tv =~= seq![("location"@, JsonV::Str(a.location@)), ("properties"@, JsonV::Object(pv))]);
        match &a.tags {
            Some(t) => assert(member_views(top@) =~= tv + seq![("tags"@, JsonV::Object(tags_spec(string_views(t@))))]),
            None => assert(member_views(top@) =~= tv + Seq::<(Seq<char>, JsonV)>::empty()),
        }
    }
    Json::Object(top)
}

} // verus!

verus! {

/// An optional text member.
pub open spec fn opt_member(key: Seq<char>, o: Option<Seq<char>>) -> Seq<(Seq<char>, JsonV)> {
    match o {
        Some(s) => seq![(key, JsonV::Str(s))],
        None => seq![],
    }
}

pub open spec fn opt_view(o: Option<&str>) -> Option<Seq<char>> {
    match o {
        Some(s) => Some(s@),
        None => None,
    }
}

fn push_opt(m: &mut Vec<(String, Json)>, key: &str, o: Option<&str>)
    ensures
        member_views(final(m)@) == member_views(old(m)@) + opt_member(key@, opt_view(o)),
{
    match o {
        Some(s) => push_member(m, key, Json::Str(s.to_owned())),
        None => {},
    }
    assert(member_views(m@) =~= member_views(old(m)@) + opt_member(key@, opt_view(o)));
}

/// The notification settings of an auto-shutdown schedule: enabled when
/// an e-mail or a webhook is given, 30 minutes ahead.
pub open spec fn notification_spec(email: Option<Seq<char>>, webhook: Option<Seq<char>>) -> JsonV {
    JsonV::Object(
        opt_member("emailRecipient"@, email) + seq![
            (
                "status"@,
                JsonV::Str(
                    if email is Some || webhook is Some {
                        "Enabled"@
                    } else {
                        "Disabled"@
                    },
                ),
            ),
            ("timeInMinutes"@, JsonV::Number("30"@)),
        ] + opt_member("webhookUrl"@, webhook),
    )
}

/// The body of `vm auto-shutdown`: a daily shutdown at `time` (default
/// 1900) UTC.
pub open spec fn auto_shutdown_spec(
    resource_group: Seq<char>,
    name: Seq<char>,
    time: Option<Seq<char>>,
    email: Option<Seq<char>>,
    webhook: Option<Seq<char>>,
    location: Seq<char>,
) -> JsonV {
    JsonV::Object(
        seq![
            ("location"@, JsonV::Str(location)),
            (
                "properties"@,
                JsonV::Object(
                    seq![
                        (
                            "dailyRecurrence"@,
                            JsonV::Object(
                                seq![(
                                    "time"@,
                                    JsonV::Str(
                                        match time {
                                            Some(t) => t,
                                            None => "1900"@,
                                        },
                                    ),
                                )],
                            ),
                        ),
                        ("notificationSettings"@, notification_spec(email, webhook)),
                        ("status"@, JsonV::Str("Enabled"@)),
                        (
                            "targetResourceId"@,
                            JsonV::Str(
                                "/subscriptions//resourceGroups/"@ + resource_group
                                    + "/providers/Microsoft.Compute/virtualMachines/"@ + name,
                            ),
                        ),
                        ("taskType"@, JsonV::Str("ComputeVmShutdownTask"@)),
                        ("timeZoneId"@, JsonV::Str("UTC"@)),
                    ],
                ),
            ),
        ],
    )
}

fn notification_json(email: Option<&str>, webhook: Option<&str>) -> (r: Json)
    ensures
        r.view_json() == notification_spec(opt_view(email), opt_view(webhook)),
{
    let mut m: Vec<(String, Json)> = Vec::new();
    push_opt(&mut m, "emailRecipient", email);
    let ghost a = member_views(m@);
    let on = email.is_some() || webhook.is_some();
    push_member(&mut m, "status", Json::Str(if on { "Enabled".to_owned() } else { "Disabled".to_owned() }));
    push_member(&mut m, "timeInMinutes", Json::Number("30".to_owned()));
    let ghost b = member_views(m@);
    push_opt(&mut m, "webhookUrl", webhook);
    proof {
        assert(b =~= a + seq![
            ("status"@, JsonV::Str(if on { "Enabled"@ } else { "Disabled"@ })),
            ("timeInMinutes"@, JsonV::Number("30"@)),
        ]);
    }
    Json::Object(m)
}

pub fn auto_shutdown_body(
    resource_group: &str,
    name: &str,
    time: Option<&str>,
    email: Option<&str>,
    webhook: Option<&str>,
    location: &str,
) -> (r: Json)
    ensures
        r.view_json() == auto_shutdown_spec(
            resource_group@,
            name@,
            opt_view(time),
            opt_view(email),
            opt_view(webhook),
            location@,
        ),
{
    let t = match time {
        Some(t) => t.to_owned(),
        None => "1900".to_owned(),
    };
    let a1 = concat("/subscriptions//resourceGroups/", resource_group);
    let a2 = concat(a1.as_str(), "/providers/Microsoft.Compute/virtualMachines/");
    let target = concat(a2.as_str(), name);
    let mut p: Vec<(String, Json)> = Vec::new();
    push_member(&mut p, "dailyRecurrence", single("time", Json::Str(t)));
    push_member(&mut p, "notificationSettings", notification_json(email, webhook));
    push_member(&mut p, "status", Json::Str("Enabled".to_owned()));
    push_member(&mut p, "targetResourceId", Json::Str(target));
    push_member(&mut p, "taskType", Json::Str("ComputeVmShutdownTask".to_owned()));
    push_member(&mut p, "timeZoneId", Json::Str("UTC".to_owned()));
    let ghost pv = member_views(p@);
    let mut top: Vec<(String, Json)> = Vec::new();
    push_member(&mut top, "location", Json::Str(location.to_owned()));
    push_member(&mut top, "properties", Json::Object(p));
    proof {
        assert(member_views(top@) =~= seq![("location"@, JsonV::Str(location@)), ("properties"@, JsonV::Object(pv))]);
        assert(pv =~= auto_shutdown_spec(
            resource_group@,
            name@,
            opt_view(time),
            opt_view(email),
            opt_view(webhook),
            location@,
        )->Object_0[1].1->Object_0);
    }
    Json::Object(top)
}

/// The first power state among instance-view statuses: the rest of the
/// first code that starts with `PowerState/`.
pub open spec fn power_state_spec(statuses: Seq<JsonV>) -> Option<Seq<char>>
    decreases statuses.len(),
{
    if statuses.len() == 0 {
        None
    } else {
        match statuses[0].str_field("code"@) {
            Some(code) => if "PowerState/"@.is_prefix_of(code) {
                Some(code.skip(11))
            } else {
                power_state_spec(statuses.drop_first())
            },
            None => power_state_spec(statuses.drop_first()),
        }
    }
}

/// The power state of an instance view, if its statuses give one.
pub open spec fn view_power_state(iv: JsonV) -> Option<Seq<char>> {
    match iv.get("statuses"@) {
        Some(s) => match s.as_array() {
            Some(st) => power_state_spec(st),
            None => None,
        },
        None => None,
    }
}

pub fn power_state(iv: &Json) -> (r: Option<String>)
    ensures
        match r {
            Some(s) => view_power_state(iv.view_json()) == Some(s@),
            None => view_power_state(iv.view_json()) is None,
        },
{
    proof {
        reveal_strlit("PowerState/");
    }
    let st = match iv.get("statuses") {
        Some(s) => match s.as_array() {
            Some(a) => a,
            None => return None,
        },
        None => return None,
    };
    let ghost sv = views(st@);
    proof {
        lemma_views(st@);
    }
    let mut i: usize = 0;
    assert(sv.skip(0) =~= sv);
    while i < st.len()
        invariant
            i <= st@.len(),
            sv == views(st@),
            sv.len() == st@.len(),
            forall|k: int| 0 <= k < st@.len() ==> #[trigger] sv[k] == st@[k].view_json(),
            view_power_state(iv.view_json()) == power_state_spec(sv.skip(i as int)),
        decreases st@.len() - i,
    {
        assert(sv.skip(i as int)[0] == sv[i as int]);
        assert(sv.skip(i as int).drop_first() =~= sv.skip(i + 1));
        proof {
            reveal_strlit("PowerState/");
        }
        match st[i].str_field("code") {
            Some(code) => {
                if crate::text::starts_with(code, "PowerState/") {
                    let v = crate::text::chars_of(code);
                    let rest = crate::text::chars_from(&v, 11);
                    return Some(crate::text::string_of(&rest));
                }
            },
            None => {},
        }
        i = i + 1;
    }
    assert(sv.skip(st@.len() as int) =~= Seq::<JsonV>::empty());
    None
}

/// `items` joined with `,`.
pub open spec fn comma_joined(items: Seq<String>) -> Seq<char> {
    crate::text::join(string_views(items), ","@)
}

/// The VM document with the details of `vm show -d`: the instance view when
/// it was read, its power state, and the addresses joined with commas.
pub open spec fn with_details_spec(
    value: JsonV,
    iv: Option<JsonV>,
    public_ips: Seq<String>,
    private_ips: Seq<String>,
    fqdns: Seq<String>,
) -> JsonV {
    let a = match iv {
        Some(v) => value.insert("instanceView"@, v),
        None => value,
    };
    let b = match iv {
        Some(v) => match view_power_state(v) {
            Some(p) => a.insert("powerState"@, JsonV::Str(p)),
            None => a,
        },
        None => a,
    };
    b.insert("publicIps"@, JsonV::Str(comma_joined(public_ips))).insert(
        "privateIps"@,
        JsonV::Str(comma_joined(private_ips)),
    ).insert("fqdns"@, JsonV::Str(comma_joined(fqdns)))
}

pub fn with_details(
    value: Json,
    iv: Option<Json>,
    public_ips: &Vec<String>,
    private_ips: &Vec<String>,
    fqdns: &Vec<String>,
) -> (r: Json)
    requires
        value.view_json().wf(),
        match iv {
            Some(v) => v.view_json().wf(),
            None => true,
        },
    ensures
        r.view_json() == with_details_spec(
            value.view_json(),
            opt_json(iv),
            public_ips@,
            private_ips@,
            fqdns@,
        ),
        r.view_json().wf(),
{
    let mut v = value;
    let ps = match &iv {
        Some(x) => power_state(x),
        None => None,
    };
    match iv {
        Some(x) => v.insert("instanceView".to_owned(), x),
        None => {},
    }
    match ps {
        Some(p) => v.insert("powerState".to_owned(), Json::Str(p)),
        None => {},
    }
    v.insert("publicIps".to_owned(), Json::Str(crate::text::join_strings(public_ips, ",")));
    v.insert("privateIps".to_owned(), Json::Str(crate::text::join_strings(private_ips, ",")));
    v.insert("fqdns".to_owned(), Json::Str(crate::text::join_strings(fqdns, ",")));
    v
}

/// The value of an optional document.
pub open spec fn opt_json(o: Option<Json>) -> Option<JsonV> {
    match o {
        Some(j) => Some(j.view_json()),
        None => None,
    }
}

} // verus!

verus! {

/// The text at `path` in a document, if there is a string there.
pub open spec fn text_at_spec(j: JsonV, path: Seq<Seq<char>>) -> Option<Seq<char>> {
    match j.get_path(path) {
        Some(v) => v.as_str(),
        None => None,
    }
}

fn text_at(j: &Json, a: &str, b: &str) -> (r: Option<String>)
    ensures
        match r {
            Some(s) => text_at_spec(j.view_json(), seq![a@, b@]) == Some(s@),
            None => text_at_spec(j.view_json(), seq![a@, b@]) is None,
        },
{
    let path = vec![a.to_owned(), b.to_owned()];
    assert(string_views(path@) =~= seq![a@, b@]);
    match j.get_path(&path) {
        Some(v) => match v.as_str() {
            Some(s) => Some(s.to_owned()),
            None => None,
        },
        None => None,
    }
}

fn text_at3(j: &Json, a: &str, b: &str, c: &str) -> (r: Option<String>)
    ensures
        match r {
            Some(s) => text_at_spec(j.view_json(), seq![a@, b@, c@]) == Some(s@),
            None => text_at_spec(j.view_json(), seq![a@, b@, c@]) is None,
        },
{
    let path = vec![a.to_owned(), b.to_owned(), c.to_owned()];
    assert(string_views(path@) =~= seq![a@, b@, c@]);
    match j.get_path(&path) {
        Some(v) => match v.as_str() {
            Some(s) => Some(s.to_owned()),
            None => None,
        },
        None => None,
    }
}

/// The IP configurations of a NIC document.
pub open spec fn nic_ip_configs(nic: JsonV) -> Option<Seq<JsonV>> {
    match nic.get_path(seq!["properties"@, "ipConfigurations"@]) {
        Some(v) => v.as_array(),
        None => None,
    }
}

/// The private addresses of IP configurations, in order.
pub open spec fn private_ips_of(cfgs: Seq<JsonV>) -> Seq<Seq<char>>
    decreases cfgs.len(),
{
    if cfgs.len() == 0 {
        seq![]
    } else {
        let prev = private_ips_of(cfgs.drop_last());
        match text_at_spec(cfgs.last(), seq!["properties"@, "privateIPAddress"@]) {
            Some(ip) => prev.push(ip),
            None => prev,
        }
    }
}

/// The public IP resource ids of IP configurations, in order.
pub open spec fn public_ip_ids_of(cfgs: Seq<JsonV>) -> Seq<Seq<char>>
    decreases cfgs.len(),
{
    if cfgs.len() == 0 {
        seq![]
    } else {
        let prev = public_ip_ids_of(cfgs.drop_last());
        match text_at_spec(cfgs.last(), seq!["properties"@, "publicIPAddress"@, "id"@]) {
            Some(id) => prev.push(id),
            None => prev,
        }
    }
}

/// The private addresses and the public IP ids of a NIC, or `None` when it
/// lists no IP configurations.
pub fn nic_addresses(nic: &Json) -> (r: Option<(Vec<String>, Vec<String>)>)
    ensures
        match r {
            Some(p) => match nic_ip_configs(nic.view_json()) {
                Some(cfgs) => string_views(p.0@) == private_ips_of(cfgs) && string_views(p.1@)
                    == public_ip_ids_of(cfgs),
                None => false,
            },
            None => nic_ip_configs(nic.view_json()) is None,
        },
{
    let path = vec!["properties".to_owned(), "ipConfigurations".to_owned()];
    assert(string_views(path@) =~= seq!["properties"@, "ipConfigurations"@]);
    let cfgs = match nic.array_at(&path) {
        Some(c) => c,
        None => return None,
    };
    let ghost cv = views(cfgs@);
    proof {
        lemma_views(cfgs@);
    }
    let mut privs: Vec<String> = Vec::new();
    let mut pubs: Vec<String> = Vec::new();
    let mut i: usize = 0;
    while i < cfgs.len()
        invariant
            i <= cfgs@.len(),
            cv == views(cfgs@),
            cv.len() == cfgs@.len(),
            forall|k: int| 0 <= k < cfgs@.len() ==> #[trigger] cv[k] == cfgs@[k].view_json(),
            string_views(privs@) == private_ips_of(cv.take(i as int)),
            string_views(pubs@) == public_ip_ids_of(cv.take(i as int)),
        decreases cfgs@.len() - i,
    {
        proof {
            assert(cv.take(i + 1).drop_last() =~= cv.take(i as int));
            assert(cv.take(i + 1).last() == cv[i as int]);
        }
        let ghost p0 = string_views(privs@);
        let ghost q0 = string_views(pubs@);
        match text_at(&cfgs[i], "properties", "privateIPAddress") {
            Some(ip) => {
                privs.push(ip);
                assert(string_views(privs@) =~= p0.push(privs@[privs@.len() - 1]@));
            },
            None => {},
        }
        match text_at3(&cfgs[i], "properties", "publicIPAddress", "id") {
            Some(id) => {
                pubs.push(id);
                assert(string_views(pubs@) =~= q0.push(pubs@[pubs@.len() - 1]@));
            },
            None => {},
        }
        i = i + 1;
    }
    proof {
        assert(cv.take(cfgs@.len() as int) =~= cv);
    }
    Some((privs, pubs))
}

/// The address and the DNS name of a public IP document.
pub fn public_ip_details(pip: &Json) -> (r: (Option<String>, Option<String>))
    ensures
        match r.0 {
            Some(s) => text_at_spec(pip.view_json(), seq!["properties"@, "ipAddress"@]) == Some(s@),
            None => text_at_spec(pip.view_json(), seq!["properties"@, "ipAddress"@]) is None,
        },
        match r.1 {
            Some(s) => text_at_spec(pip.view_json(), seq!["properties"@, "dnsSettings"@, "fqdn"@]) == Some(s@),
            None => text_at_spec(pip.view_json(), seq!["properties"@, "dnsSettings"@, "fqdn"@]) is None,
        },
{
    (text_at(pip, "properties", "ipAddress"), text_at3(pip, "properties", "dnsSettings", "fqdn"))
}

/// A private address entry of `vm list-ip-addresses`.
pub fn private_ip_entry(nic_id: &str, ip: &str) -> (r: Json)
    ensures
        r.view_json() == JsonV::Object(
            seq![("id"@, JsonV::Str(nic_id@)), ("privateIpAddress"@, JsonV::Str(ip@))],
        ),
{
    let mut m: Vec<(String, Json)> = Vec::new();
    push_member(&mut m, "id", Json::Str(nic_id.to_owned()));
    push_member(&mut m, "privateIpAddress", Json::Str(ip.to_owned()));
    assert(member_views(m@) =~= seq![("id"@, JsonV::Str(nic_id@)), ("privateIpAddress"@, JsonV::Str(ip@))]);
    Json::Object(m)
}

/// A public address entry of `vm list-ip-addresses`: address and DNS name
/// (empty when missing), allocation method and name (null when missing).
pub open spec fn public_ip_entry_spec(pip_id: Seq<char>, pip: JsonV) -> JsonV {
    JsonV::Object(
        seq![
            (
                "fqdn"@,
                JsonV::Str(
                    match text_at_spec(pip, seq!["properties"@, "dnsSettings"@, "fqdn"@]) {
                        Some(f) => f,
                        None => seq![],
                    },
                ),
            ),
            ("id"@, JsonV::Str(pip_id)),
            (
                "ipAddress"@,
                JsonV::Str(
                    match text_at_spec(pip, seq!["properties"@, "ipAddress"@]) {
                        Some(a) => a,
                        None => seq![],
                    },
                ),
            ),
            (
                "ipAllocationMethod"@,
                match pip.get_path(seq!["properties"@, "publicIPAllocationMethod"@]) {
                    Some(v) => v,
                    None => JsonV::Null,
                },
            ),
            (
                "name"@,
                match pip.get("name"@) {
                    Some(v) => v,
                    None => JsonV::Null,
                },
            ),
        ],
    )
}

pub fn public_ip_entry(pip_id: &str, pip: &Json) -> (r: Json)
    ensures
        r.view_json() == public_ip_entry_spec(pip_id@, pip.view_json()),
{
    let (ip, fqdn) = public_ip_details(pip);
    let path = vec!["properties".to_owned(), "publicIPAllocationMethod".to_owned()];
    assert(string_views(path@) =~= seq!["properties"@, "publicIPAllocationMethod"@]);
    let method = match pip.get_path(&path) {
        Some(v) => v.deep_clone(),
        None => Json::Null,
    };
    let name = match pip.get("name") {
        Some(v) => v.deep_clone(),
        None => Json::Null,
    };
    let mut m: Vec<(String, Json)> = Vec::new();
    push_member(&mut m, "fqdn", Json::Str(match fqdn {
        Some(f) => f,
        None => String::new(),
    }));
    push_member(&mut m, "id", Json::Str(pip_id.to_owned()));
    push_member(&mut m, "ipAddress", Json::Str(match ip {
        Some(a) => a,
        None => String::new(),
    }));
    push_member(&mut m, "ipAllocationMethod", method);
    push_member(&mut m, "name", name);
    proof {
        assert(member_views(m@) =~= public_ip_entry_spec(pip_id@, pip.view_json())->Object_0);
    }
    Json::Object(m)
}

/// One VM of `vm list-ip-addresses`.
pub open spec fn vm_ip_report_spec(name: Seq<char>, rg: Seq<char>, publics: Seq<JsonV>, privates: Seq<JsonV>) -> JsonV {
    JsonV::Object(
        seq![(
            "virtualMachine"@,
            JsonV::Object(
                seq![
                    ("name"@, JsonV::Str(name)),
                    (
                        "network"@,
                        JsonV::Object(
                            seq![
                                ("privateIpAddresses"@, JsonV::Array(privates)),
                                ("publicIpAddresses"@, JsonV::Array(publics)),
                            ],
                        ),
                    ),
                    ("resourceGroup"@, JsonV::Str(rg)),
                ],
            ),
        )],
    )
}

pub fn vm_ip_report(name: &str, rg: &str, publics: Vec<Json>, privates: Vec<Json>) -> (r: Json)
    ensures
        r.view_json() == vm_ip_report_spec(name@, rg@, views(publics@), views(privates@)),
{
    let mut net: Vec<(String, Json)> = Vec::new();
    push_member(&mut net, "privateIpAddresses", Json::Array(privates));
    push_member(&mut net, "publicIpAddresses", Json::Array(publics));
    let ghost nv = member_views(net@);
    let mut vm: Vec<(String, Json)> = Vec::new();
    push_member(&mut vm, "name", Json::Str(name.to_owned()));
    push_member(&mut vm, "network", Json::Object(net));
    push_member(&mut vm, "resourceGroup", Json::Str(rg.to_owned()));
    let ghost vv = member_views(vm@);
    proof {
        assert(nv =~= seq![
            ("privateIpAddresses"@, JsonV::Array(views(privates@))),
            ("publicIpAddresses"@, JsonV::Array(views(publics@))),
        ]);
        assert(vv =~= seq![
            ("name"@, JsonV::Str(name@)),
            ("network"@, JsonV::Object(nv)),
            ("resourceGroup"@, JsonV::Str(rg@)),
        ]);
    }
    single("virtualMachine", Json::Object(vm))
}

} // verus!

verus! {

/// First position at or after `i` where the bytes `n` occur in `h`.
pub open spec fn find_bytes(h: Seq<u8>, n: Seq<u8>, i: int) -> Option<int>
    decreases h.len() + 1 - i,
{
    if i < 0 || i + n.len() > h.len() {
        None
    } else if h.subrange(i, i + n.len()) == n {
        Some(i)
    } else {
        find_bytes(h, n, i + 1)
    }
}

/// First position of the bytes `n` in `h`.
pub fn find_bytes_exec(h: &[u8], n: &[u8]) -> (r: Option<usize>)
    ensures
        match r {
            Some(i) => find_bytes(h@, n@, 0) == Some(i as int) && i + n@.len() <= h@.len(),
            None => find_bytes(h@, n@, 0) is None,
        },
{
    let hl = h.len();
    if n.len() > hl {
        return None;
    }
    let last = hl - n.len();
    let mut i: usize = 0;
    loop
        invariant
            hl == h@.len(),
            last == h@.len() - n@.len(),
            n@.len() <= h@.len(),
            i <= last,
            find_bytes(h@, n@, 0) == find_bytes(h@, n@, i as int),
        decreases last - i,
    {
        let mut k: usize = 0;
        let mut same = true;
        assert(h@.subrange(i as int, i as int) =~= n@.take(0));
        while k < n.len()
            invariant
                k <= n@.len(),
                hl == h@.len(),
                i + n@.len() <= h@.len(),
                same == (h@.subrange(i as int, i + k) == n@.take(k as int)),
            decreases n@.len() - k,
        {
            let ghost was = same;
            if h[i + k] != n[k] {
                same = false;
            }
            k = k + 1;
            proof {
                if was && h@[i + k - 1] == n@[k - 1] {
                    assert(h@.subrange(i as int, i + k) =~= n@.take(k as int));
                } else {
                    if h@.subrange(i as int, i + k) == n@.take(k as int) {
                        assert(h@.subrange(i as int, i + k - 1) =~= h@.subrange(i as int, i + k).take(k - 1));
                        assert(n@.take(k - 1) =~= n@.take(k as int).take(k - 1));
                        assert(h@.subrange(i as int, i + k)[k - 1] == h@[i + k - 1]);
                    }
                }
            }
        }
        assert(n@.take(n@.len() as int) =~= n@);
        if same {
            return Some(i);
        }
        if i == last {
            assert(find_bytes(h@, n@, i + 1) is None);
            return None;
        }
        i = i + 1;
    }
}

/// The byte offset, in an id, just after its first `/resourcegroups/`
/// as found in the id's Unicode lowercase.
pub open spec fn rg_offset(id: Seq<char>) -> Option<int> {
    let pat = vstd::utf8::encode_utf8("/resourcegroups/"@);
    match find_bytes(vstd::utf8::encode_utf8(unicode_lower(id)), pat, 0) {
        Some(i) => Some(i + pat.len()),
        None => None,
    }
}

/// Slicing the id at that offset is possible (the offset is a character
/// boundary within it).
pub open spec fn rg_slice_ok(id: Seq<char>) -> bool {
    match rg_offset(id) {
        Some(k) => vstd::utf8::is_char_boundary(vstd::utf8::encode_utf8(id), k),
        None => true,
    }
}

/// The resource group named in an id: the text after `/resourcegroups/`
/// (found case-insensitively) up to the next `/`.
pub open spec fn extract_rg_spec(id: Seq<char>) -> Option<Seq<char>> {
    match rg_offset(id) {
        Some(k) => {
            let b = vstd::utf8::encode_utf8(id);
            Some(crate::text::before_char(vstd::utf8::decode_utf8(b.subrange(k, b.len() as int)), '/'))
        },
        None => None,
    }
}

/// The resource group of a resource id; `None` when the offset found in
/// the lowercase id does not fall on a character boundary of the id
/// (where slicing the id is not possible).
pub fn extract_rg(id: &str) -> (r: Option<Option<String>>)
    ensures
        match r {
            Some(x) => rg_slice_ok(id@) && match x {
                Some(s) => extract_rg_spec(id@) == Some(s@),
                None => extract_rg_spec(id@) is None,
            },
            None => !rg_slice_ok(id@),
        },
{
    let lower = crate::text::to_lowercase(id);
    let pat: &str = "/resourcegroups/";
    let lb = lower.as_str().as_bytes();
    let pb = pat.as_bytes();
    proof {
        assert(lb@.len() == lb.len() && pb@.len() == pb.len());
    }
    match find_bytes_exec(lb, pb) {
        None => Some(None),
        Some(i) => {
            assert(pb@.len() == pat.len());
            let k = i + pb.len();
            assert(rg_offset(id@) == Some(k as int));
            if !id.is_char_boundary(k) {
                return None;
            }
            let (_, after) = id.split_at(k);
            proof {
                vstd::utf8::encode_utf8_decode_utf8(after@);
            }
            Some(Some(crate::text::split_first(after, '/')))
        },
    }
}

} // verus!
