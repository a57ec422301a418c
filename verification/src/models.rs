use vstd::prelude::*;
use crate::json::{lemma_member_views, lemma_views, member_views, views, Json, JsonV};
use crate::commands::vm::{extract_rg, extract_rg_spec, rg_slice_ok};

verus! {

/// The SKU tier of an Azure Bastion host.
#[derive(Debug, Clone, Copy, PartialEq, Eq, Structural)]
pub enum BastionSku {
    Basic,
    Standard,
    Developer,
    QuickConnect,
    Premium,
}

impl BastionSku {
    /// True for the tiers that offer the Standard feature set.
    pub fn is_standard_or_higher(&self) -> (r: bool)
        ensures
            r <==> (*self == BastionSku::Standard || *self == BastionSku::Premium),
    {
        match self {
            BastionSku::Standard | BastionSku::Premium => true,
            _ => false,
        }
    }

    /// True for the tiers that accept native-client (SSH/RDP) sessions.
    pub fn supports_native_client(&self) -> (r: bool)
        ensures
            r <==> (*self == BastionSku::Developer || *self == BastionSku::Standard || *self
                == BastionSku::Premium),
    {
        match self {
            BastionSku::Developer | BastionSku::Standard | BastionSku::Premium => true,
            _ => false,
        }
    }

    pub open spec fn name_spec(self) -> Seq<char> {
        match self {
            BastionSku::Basic => "Basic"@,
            BastionSku::Standard => "Standard"@,
            BastionSku::Developer => "Developer"@,
            BastionSku::QuickConnect => "QuickConnect"@,
            BastionSku::Premium => "Premium"@,
        }
    }

    /// The SKU's name as Azure spells it.
    pub fn to_string(&self) -> (r: String)
        ensures
            r@ == self.name_spec(),
    {
        match self {
            BastionSku::Basic => "Basic".to_owned(),
            BastionSku::Standard => "Standard".to_owned(),
            BastionSku::Developer => "Developer".to_owned(),
            BastionSku::QuickConnect => "QuickConnect".to_owned(),
            BastionSku::Premium => "Premium".to_owned(),
        }
    }
}

/// How a native-client session authenticates.
#[derive(Debug, Clone, Copy, PartialEq, Eq, Structural)]
pub enum AuthType {
    Password,
    SshKey,
    Aad,
}

impl AuthType {
    pub open spec fn name_spec(self) -> Seq<char> {
        match self {
            AuthType::Password => "password"@,
            AuthType::SshKey => "ssh-key"@,
            AuthType::Aad => "AAD"@,
        }
    }

    /// The name the Bastion API uses for the authentication type.
    pub fn to_string(&self) -> (r: String)
        ensures
            r@ == self.name_spec(),
    {
        match self {
            AuthType::Password => "password".to_owned(),
            AuthType::SshKey => "ssh-key".to_owned(),
            AuthType::Aad => "AAD".to_owned(),
        }
    }
}

/// The `-o/--output` formats.
#[derive(Debug, Clone, Copy, PartialEq, Eq, Structural)]
pub enum OutputFormat {
    Json,
    Jsonc,
    Table,
    Tsv,
    Yaml,
    Yamlc,
    /// No output at all (`-o none`).
    Suppress,
}

/// A reference to another resource by id.
#[derive(Debug, Clone)]
pub struct SubResource {
    pub id: String,
}

#[derive(Debug, Clone)]
pub struct NetworkAcl {
    pub address_prefix: String,
}

#[derive(Debug, Clone)]
pub struct BastionSkuInfo {
    pub name: BastionSku,
}

#[derive(Debug, Clone)]
pub struct BastionIpConfigProperties {
    pub subnet: Option<SubResource>,
    pub public_ip_address: Option<SubResource>,
}

#[derive(Debug, Clone)]
pub struct BastionIpConfiguration {
    pub name: String,
    pub properties: Option<BastionIpConfigProperties>,
}

#[derive(Debug, Clone)]
pub struct BastionHostProperties {
    pub dns_name: Option<String>,
    pub provisioning_state: Option<String>,
    pub enable_tunneling: Option<bool>,
    pub enable_ip_connect: Option<bool>,
    pub ip_configurations: Option<Vec<BastionIpConfiguration>>,
    pub virtual_network: Option<SubResource>,
    pub network_acls: Option<Vec<NetworkAcl>>,
    pub enable_session_recording: Option<bool>,
}

/// A Bastion host as the API describes it; tags in the order given.
#[derive(Debug, Clone)]
pub struct BastionHost {
    pub id: Option<String>,
    pub name: String,
    pub location: Option<String>,
    pub resource_type: Option<String>,
    pub properties: Option<BastionHostProperties>,
    pub sku: Option<BastionSkuInfo>,
    pub tags: Option<Vec<(String, String)>>,
}

/// The tokens of a tunnel session.
#[derive(Debug, Clone)]
pub struct TokenResponse {
    pub auth_token: String,
    pub node_id: String,
    pub websocket_token: String,
}

/// One page of a list answer.
#[derive(Debug, Clone)]
pub struct AzureListResponse<T> {
    pub value: Vec<T>,
    pub next_link: Option<String>,
}

#[derive(Debug, Clone)]
pub struct ResourceGroupProperties {
    pub provisioning_state: Option<String>,
}

#[derive(Debug, Clone)]
pub struct ResourceGroup {
    pub id: Option<String>,
    pub name: String,
    pub location: String,
    pub resource_type: Option<String>,
    pub properties: Option<ResourceGroupProperties>,
    pub tags: Option<Vec<(String, String)>>,
    pub managed_by: Option<String>,
}


#[derive(Debug)]
pub struct VmHardwareProfile {
    pub vm_size: Option<String>,
}

#[derive(Debug)]
pub struct VmStorageProfile {
    pub image_reference: Option<Json>,
    pub os_disk: Option<Json>,
    pub data_disks: Option<Vec<Json>>,
}

#[derive(Debug)]
pub struct VmOsProfile {
    pub computer_name: Option<String>,
    pub admin_username: Option<String>,
    pub linux_configuration: Option<Json>,
    pub windows_configuration: Option<Json>,
}

#[derive(Debug)]
pub struct VmNetworkProfile {
    pub network_interfaces: Option<Vec<SubResource>>,
}

#[derive(Debug)]
pub struct VmInstanceViewStatus {
    pub code: Option<String>,
    pub display_status: Option<String>,
    pub level: Option<String>,
    pub time: Option<String>,
}

#[derive(Debug)]
pub struct VmInstanceView {
    pub statuses: Option<Vec<VmInstanceViewStatus>>,
}

#[derive(Debug)]
pub struct VmProperties {
    pub provisioning_state: Option<String>,
    pub vm_id: Option<String>,
    pub hardware_profile: Option<VmHardwareProfile>,
    pub storage_profile: Option<VmStorageProfile>,
    pub os_profile: Option<VmOsProfile>,
    pub network_profile: Option<VmNetworkProfile>,
    pub priority: Option<String>,
    pub time_created: Option<String>,
    pub instance_view: Option<VmInstanceView>,
}

/// A virtual machine as the API describes it; tags in the order given.
#[derive(Debug)]
pub struct VirtualMachine {
    pub id: Option<String>,
    pub name: String,
    pub location: Option<String>,
    pub resource_type: Option<String>,
    pub zones: Option<Vec<String>>,
    pub tags: Option<Vec<(String, String)>>,
    pub identity: Option<Json>,
    pub plan: Option<Json>,
    pub properties: Option<VmProperties>,
}

/// An empty object.
pub open spec fn obj0() -> JsonV {
    JsonV::Object(seq![])
}

/// An optional text as JSON: the string, or `null`.
pub open spec fn ostr(o: Option<String>) -> JsonV {
    match o {
        Some(s) => JsonV::Str(s@),
        None => JsonV::Null,
    }
}

/// An optional document as JSON: the value, or `null`.
pub open spec fn ojson(o: Option<Json>) -> JsonV {
    match o {
        Some(j) => j.view_json(),
        None => JsonV::Null,
    }
}

pub open spec fn ojson_wf(o: Option<Json>) -> bool {
    o matches Some(j) ==> j.view_json().wf()
}

/// `j` with each member inserted in turn.
pub open spec fn insert_all(j: JsonV, m: Seq<(Seq<char>, JsonV)>) -> JsonV
    decreases m.len(),
{
    if m.len() == 0 {
        j
    } else {
        insert_all(j, m.drop_last()).insert(m.last().0, m.last().1)
    }
}

pub open spec fn sub_json(r: SubResource) -> JsonV {
    obj0().insert("id"@, JsonV::Str(r.id@))
}

pub open spec fn hardware_json(h: VmHardwareProfile) -> JsonV {
    obj0().insert("vmSize"@, ostr(h.vm_size))
}

pub open spec fn storage_json(st: VmStorageProfile) -> JsonV {
    obj0().insert("imageReference"@, ojson(st.image_reference)).insert("osDisk"@, ojson(st.os_disk)).insert(
        "dataDisks"@,
        match st.data_disks {
            Some(v) => JsonV::Array(crate::json::views(v@)),
            None => JsonV::Null,
        },
    )
}

pub open spec fn os_json(o: VmOsProfile) -> JsonV {
    obj0().insert("computerName"@, ostr(o.computer_name)).insert("adminUsername"@, ostr(o.admin_username)).insert(
        "linuxConfiguration"@,
        ojson(o.linux_configuration),
    ).insert("windowsConfiguration"@, ojson(o.windows_configuration))
}

pub open spec fn network_json(n: VmNetworkProfile) -> JsonV {
    obj0().insert(
        "networkInterfaces"@,
        match n.network_interfaces {
            Some(v) => JsonV::Array(Seq::new(v@.len(), |i: int| sub_json(v@[i]))),
            None => JsonV::Null,
        },
    )
}

pub open spec fn status_json(st: VmInstanceViewStatus) -> JsonV {
    obj0().insert("code"@, ostr(st.code)).insert("displayStatus"@, ostr(st.display_status)).insert(
        "level"@,
        ostr(st.level),
    ).insert("time"@, ostr(st.time))
}

pub open spec fn instance_view_json(iv: VmInstanceView) -> JsonV {
    obj0().insert(
        "statuses"@,
        match iv.statuses {
            Some(v) => JsonV::Array(Seq::new(v@.len(), |i: int| status_json(v@[i]))),
            None => JsonV::Null,
        },
    )
}

/// The properties as their camelCase JSON object, absent parts as `null`.
pub open spec fn properties_json(p: VmProperties) -> JsonV {
    obj0().insert("provisioningState"@, ostr(p.provisioning_state)).insert("vmId"@, ostr(p.vm_id)).insert(
        "hardwareProfile"@,
        match p.hardware_profile {
            Some(h) => hardware_json(h),
            None => JsonV::Null,
        },
    ).insert(
        "storageProfile"@,
        match p.storage_profile {
            Some(x) => storage_json(x),
            None => JsonV::Null,
        },
    ).insert(
        "osProfile"@,
        match p.os_profile {
            Some(x) => os_json(x),
            None => JsonV::Null,
        },
    ).insert(
        "networkProfile"@,
        match p.network_profile {
            Some(x) => network_json(x),
            None => JsonV::Null,
        },
    ).insert("priority"@, ostr(p.priority)).insert("timeCreated"@, ostr(p.time_created)).insert(
        "instanceView"@,
        match p.instance_view {
            Some(x) => instance_view_json(x),
            None => JsonV::Null,
        },
    )
}

/// Tags as a JSON object of strings.
pub open spec fn tags_json(t: Seq<(String, String)>) -> JsonV {
    insert_all(obj0(), Seq::new(t.len(), |i: int| (t[i].0@, JsonV::Str(t[i].1@))))
}

impl VirtualMachine {
    /// Every embedded JSON document is well formed.
    pub open spec fn json_wf(&self) -> bool {
        &&& ojson_wf(self.identity)
        &&& ojson_wf(self.plan)
        &&& (self.properties matches Some(p) ==> {
            &&& (p.storage_profile matches Some(st) ==> {
                &&& ojson_wf(st.image_reference)
                &&& ojson_wf(st.os_disk)
                &&& (st.data_disks matches Some(d) ==> forall|i: int|
                    0 <= i < d@.len() ==> (#[trigger] d@[i]).view_json().wf())
            })
            &&& (p.os_profile matches Some(o) ==> ojson_wf(o.linux_configuration) && ojson_wf(
                o.windows_configuration,
            ))
        })
    }

    /// The machine as one flat object: its own fields, then every field of
    /// its properties, then `resourceGroup` read from its id.
    pub open spec fn flattened(&self) -> JsonV {
        let j1 = match self.id {
            Some(id) => obj0().insert("id"@, JsonV::Str(id@)),
            None => obj0(),
        };
        let j2 = j1.insert("name"@, JsonV::Str(self.name@));
        let j3 = match self.location {
            Some(l) => j2.insert("location"@, JsonV::Str(l@)),
            None => j2,
        };
        let j4 = match self.resource_type {
            Some(t) => j3.insert("type"@, JsonV::Str(t@)),
            None => j3,
        };
        let j5 = match self.zones {
            Some(z) => j4.insert("zones"@, JsonV::Array(Seq::new(z@.len(), |i: int| JsonV::Str(z@[i]@)))),
            None => j4,
        };
        let j6 = match self.tags {
            Some(t) => j5.insert("tags"@, tags_json(t@)),
            None => j5,
        };
        let j7 = match self.identity {
            Some(x) => j6.insert("identity"@, x.view_json()),
            None => j6,
        };
        let j8 = match self.plan {
            Some(x) => j7.insert("plan"@, x.view_json()),
            None => j7,
        };
        let j9 = match self.properties {
            Some(p) => match properties_json(p) {
                JsonV::Object(m) => insert_all(j8, m),
                _ => j8,
            },
            None => j8,
        };
        match self.id {
            Some(id) => match extract_rg_spec(id@) {
                Some(rg) => j9.insert("resourceGroup"@, JsonV::Str(rg)),
                None => j9,
            },
            None => j9,
        }
    }

    /// The resource group can be cut out of the id: the offset found in the
    /// lowercase id falls on a character boundary of the id itself.
    pub open spec fn rg_sliceable(&self) -> bool {
        match self.id {
            Some(id) => rg_slice_ok(id@),
            None => true,
        }
    }
}


fn opt_str_json(o: &Option<String>) -> (r: Json)
    ensures
        r.view_json() == ostr(*o),
        r.view_json().wf(),
{
    match o {
        Some(s) => Json::string(s.as_str()),
        None => Json::Null,
    }
}

fn opt_json(o: &Option<Json>) -> (r: Json)
    requires
        ojson_wf(*o),
    ensures
        r.view_json() == ojson(*o),
        r.view_json().wf(),
{
    match o {
        Some(j) => j.deep_clone(),
        None => Json::Null,
    }
}

fn key(s: &str) -> (r: String)
    ensures
        r@ == s@,
{
    s.to_owned()
}

fn sub_to_json(r: &SubResource) -> (j: Json)
    ensures
        j.view_json() == sub_json(*r),
        j.view_json().wf(),
{
    let mut j = Json::new_object();
    j.insert(key("id"), Json::string(r.id.as_str()));
    j
}

fn hardware_to_json(h: &VmHardwareProfile) -> (j: Json)
    ensures
        j.view_json() == hardware_json(*h),
        j.view_json().wf(),
{
    let mut j = Json::new_object();
    j.insert(key("vmSize"), opt_str_json(&h.vm_size));
    j
}

fn array_wf(v: &Vec<Json>) -> (r: Json)
    requires
        forall|i: int| 0 <= i < v@.len() ==> (#[trigger] v@[i]).view_json().wf(),
    ensures
        r.view_json() == JsonV::Array(views(v@)),
        r.view_json().wf(),
{
    let mut out: Vec<Json> = Vec::new();
    let mut i: usize = 0;
    proof {
        lemma_views(v@);
    }
    while i < v.len()
        invariant
            i <= v.len(),
            out@.len() == i,
            forall|k: int| 0 <= k < i ==> (#[trigger] out@[k]).view_json() == v@[k].view_json(),
        decreases v.len() - i,
    {
        out.push(v[i].deep_clone());
        i = i + 1;
    }
    proof {
        lemma_views(out@);
        assert(views(out@) =~= views(v@));
    }
    Json::Array(out)
}

fn storage_to_json(st: &VmStorageProfile) -> (j: Json)
    requires
        ojson_wf(st.image_reference),
        ojson_wf(st.os_disk),
        st.data_disks matches Some(d) ==> forall|i: int| 0 <= i < d@.len() ==> (#[trigger] d@[i]).view_json().wf(),
    ensures
        j.view_json() == storage_json(*st),
        j.view_json().wf(),
{
    let mut j = Json::new_object();
    j.insert(key("imageReference"), opt_json(&st.image_reference));
    j.insert(key("osDisk"), opt_json(&st.os_disk));
    let disks = match &st.data_disks {
        Some(v) => array_wf(v),
        None => Json::Null,
    };
    j.insert(key("dataDisks"), disks);
    j
}

fn os_to_json(o: &VmOsProfile) -> (j: Json)
    requires
        ojson_wf(o.linux_configuration),
        ojson_wf(o.windows_configuration),
    ensures
        j.view_json() == os_json(*o),
        j.view_json().wf(),
{
    let mut j = Json::new_object();
    j.insert(key("computerName"), opt_str_json(&o.computer_name));
    j.insert(key("adminUsername"), opt_str_json(&o.admin_username));
    j.insert(key("linuxConfiguration"), opt_json(&o.linux_configuration));
    j.insert(key("windowsConfiguration"), opt_json(&o.windows_configuration));
    j
}

fn network_to_json(n: &VmNetworkProfile) -> (j: Json)
    ensures
        j.view_json() == network_json(*n),
        j.view_json().wf(),
{
    let mut j = Json::new_object();
    let nics = match &n.network_interfaces {
        Some(v) => {
            let mut out: Vec<Json> = Vec::new();
            let mut i: usize = 0;
            while i < v.len()
                invariant
                    i <= v.len(),
                    out@.len() == i,
                    forall|k: int| 0 <= k < i ==> (#[trigger] out@[k]).view_json() == sub_json(v@[k]),
                decreases v.len() - i,
            {
                out.push(sub_to_json(&v[i]));
                i = i + 1;
            }
            proof {
                lemma_views(out@);
                assert(views(out@) =~= Seq::new(v@.len(), |k: int| sub_json(v@[k])));
            }
            Json::Array(out)
        },
        None => Json::Null,
    };
    proof {
        if let Some(v) = &n.network_interfaces {
            assert forall|k: int| 0 <= k < v@.len() implies (#[trigger] sub_json(v@[k])).wf() by {
                crate::json::lemma_get_after_insert(obj0(), "id"@, JsonV::Str(v@[k].id@), "id"@);
            }
        }
    }
    j.insert(key("networkInterfaces"), nics);
    j
}

fn status_to_json(st: &VmInstanceViewStatus) -> (j: Json)
    ensures
        j.view_json() == status_json(*st),
        j.view_json().wf(),
{
    let mut j = Json::new_object();
    j.insert(key("code"), opt_str_json(&st.code));
    j.insert(key("displayStatus"), opt_str_json(&st.display_status));
    j.insert(key("level"), opt_str_json(&st.level));
    j.insert(key("time"), opt_str_json(&st.time));
    j
}

fn instance_view_to_json(iv: &VmInstanceView) -> (j: Json)
    ensures
        j.view_json() == instance_view_json(*iv),
        j.view_json().wf(),
{
    let mut j = Json::new_object();
    let sts = match &iv.statuses {
        Some(v) => {
            let mut out: Vec<Json> = Vec::new();
            let mut i: usize = 0;
            while i < v.len()
                invariant
                    i <= v.len(),
                    out@.len() == i,
                    forall|k: int| 0 <= k < i ==> (#[trigger] out@[k]).view_json() == status_json(v@[k]),
                    forall|k: int| 0 <= k < i ==> (#[trigger] out@[k]).view_json().wf(),
                decreases v.len() - i,
            {
                out.push(status_to_json(&v[i]));
                i = i + 1;
            }
            proof {
                lemma_views(out@);
                assert(views(out@) =~= Seq::new(v@.len(), |k: int| status_json(v@[k])));
            }
            Json::Array(out)
        },
        None => Json::Null,
    };
    j.insert(key("statuses"), sts);
    j
}


fn properties_to_json(p: &VmProperties) -> (j: Json)
    requires
        p.storage_profile matches Some(st) ==> {
            &&& ojson_wf(st.image_reference)
            &&& ojson_wf(st.os_disk)
            &&& (st.data_disks matches Some(d) ==> forall|i: int|
                0 <= i < d@.len() ==> (#[trigger] d@[i]).view_json().wf())
        },
        p.os_profile matches Some(o) ==> ojson_wf(o.linux_configuration) && ojson_wf(o.windows_configuration),
    ensures
        j.view_json() == properties_json(*p),
        j.view_json().wf(),
{
    let mut j = Json::new_object();
    j.insert(key("provisioningState"), opt_str_json(&p.provisioning_state));
    j.insert(key("vmId"), opt_str_json(&p.vm_id));
    let hw = match &p.hardware_profile {
        Some(h) => hardware_to_json(h),
        None => Json::Null,
    };
    j.insert(key("hardwareProfile"), hw);
    let st = match &p.storage_profile {
        Some(x) => storage_to_json(x),
        None => Json::Null,
    };
    j.insert(key("storageProfile"), st);
    let os = match &p.os_profile {
        Some(x) => os_to_json(x),
        None => Json::Null,
    };
    j.insert(key("osProfile"), os);
    let net = match &p.network_profile {
        Some(x) => network_to_json(x),
        None => Json::Null,
    };
    j.insert(key("networkProfile"), net);
    j.insert(key("priority"), opt_str_json(&p.priority));
    j.insert(key("timeCreated"), opt_str_json(&p.time_created));
    let iv = match &p.instance_view {
        Some(x) => instance_view_to_json(x),
        None => Json::Null,
    };
    j.insert(key("instanceView"), iv);
    j
}

/// Inserts every member of `m`, in order, into `j`.
fn insert_members(j: &mut Json, m: &Vec<(String, Json)>)
    requires
        old(j).view_json().wf(),
        forall|i: int| 0 <= i < m@.len() ==> (#[trigger] m@[i]).1.view_json().wf(),
    ensures
        final(j).view_json() == insert_all(old(j).view_json(), member_views(m@)),
        final(j).view_json().wf(),
{
    proof {
        lemma_member_views(m@);
    }
    let ghost mv = member_views(m@);
    let ghost start = j.view_json();
    let mut i: usize = 0;
    while i < m.len()
        invariant
            i <= m.len(),
            mv == member_views(m@),
            mv.len() == m@.len(),
            forall|k: int| 0 <= k < m@.len() ==> #[trigger] mv[k] == (m@[k].0@, m@[k].1.view_json()),
            forall|k: int| 0 <= k < m@.len() ==> (#[trigger] m@[k]).1.view_json().wf(),
            j.view_json() == insert_all(start, mv.take(i as int)),
            j.view_json().wf(),
        decreases m.len() - i,
    {
        let v = m[i].1.deep_clone();
        j.insert(m[i].0.clone(), v);
        assert(mv.take(i + 1).drop_last() =~= mv.take(i as int));
        i = i + 1;
    }
    assert(mv.take(m.len() as int) =~= mv);
}

fn tags_to_json(t: &Vec<(String, String)>) -> (j: Json)
    ensures
        j.view_json() == tags_json(t@),
        j.view_json().wf(),
{
    let ghost tv = Seq::new(t@.len(), |i: int| (t@[i].0@, JsonV::Str(t@[i].1@)));
    let mut j = Json::new_object();
    let mut i: usize = 0;
    while i < t.len()
        invariant
            i <= t.len(),
            tv == Seq::new(t@.len(), |i: int| (t@[i].0@, JsonV::Str(t@[i].1@))),
            j.view_json() == insert_all(obj0(), tv.take(i as int)),
            j.view_json().wf(),
        decreases t.len() - i,
    {
        j.insert(t[i].0.clone(), Json::string(t[i].1.as_str()));
        assert(tv.take(i + 1).drop_last() =~= tv.take(i as int));
        i = i + 1;
    }
    assert(tv.take(t.len() as int) =~= tv);
    j
}

impl VirtualMachine {
    /// The machine as one flat JSON object (see [`VirtualMachine::flattened`]).
    pub fn to_flattened_value(&self) -> (r: Json)
        requires
            self.json_wf(),
            self.rg_sliceable(),
        ensures
            r.view_json() == self.flattened(),
            r.view_json().wf(),
    {
        let mut map = Json::new_object();
        if let Some(id) = &self.id {
            map.insert(key("id"), Json::string(id.as_str()));
        }
        map.insert(key("name"), Json::string(self.name.as_str()));
        if let Some(l) = &self.location {
            map.insert(key("location"), Json::string(l.as_str()));
        }
        if let Some(t) = &self.resource_type {
            map.insert(key("type"), Json::string(t.as_str()));
        }
        if let Some(z) = &self.zones {
            let mut out: Vec<Json> = Vec::new();
            let mut i: usize = 0;
            while i < z.len()
                invariant
                    i <= z.len(),
                    out@.len() == i,
                    forall|k: int| 0 <= k < i ==> (#[trigger] out@[k]).view_json() == JsonV::Str(z@[k]@),
                decreases z.len() - i,
            {
                out.push(Json::string(z[i].as_str()));
                i = i + 1;
            }
            proof {
                lemma_views(out@);
                assert(views(out@) =~= Seq::new(z@.len(), |k: int| JsonV::Str(z@[k]@)));
                let a = JsonV::Array(views(out@));
                assert forall|k: int| 0 <= k < views(out@).len() implies (#[trigger] views(out@)[k]).wf() by {
                    assert(views(out@)[k] == JsonV::Str(z@[k]@));
                }
                assert(a.wf());
            }
            map.insert(key("zones"), Json::Array(out));
        }
        if let Some(t) = &self.tags {
            map.insert(key("tags"), tags_to_json(t));
        }
        if let Some(x) = &self.identity {
            map.insert(key("identity"), x.deep_clone());
        }
        if let Some(x) = &self.plan {
            map.insert(key("plan"), x.deep_clone());
        }
        if let Some(p) = &self.properties {
            let pj = properties_to_json(p);
            if let Json::Object(pm) = &pj {
                proof {
                    lemma_member_views(pm@);
                    assert forall|i: int| 0 <= i < pm@.len() implies (#[trigger] pm@[i]).1.view_json().wf() by {
                        assert(member_views(pm@)[i].1 == pm@[i].1.view_json());
                    }
                }
                insert_members(&mut map, pm);
            }
        }
        if let Some(id) = &self.id {
            if let Some(Some(rg)) = extract_rg(id.as_str()) {
                map.insert(key("resourceGroup"), Json::string(rg.as_str()));
            }
        }
        map
    }

    /// [`VirtualMachine::to_flattened_value`] where the resource group can
    /// be cut out of the id; `None` where it cannot (slicing the id there
    /// is not possible).
    pub fn try_to_flattened_value(&self) -> (r: Option<Json>)
        requires
            self.json_wf(),
        ensures
            match r {
                Some(j) => self.rg_sliceable() && j.view_json() == self.flattened() && j.view_json().wf(),
                None => !self.rg_sliceable(),
            },
    {
        if let Some(id) = &self.id {
            if extract_rg(id.as_str()).is_none() {
                return None;
            }
        }
        Some(self.to_flattened_value())
    }
}

} // verus!
