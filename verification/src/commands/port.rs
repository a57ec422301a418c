use vstd::prelude::*;
use crate::json::{lemma_views, member_views, push_member, views, Json, JsonV};
use crate::text::{concat, i64_to_string, int_text, string_views};
use super::CommandError;
use super::vm::{single, text_at_spec};

verus! {

/// The NIC ids of a VM document, in order (entries without an id left out).
pub open spec fn nic_ids_spec(nics: Seq<JsonV>) -> Seq<Seq<char>>
    decreases nics.len(),
{
    if nics.len() == 0 {
        seq![]
    } else {
        let prev = nic_ids_spec(nics.drop_last());
        match nics.last().str_field("id"@) {
            Some(id) => prev.push(id),
            None => prev,
        }
    }
}

/// The NIC ids of a VM's `networkProfile.networkInterfaces`.
pub open spec fn vm_nic_ids(vm: JsonV) -> Seq<Seq<char>> {
    match super::nic::vm_nics(vm) {
        Some(n) => nic_ids_spec(n),
        None => seq![],
    }
}

/// The first NIC of the VM, which `vm open-port` works on.
pub fn first_nic_id(vm: &Json, vm_name: &str) -> (r: Result<String, CommandError>)
    ensures
        match r {
            Ok(id) => vm_nic_ids(vm.view_json()).len() > 0 && id@ == vm_nic_ids(vm.view_json())[0],
            Err(e) => vm_nic_ids(vm.view_json()).len() == 0 && e.message_spec() == "VM '"@ + vm_name@
                + "' has no network interfaces"@,
        },
{
    let nics = match super::nic::network_interfaces(vm) {
        Ok(n) => n,
        Err(_) => {
            return Err(CommandError::VmHasNoNics { name: vm_name.to_owned() });
        },
    };
    let ghost nv = views(nics@);
    proof {
        lemma_views(nics@);
    }
    let mut ids: Vec<String> = Vec::new();
    let mut i: usize = 0;
    while i < nics.len()
        invariant
            i <= nics@.len(),
            nv == views(nics@),
            nv.len() == nics@.len(),
            forall|k: int| 0 <= k < nics@.len() ==> #[trigger] nv[k] == nics@[k].view_json(),
            string_views(ids@) == nic_ids_spec(nv.take(i as int)),
        decreases nics@.len() - i,
    {
        proof {
            assert(nv.take(i + 1).drop_last() =~= nv.take(i as int));
            assert(nv.take(i + 1).last() == nv[i as int]);
        }
        let ghost before = string_views(ids@);
        match nics[i].str_field("id") {
            Some(id) => {
                ids.push(id.to_owned());
                assert(string_views(ids@) =~= before.push(id@));
            },
            None => {},
        }
        i = i + 1;
    }
    proof {
        assert(nv.take(nics@.len() as int) =~= nv);
    }
    if ids.len() == 0 {
        return Err(CommandError::VmHasNoNics { name: vm_name.to_owned() });
    }
    assert(string_views(ids@)[0] == ids@[0]@);
    Ok(ids[0].clone())
}

/// The subnet of a NIC: that of its first IP configuration.
pub open spec fn nic_subnet_spec(nic: JsonV) -> Option<Seq<char>> {
    match super::vm::nic_ip_configs(nic) {
        Some(cfgs) => if cfgs.len() > 0 {
            text_at_spec(cfgs[0], seq!["properties"@, "subnet"@, "id"@])
        } else {
            None
        },
        None => None,
    }
}

pub fn nic_subnet(nic: &Json) -> (r: Result<String, CommandError>)
    ensures
        match r {
            Ok(s) => nic_subnet_spec(nic.view_json()) == Some(s@),
            Err(e) => nic_subnet_spec(nic.view_json()) is None && e == CommandError::NoSubnet,
        },
{
    let path = vec!["properties".to_owned(), "ipConfigurations".to_owned()];
    assert(string_views(path@) =~= seq!["properties"@, "ipConfigurations"@]);
    let cfgs = match nic.array_at(&path) {
        Some(c) => c,
        None => return Err(CommandError::NoSubnet),
    };
    if cfgs.len() == 0 {
        proof {
            lemma_views(cfgs@);
        }
        return Err(CommandError::NoSubnet);
    }
    proof {
        lemma_views(cfgs@);
    }
    let p2 = vec!["properties".to_owned(), "subnet".to_owned(), "id".to_owned()];
    assert(string_views(p2@) =~= seq!["properties"@, "subnet"@, "id"@]);
    match cfgs[0].get_path(&p2) {
        Some(v) => match v.as_str() {
            Some(s) => Ok(s.to_owned()),
            None => Err(CommandError::NoSubnet),
        },
        None => Err(CommandError::NoSubnet),
    }
}

/// The network security group a NIC or subnet document names.
pub fn nsg_of(doc: &Json) -> (r: Option<String>)
    ensures
        match r {
            Some(s) => text_at_spec(doc.view_json(), seq!["properties"@, "networkSecurityGroup"@, "id"@])
                == Some(s@),
            None => text_at_spec(doc.view_json(), seq!["properties"@, "networkSecurityGroup"@, "id"@])
                is None,
        },
{
    let p = vec!["properties".to_owned(), "networkSecurityGroup".to_owned(), "id".to_owned()];
    assert(string_views(p@) =~= seq!["properties"@, "networkSecurityGroup"@, "id"@]);
    match doc.get_path(&p) {
        Some(v) => match v.as_str() {
            Some(s) => Some(s.to_owned()),
            None => None,
        },
        None => None,
    }
}

/// The group a new security group for the VM gets: its id (named as given
/// or `<vm>NSG`) and the body that creates it empty, where the VM is.
pub open spec fn new_nsg_spec(
    sub: Seq<char>,
    rg: Seq<char>,
    vm_name: Seq<char>,
    nsg_name: Option<Seq<char>>,
    vm: JsonV,
) -> (Seq<char>, JsonV) {
    let nsg = match nsg_name {
        Some(n) => n,
        None => vm_name + "NSG"@,
    };
    let location = match vm.str_field("location"@) {
        Some(l) => l,
        None => "eastus"@,
    };
    (
        "/subscriptions/"@ + sub + "/resourceGroups/"@ + rg
            + "/providers/Microsoft.Network/networkSecurityGroups/"@ + nsg,
        JsonV::Object(
            seq![
                ("location"@, JsonV::Str(location)),
                ("properties"@, JsonV::Object(seq![("securityRules"@, JsonV::Array(seq![]))])),
            ],
        ),
    )
}

pub fn new_nsg(sub: &str, rg: &str, vm_name: &str, nsg_name: Option<&str>, vm: &Json) -> (r: (String, Json))
    ensures
        (r.0@, r.1.view_json()) == new_nsg_spec(
            sub@,
            rg@,
            vm_name@,
            match nsg_name {
                Some(n) => Some(n@),
                None => None,
            },
            vm.view_json(),
        ),
{
    let nsg = match nsg_name {
        Some(n) => n.to_owned(),
        None => concat(vm_name, "NSG"),
    };
    let location = match vm.str_field("location") {
        Some(l) => l.to_owned(),
        None => "eastus".to_owned(),
    };
    let a = concat("/subscriptions/", sub);
    let b = concat(a.as_str(), "/resourceGroups/");
    let c = concat(b.as_str(), rg);
    let d = concat(c.as_str(), "/providers/Microsoft.Network/networkSecurityGroups/");
    let id = concat(d.as_str(), nsg.as_str());
    let empty: Vec<Json> = Vec::new();
    proof {
        lemma_views(empty@);
        assert(views(empty@) =~= Seq::<JsonV>::empty());
    }
    let props = single("securityRules", Json::Array(empty));
    let mut m: Vec<(String, Json)> = Vec::new();
    push_member(&mut m, "location", Json::Str(location));
    let ghost pv = props.view_json();
    push_member(&mut m, "properties", props);
    proof {
        assert(member_views(m@) =~= new_nsg_spec(
            sub@,
            rg@,
            vm_name@,
            match nsg_name {
                Some(n) => Some(n@),
                None => None,
            },
            vm.view_json(),
        ).1->Object_0);
    }
    (id, Json::Object(m))
}

/// The inbound rule that opens `port`: its id under the security group and
/// its body.
pub open spec fn open_port_rule_spec(nsg_id: Seq<char>, port: Seq<char>, priority: int) -> (Seq<char>, JsonV) {
    (
        nsg_id + "/securityRules/"@ + "open-port-"@ + port,
        JsonV::Object(
            seq![(
                "properties"@,
                JsonV::Object(
                    seq![
                        ("access"@, JsonV::Str("Allow"@)),
                        ("destinationAddressPrefix"@, JsonV::Str("*"@)),
                        ("destinationPortRange"@, JsonV::Str(port)),
                        ("direction"@, JsonV::Str("Inbound"@)),
                        ("priority"@, JsonV::Number(int_text(priority))),
                        ("protocol"@, JsonV::Str("*"@)),
                        ("sourceAddressPrefix"@, JsonV::Str("*"@)),
                        ("sourcePortRange"@, JsonV::Str("*"@)),
                    ],
                ),
            )],
        ),
    )
}

pub fn open_port_rule(nsg_id: &str, port: &str, priority: i64) -> (r: (String, Json))
    ensures
        (r.0@, r.1.view_json()) == open_port_rule_spec(nsg_id@, port@, priority as int),
{
    let rule_name = concat("open-port-", port);
    let a = concat(nsg_id, "/securityRules/");
    let id = concat(a.as_str(), rule_name.as_str());
    let mut m: Vec<(String, Json)> = Vec::new();
    push_member(&mut m, "access", Json::Str("Allow".to_owned()));
    push_member(&mut m, "destinationAddressPrefix", Json::Str("*".to_owned()));
    push_member(&mut m, "destinationPortRange", Json::Str(port.to_owned()));
    push_member(&mut m, "direction", Json::Str("Inbound".to_owned()));
    push_member(&mut m, "priority", Json::Number(i64_to_string(priority)));
    push_member(&mut m, "protocol", Json::Str("*".to_owned()));
    push_member(&mut m, "sourceAddressPrefix", Json::Str("*".to_owned()));
    push_member(&mut m, "sourcePortRange", Json::Str("*".to_owned()));
    proof {
        assert(member_views(m@) =~= open_port_rule_spec(nsg_id@, port@, priority as int).1->Object_0[0].1->Object_0);
        assert(id@ =~= nsg_id@ + "/securityRules/"@ + "open-port-"@ + port@);
    }
    (id, single("properties", Json::Object(m)))
}

} // verus!
