use azcli::commands::disk::{attach_disk, detach_disk, next_free_lun, resolve_disk_id};
use azcli::commands::nic::{
    add_nics, apply_primary, attached_nic_id, nic_name_from_id, remove_nics, resolve_nic_id, set_nics,
};
use azcli::commands::port::{first_nic_id, new_nsg, open_port_rule};
use azcli::commands::run_command::{
    create_body, invoke_body, list_target, parse_params, show_target, update_body as rc_update_body,
    ListTarget, RunCommandArgs,
};
use azcli::commands::skus::{list_skus, SkuFilter};
use azcli::commands::vm::{
    auto_shutdown_body, capture_body, extract_rg, parse_image, parse_value, power_state, ssh_key_path,
    update_body, vm_create_body, with_details, VmCreateArgs,
};
use azcli::commands::vmss::connection_info;
use azcli::commands::wait::{bastion_wait_step, vm_wait_step, Poll, WaitFlags, WaitStep};
use azcli::commands::CommandError;
use azcli::json::Json;

fn s(x: &str) -> Json {
    Json::Str(x.to_string())
}

fn obj(m: Vec<(&str, Json)>) -> Json {
    Json::Object(m.into_iter().map(|(k, v)| (k.to_string(), v)).collect())
}

fn text(j: &Json) -> String {
    j.to_compact_string()
}

fn strings(v: &[&str]) -> Vec<String> {
    v.iter().map(|x| x.to_string()).collect()
}

const SUB: &str = "sub";
const RG: &str = "rg";
const NIC_PREFIX: &str = "/subscriptions/sub/resourceGroups/rg/providers/Microsoft.Network/networkInterfaces/";

fn nic_ref(name: &str, primary: Option<bool>) -> Json {
    let mut m = vec![("id", s(&format!("{NIC_PREFIX}{name}")))];
    if let Some(p) = primary {
        m.push(("primary", Json::Bool(p)));
    }
    obj(m)
}

#[test]
fn nic_ids_resolve_names_and_keep_ids() {
    assert_eq!(resolve_nic_id(SUB, RG, "nic1"), format!("{NIC_PREFIX}nic1"));
    assert_eq!(resolve_nic_id(SUB, RG, "/x/y"), "/x/y");
    assert_eq!(nic_name_from_id("/a/b/nicX"), "nicX");
    assert_eq!(nic_name_from_id("plain"), "plain");
}

#[test]
fn named_primary_marks_exactly_the_match() {
    let mut nics = vec![nic_ref("a", Some(true)), nic_ref("B", None)];
    assert!(apply_primary(&mut nics, Some("b")).is_ok());
    assert_eq!(nics[0].get("primary").unwrap().as_bool(), Some(false));
    assert_eq!(nics[1].get("primary").unwrap().as_bool(), Some(true));
}

#[test]
fn unmatched_primary_is_an_error() {
    let mut nics = vec![nic_ref("a", None)];
    let e = apply_primary(&mut nics, Some("zzz")).unwrap_err();
    assert_eq!(e.message(), "--primary-nic 'zzz' did not match any NIC in the resulting set");
}

#[test]
fn an_existing_primary_is_kept_whatever_the_other_entries() {
    let mut nics = vec![s("odd"), nic_ref("a", Some(true)), Json::Number("3".to_string())];
    assert!(apply_primary(&mut nics, None).is_ok());
    assert_eq!(nics[0].as_str(), Some("odd"));
    assert_eq!(nics[1].get("primary").unwrap().as_bool(), Some(true));
    assert_eq!(nics[2].to_compact_string(), "3");
}

#[test]
fn a_named_primary_on_no_nics_is_an_error() {
    let mut nics: Vec<Json> = vec![];
    let e = apply_primary(&mut nics, Some("a")).unwrap_err();
    assert_eq!(e.message(), "--primary-nic 'a' did not match any NIC in the resulting set");
    assert!(nics.is_empty());
    assert!(apply_primary(&mut nics, None).is_ok());
}

#[test]
fn a_resolved_name_reads_back() {
    assert_eq!(nic_name_from_id(&resolve_nic_id(SUB, RG, "nic1")), "nic1");
    assert_eq!(nic_name_from_id(&resolve_nic_id(SUB, RG, "")), "");
}

#[test]
fn without_a_name_the_first_nic_becomes_primary() {
    let mut nics = vec![nic_ref("a", None), nic_ref("b", None), nic_ref("c", Some(false))];
    apply_primary(&mut nics, None).unwrap();
    assert_eq!(nics[0].get("primary").unwrap().as_bool(), Some(true));
    assert_eq!(nics[1].get("primary").unwrap().as_bool(), Some(false));
    assert_eq!(nics[2].get("primary").unwrap().as_bool(), Some(false));
    let mut kept = vec![nic_ref("a", None), nic_ref("b", Some(true))];
    apply_primary(&mut kept, None).unwrap();
    assert!(kept[0].get("primary").is_none());
}

#[test]
fn add_skips_attached_nics_case_insensitively() {
    let current = vec![nic_ref("a", Some(true))];
    let body = add_nics(current, SUB, RG, &strings(&["A", "b"]), None).unwrap();
    assert_eq!(
        text(&body),
        format!(
            "{{\"properties\":{{\"networkProfile\":{{\"networkInterfaces\":[{{\"id\":\"{p}a\",\"primary\":true}},{{\"id\":\"{p}b\",\"primary\":false}}]}}}}}}",
            p = NIC_PREFIX
        )
    );
}

#[test]
fn remove_drops_by_name_or_id() {
    let current = vec![nic_ref("a", Some(true)), nic_ref("b", None), nic_ref("c", None)];
    let body = remove_nics(current, SUB, RG, &strings(&["A", &format!("{NIC_PREFIX}c")]), None).unwrap();
    assert_eq!(
        text(&body),
        format!(
            "{{\"properties\":{{\"networkProfile\":{{\"networkInterfaces\":[{{\"id\":\"{p}b\",\"primary\":true}}]}}}}}}",
            p = NIC_PREFIX
        )
    );
}

#[test]
fn set_replaces_and_names_primary() {
    let body = set_nics(SUB, RG, &strings(&["x", "y"]), Some("y")).unwrap();
    assert_eq!(
        text(&body),
        format!(
            "{{\"properties\":{{\"networkProfile\":{{\"networkInterfaces\":[{{\"id\":\"{p}x\",\"primary\":false}},{{\"id\":\"{p}y\",\"primary\":true}}]}}}}}}",
            p = NIC_PREFIX
        )
    );
    assert!(set_nics(SUB, RG, &strings(&["x"]), Some("q")).is_err());
}

#[test]
fn show_requires_an_attached_nic() {
    let current = vec![nic_ref("a", None)];
    assert_eq!(attached_nic_id(&current, SUB, RG, "vm1", "A").unwrap(), format!("{NIC_PREFIX}A"));
    let e = attached_nic_id(&current, SUB, RG, "vm1", "b").unwrap_err();
    assert_eq!(e.message(), "NIC 'b' is not attached to VM 'vm1' in resource group 'rg'");
}

#[test]
fn next_lun_is_the_lowest_free() {
    let disks = vec![obj(vec![("lun", Json::Number("0".to_string()))]), obj(vec![("lun", Json::Number("2".to_string()))])];
    assert_eq!(next_free_lun(&disks), 1);
    assert_eq!(next_free_lun(&vec![]), 0);
}

#[test]
fn attach_appends_an_entry() {
    let disks = vec![obj(vec![("lun", Json::Number("0".to_string()))])];
    let body = attach_disk(disks, SUB, RG, "d1", None, Some("ReadOnly"), true);
    assert_eq!(
        text(&body),
        "{\"properties\":{\"storageProfile\":{\"dataDisks\":[{\"lun\":0},{\"caching\":\"ReadOnly\",\"createOption\":\"Attach\",\"lun\":1,\"managedDisk\":{\"id\":\"/subscriptions/sub/resourceGroups/rg/providers/Microsoft.Compute/disks/d1\"},\"name\":\"d1\",\"writeAcceleratorEnabled\":true}]}}}"
    );
    assert_eq!(resolve_disk_id(SUB, RG, "/full/id"), "/full/id");
}

#[test]
fn detach_drops_or_marks_the_disk() {
    let disks = || {
        vec![
            obj(vec![("name", s("Data1"))]),
            obj(vec![("managedDisk", obj(vec![("id", s("/x/disks/DATA1"))])), ("name", s("other"))]),
            obj(vec![("name", s("keep"))]),
        ]
    };
    let body = detach_disk(disks(), "data1", false);
    assert_eq!(text(&body), "{\"properties\":{\"storageProfile\":{\"dataDisks\":[{\"name\":\"keep\"}]}}}");
    let body = detach_disk(disks(), "data1", true);
    assert_eq!(
        text(&body),
        "{\"properties\":{\"storageProfile\":{\"dataDisks\":[{\"detachOption\":\"ForceDetach\",\"name\":\"Data1\",\"toBeDetached\":true},{\"detachOption\":\"ForceDetach\",\"managedDisk\":{\"id\":\"/x/disks/DATA1\"},\"name\":\"other\",\"toBeDetached\":true},{\"name\":\"keep\"}]}}}"
    );
}

#[test]
fn detach_keeps_entries_that_are_not_objects() {
    let disks = || vec![s("odd"), Json::Null, obj(vec![("name", s("d"))])];
    let body = detach_disk(disks(), "d", false);
    assert_eq!(text(&body), "{\"properties\":{\"storageProfile\":{\"dataDisks\":[\"odd\",null]}}}");
    let body = detach_disk(disks(), "zzz", true);
    assert_eq!(text(&body), "{\"properties\":{\"storageProfile\":{\"dataDisks\":[\"odd\",null,{\"name\":\"d\"}]}}}");
}

#[test]
fn skus_are_filtered() {
    let sku = |name: &str, loc: &str, zones: usize| {
        obj(vec![
            ("locationInfo", Json::Array(vec![obj(vec![("zones", Json::Array((0..zones).map(|_| s("1")).collect()))])])),
            ("locations", Json::Array(vec![s(loc)])),
            ("name", s(name)),
            ("resourceType", s("virtualMachines")),
        ])
    };
    let reply = obj(vec![("value", Json::Array(vec![sku("Standard_D2", "eastus", 1), sku("Standard_B1", "EastUS", 0), sku("Standard_D4", "westus", 2)]))]);
    let f = SkuFilter { location: Some("EASTUS".to_string()), resource_type: Some("VirtualMachines".to_string()), size: Some("d".to_string()), zone: true };
    let out = list_skus(reply, &f);
    let items = out.as_array().unwrap();
    assert_eq!(items.len(), 1);
    assert_eq!(items[0].str_field("name"), Some("Standard_D2"));
    let plain = obj(vec![("other", s("x"))]);
    assert_eq!(text(&list_skus(plain, &f)), "{\"other\":\"x\"}");
}

fn rc_args() -> RunCommandArgs {
    RunCommandArgs {
        script: None,
        script_uri: None,
        command_id: None,
        parameters: vec![],
        protected_parameters: vec![],
        run_as_user: None,
        run_as_password: None,
        timeout_in_seconds: None,
        output_blob_uri: None,
        error_blob_uri: None,
    }
}

#[test]
fn run_command_create_needs_one_source() {
    let mut a = rc_args();
    assert_eq!(create_body("eastus", &a, false).unwrap_err(), CommandError::SourceExactlyOne);
    a.script = Some("echo hi".to_string());
    a.parameters = strings(&["a=1", "bad", "b=x=y"]);
    a.timeout_in_seconds = Some(60);
    let body = create_body("eastus", &a, true).unwrap();
    assert_eq!(
        text(&body),
        "{\"location\":\"eastus\",\"properties\":{\"asyncExecution\":true,\"parameters\":[{\"name\":\"a\",\"value\":\"1\"},{\"name\":\"b\",\"value\":\"x=y\"}],\"source\":{\"script\":\"echo hi\"},\"timeoutInSeconds\":60}}"
    );
    a.command_id = Some("RunShellScript".to_string());
    assert!(create_body("eastus", &a, true).is_err());
}

#[test]
fn run_command_update_checks_its_input() {
    let mut a = rc_args();
    assert_eq!(rc_update_body(&a).unwrap_err().message(), "no updates specified");
    a.run_as_user = Some("root".to_string());
    assert_eq!(text(&rc_update_body(&a).unwrap()), "{\"properties\":{\"runAsUser\":\"root\"}}");
    a.script = Some("x".to_string());
    a.script_uri = Some("y".to_string());
    assert_eq!(rc_update_body(&a).unwrap_err(), CommandError::SourceAtMostOne);
}

#[test]
fn run_command_invoke_and_targets() {
    let body = invoke_body("RunShellScript", &strings(&["ls", "pwd"]), &strings(&[]));
    assert_eq!(text(&body), "{\"commandId\":\"RunShellScript\",\"script\":[\"ls\",\"pwd\"]}");
    assert_eq!(parse_params(&strings(&["k=v"])).len(), 1);
    assert_eq!(
        list_target(Some("rg"), Some("vm"), None).unwrap(),
        ListTarget::Vm { resource_group: "rg".to_string(), vm_name: "vm".to_string() }
    );
    assert_eq!(list_target(None, Some("vm"), None).unwrap_err(), CommandError::ListArgs);
    assert!(show_target(None, None, None, Some("eastus"), Some("id")).is_ok());
    assert_eq!(show_target(Some("rg"), None, None, None, None).unwrap_err(), CommandError::ShowArgs);
}

#[test]
fn images_parse_into_four_parts() {
    assert_eq!(
        parse_image("Canonical:Ubuntu:22_04:latest"),
        ("Canonical".to_string(), "Ubuntu".to_string(), "22_04".to_string(), "latest".to_string())
    );
    assert_eq!(parse_image("Ubuntu2204"), ("Ubuntu2204".to_string(), String::new(), String::new(), "latest".to_string()));
}

#[test]
fn update_values_nest_and_parse() {
    assert_eq!(text(&parse_value("true")), "true");
    assert_eq!(text(&parse_value("-12")), "-12");
    assert_eq!(text(&parse_value("12a")), "\"12a\"");
    let body = update_body(&strings(&["a.b=1", "a.c=x", "d=false", "skip"]));
    assert_eq!(text(&body), "{\"a\":{\"b\":1,\"c\":\"x\"},\"d\":false}");
    let body = update_body(&strings(&["a=1", "a.b=2"]));
    assert_eq!(text(&body), "{\"a\":{\"b\":2}}");
}

#[test]
fn vm_create_body_with_ssh_key() {
    let a = VmCreateArgs {
        name: "vm1".to_string(),
        image: "P:O:S:V".to_string(),
        location: "eastus".to_string(),
        size: "Standard_B1s".to_string(),
        admin_username: None,
        admin_password: None,
        ssh_key_value: Some("ssh-rsa AAA".to_string()),
        authentication_type: None,
        subnet_id: Some("/subnet".to_string()),
        os_disk_size_gb: Some(64),
        data_disk_sizes_gb: vec![10],
        tags: Some(strings(&["k=v", "a=b", "k=w"])),
    };
    let body = vm_create_body(&a, Some("  ssh-rsa AAA \n"));
    assert_eq!(
        text(&body),
        "{\"location\":\"eastus\",\"properties\":{\"hardwareProfile\":{\"vmSize\":\"Standard_B1s\"},\"networkProfile\":{\"networkInterfaces\":[{\"id\":\"/subnet\"}]},\"osProfile\":{\"adminUsername\":\"azureuser\",\"computerName\":\"vm1\",\"linuxConfiguration\":{\"disablePasswordAuthentication\":true,\"ssh\":{\"publicKeys\":[{\"keyData\":\"ssh-rsa AAA\",\"path\":\"/home/azureuser/.ssh/authorized_keys\"}]}}},\"storageProfile\":{\"dataDisks\":[{\"createOption\":\"Empty\",\"diskSizeGB\":10,\"lun\":0,\"managedDisk\":{\"storageAccountType\":\"Premium_LRS\"}}],\"imageReference\":{\"offer\":\"O\",\"publisher\":\"P\",\"sku\":\"S\",\"version\":\"V\"},\"osDisk\":{\"createOption\":\"FromImage\",\"diskSizeGB\":64,\"managedDisk\":{\"storageAccountType\":\"Premium_LRS\"}}}},\"tags\":{\"a\":\"b\",\"k\":\"w\"}}"
    );
    assert_eq!(ssh_key_path("~/.ssh/id.pub", "/home/u"), Some("/home/u/.ssh/id.pub".to_string()));
    assert_eq!(ssh_key_path("ssh-rsa AAA", "/home/u"), None);
}

#[test]
fn auto_shutdown_and_capture_bodies() {
    let body = auto_shutdown_body("rg", "vm1", None, Some("a@b.c"), None, "eastus");
    assert_eq!(
        text(&body),
        "{\"location\":\"eastus\",\"properties\":{\"dailyRecurrence\":{\"time\":\"1900\"},\"notificationSettings\":{\"emailRecipient\":\"a@b.c\",\"status\":\"Enabled\",\"timeInMinutes\":30},\"status\":\"Enabled\",\"targetResourceId\":\"/subscriptions//resourceGroups/rg/providers/Microsoft.Compute/virtualMachines/vm1\",\"taskType\":\"ComputeVmShutdownTask\",\"timeZoneId\":\"UTC\"}}"
    );
    assert_eq!(
        text(&capture_body("pre", "vhds", true)),
        "{\"destinationContainerName\":\"vhds\",\"overwriteVhds\":true,\"vhdPrefix\":\"pre\"}"
    );
}

#[test]
fn show_details_adds_power_state_and_addresses() {
    let iv = obj(vec![("statuses", Json::Array(vec![
        obj(vec![("code", s("ProvisioningState/succeeded"))]),
        obj(vec![("code", s("PowerState/running"))]),
    ]))]);
    assert_eq!(power_state(&iv), Some("running".to_string()));
    let v = with_details(obj(vec![("name", s("vm1"))]), Some(iv), &strings(&["1.2.3.4"]), &strings(&["10.0.0.4", "10.0.0.5"]), &strings(&[]));
    assert_eq!(v.str_field("powerState"), Some("running"));
    assert_eq!(v.str_field("privateIps"), Some("10.0.0.4,10.0.0.5"));
    assert_eq!(v.str_field("fqdns"), Some(""));
}

#[test]
fn resource_group_is_found_case_insensitively() {
    assert_eq!(extract_rg("/subscriptions/s/RESOURCEGROUPS/MyRg/providers/x"), Some(Some("MyRg".to_string())));
    assert_eq!(extract_rg("/subscriptions/s"), Some(None));
}

#[test]
fn open_port_pieces() {
    let vm = obj(vec![("networkProfile", obj(vec![("networkInterfaces", Json::Array(vec![nic_ref("a", None)]))]))]);
    assert_eq!(first_nic_id(&vm, "vm1").unwrap(), format!("{NIC_PREFIX}a"));
    assert_eq!(first_nic_id(&obj(vec![]), "vm1").unwrap_err().message(), "VM 'vm1' has no network interfaces");
    let (id, body) = new_nsg("sub", "rg", "vm1", None, &obj(vec![]));
    assert_eq!(id, "/subscriptions/sub/resourceGroups/rg/providers/Microsoft.Network/networkSecurityGroups/vm1NSG");
    assert_eq!(text(&body), "{\"location\":\"eastus\",\"properties\":{\"securityRules\":[]}}");
    let (rid, rule) = open_port_rule("/nsg", "22", 900);
    assert_eq!(rid, "/nsg/securityRules/open-port-22");
    assert_eq!(
        text(&rule),
        "{\"properties\":{\"access\":\"Allow\",\"destinationAddressPrefix\":\"*\",\"destinationPortRange\":\"22\",\"direction\":\"Inbound\",\"priority\":900,\"protocol\":\"*\",\"sourceAddressPrefix\":\"*\",\"sourcePortRange\":\"*\"}}"
    );
}

#[test]
fn wait_steps_follow_the_flags() {
    let created = WaitFlags { created: true, updated: false, deleted: false, exists: false };
    let deleted = WaitFlags { created: false, updated: false, deleted: true, exists: false };
    let ok = Poll::Found { state: Some("Succeeded".to_string()) };
    let creating = Poll::Found { state: None };
    let gone = Poll::Failed { message: "404 ResourceNotFound".to_string() };
    let broken = Poll::Failed { message: "500 boom".to_string() };
    assert_eq!(bastion_wait_step(created, &ok), WaitStep::Done);
    assert_eq!(bastion_wait_step(created, &creating), WaitStep::Retry);
    assert_eq!(bastion_wait_step(created, &gone), WaitStep::Retry);
    assert_eq!(bastion_wait_step(created, &broken), WaitStep::Fail);
    assert_eq!(bastion_wait_step(deleted, &ok), WaitStep::Retry);
    assert_eq!(bastion_wait_step(deleted, &broken), WaitStep::Done);
    assert_eq!(vm_wait_step(created, &broken), WaitStep::Retry);
    assert_eq!(vm_wait_step(deleted, &gone), WaitStep::Done);
    assert_eq!(vm_wait_step(created, &ok), WaitStep::Done);
}

#[test]
fn bastion_exists_waits_for_succeeded() {
    let exists = WaitFlags { created: false, updated: false, deleted: false, exists: true };
    let updating = Poll::Found { state: Some("Updating".to_string()) };
    let ok = Poll::Found { state: Some("Succeeded".to_string()) };
    assert_eq!(bastion_wait_step(exists, &updating), WaitStep::Retry);
    assert_eq!(bastion_wait_step(exists, &Poll::Found { state: None }), WaitStep::Retry);
    assert_eq!(bastion_wait_step(exists, &ok), WaitStep::Done);
}

#[test]
fn vmss_connection_info_lists_nics() {
    let insts = vec![
        obj(vec![("instanceId", s("0")), ("name", s("n0")), ("properties", obj(vec![("networkProfile", obj(vec![("networkInterfaces", Json::Array(vec![obj(vec![("id", s("/nic0"))])]))]))]))]),
        obj(vec![]),
    ];
    assert_eq!(
        text(&connection_info(&insts)),
        "[{\"instanceId\":\"0\",\"name\":\"n0\",\"networkInterfaces\":[\"/nic0\"]},{\"instanceId\":\"?\",\"name\":\"?\",\"networkInterfaces\":[]}]"
    );
}

fn vm_with_id(id: &str) -> azcli::models::VirtualMachine {
    azcli::models::VirtualMachine {
        id: Some(id.to_string()),
        name: "vm1".to_string(),
        location: None,
        resource_type: None,
        zones: None,
        tags: None,
        identity: None,
        plan: None,
        properties: None,
    }
}

#[test]
fn flattened_vm_reads_its_resource_group_from_the_id() {
    let vm = vm_with_id("/subscriptions/s/resourceGroups/MyRg/providers/x/vm1");
    let j = vm.to_flattened_value();
    assert_eq!(j.get("resourceGroup").and_then(|v| v.as_str()), Some("MyRg"));
    assert_eq!(j.get("name").and_then(|v| v.as_str()), Some("vm1"));
    let none = vm_with_id("/subscriptions/s");
    assert!(none.to_flattened_value().get("resourceGroup").is_none());
}

#[test]
fn flattened_vm_cuts_the_id_at_the_lowercase_offset() {
    // Lowercasing `İ` adds a byte, so the offset found in the lowercase id
    // lies one byte further into the id itself.
    let vm = vm_with_id("/\u{130}/resourceGroups/rg1/x");
    let j = vm.try_to_flattened_value().unwrap();
    assert_eq!(j.get("resourceGroup").and_then(|v| v.as_str()), Some("g1"));
    let cut = vm_with_id("/\u{130}/resourceGroups/\u{e9}rg/x");
    assert!(cut.try_to_flattened_value().is_none());
}
