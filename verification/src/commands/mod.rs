use vstd::prelude::*;

pub mod disk;
pub mod nic;
pub mod port;
pub mod run_command;
pub mod skus;
pub mod vm;
pub mod vmss;
pub mod wait;

verus! {

/// Why a command cannot build its request.
#[derive(Debug, PartialEq, Eq)]
pub enum CommandError {
    NoNetworkInterfaces,
    PrimaryNotMatched { primary: String },
    NicNotAttached { nic: String, vm: String, resource_group: String },
    NoLocation,
    DataDisksNotFound,
    NoDataDisks,
    NoVmLocation,
    SourceExactlyOne,
    SourceAtMostOne,
    NoUpdates,
    ListArgs,
    ShowArgs,
    VmHasNoNics { name: String },
    NoSubnet,
}

impl CommandError {
    /// The text of the error.
    pub open spec fn message_spec(&self) -> Seq<char> {
        match self {
            CommandError::NoNetworkInterfaces => "VM has no networkProfile.networkInterfaces"@,
            CommandError::PrimaryNotMatched { primary } => "--primary-nic '"@ + primary@
                + "' did not match any NIC in the resulting set"@,
            CommandError::NicNotAttached { nic, vm, resource_group } => "NIC '"@ + nic@
                + "' is not attached to VM '"@ + vm@ + "' in resource group '"@ + resource_group@
                + "'"@,
            CommandError::NoLocation => "VM has no location"@,
            CommandError::DataDisksNotFound => "VM storageProfile.dataDisks not found"@,
            CommandError::NoDataDisks => "VM has no data disks"@,
            CommandError::NoVmLocation => "could not determine VM location"@,
            CommandError::SourceExactlyOne => "specify exactly one of --script, --script-uri, --command-id"@,
            CommandError::SourceAtMostOne => "specify at most one of --script, --script-uri, --command-id"@,
            CommandError::NoUpdates => "no updates specified"@,
            CommandError::ListArgs =>
                "provide either --vm-name with --resource-group (per-VM listing) or --location (built-in listing)"@,
            CommandError::ShowArgs =>
                "provide either (--vm-name, --resource-group, --name) for a VM run command or (--location, --command-id) for a built-in"@,
            CommandError::VmHasNoNics { name } => "VM '"@ + name@ + "' has no network interfaces"@,
            CommandError::NoSubnet => "Could not find subnet for NIC"@,
        }
    }

    /// The text of the error.
    pub fn message(&self) -> (r: String)
        ensures
            r@ == self.message_spec(),
    {
        match self {
            CommandError::NoNetworkInterfaces => "VM has no networkProfile.networkInterfaces".to_owned(),
            CommandError::PrimaryNotMatched { primary } => {
                let a = crate::text::concat("--primary-nic '", primary.as_str());
                crate::text::concat(a.as_str(), "' did not match any NIC in the resulting set")
            },
            CommandError::NicNotAttached { nic, vm, resource_group } => {
                let a = crate::text::concat("NIC '", nic.as_str());
                let b = crate::text::concat(a.as_str(), "' is not attached to VM '");
                let c = crate::text::concat(b.as_str(), vm.as_str());
                let d = crate::text::concat(c.as_str(), "' in resource group '");
                let e = crate::text::concat(d.as_str(), resource_group.as_str());
                crate::text::concat(e.as_str(), "'")
            },
            CommandError::NoLocation => "VM has no location".to_owned(),
            CommandError::DataDisksNotFound => "VM storageProfile.dataDisks not found".to_owned(),
            CommandError::NoDataDisks => "VM has no data disks".to_owned(),
            CommandError::NoVmLocation => "could not determine VM location".to_owned(),
            CommandError::SourceExactlyOne => "specify exactly one of --script, --script-uri, --command-id".to_owned(),
            CommandError::SourceAtMostOne => "specify at most one of --script, --script-uri, --command-id".to_owned(),
            CommandError::NoUpdates => "no updates specified".to_owned(),
            CommandError::ListArgs =>
                "provide either --vm-name with --resource-group (per-VM listing) or --location (built-in listing)".to_owned(),
            CommandError::ShowArgs =>
                "provide either (--vm-name, --resource-group, --name) for a VM run command or (--location, --command-id) for a built-in".to_owned(),
            CommandError::VmHasNoNics { name } => {
                let a = crate::text::concat("VM '", name.as_str());
                crate::text::concat(a.as_str(), "' has no network interfaces")
            },
            CommandError::NoSubnet => "Could not find subnet for NIC".to_owned(),
        }
    }
}

} // verus!
