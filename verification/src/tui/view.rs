use vstd::prelude::*;
use crate::text::sv;

verus! {

/// The screens of the terminal UI.
#[derive(Debug, Clone)]
pub enum View {
    ResourceGroups,
    ResourcesInGroup { rg: String },
    VmDetail { rg: String, name: String },
    VmssDetail { rg: String, name: String },
    VmssInstanceDetail { rg: String, vmss: String, instance_id: String },
    AccountPicker,
}

/// The mathematical value of a [`View`].
pub enum ViewV {
    ResourceGroups,
    ResourcesInGroup { rg: Seq<char> },
    VmDetail { rg: Seq<char>, name: Seq<char> },
    VmssDetail { rg: Seq<char>, name: Seq<char> },
    VmssInstanceDetail { rg: Seq<char>, vmss: Seq<char>, instance_id: Seq<char> },
    AccountPicker,
}

impl View {
    pub open spec fn view_v(&self) -> ViewV {
        match self {
            View::ResourceGroups => ViewV::ResourceGroups,
            View::ResourcesInGroup { rg } => ViewV::ResourcesInGroup { rg: sv(rg) },
            View::VmDetail { rg, name } => ViewV::VmDetail { rg: sv(rg), name: sv(name) },
            View::VmssDetail { rg, name } => ViewV::VmssDetail { rg: sv(rg), name: sv(name) },
            View::VmssInstanceDetail { rg, vmss, instance_id } => ViewV::VmssInstanceDetail {
                rg: sv(rg),
                vmss: sv(vmss),
                instance_id: sv(instance_id),
            },
            View::AccountPicker => ViewV::AccountPicker,
        }
    }

    /// A copy of the view.
    pub fn duplicate(&self) -> (r: View)
        ensures
            r.view_v() == self.view_v(),
    {
        match self {
            View::ResourceGroups => View::ResourceGroups,
            View::ResourcesInGroup { rg } => View::ResourcesInGroup { rg: rg.clone() },
            View::VmDetail { rg, name } => View::VmDetail { rg: rg.clone(), name: name.clone() },
            View::VmssDetail { rg, name } => View::VmssDetail { rg: rg.clone(), name: name.clone() },
            View::VmssInstanceDetail { rg, vmss, instance_id } => View::VmssInstanceDetail {
                rg: rg.clone(),
                vmss: vmss.clone(),
                instance_id: instance_id.clone(),
            },
            View::AccountPicker => View::AccountPicker,
        }
    }
}

} // verus!
