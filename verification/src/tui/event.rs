use vstd::prelude::*;
use crate::json::{views, Json, JsonV};
use super::keys::KeyInput;

verus! {

/// Data that arrived for a screen.
#[derive(Debug)]
pub enum FetchPayload {
    ResourceGroups(Vec<Json>),
    ResourcesInGroup { rg: String, items: Vec<Json> },
    Subscriptions(Vec<Json>),
    VmDetail { rg: String, name: String, value: Json },
    VmssDetail { rg: String, name: String, vmss: Json, instances: Vec<Json>, is_flex: bool },
}

/// The mathematical value of a [`FetchPayload`].
pub enum FetchPayloadV {
    ResourceGroups(Seq<JsonV>),
    ResourcesInGroup { rg: Seq<char>, items: Seq<JsonV> },
    Subscriptions(Seq<JsonV>),
    VmDetail { rg: Seq<char>, name: Seq<char>, value: JsonV },
    VmssDetail { rg: Seq<char>, name: Seq<char>, vmss: JsonV, instances: Seq<JsonV>, is_flex: bool },
}

impl FetchPayload {
    pub open spec fn view_payload(&self) -> FetchPayloadV {
        match self {
            FetchPayload::ResourceGroups(items) => FetchPayloadV::ResourceGroups(views(items@)),
            FetchPayload::ResourcesInGroup { rg, items } => FetchPayloadV::ResourcesInGroup {
                rg: rg@,
                items: views(items@),
            },
            FetchPayload::Subscriptions(items) => FetchPayloadV::Subscriptions(views(items@)),
            FetchPayload::VmDetail { rg, name, value } => FetchPayloadV::VmDetail {
                rg: rg@,
                name: name@,
                value: value.view_json(),
            },
            FetchPayload::VmssDetail { rg, name, vmss, instances, is_flex } => FetchPayloadV::VmssDetail {
                rg: rg@,
                name: name@,
                vmss: vmss.view_json(),
                instances: views(instances@),
                is_flex: *is_flex,
            },
        }
    }
}

/// What the UI loop receives: a key, a tick, or the outcome of background work.
#[derive(Debug)]
pub enum Event {
    Key(KeyInput),
    Resize,
    Tick,
    FetchOk(FetchPayload),
    FetchErr(String),
    ActionOk(String),
    ActionErr(String),
}

} // verus!
