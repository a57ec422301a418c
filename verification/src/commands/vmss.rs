use vstd::prelude::*;
use crate::json::{lemma_views, member_views, push_member, views, Json, JsonV};
use crate::tui::ui::field_or;
use super::port::nic_ids_spec;

verus! {

/// The NIC ids of a scale-set instance (`properties.networkProfile.networkInterfaces`).
pub open spec fn instance_nic_ids(inst: JsonV) -> Seq<Seq<char>> {
    match inst.get_path(seq!["properties"@, "networkProfile"@, "networkInterfaces"@]) {
        Some(v) => match v.as_array() {
            Some(a) => nic_ids_spec(a),
            None => seq![],
        },
        None => seq![],
    }
}

/// One instance of `vmss list-instance-connection-info`: its id and name
/// (`?` when missing) and its NIC ids.
pub open spec fn connection_entry_spec(inst: JsonV) -> JsonV {
    let ids = instance_nic_ids(inst);
    JsonV::Object(
        seq![
            ("instanceId"@, JsonV::Str(field_or(inst, "instanceId"@, "?"@))),
            ("name"@, JsonV::Str(field_or(inst, "name"@, "?"@))),
            ("networkInterfaces"@, JsonV::Array(Seq::new(ids.len(), |i: int| JsonV::Str(ids[i])))),
        ],
    )
}

fn nic_id_texts(inst: &Json) -> (r: Vec<Json>)
    ensures
        views(r@) == Seq::new(
            instance_nic_ids(inst.view_json()).len(),
            |i: int| JsonV::Str(instance_nic_ids(inst.view_json())[i]),
        ),
{
    let path = vec!["properties".to_owned(), "networkProfile".to_owned(), "networkInterfaces".to_owned()];
    assert(crate::text::string_views(path@) =~= seq!["properties"@, "networkProfile"@, "networkInterfaces"@]);
    let nics = match inst.array_at(&path) {
        Some(a) => a,
        None => {
            let out: Vec<Json> = Vec::new();
            proof {
                lemma_views(out@);
                assert(views(out@) =~= Seq::<JsonV>::empty());
            }
            return out;
        },
    };
    let ghost nv = views(nics@);
    let ghost ids = instance_nic_ids(inst.view_json());
    proof {
        lemma_views(nics@);
    }
    let mut out: Vec<Json> = Vec::new();
    let mut i: usize = 0;
    while i < nics.len()
        invariant
            i <= nics@.len(),
            nv == views(nics@),
            nv.len() == nics@.len(),
            forall|k: int| 0 <= k < nics@.len() ==> #[trigger] nv[k] == nics@[k].view_json(),
            views(out@) == Seq::new(nic_ids_spec(nv.take(i as int)).len(), |k: int| JsonV::Str(nic_ids_spec(nv.take(i as int))[k])),
        decreases nics@.len() - i,
    {
        proof {
            assert(nv.take(i + 1).drop_last() =~= nv.take(i as int));
            assert(nv.take(i + 1).last() == nv[i as int]);
        }
        let ghost before = out@;
        match nics[i].str_field("id") {
            Some(id) => {
                out.push(Json::Str(id.to_owned()));
                proof {
                    lemma_views(out@);
                    lemma_views(before);
                    let s = nic_ids_spec(nv.take(i + 1));
                    let prev = nic_ids_spec(nv.take(i as int));
                    assert(s =~= prev.push(id@));
                    assert(views(before).len() == prev.len());
                    assert forall|k: int| 0 <= k < s.len() implies views(out@)[k] == JsonV::Str(s[k]) by {
                        if k < before.len() {
                            assert(out@[k] == before[k]);
                            assert(views(before)[k] == JsonV::Str(prev[k]));
                        }
                    }
                    assert(views(out@) =~= Seq::new(s.len(), |k: int| JsonV::Str(s[k])));
                }
            },
            None => {},
        }
        i = i + 1;
    }
    proof {
        assert(nv.take(nics@.len() as int) =~= nv);
    }
    out
}

/// The connection information of each instance, in order.
pub fn connection_info(instances: &Vec<Json>) -> (r: Json)
    ensures
        r.view_json() == JsonV::Array(
            Seq::new(instances@.len(), |i: int| connection_entry_spec(instances@[i].view_json())),
        ),
{
    proof {
        reveal_strlit("?");
    }
    let mut out: Vec<Json> = Vec::new();
    let mut i: usize = 0;
    while i < instances.len()
        invariant
            i <= instances@.len(),
            views(out@) == Seq::new(i as nat, |k: int| connection_entry_spec(instances@[k].view_json())),
        decreases instances@.len() - i,
    {
        let inst = &instances[i];
        let id = match inst.str_field("instanceId") {
            Some(s) => s.to_owned(),
            None => "?".to_owned(),
        };
        let name = match inst.str_field("name") {
            Some(s) => s.to_owned(),
            None => "?".to_owned(),
        };
        let nics = nic_id_texts(inst);
        let ghost nicv = views(nics@);
        let mut m: Vec<(String, Json)> = Vec::new();
        push_member(&mut m, "instanceId", Json::Str(id));
        push_member(&mut m, "name", Json::Str(name));
        push_member(&mut m, "networkInterfaces", Json::Array(nics));
        let ghost before = out@;
        proof {
            assert(member_views(m@) =~= connection_entry_spec(inst.view_json())->Object_0);
        }
        out.push(Json::Object(m));
        proof {
            lemma_views(out@);
            lemma_views(before);
            assert forall|k: int| 0 <= k < i + 1 implies views(out@)[k] == connection_entry_spec(instances@[k].view_json()) by {
                if k < i {
                    assert(out@[k] == before[k]);
                    assert(views(before)[k] == connection_entry_spec(instances@[k].view_json()));
                }
            }
            assert(views(out@) =~= Seq::new((i + 1) as nat, |k: int| connection_entry_spec(instances@[k].view_json())));
        }
        i = i + 1;
    }
    Json::Array(out)
}

} // verus!
