use vstd::prelude::*;
use crate::json::{lemma_views, member_views, push_member, views, Json, JsonV};
use crate::text::{i64_to_string, int_text, split_once, split_once_spec, string_views};
use super::CommandError;

verus! {

/// The optional parts of a run command, as given on the command line.
pub struct RunCommandArgs {
    pub script: Option<String>,
    pub script_uri: Option<String>,
    pub command_id: Option<String>,
    pub parameters: Vec<String>,
    pub protected_parameters: Vec<String>,
    pub run_as_user: Option<String>,
    pub run_as_password: Option<String>,
    pub timeout_in_seconds: Option<i64>,
    pub output_blob_uri: Option<String>,
    pub error_blob_uri: Option<String>,
}

/// A parameter entry: `{"name": k, "value": v}`.
pub open spec fn param_entry(k: Seq<char>, v: Seq<char>) -> JsonV {
    JsonV::Object(seq![("name"@, JsonV::Str(k)), ("value"@, JsonV::Str(v))])
}

/// The entries of the `NAME=value` parameters; one without `=` is left out.
pub open spec fn params_spec(ps: Seq<Seq<char>>) -> Seq<JsonV>
    decreases ps.len(),
{
    if ps.len() == 0 {
        Seq::empty()
    } else {
        let prev = params_spec(ps.drop_last());
        match split_once_spec(ps.last(), '=') {
            Some(kv) => prev.push(param_entry(kv.0, kv.1)),
            None => prev,
        }
    }
}

/// The parameter entries of `NAME=value` arguments.
pub fn parse_params(params: &Vec<String>) -> (r: Vec<Json>)
    ensures
        views(r@) == params_spec(string_views(params@)),
{
    let ghost ps = string_views(params@);
    let mut out: Vec<Json> = Vec::new();
    let mut i: usize = 0;
    while i < params.len()
        invariant
            i <= params@.len(),
            ps == string_views(params@),
            views(out@) == params_spec(ps.take(i as int)),
        decreases params@.len() - i,
    {
        proof {
            assert(ps.take(i + 1).drop_last() =~= ps.take(i as int));
            assert(ps.take(i + 1).last() == params@[i as int]@);
        }
        match split_once(params[i].as_str(), '=') {
            Some((k, v)) => {
                let ghost before = out@;
                let mut m: Vec<(String, Json)> = Vec::new();
                push_member(&mut m, "name", Json::Str(k));
                push_member(&mut m, "value", Json::Str(v));
                out.push(Json::Object(m));
                proof {
                    assert(member_views(m@) =~= seq![("name"@, JsonV::Str(k@)), ("value"@, JsonV::Str(v@))]);
                    lemma_views(out@);
                    lemma_views(before);
                    assert(views(out@) =~= views(before).push(param_entry(k@, v@)));
                }
            },
            None => {},
        }
        i = i + 1;
    }
    proof {
        assert(ps.take(params@.len() as int) =~= ps);
    }
    out
}

/// A member `key: text` when the text is given.
pub open spec fn opt_text_member(key: Seq<char>, o: Option<String>) -> Seq<(Seq<char>, JsonV)> {
    match o {
        Some(s) => seq![(key, JsonV::Str(s@))],
        None => seq![],
    }
}

/// A member `key: [entries]` when some parameter gives an entry.
pub open spec fn params_member(key: Seq<char>, ps: Seq<String>) -> Seq<(Seq<char>, JsonV)> {
    let e = params_spec(string_views(ps));
    if e.len() > 0 {
        seq![(key, JsonV::Array(e))]
    } else {
        seq![]
    }
}

/// The `timeoutInSeconds` member when a timeout is given.
pub open spec fn timeout_member(t: Option<i64>) -> Seq<(Seq<char>, JsonV)> {
    match t {
        Some(n) => seq![("timeoutInSeconds"@, JsonV::Number(int_text(n as int)))],
        None => seq![],
    }
}

/// The members between `asyncExecution` and `source`, in key order.
pub open spec fn middle_members(a: RunCommandArgs) -> Seq<(Seq<char>, JsonV)> {
    opt_text_member("errorBlobUri"@, a.error_blob_uri) + opt_text_member(
        "outputBlobUri"@,
        a.output_blob_uri,
    ) + params_member("parameters"@, a.parameters@) + params_member(
        "protectedParameters"@,
        a.protected_parameters@,
    ) + opt_text_member("runAsPassword"@, a.run_as_password) + opt_text_member("runAsUser"@, a.run_as_user)
}

/// How many of script, script URI and command id are given.
pub open spec fn source_count(a: RunCommandArgs) -> int {
    (if a.script is Some { 1int } else { 0 }) + (if a.script_uri is Some { 1int } else { 0 }) + (
    if a.command_id is Some { 1int } else { 0 })
}

/// The `source` object when exactly one source is given.
pub open spec fn source_spec(a: RunCommandArgs) -> Option<JsonV> {
    match (a.script, a.script_uri, a.command_id) {
        (Some(s), None, None) => Some(JsonV::Object(seq![("script"@, JsonV::Str(s@))])),
        (None, Some(u), None) => Some(JsonV::Object(seq![("scriptUri"@, JsonV::Str(u@))])),
        (None, None, Some(c)) => Some(JsonV::Object(seq![("commandId"@, JsonV::Str(c@))])),
        _ => None,
    }
}

fn push_opt_text(m: &mut Vec<(String, Json)>, key: &str, o: &Option<String>)
    ensures
        member_views(final(m)@) == member_views(old(m)@) + opt_text_member(key@, *o),
{
    match o {
        Some(s) => {
            push_member(m, key, Json::Str(s.clone()));
            assert(member_views(m@) =~= member_views(old(m)@) + opt_text_member(key@, *o));
        },
        None => {
            assert(member_views(m@) =~= member_views(old(m)@) + opt_text_member(key@, *o));
        },
    }
}

fn push_params(m: &mut Vec<(String, Json)>, key: &str, ps: &Vec<String>)
    ensures
        member_views(final(m)@) == member_views(old(m)@) + params_member(key@, ps@),
{
    let e = parse_params(ps);
    if e.len() > 0 {
        proof {
            lemma_views(e@);
        }
        push_member(m, key, Json::Array(e));
    } else {
        proof {
            lemma_views(e@);
        }
    }
    assert(member_views(m@) =~= member_views(old(m)@) + params_member(key@, ps@));
}

fn push_timeout(m: &mut Vec<(String, Json)>, t: Option<i64>)
    ensures
        member_views(final(m)@) == member_views(old(m)@) + timeout_member(t),
{
    match t {
        Some(n) => push_member(m, "timeoutInSeconds", Json::Number(i64_to_string(n))),
        None => {},
    }
    assert(member_views(m@) =~= member_views(old(m)@) + timeout_member(t));
}

fn push_middle(m: &mut Vec<(String, Json)>, a: &RunCommandArgs)
    ensures
        member_views(final(m)@) == member_views(old(m)@) + middle_members(*a),
{
    push_opt_text(m, "errorBlobUri", &a.error_blob_uri);
    push_opt_text(m, "outputBlobUri", &a.output_blob_uri);
    push_params(m, "parameters", &a.parameters);
    push_params(m, "protectedParameters", &a.protected_parameters);
    push_opt_text(m, "runAsPassword", &a.run_as_password);
    push_opt_text(m, "runAsUser", &a.run_as_user);
    assert(member_views(m@) =~= member_views(old(m)@) + middle_members(*a));
}

/// The `source` object, when exactly one source is given.
fn source_object(a: &RunCommandArgs) -> (r: Option<Json>)
    ensures
        match r {
            Some(j) => source_spec(*a) == Some(j.view_json()),
            None => source_spec(*a) is None,
        },
{
    let mut m: Vec<(String, Json)> = Vec::new();
    match (&a.script, &a.script_uri, &a.command_id) {
        (Some(s), None, None) => push_member(&mut m, "script", Json::Str(s.clone())),
        (None, Some(u), None) => push_member(&mut m, "scriptUri", Json::Str(u.clone())),
        (None, None, Some(c)) => push_member(&mut m, "commandId", Json::Str(c.clone())),
        _ => return None,
    }
    proof {
        assert(member_views(m@) =~= source_spec(*a)->0->Object_0);
    }
    Some(Json::Object(m))
}

/// The body that creates a run command on a VM.
pub open spec fn create_body_spec(location: Seq<char>, a: RunCommandArgs, async_execution: bool, source: JsonV) -> JsonV {
    JsonV::Object(
        seq![
            ("location"@, JsonV::Str(location)),
            (
                "properties"@,
                JsonV::Object(
                    seq![("asyncExecution"@, JsonV::Bool(async_execution))] + middle_members(a) + seq![
                        ("source"@, source),
                    ] + timeout_member(a.timeout_in_seconds),
                ),
            ),
        ],
    )
}

/// The body that creates a run command; exactly one source must be given.
pub fn create_body(location: &str, args: &RunCommandArgs, async_execution: bool) -> (r: Result<Json, CommandError>)
    ensures
        match r {
            Ok(b) => match source_spec(*args) {
                Some(src) => b.view_json() == create_body_spec(location@, *args, async_execution, src),
                None => false,
            },
            Err(e) => source_spec(*args) is None && e == CommandError::SourceExactlyOne,
        },
{
    let source = match source_object(args) {
        Some(s) => s,
        None => return Err(CommandError::SourceExactlyOne),
    };
    let ghost sv = source.view_json();
    let mut props: Vec<(String, Json)> = Vec::new();
    push_member(&mut props, "asyncExecution", Json::Bool(async_execution));
    push_middle(&mut props, args);
    push_member(&mut props, "source", source);
    push_timeout(&mut props, args.timeout_in_seconds);
    let mut top: Vec<(String, Json)> = Vec::new();
    push_member(&mut top, "location", Json::Str(location.to_owned()));
    let ghost pv = member_views(props@);
    push_member(&mut top, "properties", Json::Object(props));
    proof {
        assert(pv =~= seq![("asyncExecution"@, JsonV::Bool(async_execution))] + middle_members(*args) + seq![
            ("source"@, sv),
        ] + timeout_member(args.timeout_in_seconds));
        assert(member_views(top@) =~= seq![
            ("location"@, JsonV::Str(location@)),
            ("properties"@, JsonV::Object(pv)),
        ]);
    }
    Ok(Json::Object(top))
}

/// The properties an update sets, in key order.
pub open spec fn update_members(a: RunCommandArgs) -> Seq<(Seq<char>, JsonV)> {
    middle_members(a) + match source_spec(a) {
        Some(src) => seq![("source"@, src)],
        None => seq![],
    } + timeout_member(a.timeout_in_seconds)
}

/// The body that updates a run command: at most one source, and something
/// to change.
pub fn update_body(args: &RunCommandArgs) -> (r: Result<Json, CommandError>)
    ensures
        match r {
            Ok(b) => source_count(*args) <= 1 && update_members(*args).len() > 0 && b.view_json()
                == JsonV::Object(seq![("properties"@, JsonV::Object(update_members(*args)))]),
            Err(e) => if source_count(*args) > 1 {
                e == CommandError::SourceAtMostOne
            } else {
                update_members(*args).len() == 0 && e == CommandError::NoUpdates
            },
        },
{
    let count: u8 = (if args.script.is_some() {
        1u8
    } else {
        0
    }) + (if args.script_uri.is_some() {
        1u8
    } else {
        0
    }) + (if args.command_id.is_some() {
        1u8
    } else {
        0
    });
    if count > 1 {
        return Err(CommandError::SourceAtMostOne);
    }
    let mut props: Vec<(String, Json)> = Vec::new();
    push_middle(&mut props, args);
    let ghost mid = member_views(props@);
    match source_object(args) {
        Some(src) => push_member(&mut props, "source", src),
        None => {},
    }
    let ghost with_src = member_views(props@);
    push_timeout(&mut props, args.timeout_in_seconds);
    proof {
        assert(member_views(props@) =~= update_members(*args));
    }
    if props.len() == 0 {
        proof {
            crate::json::lemma_member_views(props@);
        }
        return Err(CommandError::NoUpdates);
    }
    proof {
        crate::json::lemma_member_views(props@);
    }
    let mut top: Vec<(String, Json)> = Vec::new();
    let ghost pv = member_views(props@);
    push_member(&mut top, "properties", Json::Object(props));
    proof {
        assert(member_views(top@) =~= seq![("properties"@, JsonV::Object(pv))]);
    }
    Ok(Json::Object(top))
}

/// The body of `run-command invoke`: the command id, the parameters and
/// the script lines when there are any.
pub open spec fn invoke_body_spec(command_id: Seq<char>, scripts: Seq<String>, params: Seq<String>) -> JsonV {
    JsonV::Object(
        seq![("commandId"@, JsonV::Str(command_id))] + params_member("parameters"@, params) + if scripts.len()
            > 0 {
            seq![("script"@, JsonV::Array(Seq::new(scripts.len(), |i: int| JsonV::Str(scripts[i]@))))]
        } else {
            seq![]
        },
    )
}

pub fn invoke_body(command_id: &str, scripts: &Vec<String>, parameters: &Vec<String>) -> (r: Json)
    ensures
        r.view_json() == invoke_body_spec(command_id@, scripts@, parameters@),
{
    let mut m: Vec<(String, Json)> = Vec::new();
    push_member(&mut m, "commandId", Json::Str(command_id.to_owned()));
    push_params(&mut m, "parameters", parameters);
    let ghost before = member_views(m@);
    if scripts.len() > 0 {
        let mut lines: Vec<Json> = Vec::new();
        let mut i: usize = 0;
        while i < scripts.len()
            invariant
                i <= scripts@.len(),
                views(lines@) == Seq::new(i as nat, |k: int| JsonV::Str(scripts@[k]@)),
            decreases scripts@.len() - i,
        {
            let ghost b = lines@;
            lines.push(Json::Str(scripts[i].clone()));
            proof {
                lemma_views(lines@);
                lemma_views(b);
                assert forall|k: int| 0 <= k < i + 1 implies views(lines@)[k] == JsonV::Str(scripts@[k]@) by {
                    if k < i {
                        assert(lines@[k] == b[k]);
                        assert(views(b)[k] == JsonV::Str(scripts@[k]@));
                    }
                }
                assert(views(lines@) =~= Seq::new((i + 1) as nat, |k: int| JsonV::Str(scripts@[k]@)));
            }
            i = i + 1;
        }
        push_member(&mut m, "script", Json::Array(lines));
    }
    proof {
        assert(member_views(m@) =~= seq![("commandId"@, JsonV::Str(command_id@))] + params_member(
            "parameters"@,
            parameters@,
        ) + if scripts@.len() > 0 {
            seq![("script"@, JsonV::Array(Seq::new(scripts@.len(), |i: int| JsonV::Str(scripts@[i]@))))]
        } else {
            seq![]
        });
    }
    Json::Object(m)
}

/// What `run-command delete` reports: `{"name": name, "status": "deleted"}`.
pub fn deleted_report(name: &str) -> (r: Json)
    ensures
        r.view_json() == JsonV::Object(seq![("name"@, JsonV::Str(name@)), ("status"@, JsonV::Str("deleted"@))]),
{
    let mut m: Vec<(String, Json)> = Vec::new();
    push_member(&mut m, "name", Json::Str(name.to_owned()));
    push_member(&mut m, "status", Json::Str("deleted".to_owned()));
    proof {
        assert(member_views(m@) =~= seq![("name"@, JsonV::Str(name@)), ("status"@, JsonV::Str("deleted"@))]);
    }
    Json::Object(m)
}

/// Which run commands `run-command list` lists.
#[derive(Debug, PartialEq, Eq)]
pub enum ListTarget {
    Vm { resource_group: String, vm_name: String },
    Builtin { location: String },
}

/// Picks the listing: a VM's run commands (group and VM, no location) or
/// the built-in ones of a location (location only).
pub fn list_target(resource_group: Option<&str>, vm_name: Option<&str>, location: Option<&str>) -> (r: Result<
    ListTarget,
    CommandError,
>)
    ensures
        match (resource_group, vm_name, location) {
            (Some(rg), Some(vm), None) => r matches Ok(ListTarget::Vm { resource_group: g, vm_name: v })
                && g@ == rg@ && v@ == vm@,
            (None, None, Some(loc)) => r matches Ok(ListTarget::Builtin { location: l }) && l@ == loc@,
            _ => r == Err::<ListTarget, CommandError>(CommandError::ListArgs),
        },
{
    match (resource_group, vm_name, location) {
        (Some(rg), Some(vm), None) => Ok(
            ListTarget::Vm { resource_group: rg.to_owned(), vm_name: vm.to_owned() },
        ),
        (None, None, Some(loc)) => Ok(ListTarget::Builtin { location: loc.to_owned() }),
        _ => Err(CommandError::ListArgs),
    }
}

/// Which run command `run-command show` shows.
#[derive(Debug, PartialEq, Eq)]
pub enum ShowTarget {
    Vm { resource_group: String, vm_name: String, name: String },
    Builtin { location: String, command_id: String },
}

/// Picks the run command: one of a VM (group, VM and name) or a built-in
/// one (location and command id), nothing else given.
pub fn show_target(
    resource_group: Option<&str>,
    vm_name: Option<&str>,
    name: Option<&str>,
    location: Option<&str>,
    command_id: Option<&str>,
) -> (r: Result<ShowTarget, CommandError>)
    ensures
        match (resource_group, vm_name, name, location, command_id) {
            (Some(rg), Some(vm), Some(n), None, None) => r matches Ok(
                ShowTarget::Vm { resource_group: g, vm_name: v, name: m },
            ) && g@ == rg@ && v@ == vm@ && m@ == n@,
            (None, None, None, Some(loc), Some(id)) => r matches Ok(
                ShowTarget::Builtin { location: l, command_id: c },
            ) && l@ == loc@ && c@ == id@,
            _ => r == Err::<ShowTarget, CommandError>(CommandError::ShowArgs),
        },
{
    match (resource_group, vm_name, name, location, command_id) {
        (Some(rg), Some(vm), Some(n), None, None) => Ok(
            ShowTarget::Vm { resource_group: rg.to_owned(), vm_name: vm.to_owned(), name: n.to_owned() },
        ),
        (None, None, None, Some(loc), Some(id)) => Ok(
            ShowTarget::Builtin { location: loc.to_owned(), command_id: id.to_owned() },
        ),
        _ => Err(CommandError::ShowArgs),
    }
}

/// The location of a VM document, for a run command created without one.
pub fn run_command_location(vm: &Json) -> (r: Result<String, CommandError>)
    ensures
        match r {
            Ok(l) => vm.view_json().str_field("location"@) == Some(l@),
            Err(e) => vm.view_json().str_field("location"@) is None && e == CommandError::NoVmLocation,
        },
{
    match vm.str_field("location") {
        Some(l) => Ok(l.to_owned()),
        None => Err(CommandError::NoVmLocation),
    }
}

} // verus!
