use azcli::json::Json;
use azcli::tui::actions::{handle_action, handle_event, submit_capacity_prompt, Effect};
use azcli::tui::app::{sort_resources, sort_rgs, Action, App, ResourceSort, RgSort, VmOp, VmssOp, VmssScope};
use azcli::tui::event::{Event, FetchPayload};
use azcli::tui::keys::{dispatch, KeyCode, KeyInput, CONTROL};
use azcli::tui::view::View;

fn s(x: &str) -> Json {
    Json::Str(x.to_string())
}

fn obj(m: Vec<(&str, Json)>) -> Json {
    Json::Object(m.into_iter().map(|(k, v)| (k.to_string(), v)).collect())
}

fn rg(name: &str, loc: &str) -> Json {
    obj(vec![("location", s(loc)), ("name", s(name))])
}

fn names(items: &[Json]) -> Vec<String> {
    items.iter().map(|j| j.str_field("name").unwrap_or("").to_string()).collect()
}

fn started_app() -> App {
    let mut app = App::new("sub-1".to_string());
    app.push_view(View::ResourceGroups);
    app
}

fn key(c: char) -> KeyInput {
    KeyInput { code: KeyCode::Char(c), modifiers: 0 }
}

fn vmss_app() -> App {
    let mut app = started_app();
    app.push_view(View::VmssDetail { rg: "rg1".to_string(), name: "ss".to_string() });
    app.vmss_detail.instances = vec![
        obj(vec![("instanceId", s("0")), ("name", s("ss_0"))]),
        obj(vec![("instanceId", s("1"))]),
    ];
    app
}

#[test]
fn fetched_groups_are_sorted_by_name_ignoring_case() {
    let mut app = started_app();
    let items = vec![rg("beta", "westus"), rg("Alpha", "eastus"), rg("gamma", "eastus")];
    app.apply_fetch(FetchPayload::ResourceGroups(items));
    assert_eq!(names(&app.rg_list.items), vec!["Alpha", "beta", "gamma"]);
    assert!(!app.rg_list.loading);
    assert_eq!(app.rg_list.cursor, 0);
}

#[test]
fn sort_by_location_keeps_name_order_for_ties() {
    let mut items = vec![rg("b", "EastUS"), rg("a", "westus"), rg("c", "eastus"), rg("a2", "eastus")];
    sort_rgs(&mut items, RgSort::Location);
    assert_eq!(names(&items), vec!["a2", "b", "c", "a"]);
}

#[test]
fn sort_is_stable_for_equal_keys() {
    let mut items = vec![
        obj(vec![("name", s("x")), ("tag", s("first"))]),
        obj(vec![("name", s("x")), ("tag", s("second"))]),
    ];
    sort_resources(&mut items, ResourceSort::Type);
    assert_eq!(items[0].str_field("tag"), Some("first"));
    assert_eq!(items[1].str_field("tag"), Some("second"));
}

#[test]
fn cursor_moves_and_stops_at_the_ends() {
    let mut app = started_app();
    app.apply_fetch(FetchPayload::ResourceGroups(vec![rg("a", "x"), rg("b", "x"), rg("c", "x")]));
    handle_action(&mut app, Action::Down);
    handle_action(&mut app, Action::Down);
    handle_action(&mut app, Action::Down);
    assert_eq!(app.rg_list.cursor, 2);
    handle_action(&mut app, Action::PageUp);
    assert_eq!(app.rg_list.cursor, 0);
    handle_action(&mut app, Action::End);
    assert_eq!(app.rg_list.cursor, 2);
    handle_action(&mut app, Action::Home);
    assert_eq!(app.rg_list.cursor, 0);
}

#[test]
fn enter_on_a_group_opens_its_resources() {
    let mut app = started_app();
    app.apply_fetch(FetchPayload::ResourceGroups(vec![rg("web", "x")]));
    let step = handle_action(&mut app, Action::Enter);
    assert!(!step.quit);
    match step.effect {
        Some(Effect::FetchResources { rg }) => assert_eq!(rg, "web"),
        other => panic!("unexpected effect {:?}", other),
    }
    assert_eq!(app.view_stack.len(), 2);
    assert!(app.resource_list.loading);
    let back = handle_action(&mut app, Action::Back);
    assert!(back.effect.is_none());
    assert_eq!(app.view_stack.len(), 1);
}

#[test]
fn back_never_leaves_the_first_screen() {
    let mut app = started_app();
    handle_action(&mut app, Action::Back);
    handle_action(&mut app, Action::Back);
    assert_eq!(app.view_stack.len(), 1);
}

#[test]
fn resources_of_another_group_are_ignored() {
    let mut app = started_app();
    app.push_view(View::ResourcesInGroup { rg: "a".to_string() });
    app.apply_fetch(FetchPayload::ResourcesInGroup { rg: "b".to_string(), items: vec![rg("x", "y")] });
    assert_eq!(app.resource_list.items.len(), 0);
    app.apply_fetch(FetchPayload::ResourcesInGroup { rg: "a".to_string(), items: vec![rg("x", "y")] });
    assert_eq!(app.resource_list.items.len(), 1);
}

#[test]
fn enter_on_a_vm_opens_its_detail() {
    let mut app = started_app();
    app.push_view(View::ResourcesInGroup { rg: "rg1".to_string() });
    app.apply_fetch(FetchPayload::ResourcesInGroup {
        rg: "rg1".to_string(),
        items: vec![obj(vec![("name", s("vm1")), ("type", s("microsoft.compute/VIRTUALMACHINES"))])],
    });
    let step = handle_action(&mut app, Action::Enter);
    match step.effect {
        Some(Effect::FetchVmDetail { rg, name }) => {
            assert_eq!(rg, "rg1");
            assert_eq!(name, "vm1");
        },
        other => panic!("unexpected effect {:?}", other),
    }
}

#[test]
fn confirmed_vm_start_runs_and_blocks_other_actions() {
    let mut app = started_app();
    app.push_view(View::VmDetail { rg: "rg1".to_string(), name: "vm1".to_string() });
    handle_action(&mut app, Action::VmStart);
    assert_eq!(app.pending_confirm.as_ref().unwrap().label(), "start");
    let step = handle_action(&mut app, Action::ConfirmYes);
    match step.effect {
        Some(Effect::VmAction { op, rg, name }) => {
            assert_eq!(op, VmOp::Start);
            assert_eq!(rg, "rg1");
            assert_eq!(name, "vm1");
        },
        other => panic!("unexpected effect {:?}", other),
    }
    assert_eq!(app.action_in_progress.as_deref(), Some("starting vm1"));
    let blocked = handle_action(&mut app, Action::Quit);
    assert!(!blocked.quit);
    let done = handle_event(&mut app, Event::ActionOk("VM started".to_string()));
    assert!(app.action_in_progress.is_none());
    assert_eq!(app.status, "VM started");
    assert!(matches!(done.effect, Some(Effect::FetchVmDetail { .. })));
}

#[test]
fn quit_while_confirming_only_cancels() {
    let mut app = started_app();
    app.push_view(View::VmDetail { rg: "rg1".to_string(), name: "vm1".to_string() });
    handle_action(&mut app, Action::VmDelete);
    let step = handle_action(&mut app, Action::Quit);
    assert!(!step.quit);
    assert!(app.pending_confirm.is_none());
    let step = handle_action(&mut app, Action::Quit);
    assert!(step.quit);
}

#[test]
fn space_twice_restores_the_selection() {
    let mut app = vmss_app();
    handle_action(&mut app, Action::ToggleSelect);
    assert_eq!(app.vmss_detail.selected, vec!["0".to_string()]);
    handle_action(&mut app, Action::ToggleSelect);
    assert!(app.vmss_detail.selected.is_empty());
}

#[test]
fn vmss_delete_needs_a_selection() {
    let mut app = vmss_app();
    handle_action(&mut app, Action::VmssDelete);
    assert_eq!(app.status, "Select at least one instance with Space before X (delete)");
    assert!(app.pending_confirm.is_none());
    handle_action(&mut app, Action::Down);
    handle_action(&mut app, Action::ToggleSelect);
    handle_action(&mut app, Action::VmssDelete);
    let pc = app.pending_confirm.as_ref().unwrap();
    assert_eq!(pc.label(), "DELETE 1 selected instance(s)");
    match &pc.op {
        azcli::tui::app::PendingOp::Vmss { op, scope: VmssScope::Selected(t), .. } => {
            assert_eq!(*op, VmssOp::Delete);
            assert_eq!(t[0].instance_id, "1");
            assert_eq!(t[0].vm_name, "1");
        },
        _ => panic!("expected a scale-set delete"),
    }
}

#[test]
fn vmss_op_without_selection_targets_all() {
    let mut app = vmss_app();
    handle_action(&mut app, Action::VmssRestart);
    assert_eq!(app.pending_confirm.as_ref().unwrap().label(), "restart ALL instances");
}

#[test]
fn capacity_prompt_checks_its_input() {
    let mut app = vmss_app();
    app.vmss_detail.vmss = Some(obj(vec![("sku", obj(vec![("capacity", Json::Number("3".to_string()))]))]));
    handle_action(&mut app, Action::VmssOpenCapacity);
    assert_eq!(app.capacity_prompt.as_ref().unwrap().input, "3");
    app.capacity_prompt.as_mut().unwrap().input = "abc".to_string();
    submit_capacity_prompt(&mut app);
    assert_eq!(app.capacity_prompt.as_ref().unwrap().error.as_deref(), Some("not a number"));
    app.capacity_prompt.as_mut().unwrap().input = " -2 ".to_string();
    submit_capacity_prompt(&mut app);
    assert_eq!(app.capacity_prompt.as_ref().unwrap().error.as_deref(), Some("capacity must be \u{2265} 0"));
    app.capacity_prompt.as_mut().unwrap().input = " 3".to_string();
    submit_capacity_prompt(&mut app);
    assert!(app.capacity_prompt.is_none());
    assert!(app.pending_confirm.is_none());
    handle_action(&mut app, Action::VmssOpenCapacity);
    app.capacity_prompt.as_mut().unwrap().input = "5".to_string();
    submit_capacity_prompt(&mut app);
    assert_eq!(app.pending_confirm.as_ref().unwrap().label(), "scale to capacity 5");
    assert_eq!(app.pending_confirm.as_ref().unwrap().verb_ing(), "scaling");
}

#[test]
fn selecting_the_current_subscription_closes_the_picker() {
    let mut app = started_app();
    let step = handle_action(&mut app, Action::OpenAccountPicker);
    assert!(matches!(step.effect, Some(Effect::FetchSubscriptions)));
    app.apply_fetch(FetchPayload::Subscriptions(vec![
        obj(vec![("id", s("sub-0")), ("name", s("zero"))]),
        obj(vec![("id", s("sub-1")), ("name", s("one"))]),
    ]));
    assert_eq!(app.subs_list.cursor, 1);
    let step = handle_action(&mut app, Action::SelectAccount);
    assert!(step.effect.is_none());
    assert_eq!(app.view_stack.len(), 1);
}

#[test]
fn selecting_another_subscription_asks_for_the_switch() {
    let mut app = started_app();
    handle_action(&mut app, Action::OpenAccountPicker);
    app.apply_fetch(FetchPayload::Subscriptions(vec![obj(vec![
        ("id", s("sub-9")),
        ("name", s("nine")),
        ("tenantId", s("t9")),
    ])]));
    let step = handle_action(&mut app, Action::SelectAccount);
    match step.effect {
        Some(Effect::SwitchSubscription { id, name, tenant_id }) => {
            assert_eq!(id, "sub-9");
            assert_eq!(name, "nine");
            assert_eq!(tenant_id, "t9");
        },
        other => panic!("unexpected effect {:?}", other),
    }
    let e = app.finish_account_switch("sub-9".to_string());
    assert!(matches!(e, Effect::FetchRgs));
    assert_eq!(app.subscription_id, "sub-9");
    assert_eq!(app.view_stack.len(), 1);
}

#[test]
fn row_without_id_reports_it() {
    let mut app = started_app();
    handle_action(&mut app, Action::OpenAccountPicker);
    app.apply_fetch(FetchPayload::Subscriptions(vec![obj(vec![("name", s("nameless"))])]));
    handle_action(&mut app, Action::SelectAccount);
    assert_eq!(app.status, "Selected row has no id");
}

#[test]
fn fetch_error_lands_on_the_shown_list() {
    let mut app = started_app();
    handle_event(&mut app, Event::FetchErr("boom".to_string()));
    assert_eq!(app.rg_list.error.as_deref(), Some("boom"));
    assert!(!app.rg_list.loading);
}

#[test]
fn a_key_first_closes_the_log_overlay() {
    let mut app = started_app();
    app.log_modal = Some("warning".to_string());
    let step = handle_event(&mut app, Event::Key(key('q')));
    assert!(!step.quit);
    assert!(app.log_modal.is_none());
    let step = handle_event(&mut app, Event::Key(key('q')));
    assert!(step.quit);
}

#[test]
fn keys_map_to_actions() {
    let mut app = started_app();
    assert_eq!(dispatch(&app, KeyInput { code: KeyCode::Char('c'), modifiers: CONTROL }), Some(Action::Quit));
    assert_eq!(dispatch(&app, KeyInput { code: KeyCode::Char('d'), modifiers: CONTROL }), Some(Action::PageDown));
    assert_eq!(dispatch(&app, key('d')), None);
    assert_eq!(dispatch(&app, key('G')), Some(Action::End));
    assert_eq!(dispatch(&app, KeyInput { code: KeyCode::F(1), modifiers: 0 }), Some(Action::ToggleHelp));
    app.help_visible = true;
    assert_eq!(dispatch(&app, key('j')), None);
    assert_eq!(dispatch(&app, key('q')), Some(Action::ToggleHelp));
    app.help_visible = false;
    app.push_view(View::AccountPicker);
    assert_eq!(dispatch(&app, key('q')), Some(Action::Back));
    assert_eq!(dispatch(&app, KeyInput { code: KeyCode::Enter, modifiers: 0 }), Some(Action::SelectAccount));
}

#[test]
fn cycle_sort_resorts_the_groups() {
    let mut app = started_app();
    app.apply_fetch(FetchPayload::ResourceGroups(vec![rg("a", "west"), rg("b", "east")]));
    handle_action(&mut app, Action::CycleSort);
    assert_eq!(app.rg_sort, RgSort::Location);
    assert_eq!(names(&app.rg_list.items), vec!["b", "a"]);
    handle_action(&mut app, Action::CycleSort);
    assert_eq!(app.rg_sort, RgSort::Name);
    assert_eq!(names(&app.rg_list.items), vec!["a", "b"]);
}

#[test]
fn vmss_refresh_keeps_only_known_selected_ids() {
    let mut app = vmss_app();
    handle_action(&mut app, Action::ToggleSelect);
    app.apply_fetch(FetchPayload::VmssDetail {
        rg: "rg1".to_string(),
        name: "ss".to_string(),
        vmss: obj(vec![]),
        instances: vec![obj(vec![("instanceId", s("7"))])],
        is_flex: true,
    });
    assert!(app.vmss_detail.selected.is_empty());
    assert!(app.vmss_detail.is_flex);
}

#[test]
fn sort_orders_cycle_back_to_the_start() {
    let start = ResourceSort::Name;
    assert_eq!(start.next(), ResourceSort::Type);
    assert_eq!(start.next().next(), ResourceSort::Location);
    assert_eq!(start.next().next().next(), start);
    assert_eq!(start.label(), "name");
    let rg_start = RgSort::Name;
    assert!(rg_start.next() != rg_start);
    assert_eq!(rg_start.next().next(), rg_start);
}
