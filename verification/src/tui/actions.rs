use vstd::prelude::*;
use crate::json::{lemma_views, views, Json, JsonV};
use crate::text::{
    ascii_lower, concat, eq_ignore_ascii_case, i64_to_string, int_text, parse_i64,
    parse_i64_spec, str_eq, string_views, trim, trim_spec,
};
use super::app::{
    list_kind, moved_cursor, opt_json, sort_resources, sort_rgs, vmssop_of, App, ListKind,
    ListState, PendingConfirm, PendingConfirmV, PendingOp, PendingOpV, ResourceSort, RgSort,
    ScopeV, VmDetailState, VmOp, VmssDetailState, VmssInstanceDetailState, VmssOp, VmssScope,
    VmssTarget, CapacityPrompt, targets_view, confirm_verb,
};
use super::rows::{field_or_empty, stably_sorted};
use super::view::{View as Screen, ViewV};
use super::app::Action;
use super::event::Event;
use super::keys::{dispatch, key_action};

verus! {

/// Work the UI asks of the world outside: a load, an operation on Azure, or
/// a change of subscription.
#[derive(Debug)]
pub enum Effect {
    FetchRgs,
    FetchResources { rg: String },
    FetchVmDetail { rg: String, name: String },
    FetchVmssDetail { rg: String, name: String },
    FetchSubscriptions,
    VmAction { op: VmOp, rg: String, name: String },
    VmssAction { op: VmssOp, scope: VmssScope, is_flex: bool, rg: String, name: String },
    VmssScale { rg: String, name: String, capacity: i64 },
    SwitchSubscription { id: String, name: String, tenant_id: String },
}

/// The mathematical value of an [`Effect`].
pub enum EffectV {
    FetchRgs,
    FetchResources { rg: Seq<char> },
    FetchVmDetail { rg: Seq<char>, name: Seq<char> },
    FetchVmssDetail { rg: Seq<char>, name: Seq<char> },
    FetchSubscriptions,
    VmAction { op: VmOp, rg: Seq<char>, name: Seq<char> },
    VmssAction { op: VmssOp, scope: ScopeV, is_flex: bool, rg: Seq<char>, name: Seq<char> },
    VmssScale { rg: Seq<char>, name: Seq<char>, capacity: int },
    SwitchSubscription { id: Seq<char>, name: Seq<char>, tenant_id: Seq<char> },
}

impl Effect {
    pub open spec fn view_effect(&self) -> EffectV {
        match self {
            Effect::FetchRgs => EffectV::FetchRgs,
            Effect::FetchResources { rg } => EffectV::FetchResources { rg: rg@ },
            Effect::FetchVmDetail { rg, name } => EffectV::FetchVmDetail { rg: rg@, name: name@ },
            Effect::FetchVmssDetail { rg, name } => EffectV::FetchVmssDetail { rg: rg@, name: name@ },
            Effect::FetchSubscriptions => EffectV::FetchSubscriptions,
            Effect::VmAction { op, rg, name } => EffectV::VmAction { op: *op, rg: rg@, name: name@ },
            Effect::VmssAction { op, scope, is_flex, rg, name } => EffectV::VmssAction {
                op: *op,
                scope: scope.view_scope(),
                is_flex: *is_flex,
                rg: rg@,
                name: name@,
            },
            Effect::VmssScale { rg, name, capacity } => EffectV::VmssScale {
                rg: rg@,
                name: name@,
                capacity: *capacity as int,
            },
            Effect::SwitchSubscription { id, name, tenant_id } => EffectV::SwitchSubscription {
                id: id@,
                name: name@,
                tenant_id: tenant_id@,
            },
        }
    }
}

/// What handling one action or event leads to: whether to leave the UI,
/// and the outside work to start.
#[derive(Debug)]
pub struct Step {
    pub quit: bool,
    pub effect: Option<Effect>,
}

impl Step {
    pub open spec fn effect_v(&self) -> Option<EffectV> {
        match self.effect {
            Some(e) => Some(e.view_effect()),
            None => None,
        }
    }

    /// Nothing to do.
    pub fn none() -> (r: Step)
        ensures
            !r.quit,
            r.effect is None,
    {
        Step { quit: false, effect: None }
    }

    /// Start `e`.
    pub fn run(e: Effect) -> (r: Step)
        ensures
            !r.quit,
            r.effect == Some(e),
    {
        Step { quit: false, effect: Some(e) }
    }
}

/// A list that was just reset: empty, loading, cursor at the top.
pub open spec fn fresh_list(l: ListState) -> bool {
    l.items@.len() == 0 && l.cursor == 0 && l.loading && l.error is None
}

/// The value of a pending confirmation.
pub open spec fn opt_pending(p: Option<PendingConfirm>) -> Option<PendingConfirmV> {
    match p {
        Some(c) => Some(c.view_pc()),
        None => None,
    }
}

/// The row under the cursor of a list.
pub open spec fn selected_row(l: ListState) -> Option<JsonV> {
    if l.cursor < l.items@.len() {
        Some(l.items@[l.cursor as int].view_json())
    } else {
        None
    }
}

/// The instance under the cursor of the scale-set screen.
pub open spec fn cursor_instance(d: VmssDetailState) -> Option<JsonV> {
    if d.cursor < d.instances@.len() {
        Some(d.instances@[d.cursor as int].view_json())
    } else {
        None
    }
}

/// The resource type of virtual machines.
pub open spec fn vm_type() -> Seq<char> {
    "Microsoft.Compute/virtualMachines"@
}

/// The resource type of scale sets.
pub open spec fn vmss_type() -> Seq<char> {
    "Microsoft.Compute/virtualMachineScaleSets"@
}

/// The (instance id, VM name) targets for the selected instances, in
/// instance order; an instance without a name is named by its id.
pub open spec fn vmss_targets(instances: Seq<JsonV>, sel: Set<Seq<char>>) -> Seq<(Seq<char>, Seq<char>)>
    decreases instances.len(),
{
    if instances.len() == 0 {
        Seq::empty()
    } else {
        let rest = vmss_targets(instances.drop_last(), sel);
        let inst = instances.last();
        match inst.str_field("instanceId"@) {
            Some(id) => if sel.contains(id) {
                rest.push(
                    (
                        id,
                        match inst.str_field("name"@) {
                            Some(n) => n,
                            None => id,
                        },
                    ),
                )
            } else {
                rest
            },
            None => rest,
        }
    }
}

/// The current capacity of a scale set document: `sku.capacity` as an
/// integer, or 0.
pub open spec fn current_capacity(vmss: Option<Json>) -> int {
    match vmss {
        Some(v) => match v.view_json().get_path(seq!["sku"@, "capacity"@]) {
            Some(c) => match c.as_i64() {
                Some(n) => n,
                None => 0,
            },
            None => 0,
        },
        None => 0,
    }
}

impl App {
    /// `new` is `self` with one more screen, `v`, on top.
    pub open spec fn pushed(self, new: App, v: ViewV) -> bool {
        &&& new.view_stack@.len() == self.view_stack@.len() + 1
        &&& new.view_stack@.drop_last() == self.view_stack@
        &&& new.top() == v
    }

    /// `new` is `self` one screen back (the first screen stays).
    pub open spec fn popped(self, new: App) -> bool {
        &&& new == (App { view_stack: new.view_stack, ..self })
        &&& new.view_stack@ == if self.view_stack@.len() > 1 {
            self.view_stack@.drop_last()
        } else {
            self.view_stack@
        }
    }

    pub open spec fn with_vmss_cursor(self, c: usize) -> App {
        App { vmss_detail: VmssDetailState { cursor: c, ..self.vmss_detail }, ..self }
    }

    /// The cursor of the shown list moved by `delta` rows, clamped.
    pub open spec fn list_moved(self, new: App, delta: int) -> bool {
        match list_kind(self.top()) {
            Some(k) => new == self.with_list(
                k,
                ListState { cursor: moved_cursor(self.list_of(k), delta), ..self.list_of(k) },
            ),
            None => new == self,
        }
    }

    pub open spec fn went_up(self, new: App) -> bool {
        if self.top() is VmssDetail {
            new == self.with_vmss_cursor(
                if self.vmss_detail.cursor > 0 {
                    (self.vmss_detail.cursor - 1) as usize
                } else {
                    self.vmss_detail.cursor
                },
            )
        } else {
            self.list_moved(new, -1)
        }
    }

    pub open spec fn went_down(self, new: App) -> bool {
        if self.top() is VmssDetail {
            new == self.with_vmss_cursor(
                if self.vmss_detail.cursor + 1 < self.vmss_detail.instances@.len() {
                    (self.vmss_detail.cursor + 1) as usize
                } else {
                    self.vmss_detail.cursor
                },
            )
        } else {
            self.list_moved(new, 1)
        }
    }

    pub open spec fn went_home(self, new: App) -> bool {
        if self.top() is VmssDetail {
            new == self.with_vmss_cursor(0)
        } else {
            match list_kind(self.top()) {
                Some(k) => new == self.with_list(k, ListState { cursor: 0, ..self.list_of(k) }),
                None => new == self,
            }
        }
    }

    pub open spec fn went_end(self, new: App) -> bool {
        if self.top() is VmssDetail {
            if self.vmss_detail.instances@.len() > 0 {
                new == self.with_vmss_cursor((self.vmss_detail.instances@.len() - 1) as usize)
            } else {
                new == self
            }
        } else {
            match list_kind(self.top()) {
                Some(k) => if self.list_of(k).items@.len() > 0 {
                    new == self.with_list(
                        k,
                        ListState {
                            cursor: (self.list_of(k).items@.len() - 1) as usize,
                            ..self.list_of(k)
                        },
                    )
                } else {
                    new == self
                },
                None => new == self,
            }
        }
    }
}

impl App {
    /// Moves the cursor of the shown list.
    fn move_list(&mut self, delta: i64)
        requires
            old(self).wf(),
        ensures
            final(self).wf(),
            old(self).list_moved(*final(self), delta as int),
    {
        match self.current_view() {
            Screen::ResourceGroups => self.rg_list.move_by(delta),
            Screen::ResourcesInGroup { .. } => self.resource_list.move_by(delta),
            Screen::AccountPicker => self.subs_list.move_by(delta),
            _ => {},
        }
    }

    fn up_action(&mut self)
        requires
            old(self).wf(),
        ensures
            final(self).wf(),
            old(self).went_up(*final(self)),
    {
        if let Screen::VmssDetail { .. } = self.current_view() {
            if self.vmss_detail.cursor > 0 {
                self.vmss_detail.cursor = self.vmss_detail.cursor - 1;
            }
            return;
        }
        self.move_list(-1);
    }

    fn down_action(&mut self)
        requires
            old(self).wf(),
        ensures
            final(self).wf(),
            old(self).went_down(*final(self)),
    {
        if let Screen::VmssDetail { .. } = self.current_view() {
            if self.vmss_detail.cursor < self.vmss_detail.instances.len()
                && self.vmss_detail.cursor + 1 < self.vmss_detail.instances.len() {
                self.vmss_detail.cursor = self.vmss_detail.cursor + 1;
            }
            return;
        }
        self.move_list(1);
    }

    fn home_action(&mut self)
        requires
            old(self).wf(),
        ensures
            final(self).wf(),
            old(self).went_home(*final(self)),
    {
        match self.current_view() {
            Screen::VmssDetail { .. } => self.vmss_detail.cursor = 0,
            Screen::ResourceGroups => self.rg_list.cursor = 0,
            Screen::ResourcesInGroup { .. } => self.resource_list.cursor = 0,
            Screen::AccountPicker => self.subs_list.cursor = 0,
            _ => {},
        }
    }

    fn end_action(&mut self)
        requires
            old(self).wf(),
        ensures
            final(self).wf(),
            old(self).went_end(*final(self)),
    {
        match self.current_view() {
            Screen::VmssDetail { .. } => {
                if self.vmss_detail.instances.len() > 0 {
                    self.vmss_detail.cursor = self.vmss_detail.instances.len() - 1;
                }
            },
            Screen::ResourceGroups => {
                if self.rg_list.items.len() > 0 {
                    self.rg_list.cursor = self.rg_list.items.len() - 1;
                }
            },
            Screen::ResourcesInGroup { .. } => {
                if self.resource_list.items.len() > 0 {
                    self.resource_list.cursor = self.resource_list.items.len() - 1;
                }
            },
            Screen::AccountPicker => {
                if self.subs_list.items.len() > 0 {
                    self.subs_list.cursor = self.subs_list.items.len() - 1;
                }
            },
            _ => {},
        }
    }
}

} // verus!

verus! {

impl App {
    /// Enter: open the group, VM, scale set or instance under the cursor.
    pub open spec fn entered(self, new: App, e: Option<EffectV>) -> bool {
        match self.top() {
            ViewV::ResourceGroups => match selected_row(self.rg_list) {
                Some(row) => match row.str_field("name"@) {
                    Some(name) => {
                        &&& new == (App {
                            view_stack: new.view_stack,
                            resource_list: new.resource_list,
                            ..self
                        })
                        &&& fresh_list(new.resource_list)
                        &&& self.pushed(new, ViewV::ResourcesInGroup { rg: name })
                        &&& e == Some(EffectV::FetchResources { rg: name })
                    },
                    None => new == self && e is None,
                },
                None => new == self && e is None,
            },
            ViewV::ResourcesInGroup { rg } => match selected_row(self.resource_list) {
                Some(row) => match row.str_field("name"@) {
                    Some(name) => {
                        let ty = ascii_lower(field_or_empty(row, "type"@));
                        if ty == ascii_lower(vm_type()) {
                            &&& new == (App {
                                view_stack: new.view_stack,
                                vm_detail: new.vm_detail,
                                ..self
                            })
                            &&& new.vm_detail.value is None && new.vm_detail.loading
                                && new.vm_detail.error is None
                            &&& self.pushed(new, ViewV::VmDetail { rg, name })
                            &&& e == Some(EffectV::FetchVmDetail { rg, name })
                        } else if ty == ascii_lower(vmss_type()) {
                            &&& new == (App {
                                view_stack: new.view_stack,
                                vmss_detail: new.vmss_detail,
                                ..self
                            })
                            &&& new.vmss_detail.vmss is None && new.vmss_detail.instances@.len() == 0
                                && new.vmss_detail.cursor == 0 && new.vmss_detail.selected@.len() == 0
                                && !new.vmss_detail.is_flex && new.vmss_detail.loading
                                && new.vmss_detail.error is None
                            &&& self.pushed(new, ViewV::VmssDetail { rg, name })
                            &&& e == Some(EffectV::FetchVmssDetail { rg, name })
                        } else {
                            new == self && e is None
                        }
                    },
                    None => new == self && e is None,
                },
                None => new == self && e is None,
            },
            ViewV::VmssDetail { rg, name } => match cursor_instance(self.vmss_detail) {
                Some(inst) => match inst.str_field("instanceId"@) {
                    Some(id) => {
                        &&& new == (App {
                            view_stack: new.view_stack,
                            vmss_instance_detail: new.vmss_instance_detail,
                            ..self
                        })
                        &&& opt_json(new.vmss_instance_detail.instance) == Some(inst)
                        &&& new.vmss_instance_detail.error is None
                        &&& self.pushed(
                            new,
                            ViewV::VmssInstanceDetail { rg, vmss: name, instance_id: id },
                        )
                        &&& e is None
                    },
                    None => new == self && e is None,
                },
                None => new == self && e is None,
            },
            _ => new == self && e is None,
        }
    }

    /// Back: leave the screen; on a scale set with a selection, drop the
    /// selection first.
    pub open spec fn went_back(self, new: App) -> bool {
        match self.top() {
            ViewV::ResourceGroups => new == self,
            ViewV::VmssDetail { .. } => if self.vmss_detail.selected@.len() > 0 {
                &&& new == (App {
                    vmss_detail: VmssDetailState { selected: new.vmss_detail.selected, ..self.vmss_detail },
                    ..self
                })
                &&& new.vmss_detail.selected@.len() == 0
            } else {
                self.popped(new)
            },
            _ => self.popped(new),
        }
    }

    /// Refresh: mark the shown data as loading and load it again.
    pub open spec fn refreshed(self, new: App, e: Option<EffectV>) -> bool {
        match self.top() {
            ViewV::ResourceGroups => {
                &&& new == (App {
                    rg_list: ListState { loading: true, error: None, ..self.rg_list },
                    ..self
                })
                &&& e == Some(EffectV::FetchRgs)
            },
            ViewV::ResourcesInGroup { rg } => {
                &&& new == (App {
                    resource_list: ListState { loading: true, error: None, ..self.resource_list },
                    ..self
                })
                &&& e == Some(EffectV::FetchResources { rg })
            },
            ViewV::VmDetail { rg, name } => {
                &&& new == (App {
                    vm_detail: VmDetailState { loading: true, error: None, ..self.vm_detail },
                    ..self
                })
                &&& e == Some(EffectV::FetchVmDetail { rg, name })
            },
            ViewV::VmssDetail { rg, name } => {
                &&& new == (App {
                    vmss_detail: VmssDetailState { loading: true, error: None, ..self.vmss_detail },
                    ..self
                })
                &&& e == Some(EffectV::FetchVmssDetail { rg, name })
            },
            ViewV::VmssInstanceDetail { rg, vmss, .. } => {
                &&& new == (App {
                    vmss_detail: VmssDetailState { loading: true, ..self.vmss_detail },
                    ..self
                })
                &&& e == Some(EffectV::FetchVmssDetail { rg, name: vmss })
            },
            ViewV::AccountPicker => {
                &&& new == (App { subs_list: new.subs_list, ..self })
                &&& fresh_list(new.subs_list)
                &&& e == Some(EffectV::FetchSubscriptions)
            },
        }
    }

    /// Opens the subscription picker, loading the subscriptions unless
    /// they are there already or their load failed.
    pub open spec fn picker_opened(self, new: App, e: Option<EffectV>) -> bool {
        &&& self.pushed(new, ViewV::AccountPicker)
        &&& if self.subs_list.items@.len() == 0 && self.subs_list.error is None {
            &&& new == (App { view_stack: new.view_stack, subs_list: new.subs_list, ..self })
            &&& fresh_list(new.subs_list)
            &&& e == Some(EffectV::FetchSubscriptions)
        } else {
            &&& new == (App { view_stack: new.view_stack, ..self })
            &&& e is None
        }
    }

    /// Selecting a subscription: the same one closes the picker, another
    /// one asks for the switch.
    pub open spec fn account_selected(self, new: App, e: Option<EffectV>) -> bool {
        match selected_row(self.subs_list) {
            Some(row) => match row.str_field("id"@) {
                Some(id) => if id == self.subscription_id@ {
                    self.popped(new) && e is None
                } else {
                    &&& new == self
                    &&& e == Some(
                        EffectV::SwitchSubscription {
                            id,
                            name: field_or_empty(row, "name"@),
                            tenant_id: field_or_empty(row, "tenantId"@),
                        },
                    )
                },
                None => {
                    &&& new == (App { status: new.status, ..self })
                    &&& new.status@ == "Selected row has no id"@
                    &&& e is None
                },
            },
            None => new == self && e is None,
        }
    }
}

impl App {
    fn enter_action(&mut self) -> (r: Option<Effect>)
        requires
            old(self).wf(),
        ensures
            final(self).wf(),
            old(self).entered(*final(self), match r {
                Some(e) => Some(e.view_effect()),
                None => None,
            }),
    {
        proof {
            reveal_strlit("name");
            reveal_strlit("type");
            reveal_strlit("instanceId");
            reveal_strlit("Microsoft.Compute/virtualMachines");
            reveal_strlit("Microsoft.Compute/virtualMachineScaleSets");
        }
        let top = self.current_view().duplicate();
        match top {
            Screen::ResourceGroups => {
                let name = match self.rg_list.selected() {
                    Some(sel) => match sel.str_field("name") {
                        Some(n) => n.to_owned(),
                        None => return None,
                    },
                    None => return None,
                };
                self.resource_list = ListState::new();
                self.push_view(Screen::ResourcesInGroup { rg: name.clone() });
                Some(Effect::FetchResources { rg: name })
            },
            Screen::ResourcesInGroup { rg } => {
                let (ty, name) = match self.resource_list.selected() {
                    Some(sel) => {
                        let ty = match sel.str_field("type") {
                            Some(t) => t.to_owned(),
                            None => String::new(),
                        };
                        match sel.str_field("name") {
                            Some(n) => (ty, n.to_owned()),
                            None => return None,
                        }
                    },
                    None => return None,
                };
                if eq_ignore_ascii_case(ty.as_str(), "Microsoft.Compute/virtualMachines") {
                    self.vm_detail = VmDetailState::new();
                    self.push_view(Screen::VmDetail { rg: rg.clone(), name: name.clone() });
                    Some(Effect::FetchVmDetail { rg, name })
                } else if eq_ignore_ascii_case(ty.as_str(), "Microsoft.Compute/virtualMachineScaleSets") {
                    self.vmss_detail = VmssDetailState {
                        vmss: None,
                        instances: Vec::new(),
                        cursor: 0,
                        selected: Vec::new(),
                        is_flex: false,
                        loading: true,
                        error: None,
                    };
                    self.push_view(Screen::VmssDetail { rg: rg.clone(), name: name.clone() });
                    Some(Effect::FetchVmssDetail { rg, name })
                } else {
                    None
                }
            },
            Screen::VmssDetail { rg, name } => {
                if self.vmss_detail.cursor >= self.vmss_detail.instances.len() {
                    return None;
                }
                let inst = self.vmss_detail.instances[self.vmss_detail.cursor].deep_clone();
                let id = match inst.str_field("instanceId") {
                    Some(i) => i.to_owned(),
                    None => return None,
                };
                self.vmss_instance_detail = VmssInstanceDetailState { instance: Some(inst), error: None };
                self.push_view(Screen::VmssInstanceDetail { rg, vmss: name, instance_id: id });
                None
            },
            _ => None,
        }
    }

    fn back_action(&mut self)
        requires
            old(self).wf(),
        ensures
            final(self).wf(),
            old(self).went_back(*final(self)),
    {
        match self.current_view() {
            Screen::ResourceGroups => {},
            Screen::VmssDetail { .. } => {
                if self.vmss_detail.selected.len() > 0 {
                    self.vmss_detail.selected = Vec::new();
                    assert(string_views(self.vmss_detail.selected@) =~= Seq::<Seq<char>>::empty());
                } else {
                    self.pop_view();
                }
            },
            _ => self.pop_view(),
        }
    }

    fn refresh_action(&mut self) -> (r: Effect)
        requires
            old(self).wf(),
        ensures
            final(self).wf(),
            old(self).refreshed(*final(self), Some(r.view_effect())),
    {
        let top = self.current_view().duplicate();
        match top {
            Screen::ResourceGroups => {
                self.rg_list.loading = true;
                self.rg_list.error = None;
                Effect::FetchRgs
            },
            Screen::ResourcesInGroup { rg } => {
                self.resource_list.loading = true;
                self.resource_list.error = None;
                Effect::FetchResources { rg }
            },
            Screen::VmDetail { rg, name } => {
                self.vm_detail.loading = true;
                self.vm_detail.error = None;
                Effect::FetchVmDetail { rg, name }
            },
            Screen::VmssDetail { rg, name } => {
                self.vmss_detail.loading = true;
                self.vmss_detail.error = None;
                Effect::FetchVmssDetail { rg, name }
            },
            Screen::VmssInstanceDetail { rg, vmss, .. } => {
                self.vmss_detail.loading = true;
                Effect::FetchVmssDetail { rg, name: vmss }
            },
            Screen::AccountPicker => {
                self.subs_list = ListState::new();
                Effect::FetchSubscriptions
            },
        }
    }

    fn open_account_picker(&mut self) -> (r: Option<Effect>)
        requires
            old(self).wf(),
        ensures
            final(self).wf(),
            old(self).picker_opened(*final(self), match r {
                Some(e) => Some(e.view_effect()),
                None => None,
            }),
    {
        self.push_view(Screen::AccountPicker);
        if self.subs_list.items.len() == 0 && self.subs_list.error.is_none() {
            self.subs_list = ListState::new();
            Some(Effect::FetchSubscriptions)
        } else {
            None
        }
    }

    fn select_account(&mut self) -> (r: Option<Effect>)
        requires
            old(self).wf(),
        ensures
            final(self).wf(),
            old(self).account_selected(*final(self), match r {
                Some(e) => Some(e.view_effect()),
                None => None,
            }),
    {
        proof {
            reveal_strlit("id");
            reveal_strlit("name");
            reveal_strlit("tenantId");
        }
        let (id, name, tenant_id) = match self.subs_list.selected() {
            Some(row) => {
                let id = match row.str_field("id") {
                    Some(i) => i.to_owned(),
                    None => {
                        self.status = "Selected row has no id".to_owned();
                        return None;
                    },
                };
                let name = match row.str_field("name") {
                    Some(n) => n.to_owned(),
                    None => String::new(),
                };
                let tenant_id = match row.str_field("tenantId") {
                    Some(t) => t.to_owned(),
                    None => String::new(),
                };
                (id, name, tenant_id)
            },
            None => return None,
        };
        if str_eq(id.as_str(), self.subscription_id.as_str()) {
            self.pop_view();
            return None;
        }
        Some(Effect::SwitchSubscription { id, name, tenant_id })
    }
}

} // verus!

verus! {

/// The name of the instance on the instance screen, or its id.
pub open spec fn instance_name(inst: Option<Json>, id: Seq<char>) -> Seq<char> {
    match inst {
        Some(i) => match i.view_json().str_field("name"@) {
            Some(n) => n,
            None => id,
        },
        None => id,
    }
}

/// The text shown when a delete is asked for with nothing selected.
pub open spec fn select_first_text() -> Seq<char> {
    "Select at least one instance with Space before X (delete)"@
}

impl App {
    /// Space on a scale set: select the instance under the cursor, or
    /// unselect it when it was selected.
    pub open spec fn selection_toggled(self, new: App) -> bool {
        if self.top() is VmssDetail {
            match cursor_instance(self.vmss_detail) {
                Some(inst) => match inst.str_field("instanceId"@) {
                    Some(id) => {
                        &&& new == (App {
                            vmss_detail: VmssDetailState {
                                selected: new.vmss_detail.selected,
                                ..self.vmss_detail
                            },
                            ..self
                        })
                        &&& new.vmss_detail.selected_set() == if self.vmss_detail.selected_set().contains(
                            id,
                        ) {
                            self.vmss_detail.selected_set().remove(id)
                        } else {
                            self.vmss_detail.selected_set().insert(id)
                        }
                    },
                    None => new == self,
                },
                None => new == self,
            }
        } else {
            new == self
        }
    }

    pub open spec fn selection_cleared(self, new: App) -> bool {
        &&& new == (App {
            vmss_detail: VmssDetailState { selected: new.vmss_detail.selected, ..self.vmss_detail },
            ..self
        })
        &&& new.vmss_detail.selected@.len() == 0
    }

    /// The next sort order for the shown list, applied, cursor at the top.
    pub open spec fn sort_cycled(self, new: App) -> bool {
        match self.top() {
            ViewV::ResourceGroups => {
                &&& new == (App {
                    rg_sort: self.rg_sort.following(),
                    rg_list: ListState { items: new.rg_list.items, cursor: 0, ..self.rg_list },
                    ..self
                })
                &&& stably_sorted(
                    views(self.rg_list.items@),
                    self.rg_sort.following().field(),
                    views(new.rg_list.items@),
                )
            },
            ViewV::ResourcesInGroup { .. } => {
                &&& new == (App {
                    resource_sort: self.resource_sort.following(),
                    resource_list: ListState {
                        items: new.resource_list.items,
                        cursor: 0,
                        ..self.resource_list
                    },
                    ..self
                })
                &&& stably_sorted(
                    views(self.resource_list.items@),
                    self.resource_sort.following().field(),
                    views(new.resource_list.items@),
                )
            },
            _ => new == self,
        }
    }

    /// `new` differs from `self` only in asking to confirm `p`.
    pub open spec fn asks(self, new: App, p: PendingConfirmV) -> bool {
        &&& new == (App { pending_confirm: new.pending_confirm, ..self })
        &&& opt_pending(new.pending_confirm) == Some(p)
    }

    /// A power operation asked on the VM or instance screen waits for
    /// confirmation.
    pub open spec fn vm_op_requested(self, new: App, op: VmOp) -> bool {
        match self.top() {
            ViewV::VmDetail { rg, name } => self.asks(
                new,
                PendingConfirmV { op: PendingOpV::Vm(op), rg, name },
            ),
            ViewV::VmssInstanceDetail { rg, vmss, instance_id } => self.asks(
                new,
                PendingConfirmV {
                    op: PendingOpV::Vmss {
                        op: vmssop_of(op),
                        scope: ScopeV::Selected(
                            seq![(instance_id, instance_name(self.vmss_instance_detail.instance, instance_id))],
                        ),
                        is_flex: self.vmss_detail.is_flex,
                    },
                    rg,
                    name: vmss,
                },
            ),
            _ => new == self,
        }
    }

    /// The instances an operation on the scale-set screen targets.
    pub open spec fn selected_targets(self) -> Seq<(Seq<char>, Seq<char>)> {
        vmss_targets(views(self.vmss_detail.instances@), self.vmss_detail.selected_set())
    }

    /// A scale-set operation waits for confirmation: on all instances when
    /// none is selected, else on the selected ones.
    pub open spec fn vmss_op_requested(self, new: App, op: VmssOp) -> bool {
        match self.top() {
            ViewV::VmssDetail { rg, name } => if self.vmss_detail.selected@.len() == 0 {
                self.asks(
                    new,
                    PendingConfirmV {
                        op: PendingOpV::Vmss { op, scope: ScopeV::All, is_flex: self.vmss_detail.is_flex },
                        rg,
                        name,
                    },
                )
            } else if self.selected_targets().len() == 0 {
                new == self
            } else {
                self.asks(
                    new,
                    PendingConfirmV {
                        op: PendingOpV::Vmss {
                            op,
                            scope: ScopeV::Selected(self.selected_targets()),
                            is_flex: self.vmss_detail.is_flex,
                        },
                        rg,
                        name,
                    },
                )
            },
            _ => new == self,
        }
    }

    /// Deleting instances needs a selection; the whole set is never deleted
    /// from here.
    pub open spec fn vmss_delete_requested(self, new: App) -> bool {
        match self.top() {
            ViewV::VmssDetail { rg, name } => if self.vmss_detail.selected@.len() == 0 {
                &&& new == (App { status: new.status, ..self })
                &&& new.status@ == select_first_text()
            } else if self.selected_targets().len() == 0 {
                new == self
            } else {
                self.asks(
                    new,
                    PendingConfirmV {
                        op: PendingOpV::Vmss {
                            op: VmssOp::Delete,
                            scope: ScopeV::Selected(self.selected_targets()),
                            is_flex: self.vmss_detail.is_flex,
                        },
                        rg,
                        name,
                    },
                )
            },
            _ => new == self,
        }
    }

    /// The capacity prompt opens on a scale set, filled with its capacity.
    pub open spec fn capacity_prompt_opened(self, new: App) -> bool {
        match self.top() {
            ViewV::VmssDetail { rg, name } => {
                &&& new == (App { capacity_prompt: new.capacity_prompt, ..self })
                &&& match new.capacity_prompt {
                    Some(p) => {
                        &&& p.rg@ == rg
                        &&& p.vmss@ == name
                        &&& p.current_capacity == current_capacity(self.vmss_detail.vmss)
                        &&& p.input@ == int_text(current_capacity(self.vmss_detail.vmss))
                        &&& p.error is None
                    },
                    None => false,
                }
            },
            _ => new == self,
        }
    }

    /// `y` on a pending confirmation: the operation starts and is shown as
    /// in progress.
    pub open spec fn confirmed(self, new: App, e: Option<EffectV>) -> bool {
        match self.pending_confirm {
            Some(pc) => {
                &&& new == (App {
                    pending_confirm: None,
                    action_in_progress: new.action_in_progress,
                    ..self
                })
                &&& match new.action_in_progress {
                    Some(a) => a@ == confirm_verb(pc.op.view_op()) + " "@ + pc.name@,
                    None => false,
                }
                &&& e == Some(
                    match pc.op.view_op() {
                        PendingOpV::Vm(op) => EffectV::VmAction { op, rg: pc.rg@, name: pc.name@ },
                        PendingOpV::Vmss { op, scope, is_flex } => EffectV::VmssAction {
                            op,
                            scope,
                            is_flex,
                            rg: pc.rg@,
                            name: pc.name@,
                        },
                        PendingOpV::VmssScale { capacity } => EffectV::VmssScale {
                            rg: pc.rg@,
                            name: pc.name@,
                            capacity,
                        },
                    },
                )
            },
            None => new == self && e is None,
        }
    }

    /// Submitting the capacity prompt: a new capacity waits for
    /// confirmation, the same one closes the prompt, bad input is reported.
    pub open spec fn capacity_submitted(self, new: App) -> bool {
        match self.capacity_prompt {
            None => new == self,
            Some(p) => match parse_i64_spec(trim_spec(p.input@)) {
                Some(n) => if n < 0 {
                    self.prompt_error(new, p, "capacity must be \u{2265} 0"@)
                } else if n == p.current_capacity {
                    new == (App { capacity_prompt: None, ..self })
                } else {
                    &&& new == (App {
                        capacity_prompt: None,
                        pending_confirm: new.pending_confirm,
                        ..self
                    })
                    &&& opt_pending(new.pending_confirm) == Some(
                        PendingConfirmV {
                            op: PendingOpV::VmssScale { capacity: n },
                            rg: p.rg@,
                            name: p.vmss@,
                        },
                    )
                },
                None => self.prompt_error(new, p, "not a number"@),
            },
        }
    }

    /// The prompt `p` stays open with `msg` as its error.
    pub open spec fn prompt_error(self, new: App, p: CapacityPrompt, msg: Seq<char>) -> bool {
        &&& new == (App { capacity_prompt: new.capacity_prompt, ..self })
        &&& match new.capacity_prompt {
            Some(q) => {
                &&& q == (CapacityPrompt { error: q.error, ..p })
                &&& match q.error {
                    Some(m) => m@ == msg,
                    None => false,
                }
            },
            None => false,
        }
    }
}

/// Whether `id` is among the selected ids.
fn contains_id(selected: &Vec<String>, id: &str) -> (r: bool)
    ensures
        r == string_views(selected@).to_set().contains(id@),
{
    let mut i: usize = 0;
    while i < selected.len()
        invariant
            i <= selected.len(),
            forall|k: int| 0 <= k < i ==> selected@[k]@ != id@,
        decreases selected.len() - i,
    {
        if str_eq(selected[i].as_str(), id) {
            assert(string_views(selected@)[i as int] == id@);
            return true;
        }
        i = i + 1;
    }
    proof {
        if string_views(selected@).contains(id@) {
            let k = choose|k: int| 0 <= k < selected@.len() && string_views(selected@)[k] == id@;
            assert(selected@[k]@ == id@);
        }
    }
    false
}

/// Adds `id` to the selection, or removes it when it is there.
fn toggle_id(selected: &mut Vec<String>, id: String)
    requires
        string_views(old(selected)@).no_duplicates(),
    ensures
        string_views(final(selected)@).no_duplicates(),
        string_views(final(selected)@).to_set() == if string_views(old(selected)@).to_set().contains(id@) {
            string_views(old(selected)@).to_set().remove(id@)
        } else {
            string_views(old(selected)@).to_set().insert(id@)
        },
{
    let ghost before = string_views(selected@);
    let mut i: usize = 0;
    while i < selected.len() && !str_eq(selected[i].as_str(), id.as_str())
        invariant
            i <= selected.len(),
            before == string_views(selected@),
            forall|k: int| 0 <= k < i ==> before[k] != id@,
        decreases selected.len() - i,
    {
        i = i + 1;
    }
    if i < selected.len() {
        selected.remove(i);
        proof {
            let after = string_views(selected@);
            assert(after =~= before.remove(i as int));
            assert(before[i as int] == id@);
            assert forall|x: Seq<char>| after.contains(x) <==> (before.contains(x) && x != id@) by {
                if after.contains(x) {
                    let m = choose|m: int| 0 <= m < after.len() && after[m] == x;
                    if m < i {
                        assert(before[m] == x);
                    } else {
                        assert(before[m + 1] == x);
                    }
                }
                if before.contains(x) && x != id@ {
                    let m = choose|m: int| 0 <= m < before.len() && before[m] == x;
                    if m < i {
                        assert(after[m] == x);
                    } else {
                        assert(after[m - 1] == x);
                    }
                }
            }
            assert(after.to_set() =~= before.to_set().remove(id@));
            assert forall|a: int, b: int| 0 <= a < b < after.len() implies after[a] != after[b] by {
                if b < i {
                } else if a < i {
                    assert(before[a] != before[b + 1]);
                } else {
                    assert(before[a + 1] != before[b + 1]);
                }
            }
        }
    } else {
        selected.push(id);
        proof {
            let after = string_views(selected@);
            assert(after =~= before.push(id@));
            assert(!before.contains(id@));
            assert forall|x: Seq<char>| after.contains(x) <==> (before.contains(x) || x == id@) by {
                if after.contains(x) {
                    let m = choose|m: int| 0 <= m < after.len() && after[m] == x;
                    if m < before.len() {
                        assert(before[m] == x);
                    }
                }
                if before.contains(x) {
                    let m = choose|m: int| 0 <= m < before.len() && before[m] == x;
                    assert(after[m] == x);
                }
                if x == id@ {
                    assert(after[before.len() as int] == x);
                }
            }
            assert(after.to_set() =~= before.to_set().insert(id@));
        }
    }
}

/// The targets for the selected instances, in instance order.
fn collect_targets(instances: &Vec<Json>, selected: &Vec<String>) -> (r: Vec<VmssTarget>)
    ensures
        targets_view(r@) == vmss_targets(views(instances@), string_views(selected@).to_set()),
{
    proof {
        lemma_views(instances@);
        reveal_strlit("instanceId");
        reveal_strlit("name");
    }
    let ghost rows = views(instances@);
    let ghost sel = string_views(selected@).to_set();
    let mut out: Vec<VmssTarget> = Vec::new();
    let mut i: usize = 0;
    while i < instances.len()
        invariant
            i <= instances.len(),
            rows == views(instances@),
            rows.len() == instances.len(),
            forall|k: int| 0 <= k < instances.len() ==> #[trigger] rows[k] == instances@[k].view_json(),
            sel == string_views(selected@).to_set(),
            targets_view(out@) == vmss_targets(rows.take(i as int), sel),
        decreases instances.len() - i,
    {
        let ghost t = rows.take(i + 1);
        assert(t.drop_last() =~= rows.take(i as int));
        assert(t.last() == rows[i as int]);
        let inst = &instances[i];
        match inst.str_field("instanceId") {
            Some(id) => {
                if contains_id(selected, id) {
                    let vm_name = match inst.str_field("name") {
                        Some(n) => n.to_owned(),
                        None => id.to_owned(),
                    };
                    let ghost before = out@;
                    let ghost pair = (id@, vm_name@);
                    out.push(VmssTarget { instance_id: id.to_owned(), vm_name });
                    assert(targets_view(out@) =~= targets_view(before).push(pair));
                }
            },
            None => {},
        }
        i = i + 1;
    }
    assert(rows.take(instances.len() as int) =~= rows);
    out
}

} // verus!

verus! {

impl App {
    fn toggle_select(&mut self)
        requires
            old(self).wf(),
        ensures
            final(self).wf(),
            old(self).selection_toggled(*final(self)),
    {
        proof {
            reveal_strlit("instanceId");
        }
        if let Screen::VmssDetail { .. } = self.current_view() {
            if self.vmss_detail.cursor >= self.vmss_detail.instances.len() {
                return;
            }
            let id = match self.vmss_detail.instances[self.vmss_detail.cursor].str_field("instanceId") {
                Some(i) => i.to_owned(),
                None => return,
            };
            toggle_id(&mut self.vmss_detail.selected, id);
        }
    }

    fn clear_selection(&mut self)
        requires
            old(self).wf(),
        ensures
            final(self).wf(),
            old(self).selection_cleared(*final(self)),
    {
        self.vmss_detail.selected = Vec::new();
        assert(string_views(self.vmss_detail.selected@) =~= Seq::<Seq<char>>::empty());
    }

    fn cycle_sort(&mut self)
        requires
            old(self).wf(),
        ensures
            final(self).wf(),
            old(self).sort_cycled(*final(self)),
    {
        match self.current_view() {
            Screen::ResourceGroups => {
                self.rg_sort = self.rg_sort.next();
                sort_rgs(&mut self.rg_list.items, self.rg_sort);
                self.rg_list.cursor = 0;
            },
            Screen::ResourcesInGroup { .. } => {
                self.resource_sort = self.resource_sort.next();
                sort_resources(&mut self.resource_list.items, self.resource_sort);
                self.resource_list.cursor = 0;
            },
            _ => {},
        }
    }

    fn request_vm_op_current(&mut self, op: VmOp)
        requires
            old(self).wf(),
        ensures
            final(self).wf(),
            old(self).vm_op_requested(*final(self), op),
    {
        proof {
            reveal_strlit("name");
        }
        let top = self.current_view().duplicate();
        match top {
            Screen::VmDetail { rg, name } => {
                self.pending_confirm = Some(PendingConfirm { op: PendingOp::Vm(op), rg, name });
            },
            Screen::VmssInstanceDetail { rg, vmss, instance_id } => {
                let target_name = match &self.vmss_instance_detail.instance {
                    Some(i) => match i.str_field("name") {
                        Some(n) => n.to_owned(),
                        None => instance_id.clone(),
                    },
                    None => instance_id.clone(),
                };
                let targets = vec![VmssTarget { instance_id, vm_name: target_name }];
                let scope = VmssScope::Selected(targets);
                assert(targets_view(targets@) =~= seq![(targets@[0].instance_id@, targets@[0].vm_name@)]);
                self.pending_confirm = Some(
                    PendingConfirm {
                        op: PendingOp::Vmss {
                            op: vmssop_from(op),
                            scope,
                            is_flex: self.vmss_detail.is_flex,
                        },
                        rg,
                        name: vmss,
                    },
                );
            },
            _ => {},
        }
    }

    fn request_vmss_op(&mut self, op: VmssOp)
        requires
            old(self).wf(),
        ensures
            final(self).wf(),
            old(self).vmss_op_requested(*final(self), op),
    {
        let (rg, name) = match self.current_view() {
            Screen::VmssDetail { rg, name } => (rg.clone(), name.clone()),
            _ => return,
        };
        let scope = if self.vmss_detail.selected.len() == 0 {
            VmssScope::All
        } else {
            let targets = collect_targets(&self.vmss_detail.instances, &self.vmss_detail.selected);
            if targets.len() == 0 {
                return;
            }
            VmssScope::Selected(targets)
        };
        self.pending_confirm = Some(
            PendingConfirm {
                op: PendingOp::Vmss { op, scope, is_flex: self.vmss_detail.is_flex },
                rg,
                name,
            },
        );
    }

    fn request_vmss_delete(&mut self)
        requires
            old(self).wf(),
        ensures
            final(self).wf(),
            old(self).vmss_delete_requested(*final(self)),
    {
        let (rg, name) = match self.current_view() {
            Screen::VmssDetail { rg, name } => (rg.clone(), name.clone()),
            _ => return,
        };
        if self.vmss_detail.selected.len() == 0 {
            self.status = "Select at least one instance with Space before X (delete)".to_owned();
            proof {
                reveal_strlit("Select at least one instance with Space before X (delete)");
            }
            return;
        }
        let targets = collect_targets(&self.vmss_detail.instances, &self.vmss_detail.selected);
        if targets.len() == 0 {
            return;
        }
        self.pending_confirm = Some(
            PendingConfirm {
                op: PendingOp::Vmss {
                    op: VmssOp::Delete,
                    scope: VmssScope::Selected(targets),
                    is_flex: self.vmss_detail.is_flex,
                },
                rg,
                name,
            },
        );
    }

    fn open_capacity_prompt(&mut self)
        requires
            old(self).wf(),
        ensures
            final(self).wf(),
            old(self).capacity_prompt_opened(*final(self)),
    {
        let (rg, vmss) = match self.current_view() {
            Screen::VmssDetail { rg, name } => (rg.clone(), name.clone()),
            _ => return,
        };
        let path = vec!["sku".to_owned(), "capacity".to_owned()];
        proof {
            reveal_strlit("sku");
            reveal_strlit("capacity");
            assert(string_views(path@) =~= seq!["sku"@, "capacity"@]);
        }
        let current: i64 = match &self.vmss_detail.vmss {
            Some(v) => match v.get_path(&path) {
                Some(c) => match c.as_i64() {
                    Some(n) => n,
                    None => 0,
                },
                None => 0,
            },
            None => 0,
        };
        let input = i64_to_string(current);
        self.capacity_prompt = Some(
            CapacityPrompt { rg, vmss, current_capacity: current, input, error: None },
        );
    }

    fn confirm_yes(&mut self) -> (r: Option<Effect>)
        requires
            old(self).wf(),
        ensures
            final(self).wf(),
            old(self).confirmed(*final(self), match r {
                Some(e) => Some(e.view_effect()),
                None => None,
            }),
    {
        let pc = match self.pending_confirm.take() {
            Some(pc) => pc,
            None => return None,
        };
        let verb = pc.verb_ing();
        let head = concat(verb, " ");
        let line = concat(head.as_str(), pc.name.as_str());
        proof {
            reveal_strlit(" ");
        }
        self.action_in_progress = Some(line);
        match pc.op {
            PendingOp::Vm(op) => Some(Effect::VmAction { op, rg: pc.rg, name: pc.name }),
            PendingOp::Vmss { op, scope, is_flex } => Some(
                Effect::VmssAction { op, scope, is_flex, rg: pc.rg, name: pc.name },
            ),
            PendingOp::VmssScale { capacity } => Some(
                Effect::VmssScale { rg: pc.rg, name: pc.name, capacity },
            ),
        }
    }
}

/// The scale-set operation for a VM operation.
fn vmssop_from(op: VmOp) -> (r: VmssOp)
    ensures
        r == vmssop_of(op),
{
    super::app::vmssop_from_vmop(&op)
}

/// Submits the capacity prompt: a new capacity waits for confirmation, the
/// current one closes the prompt, other input leaves an error on it.
pub fn submit_capacity_prompt(app: &mut App)
    ensures
        old(app).capacity_submitted(*final(app)),
        old(app).wf() ==> final(app).wf(),
{
    let parsed = match &app.capacity_prompt {
        Some(p) => {
            let t = trim(p.input.as_str());
            parse_i64(t.as_str())
        },
        None => return,
    };
    proof {
        reveal_strlit("capacity must be \u{2265} 0");
        reveal_strlit("not a number");
    }
    match parsed {
        Some(n) => {
            if n < 0 {
                if let Some(p) = &mut app.capacity_prompt {
                    p.error = Some("capacity must be \u{2265} 0".to_owned());
                }
                return;
            }
            let (rg, vmss, same) = match &app.capacity_prompt {
                Some(p) => (p.rg.clone(), p.vmss.clone(), n == p.current_capacity),
                None => return,
            };
            app.capacity_prompt = None;
            if same {
                return;
            }
            app.pending_confirm = Some(
                PendingConfirm { op: PendingOp::VmssScale { capacity: n }, rg, name: vmss },
            );
        },
        None => {
            if let Some(p) = &mut app.capacity_prompt {
                p.error = Some("not a number".to_owned());
            }
        },
    }
}

} // verus!

verus! {

/// The load that shows a screen.
pub open spec fn fetch_for(v: ViewV) -> EffectV {
    match v {
        ViewV::ResourceGroups => EffectV::FetchRgs,
        ViewV::ResourcesInGroup { rg } => EffectV::FetchResources { rg },
        ViewV::VmDetail { rg, name } => EffectV::FetchVmDetail { rg, name },
        ViewV::VmssDetail { rg, name } => EffectV::FetchVmssDetail { rg, name },
        ViewV::VmssInstanceDetail { rg, vmss, .. } => EffectV::FetchVmssDetail { rg, name: vmss },
        ViewV::AccountPicker => EffectV::FetchSubscriptions,
    }
}

impl App {
    /// What one action does: nothing while an operation runs; `y`, `n`,
    /// Esc or `q` while a confirmation is asked; otherwise the action's own
    /// change, and leaving the UI for `q`.
    pub open spec fn action_done(self, action: Action, new: App, quit: bool, e: Option<EffectV>) -> bool {
        if self.action_in_progress is Some {
            new == self && !quit && e is None
        } else if self.pending_confirm is Some {
            &&& !quit
            &&& match action {
                Action::ConfirmYes => self.confirmed(new, e),
                Action::ConfirmNo | Action::Back | Action::Quit => new == (App {
                    pending_confirm: None,
                    ..self
                }) && e is None,
                _ => new == self && e is None,
            }
        } else {
            &&& quit == (action == Action::Quit)
            &&& match action {
                Action::Quit => new == self && e is None,
                Action::Up => self.went_up(new) && e is None,
                Action::Down => self.went_down(new) && e is None,
                Action::PageUp => self.list_moved(new, -10) && e is None,
                Action::PageDown => self.list_moved(new, 10) && e is None,
                Action::Home => self.went_home(new) && e is None,
                Action::End => self.went_end(new) && e is None,
                Action::Enter => self.entered(new, e),
                Action::Back => self.went_back(new) && e is None,
                Action::Refresh => self.refreshed(new, e),
                Action::OpenAccountPicker => self.picker_opened(new, e),
                Action::SelectAccount => self.account_selected(new, e),
                Action::ToggleHelp => new == (App { help_visible: !self.help_visible, ..self })
                    && e is None,
                Action::ToggleSelect => self.selection_toggled(new) && e is None,
                Action::ClearSelection => self.selection_cleared(new) && e is None,
                Action::CycleSort => self.sort_cycled(new) && e is None,
                Action::VmStart => self.vm_op_requested(new, VmOp::Start) && e is None,
                Action::VmDeallocate => self.vm_op_requested(new, VmOp::Deallocate) && e is None,
                Action::VmPowerOff => self.vm_op_requested(new, VmOp::PowerOff) && e is None,
                Action::VmRestart => self.vm_op_requested(new, VmOp::Restart) && e is None,
                Action::VmDelete => self.vm_op_requested(new, VmOp::Delete) && e is None,
                Action::VmssStart => self.vmss_op_requested(new, VmssOp::Start) && e is None,
                Action::VmssDeallocate => self.vmss_op_requested(new, VmssOp::Deallocate) && e is None,
                Action::VmssPowerOff => self.vmss_op_requested(new, VmssOp::PowerOff) && e is None,
                Action::VmssRestart => self.vmss_op_requested(new, VmssOp::Restart) && e is None,
                Action::VmssDelete => self.vmss_delete_requested(new) && e is None,
                Action::VmssOpenCapacity => self.capacity_prompt_opened(new) && e is None,
                Action::ConfirmYes | Action::ConfirmNo => new == self && e is None,
            }
        }
    }

    /// What one event does: a key closes the log overlay or acts; data and
    /// errors are stored; the end of an operation is reported and the
    /// shown VM or scale set loaded again.
    pub open spec fn event_done(self, ev: Event, new: App, quit: bool, e: Option<EffectV>) -> bool {
        match ev {
            Event::Key(k) => if self.log_modal is Some {
                new == (App { log_modal: None, ..self }) && !quit && e is None
            } else {
                match key_action(self.help_visible, self.top(), k) {
                    Some(a) => self.action_done(a, new, quit, e),
                    None => new == self && !quit && e is None,
                }
            },
            Event::Resize | Event::Tick => new == self && !quit && e is None,
            Event::FetchOk(p) => self.fetch_applied(p, new) && !quit && e is None,
            Event::FetchErr(msg) => new == self.with_error(msg) && !quit && e is None,
            Event::ActionOk(msg) => {
                let base = App { action_in_progress: None, status: msg, ..self };
                &&& !quit
                &&& match self.top() {
                    ViewV::VmDetail { rg, name } => {
                        &&& new == (App {
                            vm_detail: VmDetailState { loading: true, ..self.vm_detail },
                            ..base
                        })
                        &&& e == Some(EffectV::FetchVmDetail { rg, name })
                    },
                    ViewV::VmssDetail { rg, name } => {
                        &&& new == (App {
                            vmss_detail: VmssDetailState { loading: true, ..self.vmss_detail },
                            ..base
                        })
                        &&& e == Some(EffectV::FetchVmssDetail { rg, name })
                    },
                    _ => new == base && e is None,
                }
            },
            Event::ActionErr(msg) => new == (App { action_in_progress: None, status: msg, ..self })
                && !quit && e is None,
        }
    }
}

/// Handles one action; the step says whether to leave and what to start.
pub fn handle_action(app: &mut App, action: Action) -> (r: Step)
    requires
        old(app).wf(),
    ensures
        final(app).wf(),
        old(app).action_done(action, *final(app), r.quit, r.effect_v()),
{
    if app.action_in_progress.is_some() {
        return Step::none();
    }
    if app.pending_confirm.is_some() {
        match action {
            Action::ConfirmYes => {
                return match app.confirm_yes() {
                    Some(e) => Step::run(e),
                    None => Step::none(),
                };
            },
            Action::ConfirmNo | Action::Back | Action::Quit => {
                app.pending_confirm = None;
            },
            _ => {},
        }
        return Step::none();
    }
    let effect: Option<Effect> = match action {
        Action::Quit => {
            return Step { quit: true, effect: None };
        },
        Action::Up => {
            app.up_action();
            None
        },
        Action::Down => {
            app.down_action();
            None
        },
        Action::PageUp => {
            app.move_list(-10);
            None
        },
        Action::PageDown => {
            app.move_list(10);
            None
        },
        Action::Home => {
            app.home_action();
            None
        },
        Action::End => {
            app.end_action();
            None
        },
        Action::Enter => app.enter_action(),
        Action::Back => {
            app.back_action();
            None
        },
        Action::Refresh => Some(app.refresh_action()),
        Action::OpenAccountPicker => app.open_account_picker(),
        Action::SelectAccount => app.select_account(),
        Action::ToggleHelp => {
            app.help_visible = !app.help_visible;
            None
        },
        Action::ToggleSelect => {
            app.toggle_select();
            None
        },
        Action::ClearSelection => {
            app.clear_selection();
            None
        },
        Action::CycleSort => {
            app.cycle_sort();
            None
        },
        Action::VmStart => {
            app.request_vm_op_current(VmOp::Start);
            None
        },
        Action::VmDeallocate => {
            app.request_vm_op_current(VmOp::Deallocate);
            None
        },
        Action::VmPowerOff => {
            app.request_vm_op_current(VmOp::PowerOff);
            None
        },
        Action::VmRestart => {
            app.request_vm_op_current(VmOp::Restart);
            None
        },
        Action::VmDelete => {
            app.request_vm_op_current(VmOp::Delete);
            None
        },
        Action::VmssStart => {
            app.request_vmss_op(VmssOp::Start);
            None
        },
        Action::VmssDeallocate => {
            app.request_vmss_op(VmssOp::Deallocate);
            None
        },
        Action::VmssPowerOff => {
            app.request_vmss_op(VmssOp::PowerOff);
            None
        },
        Action::VmssRestart => {
            app.request_vmss_op(VmssOp::Restart);
            None
        },
        Action::VmssDelete => {
            app.request_vmss_delete();
            None
        },
        Action::VmssOpenCapacity => {
            app.open_capacity_prompt();
            None
        },
        Action::ConfirmYes | Action::ConfirmNo => None,
    };
    Step { quit: false, effect }
}

/// Handles one event of the UI loop.
pub fn handle_event(app: &mut App, ev: Event) -> (r: Step)
    requires
        old(app).wf(),
    ensures
        final(app).wf(),
        old(app).event_done(ev, *final(app), r.quit, r.effect_v()),
{
    match ev {
        Event::Key(k) => {
            if app.log_modal.is_some() {
                app.log_modal = None;
                return Step::none();
            }
            match dispatch(app, k) {
                Some(a) => handle_action(app, a),
                None => Step::none(),
            }
        },
        Event::Resize | Event::Tick => Step::none(),
        Event::FetchOk(p) => {
            app.apply_fetch(p);
            Step::none()
        },
        Event::FetchErr(msg) => {
            app.apply_error(msg);
            Step::none()
        },
        Event::ActionOk(msg) => {
            app.action_in_progress = None;
            app.status = msg;
            let top = app.current_view().duplicate();
            match top {
                Screen::VmDetail { rg, name } => {
                    app.vm_detail.loading = true;
                    Step::run(Effect::FetchVmDetail { rg, name })
                },
                Screen::VmssDetail { rg, name } => {
                    app.vmss_detail.loading = true;
                    Step::run(Effect::FetchVmssDetail { rg, name })
                },
                _ => Step::none(),
            }
        },
        Event::ActionErr(msg) => {
            app.action_in_progress = None;
            app.status = msg;
            Step::none()
        },
    }
}

impl App {
    /// The load for the screen on top.
    pub fn fetch_current(&self) -> (r: Effect)
        requires
            self.view_stack@.len() > 0,
        ensures
            r.view_effect() == fetch_for(self.top()),
    {
        match self.current_view().duplicate() {
            Screen::ResourceGroups => Effect::FetchRgs,
            Screen::ResourcesInGroup { rg } => Effect::FetchResources { rg },
            Screen::VmDetail { rg, name } => Effect::FetchVmDetail { rg, name },
            Screen::VmssDetail { rg, name } => Effect::FetchVmssDetail { rg, name },
            Screen::VmssInstanceDetail { rg, vmss, .. } => Effect::FetchVmssDetail { rg, name: vmss },
            Screen::AccountPicker => Effect::FetchSubscriptions,
        }
    }

    /// After the switch to another subscription succeeded: close the
    /// picker, forget the loaded lists and load the groups again.
    pub fn finish_account_switch(&mut self, subscription_id: String) -> (r: Effect)
        requires
            old(self).wf(),
        ensures
            final(self).wf(),
            r.view_effect() == EffectV::FetchRgs,
            old(self).popped(App {
                subscription_id: old(self).subscription_id,
                rg_list: old(self).rg_list,
                resource_list: old(self).resource_list,
                ..*final(self)
            }),
            final(self).subscription_id == subscription_id,
            fresh_list(final(self).rg_list),
            fresh_list(final(self).resource_list),
    {
        self.subscription_id = subscription_id;
        self.pop_view();
        self.clear_caches();
        Effect::FetchRgs
    }
}

} // verus!
