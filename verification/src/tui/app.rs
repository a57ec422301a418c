use vstd::prelude::*;
use crate::json::{lemma_views, views, Json, JsonV};
use crate::text::{str_eq, concat, i64_to_string, int_text, nat_text, string_views, u64_to_string};
use super::view::{View as Screen, ViewV};
use super::rows::{find_row, first_with, found_row, has_row, has_row_with, sort_rows, stably_sorted};
use super::event::FetchPayload;

verus! {

/// What a key press asks of the UI.
#[derive(Debug, Clone, Copy, PartialEq, Eq, Structural)]
pub enum Action {
    Quit,
    Up,
    Down,
    PageUp,
    PageDown,
    Home,
    End,
    Enter,
    Back,
    Refresh,
    OpenAccountPicker,
    SelectAccount,
    ToggleHelp,
    ToggleSelect,
    ClearSelection,
    CycleSort,
    VmStart,
    VmDeallocate,
    VmPowerOff,
    VmRestart,
    VmDelete,
    VmssStart,
    VmssDeallocate,
    VmssPowerOff,
    VmssRestart,
    VmssDelete,
    VmssOpenCapacity,
    ConfirmYes,
    ConfirmNo,
}

/// Order of the resources in a group.
#[derive(Debug, Clone, Copy, PartialEq, Eq, Structural)]
pub enum ResourceSort {
    Name,
    Type,
    Location,
}

impl ResourceSort {
    /// The next order in the cycle name, type, location.
    pub open spec fn following(self) -> ResourceSort {
        match self {
            ResourceSort::Name => ResourceSort::Type,
            ResourceSort::Type => ResourceSort::Location,
            ResourceSort::Location => ResourceSort::Name,
        }
    }

    /// The next order in the cycle name, type, location.
    pub fn next(self) -> (r: ResourceSort)
        ensures
            r == self.following(),
    {
        match self {
            ResourceSort::Name => ResourceSort::Type,
            ResourceSort::Type => ResourceSort::Location,
            ResourceSort::Location => ResourceSort::Name,
        }
    }

    /// The field the order sorts by.
    pub open spec fn field(self) -> Seq<char> {
        match self {
            ResourceSort::Name => "name"@,
            ResourceSort::Type => "type"@,
            ResourceSort::Location => "location"@,
        }
    }

    pub fn label(self) -> (r: &'static str)
        ensures
            r@ == self.field(),
    {
        match self {
            ResourceSort::Name => "name",
            ResourceSort::Type => "type",
            ResourceSort::Location => "location",
        }
    }
}

/// Order of the resource groups.
#[derive(Debug, Clone, Copy, PartialEq, Eq, Structural)]
pub enum RgSort {
    Name,
    Location,
}

impl RgSort {
    /// The other order.
    pub open spec fn following(self) -> RgSort {
        match self {
            RgSort::Name => RgSort::Location,
            RgSort::Location => RgSort::Name,
        }
    }

    /// The other order.
    pub fn next(self) -> (r: RgSort)
        ensures
            r == self.following(),
    {
        match self {
            RgSort::Name => RgSort::Location,
            RgSort::Location => RgSort::Name,
        }
    }

    pub open spec fn field(self) -> Seq<char> {
        match self {
            RgSort::Name => "name"@,
            RgSort::Location => "location"@,
        }
    }

    pub fn label(self) -> (r: &'static str)
        ensures
            r@ == self.field(),
    {
        match self {
            RgSort::Name => "name",
            RgSort::Location => "location",
        }
    }
}

/// A power operation on one VM.
#[derive(Debug, Clone, Copy, PartialEq, Eq, Structural)]
pub enum VmOp {
    Start,
    Deallocate,
    PowerOff,
    Restart,
    Delete,
}

impl VmOp {
    pub open spec fn label_spec(self) -> Seq<char> {
        match self {
            VmOp::Start => "start"@,
            VmOp::Deallocate => "deallocate (stop + release compute)"@,
            VmOp::PowerOff => "power off (stop, keep compute)"@,
            VmOp::Restart => "restart"@,
            VmOp::Delete => "DELETE"@,
        }
    }

    pub open spec fn label_short_spec(self) -> Seq<char> {
        match self {
            VmOp::Start => "start"@,
            VmOp::Deallocate => "deallocate"@,
            VmOp::PowerOff => "power off"@,
            VmOp::Restart => "restart"@,
            VmOp::Delete => "DELETE"@,
        }
    }

    pub open spec fn verb_ing_spec(self) -> Seq<char> {
        match self {
            VmOp::Start => "starting"@,
            VmOp::Deallocate => "deallocating"@,
            VmOp::PowerOff => "powering off"@,
            VmOp::Restart => "restarting"@,
            VmOp::Delete => "deleting"@,
        }
    }

    /// The operation as the confirmation prompt names it.
    pub fn label(&self) -> (r: &'static str)
        ensures
            r@ == self.label_spec(),
    {
        match self {
            VmOp::Start => "start",
            VmOp::Deallocate => "deallocate (stop + release compute)",
            VmOp::PowerOff => "power off (stop, keep compute)",
            VmOp::Restart => "restart",
            VmOp::Delete => "DELETE",
        }
    }

    /// The operation in a word or two.
    pub fn label_short(&self) -> (r: &'static str)
        ensures
            r@ == self.label_short_spec(),
    {
        match self {
            VmOp::Start => "start",
            VmOp::Deallocate => "deallocate",
            VmOp::PowerOff => "power off",
            VmOp::Restart => "restart",
            VmOp::Delete => "DELETE",
        }
    }

    /// The operation in progress.
    pub fn verb_ing(&self) -> (r: &'static str)
        ensures
            r@ == self.verb_ing_spec(),
    {
        match self {
            VmOp::Start => "starting",
            VmOp::Deallocate => "deallocating",
            VmOp::PowerOff => "powering off",
            VmOp::Restart => "restarting",
            VmOp::Delete => "deleting",
        }
    }
}

/// A power operation on a scale set.
#[derive(Debug, Clone, Copy, PartialEq, Eq, Structural)]
pub enum VmssOp {
    Start,
    Deallocate,
    PowerOff,
    Restart,
    Delete,
}

impl VmssOp {
    /// The VM operation of the same name.
    pub open spec fn as_vm_op_spec(self) -> VmOp {
        match self {
            VmssOp::Start => VmOp::Start,
            VmssOp::Deallocate => VmOp::Deallocate,
            VmssOp::PowerOff => VmOp::PowerOff,
            VmssOp::Restart => VmOp::Restart,
            VmssOp::Delete => VmOp::Delete,
        }
    }

    pub fn verb_ing(&self) -> (r: &'static str)
        ensures
            r@ == self.as_vm_op_spec().verb_ing_spec(),
    {
        match self {
            VmssOp::Start => "starting",
            VmssOp::Deallocate => "deallocating",
            VmssOp::PowerOff => "powering off",
            VmssOp::Restart => "restarting",
            VmssOp::Delete => "deleting",
        }
    }

    pub fn as_vm_op(&self) -> (r: VmOp)
        ensures
            r == self.as_vm_op_spec(),
    {
        match self {
            VmssOp::Start => VmOp::Start,
            VmssOp::Deallocate => VmOp::Deallocate,
            VmssOp::PowerOff => VmOp::PowerOff,
            VmssOp::Restart => VmOp::Restart,
            VmssOp::Delete => VmOp::Delete,
        }
    }
}

/// The scale-set operation of the same name as a VM operation.
pub open spec fn vmssop_of(op: VmOp) -> VmssOp {
    match op {
        VmOp::Start => VmssOp::Start,
        VmOp::Deallocate => VmssOp::Deallocate,
        VmOp::PowerOff => VmssOp::PowerOff,
        VmOp::Restart => VmssOp::Restart,
        VmOp::Delete => VmssOp::Delete,
    }
}

pub fn vmssop_from_vmop(op: &VmOp) -> (r: VmssOp)
    ensures
        r == vmssop_of(*op),
{
    match op {
        VmOp::Start => VmssOp::Start,
        VmOp::Deallocate => VmssOp::Deallocate,
        VmOp::PowerOff => VmssOp::PowerOff,
        VmOp::Restart => VmssOp::Restart,
        VmOp::Delete => VmssOp::Delete,
    }
}

/// Mapping an operation to the scale set and back gives it again.
pub proof fn lemma_vmssop_roundtrip(op: VmOp)
    ensures
        vmssop_of(op).as_vm_op_spec() == op,
{
}


/// One instance of a scale set, as an operation targets it.
#[derive(Debug, Clone)]
pub struct VmssTarget {
    pub instance_id: String,
    pub vm_name: String,
}

/// Which instances a scale-set operation acts on.
#[derive(Debug, Clone)]
pub enum VmssScope {
    All,
    Selected(Vec<VmssTarget>),
}

/// The instances of a scope, as (instance id, VM name) pairs.
pub enum ScopeV {
    All,
    Selected(Seq<(Seq<char>, Seq<char>)>),
}

pub open spec fn targets_view(t: Seq<VmssTarget>) -> Seq<(Seq<char>, Seq<char>)> {
    Seq::new(t.len(), |i: int| (t[i].instance_id@, t[i].vm_name@))
}

impl VmssScope {
    pub open spec fn view_scope(&self) -> ScopeV {
        match self {
            VmssScope::All => ScopeV::All,
            VmssScope::Selected(t) => ScopeV::Selected(targets_view(t@)),
        }
    }
}

/// An operation waiting for confirmation.
#[derive(Debug)]
pub enum PendingOp {
    Vm(VmOp),
    Vmss { op: VmssOp, scope: VmssScope, is_flex: bool },
    VmssScale { capacity: i64 },
}

pub enum PendingOpV {
    Vm(VmOp),
    Vmss { op: VmssOp, scope: ScopeV, is_flex: bool },
    VmssScale { capacity: int },
}

impl PendingOp {
    pub open spec fn view_op(&self) -> PendingOpV {
        match self {
            PendingOp::Vm(o) => PendingOpV::Vm(*o),
            PendingOp::Vmss { op, scope, is_flex } => PendingOpV::Vmss {
                op: *op,
                scope: scope.view_scope(),
                is_flex: *is_flex,
            },
            PendingOp::VmssScale { capacity } => PendingOpV::VmssScale { capacity: *capacity as int },
        }
    }
}

/// An operation on a named resource, waiting for `y`/`n`.
#[derive(Debug)]
pub struct PendingConfirm {
    pub op: PendingOp,
    pub rg: String,
    pub name: String,
}

pub struct PendingConfirmV {
    pub op: PendingOpV,
    pub rg: Seq<char>,
    pub name: Seq<char>,
}

/// The text of the confirmation prompt.
pub open spec fn confirm_label(op: PendingOpV) -> Seq<char> {
    match op {
        PendingOpV::Vm(o) => o.label_spec(),
        PendingOpV::Vmss { op, scope, .. } => match scope {
            ScopeV::All => op.as_vm_op_spec().label_short_spec() + " ALL instances"@,
            ScopeV::Selected(t) => op.as_vm_op_spec().label_short_spec() + " "@ + nat_text(t.len())
                + " selected instance(s)"@,
        },
        PendingOpV::VmssScale { capacity } => "scale to capacity "@ + int_text(capacity),
    }
}

/// The operation in progress, for the status line.
pub open spec fn confirm_verb(op: PendingOpV) -> Seq<char> {
    match op {
        PendingOpV::Vm(o) => o.verb_ing_spec(),
        PendingOpV::Vmss { op, .. } => op.as_vm_op_spec().verb_ing_spec(),
        PendingOpV::VmssScale { .. } => "scaling"@,
    }
}

impl PendingConfirm {
    pub open spec fn view_pc(&self) -> PendingConfirmV {
        PendingConfirmV { op: self.op.view_op(), rg: self.rg@, name: self.name@ }
    }

    /// The text of the confirmation prompt.
    pub fn label(&self) -> (r: String)
        ensures
            r@ == confirm_label(self.op.view_op()),
    {
        match &self.op {
            PendingOp::Vm(o) => o.label().to_owned(),
            PendingOp::Vmss { op, scope, .. } => {
                let short = op.as_vm_op().label_short();
                match scope {
                    VmssScope::All => concat(short, " ALL instances"),
                    VmssScope::Selected(targets) => {
                        let a = concat(short, " ");
                        let n = u64_to_string(targets.len() as u64);
                        let b = concat(a.as_str(), n.as_str());
                        concat(b.as_str(), " selected instance(s)")
                    },
                }
            },
            PendingOp::VmssScale { capacity } => {
                let n = i64_to_string(*capacity);
                concat("scale to capacity ", n.as_str())
            },
        }
    }

    /// The operation in progress.
    pub fn verb_ing(&self) -> (r: &'static str)
        ensures
            r@ == confirm_verb(self.op.view_op()),
    {
        match &self.op {
            PendingOp::Vm(o) => o.verb_ing(),
            PendingOp::Vmss { op, .. } => op.verb_ing(),
            PendingOp::VmssScale { .. } => "scaling",
        }
    }
}

/// The prompt for a new scale-set capacity.
#[derive(Debug)]
pub struct CapacityPrompt {
    pub rg: String,
    pub vmss: String,
    pub current_capacity: i64,
    pub input: String,
    pub error: Option<String>,
}

/// A scrollable list of JSON rows with a cursor.
#[derive(Debug)]
pub struct ListState {
    pub items: Vec<Json>,
    pub cursor: usize,
    pub loading: bool,
    pub error: Option<String>,
}

impl ListState {
    /// The cursor is on a row, or at 0 when there are none.
    pub open spec fn cursor_ok(&self) -> bool {
        self.cursor < self.items@.len() || self.cursor == 0
    }

    /// An empty list, loading.
    pub fn new() -> (r: ListState)
        ensures
            r.items@.len() == 0,
            r.cursor == 0,
            r.loading,
            r.error is None,
    {
        ListState { items: Vec::new(), cursor: 0, loading: true, error: None }
    }

    /// Moves the cursor by `delta` rows, stopping at the first and last row.
    pub fn move_by(&mut self, delta: i64)
        ensures
            final(self).items == old(self).items,
            final(self).loading == old(self).loading,
            final(self).error == old(self).error,
            final(self).cursor == if old(self).items@.len() == 0 {
                0
            } else {
                let c = old(self).cursor + delta;
                if c < 0 {
                    0
                } else if c >= old(self).items@.len() {
                    (old(self).items@.len() - 1) as int
                } else {
                    c
                }
            },
            final(self).cursor_ok(),
    {
        if self.items.len() == 0 {
            self.cursor = 0;
            return;
        }
        let len = self.items.len() as i128;
        let mut c: i128 = self.cursor as i128 + delta as i128;
        if c < 0 {
            c = 0;
        }
        if c >= len {
            c = len - 1;
        }
        self.cursor = c as usize;
    }

    /// The row under the cursor.
    pub fn selected(&self) -> (r: Option<&Json>)
        ensures
            match r {
                Some(j) => self.cursor < self.items@.len() && j == &self.items@[self.cursor as int],
                None => self.cursor >= self.items@.len(),
            },
    {
        if self.cursor < self.items.len() {
            Some(&self.items[self.cursor])
        } else {
            None
        }
    }
}

/// The detail screen of one VM.
#[derive(Debug)]
pub struct VmDetailState {
    pub value: Option<Json>,
    pub loading: bool,
    pub error: Option<String>,
}

impl VmDetailState {
    pub fn new() -> (r: VmDetailState)
        ensures
            r.value is None,
            r.loading,
            r.error is None,
    {
        VmDetailState { value: None, loading: true, error: None }
    }
}

/// The detail screen of a scale set: its instances, a cursor over them and
/// the instance ids selected for an operation.
#[derive(Debug)]
pub struct VmssDetailState {
    pub vmss: Option<Json>,
    pub instances: Vec<Json>,
    pub cursor: usize,
    pub selected: Vec<String>,
    pub is_flex: bool,
    pub loading: bool,
    pub error: Option<String>,
}

impl VmssDetailState {
    /// The selected instance ids, as a set.
    pub open spec fn selected_set(&self) -> Set<Seq<char>> {
        string_views(self.selected@).to_set()
    }

    pub fn new() -> (r: VmssDetailState)
        ensures
            r.vmss is None,
            r.instances@.len() == 0,
            r.cursor == 0,
            r.selected_set() == Set::<Seq<char>>::empty(),
            !r.is_flex,
            r.loading,
            r.error is None,
    {
        let r = VmssDetailState {
            vmss: None,
            instances: Vec::new(),
            cursor: 0,
            selected: Vec::new(),
            is_flex: false,
            loading: true,
            error: None,
        };
        assert(string_views(r.selected@).to_set() =~= Set::<Seq<char>>::empty());
        r
    }
}

/// The detail screen of one scale-set instance.
#[derive(Debug)]
pub struct VmssInstanceDetailState {
    pub instance: Option<Json>,
    pub error: Option<String>,
}

impl VmssInstanceDetailState {
    pub fn new() -> (r: VmssInstanceDetailState)
        ensures
            r.instance is None,
            r.error is None,
    {
        VmssInstanceDetailState { instance: None, error: None }
    }
}

} // verus!

verus! {

impl VmssDetailState {
    /// The cursor is on an instance, or at 0 when there are none.
    pub open spec fn cursor_ok(&self) -> bool {
        self.cursor < self.instances@.len() || self.cursor == 0
    }

    /// No instance id is selected twice.
    pub open spec fn selection_ok(&self) -> bool {
        string_views(self.selected@).no_duplicates()
    }
}

/// Which list a screen scrolls.
pub enum ListKind {
    ResourceGroups,
    Resources,
    Subscriptions,
}

/// The list a screen shows, if it shows one.
pub open spec fn list_kind(v: ViewV) -> Option<ListKind> {
    match v {
        ViewV::ResourceGroups => Some(ListKind::ResourceGroups),
        ViewV::ResourcesInGroup { .. } => Some(ListKind::Resources),
        ViewV::AccountPicker => Some(ListKind::Subscriptions),
        _ => None,
    }
}

/// Where `move_by(delta)` puts the cursor of a list.
pub open spec fn moved_cursor(l: ListState, delta: int) -> usize {
    if l.items@.len() == 0 {
        0
    } else {
        let c = l.cursor + delta;
        if c < 0 {
            0
        } else if c >= l.items@.len() {
            (l.items@.len() - 1) as usize
        } else {
            c as usize
        }
    }
}

/// The whole state of the terminal UI.
#[derive(Debug)]
pub struct App {
    pub subscription_id: String,
    pub view_stack: Vec<Screen>,
    pub rg_list: ListState,
    pub rg_sort: RgSort,
    pub resource_list: ListState,
    pub resource_sort: ResourceSort,
    pub subs_list: ListState,
    pub vm_detail: VmDetailState,
    pub vmss_detail: VmssDetailState,
    pub vmss_instance_detail: VmssInstanceDetailState,
    pub pending_confirm: Option<PendingConfirm>,
    pub capacity_prompt: Option<CapacityPrompt>,
    pub action_in_progress: Option<String>,
    pub help_visible: bool,
    pub status: String,
    pub log_modal: Option<String>,
}

impl App {
    /// The screen on top of the stack.
    pub open spec fn top(&self) -> ViewV {
        self.view_stack@.last().view_v()
    }

    /// What every operation keeps: a screen is shown, each cursor is on a
    /// row (or at 0 when there are none), no instance is selected twice.
    pub open spec fn wf(&self) -> bool {
        &&& self.view_stack@.len() > 0
        &&& self.rg_list.cursor_ok()
        &&& self.resource_list.cursor_ok()
        &&& self.subs_list.cursor_ok()
        &&& self.vmss_detail.cursor_ok()
        &&& self.vmss_detail.selection_ok()
    }

    pub open spec fn list_of(self, k: ListKind) -> ListState {
        match k {
            ListKind::ResourceGroups => self.rg_list,
            ListKind::Resources => self.resource_list,
            ListKind::Subscriptions => self.subs_list,
        }
    }

    pub open spec fn with_list(self, k: ListKind, l: ListState) -> App {
        match k {
            ListKind::ResourceGroups => App { rg_list: l, ..self },
            ListKind::Resources => App { resource_list: l, ..self },
            ListKind::Subscriptions => App { subs_list: l, ..self },
        }
    }

    /// A fresh state for a subscription, with no screen yet.
    pub fn new(subscription_id: String) -> (r: App)
        ensures
            r.subscription_id == subscription_id,
            r.view_stack@.len() == 0,
            r.rg_list.items@.len() == 0 && r.rg_list.cursor == 0 && r.rg_list.loading
                && r.rg_list.error is None,
            r.rg_sort == RgSort::Name,
            r.resource_list.items@.len() == 0 && r.resource_list.cursor == 0
                && r.resource_list.loading && r.resource_list.error is None,
            r.resource_sort == ResourceSort::Name,
            r.subs_list.items@.len() == 0 && r.subs_list.cursor == 0 && r.subs_list.loading
                && r.subs_list.error is None,
            r.vm_detail.value is None && r.vm_detail.loading && r.vm_detail.error is None,
            r.vmss_detail.vmss is None && r.vmss_detail.instances@.len() == 0
                && r.vmss_detail.cursor == 0 && r.vmss_detail.selected@.len() == 0
                && !r.vmss_detail.is_flex && r.vmss_detail.loading && r.vmss_detail.error is None,
            r.vmss_instance_detail.instance is None && r.vmss_instance_detail.error is None,
            r.pending_confirm is None,
            r.capacity_prompt is None,
            r.action_in_progress is None,
            !r.help_visible,
            r.status@.len() == 0,
            r.log_modal is None,
    {
        App {
            subscription_id,
            view_stack: Vec::new(),
            rg_list: ListState::new(),
            rg_sort: RgSort::Name,
            resource_list: ListState::new(),
            resource_sort: ResourceSort::Name,
            subs_list: ListState::new(),
            vm_detail: VmDetailState::new(),
            vmss_detail: VmssDetailState {
                vmss: None,
                instances: Vec::new(),
                cursor: 0,
                selected: Vec::new(),
                is_flex: false,
                loading: true,
                error: None,
            },
            vmss_instance_detail: VmssInstanceDetailState::new(),
            pending_confirm: None,
            capacity_prompt: None,
            action_in_progress: None,
            help_visible: false,
            status: String::new(),
            log_modal: None,
        }
    }

    /// The screen on top of the stack.
    pub fn current_view(&self) -> (r: &Screen)
        requires
            self.view_stack@.len() > 0,
        ensures
            *r == self.view_stack@.last(),
    {
        let n = self.view_stack.len();
        &self.view_stack[n - 1]
    }

    /// Shows a screen above the current one.
    pub fn push_view(&mut self, v: Screen)
        ensures
            final(self).view_stack@ == old(self).view_stack@.push(v),
            final(self).view_stack@.drop_last() == old(self).view_stack@,
            *final(self) == (App { view_stack: final(self).view_stack, ..*old(self) }),
    {
        self.view_stack.push(v);
        assert(self.view_stack@.drop_last() =~= old(self).view_stack@);
    }

    /// Goes back one screen; the first screen stays.
    pub fn pop_view(&mut self)
        ensures
            final(self).view_stack@ == if old(self).view_stack@.len() > 1 {
                old(self).view_stack@.drop_last()
            } else {
                old(self).view_stack@
            },
            *final(self) == (App { view_stack: final(self).view_stack, ..*old(self) }),
    {
        if self.view_stack.len() > 1 {
            self.view_stack.pop();
        }
    }

    /// Forgets the loaded groups and resources.
    pub fn clear_caches(&mut self)
        ensures
            final(self).rg_list.items@.len() == 0 && final(self).rg_list.cursor == 0
                && final(self).rg_list.loading && final(self).rg_list.error is None,
            final(self).resource_list.items@.len() == 0 && final(self).resource_list.cursor == 0
                && final(self).resource_list.loading && final(self).resource_list.error is None,
            *final(self) == (App {
                rg_list: final(self).rg_list,
                resource_list: final(self).resource_list,
                ..*old(self)
            }),
    {
        self.rg_list = ListState::new();
        self.resource_list = ListState::new();
    }

    /// The state after a failed load, reported on the screen on top.
    pub open spec fn with_error(self, msg: String) -> App {
        match self.top() {
            ViewV::ResourceGroups => App {
                rg_list: ListState { loading: false, error: Some(msg), ..self.rg_list },
                ..self
            },
            ViewV::ResourcesInGroup { .. } => App {
                resource_list: ListState { loading: false, error: Some(msg), ..self.resource_list },
                ..self
            },
            ViewV::AccountPicker => App {
                subs_list: ListState { loading: false, error: Some(msg), ..self.subs_list },
                ..self
            },
            ViewV::VmDetail { .. } => App {
                vm_detail: VmDetailState { loading: false, error: Some(msg), ..self.vm_detail },
                ..self
            },
            ViewV::VmssDetail { .. } => App {
                vmss_detail: VmssDetailState { loading: false, error: Some(msg), ..self.vmss_detail },
                ..self
            },
            ViewV::VmssInstanceDetail { .. } => App {
                vmss_instance_detail: VmssInstanceDetailState {
                    error: Some(msg),
                    ..self.vmss_instance_detail
                },
                ..self
            },
        }
    }

    /// Reports a failed load on the screen on top.
    pub fn apply_error(&mut self, msg: String)
        requires
            old(self).view_stack@.len() > 0,
        ensures
            *final(self) == old(self).with_error(msg),
    {
        match self.current_view() {
            Screen::ResourceGroups => {
                self.rg_list.loading = false;
                self.rg_list.error = Some(msg);
            },
            Screen::ResourcesInGroup { .. } => {
                self.resource_list.loading = false;
                self.resource_list.error = Some(msg);
            },
            Screen::AccountPicker => {
                self.subs_list.loading = false;
                self.subs_list.error = Some(msg);
            },
            Screen::VmDetail { .. } => {
                self.vm_detail.loading = false;
                self.vm_detail.error = Some(msg);
            },
            Screen::VmssDetail { .. } => {
                self.vmss_detail.loading = false;
                self.vmss_detail.error = Some(msg);
            },
            Screen::VmssInstanceDetail { .. } => {
                self.vmss_instance_detail.error = Some(msg);
            },
        }
    }
}

} // verus!

verus! {

/// Sorts resource groups by the chosen column (ASCII case-insensitively),
/// then by exact name; rows with equal keys keep their order.
pub fn sort_rgs(items: &mut Vec<Json>, key: RgSort)
    ensures
        final(items)@.len() == old(items)@.len(),
        stably_sorted(views(old(items)@), key.field(), views(final(items)@)),
{
    sort_rows(items, key.label());
}

/// Sorts resources by the chosen column (ASCII case-insensitively), then by
/// exact name; rows with equal keys keep their order.
pub fn sort_resources(items: &mut Vec<Json>, key: ResourceSort)
    ensures
        final(items)@.len() == old(items)@.len(),
        stably_sorted(views(old(items)@), key.field(), views(final(items)@)),
{
    sort_rows(items, key.label());
}

/// Whether an instance id still names an instance of the list.
pub open spec fn is_instance_id(instances: Seq<JsonV>, id: Seq<char>) -> bool {
    has_row_with(instances, "instanceId"@, id)
}

/// Keeps the selected ids that name an instance of `instances`.
fn retain_selected(selected: &mut Vec<String>, instances: &Vec<Json>)
    requires
        string_views(old(selected)@).no_duplicates(),
    ensures
        string_views(final(selected)@).no_duplicates(),
        string_views(final(selected)@).to_set() == string_views(old(selected)@).to_set().filter(
            |id: Seq<char>| is_instance_id(views(instances@), id),
        ),
{
    let ghost old_sv = string_views(selected@);
    let ghost pred = |id: Seq<char>| is_instance_id(views(instances@), id);
    let mut out: Vec<String> = Vec::new();
    let mut i: usize = 0;
    while i < selected.len()
        invariant
            i <= selected.len(),
            old_sv == string_views(selected@),
            old_sv.no_duplicates(),
            pred == (|id: Seq<char>| is_instance_id(views(instances@), id)),
            string_views(out@).no_duplicates(),
            forall|m: int| 0 <= m < out.len() ==> old_sv.take(i as int).contains(#[trigger] string_views(out@)[m])
                && pred(string_views(out@)[m]),
            forall|k: int| 0 <= k < i && pred(#[trigger] old_sv[k]) ==> string_views(out@).contains(old_sv[k]),
        decreases selected.len() - i,
    {
        proof {
            reveal_strlit("instanceId");
        }
        if has_row(instances, "instanceId", selected[i].as_str()) {
            let ghost before = string_views(out@);
            out.push(selected[i].clone());
            proof {
                let after = string_views(out@);
                assert(after =~= before.push(old_sv[i as int]));
                assert forall|m: int| 0 <= m < before.len() implies before[m] != old_sv[i as int] by {
                    assert(old_sv.take(i as int).contains(before[m]));
                    let k = choose|k: int| 0 <= k < i && old_sv.take(i as int)[k] == before[m];
                    assert(old_sv[k] == before[m]);
                }
                assert forall|m: int| 0 <= m < out.len() implies old_sv.take(i + 1).contains(#[trigger] string_views(out@)[m])
                    && pred(string_views(out@)[m]) by {
                    if m < before.len() {
                        let k = choose|k: int| 0 <= k < i && old_sv.take(i as int)[k] == before[m];
                        assert(old_sv.take(i + 1)[k] == before[m]);
                    } else {
                        assert(old_sv.take(i + 1)[i as int] == old_sv[i as int]);
                    }
                }
                assert forall|k: int| 0 <= k < i + 1 && pred(#[trigger] old_sv[k]) implies string_views(out@).contains(old_sv[k]) by {
                    if k < i {
                        let m = choose|m: int| 0 <= m < before.len() && before[m] == old_sv[k];
                        assert(after[m] == old_sv[k]);
                    } else {
                        assert(after[before.len() as int] == old_sv[k]);
                    }
                }
            }
        } else {
            proof {
                let outs = string_views(out@);
                assert forall|m: int| 0 <= m < out.len() implies old_sv.take(i + 1).contains(#[trigger] string_views(out@)[m])
                    && pred(string_views(out@)[m]) by {
                    let k = choose|k: int| 0 <= k < i && old_sv.take(i as int)[k] == outs[m];
                    assert(old_sv.take(i + 1)[k] == outs[m]);
                }
            }
        }
        i = i + 1;
    }
    proof {
        let outs = string_views(out@);
        assert(old_sv.take(selected.len() as int) =~= old_sv);
        assert forall|x: Seq<char>| outs.to_set().contains(x) <==> old_sv.to_set().filter(pred).contains(x) by {
            if outs.contains(x) {
                let m = choose|m: int| 0 <= m < outs.len() && outs[m] == x;
                assert(old_sv.take(i as int).contains(outs[m]));
            }
            if old_sv.contains(x) && pred(x) {
                let k = choose|k: int| 0 <= k < old_sv.len() && old_sv[k] == x;
                assert(pred(old_sv[k]));
            }
        }
        assert(outs.to_set() =~= old_sv.to_set().filter(pred));
    }
    *selected = out;
}

} // verus!

verus! {

/// The screen shows the scale set `name` of group `rg` or one of its instances.
pub open spec fn shows_vmss(top: ViewV, rg: Seq<char>, name: Seq<char>) -> bool {
    ||| top == (ViewV::VmssDetail { rg, name })
    ||| (top matches ViewV::VmssInstanceDetail { rg: r, vmss: v, .. } && r == rg && v == name)
}

/// The value of an optional document.
pub open spec fn opt_json(o: Option<Json>) -> Option<JsonV> {
    match o {
        Some(j) => Some(j.view_json()),
        None => None,
    }
}

impl App {
    /// The state after data for a screen arrived: lists are stored sorted,
    /// detail data only when its screen is still on top.
    pub open spec fn fetch_applied(self, payload: FetchPayload, new: App) -> bool {
        match payload {
            FetchPayload::ResourceGroups(items) => {
                &&& new == (App { rg_list: new.rg_list, ..self })
                &&& stably_sorted(views(items@), self.rg_sort.field(), views(new.rg_list.items@))
                &&& !new.rg_list.loading
                &&& new.rg_list.error is None
                &&& new.rg_list.cursor == if self.rg_list.cursor >= items@.len() {
                    0
                } else {
                    self.rg_list.cursor
                }
            },
            FetchPayload::ResourcesInGroup { rg, items } => if self.top() == (ViewV::ResourcesInGroup {
                rg: rg@,
            }) {
                &&& new == (App { resource_list: new.resource_list, ..self })
                &&& stably_sorted(
                    views(items@),
                    self.resource_sort.field(),
                    views(new.resource_list.items@),
                )
                &&& !new.resource_list.loading
                &&& new.resource_list.error is None
                &&& new.resource_list.cursor == 0
            } else {
                new == self
            },
            FetchPayload::Subscriptions(items) => new == (App {
                subs_list: ListState {
                    items,
                    cursor: first_with(views(items@), "id"@, self.subscription_id@) as usize,
                    loading: false,
                    error: None,
                },
                ..self
            }),
            FetchPayload::VmDetail { rg, name, value } => if self.top() == (ViewV::VmDetail {
                rg: rg@,
                name: name@,
            }) {
                new == (App {
                    vm_detail: VmDetailState { value: Some(value), loading: false, error: None },
                    ..self
                })
            } else {
                new == self
            },
            FetchPayload::VmssDetail { rg, name, vmss, instances, is_flex } => if shows_vmss(
                self.top(),
                rg@,
                name@,
            ) {
                &&& new == (App {
                    vmss_detail: new.vmss_detail,
                    vmss_instance_detail: new.vmss_instance_detail,
                    ..self
                })
                &&& new.vmss_detail.vmss == Some(vmss)
                &&& new.vmss_detail.instances == instances
                &&& new.vmss_detail.is_flex == is_flex
                &&& new.vmss_detail.cursor == if self.vmss_detail.cursor >= instances@.len() {
                    0
                } else {
                    self.vmss_detail.cursor
                }
                &&& new.vmss_detail.selected_set() == self.vmss_detail.selected_set().filter(
                    |id: Seq<char>| is_instance_id(views(instances@), id),
                )
                &&& !new.vmss_detail.loading
                &&& new.vmss_detail.error is None
                &&& new.vmss_instance_detail.error == self.vmss_instance_detail.error
                &&& match self.top() {
                    ViewV::VmssInstanceDetail { instance_id, .. } => opt_json(
                        new.vmss_instance_detail.instance,
                    ) == found_row(views(instances@), "instanceId"@, instance_id),
                    _ => new.vmss_instance_detail.instance == self.vmss_instance_detail.instance,
                }
            } else {
                new == self
            },
        }
    }

    /// Stores data that arrived for a screen.
    pub fn apply_fetch(&mut self, payload: FetchPayload)
        requires
            old(self).wf(),
        ensures
            final(self).wf(),
            old(self).fetch_applied(payload, *final(self)),
    {
        match payload {
            FetchPayload::ResourceGroups(items) => {
                let mut items = items;
                sort_rgs(&mut items, self.rg_sort);
                proof {
                    lemma_views(items@);
                }
                self.rg_list.items = items;
                self.rg_list.loading = false;
                self.rg_list.error = None;
                if self.rg_list.cursor >= self.rg_list.items.len() {
                    self.rg_list.cursor = 0;
                }
            },
            FetchPayload::ResourcesInGroup { rg, items } => {
                let on_view = match self.current_view() {
                    Screen::ResourcesInGroup { rg: cur } => str_eq(cur.as_str(), rg.as_str()),
                    _ => false,
                };
                if on_view {
                    let mut items = items;
                    sort_resources(&mut items, self.resource_sort);
                    self.resource_list.items = items;
                    self.resource_list.loading = false;
                    self.resource_list.error = None;
                    self.resource_list.cursor = 0;
                }
            },
            FetchPayload::Subscriptions(items) => {
                let cursor = match find_row(&items, "id", self.subscription_id.as_str()) {
                    Some(k) => k,
                    None => 0,
                };
                proof {
                    reveal_strlit("id");
                    lemma_views(items@);
                }
                self.subs_list.items = items;
                self.subs_list.loading = false;
                self.subs_list.error = None;
                self.subs_list.cursor = cursor;
            },
            FetchPayload::VmDetail { rg, name, value } => {
                let on_view = match self.current_view() {
                    Screen::VmDetail { rg: cur_rg, name: cur_name } => str_eq(cur_rg.as_str(), rg.as_str())
                        && str_eq(cur_name.as_str(), name.as_str()),
                    _ => false,
                };
                if on_view {
                    self.vm_detail.value = Some(value);
                    self.vm_detail.loading = false;
                    self.vm_detail.error = None;
                }
            },
            FetchPayload::VmssDetail { rg, name, vmss, instances, is_flex } => {
                let on_view = match self.current_view() {
                    Screen::VmssDetail { rg: cur_rg, name: cur_name } => str_eq(cur_rg.as_str(), rg.as_str())
                        && str_eq(cur_name.as_str(), name.as_str()),
                    Screen::VmssInstanceDetail { rg: cur_rg, vmss: cur_vmss, .. } => str_eq(
                        cur_rg.as_str(),
                        rg.as_str(),
                    ) && str_eq(cur_vmss.as_str(), name.as_str()),
                    _ => false,
                };
                if on_view {
                    proof {
                        reveal_strlit("instanceId");
                    }
                    let found = match self.current_view() {
                        Screen::VmssInstanceDetail { instance_id, .. } => {
                            match find_row(&instances, "instanceId", instance_id.as_str()) {
                                Some(k) => {
                                    proof {
                                        lemma_views(instances@);
                                    }
                                    Some(Some(instances[k].deep_clone()))
                                },
                                None => Some(None),
                            }
                        },
                        _ => None,
                    };
                    retain_selected(&mut self.vmss_detail.selected, &instances);
                    self.vmss_detail.vmss = Some(vmss);
                    self.vmss_detail.instances = instances;
                    self.vmss_detail.is_flex = is_flex;
                    if self.vmss_detail.cursor >= self.vmss_detail.instances.len() {
                        self.vmss_detail.cursor = 0;
                    }
                    self.vmss_detail.loading = false;
                    self.vmss_detail.error = None;
                    match found {
                        Some(inst) => {
                            self.vmss_instance_detail.instance = inst;
                        },
                        None => {},
                    }
                }
            },
        }
    }
}

} // verus!

verus! {

impl App {
    /// The list the screen on top scrolls, if it shows one.
    pub fn current_list_mut(&mut self) -> (r: Option<&mut ListState>)
        requires
            old(self).view_stack@.len() > 0,
        ensures
            match list_kind(old(self).top()) {
                Some(k) => match r {
                    Some(l) => *l == old(self).list_of(k) && *final(self) == old(self).with_list(k, *final(l)),
                    None => false,
                },
                None => r is None && *final(self) == *old(self),
            },
    {
        let n = self.view_stack.len();
        match &self.view_stack[n - 1] {
            Screen::ResourceGroups => Some(&mut self.rg_list),
            Screen::ResourcesInGroup { .. } => Some(&mut self.resource_list),
            Screen::AccountPicker => Some(&mut self.subs_list),
            _ => None,
        }
    }
}

} // verus!
