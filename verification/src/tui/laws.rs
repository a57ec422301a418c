use vstd::prelude::*;
use super::actions::{cursor_instance, EffectV};
use super::app::{Action, App, ResourceSort, RgSort};
use super::keys::{key_action, KeyCode, KeyInput, CONTROL};
use super::view::ViewV;

verus! {

/// Back after Enter opened a screen returns to the screens shown before.
pub proof fn lemma_back_undoes_enter(a: App, b: App, c: App, e: Option<EffectV>)
    requires
        a.wf(),
        a.entered(b, e),
        b.view_stack@.len() > a.view_stack@.len(),
        b.went_back(c),
    ensures
        c.view_stack@ == a.view_stack@,
{
}

/// Space twice on the same instance leaves the selection as it was.
pub proof fn lemma_toggle_twice(a: App, b: App, c: App)
    requires
        a.selection_toggled(b),
        b.selection_toggled(c),
    ensures
        c.vmss_detail.selected_set() == a.vmss_detail.selected_set(),
{
    let s = a.vmss_detail.selected_set();
    if a.top() is VmssDetail {
        match cursor_instance(a.vmss_detail) {
            Some(inst) => match inst.str_field("instanceId"@) {
                Some(id) => {
                    assert(cursor_instance(b.vmss_detail) == Some(inst));
                    if s.contains(id) {
                        assert(s.remove(id).insert(id) =~= s);
                    } else {
                        assert(s.insert(id).remove(id) =~= s);
                    }
                },
                None => {},
            },
            None => {},
        }
    }
}

/// The resource order cycles through its three columns.
pub proof fn lemma_resource_sort_cycle(s: ResourceSort)
    ensures
        s.following().following().following() == s,
        s.following() != s,
{
}

/// The group order alternates between its two columns.
pub proof fn lemma_rg_sort_cycle(s: RgSort)
    ensures
        s.following().following() == s,
        s.following() != s,
{
}

/// With help hidden, on every screen and whatever modifiers are held, the
/// Down arrow and `j` move down, the Up arrow and `k` move up.
pub proof fn lemma_vertical_keys(top: ViewV, m: u8)
    ensures
        key_action(false, top, (KeyInput { code: KeyCode::Down, modifiers: m })) == Some(Action::Down),
        key_action(false, top, (KeyInput { code: KeyCode::Char('j'), modifiers: m })) == Some(Action::Down),
        key_action(false, top, (KeyInput { code: KeyCode::Up, modifiers: m })) == Some(Action::Up),
        key_action(false, top, (KeyInput { code: KeyCode::Char('k'), modifiers: m })) == Some(Action::Up),
{
}

/// With help hidden, off the subscription picker, each key and its
/// alternatives ask for the same action, whatever modifiers are held:
/// Home and `g` go to the top, End and `G` to the bottom, Enter, Right and
/// `l` open, Esc, Backspace, Left and `h` go back, `q` quits, `r` refreshes,
/// `s` opens the picker, `?` and F1 toggle help, PageUp and PageDown page.
pub proof fn lemma_main_keys(top: ViewV, m: u8)
    requires
        !(top is AccountPicker),
    ensures
        key_action(false, top, (KeyInput { code: KeyCode::Home, modifiers: m })) == Some(Action::Home),
        key_action(false, top, (KeyInput { code: KeyCode::Char('g'), modifiers: m })) == Some(Action::Home),
        key_action(false, top, (KeyInput { code: KeyCode::End, modifiers: m })) == Some(Action::End),
        key_action(false, top, (KeyInput { code: KeyCode::Char('G'), modifiers: m })) == Some(Action::End),
        key_action(false, top, (KeyInput { code: KeyCode::Enter, modifiers: m })) == Some(Action::Enter),
        key_action(false, top, (KeyInput { code: KeyCode::Right, modifiers: m })) == Some(Action::Enter),
        key_action(false, top, (KeyInput { code: KeyCode::Char('l'), modifiers: m })) == Some(Action::Enter),
        key_action(false, top, (KeyInput { code: KeyCode::Esc, modifiers: m })) == Some(Action::Back),
        key_action(false, top, (KeyInput { code: KeyCode::Backspace, modifiers: m })) == Some(Action::Back),
        key_action(false, top, (KeyInput { code: KeyCode::Left, modifiers: m })) == Some(Action::Back),
        key_action(false, top, (KeyInput { code: KeyCode::Char('h'), modifiers: m })) == Some(Action::Back),
        key_action(false, top, (KeyInput { code: KeyCode::Char('q'), modifiers: m })) == Some(Action::Quit),
        key_action(false, top, (KeyInput { code: KeyCode::Char('r'), modifiers: m })) == Some(Action::Refresh),
        key_action(false, top, (KeyInput { code: KeyCode::Char('s'), modifiers: m }))
            == Some(Action::OpenAccountPicker),
        key_action(false, top, (KeyInput { code: KeyCode::Char('?'), modifiers: m })) == Some(Action::ToggleHelp),
        key_action(false, top, (KeyInput { code: KeyCode::F(1), modifiers: m })) == Some(Action::ToggleHelp),
        key_action(false, top, (KeyInput { code: KeyCode::PageUp, modifiers: m })) == Some(Action::PageUp),
        key_action(false, top, (KeyInput { code: KeyCode::PageDown, modifiers: m })) == Some(Action::PageDown),
{
}

/// Off the picker, Ctrl-C quits, Ctrl-U pages up and Ctrl-D pages down.
pub proof fn lemma_control_keys(top: ViewV)
    requires
        !(top is AccountPicker),
    ensures
        key_action(false, top, (KeyInput { code: KeyCode::Char('c'), modifiers: CONTROL })) == Some(Action::Quit),
        key_action(false, top, (KeyInput { code: KeyCode::Char('u'), modifiers: CONTROL })) == Some(Action::PageUp),
        key_action(false, top, (KeyInput { code: KeyCode::Char('d'), modifiers: CONTROL })) == Some(Action::PageDown),
{
}

/// On the subscription picker, Enter selects the account under the cursor,
/// and `q` and Esc leave it.
pub proof fn lemma_picker_keys(m: u8)
    ensures
        key_action(false, ViewV::AccountPicker, (KeyInput { code: KeyCode::Enter, modifiers: m }))
            == Some(Action::SelectAccount),
        key_action(false, ViewV::AccountPicker, (KeyInput { code: KeyCode::Char('q'), modifiers: m }))
            == Some(Action::Back),
        key_action(false, ViewV::AccountPicker, (KeyInput { code: KeyCode::Esc, modifiers: m }))
            == Some(Action::Back),
{
}

/// While help is shown, a key either closes it or does nothing, and `?`,
/// `q`, Esc and F1 close it.
pub proof fn lemma_help_keys(top: ViewV, k: KeyInput)
    ensures
        key_action(true, top, k) is None || key_action(true, top, k) == Some(Action::ToggleHelp),
        (k.code == KeyCode::Esc || k.code == KeyCode::F(1) || k.code == KeyCode::Char('?') || k.code
            == KeyCode::Char('q')) ==> key_action(true, top, k) == Some(Action::ToggleHelp),
{
}

} // verus!
