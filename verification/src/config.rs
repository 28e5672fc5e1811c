//! Settings of the Wayland compositor: appearance, workspace names and the
//! keyboard shortcuts with the actions they trigger.
use vstd::prelude::*;
use crate::keymap::{BindingKey, BindingMap};
use crate::wm_core::mods;

verus! {

/// What a keyboard shortcut does.
#[derive(Clone, Debug)]
pub enum Action {
    /// Runs a shell command.
    Spawn(String),
    /// Stops the compositor.
    Quit,
}

/// What an action stands for in contracts.
pub enum ActionView {
    Spawn(Seq<char>),
    Quit,
}

impl Action {
    /// The action as a value of contracts.
    pub open spec fn view(&self) -> ActionView {
        match self {
            Action::Spawn(cmd) => ActionView::Spawn(cmd@),
            Action::Quit => ActionView::Quit,
        }
    }

    /// A copy of the action.
    pub fn duplicate(&self) -> (a: Action)
        ensures
            a@ == self@,
    {
        match self {
            Action::Spawn(cmd) => Action::Spawn(cmd.clone()),
            Action::Quit => Action::Quit,
        }
    }
}

/// A modifier mask and a key.
#[derive(Clone, Copy, Debug, PartialEq, Eq, Hash, Structural)]
pub struct Shortcut {
    pub modifier: u32,
    pub key: u32,
}

impl BindingKey for Shortcut {
    fn same_key(&self, other: &Self) -> (b: bool) {
        self.modifier == other.modifier && self.key == other.key
    }
}

/// Settings of the compositor.
#[derive(Clone, Debug)]
pub struct RustileConfig {
    pub border_width: u32,
    pub color_focus: u32,
    pub color_normal: u32,
    pub gap_size: u32,
    pub workspaces: Vec<String>,
    pub shortcuts: BindingMap<Shortcut, Action>,
}

/// Whether `c` holds the default settings: borders of 2 pixels, the focus
/// colour 0xffaa00, the normal colour 0x444444, gaps of 5 pixels, the
/// workspaces "1" to "4", and two shortcuts: Super with key 36 opens
/// `weston-terminal`, Super with key 24 quits.
pub open spec fn is_default_config(c: RustileConfig) -> bool {
    let terminal = Shortcut { modifier: 64, key: 36 };
    let quit = Shortcut { modifier: 64, key: 24 };
    &&& c.border_width == 2
    &&& c.color_focus == 0xffaa00
    &&& c.color_normal == 0x444444
    &&& c.gap_size == 5
    &&& c.workspaces@.len() == 4
    &&& c.workspaces@[0]@ == "1"@
    &&& c.workspaces@[1]@ == "2"@
    &&& c.workspaces@[2]@ == "3"@
    &&& c.workspaces@[3]@ == "4"@
    &&& c.shortcuts.wf()
    &&& c.shortcuts@.dom() == set![terminal, quit]
    &&& c.shortcuts@[terminal]@ == ActionView::Spawn("weston-terminal"@)
    &&& c.shortcuts@[quit]@ == ActionView::Quit
}

impl Default for RustileConfig {
    fn default() -> (c: Self)
        ensures
            is_default_config(c),
    {
        let mut shortcuts: BindingMap<Shortcut, Action> = BindingMap::new();
        shortcuts.insert(Shortcut { modifier: 64, key: 36 }, Action::Spawn("weston-terminal".to_owned()));
        shortcuts.insert(Shortcut { modifier: 64, key: 24 }, Action::Quit);
        let mut workspaces: Vec<String> = Vec::new();
        workspaces.push("1".to_owned());
        workspaces.push("2".to_owned());
        workspaces.push("3".to_owned());
        workspaces.push("4".to_owned());
        let c = RustileConfig {
            border_width: 2,
            color_focus: 0xffaa00,
            color_normal: 0x444444,
            gap_size: 5,
            workspaces,
            shortcuts,
        };
        assert(c.shortcuts@.dom() =~= set![Shortcut { modifier: 64, key: 36 }, Shortcut { modifier: 64, key: 24 }]);
        c
    }
}

/// The first shortcut, in the order of `entries`, whose modifier is
/// `modifier` and whose key is among `keysyms`.
pub open spec fn first_matching(entries: Seq<(Shortcut, Action)>, modifier: u32, keysyms: Seq<u32>) -> Option<int> {
    if exists|i: int| 0 <= i < entries.len() && #[trigger] shortcut_matches(entries[i].0, modifier, keysyms) {
        Some(choose|i: int|
            0 <= i < entries.len() && #[trigger] shortcut_matches(entries[i].0, modifier, keysyms) && forall|j: int|
                0 <= j < i ==> !shortcut_matches(entries[j].0, modifier, keysyms))
    } else {
        None
    }
}

/// Whether a press with the modifiers `modifier` that produced the keysyms
/// `keysyms` triggers `s`.
pub open spec fn shortcut_matches(s: Shortcut, modifier: u32, keysyms: Seq<u32>) -> bool {
    s.modifier == modifier && keysyms.contains(s.key)
}

impl RustileConfig {
    /// Replaces the shortcuts.
    pub fn set_shortcut(&mut self, keys: BindingMap<Shortcut, Action>)
        ensures
            final(self).shortcuts == keys,
            final(self).border_width == old(self).border_width,
            final(self).color_focus == old(self).color_focus,
            final(self).color_normal == old(self).color_normal,
            final(self).gap_size == old(self).gap_size,
            final(self).workspaces == old(self).workspaces,
    {
        self.shortcuts = keys;
    }

    /// The action of the first shortcut (in the order the shortcuts were
    /// bound) whose modifier is `modifier` and whose key is among `keysyms`.
    pub fn action_for(&self, modifier: u32, keysyms: &Vec<u32>) -> (r: Option<Action>)
        ensures
            match first_matching(self.shortcuts.entries(), modifier, keysyms@) {
                Some(i) => r matches Some(a) && a@ == self.shortcuts.entries()[i].1@,
                None => r is None,
            },
    {
        let ghost e = self.shortcuts.entries();
        let n = self.shortcuts.len();
        let mut i: usize = 0;
        while i < n
            invariant
                e == self.shortcuts.entries(),
                n == e.len(),
                i <= n,
                forall|j: int| 0 <= j < i ==> !#[trigger] shortcut_matches(e[j].0, modifier, keysyms@),
            decreases n - i,
        {
            let (s, a) = self.shortcuts.entry(i);
            if s.modifier == modifier && crate::props::contains_atom(keysyms.as_slice(), s.key) {
                proof {
                    assert(shortcut_matches(e[i as int].0, modifier, keysyms@));
                    assert(0 <= i < e.len() && shortcut_matches(e[i as int].0, modifier, keysyms@)
                        && forall|j: int| 0 <= j < i ==> !shortcut_matches(e[j].0, modifier, keysyms@));
                    let k = first_matching(e, modifier, keysyms@)->0;
                    assert(k == i) by {
                        if k < i {
                            assert(!shortcut_matches(e[k].0, modifier, keysyms@));
                        }
                        if k > i {
                            assert(!shortcut_matches(e[i as int].0, modifier, keysyms@));
                        }
                    }
                }
                return Some(a.duplicate());
            }
            i = i + 1;
        }
        None
    }
}

/// The modifier mask of a key press: Alt, Control, Super and Shift add
/// their bits (`mods::ALT`, `mods::CONTROL`, `mods::MOD_4`, `mods::SHIFT`).
pub fn modifier_mask(alt: bool, ctrl: bool, logo: bool, shift: bool) -> (m: u32)
    ensures
        m == (if alt { mods::ALT as int } else { 0 }) + (if ctrl { mods::CONTROL as int } else { 0 }) + (
        if logo { mods::MOD_4 as int } else { 0 }) + (if shift { mods::SHIFT as int } else { 0 }),
{
    let mut m: u32 = 0;
    if alt {
        m = m + mods::ALT as u32;
    }
    if ctrl {
        m = m + mods::CONTROL as u32;
    }
    if logo {
        m = m + mods::MOD_4 as u32;
    }
    if shift {
        m = m + mods::SHIFT as u32;
    }
    m
}

} // verus!
