//! The state of the X11 window manager and the decisions it takes on each
//! event: which windows a workspace holds, which has the focus, which
//! float, and where windows go when workspaces change.
use std::collections::HashSet;
use vstd::prelude::*;
use crate::wm_core::{
    WindowId, Workspace, Stack, RustileConfig, decimal, decimal_string, without, focus_after_removal,
    position_of, start_position, lemma_position_of, spec_rotate, spec_swap,
};

verus! {

/// The number of workspaces the window manager starts with.
pub const WORKSPACE_COUNT: u32 = 9;

/// The state of the window manager apart from its connection to the X
/// server.
#[derive(Debug)]
pub struct WmState {
    pub workspaces: Vec<Workspace>,
    pub current_workspace: usize,
    pub floating_windows: HashSet<WindowId>,
    pub bar_height: u32,
    pub config: RustileConfig,
}

/// A change of the focus: the window that had it and the one that has it.
#[derive(Clone, Copy, Debug, PartialEq, Eq, Structural)]
pub struct FocusChange {
    pub previous: WindowId,
    pub current: WindowId,
}

/// The windows to hide and to show when the view changes workspace, and
/// the change of focus on the workspace shown (none where it is empty).
#[derive(Debug)]
pub struct WorkspaceSwitch {
    pub hidden: Vec<WindowId>,
    pub shown: Vec<WindowId>,
    pub focus: Option<FocusChange>,
}

/// How often `w` occurs among the clients of the workspaces.
pub open spec fn occurrences(wss: Seq<Workspace>, w: WindowId) -> nat
    decreases wss.len(),
{
    if wss.len() == 0 {
        0
    } else {
        occurrences(wss.drop_last(), w) + wss.last().stack.clients@.to_multiset().count(w)
    }
}

/// The floating windows after toggling `f`: it stops floating where it
/// floated, and floats otherwise.
pub open spec fn toggled(floating: Set<WindowId>, f: WindowId) -> Set<WindowId> {
    if floating.contains(f) {
        floating.remove(f)
    } else {
        floating.insert(f)
    }
}

/// The windows of `clients` that float, in order.
pub open spec fn floating_part(clients: Seq<WindowId>, floating: Set<WindowId>) -> Seq<WindowId> {
    clients.filter(|w: WindowId| floating.contains(w))
}

/// The windows of `clients` that are tiled, in order.
pub open spec fn tiled_part(clients: Seq<WindowId>, floating: Set<WindowId>) -> Seq<WindowId> {
    clients.filter(|w: WindowId| !floating.contains(w))
}

impl WmState {
    /// The state is consistent: there is a workspace, and the current one
    /// exists.
    pub open spec fn wf(&self) -> bool {
        &&& self.workspaces@.len() >= 1
        &&& self.current_workspace < self.workspaces@.len()
    }

    /// The clients of the `k`-th workspace.
    pub open spec fn clients_of(&self, k: int) -> Seq<WindowId> {
        self.workspaces@[k].stack.clients@
    }

    /// The focused window of the `k`-th workspace.
    pub open spec fn focus_of(&self, k: int) -> WindowId {
        self.workspaces@[k].stack.focused
    }

    /// The clients of the current workspace.
    pub open spec fn current_clients(&self) -> Seq<WindowId> {
        self.clients_of(self.current_workspace as int)
    }

    /// The focused window of the current workspace.
    pub open spec fn current_focus(&self) -> WindowId {
        self.focus_of(self.current_workspace as int)
    }

    /// Whether `self` and `other` differ at most in the stack of the
    /// `k`-th workspace.
    pub open spec fn same_except_stack(&self, other: &WmState, k: int) -> bool {
        &&& self.workspaces@.len() == other.workspaces@.len()
        &&& forall|j: int| 0 <= j < self.workspaces@.len() && j != k ==> self.workspaces@[j] == other.workspaces@[j]
        &&& self.workspaces@[k].id == other.workspaces@[k].id
        &&& self.workspaces@[k].name == other.workspaces@[k].name
        &&& self.current_workspace == other.current_workspace
        &&& self.floating_windows == other.floating_windows
        &&& self.bar_height == other.bar_height
        &&& self.config == other.config
    }

    /// Nine empty workspaces named "1" to "9" (numbered 1 to 9), the first
    /// one shown, no floating window, no panel, the default settings.
    pub fn new() -> (s: Self)
        ensures
            s.wf(),
            s.workspaces@.len() == WORKSPACE_COUNT,
            forall|k: int|
                0 <= k < s.workspaces@.len() ==> {
                    &&& #[trigger] s.workspaces@[k].id == k + 1
                    &&& s.workspaces@[k].name@ == decimal((k + 1) as nat)
                    &&& s.workspaces@[k].stack.focused == 0
                    &&& s.workspaces@[k].stack.clients@ == Seq::<WindowId>::empty()
                },
            s.current_workspace == 0,
            s.floating_windows@ == Set::<WindowId>::empty(),
            s.bar_height == 0,
            s.config == RustileConfig::spec_default(),
    {
        let mut workspaces: Vec<Workspace> = Vec::new();
        let mut i: u32 = 1;
        while i <= WORKSPACE_COUNT
            invariant
                1 <= i <= WORKSPACE_COUNT + 1,
                workspaces@.len() == i - 1,
                forall|k: int|
                    0 <= k < workspaces@.len() ==> {
                        &&& #[trigger] workspaces@[k].id == k + 1
                        &&& workspaces@[k].name@ == decimal((k + 1) as nat)
                        &&& workspaces@[k].stack.focused == 0
                        &&& workspaces@[k].stack.clients@ == Seq::<WindowId>::empty()
                    },
            decreases WORKSPACE_COUNT + 1 - i,
        {
            let name = decimal_string(i);
            workspaces.push(Workspace::new(i, name.as_str()));
            i = i + 1;
        }
        WmState {
            workspaces,
            current_workspace: 0,
            floating_windows: HashSet::new(),
            bar_height: 0,
            config: RustileConfig::default(),
        }
    }

    /// Replaces the appearance settings.
    pub fn set_config(&mut self, config: RustileConfig)
        ensures
            final(self).config == config,
            final(self).workspaces@ == old(self).workspaces@,
            final(self).current_workspace == old(self).current_workspace,
            final(self).floating_windows@ == old(self).floating_windows@,
            final(self).bar_height == old(self).bar_height,
    {
        self.config = config;
    }

    /// Records the height of the panel.
    pub fn set_bar_height(&mut self, height: u32)
        ensures
            final(self).bar_height == height,
            final(self).config == old(self).config,
            final(self).workspaces@ == old(self).workspaces@,
            final(self).current_workspace == old(self).current_workspace,
            final(self).floating_windows@ == old(self).floating_windows@,
    {
        self.bar_height = height;
    }

    /// The current workspace.
    pub fn current(&self) -> (w: &Workspace)
        requires
            self.wf(),
        ensures
            *w == self.workspaces@[self.current_workspace as int],
    {
        &self.workspaces[self.current_workspace]
    }

    /// The focused window of the current workspace (0 for none).
    pub fn focused(&self) -> (w: WindowId)
        requires
            self.wf(),
        ensures
            w == self.current_focus(),
    {
        self.workspaces[self.current_workspace].stack.focused
    }

    /// Whether `win` floats.
    pub fn is_floating(&self, win: WindowId) -> (b: bool)
        ensures
            b == self.floating_windows@.contains(win),
    {
        broadcast use vstd::std_specs::hash::group_hash_axioms;

        self.floating_windows.contains(&win)
    }

    /// Adds `win` to the current workspace's clients, after the others.
    pub fn push_client(&mut self, win: WindowId)
        requires
            old(self).wf(),
        ensures
            final(self).wf(),
            final(self).same_except_stack(old(self), old(self).current_workspace as int),
            final(self).current_clients() == old(self).current_clients().push(win),
            final(self).current_focus() == old(self).current_focus(),
    {
        let c = self.current_workspace;
        self.workspaces[c].stack.clients.push(win);
    }

    /// Adds `win` to the current workspace's clients, after the others, and
    /// focuses it.
    pub fn add_client(&mut self, win: WindowId)
        requires
            old(self).wf(),
        ensures
            final(self).wf(),
            final(self).same_except_stack(old(self), old(self).current_workspace as int),
            final(self).current_clients() == old(self).current_clients().push(win),
            final(self).current_focus() == win,
    {
        let c = self.current_workspace;
        self.workspaces[c].stack.add(win);
    }

    /// A window went away: it leaves the current workspace's clients, and
    /// when it had the focus, the focus passes to the last remaining client
    /// (or to none). Returns the window that has the focus afterwards.
    pub fn remove_client(&mut self, win: WindowId) -> (focus: WindowId)
        requires
            old(self).wf(),
        ensures
            final(self).wf(),
            final(self).same_except_stack(old(self), old(self).current_workspace as int),
            final(self).current_clients() == without(old(self).current_clients(), win),
            final(self).current_focus() == focus_after_removal(
                old(self).current_clients(),
                old(self).current_focus(),
                win,
            ),
            focus == final(self).current_focus(),
    {
        let c = self.current_workspace;
        self.workspaces[c].stack.remove_client(win)
    }

    /// Gives the focus of the current workspace to `win`.
    pub fn set_focus(&mut self, win: WindowId) -> (change: FocusChange)
        requires
            old(self).wf(),
        ensures
            final(self).wf(),
            final(self).same_except_stack(old(self), old(self).current_workspace as int),
            final(self).current_clients() == old(self).current_clients(),
            final(self).current_focus() == win,
            change == (FocusChange { previous: old(self).current_focus(), current: win }),
    {
        let c = self.current_workspace;
        let previous = self.workspaces[c].stack.focused;
        self.workspaces[c].stack.focused = win;
        FocusChange { previous, current: win }
    }

    /// Moves the focus `direction` places round the current workspace's
    /// clients. Nothing changes with fewer than two clients.
    pub fn move_focus(&mut self, direction: i32) -> (change: Option<FocusChange>)
        requires
            old(self).wf(),
            old(self).current_clients().len() >= 2 ==> Stack::step_fits(
                old(self).current_clients(),
                start_position(old(self).current_clients(), old(self).current_focus()),
                direction,
            ),
        ensures
            final(self).wf(),
            final(self).same_except_stack(old(self), old(self).current_workspace as int),
            final(self).current_clients() == old(self).current_clients(),
            old(self).current_clients().len() < 2 ==> change is None && final(self).current_focus()
                == old(self).current_focus(),
            old(self).current_clients().len() >= 2 ==> {
                &&& final(self).current_focus() == spec_rotate(
                    old(self).current_clients(),
                    old(self).current_focus(),
                    direction as int,
                )
                &&& change == Some(
                    FocusChange {
                        previous: old(self).current_focus(),
                        current: final(self).current_focus(),
                    },
                )
            },
    {
        let c = self.current_workspace;
        if self.workspaces[c].stack.clients.len() < 2 {
            return None;
        }
        let previous = self.workspaces[c].stack.focused;
        self.workspaces[c].stack.rotate_focus(direction);
        let current = self.workspaces[c].stack.focused;
        Some(FocusChange { previous, current })
    }

    /// Moves the focused window `direction` places round the current
    /// workspace's clients (see `Stack::swap`).
    pub fn swap(&mut self, direction: i32)
        requires
            old(self).wf(),
            old(self).current_clients().len() >= 2 && position_of(
                old(self).current_clients(),
                old(self).current_focus(),
            ) is Some ==> Stack::step_fits(
                old(self).current_clients(),
                start_position(old(self).current_clients(), old(self).current_focus()),
                direction,
            ),
        ensures
            final(self).wf(),
            final(self).same_except_stack(old(self), old(self).current_workspace as int),
            final(self).current_focus() == old(self).current_focus(),
            final(self).current_clients() == spec_swap(
                old(self).current_clients(),
                old(self).current_focus(),
                direction as int,
            ),
    {
        let c = self.current_workspace;
        self.workspaces[c].stack.swap(direction);
    }

    /// Shows workspace `index`. Nothing changes where it is the current one
    /// or does not exist; otherwise the windows of the old workspace are to
    /// be hidden and those of the new one shown, and the first window of
    /// the new workspace, where it has one, gets its focus.
    pub fn go_to_workspace(&mut self, index: usize) -> (switch: Option<WorkspaceSwitch>)
        requires
            old(self).wf(),
        ensures
            final(self).wf(),
            final(self).floating_windows@ == old(self).floating_windows@,
            final(self).bar_height == old(self).bar_height,
            final(self).config == old(self).config,
            (index == old(self).current_workspace || index >= old(self).workspaces@.len()) ==> {
                &&& switch is None
                &&& final(self).current_workspace == old(self).current_workspace
                &&& final(self).workspaces@ == old(self).workspaces@
            },
            !(index == old(self).current_workspace || index >= old(self).workspaces@.len()) ==> {
                let k = index as int;
                let shown = old(self).clients_of(k);
                &&& final(self).current_workspace == index
                &&& final(self).workspaces@.len() == old(self).workspaces@.len()
                &&& forall|j: int|
                    0 <= j < old(self).workspaces@.len() && j != k ==> #[trigger] final(self).workspaces@[j]
                        == old(self).workspaces@[j]
                &&& final(self).workspaces@[k].id == old(self).workspaces@[k].id
                &&& final(self).workspaces@[k].name == old(self).workspaces@[k].name
                &&& final(self).clients_of(k) == shown
                &&& final(self).focus_of(k) == (if shown.len() > 0 {
                    shown[0]
                } else {
                    old(self).focus_of(k)
                })
                &&& switch matches Some(sw) && sw.hidden@ == old(self).current_clients() && sw.shown@
                    == shown && sw.focus == (if shown.len() > 0 {
                    Some(FocusChange { previous: old(self).focus_of(k), current: shown[0] })
                } else {
                    None
                })
            },
    {
        if index == self.current_workspace || index >= self.workspaces.len() {
            return None;
        }
        let hidden = self.workspaces[self.current_workspace].stack.clients.clone();
        self.current_workspace = index;
        let shown = self.workspaces[index].stack.clients.clone();
        let focus = if shown.len() > 0 {
            Some(self.set_focus(shown[0]))
        } else {
            None
        };
        Some(WorkspaceSwitch { hidden, shown, focus })
    }

    /// Sends the focused window of the current workspace to workspace
    /// `target`, where it is added after the other clients and gets the
    /// focus. The focus of the current workspace passes to its first
    /// remaining client, or to no window (0) where none remains. Nothing
    /// changes where `target` is the current workspace or does not exist,
    /// or where the focused window is not among the current workspace's
    /// clients. Returns the window that moved.
    pub fn move_to_workspace(&mut self, target: usize) -> (moved: Option<WindowId>)
        requires
            old(self).wf(),
        ensures
            final(self).wf(),
            final(self).current_workspace == old(self).current_workspace,
            final(self).floating_windows@ == old(self).floating_windows@,
            final(self).bar_height == old(self).bar_height,
            final(self).config == old(self).config,
            final(self).workspaces@.len() == old(self).workspaces@.len(),
            ({
                let cur = old(self).current_workspace as int;
                let s = old(self).current_clients();
                let f = old(self).current_focus();
                if target == cur || target >= old(self).workspaces@.len() || position_of(s, f) is None {
                    &&& moved is None
                    &&& final(self).workspaces@ == old(self).workspaces@
                } else {
                    let p = start_position(s, f);
                    &&& moved == Some(f)
                    &&& final(self).clients_of(cur) == s.remove(p)
                    &&& final(self).focus_of(cur) == (if final(self).clients_of(cur).len() > 0 {
                        final(self).clients_of(cur)[0]
                    } else {
                        0
                    })
                    &&& final(self).clients_of(target as int) == old(self).clients_of(target as int).push(f)
                    &&& final(self).focus_of(target as int) == f
                    &&& forall|j: int|
                        0 <= j < old(self).workspaces@.len() && j != cur && j != target ==> #[trigger] final(self).workspaces@[j] == old(self).workspaces@[j]
                    &&& final(self).workspaces@[cur].id == old(self).workspaces@[cur].id
                    &&& final(self).workspaces@[cur].name == old(self).workspaces@[cur].name
                    &&& final(self).workspaces@[target as int].id == old(self).workspaces@[target as int].id
                    &&& final(self).workspaces@[target as int].name == old(self).workspaces@[target as int].name
                }
            }),
    {
        let current = self.current_workspace;
        if target == current || target >= self.workspaces.len() {
            return None;
        }
        let focused = self.workspaces[current].stack.focused;
        match self.workspaces[current].stack.position(focused) {
            Some(pos) => {
                proof {
                    lemma_position_of(old(self).current_clients(), focused);
                }
                let id = self.workspaces[current].stack.clients.remove(pos);
                let rest_focus = if self.workspaces[current].stack.clients.len() > 0 {
                    self.workspaces[current].stack.clients[0]
                } else {
                    0
                };
                self.workspaces[current].stack.focused = rest_focus;
                self.workspaces[target].stack.clients.push(id);
                self.workspaces[target].stack.focused = id;
                Some(id)
            },
            None => None,
        }
    }

    /// Marks `win` as floating (no effect where it already floats).
    pub fn make_floating(&mut self, win: WindowId)
        requires
            old(self).wf(),
        ensures
            final(self).wf(),
            final(self).floating_windows@ == old(self).floating_windows@.insert(win),
            final(self).workspaces@ == old(self).workspaces@,
            final(self).current_workspace == old(self).current_workspace,
            final(self).bar_height == old(self).bar_height,
            final(self).config == old(self).config,
    {
        broadcast use vstd::std_specs::hash::group_hash_axioms;

        self.floating_windows.insert(win);
    }

    /// Stops `win` floating (no effect where it does not float).
    pub fn make_tiled(&mut self, win: WindowId)
        requires
            old(self).wf(),
        ensures
            final(self).wf(),
            final(self).floating_windows@ == old(self).floating_windows@.remove(win),
            final(self).workspaces@ == old(self).workspaces@,
            final(self).current_workspace == old(self).current_workspace,
            final(self).bar_height == old(self).bar_height,
            final(self).config == old(self).config,
    {
        broadcast use vstd::std_specs::hash::group_hash_axioms;

        self.floating_windows.remove(&win);
    }

    /// Floats the focused window of the current workspace, or tiles it
    /// again where it floats. Nothing changes where no window has the
    /// focus. Returns whether the window floats afterwards.
    pub fn toggle_float(&mut self) -> (floats: Option<bool>)
        requires
            old(self).wf(),
        ensures
            final(self).wf(),
            final(self).workspaces@ == old(self).workspaces@,
            final(self).current_workspace == old(self).current_workspace,
            final(self).bar_height == old(self).bar_height,
            final(self).config == old(self).config,
            ({
                let f = old(self).current_focus();
                let before = old(self).floating_windows@;
                if f == 0 {
                    floats is None && final(self).floating_windows@ == before
                } else {
                    &&& floats == Some(!before.contains(f))
                    &&& final(self).floating_windows@ == toggled(before, f)
                }
            }),
    {
        let focused = self.focused();
        if focused == 0 {
            return None;
        }
        if self.is_floating(focused) {
            self.make_tiled(focused);
            Some(false)
        } else {
            self.make_floating(focused);
            Some(true)
        }
    }

    /// The current workspace's clients split into the floating ones (to be
    /// raised above the others) and the tiled ones, each in client order.
    pub fn split_clients(&self) -> (parts: (Vec<WindowId>, Vec<WindowId>))
        requires
            self.wf(),
        ensures
            parts.0@ == floating_part(self.current_clients(), self.floating_windows@),
            parts.1@ == tiled_part(self.current_clients(), self.floating_windows@),
    {
        let clients = &self.workspaces[self.current_workspace].stack.clients;
        let ghost s = clients@;
        let ghost fl = self.floating_windows@;
        let ghost pf = |w: WindowId| fl.contains(w);
        let ghost pt = |w: WindowId| !fl.contains(w);
        let mut raised: Vec<WindowId> = Vec::new();
        let mut tiled: Vec<WindowId> = Vec::new();
        let mut i: usize = 0;
        proof {
            assert(s.take(0) =~= Seq::<WindowId>::empty());
            reveal(Seq::filter);
        }
        while i < clients.len()
            invariant
                s == clients@,
                fl == self.floating_windows@,
                pf == (|w: WindowId| fl.contains(w)),
                pt == (|w: WindowId| !fl.contains(w)),
                i <= s.len(),
                raised@ == s.take(i as int).filter(pf),
                tiled@ == s.take(i as int).filter(pt),
            decreases s.len() - i,
        {
            let w = clients[i];
            if self.is_floating(w) {
                raised.push(w);
            } else {
                tiled.push(w);
            }
            proof {
                let t = s.take(i + 1);
                assert(t.drop_last() =~= s.take(i as int));
                assert(t.last() == w);
                reveal(Seq::filter);
                assert(pf(w) == fl.contains(w));
                assert(pt(w) == !fl.contains(w));
            }
            i = i + 1;
        }
        proof {
            assert(s.take(s.len() as int) =~= s);
        }
        (raised, tiled)
    }

    /// Where a window that was already on screen when the window manager
    /// started goes: windows that ask to be left alone
    /// (`override_redirect`) nowhere; a window with a workspace tag to that
    /// workspace (the last one where the tag is beyond it); an untagged
    /// window to the current workspace if it is mapped, and nowhere
    /// otherwise.
    pub fn adoption_target(&self, override_redirect: bool, tag: Option<u32>, is_mapped: bool) -> (ws: Option<usize>)
        requires
            self.wf(),
        ensures
            ({
                let n = self.workspaces@.len();
                if override_redirect || (tag is None && !is_mapped) {
                    ws is None
                } else {
                    let t = match tag {
                        Some(v) => v as int,
                        None => self.current_workspace as int,
                    };
                    ws == Some((if t < n - 1 { t } else { n - 1 }) as usize)
                }
            }),
    {
        if override_redirect {
            return None;
        }
        let mut target = self.current_workspace;
        let mut is_window_mine = false;
        match tag {
            Some(v) => {
                target = v as usize;
                is_window_mine = true;
            },
            None => {},
        }
        if is_window_mine || is_mapped {
            let last = self.workspaces.len() - 1;
            let ws = if target < last { target } else { last };
            return Some(ws);
        }
        None
    }

    /// Adds `win` after the clients of workspace `k`.
    pub fn push_client_to(&mut self, k: usize, win: WindowId)
        requires
            old(self).wf(),
            k < old(self).workspaces@.len(),
        ensures
            final(self).wf(),
            final(self).same_except_stack(old(self), k as int),
            final(self).clients_of(k as int) == old(self).clients_of(k as int).push(win),
            final(self).focus_of(k as int) == old(self).focus_of(k as int),
    {
        self.workspaces[k].stack.clients.push(win);
    }

    /// Adopts a window that was already on screen when the window manager
    /// started (see `adoption_target`): it is added after the clients of
    /// its workspace. Returns that workspace.
    pub fn adopt(&mut self, win: WindowId, override_redirect: bool, tag: Option<u32>, is_mapped: bool) -> (ws: Option<usize>)
        requires
            old(self).wf(),
        ensures
            final(self).wf(),
            ({
                let n = old(self).workspaces@.len();
                if override_redirect || (tag is None && !is_mapped) {
                    ws is None && final(self).workspaces@ == old(self).workspaces@
                        && final(self).current_workspace == old(self).current_workspace
                        && final(self).floating_windows == old(self).floating_windows
                        && final(self).bar_height == old(self).bar_height
                        && final(self).config == old(self).config
                } else {
                    let t = match tag {
                        Some(v) => v as int,
                        None => old(self).current_workspace as int,
                    };
                    let k = if t < n - 1 { t } else { n - 1 };
                    &&& ws == Some(k as usize)
                    &&& final(self).same_except_stack(old(self), k)
                    &&& final(self).clients_of(k) == old(self).clients_of(k).push(win)
                    &&& final(self).focus_of(k) == old(self).focus_of(k)
                }
            }),
    {
        let target = self.adoption_target(override_redirect, tag, is_mapped);
        match target {
            Some(k) => {
                self.push_client_to(k, win);
                Some(k)
            },
            None => None,
        }
    }
}

/// `occurrences` after one workspace changes.
proof fn lemma_occurrences_update(wss: Seq<Workspace>, k: int, x: Workspace, w: WindowId)
    requires
        0 <= k < wss.len(),
    ensures
        occurrences(wss.update(k, x), w) + wss[k].stack.clients@.to_multiset().count(w) == occurrences(wss, w)
            + x.stack.clients@.to_multiset().count(w),
    decreases wss.len(),
{
    let u = wss.update(k, x);
    if k == wss.len() - 1 {
        assert(u.drop_last() =~= wss.drop_last());
    } else {
        assert(u.drop_last() =~= wss.drop_last().update(k, x));
        lemma_occurrences_update(wss.drop_last(), k, x, w);
    }
}

/// Sending a window to another workspace neither loses nor duplicates a
/// window: every window occurs as often among all the workspaces' clients
/// as before.
pub proof fn lemma_move_keeps_windows(before: Seq<Workspace>, after: Seq<Workspace>, cur: int, target: int, f: WindowId, w: WindowId)
    requires
        0 <= cur < before.len(),
        0 <= target < before.len(),
        cur != target,
        position_of(before[cur].stack.clients@, f) is Some,
        after.len() == before.len(),
        after[cur].stack.clients@ == before[cur].stack.clients@.remove(
            start_position(before[cur].stack.clients@, f),
        ),
        after[target].stack.clients@ == before[target].stack.clients@.push(f),
        forall|j: int| 0 <= j < before.len() && j != cur && j != target ==> #[trigger] after[j] == before[j],
    ensures
        occurrences(after, w) == occurrences(before, w),
{
    broadcast use vstd::seq_lib::to_multiset_remove, vstd::seq_lib::to_multiset_build, vstd::multiset::group_multiset_axioms;

    let s = before[cur].stack.clients@;
    lemma_position_of(s, f);
    let p = start_position(s, f);
    let mid = before.update(cur, after[cur]);
    lemma_occurrences_update(before, cur, after[cur], w);
    lemma_occurrences_update(mid, target, after[target], w);
    assert(mid.update(target, after[target]) =~= after);
    assert(s.remove(p).to_multiset() == s.to_multiset().remove(f));
    assert(before[target].stack.clients@.push(f).to_multiset() == before[target].stack.clients@.to_multiset().insert(f));
    vstd::seq_lib::to_multiset_contains(s, f);
}

/// Toggling the same window twice leaves the set of floating windows as it
/// was.
pub proof fn lemma_toggle_twice(before: Set<WindowId>, f: WindowId)
    ensures
        toggled(toggled(before, f), f) == before,
{
    assert(toggled(toggled(before, f), f) =~= before);
}

} // verus!
