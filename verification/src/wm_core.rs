//! The window manager's core model: the focus stack of a workspace, the
//! workspaces themselves and the X11 appearance settings.
use vstd::prelude::*;

pub mod mods;

verus! {

/// Identifier of an X11 window. The value 0 stands for "no window".
pub type WindowId = u32;

/// Appearance settings of the X11 window manager.
#[derive(Clone, Copy, Debug, PartialEq, Eq, Structural)]
pub struct RustileConfig {
    pub border_width: u32,
    pub color_focus: u32,
    pub color_normal: u32,
    pub gap_size: u32,
}

impl Default for RustileConfig {
    fn default() -> (c: Self)
        ensures
            c == RustileConfig::spec_default(),
    {
        RustileConfig { border_width: 2, color_focus: 0x44475a, color_normal: 0xbd93f9, gap_size: 10 }
    }
}

impl RustileConfig {
    /// The settings a fresh window manager starts with.
    pub open spec fn spec_default() -> RustileConfig {
        RustileConfig { border_width: 2, color_focus: 0x44475a, color_normal: 0xbd93f9, gap_size: 10 }
    }

    /// The border colour of a window: the focus colour for the focused
    /// window, the normal colour for every other.
    pub fn border_color(&self, is_focused: bool) -> (color: u32)
        ensures
            color == if is_focused { self.color_focus } else { self.color_normal },
    {
        if is_focused {
            self.color_focus
        } else {
            self.color_normal
        }
    }
}

/// The index of the first occurrence of `w` in `s`, if any.
pub open spec fn position_of(s: Seq<WindowId>, w: WindowId) -> Option<int> {
    s.index_of_first(w)
}

/// What `position_of` means.
pub proof fn lemma_position_of(s: Seq<WindowId>, w: WindowId)
    ensures
        match position_of(s, w) {
            Some(i) => 0 <= i < s.len() && s[i] == w && forall|j: int| 0 <= j < i ==> s[j] != w,
            None => !s.contains(w),
        },
{
    s.index_of_first_ensures(w);
}

/// The position reached from `pos` after `direction` steps in a ring of
/// `len` places (Euclidean remainder).
pub open spec fn ring_step(pos: int, direction: int, len: int) -> int {
    (pos + direction) % len
}

/// `s` with the elements at `i` and `j` exchanged.
pub open spec fn swapped(s: Seq<WindowId>, i: int, j: int) -> Seq<WindowId> {
    s.update(i, s[j]).update(j, s[i])
}

/// The position from which a focus-based move starts: the focused
/// window's first position, or 0 where the focused window is not in the
/// list.
pub open spec fn start_position(s: Seq<WindowId>, focused: WindowId) -> int {
    match position_of(s, focused) {
        Some(i) => i,
        None => 0,
    }
}

/// The clients after moving the focused window `direction` places round
/// the list (what `Stack::swap` computes): the window at the focused
/// window's first position and the one `direction` places further are
/// exchanged. With fewer than two clients, or with a focused window that is
/// not among them, the list stays as it is.
pub open spec fn spec_swap(s: Seq<WindowId>, focused: WindowId, direction: int) -> Seq<WindowId> {
    if s.len() >= 2 && position_of(s, focused) is Some {
        let p = start_position(s, focused);
        swapped(s, p, ring_step(p, direction, s.len() as int))
    } else {
        s
    }
}

/// The clients after `Stack::swap_focus`: like `spec_swap`, but a focused
/// window that is not among the clients counts as standing at position 0.
pub open spec fn spec_swap_focus(s: Seq<WindowId>, focused: WindowId, direction: int) -> Seq<
    WindowId,
> {
    if s.len() >= 2 {
        let p = start_position(s, focused);
        swapped(s, p, ring_step(p, direction, s.len() as int))
    } else {
        s
    }
}

/// The window focused after `Stack::rotate_focus`: the client `direction`
/// places after the focused window (or after the first client where the
/// focused window is not among them); the focus stays where it is when
/// there are no clients.
pub open spec fn spec_rotate(s: Seq<WindowId>, focused: WindowId, direction: int) -> WindowId {
    if s.len() == 0 {
        focused
    } else {
        s[ring_step(start_position(s, focused), direction, s.len() as int)]
    }
}

/// The clients other than `w`, in their order.
pub open spec fn without(s: Seq<WindowId>, w: WindowId) -> Seq<WindowId> {
    s.filter(other_than(w))
}

/// The test "is not `w`".
pub open spec fn other_than(w: WindowId) -> spec_fn(WindowId) -> bool {
    |x: WindowId| x != w
}

/// The window that keeps the focus after `w` leaves: the focus is
/// unchanged unless it was `w`, in which case it passes to the last
/// remaining client, or to no window (0) when none remains.
pub open spec fn focus_after_removal(s: Seq<WindowId>, focused: WindowId, w: WindowId) -> WindowId {
    if focused == w {
        let rest = without(s, w);
        if rest.len() > 0 {
            rest.last()
        } else {
            0
        }
    } else {
        focused
    }
}

/// The clients of a workspace, in layout order, and the focused one.
#[derive(Debug)]
pub struct Stack {
    pub focused: WindowId,
    pub clients: Vec<WindowId>,
}

impl Stack {
    /// An empty stack with no focused window.
    pub fn new() -> (s: Self)
        ensures
            s.focused == 0,
            s.clients@ == Seq::<WindowId>::empty(),
    {
        Stack { focused: 0, clients: Vec::new() }
    }

    /// Appends `win` to the clients and focuses it.
    pub fn add(&mut self, win: WindowId)
        ensures
            final(self).clients@ == old(self).clients@.push(win),
            final(self).focused == win,
    {
        self.clients.push(win);
        self.focused = win;
    }

    /// The first position of `win` among the clients.
    pub fn position(&self, win: WindowId) -> (r: Option<usize>)
        ensures
            match r {
                Some(i) => position_of(self.clients@, win) == Some(i as int),
                None => position_of(self.clients@, win) is None,
            },
    {
        let mut i: usize = 0;
        while i < self.clients.len()
            invariant
                i <= self.clients.len(),
                forall|j: int| 0 <= j < i ==> self.clients@[j] != win,
            decreases self.clients.len() - i,
        {
            if self.clients[i] == win {
                proof {
                    lemma_position_of(self.clients@, win);
                }
                return Some(i);
            }
            i = i + 1;
        }
        proof {
            lemma_position_of(self.clients@, win);
        }
        None
    }

    /// Exchanges the clients at positions `i` and `j`.
    fn swap_positions(&mut self, i: usize, j: usize)
        requires
            i < old(self).clients.len(),
            j < old(self).clients.len(),
        ensures
            final(self).clients@ == swapped(old(self).clients@, i as int, j as int),
            final(self).focused == old(self).focused,
    {
        let a = self.clients[i];
        let b = self.clients[j];
        self.clients.set(i, b);
        self.clients.set(j, a);
    }

    /// The position `direction` steps away from `pos`, going round the
    /// clients.
    fn ring_target(pos: usize, direction: i32, len: usize) -> (t: usize)
        requires
            pos < len,
            len <= i32::MAX,
            pos + direction <= i32::MAX,
        ensures
            t == ring_step(pos as int, direction as int, len as int),
            t < len,
    {
        let x: i32 = pos as i32 + direction;
        let m: i32 = len as i32;
        match x.checked_rem_euclid(m) {
            Some(r) => r as usize,
            None => {
                // unreachable: `m` is positive
                0
            },
        }
    }

    /// Whether a move of `direction` steps from the position of the first
    /// client that is `focused` (or from 0) stays inside the `i32` range
    /// that the step is computed in.
    pub open spec fn step_fits(clients: Seq<WindowId>, start: int, direction: i32) -> bool {
        &&& clients.len() <= i32::MAX
        &&& start + direction <= i32::MAX
    }

    /// Whether `Stack::swap(direction)` stays inside the `i32` range.
    pub fn swap_fits(&self, direction: i32) -> (b: bool)
        ensures
            b == (self.clients.len() >= 2 && position_of(self.clients@, self.focused) is Some
                ==> Self::step_fits(self.clients@, start_position(self.clients@, self.focused), direction)),
    {
        if self.clients.len() < 2 {
            return true;
        }
        proof {
            lemma_position_of(self.clients@, self.focused);
        }
        match self.position(self.focused) {
            Some(p) => self.clients.len() <= i32::MAX as usize && (p as i64) + (direction as i64) <= i32::MAX as i64,
            None => true,
        }
    }

    /// Whether `Stack::rotate_focus(direction)` stays inside the `i32`
    /// range.
    pub fn rotate_fits(&self, direction: i32) -> (b: bool)
        ensures
            b == (self.clients.len() >= 1 ==> Self::step_fits(
                self.clients@,
                start_position(self.clients@, self.focused),
                direction,
            )),
    {
        if self.clients.len() < 1 {
            return true;
        }
        proof {
            lemma_position_of(self.clients@, self.focused);
        }
        let p = match self.position(self.focused) {
            Some(p) => p,
            None => 0,
        };
        self.clients.len() <= i32::MAX as usize && (p as i64) + (direction as i64) <= i32::MAX as i64
    }

    /// Moves the focused window `direction` places round the list,
    /// exchanging it with the window there. Nothing happens with fewer
    /// than two clients or when the focused window is not among them.
    pub fn swap(&mut self, direction: i32)
        requires
            old(self).clients.len() >= 2 && position_of(old(self).clients@, old(self).focused) is Some
                ==> Self::step_fits(
                old(self).clients@,
                start_position(old(self).clients@, old(self).focused),
                direction,
            ),
        ensures
            final(self).focused == old(self).focused,
            final(self).clients@ == spec_swap(old(self).clients@, old(self).focused, direction as int),
    {
        let len = self.clients.len();
        if len < 2 {
            return;
        }
        match self.position(self.focused) {
            Some(pos) => {
                proof {
                    lemma_position_of(self.clients@, self.focused);
                }
                let target = Self::ring_target(pos, direction, len);
                self.swap_positions(pos, target);
            },
            None => {},
        }
    }

    /// Like `swap`, but a focused window that is not among the clients
    /// counts as standing at position 0.
    pub fn swap_focus(&mut self, direction: i32)
        requires
            old(self).clients.len() >= 2 ==> Self::step_fits(
                old(self).clients@,
                start_position(old(self).clients@, old(self).focused),
                direction,
            ),
        ensures
            final(self).focused == old(self).focused,
            final(self).clients@ == spec_swap_focus(
                old(self).clients@,
                old(self).focused,
                direction as int,
            ),
    {
        let len = self.clients.len();
        if len < 2 {
            return;
        }
        proof {
            lemma_position_of(self.clients@, self.focused);
        }
        let current_pos = match self.position(self.focused) {
            Some(p) => p,
            None => 0,
        };
        let target = Self::ring_target(current_pos, direction, len);
        self.swap_positions(current_pos, target);
    }

    /// Moves the focus `direction` places round the clients, starting from
    /// the focused window (or from the first client when the focused window
    /// is not among them). The order of the clients does not change.
    pub fn rotate_focus(&mut self, direction: i32)
        requires
            old(self).clients.len() >= 1 ==> Self::step_fits(
                old(self).clients@,
                start_position(old(self).clients@, old(self).focused),
                direction,
            ),
        ensures
            final(self).clients@ == old(self).clients@,
            final(self).focused == spec_rotate(old(self).clients@, old(self).focused, direction as int),
    {
        let len = self.clients.len();
        if len == 0 {
            return;
        }
        proof {
            lemma_position_of(self.clients@, self.focused);
        }
        let current_pos = match self.position(self.focused) {
            Some(p) => p,
            None => 0,
        };
        let next_pos = Self::ring_target(current_pos, direction, len);
        self.focused = self.clients[next_pos];
    }

    /// Takes `win` out of the clients (every occurrence), leaving the focus
    /// as it is.
    pub fn drop_client(&mut self, win: WindowId)
        ensures
            final(self).clients@ == without(old(self).clients@, win),
            final(self).focused == old(self).focused,
    {
        let ghost s = self.clients@;
        let ghost pred = other_than(win);
        let mut kept: Vec<WindowId> = Vec::new();
        let mut i: usize = 0;
        proof {
            reveal(Seq::filter);
            assert(s.take(0) =~= Seq::<WindowId>::empty());
        }
        while i < self.clients.len()
            invariant
                s == self.clients@,
                pred == other_than(win),
                i <= self.clients.len(),
                kept@ == s.take(i as int).filter(pred),
            decreases self.clients.len() - i,
        {
            let c = self.clients[i];
            if c != win {
                kept.push(c);
            }
            proof {
                assert(other_than(win)(c) == (c != win));
                let t = s.take(i + 1);
                assert(t.drop_last() =~= s.take(i as int));
                reveal(Seq::filter);
            }
            i = i + 1;
        }
        proof {
            assert(s.take(s.len() as int) =~= s);
        }
        self.clients = kept;
    }

    /// Takes `win` out of the clients (every occurrence). When `win` had the
    /// focus, the focus passes to the last remaining client, or to no
    /// window (0). Returns the window that has the focus afterwards.
    pub fn remove_client(&mut self, win: WindowId) -> (focus: WindowId)
        ensures
            final(self).clients@ == without(old(self).clients@, win),
            final(self).focused == focus_after_removal(old(self).clients@, old(self).focused, win),
            focus == final(self).focused,
    {
        self.drop_client(win);
        if self.focused == win {
            self.focused = match self.clients.last() {
                Some(last) => *last,
                None => 0,
            };
        }
        self.focused
    }
}

/// One of the virtual desktops: its number, its name and its windows.
#[derive(Debug)]
pub struct Workspace {
    pub id: u32,
    pub name: String,
    pub stack: Stack,
}

impl Workspace {
    /// A workspace with no windows.
    pub fn new(id: u32, name: &str) -> (w: Self)
        ensures
            w.id == id,
            w.name@ == name@,
            w.stack.focused == 0,
            w.stack.clients@ == Seq::<WindowId>::empty(),
    {
        Workspace { id, name: name.to_owned(), stack: Stack::new() }
    }
}

/// The decimal digit `d` as a character.
pub open spec fn digit_char(d: int) -> char {
    if d == 0 { '0' }
    else if d == 1 { '1' }
    else if d == 2 { '2' }
    else if d == 3 { '3' }
    else if d == 4 { '4' }
    else if d == 5 { '5' }
    else if d == 6 { '6' }
    else if d == 7 { '7' }
    else if d == 8 { '8' }
    else { '9' }
}

/// The decimal notation of `n`, without leading zeros.
pub open spec fn decimal(n: nat) -> Seq<char>
    decreases n,
{
    if n < 10 {
        seq![digit_char(n as int)]
    } else {
        decimal(n / 10).push(digit_char((n % 10) as int))
    }
}

fn digit(d: u32) -> (c: char)
    requires
        d < 10,
    ensures
        c == digit_char(d as int),
{
    match d {
        0 => '0',
        1 => '1',
        2 => '2',
        3 => '3',
        4 => '4',
        5 => '5',
        6 => '6',
        7 => '7',
        8 => '8',
        _ => '9',
    }
}

/// `String::push`: appends `c` to `s`.
#[verifier::external_body]
pub(crate) fn string_push(s: &mut String, c: char)
    ensures
        final(s)@ == old(s)@.push(c),
{
    s.push(c)
}

/// The decimal notation of `n`.
pub fn decimal_string(n: u32) -> (s: String)
    ensures
        s@ == decimal(n as nat),
    decreases n,
{
    if n < 10 {
        let mut s = String::new();
        string_push(&mut s, digit(n));
        assert(s@ =~= seq![digit_char(n as int)]);
        s
    } else {
        let mut s = decimal_string(n / 10);
        string_push(&mut s, digit(n % 10));
        s
    }
}

/// A step of `direction` and a step back lead to where one started.
proof fn lemma_ring_step_back(p: int, direction: int, len: int)
    requires
        0 <= p < len,
    ensures
        0 <= ring_step(p, direction, len) < len,
        ring_step(ring_step(p, direction, len), -direction, len) == p,
{
    vstd::arithmetic::div_mod::lemma_add_mod_noop_right(-direction, p + direction, len);
    vstd::arithmetic::div_mod::lemma_small_mod(p as nat, len as nat);
    vstd::arithmetic::div_mod::lemma_mod_bound(p + direction, len);
}

/// In a list without repeated windows, a window sits at position `i` only
/// when that is its (first) position.
proof fn lemma_position_unique(s: Seq<WindowId>, i: int)
    requires
        s.no_duplicates(),
        0 <= i < s.len(),
    ensures
        position_of(s, s[i]) == Some(i),
{
    lemma_position_of(s, s[i]);
}

/// Swapping two places keeps the list free of repeated windows.
proof fn lemma_swapped_no_duplicates(s: Seq<WindowId>, i: int, j: int)
    requires
        s.no_duplicates(),
        0 <= i < s.len(),
        0 <= j < s.len(),
    ensures
        swapped(s, i, j).no_duplicates(),
{
    let r = swapped(s, i, j);
    assert forall|a: int, b: int| 0 <= a < r.len() && 0 <= b < r.len() && a != b implies r[a]
        != r[b] by {
        let sa = if a == j { i } else if a == i { j } else { a };
        let sb = if b == j { i } else if b == i { j } else { b };
        assert(r[a] == s[sa]);
        assert(r[b] == s[sb]);
    }
}

/// Moving the focused window round the list never adds, loses or repeats
/// a client: the clients stay the same multiset.
pub proof fn lemma_swap_keeps_clients(s: Seq<WindowId>, focused: WindowId, direction: int)
    ensures
        spec_swap(s, focused, direction).to_multiset() =~= s.to_multiset(),
        spec_swap_focus(s, focused, direction).to_multiset() =~= s.to_multiset(),
{
    broadcast use vstd::seq_lib::to_multiset_update, vstd::seq_lib::to_multiset_contains, vstd::multiset::group_multiset_axioms;

    if s.len() >= 2 {
        lemma_position_of(s, focused);
        let p = start_position(s, focused);
        let t = ring_step(p, direction, s.len() as int);
        lemma_ring_step_back(p, direction, s.len() as int);
        let s1 = s.update(p, s[t]);
        assert(s1.to_multiset() == s.to_multiset().insert(s[t]).remove(s[p]));
        assert(s1.update(t, s[p]).to_multiset() == s1.to_multiset().insert(s[p]).remove(s1[t]));
        if p == t {
            assert(swapped(s, p, t) =~= s);
        } else {
            assert(s1[t] == s[t]);
            let m = s.to_multiset();
            assert(s.contains(s[p]));
            assert(s.contains(s[t]));
            assert(m.count(s[p]) > 0);
            assert(m.insert(s[t]).remove(s[p]).insert(s[p]).remove(s[t]) =~= m);
        }
    }
}

/// In a list without repeated windows, moving the focused window
/// `direction` places and then `-direction` places gives back the list
/// one started from.
pub proof fn lemma_swap_undone(s: Seq<WindowId>, focused: WindowId, direction: int)
    requires
        s.no_duplicates(),
    ensures
        spec_swap(spec_swap(s, focused, direction), focused, -direction) == s,
{
    if s.len() >= 2 && position_of(s, focused) is Some {
        lemma_position_of(s, focused);
        let n = s.len() as int;
        let p = start_position(s, focused);
        let t = ring_step(p, direction, n);
        lemma_ring_step_back(p, direction, n);
        let s1 = swapped(s, p, t);
        lemma_swapped_no_duplicates(s, p, t);
        assert(s1[t] == focused);
        lemma_position_unique(s1, t);
        assert(start_position(s1, focused) == t);
        assert(swapped(s1, t, p) =~= s);
    } else {
        lemma_position_of(s, focused);
    }
}

/// Where there is a client, moving the focus lands on a client.
pub proof fn lemma_rotate_lands_on_client(s: Seq<WindowId>, focused: WindowId, direction: int)
    requires
        s.len() > 0,
    ensures
        s.contains(spec_rotate(s, focused, direction)),
{
    lemma_position_of(s, focused);
    let p = start_position(s, focused);
    lemma_ring_step_back(p, direction, s.len() as int);
    let t = ring_step(p, direction, s.len() as int);
    assert(s[t] == spec_rotate(s, focused, direction));
}

/// In a list without repeated windows that holds the focused window,
/// moving the focus `direction` places and then `-direction` places gives
/// the focus back to the window that had it.
pub proof fn lemma_rotate_undone(s: Seq<WindowId>, focused: WindowId, direction: int)
    requires
        s.no_duplicates(),
        s.contains(focused),
    ensures
        spec_rotate(s, spec_rotate(s, focused, direction), -direction) == focused,
{
    lemma_position_of(s, focused);
    let n = s.len() as int;
    let p = start_position(s, focused);
    let t = ring_step(p, direction, n);
    lemma_ring_step_back(p, direction, n);
    lemma_position_unique(s, t);
    assert(start_position(s, s[t]) == t);
}

/// Removing a window takes out every occurrence of it and keeps every
/// other client; and a focus that was a client (or no window) stays a
/// client (or no window).
pub proof fn lemma_removal(s: Seq<WindowId>, focused: WindowId, w: WindowId)
    ensures
        !without(s, w).contains(w),
        forall|x: WindowId| x != w ==> (#[trigger] without(s, w).contains(x) <==> s.contains(x)),
        (focused == 0 || s.contains(focused)) ==> ({
            let f = focus_after_removal(s, focused, w);
            f == 0 || without(s, w).contains(f)
        }),
{
    let r = without(s, w);
    assert forall|x: WindowId| x != w implies (#[trigger] r.contains(x) <==> s.contains(x)) by {
        if s.contains(x) {
            let i = choose|i: int| 0 <= i < s.len() && s[i] == x;
            s.lemma_filter_contains(other_than(w), i);
        }
        if r.contains(x) {
            s.lemma_filter_contains_rev(other_than(w), x);
        }
    }
    if r.contains(w) {
        let i = choose|i: int| 0 <= i < r.len() && r[i] == w;
        s.lemma_filter_pred(other_than(w), i);
    }
    if focused == w && r.len() > 0 {
        assert(r[r.len() - 1] == r.last());
    }
}

/// A step round a ring of `len` places lands on one of its places, and
/// `direction` places further on counting round the ring: where it lands
/// differs from `pos + direction` by a whole number of turns.
pub proof fn lemma_ring_step_counts_round(pos: int, direction: int, len: int)
    requires
        len >= 1,
        0 <= pos < len,
    ensures
        0 <= ring_step(pos, direction, len) < len,
        (pos + direction - ring_step(pos, direction, len)) % len == 0,
{
    let a = pos + direction;
    vstd::arithmetic::div_mod::lemma_mod_bound(a, len);
    vstd::arithmetic::div_mod::lemma_fundamental_div_mod(a, len);
    vstd::arithmetic::mul::lemma_mul_is_commutative(len, a / len);
    vstd::arithmetic::div_mod::lemma_mod_multiples_basic(a / len, len);
    assert(a - ring_step(pos, direction, len) == (a / len) * len);
}

/// Moving the focus one place forward, in a list of two or more windows
/// without repeats, focuses the next window (the first after the last);
/// one place back focuses the previous one (the last before the first).
/// Either way the focus changes window.
pub proof fn lemma_rotate_next_and_previous(s: Seq<WindowId>, p: int)
    requires
        s.no_duplicates(),
        s.len() >= 2,
        0 <= p < s.len(),
    ensures
        spec_rotate(s, s[p], 1) == (if p + 1 < s.len() { s[p + 1] } else { s[0] }),
        spec_rotate(s, s[p], -1) == (if p > 0 { s[p - 1] } else { s[s.len() - 1] }),
        spec_rotate(s, s[p], 1) != s[p],
        spec_rotate(s, s[p], -1) != s[p],
{
    let n = s.len() as int;
    lemma_position_unique(s, p);
    assert(start_position(s, s[p]) == p);
    if p + 1 < n {
        vstd::arithmetic::div_mod::lemma_small_mod((p + 1) as nat, n as nat);
    } else {
        vstd::arithmetic::div_mod::lemma_mod_self_0(n);
    }
    if p > 0 {
        vstd::arithmetic::div_mod::lemma_small_mod((p - 1) as nat, n as nat);
    } else {
        vstd::arithmetic::div_mod::lemma_mod_add_multiples_vanish(-1, n);
        vstd::arithmetic::div_mod::lemma_small_mod((n - 1) as nat, n as nat);
    }
}

/// Moving the focused window one place forward, in a list of two or more
/// windows without repeats, exchanges it with the next window (the first
/// after the last): it then stands where that window stood, and that
/// window where it stood.
pub proof fn lemma_swap_with_next(s: Seq<WindowId>, p: int)
    requires
        s.no_duplicates(),
        s.len() >= 2,
        0 <= p < s.len(),
    ensures
        ({
            let q = if p + 1 < s.len() { p + 1 } else { 0 };
            &&& spec_swap(s, s[p], 1)[q] == s[p]
            &&& spec_swap(s, s[p], 1)[p] == s[q]
            &&& spec_swap(s, s[p], 1).len() == s.len()
        }),
{
    let n = s.len() as int;
    lemma_position_unique(s, p);
    assert(start_position(s, s[p]) == p);
    if p + 1 < n {
        vstd::arithmetic::div_mod::lemma_small_mod((p + 1) as nat, n as nat);
    } else {
        vstd::arithmetic::div_mod::lemma_mod_self_0(n);
    }
}

} // verus!
