//! Decisions the window manager takes from the properties of X11 windows:
//! which windows float, how much room a panel reserves at the top of the
//! screen, and which keycode a keysym sits on.
use vstd::prelude::*;
use vstd::utf8::valid_utf8;
use vstd::string::StringSliceAdditionalSpecFns;
use crate::wm_core::{position_of, lemma_position_of};

verus! {

/// Whether `needle` occurs in `hay` as a contiguous run.
pub open spec fn has_infix(hay: Seq<u8>, needle: Seq<u8>) -> bool {
    exists|i: int| 0 <= i && i + needle.len() <= hay.len() && #[trigger] hay.subrange(i, i + needle.len()) == needle
}

/// Whether `needle` occurs in `hay` as a contiguous run of bytes.
pub fn contains_bytes(hay: &[u8], needle: &[u8]) -> (found: bool)
    ensures
        found == has_infix(hay@, needle@),
{
    let n = hay.len();
    let m = needle.len();
    if m > n {
        proof {
            assert forall|i: int| 0 <= i && i + m <= n implies #[trigger] hay@.subrange(i, i + m) != needle@ by {}
        }
        return false;
    }
    let mut i: usize = 0;
    while i <= n - m
        invariant
            m <= n,
            n == hay@.len(),
            m == needle@.len(),
            i <= n - m + 1,
            forall|k: int| 0 <= k < i ==> #[trigger] hay@.subrange(k, k + m) != needle@,
        decreases n - m + 1 - i,
    {
        let mut j: usize = 0;
        let mut same = true;
        while j < m
            invariant
                m <= n,
                i <= n - m,
                n == hay@.len(),
                m == needle@.len(),
                j <= m,
                same == forall|q: int| 0 <= q < j ==> hay@[i + q] == needle@[q],
            decreases m - j,
        {
            if hay[i + j] != needle[j] {
                same = false;
            }
            j = j + 1;
        }
        if same {
            assert(hay@.subrange(i as int, i + m) =~= needle@);
            return true;
        }
        proof {
            let q = choose|q: int| 0 <= q < m && hay@[i + q] != needle@[q];
            assert(hay@.subrange(i as int, i + m)[q] != needle@[q]);
        }
        i = i + 1;
    }
    false
}

/// Whether the X server would take `bytes` as text: they are well-formed
/// UTF-8.
#[verifier::external_body]
fn is_utf8(bytes: &[u8]) -> (b: bool)
    ensures
        b == valid_utf8(bytes@),
{
    std::str::from_utf8(bytes).is_ok()
}

/// The `WM_WINDOW_ROLE` fragments that mark a window as a dialog or pop-up.
pub open spec fn floating_role(role: Seq<u8>) -> bool {
    ||| has_infix(role, "GtkFileChooserDialog".spec_bytes())
    ||| has_infix(role, "pop-up".spec_bytes())
    ||| has_infix(role, "bubble".spec_bytes())
}

/// The `WM_CLASS` fragment that marks a window as floating.
pub open spec fn floating_class(class: Seq<u8>) -> bool {
    has_infix(class, "xdg-desktop-portal-gtk".spec_bytes())
}

/// Whether one of `values` is among `listed`.
pub open spec fn any_listed(values: Seq<u32>, listed: Seq<u32>) -> bool {
    exists|i: int| 0 <= i < values.len() && listed.contains(#[trigger] values[i])
}

/// Whether a window floats instead of being tiled: it is transient for
/// another window; or one of its `_NET_WM_WINDOW_TYPE` values is among
/// `floating_types`; or its role, read as text, names a dialog or pop-up;
/// or its class, read as text, names the desktop portal.
pub open spec fn spec_should_float(
    transient: bool,
    types: Option<Seq<u32>>,
    floating_types: Seq<u32>,
    role: Option<Seq<u8>>,
    class: Option<Seq<u8>>,
) -> bool {
    ||| transient
    ||| (types matches Some(t) && any_listed(t, floating_types))
    ||| (role matches Some(r) && valid_utf8(r) && floating_role(r))
    ||| (class matches Some(c) && valid_utf8(c) && floating_class(c))
}

/// Whether `values` holds `atom`.
pub fn contains_atom(values: &[u32], atom: u32) -> (found: bool)
    ensures
        found == values@.contains(atom),
{
    let mut i: usize = 0;
    while i < values.len()
        invariant
            i <= values.len(),
            forall|k: int| 0 <= k < i ==> values@[k] != atom,
        decreases values.len() - i,
    {
        if values[i] == atom {
            return true;
        }
        i = i + 1;
    }
    false
}

/// Whether one of the window types `types` is among `floating_types`.
pub fn type_floats(types: &[u32], floating_types: &[u32]) -> (b: bool)
    ensures
        b == any_listed(types@, floating_types@),
{
    let mut i: usize = 0;
    while i < types.len()
        invariant
            i <= types.len(),
            forall|k: int| 0 <= k < i ==> !floating_types@.contains(#[trigger] types@[k]),
        decreases types.len() - i,
    {
        if contains_atom(floating_types, types[i]) {
            assert(floating_types@.contains(types@[i as int]));
            return true;
        }
        i = i + 1;
    }
    false
}

/// Whether a `WM_WINDOW_ROLE` value marks its window as floating: it is
/// text and names a file chooser, a pop-up or a bubble.
pub fn role_floats(role: &[u8]) -> (b: bool)
    ensures
        b == (valid_utf8(role@) && floating_role(role@)),
{
    if is_utf8(role) {
        let a = contains_bytes(role, "GtkFileChooserDialog".as_bytes());
        let b = contains_bytes(role, "pop-up".as_bytes());
        let c = contains_bytes(role, "bubble".as_bytes());
        a || b || c
    } else {
        false
    }
}

/// Whether a `WM_CLASS` value marks its window as floating: it is text and
/// names the GTK desktop portal.
pub fn class_floats(class: &[u8]) -> (b: bool)
    ensures
        b == (valid_utf8(class@) && floating_class(class@)),
{
    if is_utf8(class) {
        contains_bytes(class, "xdg-desktop-portal-gtk".as_bytes())
    } else {
        false
    }
}

/// Decides whether a window floats, from what the X server reports of it:
/// whether `WM_TRANSIENT_FOR` is set, the `_NET_WM_WINDOW_TYPE` values, the
/// `WM_WINDOW_ROLE` bytes and the `WM_CLASS` bytes (each `None` where the
/// property is missing or has another format). `floating_types` are the
/// window types that float.
pub fn should_window_float(
    transient: bool,
    types: &Option<Vec<u32>>,
    floating_types: &Vec<u32>,
    role: &Option<Vec<u8>>,
    class: &Option<Vec<u8>>,
) -> (floats: bool)
    ensures
        floats == spec_should_float(
            transient,
            match types { Some(t) => Some(t@), None => None },
            floating_types@,
            match role { Some(r) => Some(r@), None => None },
            match class { Some(c) => Some(c@), None => None },
        ),
{
    if transient {
        return true;
    }
    match types {
        Some(values) => {
            if type_floats(values.as_slice(), floating_types.as_slice()) {
                return true;
            }
        },
        None => {},
    }
    match role {
        Some(r) => {
            if role_floats(r.as_slice()) {
                return true;
            }
        },
        None => {},
    }
    match class {
        Some(c) => {
            if class_floats(c.as_slice()) {
                return true;
            }
        },
        None => {},
    }
    false
}

/// The top reservation of a strut property: its third value where it has
/// one and that value is not 0.
pub open spec fn strut_top(values: Option<Seq<u32>>) -> Option<u32> {
    match values {
        Some(v) => if v.len() > 2 && v[2] > 0 {
            Some(v[2])
        } else {
            None
        },
        None => None,
    }
}

/// The room a window reserves at the top of the screen: the top value of
/// `_NET_WM_STRUT_PARTIAL`, else that of `_NET_WM_STRUT`, else 0.
pub open spec fn spec_top_strut(partial: Option<Seq<u32>>, legacy: Option<Seq<u32>>) -> u32 {
    match strut_top(partial) {
        Some(t) => t,
        None => match strut_top(legacy) {
            Some(t) => t,
            None => 0,
        },
    }
}

fn top_of(values: &Option<Vec<u32>>) -> (r: Option<u32>)
    ensures
        r == strut_top(match values { Some(v) => Some(v@), None => None }),
{
    match values {
        Some(v) => {
            if v.len() > 2 && v[2] > 0 {
                Some(v[2])
            } else {
                None
            }
        },
        None => None,
    }
}

/// The room a window reserves at the top of the screen, from the values
/// of its `_NET_WM_STRUT_PARTIAL` and `_NET_WM_STRUT` properties (each
/// `None` where the property could not be read).
pub fn top_strut(partial: &Option<Vec<u32>>, legacy: &Option<Vec<u32>>) -> (top: u32)
    ensures
        top == spec_top_strut(
            match partial { Some(v) => Some(v@), None => None },
            match legacy { Some(v) => Some(v@), None => None },
        ),
{
    match top_of(partial) {
        Some(t) => t,
        None => match top_of(legacy) {
            Some(t) => t,
            None => 0,
        },
    }
}

/// Whether a strut's values give no top reservation: the property is
/// missing, has fewer than three values, or its third value is 0.
pub open spec fn no_top_value(values: Option<Seq<u32>>) -> bool {
    match values {
        Some(v) => v.len() <= 2 || v[2] == 0,
        None => true,
    }
}

/// Which strut gives the top reservation: `_NET_WM_STRUT_PARTIAL` where it
/// has a third value that is not 0, whatever `_NET_WM_STRUT` says; else
/// `_NET_WM_STRUT`'s third value where it is not 0, whether the partial
/// strut is missing or merely gives no top value; else nothing (0).
pub proof fn lemma_strut_precedence(partial: Option<Seq<u32>>, legacy: Option<Seq<u32>>)
    ensures
        (partial matches Some(p) && p.len() > 2 && p[2] > 0) ==> spec_top_strut(partial, legacy) == partial->0[2],
        (no_top_value(partial) && (legacy matches Some(v) && v.len() > 2 && v[2] > 0)) ==> spec_top_strut(
            partial,
            legacy,
        ) == legacy->0[2],
        (no_top_value(partial) && no_top_value(legacy)) ==> spec_top_strut(partial, legacy) == 0,
        no_top_value(partial) ==> spec_top_strut(partial, legacy) == spec_top_strut(None, legacy),
{
}

/// The largest of 0 and the values of `s`.
pub open spec fn max_of(s: Seq<u32>) -> u32
    decreases s.len(),
{
    if s.len() == 0 {
        0
    } else {
        let rest = max_of(s.drop_last());
        if s.last() > rest {
            s.last()
        } else {
            rest
        }
    }
}

/// `max_of` is at least every value, and is 0 or one of them.
pub proof fn lemma_max_of(s: Seq<u32>)
    ensures
        forall|i: int| 0 <= i < s.len() ==> s[i] <= max_of(s),
        max_of(s) == 0 || s.contains(max_of(s)),
    decreases s.len(),
{
    if s.len() > 0 {
        lemma_max_of(s.drop_last());
        assert forall|i: int| 0 <= i < s.len() implies s[i] <= max_of(s) by {
            if i < s.len() - 1 {
                assert(s[i] == s.drop_last()[i]);
            }
        }
        if max_of(s) != 0 && max_of(s) != s.last() {
            let j = choose|j: int| 0 <= j < s.drop_last().len() && s.drop_last()[j] == max_of(s);
            assert(s[j] == max_of(s));
        }
    }
}

/// The top margin that the panels' struts call for: the largest of them,
/// or 0 where there is none.
pub fn largest_strut(struts: &Vec<u32>) -> (top: u32)
    ensures
        top == max_of(struts@),
{
    let mut best: u32 = 0;
    let mut i: usize = 0;
    while i < struts.len()
        invariant
            i <= struts.len(),
            best == max_of(struts@.take(i as int)),
        decreases struts.len() - i,
    {
        proof {
            assert(struts@.take(i + 1).drop_last() =~= struts@.take(i as int));
        }
        if struts[i] > best {
            best = struts[i];
        }
        i = i + 1;
    }
    proof {
        assert(struts@.take(struts.len() as int) =~= struts@);
    }
    best
}

/// The keycode that produces `sym`, where the keyboard mapping lists
/// `per_keycode` keysyms for each keycode from `min_keycode` on: the
/// keycode of the first group that holds `sym`.
pub open spec fn spec_keycode(keysyms: Seq<u32>, per_keycode: int, min_keycode: int, sym: u32) -> Option<int> {
    match position_of(keysyms, sym) {
        Some(j) => Some(min_keycode + (j / per_keycode) % 256),
        None => None,
    }
}

/// Whether the keycode that produces `sym` (where one does) is at most
/// 255, as `keycode_for_keysym` asks: the sum of `min_keycode` and the
/// group's number (modulo 256) overflows a byte otherwise.
pub fn keycode_in_range(keysyms: &Vec<u32>, per_keycode: u8, min_keycode: u8, sym: u32) -> (b: bool)
    requires
        per_keycode > 0,
    ensures
        b == (spec_keycode(keysyms@, per_keycode as int, min_keycode as int, sym) matches Some(c) ==> c
            <= u8::MAX),
{
    let mut j: usize = 0;
    while j < keysyms.len()
        invariant
            per_keycode > 0,
            j <= keysyms.len(),
            forall|k: int| 0 <= k < j ==> keysyms@[k] != sym,
        decreases keysyms.len() - j,
    {
        if keysyms[j] == sym {
            proof {
                lemma_position_of(keysyms@, sym);
            }
            let idx = j / (per_keycode as usize);
            let low = idx % 256;
            return (min_keycode as usize) + low <= 255;
        }
        j = j + 1;
    }
    proof {
        lemma_position_of(keysyms@, sym);
    }
    true
}

/// Looks `sym` up in a keyboard mapping that lists `per_keycode` keysyms
/// for each keycode from `min_keycode` on. `None` where no keycode
/// produces it.
pub fn keycode_for_keysym(keysyms: &Vec<u32>, per_keycode: u8, min_keycode: u8, sym: u32) -> (code: Option<u8>)
    requires
        per_keycode > 0,
        spec_keycode(keysyms@, per_keycode as int, min_keycode as int, sym) matches Some(c) ==> c <= u8::MAX,
    ensures
        match code {
            Some(c) => spec_keycode(keysyms@, per_keycode as int, min_keycode as int, sym) == Some(c as int),
            None => spec_keycode(keysyms@, per_keycode as int, min_keycode as int, sym) is None,
        },
{
    let mut j: usize = 0;
    while j < keysyms.len()
        invariant
            per_keycode > 0,
            spec_keycode(keysyms@, per_keycode as int, min_keycode as int, sym) matches Some(c) ==> c
                <= u8::MAX,
            j <= keysyms.len(),
            forall|k: int| 0 <= k < j ==> keysyms@[k] != sym,
        decreases keysyms.len() - j,
    {
        if keysyms[j] == sym {
            proof {
                lemma_position_of(keysyms@, sym);
            }
            let idx = j / (per_keycode as usize);
            let low = (idx % 256) as u8;
            return Some(min_keycode + low);
        }
        j = j + 1;
    }
    proof {
        lemma_position_of(keysyms@, sym);
    }
    None
}

/// A window property as the X server returns it: the size in bits of its
/// items (8, 16 or 32; 0 where the property is missing) and its bytes.
#[derive(Clone, Debug)]
pub struct Property {
    pub format: u8,
    pub value: Vec<u8>,
}

/// The `i`-th group of four bytes of `b` read as a number, least
/// significant byte first.
pub open spec fn le32(b: Seq<u8>, i: int) -> u32 {
    (b[4 * i] + 256 * b[4 * i + 1] + 65536 * b[4 * i + 2] + 16777216 * b[4 * i + 3]) as u32
}

/// The `i`-th group of four bytes of `b` read as a number, most
/// significant byte first.
pub open spec fn be32(b: Seq<u8>, i: int) -> u32 {
    (b[4 * i + 3] + 256 * b[4 * i + 2] + 65536 * b[4 * i + 1] + 16777216 * b[4 * i]) as u32
}

/// The bytes `b` read as 32-bit items, one for each whole group of four
/// bytes, in big-endian order where `big` holds and little-endian order
/// otherwise.
pub open spec fn items32(b: Seq<u8>, big: bool) -> Seq<u32> {
    Seq::new(b.len() / 4, |i: int| if big { be32(b, i) } else { le32(b, i) })
}

/// x11rb's `GetPropertyReply::value32`: the items of a property of format
/// 32, each group of four bytes read in the machine's byte order (with
/// `u32::from_ne_bytes`), a trailing group of fewer bytes left out; `None`
/// for another format. Which of the two byte orders is used depends on the
/// machine, so the contract says only that it is one of them.
#[verifier::external_body]
fn property_values32(p: &Property) -> (r: Option<Vec<u32>>)
    ensures
        r is Some <==> p.format == 32,
        r matches Some(v) ==> (v@ == items32(p.value@, false) || v@ == items32(p.value@, true)),
{
    let reply = x11rb::protocol::xproto::GetPropertyReply {
        format: p.format,
        value: p.value.clone(),
        ..Default::default()
    };
    reply.value32().map(|items| items.collect())
}

/// x11rb's `GetPropertyReply::value8`: the bytes of a property of format
/// 8; `None` for another format.
#[verifier::external_body]
fn property_values8(p: &Property) -> (r: Option<Vec<u8>>)
    ensures
        r is Some <==> p.format == 8,
        r matches Some(v) ==> v@ == p.value@,
{
    let reply = x11rb::protocol::xproto::GetPropertyReply {
        format: p.format,
        value: p.value.clone(),
        ..Default::default()
    };
    reply.value8().map(|items| items.collect())
}

/// Whether a property such as `WM_TRANSIENT_FOR` is set: it has 32-bit
/// items.
pub fn property_is_set(p: &Property) -> (b: bool)
    ensures
        b == (p.format == 32),
{
    property_values32(p).is_some()
}

/// Whether a `_NET_WM_WINDOW_TYPE` property names one of `floating_types`:
/// it has 32-bit items, and one of them is listed. The items are read in
/// the machine's byte order, one of the two.
pub fn window_types_float(p: &Property, floating_types: &[u32]) -> (b: bool)
    ensures
        p.format != 32 ==> !b,
        p.format == 32 ==> (b == any_listed(items32(p.value@, false), floating_types@) || b
            == any_listed(items32(p.value@, true), floating_types@)),
{
    match property_values32(p) {
        Some(v) => type_floats(v.as_slice(), floating_types),
        None => false,
    }
}

/// Whether a property with 32-bit items holds `atom` (such as
/// `_NET_WM_WINDOW_TYPE_DOCK` in a window's type). The items are read in
/// the machine's byte order, one of the two.
pub fn property_holds_atom(p: &Property, atom: u32) -> (b: bool)
    ensures
        p.format != 32 ==> !b,
        p.format == 32 ==> (b == items32(p.value@, false).contains(atom) || b == items32(
            p.value@,
            true,
        ).contains(atom)),
{
    match property_values32(p) {
        Some(v) => contains_atom(v.as_slice(), atom),
        None => false,
    }
}

/// The first 32-bit item of a property (such as a window's
/// `_NET_WM_DESKTOP` tag): `None` where the property does not have 32-bit
/// items or has fewer than four bytes. The item is read in the machine's
/// byte order, one of the two.
pub fn property_first_value(p: &Property) -> (r: Option<u32>)
    ensures
        r is Some <==> (p.format == 32 && p.value@.len() >= 4),
        r matches Some(t) ==> (t == le32(p.value@, 0) || t == be32(p.value@, 0)),
{
    match property_values32(p) {
        Some(v) => {
            if v.len() > 0 {
                Some(v[0])
            } else {
                None
            }
        },
        None => None,
    }
}

/// Whether a `WM_WINDOW_ROLE` property marks its window as floating: it
/// has 8-bit items that form text naming a file chooser, a pop-up or a
/// bubble.
pub fn role_property_floats(p: &Property) -> (b: bool)
    ensures
        b == (p.format == 8 && valid_utf8(p.value@) && floating_role(p.value@)),
{
    match property_values8(p) {
        Some(v) => role_floats(v.as_slice()),
        None => false,
    }
}

/// Whether a `WM_CLASS` property marks its window as floating: it has
/// 8-bit items that form text naming the GTK desktop portal.
pub fn class_property_floats(p: &Property) -> (b: bool)
    ensures
        b == (p.format == 8 && valid_utf8(p.value@) && floating_class(p.value@)),
{
    match property_values8(p) {
        Some(v) => class_floats(v.as_slice()),
        None => false,
    }
}

/// The items of `p`, as `property_values32` reads them, where `p` could
/// be read.
fn values_of(p: &Option<Property>) -> (r: Option<Vec<u32>>)
    ensures
        r is Some <==> (p matches Some(q) && q.format == 32),
        p matches Some(q) ==> (r matches Some(v) ==> (v@ == items32(q.value@, false) || v@
            == items32(q.value@, true))),
{
    match p {
        Some(q) => property_values32(q),
        None => None,
    }
}

/// The 32-bit items of `p` read in the byte order that `big` picks;
/// `None` where `p` could not be read or has items of another size.
pub open spec fn read32(p: Option<Property>, big: bool) -> Option<Seq<u32>> {
    match p {
        Some(q) => if q.format == 32 {
            Some(items32(q.value@, big))
        } else {
            None
        },
        None => None,
    }
}

/// Whether `r`, as read from `p`, is not the little-endian reading of it.
spec fn read_big_endian(r: &Option<Vec<u32>>, p: &Option<Property>) -> bool {
    match (r, p) {
        (Some(v), Some(q)) => v@ != items32(q.value@, false),
        _ => false,
    }
}

/// The room a window reserves at the top of the screen, from its
/// `_NET_WM_STRUT_PARTIAL` and `_NET_WM_STRUT` properties (each `None`
/// where it could not be read): `spec_top_strut` of their items, each read
/// in the machine's byte order.
pub fn top_strut_of_properties(partial: &Option<Property>, legacy: &Option<Property>) -> (top: u32)
    ensures
        exists|ba: bool, bb: bool|
            top == #[trigger] spec_top_strut(read32(*partial, ba), read32(*legacy, bb)),
{
    let a = values_of(partial);
    let b = values_of(legacy);
    let top = top_strut(&a, &b);
    let ghost ba = read_big_endian(&a, partial);
    let ghost bb = read_big_endian(&b, legacy);
    assert(top == spec_top_strut(read32(*partial, ba), read32(*legacy, bb)));
    top
}

} // verus!
