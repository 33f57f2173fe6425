//! Drag-and-drop reordering of tabs, with optional pinned slots.

use vstd::prelude::*;

use crate::config::TabReorderPolicy;

verus! {

/// Completed drag-and-drop between two display indices.
#[derive(Clone, Copy, Debug, PartialEq, Eq, Structural)]
pub struct TabReorder {
    /// Index in the current label slice before reorder.
    pub from: usize,
    /// Insertion index in the slice after removal (same convention as [`try_reorder`]).
    pub to: usize,
}

/// The pin mask as a sequence, when one is given.
pub open spec fn pins_view(tab_pinned: Option<&[bool]>) -> Option<Seq<bool>> {
    match tab_pinned {
        Some(p) => Some(p@),
        None => None,
    }
}

/// Whether slot `index` is pinned: the mask holds `true` there. Slots past the end of the
/// mask, and every slot when there is no mask, are not pinned.
pub open spec fn pinned(index: int, pins: Option<Seq<bool>>) -> bool {
    match pins {
        Some(p) => 0 <= index < p.len() && p[index],
        None => false,
    }
}

/// Whether the tab at `index` may be dragged under `policy`.
pub open spec fn draggable(index: int, policy: TabReorderPolicy, pins: Option<Seq<bool>>) -> bool {
    match policy {
        TabReorderPolicy::AllPinned => false,
        TabReorderPolicy::NonePinned => true,
        TabReorderPolicy::SomePinned => !pinned(index, pins),
    }
}

/// Whether a drag from `from` may be dropped on `to`.
pub open spec fn droppable(
    from: int,
    to: int,
    policy: TabReorderPolicy,
    pins: Option<Seq<bool>>,
) -> bool {
    from == to || (draggable(from, policy, pins) && draggable(to, policy, pins))
}

/// The unpinned slots below `n`, in increasing order.
pub open spec fn movable_seq(n: nat, pins: Option<Seq<bool>>) -> Seq<usize>
    decreases n,
{
    if n == 0 {
        Seq::empty()
    } else {
        let prev = movable_seq((n - 1) as nat, pins);
        if pinned(n - 1, pins) {
            prev
        } else {
            prev.push((n - 1) as usize)
        }
    }
}

/// The items that stand in the movable slots `m`, read in slot order.
pub open spec fn movable_items<T>(s: Seq<T>, m: Seq<usize>) -> Seq<T> {
    m.map_values(|k: usize| s[k as int])
}

/// The order of `s` after moving the item at `from` so that it lands at `to`.
///
/// Without pins the item is removed and inserted again at `to`. With pins, the pinned
/// slots keep their items, and the items of the movable slots, read in slot order, are
/// moved in the same way.
pub open spec fn reordered<T>(
    s: Seq<T>,
    from: int,
    to: int,
    policy: TabReorderPolicy,
    pins: Option<Seq<bool>>,
) -> Seq<T> {
    if policy == TabReorderPolicy::SomePinned {
        let m = movable_seq(s.len(), pins);
        let moved = movable_items(s, m).remove(m.index_of(from as usize)).insert(
            m.index_of(to as usize),
            s[from],
        );
        Seq::new(
            s.len(),
            |k: int|
                if m.contains(k as usize) {
                    moved[m.index_of(k as usize)]
                } else {
                    s[k]
                },
        )
    } else {
        s.remove(from).insert(to, s[from])
    }
}

/// When [`try_reorder`] accepts a move.
pub open spec fn reorder_accepted(
    len: int,
    from: int,
    to: int,
    policy: TabReorderPolicy,
    pins: Option<Seq<bool>>,
) -> bool {
    &&& 0 <= from < len
    &&& 0 <= to < len
    &&& droppable(from, to, policy, pins)
    &&& (from == to || policy != TabReorderPolicy::SomePinned || pins is Some)
}

/// Where the item at `selected` stands after a move from `from` to `to` without pins.
pub open spec fn remapped(selected: int, from: int, to: int) -> int {
    if selected == from {
        to
    } else if from < selected && to >= selected {
        selected - 1
    } else if from > selected && to <= selected {
        selected + 1
    } else {
        selected
    }
}

/// Where the item at `selected` stands after a move from `from` to `to` among the movable
/// slots `m`.
pub open spec fn remapped_among(selected: int, from: int, to: int, m: Seq<usize>) -> int {
    let fp = m.index_of(from as usize);
    let tp = m.index_of(to as usize);
    let sp = m.index_of(selected as usize);
    if !m.contains(from as usize) || !m.contains(to as usize) || !m.contains(selected as usize) {
        selected
    } else if selected == from {
        to
    } else if fp < tp && sp > fp && sp <= tp {
        m[sp - 1] as int
    } else if fp > tp && sp >= tp && sp < fp {
        m[sp + 1] as int
    } else {
        selected
    }
}

/// The slot length over which pinned remapping enumerates movable slots.
pub open spec fn remap_len(selected: int, from: int, to: int, p: Seq<bool>) -> int {
    let next = if selected < usize::MAX { selected + 1 } else { selected };
    let a = if p.len() >= next { p.len() as int } else { next };
    let b = if a >= from + 1 { a } else { from + 1 };
    if b >= to + 1 { b } else { to + 1 }
}

/// Where the item at `selected` stands after [`try_reorder`] with an optional pin mask.
pub open spec fn remapped_with_pins(
    selected: int,
    from: int,
    to: int,
    pins: Option<Seq<bool>>,
) -> int {
    if pinned(selected, pins) {
        selected
    } else {
        match pins {
            Some(p) => remapped_among(
                selected,
                from,
                to,
                movable_seq(remap_len(selected, from, to, p) as nat, pins),
            ),
            None => remapped(selected, from, to),
        }
    }
}

/// The movable slots are below `n`, unpinned, strictly increasing, and hold every
/// unpinned slot below `n`.
pub proof fn lemma_movable_seq(n: nat, pins: Option<Seq<bool>>)
    requires
        n <= usize::MAX + 1,
    ensures
        movable_seq(n, pins).len() <= n,
        forall|i: int|
            0 <= i < movable_seq(n, pins).len() ==> (#[trigger] movable_seq(n, pins)[i]) < n
                && !pinned(movable_seq(n, pins)[i] as int, pins),
        forall|i: int, j: int|
            0 <= i < j < movable_seq(n, pins).len() ==> movable_seq(n, pins)[i] < movable_seq(
                n,
                pins,
            )[j],
        forall|k: int| 0 <= k < n && !pinned(k, pins) ==> movable_seq(n, pins).contains(k as usize),
    decreases n,
{
    if n > 0 {
        lemma_movable_seq((n - 1) as nat, pins);
        let prev = movable_seq((n - 1) as nat, pins);
        if !pinned(n - 1, pins) {
            let cur = prev.push((n - 1) as usize);
            assert(cur[cur.len() - 1] == (n - 1) as usize);
            assert forall|k: int| 0 <= k < n && !pinned(k, pins) implies cur.contains(
                k as usize,
            ) by {
                if k < n - 1 {
                    let i = choose|i: int| 0 <= i < prev.len() && prev[i] == k as usize;
                    assert(cur[i] == k as usize);
                } else {
                    assert(cur[cur.len() - 1] == k as usize);
                }
            }
        }
    }
}

/// Movable slots below `n1` are a prefix of those below `n2`.
pub proof fn lemma_movable_seq_prefix(n1: nat, n2: nat, pins: Option<Seq<bool>>)
    requires
        n1 <= n2,
    ensures
        movable_seq(n1, pins).len() <= movable_seq(n2, pins).len(),
        forall|i: int|
            0 <= i < movable_seq(n1, pins).len() ==> movable_seq(n1, pins)[i] == #[trigger] movable_seq(
                n2,
                pins,
            )[i],
    decreases n2,
{
    if n1 < n2 {
        lemma_movable_seq_prefix(n1, (n2 - 1) as nat, pins);
    }
}

/// In a strictly increasing sequence, `index_of` finds the one position holding a value.
pub proof fn lemma_index_of_increasing(m: Seq<usize>, p: int)
    requires
        0 <= p < m.len(),
        forall|i: int, j: int| 0 <= i < j < m.len() ==> m[i] < m[j],
    ensures
        m.contains(m[p]),
        m.index_of(m[p]) == p,
{
    assert(m[p] == m[p]);
    let q = m.index_of(m[p]);
    assert(0 <= q < m.len() && m[q] == m[p]);
    if q < p {
        assert(m[q] < m[p]);
    } else if q > p {
        assert(m[p] < m[q]);
    }
}

/// A move without pins carries the tab at `selected` to [`remapped`]`(selected, from, to)`:
/// the selection remapped by [`remap_selected_index`] still shows the same tab.
pub proof fn law_remap_follows_move<T>(s: Seq<T>, from: int, to: int, selected: int)
    requires
        0 <= from < s.len(),
        0 <= to < s.len(),
        0 <= selected < s.len(),
    ensures
        0 <= remapped(selected, from, to) < s.len(),
        reordered(s, from, to, TabReorderPolicy::NonePinned, None)[remapped(selected, from, to)]
            == s[selected],
{
    let r = s.remove(from).insert(to, s[from]);
    s.remove(from).insert_ensures(to, s[from]);
    s.remove_ensures(from);
    let k = remapped(selected, from, to);
    if selected == from {
    } else if from < selected && to >= selected {
        assert(r[k] == s.remove(from)[k]);
    } else if from > selected && to <= selected {
        assert(r[k] == s.remove(from)[k - 1]);
    } else if from < selected {
        assert(r[k] == s.remove(from)[k - 1]);
    } else {
        assert(r[k] == s.remove(from)[k]);
    }
}

/// A move with a pin mask leaves every pinned slot holding the item it held before.
pub proof fn law_pinned_slots_keep_items<T>(
    s: Seq<T>,
    from: int,
    to: int,
    p: Seq<bool>,
    slot: int,
)
    requires
        s.len() <= usize::MAX,
        0 <= slot < s.len(),
        pinned(slot, Some(p)),
    ensures
        reordered(s, from, to, TabReorderPolicy::SomePinned, Some(p))[slot] == s[slot],
{
    let m = movable_seq(s.len(), Some(p));
    lemma_movable_seq(s.len(), Some(p));
    if m.contains(slot as usize) {
        let i = choose|i: int| 0 <= i < m.len() && m[i] == slot as usize;
        assert(!pinned(m[i] as int, Some(p)));
    }
}

/// Remapping among the movable slots of the whole sequence follows the moved item.
proof fn lemma_remap_among_follows_move<T>(
    s: Seq<T>,
    from: int,
    to: int,
    p: Seq<bool>,
    selected: int,
)
    requires
        s.len() <= usize::MAX,
        0 <= from < s.len(),
        0 <= to < s.len(),
        0 <= selected < s.len(),
        !pinned(from, Some(p)),
        !pinned(to, Some(p)),
        !pinned(selected, Some(p)),
    ensures
        ({
            let m = movable_seq(s.len(), Some(p));
            let k = remapped_among(selected, from, to, m);
            &&& 0 <= k < s.len()
            &&& reordered(s, from, to, TabReorderPolicy::SomePinned, Some(p))[k] == s[selected]
        }),
{
    let pins = Some(p);
    let m1 = movable_seq(s.len(), pins);
    lemma_movable_seq(s.len(), pins);
    let f0 = choose|i: int| 0 <= i < m1.len() && m1[i] == from as usize;
    let t0 = choose|i: int| 0 <= i < m1.len() && m1[i] == to as usize;
    let s0 = choose|i: int| 0 <= i < m1.len() && m1[i] == selected as usize;
    lemma_index_of_increasing(m1, f0);
    lemma_index_of_increasing(m1, t0);
    lemma_index_of_increasing(m1, s0);
    let proj = movable_items(s, m1);
    let moved = proj.remove(f0).insert(t0, s[from]);
    proj.remove(f0).insert_ensures(t0, s[from]);
    proj.remove_ensures(f0);
    let k = remapped_among(selected, from, to, m1);
    let target = reordered(s, from, to, TabReorderPolicy::SomePinned, pins);
    if selected == from {
        assert(target[k] == moved[t0]);
    } else if f0 < t0 && s0 > f0 && s0 <= t0 {
        lemma_index_of_increasing(m1, s0 - 1);
        assert(target[k] == moved[s0 - 1]);
        assert(moved[s0 - 1] == proj[s0]);
    } else if f0 > t0 && s0 >= t0 && s0 < f0 {
        lemma_index_of_increasing(m1, s0 + 1);
        assert(target[k] == moved[s0 + 1]);
        assert(moved[s0 + 1] == proj[s0]);
    } else {
        assert(target[k] == moved[s0]);
        if s0 < f0 && s0 < t0 {
            assert(moved[s0] == proj[s0]);
        } else if f0 < t0 {
            assert(moved[s0] == proj.remove(f0)[s0 - 1]);
        } else if s0 < t0 {
            assert(moved[s0] == proj[s0]);
        } else {
            assert(moved[s0] == proj.remove(f0)[s0 - 1]);
        }
    }
}

/// Remapping depends only on the movable slots up to the largest index involved.
proof fn lemma_remap_among_prefix(
    selected: int,
    from: int,
    to: int,
    p: Seq<bool>,
    n1: nat,
    n2: nat,
)
    requires
        n1 <= usize::MAX + 1,
        n2 <= usize::MAX + 1,
        0 <= from < n1,
        0 <= to < n1,
        0 <= selected < n1,
        from < n2,
        to < n2,
        selected < n2,
        !pinned(from, Some(p)),
        !pinned(to, Some(p)),
        !pinned(selected, Some(p)),
    ensures
        remapped_among(selected, from, to, movable_seq(n1, Some(p))) == remapped_among(
            selected,
            from,
            to,
            movable_seq(n2, Some(p)),
        ),
{
    let pins = Some(p);
    let hi = if from >= to && from >= selected {
        from
    } else if to >= selected {
        to
    } else {
        selected
    };
    let n0 = (hi + 1) as nat;
    let m0 = movable_seq(n0, pins);
    let m1 = movable_seq(n1, pins);
    let m2 = movable_seq(n2, pins);
    lemma_movable_seq(n0, pins);
    lemma_movable_seq(n1, pins);
    lemma_movable_seq(n2, pins);
    lemma_movable_seq_prefix(n0, n1, pins);
    lemma_movable_seq_prefix(n0, n2, pins);
    let f0 = choose|i: int| 0 <= i < m0.len() && m0[i] == from as usize;
    let t0 = choose|i: int| 0 <= i < m0.len() && m0[i] == to as usize;
    let s0 = choose|i: int| 0 <= i < m0.len() && m0[i] == selected as usize;
    assert(m1[f0] == from as usize && m2[f0] == from as usize);
    assert(m1[t0] == to as usize && m2[t0] == to as usize);
    assert(m1[s0] == selected as usize && m2[s0] == selected as usize);
    lemma_index_of_increasing(m1, f0);
    lemma_index_of_increasing(m1, t0);
    lemma_index_of_increasing(m1, s0);
    lemma_index_of_increasing(m2, f0);
    lemma_index_of_increasing(m2, t0);
    lemma_index_of_increasing(m2, s0);
    if f0 < t0 && s0 > f0 && s0 <= t0 {
        assert(m1[s0 - 1] == m0[s0 - 1] && m2[s0 - 1] == m0[s0 - 1]);
    }
    if f0 > t0 && s0 >= t0 && s0 < f0 {
        assert(m1[s0 + 1] == m0[s0 + 1] && m2[s0 + 1] == m0[s0 + 1]);
    }
}

/// A move with a pin mask carries the tab at `selected` to
/// [`remapped_with_pins`]`(selected, from, to, Some(p))`: the selection remapped by
/// [`remap_selected_index_with_pins`] still shows the same tab.
pub proof fn law_remap_with_pins_follows_move<T>(
    s: Seq<T>,
    from: int,
    to: int,
    p: Seq<bool>,
    selected: int,
)
    requires
        s.len() <= usize::MAX,
        p.len() <= usize::MAX,
        reorder_accepted(s.len() as int, from, to, TabReorderPolicy::SomePinned, Some(p)),
        from != to,
        0 <= selected < s.len(),
    ensures
        0 <= remapped_with_pins(selected, from, to, Some(p)) < s.len(),
        reordered(s, from, to, TabReorderPolicy::SomePinned, Some(p))[remapped_with_pins(
            selected,
            from,
            to,
            Some(p),
        )] == s[selected],
{
    if pinned(selected, Some(p)) {
        law_pinned_slots_keep_items(s, from, to, p, selected);
    } else {
        let n2 = remap_len(selected, from, to, p) as nat;
        lemma_remap_among_prefix(selected, from, to, p, s.len(), n2);
        lemma_remap_among_follows_move(s, from, to, p, selected);
    }
}

/// Moving an item back undoes the move: when a move from `from` to `to` is accepted, the
/// move from `to` back to `from` is accepted on the result and restores the original order,
/// under every policy and pin mask.
pub proof fn law_move_back_restores<T>(
    s: Seq<T>,
    from: int,
    to: int,
    policy: TabReorderPolicy,
    pins: Option<Seq<bool>>,
)
    requires
        s.len() <= usize::MAX,
        reorder_accepted(s.len() as int, from, to, policy, pins),
        from != to,
    ensures
        reordered(s, from, to, policy, pins).len() == s.len(),
        reorder_accepted(
            reordered(s, from, to, policy, pins).len() as int,
            to,
            from,
            policy,
            pins,
        ),
        reordered(reordered(s, from, to, policy, pins), to, from, policy, pins) == s,
{
    if policy == TabReorderPolicy::SomePinned {
        let m = movable_seq(s.len(), pins);
        lemma_movable_seq(s.len(), pins);
        let f0 = choose|i: int| 0 <= i < m.len() && m[i] == from as usize;
        let t0 = choose|i: int| 0 <= i < m.len() && m[i] == to as usize;
        lemma_index_of_increasing(m, f0);
        lemma_index_of_increasing(m, t0);
        let mi = movable_items(s, m);
        let moved = mi.remove(f0).insert(t0, s[from]);
        mi.remove_ensures(f0);
        mi.remove(f0).insert_ensures(t0, s[from]);
        let s1 = reordered(s, from, to, policy, pins);
        assert(s1.len() == s.len());
        assert(s1[to] == moved[t0]);
        assert(movable_items(s1, m) =~= moved) by {
            assert forall|i: int| 0 <= i < m.len() implies #[trigger] movable_items(s1, m)[i]
                == moved[i] by {
                lemma_index_of_increasing(m, i);
            }
        }
        let back = moved.remove(t0).insert(f0, s1[to]);
        moved.remove_ensures(t0);
        moved.remove(t0).insert_ensures(f0, s1[to]);
        assert(moved.remove(t0) =~= mi.remove(f0));
        assert(back =~= mi);
        let s2 = reordered(s1, to, from, policy, pins);
        assert(s2 =~= s) by {
            assert forall|k: int| 0 <= k < s.len() implies #[trigger] s2[k] == s[k] by {
                if m.contains(k as usize) {
                    let i = m.index_of(k as usize);
                    lemma_index_of_increasing(m, i);
                    assert(s2[k] == back[i]);
                }
            }
        }
    } else {
        let s1 = s.remove(from).insert(to, s[from]);
        s.remove_ensures(from);
        s.remove(from).insert_ensures(to, s[from]);
        assert(s1[to] == s[from]);
        assert(s1.remove(to) =~= s.remove(from));
        let s2 = s1.remove(to).insert(from, s1[to]);
        s1.remove(to).insert_ensures(from, s1[to]);
        assert(s2 =~= s);
    }
}

/// Whether slot `index` is pinned by the mask.
pub fn is_pinned(index: usize, tab_pinned: Option<&[bool]>) -> (r: bool)
    ensures
        r == pinned(index as int, pins_view(tab_pinned)),
{
    match tab_pinned {
        Some(pins) => index < pins.len() && pins[index],
        None => false,
    }
}

/// Whether the tab at `index` may be dragged.
pub fn can_drag_index(index: usize, policy: TabReorderPolicy, tab_pinned: Option<&[bool]>) -> (r:
    bool)
    ensures
        r == draggable(index as int, policy, pins_view(tab_pinned)),
{
    match policy {
        TabReorderPolicy::AllPinned => false,
        TabReorderPolicy::NonePinned => true,
        TabReorderPolicy::SomePinned => !is_pinned(index, tab_pinned),
    }
}

/// Whether dropping onto `to` is allowed when dragging from `from`.
pub fn can_drop_at(
    from: usize,
    to: usize,
    policy: TabReorderPolicy,
    tab_pinned: Option<&[bool]>,
) -> (r: bool)
    ensures
        r == droppable(from as int, to as int, policy, pins_view(tab_pinned)),
{
    if from == to {
        return true;
    }
    can_drag_index(from, policy, tab_pinned) && can_drag_index(to, policy, tab_pinned)
}

/// The unpinned slots below `len`, in increasing order.
pub fn movable_indices(len: usize, tab_pinned: Option<&[bool]>) -> (r: Vec<usize>)
    ensures
        r@ == movable_seq(len as nat, pins_view(tab_pinned)),
{
    let mut r: Vec<usize> = Vec::new();
    let mut index: usize = 0;
    while index < len
        invariant
            index <= len,
            r@ == movable_seq(index as nat, pins_view(tab_pinned)),
        decreases len - index,
    {
        if !is_pinned(index, tab_pinned) {
            r.push(index);
        }
        index += 1;
    }
    r
}

/// The first position of `value` in `m`, if any.
fn position_of(m: &Vec<usize>, value: usize) -> (r: Option<usize>)
    ensures
        match r {
            Some(p) => p < m.len() && m@[p as int] == value && forall|q: int|
                0 <= q < p ==> m@[q] != value,
            None => !m@.contains(value),
        },
{
    let mut i: usize = 0;
    while i < m.len()
        invariant
            i <= m.len(),
            forall|q: int| 0 <= q < i ==> m@[q] != value,
        decreases m.len() - i,
    {
        if m[i] == value {
            return Some(i);
        }
        i += 1;
    }
    None
}

/// Exchanges the items at `a` and `b`.
fn swap_items<T>(items: &mut Vec<T>, a: usize, b: usize)
    requires
        a < b < old(items).len(),
    ensures
        final(items)@ == old(items)@.update(a as int, old(items)@[b as int]).update(
            b as int,
            old(items)@[a as int],
        ),
{
    let ghost s = items@;
    let x = items.remove(b);
    items.insert(a, x);
    let ghost w = items@;
    assert(forall|i: int| 0 <= i < a ==> w[i] == s[i]);
    assert(w[a as int] == s[b as int]);
    assert(forall|i: int| a < i <= b ==> w[i] == s[i - 1]);
    assert(forall|i: int| b < i < s.len() ==> w[i] == s[i]);
    let y = items.remove(a + 1);
    items.insert(b, y);
    assert(items@ =~= s.update(a as int, s[b as int]).update(b as int, s[a as int]));
}

/// The order while an item travels forward from movable position `fp`: it now stands at
/// movable position `p`, and the items at positions `fp+1..=p` have each moved back one.
spec fn travelling_forward<T>(s: Seq<T>, m: Seq<usize>, fp: int, p: int) -> Seq<T> {
    Seq::new(
        s.len(),
        |k: int|
            if m.contains(k as usize) {
                let q = m.index_of(k as usize);
                if fp <= q < p {
                    s[m[q + 1] as int]
                } else if q == p {
                    s[m[fp] as int]
                } else {
                    s[k]
                }
            } else {
                s[k]
            },
    )
}

/// The order while an item travels backward from movable position `fp`: it now stands at
/// movable position `p`, and the items at positions `p..fp` have each moved on one.
spec fn travelling_backward<T>(s: Seq<T>, m: Seq<usize>, fp: int, p: int) -> Seq<T> {
    Seq::new(
        s.len(),
        |k: int|
            if m.contains(k as usize) {
                let q = m.index_of(k as usize);
                if p < q <= fp {
                    s[m[q - 1] as int]
                } else if q == p {
                    s[m[fp] as int]
                } else {
                    s[k]
                }
            } else {
                s[k]
            },
    )
}

/// Moves the item at movable position `fp` to movable position `tp`.
fn rotate_movable<T>(items: &mut Vec<T>, m: &Vec<usize>, fp: usize, tp: usize)
    requires
        fp < m.len(),
        tp < m.len(),
        fp != tp,
        forall|i: int| 0 <= i < m.len() ==> (#[trigger] m@[i]) < old(items).len(),
        forall|i: int, j: int| 0 <= i < j < m.len() ==> m@[i] < m@[j],
    ensures
        final(items)@.len() == old(items)@.len(),
        fp < tp ==> final(items)@ == travelling_forward(old(items)@, m@, fp as int, tp as int),
        fp > tp ==> final(items)@ == travelling_backward(old(items)@, m@, fp as int, tp as int),
{
    let ghost s = items@;
    let ghost ms = m@;
    assert(s.len() == old(items).len());
    if fp < tp {
        let mut pos: usize = fp;
        proof {
            assert forall|k: int| 0 <= k < s.len() implies #[trigger] travelling_forward(
                s,
                ms,
                fp as int,
                fp as int,
            )[k] == s[k] by {
                if ms.contains(k as usize) {
                    let q = ms.index_of(k as usize);
                    if q == fp {
                        assert(ms[q] == k as usize);
                    }
                }
            }
            assert(travelling_forward(s, ms, fp as int, fp as int) =~= s);
        }
        while pos < tp
            invariant
                fp <= pos <= tp,
                tp < m.len(),
                m@ == ms,
                s.len() <= usize::MAX,
                forall|i: int| 0 <= i < ms.len() ==> (#[trigger] ms[i]) < s.len(),
                forall|i: int, j: int| 0 <= i < j < ms.len() ==> ms[i] < ms[j],
                items@ == travelling_forward(s, ms, fp as int, pos as int),
            decreases tp - pos,
        {
            let a = m[pos];
            let b = m[pos + 1];
            proof {
                lemma_index_of_increasing(ms, pos as int);
                lemma_index_of_increasing(ms, pos + 1);
            }
            let ghost before = items@;
            swap_items(items, a, b);
            proof {
                let next = travelling_forward(s, ms, fp as int, pos + 1);
                assert forall|k: int| 0 <= k < s.len() implies #[trigger] items@[k] == next[k] by {
                    if ms.contains(k as usize) {
                        let q = ms.index_of(k as usize);
                        lemma_index_of_increasing(ms, q);
                        if q == pos {
                            assert(k == a);
                        } else if q == pos + 1 {
                            assert(k == b);
                        } else {
                            assert(k != a && k != b);
                        }
                    } else {
                        assert(k != a && k != b);
                    }
                }
                assert(items@ =~= next);
            }
            pos = pos + 1;
        }
    } else {
        let mut pos: usize = fp;
        proof {
            assert forall|k: int| 0 <= k < s.len() implies #[trigger] travelling_backward(
                s,
                ms,
                fp as int,
                fp as int,
            )[k] == s[k] by {
                if ms.contains(k as usize) {
                    let q = ms.index_of(k as usize);
                    if q == fp {
                        assert(ms[q] == k as usize);
                    }
                }
            }
            assert(travelling_backward(s, ms, fp as int, fp as int) =~= s);
        }
        while pos > tp
            invariant
                tp <= pos <= fp,
                fp < m.len(),
                m@ == ms,
                s.len() <= usize::MAX,
                forall|i: int| 0 <= i < ms.len() ==> (#[trigger] ms[i]) < s.len(),
                forall|i: int, j: int| 0 <= i < j < ms.len() ==> ms[i] < ms[j],
                items@ == travelling_backward(s, ms, fp as int, pos as int),
            decreases pos - tp,
        {
            let a = m[pos - 1];
            let b = m[pos];
            proof {
                lemma_index_of_increasing(ms, pos - 1);
                lemma_index_of_increasing(ms, pos as int);
            }
            swap_items(items, a, b);
            proof {
                let next = travelling_backward(s, ms, fp as int, pos - 1);
                assert forall|k: int| 0 <= k < s.len() implies #[trigger] items@[k] == next[k] by {
                    if ms.contains(k as usize) {
                        let q = ms.index_of(k as usize);
                        lemma_index_of_increasing(ms, q);
                        if q == pos {
                            assert(k == b);
                        } else if q == pos - 1 {
                            assert(k == a);
                        } else {
                            assert(k != a && k != b);
                        }
                    } else {
                        assert(k != a && k != b);
                    }
                }
                assert(items@ =~= next);
            }
            pos = pos - 1;
        }
    }
}

/// Reorders `items` in place, moving the item at `from` so that it lands at `to`.
/// Returns `false`, leaving `items` unchanged, when the move is not allowed.
#[verifier::rlimit(30)]
pub fn try_reorder<T>(
    items: &mut Vec<T>,
    from: usize,
    to: usize,
    policy: TabReorderPolicy,
    tab_pinned: Option<&[bool]>,
) -> (r: bool)
    ensures
        r == reorder_accepted(
            old(items)@.len() as int,
            from as int,
            to as int,
            policy,
            pins_view(tab_pinned),
        ),
        r && from != to ==> final(items)@ == reordered(
            old(items)@,
            from as int,
            to as int,
            policy,
            pins_view(tab_pinned),
        ),
        !(r && from != to) ==> final(items)@ == old(items)@,
{
    let ghost s = items@;
    let ghost pins = pins_view(tab_pinned);
    if from >= items.len() || to >= items.len() {
        return false;
    }
    if !can_drop_at(from, to, policy, tab_pinned) {
        return false;
    }
    if from == to {
        return true;
    }
    if policy == TabReorderPolicy::SomePinned {
        if tab_pinned.is_none() {
            return false;
        }
        let len = items.len();
        let movable = movable_indices(len, tab_pinned);
        proof {
            lemma_movable_seq(len as nat, pins);
        }
        let from_pos = match position_of(&movable, from) {
            Some(p) => p,
            None => {
                return false;
            },
        };
        let to_pos = match position_of(&movable, to) {
            Some(p) => p,
            None => {
                return false;
            },
        };
        let ghost m = movable@;
        proof {
            lemma_index_of_increasing(m, from_pos as int);
            lemma_index_of_increasing(m, to_pos as int);
        }
        rotate_movable(items, &movable, from_pos, to_pos);
        proof {
            let fp = from_pos as int;
            let tp = to_pos as int;
            let moved = movable_items(s, m).remove(fp).insert(tp, s[from as int]);
            let target = reordered(s, from as int, to as int, policy, pins);
            assert forall|k: int| 0 <= k < s.len() implies #[trigger] items@[k] == target[k] by {
                if m.contains(k as usize) {
                    let q = m.index_of(k as usize);
                    lemma_index_of_increasing(m, q);
                    assert(m[q] == k as usize);
                    if fp < tp {
                        if q < fp {
                        } else if q < tp {
                            assert(moved[q] == movable_items(s, m)[q + 1]);
                        } else if q == tp {
                        } else {
                            assert(moved[q] == movable_items(s, m)[q]);
                        }
                    } else {
                        if q < tp {
                        } else if q == tp {
                        } else if q <= fp {
                            assert(moved[q] == movable_items(s, m)[q - 1]);
                        } else {
                            assert(moved[q] == movable_items(s, m)[q]);
                        }
                    }
                }
            }
            assert(items@ =~= target);
        }
        return true;
    }
    let item = items.remove(from);
    items.insert(to, item);
    true
}

/// Maps a selection index through a move among the strictly increasing movable slots.
fn remap_among(movable: &Vec<usize>, selected: usize, from: usize, to: usize) -> (r: usize)
    requires
        forall|i: int, j: int| 0 <= i < j < movable@.len() ==> movable@[i] < movable@[j],
    ensures
        r as int == remapped_among(selected as int, from as int, to as int, movable@),
{
    let ghost m = movable@;
    let from_pos = match position_of(movable, from) {
        Some(p) => p,
        None => {
            return selected;
        },
    };
    let to_pos = match position_of(movable, to) {
        Some(p) => p,
        None => {
            return selected;
        },
    };
    let sel_pos = match position_of(movable, selected) {
        Some(p) => p,
        None => {
            return selected;
        },
    };
    proof {
        lemma_index_of_increasing(m, from_pos as int);
        lemma_index_of_increasing(m, to_pos as int);
        lemma_index_of_increasing(m, sel_pos as int);
    }
    if selected == from {
        return to;
    }
    if from_pos < to_pos && sel_pos > from_pos && sel_pos <= to_pos {
        return movable[sel_pos - 1];
    }
    if from_pos > to_pos && sel_pos >= to_pos && sel_pos < from_pos {
        return movable[sel_pos + 1];
    }
    selected
}

/// Maps a selection index through a move from `from` to `to` without pins.
pub fn remap_selected_index(selected: usize, from: usize, to: usize) -> (r: usize)
    ensures
        r as int == remapped(selected as int, from as int, to as int),
{
    remap_selected_index_with_pins(selected, from, to, None)
}

/// Maps a selection index through [`try_reorder`] with an optional pin mask.
#[verifier::rlimit(30)]
pub fn remap_selected_index_with_pins(
    selected: usize,
    from: usize,
    to: usize,
    tab_pinned: Option<&[bool]>,
) -> (r: usize)
    requires
        tab_pinned is Some && !pinned(selected as int, pins_view(tab_pinned)) ==> from < usize::MAX
            && to < usize::MAX,
    ensures
        r as int == remapped_with_pins(selected as int, from as int, to as int, pins_view(tab_pinned)),
{
    if is_pinned(selected, tab_pinned) {
        return selected;
    }
    match tab_pinned {
        Some(pins) => {
            let next = selected.saturating_add(1);
            let mut len = pins.len();
            if next > len {
                len = next;
            }
            if from + 1 > len {
                len = from + 1;
            }
            if to + 1 > len {
                len = to + 1;
            }
            assert(len as int == remap_len(selected as int, from as int, to as int, pins@));
            let movable = movable_indices(len, tab_pinned);
            proof {
                lemma_movable_seq(len as nat, pins_view(tab_pinned));
            }
            remap_among(&movable, selected, from, to)
        },
        None => {
            if selected == from {
                return to;
            }
            if from < selected && to >= selected {
                selected - 1
            } else if from > selected && to <= selected {
                selected + 1
            } else {
                selected
            }
        },
    }
}

} // verus!

