//! The canonical model: one slot per workspace in a fixed range `1..=N`,
//! a window table keyed by compositor address, and the active workspace.
//! Slots are created once and only mutated, so "slot not found" is
//! structurally impossible for identifiers the adapter has validated.

use vstd::prelude::*;

use crate::msg::{Fault, Icon, IconView};

verus! {

/// One window the compositor reported: its opaque address, its application
/// class (used for icon lookup), and the workspace it sits on.
#[derive(Debug)]
pub struct WindowEntry {
    pub addr: u64,
    pub class: String,
    pub ws: usize,
}

/// Mathematical value of a [`WindowEntry`].
#[verifier::ext_equal]
pub struct WindowView {
    pub addr: u64,
    pub class: Seq<char>,
    pub ws: int,
}

impl View for WindowEntry {
    type V = WindowView;

    open spec fn view(&self) -> WindowView {
        WindowView { addr: self.addr, class: self.class@, ws: self.ws as int }
    }
}

/// The state of one workspace slot. `active` mirrors the focused
/// workspace; the UI renders an active slot as non-interactive.
#[derive(Debug)]
pub struct Slot {
    pub visible: bool,
    pub active: bool,
    pub icon: Icon,
}

/// Mathematical value of a [`Slot`].
#[verifier::ext_equal]
pub struct SlotView {
    pub visible: bool,
    pub active: bool,
    pub icon: IconView,
}

impl View for Slot {
    type V = SlotView;

    open spec fn view(&self) -> SlotView {
        SlotView { visible: self.visible, active: self.active, icon: self.icon@ }
    }
}

/// The whole model: the bound `n`, the active workspace identifier, the
/// window table, and one slot per workspace `1..=n` (slot `id` at index
/// `id - 1`).
#[derive(Debug)]
pub struct Model {
    pub n: usize,
    pub active: usize,
    pub windows: Vec<WindowEntry>,
    pub slots: Vec<Slot>,
}

/// Mathematical value of a [`Model`].
#[verifier::ext_equal]
pub struct ModelView {
    pub n: int,
    pub active: int,
    pub windows: Seq<WindowView>,
    pub slots: Seq<SlotView>,
}

impl View for Model {
    type V = ModelView;

    open spec fn view(&self) -> ModelView {
        ModelView {
            n: self.n as int,
            active: self.active as int,
            windows: self.windows@.map_values(|w: WindowEntry| w@),
            slots: self.slots@.map_values(|s: Slot| s@),
        }
    }
}

/// The values of a sequence of window entries.
pub open spec fn windows_view(s: Seq<WindowEntry>) -> Seq<WindowView> {
    s.map_values(|w: WindowEntry| w@)
}

/// Some window in `wins` has address `a`.
pub open spec fn contains_addr(wins: Seq<WindowView>, a: u64) -> bool {
    exists|i: int| 0 <= i < wins.len() && wins[i].addr == a
}

/// The index of the window with address `a`; meaningful when the
/// addresses are unique and `a` is present.
pub open spec fn addr_index(wins: Seq<WindowView>, a: u64) -> int {
    choose|i: int| 0 <= i < wins.len() && wins[i].addr == a
}

/// The window with address `a`.
pub open spec fn window_of(wins: Seq<WindowView>, a: u64) -> WindowView {
    wins[addr_index(wins, a)]
}

/// Some window in `wins` sits on workspace `id`.
pub open spec fn occupied(wins: Seq<WindowView>, id: int) -> bool {
    exists|i: int| 0 <= i < wins.len() && wins[i].ws == id
}

/// No two windows share an address: the table is a mapping.
pub open spec fn unique_addrs(wins: Seq<WindowView>) -> bool {
    forall|i: int, j: int| 0 <= i < j < wins.len() ==> wins[i].addr != wins[j].addr
}

/// Structural well-formedness: one slot per workspace in `1..=n`, the
/// active identifier in range and mirrored by exactly the one slot flag,
/// window addresses unique, and every window's workspace in range.
pub open spec fn wf(m: ModelView) -> bool {
    &&& 1 <= m.n
    &&& m.slots.len() == m.n
    &&& 1 <= m.active <= m.n
    &&& forall|i: int| 0 <= i < m.slots.len() ==> (#[trigger] m.slots[i].active <==> i + 1 == m.active)
    &&& unique_addrs(m.windows)
    &&& forall|i: int| 0 <= i < m.windows.len() ==> 1 <= #[trigger] m.windows[i].ws <= m.n
}

/// A slot with no window on its workspace shows the default icon. The
/// cleanup pass restores this after every removal or move.
pub open spec fn icons_clean(m: ModelView) -> bool {
    forall|i: int|
        0 <= i < m.slots.len() && !occupied(m.windows, i + 1) ==> #[trigger] m.slots[i].icon
            == IconView::Default
}

/// The model before startup reconciliation: no windows, every slot hidden
/// with the default icon, workspace 1 nominally active.
pub open spec fn empty_model(n: int) -> ModelView {
    ModelView {
        n: n,
        active: 1,
        windows: Seq::empty(),
        slots: Seq::new(n as nat, |i: int| SlotView {
            visible: false,
            active: i == 0,
            icon: IconView::Default,
        }),
    }
}

/// The index of the first window on workspace `id`; meaningful when one
/// exists.
pub open spec fn first_on_index(wins: Seq<WindowView>, id: int) -> int
    decreases wins.len(),
{
    if wins.len() == 0 {
        0
    } else if wins[0].ws == id {
        0
    } else {
        1 + first_on_index(wins.drop_first(), id)
    }
}

/// If `k` is the first index holding a window on `id`, then it is the
/// index `first_on_index` denotes.
pub proof fn lemma_first_on_index(wins: Seq<WindowView>, id: int, k: int)
    requires
        0 <= k < wins.len(),
        wins[k].ws == id,
        forall|j: int| 0 <= j < k ==> wins[j].ws != id,
    ensures
        first_on_index(wins, id) == k,
    decreases k,
{
    if k > 0 {
        lemma_first_on_index(wins.drop_first(), id, k - 1);
    }
}

/// Every window's workspace lies in `1..=n`.
pub open spec fn all_ws_in_range(wins: Seq<WindowView>, n: int) -> bool {
    forall|i: int| 0 <= i < wins.len() ==> 1 <= #[trigger] wins[i].ws <= n
}

/// Whether a snapshot of the compositor's state fits the model: the
/// active workspace and every window's workspace in `1..=n`, and window
/// addresses unique.
pub open spec fn snapshot_ok(n: int, wins: Seq<WindowView>, active: int) -> bool {
    &&& 1 <= active <= n
    &&& all_ws_in_range(wins, n)
    &&& unique_addrs(wins)
}

/// The model startup reconciliation builds from a snapshot: a slot is
/// visible when its workspace holds a window or is active; an occupied
/// slot shows the icon of the first window found on it, an empty one the
/// default icon; the active slot is marked.
pub open spec fn snapshot_model(n: int, wins: Seq<WindowView>, active: int) -> ModelView {
    ModelView {
        n: n,
        active: active,
        windows: wins,
        slots: Seq::new(n as nat, |i: int| SlotView {
            visible: occupied(wins, i + 1) || i + 1 == active,
            active: i + 1 == active,
            icon: if occupied(wins, i + 1) {
                IconView::Class(wins[first_on_index(wins, i + 1)].class)
            } else {
                IconView::Default
            },
        }),
    }
}

/// If `i` holds a window with address `a` and addresses are unique, then
/// `i` is the index `addr_index` denotes.
pub proof fn lemma_addr_index(wins: Seq<WindowView>, a: u64, i: int)
    requires
        unique_addrs(wins),
        0 <= i < wins.len(),
        wins[i].addr == a,
    ensures
        contains_addr(wins, a),
        addr_index(wins, a) == i,
{
    assert(contains_addr(wins, a));
    let j = addr_index(wins, a);
    if j != i {
        assert(wins[i].addr != wins[j].addr);
    }
}

impl Model {
    /// The empty model for a panel with `n` workspace slots.
    pub fn new(n: usize) -> (r: Model)
        requires
            1 <= n,
        ensures
            r@ == empty_model(n as int),
            wf(r@),
            icons_clean(r@),
    {
        let mut slots: Vec<Slot> = Vec::new();
        let mut i: usize = 0;
        while i < n
            invariant
                i <= n,
                slots@.len() == i,
                forall|j: int|
                    0 <= j < i as int ==> #[trigger] slots@[j]@ == (SlotView {
                        visible: false,
                        active: j == 0,
                        icon: IconView::Default,
                    }),
            decreases n - i,
        {
            slots.push(Slot { visible: false, active: i == 0, icon: Icon::Default });
            i += 1;
        }
        let r = Model { n, active: 1, windows: Vec::new(), slots };
        proof {
            assert(r@.slots =~= empty_model(n as int).slots);
            assert(r@.windows =~= empty_model(n as int).windows);
            assert(r@ =~~= empty_model(n as int));
            assert forall|i: int| 0 <= i < r@.slots.len() implies !#[trigger] occupied(
                r@.windows,
                i + 1,
            ) by {}
        }
        r
    }

    /// Startup reconciliation: build the model from the window list and
    /// active workspace the compositor reports, validating both against
    /// the fixed range `1..=n` before anything is trusted.
    pub fn from_snapshot(n: usize, entries: Vec<WindowEntry>, active: usize) -> (r: Result<
        Model,
        Fault,
    >)
        requires
            1 <= n,
        ensures
            (r == Err::<Model, Fault>(Fault::ActiveOutOfRange) <==> !(1 <= active <= n)),
            (r == Err::<Model, Fault>(Fault::WorkspaceOutOfRange) <==> 1 <= active <= n
                && !all_ws_in_range(windows_view(entries@), n as int)),
            (r == Err::<Model, Fault>(Fault::DuplicateAddress) <==> 1 <= active <= n
                && all_ws_in_range(windows_view(entries@), n as int) && !unique_addrs(
                windows_view(entries@),
            )),
            (r matches Ok(_) <==> snapshot_ok(n as int, windows_view(entries@), active as int)),
            r matches Ok(m) ==> m@ == snapshot_model(
                n as int,
                windows_view(entries@),
                active as int,
            ) && wf(m@) && icons_clean(m@),
    {
        let ghost wins = windows_view(entries@);
        if active < 1 || active > n {
            return Err(Fault::ActiveOutOfRange);
        }
        let mut i: usize = 0;
        while i < entries.len()
            invariant
                i <= entries@.len(),
                1 <= active <= n,
                wins == windows_view(entries@),
                forall|j: int| 0 <= j < i as int ==> 1 <= #[trigger] wins[j].ws <= n as int,
            decreases entries@.len() - i,
        {
            if entries[i].ws < 1 || entries[i].ws > n {
                proof {
                    assert(!(1 <= wins[i as int].ws <= n as int));
                }
                return Err(Fault::WorkspaceOutOfRange);
            }
            proof {
                assert(1 <= wins[i as int].ws <= n as int);
            }
            i += 1;
        }
        let mut a: usize = 0;
        while a < entries.len()
            invariant
                a <= entries@.len(),
                1 <= active <= n,
                wins == windows_view(entries@),
                all_ws_in_range(wins, n as int),
                forall|p: int, q: int|
                    0 <= p < q < wins.len() && p < a as int ==> wins[p].addr != wins[q].addr,
            decreases entries@.len() - a,
        {
            let mut b: usize = a + 1;
            while b < entries.len()
                invariant
                    a < entries@.len(),
                    a < b,
                    1 <= active <= n,
                    wins == windows_view(entries@),
                    all_ws_in_range(wins, n as int),
                    forall|p: int, q: int|
                        0 <= p < q < wins.len() && p < a as int ==> wins[p].addr != wins[q].addr,
                    forall|q: int| (a as int) < q < b as int ==> wins[a as int].addr != wins[q].addr,
                decreases entries@.len() - b,
            {
                if entries[a].addr == entries[b].addr {
                    proof {
                        assert(wins[a as int].addr == wins[b as int].addr);
                        assert(!unique_addrs(wins));
                    }
                    return Err(Fault::DuplicateAddress);
                }
                proof {
                    assert(wins[a as int].addr != wins[b as int].addr);
                }
                b += 1;
            }
            a += 1;
        }
        proof {
            assert(unique_addrs(wins));
            assert(snapshot_ok(n as int, wins, active as int));
        }
        let ghost target = snapshot_model(n as int, wins, active as int);
        let mut slots: Vec<Slot> = Vec::new();
        let mut idx: usize = 0;
        while idx < n
            invariant
                idx <= n,
                1 <= active <= n,
                wins == windows_view(entries@),
                target == snapshot_model(n as int, wins, active as int),
                slots@.len() == idx as int,
                forall|j: int| 0 <= j < idx as int ==> #[trigger] slots@[j]@ == target.slots[j],
            decreases n - idx,
        {
            let id = idx + 1;
            match scan_first_on(&entries, id) {
                Some(k) => {
                    let cls = entries[k].class.clone();
                    slots.push(Slot { visible: true, active: id == active, icon: Icon::Class(cls) });
                },
                None => {
                    slots.push(Slot {
                        visible: id == active,
                        active: id == active,
                        icon: Icon::Default,
                    });
                },
            }
            proof {
                assert(slots@[idx as int]@ == target.slots[idx as int]);
            }
            idx += 1;
        }
        let m = Model { n, active, windows: entries, slots };
        proof {
            assert(m@.windows =~= wins);
            assert(m@.slots =~= target.slots);
            assert(m@ =~~= target);
            assert forall|i: int| 0 <= i < m@.slots.len() implies (#[trigger] m@.slots[i].active
                <==> i + 1 == m@.active) by {}
            assert forall|i: int|
                0 <= i < m@.slots.len() && !occupied(m@.windows, i + 1) implies #[trigger] m@.slots[i].icon
                == IconView::Default by {}
        }
        Ok(m)
    }
}

impl Model {
    /// The configured number of workspace slots.
    pub fn bound(&self) -> (r: usize)
        ensures
            r as int == self@.n,
    {
        self.n
    }

    /// The active workspace identifier.
    pub fn active_workspace(&self) -> (r: usize)
        ensures
            r as int == self@.active,
    {
        self.active
    }

    /// How many windows the table holds.
    pub fn window_count(&self) -> (r: usize)
        ensures
            r as int == self@.windows.len(),
    {
        self.windows.len()
    }

    /// Whether slot `id` is shown.
    pub fn slot_visible(&self, id: usize) -> (r: bool)
        requires
            wf(self@),
            1 <= id as int <= self@.n,
        ensures
            r == self@.slots[id as int - 1].visible,
    {
        self.slots[id - 1].visible
    }

    /// Whether slot `id` carries the active mark (rendered
    /// non-interactive).
    pub fn slot_active(&self, id: usize) -> (r: bool)
        requires
            wf(self@),
            1 <= id as int <= self@.n,
        ensures
            r == self@.slots[id as int - 1].active,
    {
        self.slots[id - 1].active
    }

    /// The icon slot `id` shows.
    pub fn slot_icon(&self, id: usize) -> (r: Icon)
        requires
            wf(self@),
            1 <= id as int <= self@.n,
        ensures
            r@ == self@.slots[id as int - 1].icon,
    {
        self.slots[id - 1].icon.dup()
    }
}

/// The first window on workspace `id` in the listed order, when any.
fn scan_first_on(entries: &Vec<WindowEntry>, id: usize) -> (r: Option<usize>)
    ensures
        match r {
            Some(k) => k < entries@.len() && occupied(windows_view(entries@), id as int)
                && first_on_index(windows_view(entries@), id as int) == k as int,
            None => !occupied(windows_view(entries@), id as int),
        },
{
    let mut i: usize = 0;
    while i < entries.len()
        invariant
            i <= entries@.len(),
            forall|j: int| 0 <= j < i as int ==> windows_view(entries@)[j].ws != id as int,
        decreases entries@.len() - i,
    {
        if entries[i].ws == id {
            proof {
                assert(windows_view(entries@)[i as int].ws == id as int);
                lemma_first_on_index(windows_view(entries@), id as int, i as int);
            }
            return Some(i);
        }
        proof {
            assert(windows_view(entries@)[i as int].ws != id as int);
        }
        i += 1;
    }
    None
}

} // verus!
