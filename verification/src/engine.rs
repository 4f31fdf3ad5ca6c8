//! The state-synchronization engine: a deterministic reducer that applies
//! one message at a time to the model and computes the UI updates the
//! change calls for. The transition relation is written once as the spec
//! function [`step`]; the executable reducer [`Model::apply`] is proved to
//! follow it exactly.

use vstd::prelude::*;

use crate::model::{
    addr_index, contains_addr, occupied, unique_addrs, wf, window_of, Model, ModelView, Slot,
    SlotView, WindowEntry, WindowView,
};
use crate::msg::{
    effects_view, msg_in_range, EffectView, Icon, IconView, Msg, MsgView, UiEffect,
};

verus! {

/// The slot-icon cleanup pass: every slot whose workspace holds no window
/// falls back to the default icon; every other slot keeps its icon. Run
/// after a window is removed or moved, because the displayed icon tracks
/// the last active window's class rather than a live aggregate.
pub open spec fn clear_icons(slots: Seq<SlotView>, wins: Seq<WindowView>) -> Seq<SlotView> {
    Seq::new(slots.len(), |i: int| if occupied(wins, i + 1) {
        slots[i]
    } else {
        SlotView { icon: IconView::Default, ..slots[i] }
    })
}

/// The UI updates of a cleanup pass over slots `1..=k`: one default-icon
/// reset per unoccupied slot, in ascending slot order.
pub open spec fn cleanup_effects(wins: Seq<WindowView>, k: int) -> Seq<EffectView>
    decreases k,
{
    if k <= 0 {
        Seq::empty()
    } else if occupied(wins, k) {
        cleanup_effects(wins, k - 1)
    } else {
        cleanup_effects(wins, k - 1).push(EffectView::SetIcon { id: k, icon: IconView::Default })
    }
}

/// The window table after `WindowOpened(addr, class, id)`: the entry for
/// `addr` is replaced when present, appended otherwise.
pub open spec fn upsert_window(wins: Seq<WindowView>, addr: u64, class: Seq<char>, id: int) -> Seq<
    WindowView,
> {
    let w = WindowView { addr, class, ws: id };
    if contains_addr(wins, addr) {
        wins.update(addr_index(wins, addr), w)
    } else {
        wins.push(w)
    }
}

/// The window table after `WindowClosed(addr)`: the entry for `addr` is
/// removed when present; an unknown address is a no-op.
pub open spec fn drop_window(wins: Seq<WindowView>, addr: u64) -> Seq<WindowView> {
    if contains_addr(wins, addr) {
        wins.remove(addr_index(wins, addr))
    } else {
        wins
    }
}

/// The window table after `WindowMoved(addr, id)`: the entry for `addr`
/// keeps its class and changes workspace; an unknown address is a no-op.
pub open spec fn move_window(wins: Seq<WindowView>, addr: u64, id: int) -> Seq<WindowView> {
    if contains_addr(wins, addr) {
        let i = addr_index(wins, addr);
        wins.update(i, WindowView { ws: id, ..wins[i] })
    } else {
        wins
    }
}

/// The reducer's transition relation, one case per message.
pub open spec fn step(m: ModelView, msg: MsgView) -> ModelView {
    match msg {
        MsgView::WorkspaceCreated { id } => ModelView {
            slots: m.slots.update(id - 1, SlotView { visible: true, ..m.slots[id - 1] }),
            ..m
        },
        MsgView::WorkspaceDestroyed { id } => ModelView {
            slots: m.slots.update(id - 1, SlotView { visible: false, ..m.slots[id - 1] }),
            ..m
        },
        MsgView::ActiveWorkspaceChanged { id } => {
            let cleared = m.slots.update(
                m.active - 1,
                SlotView { active: false, ..m.slots[m.active - 1] },
            );
            ModelView {
                active: id,
                slots: cleared.update(id - 1, SlotView { active: true, ..cleared[id - 1] }),
                ..m
            }
        },
        MsgView::ActiveWindowChanged { addr } => {
            if contains_addr(m.windows, addr) {
                let w = window_of(m.windows, addr);
                ModelView {
                    slots: m.slots.update(
                        w.ws - 1,
                        SlotView { icon: IconView::Class(w.class), ..m.slots[w.ws - 1] },
                    ),
                    ..m
                }
            } else {
                m
            }
        },
        MsgView::WindowOpened { addr, class, id } => ModelView {
            windows: upsert_window(m.windows, addr, class, id),
            ..m
        },
        MsgView::WindowClosed { addr } => {
            let wins = drop_window(m.windows, addr);
            ModelView { windows: wins, slots: clear_icons(m.slots, wins), ..m }
        },
        MsgView::WindowMoved { addr, id } => {
            let wins = move_window(m.windows, addr, id);
            ModelView { windows: wins, slots: clear_icons(m.slots, wins), ..m }
        },
    }
}

/// The UI updates each message calls for, matching [`step`].
pub open spec fn effects_of(m: ModelView, msg: MsgView) -> Seq<EffectView> {
    match msg {
        MsgView::WorkspaceCreated { id } => seq![EffectView::ShowSlot { id }],
        MsgView::WorkspaceDestroyed { id } => seq![EffectView::HideSlot { id }],
        MsgView::ActiveWorkspaceChanged { id } => seq![
            EffectView::SetInteractive { id: m.active, on: true },
            EffectView::SetInteractive { id, on: false },
        ],
        MsgView::ActiveWindowChanged { addr } => {
            if contains_addr(m.windows, addr) {
                let w = window_of(m.windows, addr);
                seq![EffectView::SetIcon { id: w.ws, icon: IconView::Class(w.class) }]
            } else {
                Seq::empty()
            }
        },
        MsgView::WindowOpened { .. } => Seq::empty(),
        MsgView::WindowClosed { addr } => cleanup_effects(drop_window(m.windows, addr), m.n),
        MsgView::WindowMoved { addr, id } => cleanup_effects(move_window(m.windows, addr, id), m.n),
    }
}

impl Model {
    /// The index of the window with address `addr`, when present.
    fn find_window(&self, addr: u64) -> (r: Option<usize>)
        ensures
            match r {
                Some(i) => i < self.windows.len() && self@.windows[i as int].addr == addr
                    && contains_addr(self@.windows, addr) && (unique_addrs(self@.windows)
                    ==> addr_index(self@.windows, addr) == i as int),
                None => !contains_addr(self@.windows, addr),
            },
    {
        let mut i: usize = 0;
        while i < self.windows.len()
            invariant
                i <= self.windows.len(),
                forall|j: int| 0 <= j < i as int ==> self@.windows[j].addr != addr,
            decreases self.windows.len() - i,
        {
            if self.windows[i].addr == addr {
                proof {
                    assert(self@.windows[i as int].addr == addr);
                    if unique_addrs(self@.windows) {
                        crate::model::lemma_addr_index(self@.windows, addr, i as int);
                    }
                }
                return Some(i);
            }
            i += 1;
        }
        None
    }

    /// Whether any window sits on workspace `id`.
    pub fn workspace_occupied(&self, id: usize) -> (r: bool)
        ensures
            r == occupied(self@.windows, id as int),
    {
        let mut i: usize = 0;
        while i < self.windows.len()
            invariant
                i <= self.windows.len(),
                forall|j: int| 0 <= j < i as int ==> self@.windows[j].ws != id as int,
            decreases self.windows.len() - i,
        {
            if self.windows[i].ws == id {
                proof {
                    assert(self@.windows[i as int].ws == id as int);
                }
                return true;
            }
            i += 1;
        }
        false
    }

    /// The workspace of the window with address `addr`, when known.
    pub fn window_workspace(&self, addr: u64) -> (r: Option<usize>)
        requires
            wf(self@),
        ensures
            match r {
                Some(ws) => contains_addr(self@.windows, addr) && ws as int == window_of(
                    self@.windows,
                    addr,
                ).ws,
                None => !contains_addr(self@.windows, addr),
            },
    {
        match self.find_window(addr) {
            Some(i) => Some(self.windows[i].ws),
            None => None,
        }
    }

    /// The class of the window with address `addr`, when known.
    pub fn window_class(&self, addr: u64) -> (r: Option<String>)
        requires
            wf(self@),
        ensures
            match r {
                Some(c) => contains_addr(self@.windows, addr) && c@ == window_of(
                    self@.windows,
                    addr,
                ).class,
                None => !contains_addr(self@.windows, addr),
            },
    {
        match self.find_window(addr) {
            Some(i) => Some(self.windows[i].class.clone()),
            None => None,
        }
    }

    /// The cleanup pass: reset the icon of every slot whose workspace no
    /// longer holds a window, and record one UI update per reset.
    fn clean_empty_workspaces(&mut self) -> (effs: Vec<UiEffect>)
        requires
            old(self)@.slots.len() == old(self)@.n,
        ensures
            final(self)@.n == old(self)@.n,
            final(self)@.active == old(self)@.active,
            final(self)@.windows == old(self)@.windows,
            final(self)@.slots == clear_icons(old(self)@.slots, old(self)@.windows),
            effects_view(effs@) == cleanup_effects(old(self)@.windows, old(self)@.n),
    {
        let mut effs: Vec<UiEffect> = Vec::new();
        let mut idx: usize = 0;
        let n = self.slots.len();
        while idx < n
            invariant
                idx <= n,
                n == old(self)@.n,
                old(self)@.slots.len() == n as int,
                self.n == old(self).n,
                self.active == old(self).active,
                self@.windows == old(self)@.windows,
                self@.slots.len() == n as int,
                forall|j: int|
                    idx as int <= j < n as int ==> self@.slots[j] == old(self)@.slots[j],
                forall|j: int|
                    0 <= j < idx as int ==> self@.slots[j] == clear_icons(
                        old(self)@.slots,
                        old(self)@.windows,
                    )[j],
                effects_view(effs@) == cleanup_effects(old(self)@.windows, idx as int),
            decreases n - idx,
        {
            let id = idx + 1;
            let ghost target = clear_icons(old(self)@.slots, old(self)@.windows);
            let ghost pre = self@.slots;
            if !self.workspace_occupied(id) {
                let vis = self.slots[idx].visible;
                let act = self.slots[idx].active;
                self.slots[idx] = Slot { visible: vis, active: act, icon: Icon::Default };
                effs.push(UiEffect::SetIcon(id, Icon::Default));
                proof {
                    assert(!occupied(old(self)@.windows, idx as int + 1));
                    assert(self@.slots[idx as int] == (SlotView {
                        icon: IconView::Default,
                        ..old(self)@.slots[idx as int]
                    }));
                    assert(self@.slots[idx as int] == target[idx as int]);
                    assert(effects_view(effs@) =~= cleanup_effects(
                        old(self)@.windows,
                        idx as int + 1,
                    ));
                }
            } else {
                proof {
                    assert(occupied(old(self)@.windows, idx as int + 1));
                    assert(self@.slots[idx as int] == target[idx as int]);
                }
            }
            proof {
                assert forall|j: int| 0 <= j < idx as int implies self@.slots[j] == target[j] by {
                    assert(self@.slots[j] == pre[j]);
                }
            }
            idx += 1;
        }
        proof {
            assert(self@.slots =~= clear_icons(old(self)@.slots, old(self)@.windows));
        }
        effs
    }

    /// Apply one message to the model and return the UI updates it calls
    /// for. The model evolves exactly by [`step`], and the updates are
    /// exactly [`effects_of`]; well-formedness is preserved.
    pub fn apply(&mut self, msg: Msg) -> (effects: Vec<UiEffect>)
        requires
            wf(old(self)@),
            msg_in_range(msg@, old(self)@.n),
        ensures
            final(self)@ == step(old(self)@, msg@),
            effects_view(effects@) == effects_of(old(self)@, msg@),
            wf(final(self)@),
    {
        proof {
            crate::laws::lemma_step_preserves_wf(old(self)@, msg@);
        }
        match msg {
            Msg::WorkspaceCreated(id) => {
                let idx = id - 1;
                let act = self.slots[idx].active;
                let icon = self.slots[idx].icon.dup();
                self.slots[idx] = Slot { visible: true, active: act, icon };
                let effs = vec![UiEffect::ShowSlot(id)];
                proof {
                    assert(self@.slots =~= step(old(self)@, msg@).slots);
                    assert(self@ =~~= step(old(self)@, msg@));
                    assert(effects_view(effs@) =~= effects_of(old(self)@, msg@));
                }
                effs
            },
            Msg::WorkspaceDestroyed(id) => {
                let idx = id - 1;
                let act = self.slots[idx].active;
                let icon = self.slots[idx].icon.dup();
                self.slots[idx] = Slot { visible: false, active: act, icon };
                let effs = vec![UiEffect::HideSlot(id)];
                proof {
                    assert(self@.slots =~= step(old(self)@, msg@).slots);
                    assert(self@ =~~= step(old(self)@, msg@));
                    assert(effects_view(effs@) =~= effects_of(old(self)@, msg@));
                }
                effs
            },
            Msg::ActiveWorkspaceChanged(id) => {
                let prev = self.active;
                let idx0 = prev - 1;
                let vis0 = self.slots[idx0].visible;
                let icon0 = self.slots[idx0].icon.dup();
                self.slots[idx0] = Slot { visible: vis0, active: false, icon: icon0 };
                let idx1 = id - 1;
                let vis1 = self.slots[idx1].visible;
                let icon1 = self.slots[idx1].icon.dup();
                self.slots[idx1] = Slot { visible: vis1, active: true, icon: icon1 };
                self.active = id;
                let effs = vec![
                    UiEffect::SetInteractive(prev, true),
                    UiEffect::SetInteractive(id, false),
                ];
                proof {
                    assert(self@.slots =~= step(old(self)@, msg@).slots);
                    assert(self@ =~~= step(old(self)@, msg@));
                    assert(effects_view(effs@) =~= effects_of(old(self)@, msg@));
                }
                effs
            },
            Msg::ActiveWindowChanged(addr) => {
                match self.find_window(addr) {
                    Some(i) => {
                        let ws = self.windows[i].ws;
                        let class = self.windows[i].class.clone();
                        proof {
                            assert(window_of(old(self)@.windows, addr) == old(
                                self,
                            )@.windows[i as int]);
                            assert(1 <= ws as int <= old(self)@.n);
                        }
                        let idx = ws - 1;
                        let vis = self.slots[idx].visible;
                        let act = self.slots[idx].active;
                        self.slots[idx] = Slot {
                            visible: vis,
                            active: act,
                            icon: Icon::Class(class.clone()),
                        };
                        let effs = vec![UiEffect::SetIcon(ws, Icon::Class(class))];
                        proof {
                            assert(self@.slots =~= step(old(self)@, msg@).slots);
                            assert(self@ =~~= step(old(self)@, msg@));
                            assert(effects_view(effs@) =~= effects_of(old(self)@, msg@));
                        }
                        effs
                    },
                    None => {
                        let effs: Vec<UiEffect> = Vec::new();
                        proof {
                            assert(self@ =~~= step(old(self)@, msg@));
                            assert(effects_view(effs@) =~= effects_of(old(self)@, msg@));
                        }
                        effs
                    },
                }
            },
            Msg::WindowOpened(addr, class, id) => {
                match self.find_window(addr) {
                    Some(i) => {
                        self.windows[i] = WindowEntry { addr, class, ws: id };
                        proof {
                            assert(self@.windows =~= step(old(self)@, msg@).windows);
                        }
                    },
                    None => {
                        self.windows.push(WindowEntry { addr, class, ws: id });
                        proof {
                            assert(self@.windows =~= step(old(self)@, msg@).windows);
                        }
                    },
                }
                let effs: Vec<UiEffect> = Vec::new();
                proof {
                    assert(self@ =~~= step(old(self)@, msg@));
                    assert(effects_view(effs@) =~= effects_of(old(self)@, msg@));
                }
                effs
            },
            Msg::WindowClosed(addr) => {
                match self.find_window(addr) {
                    Some(i) => {
                        self.windows.remove(i);
                        proof {
                            assert(self@.windows =~= drop_window(old(self)@.windows, addr));
                        }
                    },
                    None => {
                        proof {
                            assert(self@.windows =~= drop_window(old(self)@.windows, addr));
                        }
                    },
                }
                let effs = self.clean_empty_workspaces();
                proof {
                    assert(self@ =~~= step(old(self)@, msg@));
                    assert(effects_view(effs@) == effects_of(old(self)@, msg@));
                }
                effs
            },
            Msg::WindowMoved(addr, id) => {
                match self.find_window(addr) {
                    Some(i) => {
                        let waddr = self.windows[i].addr;
                        let class = self.windows[i].class.clone();
                        self.windows[i] = WindowEntry { addr: waddr, class, ws: id };
                        proof {
                            assert(self@.windows =~= move_window(old(self)@.windows, addr, id as int));
                        }
                    },
                    None => {
                        proof {
                            assert(self@.windows =~= move_window(old(self)@.windows, addr, id as int));
                        }
                    },
                }
                let effs = self.clean_empty_workspaces();
                proof {
                    assert(self@ =~~= step(old(self)@, msg@));
                    assert(effects_view(effs@) == effects_of(old(self)@, msg@));
                }
                effs
            },
        }
    }
}

} // verus!
