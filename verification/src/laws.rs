//! The engine's invariants and algebraic laws, stated and proved over the
//! transition relation [`step`](crate::engine::step). Everything here is
//! ghost: the executable reducer is proved to follow `step` exactly, so
//! these lemmas hold of it as well.

use vstd::prelude::*;

use crate::engine::{clear_icons, drop_window, move_window, step, upsert_window};
use crate::model::{
    addr_index, contains_addr, icons_clean, lemma_addr_index, occupied, unique_addrs, wf,
    window_of, ModelView, WindowView,
};
use crate::msg::{msg_in_range, IconView, MsgView};

verus! {

/// Structural well-formedness is preserved by every message the adapter
/// lets through: one step keeps the slot count, the active-flag mirror,
/// the unique addresses, and the workspace ranges.
pub proof fn lemma_step_preserves_wf(m: ModelView, msg: MsgView)
    requires
        wf(m),
        msg_in_range(msg, m.n),
    ensures
        wf(step(m, msg)),
{
    let m2 = step(m, msg);
    match msg {
        MsgView::WorkspaceCreated { id } => {
            assert forall|i: int| 0 <= i < m2.slots.len() implies (#[trigger] m2.slots[i].active
                <==> i + 1 == m2.active) by {}
        },
        MsgView::WorkspaceDestroyed { id } => {
            assert forall|i: int| 0 <= i < m2.slots.len() implies (#[trigger] m2.slots[i].active
                <==> i + 1 == m2.active) by {}
        },
        MsgView::ActiveWorkspaceChanged { id } => {
            assert forall|i: int| 0 <= i < m2.slots.len() implies (#[trigger] m2.slots[i].active
                <==> i + 1 == m2.active) by {}
        },
        MsgView::ActiveWindowChanged { addr } => {
            if contains_addr(m.windows, addr) {
                let i = addr_index(m.windows, addr);
                assert(0 <= i < m.windows.len());
                assert(1 <= m.windows[i].ws <= m.n);
                assert forall|i: int| 0 <= i < m2.slots.len() implies (#[trigger] m2.slots[i].active
                    <==> i + 1 == m2.active) by {}
            }
        },
        MsgView::WindowOpened { addr, class, id } => {
            let w2 = upsert_window(m.windows, addr, class, id);
            if contains_addr(m.windows, addr) {
                let k = addr_index(m.windows, addr);
                assert(0 <= k < m.windows.len());
                assert(w2[k].addr == m.windows[k].addr);
                assert(unique_addrs(w2));
            } else {
                assert forall|i: int, j: int| 0 <= i < j < w2.len() implies w2[i].addr
                    != w2[j].addr by {
                    if j == w2.len() - 1 {
                        assert(w2[i] == m.windows[i]);
                    }
                }
            }
            assert forall|i: int| 0 <= i < w2.len() implies 1 <= #[trigger] w2[i].ws <= m.n by {}
        },
        MsgView::WindowClosed { addr } => {
            let w2 = drop_window(m.windows, addr);
            if contains_addr(m.windows, addr) {
                let k = addr_index(m.windows, addr);
                assert(0 <= k < m.windows.len());
                assert forall|i: int, j: int| 0 <= i < j < w2.len() implies w2[i].addr
                    != w2[j].addr by {}
                assert forall|i: int| 0 <= i < w2.len() implies 1 <= #[trigger] w2[i].ws
                    <= m.n by {}
            }
        },
        MsgView::WindowMoved { addr, id } => {
            let w2 = move_window(m.windows, addr, id);
            if contains_addr(m.windows, addr) {
                let k = addr_index(m.windows, addr);
                assert(0 <= k < m.windows.len());
                assert(w2[k].addr == m.windows[k].addr);
                assert(unique_addrs(w2));
            }
            assert forall|i: int| 0 <= i < w2.len() implies 1 <= #[trigger] w2[i].ws <= m.n by {}
        },
    }
}

/// The slot that mirrors the active workspace is visible.
pub open spec fn active_visible(m: ModelView) -> bool {
    m.slots[m.active - 1].visible
}

/// Exactly one slot carries the active mark: the one of `m.active`.
pub open spec fn one_active_slot(m: ModelView) -> bool {
    &&& 0 <= m.active - 1 < m.slots.len()
    &&& m.slots[m.active - 1].active
    &&& forall|i: int|
        0 <= i < m.slots.len() && i != m.active - 1 ==> !(#[trigger] m.slots[i]).active
}

/// A well-formed model marks exactly the active workspace's slot.
pub proof fn lemma_one_active_slot(m: ModelView)
    requires
        wf(m),
    ensures
        one_active_slot(m),
{
}

/// Every slot whose workspace holds a window is visible.
pub open spec fn windows_visible(m: ModelView) -> bool {
    forall|i: int|
        0 <= i < m.windows.len() ==> m.slots[(#[trigger] m.windows[i]).ws - 1].visible
}

/// What a message may assume of the model for the active slot to stay
/// visible: the compositor does not destroy the active workspace, and
/// focuses only workspaces whose slots are already shown.
pub open spec fn keeps_active_visible(m: ModelView, msg: MsgView) -> bool {
    match msg {
        MsgView::WorkspaceDestroyed { id } => id != m.active,
        MsgView::ActiveWorkspaceChanged { id } => m.slots[id - 1].visible,
        _ => true,
    }
}

/// What a message may assume of the model for occupied slots to stay
/// visible: the compositor destroys only empty workspaces, and windows
/// open on or move to workspaces whose slots are already shown.
pub open spec fn keeps_windows_visible(m: ModelView, msg: MsgView) -> bool {
    match msg {
        MsgView::WorkspaceDestroyed { id } => !occupied(m.windows, id),
        MsgView::WindowOpened { id, .. } => m.slots[id - 1].visible,
        MsgView::WindowMoved { addr, id } => contains_addr(m.windows, addr) ==> m.slots[id
            - 1].visible,
        _ => true,
    }
}

/// A window opens under an address not yet in the table.
pub open spec fn opens_fresh(m: ModelView, msg: MsgView) -> bool {
    match msg {
        MsgView::WindowOpened { addr, .. } => !contains_addr(m.windows, addr),
        _ => true,
    }
}

/// One step keeps exactly one slot marked active, and keeps that slot
/// visible, when the message respects [`keeps_active_visible`].
pub proof fn lemma_active_slot_invariant(m: ModelView, msg: MsgView)
    requires
        wf(m),
        active_visible(m),
        msg_in_range(msg, m.n),
        keeps_active_visible(m, msg),
    ensures
        wf(step(m, msg)),
        one_active_slot(step(m, msg)),
        active_visible(step(m, msg)),
{
    lemma_step_preserves_wf(m, msg);
    lemma_one_active_slot(step(m, msg));
    let m2 = step(m, msg);
    match msg {
        MsgView::WindowClosed { addr } => {
            assert(m2.slots[m2.active - 1].visible);
        },
        MsgView::WindowMoved { addr, id } => {
            assert(m2.slots[m2.active - 1].visible);
        },
        _ => {},
    }
}

/// One step keeps every occupied slot visible, when the message respects
/// [`keeps_windows_visible`].
pub proof fn lemma_windows_visible_invariant(m: ModelView, msg: MsgView)
    requires
        wf(m),
        windows_visible(m),
        msg_in_range(msg, m.n),
        keeps_windows_visible(m, msg),
    ensures
        windows_visible(step(m, msg)),
{
    lemma_step_preserves_wf(m, msg);
    let m2 = step(m, msg);
    match msg {
        MsgView::WorkspaceCreated { id } => {
            assert forall|i: int| 0 <= i < m2.windows.len() implies m2.slots[(
            #[trigger] m2.windows[i]).ws - 1].visible by {
                assert(m.slots[m.windows[i].ws - 1].visible);
            }
        },
        MsgView::WorkspaceDestroyed { id } => {
            assert forall|i: int| 0 <= i < m2.windows.len() implies m2.slots[(
            #[trigger] m2.windows[i]).ws - 1].visible by {
                assert(m.windows[i].ws != id);
                assert(m.slots[m.windows[i].ws - 1].visible);
            }
        },
        MsgView::ActiveWorkspaceChanged { id } => {
            assert forall|i: int| 0 <= i < m2.windows.len() implies m2.slots[(
            #[trigger] m2.windows[i]).ws - 1].visible by {
                assert(m.slots[m.windows[i].ws - 1].visible);
            }
        },
        MsgView::ActiveWindowChanged { addr } => {
            assert forall|i: int| 0 <= i < m2.windows.len() implies m2.slots[(
            #[trigger] m2.windows[i]).ws - 1].visible by {
                assert(m.slots[m.windows[i].ws - 1].visible);
            }
        },
        MsgView::WindowOpened { addr, class, id } => {
            assert forall|i: int| 0 <= i < m2.windows.len() implies m2.slots[(
            #[trigger] m2.windows[i]).ws - 1].visible by {
                if m2.windows[i].addr == addr && m2.windows[i].ws == id {
                } else {
                    assert(m2.windows[i] == m.windows[i]);
                    assert(m.slots[m.windows[i].ws - 1].visible);
                }
            }
        },
        MsgView::WindowClosed { addr } => {
            let w2 = drop_window(m.windows, addr);
            assert forall|i: int| 0 <= i < m2.windows.len() implies m2.slots[(
            #[trigger] m2.windows[i]).ws - 1].visible by {
                if contains_addr(m.windows, addr) {
                    let k = addr_index(m.windows, addr);
                    if i < k {
                        assert(w2[i] == m.windows[i]);
                        assert(m.slots[m.windows[i].ws - 1].visible);
                    } else {
                        assert(w2[i] == m.windows[i + 1]);
                        assert(m.slots[m.windows[i + 1].ws - 1].visible);
                    }
                } else {
                    assert(m.slots[m.windows[i].ws - 1].visible);
                }
            }
        },
        MsgView::WindowMoved { addr, id } => {
            assert forall|i: int| 0 <= i < m2.windows.len() implies m2.slots[(
            #[trigger] m2.windows[i]).ws - 1].visible by {
                if contains_addr(m.windows, addr) && i == addr_index(m.windows, addr) {
                } else {
                    assert(m2.windows[i] == m.windows[i]);
                    assert(m.slots[m.windows[i].ws - 1].visible);
                }
            }
        },
    }
}

/// One step keeps the default icon on every empty slot, when windows open
/// under fresh addresses.
pub proof fn lemma_icons_clean_invariant(m: ModelView, msg: MsgView)
    requires
        wf(m),
        icons_clean(m),
        msg_in_range(msg, m.n),
        opens_fresh(m, msg),
    ensures
        icons_clean(step(m, msg)),
{
    lemma_step_preserves_wf(m, msg);
    let m2 = step(m, msg);
    match msg {
        MsgView::ActiveWindowChanged { addr } => {
            if contains_addr(m.windows, addr) {
                let k = addr_index(m.windows, addr);
                let w = window_of(m.windows, addr);
                assert(occupied(m.windows, w.ws));
                assert forall|i: int|
                    0 <= i < m2.slots.len() && !occupied(m2.windows, i + 1) implies #[trigger] m2.slots[i].icon
                    == IconView::Default by {
                    assert(m.slots[i].icon == IconView::Default);
                }
            }
        },
        MsgView::WindowOpened { addr, class, id } => {
            let w2 = upsert_window(m.windows, addr, class, id);
            assert forall|i: int|
                0 <= i < m2.slots.len() && !occupied(m2.windows, i + 1) implies #[trigger] m2.slots[i].icon
                == IconView::Default by {
                assert forall|k: int| 0 <= k < m.windows.len() implies (#[trigger] m.windows[k]).ws
                    != i + 1 by {
                    assert(w2[k] == m.windows[k]);
                }
                assert(!occupied(m.windows, i + 1));
            }
        },
        MsgView::WindowClosed { addr } => {},
        MsgView::WindowMoved { addr, id } => {},
        _ => {
            assert forall|i: int|
                0 <= i < m2.slots.len() && !occupied(m2.windows, i + 1) implies #[trigger] m2.slots[i].icon
                == IconView::Default by {
                assert(m.slots[i].icon == IconView::Default);
            }
        },
    }
}

/// The model after a whole sequence of messages.
pub open spec fn run(m: ModelView, msgs: Seq<MsgView>) -> ModelView
    decreases msgs.len(),
{
    if msgs.len() == 0 {
        m
    } else {
        run(step(m, msgs[0]), msgs.drop_first())
    }
}

/// Everything the engine maintains of a reconciled model.
pub open spec fn inv(m: ModelView) -> bool {
    &&& wf(m)
    &&& active_visible(m)
    &&& windows_visible(m)
    &&& icons_clean(m)
}

/// A message the compositor can send in state `m`: its identifiers are in
/// range and it respects the event protocol the invariants rest on.
pub open spec fn orderly(m: ModelView, msg: MsgView) -> bool {
    &&& msg_in_range(msg, m.n)
    &&& keeps_active_visible(m, msg)
    &&& keeps_windows_visible(m, msg)
    &&& opens_fresh(m, msg)
}

/// Each message of the sequence is orderly in the state it meets.
pub open spec fn orderly_from(m: ModelView, msgs: Seq<MsgView>) -> bool
    decreases msgs.len(),
{
    msgs.len() == 0 || (orderly(m, msgs[0]) && orderly_from(step(m, msgs[0]), msgs.drop_first()))
}

/// One orderly step preserves the whole invariant.
pub proof fn lemma_inv_step(m: ModelView, msg: MsgView)
    requires
        inv(m),
        orderly(m, msg),
    ensures
        inv(step(m, msg)),
{
    lemma_step_preserves_wf(m, msg);
    lemma_active_slot_invariant(m, msg);
    lemma_windows_visible_invariant(m, msg);
    lemma_icons_clean_invariant(m, msg);
}

/// After any finite sequence of orderly messages, exactly one slot is
/// marked active and it is visible, and every occupied slot is visible.
pub proof fn lemma_inv_run(m: ModelView, msgs: Seq<MsgView>)
    requires
        inv(m),
        orderly_from(m, msgs),
    ensures
        inv(run(m, msgs)),
        one_active_slot(run(m, msgs)),
        active_visible(run(m, msgs)),
        windows_visible(run(m, msgs)),
    decreases msgs.len(),
{
    if msgs.len() == 0 {
        lemma_one_active_slot(m);
    } else {
        lemma_inv_step(m, msgs[0]);
        lemma_inv_run(step(m, msgs[0]), msgs.drop_first());
    }
}

/// Focusing the same workspace twice in a row changes nothing after the
/// first application.
pub proof fn lemma_focus_idempotent(m: ModelView, id: int)
    requires
        wf(m),
        1 <= id <= m.n,
    ensures
        step(step(m, MsgView::ActiveWorkspaceChanged { id }), MsgView::ActiveWorkspaceChanged {
            id,
        }) == step(m, MsgView::ActiveWorkspaceChanged { id }),
{
    let msg = MsgView::ActiveWorkspaceChanged { id };
    let m1 = step(m, msg);
    lemma_step_preserves_wf(m, msg);
    let m2 = step(m1, msg);
    assert(m1.slots[id - 1].active);
    assert(m2.slots =~= m1.slots);
    assert(m2 =~~= m1);
}

/// Opening a window and closing it again leaves the table without its
/// address — back exactly where it started when the address was fresh —
/// and the cleanup pass leaves the default icon on its slot when no other
/// window remains there.
pub proof fn lemma_open_close_round_trip(m: ModelView, addr: u64, class: Seq<char>, id: int)
    requires
        wf(m),
        1 <= id <= m.n,
    ensures
        ({
            let m2 = step(
                step(m, MsgView::WindowOpened { addr, class, id }),
                MsgView::WindowClosed { addr },
            );
            &&& !contains_addr(m2.windows, addr)
            &&& (!occupied(m2.windows, id) ==> m2.slots[id - 1].icon == IconView::Default)
            &&& (!contains_addr(m.windows, addr) ==> m2.windows == m.windows)
        }),
{
    let open = MsgView::WindowOpened { addr, class, id };
    let close = MsgView::WindowClosed { addr };
    let m1 = step(m, open);
    lemma_step_preserves_wf(m, open);
    let w1 = m1.windows;
    if contains_addr(m.windows, addr) {
        let k = addr_index(m.windows, addr);
        assert(w1[k].addr == addr);
        lemma_addr_index(w1, addr, k);
    } else {
        assert(w1[w1.len() - 1].addr == addr);
        lemma_addr_index(w1, addr, w1.len() - 1);
    }
    let m2 = step(m1, close);
    let k1 = addr_index(w1, addr);
    let w2 = w1.remove(k1);
    assert forall|j: int| 0 <= j < w2.len() implies (#[trigger] w2[j]).addr != addr by {
        if j < k1 {
            assert(w2[j] == w1[j]);
        } else {
            assert(w2[j] == w1[j + 1]);
        }
    }
    if !contains_addr(m.windows, addr) {
        assert(k1 == w1.len() - 1);
        assert(w2 =~= m.windows);
    }
}

/// Startup reconciliation establishes every invariant the engine
/// maintains: the snapshot model is well-formed, marks and shows the
/// active slot, shows every occupied slot, and keeps the default icon on
/// empty slots.
pub proof fn lemma_snapshot_inv(n: int, wins: Seq<WindowView>, active: int)
    requires
        crate::model::snapshot_ok(n, wins, active),
    ensures
        inv(crate::model::snapshot_model(n, wins, active)),
{
    let m = crate::model::snapshot_model(n, wins, active);
    assert forall|i: int| 0 <= i < m.windows.len() implies m.slots[(
    #[trigger] m.windows[i]).ws - 1].visible by {
        assert(occupied(wins, m.windows[i].ws));
    }
}

/// The panel's lifetime guarantee: reconcile once from a valid snapshot,
/// then apply any finite sequence of orderly messages — exactly one slot
/// is marked active, the active slot is visible, every occupied slot is
/// visible, and every empty slot shows the default icon.
pub proof fn lemma_panel_invariant(n: int, wins: Seq<WindowView>, active: int, msgs: Seq<MsgView>)
    requires
        crate::model::snapshot_ok(n, wins, active),
        orderly_from(crate::model::snapshot_model(n, wins, active), msgs),
    ensures
        ({
            let end = run(crate::model::snapshot_model(n, wins, active), msgs);
            &&& one_active_slot(end)
            &&& active_visible(end)
            &&& windows_visible(end)
            &&& icons_clean(end)
        }),
{
    lemma_snapshot_inv(n, wins, active);
    lemma_inv_run(crate::model::snapshot_model(n, wins, active), msgs);
}

/// Closing a window whose address is not in the table is a no-op: the
/// model is unchanged, and in particular no invariant is disturbed.
pub proof fn lemma_close_unknown_is_noop(m: ModelView, addr: u64)
    requires
        wf(m),
        icons_clean(m),
        !contains_addr(m.windows, addr),
    ensures
        step(m, MsgView::WindowClosed { addr }) == m,
{
    let m2 = step(m, MsgView::WindowClosed { addr });
    assert forall|i: int| 0 <= i < m.slots.len() implies clear_icons(m.slots, m.windows)[i]
        == m.slots[i] by {
        if !occupied(m.windows, i + 1) {
            assert(m.slots[i].icon == IconView::Default);
        }
    }
    assert(m2.slots =~= m.slots);
    assert(m2 =~~= m);
}

} // verus!
