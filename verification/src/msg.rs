//! The closed set of messages the engine consumes, and the UI effects it
//! emits. Workspace identifiers are plain numbers in `1..=N`; window
//! addresses are the compositor's opaque identifiers, read only for
//! equality and carried as plain integers.

use vstd::prelude::*;

verus! {

/// Icon shown on a workspace slot: the idle default, or the icon looked up
/// for a window class.
#[derive(Debug, PartialEq, Eq)]
pub enum Icon {
    Default,
    Class(String),
}

/// Mathematical value of an [`Icon`].
#[verifier::ext_equal]
pub enum IconView {
    Default,
    Class(Seq<char>),
}

impl View for Icon {
    type V = IconView;

    open spec fn view(&self) -> IconView {
        match self {
            Icon::Default => IconView::Default,
            Icon::Class(c) => IconView::Class(c@),
        }
    }
}

impl Icon {
    /// A copy with the same value.
    pub fn dup(&self) -> (r: Icon)
        ensures
            r@ == self@,
    {
        match self {
            Icon::Default => Icon::Default,
            Icon::Class(c) => Icon::Class(c.clone()),
        }
    }
}

/// An unrecoverable fault found while validating compositor data against
/// the fixed workspace range or the window-table shape. The caller is
/// expected to stop with a diagnostic rather than corrupt the model.
#[derive(Debug, PartialEq, Eq)]
pub enum Fault {
    NonNumericWorkspace,
    WorkspaceOutOfRange,
    ActiveOutOfRange,
    DuplicateAddress,
}

/// One normalized compositor or DBus occurrence, ready for the reducer.
#[derive(Debug, PartialEq, Eq)]
pub enum Msg {
    WorkspaceCreated(usize),
    WorkspaceDestroyed(usize),
    ActiveWorkspaceChanged(usize),
    ActiveWindowChanged(u64),
    WindowOpened(u64, String, usize),
    WindowClosed(u64),
    WindowMoved(u64, usize),
}

/// Mathematical value of a [`Msg`].
#[verifier::ext_equal]
pub enum MsgView {
    WorkspaceCreated { id: int },
    WorkspaceDestroyed { id: int },
    ActiveWorkspaceChanged { id: int },
    ActiveWindowChanged { addr: u64 },
    WindowOpened { addr: u64, class: Seq<char>, id: int },
    WindowClosed { addr: u64 },
    WindowMoved { addr: u64, id: int },
}

impl View for Msg {
    type V = MsgView;

    open spec fn view(&self) -> MsgView {
        match self {
            Msg::WorkspaceCreated(id) => MsgView::WorkspaceCreated { id: *id as int },
            Msg::WorkspaceDestroyed(id) => MsgView::WorkspaceDestroyed { id: *id as int },
            Msg::ActiveWorkspaceChanged(id) => MsgView::ActiveWorkspaceChanged { id: *id as int },
            Msg::ActiveWindowChanged(addr) => MsgView::ActiveWindowChanged { addr: *addr },
            Msg::WindowOpened(addr, class, id) => MsgView::WindowOpened {
                addr: *addr,
                class: class@,
                id: *id as int,
            },
            Msg::WindowClosed(addr) => MsgView::WindowClosed { addr: *addr },
            Msg::WindowMoved(addr, id) => MsgView::WindowMoved { addr: *addr, id: *id as int },
        }
    }
}

/// Every workspace identifier the message carries lies in `1..=n`.
/// The adapter guarantees this for every message it lets through; the
/// reducer never sees one that breaks it.
pub open spec fn msg_in_range(msg: MsgView, n: int) -> bool {
    match msg {
        MsgView::WorkspaceCreated { id } => 1 <= id <= n,
        MsgView::WorkspaceDestroyed { id } => 1 <= id <= n,
        MsgView::ActiveWorkspaceChanged { id } => 1 <= id <= n,
        MsgView::ActiveWindowChanged { .. } => true,
        MsgView::WindowOpened { id, .. } => 1 <= id <= n,
        MsgView::WindowClosed { .. } => true,
        MsgView::WindowMoved { id, .. } => 1 <= id <= n,
    }
}

/// Runtime check for [`msg_in_range`], for callers outside the library.
pub fn check_msg_in_range(msg: &Msg, n: usize) -> (r: bool)
    ensures
        r == msg_in_range(msg@, n as int),
{
    match msg {
        Msg::WorkspaceCreated(id) => 1 <= *id && *id <= n,
        Msg::WorkspaceDestroyed(id) => 1 <= *id && *id <= n,
        Msg::ActiveWorkspaceChanged(id) => 1 <= *id && *id <= n,
        Msg::ActiveWindowChanged(_) => true,
        Msg::WindowOpened(_, _, id) => 1 <= *id && *id <= n,
        Msg::WindowClosed(_) => true,
        Msg::WindowMoved(_, id) => 1 <= *id && *id <= n,
    }
}

/// One idempotent update for the UI sink to perform on a slot.
#[derive(Debug, PartialEq, Eq)]
pub enum UiEffect {
    ShowSlot(usize),
    HideSlot(usize),
    SetInteractive(usize, bool),
    SetIcon(usize, Icon),
}

/// Mathematical value of a [`UiEffect`].
#[verifier::ext_equal]
pub enum EffectView {
    ShowSlot { id: int },
    HideSlot { id: int },
    SetInteractive { id: int, on: bool },
    SetIcon { id: int, icon: IconView },
}

impl View for UiEffect {
    type V = EffectView;

    open spec fn view(&self) -> EffectView {
        match self {
            UiEffect::ShowSlot(id) => EffectView::ShowSlot { id: *id as int },
            UiEffect::HideSlot(id) => EffectView::HideSlot { id: *id as int },
            UiEffect::SetInteractive(id, on) => EffectView::SetInteractive {
                id: *id as int,
                on: *on,
            },
            UiEffect::SetIcon(id, icon) => EffectView::SetIcon { id: *id as int, icon: icon@ },
        }
    }
}

/// The values of a sequence of effects.
pub open spec fn effects_view(es: Seq<UiEffect>) -> Seq<EffectView> {
    es.map_values(|e: UiEffect| e@)
}

} // verus!
