//! Hook handles and the small enumerations that travel with them.
//!
//! A hook is code of the host process. The library stores and compares
//! hooks but never runs them, so a hook is held as the address it was
//! registered with.

use vstd::prelude::*;

verus! {

/// A routine that receives an instance at a point of its life cycle
/// (initialization, start, end, finalization).
#[derive(Clone, Copy, PartialEq, Eq, Structural, Debug)]
pub struct StateHook(pub usize);

/// A routine that runs on a status line of an instance, once per frame.
#[derive(Clone, Copy, PartialEq, Eq, Structural, Debug)]
pub struct LineHook(pub usize);

/// A routine that replaces one line of one status.
#[derive(Clone, Copy, PartialEq, Eq, Structural, Debug)]
pub struct StatusHook(pub usize);

/// A routine that plays one named animation command.
#[derive(Clone, Copy, PartialEq, Eq, Structural, Debug)]
pub struct AcmdHook(pub usize);

/// The four parallel streams of animation commands.
#[derive(Clone, Copy, PartialEq, Eq, Structural, Debug)]
pub enum Acmd {
    Game,
    Effect,
    Sound,
    Expression,
}

/// The lines of a status script.
#[derive(Clone, Copy, PartialEq, Eq, Structural, Debug)]
pub enum StatusLine {
    Pre,
    Main,
    End,
    Init,
    Exec,
    ExecStop,
    Post,
    Exit,
    MapCorrection,
    FixCamera,
    FixPosSlow,
    CheckDamage,
    CheckAttack,
    OnChangeLr,
    LeaveStop,
    NotifyEventGimmick,
    CalcParam,
    MainLoop,
}

/// The priority a command is registered with. It is accepted for the
/// caller's sake and does not take part in any decision of this library.
#[derive(Clone, Copy, PartialEq, Eq, Structural, Debug)]
pub enum Priority {
    Low,
    Default,
    High,
}

/// A command of one category together with the routine that plays it.
#[derive(Clone, Copy, PartialEq, Eq, Structural, Debug)]
pub struct AcmdScript {
    pub category: Acmd,
    pub function: AcmdHook,
}

/// An override of one line of one status kind.
#[derive(Clone, Copy, PartialEq, Eq, Structural, Debug)]
pub struct StatusScript {
    pub line: StatusLine,
    pub kind: i32,
    pub function: StatusHook,
}

} // verus!
