//! Decisions of the Program execution engine: which state transitions a
//! Program accepts, how its progress advances while it runs, and what has to be
//! written to the address space after each step.
//!
//! The engine that runs a Program alternates outside work (spawning the runner,
//! waiting, writing variables) with these decisions. The caller keeps the state
//! and the progress, feeds every method call and every runner tick in as an
//! event, and carries out the returned action.

use vstd::prelude::*;
use crate::address_space::{set_value_spec, AddressSpace, NodeValue, NodeValueView, SpaceView};
use crate::programs::{program_component_id, program_node_id, program_part_value};
use crate::status::StatusCode;

verus! {

/// The state of a Program state machine.
#[derive(Debug, Clone, Copy, PartialEq, Eq, Structural)]
pub enum ProgramState {
    Ready,
    Running,
    Suspended,
    Halted,
}

/// What happens to a Program: one of its five methods is called, or its
/// runner completes one more step of work.
#[derive(Debug, Clone, Copy, PartialEq, Eq, Structural)]
pub enum ProgramEvent {
    Start,
    Suspend,
    Resume,
    Halt,
    Reset,
    Tick,
}

/// What the caller has to do after a step.
#[derive(Debug, Clone, Copy, PartialEq, Eq, Structural)]
pub enum ProgramAction {
    /// Nothing to write.
    Idle,
    /// Write the state variables with transition "Start" and progress 0, and
    /// spawn a fresh runner.
    Started,
    /// Write the state variables with transition "Suspend"; the runner parks.
    Suspended,
    /// Write the state variables with transition "Resume" and wake the runner.
    Resumed,
    /// Cancel the runner and write the state variables with transition "Halt".
    Halted,
    /// Write the state variables with transition "Reset" and progress 0.
    Reset,
    /// Write the Progress variable with the given value.
    ProgressChanged(u8),
    /// The runner finished: write Progress 100, CurrentState "Halted" and the
    /// permission variables of the Halted state.
    Completed,
}

/// The progress value at which a running Program completes.
pub const PROGRAM_PROGRESS_DONE: u8 = 100;

/// Whether the Halt method is accepted in the state.
pub open spec fn can_halt(state: ProgramState) -> bool {
    state is Ready || state is Running || state is Suspended
}

/// Whether the Suspend method is accepted in the state.
pub open spec fn can_suspend(state: ProgramState) -> bool {
    state is Running
}

/// Whether the Resume method is accepted in the state.
pub open spec fn can_resume(state: ProgramState) -> bool {
    state is Suspended
}

/// Whether the Reset method is accepted in the state.
pub open spec fn can_reset(state: ProgramState) -> bool {
    state is Halted
}

/// Whether the Start method is accepted in the state.
pub open spec fn can_start(state: ProgramState) -> bool {
    state is Ready
}

/// The progress after one more runner step from `progress`, capped at done.
pub open spec fn next_progress(progress: u8) -> u8 {
    if progress < PROGRAM_PROGRESS_DONE { (progress + 1) as u8 } else { PROGRAM_PROGRESS_DONE }
}

/// The outcome of one runner step while the Program runs.
pub open spec fn tick_spec(progress: u8) -> (ProgramState, u8, ProgramAction) {
    let next = next_progress(progress);
    if next >= PROGRAM_PROGRESS_DONE {
        (ProgramState::Halted, next, ProgramAction::Completed)
    } else if next % 2 == 0 {
        (ProgramState::Running, next, ProgramAction::ProgressChanged(next))
    } else {
        (ProgramState::Running, next, ProgramAction::Idle)
    }
}

/// The transition table of a Program, with the runner's ticks.
pub open spec fn program_step_spec(state: ProgramState, progress: u8, event: ProgramEvent) -> Result<
    (ProgramState, u8, ProgramAction),
    StatusCode,
> {
    match event {
        ProgramEvent::Start => if can_start(state) {
            Ok((ProgramState::Running, 0u8, ProgramAction::Started))
        } else {
            Err(StatusCode::BadInvalidState)
        },
        ProgramEvent::Suspend => if can_suspend(state) {
            Ok((ProgramState::Suspended, progress, ProgramAction::Suspended))
        } else {
            Err(StatusCode::BadInvalidState)
        },
        ProgramEvent::Resume => if can_resume(state) {
            Ok((ProgramState::Running, progress, ProgramAction::Resumed))
        } else {
            Err(StatusCode::BadInvalidState)
        },
        ProgramEvent::Halt => if can_halt(state) {
            Ok((ProgramState::Halted, progress, ProgramAction::Halted))
        } else {
            Err(StatusCode::BadInvalidState)
        },
        ProgramEvent::Reset => if can_reset(state) {
            Ok((ProgramState::Ready, 0u8, ProgramAction::Reset))
        } else {
            Err(StatusCode::BadInvalidState)
        },
        ProgramEvent::Tick => if state is Running {
            Ok(tick_spec(progress))
        } else {
            Ok((state, progress, ProgramAction::Idle))
        },
    }
}

/// The state and progress of a Program engine that was just created.
pub open spec fn program_initial_spec() -> (ProgramState, u8) {
    (ProgramState::Halted, 0u8)
}

/// The state and progress of a Program engine that was just created.
pub fn program_initial() -> (r: (ProgramState, u8))
    ensures
        r == program_initial_spec(),
{
    (ProgramState::Halted, 0)
}

/// The permission variables written for a state, in the order Haltable,
/// Suspendable, Resumable, Resetable.
pub fn program_flags(state: ProgramState) -> (r: (bool, bool, bool, bool))
    ensures
        r == (can_halt(state), can_suspend(state), can_resume(state), can_reset(state)),
{
    match state {
        ProgramState::Ready => (true, false, false, false),
        ProgramState::Running => (true, true, false, false),
        ProgramState::Suspended => (true, false, true, false),
        ProgramState::Halted => (false, false, false, true),
    }
}

/// The text written to the CurrentState variable for a state.
pub open spec fn program_state_name(state: ProgramState) -> Seq<char> {
    match state {
        ProgramState::Ready => "Ready"@,
        ProgramState::Running => "Running"@,
        ProgramState::Suspended => "Suspended"@,
        ProgramState::Halted => "Halted"@,
    }
}

/// The text written to the CurrentState variable for a state.
pub fn program_state_text(state: ProgramState) -> (r: String)
    ensures
        r@ == program_state_name(state),
{
    match state {
        ProgramState::Ready => "Ready".to_owned(),
        ProgramState::Running => "Running".to_owned(),
        ProgramState::Suspended => "Suspended".to_owned(),
        ProgramState::Halted => "Halted".to_owned(),
    }
}

/// One step of a Program: the state and progress after `event`, and what the
/// caller has to do, or `BadInvalidState` when the state does not accept the
/// method (state and progress then stay as they were).
pub fn program_step(state: ProgramState, progress: u8, event: ProgramEvent) -> (r: Result<
    (ProgramState, u8, ProgramAction),
    StatusCode,
>)
    ensures
        r == program_step_spec(state, progress, event),
{
    match event {
        ProgramEvent::Start => match state {
            ProgramState::Ready => Ok((ProgramState::Running, 0, ProgramAction::Started)),
            _ => Err(StatusCode::BadInvalidState),
        },
        ProgramEvent::Suspend => match state {
            ProgramState::Running => Ok((ProgramState::Suspended, progress, ProgramAction::Suspended)),
            _ => Err(StatusCode::BadInvalidState),
        },
        ProgramEvent::Resume => match state {
            ProgramState::Suspended => Ok((ProgramState::Running, progress, ProgramAction::Resumed)),
            _ => Err(StatusCode::BadInvalidState),
        },
        ProgramEvent::Halt => match state {
            ProgramState::Halted => Err(StatusCode::BadInvalidState),
            _ => Ok((ProgramState::Halted, progress, ProgramAction::Halted)),
        },
        ProgramEvent::Reset => match state {
            ProgramState::Halted => Ok((ProgramState::Ready, 0, ProgramAction::Reset)),
            _ => Err(StatusCode::BadInvalidState),
        },
        ProgramEvent::Tick => match state {
            ProgramState::Running => {
                let next: u8 = if progress < PROGRAM_PROGRESS_DONE {
                    progress + 1
                } else {
                    PROGRAM_PROGRESS_DONE
                };
                if next >= PROGRAM_PROGRESS_DONE {
                    Ok((ProgramState::Halted, next, ProgramAction::Completed))
                } else if next % 2 == 0 {
                    Ok((ProgramState::Running, next, ProgramAction::ProgressChanged(next)))
                } else {
                    Ok((ProgramState::Running, next, ProgramAction::Idle))
                }
            },
            _ => Ok((state, progress, ProgramAction::Idle)),
        },
    }
}

/// The address space after writing the variable `suffix` of the Program `base`.
pub open spec fn write_program_variable(s: SpaceView, base: Seq<char>, suffix: Seq<char>, value: NodeValueView) -> SpaceView {
    set_value_spec(s, program_node_id(base, suffix), value)
}

/// The address space after writing the state variables of the Program `base` for
/// `state` and `progress`: CurrentState, LastTransition (unless `transition` is
/// empty), the four permission variables and Progress, in that order.
pub open spec fn program_sync_spec(
    s: SpaceView,
    base: Seq<char>,
    state: ProgramState,
    progress: u8,
    transition: Seq<char>,
) -> SpaceView {
    let s1 = write_program_variable(s, base, "CurrentState"@, NodeValueView::Text(program_state_name(state)));
    let s2 = if transition.len() == 0 {
        s1
    } else {
        write_program_variable(s1, base, "LastTransition"@, NodeValueView::Text(transition))
    };
    let s3 = write_program_variable(s2, base, "Haltable"@, NodeValueView::Boolean(can_halt(state)));
    let s4 = write_program_variable(s3, base, "Suspendable"@, NodeValueView::Boolean(can_suspend(state)));
    let s5 = write_program_variable(s4, base, "Resumable"@, NodeValueView::Boolean(can_resume(state)));
    let s6 = write_program_variable(s5, base, "Resetable"@, NodeValueView::Boolean(can_reset(state)));
    write_program_variable(s6, base, "Progress"@, NodeValueView::Int32(progress as i32))
}

/// The address space after the runner completes: Progress 100, CurrentState
/// "Halted" and the permission variables of the Halted state.
pub open spec fn program_completed_spec(s: SpaceView, base: Seq<char>) -> SpaceView {
    let s1 = write_program_variable(s, base, "Progress"@, NodeValueView::Int32(PROGRAM_PROGRESS_DONE as i32));
    let s2 = write_program_variable(s1, base, "CurrentState"@, NodeValueView::Text("Halted"@));
    let s3 = write_program_variable(s2, base, "Haltable"@, NodeValueView::Boolean(false));
    let s4 = write_program_variable(s3, base, "Suspendable"@, NodeValueView::Boolean(false));
    let s5 = write_program_variable(s4, base, "Resumable"@, NodeValueView::Boolean(false));
    write_program_variable(s5, base, "Resetable"@, NodeValueView::Boolean(true))
}

/// The address space after carrying out `action` for the Program `base`, whose
/// state and progress after the step are `state` and `progress`.
pub open spec fn program_apply_spec(
    s: SpaceView,
    base: Seq<char>,
    state: ProgramState,
    progress: u8,
    action: ProgramAction,
) -> SpaceView {
    match action {
        ProgramAction::Idle => s,
        ProgramAction::Started => program_sync_spec(s, base, state, progress, "Start"@),
        ProgramAction::Suspended => program_sync_spec(s, base, state, progress, "Suspend"@),
        ProgramAction::Resumed => program_sync_spec(s, base, state, progress, "Resume"@),
        ProgramAction::Halted => program_sync_spec(s, base, state, progress, "Halt"@),
        ProgramAction::Reset => program_sync_spec(s, base, state, progress, "Reset"@),
        ProgramAction::ProgressChanged(p) => write_program_variable(s, base, "Progress"@, NodeValueView::Int32(p as i32)),
        ProgramAction::Completed => program_completed_spec(s, base),
    }
}

fn write_variable(space: &mut AddressSpace, base: &str, suffix: &str, value: NodeValue)
    requires
        old(space).wf(),
        suffix@.len() > 0,
    ensures
        final(space).wf(),
        final(space)@ == write_program_variable(old(space)@, base@, suffix@, value@),
{
    let id = program_component_id(base, suffix);
    space.set_variable_value(&id, value);
}

fn sync_variables(space: &mut AddressSpace, base: &str, state: ProgramState, progress: u8, transition: &str)
    requires
        old(space).wf(),
    ensures
        final(space).wf(),
        final(space)@ == program_sync_spec(old(space)@, base@, state, progress, transition@),
{
    proof {
        reveal_strlit("CurrentState");
        reveal_strlit("LastTransition");
        reveal_strlit("Haltable");
        reveal_strlit("Suspendable");
        reveal_strlit("Resumable");
        reveal_strlit("Resetable");
        reveal_strlit("Progress");
    }
    let (halt, suspend, resume, reset) = program_flags(state);
    write_variable(space, base, "CurrentState", NodeValue::Text(program_state_text(state)));
    if transition.unicode_len() > 0 {
        write_variable(space, base, "LastTransition", NodeValue::Text(transition.to_owned()));
    }
    write_variable(space, base, "Haltable", NodeValue::Boolean(halt));
    write_variable(space, base, "Suspendable", NodeValue::Boolean(suspend));
    write_variable(space, base, "Resumable", NodeValue::Boolean(resume));
    write_variable(space, base, "Resetable", NodeValue::Boolean(reset));
    write_variable(space, base, "Progress", NodeValue::Int32(progress as i32));
}

/// Carries out `action` on the variables of the Program `base` (see
/// [`program_apply_spec`]); `state` and `progress` are those after the step.
pub fn apply_program_action(
    space: &mut AddressSpace,
    base: &str,
    state: ProgramState,
    progress: u8,
    action: ProgramAction,
)
    requires
        old(space).wf(),
    ensures
        final(space).wf(),
        final(space)@ == program_apply_spec(old(space)@, base@, state, progress, action),
{
    proof {
        reveal_strlit("Progress");
        reveal_strlit("CurrentState");
        reveal_strlit("Haltable");
        reveal_strlit("Suspendable");
        reveal_strlit("Resumable");
        reveal_strlit("Resetable");
    }
    match action {
        ProgramAction::Idle => {},
        ProgramAction::Started => sync_variables(space, base, state, progress, "Start"),
        ProgramAction::Suspended => sync_variables(space, base, state, progress, "Suspend"),
        ProgramAction::Resumed => sync_variables(space, base, state, progress, "Resume"),
        ProgramAction::Halted => sync_variables(space, base, state, progress, "Halt"),
        ProgramAction::Reset => sync_variables(space, base, state, progress, "Reset"),
        ProgramAction::ProgressChanged(p) => {
            write_variable(space, base, "Progress", NodeValue::Int32(p as i32));
        },
        ProgramAction::Completed => {
            write_variable(space, base, "Progress", NodeValue::Int32(PROGRAM_PROGRESS_DONE as i32));
            write_variable(space, base, "CurrentState", NodeValue::Text("Halted".to_owned()));
            write_variable(space, base, "Haltable", NodeValue::Boolean(false));
            write_variable(space, base, "Suspendable", NodeValue::Boolean(false));
            write_variable(space, base, "Resumable", NodeValue::Boolean(false));
            write_variable(space, base, "Resetable", NodeValue::Boolean(true));
        },
    }
}

/// Progress never exceeds 100: every step from a state whose progress is at
/// most 100 leads to one whose progress is at most 100.
pub proof fn law_program_progress_bounded(state: ProgramState, progress: u8, event: ProgramEvent)
    requires
        progress <= PROGRAM_PROGRESS_DONE,
    ensures
        program_step_spec(state, progress, event) matches Ok(next) ==> next.1 <= PROGRAM_PROGRESS_DONE,
{
}

/// A refused method leaves the Program as it was, and exactly the methods that
/// the state's permission variables allow (and Start in Ready) are accepted;
/// a runner tick is never refused.
pub proof fn law_program_accepts_what_flags_allow(state: ProgramState, progress: u8)
    ensures
        program_step_spec(state, progress, ProgramEvent::Halt) is Ok <==> can_halt(state),
        program_step_spec(state, progress, ProgramEvent::Suspend) is Ok <==> can_suspend(state),
        program_step_spec(state, progress, ProgramEvent::Resume) is Ok <==> can_resume(state),
        program_step_spec(state, progress, ProgramEvent::Reset) is Ok <==> can_reset(state),
        program_step_spec(state, progress, ProgramEvent::Start) is Ok <==> can_start(state),
        program_step_spec(state, progress, ProgramEvent::Tick) is Ok,
{
}

/// Only ticks of a running Program change its progress other than by
/// resetting it to 0: each tick adds exactly one until 100, and the tick that
/// reaches 100 halts the Program and completes it.
pub proof fn law_program_tick_advances(progress: u8)
    requires
        progress < PROGRAM_PROGRESS_DONE,
    ensures
        program_step_spec(ProgramState::Running, progress, ProgramEvent::Tick) matches Ok(next)
            && next.1 == progress + 1
            && (next.0 is Halted <==> progress + 1 == PROGRAM_PROGRESS_DONE)
            && (next.2 is Completed <==> progress + 1 == PROGRAM_PROGRESS_DONE),
{
}

/// Halting a Program that is not Halted and then resetting it makes it Ready
/// again with progress 0, whatever it was doing.
pub proof fn law_program_halt_then_reset(state: ProgramState, progress: u8)
    requires
        !(state is Halted),
    ensures
        program_step_spec(state, progress, ProgramEvent::Halt) matches Ok(h)
            && program_step_spec(h.0, h.1, ProgramEvent::Reset) == Ok::<
            (ProgramState, u8, ProgramAction),
            StatusCode,
        >((ProgramState::Ready, 0u8, ProgramAction::Reset)),
{
}

/// A Program is created in the state the engine starts from: its initial
/// variables are those of the Halted state with progress 0.
pub proof fn law_program_created_halted()
    ensures
        program_initial_spec() == (ProgramState::Halted, 0u8),
        program_part_value(0) == NodeValueView::Text(program_state_name(ProgramState::Halted)),
        program_part_value(2) == NodeValueView::Boolean(can_halt(ProgramState::Halted)),
        program_part_value(3) == NodeValueView::Boolean(can_suspend(ProgramState::Halted)),
        program_part_value(4) == NodeValueView::Boolean(can_resume(ProgramState::Halted)),
        program_part_value(5) == NodeValueView::Boolean(can_reset(ProgramState::Halted)),
        program_part_value(6) == NodeValueView::Int32(0),
{
}


/// Every accepted method changes the state as its name says and hands the caller the
/// action that carries it out: Start from Ready runs with progress 0 and spawns the
/// runner; Suspend from Running suspends; Resume from Suspended runs again; Halt from any
/// state but Halted halts, keeps the progress and cancels the runner; Reset from Halted
/// makes the Program Ready with progress 0. A method is refused in every other state.
pub proof fn law_program_methods_do_what_they_say(state: ProgramState, progress: u8)
    ensures
        state is Ready ==> program_step_spec(state, progress, ProgramEvent::Start) == Ok::<
            (ProgramState, u8, ProgramAction),
            StatusCode,
        >((ProgramState::Running, 0u8, ProgramAction::Started)),
        state is Running ==> program_step_spec(state, progress, ProgramEvent::Suspend) == Ok::<
            (ProgramState, u8, ProgramAction),
            StatusCode,
        >((ProgramState::Suspended, progress, ProgramAction::Suspended)),
        state is Suspended ==> program_step_spec(state, progress, ProgramEvent::Resume) == Ok::<
            (ProgramState, u8, ProgramAction),
            StatusCode,
        >((ProgramState::Running, progress, ProgramAction::Resumed)),
        !(state is Halted) ==> program_step_spec(state, progress, ProgramEvent::Halt) == Ok::<
            (ProgramState, u8, ProgramAction),
            StatusCode,
        >((ProgramState::Halted, progress, ProgramAction::Halted)),
        state is Halted ==> program_step_spec(state, progress, ProgramEvent::Reset) == Ok::<
            (ProgramState, u8, ProgramAction),
            StatusCode,
        >((ProgramState::Ready, 0u8, ProgramAction::Reset)),
        !(state is Ready) ==> program_step_spec(state, progress, ProgramEvent::Start) == Err::<
            (ProgramState, u8, ProgramAction),
            StatusCode,
        >(StatusCode::BadInvalidState),
        !(state is Running) ==> program_step_spec(state, progress, ProgramEvent::Suspend) == Err::<
            (ProgramState, u8, ProgramAction),
            StatusCode,
        >(StatusCode::BadInvalidState),
        !(state is Suspended) ==> program_step_spec(state, progress, ProgramEvent::Resume) == Err::<
            (ProgramState, u8, ProgramAction),
            StatusCode,
        >(StatusCode::BadInvalidState),
        state is Halted ==> program_step_spec(state, progress, ProgramEvent::Halt) == Err::<
            (ProgramState, u8, ProgramAction),
            StatusCode,
        >(StatusCode::BadInvalidState),
        !(state is Halted) ==> program_step_spec(state, progress, ProgramEvent::Reset) == Err::<
            (ProgramState, u8, ProgramAction),
            StatusCode,
        >(StatusCode::BadInvalidState),
{
}

} // verus!
