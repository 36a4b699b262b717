//! The process contract — event-reactive units that emit commands — and the
//! combinators that adapt a process and pair one with a decider.

use vstd::prelude::*;

use core::marker::PhantomData;

use crate::deciders::{convert_each, convert_events, Decider};
use crate::utilities::{FallibleConverter, InfallibleConverter};

verus! {

/// The symmetric counterpart of a decider: a process reacts to the same
/// event stream a decider produces and emits zero or more commands.
///
/// `E` is the event type it observes, `C` the command type it emits, and `S`
/// its own state. It models saga or process-manager logic layered on top of
/// a decider.
pub trait Process<E, C, S> {
    /// The state that `evolve` returns when folding an event into a state.
    ///
    /// The default is an unspecified value, which promises nothing: an
    /// implementation that wants its contract to say something overrides
    /// every one of the five specification functions.
    open spec fn evolve_spec(state: S, event: E) -> S {
        arbitrary()
    }

    /// The commands that `resume` returns for a state.
    open spec fn resume_spec(state: S) -> Seq<C> {
        arbitrary()
    }

    /// The commands that `react` returns for a state and an event.
    open spec fn react_spec(state: S, event: E) -> Seq<C> {
        arbitrary()
    }

    /// The state that `initial_state` returns.
    open spec fn initial_state_spec() -> S {
        arbitrary()
    }

    /// Whether `is_terminal` holds of a state.
    open spec fn is_terminal_spec(state: S) -> bool {
        arbitrary()
    }

    /// Given the current state `state` and an event `event`, returns the new
    /// state. Evolution is total.
    fn evolve(state: &S, event: &E) -> (new_state: S)
        ensures
            new_state == Self::evolve_spec(*state, *event),
    ;

    /// What to do given only the current state, for example after a restart:
    /// the commands the process wants executed.
    fn resume(state: &S) -> (commands: Vec<C>)
        ensures
            commands@ == Self::resume_spec(*state),
    ;

    /// What to do in direct response to an event: the commands the process
    /// wants executed.
    fn react(state: &S, event: &E) -> (commands: Vec<C>)
        ensures
            commands@ == Self::react_spec(*state, *event),
    ;

    /// Returns the state before any event has been folded.
    fn initial_state() -> (state: S)
        ensures
            state == Self::initial_state_spec(),
    ;

    /// Returns whether the process has reached an end state.
    fn is_terminal(state: &S) -> (terminal: bool)
        ensures
            terminal == Self::is_terminal_spec(*state),
    ;
}

/// Adapts a process to observe a wider event type and emit a wider command
/// type.
///
/// Wraps a process `P` with native event type `Ep` and command type `Cp`
/// behind an outward event type `En` and command type `Cn` using two
/// converters:
///
/// - `EC` converts an outward event into a native one, fallibly: an event
///   with no native counterpart leaves the state unchanged in `evolve` and
///   makes `react` a silent no-op.
/// - `CC` converts every native command the process emits into the outward
///   command type, infallibly.
pub struct AdaptedProcess<P, En, Ep, Cp, Cn, S, EC, CC> {
    process: PhantomData<P>,
    event_new: PhantomData<En>,
    event_process: PhantomData<Ep>,
    command_process: PhantomData<Cp>,
    command_new: PhantomData<Cn>,
    state: PhantomData<S>,
    event_converter: PhantomData<EC>,
    command_converter: PhantomData<CC>,
}

impl<P, En, Ep, Cp, Cn, S, EC, CC> Process<En, Cn, S> for AdaptedProcess<
    P,
    En,
    Ep,
    Cp,
    Cn,
    S,
    EC,
    CC,
> where
    S: Copy,
    P: Process<Ep, Cp, S>,
    EC: FallibleConverter<En, Ep>,
    CC: InfallibleConverter<Cp, Cn>,
 {
    open spec fn evolve_spec(state: S, event: En) -> S {
        match EC::convert_spec(event) {
            Some(e) => P::evolve_spec(state, e),
            None => state,
        }
    }

    open spec fn resume_spec(state: S) -> Seq<Cn> {
        convert_each::<CC, Cp, Cn>(P::resume_spec(state))
    }

    open spec fn react_spec(state: S, event: En) -> Seq<Cn> {
        match EC::convert_spec(event) {
            Some(e) => convert_each::<CC, Cp, Cn>(P::react_spec(state, e)),
            None => Seq::empty(),
        }
    }

    open spec fn initial_state_spec() -> S {
        P::initial_state_spec()
    }

    open spec fn is_terminal_spec(state: S) -> bool {
        P::is_terminal_spec(state)
    }

    fn evolve(state: &S, event: &En) -> (new_state: S) {
        match EC::convert(event) {
            Some(e) => P::evolve(state, &e),
            None => *state,
        }
    }

    fn resume(state: &S) -> (commands: Vec<Cn>) {
        let native = P::resume(state);
        convert_events::<CC, Cp, Cn>(&native)
    }

    fn react(state: &S, event: &En) -> (commands: Vec<Cn>) {
        match EC::convert(event) {
            Some(e) => {
                let native = P::react(state, &e);
                convert_events::<CC, Cp, Cn>(&native)
            },
            None => Vec::new(),
        }
    }

    fn initial_state() -> (state: S) {
        P::initial_state()
    }

    fn is_terminal(state: &S) -> (terminal: bool) {
        P::is_terminal(state)
    }
}

/// Drives a process and a decider from one shared event type.
///
/// The combined state pairs the process's state with the decider's. On
/// `decide`, only the decider speaks: the process reacts to events, it does
/// not decide. On `evolve`, both constituents fold the same event
/// independently into their half of the pair. The commands the process
/// wants executed are surfaced separately through [`Self::react`] and
/// [`Self::resume`]; nothing feeds them back into the decider by itself —
/// that wiring belongs to an external runner.
pub struct CombinedProcessDecider<P, D, E, C, Sp, Sd> {
    process: PhantomData<P>,
    decider: PhantomData<D>,
    event: PhantomData<E>,
    command: PhantomData<C>,
    state_process: PhantomData<Sp>,
    state_decider: PhantomData<Sd>,
}

impl<P, D, E, C, Sp, Sd> CombinedProcessDecider<P, D, E, C, Sp, Sd> where
    Sp: Copy,
    Sd: Copy,
    P: Process<E, C, Sp>,
    D: Decider<C, E, Sd, Sd>,
 {
    /// The commands the process wants executed in direct response to an
    /// event, given the combined state.
    pub fn react(state: &(Sp, Sd), event: &E) -> (commands: Vec<C>)
        ensures
            commands@ == P::react_spec(state.0, *event),
    {
        P::react(&state.0, event)
    }

    /// The commands the process wants executed given only the combined
    /// state, for example after a restart.
    pub fn resume(state: &(Sp, Sd)) -> (commands: Vec<C>)
        ensures
            commands@ == P::resume_spec(state.0),
    {
        P::resume(&state.0)
    }
}

impl<P, D, E, C, Sp, Sd> Decider<C, E, (Sp, Sd), (Sp, Sd)> for CombinedProcessDecider<
    P,
    D,
    E,
    C,
    Sp,
    Sd,
> where Sp: Copy, Sd: Copy, P: Process<E, C, Sp>, D: Decider<C, E, Sd, Sd> {
    open spec fn decide_spec(command: C, state: (Sp, Sd)) -> Seq<E> {
        D::decide_spec(command, state.1)
    }

    open spec fn evolve_spec(state: (Sp, Sd), event: E) -> (Sp, Sd) {
        (P::evolve_spec(state.0, event), D::evolve_spec(state.1, event))
    }

    open spec fn initial_state_spec() -> (Sp, Sd) {
        (P::initial_state_spec(), D::initial_state_spec())
    }

    open spec fn is_terminal_spec(state: (Sp, Sd)) -> bool {
        P::is_terminal_spec(state.0) && D::is_terminal_spec(state.1)
    }

    fn decide(command: &C, state: &(Sp, Sd)) -> (events: Vec<E>) {
        D::decide(command, &state.1)
    }

    fn evolve(state: &(Sp, Sd), event: &E) -> (new_state: (Sp, Sd)) {
        (P::evolve(&state.0, event), D::evolve(&state.1, event))
    }

    fn initial_state() -> (state: (Sp, Sd)) {
        (P::initial_state(), D::initial_state())
    }

    fn is_terminal(state: &(Sp, Sd)) -> (terminal: bool) {
        P::is_terminal(&state.0) && D::is_terminal(&state.1)
    }
}

/// A combined process and decider is terminal exactly when both
/// constituents are.
pub proof fn lemma_combined_terminal_conjunction<P, D, E, C, Sp, Sd>(state: (Sp, Sd)) where
    Sp: Copy,
    Sd: Copy,
    P: Process<E, C, Sp>,
    D: Decider<C, E, Sd, Sd>,

    ensures
        CombinedProcessDecider::<P, D, E, C, Sp, Sd>::is_terminal_spec(state)
            <==> (P::is_terminal_spec(state.0) && D::is_terminal_spec(state.1)),
{
}

} // verus!
