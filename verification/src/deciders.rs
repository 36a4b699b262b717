//! The decider contract and the combinators that compose deciders.
//!
//! A decider is a pure state-machine unit: `decide` maps a command and the
//! current state to a sequence of events, `evolve` folds one event into the
//! state, `initial_state` gives the state before any event, and `is_terminal`
//! says whether a state expects no further commands. Each operation comes in
//! two forms: a `spec` function that defines its value, and an executable
//! function whose contract says it returns exactly that value. Combinators
//! implement the same contract on top of one or more sub-deciders, and their
//! `spec` functions state precisely how the composition routes commands,
//! events and state.

use vstd::prelude::*;

use core::marker::PhantomData;

use crate::utilities::{fold_events, Either, FallibleConverter, InfallibleConverter};

verus! {

/// The four-operation decider contract.
///
/// `C` is the command type, `E` the event type, `So` the state the decider
/// produces and `Si` the state it reads. Most leaf deciders unify `So` and
/// `Si`; combinators exploit the split to reshape state across composition
/// boundaries. All operations are associated with the implementing type, not
/// with an instance: a decider carries no runtime data of its own.
pub trait Decider<C, E, So, Si> {
    /// The events that `decide` returns for a command in a state.
    ///
    /// The default is an unspecified value, which promises nothing: an
    /// implementation that wants its contract to say something overrides
    /// every one of the four specification functions.
    open spec fn decide_spec(command: C, state: Si) -> Seq<E> {
        arbitrary()
    }

    /// The state that `evolve` returns when folding an event into a state.
    open spec fn evolve_spec(state: Si, event: E) -> So {
        arbitrary()
    }

    /// The state that `initial_state` returns.
    open spec fn initial_state_spec() -> So {
        arbitrary()
    }

    /// Whether `is_terminal` holds of a state.
    open spec fn is_terminal_spec(state: Si) -> bool {
        arbitrary()
    }

    /// Given an incoming command `command` and the current state `state`,
    /// returns the ordered sequence of events the combination generates.
    /// An empty result means the command has no effect in this state; that
    /// is never an error.
    fn decide(command: &C, state: &Si) -> (events: Vec<E>)
        ensures
            events@ == Self::decide_spec(*command, *state),
    ;

    /// Given the current state `state` and an event `event`, returns the new
    /// state. Evolution is total: it is defined for every state and event.
    fn evolve(state: &Si, event: &E) -> (new_state: So)
        ensures
            new_state == Self::evolve_spec(*state, *event),
    ;

    /// Returns the state before any event has been folded.
    fn initial_state() -> (state: So)
        ensures
            state == Self::initial_state_spec(),
    ;

    /// Returns whether the decider has reached an end state. Reaching a
    /// terminal state locks nothing: callers are merely expected to stop
    /// issuing commands.
    fn is_terminal(state: &Si) -> (terminal: bool)
        ensures
            terminal == Self::is_terminal_spec(*state),
    ;
}

/// Every event of `events`, tagged as coming from the left side.
pub open spec fn tag_left<E1, E2>(events: Seq<E1>) -> Seq<Either<E1, E2>> {
    Seq::new(events.len(), |i: int| Either::Left(events[i]))
}

/// Every event of `events`, tagged as coming from the right side.
pub open spec fn tag_right<E1, E2>(events: Seq<E2>) -> Seq<Either<E1, E2>> {
    Seq::new(events.len(), |i: int| Either::Right(events[i]))
}

fn collect_left<E1, E2>(events: Vec<E1>) -> (tagged: Vec<Either<E1, E2>>)
    ensures
        tagged@ == tag_left::<E1, E2>(events@),
{
    let ghost all = events@;
    let mut rest = events;
    let mut tagged: Vec<Either<E1, E2>> = Vec::new();
    while rest.len() > 0
        invariant
            tagged@.len() + rest@.len() == all.len(),
            rest@ == all.skip(tagged@.len() as int),
            tagged@ == tag_left::<E1, E2>(all.take(tagged@.len() as int)),
        decreases rest.len(),
    {
        let ghost done = tagged@.len() as int;
        let e = rest.remove(0);
        tagged.push(Either::Left(e));
        proof {
            assert(rest@ =~= all.skip(done + 1));
            assert(tagged@ =~= tag_left::<E1, E2>(all.take(done + 1)));
        }
    }
    proof {
        assert(all.take(all.len() as int) =~= all);
    }
    tagged
}

fn collect_right<E1, E2>(events: Vec<E2>) -> (tagged: Vec<Either<E1, E2>>)
    ensures
        tagged@ == tag_right::<E1, E2>(events@),
{
    let ghost all = events@;
    let mut rest = events;
    let mut tagged: Vec<Either<E1, E2>> = Vec::new();
    while rest.len() > 0
        invariant
            tagged@.len() + rest@.len() == all.len(),
            rest@ == all.skip(tagged@.len() as int),
            tagged@ == tag_right::<E1, E2>(all.take(tagged@.len() as int)),
        decreases rest.len(),
    {
        let ghost done = tagged@.len() as int;
        let e = rest.remove(0);
        tagged.push(Either::Right(e));
        proof {
            assert(rest@ =~= all.skip(done + 1));
            assert(tagged@ =~= tag_right::<E1, E2>(all.take(done + 1)));
        }
    }
    proof {
        assert(all.take(all.len() as int) =~= all);
    }
    tagged
}

/// The parallel union of two independent deciders `D1` and `D2`.
///
/// Commands and events become `Either` values tagged with the side they
/// belong to, and the state pairs both sides' states. A command touches
/// exactly one side; the other side's state passes through unread.
pub struct ComposedDeciders<D1, C1, E1, S1, D2, C2, E2, S2> {
    decider1: PhantomData<D1>,
    command1: PhantomData<C1>,
    event1: PhantomData<E1>,
    state1: PhantomData<S1>,
    decider2: PhantomData<D2>,
    command2: PhantomData<C2>,
    event2: PhantomData<E2>,
    state2: PhantomData<S2>,
}

impl<D1, C1, E1, S1, D2, C2, E2, S2> Decider<
    Either<C1, C2>,
    Either<E1, E2>,
    (S1, S2),
    (S1, S2),
> for ComposedDeciders<D1, C1, E1, S1, D2, C2, E2, S2> where
    S1: Copy,
    S2: Copy,
    D1: Decider<C1, E1, S1, S1>,
    D2: Decider<C2, E2, S2, S2>,
 {
    open spec fn decide_spec(command: Either<C1, C2>, state: (S1, S2)) -> Seq<Either<E1, E2>> {
        match command {
            Either::Left(c) => tag_left::<E1, E2>(D1::decide_spec(c, state.0)),
            Either::Right(c) => tag_right::<E1, E2>(D2::decide_spec(c, state.1)),
        }
    }

    open spec fn evolve_spec(state: (S1, S2), event: Either<E1, E2>) -> (S1, S2) {
        match event {
            Either::Left(e) => (D1::evolve_spec(state.0, e), state.1),
            Either::Right(e) => (state.0, D2::evolve_spec(state.1, e)),
        }
    }

    open spec fn initial_state_spec() -> (S1, S2) {
        (D1::initial_state_spec(), D2::initial_state_spec())
    }

    open spec fn is_terminal_spec(state: (S1, S2)) -> bool {
        D1::is_terminal_spec(state.0) && D2::is_terminal_spec(state.1)
    }

    fn decide(command: &Either<C1, C2>, state: &(S1, S2)) -> (events: Vec<Either<E1, E2>>) {
        match command {
            Either::Left(c) => collect_left(D1::decide(c, &state.0)),
            Either::Right(c) => collect_right(D2::decide(c, &state.1)),
        }
    }

    fn evolve(state: &(S1, S2), event: &Either<E1, E2>) -> (new_state: (S1, S2)) {
        match event {
            Either::Left(e) => (D1::evolve(&state.0, e), state.1),
            Either::Right(e) => (state.0, D2::evolve(&state.1, e)),
        }
    }

    fn initial_state() -> (state: (S1, S2)) {
        (D1::initial_state(), D2::initial_state())
    }

    fn is_terminal(state: &(S1, S2)) -> (terminal: bool) {
        D1::is_terminal(&state.0) && D2::is_terminal(&state.1)
    }
}

/// A name-indexed collection of per-instance states, used by [`ManyDecider`].
///
/// Absence of a name means "never yet initialized": the owning decider falls
/// back to its own initial state on first contact. The operations below keep
/// names distinct; when a name occurs twice regardless, every operation goes
/// by the first occurrence.
pub enum NamedStates<S> {
    /// No instance is tracked.
    Empty,
    /// One named instance's state, followed by the remaining instances.
    Entry(String, S, Box<NamedStates<S>>),
}

/// The state tracked under `name`, or `None` when the name was never seen.
pub open spec fn lookup<S>(states: NamedStates<S>, name: Seq<char>) -> Option<S>
    decreases states,
{
    match states {
        NamedStates::Empty => None,
        NamedStates::Entry(entry_name, entry_state, rest) => if entry_name@ == name {
            Some(entry_state)
        } else {
            lookup(*rest, name)
        },
    }
}

/// `states` with the first entry for `name` replaced by `value`, or with
/// `(name, value)` appended when the name was never seen. Every other entry
/// is unchanged: updates are copy-on-write.
pub open spec fn updated<S>(states: NamedStates<S>, name: String, value: S) -> NamedStates<S>
    decreases states,
{
    match states {
        NamedStates::Empty => NamedStates::Entry(name, value, Box::new(NamedStates::Empty)),
        NamedStates::Entry(entry_name, entry_state, rest) => if entry_name@ == name@ {
            NamedStates::Entry(entry_name, value, rest)
        } else {
            NamedStates::Entry(entry_name, entry_state, Box::new(updated(*rest, name, value)))
        },
    }
}

/// The state tracked under `name`, defaulting to `D`'s initial state when
/// the name was never seen.
pub open spec fn current_or_initial<D, C, E, S>(
    states: NamedStates<S>,
    name: Seq<char>,
) -> S where D: Decider<C, E, S, S> {
    match lookup(states, name) {
        Some(state) => state,
        None => D::initial_state_spec(),
    }
}

/// Whether every tracked instance is terminal for `D`. An empty collection
/// is vacuously terminal.
pub open spec fn all_terminal<D, C, E, S>(states: NamedStates<S>) -> bool where
    D: Decider<C, E, S, S>,

    decreases states,
{
    match states {
        NamedStates::Empty => true,
        NamedStates::Entry(entry_name, entry_state, rest) => D::is_terminal_spec(entry_state)
            && all_terminal::<D, C, E, S>(*rest),
    }
}

/// Whether no name is tracked twice.
pub open spec fn distinct_names<S>(states: NamedStates<S>) -> bool
    decreases states,
{
    match states {
        NamedStates::Empty => true,
        NamedStates::Entry(entry_name, entry_state, rest) => lookup(*rest, entry_name@) is None
            && distinct_names(*rest),
    }
}

fn copy_states<S: Copy>(states: &NamedStates<S>) -> (copy: NamedStates<S>)
    ensures
        copy == *states,
    decreases *states,
{
    match states {
        NamedStates::Empty => NamedStates::Empty,
        NamedStates::Entry(entry_name, entry_state, rest) => NamedStates::Entry(
            entry_name.clone(),
            *entry_state,
            Box::new(copy_states(rest)),
        ),
    }
}

fn current_state<D, C, E, S>(states: &NamedStates<S>, name: &String) -> (state: S) where
    D: Decider<C, E, S, S>,
    S: Copy,

    ensures
        state == current_or_initial::<D, C, E, S>(*states, name@),
    decreases *states,
{
    match states {
        NamedStates::Empty => D::initial_state(),
        NamedStates::Entry(entry_name, entry_state, rest) => if *entry_name == *name {
            *entry_state
        } else {
            current_state::<D, C, E, S>(rest, name)
        },
    }
}

fn set_state<S: Copy>(states: NamedStates<S>, name: &String, value: S) -> (new_states: NamedStates<
    S,
>)
    ensures
        new_states == updated(states, *name, value),
    decreases states,
{
    match states {
        NamedStates::Empty => NamedStates::Entry(name.clone(), value, Box::new(NamedStates::Empty)),
        NamedStates::Entry(entry_name, entry_state, rest) => if entry_name == *name {
            NamedStates::Entry(entry_name, value, rest)
        } else {
            NamedStates::Entry(entry_name, entry_state, Box::new(set_state(*rest, name, value)))
        },
    }
}

fn check_all_terminal<D, C, E, S>(states: &NamedStates<S>) -> (terminal: bool) where
    D: Decider<C, E, S, S>,
    S: Copy,

    ensures
        terminal == all_terminal::<D, C, E, S>(*states),
    decreases *states,
{
    match states {
        NamedStates::Empty => true,
        NamedStates::Entry(entry_name, entry_state, rest) => D::is_terminal(entry_state)
            && check_all_terminal::<D, C, E, S>(rest),
    }
}

/// Every event of `events`, tagged with the instance name `name`.
pub open spec fn tag_named<E>(name: String, events: Seq<E>) -> Seq<(String, E)> {
    Seq::new(events.len(), |i: int| (name, events[i]))
}

fn collect_named<E>(name: &String, events: Vec<E>) -> (tagged: Vec<(String, E)>)
    ensures
        tagged@ == tag_named(*name, events@),
{
    let ghost all = events@;
    let mut rest = events;
    let mut tagged: Vec<(String, E)> = Vec::new();
    while rest.len() > 0
        invariant
            tagged@.len() + rest@.len() == all.len(),
            rest@ == all.skip(tagged@.len() as int),
            tagged@ == tag_named(*name, all.take(tagged@.len() as int)),
        decreases rest.len(),
    {
        let ghost done = tagged@.len() as int;
        let e = rest.remove(0);
        tagged.push((name.clone(), e));
        proof {
            assert(rest@ =~= all.skip(done + 1));
            assert(tagged@ =~= tag_named(*name, all.take(done + 1)));
        }
    }
    proof {
        assert(all.take(all.len() as int) =~= all);
    }
    tagged
}

/// Runs any number of named instances of one decider kind `D` in parallel.
///
/// Commands and events become pairs of an instance name and `D`'s own
/// command or event; the state maps each name to that instance's state. A
/// name that was never seen stands for a fresh instance: its state is `D`'s
/// initial state, never an error.
pub struct ManyDecider<D, C, E, S> {
    decider: PhantomData<D>,
    command: PhantomData<C>,
    event: PhantomData<E>,
    state: PhantomData<S>,
}

impl<D, C, E, S> Decider<(String, C), (String, E), NamedStates<S>, NamedStates<S>> for ManyDecider<
    D,
    C,
    E,
    S,
> where S: Copy, D: Decider<C, E, S, S> {
    open spec fn decide_spec(command: (String, C), states: NamedStates<S>) -> Seq<(String, E)> {
        tag_named(
            command.0,
            D::decide_spec(command.1, current_or_initial::<D, C, E, S>(states, command.0@)),
        )
    }

    open spec fn evolve_spec(states: NamedStates<S>, event: (String, E)) -> NamedStates<S> {
        updated(
            states,
            event.0,
            D::evolve_spec(current_or_initial::<D, C, E, S>(states, event.0@), event.1),
        )
    }

    open spec fn initial_state_spec() -> NamedStates<S> {
        NamedStates::Empty
    }

    open spec fn is_terminal_spec(states: NamedStates<S>) -> bool {
        all_terminal::<D, C, E, S>(states)
    }

    fn decide(command: &(String, C), states: &NamedStates<S>) -> (events: Vec<(String, E)>) {
        let current = current_state::<D, C, E, S>(states, &command.0);
        let native = D::decide(&command.1, &current);
        collect_named(&command.0, native)
    }

    fn evolve(states: &NamedStates<S>, event: &(String, E)) -> (new_states: NamedStates<S>) {
        let current = current_state::<D, C, E, S>(states, &event.0);
        let new_state = D::evolve(&current, &event.1);
        set_state(copy_states(states), &event.0, new_state)
    }

    fn initial_state() -> (states: NamedStates<S>) {
        NamedStates::Empty
    }

    fn is_terminal(states: &NamedStates<S>) -> (terminal: bool) {
        check_all_terminal::<D, C, E, S>(states)
    }
}

/// Updating one name is copy-on-write: the updated collection tracks
/// `value` under `name`, and every other name's state is exactly what it
/// was before.
pub proof fn lemma_updated_lookup<S>(
    states: NamedStates<S>,
    name: String,
    value: S,
    other: Seq<char>,
)
    ensures
        lookup(updated(states, name, value), other) == if other == name@ {
            Some(value)
        } else {
            lookup(states, other)
        },
    decreases states,
{
    match states {
        NamedStates::Empty => {},
        NamedStates::Entry(entry_name, entry_state, rest) => {
            if entry_name@ != name@ {
                lemma_updated_lookup(*rest, name, value, other);
            }
        },
    }
}

/// Updating preserves distinctness of names: starting from the empty
/// collection, the tracked names always stay unique.
pub proof fn lemma_updated_distinct<S>(states: NamedStates<S>, name: String, value: S)
    requires
        distinct_names(states),
    ensures
        distinct_names(updated(states, name, value)),
    decreases states,
{
    match states {
        NamedStates::Empty => {},
        NamedStates::Entry(entry_name, entry_state, rest) => {
            if entry_name@ != name@ {
                lemma_updated_distinct(*rest, name, value);
                lemma_updated_lookup(*rest, name, value, entry_name@);
            }
        },
    }
}

/// Evolving one named instance updates that name alone: after folding an
/// event tagged with `name`, the state tracked under `name` is the evolved
/// one, and every other name's state is exactly what it was before.
pub proof fn lemma_many_evolve_updates_one_name<D, C, E, S>(
    states: NamedStates<S>,
    event: (String, E),
    other: Seq<char>,
) where S: Copy, D: Decider<C, E, S, S>
    ensures
        lookup(ManyDecider::<D, C, E, S>::evolve_spec(states, event), other) == if other
            == event.0@ {
            Some(D::evolve_spec(current_or_initial::<D, C, E, S>(states, event.0@), event.1))
        } else {
            lookup(states, other)
        },
{
    lemma_updated_lookup(
        states,
        event.0,
        D::evolve_spec(current_or_initial::<D, C, E, S>(states, event.0@), event.1),
        other,
    );
}

/// Evolution keeps instance names distinct. The initial state tracks
/// nothing, so every state a collection of named instances reaches has each
/// name tracked at most once.
pub proof fn lemma_many_evolve_preserves_distinct<D, C, E, S>(
    states: NamedStates<S>,
    event: (String, E),
) where S: Copy, D: Decider<C, E, S, S>
    requires
        distinct_names(states),
    ensures
        distinct_names(ManyDecider::<D, C, E, S>::evolve_spec(states, event)),
{
    lemma_updated_distinct(
        states,
        event.0,
        D::evolve_spec(current_or_initial::<D, C, E, S>(states, event.0@), event.1),
    );
}

/// Querying a name that was never seen behaves exactly as a fresh instance:
/// the same events as running `D` alone, with no prior events, tagged with
/// that name.
pub proof fn lemma_many_unseen_name_fresh<D, C, E, S>(
    name: String,
    command: C,
    states: NamedStates<S>,
) where S: Copy, D: Decider<C, E, S, S>
    requires
        lookup(states, name@) is None,
    ensures
        ManyDecider::<D, C, E, S>::decide_spec((name, command), states) == tag_named(
            name,
            D::decide_spec(command, D::initial_state_spec()),
        ),
{
}

/// A collection of named instances is terminal exactly when every tracked
/// instance is terminal, provided names are distinct; an empty collection
/// is vacuously terminal.
pub proof fn lemma_many_terminal_all<D, C, E, S>(states: NamedStates<S>) where
    S: Copy,
    D: Decider<C, E, S, S>,

    requires
        distinct_names(states),
    ensures
        ManyDecider::<D, C, E, S>::is_terminal_spec(states) <==> (forall|name: Seq<char>|
            #[trigger] lookup(states, name) matches Some(state) ==> D::is_terminal_spec(state)),
    decreases states,
{
    match states {
        NamedStates::Empty => {},
        NamedStates::Entry(entry_name, entry_state, rest) => {
            lemma_many_terminal_all::<D, C, E, S>(*rest);
            if all_terminal::<D, C, E, S>(states) {
                assert forall|name: Seq<char>| lookup(states, name) is Some implies
                    D::is_terminal_spec(lookup(states, name)->Some_0) by {
                    if name != entry_name@ {
                        assert(lookup(states, name) == lookup(*rest, name));
                    }
                }
            }
            if forall|name: Seq<char>|
                #[trigger] lookup(states, name) matches Some(state) ==> D::is_terminal_spec(
                    state,
                ) {
                assert(lookup(states, entry_name@) == Some(entry_state));
                assert forall|name: Seq<char>| lookup(*rest, name) is Some implies
                    D::is_terminal_spec(lookup(*rest, name)->Some_0) by {
                    if name == entry_name@ {
                        assert(lookup(*rest, entry_name@) is None);
                    } else {
                        assert(lookup(states, name) == lookup(*rest, name));
                    }
                }
            }
        },
    }
}

/// Every event of `events`, converted through the infallible converter `EDC`.
pub open spec fn convert_each<EDC, Ed, En>(events: Seq<Ed>) -> Seq<En> where EDC: InfallibleConverter<
    Ed,
    En,
> {
    Seq::new(events.len(), |i: int| EDC::convert_spec(events[i]))
}

pub(crate) fn convert_events<EDC, Ed, En>(events: &Vec<Ed>) -> (converted: Vec<En>) where
    EDC: InfallibleConverter<Ed, En>,

    ensures
        converted@ == convert_each::<EDC, Ed, En>(events@),
{
    let mut converted: Vec<En> = Vec::new();
    let mut i: usize = 0;
    while i < events.len()
        invariant
            i <= events@.len(),
            converted@ == convert_each::<EDC, Ed, En>(events@.take(i as int)),
        decreases events@.len() - i,
    {
        converted.push(EDC::convert(&events[i]));
        i = i + 1;
        proof {
            assert(converted@ =~= convert_each::<EDC, Ed, En>(events@.take(i as int)));
        }
    }
    proof {
        assert(events@.take(events@.len() as int) =~= events@);
    }
    converted
}

/// Adapts a decider to present different command, event and state types.
///
/// Wraps a decider `D` with native types `Cd`, `Ed`, `Sd` behind new outward
/// types `Cn`, `En`, `Sn` using four converters:
///
/// - `CC` converts the new command type into the native one, fallibly: a
///   command with no native counterpart makes `decide` a silent no-op.
/// - `ENC` converts the new event type into the native one, fallibly, inside
///   `evolve` only: an unrecognized event leaves the converted state
///   unchanged rather than corrupting it.
/// - `EDC` converts every native event `decide` produces into the outward
///   event type, infallibly.
/// - `SC` converts the outward state into the native one, infallibly.
///
/// The states this adapter produces are still in the native type `Sd`; pair
/// it with [`MappedDecider`] when an outward output state type is wanted.
pub struct AdaptedDecider<D, CC, ENC, EDC, SC, En, Ed, Cn, Cd, Sn, Sd> {
    decider: PhantomData<D>,
    command_converter: PhantomData<CC>,
    event_new_converter: PhantomData<ENC>,
    event_decider_converter: PhantomData<EDC>,
    state_converter: PhantomData<SC>,
    event_new: PhantomData<En>,
    event_decider: PhantomData<Ed>,
    command_new: PhantomData<Cn>,
    command_decider: PhantomData<Cd>,
    state_new: PhantomData<Sn>,
    state_decider: PhantomData<Sd>,
}

impl<D, CC, ENC, EDC, SC, En, Ed, Cn, Cd, Sn, Sd> Decider<Cn, En, Sd, Sn> for AdaptedDecider<
    D,
    CC,
    ENC,
    EDC,
    SC,
    En,
    Ed,
    Cn,
    Cd,
    Sn,
    Sd,
> where
    D: Decider<Cd, Ed, Sd, Sd>,
    CC: FallibleConverter<Cn, Cd>,
    ENC: FallibleConverter<En, Ed>,
    EDC: InfallibleConverter<Ed, En>,
    SC: InfallibleConverter<Sn, Sd>,
 {
    open spec fn decide_spec(command: Cn, state: Sn) -> Seq<En> {
        match CC::convert_spec(command) {
            Some(c) => convert_each::<EDC, Ed, En>(D::decide_spec(c, SC::convert_spec(state))),
            None => Seq::empty(),
        }
    }

    open spec fn evolve_spec(state: Sn, event: En) -> Sd {
        match ENC::convert_spec(event) {
            Some(e) => D::evolve_spec(SC::convert_spec(state), e),
            None => SC::convert_spec(state),
        }
    }

    open spec fn initial_state_spec() -> Sd {
        D::initial_state_spec()
    }

    open spec fn is_terminal_spec(state: Sn) -> bool {
        D::is_terminal_spec(SC::convert_spec(state))
    }

    fn decide(command: &Cn, state: &Sn) -> (events: Vec<En>) {
        match CC::convert(command) {
            Some(c) => {
                let native = D::decide(&c, &SC::convert(state));
                convert_events::<EDC, Ed, En>(&native)
            },
            None => Vec::new(),
        }
    }

    fn evolve(state: &Sn, event: &En) -> (new_state: Sd) {
        match ENC::convert(event) {
            Some(e) => D::evolve(&SC::convert(state), &e),
            None => SC::convert(state),
        }
    }

    fn initial_state() -> (state: Sd) {
        D::initial_state()
    }

    fn is_terminal(state: &Sn) -> (terminal: bool) {
        D::is_terminal(&SC::convert(state))
    }
}

/// Reshapes only the state a decider produces.
///
/// Wraps `D` and applies the infallible converter `SC` to the output of
/// `evolve` and of `initial_state`, leaving the input state type and all
/// command and event handling untouched.
pub struct MappedDecider<D, SC, C, E, Sn, Sdo, Sdi> {
    decider: PhantomData<D>,
    state_converter: PhantomData<SC>,
    command: PhantomData<C>,
    event: PhantomData<E>,
    state_new: PhantomData<Sn>,
    state_decider_out: PhantomData<Sdo>,
    state_decider_in: PhantomData<Sdi>,
}

impl<D, SC, C, E, Sn, Sdo, Sdi> Decider<C, E, Sn, Sdi> for MappedDecider<
    D,
    SC,
    C,
    E,
    Sn,
    Sdo,
    Sdi,
> where D: Decider<C, E, Sdo, Sdi>, SC: InfallibleConverter<Sdo, Sn> {
    open spec fn decide_spec(command: C, state: Sdi) -> Seq<E> {
        D::decide_spec(command, state)
    }

    open spec fn evolve_spec(state: Sdi, event: E) -> Sn {
        SC::convert_spec(D::evolve_spec(state, event))
    }

    open spec fn initial_state_spec() -> Sn {
        SC::convert_spec(D::initial_state_spec())
    }

    open spec fn is_terminal_spec(state: Sdi) -> bool {
        D::is_terminal_spec(state)
    }

    fn decide(command: &C, state: &Sdi) -> (events: Vec<E>) {
        D::decide(command, state)
    }

    fn evolve(state: &Sdi, event: &E) -> (new_state: Sn) {
        SC::convert(&D::evolve(state, event))
    }

    fn initial_state() -> (state: Sn) {
        SC::convert(&D::initial_state())
    }

    fn is_terminal(state: &Sdi) -> (terminal: bool) {
        D::is_terminal(state)
    }
}

/// Combines two deciders that share command, event and input-state types,
/// merging their produced states through an infallible combiner.
///
/// Both sub-deciders observe the same commands and events in lock-step;
/// `decide` concatenates their outputs, `D1`'s events first.
pub struct Map2Deciders<D1, D2, SC, C, E, Si, S1, S2, So> {
    decider1: PhantomData<D1>,
    decider2: PhantomData<D2>,
    state_combiner: PhantomData<SC>,
    command: PhantomData<C>,
    event: PhantomData<E>,
    state_initial: PhantomData<Si>,
    state_decider_1: PhantomData<S1>,
    state_decider_2: PhantomData<S2>,
    state_output: PhantomData<So>,
}

impl<D1, D2, SC, C, E, Si, S1, S2, So> Decider<C, E, So, Si> for Map2Deciders<
    D1,
    D2,
    SC,
    C,
    E,
    Si,
    S1,
    S2,
    So,
> where
    D1: Decider<C, E, S1, Si>,
    D2: Decider<C, E, S2, Si>,
    SC: InfallibleConverter<(S1, S2), So>,
 {
    open spec fn decide_spec(command: C, state: Si) -> Seq<E> {
        D1::decide_spec(command, state) + D2::decide_spec(command, state)
    }

    open spec fn evolve_spec(state: Si, event: E) -> So {
        SC::convert_spec((D1::evolve_spec(state, event), D2::evolve_spec(state, event)))
    }

    open spec fn initial_state_spec() -> So {
        SC::convert_spec((D1::initial_state_spec(), D2::initial_state_spec()))
    }

    open spec fn is_terminal_spec(state: Si) -> bool {
        D1::is_terminal_spec(state) && D2::is_terminal_spec(state)
    }

    fn decide(command: &C, state: &Si) -> (events: Vec<E>) {
        let mut events = D1::decide(command, state);
        let mut tail = D2::decide(command, state);
        events.append(&mut tail);
        events
    }

    fn evolve(state: &Si, event: &E) -> (new_state: So) {
        let s1 = D1::evolve(state, event);
        let s2 = D2::evolve(state, event);
        SC::convert(&(s1, s2))
    }

    fn initial_state() -> (state: So) {
        SC::convert(&(D1::initial_state(), D2::initial_state()))
    }

    fn is_terminal(state: &Si) -> (terminal: bool) {
        D1::is_terminal(state) && D2::is_terminal(state)
    }
}

/// A left-tagged event updates only the left half of a composed state: the
/// right half passes through unread.
pub proof fn lemma_composed_evolve_left_keeps_right<D1, C1, E1, S1, D2, C2, E2, S2>(
    state: (S1, S2),
    event: E1,
) where S1: Copy, S2: Copy, D1: Decider<C1, E1, S1, S1>, D2: Decider<C2, E2, S2, S2>
    ensures
        ComposedDeciders::<D1, C1, E1, S1, D2, C2, E2, S2>::evolve_spec(
            state,
            Either::Left(event),
        ).1 == state.1,
{
}

/// A right-tagged event updates only the right half of a composed state:
/// the left half passes through unread.
pub proof fn lemma_composed_evolve_right_keeps_left<D1, C1, E1, S1, D2, C2, E2, S2>(
    state: (S1, S2),
    event: E2,
) where S1: Copy, S2: Copy, D1: Decider<C1, E1, S1, S1>, D2: Decider<C2, E2, S2, S2>
    ensures
        ComposedDeciders::<D1, C1, E1, S1, D2, C2, E2, S2>::evolve_spec(
            state,
            Either::Right(event),
        ).0 == state.0,
{
}

/// Folding any sequence of left-tagged events into a composed state leaves
/// the right half unchanged.
pub proof fn lemma_composed_fold_left_keeps_right<D1, C1, E1, S1, D2, C2, E2, S2>(
    state: (S1, S2),
    events: Seq<E1>,
) where S1: Copy, S2: Copy, D1: Decider<C1, E1, S1, S1>, D2: Decider<C2, E2, S2, S2>
    ensures
        fold_events::<
            Either<C1, C2>,
            Either<E1, E2>,
            (S1, S2),
            ComposedDeciders<D1, C1, E1, S1, D2, C2, E2, S2>,
        >(state, tag_left::<E1, E2>(events)).1 == state.1,
    decreases events.len(),
{
    if events.len() == 0 {
        assert(tag_left::<E1, E2>(events) =~= Seq::<Either<E1, E2>>::empty());
    } else {
        lemma_composed_fold_left_keeps_right::<D1, C1, E1, S1, D2, C2, E2, S2>(
            state,
            events.drop_last(),
        );
        assert(tag_left::<E1, E2>(events).drop_last() =~= tag_left::<E1, E2>(
            events.drop_last(),
        ));
        assert(tag_left::<E1, E2>(events).last() == Either::<E1, E2>::Left(events.last()));
    }
}

/// Routing a left-tagged command through a composed decider never changes
/// the right half of the state: the events it produces are all left-tagged,
/// and folding them touches only the left half.
pub proof fn lemma_composed_left_command_keeps_right<D1, C1, E1, S1, D2, C2, E2, S2>(
    command: C1,
    state: (S1, S2),
) where S1: Copy, S2: Copy, D1: Decider<C1, E1, S1, S1>, D2: Decider<C2, E2, S2, S2>
    ensures
        fold_events::<
            Either<C1, C2>,
            Either<E1, E2>,
            (S1, S2),
            ComposedDeciders<D1, C1, E1, S1, D2, C2, E2, S2>,
        >(
            state,
            ComposedDeciders::<D1, C1, E1, S1, D2, C2, E2, S2>::decide_spec(
                Either::Left(command),
                state,
            ),
        ).1 == state.1,
{
    lemma_composed_fold_left_keeps_right::<D1, C1, E1, S1, D2, C2, E2, S2>(
        state,
        D1::decide_spec(command, state.0),
    );
}

/// Routing a right-tagged command through a composed decider never changes
/// the left half of the state.
pub proof fn lemma_composed_right_command_keeps_left<D1, C1, E1, S1, D2, C2, E2, S2>(
    command: C2,
    state: (S1, S2),
) where S1: Copy, S2: Copy, D1: Decider<C1, E1, S1, S1>, D2: Decider<C2, E2, S2, S2>
    ensures
        fold_events::<
            Either<C1, C2>,
            Either<E1, E2>,
            (S1, S2),
            ComposedDeciders<D1, C1, E1, S1, D2, C2, E2, S2>,
        >(
            state,
            ComposedDeciders::<D1, C1, E1, S1, D2, C2, E2, S2>::decide_spec(
                Either::Right(command),
                state,
            ),
        ).0 == state.0,
{
    lemma_composed_fold_right_keeps_left::<D1, C1, E1, S1, D2, C2, E2, S2>(
        state,
        D2::decide_spec(command, state.1),
    );
}

/// Folding any sequence of right-tagged events into a composed state leaves
/// the left half unchanged.
pub proof fn lemma_composed_fold_right_keeps_left<D1, C1, E1, S1, D2, C2, E2, S2>(
    state: (S1, S2),
    events: Seq<E2>,
) where S1: Copy, S2: Copy, D1: Decider<C1, E1, S1, S1>, D2: Decider<C2, E2, S2, S2>
    ensures
        fold_events::<
            Either<C1, C2>,
            Either<E1, E2>,
            (S1, S2),
            ComposedDeciders<D1, C1, E1, S1, D2, C2, E2, S2>,
        >(state, tag_right::<E1, E2>(events)).0 == state.0,
    decreases events.len(),
{
    if events.len() == 0 {
        assert(tag_right::<E1, E2>(events) =~= Seq::<Either<E1, E2>>::empty());
    } else {
        lemma_composed_fold_right_keeps_left::<D1, C1, E1, S1, D2, C2, E2, S2>(
            state,
            events.drop_last(),
        );
        assert(tag_right::<E1, E2>(events).drop_last() =~= tag_right::<E1, E2>(
            events.drop_last(),
        ));
        assert(tag_right::<E1, E2>(events).last() == Either::<E1, E2>::Right(events.last()));
    }
}

/// A composed decider is terminal exactly when both constituents are.
pub proof fn lemma_composed_terminal_conjunction<D1, C1, E1, S1, D2, C2, E2, S2>(
    state: (S1, S2),
) where S1: Copy, S2: Copy, D1: Decider<C1, E1, S1, S1>, D2: Decider<C2, E2, S2, S2>
    ensures
        ComposedDeciders::<D1, C1, E1, S1, D2, C2, E2, S2>::is_terminal_spec(state)
            <==> (D1::is_terminal_spec(state.0) && D2::is_terminal_spec(state.1)),
{
}

/// A command the command converter cannot map is a silent no-op: the
/// adapter returns no events for it, regardless of the state.
pub proof fn lemma_adapted_unmapped_command_no_events<D, CC, ENC, EDC, SC, En, Ed, Cn, Cd, Sn, Sd>(
    command: Cn,
    state: Sn,
) where
    D: Decider<Cd, Ed, Sd, Sd>,
    CC: FallibleConverter<Cn, Cd>,
    ENC: FallibleConverter<En, Ed>,
    EDC: InfallibleConverter<Ed, En>,
    SC: InfallibleConverter<Sn, Sd>,

    requires
        CC::convert_spec(command) is None,
    ensures
        AdaptedDecider::<D, CC, ENC, EDC, SC, En, Ed, Cn, Cd, Sn, Sd>::decide_spec(command, state)
            == Seq::<En>::empty(),
{
}

/// An event the event converter cannot map is ignored: the adapter's
/// `evolve` returns the converted state unchanged rather than failing.
pub proof fn lemma_adapted_unmapped_event_keeps_state<D, CC, ENC, EDC, SC, En, Ed, Cn, Cd, Sn, Sd>(
    state: Sn,
    event: En,
) where
    D: Decider<Cd, Ed, Sd, Sd>,
    CC: FallibleConverter<Cn, Cd>,
    ENC: FallibleConverter<En, Ed>,
    EDC: InfallibleConverter<Ed, En>,
    SC: InfallibleConverter<Sn, Sd>,

    requires
        ENC::convert_spec(event) is None,
    ensures
        AdaptedDecider::<D, CC, ENC, EDC, SC, En, Ed, Cn, Cd, Sn, Sd>::evolve_spec(state, event)
            == SC::convert_spec(state),
{
}

/// A state value that acts as a function from `I` to `O`.
///
/// [`AppliedDecider`] needs a decider whose produced state can be applied to
/// another decider's state. A bare function pointer carries no
/// specification, so the function-valued state implements this trait
/// instead: `transform_spec` says what applying the value means, and
/// `transform` computes exactly that.
pub trait StateTransform<I, O>: Sized {
    /// What `transform` returns for a given input. The default is an
    /// unspecified value, which promises nothing; an implementation whose
    /// contract should say something overrides it.
    open spec fn transform_spec(self, input: I) -> O {
        arbitrary()
    }

    /// Applies this state value to `input`.
    fn transform(&self, input: I) -> (output: O)
        ensures
            output == self.transform_spec(input),
    ;
}

/// Applies a decider-produced function to another decider's state.
///
/// `FD` is a decider whose produced state is itself a function value (a
/// [`StateTransform`] from `Sd` to `So`); `D` is an ordinary decider. Both
/// observe the same commands and events; `decide` concatenates their events,
/// `FD`'s first, and `evolve` applies the state `FD` produced to the state
/// `D` produced. This models a state transformation chosen dynamically by
/// one decider's own event history.
pub struct AppliedDecider<FD, D, C, E, Si, Sd, So, F> {
    function_decider: PhantomData<FD>,
    decider: PhantomData<D>,
    command: PhantomData<C>,
    event: PhantomData<E>,
    state_initial: PhantomData<Si>,
    state_decider: PhantomData<Sd>,
    state_output: PhantomData<So>,
    state_function: PhantomData<F>,
}

impl<FD, D, C, E, Si, Sd, So, F> Decider<C, E, So, Si> for AppliedDecider<
    FD,
    D,
    C,
    E,
    Si,
    Sd,
    So,
    F,
> where FD: Decider<C, E, F, Si>, D: Decider<C, E, Sd, Si>, F: StateTransform<Sd, So> {
    open spec fn decide_spec(command: C, state: Si) -> Seq<E> {
        FD::decide_spec(command, state) + D::decide_spec(command, state)
    }

    open spec fn evolve_spec(state: Si, event: E) -> So {
        FD::evolve_spec(state, event).transform_spec(D::evolve_spec(state, event))
    }

    open spec fn initial_state_spec() -> So {
        FD::initial_state_spec().transform_spec(D::initial_state_spec())
    }

    open spec fn is_terminal_spec(state: Si) -> bool {
        FD::is_terminal_spec(state) && D::is_terminal_spec(state)
    }

    fn decide(command: &C, state: &Si) -> (events: Vec<E>) {
        let mut events = FD::decide(command, state);
        let mut tail = D::decide(command, state);
        events.append(&mut tail);
        events
    }

    fn evolve(state: &Si, event: &E) -> (new_state: So) {
        let transform = FD::evolve(state, event);
        let transformed = D::evolve(state, event);
        transform.transform(transformed)
    }

    fn initial_state() -> (state: So) {
        FD::initial_state().transform(D::initial_state())
    }

    fn is_terminal(state: &Si) -> (terminal: bool) {
        FD::is_terminal(state) && D::is_terminal(state)
    }
}

/// The fan-out combination's event output is the concatenation, in order,
/// of both sub-deciders' independent outputs on identical input, the first
/// decider's events first.
pub proof fn lemma_map2_decide_concat<D1, D2, SC, C, E, Si, S1, S2, So>(
    command: C,
    state: Si,
) where D1: Decider<C, E, S1, Si>, D2: Decider<C, E, S2, Si>, SC: InfallibleConverter<(S1, S2), So>
    ensures
        Map2Deciders::<D1, D2, SC, C, E, Si, S1, S2, So>::decide_spec(command, state)
            == D1::decide_spec(command, state) + D2::decide_spec(command, state),
{
}

/// A fan-out combination is terminal exactly when both constituents are.
pub proof fn lemma_map2_terminal_conjunction<D1, D2, SC, C, E, Si, S1, S2, So>(
    state: Si,
) where D1: Decider<C, E, S1, Si>, D2: Decider<C, E, S2, Si>, SC: InfallibleConverter<(S1, S2), So>
    ensures
        Map2Deciders::<D1, D2, SC, C, E, Si, S1, S2, So>::is_terminal_spec(state)
            <==> (D1::is_terminal_spec(state) && D2::is_terminal_spec(state)),
{
}

/// An applying combination is terminal exactly when both constituents are.
pub proof fn lemma_applied_terminal_conjunction<FD, D, C, E, Si, Sd, So, F>(
    state: Si,
) where FD: Decider<C, E, F, Si>, D: Decider<C, E, Sd, Si>, F: StateTransform<Sd, So>
    ensures
        AppliedDecider::<FD, D, C, E, Si, Sd, So, F>::is_terminal_spec(state)
            <==> (FD::is_terminal_spec(state) && D::is_terminal_spec(state)),
{
}

} // verus!
