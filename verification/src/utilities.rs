//! Shared building blocks: the `Either` tagged union, the two converter
//! contracts used by the adapting combinators, and the in-memory runner that
//! owns a decider's state and feeds commands through it.

use vstd::prelude::*;

use core::marker::PhantomData;

use crate::deciders::Decider;

verus! {

/// One of two types, as in the functional languages' `Either`.
///
/// The parallel composition of two deciders uses it to tag commands and
/// events with the side they belong to.
#[derive(Copy, Clone, Debug, PartialEq)]
pub enum Either<L, R> {
    /// A value of the left type, `L`.
    Left(L),
    /// A value of the right type, `R`.
    Right(R),
}

/// A conversion from `I` to `O` that may fail by returning `None`.
///
/// Adapters use it where the outer command or event space is a strict
/// superset of the wrapped decider's space: an input with no counterpart
/// converts to `None`, and the adapter treats the operation as a no-op.
pub trait FallibleConverter<I, O> {
    /// What `convert` returns for a given input. The default is an
    /// unspecified value, which promises nothing; an implementation whose
    /// contract should say something overrides it.
    open spec fn convert_spec(input: I) -> Option<O> {
        arbitrary()
    }

    /// Converts the input of type `I` into an optional output of type `O`.
    fn convert(input: &I) -> (output: Option<O>)
        ensures
            output == Self::convert_spec(*input),
    ;
}

/// A conversion from `I` to `O` that always succeeds.
///
/// Used for state projections and for turning a wrapped decider's native
/// events into an adapter's outward event type.
pub trait InfallibleConverter<I, O> {
    /// What `convert` returns for a given input. The default is an
    /// unspecified value, which promises nothing; an implementation whose
    /// contract should say something overrides it.
    open spec fn convert_spec(input: I) -> O {
        arbitrary()
    }

    /// Converts the input of type `I` into an output of type `O`.
    fn convert(input: &I) -> (output: O)
        ensures
            output == Self::convert_spec(*input),
    ;
}

/// The state reached by folding `events` into `state`, left to right,
/// through `D`'s evolution.
pub open spec fn fold_events<C, E, S, D>(state: S, events: Seq<E>) -> S where
    D: Decider<C, E, S, S>,

    decreases events.len(),
{
    if events.len() == 0 {
        state
    } else {
        D::evolve_spec(fold_events::<C, E, S, D>(state, events.drop_last()), events.last())
    }
}

/// Folding is deterministic: the same event sequence folded into the same
/// starting state always yields the same resulting state. Evolution is a
/// pure function of state and event, with no hidden inputs.
pub proof fn lemma_fold_events_deterministic<C, E, S, D>(
    state1: S,
    state2: S,
    events1: Seq<E>,
    events2: Seq<E>,
) where D: Decider<C, E, S, S>
    requires
        state1 == state2,
        events1 == events2,
    ensures
        fold_events::<C, E, S, D>(state1, events1) == fold_events::<C, E, S, D>(state2, events2),
{
}

/// Folding a concatenation folds the first part, then the second: replaying
/// one event log in two sittings reaches the same state as replaying it in
/// one.
pub proof fn lemma_fold_events_concat<C, E, S, D>(state: S, first: Seq<E>, second: Seq<E>) where
    D: Decider<C, E, S, S>

    ensures
        fold_events::<C, E, S, D>(state, first + second) == fold_events::<C, E, S, D>(
            fold_events::<C, E, S, D>(state, first),
            second,
        ),
    decreases second.len(),
{
    if second.len() == 0 {
        assert(first + second =~= first);
    } else {
        lemma_fold_events_concat::<C, E, S, D>(state, first, second.drop_last());
        assert((first + second).drop_last() =~= first + second.drop_last());
        assert((first + second).last() == second.last());
    }
}

/// Owns a decider's current state and mediates command submission.
///
/// The runner takes in commands, returns the events each command generates,
/// and folds those events back into its state, freeing the caller from
/// keeping track of the state. There is no undo: once events are folded,
/// the prior state is gone unless the caller retained it.
pub struct InMemoryRunner<C, E, S, D> {
    state: S,
    command: PhantomData<C>,
    event: PhantomData<E>,
    decider: PhantomData<D>,
}

impl<C, E, S, D> InMemoryRunner<C, E, S, D> where D: Decider<C, E, S, S> {
    /// The state this runner currently holds.
    pub closed spec fn state_spec(&self) -> S {
        self.state
    }

    /// Constructs a new runner, initializing the state to the decider's
    /// initial state.
    pub fn new() -> (runner: Self)
        ensures
            runner.state_spec() == D::initial_state_spec(),
    {
        Self { state: D::initial_state(), command: PhantomData, event: PhantomData, decider: PhantomData }
    }

    /// Constructs a new runner, initializing the state to the given state,
    /// for example to resume from a retained state.
    pub fn with_state(state: S) -> (runner: Self)
        ensures
            runner.state_spec() == state,
    {
        Self { state, command: PhantomData, event: PhantomData, decider: PhantomData }
    }

    /// Feeds the given command through the decider and returns the events it
    /// generates; the events are also folded, in order, into the runner's
    /// own state.
    pub fn command(&mut self, command: &C) -> (events: Vec<E>)
        ensures
            events@ == D::decide_spec(*command, old(self).state_spec()),
            final(self).state_spec() == fold_events::<C, E, S, D>(
                old(self).state_spec(),
                events@,
            ),
    {
        let events = D::decide(command, &self.state);
        if events.len() > 0 {
            let mut folded = D::evolve(&self.state, &events[0]);
            proof {
                assert(events@.take(1).drop_last() =~= Seq::<E>::empty());
                assert(fold_events::<C, E, S, D>(self.state, Seq::<E>::empty()) == self.state);
                assert(folded == fold_events::<C, E, S, D>(self.state, events@.take(1)));
            }
            let mut i: usize = 1;
            while i < events.len()
                invariant
                    1 <= i <= events@.len(),
                    folded == fold_events::<C, E, S, D>(self.state, events@.take(i as int)),
                decreases events@.len() - i,
            {
                folded = D::evolve(&folded, &events[i]);
                i = i + 1;
                proof {
                    assert(events@.take(i as int).drop_last() =~= events@.take(i as int - 1));
                    assert(events@.take(i as int).last() == events@[i as int - 1]);
                }
            }
            proof {
                assert(events@.take(events@.len() as int) =~= events@);
            }
            self.state = folded;
        }
        events
    }

    /// Returns a reference to the current state of the decider.
    pub fn get_state(&self) -> (state: &S)
        ensures
            *state == self.state_spec(),
    {
        &self.state
    }
}

impl<C, E, S, D> Default for InMemoryRunner<C, E, S, D> where D: Decider<C, E, S, S> {
    /// The same as [`InMemoryRunner::new`]: a runner holding the decider's
    /// initial state.
    fn default() -> (runner: Self)
        ensures
            runner.state_spec() == D::initial_state_spec(),
    {
        Self::new()
    }
}

} // verus!
