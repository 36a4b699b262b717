use deciders_rs::deciders::{
    AdaptedDecider, AppliedDecider, ComposedDeciders, Decider, ManyDecider, Map2Deciders,
    NamedStates, StateTransform,
};
use deciders_rs::processes::{CombinedProcessDecider, Process};
use deciders_rs::utilities::{Either, FallibleConverter, InMemoryRunner, InfallibleConverter};

#[derive(Copy, Clone, Debug, PartialEq)]
enum ToggleCommand {
    TurnOn,
    TurnOff,
}

#[derive(Copy, Clone, Debug, PartialEq)]
enum ToggleEvent {
    TurnedOn,
    TurnedOff,
}

// State is `bool`: true when on. A toggle counts as done once it is on.
struct Toggle;

impl Decider<ToggleCommand, ToggleEvent, bool, bool> for Toggle {
    fn decide(command: &ToggleCommand, state: &bool) -> Vec<ToggleEvent> {
        match (command, state) {
            (ToggleCommand::TurnOn, false) => vec![ToggleEvent::TurnedOn],
            (ToggleCommand::TurnOff, true) => vec![ToggleEvent::TurnedOff],
            _ => vec![],
        }
    }

    fn evolve(_state: &bool, event: &ToggleEvent) -> bool {
        matches!(event, ToggleEvent::TurnedOn)
    }

    fn initial_state() -> bool {
        false
    }

    fn is_terminal(state: &bool) -> bool {
        *state
    }
}

fn replay<C, E, S, D>(events: &[E]) -> S
where
    D: Decider<C, E, S, S>,
{
    let mut state = D::initial_state();
    for event in events {
        state = D::evolve(&state, event);
    }
    state
}

#[test]
fn replay_is_deterministic() {
    let log = [
        ToggleEvent::TurnedOn,
        ToggleEvent::TurnedOff,
        ToggleEvent::TurnedOn,
    ];
    let first = replay::<ToggleCommand, ToggleEvent, bool, Toggle>(&log);
    let second = replay::<ToggleCommand, ToggleEvent, bool, Toggle>(&log);
    assert_eq!(first, second);
    assert_eq!(first, true);
}

type TwoToggles = ComposedDeciders<
    Toggle,
    ToggleCommand,
    ToggleEvent,
    bool,
    Toggle,
    ToggleCommand,
    ToggleEvent,
    bool,
>;

#[test]
fn composed_left_keeps_right_state() {
    let state = (false, false);
    let events = TwoToggles::decide(&Either::Left(ToggleCommand::TurnOn), &state);
    assert_eq!(events, [Either::Left(ToggleEvent::TurnedOn)]);
    let mut folded = state;
    for event in &events {
        folded = TwoToggles::evolve(&folded, event);
    }
    assert_eq!(folded, (true, false));
    let after_right = TwoToggles::evolve(&state, &Either::Right(ToggleEvent::TurnedOn));
    assert_eq!(after_right, (false, true));
}

#[test]
fn composed_terminal_is_conjunction() {
    assert!(TwoToggles::is_terminal(&(true, true)));
    assert!(!TwoToggles::is_terminal(&(true, false)));
    assert!(!TwoToggles::is_terminal(&(false, true)));
    assert_eq!(TwoToggles::initial_state(), (false, false));
}

// An outward vocabulary that is wider than the toggle's own: two of the
// four events and two of the three commands have a native counterpart.
#[derive(Copy, Clone, Debug, PartialEq)]
enum OuterCommand {
    TurnOn,
    TurnOff,
    Dim,
}

#[derive(Copy, Clone, Debug, PartialEq)]
enum OuterEvent {
    TurnedOn,
    TurnedOff,
    Dimmed,
    Brightened,
}

struct OuterCommandConverter;

impl FallibleConverter<OuterCommand, ToggleCommand> for OuterCommandConverter {
    fn convert(input: &OuterCommand) -> Option<ToggleCommand> {
        match input {
            OuterCommand::TurnOn => Some(ToggleCommand::TurnOn),
            OuterCommand::TurnOff => Some(ToggleCommand::TurnOff),
            OuterCommand::Dim => None,
        }
    }
}

struct OuterEventInConverter;

impl FallibleConverter<OuterEvent, ToggleEvent> for OuterEventInConverter {
    fn convert(input: &OuterEvent) -> Option<ToggleEvent> {
        match input {
            OuterEvent::TurnedOn => Some(ToggleEvent::TurnedOn),
            OuterEvent::TurnedOff => Some(ToggleEvent::TurnedOff),
            OuterEvent::Dimmed | OuterEvent::Brightened => None,
        }
    }
}

struct OuterEventOutConverter;

impl InfallibleConverter<ToggleEvent, OuterEvent> for OuterEventOutConverter {
    fn convert(input: &ToggleEvent) -> OuterEvent {
        match input {
            ToggleEvent::TurnedOn => OuterEvent::TurnedOn,
            ToggleEvent::TurnedOff => OuterEvent::TurnedOff,
        }
    }
}

struct IdentityStateConverter;

impl InfallibleConverter<bool, bool> for IdentityStateConverter {
    fn convert(input: &bool) -> bool {
        *input
    }
}

type OuterToggle = AdaptedDecider<
    Toggle,
    OuterCommandConverter,
    OuterEventInConverter,
    OuterEventOutConverter,
    IdentityStateConverter,
    OuterEvent,
    ToggleEvent,
    OuterCommand,
    ToggleCommand,
    bool,
    bool,
>;

#[test]
fn adapter_unmapped_command_is_no_op() {
    assert_eq!(OuterToggle::decide(&OuterCommand::Dim, &false), []);
    assert_eq!(OuterToggle::decide(&OuterCommand::Dim, &true), []);
    assert_eq!(
        OuterToggle::decide(&OuterCommand::TurnOn, &false),
        [OuterEvent::TurnedOn]
    );
}

#[test]
fn adapter_unmapped_event_keeps_state() {
    assert_eq!(OuterToggle::evolve(&true, &OuterEvent::Dimmed), true);
    assert_eq!(OuterToggle::evolve(&false, &OuterEvent::Brightened), false);
    assert_eq!(OuterToggle::evolve(&false, &OuterEvent::TurnedOn), true);
    assert_eq!(OuterToggle::evolve(&true, &OuterEvent::TurnedOff), false);
}

// A second decider on the toggle's command and event types, producing a
// different state shape: the last event seen, if any.
struct LastEvent;

impl Decider<ToggleCommand, ToggleEvent, Option<ToggleEvent>, bool> for LastEvent {
    fn decide(command: &ToggleCommand, state: &bool) -> Vec<ToggleEvent> {
        Toggle::decide(command, state)
    }

    fn evolve(_state: &bool, event: &ToggleEvent) -> Option<ToggleEvent> {
        Some(*event)
    }

    fn initial_state() -> Option<ToggleEvent> {
        None
    }

    fn is_terminal(_state: &bool) -> bool {
        true
    }
}

struct PairCombiner;

impl InfallibleConverter<(bool, Option<ToggleEvent>), (bool, Option<ToggleEvent>)>
    for PairCombiner
{
    fn convert(input: &(bool, Option<ToggleEvent>)) -> (bool, Option<ToggleEvent>) {
        *input
    }
}

type ToggleWithLast = Map2Deciders<
    Toggle,
    LastEvent,
    PairCombiner,
    ToggleCommand,
    ToggleEvent,
    bool,
    bool,
    Option<ToggleEvent>,
    (bool, Option<ToggleEvent>),
>;

#[test]
fn map2_decide_concatenates_in_order() {
    assert_eq!(
        ToggleWithLast::decide(&ToggleCommand::TurnOn, &false),
        [ToggleEvent::TurnedOn, ToggleEvent::TurnedOn]
    );
    assert_eq!(ToggleWithLast::decide(&ToggleCommand::TurnOn, &true), []);
    assert_eq!(
        ToggleWithLast::evolve(&false, &ToggleEvent::TurnedOn),
        (true, Some(ToggleEvent::TurnedOn))
    );
    assert_eq!(ToggleWithLast::initial_state(), (false, None));
}

#[test]
fn map2_terminal_is_conjunction() {
    // `LastEvent` is always terminal, so the combination follows `Toggle`.
    assert!(ToggleWithLast::is_terminal(&true));
    assert!(!ToggleWithLast::is_terminal(&false));
}

// A state value that acts as a function: adds a bias to the toggle's state
// read as 0 or 1.
#[derive(Copy, Clone, Debug, PartialEq)]
struct AddBias {
    bias: u8,
}

impl StateTransform<bool, u8> for AddBias {
    fn transform(&self, input: bool) -> u8 {
        self.bias + if input { 1 } else { 0 }
    }
}

// A decider whose produced state is the bias to apply: 10 once anything
// has been turned on, 0 otherwise.
struct BiasDecider;

impl Decider<ToggleCommand, ToggleEvent, AddBias, bool> for BiasDecider {
    fn decide(_command: &ToggleCommand, _state: &bool) -> Vec<ToggleEvent> {
        vec![]
    }

    fn evolve(_state: &bool, event: &ToggleEvent) -> AddBias {
        match event {
            ToggleEvent::TurnedOn => AddBias { bias: 10 },
            ToggleEvent::TurnedOff => AddBias { bias: 0 },
        }
    }

    fn initial_state() -> AddBias {
        AddBias { bias: 0 }
    }

    fn is_terminal(_state: &bool) -> bool {
        true
    }
}

type BiasedToggle = AppliedDecider<
    BiasDecider,
    Toggle,
    ToggleCommand,
    ToggleEvent,
    bool,
    bool,
    u8,
    AddBias,
>;

#[test]
fn applied_decider_applies_produced_function() {
    assert_eq!(BiasedToggle::initial_state(), 0);
    assert_eq!(BiasedToggle::evolve(&false, &ToggleEvent::TurnedOn), 11);
    assert_eq!(BiasedToggle::evolve(&true, &ToggleEvent::TurnedOff), 0);
    assert_eq!(
        BiasedToggle::decide(&ToggleCommand::TurnOn, &false),
        [ToggleEvent::TurnedOn]
    );
    // `BiasDecider` is always terminal, so the combination follows `Toggle`.
    assert!(BiasedToggle::is_terminal(&true));
    assert!(!BiasedToggle::is_terminal(&false));
}

type ManyToggles = ManyDecider<Toggle, ToggleCommand, ToggleEvent, bool>;

#[test]
fn many_terminal_is_conjunction_over_instances() {
    let empty = ManyToggles::initial_state();
    assert!(ManyToggles::is_terminal(&empty));
    let one_on = ManyToggles::evolve(&empty, &("porch".to_string(), ToggleEvent::TurnedOn));
    assert!(ManyToggles::is_terminal(&one_on));
    let one_off = ManyToggles::evolve(&one_on, &("garage".to_string(), ToggleEvent::TurnedOff));
    assert!(!ManyToggles::is_terminal(&one_off));
    let back_on = ManyToggles::evolve(&one_off, &("garage".to_string(), ToggleEvent::TurnedOn));
    assert!(ManyToggles::is_terminal(&back_on));
}

#[test]
fn many_unseen_name_acts_fresh() {
    let empty: NamedStates<bool> = ManyToggles::initial_state();
    let after = ManyToggles::evolve(&empty, &("porch".to_string(), ToggleEvent::TurnedOn));
    // A name never seen before dispatches against the fresh initial state,
    // whatever the other instances have done.
    assert_eq!(
        ManyToggles::decide(&("garage".to_string(), ToggleCommand::TurnOn), &after),
        [("garage".to_string(), ToggleEvent::TurnedOn)]
    );
    // The tracked instance itself is already on, so the same command is a
    // no-op for it.
    assert_eq!(
        ManyToggles::decide(&("porch".to_string(), ToggleCommand::TurnOn), &after),
        []
    );
}

// A process that wants a freshly turned-on toggle turned off again.
struct Blink;

impl Process<ToggleEvent, ToggleCommand, bool> for Blink {
    fn evolve(_state: &bool, event: &ToggleEvent) -> bool {
        matches!(event, ToggleEvent::TurnedOn)
    }

    fn resume(state: &bool) -> Vec<ToggleCommand> {
        if *state {
            vec![ToggleCommand::TurnOff]
        } else {
            vec![]
        }
    }

    fn react(_state: &bool, event: &ToggleEvent) -> Vec<ToggleCommand> {
        match event {
            ToggleEvent::TurnedOn => vec![ToggleCommand::TurnOff],
            ToggleEvent::TurnedOff => vec![],
        }
    }

    fn initial_state() -> bool {
        false
    }

    fn is_terminal(state: &bool) -> bool {
        !*state
    }
}

type BlinkingToggle =
    CombinedProcessDecider<Blink, Toggle, ToggleEvent, ToggleCommand, bool, bool>;

#[test]
fn combined_process_decider_pairs_both() {
    assert_eq!(BlinkingToggle::initial_state(), (false, false));
    // Only the decider decides.
    assert_eq!(
        BlinkingToggle::decide(&ToggleCommand::TurnOn, &(false, false)),
        [ToggleEvent::TurnedOn]
    );
    // Both halves fold the same event independently.
    assert_eq!(
        BlinkingToggle::evolve(&(false, false), &ToggleEvent::TurnedOn),
        (true, true)
    );
    assert!(!BlinkingToggle::is_terminal(&(true, true)));
    assert!(BlinkingToggle::is_terminal(&(false, true)));
}

#[test]
fn combined_process_decider_surfaces_commands() {
    // The process's wishes are surfaced next to the decider contract, for
    // an external runner to feed back; nothing dispatches them by itself.
    assert_eq!(
        BlinkingToggle::react(&(false, false), &ToggleEvent::TurnedOn),
        [ToggleCommand::TurnOff]
    );
    assert_eq!(
        BlinkingToggle::react(&(false, false), &ToggleEvent::TurnedOff),
        []
    );
    assert_eq!(
        BlinkingToggle::resume(&(true, false)),
        [ToggleCommand::TurnOff]
    );
    assert_eq!(BlinkingToggle::resume(&(false, true)), []);
}

#[test]
fn runner_folds_returned_events() {
    let mut runner = InMemoryRunner::<ToggleCommand, ToggleEvent, bool, Toggle>::new();
    assert_eq!(*runner.get_state(), false);
    assert_eq!(runner.command(&ToggleCommand::TurnOn), [ToggleEvent::TurnedOn]);
    assert_eq!(*runner.get_state(), true);
    assert_eq!(runner.command(&ToggleCommand::TurnOn), []);
    assert_eq!(*runner.get_state(), true);
    assert_eq!(
        runner.command(&ToggleCommand::TurnOff),
        [ToggleEvent::TurnedOff]
    );
    assert_eq!(*runner.get_state(), false);

    let seeded = InMemoryRunner::<ToggleCommand, ToggleEvent, bool, Toggle>::with_state(true);
    assert_eq!(*seeded.get_state(), true);
}
