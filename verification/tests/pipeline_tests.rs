use std::cell::Cell;
use std::rc::Rc;

use tictactoe::{GameError, ValidationContext, ValidationInput, ValidationStrategy};

/// A rule that counts how often it is evaluated and then passes or fails as
/// it was told to.
struct Probe {
    fault: Option<&'static str>,
    evaluations: Rc<Cell<u32>>,
}

impl Probe {
    fn passing() -> (Probe, Rc<Cell<u32>>) {
        let evaluations = Rc::new(Cell::new(0));
        (Probe { fault: None, evaluations: evaluations.clone() }, evaluations)
    }

    fn failing(fault: &'static str) -> (Probe, Rc<Cell<u32>>) {
        let evaluations = Rc::new(Cell::new(0));
        (Probe { fault: Some(fault), evaluations: evaluations.clone() }, evaluations)
    }
}

impl ValidationStrategy for Probe {
    fn accepts(&self, _input: &ValidationInput) -> bool {
        true
    }

    fn verdict(&self, _input: &ValidationInput) -> Result<(), GameError> {
        match self.fault {
            Some(fault) => Err(GameError::Invalid(fault)),
            None => Ok(()),
        }
    }

    fn label(&self) -> &'static str {
        "Probe"
    }

    fn validate(&self, input: &ValidationInput) -> Result<(), GameError> {
        self.evaluations.set(self.evaluations.get() + 1);
        self.verdict(input)
    }

    fn name(&self) -> &'static str {
        self.label()
    }
}

#[test]
fn a_rule_behind_a_failing_rule_is_never_evaluated() {
    let (first, first_seen) = Probe::failing("first");
    let (second, second_seen) = Probe::passing();
    let context = ValidationContext::empty().add_strategy(first).add_strategy(second);
    let r = context.validate(&ValidationInput::new());
    assert!(matches!(r, Err(GameError::Invalid("first"))));
    assert_eq!(first_seen.get(), 1);
    assert_eq!(second_seen.get(), 0);
}

#[test]
fn the_first_of_two_failing_rules_decides() {
    let (first, first_seen) = Probe::failing("first");
    let (second, second_seen) = Probe::failing("second");
    let context = ValidationContext::empty().add_strategy(first).add_strategy(second);
    assert!(matches!(context.validate(&ValidationInput::new()), Err(GameError::Invalid("first"))));
    assert_eq!((first_seen.get(), second_seen.get()), (1, 0));

    let (first, first_seen) = Probe::failing("first");
    let (second, second_seen) = Probe::failing("second");
    let context = ValidationContext::empty().add_strategy(second).add_strategy(first);
    assert!(matches!(
        context.validate(&ValidationInput::new()),
        Err(GameError::Invalid("second"))
    ));
    assert_eq!((first_seen.get(), second_seen.get()), (0, 1));
}

#[test]
fn rules_run_in_insertion_order_up_to_the_first_failure() {
    let (a, a_seen) = Probe::passing();
    let (b, b_seen) = Probe::passing();
    let (c, c_seen) = Probe::failing("third");
    let (d, d_seen) = Probe::passing();
    let (e, e_seen) = Probe::failing("fifth");
    let context = ValidationContext::empty()
        .add_strategy(a)
        .add_strategy(b)
        .add_strategy(c)
        .add_strategy(d)
        .add_strategy(e);
    assert_eq!(context.strategy_count(), 5);
    let r = context.validate(&ValidationInput::new());
    assert!(matches!(r, Err(GameError::Invalid("third"))));
    assert_eq!(
        [a_seen.get(), b_seen.get(), c_seen.get(), d_seen.get(), e_seen.get()],
        [1, 1, 1, 0, 0]
    );
}

#[test]
fn every_rule_is_evaluated_once_when_all_pass() {
    let (a, a_seen) = Probe::passing();
    let (b, b_seen) = Probe::passing();
    let (c, c_seen) = Probe::passing();
    let context = ValidationContext::empty().add_strategy(a).add_strategy(b).add_strategy(c);
    assert!(context.validate(&ValidationInput::new()).is_ok());
    assert_eq!([a_seen.get(), b_seen.get(), c_seen.get()], [1, 1, 1]);
    assert_eq!(context.strategy_names(), vec!["Probe", "Probe", "Probe"]);
}

#[test]
fn a_probe_can_stand_beside_the_rules_of_the_engine() {
    let (probe, seen) = Probe::passing();
    let (never, never_seen) = Probe::passing();
    let context = ValidationContext::new()
        .add_strategy(Box::new(probe))
        .add_strategy(Box::new(tictactoe::BoundsValidationStrategy))
        .add_strategy(Box::new(never));
    // No positions are given, so the bounds rule fails and the last probe
    // is not reached.
    let r = context.validate(&ValidationInput::new());
    assert!(matches!(r, Err(GameError::Invalid("coordinates required for bounds validation"))));
    assert_eq!((seen.get(), never_seen.get()), (1, 0));
    assert_eq!(context.strategy_names(), vec!["Probe", "BoundsValidation", "Probe"]);
}

#[test]
fn an_empty_pipeline_of_any_rule_type_passes() {
    let context: ValidationContext<Probe> = ValidationContext::empty();
    assert_eq!(context.strategy_count(), 0);
    assert!(context.validate(&ValidationInput::new()).is_ok());
}
