use preliminaries::my_module;
use preliminaries::procedures::{
    also_noop, call_twice_delay, calls_noop, fire_the_missiles,
    increment_all_values_in_matrix_by_1, it_runs, noop, noop_implicit, noop_too, not,
    returns_false, returns_true, run_it, sequence_noops, takes_procedure,
    takes_procedure_explicit, takes_unit, use_call_twice_delay_math,
    use_call_twice_delay_procedure, uses_if, uses_module, uses_takes_procedure,
    uses_takes_unit, uses_use,
};
use preliminaries::this::is::long::nested_noop;
use std::cell::{Cell, RefCell};

#[test]
fn procedures_return_unit() {
    assert_eq!(noop(), ());
    assert_eq!(calls_noop(), ());
    assert_eq!(noop_implicit(), ());
    assert_eq!(noop_too(), ());
    assert_eq!(also_noop(), ());
    assert_eq!(takes_unit(()), ());
    assert_eq!(uses_takes_unit(), ());
    assert_eq!(uses_takes_procedure(), ());
    assert_eq!(sequence_noops(), ());
    assert_eq!(uses_module(), ());
    assert_eq!(uses_use(), ());
    assert_eq!(my_module::noop(), ());
    assert_eq!(nested_noop(), ());
    assert_eq!(fire_the_missiles(), ());
    assert_eq!(increment_all_values_in_matrix_by_1(), ());
}

#[test]
fn takes_procedure_runs_it_once() {
    let runs = Cell::new(0);
    takes_procedure(|| runs.set(runs.get() + 1));
    assert_eq!(runs.get(), 1);
    takes_procedure_explicit(|| runs.set(runs.get() + 1));
    assert_eq!(runs.get(), 2);
}

#[test]
fn call_twice_delay_keeps_the_order() {
    let steps = RefCell::new(Vec::new());
    call_twice_delay(|| steps.borrow_mut().push("f"), || steps.borrow_mut().push("delay"));
    assert_eq!(*steps.borrow(), vec!["f", "delay", "f"]);
}

#[test]
fn the_delay_sits_between_the_two_runs() {
    let delays = Cell::new(0);
    use_call_twice_delay_procedure(|| delays.set(delays.get() + 1));
    assert_eq!(delays.get(), 1);
    use_call_twice_delay_math(|| delays.set(delays.get() + 1));
    assert_eq!(delays.get(), 2);
}

#[test]
fn booleans() {
    assert!(returns_true());
    assert!(!returns_false());
    assert!(uses_if(true));
    assert!(!uses_if(false));
    assert!(!not(true));
    assert!(not(false));
}

#[test]
fn run_it_runs_only_on_a_true_answer() {
    let runs = Cell::new(0);
    run_it(|| runs.set(runs.get() + 1), false);
    assert_eq!(runs.get(), 0);
    run_it(|| runs.set(runs.get() + 1), true);
    assert_eq!(runs.get(), 1);
}

#[test]
fn it_runs_guards_the_call() {
    let runs = Cell::new(0);
    let counted_true = || {
        runs.set(runs.get() + 1);
        true
    };
    assert!(!it_runs(&counted_true, false));
    assert_eq!(runs.get(), 0);
    assert!(it_runs(&counted_true, true));
    assert_eq!(runs.get(), 1);
    assert!(!it_runs(returns_false, true));
    assert!(it_runs(returns_true, true));
}
