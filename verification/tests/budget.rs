use wasm_component_middleware::{charge, ArgumentValue, Arguments, Budget, Call, Direction, Layer};

#[test]
fn quantities_are_counted_independently_per_key() {
    let budget = Budget::new(5, |call: &Call<'_>| {
        call.args
            .get("bytes")
            .and_then(ArgumentValue::as_u64)
            .map(|quantity| (call.function.to_owned(), quantity))
    });
    let mut state = ();
    let args = Arguments::new().with("bytes", 3_u64);
    let alpha = Call::new(1, Direction::Import, "alpha").with_args(&args);
    let beta = Call::new(2, Direction::Import, "beta").with_args(&args);

    assert!(Layer::before(&budget, &mut state, &alpha).is_ok());
    assert!(Layer::before(&budget, &mut state, &alpha).is_err());
    assert!(Layer::before(&budget, &mut state, &beta).is_ok());
}

#[test]
fn a_saturated_counter_refuses_more_usage() {
    let budget = Budget::new(u64::MAX, |_call: &Call<'_>| Some(((), u64::MAX)));
    let mut state = ();
    let call = Call::new(1, Direction::Import, "bytes");

    assert!(Layer::before(&budget, &mut state, &call).is_ok());
    assert!(Layer::before(&budget, &mut state, &call).is_err());
}

#[test]
fn a_refusal_names_the_exhausted_budget_and_consumes_nothing() {
    let budget = Budget::new(4, |_call: &Call<'_>| Some((7_u32, 3)));
    let mut state = ();
    let call = Call::new(1, Direction::Import, "write");

    assert!(Layer::before(&budget, &mut state, &call).is_ok());
    let denied = Layer::before(&budget, &mut state, &call).unwrap_err();
    assert_eq!(denied.reason(), "budget exhausted");
    assert_eq!(budget.limit(), 4);
}

#[test]
fn unselected_calls_and_zero_quantities_are_always_allowed() {
    let budget = Budget::new(0, |call: &Call<'_>| {
        if call.function == "free" {
            None
        } else {
            Some(((), 0))
        }
    });
    let mut state = ();

    for _ in 0..3 {
        assert!(Layer::before(&budget, &mut state, &Call::new(1, Direction::Import, "free")).is_ok());
        assert!(Layer::before(&budget, &mut state, &Call::new(2, Direction::Import, "zero")).is_ok());
    }
}

#[test]
fn charge_follows_the_saturating_rule() {
    assert_eq!(charge(0, 3, 5), Some(3));
    assert_eq!(charge(3, 2, 5), Some(5));
    assert_eq!(charge(3, 3, 5), None);
    assert_eq!(charge(5, 0, 5), Some(5));
    assert_eq!(charge(5, 1, 5), None);
    assert_eq!(charge(1, u64::MAX, u64::MAX), Some(u64::MAX));
    assert_eq!(charge(u64::MAX, u64::MAX, u64::MAX), None);
}

#[test]
fn a_key_can_be_charged_up_to_its_limit_in_parts() {
    let budget = Budget::new(10, |call: &Call<'_>| {
        call.args.get("n").and_then(ArgumentValue::as_u64).map(|n| ("key", n))
    });
    let mut state = ();
    let four = Arguments::new().with("n", 4_u64);
    let two = Arguments::new().with("n", 2_u64);
    let call_four = Call::new(1, Direction::Import, "f").with_args(&four);
    let call_two = Call::new(2, Direction::Import, "f").with_args(&two);

    assert!(Layer::before(&budget, &mut state, &call_four).is_ok());
    assert!(Layer::before(&budget, &mut state, &call_four).is_ok());
    assert!(Layer::before(&budget, &mut state, &call_four).is_err());
    assert!(Layer::before(&budget, &mut state, &call_two).is_ok());
    assert!(Layer::before(&budget, &mut state, &call_two).is_err());
}
