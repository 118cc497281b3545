use echo_core::expensive::{
    boil_water, fibonacci_sequence, make_tea, prepare_cup, prime_calculation, run_pipeline,
    settle_background, some_expensive_computation, step_delay_ms, validate_params,
    BackgroundOutcome, ExpensiveResult, TeaStep, ValidationError,
};

#[test]
fn prime_limit_one_is_rejected() {
    assert_eq!(
        validate_params(Some(1), Some(10)),
        Err(ValidationError::PrimeLimitOutOfRange)
    );
    assert!(run_pipeline(Some(1), Some(10)).is_err());
}

#[test]
fn prime_limit_two_is_accepted_with_one_prime() {
    let (_, count, _) = run_pipeline(Some(2), Some(10)).unwrap();
    assert_eq!(count, 1);
}

#[test]
fn prime_limit_upper_boundary() {
    assert!(validate_params(Some(10000), Some(10)).is_ok());
    assert_eq!(
        validate_params(Some(10001), Some(10)),
        Err(ValidationError::PrimeLimitOutOfRange)
    );
}

#[test]
fn fib_length_boundaries() {
    assert!(validate_params(Some(10), Some(2)).is_ok());
    assert!(validate_params(Some(10), Some(100)).is_ok());
    assert_eq!(
        validate_params(Some(10), Some(1)),
        Err(ValidationError::FibLengthOutOfRange)
    );
    assert_eq!(
        validate_params(Some(10), Some(101)),
        Err(ValidationError::FibLengthOutOfRange)
    );
}

#[test]
fn missing_parameters_are_required_errors() {
    assert_eq!(
        validate_params(None, Some(10)),
        Err(ValidationError::PrimeLimitRequired)
    );
    assert_eq!(
        validate_params(Some(10), None),
        Err(ValidationError::FibLengthRequired)
    );
    // The prime limit is examined first.
    assert_eq!(
        validate_params(None, None),
        Err(ValidationError::PrimeLimitRequired)
    );
}

#[test]
fn validation_error_messages() {
    assert_eq!(
        ValidationError::PrimeLimitRequired.message(),
        "Prime limit is required"
    );
    assert_eq!(
        ValidationError::PrimeLimitOutOfRange.message(),
        "Prime limit must be between 2 and 10,000"
    );
    assert_eq!(
        ValidationError::FibLengthRequired.message(),
        "Fibonacci length is required"
    );
    assert_eq!(
        ValidationError::FibLengthOutOfRange.message(),
        "Fibonacci length must be between 2 and 100"
    );
}

#[test]
fn primes_up_to_ten() {
    let primes = prime_calculation(10);
    assert_eq!(primes, vec![2, 3, 5, 7]);
    assert_eq!(primes.len(), 4);
}

#[test]
fn primes_up_to_two() {
    assert_eq!(prime_calculation(2), vec![2]);
}

#[test]
fn primes_below_two_are_none() {
    assert_eq!(prime_calculation(0), Vec::<u32>::new());
    assert_eq!(prime_calculation(1), Vec::<u32>::new());
}

#[test]
fn primes_up_to_one_hundred() {
    let primes = prime_calculation(100);
    assert_eq!(primes.len(), 25);
    assert_eq!(primes[24], 97);
}

#[test]
fn fibonacci_of_length_two_is_seed() {
    assert_eq!(fibonacci_sequence(2), vec![0, 1]);
}

#[test]
fn fibonacci_tenth_term_is_thirty_four() {
    let fib = fibonacci_sequence(10);
    assert_eq!(fib.len(), 10);
    assert_eq!(fib[9], 34);
}

#[test]
fn fibonacci_hundredth_term_needs_wide_integers() {
    let fib = fibonacci_sequence(100);
    assert_eq!(fib[99], 218922995834555169026u128);
}

#[test]
fn pipeline_returns_counts_value_and_summary() {
    let (summary, count, value) = some_expensive_computation(10, 10);
    assert_eq!(count, 4);
    assert_eq!(value, 34);
    assert_eq!(summary, "Computed 4 primes (limit: 10), fibonacci[9] = 34");
}

#[test]
fn pipeline_value_for_length_two() {
    let (_, _, value) = some_expensive_computation(2, 2);
    assert_eq!(value, 1);
}

#[test]
fn background_failure_leaves_result_unchanged() {
    let result = some_expensive_computation(10, 10);
    let expected = (result.0.clone(), result.1, result.2);
    let settled = settle_background(result, BackgroundOutcome::Failed);
    assert_eq!(settled.0, expected.0);
    assert_eq!(settled.1, expected.1);
    assert_eq!(settled.2, expected.2);

    let again = settle_background(settled, BackgroundOutcome::Completed);
    assert_eq!(again.0, expected.0);
    assert_eq!(again.1, expected.1);
    assert_eq!(again.2, expected.2);
}

#[test]
fn tea_plan_boils_once_then_prepares_each_cup() {
    let plan = make_tea(2);
    let mut expected = boil_water();
    expected.extend(prepare_cup());
    expected.extend(prepare_cup());
    assert_eq!(plan, expected);
    assert_eq!(
        plan,
        vec![
            TeaStep::PrepareKettle,
            TeaStep::TurnOnKettle,
            TeaStep::WaitForWater,
            TeaStep::PlaceTea,
            TeaStep::PourWater,
            TeaStep::AddMilk,
            TeaStep::StirTea,
            TeaStep::PlaceTea,
            TeaStep::PourWater,
            TeaStep::AddMilk,
            TeaStep::StirTea,
        ]
    );
}

#[test]
fn tea_plan_with_no_cups_only_boils() {
    assert_eq!(make_tea(0), boil_water());
}

#[test]
fn tea_stage_delays() {
    assert_eq!(step_delay_ms(TeaStep::PrepareKettle), 100);
    assert_eq!(step_delay_ms(TeaStep::TurnOnKettle), 50);
    assert_eq!(step_delay_ms(TeaStep::WaitForWater), 200);
    assert_eq!(step_delay_ms(TeaStep::PlaceTea), 30);
    assert_eq!(step_delay_ms(TeaStep::PourWater), 20);
    assert_eq!(step_delay_ms(TeaStep::AddMilk), 10);
    assert_eq!(step_delay_ms(TeaStep::StirTea), 10);
}

#[test]
fn expensive_result_envelope_carries_everything() {
    let outcome = some_expensive_computation(10, 10);
    let summary = outcome.0.clone();
    let envelope = ExpensiveResult::new("box".to_string(), 10, 10, outcome, 42);
    assert_eq!(envelope.server, "box");
    assert_eq!(envelope.prime_limit, 10);
    assert_eq!(envelope.fib_length, 10);
    assert_eq!(envelope.computation_result, summary);
    assert_eq!(envelope.primes_count, 4);
    assert_eq!(envelope.fibonacci_value, 34);
    assert_eq!(envelope.execution_time_ms, 42);
}
