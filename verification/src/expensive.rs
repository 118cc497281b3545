//! The computation pipeline behind the expensive endpoint: parameter
//! validation, prime counting, Fibonacci generation, the simulated background
//! workflow, and the isolation of its failures from the primary result.

use crate::decimal::{dec_rep, u128_to_decimal, u32_to_decimal, usize_to_decimal};
use vstd::prelude::*;
use vstd::arithmetic::div_mod::{lemma_fundamental_div_mod, lemma_mod_multiples_basic};
use vstd::arithmetic::power2::{pow2, lemma_pow2_adds, lemma2_to64, lemma2_to64_rest};
use vstd::string::StringExecFns;

verus! {

/// Why a computation request was rejected before any work started.
///
/// Validation precedes all computation: an out-of-range or missing parameter
/// short-circuits the pipeline with no side effects. The prime limit is
/// examined first; the Fibonacci length only once the prime limit is valid.
#[derive(Clone, Copy, Debug, PartialEq, Eq, Structural)]
pub enum ValidationError {
    PrimeLimitRequired,
    PrimeLimitOutOfRange,
    FibLengthRequired,
    FibLengthOutOfRange,
}

impl ValidationError {
    /// The human-readable reason surfaced to clients.
    pub fn message(&self) -> (s: String)
        ensures
            self is PrimeLimitRequired ==> s@ == "Prime limit is required"@,
            self is PrimeLimitOutOfRange ==> s@ == "Prime limit must be between 2 and 10,000"@,
            self is FibLengthRequired ==> s@ == "Fibonacci length is required"@,
            self is FibLengthOutOfRange ==> s@ == "Fibonacci length must be between 2 and 100"@,
    {
        match self {
            ValidationError::PrimeLimitRequired => String::from_str("Prime limit is required"),
            ValidationError::PrimeLimitOutOfRange => {
                String::from_str("Prime limit must be between 2 and 10,000")
            },
            ValidationError::FibLengthRequired => String::from_str("Fibonacci length is required"),
            ValidationError::FibLengthOutOfRange => {
                String::from_str("Fibonacci length must be between 2 and 100")
            },
        }
    }
}

/// Whether a prime limit is inside the accepted range.
pub open spec fn prime_limit_valid(p: u32) -> bool {
    2 <= p <= 10000
}

/// Whether a Fibonacci length is inside the accepted range.
pub open spec fn fib_length_valid(f: u32) -> bool {
    2 <= f <= 100
}

/// Whether a prime limit is present and in range.
pub open spec fn prime_limit_ok(prime_limit: Option<u32>) -> bool {
    match prime_limit {
        Some(p) => prime_limit_valid(p),
        None => false,
    }
}

/// Whether a Fibonacci length is present and in range.
pub open spec fn fib_length_ok(fib_length: Option<u32>) -> bool {
    match fib_length {
        Some(f) => fib_length_valid(f),
        None => false,
    }
}

/// Checks both request parameters before any computation starts.
///
/// Returns the pair exactly when both parameters are present and in range,
/// and otherwise the first failure in examination order: the prime limit
/// (missing, then out of range), then the Fibonacci length.
pub fn validate_params(prime_limit: Option<u32>, fib_length: Option<u32>) -> (r: Result<
    (u32, u32),
    ValidationError,
>)
    ensures
        match r {
            Ok(pf) => {
                &&& prime_limit == Some(pf.0)
                &&& fib_length == Some(pf.1)
                &&& prime_limit_valid(pf.0)
                &&& fib_length_valid(pf.1)
            },
            Err(e) => {
                &&& (e is PrimeLimitRequired <==> prime_limit is None)
                &&& (e is PrimeLimitOutOfRange <==> (prime_limit is Some
                    && !prime_limit_ok(prime_limit)))
                &&& (e is FibLengthRequired <==> (prime_limit_ok(prime_limit)
                    && fib_length is None))
                &&& (e is FibLengthOutOfRange <==> (prime_limit_ok(prime_limit)
                    && fib_length is Some && !fib_length_ok(fib_length)))
            },
        },
{
    let p = match prime_limit {
        None => {
            return Err(ValidationError::PrimeLimitRequired);
        },
        Some(p) => p,
    };
    if p < 2 || p > 10000 {
        return Err(ValidationError::PrimeLimitOutOfRange);
    }
    let f = match fib_length {
        None => {
            return Err(ValidationError::FibLengthRequired);
        },
        Some(f) => f,
    };
    if f < 2 || f > 100 {
        return Err(ValidationError::FibLengthOutOfRange);
    }
    Ok((p, f))
}

/// Whether `factor` evenly divides `candidate`.
pub open spec fn divides(factor: nat, candidate: nat) -> bool {
    candidate % factor == 0
}

/// A natural number of at least 2 with no divisor strictly between 1 and itself.
pub open spec fn is_prime(candidate: nat) -> bool {
    &&& 2 <= candidate
    &&& forall|factor: nat| 1 < factor < candidate ==> !divides(factor, candidate)
}

/// How many primes lie in the interval [2, limit].
pub open spec fn count_primes_upto(limit: nat) -> nat
    decreases limit,
{
    if limit < 2 {
        0
    } else {
        count_primes_upto((limit - 1) as nat) + if is_prime(limit) {
            1nat
        } else {
            0nat
        }
    }
}

/// Trial division only has to test divisors up to the square root: a number
/// with no divisor `d` satisfying `d * d <= n` is prime, because any proper
/// divisor pairs with a cofactor and the smaller of the two is at most the
/// square root.
proof fn lemma_trial_division_sound(n: nat)
    requires
        2 <= n,
        forall|d: nat| 2 <= d && d * d <= n ==> #[trigger] (n % d) != 0,
    ensures
        is_prime(n),
{
    assert forall|f: nat| 1 < f < n implies !divides(f, n) by {
        if divides(f, n) {
            let q = n / f;
            lemma_fundamental_div_mod(n as int, f as int);
            assert(n == f * q);
            assert(2 <= q) by (nonlinear_arith)
                requires
                    n == f * q,
                    1 < f < n,
            ;
            if f * f <= n {
                assert(n % f != 0);
            } else {
                assert(q * q <= n) by (nonlinear_arith)
                    requires
                        n == f * q,
                        f * f > n,
                        1 <= q,
                ;
                assert(n % q == 0) by {
                    lemma_mod_multiples_basic(f as int, q as int);
                }
            }
        }
    }
}

/// Checks primality of `num` by trial division up to the square root.
fn is_prime_exec(num: u32) -> (r: bool)
    requires
        2 <= num <= 10000,
    ensures
        r == is_prime(num as nat),
{
    let mut d: u32 = 2;
    while d * d <= num
        invariant
            2 <= d <= 101,
            d * d <= 10201,
            2 <= num <= 10000,
            forall|dd: nat| 2 <= dd < d ==> #[trigger] ((num as nat) % dd) != 0,
        decreases 102 - d,
    {
        if num % d == 0 {
            assert(d < num) by (nonlinear_arith)
                requires
                    2 <= d,
                    d * d <= num,
            ;
            assert(divides(d as nat, num as nat));
            return false;
        }
        d = d + 1;
        assert(d <= 101 && d * d <= 10201) by (nonlinear_arith)
            requires
                (d - 1) * (d - 1) <= num <= 10000,
                2 <= d,
        ;
    }
    assert forall|dd: nat| 2 <= dd && dd * dd <= num implies #[trigger] ((num as nat) % dd)
        != 0 by {
        if dd >= d {
            assert(dd * dd >= d * d) by (nonlinear_arith)
                requires
                    dd >= d >= 0,
            ;
        }
    }
    proof {
        lemma_trial_division_sound(num as nat);
    }
    true
}

/// Collects, in increasing order, every prime in `[2, limit]` by trial
/// division. This is the synthetic load generator behind the expensive
/// endpoint; the count of the collected primes is the reported result.
pub fn prime_calculation(limit: u32) -> (primes: Vec<u32>)
    requires
        limit <= 10000,
    ensures
        primes@.len() == count_primes_upto(limit as nat),
        forall|i: int|
            0 <= i < primes@.len() ==> is_prime(#[trigger] primes@[i] as nat) && 2 <= primes@[i]
                <= limit,
        forall|p: u32| 2 <= p <= limit && is_prime(p as nat) ==> primes@.contains(p),
        forall|i: int, j: int| 0 <= i < j < primes@.len() ==> primes@[i] < primes@[j],
{
    let mut primes: Vec<u32> = Vec::new();
    if limit < 2 {
        return primes;
    }
    let mut num: u32 = 2;
    while num <= limit
        invariant
            2 <= num <= limit + 1,
            2 <= limit <= 10000,
            primes@.len() == count_primes_upto((num - 1) as nat),
            forall|i: int|
                0 <= i < primes@.len() ==> is_prime(#[trigger] primes@[i] as nat) && 2 <= primes@[i]
                    < num,
            forall|p: u32| 2 <= p < num && is_prime(p as nat) ==> primes@.contains(p),
            forall|i: int, j: int| 0 <= i < j < primes@.len() ==> primes@[i] < primes@[j],
        decreases limit + 1 - num,
    {
        let ghost old_primes = primes@;
        if is_prime_exec(num) {
            primes.push(num);
        }
        assert forall|p: u32| 2 <= p < num + 1 && is_prime(p as nat) implies primes@.contains(
            p,
        ) by {
            if p < num {
                let i = choose|i: int| 0 <= i < old_primes.len() && old_primes[i] == p;
                assert(primes@[i] == p);
            } else {
                assert(primes@[primes@.len() - 1] == p);
            }
        }
        num = num + 1;
    }
    primes
}

/// The Fibonacci sequence from seed [0, 1]: `fibo(i) = fibo(i-1) + fibo(i-2)`.
pub open spec fn fibo(n: nat) -> nat
    decreases n,
{
    if n == 0 {
        0
    } else if n == 1 {
        1
    } else {
        fibo((n - 2) as nat) + fibo((n - 1) as nat)
    }
}

/// The Fibonacci sequence never decreases.
proof fn lemma_fibo_monotonic(i: nat, j: nat)
    requires
        i <= j,
    ensures
        fibo(i) <= fibo(j),
    decreases j - i,
{
    if j < 2 || i == j {
    } else if i == j - 1 {
    } else {
        lemma_fibo_monotonic(i, (j - 1) as nat);
        lemma_fibo_monotonic(i, (j - 2) as nat);
    }
}

/// Every Fibonacci number is below the matching power of two.
proof fn lemma_fibo_below_pow2(n: nat)
    ensures
        fibo(n) < pow2(n),
    decreases n,
{
    lemma2_to64();
    if n >= 2 {
        lemma_fibo_below_pow2((n - 1) as nat);
        lemma_fibo_below_pow2((n - 2) as nat);
        lemma_pow2_adds(1, (n - 1) as nat);
        lemma_pow2_adds(1, (n - 2) as nat);
    }
}

/// The first 100 Fibonacci terms all fit in a 128-bit unsigned integer.
proof fn lemma_fibo_fits_u128(n: nat)
    requires
        n <= 99,
    ensures
        fibo(n) < u128::MAX,
{
    lemma_fibo_monotonic(n, 99);
    lemma_fibo_below_pow2(99);
    lemma_pow2_adds(64, 35);
    lemma2_to64();
    lemma2_to64_rest();
}

/// Generates the Fibonacci sequence of length `n` from seed [0, 1], exactly
/// as wide as needed: the hundredth term exceeds the 64-bit range, so terms
/// are 128-bit.
pub fn fibonacci_sequence(n: u32) -> (fib: Vec<u128>)
    requires
        2 <= n <= 100,
    ensures
        fib@.len() == n,
        forall|i: int| 0 <= i < n ==> fib@[i] == fibo(i as nat),
{
    let mut fib: Vec<u128> = Vec::new();
    fib.push(0);
    fib.push(1);
    let mut i: u32 = 2;
    while i < n
        invariant
            2 <= i <= n <= 100,
            fib@.len() == i,
            forall|j: int| 0 <= j < i ==> fib@[j] == fibo(j as nat),
        decreases n - i,
    {
        proof {
            lemma_fibo_fits_u128(i as nat);
        }
        let next: u128 = fib[(i - 1) as usize] + fib[(i - 2) as usize];
        fib.push(next);
        i = i + 1;
    }
    fib
}

/// The one-line summary of a pipeline run.
pub open spec fn summary_chars(
    primes_count: nat,
    prime_limit: nat,
    fib_index: nat,
    fib_value: nat,
) -> Seq<char> {
    "Computed "@ + dec_rep(primes_count) + " primes (limit: "@ + dec_rep(prime_limit)
        + "), fibonacci["@ + dec_rep(fib_index) + "] = "@ + dec_rep(fib_value)
}

/// Renders the summary line for a finished pipeline run.
fn render_summary(primes_count: usize, prime_limit: u32, fib_index: u32, fib_value: u128) -> (s:
    String)
    ensures
        s@ == summary_chars(
            primes_count as nat,
            prime_limit as nat,
            fib_index as nat,
            fib_value as nat,
        ),
{
    let mut s = String::from_str("Computed ");
    let count_text = usize_to_decimal(primes_count);
    s.append(count_text.as_str());
    s.append(" primes (limit: ");
    let limit_text = u32_to_decimal(prime_limit);
    s.append(limit_text.as_str());
    s.append("), fibonacci[");
    let index_text = u32_to_decimal(fib_index);
    s.append(index_text.as_str());
    s.append("] = ");
    let value_text = u128_to_decimal(fib_value);
    s.append(value_text.as_str());
    proof {
        assert(s@ =~= summary_chars(
            primes_count as nat,
            prime_limit as nat,
            fib_index as nat,
            fib_value as nat,
        ));
    }
    s
}

/// Runs the sequential pipeline steps for validated parameters: collect the
/// primes, generate the Fibonacci sequence, and summarize. The reported
/// Fibonacci value is the term at index `fib_length - 1`; the sequence is
/// never indexed out of range (the value defaults to zero rather than that).
pub fn some_expensive_computation(prime_limit: u32, fib_length: u32) -> (r: (String, usize, u128))
    requires
        prime_limit_valid(prime_limit),
        fib_length_valid(fib_length),
    ensures
        r.1 == count_primes_upto(prime_limit as nat),
        r.2 == fibo((fib_length - 1) as nat),
        r.0@ == summary_chars(
            r.1 as nat,
            prime_limit as nat,
            (fib_length - 1) as nat,
            r.2 as nat,
        ),
{
    let primes = prime_calculation(prime_limit);
    let fibonacci = fibonacci_sequence(fib_length);
    let fib_index = (fib_length - 1) as usize;
    let fib_value: u128 = if fib_index < fibonacci.len() {
        fibonacci[fib_index]
    } else {
        0
    };
    let count = primes.len();
    let summary = render_summary(count, prime_limit, fib_length - 1, fib_value);
    (summary, count, fib_value)
}

/// Validates, then runs, one computation request: the contract of the
/// expensive endpoint. Validation precedes all computation, and a validation
/// failure short-circuits with no work done.
pub fn run_pipeline(prime_limit: Option<u32>, fib_length: Option<u32>) -> (r: Result<
    (String, usize, u128),
    ValidationError,
>)
    ensures
        r is Ok <==> prime_limit_ok(prime_limit) && fib_length_ok(fib_length),
        match r {
            Ok(out) => {
                &&& out.1 == count_primes_upto(prime_limit->0 as nat)
                &&& out.2 == fibo((fib_length->0 - 1) as nat)
                &&& out.0@ == summary_chars(
                    out.1 as nat,
                    prime_limit->0 as nat,
                    (fib_length->0 - 1) as nat,
                    out.2 as nat,
                )
            },
            Err(e) => {
                &&& (e is PrimeLimitRequired <==> prime_limit is None)
                &&& (e is PrimeLimitOutOfRange <==> (prime_limit is Some
                    && !prime_limit_ok(prime_limit)))
                &&& (e is FibLengthRequired <==> (prime_limit_ok(prime_limit)
                    && fib_length is None))
                &&& (e is FibLengthOutOfRange <==> (prime_limit_ok(prime_limit)
                    && fib_length is Some && !fib_length_ok(fib_length)))
            },
        },
{
    let (p, f) = match validate_params(prime_limit, fib_length) {
        Ok(pf) => pf,
        Err(e) => {
            return Err(e);
        },
    };
    Ok(some_expensive_computation(p, f))
}

/// How the simulated background workflow ended, as observed at the join
/// point where the pipeline awaits it.
#[derive(Clone, Copy, Debug, PartialEq, Eq, Structural)]
pub enum BackgroundOutcome {
    Completed,
    Failed,
}

/// Settling the primary result against the background outcome changes
/// nothing: the background task's only observable effect is its log trace.
pub open spec fn spec_settle(
    result: (Seq<char>, nat, nat),
    background: BackgroundOutcome,
) -> (Seq<char>, nat, nat) {
    result
}

/// Joins the simulated background workflow into the pipeline: a failure is
/// noted and swallowed, and the primary computation result passes through
/// untouched.
pub fn settle_background(result: (String, usize, u128), background: BackgroundOutcome) -> (r: (
    String,
    usize,
    u128,
))
    ensures
        r == result,
        (r.0@, r.1 as nat, r.2 as nat) == spec_settle(
            (result.0@, result.1 as nat, result.2 as nat),
            background,
        ),
{
    match background {
        BackgroundOutcome::Completed => result,
        BackgroundOutcome::Failed => result,
    }
}

/// Background task isolation: whatever the outcome of the simulated
/// background workflow, the settled pipeline result is the same.
pub proof fn lemma_background_isolation(
    result: (Seq<char>, nat, nat),
    b1: BackgroundOutcome,
    b2: BackgroundOutcome,
)
    ensures
        spec_settle(result, b1) == spec_settle(result, b2),
{
}

/// One timed stage of the simulated background workflow.
#[derive(Clone, Copy, Debug, PartialEq, Eq, Structural)]
pub enum TeaStep {
    PrepareKettle,
    TurnOnKettle,
    WaitForWater,
    PlaceTea,
    PourWater,
    AddMilk,
    StirTea,
}

/// How long each simulated stage takes, in milliseconds.
pub open spec fn spec_step_delay_ms(step: TeaStep) -> u64 {
    match step {
        TeaStep::PrepareKettle => 100,
        TeaStep::TurnOnKettle => 50,
        TeaStep::WaitForWater => 200,
        TeaStep::PlaceTea => 30,
        TeaStep::PourWater => 20,
        TeaStep::AddMilk => 10,
        TeaStep::StirTea => 10,
    }
}

/// How long a simulated stage takes, in milliseconds; the shell sleeps for
/// this long in place of real work.
pub fn step_delay_ms(step: TeaStep) -> (d: u64)
    ensures
        d == spec_step_delay_ms(step),
{
    match step {
        TeaStep::PrepareKettle => 100,
        TeaStep::TurnOnKettle => 50,
        TeaStep::WaitForWater => 200,
        TeaStep::PlaceTea => 30,
        TeaStep::PourWater => 20,
        TeaStep::AddMilk => 10,
        TeaStep::StirTea => 10,
    }
}

/// Boiling the water: prepare the kettle, turn it on, wait for the boil.
pub open spec fn spec_boil_water() -> Seq<TeaStep> {
    seq![TeaStep::PrepareKettle, TeaStep::TurnOnKettle, TeaStep::WaitForWater]
}

/// Preparing one cup: tea in, water in, milk in, stir.
pub open spec fn spec_prepare_cup() -> Seq<TeaStep> {
    seq![TeaStep::PlaceTea, TeaStep::PourWater, TeaStep::AddMilk, TeaStep::StirTea]
}

/// The whole workflow: boil the water once, then prepare each cup in turn.
pub open spec fn spec_make_tea(cups: nat) -> Seq<TeaStep>
    decreases cups,
{
    if cups == 0 {
        spec_boil_water()
    } else {
        spec_make_tea((cups - 1) as nat) + spec_prepare_cup()
    }
}

/// The stages that boil the water.
pub fn boil_water() -> (steps: Vec<TeaStep>)
    ensures
        steps@ == spec_boil_water(),
{
    let mut steps: Vec<TeaStep> = Vec::new();
    steps.push(TeaStep::PrepareKettle);
    steps.push(TeaStep::TurnOnKettle);
    steps.push(TeaStep::WaitForWater);
    proof {
        assert(steps@ =~= spec_boil_water());
    }
    steps
}

/// The stages that prepare one cup.
pub fn prepare_cup() -> (steps: Vec<TeaStep>)
    ensures
        steps@ == spec_prepare_cup(),
{
    let mut steps: Vec<TeaStep> = Vec::new();
    steps.push(TeaStep::PlaceTea);
    steps.push(TeaStep::PourWater);
    steps.push(TeaStep::AddMilk);
    steps.push(TeaStep::StirTea);
    proof {
        assert(steps@ =~= spec_prepare_cup());
    }
    steps
}

/// Lays out the simulated background workflow as a plan of timed stages; the
/// shell runs the plan by sleeping through each stage, so that a run is a
/// fixed sequence of no-op delays representing simulated work.
pub fn make_tea(cups: usize) -> (plan: Vec<TeaStep>)
    ensures
        plan@ == spec_make_tea(cups as nat),
{
    let mut plan = boil_water();
    let mut c: usize = 0;
    while c < cups
        invariant
            c <= cups,
            plan@ == spec_make_tea(c as nat),
        decreases cups - c,
    {
        let mut cup = prepare_cup();
        plan.append(&mut cup);
        c = c + 1;
        assert(plan@ =~= spec_make_tea(c as nat));
    }
    plan
}

/// The summary payload of the expensive endpoint: input echo, primes count,
/// Fibonacci value, and elapsed wall-clock time.
pub struct ExpensiveResult {
    pub server: String,
    pub prime_limit: u32,
    pub fib_length: u32,
    pub computation_result: String,
    pub primes_count: usize,
    pub fibonacci_value: u128,
    pub execution_time_ms: u64,
}

impl ExpensiveResult {
    /// Assembles the response envelope for a finished pipeline run; the
    /// elapsed time is measured by the caller around the whole run.
    pub fn new(
        server: String,
        prime_limit: u32,
        fib_length: u32,
        outcome: (String, usize, u128),
        execution_time_ms: u64,
    ) -> (r: ExpensiveResult)
        ensures
            r.server == server,
            r.prime_limit == prime_limit,
            r.fib_length == fib_length,
            r.computation_result == outcome.0,
            r.primes_count == outcome.1,
            r.fibonacci_value == outcome.2,
            r.execution_time_ms == execution_time_ms,
    {
        ExpensiveResult {
            server,
            prime_limit,
            fib_length,
            computation_result: outcome.0,
            primes_count: outcome.1,
            fibonacci_value: outcome.2,
            execution_time_ms,
        }
    }
}

} // verus!
