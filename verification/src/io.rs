//! The sample decoder and the helpers that classify interrupted blocking calls.

use vstd::prelude::*;

verus! {

/// How a single bit of the wire format is rendered as an 8-bit sample value.
#[derive(Clone, Copy, Debug, PartialEq, Eq, Structural)]
pub enum AmplitudePolicy {
    FullRangeSigned,
    FullRangeUnsigned,
    HalfRangeUnsigned,
}

impl AmplitudePolicy {
    /// The sample value that stands for a cleared bit.
    pub open spec fn low(self) -> int {
        match self {
            AmplitudePolicy::FullRangeSigned => -128,
            AmplitudePolicy::FullRangeUnsigned => 0,
            AmplitudePolicy::HalfRangeUnsigned => 127,
        }
    }

    /// The sample value that stands for a set bit.
    pub open spec fn high(self) -> int {
        match self {
            AmplitudePolicy::FullRangeSigned => 127,
            AmplitudePolicy::FullRangeUnsigned => 255,
            AmplitudePolicy::HalfRangeUnsigned => 255,
        }
    }

    /// The sample value of one bit under this policy.
    pub open spec fn level(self, bit: bool) -> int {
        if bit {
            self.high()
        } else {
            self.low()
        }
    }
}

/// The place value of the bit that is decoded at `position`, where position 0
/// is the most significant bit of the byte.
pub open spec fn place_value(position: int) -> int {
    if position == 0 {
        128
    } else if position == 1 {
        64
    } else if position == 2 {
        32
    } else if position == 3 {
        16
    } else if position == 4 {
        8
    } else if position == 5 {
        4
    } else if position == 6 {
        2
    } else {
        1
    }
}

/// Whether the bit decoded at `position` (0 = most significant) is set.
pub open spec fn bit_is_set(input: u8, position: int) -> bool {
    (input as int / place_value(position)) % 2 == 1
}

/// The eight sample values that one input byte decodes to, most significant
/// bit first.
pub open spec fn decoded_block(input: u8, policy: AmplitudePolicy) -> Seq<int> {
    Seq::new(8, |position: int| policy.level(bit_is_set(input, position)))
}

/// A byte that holds both set and cleared bits.
pub open spec fn is_mixed(input: u8) -> bool {
    input != 0x00 && input != 0xFF
}

fn bit_at(input: u8, position: u8) -> (bit: bool)
    requires
        position < 8,
    ensures
        bit == bit_is_set(input, position as int),
{
    assert(((input >> 7) & 1 != 0) == ((input / 128) % 2 == 1)) by (bit_vector);
    assert(((input >> 6) & 1 != 0) == ((input / 64) % 2 == 1)) by (bit_vector);
    assert(((input >> 5) & 1 != 0) == ((input / 32) % 2 == 1)) by (bit_vector);
    assert(((input >> 4) & 1 != 0) == ((input / 16) % 2 == 1)) by (bit_vector);
    assert(((input >> 3) & 1 != 0) == ((input / 8) % 2 == 1)) by (bit_vector);
    assert(((input >> 2) & 1 != 0) == ((input / 4) % 2 == 1)) by (bit_vector);
    assert(((input >> 1) & 1 != 0) == ((input / 2) % 2 == 1)) by (bit_vector);
    assert(((input >> 0) & 1 != 0) == ((input / 1) % 2 == 1)) by (bit_vector);
    match position {
        0 => (input >> 7) & 1 != 0,
        1 => (input >> 6) & 1 != 0,
        2 => (input >> 5) & 1 != 0,
        3 => (input >> 4) & 1 != 0,
        4 => (input >> 3) & 1 != 0,
        5 => (input >> 2) & 1 != 0,
        6 => (input >> 1) & 1 != 0,
        _ => (input >> 0) & 1 != 0,
    }
}

/// Renders one bit as a signed sample spanning the full range.
pub fn bit_sample_to_signed8(sample: bool) -> (level: i8)
    ensures
        level as int == AmplitudePolicy::FullRangeSigned.level(sample),
{
    if sample {
        127
    } else {
        -128
    }
}

/// Renders one bit as an unsigned sample spanning the full range.
pub fn bit_sample_to_unsigned8_full_range(sample: bool) -> (level: u8)
    ensures
        level as int == AmplitudePolicy::FullRangeUnsigned.level(sample),
{
    if sample {
        255
    } else {
        0
    }
}

/// Renders one bit as an unsigned sample spanning the upper half of the range.
pub fn bit_sample_to_unsigned8_half_range(sample: bool) -> (level: u8)
    ensures
        level as int == AmplitudePolicy::HalfRangeUnsigned.level(sample),
{
    if sample {
        255
    } else {
        127
    }
}

/// Decodes one byte into eight signed full-range samples, most significant
/// bit first.
pub fn decode_esp32_sample(input: u8) -> (block: [i8; 8])
    ensures
        block@.map_values(|sample: i8| sample as int) == decoded_block(
            input,
            AmplitudePolicy::FullRangeSigned,
        ),
{
    [
        bit_sample_to_signed8(bit_at(input, 0)),
        bit_sample_to_signed8(bit_at(input, 1)),
        bit_sample_to_signed8(bit_at(input, 2)),
        bit_sample_to_signed8(bit_at(input, 3)),
        bit_sample_to_signed8(bit_at(input, 4)),
        bit_sample_to_signed8(bit_at(input, 5)),
        bit_sample_to_signed8(bit_at(input, 6)),
        bit_sample_to_signed8(bit_at(input, 7)),
    ]
}

/// Decodes one byte into eight unsigned full-range samples, most significant
/// bit first.
pub fn decode_esp32_sample_unsigned_full_range(input: u8) -> (block: [u8; 8])
    ensures
        block@.map_values(|sample: u8| sample as int) == decoded_block(
            input,
            AmplitudePolicy::FullRangeUnsigned,
        ),
{
    [
        bit_sample_to_unsigned8_full_range(bit_at(input, 0)),
        bit_sample_to_unsigned8_full_range(bit_at(input, 1)),
        bit_sample_to_unsigned8_full_range(bit_at(input, 2)),
        bit_sample_to_unsigned8_full_range(bit_at(input, 3)),
        bit_sample_to_unsigned8_full_range(bit_at(input, 4)),
        bit_sample_to_unsigned8_full_range(bit_at(input, 5)),
        bit_sample_to_unsigned8_full_range(bit_at(input, 6)),
        bit_sample_to_unsigned8_full_range(bit_at(input, 7)),
    ]
}

/// Decodes one byte into eight unsigned half-range samples, most significant
/// bit first.
pub fn decode_esp32_sample_unsigned_half_range(input: u8) -> (block: [u8; 8])
    ensures
        block@.map_values(|sample: u8| sample as int) == decoded_block(
            input,
            AmplitudePolicy::HalfRangeUnsigned,
        ),
{
    [
        bit_sample_to_unsigned8_half_range(bit_at(input, 0)),
        bit_sample_to_unsigned8_half_range(bit_at(input, 1)),
        bit_sample_to_unsigned8_half_range(bit_at(input, 2)),
        bit_sample_to_unsigned8_half_range(bit_at(input, 3)),
        bit_sample_to_unsigned8_half_range(bit_at(input, 4)),
        bit_sample_to_unsigned8_half_range(bit_at(input, 5)),
        bit_sample_to_unsigned8_half_range(bit_at(input, 6)),
        bit_sample_to_unsigned8_half_range(bit_at(input, 7)),
    ]
}

/// A block has exactly eight values; each of them is the high value of the
/// policy where the bit at its position is set, and the low value where it is
/// cleared, the most significant bit first.
pub proof fn lemma_decoded_block_follows_the_bits(input: u8, policy: AmplitudePolicy)
    ensures
        decoded_block(input, policy).len() == 8,
        forall|position: int|
            0 <= position < 8 ==> #[trigger] decoded_block(input, policy)[position] == if (input
                as int / place_value(position)) % 2 == 1 {
                policy.high()
            } else {
                policy.low()
            },
        place_value(0) == 128 && place_value(7) == 1,
        forall|position: int|
            0 <= position < 7 ==> #[trigger] place_value(position) == 2 * place_value(
                position + 1,
            ),
{
}

/// Decoding is a function of the byte and the policy alone: equal inputs
/// give equal blocks.
pub proof fn lemma_decoding_is_deterministic(
    first: u8,
    first_policy: AmplitudePolicy,
    second: u8,
    second_policy: AmplitudePolicy,
)
    requires
        first == second,
        first_policy == second_policy,
    ensures
        decoded_block(first, first_policy) == decoded_block(second, second_policy),
{
}

/// Two different policies never decode a byte with a cleared bit to the same
/// block, and every mixed byte has a cleared bit.
pub proof fn lemma_distinct_policies_distinct_blocks(
    input: u8,
    first: AmplitudePolicy,
    second: AmplitudePolicy,
)
    requires
        first != second,
        is_mixed(input),
    ensures
        decoded_block(input, first) != decoded_block(input, second),
{
    assert((input / 128) % 2 == 1 && (input / 64) % 2 == 1 && (input / 32) % 2 == 1 && (input / 16)
        % 2 == 1 && (input / 8) % 2 == 1 && (input / 4) % 2 == 1 && (input / 2) % 2 == 1 && (input
        / 1) % 2 == 1 ==> input == 0xFF) by (bit_vector);
    let position = choose|position: int| 0 <= position < 8 && !bit_is_set(input, position);
    assert(0 <= position < 8 && !bit_is_set(input, position)) by {
        if bit_is_set(input, 0) && bit_is_set(input, 1) && bit_is_set(input, 2) && bit_is_set(
            input,
            3,
        ) && bit_is_set(input, 4) && bit_is_set(input, 5) && bit_is_set(input, 6) && bit_is_set(
            input,
            7,
        ) {
            assert(input == 0xFF);
        }
    }
    assert(decoded_block(input, first)[position] == first.low());
    assert(decoded_block(input, second)[position] == second.low());
}

/// The error type of the standard library's blocking I/O calls. Its contents
/// are not visible to the proofs.
#[verifier::external_type_specification]
#[verifier::external_body]
pub struct ExIoError(std::io::Error);

/// Whether `std::io::Error::kind` reports `ErrorKind::Interrupted` for an error.
pub uninterp spec fn io_error_interrupted(error: std::io::Error) -> bool;

/// Calls `std::io::Error::kind` and tells whether the kind is
/// `ErrorKind::Interrupted`. The kind is a function of the error value alone.
#[verifier::external_body]
fn is_interrupted(error: &std::io::Error) -> (interrupted: bool)
    ensures
        interrupted == io_error_interrupted(*error),
{
    matches!(error.kind(), std::io::ErrorKind::Interrupted)
}

/// Whether `error_mapper` may classify `error` as an interruption: it can
/// hand out an underlying I/O error whose kind is `Interrupted`.
pub open spec fn may_classify_interrupted<E, M: Fn(&E) -> Option<&std::io::Error>>(
    error_mapper: M,
    error: E,
) -> bool {
    exists|cause: &std::io::Error|
        call_ensures(error_mapper, (&error,), Some(cause)) && io_error_interrupted(*cause)
}

/// Whether `error_mapper` may classify `error` as anything but an
/// interruption: it can hand out no underlying I/O error, or one of another
/// kind.
pub open spec fn may_classify_other<E, M: Fn(&E) -> Option<&std::io::Error>>(
    error_mapper: M,
    error: E,
) -> bool {
    call_ensures(error_mapper, (&error,), None) || exists|cause: &std::io::Error|
        call_ensures(error_mapper, (&error,), Some(cause)) && !io_error_interrupted(*cause)
}

/// What an attempt comes to once it is known whether its failure was an
/// interruption: an interrupted failure is replaced by the value of `r`, a
/// success or any other failure stays as it is.
pub fn recovered<A, E, R: FnOnce() -> A>(outcome: Result<A, E>, interrupted: bool, r: R) -> (settled:
    Result<A, E>)
    requires
        call_requires(r, ()),
    ensures
        match outcome {
            Ok(value) => settled == Ok::<A, E>(value),
            Err(error) => if interrupted {
                settled is Ok && call_ensures(r, (), settled->Ok_0)
            } else {
                settled == Err::<A, E>(error)
            },
        },
{
    match outcome {
        Ok(result) => Ok(result),
        Err(error) => {
            if interrupted {
                Ok(r())
            } else {
                Err(error)
            }
        },
    }
}

/// Runs `f` once. An interrupted failure is replaced by the value of `r`;
/// a success or any other failure is handed back as it came.
pub fn recover_if_interrupted<A, F: FnOnce() -> std::io::Result<A>, R: FnOnce() -> A>(
    f: F,
    r: R,
) -> (outcome: std::io::Result<A>)
    requires
        call_requires(f, ()),
        call_requires(r, ()),
    ensures
        match outcome {
            Ok(value) => call_ensures(f, (), Ok(value)) || (call_ensures(r, (), value)
                && exists|error: std::io::Error|
                call_ensures(f, (), Err(error)) && io_error_interrupted(error)),
            Err(error) => call_ensures(f, (), Err(error)) && !io_error_interrupted(error),
        },
{
    let attempt = f();
    let interrupted = match &attempt {
        Ok(_) => false,
        Err(error) => is_interrupted(error),
    };
    recovered(attempt, interrupted, r)
}

/// Whether the outcome of one attempt is a failure that `error_mapper`
/// classifies as an interruption.
pub fn is_interrupted_failure<A, E, M: Fn(&E) -> Option<&std::io::Error>>(
    result: &Result<A, E>,
    error_mapper: &M,
) -> (interrupted: bool)
    requires
        forall|error: &E| call_requires(*error_mapper, (error,)),
    ensures
        interrupted ==> result is Err && may_classify_interrupted(*error_mapper, result->Err_0),
        !interrupted ==> result is Ok || may_classify_other(*error_mapper, result->Err_0),
{
    match result {
        Ok(_) => false,
        Err(error) => match error_mapper(error) {
            Some(cause) => is_interrupted(cause),
            None => false,
        },
    }
}

/// What retrying does after one attempt.
#[derive(Debug, PartialEq, Eq)]
pub enum RetryStep<A, E> {
    /// The attempt was no interrupted failure: its outcome is the result.
    HandOut(Result<A, E>),
    /// The attempt was interrupted and another one is allowed: call again.
    Again,
    /// The attempt was interrupted and it was the last one allowed.
    GiveUp,
}

/// What retrying does after the attempt that followed `made` interrupted
/// ones ended as `result`, where `interrupted` tells whether that is an
/// interrupted failure and `attempts` is the number of attempts allowed.
pub open spec fn next_retry_step<A, E>(
    result: Result<A, E>,
    interrupted: bool,
    made: int,
    attempts: int,
) -> RetryStep<A, E> {
    if !interrupted {
        RetryStep::HandOut(result)
    } else if made + 1 < attempts {
        RetryStep::Again
    } else {
        RetryStep::GiveUp
    }
}

/// Decides what follows one attempt: an outcome that is no interrupted
/// failure is handed out, an interrupted one is followed by another call as
/// long as one is allowed.
pub fn retry_step<A, E>(result: Result<A, E>, interrupted: bool, made: usize, attempts: usize) -> (step:
    RetryStep<A, E>)
    requires
        made < attempts,
    ensures
        step == next_retry_step(result, interrupted, made as int, attempts as int),
{
    if !interrupted {
        RetryStep::HandOut(result)
    } else if made + 1 < attempts {
        RetryStep::Again
    } else {
        RetryStep::GiveUp
    }
}

/// What retrying comes to, and after how many calls, when the attempts end
/// as `results`, in order, and `interrupted` tells of each whether it is an
/// interrupted failure. `made` attempts have been made and were interrupted.
pub open spec fn retried<A, E>(
    results: Seq<Result<A, E>>,
    interrupted: Seq<bool>,
    made: nat,
    attempts: nat,
) -> (Option<Result<A, E>>, nat)
    decreases results.len() - made,
{
    if made >= attempts || made >= results.len() {
        (None, made)
    } else {
        match next_retry_step(results[made as int], interrupted[made as int], made as int, attempts as int) {
            RetryStep::HandOut(result) => (Some(result), made + 1),
            RetryStep::Again => retried(results, interrupted, made + 1, attempts),
            RetryStep::GiveUp => (None, made + 1),
        }
    }
}

/// Retrying hands out the first outcome that is no interrupted failure,
/// after exactly one call for it and one for each interrupted attempt
/// before it, where that many attempts are allowed.
pub proof fn lemma_retry_hands_out_the_first<A, E>(
    results: Seq<Result<A, E>>,
    interrupted: Seq<bool>,
    first: nat,
    attempts: nat,
)
    requires
        results.len() == interrupted.len(),
        first < results.len(),
        first < attempts,
        !interrupted[first as int],
        forall|before: int| 0 <= before < first ==> interrupted[before],
    ensures
        retried(results, interrupted, 0, attempts) == (Some(results[first as int]), first + 1),
{
    lemma_retry_from(results, interrupted, first, attempts, 0);
}

/// The same from any number of interrupted attempts already made.
pub proof fn lemma_retry_from<A, E>(
    results: Seq<Result<A, E>>,
    interrupted: Seq<bool>,
    first: nat,
    attempts: nat,
    made: nat,
)
    requires
        results.len() == interrupted.len(),
        first < results.len(),
        first < attempts,
        made <= first,
        !interrupted[first as int],
        forall|before: int| 0 <= before < first ==> interrupted[before],
    ensures
        retried(results, interrupted, made, attempts) == (Some(results[first as int]), first + 1),
    decreases first - made,
{
    if made < first {
        lemma_retry_from(results, interrupted, first, attempts, made + 1);
    }
}

/// Retrying gives up exactly where every allowed attempt was interrupted,
/// after as many calls as were allowed, and without a call where none is
/// allowed.
pub proof fn lemma_retry_gives_up_after_all_attempts<A, E>(
    results: Seq<Result<A, E>>,
    interrupted: Seq<bool>,
    attempts: nat,
    made: nat,
)
    requires
        results.len() == interrupted.len(),
        attempts <= results.len(),
        made <= attempts,
        forall|at: int| made <= at < attempts ==> interrupted[at],
    ensures
        retried(results, interrupted, made, attempts) == (None::<Result<A, E>>, attempts),
    decreases attempts - made,
{
    if made < attempts {
        if made + 1 < attempts {
            lemma_retry_gives_up_after_all_attempts(results, interrupted, attempts, made + 1);
        }
    }
}

/// Calls `f` and hands out its outcome unless that is an interrupted
/// failure. After each call [`retry_step`] decides whether the outcome is
/// handed out, `f` is called again, or the attempts are used up; it is the
/// contract of that function that fixes when another call is made.
///
/// What is stated here is what comes out: `None` where no attempt is
/// allowed; else an outcome of `f` that is no interrupted failure, or `None`
/// where `f` can fail interrupted. An interrupted failure itself is never
/// handed out. After `None` the caller has to come back.
pub fn retry_if_interrupted<
    A,
    E,
    F: FnMut() -> Result<A, E>,
    M: Fn(&E) -> Option<&std::io::Error>,
>(f: F, error_mapper: M, attempts: usize) -> (outcome: Option<Result<A, E>>)
    requires
        call_requires(f, ()),
        forall|error: &E| call_requires(error_mapper, (error,)),
    ensures
        attempts == 0 ==> outcome is None,
        match outcome {
            Some(result) => call_ensures(f, (), result) && (result is Ok || may_classify_other(
                error_mapper,
                result->Err_0,
            )),
            None => attempts == 0 || exists|error: E|
                call_ensures(f, (), Err(error)) && may_classify_interrupted(error_mapper, error),
        },
{
    if attempts == 0 {
        return None;
    }
    let mut operation = f;
    let mut made: usize = 0;
    loop
        invariant
            made < attempts,
            operation == f,
            call_requires(f, ()),
            forall|error: &E| call_requires(error_mapper, (error,)),
        decreases attempts - made,
    {
        let result = operation();
        let interrupted = is_interrupted_failure(&result, &error_mapper);
        match retry_step(result, interrupted, made, attempts) {
            RetryStep::HandOut(result) => {
                return Some(result);
            },
            RetryStep::Again => {
                made = made + 1;
            },
            RetryStep::GiveUp => {
                return None;
            },
        }
    }
}

} // verus!
