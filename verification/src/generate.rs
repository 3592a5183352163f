//! The worksheet generator: candidates are drawn at random, and a candidate
//! joins the worksheet only if it is valid by itself and differs enough from
//! what the worksheet already holds.

use crate::operation::{fits_i32, SAOperation};
use crate::options::SAGeneratorOptions;
use crate::problem::SAProblem;
use rand::distributions::{Distribution, Uniform};
use vstd::prelude::*;

verus! {

/// How many candidates a worksheet in the making discards before it is
/// exhausted.
pub const SA_MAX_REJECTIONS: u64 = 1_000_000;

/// Why a worksheet could not be generated.
#[derive(Copy, Clone, Debug, PartialEq, Eq, Structural)]
pub enum SAGenerationError {
    /// The worksheet was still incomplete when no further candidate could be
    /// tried.
    GenerationExhausted,
}

/// Whether `value` lies in the band of width `tolerance` on either side of
/// `center`.
pub open spec fn within_band(center: int, tolerance: int, value: int) -> bool {
    center - tolerance <= value <= center + tolerance
}

/// The problem that the operands `constant1` and `constant2` make when it
/// follows `position` accepted problems.
pub open spec fn candidate_problem(
    options: SAGeneratorOptions,
    position: int,
    constant1: int,
    constant2: int,
) -> SAProblem {
    SAProblem {
        number: (position + 1) as i32,
        constant1: constant1 as i32,
        constant2: constant2 as i32,
        operation: options.operation,
        result: options.operation.spec_apply(constant1, constant2) as i32,
    }
}

/// A candidate is valid by itself: the operation has a value on its operands
/// that fits in an `i32`, the second operand lies outside the tolerance band
/// of the first, and the result is positive unless the options admit others.
pub open spec fn locally_valid(options: SAGeneratorOptions, constant1: int, constant2: int) -> bool {
    let result = options.operation.spec_apply(constant1, constant2);
    &&& options.operation.spec_defined(constant1, constant2)
    &&& fits_i32(result)
    &&& !within_band(constant1, options.spec_tolerance(), constant2)
    &&& (result > 0 || options.allow_negatives)
}

/// Some problem of `accepted` has `value` as an operand.
pub open spec fn uses_operand(accepted: Seq<SAProblem>, value: int) -> bool {
    exists|i: int|
        0 <= i < accepted.len() && ((#[trigger] accepted[i]).constant1 == value
            || accepted[i].constant2 == value)
}

/// Some problem of `accepted` has `value` as its result.
pub open spec fn uses_result(accepted: Seq<SAProblem>, value: int) -> bool {
    exists|i: int| 0 <= i < accepted.len() && (#[trigger] accepted[i]).result == value
}

/// A candidate differs enough from the problems accepted before it. Nothing
/// is asked until two problems have been accepted. From then on each operand
/// of the last accepted problem lies outside the tolerance band of the
/// candidate's corresponding operand, and no accepted problem shares an
/// operand or the result with the candidate.
pub open spec fn diverse(
    options: SAGeneratorOptions,
    accepted: Seq<SAProblem>,
    constant1: int,
    constant2: int,
) -> bool {
    accepted.len() > 1 ==> {
        &&& !within_band(constant1, options.spec_tolerance(), accepted.last().constant1 as int)
        &&& !within_band(constant2, options.spec_tolerance(), accepted.last().constant2 as int)
        &&& !uses_operand(accepted, constant1)
        &&& !uses_operand(accepted, constant2)
        &&& !uses_result(accepted, options.operation.spec_apply(constant1, constant2))
    }
}

/// The candidate may follow the problems of `accepted`.
pub open spec fn acceptable(
    options: SAGeneratorOptions,
    accepted: Seq<SAProblem>,
    constant1: int,
    constant2: int,
) -> bool {
    locally_valid(options, constant1, constant2) && diverse(
        options,
        accepted,
        constant1,
        constant2,
    )
}

/// The problem at position `k` was acceptable after the problems before it,
/// and carries the number, operation and result that belong to it.
pub open spec fn accepted_at(options: SAGeneratorOptions, accepted: Seq<SAProblem>, k: int) -> bool {
    let problem = accepted[k];
    &&& acceptable(
        options,
        accepted.take(k),
        problem.constant1 as int,
        problem.constant2 as int,
    )
    &&& problem == candidate_problem(
        options,
        k,
        problem.constant1 as int,
        problem.constant2 as int,
    )
}

/// `accepted` is a worksheet that the generator can arrive at: every problem
/// in it was acceptable when it was added.
pub open spec fn valid_run(options: SAGeneratorOptions, accepted: Seq<SAProblem>) -> bool {
    forall|k: int| 0 <= k < accepted.len() ==> #[trigger] accepted_at(options, accepted, k)
}

/// Every operand of `accepted` lies in the range of the options.
pub open spec fn operands_in_range(options: SAGeneratorOptions, accepted: Seq<SAProblem>) -> bool {
    forall|k: int|
        0 <= k < accepted.len() ==> options.spec_in_range((#[trigger] accepted[k]).constant1 as int)
            && options.spec_in_range(accepted[k].constant2 as int)
}

/// The operands of `accepted` in the order in which they were recorded.
pub open spec fn operands_of(accepted: Seq<SAProblem>) -> Seq<i32> {
    Seq::new(
        2 * accepted.len(),
        |j: int|
            if j % 2 == 0 {
                accepted[j / 2].constant1
            } else {
                accepted[j / 2].constant2
            },
    )
}

/// The results of `accepted` in order.
pub open spec fn results_of(accepted: Seq<SAProblem>) -> Seq<i32> {
    Seq::new(accepted.len(), |i: int| accepted[i].result)
}

/// The recorded operands hold exactly the values that some problem uses.
pub proof fn lemma_operands_of_contains(accepted: Seq<SAProblem>, value: i32)
    ensures
        operands_of(accepted).contains(value) <==> uses_operand(accepted, value as int),
{
    let recorded = operands_of(accepted);
    if recorded.contains(value) {
        let j = choose|j: int| 0 <= j < recorded.len() && recorded[j] == value;
        let i = j / 2;
        assert(accepted[i].constant1 == value || accepted[i].constant2 == value);
    }
    if uses_operand(accepted, value as int) {
        let i = choose|i: int|
            0 <= i < accepted.len() && ((#[trigger] accepted[i]).constant1 == value
                || accepted[i].constant2 == value);
        if accepted[i].constant1 == value {
            assert(recorded[2 * i] == value);
        } else {
            assert(recorded[2 * i + 1] == value);
        }
    }
}

/// The recorded results hold exactly the values that some problem has as its
/// result.
pub proof fn lemma_results_of_contains(accepted: Seq<SAProblem>, value: i32)
    ensures
        results_of(accepted).contains(value) <==> uses_result(accepted, value as int),
{
    let recorded = results_of(accepted);
    if recorded.contains(value) {
        let j = choose|j: int| 0 <= j < recorded.len() && recorded[j] == value;
        assert(accepted[j].result == value);
    }
    if uses_result(accepted, value as int) {
        let i = choose|i: int| 0 <= i < accepted.len() && (#[trigger] accepted[i]).result == value;
        assert(recorded[i] == value);
    }
}

/// A valid run stays valid when an acceptable candidate is appended.
pub proof fn lemma_valid_run_push(
    options: SAGeneratorOptions,
    accepted: Seq<SAProblem>,
    constant1: i32,
    constant2: i32,
)
    requires
        valid_run(options, accepted),
        accepted.len() < i32::MAX,
        acceptable(options, accepted, constant1 as int, constant2 as int),
    ensures
        valid_run(
            options,
            accepted.push(
                candidate_problem(options, accepted.len() as int, constant1 as int, constant2 as int),
            ),
        ),
{
    let problem = candidate_problem(
        options,
        accepted.len() as int,
        constant1 as int,
        constant2 as int,
    );
    let longer = accepted.push(problem);
    assert forall|k: int| 0 <= k < longer.len() implies #[trigger] accepted_at(
        options,
        longer,
        k,
    ) by {
        if k < accepted.len() {
            assert(accepted_at(options, accepted, k));
            assert(longer.take(k) =~= accepted.take(k));
        } else {
            assert(longer.take(k) =~= accepted);
        }
    }
}

/// Whether `values` holds `value`.
fn contains_value(values: &Vec<i32>, value: i32) -> (found: bool)
    ensures
        found == values@.contains(value),
{
    let mut i: usize = 0;
    while i < values.len()
        invariant
            i <= values.len(),
            forall|j: int| 0 <= j < i ==> values@[j] != value,
        decreases values.len() - i,
    {
        if values[i] == value {
            return true;
        }
        i += 1;
    }
    false
}

/// Whether `value` lies in the band of width `tolerance` around `center`.
fn in_band(center: i32, tolerance: i64, value: i32) -> (inside: bool)
    requires
        -600_000_000 <= tolerance <= 600_000_000,
    ensures
        inside == within_band(center as int, tolerance as int, value as int),
{
    let low: i64 = center as i64 - tolerance;
    let high: i64 = center as i64 + tolerance;
    low <= value as i64 && value as i64 <= high
}

/// Draws one operand: a sample of `rand::distributions::Uniform` over
/// `floor..=ceiling`, taken with the generator of the calling thread
/// (`rand::thread_rng`). The contract claims only that the sample lies in the
/// range it was drawn from. An inverted range, on which `Uniform::from`
/// panics, is left out.
#[verifier::external_body]
fn draw_operand(floor: i32, ceiling: i32) -> (value: i32)
    requires
        floor <= ceiling,
    ensures
        floor <= value <= ceiling,
{
    Uniform::from(floor..=ceiling).sample(&mut rand::thread_rng())
}

/// A worksheet in the making: the problems accepted so far, together with
/// the records that the diversity rules are checked against, and the number
/// of candidates discarded so far.
pub struct SAGeneratorState {
    options: SAGeneratorOptions,
    accepted: Vec<SAProblem>,
    used_numbers: Vec<i32>,
    used_answers: Vec<i32>,
    last_constant1: i32,
    last_constant2: i32,
    rejected: u64,
}

impl View for SAGeneratorState {
    type V = Seq<SAProblem>;

    /// The problems accepted so far, in order.
    closed spec fn view(&self) -> Seq<SAProblem> {
        self.accepted@
    }
}

impl SAGeneratorState {
    /// The options that the worksheet is generated for.
    pub closed spec fn spec_options(self) -> SAGeneratorOptions {
        self.options
    }

    /// The worksheet holds as many problems as the options ask for.
    pub open spec fn spec_complete(self) -> bool {
        self@.len() >= self.spec_options().problems_num
    }

    /// The number of candidates that `consider` has discarded.
    pub closed spec fn spec_rejected(self) -> nat {
        self.rejected as nat
    }

    /// The worksheet is incomplete and no further candidate can be tried:
    /// the range is inverted, so that none can be drawn, or
    /// `SA_MAX_REJECTIONS` candidates have been discarded.
    pub open spec fn spec_exhausted(self) -> bool {
        !self.spec_complete() && (self.spec_options().problems_floor
            > self.spec_options().problems_ceiling || self.spec_rejected() >= SA_MAX_REJECTIONS)
    }

    /// The records agree with the accepted problems, which form a valid run
    /// of no more problems than the options ask for, and no more than
    /// `SA_MAX_REJECTIONS` candidates have been discarded.
    pub closed spec fn wf(self) -> bool {
        &&& self.rejected <= SA_MAX_REJECTIONS
        &&& valid_run(self.options, self.accepted@)
        &&& self.accepted@.len() <= self.options.problems_num || self.accepted@.len() == 0
        &&& self.used_numbers@ == operands_of(self.accepted@)
        &&& self.used_answers@ == results_of(self.accepted@)
        &&& self.accepted@.len() > 0 ==> {
            &&& self.last_constant1 == self.accepted@.last().constant1
            &&& self.last_constant2 == self.accepted@.last().constant2
        }
    }

    /// What `wf` says of the accepted problems and of the count of
    /// discarded candidates.
    pub proof fn lemma_wf_run(self)
        requires
            self.wf(),
        ensures
            valid_run(self.spec_options(), self@),
            self@.len() <= self.spec_options().problems_num || self@.len() == 0,
            self.spec_rejected() <= SA_MAX_REJECTIONS,
    {
    }

    /// An empty worksheet for `options`, with no candidate discarded.
    pub fn new(options: &SAGeneratorOptions) -> (state: Self)
        ensures
            state.wf(),
            state.spec_options() == *options,
            state@ == Seq::<SAProblem>::empty(),
            state.spec_rejected() == 0,
    {
        let state = SAGeneratorState {
            options: *options,
            accepted: Vec::new(),
            used_numbers: Vec::new(),
            used_answers: Vec::new(),
            last_constant1: 0,
            last_constant2: 0,
            rejected: 0,
        };
        assert(state.used_numbers@ =~= operands_of(state.accepted@));
        assert(state.used_answers@ =~= results_of(state.accepted@));
        state
    }

    /// The number of problems accepted so far.
    pub fn len(&self) -> (count: usize)
        ensures
            count == self@.len(),
    {
        self.accepted.len()
    }

    /// Whether the worksheet holds as many problems as the options ask for.
    pub fn is_complete(&self) -> (complete: bool)
        ensures
            complete == self.spec_complete(),
    {
        self.options.problems_num <= 0 || self.accepted.len() >= self.options.problems_num as usize
    }

    /// The number of candidates discarded so far.
    pub fn rejected(&self) -> (count: u64)
        ensures
            count == self.spec_rejected(),
    {
        self.rejected
    }

    /// Whether the worksheet is incomplete and no further candidate can be
    /// tried.
    pub fn is_exhausted(&self) -> (exhausted: bool)
        ensures
            exhausted == self.spec_exhausted(),
    {
        !self.is_complete() && (self.options.problems_floor > self.options.problems_ceiling
            || self.rejected >= SA_MAX_REJECTIONS)
    }

    /// Tests the candidate with operands `constant1` and `constant2`
    /// without counting it. It is taken, and appended as the next problem,
    /// exactly if the worksheet is incomplete and the candidate is
    /// acceptable after the problems accepted so far. Otherwise the
    /// worksheet stays as it is.
    pub fn offer(&mut self, constant1: i32, constant2: i32) -> (taken: bool)
        requires
            old(self).wf(),
        ensures
            final(self).wf(),
            final(self).spec_options() == old(self).spec_options(),
            final(self).spec_rejected() == old(self).spec_rejected(),
            taken == (!old(self).spec_complete() && acceptable(
                old(self).spec_options(),
                old(self)@,
                constant1 as int,
                constant2 as int,
            )),
            taken ==> final(self)@ == old(self)@.push(
                candidate_problem(
                    old(self).spec_options(),
                    old(self)@.len() as int,
                    constant1 as int,
                    constant2 as int,
                ),
            ),
            !taken ==> final(self)@ == old(self)@,
    {
        if self.is_complete() {
            return false;
        }
        let count: usize = self.accepted.len();
        let result: i32 = match self.options.operation.apply(constant1, constant2) {
            Some(value) => value,
            None => {
                return false;
            },
        };
        let tolerance: i64 = self.options.tolerance();
        if in_band(constant1, tolerance, constant2) || (result <= 0
            && !self.options.allow_negatives) {
            return false;
        }
        if count > 1 {
            proof {
                lemma_operands_of_contains(self.accepted@, constant1);
                lemma_operands_of_contains(self.accepted@, constant2);
                lemma_results_of_contains(self.accepted@, result);
            }
            if in_band(constant1, tolerance, self.last_constant1) || in_band(
                constant2,
                tolerance,
                self.last_constant2,
            ) || contains_value(&self.used_numbers, constant1) || contains_value(
                &self.used_numbers,
                constant2,
            ) || contains_value(&self.used_answers, result) {
                return false;
            }
        }
        let problem = SAProblem {
            number: count as i32 + 1,
            constant1,
            constant2,
            operation: self.options.operation,
            result,
        };
        proof {
            lemma_valid_run_push(self.options, self.accepted@, constant1, constant2);
            assert(operands_of(self.accepted@.push(problem)) =~= operands_of(self.accepted@).push(
                constant1,
            ).push(constant2));
            assert(results_of(self.accepted@.push(problem)) =~= results_of(self.accepted@).push(
                result,
            ));
        }
        self.used_numbers.push(constant1);
        self.used_numbers.push(constant2);
        self.used_answers.push(result);
        self.last_constant1 = constant1;
        self.last_constant2 = constant2;
        self.accepted.push(problem);
        true
    }

    /// Considers a candidate that was drawn: `offer`, with the count of
    /// discarded candidates. A candidate that an incomplete worksheet does
    /// not take is discarded and counted; a complete worksheet takes nothing
    /// and counts nothing. An exhausted worksheet considers no candidate.
    pub fn consider(&mut self, constant1: i32, constant2: i32) -> (taken: bool)
        requires
            old(self).wf(),
            !old(self).spec_exhausted(),
        ensures
            final(self).wf(),
            final(self).spec_options() == old(self).spec_options(),
            taken == (!old(self).spec_complete() && acceptable(
                old(self).spec_options(),
                old(self)@,
                constant1 as int,
                constant2 as int,
            )),
            taken ==> final(self)@ == old(self)@.push(
                candidate_problem(
                    old(self).spec_options(),
                    old(self)@.len() as int,
                    constant1 as int,
                    constant2 as int,
                ),
            ),
            !taken ==> final(self)@ == old(self)@,
            final(self).spec_rejected() == old(self).spec_rejected() + (if taken || old(
                self,
            ).spec_complete() {
                0nat
            } else {
                1nat
            }),
    {
        let complete: bool = self.is_complete();
        let taken: bool = self.offer(constant1, constant2);
        if !taken && !complete {
            self.rejected = self.rejected + 1;
        }
        taken
    }

    /// Hands out the accepted problems.
    pub fn into_problems(self) -> (problems: Vec<SAProblem>)
        ensures
            problems@ == self@,
    {
        self.accepted
    }
}

/// `problems` is a worksheet for `options`: as many problems as asked for,
/// each acceptable when it was added, with operands from the range.
pub open spec fn is_worksheet(options: SAGeneratorOptions, problems: Seq<SAProblem>) -> bool {
    &&& problems.len() == options.problems_num
    &&& valid_run(options, problems)
    &&& operands_in_range(options, problems)
}

/// The problems are numbered from 1 in order, carry the operation of the
/// options, and each result is the value of the operation on the operands.
pub open spec fn numbered_in_order(options: SAGeneratorOptions, problems: Seq<SAProblem>) -> bool {
    forall|k: int|
        0 <= k < problems.len() ==> {
            &&& (#[trigger] problems[k]).number == k + 1
            &&& problems[k].operation == options.operation
            &&& problems[k].consistent()
        }
}

/// No division has zero as its divisor.
pub open spec fn divisors_nonzero(problems: Seq<SAProblem>) -> bool {
    forall|k: int|
        0 <= k < problems.len() && (#[trigger] problems[k]).operation == SAOperation::Division
            ==> problems[k].constant2 != 0
}

/// Every result is positive.
pub open spec fn results_positive(problems: Seq<SAProblem>) -> bool {
    forall|k: int| 0 <= k < problems.len() ==> (#[trigger] problems[k]).result > 0
}

/// Each operand of the problem at position `k` lies outside the tolerance
/// band of the corresponding operand of the problem before it.
pub open spec fn apart_from_previous(
    options: SAGeneratorOptions,
    problems: Seq<SAProblem>,
    k: int,
) -> bool {
    &&& !within_band(
        problems[k].constant1 as int,
        options.spec_tolerance(),
        problems[k - 1].constant1 as int,
    )
    &&& !within_band(
        problems[k].constant2 as int,
        options.spec_tolerance(),
        problems[k - 1].constant2 as int,
    )
}

/// From the third problem on, each operand lies outside the tolerance band of
/// the corresponding operand of the problem before.
pub open spec fn neighbours_apart(options: SAGeneratorOptions, problems: Seq<SAProblem>) -> bool {
    forall|k: int| 2 <= k < problems.len() ==> #[trigger] apart_from_previous(options, problems, k)
}

/// From the third problem on, no problem has an operand that an earlier
/// problem has as an operand, nor the result of an earlier problem.
pub open spec fn nothing_reused(problems: Seq<SAProblem>) -> bool {
    forall|i: int, j: int|
        0 <= i < j < problems.len() && 2 <= j ==> {
            &&& (#[trigger] problems[j]).constant1 != (#[trigger] problems[i]).constant1
            &&& problems[j].constant1 != problems[i].constant2
            &&& problems[j].constant2 != problems[i].constant1
            &&& problems[j].constant2 != problems[i].constant2
            &&& problems[j].result != problems[i].result
        }
}

/// In a valid run that an `i32` can count, the problems are numbered in
/// order, carry the operation of the options and are consistent.
pub proof fn lemma_run_numbered_in_order(options: SAGeneratorOptions, problems: Seq<SAProblem>)
    requires
        valid_run(options, problems),
        problems.len() <= i32::MAX,
    ensures
        numbered_in_order(options, problems),
{
    assert forall|k: int| 0 <= k < problems.len() implies {
        &&& (#[trigger] problems[k]).number == k + 1
        &&& problems[k].operation == options.operation
        &&& problems[k].consistent()
    } by {
        assert(accepted_at(options, problems, k));
    }
}

/// In a valid run no division has zero as its divisor.
pub proof fn lemma_run_divisors_nonzero(options: SAGeneratorOptions, problems: Seq<SAProblem>)
    requires
        valid_run(options, problems),
    ensures
        divisors_nonzero(problems),
{
    assert forall|k: int|
        0 <= k < problems.len() && (#[trigger] problems[k]).operation
            == SAOperation::Division implies problems[k].constant2 != 0 by {
        assert(accepted_at(options, problems, k));
    }
}

/// In a valid run for options that admit positive results only, every result
/// is positive.
pub proof fn lemma_run_results_positive(options: SAGeneratorOptions, problems: Seq<SAProblem>)
    requires
        valid_run(options, problems),
        !options.allow_negatives,
    ensures
        results_positive(problems),
{
    assert forall|k: int| 0 <= k < problems.len() implies (#[trigger] problems[k]).result > 0 by {
        assert(accepted_at(options, problems, k));
    }
}

/// In a valid run, from the third problem on, each operand lies outside the
/// tolerance band of the corresponding operand of the problem before.
pub proof fn lemma_run_neighbours_apart(options: SAGeneratorOptions, problems: Seq<SAProblem>)
    requires
        valid_run(options, problems),
    ensures
        neighbours_apart(options, problems),
{
    assert forall|k: int| 2 <= k < problems.len() implies #[trigger] apart_from_previous(
        options,
        problems,
        k,
    ) by {
        assert(accepted_at(options, problems, k));
        assert(problems.take(k).last() == problems[k - 1]);
    }
}

/// In a valid run, from the third problem on, no problem repeats an operand
/// or the result of an earlier problem.
pub proof fn lemma_run_nothing_reused(options: SAGeneratorOptions, problems: Seq<SAProblem>)
    requires
        valid_run(options, problems),
    ensures
        nothing_reused(problems),
{
    assert forall|i: int, j: int| 0 <= i < j < problems.len() && 2 <= j implies {
        &&& (#[trigger] problems[j]).constant1 != (#[trigger] problems[i]).constant1
        &&& problems[j].constant1 != problems[i].constant2
        &&& problems[j].constant2 != problems[i].constant1
        &&& problems[j].constant2 != problems[i].constant2
        &&& problems[j].result != problems[i].result
    } by {
        assert(accepted_at(options, problems, j));
        let before = problems.take(j);
        assert(before[i] == problems[i]);
        assert(accepted_at(options, problems, i));
    }
}

/// Where floor and ceiling coincide, no candidate from the range is
/// acceptable: a valid run with operands from the range is empty.
pub proof fn lemma_degenerate_range_admits_nothing(
    options: SAGeneratorOptions,
    problems: Seq<SAProblem>,
)
    requires
        valid_run(options, problems),
        operands_in_range(options, problems),
        options.problems_floor == options.problems_ceiling,
    ensures
        problems.len() == 0,
{
    if problems.len() > 0 {
        assert(accepted_at(options, problems, 0));
        assert(options.spec_in_range(problems[0].constant1 as int));
    }
}

/// What holds of every worksheet: the consequences of `is_worksheet` that
/// `sa_generate` promises of its result.
pub proof fn lemma_worksheet_laws(options: SAGeneratorOptions, problems: Seq<SAProblem>)
    requires
        is_worksheet(options, problems),
    ensures
        numbered_in_order(options, problems),
        divisors_nonzero(problems),
        !options.allow_negatives ==> results_positive(problems),
        neighbours_apart(options, problems),
        nothing_reused(problems),
        options.problems_floor == options.problems_ceiling ==> problems.len() == 0,
{
    lemma_run_numbered_in_order(options, problems);
    lemma_run_divisors_nonzero(options, problems);
    if !options.allow_negatives {
        lemma_run_results_positive(options, problems);
    }
    lemma_run_neighbours_apart(options, problems);
    lemma_run_nothing_reused(options, problems);
    if options.problems_floor == options.problems_ceiling {
        lemma_degenerate_range_admits_nothing(options, problems);
    }
}

/// Generates a worksheet for `options`. Candidates are drawn from the range
/// of the options and considered by an empty worksheet, one after the other,
/// until the worksheet is complete or exhausted.
///
/// Whatever is drawn, a worksheet that comes back has as many problems as
/// asked for, each acceptable after those before it, with operands from the
/// range. `GenerationExhausted` comes back where the count is negative and
/// where the worksheet is exhausted: it is incomplete, and the range is
/// inverted or `SA_MAX_REJECTIONS` candidates have been discarded. A count of
/// zero gives the empty worksheet; a range of a single value gives
/// `GenerationExhausted` for every positive count.
pub fn sa_generate(options: &SAGeneratorOptions) -> (outcome: Result<
    Vec<SAProblem>,
    SAGenerationError,
>)
    ensures
        outcome matches Ok(problems) ==> {
            &&& problems@.len() == options.problems_num
            &&& is_worksheet(*options, problems@)
            &&& numbered_in_order(*options, problems@)
            &&& divisors_nonzero(problems@)
            &&& !options.allow_negatives ==> results_positive(problems@)
            &&& neighbours_apart(*options, problems@)
            &&& nothing_reused(problems@)
        },
        outcome is Err ==> options.problems_num != 0,
        options.problems_num < 0 ==> outcome is Err,
        options.problems_num > 0 && options.problems_floor >= options.problems_ceiling
            ==> outcome is Err,
{
    let mut state = SAGeneratorState::new(options);
    while !state.is_complete()
        invariant
            state.wf(),
            state.spec_options() == *options,
            operands_in_range(*options, state@),
            state.spec_rejected() <= SA_MAX_REJECTIONS,
        decreases options.problems_num - state@.len() + (SA_MAX_REJECTIONS - state.spec_rejected()),
    {
        if state.is_exhausted() {
            return Err(SAGenerationError::GenerationExhausted);
        }
        let constant1: i32 = draw_operand(options.problems_floor, options.problems_ceiling);
        let constant2: i32 = draw_operand(options.problems_floor, options.problems_ceiling);
        let ghost before = state@;
        if state.consider(constant1, constant2) {
            assert(operands_in_range(*options, state@)) by {
                assert forall|k: int| 0 <= k < state@.len() implies options.spec_in_range(
                    (#[trigger] state@[k]).constant1 as int,
                ) && options.spec_in_range(state@[k].constant2 as int) by {
                    if k < before.len() {
                        assert(state@[k] == before[k]);
                    }
                }
            }
        }
        proof {
            state.lemma_wf_run();
        }
    }
    if options.problems_num < 0 {
        return Err(SAGenerationError::GenerationExhausted);
    }
    proof {
        state.lemma_wf_run();
        lemma_worksheet_laws(*options, state@);
    }
    Ok(state.into_problems())
}

} // verus!
