use vstd::math::abs;
use vstd::prelude::*;

use crate::fixed::{bound, diff_of, negation_of, product_of, quotient_of, sum_of, Fixed};

verus! {

/// Symmetric saturation of `value` into `[-limit, limit]` (a truncation, not a rescale).
pub open spec fn truncated(value: int, limit: int) -> int {
    if value > limit {
        limit
    } else if value < -limit {
        -limit
    } else {
        value
    }
}

/// Gain coefficients in per-sample form.
#[derive(Clone, Copy, Debug, PartialEq, Eq, Structural)]
pub struct PidTerms {
    pub kp: Fixed,
    pub ki: Fixed,
    pub kd: Fixed,
}

impl PidTerms {
    /// These terms are the per-sample form of the raw gains `kp`, `ki`, `kd` at
    /// `rate` samples per unit time: `kp` as it is, `ki / rate` and `kd * rate`.
    pub open spec fn scaled_from(self, kp: int, ki: int, kd: int, rate: int) -> bool {
        &&& self.kp@ == kp
        &&& self.ki@ == quotient_of(ki, rate)
        &&& self.kd@ == product_of(kd, rate)
    }

    /// Scales raw gains to their per-sample form for the given update frequency.
    pub fn new(kp: Fixed, ki: Fixed, kd: Fixed, update_freq: Fixed) -> (r: PidTerms)
        requires
            update_freq@ > 0,
        ensures
            r.scaled_from(kp@, ki@, kd@, update_freq@),
    {
        PidTerms { kp, ki: ki.over(update_freq), kd: kd.times(update_freq) }
    }
}

/// A PID controller that is called once per sample at a fixed update frequency.
///
/// The derivative term is taken on the measured value and is added to the output:
/// `kp' * error + integral + kd' * (current - last)`.
#[derive(Clone, Copy, Debug, PartialEq, Eq, Structural)]
pub struct Pid {
    pub terms: PidTerms,
    pub reverse_output: bool,
    pub update_freq: Fixed,
    pub integral: Fixed,
    pub integral_max: Fixed,
}

/// Clamps `value` into `[-value_max, value_max]`.
pub fn truncate_pos_or_neg(value: Fixed, value_max: Fixed) -> (r: Fixed)
    requires
        value_max@ >= 0,
    ensures
        r@ == truncated(value@, value_max@),
{
    if value.raw > value_max.raw {
        value_max
    } else if value.raw < -value_max.raw {
        value_max.negate()
    } else {
        value
    }
}

impl Pid {
    /// A valid configuration: a positive update frequency, a nonnegative limit, and
    /// an accumulator within that limit.
    pub open spec fn wf(&self) -> bool {
        &&& self.update_freq@ > 0
        &&& self.integral_max@ >= 0
        &&& -self.integral_max@ <= self.integral@ <= self.integral_max@
    }

    /// The accumulator after one sample with the given setpoint and measured value.
    pub open spec fn next_integral(&self, setpoint: int, current_val: int) -> int {
        truncated(
            sum_of(self.integral@, product_of(self.terms.ki@, diff_of(setpoint, current_val))),
            self.integral_max@,
        )
    }

    /// The controller after one sample with the given setpoint and measured value.
    pub open spec fn after_sample(self, setpoint: int, current_val: int) -> Pid {
        Pid { integral: Fixed { raw: self.next_integral(setpoint, current_val) as i64 }, ..self }
    }

    /// The controller after its accumulator limit is set to `integral_max`.
    pub open spec fn after_limit(self, integral_max: Fixed) -> Pid {
        Pid {
            integral: Fixed { raw: truncated(self.integral@, integral_max@) as i64 },
            integral_max,
            ..self
        }
    }

    /// The controller after its accumulator is cleared.
    pub open spec fn after_clear(self) -> Pid {
        Pid { integral: Fixed { raw: 0 }, ..self }
    }

    /// The output before polarity, given the accumulator that the sample produced.
    pub open spec fn unsigned_output(
        &self,
        integral: int,
        setpoint: int,
        current_val: int,
        last_val: int,
    ) -> int {
        let proportional = product_of(self.terms.kp@, diff_of(setpoint, current_val));
        let derivative = product_of(self.terms.kd@, diff_of(current_val, last_val));
        sum_of(sum_of(proportional, integral), derivative)
    }

    /// What one sample returns, from the state before it.
    pub open spec fn output_of(&self, setpoint: int, current_val: int, last_val: int) -> int {
        let out = self.unsigned_output(
            self.next_integral(setpoint, current_val),
            setpoint,
            current_val,
            last_val,
        );
        if self.reverse_output {
            negation_of(out)
        } else {
            out
        }
    }

    /// A controller with scaled gains, an empty accumulator and normal polarity.
    pub fn new(kp: Fixed, ki: Fixed, kd: Fixed, update_freq: Fixed, integral_max: Fixed) -> (r: Pid)
        requires
            update_freq@ > 0,
            integral_max@ >= 0,
        ensures
            r.wf(),
            r.terms.scaled_from(kp@, ki@, kd@, update_freq@),
            !r.reverse_output,
            r.update_freq == update_freq,
            r.integral@ == 0,
            r.integral_max == integral_max,
    {
        Pid {
            terms: PidTerms::new(kp, ki, kd, update_freq),
            reverse_output: false,
            update_freq,
            integral: Fixed::zero(),
            integral_max,
        }
    }

    /// Sets whether outputs are negated; nothing else changes.
    pub fn set_reverse_output(&mut self, reverse_output: bool)
        ensures
            *final(self) == (Pid { reverse_output, ..*old(self) }),
            old(self).wf() ==> final(self).wf(),
    {
        self.reverse_output = reverse_output;
    }

    /// Replaces the gains, scaled with the stored update frequency; the accumulator
    /// carries over unchanged.
    pub fn update_terms(&mut self, kp: Fixed, ki: Fixed, kd: Fixed)
        requires
            old(self).update_freq@ > 0,
        ensures
            final(self).terms.scaled_from(kp@, ki@, kd@, old(self).update_freq@),
            *final(self) == (Pid { terms: final(self).terms, ..*old(self) }),
            old(self).wf() ==> final(self).wf(),
    {
        self.terms = PidTerms::new(kp, ki, kd, self.update_freq);
    }

    /// Sets a new accumulator limit and truncates the accumulator into it.
    pub fn update_integral_max(&mut self, integral_max: Fixed)
        requires
            integral_max@ >= 0,
        ensures
            final(self).integral_max == integral_max,
            final(self).integral@ == truncated(old(self).integral@, integral_max@),
            -integral_max@ <= final(self).integral@ <= integral_max@,
            *final(self) == old(self).after_limit(integral_max),
            old(self).update_freq@ > 0 ==> final(self).wf(),
    {
        self.integral_max = integral_max;
        self.integral = truncate_pos_or_neg(self.integral, self.integral_max);
    }

    /// Empties the accumulator; nothing else changes.
    pub fn clear_integral(&mut self)
        ensures
            final(self).integral@ == 0,
            *final(self) == old(self).after_clear(),
            old(self).wf() ==> final(self).wf(),
    {
        self.integral = Fixed::zero();
    }

    /// One sample: accumulates the integral term, clamps it, and returns
    /// `kp' * error + integral + kd' * (current_val - last_val)`, negated when the
    /// output is reversed.
    pub fn get_output(&mut self, setpoint: Fixed, current_val: Fixed, last_val: Fixed) -> (r: Fixed)
        requires
            old(self).integral_max@ >= 0,
        ensures
            final(self).integral@ == old(self).next_integral(setpoint@, current_val@),
            -final(self).integral_max@ <= final(self).integral@ <= final(self).integral_max@,
            *final(self) == old(self).after_sample(setpoint@, current_val@),
            r@ == old(self).output_of(setpoint@, current_val@, last_val@),
            old(self).update_freq@ > 0 ==> final(self).wf(),
    {
        let error = setpoint.minus(current_val);
        self.integral = self.integral.plus(self.terms.ki.times(error));
        self.integral = truncate_pos_or_neg(self.integral, self.integral_max);
        let output = self.terms.kp.times(error).plus(self.integral).plus(
            self.terms.kd.times(current_val.minus(last_val)),
        );
        if self.reverse_output {
            output.negate()
        } else {
            output
        }
    }
}

/// A change to a controller's accumulator: one sample, or a new limit.
pub enum Step {
    Sample { setpoint: Fixed, current_val: Fixed },
    Limit { integral_max: Fixed },
}

/// The controller after `steps`, taken in order from `pid`.
pub open spec fn run(pid: Pid, steps: Seq<Step>) -> Pid
    decreases steps.len(),
{
    if steps.len() == 0 {
        pid
    } else {
        let before = run(pid, steps.drop_last());
        match steps.last() {
            Step::Sample { setpoint, current_val } => before.after_sample(setpoint@, current_val@),
            Step::Limit { integral_max } => before.after_limit(integral_max),
        }
    }
}

/// One sample leaves the accumulator within a nonnegative limit.
pub proof fn lemma_sample_within_limit(pid: Pid, setpoint: int, current_val: int)
    requires
        pid.integral_max@ >= 0,
    ensures
        -pid.integral_max@ <= pid.next_integral(setpoint, current_val) <= pid.integral_max@,
        pid.after_sample(setpoint, current_val).integral@ == pid.next_integral(
            setpoint,
            current_val,
        ),
{
}

/// Whatever sequence of samples and nonnegative limit changes a controller goes
/// through, starting within its nonnegative limit, its accumulator stays within the
/// limit in force.
pub proof fn lemma_accumulator_within_limit(pid: Pid, steps: Seq<Step>)
    requires
        pid.integral_max@ >= 0,
        -pid.integral_max@ <= pid.integral@ <= pid.integral_max@,
        forall|i: int|
            0 <= i < steps.len() ==> match #[trigger] steps[i] {
                Step::Limit { integral_max } => integral_max@ >= 0,
                Step::Sample { .. } => true,
            },
    ensures
        run(pid, steps).integral_max@ >= 0,
        -run(pid, steps).integral_max@ <= run(pid, steps).integral@ <= run(pid, steps).integral_max@,
    decreases steps.len(),
{
    if steps.len() > 0 {
        let rest = steps.drop_last();
        assert forall|i: int| 0 <= i < rest.len() implies match #[trigger] rest[i] {
            Step::Limit { integral_max } => integral_max@ >= 0,
            Step::Sample { .. } => true,
        } by {
            assert(rest[i] == steps[i]);
        }
        lemma_accumulator_within_limit(pid, rest);
        let before = run(pid, rest);
        assert(steps.last() == steps[steps.len() - 1]);
        match steps.last() {
            Step::Sample { setpoint, current_val } => {
                lemma_sample_within_limit(before, setpoint@, current_val@);
            },
            Step::Limit { integral_max } => {},
        }
    }
}

/// Clearing the accumulator gives zero, whatever it held, and changes nothing else.
pub proof fn lemma_clear_gives_zero(pid: Pid)
    ensures
        pid.after_clear().integral@ == 0,
        pid.after_clear().terms == pid.terms,
        pid.after_clear().integral_max == pid.integral_max,
        pid.after_clear().reverse_output == pid.reverse_output,
        pid.after_clear().update_freq == pid.update_freq,
{
}

/// A new limit truncates an accumulator beyond it to exactly that limit, with its
/// sign, and leaves one within it unchanged.
pub proof fn lemma_limit_truncates(pid: Pid, integral_max: Fixed)
    requires
        integral_max@ >= 0,
    ensures
        pid.integral@ > integral_max@ ==> pid.after_limit(integral_max).integral@
            == integral_max@,
        pid.integral@ < -integral_max@ ==> pid.after_limit(integral_max).integral@
            == -integral_max@,
        -integral_max@ <= pid.integral@ <= integral_max@ ==> pid.after_limit(
            integral_max,
        ).integral == pid.integral,
{
}

/// With the same state and inputs, the reversed output is the exact negation of the
/// normal one.
pub proof fn lemma_reverse_negates(pid: Pid, setpoint: int, current_val: int, last_val: int)
    ensures
        (Pid { reverse_output: true, ..pid }).output_of(setpoint, current_val, last_val) == -(Pid {
            reverse_output: false,
            ..pid
        }).output_of(setpoint, current_val, last_val),
{
}

/// Two identical samples in a row return different outputs whenever the first
/// changes the accumulator by a nonzero step that the second repeats unclamped
/// and no sum saturates: the second output differs from the first by that step
/// (negated when the output is reversed).
pub proof fn lemma_repeated_sample_differs(
    pid: Pid,
    setpoint: int,
    current_val: int,
    last_val: int,
)
    requires
        pid.integral_max@ >= 0,
        product_of(pid.terms.ki@, diff_of(setpoint, current_val)) != 0,
        -pid.integral_max@ <= pid.integral@ + product_of(pid.terms.ki@, diff_of(setpoint, current_val))
            <= pid.integral_max@,
        -pid.integral_max@ <= pid.integral@ + 2 * product_of(
            pid.terms.ki@,
            diff_of(setpoint, current_val),
        ) <= pid.integral_max@,
        abs(product_of(pid.terms.kp@, diff_of(setpoint, current_val))) + pid.integral_max@ + abs(
            product_of(pid.terms.kd@, diff_of(current_val, last_val)),
        ) <= bound(),
    ensures
        ({
            let step = product_of(pid.terms.ki@, diff_of(setpoint, current_val));
            let first = pid.output_of(setpoint, current_val, last_val);
            let second = pid.after_sample(setpoint, current_val).output_of(
                setpoint,
                current_val,
                last_val,
            );
            &&& second - first == (if pid.reverse_output { -step } else { step })
            &&& second != first
        }),
{
}

} // verus!
