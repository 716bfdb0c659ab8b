//! Rung spacing per side, reacting to inventory skew and to how far fills
//! lag the expected price excursion.
//!
//! All values are fixed-point with `SCALE` units per whole unit; ratios such
//! as the amplitude are fixed-point too, so `SCALE` stands for `1.0`.
use vstd::prelude::*;
use crate::fixed::{floor_sqrt, isqrt, round_to_multiple, round_to_multiple_spec, in_nonneg_bound, ACCEL_BOUND, SCALE, VALUE_BOUND};

verus! {

/// `0` below the soft position, else `(position - soft) / (max - soft) + 1`.
pub open spec fn amplitude_spec(position: int, soft: int, max: int) -> int {
    if position >= soft {
        SCALE + (position - soft) * SCALE / (max - soft)
    } else {
        0
    }
}

/// `0.9 * base_increment * max_position / (2 * target_quantity)`.
pub open spec fn half_range_spec(base_increment: int, max_position: int, target_quantity: int) -> int {
    (9 * base_increment * max_position) / (20 * target_quantity)
}

/// `half_range * position / max_position`.
pub open spec fn range_supposed_spec(half_range: int, position: int, max_position: int) -> int {
    half_range * position / max_position
}

/// `max(0, entry_price - last_open)` for longs; shorts pass the operands swapped.
pub open spec fn range_current_spec(from: int, to: int) -> int {
    if from - to > 0 { from - to } else { 0 }
}

/// `(supposed - current) / base_increment + 1` when the supposed range is
/// larger, else `0`. The ratio is rounded up to the fixed-point precision, so
/// any shortfall gives more than one whole unit.
pub open spec fn r_delta_spec(supposed: int, current: int, base_increment: int) -> int {
    if supposed > current {
        ((supposed - current) * SCALE + base_increment - 1) / base_increment + SCALE
    } else {
        0
    }
}

/// `acceleration * sqrt(r_delta) * amplitude`.
pub open spec fn acceleration_term_spec(acceleration: int, r_delta: int, amplitude: int) -> int {
    ((acceleration * floor_sqrt(r_delta * SCALE)) / (SCALE as int)) * amplitude / (SCALE as int)
}

/// Nearest quarter below two whole units, else nearest half.
pub open spec fn snap_increment_spec(raw: int) -> int {
    if raw < 2 * SCALE {
        round_to_multiple_spec(raw, (SCALE as int) / 4)
    } else {
        round_to_multiple_spec(raw, (SCALE as int) / 2)
    }
}

/// The inputs of the model for one side.
pub struct IncrementInputs {
    pub base_increment: i64,
    pub acceleration: i64,
    pub soft_position: i64,
    pub max_position: i64,
    pub target_quantity: i64,
    pub position: i64,
    /// Entry price for longs, last open-fill price for shorts.
    pub range_from: i64,
    /// Last open-fill price for longs, entry price for shorts.
    pub range_to: i64,
}

impl IncrementInputs {
    pub open spec fn wf(&self) -> bool {
        &&& 0 < self.base_increment <= VALUE_BOUND
        &&& 0 <= self.acceleration <= ACCEL_BOUND
        &&& 0 <= self.soft_position < self.max_position <= VALUE_BOUND
        &&& 0 < self.target_quantity <= VALUE_BOUND
        &&& in_nonneg_bound(self.position as int)
        &&& -2 * VALUE_BOUND <= self.range_from <= 2 * VALUE_BOUND
        &&& -2 * VALUE_BOUND <= self.range_to <= 2 * VALUE_BOUND
    }

    pub open spec fn amplitude(&self) -> int {
        amplitude_spec(self.position as int, self.soft_position as int, self.max_position as int)
    }

    pub open spec fn r_delta(&self) -> int {
        let hr = half_range_spec(self.base_increment as int, self.max_position as int, self.target_quantity as int);
        r_delta_spec(
            range_supposed_spec(hr, self.position as int, self.max_position as int),
            range_current_spec(self.range_from as int, self.range_to as int),
            self.base_increment as int,
        )
    }

    pub open spec fn term(&self) -> int {
        acceleration_term_spec(self.acceleration as int, self.r_delta(), self.amplitude())
    }

    /// Unsnapped long-side increment: the term is added as is.
    pub open spec fn long_raw(&self) -> int {
        self.base_increment + self.term()
    }

    /// Unsnapped short-side increment: the term is first rounded to a tenth.
    pub open spec fn short_raw(&self) -> int {
        self.base_increment + round_to_multiple_spec(self.term(), (SCALE as int) / 10)
    }
}

pub fn amplitude(position: i64, soft: i64, max: i64) -> (r: i128)
    requires
        in_nonneg_bound(position as int),
        0 <= soft < max <= VALUE_BOUND,
    ensures
        r == amplitude_spec(position as int, soft as int, max as int),
        0 <= r <= SCALE + VALUE_BOUND * SCALE,
{
    if position >= soft {
        proof {
            lemma_mul_bounds((position - soft) as int, SCALE as int, VALUE_BOUND as int, SCALE as int);
        }
        let num: i128 = (position as i128 - soft as i128) * (SCALE as i128);
        let q: i128 = num / (max as i128 - soft as i128);
        proof {
            let (n, d) = (num as int, (max - soft) as int);
            assert(n / d <= n) by (nonlinear_arith) requires n >= 0, d >= 1;
            assert(n / d >= 0) by (nonlinear_arith) requires n >= 0, d >= 1;
        }
        SCALE as i128 + q
    } else {
        0
    }
}

proof fn lemma_div_bounds(n: int, d: int, hi: int)
    requires
        0 <= n <= hi,
        d >= 1,
    ensures
        0 <= n / d <= hi,
{
    assert(n / d <= n) by (nonlinear_arith) requires n >= 0, d >= 1;
}

proof fn lemma_mul_bounds(a: int, b: int, ha: int, hb: int)
    requires
        0 <= a <= ha,
        0 <= b <= hb,
    ensures
        0 <= a * b <= ha * hb,
{
    assert(0 <= a * b <= ha * hb) by (nonlinear_arith) requires 0 <= a <= ha, 0 <= b <= hb;
}

/// Half range fixed at startup from the configuration.
pub fn half_range(base_increment: i64, max_position: i64, target_quantity: i64) -> (r: i128)
    requires
        0 < base_increment <= VALUE_BOUND,
        0 < max_position <= VALUE_BOUND,
        0 < target_quantity <= VALUE_BOUND,
    ensures
        r == half_range_spec(base_increment as int, max_position as int, target_quantity as int),
        0 <= r <= VALUE_BOUND * VALUE_BOUND / 2,
{
    proof {
        let x = base_increment * max_position;
        lemma_mul_bounds(base_increment as int, max_position as int, VALUE_BOUND as int, VALUE_BOUND as int);
        assert(9 * base_increment * max_position == 9 * x) by (nonlinear_arith) requires x == base_increment * max_position;
        let v2 = VALUE_BOUND * VALUE_BOUND;
        let d = 20 * target_quantity;
        assert((9 * x) / d <= (9 * x) / 20) by (nonlinear_arith) requires x >= 0, d >= 20;
        assert((9 * x) / 20 <= v2 / 2) by (nonlinear_arith) requires 0 <= x <= v2;
        assert((9 * x) / d >= 0) by (nonlinear_arith) requires x >= 0, d >= 20;
    }
    (9 * (base_increment as i128) * (max_position as i128)) / (20 * (target_quantity as i128))
}

/// Spacing increment before snapping, for the long side when `round_term` is
/// false and for the short side when it is true.
fn raw_increment(inputs: &IncrementInputs, round_term: bool) -> (r: i128)
    requires
        inputs.wf(),
    ensures
        r == if round_term { inputs.short_raw() } else { inputs.long_raw() },
        0 < r <= 0x1_0000_0000_0000_0000_0000_0000_0000,
{
    let ghost b = inputs.base_increment as int;
    let ghost m = inputs.max_position as int;
    let ghost p = inputs.position as int;
    let amp = amplitude(inputs.position, inputs.soft_position, inputs.max_position);
    let hr = half_range(inputs.base_increment, inputs.max_position, inputs.target_quantity);
    let ghost v = VALUE_BOUND as int;
    let ghost sup_bound = v * v / 2 * v;
    let ghost rd_bound = sup_bound * SCALE + VALUE_BOUND + SCALE;
    proof {
        lemma_mul_bounds(hr as int, p, v * v / 2, v);
        lemma_div_bounds(hr * p, m, sup_bound);
    }
    let supposed: i128 = (hr * inputs.position as i128) / inputs.max_position as i128;
    let diff: i128 = inputs.range_from as i128 - inputs.range_to as i128;
    let current: i128 = if diff > 0 { diff } else { 0 };
    let r_delta: i128 = if supposed > current {
        proof {
            lemma_mul_bounds(supposed - current, SCALE as int, sup_bound, SCALE as int);
            lemma_div_bounds((supposed - current) * SCALE + b - 1, b, sup_bound * SCALE + VALUE_BOUND);
        }
        ((supposed - current) * SCALE as i128 + inputs.base_increment as i128 - 1) / inputs.base_increment as i128 + SCALE as i128
    } else {
        0
    };
    assert(0 <= r_delta <= rd_bound);
    proof {
        lemma_mul_bounds(r_delta as int, SCALE as int, rd_bound, SCALE as int);
        assert(rd_bound * SCALE < 0x1000_0000_0000_0000_0000_0000_0000_0000int);
    }
    let root: u128 = isqrt((r_delta * SCALE as i128) as u128);
    proof {
        crate::fixed::lemma_floor_sqrt_bounds(r_delta * SCALE);
        assert(root < 0x8000_0000_0000_0000) by (nonlinear_arith)
            requires root * root <= r_delta * SCALE, r_delta * SCALE < 0x1000_0000_0000_0000_0000_0000_0000_0000int, root >= 0;
        lemma_mul_bounds(inputs.acceleration as int, root as int, ACCEL_BOUND as int, 0x8000_0000_0000_0000int);
        lemma_div_bounds(inputs.acceleration * root, SCALE as int, ACCEL_BOUND * 0x8000_0000_0000_0000int);
    }
    let scaled: i128 = (inputs.acceleration as i128 * root as i128) / SCALE as i128;
    let ghost prod_bound = ACCEL_BOUND * 0x8000_0000_0000_0000int;
    let ghost scaled_bound = prod_bound / (SCALE as int);
    let ghost amp_bound = SCALE + VALUE_BOUND * SCALE;
    proof {
        let n = inputs.acceleration * root;
        assert(n / (SCALE as int) <= prod_bound / (SCALE as int)) by (nonlinear_arith)
            requires 0 <= n <= prod_bound, SCALE > 0;
        lemma_mul_bounds(scaled as int, amp as int, scaled_bound, amp_bound);
        lemma_div_bounds(scaled * amp, SCALE as int, scaled_bound * amp_bound);
        assert((scaled * amp) / (SCALE as int) <= (scaled_bound * amp_bound) / (SCALE as int)) by (nonlinear_arith)
            requires 0 <= scaled * amp <= scaled_bound * amp_bound, SCALE > 0;
    }
    let term: i128 = scaled * amp / SCALE as i128;
    assert(term == inputs.term());
    if round_term {
        let rounded = round_to_multiple(term, SCALE as i128 / 10);
        proof {
            let t = term as int;
            assert(rounded <= t + 500) by (nonlinear_arith)
                requires rounded == ((t + 500) / 1000) * 1000, t >= 0;
            assert(rounded >= 0) by (nonlinear_arith)
                requires rounded == ((t + 500) / 1000) * 1000, t >= 0;
        }
        inputs.base_increment as i128 + rounded
    } else {
        inputs.base_increment as i128 + term
    }
}

/// Snaps a raw increment to the nearest quarter below two units, else to the nearest half.
pub fn snap_increment(raw: i128) -> (r: i128)
    requires
        0 < raw <= 0x1_0000_0000_0000_0000_0000_0000_0000,
    ensures
        r == snap_increment_spec(raw as int),
{
    if raw < 2 * SCALE as i128 {
        round_to_multiple(raw, SCALE as i128 / 4)
    } else {
        round_to_multiple(raw, SCALE as i128 / 2)
    }
}

/// Long-side increment.
pub fn long_increment(inputs: &IncrementInputs) -> (r: i128)
    requires
        inputs.wf(),
    ensures
        r == snap_increment_spec(inputs.long_raw()),
{
    snap_increment(raw_increment(inputs, false))
}

/// Short-side increment; its acceleration term is rounded to a tenth first.
pub fn short_increment(inputs: &IncrementInputs) -> (r: i128)
    requires
        inputs.wf(),
    ensures
        r == snap_increment_spec(inputs.short_raw()),
{
    snap_increment(raw_increment(inputs, true))
}

impl IncrementInputs {
    pub open spec fn range_supposed(&self) -> int {
        range_supposed_spec(
            half_range_spec(self.base_increment as int, self.max_position as int, self.target_quantity as int),
            self.position as int,
            self.max_position as int,
        )
    }

    pub open spec fn range_current(&self) -> int {
        range_current_spec(self.range_from as int, self.range_to as int)
    }

    /// Price excursion the position would imply at the model's spacing.
    pub fn range_supposed_of(&self) -> (r: i128)
        requires
            self.wf(),
        ensures
            r == self.range_supposed(),
    {
        let hr = half_range(self.base_increment, self.max_position, self.target_quantity);
        proof {
            let v = VALUE_BOUND as int;
            lemma_mul_bounds(hr as int, self.position as int, v * v / 2, v);
        }
        (hr * self.position as i128) / self.max_position as i128
    }

    /// Distance by which the last open fill has moved past the entry price.
    pub fn range_current_of(&self) -> (r: i128)
        requires
            self.wf(),
        ensures
            r == self.range_current(),
    {
        let diff: i128 = self.range_from as i128 - self.range_to as i128;
        if diff > 0 { diff } else { 0 }
    }

    /// Shortfall of the realized range against the supposed one, in base increments plus one.
    pub fn r_delta_of(&self) -> (r: i128)
        requires
            self.wf(),
        ensures
            r == self.r_delta(),
    {
        let supposed = self.range_supposed_of();
        let current = self.range_current_of();
        let hr_exec = half_range(self.base_increment, self.max_position, self.target_quantity);
        if supposed > current {
            proof {
                let v = VALUE_BOUND as int;
                let hr = hr_exec as int;
                lemma_mul_bounds(hr, self.position as int, v * v / 2, v);
                lemma_div_bounds(hr * self.position, self.max_position as int, v * v / 2 * v);
                lemma_mul_bounds(supposed - current, SCALE as int, v * v / 2 * v, SCALE as int);
                lemma_div_bounds((supposed - current) * SCALE + self.base_increment - 1, self.base_increment as int, v * v / 2 * v * SCALE + v);
            }
            let scaled: i128 = (supposed - current) * SCALE as i128 + self.base_increment as i128 - 1;
            let steps: i128 = scaled / self.base_increment as i128;
            assert(steps <= VALUE_BOUND * VALUE_BOUND / 2 * VALUE_BOUND * SCALE + VALUE_BOUND);
            steps + SCALE as i128
        } else {
            0
        }
    }
}

/// Unsnapped long-side increment.
pub fn long_increment_raw(inputs: &IncrementInputs) -> (r: i128)
    requires
        inputs.wf(),
    ensures
        r == inputs.long_raw(),
{
    raw_increment(inputs, false)
}

/// Unsnapped short-side increment.
pub fn short_increment_raw(inputs: &IncrementInputs) -> (r: i128)
    requires
        inputs.wf(),
    ensures
        r == inputs.short_raw(),
{
    raw_increment(inputs, true)
}

/// The shortfall term is either zero or more than one whole unit.
pub proof fn lemma_r_delta_zero_or_above_one(supposed: int, current: int, base_increment: int)
    requires
        base_increment > 0,
    ensures
        r_delta_spec(supposed, current, base_increment) == 0 || r_delta_spec(supposed, current, base_increment) > SCALE,
{
    if supposed > current {
        let n = (supposed - current) * SCALE + base_increment - 1;
        assert(n / base_increment >= 1) by (nonlinear_arith)
            requires n >= base_increment, base_increment > 0;
    }
}

/// At exactly the soft position the amplitude is one whole unit.
pub proof fn lemma_amplitude_at_soft_position(soft: int, max: int)
    requires
        0 <= soft < max,
    ensures
        amplitude_spec(soft, soft, max) == SCALE,
        forall|p: int| p < soft ==> amplitude_spec(p, soft, max) == 0,
{
}

} // verus!
