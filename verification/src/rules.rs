//! The derivation rule engine's building blocks: rule descriptions, the
//! creation gate that decides which rule a newly seen metric spawns, and the
//! exact fixed-point arithmetic of the two executed rule kinds.

use vstd::prelude::*;
use vstd::string::*;
use crate::metric::{
    is_numeric, micros_of, Metric, MetricModel, MetricRawUnit, MetricUnit, MetricValue,
    OrderOfMagnitude, ValueModel,
};
use crate::strutil::str_ends_with;

verus! {

/// The number of most-recent samples a moving-average rule looks at.
pub const MOVING_AVERAGE_DEPTH: usize = 32;

/// The kind of computation a derivation rule performs.
#[derive(Debug, Clone, Copy, PartialEq, Eq, Structural)]
pub enum AutoMetricRuleType {
    /// Differentiate the source's history over time, producing a rate.
    TimeDifferentiate,
    /// Average the `depth` most recent history samples of the source.
    MovingAverage { depth: usize },
    /// Declared for extensibility: recognized, but never executed by the
    /// engine. The smoothing weight is carried in micros.
    ExpFalloffAverage { alpha_micros: i64 },
}

/// A registered derivation rule: reads the metric named `src_metric_name`,
/// writes the metric named `dst_metric_name`.
#[derive(Debug)]
pub struct AutoMetricRule {
    pub src_metric_name: String,
    pub dst_metric_name: String,
    pub rule_type: AutoMetricRuleType,
}

/// The mathematical shape of an [`AutoMetricRule`].
pub struct RuleModel {
    pub src: Seq<char>,
    pub dst: Seq<char>,
    pub rule_type: AutoMetricRuleType,
}

impl View for AutoMetricRule {
    type V = RuleModel;

    open spec fn view(&self) -> RuleModel {
        RuleModel {
            src: self.src_metric_name@,
            dst: self.dst_metric_name@,
            rule_type: self.rule_type,
        }
    }
}

/// Whether a label already names a moving average.
pub open spec fn ends_with_avg(label: Seq<char>) -> bool {
    label.len() >= 4 && label.skip(label.len() - 4) == "-avg"@
}

/// The rule, if any, that the first sight of a history-kind metric creates:
/// a counter with a non-rate unit is differentiated into `<label>-ps`; a
/// metric that is already a rate is averaged into `<label>-avg`, unless its
/// label shows it is itself an average. Non-numeric values gate no rule.
pub open spec fn spec_gate_rule(m: MetricModel) -> Option<RuleModel> {
    if !is_numeric(m.value) {
        None
    } else if !(m.unit.raw_unit_den is Seconds) {
        if !(m.unit.raw_unit_num is NoUnit) && !(m.unit.raw_unit_num is Seconds) {
            Some(
                RuleModel {
                    src: m.label,
                    dst: m.label + "-ps"@,
                    rule_type: AutoMetricRuleType::TimeDifferentiate,
                },
            )
        } else {
            None
        }
    } else if !ends_with_avg(m.label) {
        Some(
            RuleModel {
                src: m.label,
                dst: m.label + "-avg"@,
                rule_type: AutoMetricRuleType::MovingAverage { depth: MOVING_AVERAGE_DEPTH },
            },
        )
    } else {
        None
    }
}

/// Evaluates the creation gate for a metric.
pub fn gate_rule_for(metric: &Metric) -> (r: Option<AutoMetricRule>)
    ensures
        match spec_gate_rule(metric@) {
            Some(rm) => r is Some && r->0@ == rm,
            None => r is None,
        },
{
    proof {
        reveal_strlit("-avg");
    }
    if !metric.get_value().is_numeric() {
        return None;
    }
    let (num, den) = metric.get_unit().get_raw_unit();
    if !matches!(den, MetricRawUnit::Seconds) {
        if !matches!(num, MetricRawUnit::NoUnit) && !matches!(num, MetricRawUnit::Seconds) {
            Some(
                AutoMetricRule {
                    src_metric_name: String::from_str(metric.get_label()),
                    dst_metric_name: String::from_str(metric.get_label()).concat("-ps"),
                    rule_type: AutoMetricRuleType::TimeDifferentiate,
                },
            )
        } else {
            None
        }
    } else if !str_ends_with(metric.get_label(), "-avg") {
        Some(
            AutoMetricRule {
                src_metric_name: String::from_str(metric.get_label()),
                dst_metric_name: String::from_str(metric.get_label()).concat("-avg"),
                rule_type: AutoMetricRuleType::MovingAverage { depth: MOVING_AVERAGE_DEPTH },
            },
        )
    } else {
        None
    }
}

/// Law (no re-derivation chain on averages): a label that already ends in
/// `-avg` never spawns a moving-average rule.
pub proof fn lemma_no_average_of_average(m: MetricModel)
    requires
        ends_with_avg(m.label),
    ensures
        !(spec_gate_rule(m) matches Some(r) && r.rule_type is MovingAverage),
{
}

/// The order of magnitude of a rate derived from a counter with numerator
/// `num`: counters of bytes are taken as kilo-scaled and counters of bits as
/// mega-scaled.
pub open spec fn correction_oom(num: MetricRawUnit) -> OrderOfMagnitude {
    match num {
        MetricRawUnit::Bytes => OrderOfMagnitude::Kilo,
        MetricRawUnit::Bits => OrderOfMagnitude::Mega,
        _ => OrderOfMagnitude::One,
    }
}

/// The divisor that undoes the scaling of [`correction_oom`].
pub open spec fn correction_divisor(num: MetricRawUnit) -> int {
    match num {
        MetricRawUnit::Bytes => 1000,
        MetricRawUnit::Bits => 1000000,
        _ => 1,
    }
}

/// Integer division truncated toward zero (the sign convention of casting a
/// real quotient to an integer).
pub open spec fn trunc_div(a: int, b: int) -> int {
    if a >= 0 {
        a / b
    } else {
        -((-a) / b)
    }
}

/// Saturation of a mathematical integer into the `i64` range.
pub open spec fn sat_i64(x: int) -> i64 {
    if x > i64::MAX {
        i64::MAX
    } else if x < i64::MIN {
        i64::MIN
    } else {
        x as i64
    }
}

/// The value of a derived rate metric: the correction-scaled difference of
/// the two samples' numeric coercions divided by the elapsed time, truncated
/// to a whole number of (scaled) units per second.
pub open spec fn spec_rate_value(
    first: ValueModel,
    second: ValueModel,
    num: MetricRawUnit,
    time_diff_us: u64,
) -> i64 {
    sat_i64(
        trunc_div(
            micros_of(first) - micros_of(second),
            correction_divisor(num) * (time_diff_us as int),
        ),
    )
}

/// The whole derived rate metric: numerator kept, denominator forced to
/// seconds, magnitude set by the correction.
pub open spec fn spec_rate_metric(
    first: ValueModel,
    second: ValueModel,
    src_unit: MetricUnit,
    dst: Seq<char>,
    time_diff_us: u64,
) -> MetricModel {
    MetricModel {
        label: dst,
        unit: MetricUnit {
            raw_unit_num: src_unit.raw_unit_num,
            raw_unit_den: MetricRawUnit::Seconds,
            order_of_magnitude: correction_oom(src_unit.raw_unit_num),
        },
        value: ValueModel::Integer(spec_rate_value(first, second, src_unit.raw_unit_num, time_diff_us)),
    }
}

/// Divides `a` by `b`, truncating toward zero and saturating the result into
/// the `i64` range.
fn trunc_div_sat(a: i128, b: i128) -> (r: i64)
    requires
        1 <= b,
        -0x40000000000000000000000000000000 < a,
    ensures
        r == sat_i64(trunc_div(a as int, b as int)),
{
    if a >= 0 {
        let q: u128 = (a as u128) / (b as u128);
        if q > 0x7fffffffffffffffu128 {
            i64::MAX
        } else {
            q as i64
        }
    } else {
        let q: u128 = ((-a) as u128) / (b as u128);
        if q > 0x8000000000000000u128 {
            i64::MIN
        } else {
            (-(q as i128)) as i64
        }
    }
}

/// Derives the rate metric named `dst_name` from the two history samples of
/// a counter whose unit is `src_unit`, `time_diff_us` microseconds apart.
pub fn metric_from_time_diff(
    first: &MetricValue,
    second: &MetricValue,
    src_unit: &MetricUnit,
    dst_name: &str,
    time_diff_us: u64,
) -> (r: Option<Metric>)
    requires
        time_diff_us >= 1,
    ensures
        r is Some,
        r->0@ == spec_rate_metric(first@, second@, *src_unit, dst_name@, time_diff_us),
{
    let diff: i128 = first.to_micros() - second.to_micros();
    let divisor: u64 = match src_unit.get_raw_unit().0 {
        MetricRawUnit::Bytes => 1000,
        MetricRawUnit::Bits => 1000000,
        _ => 1,
    };
    let den: i128 = (divisor as i128) * (time_diff_us as i128);
    proof {
        assert((divisor as int) * (time_diff_us as int) <= 1000000int * (u64::MAX as int)) by (nonlinear_arith)
            requires
                divisor <= 1000000,
                time_diff_us <= u64::MAX,
        ;
        assert((divisor as int) * (time_diff_us as int) >= 1int * 1int) by (nonlinear_arith)
            requires
                divisor >= 1,
                time_diff_us >= 1,
        ;
    }
    let rate_value = trunc_div_sat(diff, den);
    let order_of_magnitude = match src_unit.get_raw_unit().0 {
        MetricRawUnit::Bytes => OrderOfMagnitude::Kilo,
        MetricRawUnit::Bits => OrderOfMagnitude::Mega,
        _ => OrderOfMagnitude::One,
    };
    Some(
        Metric::new(
            String::from_str(dst_name),
            MetricUnit::new(
                *src_unit.get_raw_unit().0,
                MetricRawUnit::Seconds,
                order_of_magnitude,
            ),
            MetricValue::Integer(rate_value),
        ),
    )
}

/// The sum, in micros, of the numeric coercions of the `k` most recent
/// history samples.
pub open spec fn sum_micros(h: Seq<(u64, ValueModel)>, k: int) -> int
    decreases k,
{
    if k <= 0 {
        0
    } else {
        sum_micros(h, k - 1) + micros_of(h[k - 1].1)
    }
}

/// The moving average, in micros, over the `depth` most recent samples
/// (fewer when the history is shorter), truncated toward zero.
pub open spec fn spec_avg_micros(h: Seq<(u64, ValueModel)>, depth: int) -> int {
    let k = if depth < h.len() {
        depth
    } else {
        h.len() as int
    };
    trunc_div(sum_micros(h, k), k)
}

/// The whole derived moving-average metric: the source's unit is kept
/// unchanged.
pub open spec fn spec_avg_metric(
    h: Seq<(u64, ValueModel)>,
    depth: int,
    src_unit: MetricUnit,
    dst: Seq<char>,
) -> MetricModel {
    MetricModel {
        label: dst,
        unit: src_unit,
        value: ValueModel::Number(sat_i64(spec_avg_micros(h, depth))),
    }
}

/// Builds the moving-average metric named `dst_name` from an averaged value
/// in micros.
pub fn metric_from_avg(value_micros: i64, src_unit: &MetricUnit, dst_name: &str) -> (r: Option<
    Metric,
>)
    ensures
        r is Some,
        r->0@ == (MetricModel {
            label: dst_name@,
            unit: *src_unit,
            value: ValueModel::Number(value_micros),
        }),
{
    Some(Metric::new(String::from_str(dst_name), *src_unit, MetricValue::Number(value_micros)))
}

/// Whether history sample `j` qualifies as a differentiation baseline: it is
/// not newer than the head sample, and it lies at least `deltat_us`
/// microseconds behind it.
pub open spec fn qualifies(h: Seq<(u64, ValueModel)>, j: int, deltat_us: u64) -> bool {
    h[0].0 >= h[j].0 && h[0].0 - h[j].0 >= deltat_us
}

/// The differentiation baseline among the samples at indices `1..n`: the
/// highest-indexed (oldest) qualifying sample, so the rate is taken over the
/// widest available window at least `deltat_us` wide.
pub open spec fn last_qualifying(h: Seq<(u64, ValueModel)>, deltat_us: u64, n: int) -> Option<int>
    decreases n,
{
    if n <= 1 {
        None
    } else if qualifies(h, n - 1, deltat_us) {
        Some(n - 1)
    } else {
        last_qualifying(h, deltat_us, n - 1)
    }
}

/// The model of an executable history: each sample's value abstracted to its
/// mathematical shape.
pub open spec fn history_model(h: Seq<(u64, MetricValue)>) -> Seq<(u64, ValueModel)> {
    h.map_values(|p: (u64, MetricValue)| (p.0, p.1@))
}

/// Averages the numeric coercions of the `depth` most recent samples of
/// `history`, returning the result in micros; `None` when there is nothing
/// to average, because the history is empty or the depth is zero.
pub fn moving_average(history: &std::collections::VecDeque<(u64, MetricValue)>, depth: usize) -> (r:
    Option<i64>)
    requires
        history@.len() <= 1000000,
    ensures
        history@.len() == 0 || depth == 0 ==> r is None,
        history@.len() > 0 && depth > 0 ==> r == Some(
            sat_i64(spec_avg_micros(history_model(history@), depth as int)),
        ),
{
    let ghost h = history_model(history@);
    let count: usize = if depth < history.len() {
        depth
    } else {
        history.len()
    };
    if count == 0 {
        return None;
    }
    let mut sum: i128 = 0;
    let mut i: usize = 0;
    while i < count
        invariant
            h == history_model(history@),
            h.len() == history@.len(),
            history@.len() <= 1000000,
            count <= history@.len(),
            i <= count,
            sum == sum_micros(h, i as int),
            -(i as i128) * 0x20000000000000000000000i128 <= sum <= (i as i128)
                * 0x20000000000000000000000i128,
        decreases count - i,
    {
        let sample_micros: i128 = history[i].1.to_micros();
        proof {
            assert(h[i as int] == (history@[i as int].0, history@[i as int].1@));
            assert(-0x20000000000000000000000i128 <= sample_micros
                <= 0x20000000000000000000000i128);
            assert((i as i128 + 1) * 0x20000000000000000000000i128 == (i as i128)
                * 0x20000000000000000000000i128 + 0x20000000000000000000000i128) by (nonlinear_arith);
            assert((i as int) * 0x20000000000000000000000 <= 1000000int
                * 0x20000000000000000000000) by (nonlinear_arith)
                requires
                    0 <= i <= 1000000,
            ;
        }
        sum = sum + sample_micros;
        i = i + 1;
    }
    proof {
        assert((count as int) * 0x20000000000000000000000 <= 1000000int
            * 0x20000000000000000000000) by (nonlinear_arith)
            requires
                0 <= count <= 1000000,
        ;
    }
    Some(trunc_div_sat(sum, count as i128))
}

} // verus!
