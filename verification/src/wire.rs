//! Reading metrics out of a parsed JSON document. The JSON tree itself is a
//! value of the `json` crate and opaque here; small trusted wrappers extract
//! plain values from it, each one specified by an uninterpreted name for its
//! reading, and the verified functions below decide from those readings
//! alone what each record means. Number nodes are taken apart into sign,
//! mantissa and decimal exponent, and both numeric readings are computed by
//! verified, total arithmetic.

use vstd::prelude::*;
use crate::metric::{pow10, spec_unit_from_token, Metric, MetricModel, MetricUnit, MetricValue, ValueModel};
use crate::rules::sat_i64;
use crate::strutil::str_eq;

verus! {

#[verifier::external_type_specification]
#[verifier::external_body]
pub struct ExJsonValue(json::JsonValue);

/// Whether a node is a JSON object.
pub uninterp spec fn json_node_is_object(v: json::JsonValue) -> bool;

/// The member of an object node under a key (the null node for a missing
/// member or a non-object node).
pub uninterp spec fn json_member_of(v: json::JsonValue, key: Seq<char>) -> json::JsonValue;

/// The text of a string node; nothing for any other node.
pub uninterp spec fn json_text_of(v: json::JsonValue) -> Option<Seq<char>>;

/// The unsigned whole-number reading of a number node, when it has one.
pub uninterp spec fn json_u64_of(v: json::JsonValue) -> Option<u64>;

/// The decimal parts of a number node: whether it is non-negative, its
/// mantissa, and its base-ten exponent; nothing for any other node.
pub uninterp spec fn json_number_parts_of(v: json::JsonValue) -> Option<(bool, u64, i16)>;

/// The elements of an array node, in order (empty for any other node).
pub uninterp spec fn json_array_of(v: json::JsonValue) -> Seq<json::JsonValue>;

/// Relies on json::JsonValue::is_object: whether the node is a JSON object.
#[verifier::external_body]
fn json_is_object(v: &json::JsonValue) -> (r: bool)
    ensures
        r == json_node_is_object(*v),
{
    v.is_object()
}

/// Relies on the json crate's `Index<&str>` for JsonValue: the named member
/// of an object, or the null node for anything else.
#[verifier::external_body]
fn json_field<'a>(v: &'a json::JsonValue, key: &str) -> (r: &'a json::JsonValue)
    ensures
        *r == json_member_of(*v, key@),
{
    &v[key]
}

/// Relies on json::JsonValue::as_str: the text of a string node.
#[verifier::external_body]
fn json_as_str(v: &json::JsonValue) -> (r: Option<String>)
    ensures
        match json_text_of(*v) {
            Some(t) => r is Some && r->0@ == t,
            None => r is None,
        },
{
    v.as_str().map(|s| s.to_string())
}

/// Relies on json::JsonValue::as_u64: a number node as an unsigned whole
/// number, when it fits.
#[verifier::external_body]
fn json_as_u64(v: &json::JsonValue) -> (r: Option<u64>)
    ensures
        r == json_u64_of(*v),
{
    v.as_u64()
}

/// Relies on json::JsonValue::as_number and json::number::Number::as_parts:
/// the sign, mantissa and decimal exponent of a number node, extracted as
/// plain values. Neither call can fail or panic; everything computed from
/// the parts is verified code.
#[verifier::external_body]
fn json_number_parts(v: &json::JsonValue) -> (r: Option<(bool, u64, i16)>)
    ensures
        r == json_number_parts_of(*v),
{
    v.as_number().map(|n| n.as_parts())
}

/// Relies on json::JsonValue::members: the elements of an array node, empty
/// for anything else.
#[verifier::external_body]
fn json_members<'a>(v: &'a json::JsonValue) -> (r: Vec<&'a json::JsonValue>)
    ensures
        r@.len() == json_array_of(*v).len(),
        forall|i: int| 0 <= i < r@.len() ==> *(r@[i]) == json_array_of(*v)[i],
{
    v.members().collect()
}

/// Powers of ten only grow.
proof fn lemma_pow10_mono(a: nat, b: nat)
    requires
        a <= b,
    ensures
        1 <= pow10(a) <= pow10(b),
    decreases b,
{
    if b > 0 {
        if a == b {
            lemma_pow10_mono(0, (b - 1) as nat);
        } else {
            lemma_pow10_mono(a, (b - 1) as nat);
        }
    }
}

/// 10 raised to `d`, for exponents that fit a `u64`.
fn pow10_u64(d: u32) -> (r: u64)
    requires
        d <= 19,
    ensures
        r as nat == pow10(d as nat),
{
    proof {
        reveal_with_fuel(pow10, 20);
    }
    let mut acc: u64 = 1;
    let mut i: u32 = 0;
    while i < d
        invariant
            i <= d <= 19,
            acc as nat == pow10(i as nat),
            acc <= 10000000000000000000u64,
        decreases d - i,
    {
        proof {
            lemma_pow10_mono((i + 1) as nat, 19);
            assert(pow10(19) == 10000000000000000000) by {
                reveal_with_fuel(pow10, 20);
            }
        }
        acc = acc * 10;
        i = i + 1;
    }
    acc
}

/// The whole-number reading of a number node's parts: defined only for
/// exponent zero, and only when the signed mantissa fits an `i64`.
pub open spec fn spec_i64_of_parts(positive: bool, mantissa: u64, exponent: i16) -> Option<i64> {
    if exponent != 0 {
        None
    } else {
        let value = if positive {
            mantissa as int
        } else {
            -(mantissa as int)
        };
        if i64::MIN <= value <= i64::MAX {
            Some(value as i64)
        } else {
            None
        }
    }
}

/// The fixed-point reading of a number node's parts: the number scaled to
/// millionths, truncated toward zero and saturated into the `i64` range.
pub open spec fn spec_micros_of_parts(positive: bool, mantissa: u64, exponent: i16) -> i64 {
    let e = exponent as int + 6;
    let mag = if e >= 0 {
        (mantissa as int) * (pow10(e as nat) as int)
    } else {
        (mantissa as int) / (pow10((-e) as nat) as int)
    };
    sat_i64(
        if positive {
            mag
        } else {
            -mag
        },
    )
}

/// Computes the whole-number reading from a number node's parts.
fn i64_from_parts(positive: bool, mantissa: u64, exponent: i16) -> (r: Option<i64>)
    ensures
        r == spec_i64_of_parts(positive, mantissa, exponent),
{
    if exponent != 0 {
        None
    } else if positive {
        if mantissa <= 0x7fffffffffffffffu64 {
            Some(mantissa as i64)
        } else {
            None
        }
    } else {
        if mantissa < 0x8000000000000000u64 {
            Some(-(mantissa as i64))
        } else if mantissa == 0x8000000000000000u64 {
            Some(i64::MIN)
        } else {
            None
        }
    }
}

/// Computes the fixed-point micros reading from a number node's parts,
/// exactly and totally: huge exponents saturate, tiny ones truncate to
/// zero.
fn micros_from_parts(positive: bool, mantissa: u64, exponent: i16) -> (r: i64)
    ensures
        r == spec_micros_of_parts(positive, mantissa, exponent),
{
    let e32: i32 = exponent as i32 + 6;
    if e32 >= 0 {
        if mantissa == 0 {
            return 0;
        }
        if e32 >= 19 {
            // the magnitude is at least 10^19, beyond the i64 range
            proof {
                lemma_pow10_mono(19, e32 as nat);
                assert(pow10(19) == 10000000000000000000) by {
                    reveal_with_fuel(pow10, 20);
                }
                assert((mantissa as int) * (pow10(e32 as nat) as int) >= 1int * (pow10(
                    e32 as nat,
                ) as int)) by (nonlinear_arith)
                    requires
                        mantissa >= 1,
                ;
            }
            if positive {
                i64::MAX
            } else {
                i64::MIN
            }
        } else {
            let factor = pow10_u64(e32 as u32);
            proof {
                lemma_pow10_mono(e32 as nat, 19);
                assert(pow10(19) == 10000000000000000000) by {
                    reveal_with_fuel(pow10, 20);
                }
                assert((mantissa as int) * (factor as int) <= (u64::MAX as int) * (pow10(
                    19,
                ) as int)) by (nonlinear_arith)
                    requires
                        0 <= mantissa <= u64::MAX,
                        0 <= factor <= pow10(19),
                ;
            }
            let scaled: u128 = (mantissa as u128) * (factor as u128);
            if positive {
                if scaled > 0x7fffffffffffffffu128 {
                    i64::MAX
                } else {
                    scaled as i64
                }
            } else {
                if scaled > 0x8000000000000000u128 {
                    i64::MIN
                } else {
                    (-(scaled as i128)) as i64
                }
            }
        }
    } else {
        let d: u32 = (-(e32 as i64)) as u32;
        if d >= 20 {
            // the divisor exceeds any u64 mantissa, so the reading is zero
            proof {
                lemma_pow10_mono(20, d as nat);
                assert(pow10(20) == 100000000000000000000) by {
                    reveal_with_fuel(pow10, 21);
                }
                vstd::arithmetic::div_mod::lemma_basic_div(
                    mantissa as int,
                    pow10(d as nat) as int,
                );
            }
            0
        } else {
            let divisor = pow10_u64(d);
            proof {
                lemma_pow10_mono(1, d as nat);
            }
            let q: u64 = mantissa / divisor;
            if positive {
                if q > 0x7fffffffffffffffu64 {
                    i64::MAX
                } else {
                    q as i64
                }
            } else {
                if q < 0x8000000000000000u64 {
                    -(q as i64)
                } else {
                    i64::MIN
                }
            }
        }
    }
}

/// The whole-number reading of a node.
pub open spec fn spec_node_i64(v: json::JsonValue) -> Option<i64> {
    match json_number_parts_of(v) {
        Some(p) => spec_i64_of_parts(p.0, p.1, p.2),
        None => None,
    }
}

/// The fixed-point micros reading of a node.
pub open spec fn spec_node_micros(v: json::JsonValue) -> Option<i64> {
    match json_number_parts_of(v) {
        Some(p) => Some(spec_micros_of_parts(p.0, p.1, p.2)),
        None => None,
    }
}

/// Reads a node as a whole number.
fn node_as_i64(v: &json::JsonValue) -> (r: Option<i64>)
    ensures
        r == spec_node_i64(*v),
{
    match json_number_parts(v) {
        Some((positive, mantissa, exponent)) => i64_from_parts(positive, mantissa, exponent),
        None => None,
    }
}

/// Reads a node as a count of micros.
fn node_as_micros(v: &json::JsonValue) -> (r: Option<i64>)
    ensures
        r == spec_node_micros(*v),
{
    match json_number_parts(v) {
        Some((positive, mantissa, exponent)) => Some(
            micros_from_parts(positive, mantissa, exponent),
        ),
        None => None,
    }
}

/// Why a `{type, value}` record could not be read as a metric value.
#[derive(Debug, Clone, Copy, PartialEq, Eq, Structural)]
pub enum ValueParseError {
    /// The record is not a JSON object.
    NotAnObject,
    /// The record has no `type` member of string kind.
    MissingType,
    /// The metric record has no `label` member of string kind.
    MissingLabel,
    /// The `value` member cannot be read at the tagged type.
    WrongValue,
    /// The `type` member names no known kind.
    UnknownType,
}

/// The meaning of a `{type, value}` record, decided from its extracted
/// parts: the type tag, and the value member read as text, as a whole
/// number, and as a count of micros. `empty` needs no value; `string`,
/// `integer` and `number` each demand the matching reading; every other tag
/// is unknown.
pub open spec fn spec_value_from_parts(
    tag: Option<Seq<char>>,
    text: Option<Seq<char>>,
    integer: Option<i64>,
    micros: Option<i64>,
) -> Result<ValueModel, ValueParseError> {
    match tag {
        None => Err(ValueParseError::MissingType),
        Some(t) => {
            if t == "empty"@ {
                Ok(ValueModel::Empty)
            } else if t == "string"@ {
                match text {
                    Some(s) => Ok(ValueModel::Text(s)),
                    None => Err(ValueParseError::WrongValue),
                }
            } else if t == "integer"@ {
                match integer {
                    Some(i) => Ok(ValueModel::Integer(i)),
                    None => Err(ValueParseError::WrongValue),
                }
            } else if t == "number"@ {
                match micros {
                    Some(m) => Ok(ValueModel::Number(m)),
                    None => Err(ValueParseError::WrongValue),
                }
            } else {
                Err(ValueParseError::UnknownType)
            }
        },
    }
}

/// Builds a metric value from the extracted parts of a `{type, value}`
/// record, exactly as [`spec_value_from_parts`] decides.
pub fn metric_value_from_parts(
    tag: Option<String>,
    text: Option<String>,
    integer: Option<i64>,
    micros: Option<i64>,
) -> (r: Result<MetricValue, ValueParseError>)
    ensures
        match spec_value_from_parts(
            match tag {
                Some(t) => Some(t@),
                None => None,
            },
            match text {
                Some(s) => Some(s@),
                None => None,
            },
            integer,
            micros,
        ) {
            Ok(v) => r is Ok && r->Ok_0@ == v,
            Err(e) => r == Result::<MetricValue, ValueParseError>::Err(e),
        },
{
    let t = match tag {
        Some(t) => t,
        None => {
            return Err(ValueParseError::MissingType);
        },
    };
    if str_eq(t.as_str(), "empty") {
        Ok(MetricValue::Empty)
    } else if str_eq(t.as_str(), "string") {
        match text {
            Some(s) => Ok(MetricValue::String(s)),
            None => Err(ValueParseError::WrongValue),
        }
    } else if str_eq(t.as_str(), "integer") {
        match integer {
            Some(i) => Ok(MetricValue::Integer(i)),
            None => Err(ValueParseError::WrongValue),
        }
    } else if str_eq(t.as_str(), "number") {
        match micros {
            Some(m) => Ok(MetricValue::Number(m)),
            None => Err(ValueParseError::WrongValue),
        }
    } else {
        Err(ValueParseError::UnknownType)
    }
}

/// The meaning of a `{type, value}` record node: a non-object is refused,
/// and everything else is decided by [`spec_value_from_parts`] over the
/// node's readings.
pub open spec fn spec_metric_value_of_node(v: json::JsonValue) -> Result<
    ValueModel,
    ValueParseError,
> {
    if !json_node_is_object(v) {
        Err(ValueParseError::NotAnObject)
    } else {
        spec_value_from_parts(
            json_text_of(json_member_of(v, "type"@)),
            json_text_of(json_member_of(v, "value"@)),
            spec_node_i64(json_member_of(v, "value"@)),
            spec_node_micros(json_member_of(v, "value"@)),
        )
    }
}

/// Reads a `{type, value}` record as a metric value. Only the reading the
/// type tag demands is taken from the value member; the result is exactly
/// what [`spec_metric_value_of_node`] decides over the node's readings.
pub fn metric_value_from_json(v: &json::JsonValue) -> (r: Result<MetricValue, ValueParseError>)
    ensures
        match spec_metric_value_of_node(*v) {
            Ok(m) => r is Ok && r->Ok_0@ == m,
            Err(e) => r == Result::<MetricValue, ValueParseError>::Err(e),
        },
{
    if !json_is_object(v) {
        return Err(ValueParseError::NotAnObject);
    }
    let tag = json_as_str(json_field(v, "type"));
    let value_field = json_field(v, "value");
    let mut text: Option<String> = None;
    let mut integer: Option<i64> = None;
    let mut micros: Option<i64> = None;
    match &tag {
        Some(t) => {
            if str_eq(t.as_str(), "string") {
                text = json_as_str(value_field);
            } else if str_eq(t.as_str(), "integer") {
                integer = node_as_i64(value_field);
            } else if str_eq(t.as_str(), "number") {
                micros = node_as_micros(value_field);
            }
        },
        None => {},
    }
    metric_value_from_parts(tag, text, integer, micros)
}

/// The unit a unit node denotes: its text read as a compact token, or the
/// neutral unit for a non-string node.
pub open spec fn spec_unit_of_node(v: json::JsonValue) -> MetricUnit {
    match json_text_of(v) {
        Some(t) => spec_unit_from_token(t),
        None => MetricUnit {
            raw_unit_num: crate::metric::MetricRawUnit::NoUnit,
            raw_unit_den: crate::metric::MetricRawUnit::NoUnit,
            order_of_magnitude: crate::metric::OrderOfMagnitude::One,
        },
    }
}

/// Reads a unit token node as a unit. A non-string node, like unrecognized
/// token text, yields the neutral unit: unit parsing is lenient and never
/// fails the batch.
pub fn metric_unit_from_json(v: &json::JsonValue) -> (r: MetricUnit)
    ensures
        r == spec_unit_of_node(*v),
{
    match json_as_str(v) {
        Some(token) => MetricUnit::from_token(token.as_str()),
        None => MetricUnit::empty(),
    }
}

/// The meaning of a whole `{label, unit, value}` record node: it must be an
/// object with a string label and a parsing value; the unit is read
/// leniently. Errors come in that order: not an object, then the missing
/// label, then the value's own error.
pub open spec fn spec_metric_of_node(v: json::JsonValue) -> Result<MetricModel, ValueParseError> {
    if !json_node_is_object(v) {
        Err(ValueParseError::NotAnObject)
    } else {
        match json_text_of(json_member_of(v, "label"@)) {
            None => Err(ValueParseError::MissingLabel),
            Some(label) => match spec_metric_value_of_node(json_member_of(v, "value"@)) {
                Err(e) => Err(e),
                Ok(value) => Ok(
                    MetricModel {
                        label,
                        unit: spec_unit_of_node(json_member_of(v, "unit"@)),
                        value,
                    },
                ),
            },
        }
    }
}

/// Reads a `{label, unit, value}` record as a whole metric, exactly as
/// [`spec_metric_of_node`] decides over the node's readings.
pub fn metric_from_json(v: &json::JsonValue) -> (r: Result<Metric, ValueParseError>)
    ensures
        match spec_metric_of_node(*v) {
            Ok(m) => r is Ok && r->Ok_0@ == m,
            Err(e) => r is Err && r->Err_0 == e,
        },
{
    if !json_is_object(v) {
        return Err(ValueParseError::NotAnObject);
    }
    let label = match json_as_str(json_field(v, "label")) {
        Some(l) => l,
        None => {
            return Err(ValueParseError::MissingLabel);
        },
    };
    let unit = metric_unit_from_json(json_field(v, "unit"));
    let value = match metric_value_from_json(json_field(v, "value")) {
        Ok(value) => value,
        Err(e) => {
            return Err(e);
        },
    };
    Ok(Metric::new(label, unit, value))
}

/// The metrics a batch's `values` array yields: in order, exactly those of
/// its first `k` members that read as metrics; malformed members are
/// dropped.
pub open spec fn spec_metrics_of_array(elems: Seq<json::JsonValue>, k: int) -> Seq<MetricModel>
    decreases k,
{
    if k <= 0 {
        Seq::empty()
    } else {
        let prefix = spec_metrics_of_array(elems, k - 1);
        match spec_metric_of_node(elems[k - 1]) {
            Ok(m) => prefix.push(m),
            Err(_) => prefix,
        }
    }
}

/// Reads the `values` array of a batch document, keeping, in order, every
/// member that parses as a metric and dropping the rest, so one malformed
/// entry never fails the whole batch.
pub fn metrics_from_json(doc: &json::JsonValue) -> (r: Vec<Metric>)
    ensures
        ({
            let elems = json_array_of(json_member_of(*doc, "values"@));
            r@.map_values(|m: Metric| m@) == spec_metrics_of_array(elems, elems.len() as int)
        }),
{
    let values_entry = json_field(doc, "values");
    let ghost elems = json_array_of(json_member_of(*doc, "values"@));
    let members = json_members(values_entry);
    let mut local_metrics: Vec<Metric> = Vec::new();
    let n = members.len();
    let mut i: usize = 0;
    while i < n
        invariant
            n == members@.len(),
            n == elems.len(),
            forall|j: int| 0 <= j < n ==> *(members@[j]) == elems[j],
            i <= n,
            local_metrics@.map_values(|m: Metric| m@) == spec_metrics_of_array(elems, i as int),
        decreases n - i,
    {
        let ghost before = local_metrics@;
        match metric_from_json(members[i]) {
            Ok(metric) => {
                local_metrics.push(metric);
                proof {
                    assert(local_metrics@.map_values(|m: Metric| m@) =~= before.map_values(
                        |m: Metric| m@,
                    ).push(local_metrics@.last()@));
                }
            },
            Err(_) => {},
        }
        i = i + 1;
    }
    local_metrics
}

/// Reads a batch document's timestamp in microseconds, zero when the
/// `timestamp` member has no unsigned whole-number reading.
pub fn batch_timestamp_from_json(doc: &json::JsonValue) -> (r: u64)
    ensures
        r == (match json_u64_of(json_member_of(*doc, "timestamp"@)) {
            Some(t) => t,
            None => 0u64,
        }),
{
    match json_as_u64(json_field(doc, "timestamp")) {
        Some(t) => t,
        None => 0,
    }
}

} // verus!
