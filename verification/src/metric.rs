//! The unit and value model: typed metric values, physical units with a
//! decimal order of magnitude, and the metric value object itself.
//!
//! Real-valued measurements are represented in fixed point, as a signed count
//! of millionths (micros). All numeric coercion used by the derivation engine
//! goes through that representation, so it is exact integer arithmetic.

use vstd::prelude::*;
use vstd::string::*;
use crate::strutil::{str_eq, str_tail_eq};

verus! {

/// The number of micros in one unit: the scale of the fixed-point
/// representation used by [`MetricValue::Number`].
pub const MICROS_PER_UNIT: i64 = 1000000;

/// A raw physical quantity, used as numerator or denominator of a unit.
#[derive(Debug, Clone, Copy, PartialEq, Eq, Structural)]
pub enum MetricRawUnit {
    NoUnit,
    Packets,
    Bits,
    Bytes,
    Seconds,
}

/// A decimal order of magnitude, from 10^-9 to 10^12.
#[derive(Debug, Clone, Copy, PartialEq, Eq, Structural)]
pub enum OrderOfMagnitude {
    Nano,
    Micro,
    Milli,
    One,
    Kilo,
    Mega,
    Giga,
    Tera,
}

/// The error returned when a magnitude prefix cannot be recognized.
#[derive(Debug, Clone, Copy, PartialEq, Eq, Structural)]
pub struct OoMParseError {}

/// 10 raised to a natural exponent.
pub open spec fn pow10(e: nat) -> nat
    decreases e,
{
    if e == 0 {
        1
    } else {
        10 * pow10((e - 1) as nat)
    }
}

impl OrderOfMagnitude {
    /// The decimal exponent of this order of magnitude.
    pub open spec fn spec_exponent(self) -> int {
        match self {
            OrderOfMagnitude::Nano => -9,
            OrderOfMagnitude::Micro => -6,
            OrderOfMagnitude::Milli => -3,
            OrderOfMagnitude::One => 0,
            OrderOfMagnitude::Kilo => 3,
            OrderOfMagnitude::Mega => 6,
            OrderOfMagnitude::Giga => 9,
            OrderOfMagnitude::Tera => 12,
        }
    }

    pub fn get_exponent(&self) -> (e: i32)
        ensures
            e as int == self.spec_exponent(),
    {
        match self {
            OrderOfMagnitude::Nano => -9,
            OrderOfMagnitude::Micro => -6,
            OrderOfMagnitude::Milli => -3,
            OrderOfMagnitude::One => 0,
            OrderOfMagnitude::Kilo => 3,
            OrderOfMagnitude::Mega => 6,
            OrderOfMagnitude::Giga => 9,
            OrderOfMagnitude::Tera => 12,
        }
    }

    /// The scale factor 10^exponent as an exact rational: a numerator and a
    /// denominator, one of which is always 1.
    pub fn get_factor_rat(&self) -> (r: (u64, u64))
        ensures
            self.spec_exponent() >= 0 ==> r.0 == pow10(self.spec_exponent() as nat) && r.1 == 1,
            self.spec_exponent() < 0 ==> r.0 == 1 && r.1 == pow10((-self.spec_exponent()) as nat),
    {
        proof {
            reveal_with_fuel(pow10, 13);
        }
        match self {
            OrderOfMagnitude::Nano => (1, 1000000000),
            OrderOfMagnitude::Micro => (1, 1000000),
            OrderOfMagnitude::Milli => (1, 1000),
            OrderOfMagnitude::One => (1, 1),
            OrderOfMagnitude::Kilo => (1000, 1),
            OrderOfMagnitude::Mega => (1000000, 1),
            OrderOfMagnitude::Giga => (1000000000, 1),
            OrderOfMagnitude::Tera => (1000000000000, 1),
        }
    }

    /// The canonical one-character abbreviation of this order of magnitude
    /// (empty for [`OrderOfMagnitude::One`]).
    pub open spec fn spec_abbr(self) -> Seq<char> {
        match self {
            OrderOfMagnitude::Nano => "n"@,
            OrderOfMagnitude::Micro => "u"@,
            OrderOfMagnitude::Milli => "m"@,
            OrderOfMagnitude::One => ""@,
            OrderOfMagnitude::Kilo => "k"@,
            OrderOfMagnitude::Mega => "M"@,
            OrderOfMagnitude::Giga => "G"@,
            OrderOfMagnitude::Tera => "T"@,
        }
    }

    pub fn get_abbr(&self) -> (r: &'static str)
        ensures
            r@ == self.spec_abbr(),
    {
        match self {
            OrderOfMagnitude::Nano => "n",
            OrderOfMagnitude::Micro => "u",
            OrderOfMagnitude::Milli => "m",
            OrderOfMagnitude::One => "",
            OrderOfMagnitude::Kilo => "k",
            OrderOfMagnitude::Mega => "M",
            OrderOfMagnitude::Giga => "G",
            OrderOfMagnitude::Tera => "T",
        }
    }

    /// Which order of magnitude a one-character prefix denotes, if any.
    pub open spec fn spec_from_prefix(s: Seq<char>) -> Option<OrderOfMagnitude> {
        if s == "n"@ {
            Some(OrderOfMagnitude::Nano)
        } else if s == "u"@ {
            Some(OrderOfMagnitude::Micro)
        } else if s == "m"@ {
            Some(OrderOfMagnitude::Milli)
        } else if s == "k"@ {
            Some(OrderOfMagnitude::Kilo)
        } else if s == "M"@ {
            Some(OrderOfMagnitude::Mega)
        } else if s == "G"@ {
            Some(OrderOfMagnitude::Giga)
        } else if s == "T"@ {
            Some(OrderOfMagnitude::Tera)
        } else {
            None
        }
    }

    /// Parses a magnitude prefix such as `"k"` or `"M"`; every other text is
    /// rejected with [`OoMParseError`].
    pub fn from_prefix(value: &str) -> (r: Result<OrderOfMagnitude, OoMParseError>)
        ensures
            match Self::spec_from_prefix(value@) {
                Some(o) => r == Result::<OrderOfMagnitude, OoMParseError>::Ok(o),
                None => r == Result::<OrderOfMagnitude, OoMParseError>::Err(OoMParseError {}),
            },
    {
        proof {
            reveal_strlit("n");
            reveal_strlit("u");
            reveal_strlit("m");
            reveal_strlit("k");
            reveal_strlit("M");
            reveal_strlit("G");
            reveal_strlit("T");
        }
        let n = value.unicode_len();
        if n != 1 {
            proof {
                assert(Self::spec_from_prefix(value@) is None);
            }
            return Err(OoMParseError {});
        }
        let c = value.get_char(0);
        if c == 'n' {
            proof {
                assert(value@ =~= "n"@);
            }
            Ok(OrderOfMagnitude::Nano)
        } else if c == 'u' {
            proof {
                assert(value@ =~= "u"@);
            }
            Ok(OrderOfMagnitude::Micro)
        } else if c == 'm' {
            proof {
                assert(value@ =~= "m"@);
            }
            Ok(OrderOfMagnitude::Milli)
        } else if c == 'k' {
            proof {
                assert(value@ =~= "k"@);
            }
            Ok(OrderOfMagnitude::Kilo)
        } else if c == 'M' {
            proof {
                assert(value@ =~= "M"@);
            }
            Ok(OrderOfMagnitude::Mega)
        } else if c == 'G' {
            proof {
                assert(value@ =~= "G"@);
            }
            Ok(OrderOfMagnitude::Giga)
        } else if c == 'T' {
            proof {
                assert(value@ =~= "T"@);
            }
            Ok(OrderOfMagnitude::Tera)
        } else {
            Err(OoMParseError {})
        }
    }
}

/// The canonical short text of a raw unit (empty for
/// [`MetricRawUnit::NoUnit`]).
pub open spec fn raw_unit_text(u: MetricRawUnit) -> Seq<char> {
    match u {
        MetricRawUnit::NoUnit => ""@,
        MetricRawUnit::Packets => "pkts"@,
        MetricRawUnit::Bits => "bits"@,
        MetricRawUnit::Bytes => "bytes"@,
        MetricRawUnit::Seconds => "sec"@,
    }
}

impl MetricRawUnit {
    pub fn display_text(&self) -> (r: &'static str)
        ensures
            r@ == raw_unit_text(*self),
    {
        match self {
            MetricRawUnit::NoUnit => "",
            MetricRawUnit::Packets => "pkts",
            MetricRawUnit::Bits => "bits",
            MetricRawUnit::Bytes => "bytes",
            MetricRawUnit::Seconds => "sec",
        }
    }
}

/// A unit: a numerator and denominator quantity together with a decimal order
/// of magnitude.
#[derive(Debug, Clone, Copy, PartialEq, Eq, Structural)]
pub struct MetricUnit {
    pub raw_unit_num: MetricRawUnit,
    pub raw_unit_den: MetricRawUnit,
    pub order_of_magnitude: OrderOfMagnitude,
}

/// The short display form of a unit:
/// `<magnitude-abbrev><numerator>[/<denominator>]`.
pub open spec fn unit_text(u: MetricUnit) -> Seq<char> {
    if u.raw_unit_den is NoUnit {
        u.order_of_magnitude.spec_abbr() + raw_unit_text(u.raw_unit_num)
    } else {
        u.order_of_magnitude.spec_abbr() + raw_unit_text(u.raw_unit_num) + "/"@ + raw_unit_text(
            u.raw_unit_den,
        )
    }
}

/// Which raw unit a bare token such as `"pkts"` denotes, if any.
pub open spec fn spec_token_raw_unit(s: Seq<char>) -> Option<MetricRawUnit> {
    if s == "pkts"@ {
        Some(MetricRawUnit::Packets)
    } else if s == "bits"@ {
        Some(MetricRawUnit::Bits)
    } else if s == "bytes"@ {
        Some(MetricRawUnit::Bytes)
    } else if s == "sec"@ {
        Some(MetricRawUnit::Seconds)
    } else {
        None
    }
}

/// The unit denoted by a compact token: either a bare raw-unit token
/// (magnitude one), or such a token preceded by a one-character magnitude
/// prefix (an unrecognized prefix character falls back to magnitude one).
/// Any other text denotes the neutral unit: token parsing is lenient and
/// never fails.
pub open spec fn spec_unit_from_token(s: Seq<char>) -> MetricUnit {
    if spec_token_raw_unit(s) is Some {
        MetricUnit {
            raw_unit_num: spec_token_raw_unit(s)->Some_0,
            raw_unit_den: MetricRawUnit::NoUnit,
            order_of_magnitude: OrderOfMagnitude::One,
        }
    } else if s.len() >= 1 && spec_token_raw_unit(s.skip(1)) is Some {
        MetricUnit {
            raw_unit_num: spec_token_raw_unit(s.skip(1))->Some_0,
            raw_unit_den: MetricRawUnit::NoUnit,
            order_of_magnitude: match OrderOfMagnitude::spec_from_prefix(s.take(1)) {
                Some(o) => o,
                None => OrderOfMagnitude::One,
            },
        }
    } else {
        MetricUnit {
            raw_unit_num: MetricRawUnit::NoUnit,
            raw_unit_den: MetricRawUnit::NoUnit,
            order_of_magnitude: OrderOfMagnitude::One,
        }
    }
}

impl MetricUnit {
    /// The neutral unit: no numerator, no denominator, magnitude one.
    pub fn empty() -> (r: MetricUnit)
        ensures
            r == (MetricUnit {
                raw_unit_num: MetricRawUnit::NoUnit,
                raw_unit_den: MetricRawUnit::NoUnit,
                order_of_magnitude: OrderOfMagnitude::One,
            }),
    {
        MetricUnit {
            raw_unit_num: MetricRawUnit::NoUnit,
            raw_unit_den: MetricRawUnit::NoUnit,
            order_of_magnitude: OrderOfMagnitude::One,
        }
    }

    pub fn new(unit_num: MetricRawUnit, unit_den: MetricRawUnit, oom: OrderOfMagnitude) -> (r:
        MetricUnit)
        ensures
            r == (MetricUnit {
                raw_unit_num: unit_num,
                raw_unit_den: unit_den,
                order_of_magnitude: oom,
            }),
    {
        MetricUnit { raw_unit_num: unit_num, raw_unit_den: unit_den, order_of_magnitude: oom }
    }

    pub fn get_raw_unit(&self) -> (r: (&MetricRawUnit, &MetricRawUnit))
        ensures
            *r.0 == self.raw_unit_num,
            *r.1 == self.raw_unit_den,
    {
        (&self.raw_unit_num, &self.raw_unit_den)
    }

    pub fn get_order_of_magnitude(&self) -> (r: &OrderOfMagnitude)
        ensures
            *r == self.order_of_magnitude,
    {
        &self.order_of_magnitude
    }

    /// The canonical short display form of this unit.
    pub fn display_text(&self) -> (r: String)
        ensures
            r@ == unit_text(*self),
    {
        let abbr = String::from_str(self.order_of_magnitude.get_abbr());
        let num_part = abbr.concat(self.raw_unit_num.display_text());
        if matches!(self.raw_unit_den, MetricRawUnit::NoUnit) {
            num_part
        } else {
            num_part.concat("/").concat(self.raw_unit_den.display_text())
        }
    }

    /// Parses a compact unit token such as `"bytes"`, `"Mbits"` or `"sec"`.
    /// Unrecognized text yields the neutral unit rather than an error.
    pub fn from_token(s: &str) -> (r: MetricUnit)
        ensures
            r == spec_unit_from_token(s@),
    {
        if let Some(u) = Self::match_raw_token(s, 0) {
            proof {
                assert(s@.skip(0) =~= s@);
            }
            MetricUnit {
                raw_unit_num: u,
                raw_unit_den: MetricRawUnit::NoUnit,
                order_of_magnitude: OrderOfMagnitude::One,
            }
        } else if s.unicode_len() >= 1 {
            proof {
                assert(s@.skip(0) =~= s@);
            }
            if let Some(u) = Self::match_raw_token(s, 1) {
                let prefix = s.substring_char(0, 1);
                proof {
                    assert(prefix@ =~= s@.take(1));
                }
                let oom = match OrderOfMagnitude::from_prefix(prefix) {
                    Ok(o) => o,
                    Err(_) => OrderOfMagnitude::One,
                };
                MetricUnit {
                    raw_unit_num: u,
                    raw_unit_den: MetricRawUnit::NoUnit,
                    order_of_magnitude: oom,
                }
            } else {
                Self::empty()
            }
        } else {
            proof {
                assert(s@.skip(0) =~= s@);
            }
            Self::empty()
        }
    }

    /// Matches the characters of `s` from `offset` onward against the bare
    /// raw-unit tokens.
    fn match_raw_token(s: &str, offset: usize) -> (r: Option<MetricRawUnit>)
        requires
            offset <= s@.len(),
        ensures
            r == spec_token_raw_unit(s@.skip(offset as int)),
    {
        if str_tail_eq(s, offset, "pkts") {
            Some(MetricRawUnit::Packets)
        } else if str_tail_eq(s, offset, "bits") {
            Some(MetricRawUnit::Bits)
        } else if str_tail_eq(s, offset, "bytes") {
            Some(MetricRawUnit::Bytes)
        } else if str_tail_eq(s, offset, "sec") {
            Some(MetricRawUnit::Seconds)
        } else {
            None
        }
    }
}

/// A metric value: absent, an integer count, a fixed-point real carried as a
/// signed number of millionths (micros), or free text.
#[derive(Debug)]
pub enum MetricValue {
    Empty,
    Integer(i64),
    Number(i64),
    String(String),
}

/// The mathematical shape of a [`MetricValue`]: text is abstracted to its
/// character sequence.
pub enum ValueModel {
    Empty,
    Integer(i64),
    Number(i64),
    Text(Seq<char>),
}

impl View for MetricValue {
    type V = ValueModel;

    open spec fn view(&self) -> ValueModel {
        match self {
            MetricValue::Empty => ValueModel::Empty,
            MetricValue::Integer(i) => ValueModel::Integer(*i),
            MetricValue::Number(m) => ValueModel::Number(*m),
            MetricValue::String(s) => ValueModel::Text(s@),
        }
    }
}

/// The numeric coercion of a value, in micros: absent and textual values
/// coerce to zero, an integer to a whole number of units, and a fixed-point
/// number to itself.
pub open spec fn micros_of(v: ValueModel) -> int {
    match v {
        ValueModel::Empty => 0,
        ValueModel::Integer(i) => i * (MICROS_PER_UNIT as int),
        ValueModel::Number(m) => m as int,
        ValueModel::Text(_) => 0,
    }
}

/// Whether a value takes part in arithmetic derivation.
pub open spec fn is_numeric(v: ValueModel) -> bool {
    v is Integer || v is Number
}

impl MetricValue {
    /// The numeric coercion of this value, in micros.
    pub fn to_micros(&self) -> (r: i128)
        ensures
            r as int == micros_of(self@),
    {
        match self {
            MetricValue::Empty => 0,
            MetricValue::Integer(i) => (*i as i128) * 1000000i128,
            MetricValue::Number(m) => *m as i128,
            MetricValue::String(_) => 0,
        }
    }

    /// Whether this value is an integer or a fixed-point number.
    pub fn is_numeric(&self) -> (r: bool)
        ensures
            r == is_numeric(self@),
    {
        matches!(self, MetricValue::Integer(_) | MetricValue::Number(_))
    }

    /// The numeric coercion of this value, saturated into the `i64` micros
    /// range.
    pub fn to_micros_saturated(&self) -> (r: i64)
        ensures
            r == crate::rules::sat_i64(micros_of(self@)),
    {
        let m = self.to_micros();
        if m > 0x7fffffffffffffffi128 {
            i64::MAX
        } else if m < -0x8000000000000000i128 {
            i64::MIN
        } else {
            m as i64
        }
    }
}

impl Clone for MetricValue {
    fn clone(&self) -> (r: Self)
        ensures
            r == *self,
    {
        match self {
            MetricValue::Empty => MetricValue::Empty,
            MetricValue::Integer(i) => MetricValue::Integer(*i),
            MetricValue::Number(m) => MetricValue::Number(*m),
            MetricValue::String(s) => MetricValue::String(s.clone()),
        }
    }
}

impl PartialEq for MetricValue {
    fn eq(&self, other: &Self) -> (r: bool) {
        match (self, other) {
            (MetricValue::Empty, MetricValue::Empty) => true,
            (MetricValue::Integer(a), MetricValue::Integer(b)) => *a == *b,
            (MetricValue::Number(a), MetricValue::Number(b)) => *a == *b,
            (MetricValue::String(a), MetricValue::String(b)) => str_eq(a.as_str(), b.as_str()),
            _ => false,
        }
    }
}

impl vstd::std_specs::cmp::PartialEqSpecImpl for MetricValue {
    open spec fn obeys_eq_spec() -> bool {
        true
    }

    open spec fn eq_spec(&self, other: &Self) -> bool {
        self@ == other@
    }
}

/// A labelled, unit-tagged measurement. The label is the global unique key of
/// the metric.
#[derive(Debug)]
pub struct Metric {
    pub label: String,
    pub unit: MetricUnit,
    pub value: MetricValue,
}

/// The mathematical shape of a [`Metric`].
pub struct MetricModel {
    pub label: Seq<char>,
    pub unit: MetricUnit,
    pub value: ValueModel,
}

impl View for Metric {
    type V = MetricModel;

    open spec fn view(&self) -> MetricModel {
        MetricModel { label: self.label@, unit: self.unit, value: self.value@ }
    }
}

impl Metric {
    pub fn new(label: String, unit: MetricUnit, value: MetricValue) -> (r: Metric)
        ensures
            r@ == (MetricModel { label: label@, unit, value: value@ }),
    {
        Metric { label, unit, value }
    }

    pub fn get_label(&self) -> (r: &str)
        ensures
            r@ == self@.label,
    {
        self.label.as_str()
    }

    pub fn get_unit(&self) -> (r: &MetricUnit)
        ensures
            *r == self@.unit,
    {
        &self.unit
    }

    pub fn get_value(&self) -> (r: &MetricValue)
        ensures
            r@ == self@.value,
    {
        &self.value
    }
}

impl Clone for Metric {
    fn clone(&self) -> (r: Self)
        ensures
            r@ == self@,
    {
        Metric { label: self.label.clone(), unit: self.unit, value: self.value.clone() }
    }
}

impl PartialEq for Metric {
    fn eq(&self, other: &Self) -> (r: bool) {
        str_eq(self.label.as_str(), other.label.as_str()) && self.unit == other.unit && self.value
            == other.value
    }
}

impl vstd::std_specs::cmp::PartialEqSpecImpl for Metric {
    open spec fn obeys_eq_spec() -> bool {
        true
    }

    open spec fn eq_spec(&self, other: &Self) -> bool {
        self@ == other@
    }
}

} // verus!
