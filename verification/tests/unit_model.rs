use std::collections::VecDeque;

use metrics_agg::metric::{Metric, MetricRawUnit, MetricUnit, MetricValue, OoMParseError, OrderOfMagnitude};
use metrics_agg::ring::vec_shift;

#[test]
fn exponents_and_rational_factors() {
    assert_eq!(OrderOfMagnitude::Nano.get_exponent(), -9);
    assert_eq!(OrderOfMagnitude::One.get_exponent(), 0);
    assert_eq!(OrderOfMagnitude::Kilo.get_exponent(), 3);
    assert_eq!(OrderOfMagnitude::Tera.get_exponent(), 12);
    assert_eq!(OrderOfMagnitude::Nano.get_factor_rat(), (1, 1_000_000_000));
    assert_eq!(OrderOfMagnitude::Milli.get_factor_rat(), (1, 1000));
    assert_eq!(OrderOfMagnitude::One.get_factor_rat(), (1, 1));
    assert_eq!(OrderOfMagnitude::Mega.get_factor_rat(), (1_000_000, 1));
    assert_eq!(OrderOfMagnitude::Tera.get_factor_rat(), (1_000_000_000_000, 1));
}

#[test]
fn magnitude_prefixes() {
    assert_eq!(OrderOfMagnitude::from_prefix("n"), Ok(OrderOfMagnitude::Nano));
    assert_eq!(OrderOfMagnitude::from_prefix("u"), Ok(OrderOfMagnitude::Micro));
    assert_eq!(OrderOfMagnitude::from_prefix("m"), Ok(OrderOfMagnitude::Milli));
    assert_eq!(OrderOfMagnitude::from_prefix("k"), Ok(OrderOfMagnitude::Kilo));
    assert_eq!(OrderOfMagnitude::from_prefix("M"), Ok(OrderOfMagnitude::Mega));
    assert_eq!(OrderOfMagnitude::from_prefix("G"), Ok(OrderOfMagnitude::Giga));
    assert_eq!(OrderOfMagnitude::from_prefix("T"), Ok(OrderOfMagnitude::Tera));
    assert_eq!(OrderOfMagnitude::from_prefix("K"), Err(OoMParseError {}));
    assert_eq!(OrderOfMagnitude::from_prefix(""), Err(OoMParseError {}));
    assert_eq!(OrderOfMagnitude::from_prefix("kk"), Err(OoMParseError {}));
}

#[test]
fn unit_tokens() {
    assert_eq!(
        MetricUnit::from_token("pkts"),
        MetricUnit::new(MetricRawUnit::Packets, MetricRawUnit::NoUnit, OrderOfMagnitude::One)
    );
    assert_eq!(
        MetricUnit::from_token("bytes"),
        MetricUnit::new(MetricRawUnit::Bytes, MetricRawUnit::NoUnit, OrderOfMagnitude::One)
    );
    assert_eq!(
        MetricUnit::from_token("sec"),
        MetricUnit::new(MetricRawUnit::Seconds, MetricRawUnit::NoUnit, OrderOfMagnitude::One)
    );
    assert_eq!(
        MetricUnit::from_token("Mbits"),
        MetricUnit::new(MetricRawUnit::Bits, MetricRawUnit::NoUnit, OrderOfMagnitude::Mega)
    );
    assert_eq!(
        MetricUnit::from_token("kbytes"),
        MetricUnit::new(MetricRawUnit::Bytes, MetricRawUnit::NoUnit, OrderOfMagnitude::Kilo)
    );
    // an unrecognized magnitude prefix falls back to one
    assert_eq!(
        MetricUnit::from_token("xbits"),
        MetricUnit::new(MetricRawUnit::Bits, MetricRawUnit::NoUnit, OrderOfMagnitude::One)
    );
    // unrecognized text is lenient: the neutral unit, never a failure
    assert_eq!(MetricUnit::from_token("volts"), MetricUnit::empty());
    assert_eq!(MetricUnit::from_token(""), MetricUnit::empty());
}

#[test]
fn unit_display_form() {
    let plain = MetricUnit::new(MetricRawUnit::Bytes, MetricRawUnit::NoUnit, OrderOfMagnitude::One);
    assert_eq!(plain.display_text(), "bytes");
    let rate = MetricUnit::new(MetricRawUnit::Bytes, MetricRawUnit::Seconds, OrderOfMagnitude::Kilo);
    assert_eq!(rate.display_text(), "kbytes/sec");
    let mega = MetricUnit::new(MetricRawUnit::Bits, MetricRawUnit::Seconds, OrderOfMagnitude::Mega);
    assert_eq!(mega.display_text(), "Mbits/sec");
    assert_eq!(MetricUnit::empty().display_text(), "");
}

#[test]
fn unit_accessors() {
    let u = MetricUnit::new(MetricRawUnit::Bits, MetricRawUnit::Seconds, OrderOfMagnitude::Giga);
    assert_eq!(u.get_raw_unit(), (&MetricRawUnit::Bits, &MetricRawUnit::Seconds));
    assert_eq!(u.get_order_of_magnitude(), &OrderOfMagnitude::Giga);
}

#[test]
fn value_equality_and_accessors() {
    assert_eq!(MetricValue::Integer(5), MetricValue::Integer(5));
    assert_ne!(MetricValue::Integer(5), MetricValue::Number(5));
    assert_ne!(MetricValue::Empty, MetricValue::String(String::new()));
    assert_eq!(MetricValue::String("x".to_string()), MetricValue::String("x".to_string()));
    let metric = Metric::new(
        "lbl".to_string(),
        MetricUnit::empty(),
        MetricValue::Integer(7),
    );
    assert_eq!(metric.get_label(), "lbl");
    assert_eq!(*metric.get_unit(), MetricUnit::empty());
    assert_eq!(*metric.get_value(), MetricValue::Integer(7));
    assert_eq!(metric.clone(), metric);
}

#[test]
fn ring_shift_below_and_at_capacity() {
    let mut ring: VecDeque<u32> = VecDeque::new();
    vec_shift(&mut ring, 1, 3);
    vec_shift(&mut ring, 2, 3);
    vec_shift(&mut ring, 3, 3);
    assert_eq!(ring, VecDeque::from([3, 2, 1]));
    // at capacity: the oldest element is evicted from the back
    vec_shift(&mut ring, 4, 3);
    assert_eq!(ring, VecDeque::from([4, 3, 2]));
    vec_shift(&mut ring, 5, 3);
    assert_eq!(ring, VecDeque::from([5, 4, 3]));
}
