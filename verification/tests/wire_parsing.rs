use metrics_agg::metric::{MetricRawUnit, MetricUnit, MetricValue, OrderOfMagnitude};
use metrics_agg::wire::{
    batch_timestamp_from_json, metric_from_json, metric_value_from_json, metric_value_from_parts,
    metrics_from_json, ValueParseError,
};

#[test]
fn metric_value_creation_test01() {
    let mobj = json::parse(
        r#"{
                "type": "integer",
                "value": 123456}"#,
    )
    .unwrap();

    let value = metric_value_from_json(&mobj).unwrap();

    assert_eq!(value, MetricValue::Integer(123456));
}

#[test]
fn tagged_values_of_every_kind() {
    let empty = json::parse(r#"{"type": "empty"}"#).unwrap();
    assert_eq!(metric_value_from_json(&empty), Ok(MetricValue::Empty));

    let text = json::parse(r#"{"type": "string", "value": "up"}"#).unwrap();
    assert_eq!(metric_value_from_json(&text), Ok(MetricValue::String("up".to_string())));

    // a real number is carried as a count of millionths
    let real = json::parse(r#"{"type": "number", "value": 2.5}"#).unwrap();
    assert_eq!(metric_value_from_json(&real), Ok(MetricValue::Number(2_500_000)));

    let negative = json::parse(r#"{"type": "number", "value": -1.49}"#).unwrap();
    assert_eq!(metric_value_from_json(&negative), Ok(MetricValue::Number(-1_490_000)));
}

#[test]
fn tagged_value_errors() {
    let not_object = json::parse(r#"[1, 2]"#).unwrap();
    assert_eq!(metric_value_from_json(&not_object), Err(ValueParseError::NotAnObject));

    let missing_type = json::parse(r#"{"value": 3}"#).unwrap();
    assert_eq!(metric_value_from_json(&missing_type), Err(ValueParseError::MissingType));

    let unknown = json::parse(r#"{"type": "blob", "value": 3}"#).unwrap();
    assert_eq!(metric_value_from_json(&unknown), Err(ValueParseError::UnknownType));

    let wrong_value = json::parse(r#"{"type": "integer", "value": "three"}"#).unwrap();
    assert_eq!(metric_value_from_json(&wrong_value), Err(ValueParseError::WrongValue));

    let wrong_string = json::parse(r#"{"type": "string", "value": 3}"#).unwrap();
    assert_eq!(metric_value_from_json(&wrong_string), Err(ValueParseError::WrongValue));
}

#[test]
fn value_from_parts_decision() {
    assert_eq!(
        metric_value_from_parts(None, None, Some(1), Some(1)),
        Err(ValueParseError::MissingType)
    );
    assert_eq!(
        metric_value_from_parts(Some("empty".to_string()), None, None, None),
        Ok(MetricValue::Empty)
    );
    assert_eq!(
        metric_value_from_parts(Some("integer".to_string()), None, Some(9), Some(9_000_000)),
        Ok(MetricValue::Integer(9))
    );
    assert_eq!(
        metric_value_from_parts(Some("number".to_string()), None, Some(9), Some(9_000_000)),
        Ok(MetricValue::Number(9_000_000))
    );
    assert_eq!(
        metric_value_from_parts(Some("string".to_string()), Some("ok".to_string()), None, None),
        Ok(MetricValue::String("ok".to_string()))
    );
    assert_eq!(
        metric_value_from_parts(Some("number".to_string()), None, None, None),
        Err(ValueParseError::WrongValue)
    );
}

#[test]
fn extreme_numbers() {
    // the most negative i64 parses exactly (mantissa 2^63 under a sign flag)
    let min = json::parse(r#"{"type": "integer", "value": -9223372036854775808}"#).unwrap();
    assert_eq!(metric_value_from_json(&min), Ok(MetricValue::Integer(i64::MIN)));

    let max = json::parse(r#"{"type": "integer", "value": 9223372036854775807}"#).unwrap();
    assert_eq!(metric_value_from_json(&max), Ok(MetricValue::Integer(i64::MAX)));

    // a whole number beyond the i64 range is refused, never wrapped
    let huge = json::parse(r#"{"type": "integer", "value": 18446744073709551615}"#).unwrap();
    assert_eq!(metric_value_from_json(&huge), Err(ValueParseError::WrongValue));

    // a fractional number is no integer
    let frac = json::parse(r#"{"type": "integer", "value": 3.5}"#).unwrap();
    assert_eq!(metric_value_from_json(&frac), Err(ValueParseError::WrongValue));

    // a number beyond the micros range saturates instead of overflowing
    let sat = json::parse(r#"{"type": "number", "value": 1e32765}"#).unwrap();
    assert_eq!(metric_value_from_json(&sat), Ok(MetricValue::Number(i64::MAX)));
    let negative_sat = json::parse(r#"{"type": "number", "value": -1e300}"#).unwrap();
    assert_eq!(metric_value_from_json(&negative_sat), Ok(MetricValue::Number(i64::MIN)));

    // one below the micros resolution truncates to zero
    let tiny = json::parse(r#"{"type": "number", "value": 1e-40}"#).unwrap();
    assert_eq!(metric_value_from_json(&tiny), Ok(MetricValue::Number(0)));

    // micros are truncated toward zero, never rounded
    let trunc = json::parse(r#"{"type": "number", "value": 123456789.123456789}"#).unwrap();
    assert_eq!(metric_value_from_json(&trunc), Ok(MetricValue::Number(123_456_789_123_456)));
}

#[test]
fn whole_metric_record() {
    let record = json::parse(
        r#"{"label": "rx", "unit": "kbytes", "value": {"type": "integer", "value": 12}}"#,
    )
    .unwrap();
    let metric = metric_from_json(&record).unwrap();
    assert_eq!(metric.get_label(), "rx");
    assert_eq!(
        *metric.get_unit(),
        MetricUnit::new(MetricRawUnit::Bytes, MetricRawUnit::NoUnit, OrderOfMagnitude::Kilo)
    );
    assert_eq!(*metric.get_value(), MetricValue::Integer(12));

    // a record whose unit is unknown still parses, with the neutral unit
    let odd_unit = json::parse(
        r#"{"label": "rx", "unit": "volts", "value": {"type": "integer", "value": 1}}"#,
    )
    .unwrap();
    assert_eq!(*metric_from_json(&odd_unit).unwrap().get_unit(), MetricUnit::empty());

    let no_label = json::parse(r#"{"unit": "bytes", "value": {"type": "integer", "value": 1}}"#)
        .unwrap();
    assert_eq!(metric_from_json(&no_label).unwrap_err(), ValueParseError::MissingLabel);
}

#[test]
fn batch_document() {
    let doc = json::parse(
        r#"{
            "timestamp": 42000000,
            "values": [
                {"label": "a", "unit": "pkts", "value": {"type": "integer", "value": 1}},
                {"label": "broken", "unit": "pkts", "value": {"type": "integer", "value": "x"}},
                {"label": "b", "unit": "sec", "value": {"type": "number", "value": 0.25}}
            ]
        }"#,
    )
    .unwrap();
    assert_eq!(batch_timestamp_from_json(&doc), 42_000_000);
    let metrics = metrics_from_json(&doc);
    // the malformed middle entry is dropped; the batch itself survives
    assert_eq!(metrics.len(), 2);
    assert_eq!(metrics[0].get_label(), "a");
    assert_eq!(metrics[1].get_label(), "b");
    assert_eq!(*metrics[1].get_value(), MetricValue::Number(250_000));

    let no_ts = json::parse(r#"{"values": []}"#).unwrap();
    assert_eq!(batch_timestamp_from_json(&no_ts), 0);
    assert_eq!(metrics_from_json(&no_ts).len(), 0);
}
