use metrics_agg::aggregator::MetricAggregator;
use metrics_agg::metric::{Metric, MetricRawUnit, MetricUnit, MetricValue, OrderOfMagnitude};

fn m(label: &str, num: MetricRawUnit, den: MetricRawUnit, oom: OrderOfMagnitude, v: MetricValue) -> Metric {
    Metric::new(label.to_string(), MetricUnit::new(num, den, oom), v)
}

fn counter(label: &str, num: MetricRawUnit, v: i64) -> Metric {
    m(label, num, MetricRawUnit::NoUnit, OrderOfMagnitude::One, MetricValue::Integer(v))
}

#[test]
fn uniqueness_repeated_labels() {
    let mut agg = MetricAggregator::new();
    for k in 0..10u64 {
        let batch = vec![
            counter("ctr", MetricRawUnit::Bytes, 1000 + k as i64),
            counter("ctr", MetricRawUnit::Bytes, 2000 + k as i64),
        ];
        agg.handle_metrics(k * 1_000_000, &batch);
    }
    let mut labels: Vec<String> = Vec::new();
    let mut it = agg.metric_iter();
    while let Some(metric) = it.next() {
        labels.push(metric.get_label().to_string());
    }
    for a in 0..labels.len() {
        for b in (a + 1)..labels.len() {
            assert_ne!(labels[a], labels[b]);
        }
    }
    // the repeated label updated one entry in place
    let current = agg.get_metric("ctr").unwrap();
    assert_eq!(*current.get_value(), MetricValue::Integer(2009));
}

#[test]
fn retention_classification() {
    let mut agg = MetricAggregator::new();
    let batch = vec![
        counter("bytes_ctr", MetricRawUnit::Bytes, 1),
        counter("bits_ctr", MetricRawUnit::Bits, 1),
        counter("pkts_ctr", MetricRawUnit::Packets, 1),
        counter("bare_ctr", MetricRawUnit::NoUnit, 1),
        counter("secs_gauge", MetricRawUnit::Seconds, 1),
        m(
            "secs_rate",
            MetricRawUnit::Seconds,
            MetricRawUnit::Seconds,
            OrderOfMagnitude::Mega,
            MetricValue::Integer(1),
        ),
        m(
            "bytes_rate",
            MetricRawUnit::Bytes,
            MetricRawUnit::Seconds,
            OrderOfMagnitude::Kilo,
            MetricValue::Integer(1),
        ),
    ];
    agg.handle_metrics(0, &batch);
    // history-kind entries answer history queries
    assert!(agg.get_metric_history("bytes_ctr", 8).is_some());
    assert!(agg.get_metric_history("bits_ctr", 8).is_some());
    assert!(agg.get_metric_history("pkts_ctr", 8).is_some());
    assert!(agg.get_metric_history("bare_ctr", 8).is_some());
    // a Bytes numerator keeps history regardless of denominator and magnitude
    assert!(agg.get_metric_history("bytes_rate", 8).is_some());
    // a Seconds numerator never keeps history, whatever the denominator
    assert!(agg.get_metric_history("secs_gauge", 8).is_none());
    assert!(agg.get_metric_history("secs_rate", 8).is_none());
    // all of them are stored
    assert!(agg.get_metric("secs_gauge").is_some());
}

#[test]
fn ring_bound_after_overflow() {
    let mut agg = MetricAggregator::new();
    for k in 1..=130u64 {
        let batch = vec![counter("ctr", MetricRawUnit::Bytes, k as i64)];
        agg.handle_metrics(k * 1000, &batch);
    }
    let (data, lo, hi) = agg.get_metric_history("ctr", 1000).unwrap();
    // the ring is capped at 128 and holds exactly the most recent 128 samples
    assert_eq!(data.len(), 128);
    // oldest retained sample is the one from batch 3, newest from batch 130
    assert_eq!(data[0], (3_000, 3_000_000));
    assert_eq!(data[127], (130_000, 130_000_000));
    for idx in 0..128usize {
        let k = idx as u64 + 3;
        assert_eq!(data[idx], (k * 1000, k as i64 * 1_000_000));
    }
    assert_eq!(lo, 3_000_000);
    assert_eq!(hi, 130_000_000);
}

#[test]
fn rate_sign_and_magnitude() {
    let mut agg = MetricAggregator::new();
    agg.handle_metrics(0, &[counter("ctr", MetricRawUnit::Bytes, 1000)]);
    agg.handle_metrics(1_000_000, &[counter("ctr", MetricRawUnit::Bytes, 3000)]);
    let rate = agg.get_metric("ctr-ps").expect("the derived rate must exist");
    // (3000 - 1000) bytes over 1 s, corrected by 1/1000 for a byte counter
    assert_eq!(*rate.get_value(), MetricValue::Integer(2));
    assert_eq!(
        *rate.get_unit(),
        MetricUnit::new(MetricRawUnit::Bytes, MetricRawUnit::Seconds, OrderOfMagnitude::Kilo)
    );
    // the falling direction gives the mirrored rate
    let mut agg2 = MetricAggregator::new();
    agg2.handle_metrics(0, &[counter("ctr", MetricRawUnit::Bytes, 3000)]);
    agg2.handle_metrics(1_000_000, &[counter("ctr", MetricRawUnit::Bytes, 1000)]);
    let rate2 = agg2.get_metric("ctr-ps").unwrap();
    assert_eq!(*rate2.get_value(), MetricValue::Integer(-2));
}

#[test]
fn moving_average_window() {
    let mut agg = MetricAggregator::new();
    for k in 1..=40u64 {
        let batch = vec![m(
            "rate",
            MetricRawUnit::Bytes,
            MetricRawUnit::Seconds,
            OrderOfMagnitude::One,
            MetricValue::Integer(k as i64),
        )];
        agg.handle_metrics(k * 1_000_000, &batch);
    }
    let avg = agg.get_metric("rate-avg").expect("the moving average must exist");
    // mean of the 32 most recent values 9..=40 is 24.5, i.e. 24 500 000 micros
    assert_eq!(*avg.get_value(), MetricValue::Number(24_500_000));
    // the source's unit is kept unchanged
    assert_eq!(
        *avg.get_unit(),
        MetricUnit::new(MetricRawUnit::Bytes, MetricRawUnit::Seconds, OrderOfMagnitude::One)
    );
}

#[test]
fn moving_average_short_history() {
    let mut agg = MetricAggregator::new();
    for k in 1..=4u64 {
        let batch = vec![m(
            "rate",
            MetricRawUnit::Packets,
            MetricRawUnit::Seconds,
            OrderOfMagnitude::One,
            MetricValue::Integer(k as i64 * 10),
        )];
        agg.handle_metrics(k * 1_000_000, &batch);
    }
    // fewer than 32 samples: the mean of all available (10, 20, 30, 40)
    let avg = agg.get_metric("rate-avg").unwrap();
    assert_eq!(*avg.get_value(), MetricValue::Number(25_000_000));
}

#[test]
fn no_average_of_average() {
    let mut agg = MetricAggregator::new();
    for k in 1..=40u64 {
        let batch = vec![m(
            "rate",
            MetricRawUnit::Bytes,
            MetricRawUnit::Seconds,
            OrderOfMagnitude::One,
            MetricValue::Integer(k as i64),
        )];
        agg.handle_metrics(k * 1_000_000, &batch);
    }
    // "rate-avg" exists, is itself a Seconds-denominator metric with history,
    // and yet never spawns "rate-avg-avg"
    assert!(agg.get_metric("rate-avg").is_some());
    assert!(agg.get_metric("rate-avg-avg").is_none());
}

#[test]
fn history_query_shape() {
    let mut agg = MetricAggregator::new();
    for k in 1..=20u64 {
        let batch = vec![counter("ctr", MetricRawUnit::Bytes, k as i64)];
        agg.handle_metrics(k * 1000, &batch);
    }
    let (data, lo, hi) = agg.get_metric_history("ctr", 10).unwrap();
    // exactly 10 points, oldest to newest: the values of batches 11..=20
    assert_eq!(data.len(), 10);
    for idx in 0..10usize {
        let k = idx as u64 + 11;
        assert_eq!(data[idx], (k * 1000, k as i64 * 1_000_000));
    }
    // min and max reflect all 20 retained samples, not just the 10 returned
    assert_eq!(lo, 1_000_000);
    assert_eq!(hi, 20_000_000);
}

#[test]
fn history_query_absent_cases() {
    let mut agg = MetricAggregator::new();
    let batch = vec![
        counter("secs", MetricRawUnit::Seconds, 5),
        m(
            "text",
            MetricRawUnit::Bytes,
            MetricRawUnit::NoUnit,
            OrderOfMagnitude::One,
            MetricValue::String("up".to_string()),
        ),
    ];
    agg.handle_metrics(0, &batch);
    // unknown label
    assert!(agg.get_metric_history("nope", 10).is_none());
    // wrong storage kind
    assert!(agg.get_metric_history("secs", 10).is_none());
    // retained history, but a non-numeric current value is never exposed
    assert!(agg.get_metric_history("text", 10).is_none());
}

#[test]
fn end_to_end_packet_rate() {
    let mut agg = MetricAggregator::new();
    agg.handle_metrics(0, &[counter("pkts", MetricRawUnit::Packets, 100)]);
    agg.handle_metrics(300_000, &[counter("pkts", MetricRawUnit::Packets, 130)]);
    assert_eq!(agg.get_last_timestamp(), 300_000);
    let rate = agg.get_metric("pkts-ps").expect("the derived rate must exist");
    // 30 packets over 0.3 s, no correction for a packet counter: exactly 100
    assert_eq!(*rate.get_value(), MetricValue::Integer(100));
    assert_eq!(
        *rate.get_unit(),
        MetricUnit::new(MetricRawUnit::Packets, MetricRawUnit::Seconds, OrderOfMagnitude::One)
    );
}

#[test]
fn rate_needs_threshold() {
    let mut agg = MetricAggregator::new();
    agg.handle_metrics(0, &[counter("pkts", MetricRawUnit::Packets, 100)]);
    // only 200 ms elapsed: below the 250 ms differentiation threshold
    agg.handle_metrics(200_000, &[counter("pkts", MetricRawUnit::Packets, 130)]);
    assert!(agg.get_metric("pkts-ps").is_none());
    // the widest window at least the threshold wide is used as baseline
    agg.handle_metrics(300_000, &[counter("pkts", MetricRawUnit::Packets, 160)]);
    let rate = agg.get_metric("pkts-ps").unwrap();
    // baseline is the oldest qualifying sample (t=0, v=100): 60 pkts / 0.3 s
    assert_eq!(*rate.get_value(), MetricValue::Integer(200));
}

#[test]
fn walk_visits_every_current_metric() {
    let mut agg = MetricAggregator::new();
    agg.handle_metrics(0, &[
        counter("a", MetricRawUnit::Seconds, 1),
        counter("b", MetricRawUnit::Seconds, 2),
    ]);
    let seen: std::cell::RefCell<Vec<String>> = std::cell::RefCell::new(Vec::new());
    agg.walk_metrics(|m: &Metric| {
        seen.borrow_mut().push(m.get_label().to_string());
    });
    let seen = seen.into_inner();
    assert_eq!(seen.len(), 2);
    assert!(seen.contains(&"a".to_string()));
    assert!(seen.contains(&"b".to_string()));
}

#[test]
fn history_values_saturate_at_the_largest_size() {
    let mut agg = MetricAggregator::new();
    agg.handle_metrics(0, &[counter("big", MetricRawUnit::Bytes, i64::MAX)]);
    let (data, lo, hi) = agg.get_metric_history("big", 5).unwrap();
    // i64::MAX whole units cannot be written in micros: the sample saturates
    assert_eq!(data.len(), 1);
    assert_eq!(data[0].1, i64::MAX);
    assert_eq!(lo, i64::MAX);
    assert_eq!(hi, i64::MAX);
}

#[test]
fn walk_and_iterate_snapshot() {
    let mut agg = MetricAggregator::new();
    agg.handle_metrics(0, &[
        counter("a", MetricRawUnit::Seconds, 1),
        counter("b", MetricRawUnit::Seconds, 2),
    ]);
    let mut seen: Vec<String> = Vec::new();
    let mut it = agg.metric_iter();
    while let Some(metric) = it.next() {
        seen.push(metric.get_label().to_string());
    }
    assert_eq!(seen.len(), 2);
    assert!(seen.contains(&"a".to_string()));
    assert!(seen.contains(&"b".to_string()));
}
