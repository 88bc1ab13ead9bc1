//! The aggregation engine: a store of labelled metric entries with
//! type-dependent history retention, the automatic derivation rule engine
//! over it, and the read-only snapshot and history queries.
//!
//! The whole engine is specified by a functional model: every mutating
//! operation's contract states that the new state is a spec function of the
//! old one.

use vstd::prelude::*;
use vstd::string::*;
use std::collections::VecDeque;
use crate::metric::{
    is_numeric, micros_of, Metric, MetricModel, MetricRawUnit, MetricUnit, MetricValue, ValueModel,
};
use crate::ring::{shift_spec, vec_shift};
use crate::rules::{
    gate_rule_for, history_model, last_qualifying, metric_from_avg, metric_from_time_diff,
    moving_average, sat_i64, spec_avg_metric, spec_gate_rule, spec_rate_metric, AutoMetricRule,
    AutoMetricRuleType, RuleModel,
};
use crate::strutil::str_eq;

verus! {

/// How the store keeps a metric: either the current value alone, or the
/// current value together with a bounded chronological history of
/// `(timestamp in microseconds, value)` samples, newest first.
#[derive(Debug)]
pub enum MetricStorage {
    CurrentOnly(Metric),
    History { current: Metric, history: VecDeque<(u64, MetricValue)> },
}

/// The mathematical shape of a [`MetricStorage`].
#[verifier::ext_equal]
pub enum StorageModel {
    CurrentOnly(MetricModel),
    History { current: MetricModel, history: Seq<(u64, ValueModel)> },
}

impl View for MetricStorage {
    type V = StorageModel;

    open spec fn view(&self) -> StorageModel {
        match self {
            MetricStorage::CurrentOnly(m) => StorageModel::CurrentOnly(m@),
            MetricStorage::History { current, history } => StorageModel::History {
                current: current@,
                history: history_model(history@),
            },
        }
    }
}

/// The stored record for one label: its storage and, for derived metrics,
/// the label of the metric it was derived from.
#[derive(Debug)]
pub struct MetricEntry {
    pub storage: MetricStorage,
    pub parent_metric: Option<String>,
}

/// The mathematical shape of a [`MetricEntry`].
#[verifier::ext_equal]
pub struct EntryModel {
    pub storage: StorageModel,
    pub parent: Option<Seq<char>>,
}

/// The label model of an optional parent label.
pub open spec fn opt_label_model(p: Option<String>) -> Option<Seq<char>> {
    match p {
        Some(s) => Some(s@),
        None => None,
    }
}

impl View for MetricEntry {
    type V = EntryModel;

    open spec fn view(&self) -> EntryModel {
        EntryModel { storage: self.storage@, parent: opt_label_model(self.parent_metric) }
    }
}

impl MetricEntry {
    pub fn new(storage: MetricStorage, parent_metric: Option<String>) -> (r: MetricEntry)
        ensures
            r@ == (EntryModel { storage: storage@, parent: opt_label_model(parent_metric) }),
    {
        MetricEntry { storage, parent_metric }
    }
}

/// The current metric of a storage record.
pub open spec fn storage_current(s: StorageModel) -> MetricModel {
    match s {
        StorageModel::CurrentOnly(m) => m,
        StorageModel::History { current, .. } => current,
    }
}

/// The label under which an entry is stored.
pub open spec fn entry_label(e: EntryModel) -> Seq<char> {
    storage_current(e.storage).label
}

/// The first entry stored under `label`, if any. Under well-formedness the
/// first match is the only one.
pub open spec fn find_entry(entries: Seq<EntryModel>, label: Seq<char>) -> Option<int>
    decreases entries.len(),
{
    if entries.len() == 0 {
        None
    } else if entry_label(entries[0]) == label {
        Some(0)
    } else {
        match find_entry(entries.drop_first(), label) {
            Some(i) => Some(i + 1),
            None => None,
        }
    }
}

/// What [`find_entry`] returns: the first index stored under the label, or
/// nothing when no index is.
pub proof fn lemma_find_entry(entries: Seq<EntryModel>, label: Seq<char>)
    ensures
        match find_entry(entries, label) {
            Some(i) => 0 <= i < entries.len() && entry_label(entries[i]) == label && forall|j: int|
                0 <= j < i ==> entry_label(entries[j]) != label,
            None => forall|j: int| 0 <= j < entries.len() ==> entry_label(entries[j]) != label,
        },
    decreases entries.len(),
{
    if entries.len() > 0 && entry_label(entries[0]) != label {
        let tail = entries.drop_first();
        lemma_find_entry(tail, label);
        match find_entry(tail, label) {
            Some(i) => {
                assert(find_entry(entries, label) == Some(i + 1));
                assert(entries[i + 1] == tail[i]);
                assert forall|j: int| 0 <= j < i + 1 implies entry_label(#[trigger] entries[j])
                    != label by {
                    if j > 0 {
                        assert(entries[j] == tail[j - 1]);
                        assert(entry_label(tail[j - 1]) != label);
                    }
                }
            },
            None => {
                assert forall|j: int| 0 <= j < entries.len() implies entry_label(
                    #[trigger] entries[j],
                ) != label by {
                    if j > 0 {
                        assert(entries[j] == tail[j - 1]);
                        assert(entry_label(tail[j - 1]) != label);
                    }
                }
            },
        }
    }
}

/// The retention rule: a newly seen label keeps history exactly when its
/// unit counts something cumulative: bytes, bits, packets, or a bare count.
pub open spec fn wants_history(u: MetricUnit) -> bool {
    u.raw_unit_num is Bytes || u.raw_unit_num is Bits || u.raw_unit_num is Packets
        || u.raw_unit_num is NoUnit
}

/// The aggregation engine's state.
pub struct MetricAggregator {
    metrics: Vec<MetricEntry>,
    last_timestamp: u64,
    auto_metric_rules: Vec<AutoMetricRule>,
    max_history: usize,
    desired_deltat_diffs_us: u64,
    messages_received: u64,
}

/// The mathematical shape of the whole engine state.
#[verifier::ext_equal]
pub struct AggregatorModel {
    pub entries: Seq<EntryModel>,
    pub last_timestamp: u64,
    pub rules: Seq<RuleModel>,
    pub max_history: nat,
    pub desired_deltat_us: u64,
    pub messages_received: u64,
}

impl View for MetricAggregator {
    type V = AggregatorModel;

    closed spec fn view(&self) -> AggregatorModel {
        AggregatorModel {
            entries: self.metrics@.map_values(|e: MetricEntry| e@),
            last_timestamp: self.last_timestamp,
            rules: self.auto_metric_rules@.map_values(|r: AutoMetricRule| r@),
            max_history: self.max_history as nat,
            desired_deltat_us: self.desired_deltat_diffs_us,
            messages_received: self.messages_received,
        }
    }
}

/// Well-formedness of one entry: a history never outgrows the ring bound and
/// never loses its initial sample.
pub open spec fn entry_wf(e: EntryModel, max: nat) -> bool {
    match e.storage {
        StorageModel::History { history, .. } => 1 <= history.len() <= max,
        StorageModel::CurrentOnly(_) => true,
    }
}

/// Well-formedness of the engine state: labels are unique, every history is
/// within the ring bound, and the two tunables are in their working range.
pub open spec fn wf(s: AggregatorModel) -> bool {
    &&& 1 <= s.max_history <= 1000000
    &&& s.desired_deltat_us >= 1
    &&& forall|i: int, j: int|
        0 <= i < j < s.entries.len() ==> entry_label(#[trigger] s.entries[i])
            != entry_label(#[trigger] s.entries[j])
    &&& forall|i: int| 0 <= i < s.entries.len() ==> entry_wf(#[trigger] s.entries[i], s.max_history)
}

/// What one upsert does to the state. An existing label keeps its storage
/// kind and parent: its current value is replaced and, for history-kind
/// entries, `(last_timestamp, value)` is pushed into the ring. A new label
/// is classified by the retention rule, given a one-sample history when
/// retained, recorded with its parent, and run through the rule creation
/// gate.
pub open spec fn spec_upsert(
    s: AggregatorModel,
    m: MetricModel,
    parent: Option<Seq<char>>,
) -> AggregatorModel {
    match find_entry(s.entries, m.label) {
        Some(i) => {
            let e = s.entries[i];
            let new_storage = match e.storage {
                StorageModel::History { current: _, history } => StorageModel::History {
                    current: m,
                    history: shift_spec(history, (s.last_timestamp, m.value), s.max_history),
                },
                StorageModel::CurrentOnly(_) => StorageModel::CurrentOnly(m),
            };
            AggregatorModel {
                entries: s.entries.update(i, EntryModel { storage: new_storage, parent: e.parent }),
                ..s
            }
        },
        None => {
            let new_storage = if wants_history(m.unit) {
                StorageModel::History {
                    current: m,
                    history: seq![(s.last_timestamp, m.value)],
                }
            } else {
                StorageModel::CurrentOnly(m)
            };
            let new_rules = if wants_history(m.unit) {
                match spec_gate_rule(m) {
                    Some(r) => s.rules.push(r),
                    None => s.rules,
                }
            } else {
                s.rules
            };
            AggregatorModel {
                entries: s.entries.push(EntryModel { storage: new_storage, parent }),
                rules: new_rules,
                ..s
            }
        },
    }
}

/// Law (uniqueness and retention): an upsert preserves well-formedness; in
/// particular no sequence of upserts can ever store one label twice.
pub proof fn lemma_upsert_wf(s: AggregatorModel, m: MetricModel, parent: Option<Seq<char>>)
    requires
        wf(s),
    ensures
        wf(spec_upsert(s, m, parent)),
{
    lemma_find_entry(s.entries, m.label);
    let s2 = spec_upsert(s, m, parent);
    match find_entry(s.entries, m.label) {
        Some(i) => {
            assert forall|a: int, b: int| 0 <= a < b < s2.entries.len() implies entry_label(
                #[trigger] s2.entries[a],
            ) != entry_label(#[trigger] s2.entries[b]) by {
                assert(entry_label(s2.entries[i]) == m.label);
                assert(forall|k: int|
                    0 <= k < s.entries.len() && k != i ==> s2.entries[k] == s.entries[k]);
            }
        },
        None => {
            assert forall|a: int, b: int| 0 <= a < b < s2.entries.len() implies entry_label(
                #[trigger] s2.entries[a],
            ) != entry_label(#[trigger] s2.entries[b]) by {
                if b == s.entries.len() {
                    assert(entry_label(s2.entries[b]) == m.label);
                    assert(entry_label(s2.entries[a]) != m.label);
                }
            }
        },
    }
}

/// Law (uniqueness over any run): after any sequence of upserts applied to
/// a well-formed state, the store is still well-formed, so no two entries
/// ever share a label and no history outgrows the ring bound. A repeated
/// label only ever updates its one entry in place.
pub proof fn lemma_store_uniqueness(s: AggregatorModel, ms: Seq<MetricModel>, k: int)
    requires
        wf(s),
    ensures
        wf(spec_apply_batch(s, ms, k)),
        forall|m: MetricModel, p: Option<Seq<char>>|
            find_entry(spec_apply_batch(s, ms, k).entries, m.label) is Some ==> #[trigger] spec_upsert(
                spec_apply_batch(s, ms, k),
                m,
                p,
            ).entries.len() == spec_apply_batch(s, ms, k).entries.len(),
    decreases k,
{
    if k > 0 {
        lemma_store_uniqueness(s, ms, k - 1);
        lemma_upsert_wf(spec_apply_batch(s, ms, k - 1), ms[k - 1], None);
    }
    let s2 = spec_apply_batch(s, ms, k);
    assert forall|m: MetricModel, p: Option<Seq<char>>|
        find_entry(s2.entries, m.label) is Some implies #[trigger] spec_upsert(
        s2,
        m,
        p,
    ).entries.len() == s2.entries.len() by {
        lemma_find_entry(s2.entries, m.label);
    }
}

/// Law (retention classification): after an upsert of a label not yet in
/// the store, the new entry keeps history exactly when the metric's unit
/// numerator is bytes, bits, packets or a bare count, and its one history
/// sample is the batch-stamped value.
pub proof fn lemma_retention_classification(
    s: AggregatorModel,
    m: MetricModel,
    parent: Option<Seq<char>>,
)
    requires
        find_entry(s.entries, m.label) is None,
    ensures
        spec_upsert(s, m, parent).entries.len() == s.entries.len() + 1,
        spec_upsert(s, m, parent).entries.last().storage == (if wants_history(m.unit) {
            StorageModel::History { current: m, history: seq![(s.last_timestamp, m.value)] }
        } else {
            StorageModel::CurrentOnly(m)
        }),
{
}

/// What running one rule does to the state. A rule whose source label is
/// missing, or whose source carries no usable history, changes nothing. A
/// time-differentiation rule takes the source's newest sample and the oldest
/// sample at least the threshold behind it, and upserts the rate between
/// them; a moving-average rule upserts the average over the most recent
/// samples. Either upsert records the rule's source as parent and may itself
/// register a further rule.
pub open spec fn run_one_rule(s: AggregatorModel, r: RuleModel) -> AggregatorModel {
    match find_entry(s.entries, r.src) {
        None => s,
        Some(i) => {
            let e = s.entries[i];
            match r.rule_type {
                AutoMetricRuleType::TimeDifferentiate => match e.storage {
                    StorageModel::History { current, history } => {
                        if history.len() == 0 {
                            s
                        } else {
                            match last_qualifying(
                                history,
                                s.desired_deltat_us,
                                history.len() as int,
                            ) {
                                None => s,
                                Some(j) => spec_upsert(
                                    s,
                                    spec_rate_metric(
                                        history[0].1,
                                        history[j].1,
                                        current.unit,
                                        r.dst,
                                        (history[0].0 - history[j].0) as u64,
                                    ),
                                    Some(r.src),
                                ),
                            }
                        }
                    },
                    StorageModel::CurrentOnly(_) => s,
                },
                AutoMetricRuleType::MovingAverage { depth } => match e.storage {
                    StorageModel::History { current, history } => {
                        if history.len() > 0 && depth > 0 {
                            spec_upsert(
                                s,
                                spec_avg_metric(history, depth as int, current.unit, r.dst),
                                Some(r.src),
                            )
                        } else {
                            s
                        }
                    },
                    StorageModel::CurrentOnly(_) => s,
                },
                AutoMetricRuleType::ExpFalloffAverage { .. } => s,
            }
        },
    }
}

/// The state after running the first `n` registered rules in registration
/// order, each against the state its predecessors left behind. Rules that
/// the pass itself registers are beyond `n` and wait for the next batch.
pub open spec fn run_rules_upto(s: AggregatorModel, n: int) -> AggregatorModel
    decreases n,
{
    if n <= 0 {
        s
    } else {
        let prev = run_rules_upto(s, n - 1);
        if n - 1 < prev.rules.len() {
            run_one_rule(prev, prev.rules[n - 1])
        } else {
            prev
        }
    }
}

/// The models of a batch of metrics.
pub open spec fn metrics_model(ms: Seq<Metric>) -> Seq<MetricModel> {
    ms.map_values(|m: Metric| m@)
}

/// The state after upserting the first `k` metrics of a batch, in order,
/// each as an externally-sourced metric (no parent).
pub open spec fn spec_apply_batch(s: AggregatorModel, ms: Seq<MetricModel>, k: int) -> AggregatorModel
    decreases k,
{
    if k <= 0 {
        s
    } else {
        spec_upsert(spec_apply_batch(s, ms, k - 1), ms[k - 1], None)
    }
}

/// What one whole batch does: the batch timestamp is recorded, the saturating
/// batch counter advances, every metric of the batch is upserted in order,
/// and then every rule registered at that point runs once.
pub open spec fn spec_handle_metrics(s: AggregatorModel, ts: u64, ms: Seq<MetricModel>) -> AggregatorModel {
    let s1 = AggregatorModel {
        last_timestamp: ts,
        messages_received: if s.messages_received < u64::MAX {
            (s.messages_received + 1) as u64
        } else {
            s.messages_received
        },
        ..s
    };
    let s2 = spec_apply_batch(s1, ms, ms.len() as int);
    run_rules_upto(s2, s2.rules.len() as int)
}

/// Running one rule preserves well-formedness: whatever it emits goes
/// through the same upsert as an external metric.
pub proof fn lemma_run_one_rule_wf(s: AggregatorModel, r: RuleModel)
    requires
        wf(s),
    ensures
        wf(run_one_rule(s, r)),
{
    match find_entry(s.entries, r.src) {
        None => {},
        Some(i) => {
            let e = s.entries[i];
            match r.rule_type {
                AutoMetricRuleType::TimeDifferentiate => match e.storage {
                    StorageModel::History { current, history } => {
                        if history.len() > 0 {
                            match last_qualifying(history, s.desired_deltat_us, history.len() as int) {
                                None => {},
                                Some(j) => {
                                    lemma_upsert_wf(
                                        s,
                                        spec_rate_metric(
                                            history[0].1,
                                            history[j].1,
                                            current.unit,
                                            r.dst,
                                            (history[0].0 - history[j].0) as u64,
                                        ),
                                        Some(r.src),
                                    );
                                },
                            }
                        }
                    },
                    StorageModel::CurrentOnly(_) => {},
                },
                AutoMetricRuleType::MovingAverage { depth } => match e.storage {
                    StorageModel::History { current, history } => {
                        if history.len() > 0 && depth > 0 {
                            lemma_upsert_wf(
                                s,
                                spec_avg_metric(history, depth as int, current.unit, r.dst),
                                Some(r.src),
                            );
                        }
                    },
                    StorageModel::CurrentOnly(_) => {},
                },
                AutoMetricRuleType::ExpFalloffAverage { .. } => {},
            }
        },
    }
}

/// Running any prefix of the rule list preserves well-formedness.
pub proof fn lemma_run_rules_wf(s: AggregatorModel, n: int)
    requires
        wf(s),
    ensures
        wf(run_rules_upto(s, n)),
    decreases n,
{
    if n > 0 {
        lemma_run_rules_wf(s, n - 1);
        let prev = run_rules_upto(s, n - 1);
        if n - 1 < prev.rules.len() {
            lemma_run_one_rule_wf(prev, prev.rules[n - 1]);
        }
    }
}

/// Law (uniqueness, end to end): a whole batch, derivation pass included,
/// keeps the engine state well-formed, so derived metrics can never
/// duplicate a label either.
pub proof fn lemma_handle_metrics_wf(s: AggregatorModel, ts: u64, ms: Seq<MetricModel>)
    requires
        wf(s),
    ensures
        wf(spec_handle_metrics(s, ts, ms)),
{
    let s1 = AggregatorModel {
        last_timestamp: ts,
        messages_received: if s.messages_received < u64::MAX {
            (s.messages_received + 1) as u64
        } else {
            s.messages_received
        },
        ..s
    };
    lemma_store_uniqueness(s1, ms, ms.len() as int);
    let s2 = spec_apply_batch(s1, ms, ms.len() as int);
    lemma_run_rules_wf(s2, s2.rules.len() as int);
}

impl MetricAggregator {
    /// A fresh engine: empty store, empty rule list, ring bound 128 and a
    /// differentiation threshold of 250 000 microseconds.
    pub fn new() -> (r: MetricAggregator)
        ensures
            r@ == (AggregatorModel {
                entries: Seq::<EntryModel>::empty(),
                last_timestamp: 0,
                rules: Seq::<RuleModel>::empty(),
                max_history: 128,
                desired_deltat_us: 250000,
                messages_received: 0,
            }),
    {
        let r = MetricAggregator {
            metrics: Vec::new(),
            last_timestamp: 0,
            auto_metric_rules: Vec::new(),
            max_history: 128,
            desired_deltat_diffs_us: 250000,
            messages_received: 0,
        };
        proof {
            assert(r@.entries =~= Seq::<EntryModel>::empty());
            assert(r@.rules =~= Seq::<RuleModel>::empty());
        }
        r
    }

    /// The timestamp of the most recently ingested batch, in microseconds.
    pub fn get_last_timestamp(&self) -> (r: u64)
        ensures
            r == self@.last_timestamp,
    {
        self.last_timestamp
    }

    /// The index at which `label` is stored, if any.
    fn find_index(&self, label: &str) -> (r: Option<usize>)
        ensures
            r is Some <==> find_entry(self@.entries, label@) is Some,
            r is Some ==> r->0 as int == find_entry(self@.entries, label@)->Some_0,
    {
        let n = self.metrics.len();
        let mut i: usize = 0;
        while i < n
            invariant
                n == self.metrics.len(),
                i <= n,
                self@.entries.len() == n,
                forall|j: int| 0 <= j < i ==> entry_label(#[trigger] self@.entries[j]) != label@,
            decreases n - i,
        {
            let entry_current = self.metrics[i].storage.current_ref();
            if str_eq(entry_current.get_label(), label) {
                proof {
                    assert(self@.entries[i as int] == self.metrics@[i as int]@);
                    assert(entry_label(self@.entries[i as int]) == label@);
                    lemma_find_entry(self@.entries, label@);
                }
                return Some(i);
            }
            i = i + 1;
        }
        proof {
            lemma_find_entry(self@.entries, label@);
        }
        None
    }

    /// Applies one incoming metric to the store, as [`spec_upsert`]
    /// describes: an existing label is updated in place, a new label is
    /// classified, stored and run through the rule creation gate.
    fn handle_incoming_metric(&mut self, metric: &Metric, parent_metric: &Option<String>)
        requires
            wf(old(self)@),
        ensures
            final(self)@ == spec_upsert(old(self)@, metric@, opt_label_model(*parent_metric)),
            wf(final(self)@),
    {
        proof {
            lemma_upsert_wf(self@, metric@, opt_label_model(*parent_metric));
            lemma_find_entry(self@.entries, metric@.label);
        }
        let ts = self.last_timestamp;
        let max = self.max_history;
        match self.find_index(metric.get_label()) {
            Some(i) => {
                proof {
                    assert(self@.entries[i as int] == self.metrics@[i as int]@);
                }
                self.metrics[i].storage.update_current(metric, ts, max);
                proof {
                    assert(self@.entries =~= spec_upsert(
                        old(self)@,
                        metric@,
                        opt_label_model(*parent_metric),
                    ).entries);
                    assert(self@ =~= spec_upsert(
                        old(self)@,
                        metric@,
                        opt_label_model(*parent_metric),
                    ));
                }
            },
            None => {
                let (num, _den) = metric.get_unit().get_raw_unit();
                let keep_history = matches!(
                    num,
                    MetricRawUnit::Bytes
                        | MetricRawUnit::Bits
                        | MetricRawUnit::Packets
                        | MetricRawUnit::NoUnit
                );
                let storage = if keep_history {
                    let mut metric_history: VecDeque<(u64, MetricValue)> = VecDeque::new();
                    metric_history.push_front((ts, metric.get_value().clone()));
                    if let Some(rule) = gate_rule_for(metric) {
                        self.auto_metric_rules.push(rule);
                    }
                    proof {
                        assert(history_model(metric_history@) =~= seq![(ts, metric@.value)]);
                    }
                    MetricStorage::History { current: metric.clone(), history: metric_history }
                } else {
                    MetricStorage::CurrentOnly(metric.clone())
                };
                let parent = match parent_metric {
                    Some(s) => Some(s.clone()),
                    None => None,
                };
                self.metrics.push(MetricEntry::new(storage, parent));
                proof {
                    let target = spec_upsert(old(self)@, metric@, opt_label_model(*parent_metric));
                    assert(self@.entries =~= target.entries);
                    assert(self@.rules =~= target.rules);
                    assert(self@ =~= target);
                }
            },
        }
    }

    /// Runs every rule registered at entry once, in registration order, each
    /// against the state its predecessors left behind.
    fn handle_auto_rules(&mut self)
        requires
            wf(old(self)@),
        ensures
            final(self)@ == run_rules_upto(old(self)@, old(self)@.rules.len() as int),
            wf(final(self)@),
    {
        let rule_count = self.auto_metric_rules.len();
        let mut idx: usize = 0;
        while idx < rule_count
            invariant
                wf(self@),
                idx <= rule_count,
                rule_count == old(self)@.rules.len(),
                rule_count <= self@.rules.len(),
                self@ == run_rules_upto(old(self)@, idx as int),
            decreases rule_count - idx,
        {
            let ghost prev = self@;
            let ghost rule_model = prev.rules[idx as int];
            proof {
                assert(prev.rules[idx as int] == self.auto_metric_rules@[idx as int]@);
            }
            let mut generated_metric: Option<Metric> = None;
            let mut parent_metric: Option<String> = None;
            let src_name = self.auto_metric_rules[idx].src_metric_name.clone();
            let dst_name = self.auto_metric_rules[idx].dst_metric_name.clone();
            let rule_type = self.auto_metric_rules[idx].rule_type;
            let deltat = self.desired_deltat_diffs_us;
            match self.find_index(src_name.as_str()) {
                None => {},
                Some(i) => {
                    proof {
                        lemma_find_entry(self@.entries, src_name@);
                        assert(self@.entries[i as int] == self.metrics@[i as int]@);
                        assert(entry_wf(self@.entries[i as int], self@.max_history));
                    }
                    parent_metric = Some(src_name.clone());
                    match rule_type {
                        AutoMetricRuleType::TimeDifferentiate => {
                            if let MetricStorage::History { current, history } = &self.metrics[i].storage {
                                let ghost h = history_model(history@);
                                let n = history.len();
                                if n >= 1 {
                                    let first_ts = history[0].0;
                                    let mut best: Option<usize> = None;
                                    let mut j: usize = 1;
                                    while j < n
                                        invariant
                                            1 <= j <= n,
                                            n == history@.len(),
                                            h == history_model(history@),
                                            h.len() == n,
                                            first_ts == h[0].0,
                                            deltat >= 1,
                                            match best {
                                                Some(b) => 1 <= b < j && last_qualifying(
                                                    h,
                                                    deltat,
                                                    j as int,
                                                ) == Some(b as int) && first_ts >= h[b as int].0
                                                    && first_ts - h[b as int].0 >= deltat,
                                                None => last_qualifying(
                                                    h,
                                                    deltat,
                                                    j as int,
                                                ) is None,
                                            },
                                        decreases n - j,
                                    {
                                        let cur_ts = history[j].0;
                                        proof {
                                            assert(h[j as int].0 == cur_ts);
                                        }
                                        if first_ts >= cur_ts && first_ts - cur_ts >= deltat {
                                            best = Some(j);
                                        }
                                        j = j + 1;
                                    }
                                    if let Some(jq) = best {
                                        let time_diff_us = first_ts - history[jq].0;
                                        proof {
                                            assert(h[jq as int].0 == history@[jq as int].0);
                                            assert(h[0].1 == history@[0].1@);
                                            assert(h[jq as int].1 == history@[jq as int].1@);
                                        }
                                        generated_metric = metric_from_time_diff(
                                            &history[0].1,
                                            &history[jq].1,
                                            current.get_unit(),
                                            dst_name.as_str(),
                                            time_diff_us,
                                        );
                                    }
                                }
                            }
                        },
                        AutoMetricRuleType::MovingAverage { depth } => {
                            if let MetricStorage::History { current, history } = &self.metrics[i].storage {
                                if let Some(avg) = moving_average(history, depth) {
                                    generated_metric = metric_from_avg(
                                        avg,
                                        current.get_unit(),
                                        dst_name.as_str(),
                                    );
                                }
                            }
                        },
                        AutoMetricRuleType::ExpFalloffAverage { .. } => {},
                    }
                },
            }
            if let Some(m) = &generated_metric {
                self.handle_incoming_metric(m, &parent_metric);
            }
            proof {
                assert(self@ == run_one_rule(prev, rule_model));
                assert(self@ == run_rules_upto(old(self)@, idx as int + 1));
            }
            idx = idx + 1;
        }
    }

    /// Ingests one timestamped batch: records the batch timestamp, upserts
    /// every metric of the batch as externally sourced, then runs the full
    /// derivation rule pass once.
    pub fn handle_metrics(&mut self, new_timestamp: u64, metrics: &[Metric])
        requires
            wf(old(self)@),
        ensures
            final(self)@ == spec_handle_metrics(old(self)@, new_timestamp, metrics_model(metrics@)),
            wf(final(self)@),
    {
        self.last_timestamp = new_timestamp;
        if self.messages_received < u64::MAX {
            self.messages_received = self.messages_received + 1;
        }
        proof {
            assert(self@.entries == old(self)@.entries);
            assert(self@.rules == old(self)@.rules);
            assert(self@.max_history == old(self)@.max_history);
            assert(self@.desired_deltat_us == old(self)@.desired_deltat_us);
        }
        let ghost s1 = self@;
        let ghost mm = metrics_model(metrics@);
        let n = metrics.len();
        let mut k: usize = 0;
        while k < n
            invariant
                wf(self@),
                k <= n,
                n == metrics@.len(),
                mm == metrics_model(metrics@),
                self@ == spec_apply_batch(s1, mm, k as int),
            decreases n - k,
        {
            proof {
                assert(mm[k as int] == metrics@[k as int]@);
            }
            self.handle_incoming_metric(&metrics[k], &None);
            k = k + 1;
        }
        self.handle_auto_rules();
    }

    /// The current metric stored under `name`, if any.
    pub fn get_metric(&self, name: &str) -> (r: Option<&Metric>)
        ensures
            match find_entry(self@.entries, name@) {
                Some(i) => r is Some && r->0@ == storage_current(self@.entries[i].storage),
                None => r is None,
            },
    {
        proof {
            lemma_find_entry(self@.entries, name@);
        }
        match self.find_index(name) {
            Some(i) => {
                proof {
                    assert(self@.entries[i as int] == self.metrics@[i as int]@);
                }
                let m = self.metrics[i].storage.current_ref();
                proof {
                    assert(m@ == storage_current(self@.entries[i as int].storage));
                }
                Some(m)
            },
            None => None,
        }
    }

    /// The most recent retained samples of the metric stored under `name`:
    /// at most `max_len` points ordered oldest to newest, each a pair of
    /// timestamp in microseconds and value in micros, together with the
    /// least and greatest value over the *entire* retained history, so a
    /// caller can size a stable axis while paging a shorter window. There is
    /// no result unless the entry keeps history and currently holds a
    /// numeric value.
    pub fn get_metric_history(&self, name: &str, max_len: usize) -> (r: Option<
        (Vec<(u64, i64)>, i64, i64),
    >)
        ensures
            r is Some <==> history_query_ok(self@.entries, name@),
            match r {
                Some((data, lo, hi)) => {
                    let h = entry_history(self@.entries, name@);
                    &&& data@ == history_window(h, max_len as int)
                    &&& lo == history_min(h, h.len() as int)
                    &&& hi == history_max(h, h.len() as int)
                },
                None => true,
            },
    {
        proof {
            lemma_find_entry(self@.entries, name@);
        }
        match self.find_index(name) {
            Some(i) => {
                proof {
                    assert(self@.entries[i as int] == self.metrics@[i as int]@);
                }
                match &self.metrics[i].storage {
                    MetricStorage::CurrentOnly(_) => None,
                    MetricStorage::History { current, history } => {
                        if !current.get_value().is_numeric() {
                            return None;
                        }
                        let ghost h = history_model(history@);
                        let n = history.len();
                        if n == 0 {
                            return None;
                        }
                        let requested_len: usize = if max_len < n {
                            max_len
                        } else {
                            n
                        };
                        let mut data: Vec<(u64, i64)> = Vec::new();
                        let mut idx: usize = 0;
                        while idx < requested_len
                            invariant
                                h == history_model(history@),
                                h.len() == n,
                                n == history@.len(),
                                requested_len <= n,
                                idx <= requested_len,
                                data@.len() == idx,
                                forall|m: int|
                                    0 <= m < idx ==> data@[m] == (
                                    h[requested_len - 1 - m].0,
                                    sample_micros_i64(h[requested_len - 1 - m]),
                                ),
                            decreases requested_len - idx,
                        {
                            let sample = &history[requested_len - 1 - idx];
                            proof {
                                assert(h[requested_len - 1 - idx as int] == (
                                    history@[requested_len - 1 - idx as int].0,
                                    history@[requested_len - 1 - idx as int].1@,
                                ));
                            }
                            data.push((sample.0, sample.1.to_micros_saturated()));
                            idx = idx + 1;
                        }
                        proof {
                            assert(data@ =~= history_window(h, max_len as int));
                        }
                        let mut min_val: i64 = history[0].1.to_micros_saturated();
                        let mut max_val: i64 = min_val;
                        proof {
                            assert(h[0] == (history@[0].0, history@[0].1@));
                        }
                        let mut t: usize = 1;
                        while t < n
                            invariant
                                h == history_model(history@),
                                h.len() == n,
                                n == history@.len(),
                                1 <= t <= n,
                                min_val == history_min(h, t as int),
                                max_val == history_max(h, t as int),
                            decreases n - t,
                        {
                            let v = history[t].1.to_micros_saturated();
                            proof {
                                assert(h[t as int] == (history@[t as int].0, history@[t as int].1@));
                            }
                            if v < min_val {
                                min_val = v;
                            }
                            if v > max_val {
                                max_val = v;
                            }
                            t = t + 1;
                        }
                        Some((data, min_val, max_val))
                    },
                }
            },
            None => None,
        }
    }

    /// A point-in-time snapshot walk over every stored metric's current
    /// value. Iteration order is storage order; callers must not rely on it.
    pub fn metric_iter(&self) -> (it: MetricIterator)
        ensures
            it@ == (IteratorModel { items: currents_of(self@.entries), pos: 0 }),
    {
        let n = self.metrics.len();
        let mut items: Vec<Metric> = Vec::new();
        let mut i: usize = 0;
        while i < n
            invariant
                n == self.metrics.len(),
                i <= n,
                self@.entries.len() == n,
                items@.len() == i,
                forall|j: int|
                    0 <= j < i ==> #[trigger] items@[j]@ == storage_current(
                        self@.entries[j].storage,
                    ),
            decreases n - i,
        {
            proof {
                assert(self@.entries[i as int] == self.metrics@[i as int]@);
            }
            items.push(self.metrics[i].storage.current_ref().clone());
            i = i + 1;
        }
        let it = MetricIterator { items, pos: 0 };
        proof {
            assert(it@.items =~= currents_of(self@.entries));
        }
        it
    }

    /// Calls `cb` once for each stored metric's current value, in storage
    /// order.
    pub fn walk_metrics<F: Fn(&Metric)>(&self, cb: F)
        requires
            forall|m: &Metric| #[trigger] cb.requires((m,)),
    {
        let n = self.metrics.len();
        let mut i: usize = 0;
        while i < n
            invariant
                n == self.metrics.len(),
                i <= n,
                forall|m: &Metric| #[trigger] cb.requires((m,)),
            decreases n - i,
        {
            cb(self.metrics[i].storage.current_ref());
            i = i + 1;
        }
    }
}

/// The value of a history sample, in micros saturated to `i64`.
pub open spec fn sample_micros_i64(s: (u64, ValueModel)) -> i64 {
    sat_i64(micros_of(s.1))
}

/// The window a history query returns: the `max_len` most recent samples
/// (fewer when the history is shorter), ordered oldest to newest, each as
/// `(timestamp in microseconds, value in micros)`.
pub open spec fn history_window(h: Seq<(u64, ValueModel)>, max_len: int) -> Seq<(u64, i64)> {
    let k = if max_len < h.len() {
        max_len
    } else {
        h.len() as int
    };
    Seq::new(k as nat, |idx: int| (h[k - 1 - idx].0, sample_micros_i64(h[k - 1 - idx])))
}

/// The least sample value among the `n` newest samples, in micros.
pub open spec fn history_min(h: Seq<(u64, ValueModel)>, n: int) -> i64
    decreases n,
{
    if n <= 1 {
        sample_micros_i64(h[0])
    } else {
        let rest = history_min(h, n - 1);
        if sample_micros_i64(h[n - 1]) < rest {
            sample_micros_i64(h[n - 1])
        } else {
            rest
        }
    }
}

/// The greatest sample value among the `n` newest samples, in micros.
pub open spec fn history_max(h: Seq<(u64, ValueModel)>, n: int) -> i64
    decreases n,
{
    if n <= 1 {
        sample_micros_i64(h[0])
    } else {
        let rest = history_max(h, n - 1);
        if sample_micros_i64(h[n - 1]) > rest {
            sample_micros_i64(h[n - 1])
        } else {
            rest
        }
    }
}

/// Whether a history query on `label` has a result: the label must be
/// stored, keep history, hold at least one sample, and its current value
/// must be numeric. Textual and absent values are never exposed for
/// plotting, even when their history is retained.
pub open spec fn history_query_ok(entries: Seq<EntryModel>, label: Seq<char>) -> bool {
    match find_entry(entries, label) {
        Some(i) => match entries[i].storage {
            StorageModel::History { current, history } => is_numeric(current.value)
                && history.len() >= 1,
            StorageModel::CurrentOnly(_) => false,
        },
        None => false,
    }
}

/// The stored history of `label` (the empty sequence when there is none).
pub open spec fn entry_history(entries: Seq<EntryModel>, label: Seq<char>) -> Seq<(u64, ValueModel)> {
    match find_entry(entries, label) {
        Some(i) => match entries[i].storage {
            StorageModel::History { history, .. } => history,
            StorageModel::CurrentOnly(_) => Seq::empty(),
        },
        None => Seq::empty(),
    }
}

/// The sequence of current metrics, in storage order.
pub open spec fn currents_of(entries: Seq<EntryModel>) -> Seq<MetricModel> {
    entries.map_values(|e: EntryModel| storage_current(e.storage))
}

/// A finite, restartable walk over a point-in-time snapshot of the store's
/// current metrics.
pub struct MetricIterator {
    items: Vec<Metric>,
    pos: usize,
}

/// The mathematical shape of a [`MetricIterator`]: the snapshot and how far
/// the walk has come.
#[verifier::ext_equal]
pub struct IteratorModel {
    pub items: Seq<MetricModel>,
    pub pos: int,
}

impl View for MetricIterator {
    type V = IteratorModel;

    closed spec fn view(&self) -> IteratorModel {
        IteratorModel { items: self.items@.map_values(|m: Metric| m@), pos: self.pos as int }
    }
}

impl MetricIterator {
    /// The next current metric of the snapshot, until the walk is done.
    pub fn next(&mut self) -> (r: Option<Metric>)
        ensures
            old(self)@.pos < old(self)@.items.len() ==> r is Some && r->0@ == old(
                self,
            )@.items[old(self)@.pos] && final(self)@ == (IteratorModel {
                items: old(self)@.items,
                pos: old(self)@.pos + 1,
            }),
            old(self)@.pos >= old(self)@.items.len() ==> r is None && final(self)@ == old(self)@,
    {
        if self.pos < self.items.len() {
            let m = self.items[self.pos].clone();
            self.pos = self.pos + 1;
            Some(m)
        } else {
            None
        }
    }
}

impl MetricStorage {
    /// The current metric of this storage record.
    pub fn current_ref(&self) -> (r: &Metric)
        ensures
            r@ == storage_current(self@),
    {
        match self {
            MetricStorage::CurrentOnly(current) => current,
            MetricStorage::History { current, .. } => current,
        }
    }

    /// Replaces the current metric; a history-kind record also pushes the
    /// batch-stamped value into its ring.
    fn update_current(&mut self, metric: &Metric, timestamp_us: u64, max_history: usize)
        ensures
            final(self)@ == (match old(self)@ {
                StorageModel::History { current: _, history } => StorageModel::History {
                    current: metric@,
                    history: shift_spec(
                        history,
                        (timestamp_us, metric@.value),
                        max_history as nat,
                    ),
                },
                StorageModel::CurrentOnly(_) => StorageModel::CurrentOnly(metric@),
            }),
    {
        match self {
            MetricStorage::History { current, history } => {
                *current = metric.clone();
                let ghost old_hist = history@;
                vec_shift(history, (timestamp_us, metric.get_value().clone()), max_history);
                proof {
                    assert(history_model(history@) =~= shift_spec(
                        history_model(old_hist),
                        (timestamp_us, metric@.value),
                        max_history as nat,
                    ));
                }
            },
            MetricStorage::CurrentOnly(current) => {
                *current = metric.clone();
            },
        }
    }
}

} // verus!
