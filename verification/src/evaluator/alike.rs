//! Messages on the wire that hold the same texts and numbers convert alike.

use vstd::prelude::*;
use crate::evaluator::otlp::{
    attribute_list_same, metric_error, metric_list_same, only_payload,
    resource_metrics_list_same, same_any_value, same_attribute, same_gauge,
    same_gauge_data_point, same_histogram, same_histogram_data_point, same_key_value,
    same_metric, same_metrics_data, same_resource_metrics, same_scope_metrics, same_sum,
    same_sum_data_point, scope_metrics_list_same, text_list_same, AnyValue, Attribute,
    GaugeDataPoint, HistogramDataPoint, KeyValue, Metric as WireMetric, MetricsData,
    ResourceMetrics, ScopeMetrics, SumDataPoint, ValidatedMetricData,
};
use crate::evaluator::parser::{
    all_metrics, all_resource_attributes, any_value_model, any_values_model, attribute_error,
    attributes_error, attributes_onto, bucket_count_error, buckets_convert,
    counter_point_converts, counter_point_error, gauge_point_converts, gauge_point_error,
    histogram_point_converts, histogram_point_error, key_values_model,
    lemma_all_metrics_place, message_converts, message_error, metric_converts,
    payload_converts, payload_error, resource_attributes, resource_error, scope_error,
    scopes_metrics, validated, wire_metric_error,
};
use crate::first::{first_found, lemma_first_found_none, lemma_first_found_same};
use crate::state::metrics::{
    AttributeValueView, CounterValue, DataPoint, GaugeValue, HistogramBucket, HistogramValue,
    Metric,
};

verus! {

/// Lists of values that hold the same, place by place, are the same attribute values.
pub proof fn lemma_values_alike(a: Seq<AnyValue>, b: Seq<AnyValue>)
    requires
        a.len() == b.len(),
        forall|i: int| 0 <= i < a.len() ==> same_any_value(#[trigger] a[i], b[i]),
    ensures
        any_values_model(a) == any_values_model(b),
    decreases a, 0nat,
{
    if a.len() > 0 {
        assert(same_any_value(a[a.len() - 1], b[a.len() - 1]));
        assert forall|i: int| 0 <= i < a.drop_last().len() implies same_any_value(
            #[trigger] a.drop_last()[i],
            b.drop_last()[i],
        ) by {
            assert(same_any_value(a[i], b[i]));
        }
        lemma_values_alike(a.drop_last(), b.drop_last());
        lemma_value_alike(a.last(), b.last());
    }
}

/// Lists of pairs that hold the same, place by place, are the same keys with values.
pub proof fn lemma_pairs_alike(a: Seq<KeyValue>, b: Seq<KeyValue>)
    requires
        a.len() == b.len(),
        forall|i: int| 0 <= i < a.len() ==> same_key_value(#[trigger] a[i], b[i]),
    ensures
        key_values_model(a) == key_values_model(b),
    decreases a, 0nat,
{
    if a.len() > 0 {
        assert(same_key_value(a[a.len() - 1], b[a.len() - 1]));
        assert forall|i: int| 0 <= i < a.drop_last().len() implies same_key_value(
            #[trigger] a.drop_last()[i],
            b.drop_last()[i],
        ) by {
            assert(same_key_value(a[i], b[i]));
        }
        lemma_pairs_alike(a.drop_last(), b.drop_last());
        lemma_value_alike(a.last().value, b.last().value);
    }
}

/// Values that hold the same are the same attribute value.
pub proof fn lemma_value_alike(a: AnyValue, b: AnyValue)
    requires
        same_any_value(a, b),
    ensures
        any_value_model(a) == any_value_model(b),
    decreases a, 1nat,
{
    match a {
        AnyValue::Array(x) => {
            lemma_values_alike(x@, b->Array_0@);
        },
        AnyValue::KvList(x) => {
            lemma_pairs_alike(x@, b->KvList_0@);
        },
        _ => {},
    }
}

/// Attributes that hold the same are refused alike, and are the same keys with
/// values, whatever they are written onto.
pub proof fn lemma_attributes_alike(
    base: Seq<(Seq<char>, AttributeValueView)>,
    a: Seq<Attribute>,
    b: Seq<Attribute>,
)
    requires
        attribute_list_same(a, b),
    ensures
        attributes_error(a) == attributes_error(b),
        attributes_onto(base, a) == attributes_onto(base, b),
    decreases a.len(),
{
    assert forall|k: int| 0 <= k < a.len() implies attribute_error(#[trigger] a[k])
        == attribute_error(b[k]) by {
        assert(same_attribute(a[k], b[k]));
    }
    lemma_first_found_same(a, b, |x: Attribute| attribute_error(x));
    assert(attributes_error(a) == first_found(a, |x: Attribute| attribute_error(x)));
    assert(attributes_error(b) == first_found(b, |x: Attribute| attribute_error(x)));
    lemma_attributes_onto_alike(base, a, b);
}

/// Attributes that hold the same are the same keys with values, whatever they are
/// written onto.
pub proof fn lemma_attributes_onto_alike(
    base: Seq<(Seq<char>, AttributeValueView)>,
    a: Seq<Attribute>,
    b: Seq<Attribute>,
)
    requires
        attribute_list_same(a, b),
    ensures
        attributes_onto(base, a) == attributes_onto(base, b),
    decreases a.len(),
{
    if a.len() > 0 {
        assert(same_attribute(a[a.len() - 1], b[a.len() - 1]));
        assert forall|i: int| 0 <= i < a.drop_last().len() implies same_attribute(
            #[trigger] a.drop_last()[i],
            b.drop_last()[i],
        ) by {
            assert(same_attribute(a[i], b[i]));
        }
        lemma_attributes_onto_alike(base, a.drop_last(), b.drop_last());
        lemma_value_alike(a.last().value, b.last().value);
    }
}

/// Points of a gauge that hold the same are refused alike and convert alike.
pub proof fn lemma_gauge_point_alike(a: GaugeDataPoint, b: GaugeDataPoint)
    requires
        same_gauge_data_point(a, b),
    ensures
        gauge_point_error(a) == gauge_point_error(b),
        forall|out: DataPoint<GaugeValue>|
            gauge_point_converts(a, out) == gauge_point_converts(b, out),
{
    lemma_attributes_alike(Seq::empty(), a.attributes@, b.attributes@);
}

/// Points of a sum that hold the same are refused alike and convert alike.
pub proof fn lemma_counter_point_alike(a: SumDataPoint, b: SumDataPoint)
    requires
        same_sum_data_point(a, b),
    ensures
        counter_point_error(a) == counter_point_error(b),
        forall|out: DataPoint<CounterValue>|
            counter_point_converts(a, out) == counter_point_converts(b, out),
{
    lemma_attributes_alike(Seq::empty(), a.attributes@, b.attributes@);
}

/// Points of a histogram that hold the same are refused alike and convert alike.
pub proof fn lemma_histogram_point_alike(a: HistogramDataPoint, b: HistogramDataPoint)
    requires
        same_histogram_data_point(a, b),
    ensures
        histogram_point_error(a) == histogram_point_error(b),
        forall|out: DataPoint<HistogramValue>|
            histogram_point_converts(a, out) == histogram_point_converts(b, out),
{
    lemma_attributes_alike(Seq::empty(), a.attributes@, b.attributes@);
    assert forall|k: int| 0 <= k < a.bucket_counts@.len() implies bucket_count_error(
        #[trigger] a.bucket_counts@[k],
    ) == bucket_count_error(b.bucket_counts@[k]) by {
        assert(a.bucket_counts@[k]@ == b.bucket_counts@[k]@);
    }
    lemma_first_found_same(
        a.bucket_counts@,
        b.bucket_counts@,
        |c: String| bucket_count_error(c),
    );
    assert(a.explicit_bounds@ =~= b.explicit_bounds@) by {
        assert forall|k: int| 0 <= k < a.explicit_bounds@.len() implies a.explicit_bounds@[k]
            == b.explicit_bounds@[k] by {
            assert(crate::evaluator::otlp::same_double(
                a.explicit_bounds@[k],
                b.explicit_bounds@[k],
            ));
        }
    }
    assert forall|buckets: Seq<HistogramBucket>|
        buckets_convert(a.bucket_counts@, a.explicit_bounds@, buckets) == buckets_convert(
            b.bucket_counts@,
            b.explicit_bounds@,
            buckets,
        ) by {
        lemma_buckets_alike(a.bucket_counts@, b.bucket_counts@, a.explicit_bounds@, buckets);
    }
}

/// Counts of buckets that hold the same texts make the same buckets.
pub proof fn lemma_buckets_alike(
    a: Seq<String>,
    b: Seq<String>,
    bounds: Seq<crate::double::Double>,
    buckets: Seq<HistogramBucket>,
)
    requires
        text_list_same(a, b),
    ensures
        buckets_convert(a, bounds, buckets) == buckets_convert(b, bounds, buckets),
{
    if buckets.len() == a.len() {
        assert forall|i: int| 0 <= i < a.len() implies a[i]@ == b[i]@ by {
            assert(crate::evaluator::otlp::same_text(a[i], b[i]));
        }
    }
}

/// Whether two payloads are of one kind and hold the same points.
pub open spec fn same_payload(a: ValidatedMetricData, b: ValidatedMetricData) -> bool {
    match (a, b) {
        (ValidatedMetricData::Gauge(x), ValidatedMetricData::Gauge(y)) => same_gauge(x, y),
        (ValidatedMetricData::Sum(x), ValidatedMetricData::Sum(y)) => same_sum(x, y),
        (ValidatedMetricData::Histogram(x), ValidatedMetricData::Histogram(y)) => same_histogram(
            x,
            y,
        ),
        _ => false,
    }
}

/// Payloads that hold the same are refused alike and convert alike.
pub proof fn lemma_payload_alike(a: ValidatedMetricData, b: ValidatedMetricData)
    requires
        same_payload(a, b),
    ensures
        payload_error(a) == payload_error(b),
        forall|out: Metric| payload_converts(a, out) == payload_converts(b, out),
{
    match (a, b) {
        (ValidatedMetricData::Gauge(x), ValidatedMetricData::Gauge(y)) => {
            let p = x.data_points@;
            let q = y.data_points@;
            assert forall|k: int| 0 <= k < p.len() implies gauge_point_error(#[trigger] p[k])
                == gauge_point_error(q[k]) by {
                assert(same_gauge_data_point(p[k], q[k]));
                lemma_gauge_point_alike(p[k], q[k]);
            }
            lemma_first_found_same(p, q, |t: GaugeDataPoint| gauge_point_error(t));
            assert forall|out: Metric| payload_converts(a, out) == payload_converts(b, out) by {
                if out.gauge_points() is Some && out.gauge_points().unwrap().len() == p.len() {
                    let pts = out.gauge_points().unwrap();
                    assert forall|i: int| 0 <= i < p.len() implies gauge_point_converts(
                        p[i],
                        #[trigger] pts[i],
                    ) == gauge_point_converts(q[i], pts[i]) by {
                        assert(same_gauge_data_point(p[i], q[i]));
                        lemma_gauge_point_alike(p[i], q[i]);
                    }
                }
            }
        },
        (ValidatedMetricData::Sum(x), ValidatedMetricData::Sum(y)) => {
            let p = x.data_points@;
            let q = y.data_points@;
            assert forall|k: int| 0 <= k < p.len() implies counter_point_error(#[trigger] p[k])
                == counter_point_error(q[k]) by {
                assert(same_sum_data_point(p[k], q[k]));
                lemma_counter_point_alike(p[k], q[k]);
            }
            lemma_first_found_same(p, q, |t: SumDataPoint| counter_point_error(t));
            assert forall|out: Metric| payload_converts(a, out) == payload_converts(b, out) by {
                if out.counter_points() is Some && out.counter_points().unwrap().len() == p.len() {
                    let pts = out.counter_points().unwrap();
                    assert forall|i: int| 0 <= i < p.len() implies counter_point_converts(
                        p[i],
                        #[trigger] pts[i],
                    ) == counter_point_converts(q[i], pts[i]) by {
                        assert(same_sum_data_point(p[i], q[i]));
                        lemma_counter_point_alike(p[i], q[i]);
                    }
                }
            }
        },
        (ValidatedMetricData::Histogram(x), ValidatedMetricData::Histogram(y)) => {
            let p = x.data_points@;
            let q = y.data_points@;
            assert forall|k: int| 0 <= k < p.len() implies histogram_point_error(
                #[trigger] p[k],
            ) == histogram_point_error(q[k]) by {
                assert(same_histogram_data_point(p[k], q[k]));
                lemma_histogram_point_alike(p[k], q[k]);
            }
            lemma_first_found_same(p, q, |t: HistogramDataPoint| histogram_point_error(t));
            assert forall|out: Metric| payload_converts(a, out) == payload_converts(b, out) by {
                if out.histogram_points() is Some && out.histogram_points().unwrap().len()
                    == p.len() {
                    let pts = out.histogram_points().unwrap();
                    assert forall|i: int| 0 <= i < p.len() implies histogram_point_converts(
                        p[i],
                        #[trigger] pts[i],
                    ) == histogram_point_converts(q[i], pts[i]) by {
                        assert(same_histogram_data_point(p[i], q[i]));
                        lemma_histogram_point_alike(p[i], q[i]);
                    }
                }
            }
        },
        _ => {},
    }
}

/// Metrics that hold the same are refused alike, and convert alike where they are
/// not refused.
pub proof fn lemma_metric_alike(a: WireMetric, b: WireMetric)
    requires
        same_metric(a, b),
    ensures
        wire_metric_error(a) == wire_metric_error(b),
        metric_error(a) is None ==> forall|out: Metric|
            metric_converts(validated(a), out) == metric_converts(validated(b), out),
{
    if metric_error(a) is None {
        assert(same_payload(only_payload(a), only_payload(b)));
        lemma_payload_alike(only_payload(a), only_payload(b));
    }
}

/// Scopes that hold the same are refused alike.
pub proof fn lemma_scope_alike(a: ScopeMetrics, b: ScopeMetrics)
    requires
        same_scope_metrics(a, b),
    ensures
        scope_error(a) == scope_error(b),
{
    assert forall|k: int| 0 <= k < a.metrics@.len() implies wire_metric_error(
        #[trigger] a.metrics@[k],
    ) == wire_metric_error(b.metrics@[k]) by {
        assert(same_metric(a.metrics@[k], b.metrics@[k]));
        lemma_metric_alike(a.metrics@[k], b.metrics@[k]);
    }
    lemma_first_found_same(a.metrics@, b.metrics@, |m: WireMetric| wire_metric_error(m));
}

/// Resources that hold the same have attributes that hold the same.
pub proof fn lemma_resource_attributes_alike(a: ResourceMetrics, b: ResourceMetrics)
    requires
        same_resource_metrics(a, b),
    ensures
        attribute_list_same(resource_attributes(a), resource_attributes(b)),
{
}

/// Resources that hold the same are refused alike.
pub proof fn lemma_resource_alike(a: ResourceMetrics, b: ResourceMetrics)
    requires
        same_resource_metrics(a, b),
    ensures
        resource_error(a) == resource_error(b),
{
    lemma_resource_attributes_alike(a, b);
    lemma_attributes_alike(Seq::empty(), resource_attributes(a), resource_attributes(b));
    assert forall|k: int| 0 <= k < a.scope_metrics@.len() implies scope_error(
        #[trigger] a.scope_metrics@[k],
    ) == scope_error(b.scope_metrics@[k]) by {
        assert(same_scope_metrics(a.scope_metrics@[k], b.scope_metrics@[k]));
        lemma_scope_alike(a.scope_metrics@[k], b.scope_metrics@[k]);
    }
    lemma_first_found_same(a.scope_metrics@, b.scope_metrics@, |s: ScopeMetrics| scope_error(s));
}

/// Scopes that hold the same have, all together, metrics that hold the same.
pub proof fn lemma_scopes_metrics_alike(a: Seq<ScopeMetrics>, b: Seq<ScopeMetrics>)
    requires
        scope_metrics_list_same(a, b),
    ensures
        metric_list_same(scopes_metrics(a), scopes_metrics(b)),
    decreases a.len(),
{
    if a.len() > 0 {
        assert(same_scope_metrics(a[a.len() - 1], b[a.len() - 1]));
        assert forall|i: int| 0 <= i < a.drop_last().len() implies same_scope_metrics(
            #[trigger] a.drop_last()[i],
            b.drop_last()[i],
        ) by {
            assert(same_scope_metrics(a[i], b[i]));
        }
        lemma_scopes_metrics_alike(a.drop_last(), b.drop_last());
        let x = scopes_metrics(a.drop_last());
        let y = scopes_metrics(b.drop_last());
        let p = a.last().metrics@;
        let q = b.last().metrics@;
        assert forall|i: int| 0 <= i < (x + p).len() implies same_metric(
            #[trigger] (x + p)[i],
            (y + q)[i],
        ) by {
            if i < x.len() {
                assert(same_metric(x[i], y[i]));
            } else {
                assert(same_metric(p[i - x.len()], q[i - x.len()]));
            }
        }
    }
}

/// Resources that hold the same have, all together, metrics and attributes that
/// hold the same.
pub proof fn lemma_all_alike(a: Seq<ResourceMetrics>, b: Seq<ResourceMetrics>)
    requires
        resource_metrics_list_same(a, b),
    ensures
        metric_list_same(all_metrics(a), all_metrics(b)),
        attribute_list_same(all_resource_attributes(a), all_resource_attributes(b)),
    decreases a.len(),
{
    if a.len() > 0 {
        assert(same_resource_metrics(a[a.len() - 1], b[a.len() - 1]));
        assert forall|i: int| 0 <= i < a.drop_last().len() implies same_resource_metrics(
            #[trigger] a.drop_last()[i],
            b.drop_last()[i],
        ) by {
            assert(same_resource_metrics(a[i], b[i]));
        }
        lemma_all_alike(a.drop_last(), b.drop_last());
        lemma_scopes_metrics_alike(a.last().scope_metrics@, b.last().scope_metrics@);
        lemma_resource_attributes_alike(a.last(), b.last());
        let x = all_metrics(a.drop_last());
        let y = all_metrics(b.drop_last());
        let p = scopes_metrics(a.last().scope_metrics@);
        let q = scopes_metrics(b.last().scope_metrics@);
        assert forall|i: int| 0 <= i < (x + p).len() implies same_metric(
            #[trigger] (x + p)[i],
            (y + q)[i],
        ) by {
            if i < x.len() {
                assert(same_metric(x[i], y[i]));
            } else {
                assert(same_metric(p[i - x.len()], q[i - x.len()]));
            }
        }
        let u = all_resource_attributes(a.drop_last());
        let v = all_resource_attributes(b.drop_last());
        let s = resource_attributes(a.last());
        let t = resource_attributes(b.last());
        assert forall|i: int| 0 <= i < (u + s).len() implies same_attribute(
            #[trigger] (u + s)[i],
            (v + t)[i],
        ) by {
            if i < u.len() {
                assert(same_attribute(u[i], v[i]));
            } else {
                assert(same_attribute(s[i - u.len()], t[i - u.len()]));
            }
        }
    }
}

/// In a message that is not refused, no metric is refused.
pub proof fn lemma_no_metric_refused(data: MetricsData, i: int)
    requires
        message_error(data) is None,
        0 <= i < all_metrics(data.resource_metrics@).len(),
    ensures
        wire_metric_error(all_metrics(data.resource_metrics@)[i]) is None,
{
    let resources = data.resource_metrics@;
    let at = lemma_all_metrics_place(resources, i);
    lemma_first_found_none(resources, |r: ResourceMetrics| resource_error(r));
    assert(resource_error(resources[at.0]) is None);
    let scopes = resources[at.0].scope_metrics@;
    lemma_first_found_none(scopes, |s: ScopeMetrics| scope_error(s));
    assert(scope_error(scopes[at.1]) is None);
    lemma_first_found_none(scopes[at.1].metrics@, |m: WireMetric| wire_metric_error(m));
}

/// Messages that hold the same are refused alike, and convert alike where they
/// are not refused.
pub proof fn lemma_message_alike(a: MetricsData, b: MetricsData)
    requires
        same_metrics_data(a, b),
    ensures
        message_error(a) == message_error(b),
        message_error(a) is None ==> forall|out: crate::state::metrics::MetricData|
            message_converts(a, out) == message_converts(b, out),
{
    let p = a.resource_metrics@;
    let q = b.resource_metrics@;
    assert forall|k: int| 0 <= k < p.len() implies resource_error(#[trigger] p[k])
        == resource_error(q[k]) by {
        assert(same_resource_metrics(p[k], q[k]));
        lemma_resource_alike(p[k], q[k]);
    }
    lemma_first_found_same(p, q, |r: ResourceMetrics| resource_error(r));
    if message_error(a) is None {
        lemma_all_alike(p, q);
        lemma_attributes_alike(
            Seq::empty(),
            all_resource_attributes(p),
            all_resource_attributes(q),
        );
        let x = all_metrics(p);
        let y = all_metrics(q);
        assert forall|out: crate::state::metrics::MetricData|
            message_converts(a, out) == message_converts(b, out) by {
            if out.metrics@.len() == x.len() {
                assert forall|i: int| 0 <= i < x.len() implies metric_converts(
                    validated(x[i]),
                    #[trigger] out.metrics@[i],
                ) == metric_converts(validated(y[i]), out.metrics@[i]) by {
                    lemma_no_metric_refused(a, i);
                    assert(same_metric(x[i], y[i]));
                    lemma_metric_alike(x[i], y[i]);
                }
            }
        }
    }
}

} // verus!
