//! Metrics as the evaluation keeps them.

use vstd::prelude::*;
use crate::double::Double;
use crate::text::{
    bounded_text, bounded_text_error, str_equal, trim, NumberError, TextError,
};

verus! {

/// The name of a metric: 1 to 255 characters, trimmed.
#[derive(Debug, PartialEq, Eq, Hash)]
pub struct MetricName {
    value: String,
}

impl View for MetricName {
    type V = Seq<char>;

    closed spec fn view(&self) -> Seq<char> {
        self.value@
    }
}

impl Clone for MetricName {
    fn clone(&self) -> (r: MetricName)
        ensures
            r@ == self@,
    {
        proof {
            use_type_invariant(self);
        }
        MetricName { value: self.value.clone() }
    }
}

impl MetricName {
    #[verifier::type_invariant]
    spec fn well_formed(self) -> bool {
        0 < self.value@.len() <= 255 && trim(self.value@) == self.value@
    }

    /// Trims `raw` and accepts it as a metric's name if 1 to 255 characters are left.
    pub fn try_new(raw: &str) -> (r: Result<MetricName, TextError>)
        ensures
            match r {
                Ok(v) => bounded_text_error(raw@, 255) is None && v@ == trim(raw@),
                Err(e) => bounded_text_error(raw@, 255) == Some(e),
            },
    {
        match bounded_text(raw, 255) {
            Ok(value) => Ok(MetricName { value }),
            Err(e) => Err(e),
        }
    }

    /// The text.
    pub fn as_ref(&self) -> (r: &str)
        ensures
            r@ == self@,
            0 < r@.len() <= 255,
            trim(r@) == r@,
    {
        proof {
            use_type_invariant(self);
        }
        self.value.as_str()
    }

    /// The value that is held.
    pub fn into_inner(self) -> (r: String)
        ensures
            r@ == self@,
            0 < r@.len() <= 255,
            trim(r@) == r@,
    {
        proof {
            use_type_invariant(&self);
        }
        self.value
    }
}

/// The identifier of a sample: 1 to 255 characters, trimmed.
#[derive(Debug, PartialEq, Eq, Hash)]
pub struct SampleId {
    value: String,
}

impl View for SampleId {
    type V = Seq<char>;

    closed spec fn view(&self) -> Seq<char> {
        self.value@
    }
}

impl Clone for SampleId {
    fn clone(&self) -> (r: SampleId)
        ensures
            r@ == self@,
    {
        proof {
            use_type_invariant(self);
        }
        SampleId { value: self.value.clone() }
    }
}

impl SampleId {
    #[verifier::type_invariant]
    spec fn well_formed(self) -> bool {
        0 < self.value@.len() <= 255 && trim(self.value@) == self.value@
    }

    /// Trims `raw` and accepts it as a sample's identifier if 1 to 255 characters are left.
    pub fn try_new(raw: &str) -> (r: Result<SampleId, TextError>)
        ensures
            match r {
                Ok(v) => bounded_text_error(raw@, 255) is None && v@ == trim(raw@),
                Err(e) => bounded_text_error(raw@, 255) == Some(e),
            },
    {
        match bounded_text(raw, 255) {
            Ok(value) => Ok(SampleId { value }),
            Err(e) => Err(e),
        }
    }

    /// The text.
    pub fn as_ref(&self) -> (r: &str)
        ensures
            r@ == self@,
            0 < r@.len() <= 255,
            trim(r@) == r@,
    {
        proof {
            use_type_invariant(self);
        }
        self.value.as_str()
    }

    /// The value that is held.
    pub fn into_inner(self) -> (r: String)
        ensures
            r@ == self@,
            0 < r@.len() <= 255,
            trim(r@) == r@,
    {
        proof {
            use_type_invariant(&self);
        }
        self.value
    }
}

/// A time in nanoseconds since the Unix epoch: above zero.
#[derive(Clone, Copy, Debug, PartialEq, Eq, PartialOrd, Ord)]
pub struct TimeUnixNano {
    value: u64,
}

impl View for TimeUnixNano {
    type V = u64;

    closed spec fn view(&self) -> u64 {
        self.value
    }
}

impl TimeUnixNano {
    #[verifier::type_invariant]
    spec fn well_formed(self) -> bool {
        self.value > 0
    }

    /// Accepts `value` as a time if it is above zero.
    pub fn try_new(value: u64) -> (r: Result<TimeUnixNano, NumberError>)
        ensures
            match r {
                Ok(v) => value > 0 && v@ == value,
                Err(e) => value == 0 && e == NumberError::NotPositive,
            },
    {
        if value > 0 {
            Ok(TimeUnixNano { value })
        } else {
            Err(NumberError::NotPositive)
        }
    }

    /// The value that is held.
    pub fn into_inner(self) -> (r: u64)
        ensures
            r == self@,
            r > 0,
    {
        proof {
            use_type_invariant(&self);
        }
        self.value
    }
}

/// The key of an attribute: 1 to 255 characters, trimmed.
#[derive(Debug, PartialEq, Eq, Hash)]
pub struct AttributeKey {
    value: String,
}

impl View for AttributeKey {
    type V = Seq<char>;

    closed spec fn view(&self) -> Seq<char> {
        self.value@
    }
}

impl Clone for AttributeKey {
    fn clone(&self) -> (r: AttributeKey)
        ensures
            r@ == self@,
    {
        proof {
            use_type_invariant(self);
        }
        AttributeKey { value: self.value.clone() }
    }
}

impl AttributeKey {
    #[verifier::type_invariant]
    spec fn well_formed(self) -> bool {
        0 < self.value@.len() <= 255 && trim(self.value@) == self.value@
    }

    /// Trims `raw` and accepts it as an attribute's key if 1 to 255 characters are left.
    pub fn try_new(raw: &str) -> (r: Result<AttributeKey, TextError>)
        ensures
            match r {
                Ok(v) => bounded_text_error(raw@, 255) is None && v@ == trim(raw@),
                Err(e) => bounded_text_error(raw@, 255) == Some(e),
            },
    {
        match bounded_text(raw, 255) {
            Ok(value) => Ok(AttributeKey { value }),
            Err(e) => Err(e),
        }
    }

    /// The text.
    pub fn as_ref(&self) -> (r: &str)
        ensures
            r@ == self@,
            0 < r@.len() <= 255,
            trim(r@) == r@,
    {
        proof {
            use_type_invariant(self);
        }
        self.value.as_str()
    }

    /// The value that is held.
    pub fn into_inner(self) -> (r: String)
        ensures
            r@ == self@,
            0 < r@.len() <= 255,
            trim(r@) == r@,
    {
        proof {
            use_type_invariant(&self);
        }
        self.value
    }
}

/// What an attribute value is, without its representation.
pub enum AttributeValueView {
    Text(Seq<char>),
    Flag(bool),
    Integer(i64),
    Real(Double),
    Array(Seq<AttributeValueView>),
    /// Keys with their values; no key occurs twice.
    Kvlist(Seq<(Seq<char>, AttributeValueView)>),
}

/// The value of an attribute.
#[derive(Debug, PartialEq, Eq)]
pub enum AttributeValue {
    StringValue(String),
    BoolValue(bool),
    IntValue(i64),
    DoubleValue(Double),
    ArrayValue(Vec<AttributeValue>),
    /// Keys with their values, in the order in which the keys were first seen.
    KvlistValue(Vec<(String, AttributeValue)>),
}

/// The position of the first pair with key `key`, or the number of pairs if there
/// is none.
pub open spec fn position<V>(pairs: Seq<(Seq<char>, V)>, key: Seq<char>) -> int
    decreases pairs.len(),
{
    if pairs.len() == 0 {
        0
    } else if pairs[0].0 == key {
        0
    } else {
        1 + position(pairs.drop_first(), key)
    }
}

/// The value under `key`, if there is one.
pub open spec fn lookup<V>(pairs: Seq<(Seq<char>, V)>, key: Seq<char>) -> Option<V> {
    let i = position(pairs, key);
    if 0 <= i < pairs.len() {
        Some(pairs[i].1)
    } else {
        None
    }
}

/// `pairs` after `value` is written under `key`: in the place of the value that
/// was there, or at the end where the key is new.
pub open spec fn put<V>(pairs: Seq<(Seq<char>, V)>, key: Seq<char>, value: V) -> Seq<
    (Seq<char>, V),
> {
    let i = position(pairs, key);
    if 0 <= i < pairs.len() {
        pairs.update(i, (key, value))
    } else {
        pairs.push((key, value))
    }
}

/// Whether no key occurs twice.
pub open spec fn distinct_keys<V>(pairs: Seq<(Seq<char>, V)>) -> bool {
    forall|i: int, j: int|
        0 <= i < j < pairs.len() ==> (#[trigger] pairs[i]).0 != (#[trigger] pairs[j]).0
}

/// Where no pair before place `i` has the key and the pair at `i` has it, or `i`
/// is the number of pairs, the position of the key is `i`.
pub proof fn lemma_position<V>(pairs: Seq<(Seq<char>, V)>, key: Seq<char>, i: int)
    requires
        0 <= i <= pairs.len(),
        forall|k: int| 0 <= k < i ==> (#[trigger] pairs[k]).0 != key,
        i == pairs.len() || pairs[i].0 == key,
    ensures
        position(pairs, key) == i,
    decreases i,
{
    if i > 0 {
        let rest = pairs.drop_first();
        assert(pairs[0].0 != key);
        assert forall|k: int| 0 <= k < i - 1 implies (#[trigger] rest[k]).0 != key by {
            assert(rest[k] == pairs[k + 1]);
        }
        lemma_position(rest, key, i - 1);
    }
}

/// The position of a key is within bounds, and no pair before it has the key.
pub proof fn lemma_position_bounds<V>(pairs: Seq<(Seq<char>, V)>, key: Seq<char>)
    ensures
        0 <= position(pairs, key) <= pairs.len(),
        position(pairs, key) < pairs.len() ==> pairs[position(pairs, key)].0 == key,
        forall|k: int| 0 <= k < position(pairs, key) ==> (#[trigger] pairs[k]).0 != key,
    decreases pairs.len(),
{
    if pairs.len() > 0 && pairs[0].0 != key {
        let rest = pairs.drop_first();
        lemma_position_bounds(rest, key);
        assert forall|k: int| 0 <= k < position(pairs, key) implies (#[trigger] pairs[k]).0
            != key by {
            if k > 0 {
                assert(rest[k - 1] == pairs[k]);
            }
        }
    }
}

/// Writing under a key keeps the keys distinct.
pub proof fn lemma_put_distinct<V>(pairs: Seq<(Seq<char>, V)>, key: Seq<char>, value: V)
    requires
        distinct_keys(pairs),
    ensures
        distinct_keys(put(pairs, key, value)),
{
    lemma_position_bounds(pairs, key);
    let after = put(pairs, key, value);
    let at = position(pairs, key);
    assert forall|i: int, j: int| 0 <= i < j < after.len() implies (#[trigger] after[i]).0 != (
    #[trigger] after[j]).0 by {
        if at < pairs.len() {
            assert(after[i].0 == pairs[i].0);
            assert(after[j].0 == pairs[j].0);
        } else {
            if j < pairs.len() {
                assert(after[i] == pairs[i]);
                assert(after[j] == pairs[j]);
            } else {
                assert(after[i] == pairs[i]);
                assert(pairs[i].0 != key);
            }
        }
    }
}

/// What each of `values` is, in order.
pub open spec fn values_view(values: Seq<AttributeValue>) -> Seq<AttributeValueView>
    decreases values, 0nat,
{
    if values.len() == 0 {
        Seq::empty()
    } else {
        values_view(values.drop_last()).push(values.last().view())
    }
}

/// What each of `pairs` is, in order, with its key.
pub open spec fn pairs_view(pairs: Seq<(String, AttributeValue)>) -> Seq<
    (Seq<char>, AttributeValueView),
>
    decreases pairs, 0nat,
{
    if pairs.len() == 0 {
        Seq::empty()
    } else {
        pairs_view(pairs.drop_last()).push((pairs.last().0@, pairs.last().1.view()))
    }
}

impl Clone for AttributeValue {
    #[verifier::loop_isolation(false)]
    fn clone(&self) -> (r: AttributeValue)
        ensures
            r@ == self@,
        decreases self,
    {
        match self {
            AttributeValue::StringValue(s) => AttributeValue::StringValue(s.clone()),
            AttributeValue::BoolValue(b) => AttributeValue::BoolValue(*b),
            AttributeValue::IntValue(n) => AttributeValue::IntValue(*n),
            AttributeValue::DoubleValue(d) => AttributeValue::DoubleValue(*d),
            AttributeValue::ArrayValue(values) => {
                let n: usize = values.len();
                let mut out: Vec<AttributeValue> = Vec::new();
                let mut i: usize = 0;
                while i < n
                    invariant
                        i <= n,
                        n == values@.len(),
                        values_view(out@) == values_view(values@.take(i as int)),
                    decreases n - i,
                {
                    let copy = values[i].clone();
                    proof {
                        assert(out@.push(copy).drop_last() =~= out@);
                        assert(values@.take(i + 1).drop_last() =~= values@.take(i as int));
                    }
                    out.push(copy);
                    i += 1;
                }
                proof {
                    assert(values@.take(n as int) =~= values@);
                }
                AttributeValue::ArrayValue(out)
            },
            AttributeValue::KvlistValue(pairs) => {
                let n: usize = pairs.len();
                let mut out: Vec<(String, AttributeValue)> = Vec::new();
                let mut i: usize = 0;
                while i < n
                    invariant
                        i <= n,
                        n == pairs@.len(),
                        pairs_view(out@) == pairs_view(pairs@.take(i as int)),
                    decreases n - i,
                {
                    let copy = (pairs[i].0.clone(), pairs[i].1.clone());
                    proof {
                        assert(out@.push(copy).drop_last() =~= out@);
                        assert(pairs@.take(i + 1).drop_last() =~= pairs@.take(i as int));
                    }
                    out.push(copy);
                    i += 1;
                }
                proof {
                    assert(pairs@.take(n as int) =~= pairs@);
                }
                AttributeValue::KvlistValue(out)
            },
        }
    }
}

impl View for AttributeValue {
    type V = AttributeValueView;

    open spec fn view(&self) -> AttributeValueView
        decreases self, 1nat,
    {
        match self {
            AttributeValue::StringValue(s) => AttributeValueView::Text(s@),
            AttributeValue::BoolValue(b) => AttributeValueView::Flag(*b),
            AttributeValue::IntValue(n) => AttributeValueView::Integer(*n),
            AttributeValue::DoubleValue(d) => AttributeValueView::Real(*d),
            AttributeValue::ArrayValue(values) => AttributeValueView::Array(values_view(values@)),
            AttributeValue::KvlistValue(pairs) => AttributeValueView::Kvlist(pairs_view(pairs@)),
        }
    }
}

/// The views of `pairs` have their number, and each is in its place.
pub proof fn lemma_pairs_view(pairs: Seq<(String, AttributeValue)>)
    ensures
        pairs_view(pairs).len() == pairs.len(),
        forall|i: int|
            0 <= i < pairs.len()
                ==> pairs_view(pairs)[i] == ((#[trigger] pairs[i]).0@, pairs[i].1@),
    decreases pairs.len(),
{
    if pairs.len() > 0 {
        lemma_pairs_view(pairs.drop_last());
        assert(pairs_view(pairs) == pairs_view(pairs.drop_last()).push(
            (pairs.last().0@, pairs.last().1.view()),
        ));
        assert(pairs_view(pairs).len() == pairs.len());
        assert forall|i: int| 0 <= i < pairs.len() implies pairs_view(pairs)[i] == ((
        #[trigger] pairs[i]).0@, pairs[i].1@) by {
            if i < pairs.len() - 1 {
                assert(pairs.drop_last()[i] == pairs[i]);
            }
        }
    }
}

/// Writes `value` under `key`: in the place of the value that was there, or at the
/// end where the key is new.
#[verifier::loop_isolation(false)]
pub fn put_pair(pairs: &mut Vec<(String, AttributeValue)>, key: String, value: AttributeValue)
    ensures
        pairs_view(final(pairs)@) == put(pairs_view(old(pairs)@), key@, value@),
{
    let n: usize = pairs.len();
    let mut i: usize = 0;
    proof {
        lemma_pairs_view(pairs@);
    }
    while i < n
        invariant
            i <= n,
            n == pairs@.len(),
            pairs@ == old(pairs)@,
            pairs_view(pairs@).len() == n,
            forall|k: int|
                0 <= k < n ==> pairs_view(pairs@)[k] == ((#[trigger] pairs@[k]).0@, pairs@[k].1@),
            forall|k: int| 0 <= k < i ==> (#[trigger] pairs_view(pairs@)[k]).0 != key@,
        decreases n - i,
    {
        if str_equal(pairs[i].0.as_str(), key.as_str()) {
            proof {
                assert(pairs_view(pairs@)[i as int].0 == key@);
                lemma_position(pairs_view(pairs@), key@, i as int);
            }
            let ghost before = pairs@;
            pairs.set(i, (key, value));
            proof {
                lemma_pairs_view(pairs@);
                assert(pairs_view(pairs@) =~= pairs_view(before).update(
                    i as int,
                    (key@, value@),
                )) by {
                    assert forall|k: int| 0 <= k < n implies pairs_view(pairs@)[k]
                        == pairs_view(before).update(i as int, (key@, value@))[k] by {
                        if k != i {
                            assert(pairs@[k] == before[k]);
                        } else {
                            assert(pairs@[k] == (key, value));
                        }
                    }
                }
            }
            return ;
        }
        proof {
            assert(pairs_view(pairs@)[i as int].0 == pairs@[i as int].0@);
        }
        i += 1;
    }
    proof {
        lemma_position(pairs_view(pairs@), key@, n as int);
        assert(pairs@.push((key, value)).drop_last() =~= pairs@);
    }
    pairs.push((key, value));
}

/// The views of entries, each with its key.
pub open spec fn entries_view(entries: Seq<(AttributeKey, AttributeValue)>) -> Seq<
    (Seq<char>, AttributeValueView),
> {
    Seq::new(entries.len(), |i: int| (entries[i].0@, entries[i].1@))
}

/// Attributes: keys with their values, in the order in which the keys were first
/// seen. No key occurs twice.
#[derive(Debug, PartialEq, Eq)]
pub struct AttributeMap {
    entries: Vec<(AttributeKey, AttributeValue)>,
}

impl View for AttributeMap {
    type V = Seq<(Seq<char>, AttributeValueView)>;

    closed spec fn view(&self) -> Seq<(Seq<char>, AttributeValueView)> {
        entries_view(self.entries@)
    }
}

impl Clone for AttributeMap {
    fn clone(&self) -> (r: AttributeMap)
        ensures
            r@ == self@,
    {
        proof {
            use_type_invariant(self);
        }
        let n: usize = self.entries.len();
        let mut entries: Vec<(AttributeKey, AttributeValue)> = Vec::new();
        let mut i: usize = 0;
        while i < n
            invariant
                i <= n,
                n == self.entries@.len(),
                entries@.len() == i,
                forall|k: int|
                    0 <= k < i ==> (#[trigger] entries@[k]).0@ == self.entries@[k].0@
                        && entries@[k].1@ == self.entries@[k].1@,
            decreases n - i,
        {
            entries.push((self.entries[i].0.clone(), self.entries[i].1.clone()));
            i += 1;
        }
        proof {
            assert(entries_view(entries@) =~= entries_view(self.entries@));
        }
        AttributeMap { entries }
    }
}

impl AttributeMap {
    #[verifier::type_invariant]
    spec fn well_formed(self) -> bool {
        distinct_keys(entries_view(self.entries@))
    }

    /// No attributes.
    pub fn new() -> (r: AttributeMap)
        ensures
            r@ == Seq::<(Seq<char>, AttributeValueView)>::empty(),
            distinct_keys(r@),
    {
        let r = AttributeMap { entries: Vec::new() };
        assert(r@ =~= Seq::<(Seq<char>, AttributeValueView)>::empty());
        r
    }

    /// Writes `value` under `key`; a value that was there is lost.
    #[verifier::loop_isolation(false)]
    pub fn insert(self, key: AttributeKey, value: AttributeValue) -> (r: AttributeMap)
        ensures
            r@ == put(self@, key@, value@),
            distinct_keys(r@),
    {
        proof {
            use_type_invariant(&self);
            lemma_put_distinct(self@, key@, value@);
        }
        let ghost before = self.entries@;
        let mut entries = self.entries;
        let n: usize = entries.len();
        let mut i: usize = 0;
        while i < n
            invariant
                i <= n,
                n == entries@.len(),
                entries@ == before,
                forall|k: int| 0 <= k < i ==> (#[trigger] entries_view(before)[k]).0 != key@,
            decreases n - i,
        {
            if str_equal(entries[i].0.as_ref(), key.as_ref()) {
                proof {
                    assert(entries_view(before)[i as int].0 == key@);
                    lemma_position(entries_view(before), key@, i as int);
                }
                entries.set(i, (key, value));
                proof {
                    assert(entries_view(entries@) =~= entries_view(before).update(
                        i as int,
                        (key@, value@),
                    ));
                }
                return AttributeMap { entries };
            }
            proof {
                assert(entries_view(before)[i as int].0 == before[i as int].0@);
            }
            i += 1;
        }
        proof {
            lemma_position(entries_view(before), key@, n as int);
            assert(entries_view(before.push((key, value))) =~= entries_view(before).push(
                (key@, value@),
            ));
        }
        entries.push((key, value));
        AttributeMap { entries }
    }

    /// The number of attributes.
    pub fn len(&self) -> (r: usize)
        ensures
            r == self@.len(),
            distinct_keys(self@),
    {
        proof {
            use_type_invariant(self);
        }
        self.entries.len()
    }

    /// The value under `key`, if there is one.
    #[verifier::loop_isolation(false)]
    pub fn get(&self, key: &str) -> (r: Option<&AttributeValue>)
        ensures
            match r {
                Some(v) => lookup(self@, key@) == Some(v@),
                None => lookup(self@, key@) is None,
            },
            distinct_keys(self@),
    {
        proof {
            use_type_invariant(self);
        }
        let n: usize = self.entries.len();
        let mut i: usize = 0;
        while i < n
            invariant
                i <= n,
                n == self.entries@.len(),
                forall|k: int| 0 <= k < i ==> (#[trigger] self@[k]).0 != key@,
            decreases n - i,
        {
            if str_equal(self.entries[i].0.as_ref(), key) {
                proof {
                    assert(self@[i as int].0 == key@);
                    lemma_position(self@, key@, i as int);
                }
                return Some(&self.entries[i].1);
            }
            proof {
                assert(self@[i as int].0 == self.entries@[i as int].0@);
            }
            i += 1;
        }
        proof {
            lemma_position(self@, key@, n as int);
        }
        None
    }

    /// The key of the attribute at place `i`.
    pub fn key_at(&self, i: usize) -> (r: &AttributeKey)
        requires
            i < self@.len(),
        ensures
            r@ == self@[i as int].0,
    {
        &self.entries[i].0
    }

    /// The value of the attribute at place `i`.
    pub fn value_at(&self, i: usize) -> (r: &AttributeValue)
        requires
            i < self@.len(),
        ensures
            r@ == self@[i as int].1,
    {
        &self.entries[i].1
    }
}

/// The value of a gauge: any double.
#[derive(Clone, Copy, Debug, PartialEq, Eq)]
pub struct GaugeValue {
    value: Double,
}

impl View for GaugeValue {
    type V = Double;

    closed spec fn view(&self) -> Double {
        self.value
    }
}

impl GaugeValue {
    /// A gauge that reads `value`.
    pub fn new(value: Double) -> (r: GaugeValue)
        ensures
            r@ == value,
    {
        GaugeValue { value }
    }

    /// The value.
    pub fn value(&self) -> (r: Double)
        ensures
            r == self@,
    {
        self.value
    }
}

/// Why a double is refused as the value of a counter.
#[derive(Clone, Copy, Debug, PartialEq, Eq, Structural)]
pub enum CounterValueError {
    /// The value is below zero.
    MustBeNonNegative,
    /// The value is positive infinity or not a number.
    NotFinite,
}

/// Why `value` is refused as the value of a counter, if it is.
pub open spec fn counter_value_error(value: Double) -> Option<CounterValueError> {
    if value.finite() && !value.negative() {
        None
    } else if value.negative() {
        Some(CounterValueError::MustBeNonNegative)
    } else {
        Some(CounterValueError::NotFinite)
    }
}

/// A finite double that is not below zero.
#[derive(Clone, Copy, Debug, PartialEq, Eq)]
pub struct NonNegativeF64 {
    value: Double,
}

impl View for NonNegativeF64 {
    type V = Double;

    closed spec fn view(&self) -> Double {
        self.value
    }
}

impl NonNegativeF64 {
    #[verifier::type_invariant]
    spec fn well_formed(self) -> bool {
        self.value.finite() && !self.value.negative()
    }

    /// Accepts `value` if it is finite and not below zero.
    pub fn try_new(value: Double) -> (r: Option<NonNegativeF64>)
        ensures
            match r {
                Some(v) => counter_value_error(value) is None && v@ == value,
                None => counter_value_error(value) is Some,
            },
    {
        if value.is_finite() && !value.is_negative() {
            Some(NonNegativeF64 { value })
        } else {
            None
        }
    }

    /// The value that is held.
    pub fn into_inner(self) -> (r: Double)
        ensures
            r == self@,
            r.finite(),
            !r.negative(),
    {
        proof {
            use_type_invariant(&self);
        }
        self.value
    }
}

/// The value of a counter: finite and not below zero.
#[derive(Clone, Copy, Debug, PartialEq, Eq)]
pub struct CounterValue {
    value: NonNegativeF64,
}

impl View for CounterValue {
    type V = Double;

    closed spec fn view(&self) -> Double {
        self.value@
    }
}

impl CounterValue {
    /// A counter that reads `value`.
    pub fn new(value: NonNegativeF64) -> (r: CounterValue)
        ensures
            r@ == value@,
    {
        CounterValue { value }
    }

    /// Accepts `value` if it is finite and not below zero.
    pub fn try_new(value: Double) -> (r: Result<CounterValue, CounterValueError>)
        ensures
            match r {
                Ok(v) => counter_value_error(value) is None && v@ == value,
                Err(e) => counter_value_error(value) == Some(e),
            },
    {
        match NonNegativeF64::try_new(value) {
            Some(v) => Ok(CounterValue { value: v }),
            None => if value.is_negative() {
                Err(CounterValueError::MustBeNonNegative)
            } else {
                Err(CounterValueError::NotFinite)
            },
        }
    }

    /// The value.
    pub fn value(&self) -> (r: Double)
        ensures
            r == self@,
            r.finite(),
            !r.negative(),
    {
        self.value.into_inner()
    }
}

impl CounterValueError {
    /// The error in words.
    pub open spec fn text(self) -> Seq<char> {
        match self {
            CounterValueError::MustBeNonNegative => "counter value must be non-negative"@,
            CounterValueError::NotFinite => "counter value must be finite"@,
        }
    }

    /// The error in words.
    pub fn message(&self) -> (r: String)
        ensures
            r@ == self.text(),
    {
        match self {
            CounterValueError::MustBeNonNegative => "counter value must be non-negative".to_owned(),
            CounterValueError::NotFinite => "counter value must be finite".to_owned(),
        }
    }
}

/// One bucket of a histogram: how many values were at most `upper_bound`, and
/// above the bound of the bucket before.
#[derive(Clone, Copy, Debug, PartialEq, Eq, Structural)]
pub struct HistogramBucket {
    pub upper_bound: Double,
    pub count: u64,
}

/// The value of a histogram.
#[derive(Clone, Debug, PartialEq, Eq)]
pub struct HistogramValue {
    pub count: u64,
    pub sum: Option<Double>,
    pub buckets: Vec<HistogramBucket>,
    pub min: Option<Double>,
    pub max: Option<Double>,
}

/// A value at a time, with attributes.
#[derive(Clone, Debug, PartialEq, Eq)]
pub struct DataPoint<V> {
    pub timestamp: TimeUnixNano,
    pub value: V,
    pub attributes: AttributeMap,
}

/// A metric that counts toward the progress of the evaluation.
#[derive(Clone, Debug, PartialEq, Eq)]
#[allow(inconsistent_fields)]
pub enum SampleMetric {
    Gauge { name: MetricName, unit: Option<String>, data_points: Vec<DataPoint<GaugeValue>> },
    Counter { name: MetricName, unit: Option<String>, data_points: Vec<DataPoint<CounterValue>> },
    Histogram {
        name: MetricName,
        unit: Option<String>,
        data_points: Vec<DataPoint<HistogramValue>>,
    },
}

/// A metric that sums up, and does not count toward the progress of the evaluation.
#[derive(Clone, Debug, PartialEq, Eq)]
#[allow(inconsistent_fields)]
pub enum SummaryMetric {
    Gauge { name: MetricName, unit: Option<String>, data_points: Vec<DataPoint<GaugeValue>> },
    Counter { name: MetricName, unit: Option<String>, data_points: Vec<DataPoint<CounterValue>> },
    Histogram {
        name: MetricName,
        unit: Option<String>,
        data_points: Vec<DataPoint<HistogramValue>>,
    },
}

/// A metric: of a sample, or a summary.
#[derive(Clone, Debug, PartialEq, Eq)]
pub enum Metric {
    Sample(SampleMetric),
    Summary(SummaryMetric),
}

impl Metric {
    /// The name of the metric.
    pub open spec fn metric_name(self) -> MetricName {
        match self {
            Metric::Sample(SampleMetric::Gauge { name, .. }) => name,
            Metric::Sample(SampleMetric::Counter { name, .. }) => name,
            Metric::Sample(SampleMetric::Histogram { name, .. }) => name,
            Metric::Summary(SummaryMetric::Gauge { name, .. }) => name,
            Metric::Summary(SummaryMetric::Counter { name, .. }) => name,
            Metric::Summary(SummaryMetric::Histogram { name, .. }) => name,
        }
    }

    /// The name of the metric.
    pub fn name(&self) -> (r: &MetricName)
        ensures
            *r == self.metric_name(),
    {
        match self {
            Metric::Sample(sample_metric) => match sample_metric {
                SampleMetric::Gauge { name, .. } => name,
                SampleMetric::Counter { name, .. } => name,
                SampleMetric::Histogram { name, .. } => name,
            },
            Metric::Summary(summary_metric) => match summary_metric {
                SummaryMetric::Gauge { name, .. } => name,
                SummaryMetric::Counter { name, .. } => name,
                SummaryMetric::Histogram { name, .. } => name,
            },
        }
    }

    /// Whether the metric counts toward the progress of the evaluation.
    pub fn counts_toward_progress(&self) -> (r: bool)
        ensures
            r == (*self is Sample),
    {
        match self {
            Metric::Sample(_) => true,
            Metric::Summary(_) => false,
        }
    }
}

/// The metrics of one message, with the attributes of what sent them.
#[derive(Clone, Debug, PartialEq, Eq)]
pub struct MetricData {
    pub resource_attributes: AttributeMap,
    pub metrics: Vec<Metric>,
}

/// Whether attributes mark what carries them as a summary: `summary` is `true`.
pub open spec fn summary_marked(attributes: Seq<(Seq<char>, AttributeValueView)>) -> bool {
    lookup(attributes, "summary"@) == Some(AttributeValueView::Flag(true))
}

/// Whether one of the points is marked as a summary.
pub open spec fn any_summary<V>(points: Seq<DataPoint<V>>) -> bool {
    exists|i: int| 0 <= i < points.len() && summary_marked((#[trigger] points[i]).attributes@)
}

/// The sample that attributes name: the text under `sample.id`.
pub open spec fn sample_named(attributes: Seq<(Seq<char>, AttributeValueView)>) -> Option<
    Seq<char>,
> {
    match lookup(attributes, "sample.id"@) {
        Some(AttributeValueView::Text(id)) => Some(id),
        _ => None,
    }
}

/// Whether attributes mark what carries them as a summary.
pub fn marks_summary(attributes: &AttributeMap) -> (r: bool)
    ensures
        r == summary_marked(attributes@),
{
    match attributes.get("summary") {
        Some(AttributeValue::BoolValue(b)) => *b,
        _ => false,
    }
}

/// The sample that attributes name, if they name one.
pub fn names_sample(attributes: &AttributeMap) -> (r: Option<String>)
    ensures
        match r {
            Some(id) => sample_named(attributes@) == Some(id@),
            None => sample_named(attributes@) is None,
        },
{
    match attributes.get("sample.id") {
        Some(AttributeValue::StringValue(s)) => Some(s.clone()),
        _ => None,
    }
}

/// Whether one of the points is marked as a summary.
pub fn has_summary_point<V>(points: &Vec<DataPoint<V>>) -> (r: bool)
    ensures
        r == any_summary(points@),
{
    let n: usize = points.len();
    let mut i: usize = 0;
    while i < n
        invariant
            i <= n,
            n == points@.len(),
            forall|k: int| 0 <= k < i ==> !summary_marked((#[trigger] points@[k]).attributes@),
        decreases n - i,
    {
        if marks_summary(&points[i].attributes) {
            return true;
        }
        i += 1;
    }
    false
}

impl Metric {
    /// The unit of the metric, if it has one.
    pub open spec fn unit(self) -> Option<String> {
        match self {
            Metric::Sample(SampleMetric::Gauge { unit, .. }) => unit,
            Metric::Sample(SampleMetric::Counter { unit, .. }) => unit,
            Metric::Sample(SampleMetric::Histogram { unit, .. }) => unit,
            Metric::Summary(SummaryMetric::Gauge { unit, .. }) => unit,
            Metric::Summary(SummaryMetric::Counter { unit, .. }) => unit,
            Metric::Summary(SummaryMetric::Histogram { unit, .. }) => unit,
        }
    }

    /// The points of a gauge.
    pub open spec fn gauge_points(self) -> Option<Seq<DataPoint<GaugeValue>>> {
        match self {
            Metric::Sample(SampleMetric::Gauge { data_points, .. }) => Some(data_points@),
            Metric::Summary(SummaryMetric::Gauge { data_points, .. }) => Some(data_points@),
            _ => None,
        }
    }

    /// The points of a counter.
    pub open spec fn counter_points(self) -> Option<Seq<DataPoint<CounterValue>>> {
        match self {
            Metric::Sample(SampleMetric::Counter { data_points, .. }) => Some(data_points@),
            Metric::Summary(SummaryMetric::Counter { data_points, .. }) => Some(data_points@),
            _ => None,
        }
    }

    /// The points of a histogram.
    pub open spec fn histogram_points(self) -> Option<Seq<DataPoint<HistogramValue>>> {
        match self {
            Metric::Sample(SampleMetric::Histogram { data_points, .. }) => Some(data_points@),
            Metric::Summary(SummaryMetric::Histogram { data_points, .. }) => Some(data_points@),
            _ => None,
        }
    }
}

} // verus!
