use vstd::prelude::*;

verus! {

use crate::conf::MetricType;
use crate::conf::PublishMetricConfigDto;
use crate::events::CharacteristicPayload;
use crate::model::addr_to_string;
use crate::model::spec_addr_str;
use crate::model::spec_uuid_str;
use crate::model::uuid_to_string;
use crate::model::Fqcn;
use crate::text::str_eq;

/// A metric label as the metrics facade carries it.
#[verifier::external_type_specification]
#[verifier::external_body]
pub struct ExLabel(metrics::Label);

/// A measurement unit as the metrics facade carries it.
#[verifier::external_type_specification]
#[verifier::external_body]
pub struct ExUnit(metrics::Unit);

/// The label the metrics facade builds from a key and a value; a function
/// of the two strings alone.
pub uninterp spec fn label_of(key: Seq<char>, value: Seq<char>) -> metrics::Label;

/// Relies on metrics::Label::new: builds the label carrying exactly the two
/// strings.
#[verifier::external_body]
pub fn label_new(key: &str, value: &str) -> (r: metrics::Label)
    ensures
        r == label_of(key@, value@),
{
    metrics::Label::new(key.to_string(), value.to_string())
}

/// Relies on metrics::Unit::Count.
#[verifier::external_body]
fn unit_count() -> metrics::Unit {
    metrics::Unit::Count
}

/// Relies on metrics::Unit::Milliseconds.
#[verifier::external_body]
fn unit_milliseconds() -> metrics::Unit {
    metrics::Unit::Milliseconds
}

/// Relies on metrics::with_recorder and Recorder::describe_counter: hands
/// the counter's unit and description to the installed recorder.
#[verifier::external_body]
fn describe_counter_raw(name: &'static str, unit: metrics::Unit, description: &'static str) {
    metrics::with_recorder(|recorder| {
        recorder.describe_counter(
            metrics::KeyName::from_const_str(name),
            Some(unit),
            metrics::SharedString::const_str(description),
        )
    });
}

/// Relies on metrics::with_recorder and Recorder::describe_gauge.
#[verifier::external_body]
fn describe_gauge_raw(name: &'static str, unit: metrics::Unit, description: &'static str) {
    metrics::with_recorder(|recorder| {
        recorder.describe_gauge(
            metrics::KeyName::from_const_str(name),
            Some(unit),
            metrics::SharedString::const_str(description),
        )
    });
}

/// Relies on metrics::with_recorder and Recorder::describe_histogram.
#[verifier::external_body]
fn describe_histogram_raw(name: &'static str, unit: metrics::Unit, description: &'static str) {
    metrics::with_recorder(|recorder| {
        recorder.describe_histogram(
            metrics::KeyName::from_const_str(name),
            Some(unit),
            metrics::SharedString::const_str(description),
        )
    });
}

/// Relies on metrics::with_recorder and Recorder::register_counter: adds one
/// to the named counter.
#[verifier::external_body]
fn counter_increment_raw(name: &'static str) {
    metrics::with_recorder(|recorder| {
        recorder.register_counter(
            &metrics::Key::from_static_name(name),
            &metrics::Metadata::new("", metrics::Level::INFO, None),
        ).increment(1)
    });
}

/// The unit one of the collector's own metrics is described with.
#[derive(Clone, Copy, Debug, PartialEq, Eq, Structural)]
pub enum MetricUnit {
    Count,
    Milliseconds,
}

/// One of the collector's own operational metrics.
#[derive(Clone, Copy, Debug)]
pub struct StaticMetric {
    pub metric_name: &'static str,
    pub unit: MetricUnit,
    pub description: &'static str,
    pub metric_type: MetricType,
}

impl StaticMetric {
    /// Announces the metric's unit and description to the recorder.
    pub fn describe(&self) {
        let unit = match self.unit {
            MetricUnit::Count => unit_count(),
            MetricUnit::Milliseconds => unit_milliseconds(),
        };
        match self.metric_type {
            MetricType::Counter => describe_counter_raw(self.metric_name, unit, self.description),
            MetricType::Gauge => describe_gauge_raw(self.metric_name, unit, self.description),
            MetricType::Histogram => describe_histogram_raw(
                self.metric_name,
                unit,
                self.description,
            ),
        }
    }

    /// Adds one to the counter. Only counters may be incremented.
    pub fn increment(&self)
        requires
            self.metric_type == MetricType::Counter,
    {
        counter_increment_raw(self.metric_name);
    }
}

pub fn event_count_metric() -> (r: StaticMetric)
    ensures
        r.metric_type == MetricType::Counter,
{
    StaticMetric {
        metric_name: "collector.event.count",
        unit: MetricUnit::Count,
        description: "The number of received events",
        metric_type: MetricType::Counter,
    }
}

pub fn event_throttled_count_metric() -> (r: StaticMetric)
    ensures
        r.metric_type == MetricType::Counter,
{
    StaticMetric {
        metric_name: "collector.event.throttled.count",
        unit: MetricUnit::Count,
        description: "The number of throttled events",
        metric_type: MetricType::Counter,
    }
}

pub fn payload_processed_count_metric() -> (r: StaticMetric)
    ensures
        r.metric_type == MetricType::Counter,
{
    StaticMetric {
        metric_name: "collector.payload.processed.count",
        unit: MetricUnit::Count,
        description: "The number of processed characteristic payloads",
        metric_type: MetricType::Counter,
    }
}

pub fn connections_handled_metric() -> (r: StaticMetric)
    ensures
        r.metric_type == MetricType::Counter,
{
    StaticMetric {
        metric_name: "collector.connection.handled.count",
        unit: MetricUnit::Count,
        description: "The number of handled connections",
        metric_type: MetricType::Counter,
    }
}

pub fn connections_dropped_metric() -> (r: StaticMetric)
    ensures
        r.metric_type == MetricType::Counter,
{
    StaticMetric {
        metric_name: "collector.connection.dropped.count",
        unit: MetricUnit::Count,
        description: "The number of dropped connections",
        metric_type: MetricType::Counter,
    }
}

pub fn connecting_errors_metric() -> (r: StaticMetric)
    ensures
        r.metric_type == MetricType::Counter,
{
    StaticMetric {
        metric_name: "collector.connection.error.count",
        unit: MetricUnit::Count,
        description: "The number of connection errors",
        metric_type: MetricType::Counter,
    }
}

pub fn connected_peripherals_metric() -> (r: StaticMetric)
    ensures
        r.metric_type == MetricType::Gauge,
{
    StaticMetric {
        metric_name: "collector.peripheral.connected.count",
        unit: MetricUnit::Count,
        description: "The number of connected peripherals",
        metric_type: MetricType::Gauge,
    }
}

pub fn total_connecting_duration_metric() -> (r: StaticMetric)
    ensures
        r.metric_type == MetricType::Histogram,
{
    StaticMetric {
        metric_name: "collector.peripheral.connecting.total.duration",
        unit: MetricUnit::Milliseconds,
        description: "The total time spent connecting peripherals",
        metric_type: MetricType::Histogram,
    }
}

pub fn connecting_duration_metric() -> (r: StaticMetric)
    ensures
        r.metric_type == MetricType::Histogram,
{
    StaticMetric {
        metric_name: "collector.peripheral.connecting.duration",
        unit: MetricUnit::Milliseconds,
        description: "The time spent connecting peripheral",
        metric_type: MetricType::Histogram,
    }
}

pub fn connection_duration_metric() -> (r: StaticMetric)
    ensures
        r.metric_type == MetricType::Histogram,
{
    StaticMetric {
        metric_name: "collector.peripheral.connection.duration",
        unit: MetricUnit::Milliseconds,
        description: "The time peripheral stays connected",
        metric_type: MetricType::Histogram,
    }
}

pub fn service_discovery_duration_metric() -> (r: StaticMetric)
    ensures
        r.metric_type == MetricType::Histogram,
{
    StaticMetric {
        metric_name: "collector.peripheral.discovery.duration",
        unit: MetricUnit::Milliseconds,
        description: "The time spent discovering services",
        metric_type: MetricType::Histogram,
    }
}

/// Announces every operational metric to the recorder.
pub fn describe_metrics() {
    payload_processed_count_metric().describe();
    event_throttled_count_metric().describe();
    connections_handled_metric().describe();
    connections_dropped_metric().describe();
    connecting_errors_metric().describe();
    connected_peripherals_metric().describe();
    connection_duration_metric().describe();
    total_connecting_duration_metric().describe();
    connecting_duration_metric().describe();
    service_discovery_duration_metric().describe();
    event_count_metric().describe();
}

/// The labels a metric configuration declares, in declaration order.
pub open spec fn spec_user_labels(mc: PublishMetricConfigDto) -> Seq<metrics::Label> {
    match mc.labels {
        Some(ls) => ls@.map_values(|p: (String, String)| label_of(p.0@, p.1@)),
        None => Seq::empty(),
    }
}

impl PublishMetricConfigDto {
    /// The user-declared labels as the metrics facade takes them.
    pub fn labels(&self) -> (r: Vec<metrics::Label>)
        ensures
            r@ == spec_user_labels(*self),
    {
        let mut r: Vec<metrics::Label> = Vec::new();
        match &self.labels {
            Some(ls) => {
                let mut i: usize = 0;
                while i < ls.len()
                    invariant
                        i <= ls@.len(),
                        self.labels matches Some(l2) && l2@ == ls@,
                        r@.len() == i,
                        forall|j: int|
                            0 <= j < i ==> r@[j] == label_of(
                                (#[trigger] ls@[j]).0@,
                                ls@[j].1@,
                            ),
                    decreases ls@.len() - i,
                {
                    r.push(label_new(ls[i].0.as_str(), ls[i].1.as_str()));
                    i = i + 1;
                }
                proof {
                    assert(r@ =~= spec_user_labels(*self));
                }
                r
            },
            None => {
                proof {
                    assert(r@ =~= spec_user_labels(*self));
                }
                r
            },
        }
    }
}

impl Fqcn {
    /// The peripheral's address as a metric label.
    pub fn peripheral_label(&self) -> (r: metrics::Label)
        ensures
            r == label_of("peripheral"@, spec_addr_str(self.peripheral)),
    {
        let addr = addr_to_string(self.peripheral);
        label_new("peripheral", addr.as_str())
    }

    /// The service UUID as a metric label.
    pub fn service_label(&self) -> (r: metrics::Label)
        ensures
            r == label_of("service"@, spec_uuid_str(self.service)),
    {
        let s = uuid_to_string(self.service);
        label_new("service", s.as_str())
    }

    /// The characteristic UUID as a metric label.
    pub fn characteristic_label(&self) -> (r: metrics::Label)
        ensures
            r == label_of("characteristic"@, spec_uuid_str(self.characteristic)),
    {
        let c = uuid_to_string(self.characteristic);
        label_new("characteristic", c.as_str())
    }
}

/// What the metric publisher must do with one payload: nothing when the
/// characteristic publishes no metric or the value is not numeric, else
/// record under the declared name with the user labels followed by the
/// peripheral, service and characteristic labels.
#[derive(Debug)]
pub enum MetricCommand {
    SkipNoConfig,
    SkipNonNumeric,
    Record { metric_type: MetricType, name: String, labels: Vec<metrics::Label> },
}

/// Decides how one payload feeds the metric registry. Non-numeric values
/// (raw bytes, text) are skipped.
pub fn metric_instruction(payload: &CharacteristicPayload) -> (r: MetricCommand)
    ensures
        payload.conf.spec_publish_metrics() is None ==> r matches MetricCommand::SkipNoConfig,
        payload.conf.spec_publish_metrics() matches Some(mc) ==> (if !(
        (*payload.value) matches crate::converter::CharacteristicValue::I64(_)
            || (*payload.value) matches crate::converter::CharacteristicValue::F32Bits(_) || (
        *payload.value) matches crate::converter::CharacteristicValue::Scaled { .. }) {
            r matches MetricCommand::SkipNonNumeric
        } else {
            r matches MetricCommand::Record { metric_type, name, labels } && metric_type
                == mc.metric_type && name@ == mc.name@ && labels@ == spec_user_labels(mc).push(
                label_of("peripheral"@, spec_addr_str(payload.fqcn.peripheral)),
            ).push(label_of("service"@, spec_uuid_str(payload.fqcn.service))).push(
                label_of("characteristic"@, spec_uuid_str(payload.fqcn.characteristic)),
            )
        }),
{
    let mc = match payload.conf.publish_metrics() {
        Some(mc) => mc,
        None => {
            return MetricCommand::SkipNoConfig;
        },
    };
    if !payload.value.is_numeric() {
        return MetricCommand::SkipNonNumeric;
    }
    let mut labels = mc.labels();
    labels.push(payload.fqcn.peripheral_label());
    labels.push(payload.fqcn.service_label());
    labels.push(payload.fqcn.characteristic_label());
    MetricCommand::Record { metric_type: mc.metric_type, name: mc.name.clone(), labels }
}

/// Remembers which dynamic metrics were described already, so each is
/// registered once, on its first payload.
#[derive(Debug)]
pub struct MetricPublisher {
    pub registered: Vec<String>,
}

impl MetricPublisher {
    pub fn new() -> (r: Self)
        ensures
            r.registered@.len() == 0,
    {
        MetricPublisher { registered: Vec::new() }
    }

    /// True, and remembers the name, exactly when the name is new.
    #[verifier::loop_isolation(false)]
    pub fn register_if_new(&mut self, name: &str) -> (fresh: bool)
        ensures
            fresh == !(exists|i: int|
                0 <= i < old(self).registered@.len() && (#[trigger] old(
                    self,
                ).registered@[i])@ == name@),
            fresh ==> final(self).registered@.len() == old(self).registered@.len() + 1 && (
            final(self).registered@[old(self).registered@.len() as int])@ == name@ && (forall|
                j: int,
            |
                0 <= j < old(self).registered@.len() ==> final(self).registered@[j] == old(
                    self,
                ).registered@[j]),
            !fresh ==> *final(self) == *old(self),
    {
        let ghost mid = *self;
        let mut i: usize = 0;
        while i < self.registered.len()
            invariant
                i <= self.registered@.len(),
                *self == mid,
                forall|j: int| 0 <= j < i ==> (#[trigger] self.registered@[j])@ != name@,
            decreases self.registered@.len() - i,
        {
            if str_eq(self.registered[i].as_str(), name) {
                return false;
            }
            i = i + 1;
        }
        let owned = name_to_string(name);
        self.registered.push(owned);
        true
    }
}

/// An owned copy of the name.
fn name_to_string(s: &str) -> (r: String)
    ensures
        r@ == s@,
{
    <String as vstd::string::StringExecFns>::from_str(s)
}

} // verus!
