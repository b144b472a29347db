use vstd::prelude::*;

verus! {

use crate::converter::Converter;
use crate::error::CollectorError;
use crate::filter::Filter;
use crate::model::spec_addr_str;
use crate::model::addr_to_string;
use crate::model::PeripheralKey;
use crate::model::ServiceCharacteristicKey;
use std::sync::Arc;

/// Which kind of metric a characteristic feeds.
#[derive(Clone, Copy, Debug, PartialEq, Eq, Structural)]
pub enum MetricType {
    Counter,
    Gauge,
    Histogram,
}

/// MQTT delivery guarantee for published payloads.
#[derive(Clone, Copy, Debug, PartialEq, Eq, Structural)]
pub enum Qos {
    AtMostOnce,
    AtLeastOnce,
    ExactlyOnce,
}

impl Default for Qos {
    fn default() -> (r: Self)
        ensures
            r == Qos::AtLeastOnce,
    {
        Qos::AtLeastOnce
    }
}

/// How one characteristic's values are published as a metric.
#[derive(Debug, PartialEq)]
pub struct PublishMetricConfigDto {
    pub metric_type: MetricType,
    pub name: String,
    pub description: Option<String>,
    pub unit: String,
    pub labels: Option<Vec<(String, String)>>,
}

/// A free-form value tree carrying the user's discovery payload. Only the
/// string leaves are ever evaluated; other leaves pass through unchanged,
/// numbers outside `i64` travel in their textual form.
#[derive(Debug, PartialEq)]
pub enum TemplateValue {
    Null,
    Bool(bool),
    Int(i64),
    Num(String),
    Str(String),
    Arr(Vec<TemplateValue>),
    Obj(Vec<(String, TemplateValue)>),
}

/// The MQTT discovery block: where and how to announce a characteristic.
#[derive(Debug, PartialEq)]
pub struct DiscoverySettings {
    pub config_topic: String,
    pub retain: Option<bool>,
    pub qos: Option<Qos>,
    pub remainder: TemplateValue,
}

/// How one characteristic's values are published over MQTT.
#[derive(Debug, PartialEq)]
pub struct PublishMqttConfigDto {
    pub state_topic: String,
    pub unit: Option<String>,
    pub retain: bool,
    pub qos: Qos,
    pub discovery: Option<DiscoverySettings>,
}

/// One characteristic as the configuration file declares it, before the
/// service's defaults are folded in. Durations are in milliseconds.
#[derive(Debug, PartialEq)]
pub enum CharacteristicConfigDto {
    Subscribe {
        name: Option<String>,
        uuid: u128,
        history_size: Option<usize>,
        converter: Converter,
        publish_metrics: Option<PublishMetricConfigDto>,
        publish_mqtt: Option<PublishMqttConfigDto>,
    },
    Poll {
        name: Option<String>,
        uuid: u128,
        delay_ms: Option<u64>,
        history_size: Option<usize>,
        converter: Converter,
        publish_metrics: Option<PublishMetricConfigDto>,
        publish_mqtt: Option<PublishMqttConfigDto>,
    },
}

impl CharacteristicConfigDto {
    pub open spec fn spec_uuid(self) -> u128 {
        match self {
            CharacteristicConfigDto::Subscribe { uuid, .. } => uuid,
            CharacteristicConfigDto::Poll { uuid, .. } => uuid,
        }
    }

    pub fn uuid(&self) -> (r: u128)
        ensures
            r == self.spec_uuid(),
    {
        match self {
            CharacteristicConfigDto::Subscribe { uuid, .. } => *uuid,
            CharacteristicConfigDto::Poll { uuid, .. } => *uuid,
        }
    }
}

/// One service as declared: its UUID, the defaults every child may omit,
/// and its characteristics.
#[derive(Debug, PartialEq)]
pub struct ServiceConfigDto {
    pub name: Option<String>,
    pub uuid: u128,
    pub default_delay_ms: u64,
    pub default_history_size: usize,
    pub characteristics: Vec<CharacteristicConfigDto>,
}

/// One peripheral as declared: a name, optional filters, services.
#[derive(Debug, PartialEq)]
pub struct PeripheralConfigDto {
    pub name: String,
    pub adapter: Option<Filter>,
    pub device_id: Option<Filter>,
    pub device_name: Option<Filter>,
    pub services: Vec<ServiceConfigDto>,
}

/// The whole configuration file.
#[derive(Debug, PartialEq)]
pub struct CollectorConfigurationDto {
    pub peripherals: Vec<PeripheralConfigDto>,
}

/// One characteristic after flattening: the service's name, UUID and
/// defaults folded into the child.
#[derive(Debug, PartialEq)]
pub enum CharacteristicConfig {
    Subscribe {
        name: Option<String>,
        service_name: Option<String>,
        service_uuid: u128,
        uuid: u128,
        history_size: usize,
        converter: Converter,
        publish_metrics: Option<PublishMetricConfigDto>,
        publish_mqtt: Option<PublishMqttConfigDto>,
    },
    Poll {
        name: Option<String>,
        uuid: u128,
        service_name: Option<String>,
        service_uuid: u128,
        delay_ms: u64,
        history_size: usize,
        converter: Converter,
        publish_metrics: Option<PublishMetricConfigDto>,
        publish_mqtt: Option<PublishMqttConfigDto>,
    },
}

impl CharacteristicConfig {
    pub open spec fn spec_name(self) -> Option<String> {
        match self {
            CharacteristicConfig::Subscribe { name, .. } => name,
            CharacteristicConfig::Poll { name, .. } => name,
        }
    }

    pub open spec fn spec_service_name(self) -> Option<String> {
        match self {
            CharacteristicConfig::Subscribe { service_name, .. } => service_name,
            CharacteristicConfig::Poll { service_name, .. } => service_name,
        }
    }

    pub open spec fn spec_history_size(self) -> usize {
        match self {
            CharacteristicConfig::Subscribe { history_size, .. } => history_size,
            CharacteristicConfig::Poll { history_size, .. } => history_size,
        }
    }

    pub open spec fn spec_converter(self) -> Converter {
        match self {
            CharacteristicConfig::Subscribe { converter, .. } => converter,
            CharacteristicConfig::Poll { converter, .. } => converter,
        }
    }

    pub open spec fn spec_publish_mqtt(self) -> Option<PublishMqttConfigDto> {
        match self {
            CharacteristicConfig::Subscribe { publish_mqtt, .. } => publish_mqtt,
            CharacteristicConfig::Poll { publish_mqtt, .. } => publish_mqtt,
        }
    }

    pub open spec fn spec_publish_metrics(self) -> Option<PublishMetricConfigDto> {
        match self {
            CharacteristicConfig::Subscribe { publish_metrics, .. } => publish_metrics,
            CharacteristicConfig::Poll { publish_metrics, .. } => publish_metrics,
        }
    }

    pub fn name(&self) -> (r: &Option<String>)
        ensures
            *r == self.spec_name(),
    {
        match self {
            CharacteristicConfig::Subscribe { name, .. } => name,
            CharacteristicConfig::Poll { name, .. } => name,
        }
    }

    pub fn service_name(&self) -> (r: &Option<String>)
        ensures
            *r == self.spec_service_name(),
    {
        match self {
            CharacteristicConfig::Subscribe { service_name, .. } => service_name,
            CharacteristicConfig::Poll { service_name, .. } => service_name,
        }
    }

    pub fn history_size(&self) -> (r: usize)
        ensures
            r == self.spec_history_size(),
    {
        match self {
            CharacteristicConfig::Subscribe { history_size, .. } => *history_size,
            CharacteristicConfig::Poll { history_size, .. } => *history_size,
        }
    }

    pub fn publish_metrics(&self) -> (r: &Option<PublishMetricConfigDto>)
        ensures
            *r == self.spec_publish_metrics(),
    {
        match self {
            CharacteristicConfig::Subscribe { publish_metrics, .. } => publish_metrics,
            CharacteristicConfig::Poll { publish_metrics, .. } => publish_metrics,
        }
    }

    pub fn publish_mqtt(&self) -> (r: &Option<PublishMqttConfigDto>)
        ensures
            *r == self.spec_publish_mqtt(),
    {
        match self {
            CharacteristicConfig::Subscribe { publish_mqtt, .. } => publish_mqtt,
            CharacteristicConfig::Poll { publish_mqtt, .. } => publish_mqtt,
        }
    }

    /// Whether the converters and filters inside are well formed.
    pub open spec fn wf(self) -> bool {
        self.spec_converter().wf()
    }
}

/// The flattening of one declared characteristic under its service: every
/// omitted value is taken from the service's defaults.
pub open spec fn spec_flat_char(c: CharacteristicConfigDto, svc: ServiceConfigDto)
    -> CharacteristicConfig {
    match c {
        CharacteristicConfigDto::Subscribe {
            name,
            uuid,
            history_size,
            converter,
            publish_metrics,
            publish_mqtt,
        } => CharacteristicConfig::Subscribe {
            name,
            service_name: svc.name,
            service_uuid: svc.uuid,
            uuid,
            history_size: if history_size is Some {
                history_size->0
            } else {
                svc.default_history_size
            },
            converter,
            publish_metrics,
            publish_mqtt,
        },
        CharacteristicConfigDto::Poll {
            name,
            uuid,
            delay_ms,
            history_size,
            converter,
            publish_metrics,
            publish_mqtt,
        } => CharacteristicConfig::Poll {
            name,
            uuid,
            service_name: svc.name,
            service_uuid: svc.uuid,
            delay_ms: if delay_ms is Some {
                delay_ms->0
            } else {
                svc.default_delay_ms
            },
            history_size: if history_size is Some {
                history_size->0
            } else {
                svc.default_history_size
            },
            converter,
            publish_metrics,
            publish_mqtt,
        },
    }
}

pub open spec fn dto_key(service_uuid: u128, c: CharacteristicConfigDto)
    -> ServiceCharacteristicKey {
    ServiceCharacteristicKey { service_uuid, characteristic_uuid: c.spec_uuid() }
}

/// The (key, flattened config) pairs one service contributes, in file order.
pub open spec fn flat_pairs(svc: ServiceConfigDto) -> Seq<
    (ServiceCharacteristicKey, CharacteristicConfig),
> {
    svc.characteristics@.map(
        |i: int, c: CharacteristicConfigDto| (dto_key(svc.uuid, c), spec_flat_char(c, svc)),
    )
}

/// The pairs a whole list of services contributes, in file order.
pub open spec fn flat_all(services: Seq<ServiceConfigDto>) -> Seq<
    (ServiceCharacteristicKey, CharacteristicConfig),
>
    decreases services.len(),
{
    if services.len() == 0 {
        Seq::empty()
    } else {
        flat_pairs(services[0]) + flat_all(services.drop_first())
    }
}

pub open spec fn keys_of<V>(m: Seq<(ServiceCharacteristicKey, V)>) -> Seq<
    ServiceCharacteristicKey,
> {
    m.map_values(|p: (ServiceCharacteristicKey, V)| p.0)
}

pub open spec fn no_dups<K>(s: Seq<K>) -> bool {
    forall|i: int, j: int| 0 <= i < j < s.len() ==> s[i] != s[j]
}

pub open spec fn map_has_key<V>(m: Seq<(ServiceCharacteristicKey, V)>, k: ServiceCharacteristicKey)
    -> bool {
    exists|i: int| 0 <= i < m.len() && (#[trigger] m[i]).0 == k
}

/// The held map of shared configurations stands for the flattened pairs:
/// same length, same keys, and each shared handle holds the flattened value.
pub open spec fn map_models(
    m: Seq<(ServiceCharacteristicKey, Arc<CharacteristicConfig>)>,
    pairs: Seq<(ServiceCharacteristicKey, CharacteristicConfig)>,
) -> bool {
    m.len() == pairs.len() && (forall|i: int|
        0 <= i < m.len() ==> (#[trigger] m[i]).0 == pairs[i].0 && m[i].1 == pairs[i].1)
}

proof fn lemma_flat_all_take_step(s: Seq<ServiceConfigDto>, i: int)
    requires
        0 <= i < s.len(),
    ensures
        flat_all(s.take(i + 1)) == flat_all(s.take(i)) + flat_pairs(s[i]),
    decreases i,
{
    if i == 0 {
        assert(s.take(1).len() == 1);
        assert(s.take(1)[0] == s[0]);
        assert(s.take(1).drop_first() =~= Seq::<ServiceConfigDto>::empty());
        assert(flat_all(s.take(1)) == flat_pairs(s[0]) + flat_all(Seq::empty()));
        assert(flat_all(s.take(0)) =~= Seq::<(ServiceCharacteristicKey, CharacteristicConfig)>::empty());
        assert(flat_all(s.take(1)) =~= flat_all(s.take(0)) + flat_pairs(s[0]));
    } else {
        lemma_flat_all_take_step(s.drop_first(), i - 1);
        assert(s.take(i + 1).drop_first() =~= s.drop_first().take(i));
        assert(s.take(i).drop_first() =~= s.drop_first().take(i - 1));
        assert(s.take(i + 1)[0] == s[0]);
        assert(s.take(i)[0] == s[0]);
        assert(s.drop_first()[i - 1] == s[i]);
        assert(flat_all(s.take(i + 1)) == flat_pairs(s[0]) + flat_all(s.drop_first().take(i)));
        assert(flat_all(s.take(i)) == flat_pairs(s[0]) + flat_all(s.drop_first().take(i - 1)));
        assert(flat_all(s.take(i + 1)) =~= flat_all(s.take(i)) + flat_pairs(s[i]));
    }
}

/// A copy of an optional name, equal to its source.
pub fn clone_opt_name(o: &Option<String>) -> (r: Option<String>)
    ensures
        r == *o,
{
    match o {
        Some(s) => Some(s.clone()),
        None => None,
    }
}

/// One peripheral's flattened configuration: its name, its match filters,
/// and the map from (service, characteristic) to the flattened settings.
/// The map holds each key at most once.
#[derive(Debug)]
pub struct FlatPeripheralConfig {
    pub name: String,
    pub adapter: Option<Filter>,
    pub device_id: Option<Filter>,
    pub device_name: Option<Filter>,
    pub service_map: Vec<(ServiceCharacteristicKey, Arc<CharacteristicConfig>)>,
}

impl FlatPeripheralConfig {
    /// Each (service, characteristic) pair occurs at most once.
    pub open spec fn map_wf(self) -> bool {
        no_dups(keys_of(self.service_map@))
    }

    /// Whether a key is configured.
    pub fn contains_key(&self, k: ServiceCharacteristicKey) -> (r: bool)
        ensures
            r == map_has_key(self.service_map@, k),
    {
        let mut i: usize = 0;
        while i < self.service_map.len()
            invariant
                i <= self.service_map@.len(),
                forall|j: int| 0 <= j < i ==> (#[trigger] self.service_map@[j]).0 != k,
            decreases self.service_map@.len() - i,
        {
            if self.service_map[i].0 == k {
                return true;
            }
            i = i + 1;
        }
        false
    }

    /// The shared configuration under a key, when one is present.
    pub fn get_conf(&self, service_uuid: u128, characteristic_uuid: u128) -> (r: Option<
        Arc<CharacteristicConfig>,
    >)
        ensures
            r is Some <==> map_has_key(
                self.service_map@,
                ServiceCharacteristicKey { service_uuid, characteristic_uuid },
            ),
            r matches Some(c) ==> exists|i: int|
                0 <= i < self.service_map@.len() && (#[trigger] self.service_map@[i]).0 == (
                ServiceCharacteristicKey { service_uuid, characteristic_uuid })
                    && self.service_map@[i].1 == c,
    {
        let k = ServiceCharacteristicKey { service_uuid, characteristic_uuid };
        let mut i: usize = 0;
        while i < self.service_map.len()
            invariant
                i <= self.service_map@.len(),
                k == (ServiceCharacteristicKey { service_uuid, characteristic_uuid }),
                forall|j: int| 0 <= j < i ==> (#[trigger] self.service_map@[j]).0 != k,
            decreases self.service_map@.len() - i,
        {
            if self.service_map[i].0 == k {
                return Some(crate::model::arc_clone(&self.service_map[i].1));
            }
            i = i + 1;
        }
        None
    }

    /// Folds one declared service into the map. Fails, leaving the
    /// configuration unchanged, exactly when a (service, characteristic)
    /// pair would occur twice, inside the new service or against what is
    /// already configured.
    pub fn add_service(&mut self, service: ServiceConfigDto) -> (r: Result<(), CollectorError>)
        ensures
            r is Ok <==> no_dups(keys_of(flat_pairs(service))) && (forall|j: int|
                0 <= j < flat_pairs(service).len() ==> !map_has_key(
                    old(self).service_map@,
                    (#[trigger] flat_pairs(service)[j]).0,
                )),
            r is Ok ==> final(self).service_map@.len() == old(self).service_map@.len()
                + flat_pairs(service).len() && (forall|i: int|
                0 <= i < old(self).service_map@.len() ==> final(self).service_map@[i] == old(self).service_map@[i]) && (forall|j: int|
                0 <= j < flat_pairs(service).len()
                    ==> (#[trigger] final(self).service_map@[old(self).service_map@.len() + j]).0
                    == flat_pairs(service)[j].0 && final(self).service_map@[old(self).service_map@.len() + j].1 == flat_pairs(service)[j].1) && final(self).name
                == old(self).name && final(self).adapter == old(self).adapter && final(self).device_id == old(self).device_id && final(self).device_name == old(self).device_name,
            r matches Err(e) ==> *final(self) == *old(self) && (e
                matches CollectorError::DuplicateCharacteristicConfiguration(k) && (exists|j: int|
                0 <= j < flat_pairs(service).len() && (#[trigger] flat_pairs(service)[j]).0 == k)
                && ((exists|i: int, j: int|
                0 <= i < j < flat_pairs(service).len() && (#[trigger] flat_pairs(service)[i]).0
                    == k && (#[trigger] flat_pairs(service)[j]).0 == k) || map_has_key(
                old(self).service_map@,
                k,
            ))),
    {
        let ghost fp = flat_pairs(service);
        let n = service.characteristics.len();
        let mut i: usize = 0;
        while i < n
            invariant
                i <= n,
                n == service.characteristics@.len(),
                fp == flat_pairs(service),
                forall|j: int|
                    0 <= j < i ==> !map_has_key(self.service_map@, (#[trigger] fp[j]).0),
                forall|a: int, b: int|
                    0 <= a < b < i ==> (#[trigger] fp[a]).0 != (#[trigger] fp[b]).0,
                self == old(self),
            decreases n - i,
        {
            let k = ServiceCharacteristicKey {
                service_uuid: service.uuid,
                characteristic_uuid: service.characteristics[i].uuid(),
            };
            proof {
                assert(fp[i as int].0 == k);
            }
            if self.contains_key(k) {
                proof {
                    assert(map_has_key(old(self).service_map@, (fp[i as int]).0));
                }
                return Err(CollectorError::DuplicateCharacteristicConfiguration(k));
            }
            let mut j: usize = 0;
            while j < i
                invariant
                    j <= i < n,
                    n == service.characteristics@.len(),
                    fp == flat_pairs(service),
                    k == fp[i as int].0,
                    forall|b: int| 0 <= b < j ==> (#[trigger] fp[b]).0 != k,
                decreases i - j,
            {
                let kj = ServiceCharacteristicKey {
                    service_uuid: service.uuid,
                    characteristic_uuid: service.characteristics[j].uuid(),
                };
                proof {
                    assert(fp[j as int].0 == kj);
                }
                if kj == k {
                    proof {
                        assert(keys_of(fp)[j as int] == fp[j as int].0);
                        assert(keys_of(fp)[i as int] == fp[i as int].0);
                        assert(keys_of(fp)[j as int] == keys_of(fp)[i as int]);
                        assert(!no_dups(keys_of(fp)));
                    }
                    return Err(CollectorError::DuplicateCharacteristicConfiguration(k));
                }
                j = j + 1;
            }
            i = i + 1;
        }
        proof {
            assert forall|a: int, b: int| 0 <= a < b < keys_of(fp).len() implies keys_of(fp)[a]
                != keys_of(fp)[b] by {
                assert(keys_of(fp)[a] == (#[trigger] fp[a]).0);
                assert(keys_of(fp)[b] == (#[trigger] fp[b]).0);
            }
            assert(no_dups(keys_of(fp)));
        }
        let ghost svc = service;
        let ghost base = self.service_map@.len() as int;
        let ServiceConfigDto { name, uuid, default_delay_ms, default_history_size, characteristics } =
            service;
        let mut rest = characteristics;
        let mut consumed: usize = 0;
        proof {
            assert(rest@ =~= svc.characteristics@.skip(0));
        }
        while rest.len() > 0
            invariant
                consumed <= svc.characteristics@.len(),
                rest@ == svc.characteristics@.skip(consumed as int),
                n == svc.characteristics@.len(),
                fp == flat_pairs(svc),
                svc.name == name,
                svc.uuid == uuid,
                svc.default_delay_ms == default_delay_ms,
                svc.default_history_size == default_history_size,
                base == old(self).service_map@.len(),
                self.service_map@.len() == base + consumed,
                forall|i: int|
                    0 <= i < base ==> self.service_map@[i] == old(self).service_map@[i],
                forall|j: int|
                    0 <= j < consumed ==> (#[trigger] self.service_map@[base + j]).0 == fp[j].0
                        && self.service_map@[base + j].1 == fp[j].1,
                self.name == old(self).name,
                self.adapter == old(self).adapter,
                self.device_id == old(self).device_id,
                self.device_name == old(self).device_name,
            decreases rest@.len(),
        {
            proof {
                assert(svc.characteristics@.skip(consumed as int).len() > 0);
                assert(consumed < svc.characteristics@.len());
            }
            let c = rest.remove(0);
            proof {
                assert(c == svc.characteristics@[consumed as int]);
                assert(rest@ =~= svc.characteristics@.skip(consumed + 1));
            }
            let cu = c.uuid();
            let k = ServiceCharacteristicKey { service_uuid: uuid, characteristic_uuid: cu };
            let service_name = clone_opt_name(&name);
            let flat = match c {
                CharacteristicConfigDto::Subscribe {
                    name: cname,
                    uuid: cuuid,
                    history_size,
                    converter,
                    publish_metrics,
                    publish_mqtt,
                } => CharacteristicConfig::Subscribe {
                    name: cname,
                    service_name,
                    service_uuid: uuid,
                    uuid: cuuid,
                    history_size: match history_size {
                        Some(h) => h,
                        None => default_history_size,
                    },
                    converter,
                    publish_metrics,
                    publish_mqtt,
                },
                CharacteristicConfigDto::Poll {
                    name: cname,
                    uuid: cuuid,
                    delay_ms,
                    history_size,
                    converter,
                    publish_metrics,
                    publish_mqtt,
                } => CharacteristicConfig::Poll {
                    name: cname,
                    uuid: cuuid,
                    service_name,
                    service_uuid: uuid,
                    delay_ms: match delay_ms {
                        Some(d) => d,
                        None => default_delay_ms,
                    },
                    history_size: match history_size {
                        Some(h) => h,
                        None => default_history_size,
                    },
                    converter,
                    publish_metrics,
                    publish_mqtt,
                },
            };
            proof {
                assert(flat == spec_flat_char(svc.characteristics@[consumed as int], svc));
                assert(fp[consumed as int].0 == k);
                assert(fp[consumed as int].1 == flat);
            }
            let shared = Arc::new(flat);
            self.service_map.push((k, shared));
            proof {
                assert(consumed < n);
            }
            consumed = consumed + 1;
        }
        proof {
            assert(svc.characteristics@.skip(consumed as int).len() == 0);
            assert(consumed == svc.characteristics@.len());
            assert(fp.len() == consumed);
        }
        Ok(())
    }

    /// Flattens one declared peripheral. Fails exactly when some
    /// (service, characteristic) pair is declared twice anywhere in it.
    #[verifier::loop_isolation(false)]
    pub fn try_from_dto(dto: PeripheralConfigDto) -> (r: Result<
        FlatPeripheralConfig,
        CollectorError,
    >)
        ensures
            r is Ok <==> no_dups(keys_of(flat_all(dto.services@))),
            r matches Ok(c) ==> c.name == dto.name && c.adapter == dto.adapter && c.device_id
                == dto.device_id && c.device_name == dto.device_name && map_models(
                c.service_map@,
                flat_all(dto.services@),
            ) && c.map_wf(),
            r matches Err(e) ==> e
                matches CollectorError::DuplicateCharacteristicConfiguration(_),
    {
        let ghost dsvc = dto.services@;
        let PeripheralConfigDto { name, adapter, device_id, device_name, services } = dto;
        let mut flat = FlatPeripheralConfig {
            name,
            adapter,
            device_id,
            device_name,
            service_map: Vec::new(),
        };
        let ghost f0 = flat;
        let mut rest = services;
        let total = rest.len();
        let mut consumed: usize = 0;
        proof {
            assert(rest@ =~= dsvc.skip(0));
            assert(flat_all(dsvc.take(0)) =~= Seq::<
                (ServiceCharacteristicKey, CharacteristicConfig),
            >::empty());
        }
        while rest.len() > 0
            invariant
                consumed <= dsvc.len(),
                total == dsvc.len(),
                rest@ == dsvc.skip(consumed as int),
                map_models(flat.service_map@, flat_all(dsvc.take(consumed as int))),
                no_dups(keys_of(flat_all(dsvc.take(consumed as int)))),
                flat.name == f0.name,
                flat.adapter == f0.adapter,
                flat.device_id == f0.device_id,
                flat.device_name == f0.device_name,
                                                                            decreases rest@.len(),
        {
            proof {
                assert(dsvc.skip(consumed as int).len() > 0);
                assert(consumed < dsvc.len());
            }
            let s = rest.remove(0);
            proof {
                assert(s == dsvc[consumed as int]);
                assert(rest@ =~= dsvc.skip(consumed + 1));
                lemma_flat_all_take_step(dsvc, consumed as int);
                lemma_models_same_keys(
                    flat.service_map@,
                    flat_all(dsvc.take(consumed as int)),
                );
            }
            let ghost before = flat.service_map@;
            let ghost done = flat_all(dsvc.take(consumed as int));
            match flat.add_service(s) {
                Ok(()) => {},
                Err(e) => {
                    proof {
                        let fp = flat_pairs(dsvc[consumed as int]);
                        let k = e->DuplicateCharacteristicConfiguration_0;
                        if no_dups(keys_of(fp)) && (forall|j: int|
                            0 <= j < fp.len() ==> !map_has_key(done, (#[trigger] fp[j]).0)) {
                            let j0 = choose|j: int|
                                0 <= j < fp.len() && (#[trigger] fp[j]).0 == k;
                            if exists|a: int, b: int|
                                0 <= a < b < fp.len() && (#[trigger] fp[a]).0 == k && (
                                #[trigger] fp[b]).0 == k {
                                let (a, b) = choose|a: int, b: int|
                                    0 <= a < b < fp.len() && (#[trigger] fp[a]).0 == k && (
                                    #[trigger] fp[b]).0 == k;
                                assert(keys_of(fp)[a] == fp[a].0);
                                assert(keys_of(fp)[b] == fp[b].0);
                                assert(false);
                            } else {
                                assert(map_has_key(before, k));
                                let i0 = choose|i: int|
                                    0 <= i < before.len() && (#[trigger] before[i]).0 == k;
                                assert(done[i0].0 == k);
                                assert(map_has_key(done, fp[j0 as int].0));
                                assert(false);
                            }
                        }
                        assert(!(no_dups(keys_of(fp)) && (forall|j: int|
                            0 <= j < fp.len() ==> !map_has_key(done, (#[trigger] fp[j]).0))));
                        lemma_no_dups_append(done, fp);
                        assert(!no_dups(keys_of(done + fp)));
                        assert(flat_all(dsvc.take(consumed + 1)) == done + fp);
                        assert(!no_dups(keys_of(flat_all(dsvc.take(consumed + 1)))));
                        lemma_flat_all_prefix(dsvc, consumed + 1);
                        assert(!no_dups(keys_of(flat_all(dsvc))));
                    }
                    return Err(e);
                },
            }
            proof {
                let fp = flat_pairs(dsvc[consumed as int]);
                assert forall|j: int| 0 <= j < fp.len() implies !map_has_key(
                    done,
                    (#[trigger] fp[j]).0,
                ) by {
                    if map_has_key(done, fp[j].0) {
                        let i0 = choose|i: int|
                            0 <= i < done.len() && (#[trigger] done[i]).0 == fp[j].0;
                        assert(before[i0].0 == fp[j].0);
                        assert(map_has_key(before, fp[j].0));
                    }
                }
                lemma_no_dups_append(done, fp);
                assert(before.len() == done.len());
                assert(flat.service_map@.len() == done.len() + fp.len());
                assert forall|x: int| 0 <= x < flat.service_map@.len() implies (
                #[trigger] flat.service_map@[x]).0 == (done + fp)[x].0 && flat.service_map@[x].1
                    == (done + fp)[x].1 by {
                    if x < done.len() {
                        assert(flat.service_map@[x] == before[x]);
                        assert(before[x].0 == done[x].0 && before[x].1 == done[x].1);
                        assert((done + fp)[x] == done[x]);
                    } else {
                        let j = x - done.len();
                        assert(flat.service_map@[before.len() + j].0 == fp[j].0);
                        assert(flat.service_map@[before.len() + j].1 == fp[j].1);
                        assert(before.len() + j == x);
                        assert((done + fp)[x] == fp[x - done.len()]);
                    }
                }
                assert(map_models(flat.service_map@, done + fp));
                assert(consumed < total);
            }
            consumed = consumed + 1;
        }
        proof {
            assert(dsvc.take(consumed as int) =~= dsvc);
            let m = flat.service_map@;
            let pairs = flat_all(dsvc);
            assert(map_models(m, pairs));
            assert forall|i: int, jj: int| 0 <= i < jj < keys_of(m).len() implies keys_of(m)[i]
                != keys_of(m)[jj] by {
                assert(keys_of(m)[i] == (#[trigger] m[i]).0);
                assert(keys_of(m)[jj] == (#[trigger] m[jj]).0);
                assert(m[i].0 == pairs[i].0 && m[jj].0 == pairs[jj].0);
                assert(keys_of(pairs)[i] == pairs[i].0 && keys_of(pairs)[jj] == pairs[jj].0);
            }
        }
        Ok(flat)
    }

    /// Whether this configuration's filters all accept the discovered key:
    /// a missing filter accepts anything; a device-name filter rejects a
    /// peripheral that advertised no name.
    pub open spec fn spec_matches(self, key: PeripheralKey) -> bool {
        (match self.adapter {
            Some(f) => f.spec_eval(key.adapter_id@),
            None => true,
        }) && (match self.device_id {
            Some(f) => f.spec_eval(spec_addr_str(key.peripheral_address)),
            None => true,
        }) && (match (self.device_name, key.name) {
            (Some(f), Some(n)) => f.spec_eval(n@),
            (Some(_), None) => false,
            (None, _) => true,
        })
    }

    /// Evaluates the filters against a discovered peripheral key.
    pub fn evaluate(&self, key: &PeripheralKey) -> (r: bool)
        ensures
            r == self.spec_matches(*key),
    {
        let adapter_matches = match &self.adapter {
            Some(f) => f.evaluate(key.adapter_id.as_str()),
            None => true,
        };
        if !adapter_matches {
            return false;
        }
        let device_id_matches = match &self.device_id {
            Some(f) => {
                let addr = addr_to_string(key.peripheral_address);
                f.evaluate(addr.as_str())
            },
            None => true,
        };
        if !device_id_matches {
            return false;
        }
        match (&self.device_name, &key.name) {
            (Some(f), Some(n)) => f.evaluate(n.as_str()),
            (Some(_), None) => false,
            (None, _) => true,
        }
    }
}

/// A model relation keeps the keys aligned.
proof fn lemma_models_same_keys(
    m: Seq<(ServiceCharacteristicKey, Arc<CharacteristicConfig>)>,
    pairs: Seq<(ServiceCharacteristicKey, CharacteristicConfig)>,
)
    requires
        map_models(m, pairs),
    ensures
        forall|k: ServiceCharacteristicKey| map_has_key(m, k) == map_has_key(pairs, k),
{
    assert forall|k: ServiceCharacteristicKey| map_has_key(m, k) == map_has_key(pairs, k) by {
        if map_has_key(m, k) {
            let i = choose|i: int| 0 <= i < m.len() && (#[trigger] m[i]).0 == k;
            assert(pairs[i].0 == k);
            assert(map_has_key(pairs, k));
        }
        if map_has_key(pairs, k) {
            let i = choose|i: int| 0 <= i < pairs.len() && (#[trigger] pairs[i]).0 == k;
            assert(m[i].0 == k);
            assert(map_has_key(m, k));
        }
    }
}

/// Keys of a concatenation split into the two parts' keys.
proof fn lemma_keys_append<V>(
    a: Seq<(ServiceCharacteristicKey, V)>,
    b: Seq<(ServiceCharacteristicKey, V)>,
)
    ensures
        keys_of(a + b) =~= keys_of(a) + keys_of(b),
{
}

/// The concatenation has no duplicate keys exactly when the parts have none
/// and no key of the second part occurs in the first.
proof fn lemma_no_dups_append<V>(
    a: Seq<(ServiceCharacteristicKey, V)>,
    b: Seq<(ServiceCharacteristicKey, V)>,
)
    ensures
        no_dups(keys_of(a + b)) <==> (no_dups(keys_of(a)) && no_dups(keys_of(b)) && (forall|j: int|
            0 <= j < b.len() ==> !map_has_key(a, (#[trigger] b[j]).0))),
{
    lemma_keys_append(a, b);
    let ka = keys_of(a);
    let kb = keys_of(b);
    let kab = keys_of(a + b);
    assert(kab == ka + kb);
    if no_dups(kab) {
        assert forall|j: int| 0 <= j < b.len() implies !map_has_key(a, (#[trigger] b[j]).0) by {
            if map_has_key(a, b[j].0) {
                let i = choose|i: int| 0 <= i < a.len() && (#[trigger] a[i]).0 == b[j].0;
                assert(kab[i] == a[i].0);
                assert(kab[a.len() + j] == b[j].0);
            }
        }
        assert forall|i: int, j: int| 0 <= i < j < ka.len() implies ka[i] != ka[j] by {
            assert(kab[i] == ka[i] && kab[j] == ka[j]);
        }
        assert forall|i: int, j: int| 0 <= i < j < kb.len() implies kb[i] != kb[j] by {
            assert(kab[a.len() + i] == kb[i] && kab[a.len() + j] == kb[j]);
        }
    }
    if no_dups(ka) && no_dups(kb) && (forall|j: int|
        0 <= j < b.len() ==> !map_has_key(a, (#[trigger] b[j]).0)) {
        assert forall|i: int, j: int| 0 <= i < j < kab.len() implies kab[i] != kab[j] by {
            if i < a.len() && j >= a.len() {
                assert(kab[i] == a[i].0);
                assert(kab[j] == b[j - a.len()].0);
                assert(!map_has_key(a, b[j - a.len()].0));
            } else if i >= a.len() {
                assert(kab[i] == kb[i - a.len()] && kab[j] == kb[j - a.len()]);
            } else {
                assert(kab[i] == ka[i] && kab[j] == ka[j]);
            }
        }
    }
}

/// A duplicate among the keys of a prefix stays a duplicate in the whole.
proof fn lemma_flat_all_prefix(services: Seq<ServiceConfigDto>, n: int)
    requires
        0 <= n <= services.len(),
        !no_dups(keys_of(flat_all(services.take(n)))),
    ensures
        !no_dups(keys_of(flat_all(services))),
    decreases services.len() - n,
{
    if n == services.len() {
        assert(services.take(n) =~= services);
    } else {
        lemma_flat_all_take_step(services, n);
        lemma_no_dups_append(flat_all(services.take(n)), flat_pairs(services[n as int]));
        lemma_flat_all_prefix(services, n + 1);
    }
}


/// The names under which peripherals are declared, in order.
pub open spec fn names_of(dtos: Seq<PeripheralConfigDto>) -> Seq<Seq<char>> {
    dtos.map_values(|p: PeripheralConfigDto| p.name@)
}

/// Holds every flattened peripheral configuration, each under a distinct
/// name, and answers which configuration matches a discovered peripheral.
#[derive(Debug)]
pub struct ConfigurationManager {
    pub configs: Vec<FlatPeripheralConfig>,
}

impl ConfigurationManager {
    /// Names are pairwise distinct.
    pub open spec fn wf(self) -> bool {
        forall|i: int, j: int|
            0 <= i < j < self.configs@.len() ==> (#[trigger] self.configs@[i]).name@ != (
            #[trigger] self.configs@[j]).name@
    }

    pub fn new() -> (r: Self)
        ensures
            r.configs@.len() == 0,
            r.wf(),
    {
        ConfigurationManager { configs: Vec::new() }
    }

    /// The flattened configurations, in insertion order.
    pub fn list_peripheral_configs(&self) -> (r: &Vec<FlatPeripheralConfig>)
        ensures
            r == &self.configs,
    {
        &self.configs
    }

    /// Registers a batch of declared peripherals. Succeeds exactly when the
    /// new names are pairwise distinct, none is already registered, and
    /// every peripheral flattens without a duplicated characteristic; on
    /// failure nothing is registered.
    #[verifier::loop_isolation(false)]
    pub fn add_peripherals(&mut self, dtos: Vec<PeripheralConfigDto>) -> (r: Result<
        (),
        CollectorError,
    >)
        ensures
            r is Ok <==> no_dups(names_of(dtos@)) && (forall|i: int, j: int|
                0 <= i < dtos@.len() && 0 <= j < old(self).configs@.len() ==> (
                #[trigger] dtos@[i]).name@ != (#[trigger] old(self).configs@[j]).name@) && (forall|
                i: int,
            |
                0 <= i < dtos@.len() ==> no_dups(
                    keys_of(flat_all((#[trigger] dtos@[i]).services@)),
                )),
            r is Ok ==> final(self).configs@.len() == old(self).configs@.len() + dtos@.len() && (
            forall|i: int|
                0 <= i < old(self).configs@.len() ==> final(self).configs@[i] == old(
                    self,
                ).configs@[i]) && (forall|i: int|
                0 <= i < dtos@.len() ==> {
                    let c = #[trigger] final(self).configs@[old(self).configs@.len() + i];
                    c.name == dtos@[i].name && c.adapter == dtos@[i].adapter && c.device_id
                        == dtos@[i].device_id && c.device_name == dtos@[i].device_name
                        && map_models(c.service_map@, flat_all(dtos@[i].services@)) && c.map_wf()
                }),
            r is Ok && old(self).wf() ==> final(self).wf(),
            r matches Err(e) ==> *final(self) == *old(self) && (e
                matches CollectorError::DuplicateConfiguration(_) || e
                matches CollectorError::DuplicateCharacteristicConfiguration(_)),
            r matches Err(e) ==> e matches CollectorError::DuplicateConfiguration(nm) ==> (exists|
                i: int,
                j: int,
            |
                0 <= i < j < dtos@.len() && (#[trigger] dtos@[i]).name@ == (
                #[trigger] dtos@[j]).name@ && nm@ == dtos@[i].name@) || (exists|i: int, j: int|
                0 <= i < dtos@.len() && 0 <= j < old(self).configs@.len() && (
                #[trigger] dtos@[i]).name@ == (#[trigger] old(self).configs@[j]).name@ && nm@
                    == dtos@[i].name@),
            r matches Err(e) ==> e matches CollectorError::DuplicateCharacteristicConfiguration(
                k,
            ) ==> exists|i: int|
                0 <= i < dtos@.len() && !no_dups(
                    keys_of(flat_all((#[trigger] dtos@[i]).services@)),
                ),
    {
        let ghost dseq = dtos@;
        let n = dtos.len();
        let mut i: usize = 0;
        while i < n
            invariant
                i <= n,
                forall|a: int, b: int|
                    0 <= a < b < i ==> (#[trigger] dseq[a]).name@ != (#[trigger] dseq[b]).name@,
            decreases n - i,
        {
            let mut j: usize = 0;
            while j < i
                invariant
                    j <= i,
                    forall|b: int| 0 <= b < j ==> (#[trigger] dseq[b]).name@ != dseq[i as int].name@,
                decreases i - j,
            {
                if crate::text::str_eq(dtos[j].name.as_str(), dtos[i].name.as_str()) {
                    proof {
                        assert(names_of(dseq)[j as int] == dseq[j as int].name@);
                        assert(names_of(dseq)[i as int] == dseq[i as int].name@);
                        assert(!no_dups(names_of(dseq)));
                    }
                    proof {
                        assert(0 <= j < i < dseq.len() && dseq[j as int].name@
                            == dseq[i as int].name@);
                    }
                    return Err(CollectorError::DuplicateConfiguration(dtos[i].name.clone()));
                }
                j = j + 1;
            }
            i = i + 1;
        }
        proof {
            assert forall|a: int, b: int| 0 <= a < b < names_of(dseq).len() implies names_of(
                dseq,
            )[a] != names_of(dseq)[b] by {
                assert(names_of(dseq)[a] == (#[trigger] dseq[a]).name@);
                assert(names_of(dseq)[b] == (#[trigger] dseq[b]).name@);
            }
            assert(no_dups(names_of(dseq)));
        }
        let mut i2: usize = 0;
        while i2 < n
            invariant
                i2 <= n,
                forall|a: int, j: int|
                    0 <= a < i2 && 0 <= j < self.configs@.len() ==> (#[trigger] dseq[a]).name@
                        != (#[trigger] self.configs@[j]).name@,
                self == old(self),
            decreases n - i2,
        {
            let mut j: usize = 0;
            while j < self.configs.len()
                invariant
                    j <= self.configs@.len(),
                    forall|jj: int|
                        0 <= jj < j ==> dseq[i2 as int].name@ != (
                        #[trigger] self.configs@[jj]).name@,
                    self == old(self),
                decreases self.configs@.len() - j,
            {
                if crate::text::str_eq(dtos[i2].name.as_str(), self.configs[j].name.as_str()) {
                    proof {
                        assert(0 <= i2 < dseq.len() && 0 <= j < old(self).configs@.len()
                            && dseq[i2 as int].name@ == old(self).configs@[j as int].name@);
                    }
                    return Err(CollectorError::DuplicateConfiguration(dtos[i2].name.clone()));
                }
                j = j + 1;
            }
            i2 = i2 + 1;
        }
        let mut flats: Vec<FlatPeripheralConfig> = Vec::new();
        let mut rest = dtos;
        let mut consumed: usize = 0;
        proof {
            assert(rest@ =~= dseq.skip(0));
        }
        while rest.len() > 0
            invariant
                consumed <= dseq.len(),
                rest@ == dseq.skip(consumed as int),
                flats@.len() == consumed,
                forall|x: int|
                    0 <= x < consumed ==> {
                        let c = #[trigger] flats@[x];
                        c.name == dseq[x].name && c.adapter == dseq[x].adapter && c.device_id
                            == dseq[x].device_id && c.device_name == dseq[x].device_name
                            && map_models(c.service_map@, flat_all(dseq[x].services@))
                            && c.map_wf()
                    },
                forall|x: int|
                    0 <= x < consumed ==> no_dups(
                        keys_of(flat_all((#[trigger] dseq[x]).services@)),
                    ),
                self == old(self),
            decreases rest@.len(),
        {
            proof {
                assert(dseq.skip(consumed as int).len() > 0);
                assert(consumed < dseq.len());
                assert(consumed < n);
            }
            let p = rest.remove(0);
            proof {
                assert(p == dseq[consumed as int]);
                assert(rest@ =~= dseq.skip(consumed + 1));
            }
            match FlatPeripheralConfig::try_from_dto(p) {
                Ok(c) => {
                    flats.push(c);
                },
                Err(e) => {
                    proof {
                        assert(!no_dups(keys_of(flat_all(dseq[consumed as int].services@))));
                    }
                    return Err(e);
                },
            }
            consumed = consumed + 1;
        }
        let ghost fl = flats@;
        let ghost base = self.configs@.len() as int;
        let mut rest2 = flats;
        let mut moved: usize = 0;
        proof {
            assert(rest2@ =~= fl.skip(0));
        }
        while rest2.len() > 0
            invariant
                moved <= fl.len(),
                fl.len() == dseq.len(),
                rest2@ == fl.skip(moved as int),
                base == old(self).configs@.len(),
                self.configs@.len() == base + moved,
                forall|x: int| 0 <= x < base ==> self.configs@[x] == old(self).configs@[x],
                forall|x: int| 0 <= x < moved ==> self.configs@[base + x] == fl[x],
                self.configs@ == old(self).configs@ + fl.take(moved as int),
            decreases rest2@.len(),
        {
            proof {
                assert(fl.skip(moved as int).len() > 0);
                assert(moved < fl.len());
                assert(moved < n);
            }
            let c = rest2.remove(0);
            proof {
                assert(c == fl[moved as int]);
                assert(rest2@ =~= fl.skip(moved + 1));
            }
            self.configs.push(c);
            proof {
                assert(self.configs@ =~= old(self).configs@ + fl.take(moved + 1));
            }
            moved = moved + 1;
        }
        Ok(())
    }

    /// The first registered configuration whose filters accept the key,
    /// in insertion order; none when no configuration matches.
    pub fn get_matching_config(&self, key: &PeripheralKey) -> (r: Option<&FlatPeripheralConfig>)
        ensures
            r matches Some(c) ==> exists|i: int|
                0 <= i < self.configs@.len() && (#[trigger] self.configs@[i]) == *c
                    && self.configs@[i].spec_matches(*key) && (forall|j: int|
                    0 <= j < i ==> !(#[trigger] self.configs@[j]).spec_matches(*key)),
            r is None <==> (forall|j: int|
                0 <= j < self.configs@.len() ==> !(#[trigger] self.configs@[j]).spec_matches(
                    *key,
                )),
    {
        let mut i: usize = 0;
        while i < self.configs.len()
            invariant
                i <= self.configs@.len(),
                forall|j: int|
                    0 <= j < i ==> !(#[trigger] self.configs@[j]).spec_matches(*key),
            decreases self.configs@.len() - i,
        {
            if self.configs[i].evaluate(key) {
                return Some(&self.configs[i]);
            }
            i = i + 1;
        }
        None
    }
}

} // verus!
