use std::sync::Arc;

use ble_collector::api_publisher::ApiPublisher;
use ble_collector::conf::{
    CharacteristicConfig, DiscoverySettings, MetricType, PublishMetricConfigDto,
    PublishMqttConfigDto, Qos, TemplateValue,
};
use ble_collector::converter::{CharacteristicValue, Converter};
use ble_collector::events::{CharacteristicPayload, CollectorEvent, ConnectPeripheralRequest};
use ble_collector::fanout::FanOutSender;
use ble_collector::interpolate::{clean_str, interpolate_discovery, interpolate_state_topic};
use ble_collector::metric::{MetricCommand, MetricPublisher, metric_instruction};
use ble_collector::model::{AdapterInfo, Fqcn, PeripheralKey};
use ble_collector::scheduler::PeripheralManagerState;

fn adapter() -> Arc<AdapterInfo> {
    Arc::new(AdapterInfo { id: "hci0".to_string(), modalias: "smth".to_string() })
}

fn payload(
    fqcn: Fqcn,
    conf: Arc<CharacteristicConfig>,
    created_at: u64,
    value: CharacteristicValue,
) -> CharacteristicPayload {
    CharacteristicPayload {
        created_at,
        value: Arc::new(value),
        fqcn,
        conf,
        adapter_info: adapter(),
    }
}

fn f32_conf(history: usize) -> Arc<CharacteristicConfig> {
    Arc::new(CharacteristicConfig::Poll {
        name: Some("temp".to_string()),
        uuid: 1,
        service_name: None,
        service_uuid: 0x180f,
        delay_ms: 100,
        history_size: history,
        converter: Converter::F32,
        publish_metrics: None,
        publish_mqtt: None,
    })
}

/// Four polled readings under a history of three leave the last three in
/// the ring, oldest first, with four counted updates.
#[test]
fn ring_keeps_last_history_size_readings() {
    let fqcn = Fqcn { peripheral: 7, service: 0x180f, characteristic: 1 };
    let conf = f32_conf(3);
    let mut store = ApiPublisher::new();
    let readings = [1.0f32, 2.0, 3.0, 4.0];
    for (i, v) in readings.iter().enumerate() {
        let decoded = Converter::F32.convert(v.to_le_bytes().to_vec()).unwrap();
        store.process(&payload(fqcn, Arc::clone(&conf), 100 * (i as u64 + 1), decoded));
    }
    let ring = store.ring_of(fqcn).unwrap();
    assert_eq!(ring.len(), 3);
    let as_f32: Vec<f32> = ring
        .iter()
        .map(|p| match &*p.value {
            CharacteristicValue::F32Bits(bits) => f32::from_bits(*bits),
            other => panic!("unexpected value: {:?}", other),
        })
        .collect();
    assert_eq!(as_f32, vec![2.0, 3.0, 4.0]);
    assert_eq!(ring[0].ts, 200);
    let entry = store.rings.iter().find(|(f, _)| *f == fqcn).unwrap();
    assert_eq!(entry.1.num_updates, 4);
}

/// Notifications for two subscribed characteristics land in their own
/// rings after routing and decoding.
#[test]
fn subscribe_routing_fills_both_rings() {
    let addr = 7u64;
    let c1 = Fqcn { peripheral: addr, service: 0x180f, characteristic: 1 };
    let c2 = Fqcn { peripheral: addr, service: 0x180f, characteristic: 2 };
    let mk = |uuid: u128, converter: Converter| {
        Arc::new(CharacteristicConfig::Subscribe {
            name: None,
            service_name: None,
            service_uuid: 0x180f,
            uuid,
            history_size: 10,
            converter,
            publish_metrics: None,
            publish_mqtt: None,
        })
    };
    let key = Arc::new(PeripheralKey {
        adapter_id: "hci0".to_string(),
        peripheral_address: addr,
        name: None,
    });
    let mut s = PeripheralManagerState::new();
    s.connect_characteristic(Arc::clone(&key), c1, mk(1, Converter::Utf8));
    s.connect_characteristic(Arc::clone(&key), c2, mk(2, Converter::Signed { l: 2, m: 1, d: 0, b: 0 }));

    let mut store = ApiPublisher::new();
    let notifications: [(Fqcn, Vec<u8>); 3] =
        [(c1, b"ok".to_vec()), (c2, vec![0x00, 0x01]), (c1, b"done".to_vec())];
    let mut t = 0u64;
    for (f, bytes) in notifications {
        let conf = s.route_notification(f).unwrap();
        let converter = match &*conf {
            CharacteristicConfig::Subscribe { converter, .. } => *converter,
            _ => panic!("unexpected variant"),
        };
        let value = converter.convert(bytes).unwrap();
        t += 1;
        store.process(&payload(f, conf, t, value));
    }
    assert_eq!(store.ring_of(c1).unwrap().len(), 2);
    assert_eq!(store.ring_of(c2).unwrap().len(), 1);
    match &*store.ring_of(c2).unwrap()[0].value {
        CharacteristicValue::I64(v) => assert_eq!(*v, 256),
        other => panic!("unexpected value: {:?}", other),
    }
    match &*store.ring_of(c1).unwrap()[1].value {
        CharacteristicValue::Utf8(s) => assert_eq!(s, "done"),
        other => panic!("unexpected value: {:?}", other),
    }
}

/// A fan-out of `n` events delivers exactly `n` to each consumer, in the
/// producer's order.
#[test]
fn fanout_delivers_to_every_consumer_in_order() {
    let (s1, r1) = kanal::bounded::<CollectorEvent>(10);
    let (s2, r2) = kanal::bounded::<CollectorEvent>(10);
    let mut sender = FanOutSender::new(vec![s1, s2]);
    let fqcn = Fqcn { peripheral: 7, service: 0x180f, characteristic: 1 };
    let conf = f32_conf(3);
    for t in 1..=3u64 {
        let e = CollectorEvent::Payload(Arc::new(payload(
            fqcn,
            Arc::clone(&conf),
            t,
            CharacteristicValue::I64(t as i64),
        )));
        sender.send(e).unwrap();
    }
    for r in [r1, r2] {
        let mut seen = Vec::new();
        for _ in 0..3 {
            match r.recv().unwrap() {
                CollectorEvent::Payload(p) => seen.push(p.created_at),
                other => panic!("unexpected event: {:?}", other),
            }
        }
        assert_eq!(seen, vec![1, 2, 3]);
        assert!(r.try_recv().unwrap().is_none());
    }
}

#[test]
fn metric_dispatch() {
    let fqcn = Fqcn { peripheral: 0x112233445566, service: 0x180f, characteristic: 1 };
    let with_metrics = Arc::new(CharacteristicConfig::Poll {
        name: None,
        uuid: 1,
        service_name: None,
        service_uuid: 0x180f,
        delay_ms: 100,
        history_size: 10,
        converter: Converter::Raw,
        publish_metrics: Some(PublishMetricConfigDto {
            metric_type: MetricType::Counter,
            name: "battery".to_string(),
            description: None,
            unit: "percent".to_string(),
            labels: Some(vec![("room".to_string(), "lab".to_string())]),
        }),
        publish_mqtt: None,
    });
    match metric_instruction(&payload(
        fqcn,
        Arc::clone(&with_metrics),
        1,
        CharacteristicValue::I64(99),
    )) {
        MetricCommand::Record { metric_type, name, labels } => {
            assert_eq!(metric_type, MetricType::Counter);
            assert_eq!(name, "battery");
            assert_eq!(
                labels,
                vec![
                    metrics::Label::new("room", "lab"),
                    metrics::Label::new("peripheral", "11:22:33:44:55:66"),
                    metrics::Label::new("service", "00000000-0000-0000-0000-00000000180f"),
                    metrics::Label::new("characteristic", "00000000-0000-0000-0000-000000000001"),
                ]
            );
        }
        other => panic!("unexpected command: {:?}", other),
    }
    match metric_instruction(&payload(
        fqcn,
        Arc::clone(&with_metrics),
        2,
        CharacteristicValue::Raw(vec![1]),
    )) {
        MetricCommand::SkipNonNumeric => {}
        other => panic!("unexpected command: {:?}", other),
    }
    match metric_instruction(&payload(fqcn, f32_conf(1), 3, CharacteristicValue::I64(1))) {
        MetricCommand::SkipNoConfig => {}
        other => panic!("unexpected command: {:?}", other),
    }

    let mut registry = MetricPublisher::new();
    assert!(registry.register_if_new("battery"));
    assert!(!registry.register_if_new("battery"));
    assert!(registry.register_if_new("humidity"));
}

#[test]
fn sanitization() {
    assert_eq!(clean_str("11:22:33:44:55:66"), "11_22_33_44_55_66");
    assert_eq!(clean_str("Name Different Case"), "Name_Different_Case");
    assert_eq!(clean_str("service-name-test"), "service-name-test");
    assert_eq!(clean_str("a.b/c"), "a_b_c");
}

fn obj(fields: Vec<(&str, TemplateValue)>) -> TemplateValue {
    TemplateValue::Obj(fields.into_iter().map(|(k, v)| (k.to_string(), v)).collect())
}

fn s(v: &str) -> TemplateValue {
    TemplateValue::Str(v.to_string())
}

#[test]
fn test_mqtt_payload_interpolation() {
    let identifier_script = "\n                  switch ctx.fqcn.peripheral {\n                    \"11:22:33:44:55:66\" => `${ctx.clean_service_name.to_lower()}-${ctx.clean_characteristic_name.to_lower()}-${ctx.clean_peripheral_name.to_lower()}`,\n                    _ => \"unknown\"\n                  }\n              ";
    let config = obj(vec![
        ("device_class", s("`temperature`")),
        ("state_topic", s("`${state_topic}`")),
        ("unit_of_measurement", s("`\u{b0}C`")),
        ("value_template", s("`{{ value_json.temperature }}`")),
        ("unique_id", s("`temp01ae`")),
        (
            "device",
            obj(vec![
                ("identifiers", TemplateValue::Arr(vec![s(identifier_script)])),
                ("name", s("`name`")),
            ]),
        ),
    ]);

    let fqcn = Fqcn {
        peripheral: 0x112233445566,
        service: 0x0000180f_0000_1000_8000_00805f9b34fb,
        characteristic: 0x00002a19_0000_1000_8000_00805f9b34fb,
    };

    let mqtt_conf = PublishMqttConfigDto {
        state_topic: "`test-${ctx.clean_fqcn.peripheral}`".to_string(),
        unit: Some("`test-${ctx.peripheral}-test`".to_string()),
        retain: true,
        qos: Qos::default(),
        discovery: Some(DiscoverySettings {
            config_topic: "`config-test-${ctx.clean_fqcn.peripheral}`".to_string(),
            retain: None,
            qos: None,
            remainder: config,
        }),
    };

    let char_conf = Arc::new(CharacteristicConfig::Subscribe {
        name: Some("name test".to_string()),
        service_name: Some("service-name-test".to_string()),
        service_uuid: fqcn.service,
        uuid: fqcn.characteristic,
        history_size: 42,
        converter: Converter::F32,
        publish_metrics: None,
        publish_mqtt: Some(mqtt_conf),
    });

    let peripheral_key = Arc::new(PeripheralKey {
        adapter_id: "hci0".to_string(),
        peripheral_address: 0x112233445566,
        name: Some("Name Different Case".to_string()),
    });

    let request = ConnectPeripheralRequest {
        peripheral_key,
        fqcn,
        conf: Arc::clone(&char_conf),
    };
    let mqtt_payload = interpolate_discovery(&request).unwrap();

    assert_eq!(mqtt_payload.config_topic, "config-test-11_22_33_44_55_66");
    assert!(mqtt_payload.retain);
    assert_eq!(mqtt_payload.qos, Qos::AtLeastOnce);

    let expected = obj(vec![
        ("device_class", s("temperature")),
        ("state_topic", s("test-11_22_33_44_55_66")),
        ("unit_of_measurement", s("\u{b0}C")),
        ("value_template", s("{{ value_json.temperature }}")),
        ("unique_id", s("temp01ae")),
        (
            "device",
            obj(vec![
                (
                    "identifiers",
                    TemplateValue::Arr(vec![s(
                        "service-name-test-name_test-name_different_case",
                    )]),
                ),
                ("name", s("name")),
            ]),
        ),
    ]);
    assert_eq!(mqtt_payload.discovery_config, Some(expected));

    let topic =
        interpolate_state_topic("`test-${ctx.clean_fqcn.peripheral}`", fqcn, &char_conf).unwrap();
    assert_eq!(topic, "test-11_22_33_44_55_66");
}

#[test]
fn discovery_failure_is_an_eval_error() {
    let fqcn = Fqcn { peripheral: 7, service: 1, characteristic: 2 };
    let mqtt_conf = PublishMqttConfigDto {
        state_topic: "`t`".to_string(),
        unit: None,
        retain: false,
        qos: Qos::default(),
        discovery: Some(DiscoverySettings {
            config_topic: "`c`".to_string(),
            retain: None,
            qos: None,
            remainder: obj(vec![("broken", s("nonsense("))]),
        }),
    };
    let conf = Arc::new(CharacteristicConfig::Subscribe {
        name: None,
        service_name: None,
        service_uuid: 1,
        uuid: 2,
        history_size: 1,
        converter: Converter::Raw,
        publish_metrics: None,
        publish_mqtt: Some(mqtt_conf),
    });
    let request = ConnectPeripheralRequest {
        peripheral_key: Arc::new(PeripheralKey {
            adapter_id: "hci0".to_string(),
            peripheral_address: 7,
            name: None,
        }),
        fqcn,
        conf,
    };
    match interpolate_discovery(&request).unwrap_err() {
        ble_collector::error::CollectorError::EvalError(expr, _) => {
            assert_eq!(expr, "nonsense(");
        }
        other => panic!("unexpected error: {:?}", other),
    }

    let no_mqtt = ConnectPeripheralRequest {
        peripheral_key: Arc::new(PeripheralKey {
            adapter_id: "hci0".to_string(),
            peripheral_address: 7,
            name: None,
        }),
        fqcn,
        conf: f32_conf(1),
    };
    assert!(matches!(
        interpolate_discovery(&no_mqtt).unwrap_err(),
        ble_collector::error::CollectorError::NoMqttConfig
    ));
}

#[test]
fn interpolation_failure_is_an_eval_error() {
    let fqcn = Fqcn { peripheral: 7, service: 1, characteristic: 2 };
    let conf = f32_conf(1);
    let err = interpolate_state_topic("nonsense(", fqcn, &conf).unwrap_err();
    match err {
        ble_collector::error::CollectorError::EvalError(expr, _) => {
            assert_eq!(expr, "nonsense(");
        }
        other => panic!("unexpected error: {:?}", other),
    }
}
