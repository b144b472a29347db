use ble_collector::conf::{
    CharacteristicConfig, CharacteristicConfigDto, CollectorConfigurationDto,
    ConfigurationManager, FlatPeripheralConfig, PeripheralConfigDto, ServiceConfigDto,
};
use ble_collector::converter::Converter;
use ble_collector::error::CollectorError;
use ble_collector::filter::Filter;
use ble_collector::model::{PeripheralKey, ServiceCharacteristicKey};

fn poll_dto(uuid: u128, delay_ms: Option<u64>, history: Option<usize>) -> CharacteristicConfigDto {
    CharacteristicConfigDto::Poll {
        name: Some("poll".to_string()),
        uuid,
        delay_ms,
        history_size: history,
        converter: Converter::Raw,
        publish_metrics: None,
        publish_mqtt: None,
    }
}

fn subscribe_dto(uuid: u128, history: Option<usize>) -> CharacteristicConfigDto {
    CharacteristicConfigDto::Subscribe {
        name: Some("sub".to_string()),
        uuid,
        history_size: history,
        converter: Converter::Raw,
        publish_metrics: None,
        publish_mqtt: None,
    }
}

fn service(uuid: u128, characteristics: Vec<CharacteristicConfigDto>) -> ServiceConfigDto {
    ServiceConfigDto {
        name: Some("svc".to_string()),
        uuid,
        default_delay_ms: 5000,
        default_history_size: 100,
        characteristics,
    }
}

/// Flattening folds the service defaults into children that omit a value.
#[test]
fn flattening_applies_service_defaults() {
    let dto = PeripheralConfigDto {
        name: "test".to_string(),
        adapter: Some(Filter::Contains("hci0".to_string())),
        device_id: Some(Filter::StartsWith("FA:6F".to_string())),
        device_name: Some(Filter::EndsWith("test".to_string())),
        services: vec![service(7, vec![subscribe_dto(1, Some(2)), poll_dto(2, None, None)])],
    };
    let flat = FlatPeripheralConfig::try_from_dto(dto).unwrap();
    assert_eq!(flat.name, "test");
    assert_eq!(flat.service_map.len(), 2);
    match &*flat.service_map[0].1 {
        CharacteristicConfig::Subscribe { history_size, service_uuid, uuid, .. } => {
            assert_eq!(*history_size, 2);
            assert_eq!(*service_uuid, 7);
            assert_eq!(*uuid, 1);
        }
        other => panic!("unexpected: {:?}", other),
    }
    match &*flat.service_map[1].1 {
        CharacteristicConfig::Poll { history_size, delay_ms, .. } => {
            assert_eq!(*history_size, 100);
            assert_eq!(*delay_ms, 5000);
        }
        other => panic!("unexpected: {:?}", other),
    }
}

/// Two services that both declare one (service, characteristic) pair fail
/// with a duplicate-characteristic error.
#[test]
fn duplicate_characteristic_across_services() {
    let dto = PeripheralConfigDto {
        name: "p".to_string(),
        adapter: None,
        device_id: None,
        device_name: None,
        services: vec![
            service(7, vec![subscribe_dto(1, None)]),
            service(7, vec![poll_dto(1, None, None)]),
        ],
    };
    let err = FlatPeripheralConfig::try_from_dto(dto).unwrap_err();
    assert_eq!(
        err,
        CollectorError::DuplicateCharacteristicConfiguration(ServiceCharacteristicKey {
            service_uuid: 7,
            characteristic_uuid: 1,
        })
    );
}

#[test]
fn duplicate_characteristic_within_service() {
    let dto = PeripheralConfigDto {
        name: "p".to_string(),
        adapter: None,
        device_id: None,
        device_name: None,
        services: vec![service(7, vec![subscribe_dto(1, None), poll_dto(1, None, None)])],
    };
    let err = FlatPeripheralConfig::try_from_dto(dto).unwrap_err();
    assert!(matches!(
        err,
        CollectorError::DuplicateCharacteristicConfiguration(_)
    ));
}

/// Two peripherals under one name are rejected at startup.
#[test]
fn duplicate_peripheral_name() {
    let mk = |name: &str| PeripheralConfigDto {
        name: name.to_string(),
        adapter: None,
        device_id: None,
        device_name: None,
        services: vec![],
    };
    let config = CollectorConfigurationDto { peripherals: vec![mk("sensor"), mk("sensor")] };
    let mut manager = ConfigurationManager::new();
    let err = manager.add_peripherals(config.peripherals).unwrap_err();
    assert_eq!(err, CollectorError::DuplicateConfiguration("sensor".to_string()));
    assert_eq!(manager.list_peripheral_configs().len(), 0);

    let mut manager2 = ConfigurationManager::new();
    manager2.add_peripherals(vec![mk("sensor")]).unwrap();
    let err2 = manager2.add_peripherals(vec![mk("sensor")]).unwrap_err();
    assert_eq!(err2, CollectorError::DuplicateConfiguration("sensor".to_string()));
}

#[test]
fn filters_evaluate_each_variant() {
    assert!(Filter::Contains("hci".to_string()).evaluate("hci0"));
    assert!(!Filter::Contains("hci1".to_string()).evaluate("hci0"));
    assert!(Filter::StartsWith("FA:6F".to_string()).evaluate("FA:6F:11:22:33:44"));
    assert!(Filter::EndsWith("test".to_string()).evaluate("device test"));
    assert!(Filter::Equals("AA:BB:CC:DD:EE:FF".to_string()).evaluate("AA:BB:CC:DD:EE:FF"));
    assert!(Filter::NotEquals("x".to_string()).evaluate("y"));
    let re = Filter::regex("^hci[0-9]+$".to_string()).unwrap();
    assert!(re.evaluate("hci42"));
    assert!(!re.evaluate("usb0"));
    assert!(Filter::regex("(unclosed".to_string()).is_none());
    assert!(!Filter::Regex("(unclosed".to_string()).evaluate("anything"));
}

/// The first matching configuration wins; a device-name filter rejects a
/// peripheral with no advertised name.
#[test]
fn matching_config_selection() {
    let mk = |name: &str, addr_prefix: &str| PeripheralConfigDto {
        name: name.to_string(),
        adapter: None,
        device_id: Some(Filter::StartsWith(addr_prefix.to_string())),
        device_name: None,
        services: vec![],
    };
    let mut manager = ConfigurationManager::new();
    manager
        .add_peripherals(vec![mk("first", "AA:BB"), mk("second", "AA")])
        .unwrap();

    let key = PeripheralKey {
        adapter_id: "hci0".to_string(),
        peripheral_address: 0xAABBCCDDEEFF,
        name: None,
    };
    let found = manager.get_matching_config(&key).unwrap();
    assert_eq!(found.name, "first");

    let other = PeripheralKey {
        adapter_id: "hci0".to_string(),
        peripheral_address: 0x112233445566,
        name: None,
    };
    assert!(manager.get_matching_config(&other).is_none());

    let named = PeripheralConfigDto {
        name: "named".to_string(),
        adapter: None,
        device_id: None,
        device_name: Some(Filter::Equals("Sensor".to_string())),
        services: vec![],
    };
    let mut m2 = ConfigurationManager::new();
    m2.add_peripherals(vec![named]).unwrap();
    let anonymous = PeripheralKey {
        adapter_id: "hci0".to_string(),
        peripheral_address: 1,
        name: None,
    };
    assert!(m2.get_matching_config(&anonymous).is_none());
    let advertised = PeripheralKey {
        adapter_id: "hci0".to_string(),
        peripheral_address: 1,
        name: Some("Sensor".to_string()),
    };
    assert!(m2.get_matching_config(&advertised).is_some());
}

#[test]
fn error_messages_name_the_culprit() {
    let e = CollectorError::AdapterNotFound("hci42".to_string());
    assert_eq!(e.message(), "Adapter `hci42` not found");
    let d = CollectorError::DuplicateConfiguration("sensor".to_string());
    assert_eq!(d.message(), "Duplicate configuration: sensor");
}
