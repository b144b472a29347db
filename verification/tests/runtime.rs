use std::sync::Arc;

use ble_collector::adapters::find_adapter;
use ble_collector::batch::{
    BatchCoordinator, BatchEvent, IoCommand, PeripheralIoBatchRequestDto, ResultDto, WriteType,
    check_deadline, command_slot, effective_parallelism, effective_timeout,
};
use ble_collector::cache::{CacheLookup, PeripheralCacheState};
use ble_collector::conf::CharacteristicConfig;
use ble_collector::converter::Converter;
use ble_collector::countdown_latch::CountDownLatch;
use ble_collector::debounce::DebounceLimiter;
use ble_collector::error::CollectorError;
use ble_collector::key_lock::KeyLock;
use ble_collector::model::{AdapterInfo, Fqcn, PeripheralKey};
use ble_collector::scheduler::{DiscoveryDecision, PeripheralManagerState, classify_event};

fn fqcn(addr: u64, c: u128) -> Fqcn {
    Fqcn { peripheral: addr, service: 0x180f, characteristic: c }
}

fn subscribe_conf() -> Arc<CharacteristicConfig> {
    Arc::new(CharacteristicConfig::Subscribe {
        name: None,
        service_name: None,
        service_uuid: 0x180f,
        uuid: 1,
        history_size: 10,
        converter: Converter::Raw,
        publish_metrics: None,
        publish_mqtt: None,
    })
}

fn poll_conf() -> Arc<CharacteristicConfig> {
    Arc::new(CharacteristicConfig::Poll {
        name: None,
        uuid: 2,
        service_name: None,
        service_uuid: 0x180f,
        delay_ms: 100,
        history_size: 10,
        converter: Converter::Raw,
        publish_metrics: None,
        publish_mqtt: None,
    })
}

fn key(addr: u64) -> Arc<PeripheralKey> {
    Arc::new(PeripheralKey {
        adapter_id: "hci0".to_string(),
        peripheral_address: addr,
        name: None,
    })
}

/// One notification consumer per peripheral, one poll task per fqcn, and a
/// second connect of a tracked characteristic changes nothing.
#[test]
fn scheduler_single_task_per_key() {
    let mut s = PeripheralManagerState::new();
    let a1 = s.connect_characteristic(key(7), fqcn(7, 1), subscribe_conf());
    assert_eq!(a1.len(), 3);
    assert_eq!(s.subscription_tasks.len(), 1);
    assert_eq!(s.subscribed_characteristics.len(), 1);

    let again = s.connect_characteristic(key(7), fqcn(7, 1), subscribe_conf());
    assert_eq!(again.len(), 0);
    assert_eq!(s.subscription_tasks.len(), 1);
    assert_eq!(s.subscribed_characteristics.len(), 1);

    let second_char = s.connect_characteristic(key(7), fqcn(7, 3), subscribe_conf());
    assert_eq!(second_char.len(), 2);
    assert_eq!(s.subscription_tasks.len(), 1);
    assert_eq!(s.subscribed_characteristics.len(), 2);

    let p = s.connect_characteristic(key(7), fqcn(7, 2), poll_conf());
    assert_eq!(p.len(), 2);
    assert_eq!(s.poll_tasks.len(), 1);
    let p2 = s.connect_characteristic(key(7), fqcn(7, 2), poll_conf());
    assert_eq!(p2.len(), 0);
    assert_eq!(s.poll_tasks.len(), 1);
}

/// A notification whose fqcn is not routed is silently ignored.
#[test]
fn unknown_notification_is_ignored() {
    let mut s = PeripheralManagerState::new();
    s.connect_characteristic(key(7), fqcn(7, 1), subscribe_conf());
    assert!(s.route_notification(fqcn(7, 1)).is_some());
    assert!(s.route_notification(fqcn(7, 99)).is_none());
    assert!(s.route_notification(fqcn(8, 1)).is_none());
}

/// Disconnect clears every task and routing entry of the address and says
/// which handles to abort; other peripherals stay; a later connect works.
#[test]
fn disconnect_cleanup() {
    let mut s = PeripheralManagerState::new();
    s.connect_characteristic(key(7), fqcn(7, 1), subscribe_conf());
    s.connect_characteristic(key(7), fqcn(7, 2), poll_conf());
    s.connect_characteristic(key(9), fqcn(9, 2), poll_conf());
    assert_eq!(s.poll_tasks.len(), 2);
    assert_eq!(s.subscription_tasks.len(), 1);

    assert_eq!(s.connected_addresses().len(), 2);
    let aborted = s.handle_disconnect(7);
    assert_eq!(aborted.len(), 2);
    assert_eq!(s.connected_addresses(), vec![9]);
    assert!(s.poll_tasks.iter().all(|(f, _)| f.peripheral != 7));
    assert!(s.subscription_tasks.iter().all(|(a, _)| *a != 7));
    assert!(s.subscribed_characteristics.iter().all(|(f, _)| f.peripheral != 7));
    assert_eq!(s.poll_tasks.len(), 1);

    let again = s.connect_characteristic(key(7), fqcn(7, 1), subscribe_conf());
    assert_eq!(again.len(), 3);
}

#[test]
fn discovery_dispatch() {
    assert_eq!(classify_event(true, false, false), DiscoveryDecision::HandleDisconnect);
    assert_eq!(classify_event(false, true, true), DiscoveryDecision::SkipThrottled);
    assert_eq!(classify_event(false, false, false), DiscoveryDecision::SkipUnmatched);
    assert_eq!(classify_event(false, false, true), DiscoveryDecision::ConnectAll);
}

/// The latch releases its waiters only after every counted party arrived.
#[test]
fn countdown_latch_releases_at_count() {
    let mut latch = CountDownLatch::new(2);
    assert!(!latch.ready());
    latch.countdown();
    assert!(!latch.ready());
    latch.countdown();
    assert!(latch.ready());
    assert!(CountDownLatch::new(0).ready());
}

/// A batch's write is issued only after every asynchronous read subscribed
/// and counted down, and the log shows the order.
#[test]
fn batch_write_waits_for_subscribers() {
    let batch = PeripheralIoBatchRequestDto {
        commands: vec![
            IoCommand::Read { fqcn: fqcn(7, 1), wait_notification: true, timeout_ms: Some(500) },
            IoCommand::Write {
                fqcn: fqcn(7, 2),
                value: vec![0x01],
                wait_response: true,
                timeout_ms: None,
            },
        ],
        parallelism: Some(2),
    };
    let n = batch.get_async_reads_count();
    assert_eq!(n, 1);

    let mut c = BatchCoordinator::new(n);
    assert!(!c.can_write());
    c.record_subscribed(fqcn(7, 1));
    assert!(c.can_write());
    c.record_write(fqcn(7, 2));
    assert_eq!(
        c.log,
        vec![
            BatchEvent::Subscribed { fqcn: fqcn(7, 1) },
            BatchEvent::CountedDown { fqcn: fqcn(7, 1) },
            BatchEvent::WriteIssued { fqcn: fqcn(7, 2) },
        ]
    );
}

/// A write command with a zero timeout fails fast with a timeout error.
#[test]
fn zero_timeout_fails_fast() {
    let cmd = IoCommand::Write {
        fqcn: fqcn(7, 2),
        value: vec![1],
        wait_response: false,
        timeout_ms: Some(0),
    };
    let t = effective_timeout(&cmd, 5000);
    assert_eq!(t, 0);
    assert_eq!(check_deadline(t), Err(CollectorError::TimeoutError));
    assert_eq!(check_deadline(5000), Ok(5000));
}

#[test]
fn command_shapes() {
    let w = IoCommand::Write {
        fqcn: fqcn(1, 1),
        value: vec![],
        wait_response: true,
        timeout_ms: None,
    };
    assert_eq!(w.get_write_type(), WriteType::WithResponse);
    let r = IoCommand::Read { fqcn: fqcn(1, 1), wait_notification: false, timeout_ms: None };
    assert_eq!(r.get_write_type(), WriteType::WithoutResponse);
    assert_eq!(effective_timeout(&r, 5000), 5000);
    assert_eq!(effective_parallelism(&Some(4), 1), 4);
    assert_eq!(effective_parallelism(&None, 1), 1);

    assert_eq!(command_slot(true, Ok(vec![1, 2])), Some(ResultDto::Value(vec![1, 2])));
    assert_eq!(command_slot(false, Ok(vec![])), None);
    match command_slot(false, Err(CollectorError::TimeoutError)) {
        Some(ResultDto::Error { message }) => assert_eq!(message, "Timeout"),
        other => panic!("unexpected slot: {:?}", other),
    }
}

/// The keyed lock grants a key once, queues contenders, and evicts the
/// entry on last release.
#[test]
fn key_lock_exclusion_and_eviction() {
    let mut lock = KeyLock::new();
    assert!(lock.acquire(7));
    assert!(!lock.acquire(7));
    assert!(lock.acquire(9));
    lock.release(7);
    lock.release(7);
    lock.release(9);
    assert!(lock.entries.is_empty());
}

/// Within one window a stream of identical keys is accepted exactly once.
#[test]
fn debounce_single_pass_per_window() {
    let mut limiter = DebounceLimiter::new(30_000);
    let k = PeripheralKey {
        adapter_id: "hci0".to_string(),
        peripheral_address: 7,
        name: None,
    };
    let mut falses = 0;
    let mut t = 0u64;
    while t < 30_000 {
        if !limiter.throttle(&k, t, false) {
            falses += 1;
        }
        t += 1000;
    }
    assert_eq!(falses, 1);
    assert!(!limiter.throttle(&k, 30_000, false));
    assert!(limiter.throttle(&k, 30_001, true));
}

#[test]
fn cache_policy() {
    let mut cache = PeripheralCacheState::new(60_000);
    assert_eq!(cache.lookup(7, 0), CacheLookup::MissPopulate);
    assert!(cache.populate_due(0));
    cache.insert(7, 0);
    cache.mark_populated(0);
    assert_eq!(cache.lookup(7, 59_999), CacheLookup::Hit);
    assert_eq!(cache.lookup(7, 60_000), CacheLookup::MissPopulate);
    assert!(!cache.populate_due(59_999));
    assert!(cache.populate_due(60_000));
    cache.insert(9, 10);
    cache.evict_expired(60_005);
    assert_eq!(cache.lookup(9, 60_005), CacheLookup::Hit);
    assert_eq!(cache.entries.len(), 1);
}

/// An unknown adapter identifier is a not-found error naming it.
#[test]
fn adapter_not_found() {
    let adapters = vec![AdapterInfo { id: "hci0".to_string(), modalias: "usb".to_string() }];
    assert_eq!(find_adapter(&adapters, "hci0"), Ok(0));
    let err = find_adapter(&adapters, "hci42").unwrap_err();
    assert_eq!(err, CollectorError::AdapterNotFound("hci42".to_string()));
    assert!(err.message().contains("hci42"));
}
