use vstd::prelude::*;

verus! {

use std::sync::Arc;
use crate::conf::CharacteristicConfig;
use crate::converter::CharacteristicValue;
use crate::model::AdapterInfo;
use crate::model::Fqcn;
use crate::model::PeripheralKey;

/// One decoded reading: when it was made (epoch milliseconds), the typed
/// value, the routing key, the characteristic's configuration and the
/// adapter it came through. Immutable once constructed.
#[derive(Debug)]
pub struct CharacteristicPayload {
    pub created_at: u64,
    pub value: Arc<CharacteristicValue>,
    pub fqcn: Fqcn,
    pub conf: Arc<CharacteristicConfig>,
    pub adapter_info: Arc<AdapterInfo>,
}

/// Asks downstream publishers to announce one newly connected characteristic.
#[derive(Debug)]
pub struct ConnectPeripheralRequest {
    pub peripheral_key: Arc<PeripheralKey>,
    pub fqcn: Fqcn,
    pub conf: Arc<CharacteristicConfig>,
}

/// The unit transferred on the fan-out bus.
#[derive(Debug)]
pub enum CollectorEvent {
    Payload(Arc<CharacteristicPayload>),
    Connect(ConnectPeripheralRequest),
    Disconnect(Fqcn, Arc<CharacteristicConfig>),
}

impl Clone for ConnectPeripheralRequest {
    fn clone(&self) -> (r: Self)
        ensures
            r == *self,
    {
        ConnectPeripheralRequest {
            peripheral_key: crate::model::arc_clone(&self.peripheral_key),
            fqcn: self.fqcn,
            conf: crate::model::arc_clone(&self.conf),
        }
    }
}

impl Clone for CollectorEvent {
    fn clone(&self) -> (r: Self)
        ensures
            r == *self,
    {
        match self {
            CollectorEvent::Payload(p) => CollectorEvent::Payload(crate::model::arc_clone(p)),
            CollectorEvent::Connect(req) => CollectorEvent::Connect(req.clone()),
            CollectorEvent::Disconnect(f, c) => CollectorEvent::Disconnect(
                *f,
                crate::model::arc_clone(c),
            ),
        }
    }
}

} // verus!
