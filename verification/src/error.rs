use vstd::prelude::*;

verus! {

use vstd::string::StringExecFns;
use crate::converter::ConversionError;
use crate::model::spec_uuid_str;
use crate::model::uuid_to_string;
use crate::model::ServiceCharacteristicKey;

/// Every failure the collector can report.
#[derive(Debug, Clone, PartialEq)]
pub enum CollectorError {
    /// The platform BLE driver failed; carries the driver's own description.
    BleDriverError(String),
    /// A fan-out channel was closed under the sender.
    ChannelSendError,
    /// An event or notification stream ended.
    EndOfStream,
    IoError(String),
    SerializationError(String),
    /// Two peripheral configurations share one name.
    DuplicateConfiguration(String),
    /// One service UUID is declared twice within a peripheral.
    DuplicateServiceConfiguration(u128),
    /// One (service, characteristic) pair is configured twice.
    DuplicateCharacteristicConfiguration(ServiceCharacteristicKey),
    /// A task found a characteristic configuration of the wrong variant.
    UnexpectedCharacteristicConfiguration,
    ConversionError(ConversionError),
    TimeoutError,
    JoinError,
    /// No radio adapter is registered under the requested identifier.
    AdapterNotFound(String),
    UnexpectedIoCommand,
    /// The characteristic carries no MQTT section.
    NoMqttConfig,
    /// The MQTT section carries no discovery block.
    NoMqttDiscoveryConfig,
    InvalidMqttConfig,
    /// A topic or payload template failed to evaluate: the expression and
    /// the engine's description of the failure.
    EvalError(String, String),
    AcquireError,
}

pub type CollectorResult<T> = Result<T, CollectorError>;

impl ConversionError {
    /// A short, stable description of the decode failure.
    pub open spec fn spec_message(self) -> Seq<char> {
        match self {
            ConversionError::LenMismatch { .. } => "Unexpected value length"@,
            ConversionError::BigIntCastError => "Big integer conversion error"@,
            ConversionError::BigUintCastError => "Big unsigned integer conversion error"@,
            ConversionError::Utf8Error => "Utf8 conversion error"@,
        }
    }

    pub fn message(&self) -> (r: String)
        ensures
            r@ == self.spec_message(),
    {
        match self {
            ConversionError::LenMismatch { .. } => String::from_str("Unexpected value length"),
            ConversionError::BigIntCastError => String::from_str("Big integer conversion error"),
            ConversionError::BigUintCastError => String::from_str(
                "Big unsigned integer conversion error",
            ),
            ConversionError::Utf8Error => String::from_str("Utf8 conversion error"),
        }
    }
}

impl CollectorError {
    /// A human-readable description; the variants that carry an identifier
    /// repeat it verbatim so that a caller's report names the culprit.
    pub open spec fn spec_message(self) -> Seq<char> {
        match self {
            CollectorError::BleDriverError(s) => "Bluetooth error: "@ + s@,
            CollectorError::ChannelSendError => "Channel send error"@,
            CollectorError::EndOfStream => "End of stream"@,
            CollectorError::IoError(s) => "IoError: "@ + s@,
            CollectorError::SerializationError(s) => "Serialization Error: "@ + s@,
            CollectorError::DuplicateConfiguration(s) => "Duplicate configuration: "@ + s@,
            CollectorError::DuplicateServiceConfiguration(u) => "Duplicate service configuration "@
                + spec_uuid_str(u),
            CollectorError::DuplicateCharacteristicConfiguration(k) =>
                "Duplicate characteristic configuration "@ + spec_uuid_str(k.service_uuid) + ":"@
                + spec_uuid_str(k.characteristic_uuid),
            CollectorError::UnexpectedCharacteristicConfiguration =>
                "Unexpected characteristic configuration type"@,
            CollectorError::ConversionError(e) => "Conversion error: "@ + e.spec_message(),
            CollectorError::TimeoutError => "Timeout"@,
            CollectorError::JoinError => "Join Error"@,
            CollectorError::AdapterNotFound(s) => "Adapter `"@ + s@ + "` not found"@,
            CollectorError::UnexpectedIoCommand => "Unexpected IO command"@,
            CollectorError::NoMqttConfig => "No MQTT configuration"@,
            CollectorError::NoMqttDiscoveryConfig => "No MQTT discovery configuration"@,
            CollectorError::InvalidMqttConfig => "Invalid MQTT configuration"@,
            CollectorError::EvalError(e, m) => "Failed to evaluate `"@ + e@ + "`: "@ + m@,
            CollectorError::AcquireError => "Acquire error"@,
        }
    }

    pub fn message(&self) -> (r: String)
        ensures
            r@ == self.spec_message(),
    {
        match self {
            CollectorError::BleDriverError(s) => String::from_str("Bluetooth error: ").concat(
                s.as_str(),
            ),
            CollectorError::ChannelSendError => String::from_str("Channel send error"),
            CollectorError::EndOfStream => String::from_str("End of stream"),
            CollectorError::IoError(s) => String::from_str("IoError: ").concat(s.as_str()),
            CollectorError::SerializationError(s) => String::from_str(
                "Serialization Error: ",
            ).concat(s.as_str()),
            CollectorError::DuplicateConfiguration(s) => String::from_str(
                "Duplicate configuration: ",
            ).concat(s.as_str()),
            CollectorError::DuplicateServiceConfiguration(u) => {
                let t = uuid_to_string(*u);
                String::from_str("Duplicate service configuration ").concat(t.as_str())
            },
            CollectorError::DuplicateCharacteristicConfiguration(k) => {
                let s = uuid_to_string(k.service_uuid);
                let c = uuid_to_string(k.characteristic_uuid);
                String::from_str("Duplicate characteristic configuration ").concat(
                    s.as_str(),
                ).concat(":").concat(c.as_str())
            },
            CollectorError::UnexpectedCharacteristicConfiguration => String::from_str(
                "Unexpected characteristic configuration type",
            ),
            CollectorError::ConversionError(e) => {
                let m = e.message();
                String::from_str("Conversion error: ").concat(m.as_str())
            },
            CollectorError::TimeoutError => String::from_str("Timeout"),
            CollectorError::JoinError => String::from_str("Join Error"),
            CollectorError::AdapterNotFound(s) => String::from_str("Adapter `").concat(
                s.as_str(),
            ).concat("` not found"),
            CollectorError::UnexpectedIoCommand => String::from_str("Unexpected IO command"),
            CollectorError::NoMqttConfig => String::from_str("No MQTT configuration"),
            CollectorError::NoMqttDiscoveryConfig => String::from_str(
                "No MQTT discovery configuration",
            ),
            CollectorError::InvalidMqttConfig => String::from_str("Invalid MQTT configuration"),
            CollectorError::EvalError(e, m) => String::from_str("Failed to evaluate `").concat(
                e.as_str(),
            ).concat("`: ").concat(m.as_str()),
            CollectorError::AcquireError => String::from_str("Acquire error"),
        }
    }
}

} // verus!
