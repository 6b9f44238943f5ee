//! Error types of the firmware.
//!
//! `FirmwareError` joins the errors of every subsystem, so that callers can
//! handle them in one place.

use vstd::prelude::*;

verus! {

/// `esp_storage::FlashStorageError`, carried through unread.
#[verifier::external_type_specification]
#[verifier::external_body]
pub struct ExFlashStorageError(esp_storage::FlashStorageError);

/// An error of any subsystem of the firmware.
#[derive(Clone, Copy, Debug)]
pub enum FirmwareError {
    /// One-wire sensor communication error.
    Sensor(SensorError),
    /// Persistent storage (flash) error.
    Storage(StorageError),
}

/// One-wire temperature sensor errors.
#[derive(Clone, Copy, Debug, PartialEq, Eq, Structural)]
pub enum SensorError {
    /// One-wire bus stuck at logical low (device not responding or shorted).
    BusStuckLow,
    /// No device detected on the bus.
    NoDevice,
    /// Temperature reading failed CRC validation.
    CrcMismatch,
}

/// Persistent storage (flash) errors.
#[derive(Clone, Copy, Debug)]
pub enum StorageError {
    /// Storage subsystem not initialized.
    NotInitialized,
    /// Requested partition missing from partition table.
    MissingPartition,
    /// Partition too small for data.
    PartitionTooSmall,
    /// Value out of valid range for storage.
    OutOfRange,
    /// Low-level flash operation failed.
    Flash(esp_storage::FlashStorageError),
}

impl vstd::std_specs::convert::FromSpecImpl<esp_storage::FlashStorageError> for StorageError {
    open spec fn obeys_from_spec() -> bool {
        true
    }

    open spec fn from_spec(error: esp_storage::FlashStorageError) -> Self {
        StorageError::Flash(error)
    }
}

impl From<esp_storage::FlashStorageError> for StorageError {
    fn from(error: esp_storage::FlashStorageError) -> (r: Self) {
        StorageError::Flash(error)
    }
}

impl vstd::std_specs::convert::FromSpecImpl<SensorError> for FirmwareError {
    open spec fn obeys_from_spec() -> bool {
        true
    }

    open spec fn from_spec(error: SensorError) -> Self {
        FirmwareError::Sensor(error)
    }
}

impl From<SensorError> for FirmwareError {
    fn from(error: SensorError) -> (r: Self) {
        FirmwareError::Sensor(error)
    }
}

impl vstd::std_specs::convert::FromSpecImpl<StorageError> for FirmwareError {
    open spec fn obeys_from_spec() -> bool {
        true
    }

    open spec fn from_spec(error: StorageError) -> Self {
        FirmwareError::Storage(error)
    }
}

impl From<StorageError> for FirmwareError {
    fn from(error: StorageError) -> (r: Self) {
        FirmwareError::Storage(error)
    }
}

impl vstd::std_specs::convert::FromSpecImpl<esp_storage::FlashStorageError> for FirmwareError {
    open spec fn obeys_from_spec() -> bool {
        true
    }

    open spec fn from_spec(error: esp_storage::FlashStorageError) -> Self {
        FirmwareError::Storage(StorageError::Flash(error))
    }
}

impl From<esp_storage::FlashStorageError> for FirmwareError {
    fn from(error: esp_storage::FlashStorageError) -> (r: Self) {
        FirmwareError::Storage(StorageError::Flash(error))
    }
}

impl vstd::std_specs::convert::FromSpecImpl<SensorError> for StorageError {
    open spec fn obeys_from_spec() -> bool {
        true
    }

    open spec fn from_spec(error: SensorError) -> Self {
        StorageError::NotInitialized
    }
}

/// A sensor error has no storage meaning of its own: storage was never reached.
impl From<SensorError> for StorageError {
    fn from(_error: SensorError) -> (r: Self) {
        StorageError::NotInitialized
    }
}

} // verus!
