use brewster::firmware::error::{FirmwareError, SensorError, StorageError};
use brewster::firmware::status::SensorStatus;

#[test]
fn sensor_to_firmware_error() {
    let sensor_err = SensorError::BusStuckLow;
    let fw_err: FirmwareError = sensor_err.into();
    assert!(matches!(fw_err, FirmwareError::Sensor(SensorError::BusStuckLow)));
}

#[test]
fn storage_to_firmware_error() {
    let storage_err = StorageError::NotInitialized;
    let fw_err: FirmwareError = storage_err.into();
    assert!(matches!(fw_err, FirmwareError::Storage(StorageError::NotInitialized)));
}

#[test]
fn flash_errors_are_carried_through() {
    let err: StorageError = esp_storage::FlashStorageError::OutOfBounds.into();
    assert!(matches!(
        err,
        StorageError::Flash(esp_storage::FlashStorageError::OutOfBounds)
    ));
    let err: FirmwareError = esp_storage::FlashStorageError::NotAligned.into();
    assert!(matches!(
        err,
        FirmwareError::Storage(StorageError::Flash(esp_storage::FlashStorageError::NotAligned))
    ));
}

#[test]
fn sensor_errors_have_a_status() {
    assert_eq!(SensorStatus::from(SensorError::BusStuckLow).label(), "bus_stuck_low");
    assert_eq!(SensorStatus::from(SensorError::NoDevice).label(), "no_device");
    assert_eq!(SensorStatus::from(SensorError::CrcMismatch).label(), "crc_mismatch");
    for code in 0..4u8 {
        assert_eq!(SensorStatus::from_u8(code).code(), code);
    }
}

#[test]
fn a_sensor_error_says_nothing_of_storage() {
    let err: StorageError = SensorError::NoDevice.into();
    assert!(matches!(err, StorageError::NotInitialized));
}
