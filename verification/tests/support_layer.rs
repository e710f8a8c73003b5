//! Tests for the support layer: path specifications, the audit log, DOS
//! dates and times, and the two device adapters.

use fatrs::audit::{AuditConfig, AuditEntry, AuditLog, AuditOperation, AuditResult};
use fatrs::device::BlockDevice;
use fatrs::header_rotating::{HeaderRotatingDevice, HeaderRotationConfig};
use fatrs::nor_flash::{NorFlashAdapter, NorFlashConfig};
use fatrs::path_parser::{parse_copy_operation, PathSpec};
use fatrs::time::{Date, DateTime, Time};

#[test]
fn test_parse_image_path() {
    let spec = PathSpec::parse("test.img:file.txt").unwrap();
    match spec {
        PathSpec::ImagePath { image, path } => {
            assert_eq!(image, "test.img");
            assert_eq!(path, "file.txt");
        }
        _ => panic!("Expected ImagePath"),
    }
}

#[test]
fn test_parse_image_path_with_subdirs() {
    let spec = PathSpec::parse("test.img:dir/subdir/file.txt").unwrap();
    match spec {
        PathSpec::ImagePath { image, path } => {
            assert_eq!(image, "test.img");
            assert_eq!(path, "dir/subdir/file.txt");
        }
        _ => panic!("Expected ImagePath"),
    }
}

#[test]
fn test_parse_host_path() {
    let spec = PathSpec::parse("./file.txt").unwrap();
    assert!(matches!(spec, PathSpec::HostPath(_)));

    let spec = PathSpec::parse("/usr/local/file.txt").unwrap();
    assert!(matches!(spec, PathSpec::HostPath(_)));
}

#[test]
fn test_parse_with_default_image() {
    let spec = PathSpec::parse_with_default_image("file.txt", "default.img").unwrap();
    match spec {
        PathSpec::ImagePath { image, path } => {
            assert_eq!(image, "default.img");
            assert_eq!(path, "file.txt");
        }
        _ => panic!("Expected ImagePath"),
    }
}

#[test]
fn test_parse_with_default_image_explicit() {
    let spec = PathSpec::parse_with_default_image("other.img:file.txt", "default.img").unwrap();
    match spec {
        PathSpec::ImagePath { image, path } => {
            assert_eq!(image, "other.img");
            assert_eq!(path, "file.txt");
        }
        _ => panic!("Expected ImagePath"),
    }
}

#[test]
fn test_parse_copy_operation_valid() {
    let (src, dst) = parse_copy_operation("host.txt", "image.img:dest.txt").unwrap();
    assert!(src.is_host_path());
    assert!(dst.is_image_path());
}

#[test]
fn test_parse_copy_operation_same_image() {
    let result = parse_copy_operation("test.img:src.txt", "test.img:dest.txt");
    assert!(result.is_err());
    assert!(result.unwrap_err().contains("same image"));
}

#[test]
fn test_parse_copy_operation_both_host() {
    let result = parse_copy_operation("./src.txt", "./dest.txt");
    assert!(result.is_err());
    assert!(result.unwrap_err().contains("host filesystem"));
}

#[test]
fn test_audit_entry_paths() {
    let mut entry = AuditEntry::new(
        1000,
        AuditOperation::FileCreate,
        AuditResult::Success,
        "/test/file.txt",
    );

    assert_eq!(entry.get_path(), "/test/file.txt");
    assert_eq!(entry.get_path2(), None);

    entry.set_path2("/test/renamed.txt");
    assert_eq!(entry.get_path2(), Some("/test/renamed.txt"));
}

#[test]
fn test_audit_log_buffer() {
    let mut log = AuditLog::new(AuditConfig::default());
    assert!(log.is_empty());

    log.log(AuditEntry::new(
        1000,
        AuditOperation::FileCreate,
        AuditResult::Success,
        "/test.txt",
    ));

    assert_eq!(log.len(), 1);
    assert!(!log.is_empty());

    log.clear();
    assert!(log.is_empty());
}

#[test]
fn test_audit_log_overflow() {
    let mut log = AuditLog::new(AuditConfig::default());

    for i in 0..20 {
        log.log(AuditEntry::new(
            i as u64,
            AuditOperation::FileCreate,
            AuditResult::Success,
            "/test.txt",
        ));
    }

    assert_eq!(log.len(), 16);

    let entries = log.entries();
    assert_eq!(entries[0].timestamp, 4);
}

#[test]
fn date_new_no_panic_1980() {
    let _ = Date::new(1980, 1, 1);
}

#[test]
fn date_new_no_panic_2107() {
    let _ = Date::new(2107, 12, 31);
}

#[test]
fn date_encode_decode() {
    let d = Date::new(2055, 7, 23);
    let x = d.encode();
    assert_eq!(x, 38647);
    assert_eq!(d, Date::decode(x));
}

#[test]
fn time_encode_decode() {
    let t1 = Time::new(15, 3, 29, 990);
    let t2 = Time { sec: 18, ..t1 };
    let t3 = Time { millis: 40, ..t1 };
    let (x1, y1) = t1.encode();
    let (x2, y2) = t2.encode();
    let (x3, y3) = t3.encode();
    assert_eq!((x1, y1), (30830, 199));
    assert_eq!((x2, y2), (30825, 99));
    assert_eq!((x3, y3), (30830, 104));
    assert_eq!(t1, Time::decode(x1, y1));
    assert_eq!(t2, Time::decode(x2, y2));
    assert_eq!(t3, Time::decode(x3, y3));
}

#[test]
fn datetime_to_unix_timestamp() {
    assert_eq!(
        DateTime::new(Date::new(1980, 1, 1), Time::new(0, 0, 0, 0)).to_unix_timestamp(),
        315532800
    );

    assert_eq!(
        DateTime::new(Date::new(2024, 1, 1), Time::new(0, 0, 0, 0)).to_unix_timestamp(),
        1704067200
    );

    assert_eq!(
        DateTime::new(Date::new(2024, 6, 15), Time::new(12, 30, 45, 0)).to_unix_timestamp(),
        1718454645
    );

    assert_eq!(
        DateTime::new(Date::new(2000, 2, 29), Time::new(0, 0, 0, 0)).to_unix_timestamp(),
        951782400
    );
}

#[test]
fn test_logical_to_physical_mapping() {
    let device = BlockDevice::new(4096, 16);
    let config = HeaderRotationConfig::new(4);
    let rotating = HeaderRotatingDevice::new(device, config);

    assert_eq!(rotating.logical_to_physical(0), 0);

    assert_eq!(rotating.logical_to_physical(1), 4);
    assert_eq!(rotating.logical_to_physical(2), 5);
    assert_eq!(rotating.logical_to_physical(10), 13);
}

#[test]
fn test_size_reports_logical_size() {
    let device = BlockDevice::new(4096, 16);
    let config = HeaderRotationConfig::new(4);
    let rotating = HeaderRotatingDevice::new(device, config);

    let physical_size = 16 * 4096 as u64;
    let expected_logical = physical_size - (3 * 4096 as u64);

    let size = rotating.size();
    assert_eq!(size, expected_logical);
}

#[test]
fn test_set_current_slot() {
    let device = BlockDevice::new(4096, 16);
    let config = HeaderRotationConfig::new(4);
    let mut rotating = HeaderRotatingDevice::new(device, config);

    rotating.set_current_slot(2);
    assert_eq!(rotating.current_slot(), 2);
    assert_eq!(rotating.logical_to_physical(0), 2);
}

#[test]
fn header_rotating_device_test_config_presets() {
    let default = HeaderRotationConfig::default();
    assert_eq!(default.rotation_pages(), 4);

    let no_rot = HeaderRotationConfig::no_rotation();
    assert_eq!(no_rot.rotation_pages(), 1);

    let custom = HeaderRotationConfig::new(8);
    assert_eq!(custom.rotation_pages(), 8);
}

#[test]
fn test_header_rotation_on_write() {
    let device = BlockDevice::new(4096, 16);
    let config = HeaderRotationConfig::new(4);
    let mut rotating = HeaderRotatingDevice::new(device, config);

    let write_buf = vec![42u8; 4096];

    rotating.write(0, &write_buf).unwrap();
    assert_eq!(rotating.current_slot(), 1);

    rotating.write(0, &write_buf).unwrap();
    assert_eq!(rotating.current_slot(), 2);

    rotating.write(0, &write_buf).unwrap();
    assert_eq!(rotating.current_slot(), 3);

    rotating.write(0, &write_buf).unwrap();
    assert_eq!(rotating.current_slot(), 0);
}

#[test]
fn test_data_page_write_no_rotation() {
    let device = BlockDevice::new(4096, 16);
    let config = HeaderRotationConfig::new(4);
    let mut rotating = HeaderRotatingDevice::new(device, config);

    let initial_slot = rotating.current_slot();

    let write_buf = vec![42u8; 4096];
    rotating.write(1, &write_buf).unwrap();

    assert_eq!(rotating.current_slot(), initial_slot);
}

#[test]
fn test_read_header_slot() {
    let mut device = BlockDevice::new(4096, 16);
    // Mark physical slot 2.
    let mut marker = vec![0u8; 4096];
    marker[0] = 0xAB;
    marker[1] = 0xCD;
    device.write_blocks(2, &marker);

    let config = HeaderRotationConfig::new(4);
    let rotating = HeaderRotatingDevice::new(device, config);

    let read_buf = rotating.read_header_slot(2).unwrap();
    assert_eq!(read_buf[0], 0xAB);
    assert_eq!(read_buf[1], 0xCD);
}

#[test]
fn test_read_through_wrapper() {
    let mut device = BlockDevice::new(4096, 16);
    let mut b = vec![0u8; 4096];
    b[0] = 0x11;
    device.write_blocks(0, &b);
    b[0] = 0x22;
    device.write_blocks(4, &b);
    b[0] = 0x33;
    device.write_blocks(5, &b);

    let config = HeaderRotationConfig::new(4);
    let rotating = HeaderRotatingDevice::new(device, config);

    assert_eq!(rotating.read(0).unwrap()[0], 0x11);
    assert_eq!(rotating.read(1).unwrap()[0], 0x22);
    assert_eq!(rotating.read(2).unwrap()[0], 0x33);
}

#[test]
fn test_write_data_to_correct_physical_page() {
    let device = BlockDevice::new(4096, 16);
    let config = HeaderRotationConfig::new(4);
    let mut rotating = HeaderRotatingDevice::new(device, config);

    let write_buf = vec![0x42u8; 4096];
    rotating.write(1, &write_buf).unwrap();

    let read_buf = rotating.read(1).unwrap();
    assert_eq!(read_buf[0], 0x42);
}

#[test]
fn test_nor_flash_adapter_read_write() {
    let flash = BlockDevice::new(4096, 16);
    let config = NorFlashConfig::new(0, 16);
    let mut adapter = NorFlashAdapter::new(flash, config);

    let write_buf = vec![42u8; 4096];
    adapter.write(1, &write_buf).unwrap();

    let read_buf = adapter.read(1).unwrap();
    assert_eq!(read_buf[0], 42);
    assert_eq!(read_buf[4096 - 1], 42);
}

#[test]
fn test_nor_flash_adapter_size() {
    let flash = BlockDevice::new(4096, 64);
    let config = NorFlashConfig::new(0, 64);
    let adapter = NorFlashAdapter::new(flash, config);

    let size = adapter.size();
    assert_eq!(size, 64 * 4096 as u64);
}

#[test]
fn nor_flash_adapter_test_config_presets() {
    let config_4mb = NorFlashConfig::default_4mb();
    assert_eq!(config_4mb.start_offset, 0x3C_0000);
    assert_eq!(config_4mb.page_count, 64);

    let config_16mb = NorFlashConfig::default_16mb();
    assert_eq!(config_16mb.start_offset, 0xF0_0000);
    assert_eq!(config_16mb.page_count, 256);
}
