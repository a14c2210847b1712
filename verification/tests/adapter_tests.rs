use storage_contract::mem::MemNorFlash;
use storage_contract::MultiWriteNorFlash;
use storage_contract::NorFlash;
use storage_contract::Reliability;
use storage_contract::Storage;
use storage_contract::StorageError;
use storage_contract::WriteBehavior;

fn nor_device() -> MemNorFlash {
    MemNorFlash::new(1, 2, 16, 64).expect("valid granularities and capacity")
}

#[test]
fn single_write_adapter_reports_fixed_constants() {
    let mut a = NorFlash::new(nor_device());
    let p = a.profile();
    assert_eq!(p.write_behavior, WriteBehavior::Once);
    assert_eq!(p.erase_value, 0xff);
    assert_eq!(p.reliability, Reliability::GoodDegrading);
    // the granularities describe the wrapped device
    assert_eq!(p.read_size, 1);
    assert_eq!(p.write_size, 2);
    assert_eq!(p.erase_size, 16);
    assert_eq!(a.capacity(), 64);
    // the constants are the same after any sequence of operations
    a.erase(0, 16).unwrap();
    a.write(0, &[1, 2]).unwrap();
    assert_eq!(a.profile(), p);
}

#[test]
fn multi_write_adapter_reports_fixed_constants() {
    let mut a = MultiWriteNorFlash::new(nor_device());
    let p = a.profile();
    assert_eq!(p.write_behavior, WriteBehavior::TwiceAnd);
    assert_eq!(p.erase_value, 0xff);
    assert_eq!(p.read_size, 1);
    assert_eq!(p.write_size, 2);
    assert_eq!(p.erase_size, 16);
    assert_eq!(a.capacity(), 64);
    a.erase(0, 16).unwrap();
    a.write(0, &[1, 2]).unwrap();
    assert_eq!(a.profile(), p);
}

#[test]
fn adapter_flush_always_succeeds_immediately() {
    let mut single = NorFlash::new(nor_device());
    assert!(single.flush().is_ok());
    assert!(single.flush().is_ok());
    let mut multi = MultiWriteNorFlash::new(nor_device());
    assert!(multi.flush().is_ok());
    assert!(multi.flush().is_ok());
}

#[test]
fn single_write_adapter_round_trip() {
    let mut a = NorFlash::new(nor_device());
    a.erase(0, 64).unwrap();
    let data = [0xde, 0xad, 0xbe, 0xef];
    a.write(8, &data).unwrap();
    let mut buf = vec![0u8; 4];
    a.read(8, &mut buf).unwrap();
    assert_eq!(buf, data.to_vec());
    // untouched bytes still hold the erase value
    let mut rest = vec![0u8; 8];
    a.read(0, &mut rest).unwrap();
    assert_eq!(rest[..8], [0xff, 0xff, 0xff, 0xff, 0xff, 0xff, 0xff, 0xff]);
}

#[test]
fn multi_write_adapter_and_combines() {
    let mut a = MultiWriteNorFlash::new(nor_device());
    a.erase(0, 16).unwrap();
    a.write(0, &[0x0f, 0xcc]).unwrap();
    a.write(0, &[0xf0, 0xaa]).unwrap();
    let mut buf = vec![0u8; 2];
    a.read(0, &mut buf).unwrap();
    assert_eq!(buf, vec![0x00, 0x88]);
}

#[test]
fn adapter_forwards_the_wrapped_devices_errors_unchanged() {
    let mut a = NorFlash::new(nor_device());
    let mut buf = vec![0u8; 4];
    // read granularity 1: any offset is aligned, bounds still checked
    assert_eq!(a.read(61, &mut buf), Err(StorageError::OutOfBounds));
    // write granularity 2
    assert_eq!(a.write(1, &[0, 0]), Err(StorageError::Alignment));
    assert_eq!(a.write(0, &[0]), Err(StorageError::Alignment));
    // erase granularity 16
    assert_eq!(a.erase(8, 32), Err(StorageError::Alignment));
    assert_eq!(a.erase(0, 80), Err(StorageError::OutOfBounds));
}

#[test]
fn nor_device_constructor_rejects_bad_arguments() {
    assert!(MemNorFlash::new(1, 1, 16, 64).is_some());
    assert!(MemNorFlash::new(0, 1, 16, 64).is_none());
    assert!(MemNorFlash::new(1, 0, 16, 64).is_none());
    assert!(MemNorFlash::new(1, 1, 0, 64).is_none());
    assert!(MemNorFlash::new(1, 1, 16, 60).is_none());
}
