use storage_contract::DeviceProfile;
use storage_contract::MemStorage;
use storage_contract::Reliability;
use storage_contract::Storage;
use storage_contract::StorageError;
use storage_contract::WriteBehavior;

fn profile(
    read_size: usize,
    write_size: usize,
    erase_size: usize,
    erase_value: u8,
    write_behavior: WriteBehavior,
) -> DeviceProfile {
    DeviceProfile {
        read_size,
        write_size,
        erase_size,
        erase_value,
        write_behavior,
        reliability: Reliability::Good,
    }
}

fn device(p: DeviceProfile, capacity: usize) -> MemStorage {
    MemStorage::new(p, capacity).expect("valid profile and capacity")
}

#[test]
fn capacity_constant_across_calls() {
    let mut s = device(profile(1, 1, 16, 0xff, WriteBehavior::InfiniteDirect), 64);
    let c0 = s.capacity();
    assert_eq!(c0, 64);
    for _ in 0..10 {
        assert_eq!(s.capacity(), c0);
    }
    s.erase(0, 16).unwrap();
    assert_eq!(s.capacity(), c0);
    s.write(0, &[1, 2, 3, 4]).unwrap();
    assert_eq!(s.capacity(), c0);
    let mut buf = vec![0u8; 4];
    s.read(0, &mut buf).unwrap();
    assert_eq!(s.capacity(), c0);
    s.flush().unwrap();
    assert_eq!(s.capacity(), c0);
}

#[test]
fn read_succeeds_iff_aligned_and_in_bounds() {
    let mut s = device(profile(4, 1, 8, 0xff, WriteBehavior::InfiniteDirect), 32);
    let mut buf = vec![0u8; 4];
    assert!(s.read(0, &mut buf).is_ok());
    assert!(s.read(28, &mut buf).is_ok());
    // misaligned offset
    assert_eq!(s.read(2, &mut buf), Err(StorageError::Alignment));
    // misaligned length
    let mut odd = vec![0u8; 3];
    assert_eq!(s.read(0, &mut odd), Err(StorageError::Alignment));
    // beyond capacity
    assert_eq!(s.read(32, &mut buf), Err(StorageError::OutOfBounds));
    // zero-length read at the very end is aligned and in bounds
    let mut empty: Vec<u8> = Vec::new();
    assert!(s.read(32, &mut empty).is_ok());
}

#[test]
fn erase_succeeds_iff_aligned_and_ordered_and_in_bounds() {
    let mut s = device(profile(1, 1, 8, 0x00, WriteBehavior::InfiniteDirect), 32);
    assert!(s.erase(0, 8).is_ok());
    assert!(s.erase(8, 32).is_ok());
    assert!(s.erase(16, 16).is_ok());
    assert_eq!(s.erase(4, 8), Err(StorageError::Alignment));
    assert_eq!(s.erase(0, 12), Err(StorageError::Alignment));
    assert_eq!(s.erase(16, 8), Err(StorageError::Alignment));
    assert_eq!(s.erase(0, 40), Err(StorageError::OutOfBounds));
}

#[test]
fn erase_reads_back_erase_value() {
    let mut s = device(profile(1, 1, 8, 0x5a, WriteBehavior::InfiniteDirect), 32);
    s.write(0, &[1, 2, 3, 4, 5, 6, 7, 8]).unwrap();
    s.erase(0, 8).unwrap();
    let mut buf = vec![0u8; 8];
    s.read(0, &mut buf).unwrap();
    assert_eq!(buf, vec![0x5a; 8]);
}

#[test]
fn write_succeeds_iff_aligned_and_in_bounds() {
    let mut s = device(profile(1, 4, 8, 0xff, WriteBehavior::InfiniteDirect), 32);
    assert!(s.write(0, &[1, 2, 3, 4]).is_ok());
    assert!(s.write(28, &[1, 2, 3, 4]).is_ok());
    assert_eq!(s.write(2, &[1, 2, 3, 4]), Err(StorageError::Alignment));
    assert_eq!(s.write(0, &[1, 2, 3]), Err(StorageError::Alignment));
    assert_eq!(s.write(32, &[1, 2, 3, 4]), Err(StorageError::OutOfBounds));
}

#[test]
fn rejected_operations_change_nothing() {
    let mut s = device(profile(4, 4, 8, 0xff, WriteBehavior::InfiniteDirect), 16);
    s.erase(0, 16).unwrap();
    s.write(0, &[9, 9, 9, 9]).unwrap();
    // a rejected write must not partially execute
    assert!(s.write(2, &[0, 0, 0, 0]).is_err());
    assert!(s.erase(4, 12).is_err());
    let mut buf = vec![0u8; 4];
    s.read(0, &mut buf).unwrap();
    assert_eq!(buf, vec![9, 9, 9, 9]);
    // a rejected read leaves the buffer untouched
    let mut untouched = vec![7u8; 3];
    assert!(s.read(0, &mut untouched).is_err());
    assert_eq!(untouched, vec![7u8; 3]);
}

#[test]
fn first_write_round_trip_all_behaviors() {
    let behaviors = [
        WriteBehavior::Once,
        WriteBehavior::TwiceSecondZero,
        WriteBehavior::TwiceAnd,
        WriteBehavior::InfiniteAnd,
        WriteBehavior::InfiniteDirect,
    ];
    for b in behaviors {
        let mut s = device(profile(1, 1, 16, 0xff, b), 64);
        s.erase(0, 16).unwrap();
        let data = [0x12, 0x34, 0x56, 0x78];
        s.write(4, &data).unwrap();
        let mut buf = vec![0u8; 4];
        s.read(4, &mut buf).unwrap();
        assert_eq!(buf, data.to_vec());
    }
}

#[test]
fn and_combining_two_writes() {
    for b in [WriteBehavior::TwiceAnd, WriteBehavior::InfiniteAnd] {
        let mut s = device(profile(1, 1, 16, 0xff, b), 16);
        s.erase(0, 16).unwrap();
        s.write(0, &[0b1100_1100, 0xf0]).unwrap();
        s.write(0, &[0b1010_1010, 0x3c]).unwrap();
        let mut buf = vec![0u8; 2];
        s.read(0, &mut buf).unwrap();
        assert_eq!(buf, vec![0b1000_1000, 0x30]);
    }
}

#[test]
fn direct_write_overwrites() {
    let mut s = device(profile(1, 1, 16, 0xff, WriteBehavior::InfiniteDirect), 16);
    s.erase(0, 16).unwrap();
    s.write(0, &[0x0f]).unwrap();
    s.write(0, &[0xf0]).unwrap();
    let mut buf = vec![0u8; 1];
    s.read(0, &mut buf).unwrap();
    assert_eq!(buf, vec![0xf0]);
}

#[test]
fn flush_twice_is_idempotent_and_succeeds() {
    let mut s = device(profile(1, 1, 8, 0xff, WriteBehavior::InfiniteDirect), 16);
    s.erase(0, 16).unwrap();
    s.write(0, &[1, 2]).unwrap();
    assert!(s.flush().is_ok());
    assert!(s.flush().is_ok());
    let mut buf = vec![0u8; 2];
    s.read(0, &mut buf).unwrap();
    assert_eq!(buf, vec![1, 2]);
}

#[test]
fn scenario_erase_write_read() {
    let mut s = device(profile(1, 1, 256, 0xff, WriteBehavior::Once), 4096);
    assert_eq!(s.capacity(), 4096);
    s.erase(0, 256).unwrap();
    s.write(0, &[0xaa, 0xaa, 0xaa, 0xaa]).unwrap();
    let mut buf = vec![0u8; 4];
    s.read(0, &mut buf).unwrap();
    assert_eq!(buf, vec![0xaa, 0xaa, 0xaa, 0xaa]);
}

#[test]
fn scenario_infinite_and_combines_to_zero() {
    let mut s = device(profile(1, 1, 16, 0xff, WriteBehavior::InfiniteAnd), 16);
    s.erase(0, 16).unwrap();
    s.write(0, &[0x0f]).unwrap();
    s.write(0, &[0xf0]).unwrap();
    let mut buf = vec![0u8; 1];
    s.read(0, &mut buf).unwrap();
    assert_eq!(buf, vec![0x00]);
}

#[test]
fn scenario_misaligned_read_offset() {
    let mut s = device(profile(4, 1, 16, 0xff, WriteBehavior::InfiniteDirect), 64);
    let mut buf = vec![0u8; 4];
    assert_eq!(s.read(3, &mut buf), Err(StorageError::Alignment));
}

#[test]
fn scenario_misaligned_erase_bounds() {
    let mut s = device(profile(1, 1, 16, 0xff, WriteBehavior::InfiniteDirect), 64);
    assert_eq!(s.erase(10, 20), Err(StorageError::Alignment));
}

#[test]
fn constructor_rejects_bad_arguments() {
    let good = profile(1, 1, 16, 0xff, WriteBehavior::Once);
    assert!(MemStorage::new(good, 64).is_some());
    // capacity not partitioned by the erase size
    assert!(MemStorage::new(good, 65).is_none());
    let mut zero_read = good;
    zero_read.read_size = 0;
    assert!(MemStorage::new(zero_read, 64).is_none());
    let mut zero_write = good;
    zero_write.write_size = 0;
    assert!(MemStorage::new(zero_write, 64).is_none());
    let mut zero_erase = good;
    zero_erase.erase_size = 0;
    assert!(MemStorage::new(zero_erase, 64).is_none());
}

#[test]
fn zero_length_operations_are_valid() {
    let mut s = device(profile(4, 4, 8, 0xff, WriteBehavior::Once), 16);
    let mut empty: Vec<u8> = Vec::new();
    assert!(s.read(0, &mut empty).is_ok());
    assert!(s.write(16, &[]).is_ok());
    assert!(s.erase(8, 8).is_ok());
}

#[test]
fn operations_over_the_whole_device() {
    let mut s = device(profile(1, 1, 8, 0xff, WriteBehavior::InfiniteDirect), 16);
    s.erase(0, 16).unwrap();
    let data: Vec<u8> = (0..16u8).collect();
    s.write(0, &data).unwrap();
    let mut buf = vec![0u8; 16];
    s.read(0, &mut buf).unwrap();
    assert_eq!(buf, data);
}

#[test]
fn second_write_of_zeroes_clears_bytes() {
    let mut s = device(profile(1, 1, 16, 0xff, WriteBehavior::TwiceSecondZero), 16);
    s.erase(0, 16).unwrap();
    s.write(0, &[0x55, 0x66]).unwrap();
    s.write(0, &[0x00, 0x00]).unwrap();
    let mut buf = vec![0u8; 2];
    s.read(0, &mut buf).unwrap();
    assert_eq!(buf, vec![0x00, 0x00]);
}

#[test]
fn write_only_affects_the_addressed_range() {
    let mut s = device(profile(1, 1, 8, 0xee, WriteBehavior::InfiniteDirect), 16);
    s.erase(0, 16).unwrap();
    s.write(4, &[1, 2]).unwrap();
    let mut buf = vec![0u8; 16];
    s.read(0, &mut buf).unwrap();
    let mut expected = vec![0xee; 16];
    expected[4] = 1;
    expected[5] = 2;
    assert_eq!(buf, expected);
}

#[test]
fn profile_reports_construction_constants() {
    let p = profile(2, 4, 8, 0x00, WriteBehavior::TwiceSecondZero);
    let mut s = device(p, 32);
    assert_eq!(s.profile(), p);
    s.erase(0, 32).unwrap();
    s.write(0, &[1, 2, 3, 4]).unwrap();
    // the descriptive constants never change for the instance's lifetime
    assert_eq!(s.profile(), p);
}
