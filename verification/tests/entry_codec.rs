use lock_time_ordinals::{LockTimeOrdinalEntry, LockTimeOrdinalEntryValue};

fn sample() -> LockTimeOrdinalEntry {
    let mut transaction_id = [0u8; 32];
    for (i, byte) in transaction_id.iter_mut().enumerate() {
        *byte = i as u8;
    }
    LockTimeOrdinalEntry {
        transaction_id,
        lock_time: 21,
        number: 3,
        block_height: 824_205,
        block_time: 1_704_312_000,
        fee: 1234,
        size: 222,
        weight: 561,
        value: 546,
        sat: 1_923_456_789_012_345,
    }
}

#[test]
fn store_lists_the_fields_in_order() {
    let entry = sample();
    let value: LockTimeOrdinalEntryValue = entry.store();
    assert_eq!(value.0, entry.transaction_id);
    assert_eq!(value.1, 21);
    assert_eq!(value.2, 3);
    assert_eq!(value.3, 824_205);
    assert_eq!(value.4, 1_704_312_000);
    assert_eq!(value.5, 1234);
    assert_eq!(value.6, 222);
    assert_eq!(value.7, 561);
    assert_eq!(value.8, 546);
    assert_eq!(value.9, 1_923_456_789_012_345);
}

#[test]
fn load_reads_the_fields_in_order() {
    let entry = LockTimeOrdinalEntry::load(([9u8; 32], 1, 2, 3, 4, 5, 6, 7, 8, 9));
    assert_eq!(
        entry,
        LockTimeOrdinalEntry {
            transaction_id: [9u8; 32],
            lock_time: 1,
            number: 2,
            block_height: 3,
            block_time: 4,
            fee: 5,
            size: 6,
            weight: 7,
            value: 8,
            sat: 9,
        }
    );
}

#[test]
fn load_undoes_store() {
    let entry = sample();
    assert_eq!(LockTimeOrdinalEntry::load(entry.store()), entry);
}

#[test]
fn store_undoes_load() {
    let value: LockTimeOrdinalEntryValue = (
        [0xab; 32],
        1000,
        u32::MAX,
        0,
        u32::MAX,
        u64::MAX,
        0,
        u64::MAX,
        1,
        2,
    );
    assert_eq!(LockTimeOrdinalEntry::load(value).store(), value);
}

#[test]
fn load_validates_nothing() {
    let entry = LockTimeOrdinalEntry::load(([0u8; 32], 0, 7, 0, 0, 0, 0, 0, 0, 0));
    assert_eq!(entry.lock_time, 0);
    assert_eq!(entry.number, 7);
    assert_eq!(LockTimeOrdinalEntry::load(entry.store()), entry);
}
