use lock_time_ordinals::mint::{mint_attributes, mint_entry, mint_fee, plan_mint};
use lock_time_ordinals::{LockTimeOrdinalEntry, MintAttributes, MintError, MintTransaction};

fn transaction(lock_time: u32, input_count: usize, output_values: Vec<u64>) -> MintTransaction {
    MintTransaction {
        transaction_id: [0x21; 32],
        lock_time,
        input_count,
        output_values,
        total_size: 191,
        weight: 437,
    }
}

#[test]
fn fee_is_inputs_less_outputs() {
    let tx = transaction(21, 1, vec![98_766]);
    assert_eq!(mint_fee(&tx, &[100_000]), Ok(1234));
    let tx = transaction(21, 3, vec![10, 20, 30, 40]);
    assert_eq!(mint_fee(&tx, &[50, 60, 70]), Ok(80));
}

#[test]
fn fee_may_be_0() {
    let tx = transaction(21, 2, vec![5, 7]);
    assert_eq!(mint_fee(&tx, &[6, 6]), Ok(0));
    let tx = transaction(21, 0, Vec::new());
    assert_eq!(mint_fee(&tx, &[]), Ok(0));
}

#[test]
fn fee_counts_only_the_values_of_the_inputs() {
    let tx = transaction(21, 2, vec![100]);
    assert_eq!(mint_fee(&tx, &[70, 50, 1_000_000]), Ok(20));
}

#[test]
fn fee_sums_beyond_64_bits() {
    let tx = transaction(21, 2, vec![u64::MAX, 10]);
    assert_eq!(mint_fee(&tx, &[u64::MAX, 15]), Ok(5));
    let tx = transaction(21, 2, vec![1]);
    assert_eq!(mint_fee(&tx, &[u64::MAX, 1]), Ok(u64::MAX));
}

#[test]
fn missing_input_value_is_an_error() {
    let tx = transaction(21, 2, vec![1]);
    assert_eq!(mint_fee(&tx, &[100]), Err(MintError::MissingInputValue));
    assert_eq!(mint_fee(&tx, &[]), Err(MintError::MissingInputValue));
}

#[test]
fn outputs_above_inputs_are_an_error() {
    let tx = transaction(21, 1, vec![60, 41]);
    assert_eq!(mint_fee(&tx, &[100]), Err(MintError::FeeUnderflow));
}

#[test]
fn fee_above_64_bits_is_an_error() {
    let tx = transaction(21, 2, Vec::new());
    assert_eq!(mint_fee(&tx, &[u64::MAX, 1]), Err(MintError::FeeOverflow));
}

#[test]
fn attributes_of_a_transaction() {
    let tx = transaction(21, 1, vec![98_766, 5]);
    let chunk = [0x39u8, 0x30, 0, 0, 0, 0, 0, 0, 0, 0, 0];
    let ranges = Some(vec![&chunk[..]]);
    assert_eq!(
        mint_attributes(&tx, &ranges, &[100_005]),
        Ok(MintAttributes {
            fee: 1234,
            size: 191,
            weight: 437,
            value: 98_766,
            sat: 12_345,
        })
    );
}

#[test]
fn attributes_without_sat_ranges_have_sat_0() {
    let tx = transaction(21, 1, vec![98_766]);
    let attributes = mint_attributes(&tx, &None, &[100_000]).unwrap();
    assert_eq!(attributes.sat, 0);
    assert_eq!(attributes.fee, 1234);
}

#[test]
fn missing_first_output_is_an_error() {
    let tx = transaction(21, 1, Vec::new());
    assert_eq!(
        mint_attributes(&tx, &None, &[100]),
        Err(MintError::MissingOutput)
    );
}

#[test]
fn fee_errors_come_before_a_missing_output() {
    let tx = transaction(21, 1, Vec::new());
    assert_eq!(
        mint_attributes(&tx, &None, &[]),
        Err(MintError::MissingInputValue)
    );
}

#[test]
fn entry_is_assembled_from_its_parts() {
    let tx = transaction(21, 1, vec![98_766]);
    let attributes = MintAttributes {
        fee: 1234,
        size: 191,
        weight: 437,
        value: 98_766,
        sat: 12_345,
    };
    assert_eq!(
        mint_entry(&tx, &attributes, 4, 840_000, 1_713_571_767),
        LockTimeOrdinalEntry {
            transaction_id: [0x21; 32],
            lock_time: 21,
            number: 4,
            block_height: 840_000,
            block_time: 1_713_571_767,
            fee: 1234,
            size: 191,
            weight: 437,
            value: 98_766,
            sat: 12_345,
        }
    );
}

#[test]
fn plan_for_a_first_transaction() {
    let tx = transaction(21, 1, vec![98_766]);
    let plan = plan_mint(&tx, &None, &[100_000], 1_713_571_767, 840_000, false, None);
    assert_eq!(
        plan,
        Ok(Some(LockTimeOrdinalEntry {
            transaction_id: [0x21; 32],
            lock_time: 21,
            number: 0,
            block_height: 840_000,
            block_time: 1_713_571_767,
            fee: 1234,
            size: 191,
            weight: 437,
            value: 98_766,
            sat: 0,
        }))
    );
}

#[test]
fn plan_continues_after_the_latest_number() {
    let tx = transaction(1000, 1, vec![1]);
    let plan = plan_mint(&tx, &None, &[2], 0, 0, false, Some(0)).unwrap().unwrap();
    assert_eq!(plan.number, 1);
    let plan = plan_mint(&tx, &None, &[2], 0, 0, false, Some(99)).unwrap().unwrap();
    assert_eq!(plan.number, 100);
}

#[test]
fn plan_for_an_unreserved_lock_time_is_nothing() {
    for lock_time in [0, 1001, 500_000_000, u32::MAX] {
        let tx = transaction(lock_time, 1, vec![98_766]);
        assert_eq!(plan_mint(&tx, &None, &[100_000], 1, 2, false, None), Ok(None));
    }
}

#[test]
fn plan_for_an_unreserved_lock_time_looks_at_nothing_else() {
    let tx = transaction(0, 5, Vec::new());
    assert_eq!(plan_mint(&tx, &None, &[], 1, 2, false, Some(u32::MAX)), Ok(None));
}

#[test]
fn plan_for_a_recorded_transaction_is_nothing() {
    let tx = transaction(21, 1, vec![98_766]);
    assert_eq!(plan_mint(&tx, &None, &[100_000], 1, 2, true, Some(5)), Ok(None));
    assert_eq!(
        plan_mint(&tx, &None, &[100_000], 1, 2, true, Some(u32::MAX)),
        Ok(None)
    );
}

#[test]
fn plan_fails_when_the_numbers_are_used_up() {
    let tx = transaction(21, 1, vec![98_766]);
    assert_eq!(
        plan_mint(&tx, &None, &[100_000], 1, 2, false, Some(u32::MAX)),
        Err(MintError::NumberExhausted)
    );
}

#[test]
fn plan_reports_bad_data_before_it_asks_what_is_recorded() {
    let tx = transaction(21, 1, vec![98_766]);
    assert_eq!(
        plan_mint(&tx, &None, &[10], 1, 2, true, None),
        Err(MintError::FeeUnderflow)
    );
    assert_eq!(
        plan_mint(&tx, &None, &[10], 1, 2, false, Some(u32::MAX)),
        Err(MintError::FeeUnderflow)
    );
}
