use runtime_sdk::context::Mode;
use runtime_sdk::keyed::KvStore;
use runtime_sdk::modules::evm::{
    call_sc_burn, call_sc_mint, check_simulate_call_gas, end_block, process_evm_result,
    u128_to_h256, u256_to_u128, withdraw_reserve, Error, ExitError, ExitFatal, ExitReason,
    ExitSucceed, LocalConfig, ScCallPlan, BLOCK_HASH_WINDOW_SIZE, DW_CONTRACT_ADDRESS,
    DW_SYSTEM_ADDRESS,
};
use std::str::FromStr;

fn revert_data(reason: &str) -> Vec<u8> {
    let mut data = vec![0x08, 0xc3, 0x79, 0xa0];
    let mut offset = [0u8; 32];
    offset[31] = 0x20;
    data.extend_from_slice(&offset);
    let mut len = [0u8; 32];
    len[31] = reason.len() as u8;
    data.extend_from_slice(&len);
    data.extend_from_slice(reason.as_bytes());
    data.extend_from_slice(&vec![0u8; 32 - reason.len() % 32]);
    data
}

#[test]
fn success_returns_data() {
    assert_eq!(process_evm_result(ExitReason::Succeed(ExitSucceed::Returned), vec![1, 2]), Ok(vec![1, 2]));
}

#[test]
fn revert_reason_is_decoded() {
    let data = revert_data("myFunction only accepts arguments which are greather than or equal to 5");
    assert_eq!(
        process_evm_result(ExitReason::Revert, data),
        Err(Error::Reverted(
            "myFunction only accepts arguments which are greather than or equal to 5".to_string()
        ))
    );
}

#[test]
fn revert_without_data_or_with_bad_prefix() {
    assert_eq!(
        process_evm_result(ExitReason::Revert, vec![]),
        Err(Error::Reverted("no revert reason".to_string()))
    );
    assert_eq!(
        process_evm_result(ExitReason::Revert, vec![0xff, 0x00]),
        Err(Error::Reverted("invalid reason prefix: '/wA='".to_string()))
    );
    let mut data = revert_data("abc");
    data[67] = 200;
    let expected = format!("invalid reason length: '{}'", base64::encode(&data));
    assert_eq!(process_evm_result(ExitReason::Revert, data), Err(Error::Reverted(expected)));
}

#[test]
fn evm_errors_become_messages() {
    assert_eq!(
        process_evm_result(ExitReason::Error(ExitError::OutOfFund), vec![]),
        Err(Error::ExecutionFailed("out of funds".to_string()))
    );
    assert_eq!(
        process_evm_result(ExitReason::Error(ExitError::Other("boom".to_string())), vec![]),
        Err(Error::ExecutionFailed("boom".to_string()))
    );
    assert_eq!(
        process_evm_result(
            ExitReason::Fatal(ExitFatal::CallErrorAsFatal(ExitError::PCUnderflow)),
            vec![]
        ),
        Err(Error::ExecutionFailed("PC underflow".to_string()))
    );
    assert_eq!(
        process_evm_result(ExitReason::Fatal(ExitFatal::UnhandledInterrupt), vec![]),
        Err(Error::ExecutionFailed("unhandled interrupt".to_string()))
    );
}

#[test]
fn u256_to_u128_bounds() {
    assert_eq!(u256_to_u128([5, 0, 0, 0]), Ok(5));
    assert_eq!(u256_to_u128([1, 2, 0, 0]), Ok((2u128 << 64) + 1));
    assert_eq!(u256_to_u128([u64::MAX - 1, u64::MAX, 0, 0]), Ok(u128::MAX - 1));
    assert_eq!(
        u256_to_u128([u64::MAX, u64::MAX, 0, 0]),
        Err(Error::Reverted("too large value".to_string()))
    );
    assert_eq!(u256_to_u128([0, 0, 1, 0]), Err(Error::Reverted("too large value".to_string())));
    let v = primitive_types::U256::from(123456789u128);
    assert_eq!(u256_to_u128(v.0), Ok(123456789));
}

#[test]
fn u128_word_is_big_endian() {
    let w = u128_to_h256(0x0102);
    assert_eq!(&w[..30], &[0u8; 30][..]);
    assert_eq!(w[30], 1);
    assert_eq!(w[31], 2);
    let w = u128_to_h256(u128::MAX);
    assert_eq!(&w[16..], &[0xffu8; 16][..]);
    assert_eq!(primitive_types::H256::from(u128_to_h256(77)), primitive_types::H256::from_low_u64_be(77));
}

#[test]
fn contract_addresses() {
    assert_eq!(
        primitive_types::H160::from_str("0x052cc647E136C85ED9F6Bf5DBB5E79952Be0499F").unwrap().0,
        DW_SYSTEM_ADDRESS
    );
    assert_eq!(
        primitive_types::H160::from_str("0xBE75FDe9DeDe700635E3dDBe7e29b5db1A76C125").unwrap().0,
        DW_CONTRACT_ADDRESS
    );
}

#[test]
fn mint_call_data() {
    let address = [7u8; 20];
    let amount = u128_to_h256(9);
    match call_sc_mint(true, &address, &amount, true) {
        ScCallPlan::Run(c) => {
            assert_eq!(c.caller, DW_SYSTEM_ADDRESS);
            assert_eq!(c.contract, DW_CONTRACT_ADDRESS);
            assert_eq!(c.value, [0, 0, 0, 0]);
            assert_eq!(c.gas_limit, 1085479);
            assert_eq!(c.gas_price, [1000, 0, 0, 0]);
            assert_eq!(c.data.len(), 4 + 12 + 20 + 32 + 32);
            assert_eq!(&c.data[..4], &[0xd1, 0xa1, 0xbe, 0xb4]);
            assert_eq!(&c.data[16..36], &address[..]);
            assert_eq!(c.data[67], 9);
            assert_eq!(c.data[99], 1);
        }
        ScCallPlan::Skip => panic!("should run"),
    }
    assert!(matches!(call_sc_mint(false, &address, &amount, true), ScCallPlan::Skip));
}

#[test]
fn burn_call_data_and_reserve() {
    let address = [3u8; 20];
    match withdraw_reserve(true, &address, 258) {
        ScCallPlan::Run(c) => {
            assert_eq!(&c.data[..4], &[0x76, 0xfd, 0x4f, 0xdf]);
            assert_eq!(c.data[66], 1);
            assert_eq!(c.data[67], 2);
            assert_eq!(c.data[99], 1);
        }
        ScCallPlan::Skip => panic!("should run"),
    }
    match call_sc_burn(true, &address, &u128_to_h256(1), false) {
        ScCallPlan::Run(c) => assert_eq!(c.data[99], 0),
        ScCallPlan::Skip => panic!("should run"),
    }
}

#[test]
fn simulate_call_gas_limit() {
    let cfg = Some(LocalConfig { query_simulate_call_max_gas: 1000 });
    assert_eq!(check_simulate_call_gas(Mode::CheckTx, cfg, 1001), Err(Error::SimulationTooExpensive(1000)));
    assert_eq!(check_simulate_call_gas(Mode::CheckTx, cfg, 1000), Ok(()));
    assert_eq!(check_simulate_call_gas(Mode::CheckTx, Some(LocalConfig::default()), u64::MAX), Ok(()));
    assert_eq!(check_simulate_call_gas(Mode::ExecuteTx, cfg, 5000), Ok(()));
}

#[test]
fn block_hash_window() {
    let mut hashes: KvStore<u64, [u8; 32]> = KvStore::new();
    for round in 1..=(BLOCK_HASH_WINDOW_SIZE + 2) {
        end_block(&mut hashes, round, [round as u8; 32]);
    }
    assert_eq!(hashes.entries.len(), BLOCK_HASH_WINDOW_SIZE as usize);
    assert!(hashes.get(&1).is_none());
    assert!(hashes.get(&2).is_none());
    assert_eq!(hashes.get(&3), Some(&[3u8; 32]));
}

#[test]
fn amount_word_round_trip() {
    for v in [0u128, 1, 258, u64::MAX as u128 + 5, u128::MAX - 1] {
        let word = u128_to_h256(v);
        let limbs = primitive_types::U256::from_big_endian(&word).0;
        assert_eq!(u256_to_u128(limbs), Ok(v));
    }
}
