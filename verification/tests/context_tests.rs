use runtime_sdk::context::{
    is_allowed_query, local_config, should_execute_contracts, CallFormat, EventTag, Mode,
    RuntimeBatchContext, Transaction,
};
use runtime_sdk::keyed::KvStore;
use runtime_sdk::modules::accounts::auth::{AuthInfo, Fee};
use runtime_sdk::modules::core_module::Error as CoreError;
use runtime_sdk::types::token::{BaseUnits, Denomination};

const MAX_MESSAGES: u32 = 32;

fn mock_ctx() -> RuntimeBatchContext<String, u64> {
    RuntimeBatchContext::new(Mode::ExecuteTx, MAX_MESSAGES)
}

fn mock_transaction() -> Transaction<String> {
    Transaction {
        auth_info: AuthInfo {
            signer_info: vec![],
            fee: Fee { amount: BaseUnits::new(0, Denomination::native()), gas: 1000 },
            not_before: None,
            not_after: None,
        },
        call: "test".to_string(),
        call_format: CallFormat::Plain,
        read_only: false,
    }
}

fn message() -> String {
    "test".to_string()
}

#[test]
fn test_value() {
    let mut ctx = mock_ctx();

    let x = ctx.value("module.TestKey").get();
    assert_eq!(x, None);

    ctx.value("module.TestKey").set(42);

    let y = ctx.value("module.TestKey").get();
    assert_eq!(y, Some(&42u64));

    let z = ctx.value("module.TestKey").take();
    assert_eq!(z, Some(42u64));

    let y = ctx.value("module.TestKey").get();
    assert_eq!(y, None);
}

#[test]
fn test_value_tx_context() {
    let mut ctx = mock_ctx();

    ctx.value("module.TestKey").set(42u64);

    ctx.with_tx(0, 0, mock_transaction(), |mut tx_ctx, _call| {
        let mut y = tx_ctx.value("module.TestKey");
        let y = y.get_mut().unwrap();
        assert_eq!(*y, 42);
        *y = 48;

        let a = tx_ctx.tx_value("module.TestTxKey").get();
        assert_eq!(a, None);
        tx_ctx.tx_value("module.TestTxKey").set(65);

        let b = tx_ctx.tx_value("module.TestTxKey").get();
        assert_eq!(b, Some(&65));

        let c = tx_ctx.tx_value("module.TestTakeTxKey").or_default();
        *c = 67;
        let d = tx_ctx.tx_value("module.TestTakeTxKey").take();
        assert_eq!(d, Some(67));
        let e = tx_ctx.tx_value("module.TestTakeTxKey").get();
        assert_eq!(e, None);
    });

    let x = ctx.value("module.TestKey").get();
    assert_eq!(x, Some(&48));

    ctx.with_tx(0, 0, mock_transaction(), |mut tx_ctx, _call| {
        let z = tx_ctx.value("module.TestKey").take();
        assert_eq!(z, Some(48));

        let a = tx_ctx.tx_value("module.TestTxKey").get();
        assert_eq!(a, None);
    });

    let y = ctx.value("module.TestKey").get();
    assert_eq!(y, None);
}

#[test]
fn test_ctx_message_slots() {
    let max_messages = MAX_MESSAGES;
    let mut ctx = mock_ctx();

    let mut messages = Vec::with_capacity(max_messages as usize);
    for _ in 0..max_messages {
        messages.push(message());
    }

    // Emitting messages should work.
    ctx.emit_messages(messages.clone()).expect("message emitting should work");

    assert_eq!(ctx.remaining_messages(), 0);

    // Emitting more messages should fail.
    ctx.emit_messages(messages).expect_err("message emitting should fail");

    assert_eq!(ctx.remaining_messages(), 0);
}

#[test]
fn test_tx_ctx_message_slots() {
    let max_messages = MAX_MESSAGES;
    let mut ctx = mock_ctx();

    ctx.with_tx(0, 0, mock_transaction(), |mut tx_ctx, _call| {
        for i in 0..max_messages {
            assert_eq!(tx_ctx.remaining_messages(), max_messages - i);

            tx_ctx.emit_message(message()).expect("message should be emitted");

            assert_eq!(tx_ctx.remaining_messages(), max_messages - i - 1);
        }

        // Another message should error.
        tx_ctx.emit_message(message()).expect_err("message emitting should fail");

        assert_eq!(tx_ctx.remaining_messages(), 0);
    });
}

#[test]
fn test_ctx_message_slot_limits() {
    let max_messages = MAX_MESSAGES;
    let mut ctx = mock_ctx();

    // Increasing the limit should fail.
    assert_eq!(ctx.remaining_messages(), max_messages);
    ctx.limit_max_messages(max_messages * 2)
        .expect_err("increasing the max message limit should fail");
    assert_eq!(ctx.remaining_messages(), max_messages);

    // Limiting to a single message should work.
    ctx.limit_max_messages(1).expect("limiting max_messages should work");
    assert_eq!(ctx.remaining_messages(), 1);

    let messages = vec![message()];

    // Emitting messages should work.
    ctx.emit_messages(messages.clone()).expect("emitting a message should work");
    assert_eq!(ctx.remaining_messages(), 0);

    // Emitting more messages should fail (we set the limit to a single message).
    ctx.emit_messages(messages.clone()).expect_err("emitting a message should fail");
    assert_eq!(ctx.remaining_messages(), 0);

    // Also in transaction contexts.
    ctx.with_tx(0, 0, mock_transaction(), |mut tx_ctx, _call| {
        tx_ctx.emit_message(messages[0].clone()).expect_err("emitting a message should fail");
        assert_eq!(tx_ctx.remaining_messages(), 0);
    });

    // Also in child contexts.
    ctx.with_child(Mode::ExecuteTx, |mut child_ctx| {
        child_ctx.emit_messages(messages.clone()).expect_err("emitting a message should fail");
        assert_eq!(child_ctx.remaining_messages(), 0);
    });
}

#[test]
fn test_tx_ctx_message_slot_limits() {
    let mut ctx = mock_ctx();

    let messages = vec![message()];

    ctx.with_tx(0, 0, mock_transaction(), |mut tx_ctx, _call| {
        tx_ctx.limit_max_messages(1).unwrap();

        let mode = tx_ctx.mode();
        tx_ctx.with_child(mode, |mut child_ctx| {
            child_ctx.emit_messages(messages.clone()).expect("emitting a message should work");

            child_ctx
                .emit_messages(messages.clone())
                .expect_err("emitting another message should fail");
        });
    });
}

#[test]
fn test_tx_ctx_metadata() {
    let mut ctx = mock_ctx();
    ctx.with_tx(42, 888, mock_transaction(), |tx_ctx, _call| {
        assert_eq!(tx_ctx.tx_index(), 42);
        assert_eq!(tx_ctx.tx_size(), 888);
    });
}

#[test]
fn child_of_simulation_keeps_message_limit() {
    let mut ctx = mock_ctx();
    ctx.emit_messages(vec![message(), message()]).unwrap();
    let simulated = ctx.child(Mode::SimulateTx);
    assert_eq!(simulated.max_messages, MAX_MESSAGES);
    let executed = ctx.child(Mode::ExecuteTx);
    assert_eq!(executed.max_messages, MAX_MESSAGES - 2);
    assert_eq!(executed.remaining_messages(), MAX_MESSAGES - 2);
}

#[test]
fn limit_max_messages_refuses_raise() {
    let mut ctx = mock_ctx();
    assert!(matches!(ctx.limit_max_messages(MAX_MESSAGES + 1), Err(CoreError::OutOfMessageSlots)));
    assert_eq!(ctx.max_messages, MAX_MESSAGES);
    assert!(ctx.limit_max_messages(MAX_MESSAGES).is_ok());
}

#[test]
fn tx_commit_puts_unconditional_tags_last() {
    let mut ctx = mock_ctx();
    let (tags, msgs) = ctx.with_tx(0, 0, mock_transaction(), |mut tx_ctx, _call| {
        tx_ctx.emit_unconditional_etag(EventTag { key: vec![1], value: vec![9] });
        tx_ctx.emit_etag(EventTag { key: vec![1], value: vec![7] });
        tx_ctx.emit_etag(EventTag { key: vec![2], value: vec![8] });
        tx_ctx.emit_message(message()).unwrap();
        tx_ctx.commit()
    });
    assert_eq!(msgs, vec![message()]);
    assert_eq!(tags.tags.entries.len(), 2);
    assert_eq!(tags.tags.entries[0].0, vec![1u8]);
    assert_eq!(tags.tags.entries[0].1, vec![vec![7u8], vec![9u8]]);
    assert_eq!(tags.tags.entries[1].1, vec![vec![8u8]]);
}

#[test]
fn tx_rollback_keeps_only_unconditional_tags() {
    let mut ctx = mock_ctx();
    let tags = ctx.with_tx(0, 0, mock_transaction(), |mut tx_ctx, _call| {
        tx_ctx.emit_unconditional_etag(EventTag { key: vec![1], value: vec![9] });
        tx_ctx.emit_etag(EventTag { key: vec![1], value: vec![7] });
        tx_ctx.rollback()
    });
    assert_eq!(tags.tags.entries.len(), 1);
    assert_eq!(tags.tags.entries[0].1, vec![vec![9u8]]);
}

#[test]
fn batch_etags_accumulate_by_key() {
    let mut ctx = mock_ctx();
    ctx.emit_etag(EventTag { key: vec![3], value: vec![1] });
    ctx.emit_etag(EventTag { key: vec![3], value: vec![2] });
    ctx.emit_etag(EventTag { key: vec![0], value: vec![5] });
    let (tags, msgs) = ctx.commit();
    assert!(msgs.is_empty());
    assert_eq!(tags.tags.entries[0].0, vec![0u8]);
    assert_eq!(tags.tags.entries[1].1, vec![vec![1u8], vec![2u8]]);
}

#[test]
fn set_tx_replaces_bytes() {
    let mut ctx = mock_ctx();
    ctx.set_tx(&[1, 2, 3]);
    assert_eq!(ctx.get_tx(), &[1u8, 2, 3][..]);
    ctx.set_tx(&[4]);
    assert_eq!(ctx.get_tx(), &[4u8][..]);
}

#[test]
fn contracts_run_when_executing_and_as_configured_when_simulating() {
    assert!(should_execute_contracts(Mode::ExecuteTx, Some(false), Some(false)));
    assert!(!should_execute_contracts(Mode::CheckTx, Some(true), Some(true)));
    assert!(!should_execute_contracts(Mode::PreScheduleTx, None, Some(true)));
    assert!(should_execute_contracts(Mode::SimulateTx, Some(true), Some(false)));
    assert!(!should_execute_contracts(Mode::SimulateTx, Some(false), Some(true)));
    assert!(should_execute_contracts(Mode::SimulateTx, None, Some(true)));
    assert!(!should_execute_contracts(Mode::SimulateTx, None, None));
}

fn allowed(entries: &[(&str, bool)]) -> KvStore<String, bool> {
    let mut m: KvStore<String, bool> = KvStore::new();
    for (k, v) in entries {
        m.insert(k.to_string(), *v);
    }
    m
}

#[test]
fn allowed_queries_follow_the_first_matching_entry() {
    let config = vec![allowed(&[("accounts.Balances", false)]), allowed(&[("all", true)])];
    assert!(!is_allowed_query(Mode::CheckTx, "accounts.Balances", false, Some(config), None));
    let config = vec![allowed(&[("all_expensive", false)]), allowed(&[("all", true)])];
    assert!(!is_allowed_query(Mode::CheckTx, "evm.SimulateCall", true, Some(config), None));
    let config = vec![allowed(&[("all_expensive", false)]), allowed(&[("all", true)])];
    assert!(is_allowed_query(Mode::CheckTx, "accounts.Nonce", false, Some(config), None));
}

#[test]
fn allowed_queries_default_and_deprecated_option() {
    assert!(is_allowed_query(Mode::CheckTx, "accounts.Nonce", false, None, None));
    assert!(!is_allowed_query(Mode::CheckTx, "evm.SimulateCall", true, None, None));
    assert!(is_allowed_query(Mode::CheckTx, "evm.SimulateCall", true, None, Some(true)));
    assert!(!is_allowed_query(Mode::CheckTx, "evm.SimulateCall", true, None, Some(false)));
    // While executing, the local configuration is not seen.
    assert!(!is_allowed_query(Mode::ExecuteTx, "evm.SimulateCall", true, None, Some(true)));
    assert_eq!(local_config(Mode::ExecuteTx, Some(5u8)), None);
    assert_eq!(local_config(Mode::CheckTx, Some(5u8)), Some(5u8));
}

#[test]
fn mode_names() {
    assert_eq!(Mode::CheckTx.as_str(), "check_tx");
    assert_eq!(Mode::ExecuteTx.as_str(), "execute_tx");
    assert_eq!(Mode::SimulateTx.as_str(), "simulate_tx");
    assert_eq!(Mode::PreScheduleTx.as_str(), "pre_schedule_tx");
    assert!(Mode::CheckTx.is_check_only());
    assert!(Mode::PreScheduleTx.is_check_only() && Mode::PreScheduleTx.is_pre_schedule());
    assert!(Mode::SimulateTx.is_simulation() && !Mode::SimulateTx.is_check_only());
}

#[test]
fn context_from_runtime_round() {
    let ctx: RuntimeBatchContext<String, u64> = RuntimeBatchContext::from_runtime(true, 3);
    assert_eq!(ctx.mode(), Mode::CheckTx);
    assert_eq!(ctx.remaining_messages(), 3);
    let ctx: RuntimeBatchContext<String, u64> = RuntimeBatchContext::from_runtime(false, 0);
    assert_eq!(ctx.mode(), Mode::ExecuteTx);
    assert_eq!(ctx.remaining_messages(), 0);
}
