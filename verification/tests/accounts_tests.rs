use runtime_sdk::context::Mode;
use runtime_sdk::keyed::KvStore;
use runtime_sdk::modules::accounts::auth::{AuthInfo, Fee, SignerInfo};
use runtime_sdk::modules::accounts::state::AccountsState;
use runtime_sdk::modules::accounts::types::{
    MintST, ProposalContent, ProposalData, RoleAddress, RoleQuery, Transfer, VoteProposal,
};
use runtime_sdk::modules::accounts::{
    AccountsContext, Error, FeeAccumulator, Genesis, GasCosts, Module, Parameters,
    CONTEXT_KEY_FEE_ACCUMULATOR,
};
use runtime_sdk::modules::core_module::{Error as CoreError, TxGas};
use runtime_sdk::types::address::Address;
use runtime_sdk::types::proposal::ProposalState;
use runtime_sdk::types::role::Role;
use runtime_sdk::types::token::{BaseUnits, Denomination};
use runtime_sdk::types::vote::{Action, Vote};

fn addr(b: u8) -> Address {
    Address::from_bytes(&[b; 21]).unwrap()
}

fn native(amount: u128) -> BaseUnits {
    BaseUnits::new(amount, Denomination::native())
}

fn den(name: &[u8]) -> Denomination {
    Denomination::from_bytes(name).unwrap()
}

fn params() -> Parameters {
    Parameters {
        transfers_disabled: false,
        mintst_disabled: false,
        burnst_disabled: false,
        chain_initiator: addr(99),
        gas_costs: GasCosts { tx_transfer: 100, tx_managest: 200 },
        debug_disable_nonce_check: false,
        denomination_infos: KvStore::new(),
    }
}

fn empty_state() -> AccountsState {
    AccountsState {
        params: params(),
        accounts: KvStore::new(),
        balances: KvStore::new(),
        total_supplies: KvStore::new(),
        roles: KvStore::new(),
        role_sequences: KvStore::new(),
        proposal_counter: None,
        proposals: KvStore::new(),
        mint_quorum: None,
        burn_quorum: None,
        whitelist_quorum: None,
        blacklist_quorum: None,
        config_quorum: None,
    }
}

fn ctx_with(state: AccountsState, caller: Address) -> AccountsContext {
    AccountsContext {
        mode: Mode::ExecuteTx,
        round: 10,
        state,
        events: vec![],
        values: KvStore::new(),
        priority: 0,
        sender_meta: None,
        caller,
        gas: TxGas { limit: 1_000_000, used: 0 },
    }
}

fn balance(ctx: &AccountsContext, a: Address, d: &Denomination) -> u128 {
    ctx.state.get_balance(a, d).unwrap()
}

fn total(ctx: &AccountsContext, d: &Denomination) -> u128 {
    let mut t = 0;
    for (dd, v) in ctx.state.total_supplies.entries.iter() {
        if dd == d {
            t = *v;
        }
    }
    t
}

fn funded_ctx() -> AccountsContext {
    let mut ctx = ctx_with(empty_state(), addr(1));
    Module::mint(&mut ctx, addr(1), &native(1000)).unwrap();
    ctx.events.clear();
    ctx
}

#[test]
fn transfer_moves_balance_and_emits_event() {
    let mut ctx = funded_ctx();
    Module::transfer(&mut ctx, addr(1), addr(2), &native(300)).unwrap();
    assert_eq!(balance(&ctx, addr(1), &Denomination::native()), 700);
    assert_eq!(balance(&ctx, addr(2), &Denomination::native()), 300);
    assert_eq!(ctx.events.len(), 1);
    assert!(Module::check_invariants(&ctx).is_ok());
}

#[test]
fn transfer_of_more_than_held_is_refused() {
    let mut ctx = funded_ctx();
    assert_eq!(
        Module::transfer(&mut ctx, addr(1), addr(2), &native(1001)),
        Err(Error::InsufficientBalance)
    );
    assert_eq!(balance(&ctx, addr(1), &Denomination::native()), 1000);
    assert!(ctx.events.is_empty());
}

#[test]
fn transfer_does_nothing_when_checking() {
    let mut ctx = funded_ctx();
    ctx.mode = Mode::CheckTx;
    Module::transfer(&mut ctx, addr(1), addr(2), &native(5000)).unwrap();
    assert_eq!(balance(&ctx, addr(2), &Denomination::native()), 0);
}

#[test]
fn tx_transfer_when_disabled_is_forbidden() {
    let mut ctx = funded_ctx();
    ctx.state.params.transfers_disabled = true;
    let body = Transfer { to: addr(2), amount: native(1) };
    assert_eq!(Module::tx_transfer(&mut ctx, body), Err(Error::Forbidden));
    assert_eq!(ctx.gas.used, 0);
}

#[test]
fn tx_transfer_uses_gas_and_transfers() {
    let mut ctx = funded_ctx();
    let body = Transfer { to: addr(2), amount: native(10) };
    Module::tx_transfer(&mut ctx, body).unwrap();
    assert_eq!(ctx.gas.used, 100);
    assert_eq!(balance(&ctx, addr(2), &Denomination::native()), 10);
}

#[test]
fn tx_transfer_out_of_gas() {
    let mut ctx = funded_ctx();
    ctx.gas = TxGas { limit: 150, used: 60 };
    let body = Transfer { to: addr(2), amount: native(10) };
    assert_eq!(
        Module::tx_transfer(&mut ctx, body),
        Err(Error::Core(CoreError::OutOfGas(150, 100)))
    );
    assert_eq!(ctx.gas.used, 60);
}

#[test]
fn mint_and_burn_keep_supply_in_balance() {
    let mut ctx = funded_ctx();
    let gold = den(b"gold");
    Module::mint(&mut ctx, addr(3), &BaseUnits::new(50, den(b"gold"))).unwrap();
    assert_eq!(total(&ctx, &gold), 50);
    Module::burn(&mut ctx, addr(3), &BaseUnits::new(20, den(b"gold"))).unwrap();
    assert_eq!(total(&ctx, &gold), 30);
    assert_eq!(balance(&ctx, addr(3), &gold), 30);
    assert_eq!(
        Module::burn(&mut ctx, addr(3), &BaseUnits::new(31, den(b"gold"))),
        Err(Error::InsufficientBalance)
    );
    assert!(Module::check_invariants(&ctx).is_ok());
}

#[test]
fn mint_overflow_is_refused() {
    let mut ctx = funded_ctx();
    assert_eq!(
        Module::mint(&mut ctx, addr(1), &native(u128::MAX)),
        Err(Error::InvalidArgument)
    );
}

#[test]
fn tx_mintst_when_disabled_is_forbidden() {
    let mut ctx = funded_ctx();
    ctx.state.params.mintst_disabled = true;
    let body = MintST { to: addr(2), amount: native(1) };
    assert_eq!(Module::tx_mintst(&mut ctx, body), Err(Error::Forbidden));
}

#[test]
fn tx_burnst_only_by_initiator() {
    let mut ctx = funded_ctx();
    let body = runtime_sdk::modules::accounts::types::BurnST { amount: native(1) };
    assert_eq!(Module::tx_burnst(&mut ctx, body), Err(Error::Forbidden));
    Module::mint(&mut ctx, addr(99), &native(10)).unwrap();
    ctx.caller = addr(99);
    let body = runtime_sdk::modules::accounts::types::BurnST { amount: native(4) };
    Module::tx_burnst(&mut ctx, body).unwrap();
    assert_eq!(balance(&ctx, addr(99), &Denomination::native()), 6);
    assert_eq!(total(&ctx, &Denomination::native()), 1006);
}

#[test]
fn check_invariants_reports_mismatch() {
    let mut ctx = funded_ctx();
    ctx.state.set_total_supply(&native(1002));
    match Module::check_invariants(&ctx) {
        Err(CoreError::InvariantViolation(msg)) => assert_eq!(
            msg,
            "computed and actual total supplies don't match (computed=1000, actual=1002)"
        ),
        other => panic!("unexpected {:?}", other),
    }
}

#[test]
fn check_invariants_reports_unknown_and_unlisted_denominations() {
    let mut ctx = funded_ctx();
    ctx.state.set_total_supply(&BaseUnits::new(0, den(b"ghost")));
    match Module::check_invariants(&ctx) {
        Err(CoreError::InvariantViolation(msg)) => assert_eq!(msg, "unexpected denomination"),
        other => panic!("unexpected {:?}", other),
    }
    let mut ctx = funded_ctx();
    ctx.state.set_balance(addr(5), &BaseUnits::new(3, den(b"silver")));
    match Module::check_invariants(&ctx) {
        Err(CoreError::InvariantViolation(msg)) => assert_eq!(
            msg,
            "encountered denomination that isn't present in total supplies table"
        ),
        other => panic!("unexpected {:?}", other),
    }
}

fn role_owners() -> Vec<RoleAddress> {
    vec![
        RoleAddress { address: addr(10), role: Role::MintProposer },
        RoleAddress { address: addr(11), role: Role::MintVoter },
        RoleAddress { address: addr(12), role: Role::MintVoter },
        RoleAddress { address: addr(13), role: Role::MintVoter },
        RoleAddress { address: addr(20), role: Role::WhitelistedUser },
    ]
}

fn mint_proposal(amount: u128) -> ProposalContent {
    ProposalContent {
        action: Action::Mint,
        data: ProposalData {
            address: Some(addr(20)),
            amount: Some(native(amount)),
            ..ProposalData::default()
        },
    }
}

#[test]
fn initowners_only_once_and_only_by_initiator() {
    let mut ctx = funded_ctx();
    assert_eq!(Module::tx_initowners(&mut ctx, role_owners()), Err(Error::Forbidden));
    ctx.caller = addr(99);
    Module::tx_initowners(&mut ctx, role_owners()).unwrap();
    let q = Module::query_role(&ctx, RoleQuery { address: addr(11) }).unwrap();
    assert_eq!(q, Role::MintVoter);
    assert_eq!(ctx.state.get_initstatus(addr(99)), Ok(true));
    // A second initialization changes no role.
    let again = vec![RoleAddress { address: addr(11), role: Role::Admin }];
    Module::tx_initowners(&mut ctx, again).unwrap();
    assert_eq!(ctx.state.get_role(addr(11)), Ok(Role::MintVoter));
    assert_eq!(ctx.state.get_addresses_in_role(Role::MintVoter).unwrap().len(), 3);
}

fn ready_ctx() -> AccountsContext {
    let mut ctx = funded_ctx();
    ctx.caller = addr(99);
    Module::tx_initowners(&mut ctx, role_owners()).unwrap();
    ctx.state.mint_quorum = Some(50);
    ctx
}

#[test]
fn mint_proposal_passes_at_quorum() {
    let mut ctx = ready_ctx();
    ctx.caller = addr(10);
    Module::tx_propose(&mut ctx, mint_proposal(100)).unwrap();
    assert_eq!(ctx.state.get_proposal_id(), Ok(1));

    ctx.caller = addr(11);
    Module::tx_votest(&mut ctx, VoteProposal { id: 1, option: Vote::VoteYes }).unwrap();
    let p = ctx.state.get_proposal(1).unwrap();
    assert_eq!(p.state, ProposalState::Active);
    assert_eq!(p.results.unwrap().yes, Some(1));
    assert_eq!(balance(&ctx, addr(20), &Denomination::native()), 0);

    // Voting twice is refused.
    assert_eq!(
        Module::tx_votest(&mut ctx, VoteProposal { id: 1, option: Vote::VoteYes }),
        Err(Error::VoteDup)
    );

    // With 3 voters at 50%, two yes votes pass the proposal and mint.
    ctx.caller = addr(12);
    Module::tx_votest(&mut ctx, VoteProposal { id: 1, option: Vote::VoteYes }).unwrap();
    let p = ctx.state.get_proposal(1).unwrap();
    assert_eq!(p.state, ProposalState::Passed);
    assert!(p.voteOption.is_none());
    assert_eq!(balance(&ctx, addr(20), &Denomination::native()), 100);
    assert_eq!(total(&ctx, &Denomination::native()), 1100);
    assert!(Module::check_invariants(&ctx).is_ok());

    // Later votes find the proposal decided.
    ctx.caller = addr(13);
    assert_eq!(
        Module::tx_votest(&mut ctx, VoteProposal { id: 1, option: Vote::VoteYes }),
        Err(Error::InvalidState)
    );
}

#[test]
fn no_votes_reject_and_abstentions_cancel() {
    let mut ctx = ready_ctx();
    ctx.caller = addr(10);
    Module::tx_propose(&mut ctx, mint_proposal(5)).unwrap();
    Module::tx_propose(&mut ctx, mint_proposal(6)).unwrap();
    // Rejection needs (3 * 50 + 99) / 100 = 2 no votes.
    ctx.caller = addr(11);
    Module::tx_votest(&mut ctx, VoteProposal { id: 1, option: Vote::VoteNo }).unwrap();
    ctx.caller = addr(12);
    Module::tx_votest(&mut ctx, VoteProposal { id: 1, option: Vote::VoteNo }).unwrap();
    assert_eq!(ctx.state.get_proposal(1).unwrap().state, ProposalState::Rejected);
    // Cancelling needs abstentions of half of the 3 voters: 2.
    ctx.caller = addr(11);
    Module::tx_votest(&mut ctx, VoteProposal { id: 2, option: Vote::VoteAbstain }).unwrap();
    assert_eq!(ctx.state.get_proposal(2).unwrap().state, ProposalState::Active);
    ctx.caller = addr(13);
    Module::tx_votest(&mut ctx, VoteProposal { id: 2, option: Vote::VoteAbstain }).unwrap();
    assert_eq!(ctx.state.get_proposal(2).unwrap().state, ProposalState::Cancelled);
    assert_eq!(balance(&ctx, addr(20), &Denomination::native()), 0);
}

#[test]
fn votes_need_the_voter_role_and_a_known_proposal() {
    let mut ctx = ready_ctx();
    ctx.caller = addr(10);
    Module::tx_propose(&mut ctx, mint_proposal(5)).unwrap();
    // The proposer is no mint voter.
    assert_eq!(
        Module::tx_votest(&mut ctx, VoteProposal { id: 1, option: Vote::VoteYes }),
        Err(Error::InvalidRole)
    );
    ctx.caller = addr(11);
    assert_eq!(
        Module::tx_votest(&mut ctx, VoteProposal { id: 7, option: Vote::VoteYes }),
        Err(Error::InvalidRole)
    );
}

#[test]
fn proposals_are_checked() {
    let mut ctx = ready_ctx();
    // Only mint proposers and voters may propose mints.
    ctx.caller = addr(20);
    assert_eq!(Module::tx_propose(&mut ctx, mint_proposal(5)), Err(Error::InvalidRole));
    // The id is given even when the proposal is refused.
    assert_eq!(ctx.state.get_proposal_id(), Ok(1));
    // Mints go to whitelisted users only.
    ctx.caller = addr(10);
    let mut p = mint_proposal(5);
    p.data.address = Some(addr(30));
    assert_eq!(Module::tx_propose(&mut ctx, p), Err(Error::InvalidArgument));
    let mut p = mint_proposal(5);
    p.data.address = None;
    assert_eq!(Module::tx_propose(&mut ctx, p), Err(Error::NotFound));
}

#[test]
fn unknown_proposal_reads_as_default() {
    let ctx = ready_ctx();
    let p = Module::query_proposal(&ctx, 42).unwrap();
    assert_eq!(p.id, 0);
    assert_eq!(p.state, ProposalState::Active);
    assert_eq!(p.content.action, Action::NoAction);
    assert!(p.results.is_none());
}

fn auth(signers: Vec<(Address, u64)>, fee: u128, gas: u64) -> AuthInfo {
    AuthInfo {
        signer_info: signers.into_iter().map(|(address, nonce)| SignerInfo { address, nonce }).collect(),
        fee: Fee { amount: native(fee), gas },
        not_before: None,
        not_after: None,
    }
}

#[test]
fn authenticate_moves_fee_and_raises_nonce() {
    let mut ctx = funded_ctx();
    let a = auth(vec![(addr(1), 0)], 100, 10);
    Module::authenticate_tx(&mut ctx, &a).unwrap();
    assert_eq!(balance(&ctx, addr(1), &Denomination::native()), 900);
    assert_eq!(ctx.state.get_nonce(addr(1)), Ok(1));
    assert_eq!(ctx.priority, 10);
    let acc: Option<&FeeAccumulator> =
        runtime_sdk::context::ContextValue::new(&mut ctx.values, CONTEXT_KEY_FEE_ACCUMULATOR).get();
    let acc = acc.unwrap();
    assert_eq!(acc.total_fees.entries[0].1, 100);
    // The same nonce again is refused.
    assert_eq!(Module::authenticate_tx(&mut ctx, &a), Err(CoreError::InvalidNonce));
}

#[test]
fn authenticate_checks_rounds_blacklist_and_funds() {
    let mut ctx = funded_ctx();
    let mut a = auth(vec![(addr(1), 0)], 0, 10);
    a.not_before = Some(11);
    assert_eq!(Module::authenticate_tx(&mut ctx, &a), Err(CoreError::ExpiredTransaction));
    let mut a = auth(vec![(addr(1), 0)], 0, 10);
    a.not_after = Some(9);
    assert_eq!(Module::authenticate_tx(&mut ctx, &a), Err(CoreError::ExpiredTransaction));
    let a = auth(vec![(addr(1), 0)], 5000, 10);
    assert_eq!(Module::authenticate_tx(&mut ctx, &a), Err(CoreError::InsufficientFeeBalance));
    ctx.state.set_role(addr(1), Role::BlacklistedUser);
    let a = auth(vec![(addr(1), 0)], 1, 10);
    assert_eq!(Module::authenticate_tx(&mut ctx, &a), Err(CoreError::NotAuthenticated));
}

#[test]
fn checks_record_sender_and_defer_fee() {
    let mut ctx = funded_ctx();
    ctx.mode = Mode::CheckTx;
    let a = auth(vec![(addr(1), 0), (addr(2), 0)], 100, 0);
    Module::authenticate_tx(&mut ctx, &a).unwrap();
    assert_eq!(balance(&ctx, addr(1), &Denomination::native()), 1000);
    assert_eq!(ctx.state.get_nonce(addr(1)), Ok(0));
    assert_eq!(ctx.sender_meta.unwrap().address, addr(1));
    assert_eq!(ctx.priority, 0);
    Module::after_dispatch_tx(&mut ctx, &a, true);
    assert_eq!(balance(&ctx, addr(1), &Denomination::native()), 900);
    assert_eq!(ctx.state.get_nonce(addr(1)), Ok(1));
    assert_eq!(ctx.state.get_nonce(addr(2)), Ok(1));
}

#[test]
fn future_nonces_are_refused_before_scheduling() {
    let mut ctx = funded_ctx();
    ctx.mode = Mode::PreScheduleTx;
    let a = auth(vec![(addr(1), 1)], 0, 0);
    assert_eq!(Module::check_signer_nonces(&mut ctx, &a), Err(CoreError::InvalidNonce));
    ctx.state.params.debug_disable_nonce_check = true;
    assert_eq!(Module::check_signer_nonces(&mut ctx, &a), Ok(addr(1)));
}

#[test]
fn end_block_disburses_fees() {
    let mut ctx = funded_ctx();
    let fee_acc = addr(50);
    let pool = addr(51);
    Module::mint(&mut ctx, fee_acc, &native(101)).unwrap();
    let nodes = vec![addr(60), addr(61), addr(62)];
    Module::end_block(&mut ctx, fee_acc, pool, &nodes);
    // (101 - 10) / 3 = 30 to each node; the tenth (10) and the 1 that the
    // rounding leaves to the pool.
    assert_eq!(balance(&ctx, pool, &Denomination::native()), 11);
    assert_eq!(balance(&ctx, addr(61), &Denomination::native()), 30);
    assert_eq!(balance(&ctx, fee_acc, &Denomination::native()), 0);
    assert!(Module::check_invariants(&ctx).is_ok());
}

#[test]
fn end_block_without_nodes_gives_the_pool_everything() {
    let mut ctx = funded_ctx();
    let fee_acc = addr(50);
    let pool = addr(51);
    Module::mint(&mut ctx, fee_acc, &native(7)).unwrap();
    Module::end_block(&mut ctx, fee_acc, pool, &vec![]);
    assert_eq!(balance(&ctx, pool, &Denomination::native()), 7);
    assert_eq!(balance(&ctx, fee_acc, &Denomination::native()), 0);
    assert!(Module::check_invariants(&ctx).is_ok());
}

#[test]
fn end_block_moves_block_fees_to_accumulator() {
    let mut ctx = funded_ctx();
    let a = auth(vec![(addr(1), 0)], 40, 1);
    Module::authenticate_tx(&mut ctx, &a).unwrap();
    let fee_acc = addr(50);
    Module::end_block(&mut ctx, fee_acc, addr(51), &vec![]);
    assert_eq!(balance(&ctx, fee_acc, &Denomination::native()), 40);
    let left: Option<&FeeAccumulator> =
        runtime_sdk::context::ContextValue::new(&mut ctx.values, CONTEXT_KEY_FEE_ACCUMULATOR).get();
    assert!(left.is_none());
}

#[test]
fn init_from_genesis() {
    let mut ctx = ctx_with(empty_state(), addr(1));
    let mut balances: KvStore<Address, KvStore<Denomination, u128>> = KvStore::new();
    let mut b1: KvStore<Denomination, u128> = KvStore::new();
    b1.insert(Denomination::native(), 70);
    balances.insert(addr(1), b1);
    let mut b2: KvStore<Denomination, u128> = KvStore::new();
    b2.insert(Denomination::native(), 30);
    balances.insert(addr(2), b2);
    let mut totals: KvStore<Denomination, u128> = KvStore::new();
    totals.insert(Denomination::native(), 100);
    let genesis = Genesis {
        parameters: params(),
        accounts: KvStore::new(),
        balances,
        total_supplies: totals,
        roles_accounts: KvStore::new(),
    };
    Module::init(&mut ctx, genesis);
    assert_eq!(balance(&ctx, addr(2), &Denomination::native()), 30);
    assert_eq!(total(&ctx, &Denomination::native()), 100);
    assert!(Module::check_invariants(&ctx).is_ok());
}

#[test]
fn fee_accumulator_add_then_sub() {
    let mut acc = FeeAccumulator::default();
    acc.add(&native(7));
    acc.add(&native(5));
    assert_eq!(acc.total_fees.entries[0].1, 12);
    assert_eq!(acc.sub(&native(13)), Err(Error::InsufficientBalance));
    assert!(acc.sub(&native(12)).is_ok());
    assert_eq!(acc.total_fees.entries[0].1, 0);
}

#[test]
fn parameters_refuse_debug_options() {
    let mut p = params();
    assert!(p.validate_basic().is_ok());
    p.debug_disable_nonce_check = true;
    assert!(p.validate_basic().is_err());
}

#[test]
fn init_or_migrate_initializes_once() {
    let mut ctx = ctx_with(empty_state(), addr(1));
    let mut versions: KvStore<String, u32> = KvStore::new();
    let mut balances: KvStore<Address, KvStore<Denomination, u128>> = KvStore::new();
    let mut b1: KvStore<Denomination, u128> = KvStore::new();
    b1.insert(Denomination::native(), 5);
    balances.insert(addr(1), b1);
    let mut totals: KvStore<Denomination, u128> = KvStore::new();
    totals.insert(Denomination::native(), 5);
    let genesis = Genesis {
        parameters: params(),
        accounts: KvStore::new(),
        balances,
        total_supplies: totals,
        roles_accounts: KvStore::new(),
    };
    assert!(Module::init_or_migrate(&mut ctx, &mut versions, genesis));
    assert_eq!(versions.get(&"accounts".to_string()), Some(&1));
    assert_eq!(balance(&ctx, addr(1), &Denomination::native()), 5);
    // A recorded version is migrated, which changes nothing.
    let again = Genesis {
        parameters: params(),
        accounts: KvStore::new(),
        balances: KvStore::new(),
        total_supplies: KvStore::new(),
        roles_accounts: KvStore::new(),
    };
    assert!(!Module::init_or_migrate(&mut ctx, &mut versions, again));
    assert_eq!(balance(&ctx, addr(1), &Denomination::native()), 5);
    assert_eq!(versions.get(&"accounts".to_string()), Some(&1));
}

#[test]
fn add_vote_counts_and_leaves_other_tallies_absent() {
    let mut p = runtime_sdk::modules::accounts::types::Proposal::default();
    assert_eq!(p.add_vote(Vote::VoteYes), 1);
    assert_eq!(p.add_vote(Vote::VoteYes), 2);
    assert_eq!(p.add_vote(Vote::VoteNo), 1);
    let r = p.results.unwrap();
    assert_eq!((r.yes, r.no, r.abstain), (Some(2), Some(1), None));
    assert!(p.voteOption.is_none());
}
