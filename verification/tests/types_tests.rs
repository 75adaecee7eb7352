use runtime_sdk::modules::consensus_accounts::{ConsensusError, MessageEvent};
use runtime_sdk::types::cbor::{DecodeError, Value};
use runtime_sdk::types::proposal::{Meta, ProposalState};
use runtime_sdk::types::role::Role;
use runtime_sdk::types::token::Denomination;
use runtime_sdk::types::vote::{Action, Vote};

#[test]
fn role_bytes_round_trip() {
    let roles = [
        Role::Admin,
        Role::MintProposer,
        Role::MintVoter,
        Role::BurnProposer,
        Role::BurnVoter,
        Role::WhitelistProposer,
        Role::WhitelistVoter,
        Role::BlacklistProposer,
        Role::BlacklistVoter,
        Role::WhitelistedUser,
        Role::BlacklistedUser,
        Role::User,
    ];
    for (i, r) in roles.iter().enumerate() {
        assert_eq!(r.marshal_binary(), [i as u8]);
        assert_eq!(Role::from_bytes(&[i as u8]).unwrap(), *r);
        assert_eq!(Role::try_from_cbor_value(r.into_cbor_value()).unwrap(), *r);
    }
    assert!(Role::from_bytes(&[12]).is_err());
    assert!(Role::from_bytes(&[0, 0]).is_err());
    assert_eq!(Role::MintVoter.to_string(), "MintVoter");
}

#[test]
fn vote_and_action_encodings() {
    assert_eq!(Vote::VoteYes.to_u8(), 0);
    assert_eq!(Vote::VoteAbstain.to_u8(), 2);
    assert_eq!(Vote::try_from_cbor_value(Vote::VoteAbstain.into_cbor_value()).unwrap(), Vote::VoteAbstain);
    assert_eq!(Action::try_from_cbor_value(Action::Config.into_cbor_value()).unwrap(), Action::Config);
    assert!(matches!(
        Action::try_from_cbor_value(Value::Unsigned(1)),
        Err(DecodeError::UnexpectedType)
    ));
}

#[test]
fn proposal_state_encodings() {
    assert_eq!(ProposalState::Rejected.marshal_binary(), [2]);
    assert_eq!(ProposalState::Cancelled.to_string(), "Cancelled");
    assert_eq!(
        ProposalState::try_from_cbor_value(ProposalState::Expired.into_cbor_value()).unwrap(),
        ProposalState::Expired
    );
    assert!(ProposalState::try_from_cbor_value(Value::ByteString(vec![9])).is_err());
}

#[test]
fn meta_cbor() {
    let m = Meta::default();
    match m.into_cbor_value() {
        Value::ByteString(b) => assert_eq!(b, vec![0u8; 64]),
        _ => panic!("byte string expected"),
    }
}

#[test]
fn denomination_length_limit() {
    assert!(Denomination::from_bytes(&[1u8; 32]).is_some());
    assert!(Denomination::from_bytes(&[1u8; 33]).is_none());
    assert_eq!(Denomination::native().as_bytes(), &[] as &[u8]);
}

#[test]
fn consensus_error_from_message_event() {
    let me = MessageEvent { module: "staking".to_string(), code: 4, index: 0 };
    assert!(!me.is_success());
    let e: ConsensusError = me.into();
    assert_eq!(e.module, "staking");
    assert_eq!(e.code, 4);
}

#[test]
fn meta_decodes_padded_up_to_its_size() {
    let m = Meta::try_from_cbor_value(Value::ByteString(vec![1, 2, 3])).unwrap();
    assert_eq!(&m.0[..3], &[1, 2, 3]);
    assert!(m.0[3..].iter().all(|b| *b == 0));
    let full = Meta::try_from_cbor_value(Value::ByteString(vec![9u8; 64])).unwrap();
    assert_eq!(full.0, [9u8; 64]);
    assert_eq!(
        Meta::try_from_cbor_value(Value::ByteString(vec![0u8; 65])),
        Err(DecodeError::UnexpectedType)
    );
    assert_eq!(Meta::try_from_cbor_value(Value::Unsigned(1)), Err(DecodeError::UnexpectedType));
}
