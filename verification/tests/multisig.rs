use grainlify::address::EncodedAddress;
use grainlify::multisig::{MultiSig, MultiSigConfig, MultiSigError, Proposal};
use soroban_sdk::testutils::Address as _;
use soroban_sdk::{Address, Env};

fn addr(tag: u8) -> EncodedAddress {
    EncodedAddress::from_encoding(vec![0, 0, 0, 18, 0, 0, 0, 0, tag, tag, tag])
}

fn signers(tags: &[u8]) -> Vec<EncodedAddress> {
    tags.iter().map(|t| addr(*t)).collect()
}

fn ready(threshold: u32) -> MultiSig {
    let mut ms = MultiSig::new();
    ms.init(signers(&[1, 2, 3]), threshold).unwrap();
    ms
}

#[test]
fn init_rejects_zero_threshold() {
    let mut ms = MultiSig::new();
    assert_eq!(ms.init(signers(&[1, 2]), 0), Err(MultiSigError::InvalidThreshold));
    assert!(ms.get_config_opt().is_none());
}

#[test]
fn init_rejects_threshold_above_signer_count() {
    let mut ms = MultiSig::new();
    assert_eq!(ms.init(signers(&[1, 2]), 3), Err(MultiSigError::InvalidThreshold));
}

#[test]
fn init_stores_config_and_resets_counter() {
    let ms = ready(2);
    let c = ms.get_config_opt().unwrap();
    assert_eq!(c.threshold, 2);
    assert_eq!(c.signers.len(), 3);
    assert!(c.signers[1].same_as(&addr(2)));
    assert_eq!(ms.proposal_counter(), 0);
    assert!(!ms.is_contract_paused());
}

#[test]
fn propose_requires_initialization() {
    let mut ms = MultiSig::new();
    assert_eq!(ms.propose(&addr(1), 0), Err(MultiSigError::NotInitialized));
}

#[test]
fn propose_requires_signer() {
    let mut ms = ready(1);
    assert_eq!(ms.propose(&addr(9), 0), Err(MultiSigError::NotSigner));
    assert_eq!(ms.proposal_counter(), 0);
}

#[test]
fn propose_allocates_monotonic_ids() {
    let mut ms = ready(1);
    assert_eq!(ms.propose(&addr(1), 0), Ok(1));
    assert_eq!(ms.propose(&addr(2), 500), Ok(2));
    assert_eq!(ms.propose(&addr(3), 0), Ok(3));
    assert_eq!(ms.proposal_counter(), 3);
    let p = ms.proposal(2).unwrap();
    assert_eq!(p.expiry, 500);
    assert!(p.approvals.is_empty());
    assert!(!p.executed && !p.cancelled);
}

#[test]
fn reinit_then_propose_hits_existing_id() {
    let mut ms = ready(1);
    assert_eq!(ms.propose(&addr(1), 0), Ok(1));
    ms.init(signers(&[1, 2, 3]), 1).unwrap();
    assert_eq!(ms.proposal_counter(), 0);
    assert_eq!(ms.propose(&addr(1), 0), Err(MultiSigError::ProposalAlreadyExists));
    assert_eq!(ms.proposal_counter(), 0);
}

#[test]
fn approve_and_execute_at_threshold() {
    let mut ms = ready(2);
    let id = ms.propose(&addr(1), 0).unwrap();
    assert_eq!(ms.can_execute(id, 10), Ok(false));
    ms.approve(id, &addr(1), 10).unwrap();
    assert_eq!(ms.can_execute(id, 10), Ok(false));
    assert_eq!(ms.mark_executed(id, 10), Err(MultiSigError::ThresholdNotMet));
    ms.approve(id, &addr(3), 10).unwrap();
    assert_eq!(ms.can_execute(id, 10), Ok(true));
    assert_eq!(ms.mark_executed(id, 10), Ok(()));
    assert!(ms.proposal(id).unwrap().executed);
    assert_eq!(ms.can_execute(id, 10), Ok(false));
    assert_eq!(ms.mark_executed(id, 10), Err(MultiSigError::AlreadyExecuted));
    assert_eq!(ms.approve(id, &addr(2), 10), Err(MultiSigError::AlreadyExecuted));
}

#[test]
fn approve_rejects_duplicates_and_strangers() {
    let mut ms = ready(2);
    let id = ms.propose(&addr(1), 0).unwrap();
    ms.approve(id, &addr(2), 0).unwrap();
    assert_eq!(ms.approve(id, &addr(2), 0), Err(MultiSigError::AlreadyApproved));
    assert_eq!(ms.approve(id, &addr(7), 0), Err(MultiSigError::NotSigner));
    assert_eq!(ms.approve(42, &addr(1), 0), Err(MultiSigError::ProposalNotFound));
    assert_eq!(ms.proposal(id).unwrap().approvals.len(), 1);
}

#[test]
fn expiry_blocks_approval_and_execution() {
    let mut ms = ready(1);
    let id = ms.propose(&addr(1), 100).unwrap();
    assert_eq!(ms.is_expired(id, 99), Ok(false));
    assert_eq!(ms.is_expired(id, 100), Ok(true));
    assert_eq!(ms.approve(id, &addr(1), 100), Err(MultiSigError::ProposalExpired));
    ms.approve(id, &addr(1), 99).unwrap();
    assert_eq!(ms.can_execute(id, 99), Ok(true));
    assert_eq!(ms.can_execute(id, 150), Ok(false));
    assert_eq!(ms.mark_executed(id, 150), Err(MultiSigError::ThresholdNotMet));
}

#[test]
fn zero_expiry_never_expires() {
    let mut ms = ready(1);
    let id = ms.propose(&addr(2), 0).unwrap();
    assert_eq!(ms.is_expired(id, u64::MAX), Ok(false));
    assert_eq!(ms.is_expired(77, 0), Err(MultiSigError::ProposalNotFound));
}

#[test]
fn cancel_blocks_everything() {
    let mut ms = ready(1);
    let id = ms.propose(&addr(1), 0).unwrap();
    ms.approve(id, &addr(1), 0).unwrap();
    assert_eq!(ms.is_cancelled(id), Ok(false));
    assert_eq!(ms.cancel(id, &addr(9)), Err(MultiSigError::NotSigner));
    assert_eq!(ms.cancel(id, &addr(2)), Ok(()));
    assert_eq!(ms.is_cancelled(id), Ok(true));
    assert_eq!(ms.cancel(id, &addr(2)), Err(MultiSigError::ProposalCancelled));
    assert_eq!(ms.can_execute(id, 0), Ok(false));
    assert_eq!(ms.approve(id, &addr(3), 0), Err(MultiSigError::ProposalCancelled));
    assert_eq!(ms.mark_executed(id, 0), Err(MultiSigError::ThresholdNotMet));
}

#[test]
fn executed_proposal_cannot_be_cancelled() {
    let mut ms = ready(1);
    let id = ms.propose(&addr(1), 0).unwrap();
    ms.approve(id, &addr(1), 0).unwrap();
    ms.mark_executed(id, 0).unwrap();
    assert_eq!(ms.cancel(id, &addr(1)), Err(MultiSigError::AlreadyExecuted));
}

#[test]
fn pause_blocks_execution_until_unpaused() {
    let mut ms = ready(1);
    let id = ms.propose(&addr(1), 0).unwrap();
    ms.approve(id, &addr(1), 0).unwrap();
    assert_eq!(ms.pause(&addr(8)), Err(MultiSigError::NotSigner));
    ms.pause(&addr(2)).unwrap();
    assert!(ms.is_contract_paused());
    assert_eq!(ms.can_execute(id, 0), Ok(false));
    assert_eq!(ms.mark_executed(id, 0), Err(MultiSigError::ThresholdNotMet));
    ms.unpause(&addr(3)).unwrap();
    assert!(!ms.is_contract_paused());
    assert_eq!(ms.can_execute(id, 0), Ok(true));
}

#[test]
fn can_execute_needs_config_and_proposal() {
    let ms = MultiSig::new();
    assert_eq!(ms.can_execute(1, 0), Err(MultiSigError::NotInitialized));
    let ms = ready(1);
    assert_eq!(ms.can_execute(1, 0), Err(MultiSigError::ProposalNotFound));
}

#[test]
fn set_config_validates_threshold() {
    let mut ms = ready(1);
    let bad = MultiSigConfig { signers: signers(&[4]), threshold: 2 };
    assert_eq!(ms.set_config(bad), Err(MultiSigError::InvalidThreshold));
    assert_eq!(ms.get_config_opt().unwrap().threshold, 1);
    let good = MultiSigConfig { signers: signers(&[4, 5]), threshold: 2 };
    assert_eq!(ms.set_config(good), Ok(()));
    let c = ms.get_config_opt().unwrap();
    assert_eq!(c.threshold, 2);
    assert!(c.signers[0].same_as(&addr(4)));
    assert_eq!(ms.propose(&addr(1), 0), Err(MultiSigError::NotSigner));
}

#[test]
fn clear_config_uninitializes() {
    let mut ms = ready(1);
    ms.clear_config();
    assert!(ms.get_config_opt().is_none());
    assert_eq!(ms.propose(&addr(1), 0), Err(MultiSigError::NotInitialized));
    assert_eq!(ms.pause(&addr(1)), Err(MultiSigError::NotInitialized));
}

#[test]
fn state_loaded_from_storage_behaves_the_same() {
    let cfg = MultiSigConfig { signers: signers(&[1, 2]), threshold: 2 };
    let mut ms = MultiSig::from_storage(Some(cfg), 5, false);
    ms.load_proposal(
        5,
        Proposal { approvals: vec![addr(1)], executed: false, expiry: 0, cancelled: false },
    );
    assert_eq!(ms.can_execute(5, 0), Ok(false));
    ms.approve(5, &addr(2), 0).unwrap();
    assert_eq!(ms.can_execute(5, 0), Ok(true));
    assert_eq!(ms.propose(&addr(1), 0), Ok(6));
}

#[test]
fn soroban_addresses_are_told_apart() {
    let env = Env::default();
    let a = Address::generate(&env);
    let b = Address::generate(&env);
    let ea = EncodedAddress::from_soroban(&env, &a);
    let eb = EncodedAddress::from_soroban(&env, &b);
    let ea2 = EncodedAddress::from_soroban(&env, &a.clone());
    assert!(ea.same_as(&ea2));
    assert!(!ea.same_as(&eb));
    let mut ms = MultiSig::new();
    ms.init(vec![ea.duplicate(), eb.duplicate()], 2).unwrap();
    let id = ms.propose(&ea, 0).unwrap();
    ms.approve(id, &ea, 0).unwrap();
    ms.approve(id, &eb, 0).unwrap();
    assert_eq!(ms.can_execute(id, 0), Ok(true));
}

#[test]
fn unpause_restores_the_unpaused_engine() {
    let mut ms = ready(2);
    let id = ms.propose(&addr(1), 0).unwrap();
    ms.pause(&addr(1)).unwrap();
    ms.unpause(&addr(2)).unwrap();
    assert!(!ms.is_contract_paused());
    assert_eq!(ms.proposal_counter(), 1);
    assert_eq!(ms.can_execute(id, 0), Ok(false));
    assert_eq!(ms.get_config_opt().unwrap().threshold, 2);
}

#[test]
fn failed_operations_leave_state_unchanged() {
    let mut ms = ready(1);
    let id = ms.propose(&addr(1), 10).unwrap();
    assert_eq!(ms.approve(id, &addr(1), 10), Err(MultiSigError::ProposalExpired));
    assert!(ms.proposal(id).unwrap().approvals.is_empty());
    assert_eq!(ms.mark_executed(id, 0), Err(MultiSigError::ThresholdNotMet));
    assert!(!ms.proposal(id).unwrap().executed);
    assert_eq!(ms.proposal_counter(), 1);
}

#[test]
fn authorize_signer_checks_config_and_membership() {
    let ms = MultiSig::new();
    assert_eq!(ms.authorize_signer(&addr(1)), Err(MultiSigError::NotInitialized));
    let ms = ready(1);
    assert_eq!(ms.authorize_signer(&addr(3)), Ok(()));
    assert_eq!(ms.authorize_signer(&addr(4)), Err(MultiSigError::NotSigner));
}

#[test]
fn soroban_address_encoding_has_address_shape() {
    let env = Env::default();
    let generated = Address::generate(&env);
    let account =
        Address::from_str(&env, "GA7QYNF7SOWQ3GLR2BGMZEHXAVIRZA4KVWLTJJFC7MGXUA74P7UJVSGZ");
    for a in [generated, account] {
        let e = EncodedAddress::from_soroban(&env, &a);
        let bytes = e.encoding();
        assert!(bytes.len() >= 40 && bytes.len() <= 48);
        assert_eq!(&bytes[0..4], &[0, 0, 0, 18]);
    }
}

#[test]
fn execution_stays_final_after_other_operations() {
    let mut ms = ready(1);
    let id = ms.propose(&addr(1), 0).unwrap();
    ms.approve(id, &addr(1), 0).unwrap();
    ms.mark_executed(id, 0).unwrap();
    ms.pause(&addr(2)).unwrap();
    ms.unpause(&addr(2)).unwrap();
    ms.set_config(MultiSigConfig { signers: signers(&[1, 2]), threshold: 1 }).unwrap();
    ms.propose(&addr(2), 0).unwrap();
    assert_eq!(ms.mark_executed(id, 5), Err(MultiSigError::AlreadyExecuted));
    assert_eq!(ms.approve(id, &addr(2), 5), Err(MultiSigError::AlreadyExecuted));
    assert_eq!(ms.can_execute(id, 5), Ok(false));
}

#[test]
fn config_reads_back_last_write() {
    let mut ms = MultiSig::new();
    assert!(ms.get_config_opt().is_none());
    ms.init(signers(&[1, 2]), 2).unwrap();
    ms.pause(&addr(1)).unwrap();
    let _ = ms.set_config(MultiSigConfig { signers: signers(&[3]), threshold: 5 });
    assert_eq!(ms.get_config_opt().unwrap().threshold, 2);
    ms.clear_config();
    assert!(ms.get_config_opt().is_none());
    assert!(ms.is_contract_paused());
}

#[test]
fn engine_states_are_never_inconsistent() {
    let mut ms = MultiSig::new();
    assert!(!ms.is_state_inconsistent());
    ms.init(signers(&[1, 2]), 2).unwrap();
    assert!(!ms.is_state_inconsistent());
    let _ = ms.set_config(MultiSigConfig { signers: signers(&[1]), threshold: 2 });
    assert!(!ms.is_state_inconsistent());
    ms.clear_config();
    assert!(!ms.is_state_inconsistent());
}
