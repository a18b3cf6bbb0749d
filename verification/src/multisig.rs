//! Multisig approval engine used by Grainlify upgrade flows.
//!
//! Proposal identifiers are allocated from a monotonic counter and are
//! stable handles for the later approval and execution steps.
//!
//! ```text
//! propose(expiry) → approve* → can_execute → mark_executed
//!                     └──────────────────────── cancel ──┘
//! ```
//!
//! - Expiry: a ledger timestamp in seconds. When `expiry > 0` and the
//!   current ledger time is `>= expiry`, the proposal is expired and can no
//!   longer be approved or executed.
//! - Cancellation: any signer may cancel a pending proposal before it is
//!   executed. Cancelling twice, or cancelling an executed proposal, fails.
//!
//! The engine's state is what the contract keeps in storage: the
//! configuration, the proposals by id, the proposal counter and the pause
//! flag. Every operation that fails leaves the state as it was.

use crate::address::{contains_address, duplicate_addresses, encodings, EncodedAddress};
use std::collections::HashMap;
use vstd::prelude::*;

verus! {

broadcast use vstd::std_specs::hash::group_hash_axioms;

/// Errors of the multisig engine.
#[derive(Clone, Copy, Debug, PartialEq, Eq, Structural)]
pub enum MultiSigError {
    NotSigner,
    AlreadyApproved,
    ProposalNotFound,
    ProposalAlreadyExists,
    AlreadyExecuted,
    ThresholdNotMet,
    InvalidThreshold,
    ContractPaused,
    StateInconsistent,
    /// The proposal's expiry timestamp has passed.
    ProposalExpired,
    /// The proposal was explicitly cancelled.
    ProposalCancelled,
    /// No configuration has been set.
    NotInitialized,
}

/// Multisig configuration: the signer set and the approval threshold.
#[derive(Debug)]
pub struct MultiSigConfig {
    /// Ordered signer set authorized to create and approve proposals.
    pub signers: Vec<EncodedAddress>,
    /// Minimum number of distinct signer approvals required for execution.
    pub threshold: u32,
}

/// A configuration by the encodings of its signers.
#[verifier::ext_equal]
pub struct ConfigView {
    pub signers: Seq<Seq<u8>>,
    pub threshold: u32,
}

impl View for MultiSigConfig {
    type V = ConfigView;

    open spec fn view(&self) -> ConfigView {
        ConfigView { signers: encodings(self.signers@), threshold: self.threshold }
    }
}

impl MultiSigConfig {
    /// A second copy of this configuration.
    pub fn duplicate(&self) -> (c: MultiSigConfig)
        ensures
            c@ == self@,
    {
        MultiSigConfig { signers: duplicate_addresses(&self.signers), threshold: self.threshold }
    }
}

/// A proposal awaiting approvals and execution.
#[derive(Debug)]
pub struct Proposal {
    /// Signers that have approved this proposal.
    pub approvals: Vec<EncodedAddress>,
    /// Whether the proposal has already been consumed by execution.
    pub executed: bool,
    /// Expiry ledger timestamp (seconds). `0` means the proposal never expires.
    pub expiry: u64,
    /// Whether the proposal has been explicitly cancelled by a signer.
    pub cancelled: bool,
}

/// A proposal by the encodings of its approvers.
#[verifier::ext_equal]
pub struct ProposalView {
    pub approvals: Seq<Seq<u8>>,
    pub executed: bool,
    pub expiry: u64,
    pub cancelled: bool,
}

impl View for Proposal {
    type V = ProposalView;

    open spec fn view(&self) -> ProposalView {
        ProposalView {
            approvals: encodings(self.approvals@),
            executed: self.executed,
            expiry: self.expiry,
            cancelled: self.cancelled,
        }
    }
}

impl Proposal {
    /// A second copy of this proposal.
    pub fn duplicate(&self) -> (p: Proposal)
        ensures
            p@ == self@,
    {
        Proposal {
            approvals: duplicate_addresses(&self.approvals),
            executed: self.executed,
            expiry: self.expiry,
            cancelled: self.cancelled,
        }
    }
}

/// The whole state of the engine.
#[verifier::ext_equal]
pub struct MultiSigView {
    pub config: Option<ConfigView>,
    pub proposals: Map<u64, ProposalView>,
    pub counter: u64,
    pub paused: bool,
}

/// The multisig engine and the state it keeps.
pub struct MultiSig {
    config: Option<MultiSigConfig>,
    proposals: HashMap<u64, Proposal>,
    counter: u64,
    paused: bool,
}

impl View for MultiSig {
    type V = MultiSigView;

    closed spec fn view(&self) -> MultiSigView {
        MultiSigView {
            config: match self.config {
                Some(c) => Some(c@),
                None => None,
            },
            proposals: self.proposals@.map_values(|p: Proposal| p@),
            counter: self.counter,
            paused: self.paused,
        }
    }
}

// ---------------------------------------------------------------------------
// What each operation does, over the state's view.
// ---------------------------------------------------------------------------

/// A threshold that the signer set can meet: at least one, at most the
/// number of signers.
pub open spec fn valid_threshold(signer_count: nat, threshold: u32) -> bool {
    threshold != 0 && threshold <= signer_count
}

/// The stored configuration cannot be met.
pub open spec fn state_inconsistent(st: MultiSigView) -> bool {
    match st.config {
        Some(c) => !valid_threshold(c.signers.len(), c.threshold),
        None => false,
    }
}

/// The proposal has passed its expiry at time `now`.
pub open spec fn expired(p: ProposalView, now: u64) -> bool {
    p.expiry != 0 && now >= p.expiry
}

/// The configuration, or `NotInitialized`.
pub open spec fn config_of(st: MultiSigView) -> Result<ConfigView, MultiSigError> {
    match st.config {
        Some(c) => Ok(c),
        None => Err(MultiSigError::NotInitialized),
    }
}

/// The configuration, provided `signer` is one of its signers.
pub open spec fn signer_config(st: MultiSigView, signer: Seq<u8>) -> Result<ConfigView, MultiSigError> {
    match st.config {
        None => Err(MultiSigError::NotInitialized),
        Some(c) => if c.signers.contains(signer) {
            Ok(c)
        } else {
            Err(MultiSigError::NotSigner)
        },
    }
}

/// The proposal with id `id`, or `ProposalNotFound`.
pub open spec fn proposal_of(st: MultiSigView, id: u64) -> Result<ProposalView, MultiSigError> {
    if st.proposals.contains_key(id) {
        Ok(st.proposals[id])
    } else {
        Err(MultiSigError::ProposalNotFound)
    }
}

/// `st` with proposal `id` set to `p`.
pub open spec fn with_proposal(st: MultiSigView, id: u64, p: ProposalView) -> MultiSigView {
    MultiSigView {
        config: st.config,
        proposals: st.proposals.insert(id, p),
        counter: st.counter,
        paused: st.paused,
    }
}

/// The state before any operation: nothing stored.
pub open spec fn empty_state() -> MultiSigView {
    MultiSigView { config: None, proposals: Map::empty(), counter: 0, paused: false }
}

/// `init`: a threshold the signers can meet sets the configuration and
/// resets the counter.
pub open spec fn init_spec(st: MultiSigView, signers: Seq<Seq<u8>>, threshold: u32) -> Result<
    MultiSigView,
    MultiSigError,
> {
    if !valid_threshold(signers.len(), threshold) {
        Err(MultiSigError::InvalidThreshold)
    } else {
        Ok(
            MultiSigView {
                config: Some(ConfigView { signers, threshold }),
                proposals: st.proposals,
                counter: 0,
                paused: st.paused,
            },
        )
    }
}

/// A proposer that passes the configuration and signer checks.
pub open spec fn may_propose(st: MultiSigView, proposer: Seq<u8>) -> bool {
    signer_config(st, proposer) is Ok
}

/// `propose`: a signer adds a fresh proposal under the next id.
pub open spec fn propose_spec(st: MultiSigView, proposer: Seq<u8>, expiry: u64) -> Result<
    (MultiSigView, u64),
    MultiSigError,
> {
    match signer_config(st, proposer) {
        Err(e) => Err(e),
        Ok(_) => {
            let id = (st.counter + 1) as u64;
            if st.proposals.contains_key(id) {
                Err(MultiSigError::ProposalAlreadyExists)
            } else {
                let fresh = ProposalView {
                    approvals: Seq::empty(),
                    executed: false,
                    expiry,
                    cancelled: false,
                };
                Ok(
                    (
                        MultiSigView {
                            config: st.config,
                            proposals: st.proposals.insert(id, fresh),
                            counter: id,
                            paused: st.paused,
                        },
                        id,
                    ),
                )
            }
        },
    }
}

/// `approve`: a signer that has not yet approved a live proposal adds its
/// approval.
pub open spec fn approve_spec(st: MultiSigView, id: u64, signer: Seq<u8>, now: u64) -> Result<
    MultiSigView,
    MultiSigError,
> {
    match signer_config(st, signer) {
        Err(e) => Err(e),
        Ok(_) => match proposal_of(st, id) {
            Err(e) => Err(e),
            Ok(p) => if p.executed {
                Err(MultiSigError::AlreadyExecuted)
            } else if p.cancelled {
                Err(MultiSigError::ProposalCancelled)
            } else if expired(p, now) {
                Err(MultiSigError::ProposalExpired)
            } else if p.approvals.contains(signer) {
                Err(MultiSigError::AlreadyApproved)
            } else {
                Ok(
                    with_proposal(
                        st,
                        id,
                        ProposalView {
                            approvals: p.approvals.push(signer),
                            executed: p.executed,
                            expiry: p.expiry,
                            cancelled: p.cancelled,
                        },
                    ),
                )
            },
        },
    }
}

/// `pause` / `unpause`: a signer sets the pause flag.
pub open spec fn set_paused_spec(st: MultiSigView, signer: Seq<u8>, paused: bool) -> Result<
    MultiSigView,
    MultiSigError,
> {
    match signer_config(st, signer) {
        Err(e) => Err(e),
        Ok(_) => Ok(
            MultiSigView {
                config: st.config,
                proposals: st.proposals,
                counter: st.counter,
                paused,
            },
        ),
    }
}

/// `can_execute`: whether a live proposal of an unpaused, consistent engine
/// has met the threshold.
pub open spec fn can_execute_spec(st: MultiSigView, id: u64, now: u64) -> Result<
    bool,
    MultiSigError,
> {
    if st.paused || state_inconsistent(st) {
        Ok(false)
    } else {
        match config_of(st) {
            Err(e) => Err(e),
            Ok(c) => match proposal_of(st, id) {
                Err(e) => Err(e),
                Ok(p) => if p.executed || p.cancelled {
                    Ok(false)
                } else if expired(p, now) {
                    Ok(false)
                } else {
                    Ok(p.approvals.len() >= c.threshold)
                },
            },
        }
    }
}

/// `is_expired`: whether the proposal has passed its expiry.
pub open spec fn is_expired_spec(st: MultiSigView, id: u64, now: u64) -> Result<
    bool,
    MultiSigError,
> {
    match proposal_of(st, id) {
        Err(e) => Err(e),
        Ok(p) => Ok(expired(p, now)),
    }
}

/// `is_cancelled`: whether the proposal was cancelled.
pub open spec fn is_cancelled_spec(st: MultiSigView, id: u64) -> Result<bool, MultiSigError> {
    match proposal_of(st, id) {
        Err(e) => Err(e),
        Ok(p) => Ok(p.cancelled),
    }
}

/// `mark_executed`: an executable proposal becomes executed.
pub open spec fn mark_executed_spec(st: MultiSigView, id: u64, now: u64) -> Result<
    MultiSigView,
    MultiSigError,
> {
    match proposal_of(st, id) {
        Err(e) => Err(e),
        Ok(p) => if p.executed {
            Err(MultiSigError::AlreadyExecuted)
        } else {
            match can_execute_spec(st, id, now) {
                Err(e) => Err(e),
                Ok(false) => Err(MultiSigError::ThresholdNotMet),
                Ok(true) => Ok(
                    with_proposal(
                        st,
                        id,
                        ProposalView {
                            approvals: p.approvals,
                            executed: true,
                            expiry: p.expiry,
                            cancelled: p.cancelled,
                        },
                    ),
                ),
            }
        },
    }
}

/// `cancel`: a signer cancels a proposal that is neither executed nor
/// cancelled.
pub open spec fn cancel_spec(st: MultiSigView, id: u64, signer: Seq<u8>) -> Result<
    MultiSigView,
    MultiSigError,
> {
    match signer_config(st, signer) {
        Err(e) => Err(e),
        Ok(_) => match proposal_of(st, id) {
            Err(e) => Err(e),
            Ok(p) => if p.executed {
                Err(MultiSigError::AlreadyExecuted)
            } else if p.cancelled {
                Err(MultiSigError::ProposalCancelled)
            } else {
                Ok(
                    with_proposal(
                        st,
                        id,
                        ProposalView {
                            approvals: p.approvals,
                            executed: p.executed,
                            expiry: p.expiry,
                            cancelled: true,
                        },
                    ),
                )
            },
        },
    }
}

/// `set_config`: a configuration whose threshold can be met replaces the
/// current one.
pub open spec fn set_config_spec(st: MultiSigView, config: ConfigView) -> Result<
    MultiSigView,
    MultiSigError,
> {
    if !valid_threshold(config.signers.len(), config.threshold) {
        Err(MultiSigError::InvalidThreshold)
    } else {
        Ok(
            MultiSigView {
                config: Some(config),
                proposals: st.proposals,
                counter: st.counter,
                paused: st.paused,
            },
        )
    }
}

/// `clear_config`: the configuration is removed.
pub open spec fn clear_config_spec(st: MultiSigView) -> MultiSigView {
    MultiSigView { config: None, proposals: st.proposals, counter: st.counter, paused: st.paused }
}

/// An operation that changes state did what `expected` says: on success the
/// new state is the expected one, on failure the error is the expected one
/// and the state is unchanged.
pub open spec fn changed_as(
    before: MultiSigView,
    after: MultiSigView,
    r: Result<(), MultiSigError>,
    expected: Result<MultiSigView, MultiSigError>,
) -> bool {
    match expected {
        Ok(st) => r is Ok && after == st,
        Err(e) => r == Err::<(), MultiSigError>(e) && after == before,
    }
}

impl MultiSig {
    /// The engine over empty storage.
    pub fn new() -> (m: MultiSig)
        ensures
            m@ == empty_state(),
    {
        let m = MultiSig { config: None, proposals: HashMap::new(), counter: 0, paused: false };
        assert(m@ =~= empty_state());
        m
    }

    /// The engine over stored state read back: the configuration, the
    /// proposal counter and the pause flag, with no proposal loaded yet.
    pub fn from_storage(config: Option<MultiSigConfig>, counter: u64, paused: bool) -> (m: MultiSig)
        ensures
            m@ == (MultiSigView {
                config: match config {
                    Some(c) => Some(c@),
                    None => None,
                },
                proposals: Map::empty(),
                counter,
                paused,
            }),
    {
        let m = MultiSig { config, proposals: HashMap::new(), counter, paused };
        assert(m@.proposals =~= Map::<u64, ProposalView>::empty());
        m
    }

    /// Load a stored proposal under its id.
    pub fn load_proposal(&mut self, id: u64, proposal: Proposal)
        ensures
            final(self)@ == with_proposal(old(self)@, id, proposal@),
    {
        let ghost pv = proposal@;
        self.proposals.insert(id, proposal);
        assert(self@.proposals =~= old(self)@.proposals.insert(id, pv));
        assert(self@ =~= with_proposal(old(self)@, id, pv));
    }

    /// The proposal with id `id`, if there is one.
    pub fn proposal(&self, id: u64) -> (p: Option<&Proposal>)
        ensures
            match p {
                Some(p) => self@.proposals.contains_key(id) && self@.proposals[id] == p@,
                None => !self@.proposals.contains_key(id),
            },
    {
        self.proposals.get(&id)
    }

    /// The id of the latest proposal, `0` before any.
    pub fn proposal_counter(&self) -> (c: u64)
        ensures
            c == self@.counter,
    {
        self.counter
    }

    /// The configuration, if there is one.
    pub fn config(&self) -> (c: Option<&MultiSigConfig>)
        ensures
            match c {
                Some(c) => self@.config == Some(c@),
                None => self@.config is None,
            },
    {
        self.config.as_ref()
    }

    fn get_config(&self) -> (r: Result<&MultiSigConfig, MultiSigError>)
        ensures
            match r {
                Ok(c) => config_of(self@) == Ok::<ConfigView, MultiSigError>(c@),
                Err(e) => config_of(self@) == Err::<ConfigView, MultiSigError>(e),
            },
    {
        match &self.config {
            Some(c) => Ok(c),
            None => Err(MultiSigError::NotInitialized),
        }
    }

    fn assert_signer(config: &MultiSigConfig, signer: &EncodedAddress) -> (r: Result<
        (),
        MultiSigError,
    >)
        ensures
            r is Ok <==> config@.signers.contains(signer@),
            r is Err ==> r == Err::<(), MultiSigError>(MultiSigError::NotSigner),
    {
        if !contains_address(&config.signers, signer) {
            return Err(MultiSigError::NotSigner);
        }
        Ok(())
    }

    /// Whether `signer` may act: the engine is configured and `signer` is
    /// one of its signers.
    pub fn authorize_signer(&self, signer: &EncodedAddress) -> (r: Result<(), MultiSigError>)
        ensures
            match signer_config(self@, signer@) {
                Ok(_) => r is Ok,
                Err(e) => r == Err::<(), MultiSigError>(e),
            },
    {
        let config = match self.get_config() {
            Ok(c) => c,
            Err(e) => return Err(e),
        };
        Self::assert_signer(config, signer)
    }

    fn get_proposal(&self, proposal_id: u64) -> (r: Result<&Proposal, MultiSigError>)
        ensures
            match r {
                Ok(p) => proposal_of(self@, proposal_id) == Ok::<ProposalView, MultiSigError>(p@),
                Err(e) => proposal_of(self@, proposal_id) == Err::<ProposalView, MultiSigError>(e),
            },
    {
        match self.proposals.get(&proposal_id) {
            Some(p) => Ok(p),
            None => Err(MultiSigError::ProposalNotFound),
        }
    }

    fn proposal_is_expired(proposal: &Proposal, now: u64) -> (r: bool)
        ensures
            r == expired(proposal@, now),
    {
        proposal.expiry != 0 && now >= proposal.expiry
    }

    /// Replace proposal `id`, which is stored, by `p`.
    fn replace_proposal(&mut self, id: u64, p: Proposal)
        requires
            old(self)@.proposals.contains_key(id),
        ensures
            final(self)@ == with_proposal(old(self)@, id, p@),
    {
        let ghost pv = p@;
        self.proposals.insert(id, p);
        assert(self@.proposals =~= old(self)@.proposals.insert(id, pv));
        assert(self@ =~= with_proposal(old(self)@, id, pv));
    }

    /// Initializes the signer set and execution threshold, and resets the
    /// proposal counter.
    pub fn init(&mut self, signers: Vec<EncodedAddress>, threshold: u32) -> (r: Result<
        (),
        MultiSigError,
    >)
        ensures
            changed_as(old(self)@, final(self)@, r, init_spec(old(self)@, encodings(signers@), threshold)),
            init_law(old(self)@, final(self)@, encodings(signers@), threshold, r),
    {
        proof {
            lemma_operations_follow_laws(old(self)@, 0, Seq::empty(), 0, 0, encodings(signers@), threshold, ConfigView { signers: Seq::empty(), threshold: 0 }, false);
        }
        if threshold == 0 || threshold as usize > signers.len() {
            return Err(MultiSigError::InvalidThreshold);
        }
        let ghost sv = encodings(signers@);
        self.config = Some(MultiSigConfig { signers, threshold });
        self.counter = 0;
        assert(self@ =~= init_spec(old(self)@, sv, threshold)->Ok_0);
        Ok(())
    }

    /// Creates a new proposal and returns its identifier: one more than the
    /// counter, which then takes that value.
    pub fn propose(&mut self, proposer: &EncodedAddress, expiry: u64) -> (r: Result<
        u64,
        MultiSigError,
    >)
        requires
            may_propose(old(self)@, proposer@) ==> old(self)@.counter < u64::MAX,
        ensures
            match propose_spec(old(self)@, proposer@, expiry) {
                Ok((st, id)) => r == Ok::<u64, MultiSigError>(id) && final(self)@ == st,
                Err(e) => r == Err::<u64, MultiSigError>(e) && final(self)@ == old(self)@,
            },
            propose_law(old(self)@, final(self)@, proposer@, expiry, r),
    {
        proof {
            lemma_operations_follow_laws(old(self)@, 0, proposer@, 0, expiry, Seq::empty(), 0, ConfigView { signers: Seq::empty(), threshold: 0 }, false);
        }
        let config = match self.get_config() {
            Ok(c) => c,
            Err(e) => return Err(e),
        };
        match Self::assert_signer(config, proposer) {
            Ok(()) => {},
            Err(e) => return Err(e),
        }
        let counter = self.counter + 1;
        if self.proposals.contains_key(&counter) {
            return Err(MultiSigError::ProposalAlreadyExists);
        }
        let proposal = Proposal { approvals: Vec::new(), executed: false, expiry, cancelled: false };
        let ghost pv = proposal@;
        assert(pv =~= ProposalView {
            approvals: Seq::empty(),
            executed: false,
            expiry,
            cancelled: false,
        });
        self.proposals.insert(counter, proposal);
        self.counter = counter;
        assert(self@.proposals =~= old(self)@.proposals.insert(counter, pv));
        Ok(counter)
    }

    /// Records a signer approval for an existing proposal.
    pub fn approve(&mut self, proposal_id: u64, signer: &EncodedAddress, now: u64) -> (r: Result<
        (),
        MultiSigError,
    >)
        ensures
            changed_as(old(self)@, final(self)@, r, approve_spec(old(self)@, proposal_id, signer@, now)),
            approve_law(old(self)@, final(self)@, proposal_id, signer@, now, r),
    {
        proof {
            lemma_operations_follow_laws(old(self)@, proposal_id, signer@, now, 0, Seq::empty(), 0, ConfigView { signers: Seq::empty(), threshold: 0 }, false);
        }
        let config = match self.get_config() {
            Ok(c) => c,
            Err(e) => return Err(e),
        };
        match Self::assert_signer(config, signer) {
            Ok(()) => {},
            Err(e) => return Err(e),
        }
        let proposal = match self.get_proposal(proposal_id) {
            Ok(p) => p,
            Err(e) => return Err(e),
        };
        if proposal.executed {
            return Err(MultiSigError::AlreadyExecuted);
        }
        if proposal.cancelled {
            return Err(MultiSigError::ProposalCancelled);
        }
        if Self::proposal_is_expired(proposal, now) {
            return Err(MultiSigError::ProposalExpired);
        }
        if contains_address(&proposal.approvals, signer) {
            return Err(MultiSigError::AlreadyApproved);
        }
        let mut updated = proposal.duplicate();
        updated.approvals.push(signer.duplicate());
        assert(updated@.approvals =~= proposal@.approvals.push(signer@));
        self.replace_proposal(proposal_id, updated);
        Ok(())
    }

    fn set_paused(&mut self, signer: &EncodedAddress, paused: bool) -> (r: Result<
        (),
        MultiSigError,
    >)
        ensures
            changed_as(old(self)@, final(self)@, r, set_paused_spec(old(self)@, signer@, paused)),
    {
        let config = match self.get_config() {
            Ok(c) => c,
            Err(e) => return Err(e),
        };
        match Self::assert_signer(config, signer) {
            Ok(()) => {},
            Err(e) => return Err(e),
        }
        self.paused = paused;
        assert(self@ =~= set_paused_spec(old(self)@, signer@, paused)->Ok_0);
        Ok(())
    }

    /// Emergency pause: a signer sets the paused flag.
    pub fn pause(&mut self, signer: &EncodedAddress) -> (r: Result<(), MultiSigError>)
        ensures
            changed_as(old(self)@, final(self)@, r, set_paused_spec(old(self)@, signer@, true)),
            set_paused_law(old(self)@, final(self)@, signer@, true, r),
    {
        proof {
            lemma_operations_follow_laws(old(self)@, 0, signer@, 0, 0, Seq::empty(), 0, ConfigView { signers: Seq::empty(), threshold: 0 }, true);
        }
        self.set_paused(signer, true)
    }

    /// A signer clears the paused flag.
    pub fn unpause(&mut self, signer: &EncodedAddress) -> (r: Result<(), MultiSigError>)
        ensures
            changed_as(old(self)@, final(self)@, r, set_paused_spec(old(self)@, signer@, false)),
            set_paused_law(old(self)@, final(self)@, signer@, false, r),
    {
        proof {
            lemma_operations_follow_laws(old(self)@, 0, signer@, 0, 0, Seq::empty(), 0, ConfigView { signers: Seq::empty(), threshold: 0 }, false);
        }
        self.set_paused(signer, false)
    }

    /// Returns `true` when emergency pause is active.
    pub fn is_contract_paused(&self) -> (p: bool)
        ensures
            p == self@.paused,
    {
        self.paused
    }

    /// Whether the stored configuration cannot be met; never so in a state
    /// reached through this engine (`lemma_reachable_states_well_formed`).
    pub fn is_state_inconsistent(&self) -> (r: bool)
        ensures
            r == state_inconsistent(self@),
            r == (self@.config matches Some(c) && (c.threshold == 0 || c.threshold > c.signers.len())),
    {
        match &self.config {
            None => false,
            Some(config) => config.threshold == 0 || config.threshold as usize > config.signers.len(),
        }
    }

    /// Whether a proposal currently satisfies the execution threshold at
    /// ledger time `now`: `false` while paused or inconsistent, and for an
    /// executed, cancelled or expired proposal.
    pub fn can_execute(&self, proposal_id: u64, now: u64) -> (r: Result<bool, MultiSigError>)
        ensures
            r == can_execute_spec(self@, proposal_id, now),
            can_execute_law(self@, proposal_id, now, r),
    {
        proof {
            lemma_operations_follow_laws(self@, proposal_id, Seq::empty(), now, 0, Seq::empty(), 0, ConfigView { signers: Seq::empty(), threshold: 0 }, false);
        }
        if self.is_contract_paused() || self.is_state_inconsistent() {
            return Ok(false);
        }
        let config = match self.get_config() {
            Ok(c) => c,
            Err(e) => return Err(e),
        };
        let proposal = match self.get_proposal(proposal_id) {
            Ok(p) => p,
            Err(e) => return Err(e),
        };
        if proposal.executed || proposal.cancelled {
            return Ok(false);
        }
        if Self::proposal_is_expired(proposal, now) {
            return Ok(false);
        }
        Ok(proposal.approvals.len() >= config.threshold as usize)
    }

    /// Whether the proposal has passed its expiry at ledger time `now`;
    /// always `false` for a proposal without expiry.
    pub fn is_expired(&self, proposal_id: u64, now: u64) -> (r: Result<bool, MultiSigError>)
        ensures
            r == is_expired_spec(self@, proposal_id, now),
            r == (if self@.proposals.contains_key(proposal_id) {
                Ok::<bool, MultiSigError>(
                    self@.proposals[proposal_id].expiry != 0 && now >= self@.proposals[proposal_id].expiry,
                )
            } else {
                Err(MultiSigError::ProposalNotFound)
            }),
    {
        let proposal = match self.get_proposal(proposal_id) {
            Ok(p) => p,
            Err(e) => return Err(e),
        };
        Ok(Self::proposal_is_expired(proposal, now))
    }

    /// Whether the proposal has been explicitly cancelled.
    pub fn is_cancelled(&self, proposal_id: u64) -> (r: Result<bool, MultiSigError>)
        ensures
            r == is_cancelled_spec(self@, proposal_id),
            r == (if self@.proposals.contains_key(proposal_id) {
                Ok::<bool, MultiSigError>(self@.proposals[proposal_id].cancelled)
            } else {
                Err(MultiSigError::ProposalNotFound)
            }),
    {
        let proposal = match self.get_proposal(proposal_id) {
            Ok(p) => p,
            Err(e) => return Err(e),
        };
        Ok(proposal.cancelled)
    }

    /// Marks a proposal as executed after the guarded action succeeds.
    pub fn mark_executed(&mut self, proposal_id: u64, now: u64) -> (r: Result<(), MultiSigError>)
        ensures
            changed_as(old(self)@, final(self)@, r, mark_executed_spec(old(self)@, proposal_id, now)),
            mark_executed_law(old(self)@, final(self)@, proposal_id, now, r),
    {
        proof {
            lemma_operations_follow_laws(old(self)@, proposal_id, Seq::empty(), now, 0, Seq::empty(), 0, ConfigView { signers: Seq::empty(), threshold: 0 }, false);
        }
        let proposal = match self.get_proposal(proposal_id) {
            Ok(p) => p,
            Err(e) => return Err(e),
        };
        if proposal.executed {
            return Err(MultiSigError::AlreadyExecuted);
        }
        match self.can_execute(proposal_id, now) {
            Err(e) => return Err(e),
            Ok(false) => return Err(MultiSigError::ThresholdNotMet),
            Ok(true) => {},
        }
        let mut updated = proposal.duplicate();
        updated.executed = true;
        self.replace_proposal(proposal_id, updated);
        Ok(())
    }

    /// A signer cancels a pending proposal.
    pub fn cancel(&mut self, proposal_id: u64, signer: &EncodedAddress) -> (r: Result<
        (),
        MultiSigError,
    >)
        ensures
            changed_as(old(self)@, final(self)@, r, cancel_spec(old(self)@, proposal_id, signer@)),
            cancel_law(old(self)@, final(self)@, proposal_id, signer@, r),
    {
        proof {
            lemma_operations_follow_laws(old(self)@, proposal_id, signer@, 0, 0, Seq::empty(), 0, ConfigView { signers: Seq::empty(), threshold: 0 }, false);
        }
        let config = match self.get_config() {
            Ok(c) => c,
            Err(e) => return Err(e),
        };
        match Self::assert_signer(config, signer) {
            Ok(()) => {},
            Err(e) => return Err(e),
        }
        let proposal = match self.get_proposal(proposal_id) {
            Ok(p) => p,
            Err(e) => return Err(e),
        };
        if proposal.executed {
            return Err(MultiSigError::AlreadyExecuted);
        }
        if proposal.cancelled {
            return Err(MultiSigError::ProposalCancelled);
        }
        let mut updated = proposal.duplicate();
        updated.cancelled = true;
        self.replace_proposal(proposal_id, updated);
        Ok(())
    }

    /// Returns the current multisig configuration, if initialized.
    pub fn get_config_opt(&self) -> (r: Option<MultiSigConfig>)
        ensures
            match r {
                Some(c) => self@.config == Some(c@),
                None => self@.config is None,
            },
    {
        match &self.config {
            Some(c) => Some(c.duplicate()),
            None => None,
        }
    }

    /// Sets the configuration directly, for controlled restore flows.
    pub fn set_config(&mut self, config: MultiSigConfig) -> (r: Result<(), MultiSigError>)
        ensures
            changed_as(old(self)@, final(self)@, r, set_config_spec(old(self)@, config@)),
            set_config_law(old(self)@, final(self)@, config@, r),
    {
        proof {
            lemma_operations_follow_laws(old(self)@, 0, Seq::empty(), 0, 0, Seq::empty(), 0, config@, false);
        }
        if config.threshold == 0 || config.threshold as usize > config.signers.len() {
            return Err(MultiSigError::InvalidThreshold);
        }
        let ghost cv = config@;
        self.config = Some(config);
        assert(self@ =~= set_config_spec(old(self)@, cv)->Ok_0);
        Ok(())
    }

    /// Clears the configuration, for controlled restore flows.
    pub fn clear_config(&mut self)
        ensures
            final(self)@ == clear_config_spec(old(self)@),
    {
        self.config = None;
        assert(self@ =~= clear_config_spec(old(self)@));
    }
}

// ---------------------------------------------------------------------------
// What each operation does, stated directly over the state before and after.
// ---------------------------------------------------------------------------

/// `after` differs from `before` at most in proposal `id`, which both hold.
pub open spec fn only_proposal_changed(before: MultiSigView, after: MultiSigView, id: u64) -> bool {
    &&& before.proposals.contains_key(id)
    &&& after.proposals.contains_key(id)
    &&& after.config == before.config
    &&& after.counter == before.counter
    &&& after.paused == before.paused
    &&& forall|k: u64|
        k != id ==> (#[trigger] after.proposals.contains_key(k) == before.proposals.contains_key(k))
    &&& forall|k: u64|
        k != id && #[trigger] before.proposals.contains_key(k) ==> after.proposals[k]
            == before.proposals[k]
}

/// `signer` is one of the signers of a configured engine.
pub open spec fn is_configured_signer(st: MultiSigView, signer: Seq<u8>) -> bool {
    st.config matches Some(c) && c.signers.contains(signer)
}

/// Proposal `id` is stored, not executed, not cancelled, and not past its
/// expiry (if it has one) at time `now`.
pub open spec fn is_live(st: MultiSigView, id: u64, now: u64) -> bool {
    &&& st.proposals.contains_key(id)
    &&& !st.proposals[id].executed
    &&& !st.proposals[id].cancelled
    &&& (st.proposals[id].expiry == 0 || now < st.proposals[id].expiry)
}

/// Proposal `id` may be executed at time `now`: the engine is not paused,
/// its threshold is between 1 and the number of signers, the proposal is
/// live and holds at least the threshold of approvals.
pub open spec fn executable(st: MultiSigView, id: u64, now: u64) -> bool {
    &&& !st.paused
    &&& st.config matches Some(c) && 0 < c.threshold && c.threshold <= c.signers.len()
        && st.proposals.contains_key(id) && st.proposals[id].approvals.len() >= c.threshold
    &&& is_live(st, id, now)
}

/// `approve` succeeds exactly when a signer approves a live proposal it has
/// not approved yet, and then appends the signer to the approvals and
/// changes nothing else.
pub open spec fn approve_law(
    before: MultiSigView,
    after: MultiSigView,
    id: u64,
    signer: Seq<u8>,
    now: u64,
    r: Result<(), MultiSigError>,
) -> bool {
    &&& (r is Ok <==> is_configured_signer(before, signer) && is_live(before, id, now)
        && !before.proposals[id].approvals.contains(signer))
    &&& r is Ok ==> only_proposal_changed(before, after, id) && after.proposals[id] == (
    ProposalView {
        approvals: before.proposals[id].approvals.push(signer),
        executed: before.proposals[id].executed,
        expiry: before.proposals[id].expiry,
        cancelled: before.proposals[id].cancelled,
    })
    &&& r is Err ==> after == before
}

/// `mark_executed` succeeds exactly when the proposal is executable, and
/// then sets its executed flag and changes nothing else.
pub open spec fn mark_executed_law(
    before: MultiSigView,
    after: MultiSigView,
    id: u64,
    now: u64,
    r: Result<(), MultiSigError>,
) -> bool {
    &&& (r is Ok <==> executable(before, id, now))
    &&& r is Ok ==> only_proposal_changed(before, after, id) && after.proposals[id] == (
    ProposalView {
        approvals: before.proposals[id].approvals,
        executed: true,
        expiry: before.proposals[id].expiry,
        cancelled: before.proposals[id].cancelled,
    })
    &&& r is Err ==> after == before
}

/// `cancel` succeeds exactly when a signer cancels a stored proposal that
/// is neither executed nor cancelled, and then sets its cancelled flag and
/// changes nothing else.
pub open spec fn cancel_law(
    before: MultiSigView,
    after: MultiSigView,
    id: u64,
    signer: Seq<u8>,
    r: Result<(), MultiSigError>,
) -> bool {
    &&& (r is Ok <==> is_configured_signer(before, signer) && before.proposals.contains_key(id)
        && !before.proposals[id].executed && !before.proposals[id].cancelled)
    &&& r is Ok ==> only_proposal_changed(before, after, id) && after.proposals[id] == (
    ProposalView {
        approvals: before.proposals[id].approvals,
        executed: before.proposals[id].executed,
        expiry: before.proposals[id].expiry,
        cancelled: true,
    })
    &&& r is Err ==> after == before
}

/// `propose` succeeds exactly when a signer proposes and the next id is
/// free; it then stores a fresh pending proposal under that id, returns the
/// id, moves the counter to it, and changes nothing else.
pub open spec fn propose_law(
    before: MultiSigView,
    after: MultiSigView,
    proposer: Seq<u8>,
    expiry: u64,
    r: Result<u64, MultiSigError>,
) -> bool {
    &&& (r is Ok <==> is_configured_signer(before, proposer) && !before.proposals.contains_key(
        (before.counter + 1) as u64,
    ))
    &&& r matches Ok(id) ==> {
        &&& id == before.counter + 1
        &&& after.counter == id
        &&& after.config == before.config
        &&& after.paused == before.paused
        &&& after.proposals == before.proposals.insert(
            id,
            ProposalView { approvals: Seq::empty(), executed: false, expiry, cancelled: false },
        )
    }
    &&& r is Err ==> after == before
}

/// `init` succeeds exactly when the threshold is between 1 and the number
/// of signers; it then sets that configuration and resets the counter to
/// 0, keeping proposals and the pause flag.
pub open spec fn init_law(
    before: MultiSigView,
    after: MultiSigView,
    signers: Seq<Seq<u8>>,
    threshold: u32,
    r: Result<(), MultiSigError>,
) -> bool {
    &&& (r is Ok <==> 0 < threshold && threshold <= signers.len())
    &&& r is Ok ==> after == (MultiSigView {
        config: Some(ConfigView { signers, threshold }),
        proposals: before.proposals,
        counter: 0,
        paused: before.paused,
    })
    &&& r is Err ==> after == before
}

/// `set_config` succeeds exactly when the threshold is between 1 and the
/// number of signers, and then replaces the configuration only.
pub open spec fn set_config_law(
    before: MultiSigView,
    after: MultiSigView,
    config: ConfigView,
    r: Result<(), MultiSigError>,
) -> bool {
    &&& (r is Ok <==> 0 < config.threshold && config.threshold <= config.signers.len())
    &&& r is Ok ==> after == (MultiSigView {
        config: Some(config),
        proposals: before.proposals,
        counter: before.counter,
        paused: before.paused,
    })
    &&& r is Err ==> after == before
}

/// `pause` / `unpause` succeed exactly when a signer calls them, and then
/// set the pause flag to `flag` only.
pub open spec fn set_paused_law(
    before: MultiSigView,
    after: MultiSigView,
    signer: Seq<u8>,
    flag: bool,
    r: Result<(), MultiSigError>,
) -> bool {
    &&& (r is Ok <==> is_configured_signer(before, signer))
    &&& r is Ok ==> after == (MultiSigView {
        config: before.config,
        proposals: before.proposals,
        counter: before.counter,
        paused: flag,
    })
    &&& r is Err ==> after == before
}

/// `can_execute` answers `true` exactly for an executable proposal, and
/// fails only on an unpaused engine whose configuration can be met when
/// there is no configuration or no such proposal.
pub open spec fn can_execute_law(st: MultiSigView, id: u64, now: u64, r: Result<bool, MultiSigError>) -> bool {
    &&& (r == Ok::<bool, MultiSigError>(true) <==> executable(st, id, now))
    &&& (r is Err <==> !st.paused && !(st.config matches Some(c) && (c.threshold == 0
        || c.threshold > c.signers.len())) && (st.config is None || !st.proposals.contains_key(id)))
}

/// The outcome of a state change as the pair the laws speak of.
pub open spec fn outcome(before: MultiSigView, expected: Result<MultiSigView, MultiSigError>) -> (
    MultiSigView,
    Result<(), MultiSigError>,
) {
    match expected {
        Ok(st) => (st, Ok(())),
        Err(e) => (before, Err(e)),
    }
}

/// Each state-changing operation does what its law says.
pub proof fn lemma_operations_follow_laws(
    st: MultiSigView,
    id: u64,
    signer: Seq<u8>,
    now: u64,
    expiry: u64,
    signers: Seq<Seq<u8>>,
    threshold: u32,
    config: ConfigView,
    flag: bool,
)
    ensures
        approve_law(st, outcome(st, approve_spec(st, id, signer, now)).0, id, signer, now, outcome(st, approve_spec(st, id, signer, now)).1),
        mark_executed_law(st, outcome(st, mark_executed_spec(st, id, now)).0, id, now, outcome(st, mark_executed_spec(st, id, now)).1),
        cancel_law(st, outcome(st, cancel_spec(st, id, signer)).0, id, signer, outcome(st, cancel_spec(st, id, signer)).1),
        init_law(st, outcome(st, init_spec(st, signers, threshold)).0, signers, threshold, outcome(st, init_spec(st, signers, threshold)).1),
        set_config_law(st, outcome(st, set_config_spec(st, config)).0, config, outcome(st, set_config_spec(st, config)).1),
        set_paused_law(st, outcome(st, set_paused_spec(st, signer, flag)).0, signer, flag, outcome(st, set_paused_spec(st, signer, flag)).1),
        can_execute_law(st, id, now, can_execute_spec(st, id, now)),
        (is_configured_signer(st, signer) ==> st.counter < u64::MAX) ==> propose_law(
            st,
            match propose_spec(st, signer, expiry) {
                Ok((st2, _)) => st2,
                Err(_) => st,
            },
            signer,
            expiry,
            match propose_spec(st, signer, expiry) {
                Ok((_, k)) => Ok::<u64, MultiSigError>(k),
                Err(e) => Err(e),
            },
        ),
{
}

// ---------------------------------------------------------------------------
// Laws of the engine.
// ---------------------------------------------------------------------------

/// A state the engine can reach: the configuration can be met, and no
/// proposal holds the same approver twice.
pub open spec fn well_formed(st: MultiSigView) -> bool {
    &&& !state_inconsistent(st)
    &&& forall|id: u64| #[trigger]
        st.proposals.contains_key(id) ==> st.proposals[id].approvals.no_duplicates()
}

/// The operations that change the engine's state.
pub enum Action {
    Init { signers: Seq<Seq<u8>>, threshold: u32 },
    Propose { proposer: Seq<u8>, expiry: u64 },
    Approve { id: u64, signer: Seq<u8>, now: u64 },
    Pause { signer: Seq<u8> },
    Unpause { signer: Seq<u8> },
    MarkExecuted { id: u64, now: u64 },
    Cancel { id: u64, signer: Seq<u8> },
    SetConfig { config: ConfigView },
    ClearConfig,
}

/// The state after `a`, or the error it fails with.
pub open spec fn apply_action(st: MultiSigView, a: Action) -> Result<MultiSigView, MultiSigError> {
    match a {
        Action::Init { signers, threshold } => init_spec(st, signers, threshold),
        Action::Propose { proposer, expiry } => match propose_spec(st, proposer, expiry) {
            Ok((st2, _)) => Ok(st2),
            Err(e) => Err(e),
        },
        Action::Approve { id, signer, now } => approve_spec(st, id, signer, now),
        Action::Pause { signer } => set_paused_spec(st, signer, true),
        Action::Unpause { signer } => set_paused_spec(st, signer, false),
        Action::MarkExecuted { id, now } => mark_executed_spec(st, id, now),
        Action::Cancel { id, signer } => cancel_spec(st, id, signer),
        Action::SetConfig { config } => set_config_spec(st, config),
        Action::ClearConfig => Ok(clear_config_spec(st)),
    }
}

/// The state after a run of actions, the failed ones leaving it unchanged.
pub open spec fn run(st: MultiSigView, actions: Seq<Action>) -> MultiSigView
    decreases actions.len(),
{
    if actions.len() == 0 {
        st
    } else {
        let before = run(st, actions.drop_last());
        match apply_action(before, actions.last()) {
            Ok(after) => after,
            Err(_) => before,
        }
    }
}

/// Every operation keeps the engine well formed.
pub proof fn lemma_action_preserves_well_formed(st: MultiSigView, a: Action)
    requires
        well_formed(st),
    ensures
        apply_action(st, a) matches Ok(st2) ==> well_formed(st2),
{
    match apply_action(st, a) {
        Ok(st2) => {
            match a {
                Action::Approve { id, signer, now } => {
                    let p = st.proposals[id];
                    assert forall|k: u64| #[trigger] st2.proposals.contains_key(k) implies st2.proposals[k].approvals.no_duplicates() by {
                        if k == id {
                            assert(st2.proposals[k].approvals == p.approvals.push(signer));
                            assert forall|i: int, j: int|
                                0 <= i < j < st2.proposals[k].approvals.len() implies st2.proposals[k].approvals[i]
                                != st2.proposals[k].approvals[j] by {
                                if j == p.approvals.len() {
                                    assert(p.approvals.contains(p.approvals[i]));
                                }
                            }
                        }
                    }
                },
                Action::Propose { proposer, expiry } => {
                    let id = (st.counter + 1) as u64;
                    assert(Seq::<Seq<u8>>::empty().no_duplicates());
                    assert forall|k: u64| #[trigger] st2.proposals.contains_key(k) implies st2.proposals[k].approvals.no_duplicates() by {
                        if k == id {
                            assert(st2.proposals[k].approvals =~= Seq::<Seq<u8>>::empty());
                        }
                    }
                },
                Action::MarkExecuted { id, now } => {
                    assert forall|k: u64| #[trigger] st2.proposals.contains_key(k) implies st2.proposals[k].approvals.no_duplicates() by {
                        assert(st.proposals.contains_key(k));
                    }
                },
                Action::Cancel { id, signer } => {
                    assert forall|k: u64| #[trigger] st2.proposals.contains_key(k) implies st2.proposals[k].approvals.no_duplicates() by {
                        assert(st.proposals.contains_key(k));
                    }
                },
                _ => {},
            }
        },
        Err(_) => {},
    }
}

/// Every state reached from empty storage is well formed, so in particular
/// its configuration, when there is one, can be met.
pub proof fn lemma_reachable_states_well_formed(actions: Seq<Action>)
    ensures
        well_formed(run(empty_state(), actions)),
        !state_inconsistent(run(empty_state(), actions)),
    decreases actions.len(),
{
    if actions.len() > 0 {
        lemma_reachable_states_well_formed(actions.drop_last());
        lemma_action_preserves_well_formed(run(empty_state(), actions.drop_last()), actions.last());
    }
}

/// Proposal ids come from the counter: a new proposal gets the next id,
/// which was not in use, the counter moves to it, and no other proposal
/// changes.
pub proof fn lemma_propose_allocates_next_id(st: MultiSigView, proposer: Seq<u8>, expiry: u64)
    requires
        st.counter < u64::MAX,
    ensures
        propose_spec(st, proposer, expiry) matches Ok((st2, id)) ==> {
            &&& id == st.counter + 1
            &&& st2.counter == id
            &&& !st.proposals.contains_key(id)
            &&& st2.proposals.contains_key(id)
            &&& st2.proposals[id].approvals.len() == 0
            &&& !st2.proposals[id].executed
            &&& !st2.proposals[id].cancelled
            &&& st2.proposals[id].expiry == expiry
            &&& forall|k: u64|
                k != id ==> (#[trigger] st2.proposals.contains_key(k) == st.proposals.contains_key(k))
            &&& forall|k: u64|
                k != id && #[trigger] st.proposals.contains_key(k) ==> st2.proposals[k]
                    == st.proposals[k]
        },
{
}

/// Only signers add approvals, each adds one, and only once.
pub proof fn lemma_approve_adds_one_signer(st: MultiSigView, id: u64, signer: Seq<u8>, now: u64)
    ensures
        approve_spec(st, id, signer, now) matches Ok(st2) ==> {
            &&& st.config matches Some(c) && c.signers.contains(signer)
            &&& !st.proposals[id].approvals.contains(signer)
            &&& st2.proposals[id].approvals == st.proposals[id].approvals.push(signer)
            &&& approve_spec(st2, id, signer, now) == Err::<MultiSigView, MultiSigError>(
                MultiSigError::AlreadyApproved,
            )
        },
{
    if let Ok(st2) = approve_spec(st, id, signer, now) {
        let p2 = st2.proposals[id];
        assert(p2.approvals[p2.approvals.len() - 1] == signer);
        assert(p2.approvals.contains(signer));
    }
}

/// A proposal that can be executed has met the threshold, which is at
/// least one, and is live: not paused, executed, cancelled or expired.
pub proof fn lemma_can_execute_requires_threshold(st: MultiSigView, id: u64, now: u64)
    ensures
        can_execute_spec(st, id, now) == Ok::<bool, MultiSigError>(true) ==> {
            &&& st.config matches Some(c) && c.threshold >= 1 && st.proposals[id].approvals.len()
                >= c.threshold
            &&& st.proposals.contains_key(id)
            &&& !st.paused
            &&& !st.proposals[id].executed
            &&& !st.proposals[id].cancelled
            &&& !expired(st.proposals[id], now)
        },
{
}

/// A live proposal of a consistent, unpaused engine can be executed as
/// soon as it holds as many approvals as the threshold.
pub proof fn lemma_threshold_met_allows_execution(st: MultiSigView, id: u64, now: u64)
    requires
        st.config matches Some(c) && st.proposals.contains_key(id) && st.proposals[id].approvals.len()
            >= c.threshold,
        !st.paused,
        !state_inconsistent(st),
        !st.proposals[id].executed,
        !st.proposals[id].cancelled,
        !expired(st.proposals[id], now),
    ensures
        can_execute_spec(st, id, now) == Ok::<bool, MultiSigError>(true),
        mark_executed_spec(st, id, now) is Ok,
{
}

/// Right after a proposal is marked executed, it can be neither executed,
/// approved nor cancelled; `lemma_executed_stays_final` carries this over
/// any later operations.
pub proof fn lemma_executed_is_final(
    st: MultiSigView,
    id: u64,
    now: u64,
    later: u64,
    signer: Seq<u8>,
)
    ensures
        mark_executed_spec(st, id, now) matches Ok(st2) ==> {
            &&& st2.proposals[id].executed
            &&& can_execute_spec(st2, id, later) != Ok::<bool, MultiSigError>(true)
            &&& mark_executed_spec(st2, id, later) == Err::<MultiSigView, MultiSigError>(
                MultiSigError::AlreadyExecuted,
            )
            &&& approve_spec(st2, id, signer, later) is Err
            &&& cancel_spec(st2, id, signer) is Err
        },
{
}

/// A cancelled proposal can never be approved, executed or cancelled again.
pub proof fn lemma_cancelled_is_final(st: MultiSigView, id: u64, now: u64, signer: Seq<u8>)
    requires
        st.proposals.contains_key(id),
        st.proposals[id].cancelled,
    ensures
        can_execute_spec(st, id, now) != Ok::<bool, MultiSigError>(true),
        mark_executed_spec(st, id, now) is Err,
        approve_spec(st, id, signer, now) is Err,
        cancel_spec(st, id, signer) is Err,
{
}

/// An expired proposal can be neither approved nor executed, and it stays
/// expired at every later time.
pub proof fn lemma_expired_is_blocked(st: MultiSigView, id: u64, now: u64, later: u64, signer: Seq<u8>)
    requires
        st.proposals.contains_key(id),
        expired(st.proposals[id], now),
        now <= later,
    ensures
        expired(st.proposals[id], later),
        can_execute_spec(st, id, later) != Ok::<bool, MultiSigError>(true),
        mark_executed_spec(st, id, later) is Err,
        approve_spec(st, id, signer, later) is Err,
{
}

/// A proposal with expiry `0` never expires.
pub proof fn lemma_no_expiry_never_expires(st: MultiSigView, id: u64, now: u64)
    requires
        st.proposals.contains_key(id),
        st.proposals[id].expiry == 0,
    ensures
        is_expired_spec(st, id, now) == Ok::<bool, MultiSigError>(false),
{
}

/// While paused, no proposal can be executed.
pub proof fn lemma_pause_blocks_execution(st: MultiSigView, signer: Seq<u8>, id: u64, now: u64)
    ensures
        set_paused_spec(st, signer, true) matches Ok(st2) ==> {
            &&& can_execute_spec(st2, id, now) == Ok::<bool, MultiSigError>(false)
            &&& mark_executed_spec(st2, id, now) is Err
        },
{
}

/// Pausing and then unpausing an unpaused engine restores its state.
pub proof fn lemma_unpause_undoes_pause(st: MultiSigView, signer: Seq<u8>)
    requires
        !st.paused,
    ensures
        set_paused_spec(st, signer, true) matches Ok(st2) ==> set_paused_spec(st2, signer, false)
            == Ok::<MultiSigView, MultiSigError>(st),
{
    if let Ok(st2) = set_paused_spec(st, signer, true) {
        assert(set_paused_spec(st2, signer, false)->Ok_0 =~= st);
    }
}

/// A stored proposal stays stored through any run of operations, keeps
/// its expiry, and once executed or cancelled stays so.
pub proof fn lemma_lifecycle_flags_persist(st: MultiSigView, id: u64, actions: Seq<Action>)
    requires
        st.proposals.contains_key(id),
    ensures
        run(st, actions).proposals.contains_key(id),
        run(st, actions).proposals[id].expiry == st.proposals[id].expiry,
        st.proposals[id].executed ==> run(st, actions).proposals[id].executed,
        st.proposals[id].cancelled ==> run(st, actions).proposals[id].cancelled,
    decreases actions.len(),
{
    if actions.len() > 0 {
        lemma_lifecycle_flags_persist(st, id, actions.drop_last());
    }
}

/// An executed proposal, whatever happens after, can never be executed,
/// approved or cancelled again.
pub proof fn lemma_executed_stays_final(
    st: MultiSigView,
    id: u64,
    actions: Seq<Action>,
    now: u64,
    signer: Seq<u8>,
)
    requires
        st.proposals.contains_key(id),
        st.proposals[id].executed,
    ensures
        can_execute_spec(run(st, actions), id, now) != Ok::<bool, MultiSigError>(true),
        mark_executed_spec(run(st, actions), id, now) == Err::<MultiSigView, MultiSigError>(
            MultiSigError::AlreadyExecuted,
        ),
        approve_spec(run(st, actions), id, signer, now) is Err,
        cancel_spec(run(st, actions), id, signer) is Err,
{
    lemma_lifecycle_flags_persist(st, id, actions);
}

/// A proposal is executed at most once: after a successful
/// `mark_executed`, every later one fails with `AlreadyExecuted`, whatever
/// operations come between.
pub proof fn lemma_execute_at_most_once(
    st: MultiSigView,
    id: u64,
    now: u64,
    actions: Seq<Action>,
    later: u64,
)
    ensures
        mark_executed_spec(st, id, now) matches Ok(st1) ==> mark_executed_spec(
            run(st1, actions),
            id,
            later,
        ) == Err::<MultiSigView, MultiSigError>(MultiSigError::AlreadyExecuted),
{
    if let Ok(st1) = mark_executed_spec(st, id, now) {
        lemma_lifecycle_flags_persist(st1, id, actions);
    }
}

/// Cancellation is irreversible: a cancelled proposal, whatever happens
/// after, can never be approved, executed or cancelled again.
pub proof fn lemma_cancelled_stays_final(
    st: MultiSigView,
    id: u64,
    actions: Seq<Action>,
    now: u64,
    signer: Seq<u8>,
)
    requires
        st.proposals.contains_key(id),
        st.proposals[id].cancelled,
    ensures
        can_execute_spec(run(st, actions), id, now) != Ok::<bool, MultiSigError>(true),
        mark_executed_spec(run(st, actions), id, now) is Err,
        approve_spec(run(st, actions), id, signer, now) is Err,
        cancel_spec(run(st, actions), id, signer) is Err,
{
    lemma_lifecycle_flags_persist(st, id, actions);
}

/// An expired proposal is blocked for good: whatever happens after, at
/// any later time it can be neither approved nor executed.
pub proof fn lemma_expired_stays_blocked(
    st: MultiSigView,
    id: u64,
    now: u64,
    actions: Seq<Action>,
    later: u64,
    signer: Seq<u8>,
)
    requires
        st.proposals.contains_key(id),
        expired(st.proposals[id], now),
        now <= later,
    ensures
        can_execute_spec(run(st, actions), id, later) != Ok::<bool, MultiSigError>(true),
        mark_executed_spec(run(st, actions), id, later) is Err,
        approve_spec(run(st, actions), id, signer, later) is Err,
{
    lemma_lifecycle_flags_persist(st, id, actions);
}

/// The value set by the last successful `pause` or `unpause` of a run,
/// if any succeeded.
pub open spec fn last_pause_setting(st: MultiSigView, actions: Seq<Action>) -> Option<bool>
    decreases actions.len(),
{
    if actions.len() == 0 {
        None
    } else {
        let before = run(st, actions.drop_last());
        let a = actions.last();
        match a {
            Action::Pause { signer } => if apply_action(before, a) is Ok {
                Some(true)
            } else {
                last_pause_setting(st, actions.drop_last())
            },
            Action::Unpause { signer } => if apply_action(before, a) is Ok {
                Some(false)
            } else {
                last_pause_setting(st, actions.drop_last())
            },
            _ => last_pause_setting(st, actions.drop_last()),
        }
    }
}

/// The pause flag is what the last successful `pause` or `unpause` set, or
/// what it was before the run when none succeeded; from empty storage, it
/// is set exactly when the last of them was `pause`.
pub proof fn lemma_pause_flag_is_last_set(st: MultiSigView, actions: Seq<Action>)
    ensures
        run(st, actions).paused == match last_pause_setting(st, actions) {
            Some(b) => b,
            None => st.paused,
        },
        run(empty_state(), actions).paused == (last_pause_setting(empty_state(), actions)
            == Some(true)),
    decreases actions.len(),
{
    if actions.len() > 0 {
        lemma_pause_flag_is_last_set(st, actions.drop_last());
        lemma_pause_flag_is_last_set(empty_state(), actions.drop_last());
    }
}

/// The configuration written by the last successful `init`, `set_config`
/// or `clear_config` of a run, if any succeeded (`None` inside for a
/// clear).
pub open spec fn last_config_write(st: MultiSigView, actions: Seq<Action>) -> Option<
    Option<ConfigView>,
>
    decreases actions.len(),
{
    if actions.len() == 0 {
        None
    } else {
        let before = run(st, actions.drop_last());
        let a = actions.last();
        match a {
            Action::Init { signers, threshold } => if apply_action(before, a) is Ok {
                Some(Some(ConfigView { signers, threshold }))
            } else {
                last_config_write(st, actions.drop_last())
            },
            Action::SetConfig { config } => if apply_action(before, a) is Ok {
                Some(Some(config))
            } else {
                last_config_write(st, actions.drop_last())
            },
            Action::ClearConfig => Some(None),
            _ => last_config_write(st, actions.drop_last()),
        }
    }
}

/// The configuration read back is the one last written by `init` or
/// `set_config`, or none after `clear_config`; no other operation changes
/// it. From empty storage, there is none until one is written.
pub proof fn lemma_config_is_last_written(st: MultiSigView, actions: Seq<Action>)
    ensures
        run(st, actions).config == match last_config_write(st, actions) {
            Some(c) => c,
            None => st.config,
        },
        last_config_write(empty_state(), actions) is None ==> run(empty_state(), actions).config
            is None,
    decreases actions.len(),
{
    if actions.len() > 0 {
        lemma_config_is_last_written(st, actions.drop_last());
        lemma_config_is_last_written(empty_state(), actions.drop_last());
    }
}

} // verus!
