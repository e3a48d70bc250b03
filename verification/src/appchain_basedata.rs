//! The record of one appchain: the unit of ownership and mutation.

use vstd::prelude::*;

use crate::types::AccountId;
use crate::types::AppchainId;
use crate::types::AppchainMetadata;
use crate::types::AppchainState;
use crate::types::RegistryError;

verus! {

/// The full mutable state of one appchain held by the registry.
pub struct AppchainBasedata {
    /// Immutable once assigned.
    pub appchain_id: AppchainId,
    /// The account that owns the appchain; mutable by transfer.
    pub appchain_owner: AccountId,
    /// The lifecycle state; mutated only through the transition table.
    pub appchain_state: AppchainState,
    /// Descriptive fields, editable by the owner and the registry owner.
    pub appchain_metadata: AppchainMetadata,
    /// Accumulated value backing upvotes; settled by the external ledger.
    pub upvote_deposit: u128,
    /// Accumulated value backing downvotes; settled by the external ledger.
    pub downvote_deposit: u128,
    /// The ranking value accrued from deposits over counting cycles.
    pub voting_score: i128,
    /// The anchor contract of the appchain, set exactly once at promotion.
    pub appchain_anchor: Option<AccountId>,
    /// Timestamp captured at creation, immutable.
    pub registered_time: u64,
}

impl AppchainBasedata {
    /// The anchor reference is empty in the states that precede promotion
    /// and present once lifecycle control has passed to the anchor.
    pub open spec fn well_formed(self) -> bool {
        &&& self.appchain_state.spec_managed_by_anchor() ==> self.appchain_anchor is Some
        &&& (self.appchain_state == AppchainState::Registered
            || self.appchain_state == AppchainState::Auditing
            || self.appchain_state == AppchainState::InQueue) ==> self.appchain_anchor is None
    }

    /// One accrual step can be taken without leaving the score's range.
    pub open spec fn accrual_fits(self) -> bool {
        &&& self.upvote_deposit - self.downvote_deposit <= i128::MAX
        &&& self.downvote_deposit - self.upvote_deposit <= i128::MAX
        &&& i128::MIN <= self.voting_score + self.upvote_deposit - self.downvote_deposit
            <= i128::MAX
    }

    /// The record after one accrual step: the net deposit is added to the
    /// score, everything else is unchanged.
    pub open spec fn spec_accrued(self) -> AppchainBasedata {
        AppchainBasedata {
            voting_score: (self.voting_score + self.upvote_deposit - self.downvote_deposit)
                as i128,
            ..self
        }
    }

    /// The score reduction by `percent` stays within the score's range.
    pub open spec fn reduction_fits(self, percent: u16) -> bool {
        0 <= self.voting_score * (100 - percent) <= i128::MAX
    }

    /// The record after a score reduction by `percent`: the score becomes
    /// `score * (100 - percent) / 100`, truncated toward zero.
    pub open spec fn spec_reduced(self, percent: u16) -> AppchainBasedata {
        AppchainBasedata {
            voting_score: (self.voting_score * (100 - percent) / 100) as i128,
            ..self
        }
    }

    /// Create the record of a freshly registered appchain: state
    /// `Registered`, zero deposits, zero score, no anchor.
    pub fn new(
        appchain_id: AppchainId,
        appchain_owner: AccountId,
        appchain_metadata: AppchainMetadata,
        registered_time: u64,
    ) -> (r: AppchainBasedata)
        ensures
            r.appchain_id == appchain_id,
            r.appchain_owner == appchain_owner,
            r.appchain_state == AppchainState::Registered,
            r.appchain_metadata == appchain_metadata,
            r.upvote_deposit == 0,
            r.downvote_deposit == 0,
            r.voting_score == 0,
            r.appchain_anchor is None,
            r.registered_time == registered_time,
            r.well_formed(),
    {
        AppchainBasedata {
            appchain_id,
            appchain_owner,
            appchain_state: AppchainState::Registered,
            appchain_metadata,
            upvote_deposit: 0,
            downvote_deposit: 0,
            voting_score: 0,
            appchain_anchor: None,
            registered_time,
        }
    }

    /// Get the id of the appchain.
    pub fn id(&self) -> (r: &AppchainId)
        ensures
            r == &self.appchain_id,
    {
        &self.appchain_id
    }

    /// Get the owner of the appchain.
    pub fn owner(&self) -> (r: &AccountId)
        ensures
            r == &self.appchain_owner,
    {
        &self.appchain_owner
    }

    /// Get the state of the appchain.
    pub fn state(&self) -> (r: AppchainState)
        ensures
            r == self.appchain_state,
    {
        self.appchain_state
    }

    /// Get the metadata of the appchain.
    pub fn metadata(&self) -> (r: &AppchainMetadata)
        ensures
            r == &self.appchain_metadata,
    {
        &self.appchain_metadata
    }

    /// Get the upvote deposit of the appchain.
    pub fn upvote_deposit(&self) -> (r: u128)
        ensures
            r == self.upvote_deposit,
    {
        self.upvote_deposit
    }

    /// Get the downvote deposit of the appchain.
    pub fn downvote_deposit(&self) -> (r: u128)
        ensures
            r == self.downvote_deposit,
    {
        self.downvote_deposit
    }

    /// Get the voting score of the appchain.
    pub fn voting_score(&self) -> (r: i128)
        ensures
            r == self.voting_score,
    {
        self.voting_score
    }

    /// Get the anchor reference of the appchain, if one was set.
    pub fn anchor(&self) -> (r: &Option<AccountId>)
        ensures
            r == &self.appchain_anchor,
    {
        &self.appchain_anchor
    }

    /// Move the record to `appchain_state` if the transition table allows
    /// it; refuse with `InvalidStateTransition` and leave the record
    /// untouched otherwise.
    pub fn change_state(&mut self, appchain_state: AppchainState) -> (r: Result<
        (),
        RegistryError,
    >)
        ensures
            r is Ok <==> old(self).appchain_state.spec_transition_allowed(&appchain_state),
            r is Ok ==> *final(self) == (AppchainBasedata { appchain_state, ..*old(self) }),
            r is Err ==> r == Err::<(), RegistryError>(RegistryError::InvalidStateTransition)
                && *final(self) == *old(self),
    {
        if self.appchain_state.transition_allowed(&appchain_state) {
            self.appchain_state = appchain_state;
            Ok(())
        } else {
            Err(RegistryError::InvalidStateTransition)
        }
    }

    /// Hand the appchain to a new owner.
    pub fn change_owner(&mut self, new_owner: AccountId)
        ensures
            *final(self) == (AppchainBasedata { appchain_owner: new_owner, ..*old(self) }),
    {
        self.appchain_owner = new_owner;
    }

    /// Replace the metadata wholesale.
    pub fn set_metadata(&mut self, metadata: AppchainMetadata)
        ensures
            *final(self) == (AppchainBasedata { appchain_metadata: metadata, ..*old(self) }),
    {
        self.appchain_metadata = metadata;
    }

    /// Record the anchor contract of the appchain. The anchor is set exactly
    /// once, at promotion.
    pub fn set_anchor_account(&mut self, anchor: AccountId)
        requires
            old(self).appchain_anchor is None,
        ensures
            *final(self) == (AppchainBasedata {
                appchain_anchor: Some(anchor),
                ..*old(self)
            }),
    {
        self.appchain_anchor = Some(anchor);
    }

    /// One accrual step: add the net held deposit to the voting score. The
    /// step is deterministic in the deposits and does not consume them, so
    /// it is safe to run once per counting interval.
    pub fn count_voting_score(&mut self)
        requires
            old(self).accrual_fits(),
        ensures
            *final(self) == old(self).spec_accrued(),
    {
        if self.upvote_deposit >= self.downvote_deposit {
            let delta: u128 = self.upvote_deposit - self.downvote_deposit;
            self.voting_score = self.voting_score + (delta as i128);
        } else {
            let delta: u128 = self.downvote_deposit - self.upvote_deposit;
            self.voting_score = self.voting_score - (delta as i128);
        }
    }

    /// Reduce a non-negative voting score by `percent`: the score is scaled
    /// to `(100 - percent)` hundredths, truncating toward zero.
    pub fn reduce_voting_score_by_percent(&mut self, percent: u16)
        requires
            old(self).voting_score >= 0,
            percent <= 100,
            old(self).reduction_fits(percent),
        ensures
            *final(self) == old(self).spec_reduced(percent),
    {
        let keep: i128 = (100 - percent) as i128;
        proof {
            let s = self.voting_score as int;
            let k = keep as int;
            assert(s * k / 100 <= i128::MAX / 100) by (nonlinear_arith)
                requires
                    0 <= s * k <= i128::MAX,
            ;
        }
        self.voting_score = self.voting_score * keep / 100;
    }
}

} // verus!
