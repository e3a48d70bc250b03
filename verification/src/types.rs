//! Plain data types shared across the registry: identifiers, lifecycle
//! states, metadata, settings, roles, and the error taxonomy.

use std::collections::HashMap;
use vstd::prelude::*;

verus! {

/// The identifier of an appchain: an opaque, externally assigned string,
/// globally unique and immutable once assigned. It is the sole key into the
/// registry's store.
pub type AppchainId = String;

/// A ledger account reference, carried as a plain string.
pub type AccountId = String;

/// Timestamps are in nanoseconds while the counting interval is configured
/// in seconds; this factor converts between the two.
pub const NANO_SECONDS_MULTIPLE: u64 = 1_000_000_000;

/// Why a registry operation was refused. Every mutating operation either
/// succeeds as a whole or returns one of these with no state change.
#[derive(Clone, Copy, PartialEq, Eq, Structural, Debug)]
pub enum RegistryError {
    /// The caller fails the authorization tier check.
    Unauthorized,
    /// The given id resolves to no record.
    NotFound,
    /// The precondition on the record's current state is not met.
    InvalidStateTransition,
    /// Counting was attempted before the gating interval elapsed.
    IntervalNotElapsed,
    /// Removal was attempted while a deposit remains non-zero.
    PendingDeposits,
    /// Conclusion was attempted with no top candidate set.
    NoCandidate,
    /// A bulk operation stopped early; re-invoke to process the remainder.
    ResourceBudgetExceeded,
}

/// The lifecycle state of an appchain.
#[derive(Clone, Copy, PartialEq, Eq, Structural, Debug)]
pub enum AppchainState {
    Registered,
    Auditing,
    InQueue,
    Staging,
    Booting,
    Active,
    Broken,
    Dead,
}

/// Which template an appchain was built from.
#[derive(Clone, Copy, PartialEq, Eq, Structural, Debug)]
pub enum AppchainTemplateType {
    Barnacle,
    BarnacleEvm,
}

/// A field that a listing of appchains can be sorted by.
#[derive(Clone, Copy, PartialEq, Eq, Structural, Debug)]
pub enum AppchainSortingField {
    AppchainId,
    VotingScore,
    RegisteredTime,
}

/// The direction of a sorted listing.
#[derive(Clone, Copy, PartialEq, Eq, Structural, Debug)]
pub enum SortingOrder {
    Ascending,
    Descending,
}

/// Descriptive, owner-editable fields of an appchain. Metadata carries no
/// authorization or financial semantics; it is pure description.
pub struct AppchainMetadata {
    pub template_type: AppchainTemplateType,
    pub website_url: String,
    pub github_address: String,
    pub github_release: String,
    pub commit_id: String,
    pub contact_email: String,
    /// Open-ended custom key/value pairs; keys unique, wholly replaced on
    /// update, no ordering guarantee.
    pub custom_metadata: HashMap<String, String>,
}

/// The owner-mutable settings of the registry.
pub struct RegistrySettings {
    /// The minimum deposit amount for registering an appchain.
    pub minimum_register_deposit: u128,
    /// The percentage by which the voting score of every appchain still in
    /// queue is reduced each time the voting score is concluded.
    pub voting_result_reduction_percent: u16,
    /// The minimum spacing between two score-counting operations.
    pub counting_interval_in_seconds: u64,
    /// The only account allowed to trigger score counting.
    pub operator_of_counting_voting_score: AccountId,
}

impl RegistrySettings {
    /// The counting interval in the unit timestamps are measured in.
    pub open spec fn counting_interval_in_nanoseconds(self) -> int {
        self.counting_interval_in_seconds * NANO_SECONDS_MULTIPLE
    }

    /// The interval is positive, its nanosecond form fits the timestamp
    /// type, and the reduction is a percentage.
    pub open spec fn well_formed(self) -> bool {
        &&& 1 <= self.counting_interval_in_seconds
        &&& self.counting_interval_in_nanoseconds() <= u64::MAX
        &&& self.voting_result_reduction_percent <= 100
    }
}

/// Delegated role accounts of the registry.
pub struct RegistryRoles {
    /// The account that manages the lifecycle of appchains.
    pub appchain_lifecycle_manager: AccountId,
    /// The account that manages the settings of the registry.
    pub registry_settings_manager: AccountId,
    /// The account of the council contract, if one is appointed.
    pub octopus_council: Option<AccountId>,
}

impl AppchainState {
    /// Whether lifecycle control has passed from the registry to the
    /// appchain's anchor contract.
    pub open spec fn spec_managed_by_anchor(&self) -> bool {
        match self {
            AppchainState::Registered => false,
            AppchainState::Auditing => false,
            AppchainState::InQueue => false,
            AppchainState::Staging => true,
            AppchainState::Booting => true,
            AppchainState::Active => true,
            AppchainState::Broken => true,
            AppchainState::Dead => false,
        }
    }

    /// Get whether the state is managed by the appchain anchor.
    #[verifier::when_used_as_spec(spec_managed_by_anchor)]
    pub fn is_managed_by_anchor(&self) -> (b: bool)
        ensures
            b == self.spec_managed_by_anchor(),
    {
        match self {
            AppchainState::Registered => false,
            AppchainState::Auditing => false,
            AppchainState::InQueue => false,
            AppchainState::Staging => true,
            AppchainState::Booting => true,
            AppchainState::Active => true,
            AppchainState::Broken => true,
            AppchainState::Dead => false,
        }
    }

    /// The transition table: the single source of truth for which lifecycle
    /// transitions are legal. Trigger-specific preconditions (who may ask,
    /// whether the record leads the election, the sign of its score) are
    /// checked by the action that requests the transition; this table owns
    /// the pure state part.
    pub open spec fn spec_transition_allowed(&self, to: &AppchainState) -> bool {
        ||| (self == AppchainState::Registered && to == AppchainState::Auditing)
        ||| (self == AppchainState::Auditing && to == AppchainState::InQueue)
        ||| ((self == AppchainState::Registered || self == AppchainState::Auditing
            || self == AppchainState::InQueue) && to == AppchainState::Dead)
        ||| (self == AppchainState::InQueue && to == AppchainState::Staging)
        ||| (self == AppchainState::Staging && to == AppchainState::Booting)
    }

    /// Decide whether the table allows moving from this state to `to`.
    #[verifier::when_used_as_spec(spec_transition_allowed)]
    pub fn transition_allowed(&self, to: &AppchainState) -> (b: bool)
        ensures
            b == self.spec_transition_allowed(to),
    {
        match (self, to) {
            (AppchainState::Registered, AppchainState::Auditing) => true,
            (AppchainState::Auditing, AppchainState::InQueue) => true,
            (AppchainState::Registered, AppchainState::Dead) => true,
            (AppchainState::Auditing, AppchainState::Dead) => true,
            (AppchainState::InQueue, AppchainState::Dead) => true,
            (AppchainState::InQueue, AppchainState::Staging) => true,
            (AppchainState::Staging, AppchainState::Booting) => true,
            _ => false,
        }
    }

    /// The human-readable name of the state.
    pub open spec fn spec_text(&self) -> Seq<char> {
        match self {
            AppchainState::Registered => "registered"@,
            AppchainState::Auditing => "auditing"@,
            AppchainState::InQueue => "inQueue"@,
            AppchainState::Staging => "staging"@,
            AppchainState::Booting => "booting"@,
            AppchainState::Active => "active"@,
            AppchainState::Broken => "broken"@,
            AppchainState::Dead => "dead"@,
        }
    }

    /// The human-readable name of the state, for event messages.
    pub fn to_text(&self) -> (s: String)
        ensures
            s@ == self.spec_text(),
    {
        match self {
            AppchainState::Registered => "registered".to_owned(),
            AppchainState::Auditing => "auditing".to_owned(),
            AppchainState::InQueue => "inQueue".to_owned(),
            AppchainState::Staging => "staging".to_owned(),
            AppchainState::Booting => "booting".to_owned(),
            AppchainState::Active => "active".to_owned(),
            AppchainState::Broken => "broken".to_owned(),
            AppchainState::Dead => "dead".to_owned(),
        }
    }
}

} // verus!
