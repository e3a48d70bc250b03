//! Actions of the registry owner: metadata correction, audit and queue
//! transitions, rejection, and removal of dead appchains. The owner's
//! identity is supplied by the hosting environment as a plain value and
//! checked before any mutation; every refused call leaves the registry
//! unchanged.

use std::collections::HashMap;
use vstd::prelude::*;

use crate::appchain_basedata::AppchainBasedata;
use crate::registry::lemma_seq_index_of_unique;
use crate::registry::seq_index_pos;
use crate::registry::seq_has_id;
use crate::registry::seq_ids_unique;
use crate::registry::seq_record_of;
use crate::registry::AppchainRegistry;
use crate::types::AccountId;
use crate::types::AppchainId;
use crate::types::AppchainMetadata;
use crate::types::AppchainState;
use crate::types::RegistryError;
use crate::types::NANO_SECONDS_MULTIPLE;

verus! {

/// Every `InQueue` record of `s` can take one accrual step without leaving
/// the score's range.
pub open spec fn spec_all_accruals_fit(s: Seq<AppchainBasedata>) -> bool {
    forall|i: int|
        0 <= i < s.len() && (#[trigger] s[i]).appchain_state == AppchainState::InQueue ==> s[
            i
        ].accrual_fits()
}

/// The records after one counting pass: every `InQueue` record takes one
/// accrual step, every other record is unchanged.
pub open spec fn spec_accrue_all(s: Seq<AppchainBasedata>) -> Seq<AppchainBasedata> {
    s.map_values(
        |r: AppchainBasedata|
            if r.appchain_state == AppchainState::InQueue {
                r.spec_accrued()
            } else {
                r
            },
    )
}

/// The guard of the counting phase: a count at `now` is allowed once more
/// than one interval has passed since the recorded time of the last count.
pub open spec fn spec_count_gate_open(last: int, interval: int, now: int) -> bool {
    now > last + interval
}

/// The time recorded after a successful count at `now`: the current time
/// minus its remainder modulo the interval, not the raw current time.
pub open spec fn spec_interval_boundary(now: int, interval: int) -> int {
    now - now % interval
}

/// The boundary recorded after a successful count is stable: it lies at
/// most one interval behind the counting time and is itself a multiple of
/// the interval, so it is immune to small scheduling jitter in when the
/// operator calls.
pub proof fn lemma_interval_boundary(now: int, interval: int)
    requires
        0 < interval,
        0 <= now,
    ensures
        0 <= spec_interval_boundary(now, interval) <= now,
        now - spec_interval_boundary(now, interval) < interval,
        spec_interval_boundary(now, interval) % interval == 0,
{
    vstd::arithmetic::div_mod::lemma_mod_division_less_than_divisor(now, interval);
    vstd::arithmetic::div_mod::lemma_fundamental_div_mod(now, interval);
    assert(spec_interval_boundary(now, interval) == (now / interval) * interval) by {
        vstd::arithmetic::mul::lemma_mul_is_commutative(interval, now / interval);
    }
    vstd::arithmetic::div_mod::lemma_mod_multiples_basic(now / interval, interval);
    assert(((now / interval) * interval) % interval == 0);
}

/// Counting is allowed once per interval: after a successful count at
/// `now` records the boundary of `now`, a second count at any later time
/// `now2` inside the same interval finds the guard closed, and so, by the
/// contract of `count_voting_score`, fails with `IntervalNotElapsed` and
/// leaves every score exactly as the single invocation did.
pub proof fn lemma_count_once_per_interval(now: int, now2: int, interval: int)
    requires
        0 < interval,
        0 <= now <= now2,
        spec_interval_boundary(now2, interval) == spec_interval_boundary(now, interval),
    ensures
        !spec_count_gate_open(spec_interval_boundary(now, interval), interval, now2),
{
    lemma_interval_boundary(now2, interval);
}

/// Whether the pointer names a stored record that is still in queue: only
/// such a pointer can defend its place in the election.
pub open spec fn spec_top_in_queue(s: Seq<AppchainBasedata>, top: Option<Seq<char>>) -> bool {
    top matches Some(t) && seq_has_id(s, t) && seq_record_of(s, t).appchain_state
        == AppchainState::InQueue
}

/// One step of the top-candidate scan over the records `s`: an `InQueue`
/// record `r` replaces the current top when the pointer names no record
/// still in queue, or when `r`'s score is strictly greater than the queued
/// top's; on an equal score the current top is kept. Records not in queue
/// leave the pointer untouched.
pub open spec fn spec_elect_step(
    s: Seq<AppchainBasedata>,
    top: Option<Seq<char>>,
    r: AppchainBasedata,
) -> Option<Seq<char>> {
    if r.appchain_state != AppchainState::InQueue {
        top
    } else if spec_top_in_queue(s, top) {
        if r.voting_score > seq_record_of(s, top->Some_0).voting_score {
            Some(r.appchain_id@)
        } else {
            top
        }
    } else {
        Some(r.appchain_id@)
    }
}

/// The top-candidate pointer after scanning the records of `s` from
/// position `k` on, starting from `top`. If `s` holds no `InQueue` record,
/// the pointer comes out unchanged.
pub open spec fn spec_elect_from(
    s: Seq<AppchainBasedata>,
    k: int,
    top: Option<Seq<char>>,
) -> Option<Seq<char>>
    decreases s.len() - k,
{
    if k < 0 || k >= s.len() {
        top
    } else {
        spec_elect_from(s, k + 1, spec_elect_step(s, top, s[k]))
    }
}

/// After scanning from position `k`, a pointer that named a queued record
/// still does, never with a lower score; and once a record in queue has
/// been scanned, the pointer names a queued record scoring at least that
/// record's.
proof fn lemma_elect_from_dominates(s: Seq<AppchainBasedata>, k: int, top: Option<Seq<char>>)
    requires
        seq_ids_unique(s),
        0 <= k,
    ensures
        ({
            let res = spec_elect_from(s, k, top);
            &&& spec_top_in_queue(s, top) ==> (spec_top_in_queue(s, res) && seq_record_of(
                s,
                top->Some_0,
            ).voting_score <= seq_record_of(s, res->Some_0).voting_score)
            &&& forall|j: int|
                k <= j < s.len() && (#[trigger] s[j]).appchain_state == AppchainState::InQueue
                    ==> (spec_top_in_queue(s, res) && s[j].voting_score <= seq_record_of(
                    s,
                    res->Some_0,
                ).voting_score)
        }),
    decreases s.len() - k,
{
    if 0 <= k < s.len() {
        let stepped = spec_elect_step(s, top, s[k]);
        if s[k].appchain_state == AppchainState::InQueue {
            if !spec_top_in_queue(s, top) || s[k].voting_score > seq_record_of(
                s,
                top->Some_0,
            ).voting_score {
                lemma_seq_index_of_unique(s, s[k].appchain_id@, k);
                assert(spec_top_in_queue(s, stepped));
            }
        }
        lemma_elect_from_dominates(s, k + 1, stepped);
    }
}

/// The election picks a leader no queued record outranks: if any record is
/// in queue, the scan leaves the pointer on a stored record still in queue
/// whose score is at least every queued record's — strictly the greatest
/// unless a tie or a prior queued leader holds it.
pub proof fn lemma_elect_top_dominates_queue(s: Seq<AppchainBasedata>, top: Option<Seq<char>>)
    requires
        seq_ids_unique(s),
    ensures
        forall|j: int|
            0 <= j < s.len() && (#[trigger] s[j]).appchain_state == AppchainState::InQueue ==> (
            spec_top_in_queue(s, spec_elect_from(s, 0, top)) && s[j].voting_score <= seq_record_of(
                s,
                spec_elect_from(s, 0, top)->Some_0,
            ).voting_score),
{
    lemma_elect_from_dominates(s, 0, top);
}

/// Election tie-break, opening half: while no top candidate is set — or the
/// recorded one names no record still in queue — the first `InQueue` record
/// scanned becomes top, whatever its score; in particular the first of two
/// candidates with equal scores.
pub proof fn lemma_elect_first_becomes_top(
    s: Seq<AppchainBasedata>,
    top: Option<Seq<char>>,
    r: AppchainBasedata,
)
    requires
        r.appchain_state == AppchainState::InQueue,
        !spec_top_in_queue(s, top),
    ensures
        spec_elect_step(s, top, r) == Some(r.appchain_id@),
{
}

/// Election tie-break, holding half: a top candidate still in queue is kept
/// against any scanned challenger whose score does not strictly exceed the
/// top's — in particular against a challenger with an equal score.
pub proof fn lemma_elect_tie_keeps_top(
    s: Seq<AppchainBasedata>,
    top: Seq<char>,
    r: AppchainBasedata,
)
    requires
        spec_top_in_queue(s, Some(top)),
        r.voting_score <= seq_record_of(s, top).voting_score,
    ensures
        spec_elect_step(s, Some(top), r) == Some(top),
{
}

/// Scanning records that are not in queue leaves the pointer alone.
proof fn lemma_elect_skips_non_queued(
    s: Seq<AppchainBasedata>,
    k: int,
    m: int,
    top: Option<Seq<char>>,
)
    requires
        0 <= k <= m <= s.len(),
        forall|j: int| k <= j < m ==> (#[trigger] s[j]).appchain_state != AppchainState::InQueue,
    ensures
        spec_elect_from(s, k, top) == spec_elect_from(s, m, top),
    decreases m - k,
{
    if k < m {
        assert(spec_elect_step(s, top, s[k]) == top);
        lemma_elect_skips_non_queued(s, k + 1, m, top);
    }
}

/// Election tie-break over a whole scan, holding half: a top candidate
/// still in queue survives the scan from `k` on when no queued record
/// strictly outranks it — in particular when every challenger's score
/// merely equals its own.
pub proof fn lemma_elect_keeps_dominant_top(s: Seq<AppchainBasedata>, k: int, t: Seq<char>)
    requires
        seq_ids_unique(s),
        0 <= k,
        spec_top_in_queue(s, Some(t)),
        forall|j: int|
            k <= j < s.len() && (#[trigger] s[j]).appchain_state == AppchainState::InQueue ==> s[
                j
            ].voting_score <= seq_record_of(s, t).voting_score,
    ensures
        spec_elect_from(s, k, Some(t)) == Some(t),
    decreases s.len() - k,
{
    if 0 <= k < s.len() {
        assert(spec_elect_step(s, Some(t), s[k]) == Some(t));
        lemma_elect_keeps_dominant_top(s, k + 1, t);
    }
}

/// Election tie-break over a whole scan, opening half: with no queued top
/// candidate recorded and every queued record carrying the same score, the
/// first record in queue becomes top and keeps the place to the end of the
/// scan.
pub proof fn lemma_elect_first_of_equals(s: Seq<AppchainBasedata>, top: Option<Seq<char>>, f: int)
    requires
        seq_ids_unique(s),
        !spec_top_in_queue(s, top),
        0 <= f < s.len(),
        s[f].appchain_state == AppchainState::InQueue,
        forall|j: int| 0 <= j < f ==> (#[trigger] s[j]).appchain_state != AppchainState::InQueue,
        forall|j: int|
            0 <= j < s.len() && (#[trigger] s[j]).appchain_state == AppchainState::InQueue ==> s[
                j
            ].voting_score == s[f].voting_score,
    ensures
        spec_elect_from(s, 0, top) == Some(s[f].appchain_id@),
{
    let leader = s[f].appchain_id@;
    lemma_elect_skips_non_queued(s, 0, f, top);
    lemma_seq_index_of_unique(s, leader, f);
    assert(spec_elect_step(s, top, s[f]) == Some(leader));
    assert(spec_top_in_queue(s, Some(leader)));
    lemma_elect_keeps_dominant_top(s, f + 1, leader);
}

/// Every `InQueue` record of `s` with a positive score — other than the
/// record at `i_top`, which is promoted rather than reduced — can be
/// reduced by `percent` without leaving the score's range.
pub open spec fn spec_reductions_fit_except(
    s: Seq<AppchainBasedata>,
    percent: u16,
    i_top: int,
) -> bool {
    forall|i: int|
        0 <= i < s.len() && i != i_top && (#[trigger] s[i]).appchain_state
            == AppchainState::InQueue && s[i].voting_score > 0 ==> s[i].reduction_fits(percent)
}

/// The anchor account of a promoted appchain: a sub-identifier of the
/// appchain id under the registry's own namespace.
pub open spec fn spec_anchor_account_view(id: Seq<char>, registry_account: Seq<char>) -> Seq<
    char,
> {
    id + "."@ + registry_account
}

/// The records after a conclusion: the record at `i_top` moves to `Staging`
/// and takes `anchor` as its anchor account; every other `InQueue` record
/// with a non-positive score dies; every other `InQueue` record with a
/// positive score keeps its state with the score reduced by `percent`;
/// everything else is unchanged.
pub open spec fn spec_concluded(
    s: Seq<AppchainBasedata>,
    i_top: int,
    anchor: AccountId,
    percent: u16,
) -> Seq<AppchainBasedata> {
    s.map(
        |j: int, r: AppchainBasedata|
            if j == i_top {
                AppchainBasedata {
                    appchain_state: AppchainState::Staging,
                    appchain_anchor: Some(anchor),
                    ..r
                }
            } else if r.appchain_state == AppchainState::InQueue {
                if r.voting_score <= 0 {
                    AppchainBasedata { appchain_state: AppchainState::Dead, ..r }
                } else {
                    r.spec_reduced(percent)
                }
            } else {
                r
            },
    )
}

/// The metadata after an update: each given field replaces its counterpart,
/// each absent field is kept.
pub open spec fn spec_updated_metadata(
    m: AppchainMetadata,
    website_url: Option<String>,
    github_address: Option<String>,
    github_release: Option<String>,
    commit_id: Option<String>,
    contact_email: Option<String>,
    custom_metadata: Option<HashMap<String, String>>,
) -> AppchainMetadata {
    AppchainMetadata {
        website_url: if website_url is Some {
            website_url->Some_0
        } else {
            m.website_url
        },
        github_address: if github_address is Some {
            github_address->Some_0
        } else {
            m.github_address
        },
        github_release: if github_release is Some {
            github_release->Some_0
        } else {
            m.github_release
        },
        commit_id: if commit_id is Some {
            commit_id->Some_0
        } else {
            m.commit_id
        },
        contact_email: if contact_email is Some {
            contact_email->Some_0
        } else {
            m.contact_email
        },
        custom_metadata: if custom_metadata is Some {
            custom_metadata->Some_0
        } else {
            m.custom_metadata
        },
        ..m
    }
}

impl AppchainRegistry {
    /// Update metadata of an appchain: each given field replaces the stored
    /// one, the rest are kept. Only the registry owner may.
    pub fn update_appchain_metadata(
        &mut self,
        caller: &AccountId,
        appchain_id: &AppchainId,
        website_url: Option<String>,
        github_address: Option<String>,
        github_release: Option<String>,
        commit_id: Option<String>,
        contact_email: Option<String>,
        custom_metadata: Option<HashMap<String, String>>,
    ) -> (r: Result<(), RegistryError>)
        requires
            old(self).well_formed(),
        ensures
            final(self).well_formed(),
            ({
                let pre = *old(self);
                if caller@ != pre.owner@ {
                    r === Err(RegistryError::Unauthorized) && *final(self) == pre
                } else if !pre.has_appchain(appchain_id@) {
                    r === Err(RegistryError::NotFound) && *final(self) == pre
                } else {
                    r is Ok && Self::record_replaced(
                        pre,
                        *final(self),
                        pre.index_of(appchain_id@),
                        AppchainBasedata {
                            appchain_metadata: spec_updated_metadata(
                                pre.record_of(appchain_id@).appchain_metadata,
                                website_url,
                                github_address,
                                github_release,
                                commit_id,
                                contact_email,
                                custom_metadata,
                            ),
                            ..pre.record_of(appchain_id@)
                        },
                    )
                }
            }),
    {
        if !caller.eq(&self.owner) {
            return Err(RegistryError::Unauthorized);
        }
        let i = match self.find_index(appchain_id) {
            Some(i) => i,
            None => { return Err(RegistryError::NotFound) },
        };
        proof {
            self.lemma_index_of_unique(appchain_id@, i as int);
        }
        if let Some(v) = website_url {
            self.appchain_basedatas[i].appchain_metadata.website_url = v;
        }
        if let Some(v) = github_address {
            self.appchain_basedatas[i].appchain_metadata.github_address = v;
        }
        if let Some(v) = github_release {
            self.appchain_basedatas[i].appchain_metadata.github_release = v;
        }
        if let Some(v) = commit_id {
            self.appchain_basedatas[i].appchain_metadata.commit_id = v;
        }
        if let Some(v) = contact_email {
            self.appchain_basedatas[i].appchain_metadata.contact_email = v;
        }
        if let Some(v) = custom_metadata {
            self.appchain_basedatas[i].appchain_metadata.custom_metadata = v;
        }
        proof {
            assert(self.appchain_basedatas@ =~= old(self).appchain_basedatas@.update(
                i as int,
                self.appchain_basedatas@[i as int],
            ));
        }
        Ok(())
    }

    /// Start auditing of an appchain: `Registered` to `Auditing`. Only the
    /// registry owner may.
    pub fn start_auditing_appchain(&mut self, caller: &AccountId, appchain_id: &AppchainId) -> (r:
        Result<(), RegistryError>)
        requires
            old(self).well_formed(),
        ensures
            final(self).well_formed(),
            ({
                let pre = *old(self);
                if caller@ != pre.owner@ {
                    r === Err(RegistryError::Unauthorized) && *final(self) == pre
                } else if !pre.has_appchain(appchain_id@) {
                    r === Err(RegistryError::NotFound) && *final(self) == pre
                } else if pre.record_of(appchain_id@).appchain_state != AppchainState::Registered {
                    r === Err(RegistryError::InvalidStateTransition) && *final(self) == pre
                } else {
                    r is Ok && Self::record_replaced(
                        pre,
                        *final(self),
                        pre.index_of(appchain_id@),
                        AppchainBasedata {
                            appchain_state: AppchainState::Auditing,
                            ..pre.record_of(appchain_id@)
                        },
                    )
                }
            }),
    {
        self.lifecycle_transition(caller, appchain_id, AppchainState::Auditing)
    }

    /// Pass auditing of an appchain: `Auditing` to `InQueue`. Only the
    /// registry owner may.
    pub fn pass_auditing_appchain(&mut self, caller: &AccountId, appchain_id: &AppchainId) -> (r:
        Result<(), RegistryError>)
        requires
            old(self).well_formed(),
        ensures
            final(self).well_formed(),
            ({
                let pre = *old(self);
                if caller@ != pre.owner@ {
                    r === Err(RegistryError::Unauthorized) && *final(self) == pre
                } else if !pre.has_appchain(appchain_id@) {
                    r === Err(RegistryError::NotFound) && *final(self) == pre
                } else if pre.record_of(appchain_id@).appchain_state != AppchainState::Auditing {
                    r === Err(RegistryError::InvalidStateTransition) && *final(self) == pre
                } else {
                    r is Ok && Self::record_replaced(
                        pre,
                        *final(self),
                        pre.index_of(appchain_id@),
                        AppchainBasedata {
                            appchain_state: AppchainState::InQueue,
                            ..pre.record_of(appchain_id@)
                        },
                    )
                }
            }),
    {
        self.lifecycle_transition(caller, appchain_id, AppchainState::InQueue)
    }

    /// Reject an appchain: `Registered`, `Auditing` or `InQueue` to `Dead`.
    /// Only the registry owner may.
    pub fn reject_appchain(&mut self, caller: &AccountId, appchain_id: &AppchainId) -> (r: Result<
        (),
        RegistryError,
    >)
        requires
            old(self).well_formed(),
        ensures
            final(self).well_formed(),
            ({
                let pre = *old(self);
                if caller@ != pre.owner@ {
                    r === Err(RegistryError::Unauthorized) && *final(self) == pre
                } else if !pre.has_appchain(appchain_id@) {
                    r === Err(RegistryError::NotFound) && *final(self) == pre
                } else if !(pre.record_of(appchain_id@).appchain_state == AppchainState::Registered
                    || pre.record_of(appchain_id@).appchain_state == AppchainState::Auditing
                    || pre.record_of(appchain_id@).appchain_state == AppchainState::InQueue) {
                    r === Err(RegistryError::InvalidStateTransition) && *final(self) == pre
                } else {
                    r is Ok && Self::record_replaced(
                        pre,
                        *final(self),
                        pre.index_of(appchain_id@),
                        AppchainBasedata {
                            appchain_state: AppchainState::Dead,
                            ..pre.record_of(appchain_id@)
                        },
                    )
                }
            }),
    {
        self.lifecycle_transition(caller, appchain_id, AppchainState::Dead)
    }

    /// Remove a dead appchain from the registry. Only the registry owner
    /// may, only in state `Dead`, and only once both deposits have been
    /// settled to zero: a non-zero deposit is value owed back to a
    /// depositor.
    pub fn remove_appchain(&mut self, caller: &AccountId, appchain_id: &AppchainId) -> (r: Result<
        (),
        RegistryError,
    >)
        requires
            old(self).well_formed(),
        ensures
            final(self).well_formed(),
            ({
                let pre = *old(self);
                if caller@ != pre.owner@ {
                    r === Err(RegistryError::Unauthorized) && *final(self) == pre
                } else if !pre.has_appchain(appchain_id@) {
                    r === Err(RegistryError::NotFound) && *final(self) == pre
                } else if pre.record_of(appchain_id@).appchain_state != AppchainState::Dead {
                    r === Err(RegistryError::InvalidStateTransition) && *final(self) == pre
                } else if pre.record_of(appchain_id@).upvote_deposit != 0 || pre.record_of(
                    appchain_id@,
                ).downvote_deposit != 0 {
                    r === Err(RegistryError::PendingDeposits) && *final(self) == pre
                } else {
                    &&& r is Ok
                    &&& final(self).appchain_basedatas@ == pre.appchain_basedatas@.remove(
                        pre.index_of(appchain_id@),
                    )
                    &&& pre.id_in_index(appchain_id@)
                    &&& final(self).appchain_ids@ == pre.appchain_ids@.remove(
                        seq_index_pos(pre.appchain_ids@, appchain_id@),
                    )
                    &&& final(self).id_set() =~= pre.id_set().remove(appchain_id@)
                    &&& pre.index_exact() ==> final(self).index_exact()
                    &&& Self::same_globals(pre, *final(self))
                }
            }),
    {
        if !caller.eq(&self.owner) {
            return Err(RegistryError::Unauthorized);
        }
        let i = match self.find_index(appchain_id) {
            Some(i) => i,
            None => { return Err(RegistryError::NotFound) },
        };
        proof {
            self.lemma_index_of_unique(appchain_id@, i as int);
        }
        if !matches!(self.appchain_basedatas[i].appchain_state, AppchainState::Dead) {
            return Err(RegistryError::InvalidStateTransition);
        }
        if self.appchain_basedatas[i].upvote_deposit != 0 {
            return Err(RegistryError::PendingDeposits);
        }
        if self.appchain_basedatas[i].downvote_deposit != 0 {
            return Err(RegistryError::PendingDeposits);
        }
        self.remove_appchain_basedata(appchain_id)
    }

    /// Count the voting score of appchains: one accrual step for every
    /// record in queue, then a fresh scan for the leading candidate.
    ///
    /// Only the designated counting operator may call, only once per
    /// configured interval, and only while at least one appchain is stored.
    /// On success the recorded "time of last count" is the current time
    /// truncated to the interval boundary, so the guard is immune to small
    /// scheduling jitter.
    pub fn count_voting_score(&mut self, caller: &AccountId, now: u64) -> (r: Result<
        (),
        RegistryError,
    >)
        requires
            old(self).well_formed(),
            ({
                let pre = *old(self);
                (caller@ == pre.registry_settings.operator_of_counting_voting_score@
                    && spec_count_gate_open(
                    pre.time_of_last_count_voting_score as int,
                    pre.registry_settings.counting_interval_in_nanoseconds(),
                    now as int,
                ) && pre.appchain_ids@.len() > 0) ==> spec_all_accruals_fit(
                    pre.appchain_basedatas@,
                )
            }),
        ensures
            final(self).well_formed(),
            ({
                let pre = *old(self);
                let interval = pre.registry_settings.counting_interval_in_nanoseconds();
                if caller@ != pre.registry_settings.operator_of_counting_voting_score@ {
                    r === Err(RegistryError::Unauthorized) && *final(self) == pre
                } else if !spec_count_gate_open(
                    pre.time_of_last_count_voting_score as int,
                    interval,
                    now as int,
                ) {
                    r === Err(RegistryError::IntervalNotElapsed) && *final(self) == pre
                } else if pre.appchain_ids@.len() == 0 {
                    r === Err(RegistryError::NotFound) && *final(self) == pre
                } else {
                    &&& r is Ok
                    &&& final(self).appchain_basedatas@ == spec_accrue_all(pre.appchain_basedatas@)
                    &&& final(self).appchain_ids@ == pre.appchain_ids@
                    &&& final(self).top_view() == spec_elect_from(
                        spec_accrue_all(pre.appchain_basedatas@),
                        0,
                        pre.top_view(),
                    )
                    &&& final(self).time_of_last_count_voting_score == spec_interval_boundary(
                        now as int,
                        interval,
                    )
                    &&& Self::same_accounts_and_settings(pre, *final(self))
                }
            }),
    {
        if !caller.eq(&self.registry_settings.operator_of_counting_voting_score) {
            return Err(RegistryError::Unauthorized);
        }
        let interval_ns: u64 = self.registry_settings.counting_interval_in_seconds
            * NANO_SECONDS_MULTIPLE;
        let last = self.time_of_last_count_voting_score;
        if now <= last || now - last <= interval_ns {
            return Err(RegistryError::IntervalNotElapsed);
        }
        if self.appchain_ids.len() == 0 {
            return Err(RegistryError::NotFound);
        }
        let ghost accrued = spec_accrue_all(old(self).appchain_basedatas@);
        let n = self.appchain_basedatas.len();
        let mut i: usize = 0;
        while i < n
            invariant
                i <= n,
                n == self.appchain_basedatas@.len(),
                n == old(self).appchain_basedatas@.len(),
                accrued == spec_accrue_all(old(self).appchain_basedatas@),
                spec_all_accruals_fit(old(self).appchain_basedatas@),
                forall|j: int| 0 <= j < i ==> self.appchain_basedatas@[j] == accrued[j],
                forall|j: int|
                    i <= j < n ==> self.appchain_basedatas@[j] == old(self).appchain_basedatas@[j],
                self.appchain_ids == old(self).appchain_ids,
                self.top_appchain_id_in_queue == old(self).top_appchain_id_in_queue,
                self.time_of_last_count_voting_score == old(
                    self,
                ).time_of_last_count_voting_score,
                Self::same_accounts_and_settings(*old(self), *self),
            decreases n - i,
        {
            if matches!(self.appchain_basedatas[i].appchain_state, AppchainState::InQueue) {
                self.appchain_basedatas[i].count_voting_score();
            }
            i = i + 1;
        }
        proof {
            assert(self.appchain_basedatas@ =~= accrued);
        }
        let mut k: usize = 0;
        while k < n
            invariant
                k <= n,
                n == self.appchain_basedatas@.len(),
                self.appchain_basedatas@ == accrued,
                seq_ids_unique(accrued),
                spec_elect_from(accrued, k as int, self.top_view()) == spec_elect_from(
                    accrued,
                    0,
                    old(self).top_view(),
                ),
                self.appchain_ids == old(self).appchain_ids,
                self.time_of_last_count_voting_score == old(
                    self,
                ).time_of_last_count_voting_score,
                Self::same_accounts_and_settings(*old(self), *self),
            decreases n - k,
        {
            let ghost top_before = self.top_view();
            let is_in_queue = matches!(
                self.appchain_basedatas[k].appchain_state,
                AppchainState::InQueue
            );
            if is_in_queue {
                let replace: bool = match &self.top_appchain_id_in_queue {
                    Some(t) => match self.find_index(t) {
                        Some(j) => {
                            proof {
                                lemma_seq_index_of_unique(accrued, t@, j as int);
                            }
                            if matches!(
                                self.appchain_basedatas[j].appchain_state,
                                AppchainState::InQueue
                            ) {
                                self.appchain_basedatas[k].voting_score
                                    > self.appchain_basedatas[j].voting_score
                            } else {
                                true
                            }
                        },
                        None => true,
                    },
                    None => true,
                };
                if replace {
                    let id = self.appchain_basedatas[k].appchain_id.clone();
                    self.top_appchain_id_in_queue = Some(id);
                }
            }
            proof {
                assert(self.top_view() == spec_elect_step(accrued, top_before, accrued[k as int]));
            }
            k = k + 1;
        }
        self.time_of_last_count_voting_score = now - now % interval_ns;
        Ok(())
    }

    /// Conclude the voting score of appchains. Only the registry owner may,
    /// and only while a top candidate is set.
    ///
    /// The top candidate moves from `InQueue` to `Staging` and its anchor
    /// account is derived under the registry's namespace; every other
    /// record still in queue dies if its score is non-positive and has its
    /// score reduced by the configured percentage otherwise; the
    /// top-candidate pointer is cleared. The returned account is the one
    /// the hosting environment should provision for the promoted
    /// appchain's anchor — a fire-and-forget request that the registry
    /// does not roll back.
    pub fn conclude_voting_score(&mut self, caller: &AccountId) -> (r: Result<
        AccountId,
        RegistryError,
    >)
        requires
            old(self).well_formed(),
            ({
                let pre = *old(self);
                (caller@ == pre.owner@ && pre.top_appchain_id_in_queue is Some
                    && pre.has_appchain(pre.top_view()->Some_0) && pre.record_of(
                    pre.top_view()->Some_0,
                ).appchain_state == AppchainState::InQueue) ==> spec_reductions_fit_except(
                    pre.appchain_basedatas@,
                    pre.registry_settings.voting_result_reduction_percent,
                    pre.index_of(pre.top_view()->Some_0),
                )
            }),
        ensures
            final(self).well_formed(),
            ({
                let pre = *old(self);
                if caller@ != pre.owner@ {
                    r === Err(RegistryError::Unauthorized) && *final(self) == pre
                } else if pre.top_appchain_id_in_queue is None {
                    r === Err(RegistryError::NoCandidate) && *final(self) == pre
                } else if !pre.has_appchain(pre.top_view()->Some_0) {
                    r === Err(RegistryError::NotFound) && *final(self) == pre
                } else if pre.record_of(pre.top_view()->Some_0).appchain_state
                    != AppchainState::InQueue {
                    r === Err(RegistryError::InvalidStateTransition) && *final(self) == pre
                } else {
                    &&& r matches Ok(a) && a@ == spec_anchor_account_view(
                        pre.top_view()->Some_0,
                        pre.registry_account@,
                    ) && final(self).appchain_basedatas@ == spec_concluded(
                        pre.appchain_basedatas@,
                        pre.index_of(pre.top_view()->Some_0),
                        a,
                        pre.registry_settings.voting_result_reduction_percent,
                    )
                    &&& final(self).appchain_ids@ == pre.appchain_ids@
                    &&& final(self).top_appchain_id_in_queue is None
                    &&& final(self).time_of_last_count_voting_score
                        == pre.time_of_last_count_voting_score
                    &&& Self::same_accounts_and_settings(pre, *final(self))
                }
            }),
    {
        if !caller.eq(&self.owner) {
            return Err(RegistryError::Unauthorized);
        }
        let top_id: AppchainId = match &self.top_appchain_id_in_queue {
            Some(t) => t.clone(),
            None => { return Err(RegistryError::NoCandidate) },
        };
        let i_top = match self.find_index(&top_id) {
            Some(i) => i,
            None => { return Err(RegistryError::NotFound) },
        };
        proof {
            self.lemma_index_of_unique(top_id@, i_top as int);
        }
        if !matches!(self.appchain_basedatas[i_top].appchain_state, AppchainState::InQueue) {
            return Err(RegistryError::InvalidStateTransition);
        }
        let mut anchor: AccountId = top_id.clone();
        anchor.append(".");
        anchor.append(self.registry_account.as_str());
        let percent = self.registry_settings.voting_result_reduction_percent;
        if self.appchain_basedatas[i_top].change_state(AppchainState::Staging).is_err() {
            return Err(RegistryError::InvalidStateTransition);
        }
        self.appchain_basedatas[i_top].set_anchor_account(anchor.clone());
        let ghost target = spec_concluded(
            old(self).appchain_basedatas@,
            i_top as int,
            anchor,
            percent,
        );
        let n = self.appchain_basedatas.len();
        let mut j: usize = 0;
        while j < n
            invariant
                j <= n,
                n == self.appchain_basedatas@.len(),
                n == old(self).appchain_basedatas@.len(),
                0 <= i_top < n,
                target == spec_concluded(
                    old(self).appchain_basedatas@,
                    i_top as int,
                    anchor,
                    percent,
                ),
                spec_reductions_fit_except(old(self).appchain_basedatas@, percent, i_top as int),
                percent <= 100,
                self.appchain_basedatas@[i_top as int] == target[i_top as int],
                forall|i: int|
                    0 <= i < j && i != i_top ==> self.appchain_basedatas@[i] == target[i],
                forall|i: int|
                    j <= i < n && i != i_top ==> self.appchain_basedatas@[i] == old(
                        self,
                    ).appchain_basedatas@[i],
                self.appchain_ids == old(self).appchain_ids,
                self.top_appchain_id_in_queue == old(self).top_appchain_id_in_queue,
                self.time_of_last_count_voting_score == old(
                    self,
                ).time_of_last_count_voting_score,
                Self::same_accounts_and_settings(*old(self), *self),
            decreases n - j,
        {
            if j != i_top && matches!(
                self.appchain_basedatas[j].appchain_state,
                AppchainState::InQueue
            ) {
                if self.appchain_basedatas[j].voting_score <= 0 {
                    if self.appchain_basedatas[j].change_state(AppchainState::Dead).is_err() {
                        return Err(RegistryError::InvalidStateTransition);
                    }
                } else {
                    self.appchain_basedatas[j].reduce_voting_score_by_percent(percent);
                }
            }
            j = j + 1;
        }
        proof {
            assert(self.appchain_basedatas@ =~= target);
        }
        self.top_appchain_id_in_queue = None;
        Ok(anchor)
    }

    /// The shared body of the three table-driven owner transitions: check
    /// the caller, resolve the record, and ask the transition table.
    pub(crate) fn lifecycle_transition(
        &mut self,
        caller: &AccountId,
        appchain_id: &AppchainId,
        to: AppchainState,
    ) -> (r: Result<(), RegistryError>)
        requires
            old(self).well_formed(),
            to != AppchainState::Staging,
        ensures
            final(self).well_formed(),
            ({
                let pre = *old(self);
                if caller@ != pre.owner@ {
                    r === Err(RegistryError::Unauthorized) && *final(self) == pre
                } else if !pre.has_appchain(appchain_id@) {
                    r === Err(RegistryError::NotFound) && *final(self) == pre
                } else if !pre.record_of(appchain_id@).appchain_state.spec_transition_allowed(
                    &to,
                ) {
                    r === Err(RegistryError::InvalidStateTransition) && *final(self) == pre
                } else {
                    r is Ok && Self::record_replaced(
                        pre,
                        *final(self),
                        pre.index_of(appchain_id@),
                        AppchainBasedata { appchain_state: to, ..pre.record_of(appchain_id@) },
                    )
                }
            }),
    {
        if !caller.eq(&self.owner) {
            return Err(RegistryError::Unauthorized);
        }
        let i = match self.find_index(appchain_id) {
            Some(i) => i,
            None => { return Err(RegistryError::NotFound) },
        };
        proof {
            self.lemma_index_of_unique(appchain_id@, i as int);
        }
        if !self.appchain_basedatas[i].appchain_state.transition_allowed(&to) {
            return Err(RegistryError::InvalidStateTransition);
        }
        let res = self.appchain_basedatas[i].change_state(to);
        res
    }
}

} // verus!
