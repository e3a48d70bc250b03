//! Recovery actions of the registry super-admin: forced deletion, bulk
//! clearing under an explicit work budget, forced promotion to `Booting`,
//! and direct index insertion. These bypass per-record lifecycle
//! preconditions, but a record holding deposits is value owed back to a
//! depositor and is never removed: forced deletion leaves such a record in
//! place rather than failing.

use vstd::prelude::*;

use crate::appchain_basedata::AppchainBasedata;
use crate::registry::lemma_id_pushed;
use crate::registry::lemma_pair_removed;
use crate::registry::seq_index_pos;
use crate::registry::AppchainRegistry;
use crate::types::AccountId;
use crate::types::AppchainId;
use crate::types::AppchainState;
use crate::types::RegistryError;

verus! {

/// Whether a record holds no deposits and may therefore be removed.
pub open spec fn spec_removable(r: AppchainBasedata) -> bool {
    r.upvote_deposit == 0 && r.downvote_deposit == 0
}

/// The records left after clearing the first `n` of `s`: of those, the
/// records without deposits are removed and the records still holding a
/// deposit are kept; records beyond the first `n` are untouched.
pub open spec fn spec_cleared(s: Seq<AppchainBasedata>, n: int) -> Seq<AppchainBasedata>
    decreases n,
{
    if n <= 0 || s.len() == 0 {
        s
    } else {
        let rest = spec_cleared(s.drop_first(), n - 1);
        if spec_removable(s[0]) {
            rest
        } else {
            seq![s[0]] + rest
        }
    }
}

/// Clearing a processed prefix extended by one more record clears the
/// prefix and then keeps or drops that record.
pub proof fn lemma_spec_cleared_snoc(t: Seq<AppchainBasedata>, x: AppchainBasedata, n: int)
    requires
        n >= t.len(),
    ensures
        spec_cleared(t.push(x), n + 1) == spec_cleared(t, n) + (if spec_removable(x) {
            Seq::<AppchainBasedata>::empty()
        } else {
            seq![x]
        }),
    decreases t.len(),
{
    let tail = if spec_removable(x) {
        Seq::<AppchainBasedata>::empty()
    } else {
        seq![x]
    };
    if t.len() == 0 {
        assert(t.push(x) =~= seq![x]);
        assert(seq![x].drop_first() =~= Seq::<AppchainBasedata>::empty());
        assert(spec_cleared(Seq::<AppchainBasedata>::empty(), n) == Seq::<
            AppchainBasedata,
        >::empty());
        assert(spec_cleared(t.push(x), n + 1) =~= spec_cleared(t, n) + tail);
    } else {
        assert(t.push(x).drop_first() =~= t.drop_first().push(x));
        lemma_spec_cleared_snoc(t.drop_first(), x, n - 1);
        assert(spec_cleared(t.push(x), n + 1) =~= spec_cleared(t, n) + tail);
    }
}

impl AppchainRegistry {
    /// Change the account of the deposit token. Only the registry owner
    /// may.
    pub fn change_oct_token(&mut self, caller: &AccountId, oct_token: AccountId) -> (r: Result<
        (),
        RegistryError,
    >)
        requires
            old(self).well_formed(),
        ensures
            final(self).well_formed(),
            caller@ != old(self).owner@ ==> r === Err(RegistryError::Unauthorized) && *final(self)
                == *old(self),
            caller@ == old(self).owner@ ==> r is Ok && *final(self) == (AppchainRegistry {
                oct_token,
                ..*old(self)
            }),
    {
        if !caller.eq(&self.owner) {
            return Err(RegistryError::Unauthorized);
        }
        self.oct_token = oct_token;
        Ok(())
    }

    /// Delete an appchain whatever its lifecycle state is. A record still
    /// holding a deposit is not an error here: the call succeeds and simply
    /// leaves the record in place, to be deleted once the deposits are
    /// settled. Only the registry owner may.
    pub fn delete_appchain(&mut self, caller: &AccountId, appchain_id: &AppchainId) -> (r: Result<
        (),
        RegistryError,
    >)
        requires
            old(self).well_formed(),
        ensures
            final(self).well_formed(),
            ({
                let pre = *old(self);
                if caller@ != pre.owner@ {
                    r === Err(RegistryError::Unauthorized) && *final(self) == pre
                } else if !pre.has_appchain(appchain_id@) {
                    r === Err(RegistryError::NotFound) && *final(self) == pre
                } else if !spec_removable(pre.record_of(appchain_id@)) {
                    r is Ok && *final(self) == pre
                } else {
                    &&& r is Ok
                    &&& final(self).appchain_basedatas@ == pre.appchain_basedatas@.remove(
                        pre.index_of(appchain_id@),
                    )
                    &&& pre.id_in_index(appchain_id@)
                    &&& final(self).appchain_ids@ == pre.appchain_ids@.remove(
                        seq_index_pos(pre.appchain_ids@, appchain_id@),
                    )
                    &&& final(self).id_set() =~= pre.id_set().remove(appchain_id@)
                    &&& pre.index_exact() ==> final(self).index_exact()
                    &&& Self::same_globals(pre, *final(self))
                }
            }),
    {
        if !caller.eq(&self.owner) {
            return Err(RegistryError::Unauthorized);
        }
        let i = match self.find_index(appchain_id) {
            Some(i) => i,
            None => { return Err(RegistryError::NotFound) },
        };
        proof {
            self.lemma_index_of_unique(appchain_id@, i as int);
        }
        if self.appchain_basedatas[i].upvote_deposit != 0 || self.appchain_basedatas[
            i
        ].downvote_deposit != 0 {
            return Ok(());
        }
        self.remove_appchain_basedata(appchain_id)
    }

    /// Clear the registry of appchains under an explicit work budget: each
    /// stored record examined costs one unit. Records without deposits are
    /// removed together with their index entries; records still holding a
    /// deposit are kept. When the budget runs out first the call stops
    /// early with `ResourceBudgetExceeded` — not a failure, but a signal to
    /// re-invoke; the operation is idempotent and resumable. Only the
    /// registry owner may.
    pub fn clear_appchains(&mut self, caller: &AccountId, budget: u64) -> (r: Result<
        (),
        RegistryError,
    >)
        requires
            old(self).well_formed(),
        ensures
            final(self).well_formed(),
            old(self).index_exact() ==> final(self).index_exact(),
            ({
                let pre = *old(self);
                let n0 = pre.appchain_basedatas@.len() as int;
                if caller@ != pre.owner@ {
                    r === Err(RegistryError::Unauthorized) && *final(self) == pre
                } else if budget >= n0 {
                    &&& r is Ok
                    &&& final(self).appchain_basedatas@ == spec_cleared(
                        pre.appchain_basedatas@,
                        n0,
                    )
                    &&& Self::same_globals(pre, *final(self))
                } else {
                    &&& r === Err(RegistryError::ResourceBudgetExceeded)
                    &&& final(self).appchain_basedatas@ == spec_cleared(
                        pre.appchain_basedatas@.take(budget as int),
                        budget as int,
                    ) + pre.appchain_basedatas@.skip(budget as int)
                    &&& Self::same_globals(pre, *final(self))
                }
            }),
    {
        if !caller.eq(&self.owner) {
            return Err(RegistryError::Unauthorized);
        }
        let ghost pre_records = self.appchain_basedatas@;
        let ghost exact0 = old(self).index_exact();
        let mut spent: u64 = 0;
        let mut c: usize = 0;
        loop
            invariant
                caller@ == old(self).owner@,
                spent <= budget,
                spent <= pre_records.len(),
                c == spec_cleared(pre_records.take(spent as int), spent as int).len(),
                c <= self.appchain_basedatas@.len(),
                self.appchain_basedatas@ == spec_cleared(
                    pre_records.take(spent as int),
                    spent as int,
                ) + pre_records.skip(spent as int),
                self.index_unique(),
                self.ids_unique(),
                self.records_indexed(),
                self.records_well_formed(),
                self.registry_settings.well_formed(),
                exact0 == old(self).index_exact(),
                exact0 ==> self.index_exact(),
                self.registry_settings == old(self).registry_settings,
                Self::same_globals(*old(self), *self),
                pre_records == old(self).appchain_basedatas@,
            decreases self.appchain_basedatas@.len() - c,
        {
            proof {
                assert(pre_records.skip(spent as int).len() == self.appchain_basedatas@.len()
                    - c);
            }
            if c >= self.appchain_basedatas.len() {
                proof {
                    assert(pre_records.skip(spent as int).len() == 0);
                    assert(spent == pre_records.len());
                    assert(pre_records.take(spent as int) =~= pre_records);
                    assert(self.appchain_basedatas@ =~= spec_cleared(
                        pre_records,
                        pre_records.len() as int,
                    ));
                }
                return Ok(());
            }
            if spent >= budget {
                return Err(RegistryError::ResourceBudgetExceeded);
            }
            proof {
                assert(pre_records.take(spent as int).push(pre_records[spent as int])
                    =~= pre_records.take(spent + 1));
                lemma_spec_cleared_snoc(
                    pre_records.take(spent as int),
                    pre_records[spent as int],
                    spent as int,
                );
                assert(self.appchain_basedatas@[c as int] == pre_records[spent as int]);
            }
            let removable = self.appchain_basedatas[c].upvote_deposit == 0
                && self.appchain_basedatas[c].downvote_deposit == 0;
            if removable {
                let id = self.appchain_basedatas[c].appchain_id.clone();
                match self.find_id_index(&id) {
                    Some(j) => {
                        proof {
                            lemma_pair_removed(
                                self.appchain_ids@,
                                self.appchain_basedatas@,
                                j as int,
                                c as int,
                            );
                        }
                        self.appchain_ids.remove(j);
                        self.appchain_basedatas.remove(c);
                        proof {
                            if exact0 {
                                assert(self.id_set() =~= self.record_id_set());
                            }
                            assert(self.appchain_basedatas@ =~= spec_cleared(
                                pre_records.take(spent + 1),
                                spent + 1,
                            ) + pre_records.skip(spent + 1));
                        }
                    },
                    None => {
                        proof {
                            assert(false);
                        }
                    },
                }
            } else {
                c = c + 1;
                proof {
                    assert(self.appchain_basedatas@ =~= spec_cleared(
                        pre_records.take(spent + 1),
                        spent + 1,
                    ) + pre_records.skip(spent + 1));
                }
            }
            spent = spent + 1;
        }
    }

    /// Force an appchain from `Staging` to `Booting`. Only the registry
    /// owner may.
    pub fn go_booting(&mut self, caller: &AccountId, appchain_id: &AppchainId) -> (r: Result<
        (),
        RegistryError,
    >)
        requires
            old(self).well_formed(),
        ensures
            final(self).well_formed(),
            ({
                let pre = *old(self);
                if caller@ != pre.owner@ {
                    r === Err(RegistryError::Unauthorized) && *final(self) == pre
                } else if !pre.has_appchain(appchain_id@) {
                    r === Err(RegistryError::NotFound) && *final(self) == pre
                } else if pre.record_of(appchain_id@).appchain_state != AppchainState::Staging {
                    r === Err(RegistryError::InvalidStateTransition) && *final(self) == pre
                } else {
                    r is Ok && Self::record_replaced(
                        pre,
                        *final(self),
                        pre.index_of(appchain_id@),
                        AppchainBasedata {
                            appchain_state: AppchainState::Booting,
                            ..pre.record_of(appchain_id@)
                        },
                    )
                }
            }),
    {
        self.lifecycle_transition(caller, appchain_id, AppchainState::Booting)
    }

    /// Insert an appchain id directly into the id index: the recovery
    /// operation for an index that lost an id. An id already present is
    /// left alone, so the insertion is idempotent; a fresh id joins the
    /// index without a backing record, and a later `put` of the record
    /// restores the pairing without duplicating the id. Only the registry
    /// owner may.
    pub fn add_appchain_id(&mut self, caller: &AccountId, appchain_id: &AppchainId) -> (r: Result<
        (),
        RegistryError,
    >)
        requires
            old(self).well_formed(),
        ensures
            final(self).well_formed(),
            caller@ != old(self).owner@ ==> r === Err(RegistryError::Unauthorized) && *final(self)
                == *old(self),
            caller@ == old(self).owner@ ==> {
                &&& r is Ok
                &&& final(self).appchain_basedatas@ == old(self).appchain_basedatas@
                &&& final(self).id_set() =~= old(self).id_set().insert(appchain_id@)
                &&& old(self).id_in_index(appchain_id@) ==> *final(self) == *old(self)
                &&& !old(self).id_in_index(appchain_id@) ==> {
                    &&& final(self).appchain_ids@.len() == old(self).appchain_ids@.len() + 1
                    &&& forall|i: int|
                        0 <= i < old(self).appchain_ids@.len() ==> final(self).appchain_ids@[i]
                            == old(self).appchain_ids@[i]
                    &&& (final(self).appchain_ids@.last())@ == appchain_id@
                }
                &&& Self::same_globals(*old(self), *final(self))
            },
    {
        if !caller.eq(&self.owner) {
            return Err(RegistryError::Unauthorized);
        }
        match self.find_id_index(appchain_id) {
            Some(_) => {
                proof {
                    assert(self.id_set() =~= old(self).id_set().insert(appchain_id@));
                }
                Ok(())
            },
            None => {
                proof {
                    lemma_id_pushed(self.appchain_ids@, *appchain_id);
                }
                self.appchain_ids.push(appchain_id.clone());
                proof {
                    assert forall|k: int|
                        0 <= k < self.appchain_basedatas@.len() implies crate::registry::seq_index_has(
                        self.appchain_ids@,
                        (#[trigger] self.appchain_basedatas@[k]).appchain_id@,
                    ) by {
                        let m = choose|m: int|
                            0 <= m < old(self).appchain_ids@.len() && (#[trigger] old(
                                self,
                            ).appchain_ids@[m])@ == self.appchain_basedatas@[k].appchain_id@;
                        assert((self.appchain_ids@[m])@
                            == self.appchain_basedatas@[k].appchain_id@);
                    }
                }
                Ok(())
            },
        }
    }
}

} // verus!
