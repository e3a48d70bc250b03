//! The registry: an indexed store of appchain records plus the global
//! election state. The id index always covers every stored record; the
//! registry's creation leaves the index exactly equal to the stored ids,
//! and `put` and `remove` preserve that equality. Only the super-admin
//! index repair may add an id ahead of its record.

use vstd::prelude::*;

use crate::appchain_basedata::AppchainBasedata;
use crate::types::AccountId;
use crate::types::AppchainId;
use crate::types::RegistryError;
use crate::types::RegistryRoles;
use crate::types::RegistrySettings;

verus! {

/// The whole state of the appchain registry.
pub struct AppchainRegistry {
    /// The account the registry itself lives under; anchor accounts are
    /// derived beneath this namespace.
    pub registry_account: AccountId,
    /// The registry owner: the single privileged account of the
    /// registry-owner and super-admin tiers.
    pub owner: AccountId,
    /// The account of the token used for register deposits.
    pub oct_token: AccountId,
    /// Owner-mutable settings.
    pub registry_settings: RegistrySettings,
    /// Delegated role accounts.
    pub registry_roles: RegistryRoles,
    /// The id index: the id of every stored appchain, each exactly once,
    /// plus any id inserted directly for recovery.
    pub appchain_ids: Vec<AppchainId>,
    /// The stored records.
    pub appchain_basedatas: Vec<AppchainBasedata>,
    /// The current election leader among `InQueue` appchains, if any.
    pub top_appchain_id_in_queue: Option<AppchainId>,
    /// When scores were last counted, truncated to an interval boundary.
    pub time_of_last_count_voting_score: u64,
}

/// Whether some record in `s` holds the given id.
pub open spec fn seq_has_id(s: Seq<AppchainBasedata>, id: Seq<char>) -> bool {
    exists|i: int| 0 <= i < s.len() && (#[trigger] s[i]).appchain_id@ == id
}

/// The position in `s` of a record holding the given id.
pub open spec fn seq_index_of(s: Seq<AppchainBasedata>, id: Seq<char>) -> int {
    choose|i: int| 0 <= i < s.len() && (#[trigger] s[i]).appchain_id@ == id
}

/// The record in `s` holding the given id.
pub open spec fn seq_record_of(s: Seq<AppchainBasedata>, id: Seq<char>) -> AppchainBasedata {
    s[seq_index_of(s, id)]
}

/// No two records in `s` share an id.
pub open spec fn seq_ids_unique(s: Seq<AppchainBasedata>) -> bool {
    forall|i: int, j: int|
        0 <= i < j < s.len() ==> (#[trigger] s[i]).appchain_id@ != (#[trigger] s[j]).appchain_id@
}

/// Whether the id index `ids` holds the given id.
pub open spec fn seq_index_has(ids: Seq<String>, id: Seq<char>) -> bool {
    exists|i: int| 0 <= i < ids.len() && (#[trigger] ids[i])@ == id
}

/// The position of the given id in the id index `ids`.
pub open spec fn seq_index_pos(ids: Seq<String>, id: Seq<char>) -> int {
    choose|i: int| 0 <= i < ids.len() && (#[trigger] ids[i])@ == id
}

/// No id appears twice in the index `ids`.
pub open spec fn seq_index_unique(ids: Seq<String>) -> bool {
    forall|i: int, j: int|
        0 <= i < j < ids.len() ==> (#[trigger] ids[i])@ != (#[trigger] ids[j])@
}

/// Every record of `records` has its id present in the index `ids`.
pub open spec fn seq_records_indexed(ids: Seq<String>, records: Seq<AppchainBasedata>) -> bool {
    forall|i: int|
        0 <= i < records.len() ==> seq_index_has(
            ids,
            (#[trigger] records[i]).appchain_id@,
        )
}

/// The ids present in the index `ids`, as a set.
pub open spec fn seq_id_set(ids: Seq<String>) -> Set<Seq<char>> {
    Set::new(|id: Seq<char>| seq_index_has(ids, id))
}

/// The ids of the records of `records`, as a set.
pub open spec fn seq_record_id_set(records: Seq<AppchainBasedata>) -> Set<Seq<char>> {
    Set::new(|id: Seq<char>| seq_has_id(records, id))
}

/// Under uniqueness, a position holding `id` is the position `seq_index_of`
/// resolves to.
pub proof fn lemma_seq_index_of_unique(s: Seq<AppchainBasedata>, id: Seq<char>, i: int)
    requires
        seq_ids_unique(s),
        0 <= i < s.len(),
        s[i].appchain_id@ == id,
    ensures
        seq_has_id(s, id),
        seq_index_of(s, id) == i,
{
    assert(seq_has_id(s, id));
    let j = seq_index_of(s, id);
    if i < j {
        assert(s[i].appchain_id@ != s[j].appchain_id@);
    } else if j < i {
        assert(s[j].appchain_id@ != s[i].appchain_id@);
    }
}

/// Under uniqueness, a position of the index holding `id` is the position
/// `seq_index_pos` resolves to.
pub proof fn lemma_seq_index_pos_unique(ids: Seq<String>, id: Seq<char>, i: int)
    requires
        seq_index_unique(ids),
        0 <= i < ids.len(),
        (ids[i])@ == id,
    ensures
        seq_index_has(ids, id),
        seq_index_pos(ids, id) == i,
{
    assert(seq_index_has(ids, id));
    let j = seq_index_pos(ids, id);
    if i < j {
        assert((ids[i])@ != (ids[j])@);
    } else if j < i {
        assert((ids[j])@ != (ids[i])@);
    }
}

/// Pushing a fresh id onto the index keeps it duplicate-free and adds
/// exactly that id to its set.
pub proof fn lemma_id_pushed(ids: Seq<String>, id: String)
    requires
        seq_index_unique(ids),
        !seq_index_has(ids, id@),
    ensures
        seq_index_unique(ids.push(id)),
        seq_id_set(ids.push(id)) =~= seq_id_set(ids).insert(id@),
{
    assert forall|x: Seq<char>| seq_id_set(ids.push(id)).contains(x) implies seq_id_set(
        ids,
    ).insert(id@).contains(x) by {
        let k = choose|k: int| 0 <= k < ids.push(id).len() && (#[trigger] ids.push(id)[k])@ == x;
        if k < ids.len() {
            assert((ids[k])@ == x);
        }
    }
    assert forall|x: Seq<char>| seq_id_set(ids).insert(id@).contains(x) implies seq_id_set(
        ids.push(id),
    ).contains(x) by {
        if x == id@ {
            assert((ids.push(id)[ids.len() as int])@ == x);
        } else {
            let k = choose|k: int| 0 <= k < ids.len() && (#[trigger] ids[k])@ == x;
            assert((ids.push(id)[k])@ == x);
        }
    }
}

/// Pushing a record with a fresh id keeps the records duplicate-free and
/// adds exactly that id to their set.
pub proof fn lemma_record_pushed(records: Seq<AppchainBasedata>, b: AppchainBasedata)
    requires
        seq_ids_unique(records),
        !seq_has_id(records, b.appchain_id@),
    ensures
        seq_ids_unique(records.push(b)),
        seq_record_id_set(records.push(b)) =~= seq_record_id_set(records).insert(b.appchain_id@),
{
    assert forall|x: Seq<char>| seq_record_id_set(records.push(b)).contains(x)
        implies seq_record_id_set(records).insert(b.appchain_id@).contains(x) by {
        let k = choose|k: int|
            0 <= k < records.push(b).len() && (#[trigger] records.push(b)[k]).appchain_id@ == x;
        if k < records.len() {
            assert(records[k].appchain_id@ == x);
        }
    }
    assert forall|x: Seq<char>| seq_record_id_set(records).insert(b.appchain_id@).contains(x)
        implies seq_record_id_set(records.push(b)).contains(x) by {
        if x == b.appchain_id@ {
            assert(records.push(b)[records.len() as int].appchain_id@ == x);
        } else {
            let k = choose|k: int|
                0 <= k < records.len() && (#[trigger] records[k]).appchain_id@ == x;
            assert(records.push(b)[k].appchain_id@ == x);
        }
    }
}

/// Replacing a record by another with the same id leaves uniqueness, the
/// index cover and the record-id set untouched.
pub proof fn lemma_record_updated(
    ids: Seq<String>,
    records: Seq<AppchainBasedata>,
    i: int,
    b: AppchainBasedata,
)
    requires
        seq_ids_unique(records),
        seq_records_indexed(ids, records),
        0 <= i < records.len(),
        b.appchain_id@ == records[i].appchain_id@,
    ensures
        seq_ids_unique(records.update(i, b)),
        seq_records_indexed(ids, records.update(i, b)),
        seq_record_id_set(records.update(i, b)) =~= seq_record_id_set(records),
{
    let updated = records.update(i, b);
    assert forall|x: Seq<char>| seq_record_id_set(updated).contains(x)
        implies seq_record_id_set(records).contains(x) by {
        let k = choose|k: int|
            0 <= k < updated.len() && (#[trigger] updated[k]).appchain_id@ == x;
        assert(records[k].appchain_id@ == x);
    }
    assert forall|x: Seq<char>| seq_record_id_set(records).contains(x)
        implies seq_record_id_set(updated).contains(x) by {
        let k = choose|k: int|
            0 <= k < records.len() && (#[trigger] records[k]).appchain_id@ == x;
        assert(updated[k].appchain_id@ == x);
    }
}

/// Removing a record together with its index entry keeps both structures
/// duplicate-free, keeps every remaining record indexed, and takes exactly
/// that one id out of both sets.
pub proof fn lemma_pair_removed(
    ids: Seq<String>,
    records: Seq<AppchainBasedata>,
    j: int,
    i: int,
)
    requires
        seq_index_unique(ids),
        seq_ids_unique(records),
        seq_records_indexed(ids, records),
        0 <= i < records.len(),
        0 <= j < ids.len(),
        (ids[j])@ == records[i].appchain_id@,
    ensures
        seq_index_unique(ids.remove(j)),
        seq_ids_unique(records.remove(i)),
        seq_records_indexed(ids.remove(j), records.remove(i)),
        seq_id_set(ids.remove(j)) =~= seq_id_set(ids).remove((ids[j])@),
        seq_record_id_set(records.remove(i)) =~= seq_record_id_set(records).remove((ids[j])@),
{
    let gone = (ids[j])@;
    let ids2 = ids.remove(j);
    let recs2 = records.remove(i);
    assert forall|a: int, b: int| 0 <= a < b < ids2.len() implies (#[trigger] ids2[a])@
        != (#[trigger] ids2[b])@ by {
        let a0 = if a < j { a } else { a + 1 };
        let b0 = if b < j { b } else { b + 1 };
        assert((ids[a0])@ != (ids[b0])@);
    }
    assert forall|a: int, b: int| 0 <= a < b < recs2.len() implies (#[trigger] recs2[a]).appchain_id@
        != (#[trigger] recs2[b]).appchain_id@ by {
        let a0 = if a < i { a } else { a + 1 };
        let b0 = if b < i { b } else { b + 1 };
        assert(records[a0].appchain_id@ != records[b0].appchain_id@);
    }
    assert forall|k: int| 0 <= k < recs2.len() implies seq_index_has(
        ids2,
        (#[trigger] recs2[k]).appchain_id@,
    ) by {
        let k0 = if k < i { k } else { k + 1 };
        let x = records[k0].appchain_id@;
        assert(x != gone);
        assert(seq_index_has(ids, x));
        let m = choose|m: int| 0 <= m < ids.len() && (#[trigger] ids[m])@ == x;
        assert(m != j);
        if m < j {
            assert((ids2[m])@ == x);
        } else {
            assert((ids2[m - 1])@ == x);
        }
    }
    assert forall|x: Seq<char>| seq_id_set(ids2).contains(x) implies seq_id_set(ids).remove(
        gone,
    ).contains(x) by {
        let k = choose|k: int| 0 <= k < ids2.len() && (#[trigger] ids2[k])@ == x;
        let k0 = if k < j { k } else { k + 1 };
        assert((ids[k0])@ == x);
        assert(x != gone) by {
            if x == gone {
                assert((ids[k0])@ == (ids[j])@ && k0 != j);
            }
        }
    }
    assert forall|x: Seq<char>| seq_id_set(ids).remove(gone).contains(x) implies seq_id_set(
        ids2,
    ).contains(x) by {
        let k = choose|k: int| 0 <= k < ids.len() && (#[trigger] ids[k])@ == x;
        assert(k != j);
        if k < j {
            assert((ids2[k])@ == x);
        } else {
            assert((ids2[k - 1])@ == x);
        }
    }
    assert forall|x: Seq<char>| seq_record_id_set(recs2).contains(x) implies seq_record_id_set(
        records,
    ).remove(gone).contains(x) by {
        let k = choose|k: int| 0 <= k < recs2.len() && (#[trigger] recs2[k]).appchain_id@ == x;
        let k0 = if k < i { k } else { k + 1 };
        assert(records[k0].appchain_id@ == x);
        assert(x != gone) by {
            if x == gone {
                assert(records[k0].appchain_id@ == records[i].appchain_id@ && k0 != i);
            }
        }
    }
    assert forall|x: Seq<char>| seq_record_id_set(records).remove(gone).contains(x)
        implies seq_record_id_set(recs2).contains(x) by {
        let k = choose|k: int| 0 <= k < records.len() && (#[trigger] records[k]).appchain_id@ == x;
        assert(k != i);
        if k < i {
            assert(recs2[k].appchain_id@ == x);
        } else {
            assert(recs2[k - 1].appchain_id@ == x);
        }
    }
}

impl AppchainRegistry {
    /// No two records share an id.
    pub open spec fn ids_unique(self) -> bool {
        seq_ids_unique(self.appchain_basedatas@)
    }

    /// No id appears twice in the index.
    pub open spec fn index_unique(self) -> bool {
        seq_index_unique(self.appchain_ids@)
    }

    /// Every stored record's id is present in the index.
    pub open spec fn records_indexed(self) -> bool {
        seq_records_indexed(self.appchain_ids@, self.appchain_basedatas@)
    }

    /// Every stored record satisfies its own invariant.
    pub open spec fn records_well_formed(self) -> bool {
        forall|i: int|
            0 <= i < self.appchain_basedatas@.len()
                ==> (#[trigger] self.appchain_basedatas@[i]).well_formed()
    }

    /// The registry invariant: ids unique on both sides, every record's id
    /// indexed, records and settings well formed. The index may hold an id
    /// ahead of its record after a super-admin index insertion.
    pub open spec fn well_formed(self) -> bool {
        &&& self.index_unique()
        &&& self.ids_unique()
        &&& self.records_indexed()
        &&& self.records_well_formed()
        &&& self.registry_settings.well_formed()
    }

    /// Whether a record with the given id is stored.
    pub open spec fn has_appchain(self, id: Seq<char>) -> bool {
        seq_has_id(self.appchain_basedatas@, id)
    }

    /// Whether the given id is present in the id index.
    pub open spec fn id_in_index(self, id: Seq<char>) -> bool {
        seq_index_has(self.appchain_ids@, id)
    }

    /// The position of the record with the given id.
    pub open spec fn index_of(self, id: Seq<char>) -> int {
        seq_index_of(self.appchain_basedatas@, id)
    }

    /// The record with the given id.
    pub open spec fn record_of(self, id: Seq<char>) -> AppchainBasedata {
        seq_record_of(self.appchain_basedatas@, id)
    }

    /// The ids present in the index.
    pub open spec fn id_set(self) -> Set<Seq<char>> {
        seq_id_set(self.appchain_ids@)
    }

    /// The ids of the stored records.
    pub open spec fn record_id_set(self) -> Set<Seq<char>> {
        seq_record_id_set(self.appchain_basedatas@)
    }

    /// The index holds exactly the stored ids: no id without a record, no
    /// record without its id in the index.
    pub open spec fn index_exact(self) -> bool {
        self.id_set() =~= self.record_id_set()
    }

    /// The top-candidate pointer as a sequence of characters.
    pub open spec fn top_view(self) -> Option<Seq<char>> {
        match self.top_appchain_id_in_queue {
            Some(s) => Some(s@),
            None => None,
        }
    }

    /// The accounts, settings and roles of the registry are unchanged.
    pub open spec fn same_accounts_and_settings(pre: Self, post: Self) -> bool {
        &&& post.registry_account == pre.registry_account
        &&& post.owner == pre.owner
        &&& post.oct_token == pre.oct_token
        &&& post.registry_settings == pre.registry_settings
        &&& post.registry_roles == pre.registry_roles
    }

    /// Everything outside the store itself is unchanged.
    pub open spec fn same_globals(pre: Self, post: Self) -> bool {
        &&& Self::same_accounts_and_settings(pre, post)
        &&& post.top_appchain_id_in_queue == pre.top_appchain_id_in_queue
        &&& post.time_of_last_count_voting_score == pre.time_of_last_count_voting_score
    }

    /// The store holds record `r` at position `i` in place of whatever was
    /// there, and nothing else changed.
    pub open spec fn record_replaced(pre: Self, post: Self, i: int, r: AppchainBasedata) -> bool {
        &&& post.appchain_ids@ == pre.appchain_ids@
        &&& post.appchain_basedatas@ == pre.appchain_basedatas@.update(i, r)
        &&& Self::same_globals(pre, post)
    }

    /// Under uniqueness, a position holding `id` is the position `index_of`
    /// resolves to.
    pub proof fn lemma_index_of_unique(self, id: Seq<char>, i: int)
        requires
            self.ids_unique(),
            0 <= i < self.appchain_basedatas@.len(),
            self.appchain_basedatas@[i].appchain_id@ == id,
        ensures
            self.has_appchain(id),
            self.index_of(id) == i,
    {
        lemma_seq_index_of_unique(self.appchain_basedatas@, id, i);
    }

    /// The store invariant: every stored record's id is in the index, and
    /// while the index is exact — as creation leaves it and as `put` and
    /// `remove` preserve it, by their contracts — the set of indexed ids is
    /// exactly the set of stored ids. Only the super-admin index insertion
    /// may put an id ahead of its record.
    pub proof fn lemma_index_matches_records(self)
        requires
            self.well_formed(),
        ensures
            forall|id: Seq<char>|
                self.record_id_set().contains(id) ==> #[trigger] self.id_set().contains(id),
            self.index_exact() ==> self.id_set() =~= self.record_id_set(),
    {
        assert forall|id: Seq<char>| self.record_id_set().contains(id) implies #[trigger] self
            .id_set()
            .contains(id) by {
            let i = choose|i: int|
                0 <= i < self.appchain_basedatas@.len()
                    && (#[trigger] self.appchain_basedatas@[i]).appchain_id@ == id;
            assert(seq_index_has(self.appchain_ids@, id));
        }
    }

    /// Create an empty registry; its index is exact.
    pub fn new(
        registry_account: AccountId,
        owner: AccountId,
        oct_token: AccountId,
        registry_settings: RegistrySettings,
        registry_roles: RegistryRoles,
    ) -> (r: Self)
        requires
            registry_settings.well_formed(),
        ensures
            r.well_formed(),
            r.index_exact(),
            r.registry_account == registry_account,
            r.owner == owner,
            r.oct_token == oct_token,
            r.registry_settings == registry_settings,
            r.registry_roles == registry_roles,
            r.appchain_ids@.len() == 0,
            r.appchain_basedatas@.len() == 0,
            r.top_appchain_id_in_queue is None,
            r.time_of_last_count_voting_score == 0,
    {
        let r = AppchainRegistry {
            registry_account,
            owner,
            oct_token,
            registry_settings,
            registry_roles,
            appchain_ids: Vec::new(),
            appchain_basedatas: Vec::new(),
            top_appchain_id_in_queue: None,
            time_of_last_count_voting_score: 0,
        };
        proof {
            assert(r.id_set() =~= r.record_id_set());
        }
        r
    }

    /// Find the position of the record with the given id.
    pub(crate) fn find_index(&self, appchain_id: &AppchainId) -> (r: Option<usize>)
        ensures
            match r {
                Some(i) => 0 <= i < self.appchain_basedatas@.len()
                    && self.appchain_basedatas@[i as int].appchain_id@ == appchain_id@,
                None => !self.has_appchain(appchain_id@),
            },
    {
        let n = self.appchain_basedatas.len();
        let mut i: usize = 0;
        while i < n
            invariant
                i <= n,
                n == self.appchain_basedatas@.len(),
                forall|j: int|
                    0 <= j < i ==> (#[trigger] self.appchain_basedatas@[j]).appchain_id@
                        != appchain_id@,
            decreases n - i,
        {
            if self.appchain_basedatas[i].appchain_id == *appchain_id {
                return Some(i);
            }
            i = i + 1;
        }
        None
    }

    /// Find the position of the given id in the id index.
    pub(crate) fn find_id_index(&self, appchain_id: &AppchainId) -> (r: Option<usize>)
        ensures
            match r {
                Some(i) => 0 <= i < self.appchain_ids@.len() && (self.appchain_ids@[i as int])@
                    == appchain_id@,
                None => !self.id_in_index(appchain_id@),
            },
    {
        let n = self.appchain_ids.len();
        let mut i: usize = 0;
        while i < n
            invariant
                i <= n,
                n == self.appchain_ids@.len(),
                forall|j: int| 0 <= j < i ==> (#[trigger] self.appchain_ids@[j])@ != appchain_id@,
            decreases n - i,
        {
            if self.appchain_ids[i] == *appchain_id {
                return Some(i);
            }
            i = i + 1;
        }
        None
    }

    /// Get the record of the given appchain; `NotFound` if no record holds
    /// that id.
    pub fn get_appchain_basedata(&self, appchain_id: &AppchainId) -> (r: Result<
        &AppchainBasedata,
        RegistryError,
    >)
        requires
            self.well_formed(),
        ensures
            self.has_appchain(appchain_id@) ==> (r matches Ok(b) && *b == self.record_of(
                appchain_id@,
            )),
            !self.has_appchain(appchain_id@) ==> r === Err(RegistryError::NotFound),
    {
        match self.find_index(appchain_id) {
            Some(i) => {
                proof {
                    self.lemma_index_of_unique(appchain_id@, i as int);
                }
                Ok(&self.appchain_basedatas[i])
            },
            None => Err(RegistryError::NotFound),
        }
    }

    /// Store a record under its id: an idempotent replace that creates the
    /// record if its id is new and overwrites it otherwise. A created
    /// record's id joins the index unless a recovery insertion already put
    /// it there; an exact index stays exact.
    pub fn put_appchain_basedata(&mut self, appchain_basedata: AppchainBasedata)
        requires
            old(self).well_formed(),
            appchain_basedata.well_formed(),
        ensures
            final(self).well_formed(),
            old(self).index_exact() ==> final(self).index_exact(),
            old(self).has_appchain(appchain_basedata.appchain_id@) ==> Self::record_replaced(
                *old(self),
                *final(self),
                old(self).index_of(appchain_basedata.appchain_id@),
                appchain_basedata,
            ),
            !old(self).has_appchain(appchain_basedata.appchain_id@) ==> {
                &&& final(self).appchain_basedatas@ == old(self).appchain_basedatas@.push(
                    appchain_basedata,
                )
                &&& old(self).id_in_index(appchain_basedata.appchain_id@)
                    ==> final(self).appchain_ids@ == old(self).appchain_ids@
                &&& !old(self).id_in_index(appchain_basedata.appchain_id@) ==> {
                    &&& final(self).appchain_ids@.len() == old(self).appchain_ids@.len() + 1
                    &&& forall|i: int|
                        0 <= i < old(self).appchain_ids@.len() ==> final(self).appchain_ids@[i]
                            == old(self).appchain_ids@[i]
                    &&& (final(self).appchain_ids@.last())@ == appchain_basedata.appchain_id@
                }
                &&& Self::same_globals(*old(self), *final(self))
            },
    {
        let ghost id_view = appchain_basedata.appchain_id@;
        match self.find_index(&appchain_basedata.appchain_id) {
            Some(i) => {
                proof {
                    self.lemma_index_of_unique(id_view, i as int);
                    lemma_record_updated(
                        self.appchain_ids@,
                        self.appchain_basedatas@,
                        i as int,
                        appchain_basedata,
                    );
                }
                self.appchain_basedatas[i] = appchain_basedata;
                proof {
                    if old(self).index_exact() {
                        assert(self.id_set() =~= self.record_id_set());
                    }
                }
            },
            None => {
                proof {
                    lemma_record_pushed(self.appchain_basedatas@, appchain_basedata);
                }
                match self.find_id_index(&appchain_basedata.appchain_id) {
                    Some(j) => {
                        proof {
                            assert((self.appchain_ids@[j as int])@ == id_view);
                            assert(seq_index_has(self.appchain_ids@, id_view));
                            if old(self).index_exact() {
                                // an exact index cannot hold an id whose
                                // record is missing
                                assert(old(self).id_set().contains(id_view));
                                assert(old(self).record_id_set().contains(id_view));
                                assert(false);
                            }
                        }
                    },
                    None => {
                        proof {
                            lemma_id_pushed(self.appchain_ids@, appchain_basedata.appchain_id);
                        }
                        let id = appchain_basedata.appchain_id.clone();
                        self.appchain_ids.push(id);
                        proof {
                            assert((self.appchain_ids@.last())@ == id_view);
                            assert(seq_index_has(self.appchain_ids@, id_view));
                        }
                    },
                }
                self.appchain_basedatas.push(appchain_basedata);
                proof {
                    assert forall|k: int|
                        0 <= k < self.appchain_basedatas@.len() implies seq_index_has(
                        self.appchain_ids@,
                        (#[trigger] self.appchain_basedatas@[k]).appchain_id@,
                    ) by {
                        if k < old(self).appchain_basedatas@.len() {
                            let x = old(self).appchain_basedatas@[k].appchain_id@;
                            let m = choose|m: int|
                                0 <= m < old(self).appchain_ids@.len() && (#[trigger] old(
                                    self,
                                ).appchain_ids@[m])@ == x;
                            assert((self.appchain_ids@[m])@ == x);
                        } else {
                            assert(self.appchain_basedatas@[k].appchain_id@ == id_view);
                        }
                    }
                    if old(self).index_exact() {
                        assert(self.id_set() =~= self.record_id_set());
                    }
                }
            },
        }
    }

    /// Remove the record with the given id from the record collection and
    /// its entry from the id index together; `NotFound` if no record holds
    /// that id. An exact index stays exact.
    pub fn remove_appchain_basedata(&mut self, appchain_id: &AppchainId) -> (r: Result<
        (),
        RegistryError,
    >)
        requires
            old(self).well_formed(),
        ensures
            final(self).well_formed(),
            !old(self).has_appchain(appchain_id@) ==> r === Err(RegistryError::NotFound)
                && *final(self) == *old(self),
            old(self).has_appchain(appchain_id@) ==> {
                &&& r is Ok
                &&& final(self).appchain_basedatas@ == old(self).appchain_basedatas@.remove(
                    old(self).index_of(appchain_id@),
                )
                &&& old(self).id_in_index(appchain_id@)
                &&& final(self).appchain_ids@ == old(self).appchain_ids@.remove(
                    seq_index_pos(old(self).appchain_ids@, appchain_id@),
                )
                &&& final(self).id_set() =~= old(self).id_set().remove(appchain_id@)
                &&& old(self).index_exact() ==> final(self).index_exact()
                &&& Self::same_globals(*old(self), *final(self))
            },
    {
        let i = match self.find_index(appchain_id) {
            Some(i) => i,
            None => { return Err(RegistryError::NotFound) },
        };
        proof {
            self.lemma_index_of_unique(appchain_id@, i as int);
        }
        match self.find_id_index(appchain_id) {
            Some(j) => {
                proof {
                    lemma_seq_index_pos_unique(self.appchain_ids@, appchain_id@, j as int);
                    lemma_pair_removed(
                        self.appchain_ids@,
                        self.appchain_basedatas@,
                        j as int,
                        i as int,
                    );
                }
                self.appchain_ids.remove(j);
                self.appchain_basedatas.remove(i);
                Ok(())
            },
            None => {
                proof {
                    assert(false);
                }
                Err(RegistryError::NotFound)
            },
        }
    }

    /// The id index: every stored appchain's id, each exactly once, in no
    /// guaranteed order.
    pub fn list_appchain_ids(&self) -> (r: &Vec<AppchainId>)
        ensures
            r == &self.appchain_ids,
    {
        &self.appchain_ids
    }

    /// Replace the registry settings; only the registry owner may.
    pub fn change_registry_settings(
        &mut self,
        caller: &AccountId,
        registry_settings: RegistrySettings,
    ) -> (r: Result<(), RegistryError>)
        requires
            old(self).well_formed(),
            registry_settings.well_formed(),
        ensures
            final(self).well_formed(),
            caller@ != old(self).owner@ ==> r === Err(RegistryError::Unauthorized) && *final(self)
                == *old(self),
            caller@ == old(self).owner@ ==> r is Ok && *final(self) == (AppchainRegistry {
                registry_settings,
                ..*old(self)
            }),
    {
        if !caller.eq(&self.owner) {
            return Err(RegistryError::Unauthorized);
        }
        self.registry_settings = registry_settings;
        Ok(())
    }
}

} // verus!
