//! Actions of an appchain's owner: custom-metadata edits and ownership
//! transfer. The caller's identity is supplied by the hosting environment
//! as a plain value and must match the record's owner.

use std::collections::HashMap;
use vstd::prelude::*;

use crate::appchain_basedata::AppchainBasedata;
use crate::registry::AppchainRegistry;
use crate::types::AccountId;
use crate::types::AppchainId;
use crate::types::AppchainMetadata;
use crate::types::RegistryError;

verus! {

impl AppchainRegistry {
    /// Update the custom metadata of an appchain, replacing the stored map
    /// wholesale. Only the appchain's owner may.
    pub fn update_appchain_custom_metadata(
        &mut self,
        caller: &AccountId,
        appchain_id: &AppchainId,
        custom_metadata: HashMap<String, String>,
    ) -> (r: Result<(), RegistryError>)
        requires
            old(self).well_formed(),
        ensures
            final(self).well_formed(),
            ({
                let pre = *old(self);
                if !pre.has_appchain(appchain_id@) {
                    r === Err(RegistryError::NotFound) && *final(self) == pre
                } else if caller@ != pre.record_of(appchain_id@).appchain_owner@ {
                    r === Err(RegistryError::Unauthorized) && *final(self) == pre
                } else {
                    r is Ok && Self::record_replaced(
                        pre,
                        *final(self),
                        pre.index_of(appchain_id@),
                        AppchainBasedata {
                            appchain_metadata: AppchainMetadata {
                                custom_metadata,
                                ..pre.record_of(appchain_id@).appchain_metadata
                            },
                            ..pre.record_of(appchain_id@)
                        },
                    )
                }
            }),
    {
        let i = match self.find_index(appchain_id) {
            Some(i) => i,
            None => { return Err(RegistryError::NotFound) },
        };
        proof {
            self.lemma_index_of_unique(appchain_id@, i as int);
        }
        if !caller.eq(&self.appchain_basedatas[i].appchain_owner) {
            return Err(RegistryError::Unauthorized);
        }
        self.appchain_basedatas[i].appchain_metadata.custom_metadata = custom_metadata;
        proof {
            assert(self.appchain_basedatas@ =~= old(self).appchain_basedatas@.update(
                i as int,
                self.appchain_basedatas@[i as int],
            ));
        }
        Ok(())
    }

    /// Transfer ownership of an appchain to another account. Only the
    /// appchain's current owner may.
    pub fn transfer_appchain_ownership(
        &mut self,
        caller: &AccountId,
        appchain_id: &AppchainId,
        new_owner: AccountId,
    ) -> (r: Result<(), RegistryError>)
        requires
            old(self).well_formed(),
        ensures
            final(self).well_formed(),
            ({
                let pre = *old(self);
                if !pre.has_appchain(appchain_id@) {
                    r === Err(RegistryError::NotFound) && *final(self) == pre
                } else if caller@ != pre.record_of(appchain_id@).appchain_owner@ {
                    r === Err(RegistryError::Unauthorized) && *final(self) == pre
                } else {
                    r is Ok && Self::record_replaced(
                        pre,
                        *final(self),
                        pre.index_of(appchain_id@),
                        AppchainBasedata {
                            appchain_owner: new_owner,
                            ..pre.record_of(appchain_id@)
                        },
                    )
                }
            }),
    {
        let i = match self.find_index(appchain_id) {
            Some(i) => i,
            None => { return Err(RegistryError::NotFound) },
        };
        proof {
            self.lemma_index_of_unique(appchain_id@, i as int);
        }
        if !caller.eq(&self.appchain_basedatas[i].appchain_owner) {
            return Err(RegistryError::Unauthorized);
        }
        self.appchain_basedatas[i].change_owner(new_owner);
        proof {
            assert(self.appchain_basedatas@ =~= old(self).appchain_basedatas@.update(
                i as int,
                self.appchain_basedatas@[i as int],
            ));
        }
        Ok(())
    }
}

} // verus!
