//! Tests of the store, the lifecycle state machine, metadata and ownership
//! actions, and the sudo recovery surface.

use std::collections::HashMap;

use appchain_registry::appchain_basedata::AppchainBasedata;
use appchain_registry::registry::AppchainRegistry;
use appchain_registry::types::AppchainMetadata;
use appchain_registry::types::AppchainState;
use appchain_registry::types::AppchainTemplateType;
use appchain_registry::types::RegistryError;
use appchain_registry::types::RegistryRoles;
use appchain_registry::types::RegistrySettings;

fn sample_metadata() -> AppchainMetadata {
    AppchainMetadata {
        template_type: AppchainTemplateType::Barnacle,
        website_url: "https://example.net".to_string(),
        github_address: "https://example.net/src".to_string(),
        github_release: "v1.0.0".to_string(),
        commit_id: "0123abcd".to_string(),
        contact_email: "dev@example.net".to_string(),
        custom_metadata: HashMap::new(),
    }
}

fn sample_registry() -> AppchainRegistry {
    AppchainRegistry::new(
        "registry".to_string(),
        "owner".to_string(),
        "oct".to_string(),
        RegistrySettings {
            minimum_register_deposit: 1000,
            voting_result_reduction_percent: 50,
            counting_interval_in_seconds: 10,
            operator_of_counting_voting_score: "operator".to_string(),
        },
        RegistryRoles {
            appchain_lifecycle_manager: "lifecycle".to_string(),
            registry_settings_manager: "settings".to_string(),
            octopus_council: None,
        },
    )
}

fn put_registered(reg: &mut AppchainRegistry, id: &str, owner: &str) {
    let record = AppchainBasedata::new(
        id.to_string(),
        owner.to_string(),
        sample_metadata(),
        7,
    );
    reg.put_appchain_basedata(record);
}

#[test]
fn new_registry_is_empty() {
    let reg = sample_registry();
    assert_eq!(reg.list_appchain_ids().len(), 0);
    assert!(reg.top_appchain_id_in_queue.is_none());
    assert_eq!(reg.time_of_last_count_voting_score, 0);
}

#[test]
fn new_record_starts_registered_with_zero_score() {
    let record = AppchainBasedata::new(
        "alpha".to_string(),
        "alice".to_string(),
        sample_metadata(),
        42,
    );
    assert_eq!(record.state(), AppchainState::Registered);
    assert_eq!(record.voting_score(), 0);
    assert_eq!(record.upvote_deposit(), 0);
    assert_eq!(record.downvote_deposit(), 0);
    assert!(record.anchor().is_none());
    assert_eq!(record.id().as_str(), "alpha");
    assert_eq!(record.owner().as_str(), "alice");
    assert_eq!(record.registered_time, 42);
}

#[test]
fn is_managed_by_anchor_only_after_promotion() {
    assert!(!AppchainState::Registered.is_managed_by_anchor());
    assert!(!AppchainState::Auditing.is_managed_by_anchor());
    assert!(!AppchainState::InQueue.is_managed_by_anchor());
    assert!(AppchainState::Staging.is_managed_by_anchor());
    assert!(AppchainState::Booting.is_managed_by_anchor());
    assert!(AppchainState::Active.is_managed_by_anchor());
    assert!(AppchainState::Broken.is_managed_by_anchor());
    assert!(!AppchainState::Dead.is_managed_by_anchor());
}

#[test]
fn state_text_names() {
    assert_eq!(AppchainState::Registered.to_text().as_str(), "registered");
    assert_eq!(AppchainState::Auditing.to_text().as_str(), "auditing");
    assert_eq!(AppchainState::InQueue.to_text().as_str(), "inQueue");
    assert_eq!(AppchainState::Staging.to_text().as_str(), "staging");
    assert_eq!(AppchainState::Booting.to_text().as_str(), "booting");
    assert_eq!(AppchainState::Active.to_text().as_str(), "active");
    assert_eq!(AppchainState::Broken.to_text().as_str(), "broken");
    assert_eq!(AppchainState::Dead.to_text().as_str(), "dead");
}

#[test]
fn transition_table_rows() {
    let allowed = [
        (AppchainState::Registered, AppchainState::Auditing),
        (AppchainState::Auditing, AppchainState::InQueue),
        (AppchainState::Registered, AppchainState::Dead),
        (AppchainState::Auditing, AppchainState::Dead),
        (AppchainState::InQueue, AppchainState::Dead),
        (AppchainState::InQueue, AppchainState::Staging),
        (AppchainState::Staging, AppchainState::Booting),
    ];
    let all = [
        AppchainState::Registered,
        AppchainState::Auditing,
        AppchainState::InQueue,
        AppchainState::Staging,
        AppchainState::Booting,
        AppchainState::Active,
        AppchainState::Broken,
        AppchainState::Dead,
    ];
    for from in all.iter() {
        for to in all.iter() {
            let expect = allowed.iter().any(|(f, t)| f == from && t == to);
            assert_eq!(from.transition_allowed(to), expect);
        }
    }
}

#[test]
fn change_state_refuses_transitions_outside_the_table() {
    let mut record = AppchainBasedata::new(
        "alpha".to_string(),
        "alice".to_string(),
        sample_metadata(),
        7,
    );
    assert_eq!(
        record.change_state(AppchainState::Booting),
        Err(RegistryError::InvalidStateTransition)
    );
    assert_eq!(record.state(), AppchainState::Registered);
    assert_eq!(record.change_state(AppchainState::Auditing), Ok(()));
    assert_eq!(record.state(), AppchainState::Auditing);
    assert_eq!(
        record.change_state(AppchainState::Registered),
        Err(RegistryError::InvalidStateTransition)
    );
    assert_eq!(record.change_state(AppchainState::InQueue), Ok(()));
    assert_eq!(record.change_state(AppchainState::Dead), Ok(()));
    assert_eq!(record.state(), AppchainState::Dead);
}

#[test]
fn store_index_and_records_stay_in_step() {
    let mut reg = sample_registry();
    put_registered(&mut reg, "alpha", "alice");
    put_registered(&mut reg, "beta", "bob");
    put_registered(&mut reg, "gamma", "carol");
    assert_eq!(reg.list_appchain_ids().len(), 3);
    for id in reg.list_appchain_ids().clone() {
        assert!(reg.get_appchain_basedata(&id).is_ok());
    }
    // an idempotent replace neither duplicates the id nor loses the record
    put_registered(&mut reg, "beta", "brian");
    assert_eq!(reg.list_appchain_ids().len(), 3);
    assert_eq!(
        reg.get_appchain_basedata(&"beta".to_string())
            .unwrap()
            .owner()
            .as_str(),
        "brian"
    );
    // removal takes the id and the record out together
    assert_eq!(reg.remove_appchain_basedata(&"beta".to_string()), Ok(()));
    assert_eq!(reg.list_appchain_ids().len(), 2);
    assert!(!reg.list_appchain_ids().iter().any(|i| i.as_str() == "beta"));
    assert_eq!(
        reg.get_appchain_basedata(&"beta".to_string()).err(),
        Some(RegistryError::NotFound)
    );
    for id in reg.list_appchain_ids().clone() {
        assert!(reg.get_appchain_basedata(&id).is_ok());
    }
    assert_eq!(
        reg.remove_appchain_basedata(&"beta".to_string()),
        Err(RegistryError::NotFound)
    );
}

#[test]
fn lifecycle_actions_check_tier_then_record_then_state() {
    let mut reg = sample_registry();
    put_registered(&mut reg, "alpha", "alice");
    let owner = "owner".to_string();
    let stranger = "stranger".to_string();
    let alpha = "alpha".to_string();
    let absent_id = "missing".to_string();
    assert_eq!(
        reg.start_auditing_appchain(&stranger, &alpha),
        Err(RegistryError::Unauthorized)
    );
    assert_eq!(
        reg.start_auditing_appchain(&owner, &absent_id),
        Err(RegistryError::NotFound)
    );
    assert_eq!(
        reg.pass_auditing_appchain(&owner, &alpha),
        Err(RegistryError::InvalidStateTransition)
    );
    assert_eq!(reg.start_auditing_appchain(&owner, &alpha), Ok(()));
    assert_eq!(
        reg.get_appchain_basedata(&alpha).unwrap().state(),
        AppchainState::Auditing
    );
    assert_eq!(
        reg.start_auditing_appchain(&owner, &alpha),
        Err(RegistryError::InvalidStateTransition)
    );
    assert_eq!(reg.pass_auditing_appchain(&owner, &alpha), Ok(()));
    assert_eq!(
        reg.get_appchain_basedata(&alpha).unwrap().state(),
        AppchainState::InQueue
    );
    assert_eq!(reg.reject_appchain(&owner, &alpha), Ok(()));
    assert_eq!(
        reg.get_appchain_basedata(&alpha).unwrap().state(),
        AppchainState::Dead
    );
    assert_eq!(
        reg.reject_appchain(&owner, &alpha),
        Err(RegistryError::InvalidStateTransition)
    );
}

#[test]
fn update_appchain_metadata_replaces_only_given_fields() {
    let mut reg = sample_registry();
    put_registered(&mut reg, "alpha", "alice");
    let owner = "owner".to_string();
    let alpha = "alpha".to_string();
    let mut custom = HashMap::new();
    custom.insert("epoch".to_string(), "9".to_string());
    assert_eq!(
        reg.update_appchain_metadata(
            &"stranger".to_string(),
            &alpha,
            Some("https://new.example.net".to_string()),
            None,
            None,
            None,
            None,
            None,
        ),
        Err(RegistryError::Unauthorized)
    );
    assert_eq!(
        reg.update_appchain_metadata(
            &owner,
            &alpha,
            Some("https://new.example.net".to_string()),
            None,
            Some("v2.0.0".to_string()),
            None,
            None,
            Some(custom),
        ),
        Ok(())
    );
    let m = &reg.get_appchain_basedata(&alpha).unwrap().appchain_metadata;
    assert_eq!(m.website_url.as_str(), "https://new.example.net");
    assert_eq!(m.github_address.as_str(), "https://example.net/src");
    assert_eq!(m.github_release.as_str(), "v2.0.0");
    assert_eq!(m.commit_id.as_str(), "0123abcd");
    assert_eq!(m.contact_email.as_str(), "dev@example.net");
    assert_eq!(m.custom_metadata.get("epoch").map(|s| s.as_str()), Some("9"));
}

#[test]
fn custom_metadata_is_replaced_wholesale_by_the_appchain_owner() {
    let mut reg = sample_registry();
    put_registered(&mut reg, "alpha", "alice");
    let alpha = "alpha".to_string();
    let mut first = HashMap::new();
    first.insert("k1".to_string(), "v1".to_string());
    first.insert("k2".to_string(), "v2".to_string());
    assert_eq!(
        reg.update_appchain_custom_metadata(&"alice".to_string(), &alpha, first),
        Ok(())
    );
    let mut second = HashMap::new();
    second.insert("k2".to_string(), "w2".to_string());
    assert_eq!(
        reg.update_appchain_custom_metadata(&"owner".to_string(), &alpha, second.clone()),
        Err(RegistryError::Unauthorized)
    );
    assert_eq!(
        reg.update_appchain_custom_metadata(&"alice".to_string(), &alpha, second),
        Ok(())
    );
    let m = &reg.get_appchain_basedata(&alpha).unwrap().appchain_metadata;
    assert_eq!(m.custom_metadata.len(), 1);
    assert_eq!(m.custom_metadata.get("k2").map(|s| s.as_str()), Some("w2"));
    assert_eq!(
        reg.update_appchain_custom_metadata(
            &"alice".to_string(),
            &"missing".to_string(),
            HashMap::new()
        ),
        Err(RegistryError::NotFound)
    );
}

#[test]
fn transfer_appchain_ownership_hands_control_over() {
    let mut reg = sample_registry();
    put_registered(&mut reg, "alpha", "alice");
    let alpha = "alpha".to_string();
    assert_eq!(
        reg.transfer_appchain_ownership(&"bob".to_string(), &alpha, "bob".to_string()),
        Err(RegistryError::Unauthorized)
    );
    assert_eq!(
        reg.transfer_appchain_ownership(&"alice".to_string(), &alpha, "bob".to_string()),
        Ok(())
    );
    assert_eq!(
        reg.get_appchain_basedata(&alpha).unwrap().owner().as_str(),
        "bob"
    );
    // the former owner lost the tier, the new owner holds it
    assert_eq!(
        reg.update_appchain_custom_metadata(&"alice".to_string(), &alpha, HashMap::new()),
        Err(RegistryError::Unauthorized)
    );
    assert_eq!(
        reg.update_appchain_custom_metadata(&"bob".to_string(), &alpha, HashMap::new()),
        Ok(())
    );
}

#[test]
fn removal_guard_holds_for_every_tier() {
    let mut reg = sample_registry();
    put_registered(&mut reg, "alpha", "alice");
    let owner = "owner".to_string();
    let alpha = "alpha".to_string();
    assert_eq!(reg.reject_appchain(&owner, &alpha), Ok(()));
    {
        let record = reg.get_appchain_basedata(&alpha).unwrap();
        assert_eq!(record.state(), AppchainState::Dead);
    }
    reg.appchain_basedatas[0].upvote_deposit = 5;
    assert_eq!(
        reg.remove_appchain(&owner, &alpha),
        Err(RegistryError::PendingDeposits)
    );
    // the super-admin deletion is exempt from failing on deposits: it
    // succeeds but leaves the deposit-holding record in place
    assert_eq!(reg.delete_appchain(&owner, &alpha), Ok(()));
    assert!(reg.get_appchain_basedata(&alpha).is_ok());
    reg.appchain_basedatas[0].upvote_deposit = 0;
    reg.appchain_basedatas[0].downvote_deposit = 3;
    assert_eq!(
        reg.remove_appchain(&owner, &alpha),
        Err(RegistryError::PendingDeposits)
    );
    assert_eq!(reg.delete_appchain(&owner, &alpha), Ok(()));
    assert!(reg.get_appchain_basedata(&alpha).is_ok());
    assert_eq!(reg.appchain_basedatas[0].downvote_deposit, 3);
    reg.appchain_basedatas[0].downvote_deposit = 0;
    assert_eq!(reg.remove_appchain(&owner, &alpha), Ok(()));
    assert_eq!(
        reg.get_appchain_basedata(&alpha).err(),
        Some(RegistryError::NotFound)
    );
}

#[test]
fn remove_appchain_requires_dead_state() {
    let mut reg = sample_registry();
    put_registered(&mut reg, "alpha", "alice");
    let owner = "owner".to_string();
    let alpha = "alpha".to_string();
    assert_eq!(
        reg.remove_appchain(&owner, &alpha),
        Err(RegistryError::InvalidStateTransition)
    );
    assert_eq!(
        reg.remove_appchain(&"stranger".to_string(), &alpha),
        Err(RegistryError::Unauthorized)
    );
    assert_eq!(
        reg.remove_appchain(&owner, &"missing".to_string()),
        Err(RegistryError::NotFound)
    );
}

#[test]
fn delete_appchain_bypasses_state_but_not_deposits() {
    let mut reg = sample_registry();
    put_registered(&mut reg, "alpha", "alice");
    let owner = "owner".to_string();
    let alpha = "alpha".to_string();
    // still Registered: the super-admin deletion ignores the lifecycle state
    assert_eq!(reg.delete_appchain(&owner, &alpha), Ok(()));
    assert_eq!(
        reg.get_appchain_basedata(&alpha).err(),
        Some(RegistryError::NotFound)
    );
    assert_eq!(
        reg.delete_appchain(&owner, &alpha),
        Err(RegistryError::NotFound)
    );
}

#[test]
fn clear_appchains_respects_the_budget_and_resumes() {
    let mut reg = sample_registry();
    put_registered(&mut reg, "alpha", "alice");
    put_registered(&mut reg, "beta", "bob");
    put_registered(&mut reg, "gamma", "carol");
    reg.appchain_basedatas[1].upvote_deposit = 9;
    let owner = "owner".to_string();
    assert_eq!(
        reg.clear_appchains(&"stranger".to_string(), 100),
        Err(RegistryError::Unauthorized)
    );
    // budget for one record only: alpha goes, the rest wait
    assert_eq!(
        reg.clear_appchains(&owner, 1),
        Err(RegistryError::ResourceBudgetExceeded)
    );
    assert_eq!(reg.list_appchain_ids().len(), 2);
    assert!(reg.get_appchain_basedata(&"alpha".to_string()).is_err());
    // re-invoking processes the remainder; beta keeps its deposit
    assert_eq!(reg.clear_appchains(&owner, 100), Ok(()));
    assert_eq!(reg.list_appchain_ids().len(), 1);
    assert_eq!(reg.list_appchain_ids()[0].as_str(), "beta");
    // idempotent: another run leaves the deposit-holder in place
    assert_eq!(reg.clear_appchains(&owner, 100), Ok(()));
    assert_eq!(reg.list_appchain_ids().len(), 1);
}

#[test]
fn go_booting_forces_a_staging_appchain_on() {
    let mut reg = sample_registry();
    put_registered(&mut reg, "alpha", "alice");
    let owner = "owner".to_string();
    let alpha = "alpha".to_string();
    assert_eq!(
        reg.go_booting(&owner, &alpha),
        Err(RegistryError::InvalidStateTransition)
    );
    reg.appchain_basedatas[0].appchain_state = AppchainState::Staging;
    reg.appchain_basedatas[0].appchain_anchor = Some("alpha.registry".to_string());
    assert_eq!(
        reg.go_booting(&"stranger".to_string(), &alpha),
        Err(RegistryError::Unauthorized)
    );
    assert_eq!(reg.go_booting(&owner, &alpha), Ok(()));
    assert_eq!(
        reg.get_appchain_basedata(&alpha).unwrap().state(),
        AppchainState::Booting
    );
}

#[test]
fn add_appchain_id_inserts_idempotently() {
    let mut reg = sample_registry();
    put_registered(&mut reg, "alpha", "alice");
    let owner = "owner".to_string();
    assert_eq!(
        reg.add_appchain_id(&"stranger".to_string(), &"beta".to_string()),
        Err(RegistryError::Unauthorized)
    );
    assert_eq!(reg.list_appchain_ids().len(), 1);
    // an id already indexed is left alone
    assert_eq!(reg.add_appchain_id(&owner, &"alpha".to_string()), Ok(()));
    assert_eq!(reg.list_appchain_ids().len(), 1);
    // a fresh id joins the index ahead of its record, once
    assert_eq!(reg.add_appchain_id(&owner, &"beta".to_string()), Ok(()));
    assert_eq!(reg.add_appchain_id(&owner, &"beta".to_string()), Ok(()));
    assert_eq!(reg.list_appchain_ids().len(), 2);
    assert!(reg.list_appchain_ids().iter().any(|i| i.as_str() == "beta"));
    assert_eq!(
        reg.get_appchain_basedata(&"beta".to_string()).err(),
        Some(RegistryError::NotFound)
    );
    // storing the record restores the pairing without duplicating the id
    put_registered(&mut reg, "beta", "bob");
    assert_eq!(reg.list_appchain_ids().len(), 2);
    assert!(reg.get_appchain_basedata(&"beta".to_string()).is_ok());
}

#[test]
fn change_oct_token_and_settings_are_owner_gated() {
    let mut reg = sample_registry();
    let owner = "owner".to_string();
    assert_eq!(
        reg.change_oct_token(&"stranger".to_string(), "oct2".to_string()),
        Err(RegistryError::Unauthorized)
    );
    assert_eq!(reg.change_oct_token(&owner, "oct2".to_string()), Ok(()));
    assert_eq!(reg.oct_token.as_str(), "oct2");
    let refused = RegistrySettings {
        minimum_register_deposit: 2000,
        voting_result_reduction_percent: 20,
        counting_interval_in_seconds: 60,
        operator_of_counting_voting_score: "operator2".to_string(),
    };
    assert_eq!(
        reg.change_registry_settings(&"stranger".to_string(), refused),
        Err(RegistryError::Unauthorized)
    );
    let accepted = RegistrySettings {
        minimum_register_deposit: 2000,
        voting_result_reduction_percent: 20,
        counting_interval_in_seconds: 60,
        operator_of_counting_voting_score: "operator2".to_string(),
    };
    assert_eq!(reg.change_registry_settings(&owner, accepted), Ok(()));
    assert_eq!(reg.registry_settings.voting_result_reduction_percent, 20);
    assert_eq!(reg.registry_settings.counting_interval_in_seconds, 60);
}
