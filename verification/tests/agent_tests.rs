use solana_registry::agent::AgentRegistry;
use solana_registry::ident::{AccountId, AgentError, OpContext};

fn key(b: u8) -> AccountId {
    AccountId::new([b; 32])
}

fn ctx(caller: AccountId, now: i64) -> OpContext {
    OpContext { caller, now }
}

#[test]
fn register_then_update_pricing_scenario() {
    let mut reg = AgentRegistry::new(key(9));
    let k1 = key(1);
    let addr = reg
        .register_agent(
            &ctx(k1, 1000),
            "Agent A".to_string(),
            "https://agent-a.example".to_string(),
            vec!["chat".to_string()],
        )
        .expect("registration succeeds");

    {
        let p = reg.get_profile(&addr).expect("profile resident");
        assert_eq!(p.authority, k1);
        assert_eq!(p.name, "Agent A");
        assert_eq!(p.endpoint, "https://agent-a.example");
        assert_eq!(p.capabilities, vec!["chat".to_string()]);
        assert_eq!(p.base_fee, 0);
        assert_eq!(p.asset_mint, key(0));
        assert_eq!(p.reputation_score, 0);
        assert_eq!(p.total_jobs, 0);
        assert_eq!(p.registered_at, 1000);
        assert!(p.is_active);
    }

    let mint_x = key(7);
    assert_eq!(reg.update_pricing(&ctx(k1, 1100), &addr, 500, mint_x), Ok(()));
    {
        let p = reg.get_profile(&addr).expect("profile resident");
        assert_eq!(p.base_fee, 500);
        assert_eq!(p.asset_mint, mint_x);
        assert_eq!(p.name, "Agent A");
        assert!(p.is_active);
    }

    let k2 = key(2);
    let mint_y = key(8);
    assert_eq!(
        reg.update_pricing(&ctx(k2, 1200), &addr, 900, mint_y),
        Err(AgentError::Unauthorized)
    );
    let p = reg.get_profile(&addr).expect("profile resident");
    assert_eq!(p.base_fee, 500);
    assert_eq!(p.asset_mint, mint_x);
}

#[test]
fn reregistration_fails_and_preserves_profile() {
    let mut reg = AgentRegistry::new(key(9));
    let k1 = key(1);
    let addr = reg
        .register_agent(
            &ctx(k1, 10),
            "Original".to_string(),
            "https://one.example".to_string(),
            vec![],
        )
        .expect("first registration succeeds");

    let again = reg.register_agent(
        &ctx(k1, 20),
        "Impostor".to_string(),
        "https://two.example".to_string(),
        vec!["spam".to_string()],
    );
    assert_eq!(again, Err(AgentError::AlreadyExists));

    let p = reg.get_profile(&addr).expect("profile resident");
    assert_eq!(p.name, "Original");
    assert_eq!(p.endpoint, "https://one.example");
    assert_eq!(p.registered_at, 10);
    assert!(p.capabilities.is_empty());
}

#[test]
fn registration_rejects_oversized_fields() {
    let mut reg = AgentRegistry::new(key(9));
    let long_name = "n".repeat(65);
    assert_eq!(
        reg.register_agent(&ctx(key(1), 0), long_name, "e".to_string(), vec![]),
        Err(AgentError::CapacityExceeded)
    );
    let long_endpoint = "e".repeat(129);
    assert_eq!(
        reg.register_agent(&ctx(key(1), 0), "n".to_string(), long_endpoint, vec![]),
        Err(AgentError::CapacityExceeded)
    );
    let many_tags = vec!["t".to_string(); 21];
    assert_eq!(
        reg.register_agent(&ctx(key(1), 0), "n".to_string(), "e".to_string(), many_tags),
        Err(AgentError::CapacityExceeded)
    );
    let long_tag = vec!["t".repeat(33)];
    assert_eq!(
        reg.register_agent(&ctx(key(1), 0), "n".to_string(), "e".to_string(), long_tag),
        Err(AgentError::CapacityExceeded)
    );
    assert!(reg.get_profile(&key(1)).is_none());
}

#[test]
fn job_reports_update_counters_from_any_caller() {
    let mut reg = AgentRegistry::new(key(9));
    let addr = reg
        .register_agent(&ctx(key(1), 0), "A".to_string(), "E".to_string(), vec![])
        .expect("registration succeeds");

    assert_eq!(reg.report_job_completion(&addr, true), Ok(()));
    {
        let p = reg.get_profile(&addr).unwrap();
        assert_eq!(p.total_jobs, 1);
        assert_eq!(p.reputation_score, 1);
    }
    assert_eq!(reg.report_job_completion(&addr, false), Ok(()));
    {
        let p = reg.get_profile(&addr).unwrap();
        assert_eq!(p.total_jobs, 2);
        assert_eq!(p.reputation_score, 1);
    }
}

#[test]
fn job_report_on_absent_profile_fails() {
    let mut reg = AgentRegistry::new(key(9));
    assert_eq!(
        reg.report_job_completion(&key(5), true),
        Err(AgentError::NotFound)
    );
}

#[test]
fn update_pricing_on_absent_profile_fails() {
    let mut reg = AgentRegistry::new(key(9));
    assert_eq!(
        reg.update_pricing(&ctx(key(1), 0), &key(5), 100, key(7)),
        Err(AgentError::NotFound)
    );
}

#[test]
fn derived_addresses_are_distinct_and_deterministic() {
    let mut reg = AgentRegistry::new(key(9));
    let a1 = reg
        .register_agent(&ctx(key(1), 0), "A".to_string(), "E".to_string(), vec![])
        .expect("registration succeeds");
    let a2 = reg
        .register_agent(&ctx(key(2), 0), "B".to_string(), "F".to_string(), vec![])
        .expect("registration succeeds");
    // The derivation is one-way: the address is not the caller's key.
    assert_ne!(a1.to_bytes(), [1u8; 32]);
    assert_ne!(a2.to_bytes(), [2u8; 32]);
    // Different owners land at different addresses.
    assert_ne!(a1, a2);
    // The same inputs resolve to the same address: the second registration
    // finds the record the first one created.
    assert_eq!(
        reg.register_agent(&ctx(key(1), 5), "C".to_string(), "G".to_string(), vec![]),
        Err(AgentError::AlreadyExists)
    );
}
