use agritrust::account::AccountId;
use agritrust::provenance::{
    authorize_hop, create_authorization_token, get_contract_domain, is_certifier_registered,
    AuthError, HopAuthorized,
};
use soroban_sdk::Env;

fn account(seed: u8) -> AccountId {
    AccountId::new([seed; 32])
}

#[test]
fn issued_token_authorizes_its_certifier() {
    let env = Env::default();
    let mut events = Vec::new();
    let token = create_authorization_token(&env, 50, account(1), account(2), [9u8; 32], 0).unwrap();
    assert_eq!(token.depth, 1);
    assert_eq!(token.expires_at, 150);
    assert_eq!(token.domain_chain_id, get_contract_domain(&env, &account(2)));
    assert_eq!(authorize_hop(&env, &mut events, 149, &token, &account(2)), Ok(()));
    assert_eq!(events, vec![HopAuthorized { caller_address: account(1), certifier_contract: account(2), depth: 1 }]);
}

#[test]
fn token_refused_elsewhere_or_later() {
    let env = Env::default();
    let mut events = Vec::new();
    let token = create_authorization_token(&env, 50, account(1), account(2), [9u8; 32], 1).unwrap();
    assert_eq!(authorize_hop(&env, &mut events, 150, &token, &account(2)), Err(AuthError::ExpiredToken));
    assert_eq!(authorize_hop(&env, &mut events, 60, &token, &account(3)), Err(AuthError::DomainMismatch));
    let mut forged = token;
    forged.domain_chain_id = [0u8; 32];
    assert_eq!(authorize_hop(&env, &mut events, 60, &forged, &account(2)), Err(AuthError::DomainMismatch));
    let deep = create_authorization_token(&env, 50, account(1), account(2), [9u8; 32], 2).unwrap();
    assert_eq!(deep.depth, 3);
    assert_eq!(authorize_hop(&env, &mut events, 60, &deep, &account(2)), Err(AuthError::MaxDepthExceeded));
    assert!(events.is_empty());
}

#[test]
fn depth_limit_on_creation() {
    let env = Env::default();
    assert_eq!(
        create_authorization_token(&env, 0, account(1), account(2), [0u8; 32], 3),
        Err(AuthError::MaxDepthExceeded)
    );
}

#[test]
fn domains_differ_by_contract_and_certifiers_register() {
    let env = Env::default();
    assert_ne!(get_contract_domain(&env, &account(1)), get_contract_domain(&env, &account(2)));
    assert!(is_certifier_registered(&env, &account(1)));
}
