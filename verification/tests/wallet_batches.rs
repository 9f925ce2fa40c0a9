use batch_ledger::identity::{Caller, Identity};
use batch_ledger::wallet::{
    BatchCreateResult, BatchRecoveryResult, WalletCreateRequest, WalletCreateResult,
    WalletRecoveryRequest, WalletRecoveryResult,
};
use batch_ledger::wallet_engine::BatchWalletContract;

/// Hands out identities that have not been used before.
struct Fresh {
    next: u64,
}

impl Fresh {
    fn generate(&mut self) -> Identity {
        self.next += 1;
        Identity::new(self.next)
    }
}

/// An initialized engine and its admin.
fn setup_test_env() -> (Fresh, Identity, BatchWalletContract) {
    let mut env = Fresh { next: 0 };

    let mut client = BatchWalletContract::new();
    let admin = env.generate();
    client.initialize(admin).unwrap();

    (env, admin, client)
}

fn create_wallet_request(owner: Identity) -> WalletCreateRequest {
    WalletCreateRequest { owner }
}

fn create_recovery_request(old_owner: Identity, new_owner: Identity) -> WalletRecoveryRequest {
    WalletRecoveryRequest { old_owner, new_owner }
}

// Initialization

#[test]
fn test_test_initialize_contract() {
    let (_env, admin, client) = setup_test_env();

    assert_eq!(client.get_admin(), Some(admin));
    assert_eq!(client.get_total_batches(), 0);
    assert_eq!(client.get_total_wallets_created(), 0);
}

#[test]
#[should_panic(expected = "Contract already initialized")]
fn test_test_cannot_initialize_twice() {
    let (mut env, _admin, mut client) = setup_test_env();

    let new_admin = env.generate();
    if let Err(e) = client.initialize(new_admin) {
        panic!("{}", e.message());
    }
}

// Batch creation

#[test]
fn test_batch_create_wallets_single() {
    let (mut env, admin, mut client) = setup_test_env();

    let owner = env.generate();

    let mut requests: Vec<WalletCreateRequest> = Vec::new();
    requests.push(create_wallet_request(owner));

    let result = client.batch_create_wallets(&Caller::proven(admin), &requests).unwrap();

    assert_eq!(result.total_requests, 1);
    assert_eq!(result.successful, 1);
    assert_eq!(result.failed, 0);
    assert_eq!(result.results.len(), 1);

    let wallet = client.get_wallet(&owner).unwrap();
    assert_eq!(wallet.owner, owner);
    assert_eq!(wallet.id, 1);
}

#[test]
fn test_batch_create_wallets_multiple() {
    let (mut env, admin, mut client) = setup_test_env();

    let owner1 = env.generate();
    let owner2 = env.generate();
    let owner3 = env.generate();

    let mut requests: Vec<WalletCreateRequest> = Vec::new();
    requests.push(create_wallet_request(owner1));
    requests.push(create_wallet_request(owner2));
    requests.push(create_wallet_request(owner3));

    let result = client.batch_create_wallets(&Caller::proven(admin), &requests).unwrap();

    assert_eq!(result.total_requests, 3);
    assert_eq!(result.successful, 3);
    assert_eq!(result.failed, 0);

    let wallet1 = client.get_wallet(&owner1).unwrap();
    assert_eq!(wallet1.id, 1);
    let wallet2 = client.get_wallet(&owner2).unwrap();
    assert_eq!(wallet2.id, 2);
    let wallet3 = client.get_wallet(&owner3).unwrap();
    assert_eq!(wallet3.id, 3);
}

#[test]
fn test_batch_create_wallets_partial_failures() {
    let (mut env, admin, mut client) = setup_test_env();

    let owner1 = env.generate();
    let owner2 = env.generate();
    let owner3 = env.generate();

    let mut requests1: Vec<WalletCreateRequest> = Vec::new();
    requests1.push(create_wallet_request(owner1));
    requests1.push(create_wallet_request(owner2));
    client.batch_create_wallets(&Caller::proven(admin), &requests1).unwrap();

    let mut requests2: Vec<WalletCreateRequest> = Vec::new();
    requests2.push(create_wallet_request(owner1));
    requests2.push(create_wallet_request(owner2));
    requests2.push(create_wallet_request(owner3));

    let result = client.batch_create_wallets(&Caller::proven(admin), &requests2).unwrap();

    assert_eq!(result.total_requests, 3);
    assert_eq!(result.successful, 1);
    assert_eq!(result.failed, 2);

    match *result.results.get(0).unwrap() {
        WalletCreateResult::Failure(addr, error_code) => {
            assert_eq!(addr, owner1);
            assert_eq!(error_code, 1);
        }
        _ => panic!("Expected failure for duplicate"),
    }
    match *result.results.get(1).unwrap() {
        WalletCreateResult::Failure(addr, error_code) => {
            assert_eq!(addr, owner2);
            assert_eq!(error_code, 1);
        }
        _ => panic!("Expected failure for duplicate"),
    }
    match *result.results.get(2).unwrap() {
        WalletCreateResult::Success(addr) => {
            assert_eq!(addr, owner3);
        }
        _ => panic!("Expected success for new wallet"),
    }

    let wallet3 = client.get_wallet(&owner3).unwrap();
    assert_eq!(wallet3.id, 3);
}

#[test]
fn test_batch_create_wallets_events_emitted() {
    let (mut env, admin, mut client) = setup_test_env();

    let owner1 = env.generate();
    let owner2 = env.generate();

    let mut requests: Vec<WalletCreateRequest> = Vec::new();
    requests.push(create_wallet_request(owner1));
    requests.push(create_wallet_request(owner2));

    client.batch_create_wallets(&Caller::proven(admin), &requests).unwrap();

    let events = client.events();
    assert!(events.len() >= 4);
}

#[test]
fn test_batch_create_wallets_accumulates_stats() {
    let (mut env, admin, mut client) = setup_test_env();

    let owner1 = env.generate();
    let owner2 = env.generate();

    let mut requests1: Vec<WalletCreateRequest> = Vec::new();
    requests1.push(create_wallet_request(owner1));

    let mut requests2: Vec<WalletCreateRequest> = Vec::new();
    requests2.push(create_wallet_request(owner2));

    assert_eq!(client.get_total_batches(), 0);
    assert_eq!(client.get_total_wallets_created(), 0);

    client.batch_create_wallets(&Caller::proven(admin), &requests1).unwrap();
    assert_eq!(client.get_total_batches(), 1);
    assert_eq!(client.get_total_wallets_created(), 1);

    client.batch_create_wallets(&Caller::proven(admin), &requests2).unwrap();
    assert_eq!(client.get_total_batches(), 2);
    assert_eq!(client.get_total_wallets_created(), 2);
}

#[test]
#[should_panic]
fn test_batch_create_wallets_empty_batch() {
    let (_env, admin, mut client) = setup_test_env();

    let requests: Vec<WalletCreateRequest> = Vec::new();
    client.batch_create_wallets(&Caller::proven(admin), &requests).unwrap();
}

#[test]
#[should_panic]
fn test_batch_create_wallets_unauthorized() {
    let (mut env, _admin, mut client) = setup_test_env();

    let unauthorized = env.generate();
    let owner = env.generate();

    let mut requests: Vec<WalletCreateRequest> = Vec::new();
    requests.push(create_wallet_request(owner));

    client.batch_create_wallets(&Caller::proven(unauthorized), &requests).unwrap();
}

#[test]
fn test_batch_create_wallets_large_batch() {
    let (mut env, admin, mut client) = setup_test_env();

    let mut requests: Vec<WalletCreateRequest> = Vec::new();
    let mut owners: Vec<Identity> = Vec::new();

    for _i in 0..50 {
        let owner = env.generate();
        owners.push(owner);
        requests.push(create_wallet_request(owner));
    }

    let result = client.batch_create_wallets(&Caller::proven(admin), &requests).unwrap();

    assert_eq!(result.total_requests, 50);
    assert_eq!(result.successful, 50);
    assert_eq!(result.failed, 0);

    let wallet1 = client.get_wallet(owners.get(0).unwrap()).unwrap();
    assert_eq!(wallet1.id, 1);
    let wallet50 = client.get_wallet(owners.get(49).unwrap()).unwrap();
    assert_eq!(wallet50.id, 50);
}

// Admin

#[test]
fn test_test_set_admin() {
    let (mut env, admin, mut client) = setup_test_env();

    let new_admin = env.generate();
    client.set_admin(&Caller::proven(admin), new_admin).unwrap();

    assert_eq!(client.get_admin(), Some(new_admin));
}

// Several batches on one engine

#[test]
fn test_multiple_simultaneous_batch_creations() {
    let (mut env, admin, mut client) = setup_test_env();

    let owner1 = env.generate();
    let owner2 = env.generate();
    let owner3 = env.generate();

    let mut batch1: Vec<WalletCreateRequest> = Vec::new();
    batch1.push(create_wallet_request(owner1));
    batch1.push(create_wallet_request(owner2));
    batch1.push(create_wallet_request(owner3));

    let result1 = client.batch_create_wallets(&Caller::proven(admin), &batch1).unwrap();
    assert_eq!(result1.successful, 3);

    let owner4 = env.generate();

    let mut batch2: Vec<WalletCreateRequest> = Vec::new();
    batch2.push(create_wallet_request(owner1));
    batch2.push(create_wallet_request(owner4));

    let result2 = client.batch_create_wallets(&Caller::proven(admin), &batch2).unwrap();
    assert_eq!(result2.successful, 1);
    assert_eq!(result2.failed, 1);

    assert_eq!(client.get_total_batches(), 2);
    assert_eq!(client.get_total_wallets_created(), 4);
}

// Batch recovery

#[test]
fn test_batch_recover_wallets_single_success() {
    let (mut env, admin, mut client) = setup_test_env();

    let original_owner = env.generate();
    let new_owner = env.generate();

    let mut create_requests: Vec<WalletCreateRequest> = Vec::new();
    create_requests.push(create_wallet_request(original_owner));
    let create_result: BatchCreateResult =
        client.batch_create_wallets(&Caller::proven(admin), &create_requests).unwrap();
    assert_eq!(create_result.successful, 1);

    let mut recovery_requests: Vec<WalletRecoveryRequest> = Vec::new();
    recovery_requests.push(create_recovery_request(original_owner, new_owner));

    let recover_result: BatchRecoveryResult =
        client.batch_recover_wallets(&Caller::proven(admin), &recovery_requests).unwrap();

    assert_eq!(recover_result.total_requests, 1);
    assert_eq!(recover_result.successful, 1);
    assert_eq!(recover_result.failed, 0);
    assert_eq!(recover_result.results.len(), 1);

    match *recover_result.results.get(0).unwrap() {
        WalletRecoveryResult::Success(old, new_) => {
            assert_eq!(old, original_owner);
            assert_eq!(new_, new_owner);
        }
        _ => panic!("expected success result"),
    }

    let original_wallet = client.get_wallet(&original_owner);
    assert!(original_wallet.is_none());

    let recovered_wallet = client.get_wallet(&new_owner).unwrap();
    assert_eq!(recovered_wallet.owner, new_owner);
    assert_eq!(recovered_wallet.id, 1);
}

#[test]
fn test_batch_recover_wallets_partial_failures() {
    let (mut env, admin, mut client) = setup_test_env();

    let existing_owner = env.generate();
    let other_existing_owner = env.generate();
    let non_existing_owner = env.generate();
    let recovery_target_1 = env.generate();
    let recovery_target_2 = env.generate();

    let mut create_requests: Vec<WalletCreateRequest> = Vec::new();
    create_requests.push(create_wallet_request(existing_owner));
    create_requests.push(create_wallet_request(other_existing_owner));
    client.batch_create_wallets(&Caller::proven(admin), &create_requests).unwrap();

    let mut recovery_requests: Vec<WalletRecoveryRequest> = Vec::new();
    recovery_requests.push(create_recovery_request(non_existing_owner, recovery_target_1));
    recovery_requests.push(create_recovery_request(existing_owner, existing_owner));
    recovery_requests.push(create_recovery_request(existing_owner, recovery_target_2));

    let recover_result =
        client.batch_recover_wallets(&Caller::proven(admin), &recovery_requests).unwrap();

    assert_eq!(recover_result.total_requests, 3);
    assert_eq!(recover_result.successful, 1);
    assert_eq!(recover_result.failed, 2);

    match *recover_result.results.get(0).unwrap() {
        WalletRecoveryResult::Failure(old, new_, code) => {
            assert_eq!(old, non_existing_owner);
            assert_eq!(new_, recovery_target_1);
            assert_eq!(code, 1);
        }
        _ => panic!("expected failure for non-existing source wallet"),
    }

    match *recover_result.results.get(1).unwrap() {
        WalletRecoveryResult::Failure(old, new_, code) => {
            assert_eq!(old, existing_owner);
            assert_eq!(new_, existing_owner);
            assert_eq!(code, 2);
        }
        _ => panic!("expected failure for invalid destination wallet"),
    }

    match *recover_result.results.get(2).unwrap() {
        WalletRecoveryResult::Success(old, new_) => {
            assert_eq!(old, existing_owner);
            assert_eq!(new_, recovery_target_2);
        }
        _ => panic!("expected success for valid recovery"),
    }

    let still_existing = client.get_wallet(&other_existing_owner).unwrap();
    assert_eq!(still_existing.owner, other_existing_owner);

    let recovered_wallet = client.get_wallet(&recovery_target_2).unwrap();
    assert_eq!(recovered_wallet.owner, recovery_target_2);
}

#[test]
fn test_batch_recover_wallets_events_emitted() {
    let (mut env, admin, mut client) = setup_test_env();

    let original_owner = env.generate();
    let new_owner = env.generate();

    let mut create_requests: Vec<WalletCreateRequest> = Vec::new();
    create_requests.push(create_wallet_request(original_owner));
    client.batch_create_wallets(&Caller::proven(admin), &create_requests).unwrap();

    let mut recovery_requests: Vec<WalletRecoveryRequest> = Vec::new();
    recovery_requests.push(create_recovery_request(original_owner, new_owner));

    client.batch_recover_wallets(&Caller::proven(admin), &recovery_requests).unwrap();

    let events = client.events();
    assert!(events.len() >= 3);
}

#[test]
#[should_panic]
fn test_batch_recover_wallets_empty_batch() {
    let (_env, admin, mut client) = setup_test_env();

    let recovery_requests: Vec<WalletRecoveryRequest> = Vec::new();
    client.batch_recover_wallets(&Caller::proven(admin), &recovery_requests).unwrap();
}

#[test]
#[should_panic]
fn test_batch_recover_wallets_unauthorized() {
    let (mut env, _admin, mut client) = setup_test_env();

    let original_owner = env.generate();
    let new_owner = env.generate();

    let mut recovery_requests: Vec<WalletRecoveryRequest> = Vec::new();
    recovery_requests.push(create_recovery_request(original_owner, new_owner));

    let unauthorized = env.generate();
    client.batch_recover_wallets(&Caller::proven(unauthorized), &recovery_requests).unwrap();
}
