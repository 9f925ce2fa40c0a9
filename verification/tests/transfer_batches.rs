use std::cell::RefCell;
use std::collections::HashMap;

use batch_ledger::burn::{BatchBurnResult, BurnRequest, BurnResult};
use batch_ledger::identity::{Caller, Identity};
use batch_ledger::ledger::{LedgerCall, LedgerReply};
use batch_ledger::transfer::{BatchTransferResult, TransferRequest, TransferResult};
use batch_ledger::transfer_engine::BatchTransferContract;

/// Balances of one asset, for the engine to run against.
struct Balances {
    of: RefCell<HashMap<u64, i128>>,
}

impl Balances {
    fn new() -> Balances {
        Balances { of: RefCell::new(HashMap::new()) }
    }

    fn mint(&self, to: &Identity, amount: i128) {
        *self.of.borrow_mut().entry(to.key).or_insert(0) += amount;
    }

    fn balance(&self, of: &Identity) -> i128 {
        self.of.borrow().get(&of.key).copied().unwrap_or(0)
    }

    fn apply(&self, call: LedgerCall) -> LedgerReply {
        let mut of = self.of.borrow_mut();
        match call {
            LedgerCall::Transfer { from, to, amount, .. } => {
                let have = of.get(&from.key).copied().unwrap_or(0);
                if amount <= 0 || have < amount {
                    return LedgerReply::Rejected;
                }
                of.insert(from.key, have - amount);
                *of.entry(to.key).or_insert(0) += amount;
                LedgerReply::Accepted
            }
            LedgerCall::Burn { from, amount, .. } => {
                let have = of.get(&from.key).copied().unwrap_or(0);
                if amount <= 0 || have < amount {
                    return LedgerReply::Rejected;
                }
                of.insert(from.key, have - amount);
                LedgerReply::Accepted
            }
        }
    }
}

/// Hands out identities that have not been used before.
struct Fresh {
    next: u64,
}

impl Fresh {
    fn generate(&mut self) -> Identity {
        self.next += 1;
        Identity::new(self.next)
    }
}

/// An initialized engine, its admin, an asset and the asset's balances.
fn setup_test_env() -> (Fresh, Identity, Identity, Balances, BatchTransferContract) {
    let mut env = Fresh { next: 0 };
    let token = env.generate();
    let ledger = Balances::new();

    let mut client = BatchTransferContract::new();
    let admin = env.generate();
    client.initialize(admin).unwrap();

    (env, admin, token, ledger, client)
}

fn create_transfer_request(recipient: Identity, amount: i128) -> TransferRequest {
    TransferRequest { recipient, amount }
}

fn create_burn_request(owner: Identity, amount: i128) -> BurnRequest {
    BurnRequest { owner, amount }
}

// Initialization

#[test]
fn test_initialize_contract() {
    let (_env, admin, _token, _ledger, client) = setup_test_env();

    assert_eq!(client.get_admin(), Some(admin));
    assert_eq!(client.get_total_batches(), 0);
    assert_eq!(client.get_total_transfers_processed(), 0);
    assert_eq!(client.get_total_volume_transferred(), 0);
}

#[test]
#[should_panic(expected = "Contract already initialized")]
fn test_cannot_initialize_twice() {
    let (mut env, _admin, _token, _ledger, mut client) = setup_test_env();

    let new_admin = env.generate();
    if let Err(e) = client.initialize(new_admin) {
        panic!("{}", e.message());
    }
}

// Batch transfers

#[test]
fn test_batch_transfer_single_recipient() {
    let (mut env, admin, token, ledger, mut client) = setup_test_env();

    let recipient = env.generate();
    let amount: i128 = 10_000_000;

    ledger.mint(&admin, amount);

    let mut transfers: Vec<TransferRequest> = Vec::new();
    transfers.push(create_transfer_request(recipient, amount));

    let result: BatchTransferResult = client
        .batch_transfer(&Caller::proven(admin), token, &transfers, |call| ledger.apply(call))
        .unwrap();

    assert_eq!(result.total_requests, 1);
    assert_eq!(result.successful, 1);
    assert_eq!(result.failed, 0);
    assert_eq!(result.total_transferred, amount);
    assert_eq!(result.results.len(), 1);

    assert_eq!(ledger.balance(&recipient), amount);
    assert_eq!(ledger.balance(&admin), 0);
}

#[test]
fn test_batch_transfer_multiple_recipients() {
    let (mut env, admin, token, ledger, mut client) = setup_test_env();

    let recipient1 = env.generate();
    let recipient2 = env.generate();
    let recipient3 = env.generate();

    let amount1: i128 = 10_000_000;
    let amount2: i128 = 20_000_000;
    let amount3: i128 = 30_000_000;

    let total_amount = amount1 + amount2 + amount3;
    ledger.mint(&admin, total_amount);

    let mut transfers: Vec<TransferRequest> = Vec::new();
    transfers.push(create_transfer_request(recipient1, amount1));
    transfers.push(create_transfer_request(recipient2, amount2));
    transfers.push(create_transfer_request(recipient3, amount3));

    let result = client
        .batch_transfer(&Caller::proven(admin), token, &transfers, |call| ledger.apply(call))
        .unwrap();

    assert_eq!(result.total_requests, 3);
    assert_eq!(result.successful, 3);
    assert_eq!(result.failed, 0);
    assert_eq!(result.total_transferred, amount1 + amount2 + amount3);

    assert_eq!(ledger.balance(&recipient1), amount1);
    assert_eq!(ledger.balance(&recipient2), amount2);
    assert_eq!(ledger.balance(&recipient3), amount3);
}

#[test]
fn test_batch_transfer_with_invalid_amount() {
    let (mut env, admin, token, ledger, mut client) = setup_test_env();

    let recipient1 = env.generate();
    let recipient2 = env.generate();

    let valid_amount: i128 = 10_000_000;
    ledger.mint(&admin, valid_amount);

    let mut transfers: Vec<TransferRequest> = Vec::new();
    transfers.push(create_transfer_request(recipient1, -100));
    transfers.push(create_transfer_request(recipient2, valid_amount));

    let result = client
        .batch_transfer(&Caller::proven(admin), token, &transfers, |call| ledger.apply(call))
        .unwrap();

    assert_eq!(result.total_requests, 2);
    assert_eq!(result.successful, 1);
    assert_eq!(result.failed, 1);
    assert_eq!(result.total_transferred, valid_amount);

    match result.results.get(0).unwrap() {
        TransferResult::Failure(recv, req_amount, error_code) => {
            assert_eq!(recv.clone(), recipient1);
            assert_eq!(req_amount.clone(), -100);
            assert_eq!(error_code.clone(), 1);
        }
        _ => panic!("Expected failure for invalid amount"),
    }

    match result.results.get(1).unwrap() {
        TransferResult::Success(recv, amount) => {
            assert_eq!(recv.clone(), recipient2);
            assert_eq!(amount.clone(), valid_amount);
        }
        _ => panic!("Expected success for valid transfer"),
    }
}

#[test]
fn test_batch_transfer_with_insufficient_balance() {
    let (mut env, admin, token, ledger, mut client) = setup_test_env();

    let recipient1 = env.generate();
    let recipient2 = env.generate();

    let amount1: i128 = 10_000_000;
    let amount2: i128 = 1_000_000_000_001;

    ledger.mint(&admin, amount1);

    let mut transfers: Vec<TransferRequest> = Vec::new();
    transfers.push(create_transfer_request(recipient1, amount1));
    transfers.push(create_transfer_request(recipient2, amount2));

    let result = client
        .batch_transfer(&Caller::proven(admin), token, &transfers, |call| ledger.apply(call))
        .unwrap();

    assert_eq!(result.total_requests, 2);
    assert_eq!(result.successful, 1);
    assert_eq!(result.failed, 1);
    assert_eq!(result.total_transferred, amount1);

    assert_eq!(ledger.balance(&recipient1), amount1);
    assert_eq!(ledger.balance(&recipient2), 0);
}

#[test]
fn test_batch_transfer_partial_failures() {
    let (mut env, admin, token, ledger, mut client) = setup_test_env();

    let recipient1 = env.generate();
    let recipient2 = env.generate();
    let recipient3 = env.generate();
    let recipient4 = env.generate();

    let valid_total: i128 = 10_000_000 + 20_000_000;
    ledger.mint(&admin, valid_total);

    let mut transfers: Vec<TransferRequest> = Vec::new();
    transfers.push(create_transfer_request(recipient1, 10_000_000));
    transfers.push(create_transfer_request(recipient2, 0));
    transfers.push(create_transfer_request(recipient3, 20_000_000));
    transfers.push(create_transfer_request(recipient4, -100));

    let result = client
        .batch_transfer(&Caller::proven(admin), token, &transfers, |call| ledger.apply(call))
        .unwrap();

    assert_eq!(result.total_requests, 4);
    assert_eq!(result.successful, 2);
    assert_eq!(result.failed, 2);
    assert_eq!(result.total_transferred, 30_000_000);

    assert_eq!(ledger.balance(&recipient1), 10_000_000);
    assert_eq!(ledger.balance(&recipient2), 0);
    assert_eq!(ledger.balance(&recipient3), 20_000_000);
    assert_eq!(ledger.balance(&recipient4), 0);
}

#[test]
fn test_batch_transfer_events_emitted() {
    let (mut env, admin, token, ledger, mut client) = setup_test_env();

    let recipient1 = env.generate();
    let recipient2 = env.generate();

    let valid_amount: i128 = 10_000_000;
    ledger.mint(&admin, valid_amount);

    let mut transfers: Vec<TransferRequest> = Vec::new();
    transfers.push(create_transfer_request(recipient1, valid_amount));
    transfers.push(create_transfer_request(recipient2, -100));

    client
        .batch_transfer(&Caller::proven(admin), token, &transfers, |call| ledger.apply(call))
        .unwrap();

    let events = client.events();
    assert!(events.len() >= 4);
}

#[test]
fn test_batch_transfer_accumulates_stats() {
    let (mut env, admin, token, ledger, mut client) = setup_test_env();

    let recipient1 = env.generate();
    let recipient2 = env.generate();

    let total_amount: i128 = 10_000_000 + 20_000_000;
    ledger.mint(&admin, total_amount);

    let mut transfers1: Vec<TransferRequest> = Vec::new();
    transfers1.push(create_transfer_request(recipient1, 10_000_000));

    let mut transfers2: Vec<TransferRequest> = Vec::new();
    transfers2.push(create_transfer_request(recipient2, 20_000_000));

    assert_eq!(client.get_total_batches(), 0);
    assert_eq!(client.get_total_transfers_processed(), 0);
    assert_eq!(client.get_total_volume_transferred(), 0);

    client
        .batch_transfer(&Caller::proven(admin), token, &transfers1, |call| ledger.apply(call))
        .unwrap();
    assert_eq!(client.get_total_batches(), 1);
    assert_eq!(client.get_total_transfers_processed(), 1);
    assert_eq!(client.get_total_volume_transferred(), 10_000_000);

    client
        .batch_transfer(&Caller::proven(admin), token, &transfers2, |call| ledger.apply(call))
        .unwrap();
    assert_eq!(client.get_total_batches(), 2);
    assert_eq!(client.get_total_transfers_processed(), 2);
    assert_eq!(client.get_total_volume_transferred(), 30_000_000);
}

#[test]
#[should_panic]
fn test_batch_transfer_empty_batch() {
    let (_env, admin, token, ledger, mut client) = setup_test_env();

    let transfers: Vec<TransferRequest> = Vec::new();
    client
        .batch_transfer(&Caller::proven(admin), token, &transfers, |call| ledger.apply(call))
        .unwrap();
}

#[test]
#[should_panic]
fn test_batch_transfer_unauthorized() {
    let (mut env, _admin, token, ledger, mut client) = setup_test_env();

    let unauthorized = env.generate();
    let recipient = env.generate();

    let mut transfers: Vec<TransferRequest> = Vec::new();
    transfers.push(create_transfer_request(recipient, 10_000_000));

    client
        .batch_transfer(&Caller::proven(unauthorized), token, &transfers, |call| {
            ledger.apply(call)
        })
        .unwrap();
}

#[test]
fn test_batch_transfer_large_batch() {
    let (mut env, admin, token, ledger, mut client) = setup_test_env();

    let batch_size: i128 = 50;
    let amount_per_recipient: i128 = 1_000_000;
    let total_amount = batch_size * amount_per_recipient;
    ledger.mint(&admin, total_amount);

    let mut transfers: Vec<TransferRequest> = Vec::new();
    let mut recipients: Vec<Identity> = Vec::new();

    for _i in 0..50 {
        let recipient = env.generate();
        recipients.push(recipient);
        transfers.push(create_transfer_request(recipient, amount_per_recipient));
    }

    let result = client
        .batch_transfer(&Caller::proven(admin), token, &transfers, |call| ledger.apply(call))
        .unwrap();

    assert_eq!(result.total_requests, 50);
    assert_eq!(result.successful, 50);
    assert_eq!(result.failed, 0);
    assert_eq!(result.total_transferred, total_amount);

    for recipient in recipients.iter() {
        assert_eq!(ledger.balance(recipient), amount_per_recipient);
    }
}

// Admin

#[test]
fn test_set_admin() {
    let (mut env, admin, _token, _ledger, mut client) = setup_test_env();

    let new_admin = env.generate();
    client.set_admin(&Caller::proven(admin), new_admin).unwrap();

    assert_eq!(client.get_admin(), Some(new_admin));
}

// Several batches on one engine

#[test]
fn test_multiple_simultaneous_batch_transfers() {
    let (mut env, admin, token, ledger, mut client) = setup_test_env();

    let total_batch1: i128 = 10_000_000 + 20_000_000 + 30_000_000;
    let total_batch2: i128 = 5_000_000 + 15_000_000;
    let total_amount: i128 = total_batch1 + total_batch2;
    ledger.mint(&admin, total_amount);

    let recipient1 = env.generate();
    let recipient2 = env.generate();
    let recipient3 = env.generate();

    let mut batch1: Vec<TransferRequest> = Vec::new();
    batch1.push(create_transfer_request(recipient1, 10_000_000));
    batch1.push(create_transfer_request(recipient2, 20_000_000));
    batch1.push(create_transfer_request(recipient3, 30_000_000));

    let result1 = client
        .batch_transfer(&Caller::proven(admin), token, &batch1, |call| ledger.apply(call))
        .unwrap();
    assert_eq!(result1.successful, 3);
    assert_eq!(result1.total_transferred, 60_000_000);

    let recipient4 = env.generate();

    let mut batch2: Vec<TransferRequest> = Vec::new();
    batch2.push(create_transfer_request(recipient1, 5_000_000));
    batch2.push(create_transfer_request(recipient4, 15_000_000));

    let result2 = client
        .batch_transfer(&Caller::proven(admin), token, &batch2, |call| ledger.apply(call))
        .unwrap();
    assert_eq!(result2.successful, 2);
    assert_eq!(result2.total_transferred, 20_000_000);

    assert_eq!(ledger.balance(&recipient1), 15_000_000);
    assert_eq!(ledger.balance(&recipient2), 20_000_000);
    assert_eq!(ledger.balance(&recipient3), 30_000_000);
    assert_eq!(ledger.balance(&recipient4), 15_000_000);

    assert_eq!(client.get_total_batches(), 2);
    assert_eq!(client.get_total_transfers_processed(), 5);
    assert_eq!(client.get_total_volume_transferred(), 80_000_000);
}

// Batch burns

#[test]
fn test_batch_burn_single_owner() {
    let (mut env, admin, token, ledger, mut client) = setup_test_env();

    let owner = env.generate();
    let amount: i128 = 10_000_000;

    ledger.mint(&owner, amount);

    let mut burns: Vec<BurnRequest> = Vec::new();
    burns.push(create_burn_request(owner, amount));

    let result: BatchBurnResult = client
        .batch_burn(&Caller::proven(admin), token, &burns, |call| ledger.apply(call))
        .unwrap();

    assert_eq!(result.total_requests, 1);
    assert_eq!(result.successful, 1);
    assert_eq!(result.failed, 0);
    assert_eq!(result.total_burned, amount);
    assert_eq!(result.results.len(), 1);

    match result.results.get(0).unwrap() {
        BurnResult::Success(addr, burned) => {
            assert_eq!(addr.clone(), owner);
            assert_eq!(burned.clone(), amount);
        }
        _ => panic!("expected success burn result"),
    }
    assert_eq!(ledger.balance(&owner), 0);
}

#[test]
fn test_batch_burn_partial_failures() {
    let (mut env, admin, token, ledger, mut client) = setup_test_env();

    let owner1 = env.generate();
    let owner2 = env.generate();
    let owner3 = env.generate();

    ledger.mint(&owner1, 20_000_000);
    ledger.mint(&owner2, 5_000_000);

    let mut burns: Vec<BurnRequest> = Vec::new();
    burns.push(create_burn_request(owner1, 10_000_000));
    burns.push(create_burn_request(owner2, 10_000_000));
    burns.push(create_burn_request(owner3, 5_000_000));
    burns.push(create_burn_request(owner1, -1));

    let result = client
        .batch_burn(&Caller::proven(admin), token, &burns, |call| ledger.apply(call))
        .unwrap();

    assert_eq!(result.total_requests, 4);
    assert_eq!(result.successful, 1);
    assert_eq!(result.failed, 3);
    assert_eq!(result.total_burned, 10_000_000);

    assert_eq!(ledger.balance(&owner1), 10_000_000);
    assert_eq!(ledger.balance(&owner2), 5_000_000);
}

#[test]
fn test_batch_burn_events_emitted() {
    let (mut env, admin, token, ledger, mut client) = setup_test_env();

    let owner1 = env.generate();
    let owner2 = env.generate();

    ledger.mint(&owner1, 10_000_000);

    let mut burns: Vec<BurnRequest> = Vec::new();
    burns.push(create_burn_request(owner1, 10_000_000));
    burns.push(create_burn_request(owner2, 5_000_000));

    client.batch_burn(&Caller::proven(admin), token, &burns, |call| ledger.apply(call)).unwrap();

    let events = client.events();
    assert!(events.len() >= 3);
}

#[test]
#[should_panic]
fn test_batch_burn_empty_batch() {
    let (_env, admin, token, ledger, mut client) = setup_test_env();

    let burns: Vec<BurnRequest> = Vec::new();
    client.batch_burn(&Caller::proven(admin), token, &burns, |call| ledger.apply(call)).unwrap();
}

#[test]
#[should_panic]
fn test_batch_burn_unauthorized() {
    let (mut env, _admin, token, ledger, mut client) = setup_test_env();

    let owner = env.generate();

    let mut burns: Vec<BurnRequest> = Vec::new();
    burns.push(create_burn_request(owner, 10_000_000));

    let unauthorized = env.generate();
    client
        .batch_burn(&Caller::proven(unauthorized), token, &burns, |call| ledger.apply(call))
        .unwrap();
}
