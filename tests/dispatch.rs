use sncast_script::dispatch::{CastScriptExtension, CheatError, CheatcodeHandlingResult, Request};
use sncast_script::fingerprint::{generate_declare_tx_id, generate_deploy_tx_id, generate_invoke_tx_id};
use sncast_script::ledger::{ActionResult, LedgerEntry, StateManager};
use sncast_script::Felt;

fn felt(v: u64) -> Felt {
    let mut bytes = [0u8; 32];
    bytes[24..].copy_from_slice(&v.to_be_bytes());
    Felt { bytes }
}

fn short(s: &str) -> Felt {
    let mut bytes = [0u8; 32];
    let b = s.as_bytes();
    bytes[32 - b.len()..].copy_from_slice(b);
    Felt { bytes }
}

fn values(v: &[Felt]) -> Vec<[u8; 32]> {
    v.iter().map(|f| f.bytes).collect()
}

/// A network client that answers every request with a fixed outcome and
/// counts the requests it gets.
struct StubClient {
    calls: usize,
    succeed: bool,
    answer: Vec<Felt>,
}

impl StubClient {
    fn new(answer: Vec<Felt>) -> Self {
        StubClient { calls: 0, succeed: true, answer }
    }

    fn perform(&mut self, _request: &Request) -> ActionResult {
        self.calls += 1;
        if self.succeed {
            ActionResult::Success(self.answer.clone())
        } else {
            ActionResult::Failure(self.answer.clone())
        }
    }
}

fn fire(
    ext: &mut CastScriptExtension,
    client: &mut StubClient,
    selector: &str,
    input: &Vec<Felt>,
) -> Result<Option<Vec<Felt>>, CheatError> {
    match ext.handle_cheatcode(selector, input)? {
        CheatcodeHandlingResult::Forwarded => Ok(None),
        CheatcodeHandlingResult::Handled(out) => Ok(Some(out)),
        CheatcodeHandlingResult::Perform(request) => {
            let result = client.perform(&request);
            ext.complete(&request, &result).map(Some)
        }
    }
}

fn with_account(state: StateManager) -> CastScriptExtension {
    CastScriptExtension { account: Some(felt(0x1234)), state }
}

const NONE: u64 = 1;
const SOME: u64 = 0;

fn deploy_input(class_hash: u64, salt: u64) -> Vec<Felt> {
    vec![
        felt(class_hash),
        felt(0),
        felt(SOME),
        felt(salt),
        felt(1),
        felt(NONE),
        felt(NONE),
        felt(NONE),
        felt(NONE),
    ]
}

fn declare_input(name: &str) -> Vec<Felt> {
    vec![felt(0), short(name), felt(name.len() as u64), felt(NONE), felt(NONE), felt(NONE), felt(NONE)]
}

fn invoke_input() -> Vec<Felt> {
    vec![felt(0x10), felt(0x20), felt(2), felt(7), felt(8), felt(NONE), felt(NONE), felt(NONE), felt(NONE)]
}

#[test]
fn deploy_is_not_resubmitted_in_a_later_run() {
    let mut client = StubClient::new(vec![felt(0xABC)]);
    let mut run1 = with_account(StateManager::new());
    let out1 = fire(&mut run1, &mut client, "deploy", &deploy_input(0x1, 0x5)).unwrap().unwrap();
    assert_eq!(values(&out1), values(&[felt(0), felt(0xABC)]));
    assert_eq!(client.calls, 1);

    let mut run2 = with_account(run1.state);
    let out2 = fire(&mut run2, &mut client, "deploy", &deploy_input(0x1, 0x5)).unwrap().unwrap();
    assert_eq!(values(&out2), values(&[felt(0), felt(0xABC)]));
    assert_eq!(client.calls, 1);

    let out3 = fire(&mut run2, &mut client, "deploy", &deploy_input(0x1, 0x6)).unwrap().unwrap();
    assert_eq!(values(&out3), values(&[felt(0), felt(0xABC)]));
    assert_eq!(client.calls, 2);
}

#[test]
fn declare_twice_in_one_script_submits_once() {
    let mut client = StubClient::new(vec![felt(0x77), felt(0x88)]);
    let mut ext = with_account(StateManager::new());
    let first = fire(&mut ext, &mut client, "declare", &declare_input("Map")).unwrap().unwrap();
    let second = fire(&mut ext, &mut client, "declare", &declare_input("Map")).unwrap().unwrap();
    assert_eq!(client.calls, 1);
    assert_eq!(values(&first), values(&[felt(0), felt(0x77), felt(0x88)]));
    assert_eq!(values(&second), values(&first));
}

#[test]
fn queries_leave_no_ledger_entries() {
    let mut client = StubClient::new(vec![felt(3)]);
    let mut ext = with_account(StateManager::new());
    for _ in 0..3 {
        let call = vec![felt(0x10), felt(0x20), felt(1), felt(9)];
        let out = fire(&mut ext, &mut client, "call", &call).unwrap().unwrap();
        assert_eq!(values(&out), values(&[felt(0), felt(3)]));
        let nonce = fire(&mut ext, &mut client, "get_nonce", &vec![short("latest")]).unwrap().unwrap();
        assert_eq!(values(&nonce), values(&[felt(3)]));
    }
    assert_eq!(client.calls, 6);
    assert_eq!(ext.state.entries().len(), 0);
}

#[test]
fn invoke_rerun_after_success_makes_no_submission() {
    let mut client = StubClient::new(vec![felt(0xfee)]);
    let mut run1 = with_account(StateManager::new());
    fire(&mut run1, &mut client, "invoke", &invoke_input()).unwrap();
    let mut run2 = with_account(run1.state);
    let out = fire(&mut run2, &mut client, "invoke", &invoke_input()).unwrap().unwrap();
    assert_eq!(client.calls, 1);
    assert_eq!(values(&out), values(&[felt(0), felt(0xfee)]));
}

#[test]
fn failed_action_is_not_recorded_and_is_retried() {
    let mut client = StubClient::new(vec![felt(0xe)]);
    client.succeed = false;
    let mut ext = with_account(StateManager::new());
    let out = fire(&mut ext, &mut client, "invoke", &invoke_input()).unwrap().unwrap();
    assert_eq!(values(&out), values(&[felt(1), felt(0xe)]));
    assert_eq!(ext.state.entries().len(), 0);
    let again = ext.handle_cheatcode("invoke", &invoke_input()).unwrap();
    assert!(matches!(again, CheatcodeHandlingResult::Perform(Request::Invoke { .. })));
    client.succeed = true;
    fire(&mut ext, &mut client, "invoke", &invoke_input()).unwrap();
    assert_eq!(client.calls, 2);
    assert_eq!(ext.state.entries().len(), 1);
    assert_eq!(ext.state.entries()[0].selector, "invoke");
}

#[test]
fn unknown_selector_is_forwarded() {
    let ext = with_account(StateManager::new());
    let r = ext.handle_cheatcode("start_prank", &vec![felt(1), felt(2)]).unwrap();
    assert!(matches!(r, CheatcodeHandlingResult::Forwarded));
    let r = ext.handle_cheatcode("", &vec![]).unwrap();
    assert!(matches!(r, CheatcodeHandlingResult::Forwarded));
}

#[test]
fn mutating_cheat_without_account_fails_without_network() {
    let mut client = StubClient::new(vec![felt(1)]);
    let mut ext = CastScriptExtension { account: None, state: StateManager::new() };
    for (sel, input) in [
        ("declare", declare_input("A")),
        ("deploy", deploy_input(1, 5)),
        ("invoke", invoke_input()),
        ("get_nonce", vec![short("latest")]),
    ] {
        assert_eq!(fire(&mut ext, &mut client, sel, &input).unwrap_err(), CheatError::AccountNotDefined);
    }
    assert_eq!(client.calls, 0);
    assert_eq!(ext.account().unwrap_err(), CheatError::AccountNotDefined);
}

#[test]
fn fingerprints_of_different_kinds_differ() {
    let raw = vec![felt(5), felt(6)];
    let bytes: Vec<u8> = raw.iter().flat_map(|f| f.bytes).collect();
    let declare = generate_declare_tx_id(&bytes);
    let deploy = generate_deploy_tx_id(&felt(5), &vec![felt(6)], &None, false);
    let invoke = generate_invoke_tx_id(&felt(5), &felt(6), &vec![]);
    assert_ne!(declare, deploy);
    assert_ne!(declare, invoke);
    assert_ne!(deploy, invoke);
    assert_eq!(declare[0], 1);
    assert_eq!(deploy[0], 2);
    assert_eq!(invoke[0], 3);
}

#[test]
fn fingerprint_layout() {
    assert_eq!(generate_declare_tx_id(&b"ab".to_vec()), vec![1, 1, b'a', 1, b'b', 0]);
    let mut expected = vec![2u8];
    expected.extend_from_slice(&felt(1).bytes);
    expected.push(0);
    expected.push(1);
    expected.extend_from_slice(&felt(5).bytes);
    expected.push(1);
    assert_eq!(generate_deploy_tx_id(&felt(1), &vec![], &Some(felt(5)), true), expected);
    let with_data = generate_deploy_tx_id(&felt(1), &vec![felt(9)], &Some(felt(5)), true);
    assert_eq!(with_data.len(), expected.len() + 33);
    assert_ne!(with_data, expected);
}

#[test]
fn tx_status_and_call_are_queries() {
    let ext = CastScriptExtension { account: None, state: StateManager::new() };
    let r = ext.handle_cheatcode("tx_status", &vec![felt(0x99)]).unwrap();
    match r {
        CheatcodeHandlingResult::Perform(Request::TxStatus { transaction_hash }) => {
            assert_eq!(transaction_hash.bytes, felt(0x99).bytes)
        }
        other => panic!("unexpected {other:?}"),
    }
    let r = ext.handle_cheatcode("call", &vec![felt(1), felt(2), felt(2), felt(3), felt(4)]).unwrap();
    match r {
        CheatcodeHandlingResult::Perform(Request::Call { contract_address, function_selector, calldata }) => {
            assert_eq!(contract_address.bytes, felt(1).bytes);
            assert_eq!(function_selector.bytes, felt(2).bytes);
            assert_eq!(values(&calldata), values(&[felt(3), felt(4)]));
        }
        other => panic!("unexpected {other:?}"),
    }
}

#[test]
fn get_nonce_reads_block_tag_and_account() {
    let ext = with_account(StateManager::new());
    match ext.handle_cheatcode("get_nonce", &vec![short("pending")]).unwrap() {
        CheatcodeHandlingResult::Perform(Request::GetNonce { block_id, account_address }) => {
            assert_eq!(block_id, b"pending".to_vec());
            assert_eq!(account_address.bytes, felt(0x1234).bytes);
        }
        other => panic!("unexpected {other:?}"),
    }
    let mut bad = short("ab");
    bad.bytes[30] = 0x01;
    assert_eq!(ext.handle_cheatcode("get_nonce", &vec![bad]).unwrap_err(), CheatError::InvalidArguments);
}

#[test]
fn failed_nonce_query_is_an_error() {
    let mut client = StubClient::new(vec![]);
    client.succeed = false;
    let mut ext = with_account(StateManager::new());
    assert_eq!(
        fire(&mut ext, &mut client, "get_nonce", &vec![short("latest")]).unwrap_err(),
        CheatError::NonceQueryFailed
    );
}

#[test]
fn malformed_arguments_are_refused() {
    let ext = with_account(StateManager::new());
    assert_eq!(ext.handle_cheatcode("call", &vec![felt(1)]).unwrap_err(), CheatError::InvalidArguments);
    let mut input = deploy_input(1, 5);
    input[4] = felt(2);
    assert_eq!(ext.handle_cheatcode("deploy", &input).unwrap_err(), CheatError::InvalidArguments);
    assert_eq!(ext.handle_cheatcode("declare", &vec![felt(1)]).unwrap_err(), CheatError::InvalidArguments);
    assert_eq!(ext.handle_cheatcode("tx_status", &vec![]).unwrap_err(), CheatError::InvalidArguments);
}

#[test]
fn declared_name_is_decoded_from_byte_array() {
    let ext = with_account(StateManager::new());
    let mut word = [0u8; 32];
    for (i, b) in word[1..].iter_mut().enumerate() {
        *b = b'a' + (i % 26) as u8;
    }
    let input = vec![felt(1), Felt { bytes: word }, short("xy"), felt(2), felt(NONE), felt(NONE), felt(NONE), felt(SOME), felt(4)];
    match ext.handle_cheatcode("declare", &input).unwrap() {
        CheatcodeHandlingResult::Perform(Request::Declare { contract, nonce, .. }) => {
            let mut expected: Vec<u8> = word[1..].to_vec();
            expected.extend_from_slice(b"xy");
            assert_eq!(contract, expected);
            assert_eq!(nonce.unwrap().bytes, felt(4).bytes);
        }
        other => panic!("unexpected {other:?}"),
    }
}

#[test]
fn system_calls_are_refused() {
    let ext = with_account(StateManager::new());
    assert_eq!(ext.override_system_call(), Err(CheatError::SyscallsUnsupported));
}

#[test]
fn ledger_keeps_first_entry_per_fingerprint() {
    let entries = vec![
        LedgerEntry { tx_id: vec![1, 2], selector: "deploy".to_string(), output: vec![felt(1)] },
        LedgerEntry { tx_id: vec![1, 2], selector: "deploy".to_string(), output: vec![felt(2)] },
        LedgerEntry { tx_id: vec![3], selector: "invoke".to_string(), output: vec![] },
    ];
    let ledger = StateManager::from_entries(entries);
    assert_eq!(ledger.entries().len(), 2);
    assert_eq!(values(&ledger.get_output_if_success(&vec![1, 2]).unwrap()), values(&[felt(1)]));
    assert!(ledger.get_output_if_success(&vec![9]).is_none());
}

#[test]
fn ledger_records_success_once() {
    let mut ledger = StateManager::new();
    assert!(!ledger.maybe_insert_tx_entry(&vec![7], "invoke", &ActionResult::Failure(vec![felt(1)])));
    assert!(ledger.maybe_insert_tx_entry(&vec![7], "invoke", &ActionResult::Success(vec![felt(2)])));
    assert!(!ledger.maybe_insert_tx_entry(&vec![7], "invoke", &ActionResult::Success(vec![felt(3)])));
    assert_eq!(values(&ledger.get_output_if_success(&vec![7]).unwrap()), values(&[felt(2)]));
}

#[test]
fn fingerprints_of_one_kind_follow_parameters() {
    let base = generate_deploy_tx_id(&felt(1), &vec![felt(2)], &Some(felt(5)), true);
    assert_ne!(base, generate_deploy_tx_id(&felt(1), &vec![felt(2)], &Some(felt(6)), true));
    assert_ne!(base, generate_deploy_tx_id(&felt(1), &vec![felt(2)], &Some(felt(5)), false));
    assert_ne!(base, generate_deploy_tx_id(&felt(1), &vec![felt(2)], &None, true));
    assert_ne!(base, generate_deploy_tx_id(&felt(1), &vec![felt(2), felt(5)], &None, true));
    assert_eq!(base, generate_deploy_tx_id(&felt(1), &vec![felt(2)], &Some(felt(5)), true));
    assert_ne!(generate_declare_tx_id(&b"ab".to_vec()), generate_declare_tx_id(&b"a".to_vec()));
    assert_ne!(
        generate_invoke_tx_id(&felt(1), &felt(2), &vec![felt(3)]),
        generate_invoke_tx_id(&felt(1), &felt(3), &vec![felt(3)])
    );
}

#[test]
fn felt_small_values_and_short_strings() {
    assert_eq!(felt(0xdead_beef).to_u64(), Some(0xdead_beef));
    assert_eq!(felt(u64::MAX).to_u64(), Some(u64::MAX));
    let mut big = felt(1);
    big.bytes[0] = 1;
    assert_eq!(big.to_u64(), None);
    assert_eq!(short("latest").to_short_string(), Some(b"latest".to_vec()));
    assert_eq!(Felt::zero().to_short_string(), Some(vec![]));
    let mut gap = short("ab");
    gap.bytes[31] = 0;
    assert_eq!(gap.to_short_string(), Some(b"a".to_vec()));
    let mut inner_zero = short("abc");
    inner_zero.bytes[30] = 0;
    assert_eq!(inner_zero.to_short_string(), None);
    assert_eq!(Felt::from_byte(7).bytes, felt(7).bytes);
}

#[test]
fn reloaded_ledger_replays_recorded_output() {
    let mut client = StubClient::new(vec![felt(0xABC)]);
    let mut run1 = with_account(StateManager::new());
    fire(&mut run1, &mut client, "deploy", &deploy_input(0x1, 0x5)).unwrap();
    let saved: Vec<LedgerEntry> = run1
        .state
        .entries()
        .iter()
        .map(|e| LedgerEntry { tx_id: e.tx_id.clone(), selector: e.selector.clone(), output: e.output.clone() })
        .collect();
    let mut run2 = with_account(StateManager::from_entries(saved));
    let out = fire(&mut run2, &mut client, "deploy", &deploy_input(0x1, 0x5)).unwrap().unwrap();
    assert_eq!(values(&out), values(&[felt(0), felt(0xABC)]));
    assert_eq!(client.calls, 1);
}

#[test]
fn entry_of_other_kind_does_not_answer() {
    let mut client = StubClient::new(vec![felt(0x5)]);
    let mut ext = with_account(StateManager::new());
    let input = vec![felt(0x10), felt(0x20), felt(0), felt(NONE), felt(NONE), felt(NONE), felt(NONE)];
    fire(&mut ext, &mut client, "invoke", &input).unwrap();
    let deploy = vec![felt(0x10), felt(0), felt(NONE), felt(0), felt(NONE), felt(NONE), felt(NONE), felt(NONE)];
    let r = ext.handle_cheatcode("deploy", &deploy).unwrap();
    assert!(matches!(r, CheatcodeHandlingResult::Perform(Request::Deploy { .. })));
    assert_eq!(client.calls, 1);
}
