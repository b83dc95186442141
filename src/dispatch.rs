//! The cheat dispatcher: decides, for each named operation that a script
//! fires, whether it is answered from the ledger, needs the network, or is
//! left to the next handler, and records successful mutating actions once the
//! network has answered.
//!
//! The dispatcher never performs network work itself. `handle_cheatcode`
//! returns a `Request` to perform; the host runs it to completion and hands
//! the outcome to `complete`, which returns the felts for the script. A
//! single request is outstanding at a time because the host waits for each
//! one before the script resumes.
use vstd::prelude::*;
use crate::felt::{Felt, felt_of_byte, short_string};
use crate::reader::{
    FeeSettings, spec_read_felt, spec_read_array, spec_read_byte_array, spec_read_bool,
    spec_read_option, spec_read_fee_settings, read_felt, read_array, read_byte_array, read_bool,
    read_option, read_fee_settings,
};
use crate::fingerprint::{
    declare_id, deploy_id, invoke_id, generate_declare_tx_id, generate_deploy_tx_id,
    generate_invoke_tx_id,
};
use crate::ledger::{
    ActionResult, LedgerEntry, LedgerRecord, StateManager, ledger_after, describes, loaded_from,
    lemma_reload_preserves_ledger,
};

verus! {

/// Work that only the network can do, decoded from a cheat's arguments.
#[derive(Debug)]
pub enum Request {
    Call { contract_address: Felt, function_selector: Felt, calldata: Vec<Felt> },
    Declare { contract: Vec<u8>, fee_settings: FeeSettings, nonce: Option<Felt> },
    Deploy {
        class_hash: Felt,
        constructor_calldata: Vec<Felt>,
        salt: Option<Felt>,
        unique: bool,
        fee_settings: FeeSettings,
        nonce: Option<Felt>,
    },
    Invoke {
        contract_address: Felt,
        function_selector: Felt,
        calldata: Vec<Felt>,
        fee_settings: FeeSettings,
        nonce: Option<Felt>,
    },
    GetNonce { block_id: Vec<u8>, account_address: Felt },
    TxStatus { transaction_hash: Felt },
}

pub enum RequestModel {
    Call { contract_address: Felt, function_selector: Felt, calldata: Seq<Felt> },
    Declare { contract: Seq<u8>, fee_settings: FeeSettings, nonce: Option<Felt> },
    Deploy {
        class_hash: Felt,
        constructor_calldata: Seq<Felt>,
        salt: Option<Felt>,
        unique: bool,
        fee_settings: FeeSettings,
        nonce: Option<Felt>,
    },
    Invoke {
        contract_address: Felt,
        function_selector: Felt,
        calldata: Seq<Felt>,
        fee_settings: FeeSettings,
        nonce: Option<Felt>,
    },
    GetNonce { block_id: Seq<u8>, account_address: Felt },
    TxStatus { transaction_hash: Felt },
}

impl View for Request {
    type V = RequestModel;

    open spec fn view(&self) -> RequestModel {
        match self {
            Request::Call { contract_address, function_selector, calldata } => RequestModel::Call {
                contract_address: *contract_address,
                function_selector: *function_selector,
                calldata: calldata@,
            },
            Request::Declare { contract, fee_settings, nonce } => RequestModel::Declare {
                contract: contract@,
                fee_settings: *fee_settings,
                nonce: *nonce,
            },
            Request::Deploy { class_hash, constructor_calldata, salt, unique, fee_settings, nonce } =>
                RequestModel::Deploy {
                class_hash: *class_hash,
                constructor_calldata: constructor_calldata@,
                salt: *salt,
                unique: *unique,
                fee_settings: *fee_settings,
                nonce: *nonce,
            },
            Request::Invoke { contract_address, function_selector, calldata, fee_settings, nonce } =>
                RequestModel::Invoke {
                contract_address: *contract_address,
                function_selector: *function_selector,
                calldata: calldata@,
                fee_settings: *fee_settings,
                nonce: *nonce,
            },
            Request::GetNonce { block_id, account_address } => RequestModel::GetNonce {
                block_id: block_id@,
                account_address: *account_address,
            },
            Request::TxStatus { transaction_hash } => RequestModel::TxStatus {
                transaction_hash: *transaction_hash,
            },
        }
    }
}

/// What the dispatcher does with one cheat.
#[derive(Debug)]
pub enum CheatcodeHandlingResult {
    /// Not a cheat of this handler: the next handler gets it unchanged.
    Forwarded,
    /// Answered at once, with these felts.
    Handled(Vec<Felt>),
    /// Needs the network: perform it and pass the outcome to `complete`.
    Perform(Request),
}

pub enum HandlingModel {
    Forwarded,
    Handled(Seq<Felt>),
    Perform(RequestModel),
}

impl View for CheatcodeHandlingResult {
    type V = HandlingModel;

    open spec fn view(&self) -> HandlingModel {
        match self {
            CheatcodeHandlingResult::Forwarded => HandlingModel::Forwarded,
            CheatcodeHandlingResult::Handled(v) => HandlingModel::Handled(v@),
            CheatcodeHandlingResult::Perform(r) => HandlingModel::Perform(r@),
        }
    }
}

/// Errors that end the script run as a failure of the host.
#[derive(Debug, Clone, Copy, PartialEq, Eq)]
pub enum CheatError {
    /// A mutating action, or a nonce query, without a configured account.
    AccountNotDefined,
    /// The cheat's arguments do not decode.
    InvalidArguments,
    /// The nonce query failed.
    NonceQueryFailed,
    /// The script attempted a state-changing operation of the VM itself.
    SyscallsUnsupported,
}

pub open spec fn spec_decode_call(input: Seq<Felt>) -> Option<RequestModel> {
    match spec_read_felt(input, 0) {
        Some((a, p)) => match spec_read_felt(input, p) {
            Some((s, q)) => match spec_read_array(input, q) {
                Some((c, _)) => Some(
                    RequestModel::Call { contract_address: a, function_selector: s, calldata: c },
                ),
                None => None,
            },
            None => None,
        },
        None => None,
    }
}

pub open spec fn spec_decode_declare(input: Seq<Felt>) -> Option<RequestModel> {
    match spec_read_byte_array(input, 0) {
        Some((c, p)) => match spec_read_fee_settings(input, p) {
            Some((f, q)) => match spec_read_option(input, q) {
                Some((n, _)) => Some(RequestModel::Declare { contract: c, fee_settings: f, nonce: n }),
                None => None,
            },
            None => None,
        },
        None => None,
    }
}

pub open spec fn spec_decode_deploy(input: Seq<Felt>) -> Option<RequestModel> {
    match spec_read_felt(input, 0) {
        Some((h, at1)) => match spec_read_array(input, at1) {
            Some((c, at2)) => match spec_read_option(input, at2) {
                Some((s, at3)) => match spec_read_bool(input, at3) {
                    Some((u, at4)) => match spec_read_fee_settings(input, at4) {
                        Some((f, at5)) => match spec_read_option(input, at5) {
                            Some((n, _)) => Some(
                                RequestModel::Deploy {
                                    class_hash: h,
                                    constructor_calldata: c,
                                    salt: s,
                                    unique: u,
                                    fee_settings: f,
                                    nonce: n,
                                },
                            ),
                            None => None,
                        },
                        None => None,
                    },
                    None => None,
                },
                None => None,
            },
            None => None,
        },
        None => None,
    }
}

pub open spec fn spec_decode_invoke(input: Seq<Felt>) -> Option<RequestModel> {
    match spec_read_felt(input, 0) {
        Some((a, at1)) => match spec_read_felt(input, at1) {
            Some((s, at2)) => match spec_read_array(input, at2) {
                Some((c, at3)) => match spec_read_fee_settings(input, at3) {
                    Some((f, at4)) => match spec_read_option(input, at4) {
                        Some((n, _)) => Some(
                            RequestModel::Invoke {
                                contract_address: a,
                                function_selector: s,
                                calldata: c,
                                fee_settings: f,
                                nonce: n,
                            },
                        ),
                        None => None,
                    },
                    None => None,
                },
                None => None,
            },
            None => None,
        },
        None => None,
    }
}

pub open spec fn spec_decode_get_nonce(input: Seq<Felt>, account_address: Felt) -> Option<RequestModel> {
    match spec_read_felt(input, 0) {
        Some((b, _)) => match short_string(b) {
            Some(t) => Some(RequestModel::GetNonce { block_id: t, account_address }),
            None => None,
        },
        None => None,
    }
}

pub open spec fn spec_decode_tx_status(input: Seq<Felt>) -> Option<RequestModel> {
    match spec_read_felt(input, 0) {
        Some((h, _)) => Some(RequestModel::TxStatus { transaction_hash: h }),
        None => None,
    }
}

/// The selectors of actions that change chain state.
pub open spec fn is_mutating_selector(sel: Seq<char>) -> bool {
    sel == "declare"@ || sel == "deploy"@ || sel == "invoke"@
}

/// The selectors that this dispatcher handles.
pub open spec fn is_known_selector(sel: Seq<char>) -> bool {
    is_mutating_selector(sel) || sel == "call"@ || sel == "get_nonce"@ || sel == "tx_status"@
}

pub open spec fn spec_decode_mutating(sel: Seq<char>, input: Seq<Felt>) -> Option<RequestModel> {
    if sel == "declare"@ {
        spec_decode_declare(input)
    } else if sel == "deploy"@ {
        spec_decode_deploy(input)
    } else {
        spec_decode_invoke(input)
    }
}

/// The fingerprint of a mutating request.
pub open spec fn fingerprint_of(req: RequestModel) -> Option<Seq<u8>> {
    match req {
        RequestModel::Declare { contract, .. } => Some(declare_id(contract)),
        RequestModel::Deploy { class_hash, constructor_calldata, salt, unique, .. } => Some(
            deploy_id(class_hash, constructor_calldata, salt, unique),
        ),
        RequestModel::Invoke { contract_address, function_selector, calldata, .. } => Some(
            invoke_id(contract_address, function_selector, calldata),
        ),
        _ => None,
    }
}

/// The selector under which a mutating request is recorded.
pub open spec fn selector_of(req: RequestModel) -> Seq<char> {
    match req {
        RequestModel::Declare { .. } => "declare"@,
        RequestModel::Deploy { .. } => "deploy"@,
        _ => "invoke"@,
    }
}

/// The felts that a script receives for an action's outcome: a `Result`,
/// variant 0 with the response or variant 1 with the error.
pub open spec fn encode_result(result: ActionResult) -> Seq<Felt> {
    match result {
        ActionResult::Success(p) => seq![felt_of_byte(0)] + p@,
        ActionResult::Failure(p) => seq![felt_of_byte(1)] + p@,
    }
}

/// The felts that a script receives for a successful action whose response
/// is `output`.
pub open spec fn encode_success(output: Seq<Felt>) -> Seq<Felt> {
    seq![felt_of_byte(0)] + output
}

/// What the dispatcher decides for the cheat `sel` with arguments `input`,
/// given the account (its address, if one is configured) and the ledger.
pub open spec fn dispatch_spec(
    account: Option<Felt>,
    ledger: Map<Seq<u8>, LedgerRecord>,
    sel: Seq<char>,
    input: Seq<Felt>,
) -> Result<HandlingModel, CheatError> {
    if sel == "call"@ {
        match spec_decode_call(input) {
            Some(req) => Ok(HandlingModel::Perform(req)),
            None => Err(CheatError::InvalidArguments),
        }
    } else if is_mutating_selector(sel) {
        if account is None {
            Err(CheatError::AccountNotDefined)
        } else {
            match spec_decode_mutating(sel, input) {
                Some(req) => {
                    let id = fingerprint_of(req)->Some_0;
                    if ledger.contains_key(id) {
                        Ok(HandlingModel::Handled(encode_success(ledger[id].output)))
                    } else {
                        Ok(HandlingModel::Perform(req))
                    }
                },
                None => Err(CheatError::InvalidArguments),
            }
        }
    } else if sel == "get_nonce"@ {
        match account {
            Some(a) => match spec_decode_get_nonce(input, a) {
                Some(req) => Ok(HandlingModel::Perform(req)),
                None => Err(CheatError::InvalidArguments),
            },
            None => Err(CheatError::AccountNotDefined),
        }
    } else if sel == "tx_status"@ {
        match spec_decode_tx_status(input) {
            Some(req) => Ok(HandlingModel::Perform(req)),
            None => Err(CheatError::InvalidArguments),
        }
    } else {
        Ok(HandlingModel::Forwarded)
    }
}

/// The ledger after the outcome of `req` has been handed back.
pub open spec fn ledger_after_outcome(
    ledger: Map<Seq<u8>, LedgerRecord>,
    req: RequestModel,
    result: ActionResult,
) -> Map<Seq<u8>, LedgerRecord> {
    match fingerprint_of(req) {
        Some(id) => ledger_after(ledger, id, selector_of(req), result),
        None => ledger,
    }
}

/// The felts that the script receives for the outcome of `req`. A nonce query
/// answers with the nonce alone, and its failure ends the run.
pub open spec fn output_of(req: RequestModel, result: ActionResult) -> Result<Seq<Felt>, CheatError> {
    match req {
        RequestModel::GetNonce { .. } => match result {
            ActionResult::Success(p) => Ok(p@),
            ActionResult::Failure(_) => Err(CheatError::NonceQueryFailed),
        },
        _ => Ok(encode_result(result)),
    }
}

pub(crate) fn str_is(s: &str, lit: &str) -> (r: bool)
    ensures
        r == (s@ == lit@),
{
    let a = s.to_owned();
    let b = lit.to_owned();
    a == b
}

/// The dispatcher's state: the configured account's address, if any, and the
/// ledger of successful transactions.
pub struct CastScriptExtension {
    pub account: Option<Felt>,
    pub state: StateManager,
}

impl CastScriptExtension {
    pub open spec fn wf(&self) -> bool {
        self.state.wf()
    }

    /// The configured account, or the error for a missing one.
    pub fn account(&self) -> (r: Result<Felt, CheatError>)
        ensures
            match self.account {
                Some(a) => r == Ok::<Felt, CheatError>(a),
                None => r == Err::<Felt, CheatError>(CheatError::AccountNotDefined),
            },
    {
        match self.account {
            Some(a) => Ok(a),
            None => Err(CheatError::AccountNotDefined),
        }
    }

    fn decode_call(input: &Vec<Felt>) -> (r: Option<Request>)
        ensures
            match r {
                Some(req) => spec_decode_call(input@) == Some(req@),
                None => spec_decode_call(input@) is None,
            },
    {
        let (contract_address, p) = match read_felt(input, 0) { Some(x) => x, None => return None };
        let (function_selector, q) = match read_felt(input, p) { Some(x) => x, None => return None };
        let (calldata, _) = match read_array(input, q) { Some(x) => x, None => return None };
        Some(Request::Call { contract_address, function_selector, calldata })
    }

    fn decode_declare(input: &Vec<Felt>) -> (r: Option<Request>)
        ensures
            match r {
                Some(req) => spec_decode_declare(input@) == Some(req@),
                None => spec_decode_declare(input@) is None,
            },
    {
        let (contract, p) = match read_byte_array(input, 0) { Some(x) => x, None => return None };
        let (fee_settings, q) = match read_fee_settings(input, p) { Some(x) => x, None => return None };
        let (nonce, _) = match read_option(input, q) { Some(x) => x, None => return None };
        Some(Request::Declare { contract, fee_settings, nonce })
    }

    fn decode_deploy(input: &Vec<Felt>) -> (r: Option<Request>)
        ensures
            match r {
                Some(req) => spec_decode_deploy(input@) == Some(req@),
                None => spec_decode_deploy(input@) is None,
            },
    {
        let (class_hash, at1) = match read_felt(input, 0) { Some(x) => x, None => return None };
        let (constructor_calldata, at2) = match read_array(input, at1) { Some(x) => x, None => return None };
        let (salt, at3) = match read_option(input, at2) { Some(x) => x, None => return None };
        let (unique, at4) = match read_bool(input, at3) { Some(x) => x, None => return None };
        let (fee_settings, at5) = match read_fee_settings(input, at4) { Some(x) => x, None => return None };
        let (nonce, _) = match read_option(input, at5) { Some(x) => x, None => return None };
        Some(Request::Deploy { class_hash, constructor_calldata, salt, unique, fee_settings, nonce })
    }

    fn decode_invoke(input: &Vec<Felt>) -> (r: Option<Request>)
        ensures
            match r {
                Some(req) => spec_decode_invoke(input@) == Some(req@),
                None => spec_decode_invoke(input@) is None,
            },
    {
        let (contract_address, at1) = match read_felt(input, 0) { Some(x) => x, None => return None };
        let (function_selector, at2) = match read_felt(input, at1) { Some(x) => x, None => return None };
        let (calldata, at3) = match read_array(input, at2) { Some(x) => x, None => return None };
        let (fee_settings, at4) = match read_fee_settings(input, at3) { Some(x) => x, None => return None };
        let (nonce, _) = match read_option(input, at4) { Some(x) => x, None => return None };
        Some(Request::Invoke { contract_address, function_selector, calldata, fee_settings, nonce })
    }

    /// The fingerprint of a mutating request.
    pub fn tx_id(req: &Request) -> (r: Option<Vec<u8>>)
        ensures
            match r {
                Some(id) => fingerprint_of(req@) == Some(id@),
                None => fingerprint_of(req@) is None,
            },
    {
        match req {
            Request::Declare { contract, .. } => Some(generate_declare_tx_id(contract)),
            Request::Deploy { class_hash, constructor_calldata, salt, unique, .. } => Some(
                generate_deploy_tx_id(class_hash, constructor_calldata, salt, *unique),
            ),
            Request::Invoke { contract_address, function_selector, calldata, .. } => Some(
                generate_invoke_tx_id(contract_address, function_selector, calldata),
            ),
            _ => None,
        }
    }

    /// Decides what to do with the cheat `selector` fired with arguments
    /// `input`. A mutating action whose fingerprint is in the ledger is
    /// answered from it; one that is not, and every query, needs the network.
    pub fn handle_cheatcode(&self, selector: &str, input: &Vec<Felt>) -> (r: Result<
        CheatcodeHandlingResult,
        CheatError,
    >)
        requires
            self.wf(),
        ensures
            match r {
                Ok(h) => dispatch_spec(self.account, self.state@, selector@, input@) == Ok::<
                    HandlingModel,
                    CheatError,
                >(h@),
                Err(e) => dispatch_spec(self.account, self.state@, selector@, input@) == Err::<
                    HandlingModel,
                    CheatError,
                >(e),
            },
    {
        if str_is(selector, "call") {
            match Self::decode_call(input) {
                Some(req) => Ok(CheatcodeHandlingResult::Perform(req)),
                None => Err(CheatError::InvalidArguments),
            }
        } else if str_is(selector, "declare") || str_is(selector, "deploy") || str_is(
            selector,
            "invoke",
        ) {
            if self.account.is_none() {
                return Err(CheatError::AccountNotDefined);
            }
            let decoded = if str_is(selector, "declare") {
                Self::decode_declare(input)
            } else if str_is(selector, "deploy") {
                Self::decode_deploy(input)
            } else {
                Self::decode_invoke(input)
            };
            let req = match decoded {
                Some(req) => req,
                None => return Err(CheatError::InvalidArguments),
            };
            let id = match Self::tx_id(&req) {
                Some(id) => id,
                None => return Err(CheatError::InvalidArguments),
            };
            match self.state.get_output_if_success(&id) {
                Some(output) => {
                    let mut out: Vec<Felt> = Vec::new();
                    out.push(Felt::from_byte(0));
                    let mut rest = output;
                    out.append(&mut rest);
                    assert(out@ =~= encode_success(self.state@[id@].output));
                    Ok(CheatcodeHandlingResult::Handled(out))
                },
                None => Ok(CheatcodeHandlingResult::Perform(req)),
            }
        } else if str_is(selector, "get_nonce") {
            let address = match self.account() {
                Ok(a) => a,
                Err(e) => return Err(e),
            };
            let (block, _) = match read_felt(input, 0) {
                Some(x) => x,
                None => return Err(CheatError::InvalidArguments),
            };
            match block.to_short_string() {
                Some(block_id) => Ok(
                    CheatcodeHandlingResult::Perform(
                        Request::GetNonce { block_id, account_address: address },
                    ),
                ),
                None => Err(CheatError::InvalidArguments),
            }
        } else if str_is(selector, "tx_status") {
            match read_felt(input, 0) {
                Some((transaction_hash, _)) => Ok(
                    CheatcodeHandlingResult::Perform(Request::TxStatus { transaction_hash }),
                ),
                None => Err(CheatError::InvalidArguments),
            }
        } else {
            Ok(CheatcodeHandlingResult::Forwarded)
        }
    }

    /// Takes the outcome of a performed request: records a successful
    /// mutating action in the ledger, and returns the felts for the script.
    pub fn complete(&mut self, request: &Request, result: &ActionResult) -> (r: Result<
        Vec<Felt>,
        CheatError,
    >)
        requires
            old(self).wf(),
        ensures
            final(self).wf(),
            final(self).account == old(self).account,
            final(self).state@ == ledger_after_outcome(old(self).state@, request@, *result),
            match r {
                Ok(out) => output_of(request@, *result) == Ok::<Seq<Felt>, CheatError>(out@),
                Err(e) => output_of(request@, *result) == Err::<Seq<Felt>, CheatError>(e),
            },
    {
        match Self::tx_id(request) {
            Some(id) => {
                let selector = match request {
                    Request::Declare { .. } => "declare",
                    Request::Deploy { .. } => "deploy",
                    _ => "invoke",
                };
                self.state.maybe_insert_tx_entry(&id, selector, result);
            },
            None => {},
        }
        match request {
            Request::GetNonce { .. } => match result {
                ActionResult::Success(p) => Ok(copy_felts(p)),
                ActionResult::Failure(_) => Err(CheatError::NonceQueryFailed),
            },
            _ => {
                let mut out: Vec<Felt> = Vec::new();
                let payload = match result {
                    ActionResult::Success(p) => {
                        out.push(Felt::from_byte(0));
                        p
                    },
                    ActionResult::Failure(p) => {
                        out.push(Felt::from_byte(1));
                        p
                    },
                };
                let mut rest = copy_felts(payload);
                out.append(&mut rest);
                assert(out@ =~= encode_result(*result));
                Ok(out)
            },
        }
    }

    /// The inner link of the handler chain: a state-changing operation of the
    /// VM itself is refused, so that scripts change state only through cheats.
    pub fn override_system_call(&self) -> (r: Result<(), CheatError>)
        ensures
            r == Err::<(), CheatError>(CheatError::SyscallsUnsupported),
    {
        Err(CheatError::SyscallsUnsupported)
    }
}

proof fn lemma_selectors_distinct()
    ensures
        "call"@ != "declare"@,
        "call"@ != "deploy"@,
        "call"@ != "invoke"@,
        "declare"@ != "deploy"@,
        "declare"@ != "invoke"@,
        "deploy"@ != "invoke"@,
{
    reveal_strlit("call");
    reveal_strlit("declare");
    reveal_strlit("deploy");
    reveal_strlit("invoke");
    assert("call"@.len() != "declare"@.len());
    assert("call"@.len() != "deploy"@.len());
    assert("call"@[0] != "invoke"@[0]);
    assert("declare"@.len() != "deploy"@.len());
    assert("declare"@[0] != "invoke"@[0]);
    assert("deploy"@[0] != "invoke"@[0]);
}

proof fn lemma_mutating_request_has_fingerprint(sel: Seq<char>, input: Seq<Felt>)
    requires
        is_mutating_selector(sel),
        spec_decode_mutating(sel, input) is Some,
    ensures
        fingerprint_of(spec_decode_mutating(sel, input)->Some_0) is Some,
{
}

/// Once a mutating action has succeeded and its outcome has been recorded,
/// the same cheat with the same arguments is answered from the ledger, with
/// the felts that the first run returned, and needs no network work. This
/// holds in any later run that starts from the recorded ledger.
pub proof fn lemma_success_is_replayed(
    account: Option<Felt>,
    ledger: Map<Seq<u8>, LedgerRecord>,
    sel: Seq<char>,
    input: Seq<Felt>,
    req: RequestModel,
    result: ActionResult,
)
    requires
        is_mutating_selector(sel),
        dispatch_spec(account, ledger, sel, input) == Ok::<HandlingModel, CheatError>(
            HandlingModel::Perform(req),
        ),
        result is Success,
    ensures
        dispatch_spec(account, ledger_after_outcome(ledger, req, result), sel, input) == Ok::<
            HandlingModel,
            CheatError,
        >(HandlingModel::Handled(encode_result(result))),
        output_of(req, result) == Ok::<Seq<Felt>, CheatError>(encode_result(result)),
{
    lemma_selectors_distinct();
    lemma_mutating_request_has_fingerprint(sel, input);
}

/// A later run that loads the ledger saved after a successful mutating
/// action answers the same cheat from it, with the felts that the first run
/// returned, and asks for no network work.
pub proof fn lemma_success_is_replayed_after_reload(
    account: Option<Felt>,
    ledger: Map<Seq<u8>, LedgerRecord>,
    sel: Seq<char>,
    input: Seq<Felt>,
    req: RequestModel,
    result: ActionResult,
    saved: Seq<LedgerEntry>,
    loaded: Map<Seq<u8>, LedgerRecord>,
)
    requires
        is_mutating_selector(sel),
        dispatch_spec(account, ledger, sel, input) == Ok::<HandlingModel, CheatError>(
            HandlingModel::Perform(req),
        ),
        result is Success,
        describes(saved, ledger_after_outcome(ledger, req, result)),
        loaded_from(loaded, saved),
    ensures
        dispatch_spec(account, loaded, sel, input) == Ok::<HandlingModel, CheatError>(
            HandlingModel::Handled(encode_result(result)),
        ),
{
    lemma_reload_preserves_ledger(saved, ledger_after_outcome(ledger, req, result), loaded);
    lemma_success_is_replayed(account, ledger, sel, input, req, result);
}

/// A failed action leaves no entry in the ledger, which is unchanged; the
/// same cheat with the same arguments then needs the network again, so the
/// action is retried. More generally, the ledger only ever gains an entry
/// from a successful outcome.
pub proof fn lemma_failure_is_retried(
    account: Option<Felt>,
    ledger: Map<Seq<u8>, LedgerRecord>,
    sel: Seq<char>,
    input: Seq<Felt>,
    req: RequestModel,
    result: ActionResult,
)
    requires
        dispatch_spec(account, ledger, sel, input) == Ok::<HandlingModel, CheatError>(
            HandlingModel::Perform(req),
        ),
        result is Failure,
    ensures
        ledger_after_outcome(ledger, req, result) == ledger,
        dispatch_spec(account, ledger_after_outcome(ledger, req, result), sel, input) == Ok::<
            HandlingModel,
            CheatError,
        >(HandlingModel::Perform(req)),
{
}

/// The ledger gains entries from successful outcomes only, and never loses
/// or changes one.
pub proof fn lemma_ledger_only_grows_by_success(
    ledger: Map<Seq<u8>, LedgerRecord>,
    req: RequestModel,
    result: ActionResult,
)
    ensures
        forall|k: Seq<u8>| #[trigger] ledger.contains_key(k) ==> ledger_after_outcome(ledger, req, result).contains_key(k)
            && ledger_after_outcome(ledger, req, result)[k] == ledger[k],
        forall|k: Seq<u8>| #[trigger] ledger_after_outcome(ledger, req, result).contains_key(k) && !ledger.contains_key(k)
            ==> result is Success && ledger_after_outcome(ledger, req, result)[k].output == result->Success_0@,
{
}

/// A selector that the dispatcher does not handle is forwarded unchanged to
/// the next handler; the dispatcher's state is untouched as well, since
/// `handle_cheatcode` only reads it.
pub proof fn lemma_unknown_selector_forwarded(
    account: Option<Felt>,
    ledger: Map<Seq<u8>, LedgerRecord>,
    sel: Seq<char>,
    input: Seq<Felt>,
)
    requires
        !is_known_selector(sel),
    ensures
        dispatch_spec(account, ledger, sel, input) == Ok::<HandlingModel, CheatError>(
            HandlingModel::Forwarded,
        ),
{
}

/// Without a configured account a mutating cheat fails with the
/// configuration error, whatever its arguments and the ledger hold, and asks
/// for no network work.
pub proof fn lemma_no_account_no_network(
    ledger: Map<Seq<u8>, LedgerRecord>,
    sel: Seq<char>,
    input: Seq<Felt>,
)
    requires
        is_mutating_selector(sel),
    ensures
        dispatch_spec(None, ledger, sel, input) == Err::<HandlingModel, CheatError>(
            CheatError::AccountNotDefined,
        ),
{
    lemma_selectors_distinct();
}

/// A recorded success of one kind of action never answers a cheat of
/// another kind, even when the raw parameters are the same: the lookup
/// misses, and the cheat needs the network.
pub proof fn lemma_other_kind_entry_misses(
    account: Option<Felt>,
    prior: RequestModel,
    record: LedgerRecord,
    sel: Seq<char>,
    input: Seq<Felt>,
)
    requires
        account is Some,
        fingerprint_of(prior) is Some,
        is_mutating_selector(sel),
        selector_of(prior) != sel,
        spec_decode_mutating(sel, input) is Some,
    ensures
        dispatch_spec(
            account,
            Map::<Seq<u8>, LedgerRecord>::empty().insert(fingerprint_of(prior)->Some_0, record),
            sel,
            input,
        ) == Ok::<HandlingModel, CheatError>(HandlingModel::Perform(spec_decode_mutating(sel, input)->Some_0)),
{
    lemma_selectors_distinct();
    let req = spec_decode_mutating(sel, input)->Some_0;
    match req {
        RequestModel::Declare { contract, .. } => {
            assert(declare_id(contract)[0] == crate::fingerprint::DECLARE_TAG);
        },
        RequestModel::Deploy { class_hash, constructor_calldata, salt, unique, .. } => {
            assert(deploy_id(class_hash, constructor_calldata, salt, unique)[0] == crate::fingerprint::DEPLOY_TAG);
        },
        RequestModel::Invoke { contract_address, function_selector, calldata, .. } => {
            assert(invoke_id(contract_address, function_selector, calldata)[0] == crate::fingerprint::INVOKE_TAG);
        },
        _ => {},
    }
    match prior {
        RequestModel::Declare { contract, .. } => {
            assert(declare_id(contract)[0] == crate::fingerprint::DECLARE_TAG);
        },
        RequestModel::Deploy { class_hash, constructor_calldata, salt, unique, .. } => {
            assert(deploy_id(class_hash, constructor_calldata, salt, unique)[0] == crate::fingerprint::DEPLOY_TAG);
        },
        RequestModel::Invoke { contract_address, function_selector, calldata, .. } => {
            assert(invoke_id(contract_address, function_selector, calldata)[0] == crate::fingerprint::INVOKE_TAG);
        },
        _ => {},
    }
}

fn copy_felts(v: &Vec<Felt>) -> (r: Vec<Felt>)
    ensures
        r@ == v@,
{
    let r = crate::reader::copy_range(v, 0, v.len());
    assert(v@.subrange(0, v@.len() as int) =~= v@);
    r
}

} // verus!
