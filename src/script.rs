//! The `script run` command's arguments, the check of the script library's
//! version, and the mapping of a finished run to its reported status.
use vstd::prelude::*;
use vstd::string::StringExecFns;
use crate::felt::Felt;
use crate::reader::copy_range;

verus! {

/// How to reach the network.
#[derive(Debug)]
pub struct RpcArgs {
    /// The RPC provider's URL.
    pub url: Option<String>,
    /// A named network to use instead of a URL.
    pub network: Option<String>,
}

/// Execute a deployment script.
#[derive(Debug)]
pub struct Run {
    /// Module name that contains the `main` function, which will be executed.
    pub script_name: String,
    /// The package to use.
    pub package: Option<String>,
    /// Do not use the state file.
    pub no_state_file: bool,
    pub rpc: RpcArgs,
}

impl Run {
    /// The suffix by which the script's entry function is looked up.
    pub fn main_function_name(&self) -> (r: String)
        ensures
            r@ == self.script_name@ + "::main"@,
    {
        let mut name = self.script_name.clone();
        name.append("::main");
        name
    }
}

/// A package version: major, minor, patch and pre-release label.
#[derive(Debug)]
pub struct PackageVersion {
    pub major: u64,
    pub minor: u64,
    pub patch: u64,
    pub pre: String,
}

/// Whether `found` meets the requirement of exactly the version `required`:
/// the same major, minor and patch numbers and the same pre-release label.
pub fn version_matches_exactly(required: &PackageVersion, found: &PackageVersion) -> (r: bool)
    ensures
        r == (required.major == found.major && required.minor == found.minor && required.patch
            == found.patch && required.pre@ == found.pre@),
{
    required.major == found.major && required.minor == found.minor && required.patch == found.patch
        && required.pre == found.pre
}

/// How the script's `main` ended.
#[derive(Debug)]
pub enum RunResultValue {
    /// It returned; the felts are its return values.
    Success(Vec<Felt>),
    /// It panicked; the felts are the panic data.
    Panic(Vec<Felt>),
}

/// The reported result of a completed run: a status and the data behind the
/// message.
#[derive(Debug)]
pub struct ScriptRunResponse {
    pub status: String,
    pub data: Vec<Felt>,
}

/// Maps how `main` ended to the reported status: "success" with its return
/// values, or "script panicked" with the panic data. Both are completed
/// runs, not failures of the host.
pub fn script_response(value: &RunResultValue) -> (r: ScriptRunResponse)
    ensures
        match value {
            RunResultValue::Success(d) => r.status@ == "success"@ && r.data@ == d@,
            RunResultValue::Panic(d) => r.status@ == "script panicked"@ && r.data@ == d@,
        },
{
    match value {
        RunResultValue::Success(d) => {
            let data = copy_range(d, 0, d.len());
            assert(d@.subrange(0, d@.len() as int) =~= d@);
            ScriptRunResponse { status: "success".to_owned(), data }
        },
        RunResultValue::Panic(d) => {
            let data = copy_range(d, 0, d.len());
            assert(d@.subrange(0, d@.len() as int) =~= d@);
            ScriptRunResponse { status: "script panicked".to_owned(), data }
        },
    }
}

} // verus!
